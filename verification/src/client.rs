//! The client: a provider behind a chain of middleware.

use std::sync::Arc;

use vstd::prelude::*;

use crate::types::Request;

verus! {

/// A provider of some type, behind layers of middleware of some type.
#[derive(Debug)]
pub struct AlpineClient<P, M> {
    provider: P,
    middleware: Vec<M>,
}

/// How a client is set up.
pub struct ClientView<P, M> {
    pub provider: P,
    /// The layers in the order in which they were added.
    pub middleware: Seq<M>,
}

impl<P, M> View for AlpineClient<P, M> {
    type V = ClientView<P, M>;

    closed spec fn view(&self) -> ClientView<P, M> {
        ClientView { provider: self.provider, middleware: self.middleware@ }
    }
}

/// The rest of the middleware chain and the provider call.
#[derive(Debug)]
pub struct Next {
    depth: usize,
}

impl View for Next {
    type V = nat;

    /// How many layers lie behind.
    closed spec fn view(&self) -> nat {
        self.depth as nat
    }
}

/// Whom a request goes to next.
#[derive(Debug)]
pub enum Call<'a, P, M> {
    /// A layer of middleware, which is also given the rest of the chain.
    Middleware { layer: &'a M, req: Request, next: Next },
    /// The provider itself.
    Provider { provider: &'a P, req: Request },
}

/// A stop of a request on its way.
pub enum Stop<P, M> {
    Layer(M),
    Provider(P),
}

/// Where a request stops behind so many layers.
pub open spec fn stop_behind<P, M>(client: ClientView<P, M>, depth: nat) -> Stop<P, M> {
    if depth < client.middleware.len() {
        Stop::Layer(client.middleware[depth as int])
    } else {
        Stop::Provider(client.provider)
    }
}

/// Whether a call is the one that a request meets behind so many layers: the next
/// layer, or the provider behind the last one.
pub open spec fn call_behind<P, M>(
    call: Call<'_, P, M>,
    client: ClientView<P, M>,
    depth: nat,
    req: Request,
) -> bool {
    match stop_behind(client, depth) {
        Stop::Layer(m) => call matches Call::Middleware { layer, req: q, next } && *layer == m && q
            == req && next@ == depth + 1,
        Stop::Provider(p) => call matches Call::Provider { provider, req: q } && *provider == p
            && q == req,
    }
}

impl<P, M> AlpineClient<P, M> {
    pub fn new(provider: P) -> (r: Self)
        ensures
            r@.provider == provider,
            r@.middleware == Seq::<M>::empty(),
    {
        AlpineClient { provider, middleware: Vec::new() }
    }

    /// Adds a layer, inside those that are there.
    pub fn with_middleware(self, m: M) -> (r: Self)
        ensures
            r@.provider == self@.provider,
            r@.middleware == self@.middleware.push(m),
    {
        let mut middleware = self.middleware;
        middleware.push(m);
        AlpineClient { provider: self.provider, middleware }
    }

    /// The provider behind the middleware.
    pub fn provider(&self) -> (r: &P)
        ensures
            *r == self@.provider,
    {
        &self.provider
    }

    /// Starts a request on its way through the middleware chain to the provider.
    pub fn complete(&self, req: Request) -> (r: Call<'_, P, M>)
        ensures
            call_behind(r, self@, 0, req),
    {
        self.resume(Next { depth: 0 }, req)
    }

    /// Sends a request on to the rest of the chain, as a layer of middleware does.
    pub fn resume(&self, next: Next, req: Request) -> (r: Call<'_, P, M>)
        ensures
            call_behind(r, self@, next@, req),
    {
        if next.depth < self.middleware.len() {
            Call::Middleware {
                layer: &self.middleware[next.depth],
                req,
                next: Next { depth: next.depth + 1 },
            }
        } else {
            Call::Provider { provider: &self.provider, req }
        }
    }

    /// Stream bypasses middleware: middleware is request/response oriented.
    pub fn stream<'a, 'r>(&'a self, req: &'r Request) -> (r: (&'a P, &'r Request))
        ensures
            *r.0 == self@.provider,
            r.1 == req,
    {
        (&self.provider, req)
    }
}

impl<P: ?Sized, M: ?Sized> Clone for AlpineClient<Arc<P>, Arc<M>> {
    /// Another client of the same provider, behind the same layers.
    fn clone(&self) -> (r: Self)
        ensures
            r@ == self@,
    {
        let mut middleware: Vec<Arc<M>> = Vec::new();
        let mut i: usize = 0;
        while i < self.middleware.len()
            invariant
                i <= self.middleware.len(),
                middleware@ == self.middleware@.take(i as int),
            decreases self.middleware.len() - i,
        {
            middleware.push(self.middleware[i].clone());
            i = i + 1;
        }
        assert(middleware@ =~= self.middleware@);
        AlpineClient { provider: self.provider.clone(), middleware }
    }
}

// ---------------------------------------------------------------------------
// Laws
// ---------------------------------------------------------------------------

/// The stops of a request that every layer sends on.
pub open spec fn route<P, M>(client: ClientView<P, M>, depth: nat) -> Seq<Stop<P, M>>
    decreases client.middleware.len() - depth,
{
    match stop_behind(client, depth) {
        Stop::Layer(m) => seq![Stop::Layer(m)] + route(client, depth + 1),
        Stop::Provider(p) => seq![Stop::Provider(p)],
    }
}

proof fn lemma_route_from<P, M>(client: ClientView<P, M>, depth: nat)
    requires
        depth <= client.middleware.len(),
    ensures
        route(client, depth) == client.middleware.skip(depth as int).map_values(
            |m: M| Stop::<P, M>::Layer(m),
        ).push(Stop::Provider(client.provider)),
    decreases client.middleware.len() - depth,
{
    let rest = client.middleware.skip(depth as int).map_values(|m: M| Stop::<P, M>::Layer(m));
    if depth < client.middleware.len() {
        lemma_route_from(client, depth + 1);
        assert(rest =~= seq![stop_behind(client, depth)] + client.middleware.skip(
            depth as int + 1,
        ).map_values(|m: M| Stop::<P, M>::Layer(m)));
    }
    assert(route(client, depth) =~= rest.push(Stop::Provider(client.provider)));
}

/// A request passes each layer once, in the order in which the layers were added, and
/// then reaches the provider: the layer added first is the outermost.
pub proof fn law_first_added_is_outermost<P, M>(client: ClientView<P, M>)
    ensures
        route(client, 0) == client.middleware.map_values(|m: M| Stop::<P, M>::Layer(m)).push(
            Stop::Provider(client.provider),
        ),
{
    lemma_route_from(client, 0);
    assert(client.middleware.skip(0) =~= client.middleware);
}

/// What the chain behind so many layers answers, given what a layer makes of a request
/// and of the rest of the chain, and what the provider answers.
pub open spec fn chain<P, M, Q, R>(
    client: ClientView<P, M>,
    depth: nat,
    handle: spec_fn(M, Q, spec_fn(Q) -> R) -> R,
    answer: spec_fn(P, Q) -> R,
) -> spec_fn(Q) -> R
    decreases client.middleware.len() - depth,
{
    match stop_behind(client, depth) {
        Stop::Layer(m) => {
            let rest = chain(client, depth + 1, handle, answer);
            |q: Q| handle(m, q, rest)
        },
        Stop::Provider(p) => |q: Q| answer(p, q),
    }
}

/// The answers of a provider that a layer stands in front of.
pub open spec fn fronted<P, M, Q, R>(
    m: M,
    handle: spec_fn(M, Q, spec_fn(Q) -> R) -> R,
    answer: spec_fn(P, Q) -> R,
) -> spec_fn(P, Q) -> R {
    |p: P, q: Q| handle(m, q, |q2: Q| answer(p, q2))
}

/// A layer that is added wraps the provider, and nothing else: what the client answers
/// is what it answered before with a provider that the new layer stands in front of.
pub proof fn law_added_layer_wraps_the_provider<P, M, Q, R>(
    client: ClientView<P, M>,
    m: M,
    depth: nat,
    handle: spec_fn(M, Q, spec_fn(Q) -> R) -> R,
    answer: spec_fn(P, Q) -> R,
)
    requires
        depth <= client.middleware.len(),
    ensures
        chain(
            ClientView { provider: client.provider, middleware: client.middleware.push(m) },
            depth,
            handle,
            answer,
        ) == chain(client, depth, handle, fronted(m, handle, answer)),
    decreases client.middleware.len() - depth,
{
    let more = ClientView { provider: client.provider, middleware: client.middleware.push(m) };
    let wrapped = fronted(m, handle, answer);
    let with_layer = chain(more, depth, handle, answer);
    let without = chain(client, depth, handle, wrapped);
    let rest = chain(more, depth + 1, handle, answer);
    if depth < client.middleware.len() {
        law_added_layer_wraps_the_provider(client, m, depth + 1, handle, answer);
    } else {
        let provider_only = |q2: Q| answer(client.provider, q2);
        assert(rest =~= provider_only);
    }
    assert forall|q: Q| #[trigger] with_layer(q) == without(q) by {}
    assert(with_layer =~= without);
}

/// Whom a request meets behind so many layers: the next layer in the order of adding,
/// with the rest of the chain behind it, or the provider where no layer is left; and it
/// is the request itself that arrives there.
pub proof fn law_whom_a_request_meets<P, M>(
    call: Call<'_, P, M>,
    client: ClientView<P, M>,
    depth: nat,
    req: Request,
)
    requires
        call_behind(call, client, depth, req),
    ensures
        match call {
            Call::Middleware { layer, req: arrived, next } => {
                &&& depth < client.middleware.len()
                &&& *layer == client.middleware[depth as int]
                &&& arrived == req
                &&& next@ == depth + 1
            },
            Call::Provider { provider, req: arrived } => {
                &&& depth >= client.middleware.len()
                &&& *provider == client.provider
                &&& arrived == req
            },
        },
{
}

} // verus!
