//! Tool execution: a `Tool` trait, a `Toolbox` registry, and the agentic loop
//! (`AlpineClient::run_tools`) that ties them to the model.
//!
//! The loop decides: which request goes to the model, which tool is called on what,
//! what is put into the conversation, and when the run is over. Calling the model and
//! the tools is left to the caller, who hands back what they answered.

use std::sync::Arc;

use serde_json::Value;
use vstd::prelude::*;

use crate::client::AlpineClient;
use crate::error::{ProviderError, ProviderErrorView};
use crate::json;
use crate::json::Json;
use crate::text;
use crate::types;
use crate::types::{
    BlockView, Message, MessageView, Request, RequestView, Response, ResponseView, Role,
    ToolDefinition, ToolDefinitionView, ToolUse, ToolUseView,
};

verus! {

// ---------------------------------------------------------------------------
// Tools
// ---------------------------------------------------------------------------

/// An error raised while executing a tool. It does **not** abort the run: the error
/// text is handed back to the model as an error `tool_result` so it can recover or try
/// a different approach.
#[derive(Debug)]
pub struct ToolError(pub String);

impl From<String> for ToolError {
    fn from(s: String) -> (r: Self) {
        ToolError(s)
    }
}

impl vstd::std_specs::convert::FromSpecImpl<String> for ToolError {
    open spec fn obeys_from_spec() -> bool {
        true
    }

    open spec fn from_spec(s: String) -> Self {
        ToolError(s)
    }
}

impl From<&str> for ToolError {
    fn from(s: &str) -> (r: Self)
        ensures
            r.0@ == s@,
    {
        ToolError(s.to_string())
    }
}

impl vstd::std_specs::convert::FromSpecImpl<&str> for ToolError {
    open spec fn obeys_from_spec() -> bool {
        false
    }

    open spec fn from_spec(s: &str) -> Self {
        arbitrary()
    }
}

impl ToolError {
    /// The text of the error.
    pub fn to_string(&self) -> (r: String)
        ensures
            r@ == self.0@,
    {
        self.0.clone()
    }
}

/// A tool the model can call.
pub trait Tool: Send + Sync {
    /// The provider-agnostic definition advertised to the model. The `name` here is
    /// what the model uses to call the tool and how the [`Toolbox`] keys it.
    fn definition(&self) -> ToolDefinition;
}

impl<T: Tool + ?Sized> Tool for Arc<T> {
    fn definition(&self) -> (r: ToolDefinition)
        ensures
            call_ensures(T::definition, (&**self,), r),
    {
        (**self).definition()
    }
}

impl<T: Tool + ?Sized> Tool for Box<T> {
    fn definition(&self) -> (r: ToolDefinition)
        ensures
            call_ensures(T::definition, (&**self,), r),
    {
        (**self).definition()
    }
}

// ---------------------------------------------------------------------------
// Toolbox
// ---------------------------------------------------------------------------

/// Whether a tool gives a definition when it is asked for one.
pub open spec fn gives<T: Tool>(tool: T, definition: ToolDefinition) -> bool {
    call_ensures(T::definition, (&tool,), definition)
}

/// A registry of tools, keyed by their advertised name.
#[derive(Debug)]
pub struct Toolbox<T: Tool> {
    tools: Vec<(String, T)>,
}

/// The place of a name among the entries.
pub open spec fn entry_at<T>(entries: Seq<(Seq<char>, T)>, name: Seq<char>, i: int) -> bool {
    0 <= i < entries.len() && entries[i].0 == name
}

/// Whether no name occurs twice among the entries.
pub open spec fn distinct_names<T>(entries: Seq<(Seq<char>, T)>) -> bool {
    forall|i: int, j: int|
        0 <= i < entries.len() && 0 <= j < entries.len() && entries[i].0 == entries[j].0 ==> i == j
}

/// Whether a name is one that the tool gives in its definition.
pub open spec fn named_by<T: Tool>(name: Seq<char>, tool: T) -> bool {
    exists|d: ToolDefinition| #[trigger] gives(tool, d) && d.name@ == name
}

/// Whether each entry stands under a name that its tool gives.
pub open spec fn keyed<T: Tool>(entries: Seq<(Seq<char>, T)>) -> bool {
    forall|i: int| 0 <= i < entries.len() ==> named_by((#[trigger] entries[i]).0, entries[i].1)
}

/// The tools by their names.
pub open spec fn tools_by_name<T>(entries: Seq<(Seq<char>, T)>) -> Map<Seq<char>, T> {
    Map::new(
        |name: Seq<char>| exists|i: int| entry_at(entries, name, i),
        |name: Seq<char>| entries[choose|i: int| entry_at(entries, name, i)].1,
    )
}

impl<T: Tool> View for Toolbox<T> {
    type V = Map<Seq<char>, T>;

    /// The tools by their names.
    open spec fn view(&self) -> Map<Seq<char>, T> {
        tools_by_name(self.entries())
    }
}

impl<T: Tool> Toolbox<T> {
    /// The tools with their names, in the order in which the names were first
    /// registered.
    pub closed spec fn entries(&self) -> Seq<(Seq<char>, T)> {
        self.tools@.map_values(|e: (String, T)| (e.0@, e.1))
    }

    #[verifier::type_invariant]
    spec fn well_formed(self) -> bool {
        distinct_names(self.entries()) && keyed(self.entries())
    }

    pub fn new() -> (r: Self)
        ensures
            r@ == Map::<Seq<char>, T>::empty(),
            r.entries() == Seq::<(Seq<char>, T)>::empty(),
    {
        let r = Toolbox { tools: Vec::new() };
        assert(r.entries() =~= Seq::<(Seq<char>, T)>::empty());
        assert(r@ =~= Map::<Seq<char>, T>::empty());
        r
    }

    fn position(&self, name: &str) -> (r: Option<usize>)
        ensures
            match r {
                Some(i) => entry_at(self.entries(), name@, i as int),
                None => forall|i: int| !entry_at(self.entries(), name@, i),
            },
    {
        let mut i: usize = 0;
        while i < self.tools.len()
            invariant
                i <= self.tools.len(),
                forall|j: int| 0 <= j < i ==> !entry_at(self.entries(), name@, j),
            decreases self.tools.len() - i,
        {
            if text::same_text(self.tools[i].0.as_str(), name) {
                return Some(i);
            }
            i = i + 1;
        }
        None
    }

    /// Look up a tool by the name the model called.
    pub fn get(&self, name: &str) -> (r: Option<&T>)
        ensures
            match r {
                Some(tool) => self@.dom().contains(name@) && *tool == self@[name@],
                None => !self@.dom().contains(name@),
            },
    {
        proof {
            use_type_invariant(self);
        }
        match self.position(name) {
            Some(i) => {
                proof {
                    let k = choose|k: int| entry_at(self.entries(), name@, k);
                    assert(entry_at(self.entries(), name@, k));
                }
                Some(&self.tools[i].1)
            },
            None => None,
        }
    }

    /// How many tools there are.
    pub fn len(&self) -> (r: usize)
        ensures
            r == self@.dom().len(),
            r == self.entries().len(),
            self@.dom().finite(),
            distinct_names(self.entries()),
    {
        proof {
            use_type_invariant(self);
            lemma_count(self.entries());
        }
        self.tools.len()
    }

    pub fn is_empty(&self) -> (r: bool)
        ensures
            r == (self@ == Map::<Seq<char>, T>::empty()),
    {
        proof {
            if self.tools.len() == 0 {
                assert(self@ =~= Map::<Seq<char>, T>::empty());
            } else {
                assert(entry_at(self.entries(), self.entries()[0].0, 0));
                assert(self@.dom().contains(self.entries()[0].0));
            }
        }
        self.tools.len() == 0
    }
}

impl<T: Tool> Default for Toolbox<T> {
    fn default() -> (r: Self)
        ensures
            r@ == Map::<Seq<char>, T>::empty(),
            r.entries() == Seq::<(Seq<char>, T)>::empty(),
    {
        Toolbox::new()
    }
}

impl<T: Tool + ?Sized> Clone for Toolbox<Arc<T>> {
    /// Another toolbox with the same tools.
    fn clone(&self) -> (r: Self)
        ensures
            r@ == self@,
            r.entries() == self.entries(),
    {
        proof {
            use_type_invariant(self);
        }
        let mut tools: Vec<(String, Arc<T>)> = Vec::new();
        let mut i: usize = 0;
        while i < self.tools.len()
            invariant
                i <= self.tools.len(),
                tools@.len() == i,
                forall|j: int|
                    0 <= j < i ==> (#[trigger] tools@[j]).0@ == self.entries()[j].0 && tools@[j].1
                        == self.entries()[j].1,
            decreases self.tools.len() - i,
        {
            tools.push((self.tools[i].0.clone(), self.tools[i].1.clone()));
            i = i + 1;
        }
        assert(tools@.map_values(|e: (String, Arc<T>)| (e.0@, e.1)) =~= self.entries());
        Toolbox { tools }
    }
}

proof fn lemma_count<T>(entries: Seq<(Seq<char>, T)>)
    requires
        distinct_names(entries),
    ensures
        tools_by_name(entries).dom().finite(),
        tools_by_name(entries).dom().len() == entries.len(),
{
    let names = entries.map_values(|e: (Seq<char>, T)| e.0);
    assert(names.no_duplicates());
    names.unique_seq_to_set();
    assert forall|name: Seq<char>| #[trigger]
        tools_by_name(entries).dom().contains(name) == names.to_set().contains(name) by {
        if tools_by_name(entries).dom().contains(name) {
            let i = choose|i: int| entry_at(entries, name, i);
            assert(names[i] == name);
        }
        if names.to_set().contains(name) {
            let i = choose|i: int| 0 <= i < names.len() && names[i] == name;
            assert(entry_at(entries, name, i));
        }
    }
    assert(tools_by_name(entries).dom() =~= names.to_set());
}

/// The entries with one more tool: it takes the place of one of the same name, or
/// stands at the end.
pub open spec fn with_entry<T>(
    entries: Seq<(Seq<char>, T)>,
    name: Seq<char>,
    tool: T,
) -> Seq<(Seq<char>, T)> {
    if exists|i: int| entry_at(entries, name, i) {
        entries.update(choose|i: int| entry_at(entries, name, i), (name, tool))
    } else {
        entries.push((name, tool))
    }
}

/// A tool that is added is there under its name, in place of one that had the name; no
/// other tool is touched, and no name occurs twice.
pub proof fn law_same_name_replaces<T>(entries: Seq<(Seq<char>, T)>, name: Seq<char>, tool: T)
    requires
        distinct_names(entries),
    ensures
        distinct_names(with_entry(entries, name, tool)),
        tools_by_name(with_entry(entries, name, tool)) == tools_by_name(entries).insert(name, tool),
        with_entry(entries, name, tool).len() == entries.len() + if tools_by_name(
            entries,
        ).dom().contains(name) {
            0int
        } else {
            1int
        },
{
    let more = with_entry(entries, name, tool);
    let place = if exists|i: int| entry_at(entries, name, i) {
        choose|i: int| entry_at(entries, name, i)
    } else {
        entries.len() as int
    };
    assert(entry_at(more, name, place));
    assert(forall|i: int| 0 <= i < more.len() && i != place ==> more[i] == entries[i]);
    assert forall|i: int| 0 <= i < entries.len() && i != place implies entries[i].0 != name by {
        if entries[i].0 == name {
            assert(entry_at(entries, name, i));
        }
    }
    let before = tools_by_name(entries);
    let after = tools_by_name(more);
    assert forall|n: Seq<char>| #[trigger] after.dom().contains(n) == before.insert(
        name,
        tool,
    ).dom().contains(n) by {
        if after.dom().contains(n) && n != name {
            let i = choose|i: int| entry_at(more, n, i);
            assert(entry_at(entries, n, i));
        }
        if before.dom().contains(n) && n != name {
            let i = choose|i: int| entry_at(entries, n, i);
            assert(entry_at(more, n, i));
        }
    }
    assert forall|n: Seq<char>| #[trigger] after.dom().contains(n) implies after[n]
        == before.insert(name, tool)[n] by {
        let i = choose|i: int| entry_at(more, n, i);
        assert(entry_at(more, n, i));
        if n == name {
            assert(i == place);
        } else {
            assert(entry_at(entries, n, i));
            let k = choose|k: int| entry_at(entries, n, k);
            assert(entry_at(entries, n, k));
            assert(k == i);
        }
    }
    assert(after =~= before.insert(name, tool));
}

/// A tool that is added under a name that it gives leaves every entry under a name that
/// its tool gives.
pub proof fn law_added_tool_is_keyed<T: Tool>(
    entries: Seq<(Seq<char>, T)>,
    tool: T,
    definition: ToolDefinition,
)
    requires
        keyed(entries),
        gives(tool, definition),
    ensures
        keyed(with_entry(entries, definition.name@, tool)),
{
    let more = with_entry(entries, definition.name@, tool);
    assert forall|i: int| 0 <= i < more.len() implies named_by((#[trigger] more[i]).0, more[i].1) by {
        if i < entries.len() && more[i] == entries[i] {
            assert(named_by(entries[i].0, entries[i].1));
        }
    }
}

impl<T: Tool> Toolbox<T> {
    /// Register a tool, consuming and returning `self` for chaining. A tool whose name
    /// collides with an existing one replaces it.
    pub fn with(self, tool: T) -> (r: Self)
        ensures
            exists|d: ToolDefinition| #[trigger]
                gives(tool, d) && r@ == self@.insert(d.name@, tool) && r.entries() == with_entry(
                    self.entries(),
                    d.name@,
                    tool,
                ),
            distinct_names(r.entries()),
            keyed(r.entries()),
    {
        let mut r = self;
        r.add(tool);
        r
    }

    /// Register a tool in place.
    pub fn add(&mut self, tool: T)
        ensures
            exists|d: ToolDefinition| #[trigger]
                gives(tool, d) && final(self)@ == old(self)@.insert(d.name@, tool)
                    && final(self).entries() == with_entry(old(self).entries(), d.name@, tool),
            distinct_names(final(self).entries()),
            keyed(final(self).entries()),
    {
        proof {
            use_type_invariant(&*self);
        }
        let ghost before = self.entries();
        let d = tool.definition();
        assert(gives(tool, d));
        let place = self.position(d.name.as_str());
        let name = d.name.clone();
        proof {
            law_same_name_replaces(before, d.name@, tool);
            law_added_tool_is_keyed(before, tool, d);
        }
        let mut tools: Vec<(String, T)> = Vec::new();
        std::mem::swap(&mut tools, &mut self.tools);
        match place {
            Some(i) => {
                proof {
                    let k = choose|k: int| entry_at(before, d.name@, k);
                    assert(entry_at(before, d.name@, k));
                    assert(k == i);
                }
                tools[i] = (name, tool);
            },
            None => {
                tools.push((name, tool));
            },
        }
        let ghost entries = tools@.map_values(|e: (String, T)| (e.0@, e.1));
        assert(entries =~= with_entry(before, d.name@, tool));
        self.tools = tools;
        assert(self.entries() =~= entries);
    }

    /// The definitions advertised to the model for this toolbox, one for each tool.
    pub fn definitions(&self) -> (r: Vec<ToolDefinition>)
        ensures
            advertised(self.entries(), r@),
            distinct_names(self.entries()),
            keyed(self.entries()),
    {
        proof {
            use_type_invariant(self);
        }
        let mut out: Vec<ToolDefinition> = Vec::new();
        let mut i: usize = 0;
        while i < self.tools.len()
            invariant
                i <= self.tools.len(),
                out@.len() == i,
                forall|j: int|
                    0 <= j < i ==> gives(self.entries()[j].1, #[trigger] out@[j]),
            decreases self.tools.len() - i,
        {
            let d = self.tools[i].1.definition();
            out.push(d);
            i = i + 1;
        }
        out
    }
}

/// Whether these are the definitions that the tools give, one for each tool in order.
pub open spec fn advertised<T: Tool>(
    entries: Seq<(Seq<char>, T)>,
    definitions: Seq<ToolDefinition>,
) -> bool {
    &&& definitions.len() == entries.len()
    &&& forall|i: int|
        0 <= i < entries.len() ==> gives(entries[i].1, #[trigger] definitions[i])
}

/// Whether each tool always gives the same definition.
pub open spec fn steady<T: Tool>(entries: Seq<(Seq<char>, T)>) -> bool {
    forall|i: int, a: ToolDefinition, b: ToolDefinition|
        0 <= i < entries.len() && #[trigger] gives(entries[i].1, a) && #[trigger] gives(
            entries[i].1,
            b,
        ) ==> a@ == b@
}

/// The definitions that are advertised carry the names under which the tools are found:
/// there is one for each tool, no name occurs twice among them, a name is among them
/// exactly where a tool is found under it, and the definition is that tool's own. This
/// holds as long as each tool always gives the same definition.
pub proof fn law_definitions_carry_the_keys<T: Tool>(
    entries: Seq<(Seq<char>, T)>,
    definitions: Seq<ToolDefinition>,
)
    requires
        distinct_names(entries),
        keyed(entries),
        steady(entries),
        advertised(entries, definitions),
    ensures
        definitions.len() == tools_by_name(entries).dom().len(),
        forall|i: int, j: int|
            0 <= i < definitions.len() && 0 <= j < definitions.len() && (
            #[trigger] definitions[i]).name@ == (#[trigger] definitions[j]).name@ ==> i == j,
        forall|i: int|
            0 <= i < definitions.len() ==> {
                let name = (#[trigger] definitions[i]).name@;
                &&& tools_by_name(entries).dom().contains(name)
                &&& gives(tools_by_name(entries)[name], definitions[i])
            },
        forall|name: Seq<char>| #[trigger]
            tools_by_name(entries).dom().contains(name) ==> exists|i: int|
                0 <= i < definitions.len() && (#[trigger] definitions[i]).name@ == name,
{
    lemma_count(entries);
    let by_name = tools_by_name(entries);
    assert forall|i: int| 0 <= i < definitions.len() implies (#[trigger] definitions[i]).name@
        == entries[i].0 && by_name.dom().contains(entries[i].0) && by_name[entries[i].0]
        == entries[i].1 by {
        assert(named_by(entries[i].0, entries[i].1));
        let d = choose|d: ToolDefinition| #[trigger]
            gives(entries[i].1, d) && d.name@ == entries[i].0;
        assert(gives(entries[i].1, definitions[i]));
        assert(d@ == definitions[i]@);
        assert(entry_at(entries, entries[i].0, i));
        let k = choose|k: int| entry_at(entries, entries[i].0, k);
        assert(entry_at(entries, entries[i].0, k));
    }
    assert forall|name: Seq<char>| #[trigger] by_name.dom().contains(name) implies exists|i: int|
        0 <= i < definitions.len() && (#[trigger] definitions[i]).name@ == name by {
        let i = choose|i: int| entry_at(entries, name, i);
        assert(definitions[i].name@ == name);
    }
}

// ---------------------------------------------------------------------------
// The loop
// ---------------------------------------------------------------------------

/// The outcome of a [`AlpineClient::run_tools`] loop.
#[derive(Debug)]
pub struct ToolRun {
    /// The final model response: the one that no longer requests tools.
    pub response: Response,
    /// The full conversation, including the assistant `tool_use` turns and the
    /// `tool_result` messages the loop produced. Feed this back in to continue.
    pub messages: Vec<Message>,
    /// Number of model round-trips made (>= 1).
    pub steps: usize,
    /// Total number of tool invocations executed across all steps.
    pub tool_calls: usize,
}

/// What a run came to.
pub struct ToolRunView {
    pub response: ResponseView,
    pub messages: Seq<MessageView>,
    pub steps: nat,
    pub tool_calls: nat,
}

impl View for ToolRun {
    type V = ToolRunView;

    open spec fn view(&self) -> ToolRunView {
        ToolRunView {
            response: self.response@,
            messages: types::message_views(self.messages@),
            steps: self.steps as nat,
            tool_calls: self.tool_calls as nat,
        }
    }
}

impl Clone for ToolRun {
    fn clone(&self) -> (r: Self)
        ensures
            r@ == self@,
    {
        ToolRun {
            response: self.response.clone(),
            messages: types::copy_messages(&self.messages),
            steps: self.steps,
            tool_calls: self.tool_calls,
        }
    }
}

/// What the loop asks of its caller.
#[derive(Debug)]
pub enum ToolAction<'a, T> {
    /// Send this request to the model, and hand back its answer.
    CallModel(Request),
    /// Call the tool, which has this name, on this input, and hand back what it
    /// returned.
    CallTool { name: String, tool: &'a T, input: Value },
    /// The run is over.
    Finish(Result<ToolRun, ProviderError>),
}

/// What the loop asks of its caller.
pub enum ToolActionView<T> {
    CallModel(RequestView),
    CallTool { name: Seq<char>, tool: T, input: Json },
    Finish(Result<ToolRunView, ProviderErrorView>),
}

impl<T> View for ToolAction<'_, T> {
    type V = ToolActionView<T>;

    open spec fn view(&self) -> ToolActionView<T> {
        match self {
            ToolAction::CallModel(req) => ToolActionView::CallModel(req@),
            ToolAction::CallTool { name, tool, input } => ToolActionView::CallTool {
                name: name@,
                tool: **tool,
                input: json::json_of(*input),
            },
            ToolAction::Finish(Ok(run)) => ToolActionView::Finish(Ok(run@)),
            ToolAction::Finish(Err(e)) => ToolActionView::Finish(Err(e@)),
        }
    }
}

/// How a run stands between two answers.
#[derive(Debug)]
pub struct ToolLoop {
    request: Request,
    messages: Vec<Message>,
    max_steps: usize,
    steps: usize,
    tool_calls: usize,
    pending: Vec<ToolUse>,
}

/// How a run stands between two answers.
pub struct ToolLoopView {
    /// The request, but for its messages.
    pub request: RequestView,
    /// The conversation so far.
    pub messages: Seq<MessageView>,
    pub max_steps: nat,
    /// The model round-trips so far.
    pub steps: nat,
    /// The tool invocations executed so far.
    pub tool_calls: nat,
    /// The calls of the current turn that have no result yet.
    pub pending: Seq<ToolUseView>,
}

impl View for ToolLoop {
    type V = ToolLoopView;

    closed spec fn view(&self) -> ToolLoopView {
        ToolLoopView {
            request: self.request@,
            messages: types::message_views(self.messages@),
            max_steps: self.max_steps as nat,
            steps: self.steps as nat,
            tool_calls: self.tool_calls as nat,
            pending: types::call_views(self.pending@),
        }
    }
}

/// The request with another conversation.
pub open spec fn with_messages(req: RequestView, messages: Seq<MessageView>) -> RequestView {
    RequestView { messages, ..req }
}

/// The error of a run that is out of steps.
pub open spec fn not_converging(max_steps: nat) -> ProviderErrorView {
    ProviderErrorView::Other(
        "tool loop did not converge within "@ + text::decimal(max_steps) + " steps"@,
    )
}

/// The result that a call to a tool that is not there gets.
pub open spec fn unknown_tool(call: ToolUseView) -> MessageView {
    MessageView::of_tool_result(call.id, "error: unknown tool '"@ + call.name + "'"@, true)
}

/// The result that a call gets from its tool: what the tool returned, or the text of
/// its error.
pub open spec fn tool_returned(
    call: ToolUseView,
    returned: Result<Seq<char>, Seq<char>>,
) -> MessageView {
    match returned {
        Ok(out) => MessageView::of_tool_result(call.id, out, false),
        Err(e) => MessageView::of_tool_result(call.id, e, true),
    }
}

/// How a run stands once the first pending call has its result. It counts as an
/// invocation where a tool was executed.
pub open spec fn call_settled(
    state: ToolLoopView,
    result: MessageView,
    executed: bool,
) -> ToolLoopView {
    ToolLoopView {
        messages: state.messages.push(result),
        tool_calls: if executed {
            state.tool_calls + 1
        } else {
            state.tool_calls
        },
        pending: state.pending.skip(1),
        ..state
    }
}

/// What a run does where it waits for no answer: calls to tools that are not there get
/// their results, the first one to a tool that is there is made, and where no call is
/// left the model is asked again, as long as there are steps.
pub open spec fn advanced<T>(state: ToolLoopView, tools: Map<Seq<char>, T>) -> (
    ToolActionView<T>,
    ToolLoopView,
)
    decreases state.pending.len(),
{
    if state.pending.len() > 0 {
        let call = state.pending[0];
        if tools.dom().contains(call.name) {
            (
                ToolActionView::CallTool {
                    name: call.name,
                    tool: tools[call.name],
                    input: call.input,
                },
                state,
            )
        } else {
            advanced(call_settled(state, unknown_tool(call), false), tools)
        }
    } else if state.steps < state.max_steps {
        (
            ToolActionView::CallModel(with_messages(state.request, state.messages)),
            ToolLoopView { steps: state.steps + 1, ..state },
        )
    } else {
        (ToolActionView::Finish(Err(not_converging(state.max_steps))), state)
    }
}

/// How a run starts.
pub open spec fn run_start(
    req: RequestView,
    tools: Seq<ToolDefinitionView>,
    max_steps: nat,
) -> ToolLoopView {
    ToolLoopView {
        request: RequestView { tools, ..req },
        messages: req.messages,
        max_steps,
        steps: 0,
        tool_calls: 0,
        pending: Seq::empty(),
    }
}

/// What a run does with the model's answer: a provider error ends it, and so does an
/// answer without tool calls; any other answer becomes a turn of the conversation whose
/// calls are then made.
pub open spec fn model_answered<T>(
    state: ToolLoopView,
    answer: Result<ResponseView, ProviderErrorView>,
    tools: Map<Seq<char>, T>,
) -> (ToolActionView<T>, ToolLoopView) {
    match answer {
        Err(e) => (ToolActionView::Finish(Err(e)), state),
        Ok(response) => if response.tool_calls.len() == 0 {
            (
                ToolActionView::Finish(
                    Ok(
                        ToolRunView {
                            response,
                            messages: state.messages,
                            steps: state.steps,
                            tool_calls: state.tool_calls,
                        },
                    ),
                ),
                state,
            )
        } else {
            advanced(
                ToolLoopView {
                    messages: state.messages.push(response.turn()),
                    pending: response.tool_calls,
                    ..state
                },
                tools,
            )
        },
    }
}

/// What a run does with what a tool returned: it becomes the result of the first
/// pending call. Where no call is pending there is nothing to answer.
pub open spec fn tool_answered<T>(
    state: ToolLoopView,
    returned: Result<Seq<char>, Seq<char>>,
    tools: Map<Seq<char>, T>,
) -> (ToolActionView<T>, ToolLoopView) {
    if state.pending.len() > 0 {
        advanced(call_settled(state, tool_returned(state.pending[0], returned), true), tools)
    } else {
        advanced(state, tools)
    }
}

/// The view of a loop's answer from the model.
pub open spec fn answer_view(answer: Result<Response, ProviderError>) -> Result<
    ResponseView,
    ProviderErrorView,
> {
    match answer {
        Ok(response) => Ok(response@),
        Err(e) => Err(e@),
    }
}

/// The view of what a tool returned.
pub open spec fn returned_view(returned: Result<String, ToolError>) -> Result<
    Seq<char>,
    Seq<char>,
> {
    match returned {
        Ok(out) => Ok(out@),
        Err(e) => Err(e.0@),
    }
}

impl ToolLoop {
    #[verifier::type_invariant]
    spec fn well_formed(self) -> bool {
        &&& self.tool_calls <= self.messages.len()
        &&& self.steps <= self.max_steps
    }

    /// Puts the result of the first pending call into the conversation.
    fn settle(self, result: Message, executed: bool) -> (r: Self)
        requires
            self@.pending.len() > 0,
        ensures
            r@ == call_settled(self@, result@, executed),
    {
        proof {
            use_type_invariant(&self);
        }
        let ghost before = self@;
        let mut messages = self.messages;
        messages.push(result);
        let mut pending = self.pending;
        pending.remove(0);
        assert(self.tool_calls < messages.len());
        let r = ToolLoop {
            request: self.request,
            messages,
            max_steps: self.max_steps,
            steps: self.steps,
            tool_calls: if executed {
                self.tool_calls + 1
            } else {
                self.tool_calls
            },
            pending,
        };
        assert(r@.messages =~= before.messages.push(result@));
        assert(r@.pending =~= before.pending.skip(1));
        r
    }

    fn advance<'a, T: Tool>(self, tools: &'a Toolbox<T>) -> (r: (ToolAction<'a, T>, Self))
        ensures
            (r.0@, r.1@) == advanced(self@, tools@),
    {
        let ghost start = self@;
        let mut state = self;
        while state.pending.len() > 0
            invariant
                start == self@,
                advanced(state@, tools@) == advanced(start, tools@),
            decreases state@.pending.len(),
        {
            let call = &state.pending[0];
            assert(call@ == state@.pending[0]);
            if let Some(tool) = tools.get(call.name.as_str()) {
                let action = ToolAction::CallTool {
                    name: call.name.clone(),
                    tool,
                    input: call.input.clone(),
                };
                return (action, state);
            }
            let mut body = "error: unknown tool '".to_string();
            body.append(call.name.as_str());
            body.append("'");
            let result = Message::tool_result(call.id.clone(), body, true);
            assert(result@ == unknown_tool(call@));
            state = state.settle(result, false);
        }
        assert(state@.pending.len() == 0);
        proof {
            use_type_invariant(&state);
        }
        if state.steps < state.max_steps {
            let mut request = state.request.clone();
            request.messages = types::copy_messages(&state.messages);
            assert(request@ == with_messages(state@.request, state@.messages));
            let r = ToolLoop {
                request: state.request,
                messages: state.messages,
                max_steps: state.max_steps,
                steps: state.steps + 1,
                tool_calls: state.tool_calls,
                pending: state.pending,
            };
            (ToolAction::CallModel(request), r)
        } else {
            let mut message = "tool loop did not converge within ".to_string();
            message.append(text::to_decimal(state.max_steps as u64).as_str());
            message.append(" steps");
            (ToolAction::Finish(Err(ProviderError::Other(message))), state)
        }
    }

    /// Takes in the model's answer to the request of [`ToolAction::CallModel`].
    pub fn on_model<'a, T: Tool>(
        self,
        answer: Result<Response, ProviderError>,
        tools: &'a Toolbox<T>,
    ) -> (r: (ToolAction<'a, T>, Self))
        ensures
            (r.0@, r.1@) == model_answered(self@, answer_view(answer), tools@),
    {
        proof {
            use_type_invariant(&self);
        }
        let ghost before = self@;
        let response = match answer {
            Ok(response) => response,
            Err(e) => {
                return (ToolAction::Finish(Err(e)), self);
            },
        };

        // No tool requests: the model has produced its final answer.
        if response.tool_calls.len() == 0 {
            let run = ToolRun {
                response,
                messages: types::copy_messages(&self.messages),
                steps: self.steps,
                tool_calls: self.tool_calls,
            };
            return (ToolAction::Finish(Ok(run)), self);
        }

        // Record the assistant turn (text + tool_use blocks) so the next request
        // carries the calls these results answer.
        let turn = response.assistant_message();
        let mut messages = self.messages;
        messages.push(turn);
        let state = ToolLoop {
            request: self.request,
            messages,
            max_steps: self.max_steps,
            steps: self.steps,
            tool_calls: self.tool_calls,
            pending: response.tool_calls,
        };
        assert(state@.messages =~= before.messages.push(turn@));
        state.advance(tools)
    }

    /// Takes in what the tool of [`ToolAction::CallTool`] returned. Its error does not
    /// end the run: it becomes an error result that the model can react to.
    pub fn on_tool<'a, T: Tool>(
        self,
        returned: Result<String, ToolError>,
        tools: &'a Toolbox<T>,
    ) -> (r: (ToolAction<'a, T>, Self))
        ensures
            (r.0@, r.1@) == tool_answered(self@, returned_view(returned), tools@),
    {
        if self.pending.len() == 0 {
            return self.advance(tools);
        }
        let call = &self.pending[0];
        assert(call@ == self@.pending[0]);
        let result = match returned {
            Ok(out) => Message::tool_result(call.id.clone(), out, false),
            Err(e) => Message::tool_result(call.id.clone(), e.to_string(), true),
        };
        assert(result@ == tool_returned(call@, returned_view(returned)));
        self.settle(result, true).advance(tools)
    }
}

impl<P, M> AlpineClient<P, M> {
    /// Run the model with tools, automatically executing every tool it requests and
    /// feeding the results back, until the model returns a plain answer (no tool calls)
    /// or `max_steps` model round-trips are exhausted.
    ///
    /// `req.tools` is overwritten with the toolbox's definitions, so you don't need to
    /// populate it yourself. Tool errors and calls to unknown tools are reported back to
    /// the model as error `tool_result`s rather than failing the run: only a
    /// provider/transport error or non-convergence aborts.
    ///
    /// The result is what to do first, and the loop that takes in the answer.
    pub fn run_tools<'a, T: Tool>(
        &self,
        req: Request,
        tools: &'a Toolbox<T>,
        max_steps: usize,
    ) -> (r: (ToolAction<'a, T>, ToolLoop))
        ensures
            exists|definitions: Seq<ToolDefinition>| #[trigger]
                advertised(tools.entries(), definitions) && (r.0@, r.1@) == advanced(
                    run_start(req@, types::definition_views(definitions), max_steps as nat),
                    tools@,
                ),
    {
        let ghost asked = req@;
        let definitions = tools.definitions();
        let ghost given = definitions@;
        let messages = types::copy_messages(&req.messages);
        let mut request = req;
        request.tools = definitions;
        let state = ToolLoop {
            request,
            messages,
            max_steps,
            steps: 0,
            tool_calls: 0,
            pending: Vec::new(),
        };
        assert(state@.pending =~= Seq::empty());
        assert(state@ == run_start(asked, types::definition_views(given), max_steps as nat));
        state.advance(tools)
    }
}

// ---------------------------------------------------------------------------
// Laws
// ---------------------------------------------------------------------------

/// The call that a message answers, where the message is a tool result.
pub open spec fn answers(message: MessageView) -> Option<Seq<char>> {
    if message.role == Role::User && message.content.len() == 1 {
        match message.content[0] {
            BlockView::ToolResult { tool_use_id, .. } => Some(tool_use_id),
            _ => None,
        }
    } else {
        None
    }
}

/// The identifiers of tool calls.
pub open spec fn call_ids(calls: Seq<ToolUseView>) -> Seq<Seq<char>> {
    calls.map_values(|c: ToolUseView| c.id)
}

/// The calls of a conversation that still have no result; `None` where a result answers
/// no call that is due, or where a message comes before the results that are due.
pub open spec fn owed(messages: Seq<MessageView>) -> Option<Seq<Seq<char>>>
    decreases messages.len(),
{
    if messages.len() == 0 {
        Some(Seq::empty())
    } else {
        match owed(messages.drop_last()) {
            None => None,
            Some(ids) => match answers(messages.last()) {
                Some(id) => if ids.len() > 0 && ids[0] == id {
                    Some(ids.skip(1))
                } else {
                    None
                },
                None => if ids.len() == 0 {
                    Some(call_ids(types::blocks_calls(messages.last().content)))
                } else {
                    None
                },
            },
        }
    }
}


/// How many turns a conversation holds: its messages that answer no call.
pub open spec fn turns(messages: Seq<MessageView>) -> nat
    decreases messages.len(),
{
    if messages.len() == 0 {
        0
    } else if answers(messages.last()) is None {
        turns(messages.drop_last()) + 1
    } else {
        turns(messages.drop_last())
    }
}

/// The tool calls that the messages of a conversation request, in order.
pub open spec fn requested(messages: Seq<MessageView>) -> Seq<ToolUseView>
    decreases messages.len(),
{
    if messages.len() == 0 {
        Seq::empty()
    } else {
        requested(messages.drop_last()) + types::blocks_calls(messages.last().content)
    }
}

/// How many of the calls name a tool that is there.
pub open spec fn executable<T>(calls: Seq<ToolUseView>, tools: Map<Seq<char>, T>) -> nat
    decreases calls.len(),
{
    if calls.len() == 0 {
        0
    } else if tools.dom().contains(calls[0].name) {
        1 + executable(calls.skip(1), tools)
    } else {
        executable(calls.skip(1), tools)
    }
}

/// What a run has put behind the conversation that it started from.
pub open spec fn added(initial: Seq<MessageView>, messages: Seq<MessageView>) -> Seq<MessageView> {
    messages.skip(initial.len() as int)
}

/// Whether what a run has put behind the conversation that it started from is in order:
/// the conversation has only grown, each call of the run has been answered once, in
/// order and by its identifier, up to the pending ones, and the invocations executed are
/// those of the calls, up to the pending ones, that name a tool that is there.
pub open spec fn orderly<T>(
    initial: Seq<MessageView>,
    tools: Map<Seq<char>, T>,
    state: ToolLoopView,
) -> bool {
    let more = added(initial, state.messages);
    &&& initial.is_prefix_of(state.messages)
    &&& state.steps <= state.max_steps
    &&& owed(more) == Some(call_ids(state.pending))
    &&& state.tool_calls + executable(state.pending, tools) == executable(requested(more), tools)
}

/// Whether a run that started from a conversation is in order when it takes an action.
pub open spec fn in_order<T>(
    initial: Seq<MessageView>,
    tools: Map<Seq<char>, T>,
    action: ToolActionView<T>,
    state: ToolLoopView,
) -> bool {
    let made = turns(added(initial, state.messages));
    &&& orderly(initial, tools, state)
    &&& match action {
        ToolActionView::CallModel(req) => {
            &&& state.pending.len() == 0
            &&& req == with_messages(state.request, state.messages)
            &&& 1 <= state.steps
            &&& made == state.steps - 1
        },
        ToolActionView::CallTool { name, tool, input } => {
            &&& state.pending.len() > 0
            &&& name == state.pending[0].name
            &&& tools.dom().contains(name)
            &&& tool == tools[name]
            &&& input == state.pending[0].input
            &&& 1 <= state.steps
            &&& made == state.steps
        },
        ToolActionView::Finish(Ok(run)) => {
            &&& state.pending.len() == 0
            &&& run.messages == state.messages
            &&& run.steps == state.steps
            &&& run.tool_calls == state.tool_calls
            &&& run.response.tool_calls.len() == 0
            &&& 1 <= state.steps
            &&& made == state.steps - 1
        },
        ToolActionView::Finish(Err(_)) => true,
    }
}

proof fn lemma_executable_of_concatenation<T>(
    a: Seq<ToolUseView>,
    b: Seq<ToolUseView>,
    tools: Map<Seq<char>, T>,
)
    ensures
        executable(a + b, tools) == executable(a, tools) + executable(b, tools),
    decreases a.len(),
{
    if a.len() == 0 {
        assert(a + b =~= b);
    } else {
        assert((a + b).skip(1) =~= a.skip(1) + b);
        lemma_executable_of_concatenation(a.skip(1), b, tools);
    }
}

proof fn lemma_message_added(initial: Seq<MessageView>, messages: Seq<MessageView>, m: MessageView)
    requires
        initial.is_prefix_of(messages),
    ensures
        initial.is_prefix_of(messages.push(m)),
        added(initial, messages.push(m)) == added(initial, messages).push(m),
        added(initial, messages.push(m)).drop_last() == added(initial, messages),
{
    assert(initial =~= messages.push(m).take(initial.len() as int));
    assert(added(initial, messages.push(m)) =~= added(initial, messages).push(m));
    assert(added(initial, messages).push(m).drop_last() =~= added(initial, messages));
}

proof fn lemma_result_keeps_order<T>(
    initial: Seq<MessageView>,
    tools: Map<Seq<char>, T>,
    state: ToolLoopView,
    content: Seq<char>,
    is_error: bool,
    executed: bool,
)
    requires
        orderly(initial, tools, state),
        state.pending.len() > 0,
        executed == tools.dom().contains(state.pending[0].name),
    ensures
        ({
            let result = MessageView::of_tool_result(state.pending[0].id, content, is_error);
            let after = call_settled(state, result, executed);
            &&& orderly(initial, tools, after)
            &&& turns(added(initial, after.messages)) == turns(added(initial, state.messages))
        }),
{
    let result = MessageView::of_tool_result(state.pending[0].id, content, is_error);
    let after = call_settled(state, result, executed);
    lemma_message_added(initial, state.messages, result);
    assert(call_ids(after.pending) =~= call_ids(state.pending).skip(1));
    assert(result.content.drop_last() =~= Seq::<BlockView>::empty());
    assert(types::blocks_calls(result.content) =~= types::blocks_calls(Seq::<BlockView>::empty()));
    assert(requested(added(initial, after.messages)) =~= requested(
        added(initial, state.messages),
    ));
}

proof fn lemma_advance_keeps_order<T>(
    initial: Seq<MessageView>,
    state: ToolLoopView,
    tools: Map<Seq<char>, T>,
)
    requires
        orderly(initial, tools, state),
        turns(added(initial, state.messages)) == state.steps,
        state.pending.len() > 0 ==> 1 <= state.steps,
    ensures
        in_order(initial, tools, advanced(state, tools).0, advanced(state, tools).1),
        advanced(state, tools).0 matches ToolActionView::Finish(outcome) ==> outcome == Err::<
            ToolRunView,
            ProviderErrorView,
        >(not_converging(state.max_steps)) && state.steps == state.max_steps,
    decreases state.pending.len(),
{
    if state.pending.len() > 0 {
        let call = state.pending[0];
        if !tools.dom().contains(call.name) {
            lemma_result_keeps_order(
                initial,
                tools,
                state,
                "error: unknown tool '"@ + call.name + "'"@,
                true,
                false,
            );
            lemma_advance_keeps_order(
                initial,
                call_settled(state, unknown_tool(call), false),
                tools,
            );
        }
    }
}

/// A run starts in order, from any conversation. It asks the model, unless it is
/// allowed no step at all.
pub proof fn law_run_starts_in_order<T>(
    req: RequestView,
    definitions: Seq<ToolDefinitionView>,
    max_steps: nat,
    tools: Map<Seq<char>, T>,
)
    ensures
        ({
            let (action, state) = advanced(run_start(req, definitions, max_steps), tools);
            &&& in_order(req.messages, tools, action, state)
            &&& max_steps > 0 ==> action == ToolActionView::<T>::CallModel(
                RequestView { tools: definitions, ..req },
            )
            &&& max_steps == 0 ==> action == ToolActionView::<T>::Finish(Err(not_converging(0)))
        }),
{
    let state = run_start(req, definitions, max_steps);
    assert(req.messages =~= req.messages.take(req.messages.len() as int));
    assert(call_ids(state.pending) =~= Seq::empty());
    lemma_advance_keeps_order(req.messages, state, tools);
}

/// A run that waits for the model and is in order stays in order, whatever the model
/// answers. It ends well exactly where the answer requests no tool, and then with that
/// answer; and it fails only with the provider's own error, or where the steps are used
/// up.
pub proof fn law_model_answer_keeps_order<T>(
    initial: Seq<MessageView>,
    req: RequestView,
    state: ToolLoopView,
    answer: Result<ResponseView, ProviderErrorView>,
    tools: Map<Seq<char>, T>,
)
    requires
        in_order(initial, tools, ToolActionView::CallModel(req), state),
    ensures
        ({
            let (action, next) = model_answered(state, answer, tools);
            &&& in_order(initial, tools, action, next)
            &&& action matches ToolActionView::Finish(Ok(run)) ==> answer == Ok::<
                ResponseView,
                ProviderErrorView,
            >(run.response)
            &&& (action is Finish && action->Finish_0 is Ok) <==> (answer matches Ok(response)
                && response.tool_calls.len() == 0)
            &&& action matches ToolActionView::Finish(Err(e)) ==> {
                ||| answer == Err::<ResponseView, ProviderErrorView>(e)
                ||| e == not_converging(state.max_steps) && state.steps == state.max_steps
            }
        }),
{
    if let Ok(response) = answer {
        if response.tool_calls.len() > 0 {
            let turn = response.turn();
            let after = ToolLoopView {
                messages: state.messages.push(turn),
                pending: response.tool_calls,
                ..state
            };
            types::law_turn_carries_response(response);
            lemma_message_added(initial, state.messages, turn);
            let before = requested(added(initial, state.messages));
            lemma_executable_of_concatenation(before, response.tool_calls, tools);
            assert(owed(added(initial, after.messages)) == Some(call_ids(after.pending)));
            lemma_advance_keeps_order(initial, after, tools);
        }
    }
}

/// A run that waits for a tool and is in order stays in order, whatever the tool
/// returned: an error of the tool does not end the run, which only the end of the steps
/// can do here.
pub proof fn law_tool_result_keeps_order<T>(
    initial: Seq<MessageView>,
    name: Seq<char>,
    tool: T,
    input: Json,
    state: ToolLoopView,
    returned: Result<Seq<char>, Seq<char>>,
    tools: Map<Seq<char>, T>,
)
    requires
        in_order(initial, tools, ToolActionView::CallTool { name, tool, input }, state),
    ensures
        ({
            let (action, next) = tool_answered(state, returned, tools);
            &&& in_order(initial, tools, action, next)
            &&& action matches ToolActionView::Finish(outcome) ==> outcome == Err::<
                ToolRunView,
                ProviderErrorView,
            >(not_converging(state.max_steps)) && state.steps == state.max_steps
        }),
{
    let (content, is_error) = match returned {
        Ok(out) => (out, false),
        Err(e) => (e, true),
    };
    lemma_result_keeps_order(initial, tools, state, content, is_error, true);
    let result = tool_returned(state.pending[0], returned);
    lemma_advance_keeps_order(initial, call_settled(state, result, true), tools);
}

// ---------------------------------------------------------------------------
// Whole runs
// ---------------------------------------------------------------------------

/// What a run meets: the tools that are there, what the model answers at each step, and
/// what a tool returns at each invocation.
#[verifier::reject_recursive_types(T)]
pub struct Scene<T> {
    pub tools: Map<Seq<char>, T>,
    /// The answer at a step, from 1 on, to a request.
    pub reply: spec_fn(nat, RequestView) -> Result<ResponseView, ProviderErrorView>,
    /// What a tool returns on an input, after so many invocations.
    pub returned: spec_fn(nat, T, Json) -> Result<Seq<char>, Seq<char>>,
}

/// A run gets on: it asks the model only at a further step that is allowed, and calls
/// tools only for calls that are pending.
pub proof fn lemma_advance_progress<T>(state: ToolLoopView, tools: Map<Seq<char>, T>)
    ensures
        ({
            let (action, next) = advanced(state, tools);
            &&& next.max_steps == state.max_steps
            &&& action is CallTool ==> next.steps == state.steps && next.pending.len()
                <= state.pending.len()
            &&& action is CallModel ==> next.steps == state.steps + 1 && next.steps
                <= next.max_steps
            &&& action is Finish ==> next.steps == state.steps
        }),
    decreases state.pending.len(),
{
    if state.pending.len() > 0 && !tools.dom().contains(state.pending[0].name) {
        lemma_advance_progress(
            call_settled(state, unknown_tool(state.pending[0]), false),
            tools,
        );
    }
}

/// What a run comes to when its actions are carried out and their answers taken in until
/// it is over.
pub open spec fn outcome<T>(
    scene: Scene<T>,
    action: ToolActionView<T>,
    state: ToolLoopView,
) -> Result<ToolRunView, ProviderErrorView>
    decreases
            state.max_steps - state.steps,
            match action {
                ToolActionView::CallModel(_) => 2nat,
                ToolActionView::CallTool { .. } => 1nat,
                ToolActionView::Finish(_) => 0nat,
            },
            state.pending.len(),
{
    match action {
        ToolActionView::Finish(result) => result,
        ToolActionView::CallModel(req) => {
            let answer = (scene.reply)(state.steps, req);
            let (next_action, next) = model_answered(state, answer, scene.tools);
            proof {
                if let Ok(response) = answer {
                    lemma_advance_progress(
                        ToolLoopView {
                            messages: state.messages.push(response.turn()),
                            pending: response.tool_calls,
                            ..state
                        },
                        scene.tools,
                    );
                }
            }
            outcome(scene, next_action, next)
        },
        ToolActionView::CallTool { name, tool, input } => {
            let returned = (scene.returned)(state.tool_calls, tool, input);
            let (next_action, next) = tool_answered(state, returned, scene.tools);
            proof {
                if state.pending.len() > 0 {
                    lemma_advance_progress(
                        call_settled(state, tool_returned(state.pending[0], returned), true),
                        scene.tools,
                    );
                } else {
                    lemma_advance_progress(state, scene.tools);
                }
            }
            outcome(scene, next_action, next)
        },
    }
}

/// The results of calls, one for each in order, after so many invocations: what the tool
/// returned, or that the tool is not there.
pub open spec fn results<T>(scene: Scene<T>, calls: Seq<ToolUseView>, made: nat) -> Seq<
    MessageView,
>
    decreases calls.len(),
{
    if calls.len() == 0 {
        Seq::empty()
    } else {
        let call = calls[0];
        if scene.tools.dom().contains(call.name) {
            let returned = (scene.returned)(made, scene.tools[call.name], call.input);
            seq![tool_returned(call, returned)] + results(scene, calls.skip(1), made + 1)
        } else {
            seq![unknown_tool(call)] + results(scene, calls.skip(1), made)
        }
    }
}

/// The conversation after so many turns that requested tools, and the invocations
/// executed by then.
pub open spec fn conversation<T>(scene: Scene<T>, req: RequestView, n: nat) -> (
    Seq<MessageView>,
    nat,
)
    decreases n,
{
    if n == 0 {
        (req.messages, 0)
    } else {
        let (messages, made) = conversation(scene, req, (n - 1) as nat);
        match (scene.reply)(n, with_messages(req, messages)) {
            Ok(response) => (
                messages.push(response.turn()) + results(scene, response.tool_calls, made),
                made + executable(response.tool_calls, scene.tools),
            ),
            Err(_) => (messages, made),
        }
    }
}

/// The model's answer at a step, from 1 on, where all steps before requested tools: it
/// is asked with the conversation up to then.
pub open spec fn reply_at<T>(scene: Scene<T>, req: RequestView, step: nat) -> Result<
    ResponseView,
    ProviderErrorView,
> {
    (scene.reply)(step, with_messages(req, conversation(scene, req, (step - 1) as nat).0))
}

/// Whether the model's answer at a step requests tools.
pub open spec fn goes_on<T>(scene: Scene<T>, req: RequestView, step: nat) -> bool {
    reply_at(scene, req, step) matches Ok(response) && response.tool_calls.len() > 0
}

/// Whether a step is the first at which the model does not request tools.
pub open spec fn stops_at<T>(scene: Scene<T>, req: RequestView, step: nat) -> bool {
    &&& 1 <= step
    &&& !goes_on(scene, req, step)
    &&& forall|j: nat| 1 <= j < step ==> #[trigger] goes_on(scene, req, j)
}

proof fn lemma_calls_are_made<T>(scene: Scene<T>, state: ToolLoopView)
    ensures
        ({
            let (action, next) = advanced(state, scene.tools);
            let after = ToolLoopView {
                messages: state.messages + results(scene, state.pending, state.tool_calls),
                tool_calls: state.tool_calls + executable(state.pending, scene.tools),
                pending: Seq::empty(),
                ..state
            };
            let (later_action, later) = advanced(after, scene.tools);
            outcome(scene, action, next) == outcome(scene, later_action, later)
        }),
    decreases state.pending.len(),
{
    let after = ToolLoopView {
        messages: state.messages + results(scene, state.pending, state.tool_calls),
        tool_calls: state.tool_calls + executable(state.pending, scene.tools),
        pending: Seq::empty(),
        ..state
    };
    if state.pending.len() == 0 {
        assert(after.messages =~= state.messages);
        assert(after.pending =~= state.pending);
    } else {
        let call = state.pending[0];
        let known = scene.tools.dom().contains(call.name);
        let result = if known {
            tool_returned(
                call,
                (scene.returned)(state.tool_calls, scene.tools[call.name], call.input),
            )
        } else {
            unknown_tool(call)
        };
        let settled = call_settled(state, result, known);
        lemma_calls_are_made(scene, settled);
        assert(settled.messages + results(scene, settled.pending, settled.tool_calls)
            =~= after.messages);
    }
}

proof fn lemma_outcome_from<T>(scene: Scene<T>, req: RequestView, state: ToolLoopView)
    requires
        state.request == with_messages(req, state.request.messages),
        state.pending.len() == 0,
        (state.messages, state.tool_calls) == conversation(scene, req, state.steps),
        state.steps <= state.max_steps,
        forall|j: nat| 1 <= j <= state.steps ==> #[trigger] goes_on(scene, req, j),
    ensures
        ({
            let (action, next) = advanced(state, scene.tools);
            let out = outcome(scene, action, next);
            &&& forall|k: nat| #[trigger]
                stops_at(scene, req, k) && k <= state.max_steps ==> out == stopped(scene, req, k)
            &&& (forall|k: nat| 1 <= k <= state.max_steps ==> #[trigger] goes_on(scene, req, k))
                ==> out == Err::<ToolRunView, ProviderErrorView>(not_converging(state.max_steps))
        }),
    decreases state.max_steps - state.steps,
{
    reveal_with_fuel(outcome, 2);
    if state.steps < state.max_steps {
        let step = state.steps + 1;
        let asked = with_messages(state.request, state.messages);
        assert(asked == with_messages(req, state.messages));
        let answer = (scene.reply)(step, asked);
        assert(answer == reply_at(scene, req, step));
        if goes_on(scene, req, step) {
            let response = answer->Ok_0;
            let turn = ToolLoopView {
                messages: state.messages.push(response.turn()),
                pending: response.tool_calls,
                steps: step,
                ..state
            };
            lemma_advance_progress(turn, scene.tools);
            lemma_calls_are_made(scene, turn);
            let after = ToolLoopView {
                messages: turn.messages + results(scene, turn.pending, turn.tool_calls),
                tool_calls: turn.tool_calls + executable(turn.pending, scene.tools),
                pending: Seq::empty(),
                ..turn
            };
            lemma_outcome_from(scene, req, after);
        } else {
            assert forall|k: nat| #[trigger] stops_at(scene, req, k) implies k == step by {
                if k > step {
                    assert(goes_on(scene, req, step));
                }
                if k < step {
                    assert(goes_on(scene, req, k));
                }
            }
        }
    } else {
        assert forall|k: nat| k <= state.max_steps implies !#[trigger] stops_at(
            scene,
            req,
            k,
        ) by {
            if stops_at(scene, req, k) {
                assert(goes_on(scene, req, k));
            }
        }
    }
}

/// What a run comes to that stops at a step: the model's answer there, with the
/// conversation and the counts up to then, or the provider's error.
pub open spec fn stopped<T>(scene: Scene<T>, req: RequestView, step: nat) -> Result<
    ToolRunView,
    ProviderErrorView,
> {
    match reply_at(scene, req, step) {
        Ok(response) => {
            let (messages, made) = conversation(scene, req, (step - 1) as nat);
            Ok(ToolRunView { response, messages, steps: step, tool_calls: made })
        },
        Err(e) => Err(e),
    }
}

/// A whole run, whatever the model answers and the tools return. Where some answer
/// within the steps that are allowed is the first that requests no tool, the run ends
/// there: well, with that answer, that number of steps, the conversation up to then and
/// the invocations executed by then; or with the provider's error. Otherwise it does not
/// converge.
pub proof fn law_whole_run<T>(
    scene: Scene<T>,
    req: RequestView,
    definitions: Seq<ToolDefinitionView>,
    max_steps: nat,
)
    ensures
        ({
            let asked = RequestView { tools: definitions, ..req };
            let (action, state) = advanced(run_start(req, definitions, max_steps), scene.tools);
            let out = outcome(scene, action, state);
            &&& forall|k: nat| #[trigger]
                stops_at(scene, asked, k) && k <= max_steps ==> out == stopped(scene, asked, k)
            &&& (forall|k: nat| 1 <= k <= max_steps ==> #[trigger] goes_on(scene, asked, k))
                ==> out == Err::<ToolRunView, ProviderErrorView>(not_converging(max_steps))
            &&& out is Ok <==> exists|k: nat| #[trigger]
                stops_at(scene, asked, k) && k <= max_steps && reply_at(scene, asked, k) is Ok
        }),
{
    let asked = RequestView { tools: definitions, ..req };
    let start = run_start(req, definitions, max_steps);
    lemma_outcome_from(scene, asked, start);
    if exists|k: nat| 1 <= k <= max_steps && !goes_on(scene, asked, k) {
        let k = choose|k: nat| 1 <= k <= max_steps && !goes_on(scene, asked, k);
        lemma_first_stop(scene, asked, k);
    } else {
        assert forall|k: nat| k <= max_steps implies !#[trigger] stops_at(scene, asked, k) by {}
    }
}

proof fn lemma_first_stop<T>(scene: Scene<T>, req: RequestView, k: nat)
    requires
        1 <= k,
        !goes_on(scene, req, k),
    ensures
        exists|first: nat| first <= k && #[trigger] stops_at(scene, req, first),
    decreases k,
{
    if exists|j: nat| 1 <= j < k && !goes_on(scene, req, j) {
        let j = choose|j: nat| 1 <= j < k && !goes_on(scene, req, j);
        lemma_first_stop(scene, req, j);
    } else {
        assert(stops_at(scene, req, k));
    }
}

// ---------------------------------------------------------------------------
// What each step does
// ---------------------------------------------------------------------------

/// Tools are found by name: where no name occurs twice, a tool is found exactly under the
/// names of the entries, and it is the tool of that entry.
pub proof fn law_tools_are_found_by_name<T>(entries: Seq<(Seq<char>, T)>, name: Seq<char>)
    requires
        distinct_names(entries),
    ensures
        tools_by_name(entries).dom().contains(name) <==> exists|i: int|
            0 <= i < entries.len() && (#[trigger] entries[i]).0 == name,
        forall|i: int|
            0 <= i < entries.len() ==> tools_by_name(entries).dom().contains(
                (#[trigger] entries[i]).0,
            ) && tools_by_name(entries)[entries[i].0] == entries[i].1,
{
    let by_name = tools_by_name(entries);
    if by_name.dom().contains(name) {
        let i = choose|i: int| entry_at(entries, name, i);
        assert(entries[i].0 == name);
    }
    if exists|i: int| 0 <= i < entries.len() && (#[trigger] entries[i]).0 == name {
        let i = choose|i: int| 0 <= i < entries.len() && (#[trigger] entries[i]).0 == name;
        assert(entry_at(entries, name, i));
    }
    assert forall|i: int| 0 <= i < entries.len() implies by_name.dom().contains(
        (#[trigger] entries[i]).0,
    ) && by_name[entries[i].0] == entries[i].1 by {
        assert(entry_at(entries, entries[i].0, i));
        let k = choose|k: int| entry_at(entries, entries[i].0, k);
        assert(entry_at(entries, entries[i].0, k));
    }
}

/// A run starts from the request as it is, but for its tools, which are the ones that are
/// given; nothing is counted yet, and nothing pending.
pub proof fn law_start_of_a_run(
    req: RequestView,
    definitions: Seq<ToolDefinitionView>,
    max_steps: nat,
)
    ensures
        ({
            let state = run_start(req, definitions, max_steps);
            &&& state.request.tools == definitions
            &&& state.request.messages == req.messages
            &&& state.request.model == req.model
            &&& state.request.max_tokens == req.max_tokens
            &&& state.request.temperature == req.temperature
            &&& state.request.system == req.system
            &&& state.request.stop == req.stop
            &&& state.messages == req.messages
            &&& state.max_steps == max_steps
            &&& state.steps == 0
            &&& state.tool_calls == 0
            &&& state.pending.len() == 0
        }),
{
}

/// What a run does where it waits for no answer. The pending calls up to the first one
/// whose tool is there each get a result of their own, which says that the tool is
/// unknown, and count for nothing. Then that tool is called, on the input as the model
/// gave it; or, where no call is left, the model is asked with the request as it was and
/// the whole conversation; or, where no step is left, the run fails and says after how
/// many. Nothing else changes.
pub proof fn law_pending_calls<T>(state: ToolLoopView, tools: Map<Seq<char>, T>) -> (n: nat)
    ensures
        n <= state.pending.len(),
        forall|i: int|
            0 <= i < n ==> !tools.dom().contains((#[trigger] state.pending[i]).name),
        ({
            let (action, next) = advanced(state, tools);
            &&& next.request == state.request
            &&& next.max_steps == state.max_steps
            &&& next.tool_calls == state.tool_calls
            &&& next.messages.len() == state.messages.len() + n
            &&& forall|i: int|
                0 <= i < state.messages.len() ==> #[trigger] next.messages[i] == state.messages[i]
            &&& forall|i: int|
                0 <= i < n ==> #[trigger] next.messages[state.messages.len() + i] == (MessageView {
                    role: Role::User,
                    content: seq![
                        BlockView::ToolResult {
                            tool_use_id: state.pending[i].id,
                            content: "error: unknown tool '"@ + state.pending[i].name + "'"@,
                            is_error: true,
                        },
                    ],
                })
            &&& next.pending == state.pending.subrange(n as int, state.pending.len() as int)
            &&& n < state.pending.len() ==> {
                let call = state.pending[n as int];
                &&& tools.dom().contains(call.name)
                &&& action == ToolActionView::CallTool {
                    name: call.name,
                    tool: tools[call.name],
                    input: call.input,
                }
                &&& next.steps == state.steps
            }
            &&& n == state.pending.len() && state.steps < state.max_steps ==> {
                &&& action == ToolActionView::<T>::CallModel(
                    RequestView {
                        messages: next.messages,
                        model: state.request.model,
                        max_tokens: state.request.max_tokens,
                        temperature: state.request.temperature,
                        system: state.request.system,
                        stop: state.request.stop,
                        tools: state.request.tools,
                    },
                )
                &&& next.steps == state.steps + 1
            }
            &&& n == state.pending.len() && state.steps >= state.max_steps ==> {
                &&& action == ToolActionView::<T>::Finish(
                    Err(
                        ProviderErrorView::Other(
                            "tool loop did not converge within "@ + text::decimal(state.max_steps)
                                + " steps"@,
                        ),
                    ),
                )
                &&& next.steps == state.steps
            }
        }),
    decreases state.pending.len(),
{
    let next = advanced(state, tools).1;
    if state.pending.len() > 0 && !tools.dom().contains(state.pending[0].name) {
        let call = state.pending[0];
        let settled = call_settled(state, unknown_tool(call), false);
        let m = law_pending_calls(settled, tools);
        assert(settled.messages.len() == state.messages.len() + 1);
        assert forall|i: int| 0 <= i < m + 1 implies !tools.dom().contains(
            (#[trigger] state.pending[i]).name,
        ) by {
            if i > 0 {
                assert(settled.pending[i - 1] == state.pending[i]);
            }
        }
        assert forall|i: int| 0 <= i < state.messages.len() implies #[trigger] next.messages[i]
            == state.messages[i] by {
            assert(next.messages[i] == settled.messages[i]);
        }
        assert forall|i: int| 0 <= i < m + 1 implies #[trigger] next.messages[state.messages.len()
            + i] == (MessageView {
            role: Role::User,
            content: seq![
                BlockView::ToolResult {
                    tool_use_id: state.pending[i].id,
                    content: "error: unknown tool '"@ + state.pending[i].name + "'"@,
                    is_error: true,
                },
            ],
        }) by {
            if i == 0 {
                assert(next.messages[state.messages.len() as int]
                    == settled.messages[state.messages.len() as int]);
            } else {
                assert(settled.pending[i - 1] == state.pending[i]);
                assert(next.messages[state.messages.len() + i] == next.messages[
                settled.messages.len() + (i - 1)]);
            }
        }
        assert(next.pending =~= state.pending.subrange(m as int + 1, state.pending.len() as int));
        m + 1
    } else {
        assert(next.pending =~= state.pending.subrange(0, state.pending.len() as int));
        0
    }
}

/// What a run does with the model's answer. A provider error ends it with that error. An
/// answer without calls ends it well, with the answer, the conversation and the counts as
/// they are. Any other answer goes behind the conversation as the assistant's turn, and
/// exactly its calls are pending.
pub proof fn law_answer_of_the_model<T>(
    state: ToolLoopView,
    answer: Result<ResponseView, ProviderErrorView>,
    tools: Map<Seq<char>, T>,
)
    ensures
        match answer {
            Err(e) => model_answered(state, answer, tools) == (
                ToolActionView::<T>::Finish(Err(e)),
                state,
            ),
            Ok(response) => {
                &&& response.tool_calls.len() == 0 ==> model_answered(state, answer, tools) == (
                    ToolActionView::<T>::Finish(
                        Ok(
                            ToolRunView {
                                response,
                                messages: state.messages,
                                steps: state.steps,
                                tool_calls: state.tool_calls,
                            },
                        ),
                    ),
                    state,
                )
                &&& response.tool_calls.len() > 0 ==> model_answered(state, answer, tools)
                    == advanced(
                    ToolLoopView {
                        request: state.request,
                        messages: state.messages + seq![response.turn()],
                        max_steps: state.max_steps,
                        steps: state.steps,
                        tool_calls: state.tool_calls,
                        pending: response.tool_calls,
                    },
                    tools,
                )
            },
        },
{
    if let Ok(response) = answer {
        assert(state.messages + seq![response.turn()] =~= state.messages.push(response.turn()));
    }
}

/// What a run does with what a tool returned. Behind the conversation stands one further
/// message of the user, with one block: the result of the first pending call, under its
/// identifier, with all that the tool returned, or all of the error's text, and flagged
/// as an error exactly where it is one. One more invocation counts, and the call is no
/// longer pending.
pub proof fn law_return_of_a_tool<T>(
    state: ToolLoopView,
    returned: Result<Seq<char>, Seq<char>>,
    tools: Map<Seq<char>, T>,
)
    requires
        state.pending.len() > 0,
    ensures
        ({
            let next = tool_answered(state, returned, tools).1;
            let block = match returned {
                Ok(out) => BlockView::ToolResult {
                    tool_use_id: state.pending[0].id,
                    content: out,
                    is_error: false,
                },
                Err(e) => BlockView::ToolResult {
                    tool_use_id: state.pending[0].id,
                    content: e,
                    is_error: true,
                },
            };
            let result = MessageView { role: Role::User, content: seq![block] };
            &&& next.messages.len() > state.messages.len()
            &&& forall|i: int|
                0 <= i < state.messages.len() ==> #[trigger] next.messages[i] == state.messages[i]
            &&& next.messages[state.messages.len() as int] == result
            &&& next.tool_calls == state.tool_calls + 1
            &&& tool_answered(state, returned, tools) == advanced(
                ToolLoopView {
                    request: state.request,
                    messages: state.messages + seq![result],
                    max_steps: state.max_steps,
                    steps: state.steps,
                    tool_calls: state.tool_calls + 1,
                    pending: state.pending.subrange(1, state.pending.len() as int),
                },
                tools,
            )
        }),
{
    let result = tool_returned(state.pending[0], returned);
    let settled = call_settled(state, result, true);
    let next = tool_answered(state, returned, tools).1;
    let n = law_pending_calls(settled, tools);
    assert(settled.messages =~= state.messages + seq![result]);
    assert(settled.pending =~= state.pending.subrange(1, state.pending.len() as int));
    assert forall|i: int| 0 <= i < state.messages.len() implies #[trigger] next.messages[i]
        == state.messages[i] by {
        assert(next.messages[i] == settled.messages[i]);
    }
    assert(next.messages[state.messages.len() as int] == settled.messages[
    state.messages.len() as int]);
}

/// What a run takes in and comes to is what the values hold: the answer or the error of
/// the model, what a tool returned or the text of its error, and the response, the
/// messages and the counts of a run.
pub proof fn law_views_of_a_run(
    answer: Result<Response, ProviderError>,
    returned: Result<String, ToolError>,
    run: ToolRun,
)
    ensures
        match answer {
            Ok(response) => answer_view(answer) == Ok::<ResponseView, ProviderErrorView>(
                response@,
            ),
            Err(e) => answer_view(answer) == Err::<ResponseView, ProviderErrorView>(e@),
        },
        match returned {
            Ok(out) => returned_view(returned) == Ok::<Seq<char>, Seq<char>>(out@),
            Err(e) => returned_view(returned) == Err::<Seq<char>, Seq<char>>(e.0@),
        },
        run@.response == run.response@,
        run@.messages.len() == run.messages@.len(),
        forall|i: int|
            0 <= i < run.messages@.len() ==> #[trigger] run@.messages[i] == run.messages@[i]@,
        run@.steps == run.steps,
        run@.tool_calls == run.tool_calls,
{
}

/// What the loop asks for is what the action holds: the request, or the tool with its
/// name and its input, or the outcome.
pub proof fn law_view_of_action<T>(action: ToolAction<'_, T>)
    ensures
        match action {
            ToolAction::CallModel(req) => action@ == ToolActionView::<T>::CallModel(req@),
            ToolAction::CallTool { name, tool, input } => action@ == ToolActionView::CallTool {
                name: name@,
                tool: *tool,
                input: json::json_of(input),
            },
            ToolAction::Finish(Ok(run)) => action@ == ToolActionView::<T>::Finish(Ok(run@)),
            ToolAction::Finish(Err(e)) => action@ == ToolActionView::<T>::Finish(Err(e@)),
        },
{
}

} // verus!
