//! Server-sent events, as Anthropic streams them: frames of `event:` and `data:`
//! lines, each ended by a blank line.

use serde_json::Value;
use vstd::prelude::*;

use crate::json;
use crate::json::{Json, Number};
use crate::text;
use crate::transport::NetEvent;
use crate::types::{StreamChunk, StreamChunkView, Usage};

verus! {

// ---------------------------------------------------------------------------
// Frames
// ---------------------------------------------------------------------------

/// What a frame contributes to the stream.
#[derive(Debug)]
pub enum SseFrame {
    Chunk(StreamChunk),
    Done(Option<Usage>),
    Skip,
}

/// What a frame contributes to the stream.
pub enum SseFrameView {
    Chunk(StreamChunkView),
    Done(Option<Usage>),
    Skip,
}

impl View for SseFrame {
    type V = SseFrameView;

    open spec fn view(&self) -> SseFrameView {
        match self {
            SseFrame::Chunk(chunk) => SseFrameView::Chunk(chunk@),
            SseFrame::Done(usage) => SseFrameView::Done(*usage),
            SseFrame::Skip => SseFrameView::Skip,
        }
    }
}

/// Whether two newlines stand at a place in the buffer.
pub open spec fn blank_line_at(buf: Seq<char>, i: int) -> bool {
    0 <= i && i + 1 < buf.len() && buf[i] == '\n' && buf[i + 1] == '\n'
}

/// Whether the first blank line of the buffer starts at a place.
pub open spec fn first_blank_line(buf: Seq<char>, i: int) -> bool {
    blank_line_at(buf, i) && forall|j: int| 0 <= j < i ==> !#[trigger] blank_line_at(buf, j)
}

/// How long the first frame of the buffer is, its blank line included; `None` where
/// no frame is complete.
pub open spec fn frame_len(buf: Seq<char>) -> Option<int> {
    if exists|i: int| first_blank_line(buf, i) {
        Some((choose|i: int| first_blank_line(buf, i)) + 2)
    } else {
        None
    }
}

/// What the lines of a frame say.
pub struct Fields {
    /// The type of the event.
    pub event: Seq<char>,
    /// The data lines, one after another.
    pub data: Seq<char>,
}

/// A value without the one space that may stand before it.
pub open spec fn without_lead(value: Seq<char>) -> Seq<char> {
    match text::after_prefix(value, " "@) {
        Some(rest) => rest,
        None => value,
    }
}

/// What the fields are after one more line.
pub open spec fn read_line(fields: Fields, line: Seq<char>) -> Fields {
    match text::after_prefix(line, "event:"@) {
        Some(value) => Fields { event: text::trimmed(value), data: fields.data },
        None => match text::after_prefix(line, "data:"@) {
            Some(value) => Fields {
                event: fields.event,
                data: fields.data + without_lead(value),
            },
            None => fields,
        },
    }
}

/// What the lines of a frame say together: the last event type, and all the data.
pub open spec fn read_lines(lines: Seq<Seq<char>>) -> Fields
    decreases lines.len(),
{
    if lines.len() == 0 {
        Fields { event: Seq::empty(), data: Seq::empty() }
    } else {
        read_line(read_lines(lines.drop_last()), lines.last())
    }
}

/// Whether an event of this type carries data that matters.
pub open spec fn carries_payload(event: Seq<char>) -> bool {
    event == "content_block_delta"@ || event == "message_delta"@ || event == "error"@
}

/// What an event with a payload contributes to the stream.
pub open spec fn payload_frame(event: Seq<char>, payload: Json) -> SseFrameView {
    if event == "content_block_delta"@ {
        let delta = payload.at("delta"@).at("text"@).text_or(""@);
        if delta.len() == 0 {
            SseFrameView::Skip
        } else {
            SseFrameView::Chunk(StreamChunkView::Delta(delta))
        }
    } else if event == "message_delta"@ {
        SseFrameView::Done(
            Some(
                Usage {
                    input_tokens: 0,
                    output_tokens: payload.at("usage"@).at("output_tokens"@).count(),
                },
            ),
        )
    } else if event == "error"@ {
        SseFrameView::Chunk(
            StreamChunkView::Error(payload.at("error"@).at("message"@).text_or("unknown error"@)),
        )
    } else {
        SseFrameView::Skip
    }
}

/// What a frame contributes to the stream; `None` where its data is not JSON.
pub open spec fn frame_meaning(frame: Seq<char>) -> Option<SseFrameView> {
    let fields = read_lines(text::text_lines(frame));
    if carries_payload(fields.event) {
        match json::parsed_json(fields.data) {
            Ok(payload) => Some(payload_frame(fields.event, payload)),
            Err(_) => None,
        }
    } else {
        Some(SseFrameView::Skip)
    }
}

fn needs_payload(event: &str) -> (r: bool)
    ensures
        r == carries_payload(event@),
{
    text::same_text(event, "content_block_delta") || text::same_text(event, "message_delta")
        || text::same_text(event, "error")
}

/// Reads the payload of an event.
pub fn read_payload(event: &str, payload: &Value) -> (r: SseFrame)
    ensures
        r@ == payload_frame(event@, json::json_of(*payload)),
{
    if text::same_text(event, "content_block_delta") {
        let delta = json::text_or(json::member(json::member(payload, "delta"), "text"), "");
        if delta.as_str().is_empty() {
            SseFrame::Skip
        } else {
            SseFrame::Chunk(StreamChunk::Delta(delta))
        }
    } else if text::same_text(event, "message_delta") {
        // Contains stop_reason and final usage; input tokens come in message_start.
        let output_tokens = json::count(
            json::member(json::member(payload, "usage"), "output_tokens"),
        );
        SseFrame::Done(Some(Usage { input_tokens: 0, output_tokens }))
    } else if text::same_text(event, "error") {
        let message = json::text_or(
            json::member(json::member(payload, "error"), "message"),
            "unknown error",
        );
        SseFrame::Chunk(StreamChunk::Error(message))
    } else {
        SseFrame::Skip
    }
}

/// Finds the end of the first frame.
fn find_frame(chars: &Vec<char>) -> (r: Option<usize>)
    ensures
        match r {
            Some(n) => frame_len(chars@) == Some(n as int) && 2 <= n <= chars@.len(),
            None => frame_len(chars@) is None,
        },
{
    let mut i: usize = 0;
    while i < chars.len()
        invariant
            i <= chars.len(),
            forall|j: int| 0 <= j < i ==> !#[trigger] blank_line_at(chars@, j),
        decreases chars.len() - i,
    {
        if i + 1 < chars.len() && chars[i] == '\n' && chars[i + 1] == '\n' {
            proof {
                assert(first_blank_line(chars@, i as int));
                let k = choose|k: int| first_blank_line(chars@, k);
                assert(blank_line_at(chars@, k));
                assert(blank_line_at(chars@, i as int));
            }
            return Some(i + 2);
        }
        assert(!blank_line_at(chars@, i as int));
        i = i + 1;
    }
    proof {
        assert forall|k: int| !first_blank_line(chars@, k) by {
            if first_blank_line(chars@, k) {
                assert(blank_line_at(chars@, k));
            }
        }
    }
    None
}

/// Try to consume one complete SSE frame (`event: ...\ndata: ...\n\n`) from the
/// buffer. Returns `None` if there isn't a complete frame yet, and also where the
/// data of the frame is not JSON; such a frame is consumed.
pub fn try_parse_sse_frame(buf: &mut String) -> (r: Option<SseFrame>)
    ensures
        match frame_len(old(buf)@) {
            None => r is None && final(buf)@ == old(buf)@,
            Some(n) => {
                &&& final(buf)@ == old(buf)@.skip(n)
                &&& match frame_meaning(old(buf)@.take(n)) {
                    Some(meaning) => r matches Some(frame) && frame@ == meaning,
                    None => r is None,
                }
            },
        },
{
    let chars = text::chars_of(buf.as_str());
    let n: usize = match find_frame(&chars) {
        Some(n) => n,
        None => {
            return None;
        },
    };
    let frame = buf.as_str().substring_char(0, n).to_string();
    let rest = buf.as_str().substring_char(n, chars.len()).to_string();
    assert(frame@ =~= old(buf)@.take(n as int));
    assert(rest@ =~= old(buf)@.skip(n as int));
    *buf = rest;

    let lines = text::lines(frame.as_str());
    let mut event: &str = "";
    let mut data = String::new();
    let mut i: usize = 0;
    proof {
        reveal_strlit("");
        assert(event@ =~= Seq::<char>::empty());
    }
    while i < lines.len()
        invariant
            i <= lines.len(),
            text::slices(lines@) == text::text_lines(frame@),
            read_lines(text::text_lines(frame@).take(i as int)) == (Fields {
                event: event@,
                data: data@,
            }),
        decreases lines.len() - i,
    {
        let line = lines[i];
        proof {
            let all = text::text_lines(frame@);
            assert(all.take(i + 1).drop_last() =~= all.take(i as int));
            assert(all.take(i + 1).last() == line@);
        }
        if let Some(value) = text::strip_prefix(line, "event:") {
            event = text::trim(value);
        } else if let Some(value) = text::strip_prefix(line, "data:") {
            match text::strip_prefix(value, " ") {
                Some(rest) => data.append(rest),
                None => data.append(value),
            }
        }
        i = i + 1;
    }
    assert(text::text_lines(frame@).take(i as int) =~= text::text_lines(frame@));

    if needs_payload(event) {
        match json::parse(data.as_str()) {
            Ok(payload) => Some(read_payload(event, &payload)),
            Err(_) => None,
        }
    } else {
        Some(SseFrame::Skip)
    }
}

// ---------------------------------------------------------------------------
// The stream
// ---------------------------------------------------------------------------

/// How a stream stands: what has arrived and is not yet consumed, and whether it is
/// over.
#[derive(Debug)]
pub struct SseState {
    pub buf: String,
    pub done: bool,
}

/// How a stream stands.
pub struct SseStateView {
    pub buf: Seq<char>,
    pub done: bool,
}

impl View for SseState {
    type V = SseStateView;

    open spec fn view(&self) -> SseStateView {
        SseStateView { buf: self.buf@, done: self.done }
    }
}

/// What a stream does next.
#[derive(Debug)]
pub enum SseStep {
    /// Hand a chunk to the consumer.
    Emit(StreamChunk),
    /// Wait for the network.
    Await,
    /// Nothing more.
    End,
}

/// What a stream does next.
pub enum SseStepView {
    Emit(StreamChunkView),
    Await,
    End,
}

impl View for SseStep {
    type V = SseStepView;

    open spec fn view(&self) -> SseStepView {
        match self {
            SseStep::Emit(chunk) => SseStepView::Emit(chunk@),
            SseStep::Await => SseStepView::Await,
            SseStep::End => SseStepView::End,
        }
    }
}

/// A complete frame ends with the first blank line of the buffer.
pub proof fn lemma_frame_len(buf: Seq<char>)
    ensures
        frame_len(buf) matches Some(n) ==> 2 <= n <= buf.len() && first_blank_line(buf, n - 2),
{
}

/// What a stream that is not over does with its buffer: it skips the frames that say
/// nothing, and stops at the first one that says something, at a frame whose data is
/// not JSON, or where no frame is complete.
pub open spec fn pulled(buf: Seq<char>) -> (SseStepView, SseStateView)
    decreases buf.len(),
{
    match frame_len(buf) {
        None => (SseStepView::Await, SseStateView { buf, done: false }),
        Some(n) => {
            let rest = buf.skip(n);
            match frame_meaning(buf.take(n)) {
                None => (SseStepView::Await, SseStateView { buf: rest, done: false }),
                Some(SseFrameView::Chunk(chunk)) => (
                    SseStepView::Emit(chunk),
                    SseStateView { buf: rest, done: false },
                ),
                Some(SseFrameView::Done(usage)) => (
                    SseStepView::Emit(StreamChunkView::Done { usage }),
                    SseStateView { buf: rest, done: true },
                ),
                Some(SseFrameView::Skip) => {
                    proof {
                        lemma_frame_len(buf);
                    }
                    pulled(rest)
                },
            }
        },
    }
}

/// What a stream does with an event from the network: the chunk that it hands out,
/// where the event makes one, and how it then stands.
pub open spec fn received(state: SseStateView, event: NetEvent) -> (
    Option<StreamChunkView>,
    SseStateView,
) {
    let over = SseStateView { buf: state.buf, done: true };
    match event {
        NetEvent::Bytes(bytes) => if vstd::utf8::valid_utf8(bytes@) {
            (
                None,
                SseStateView {
                    buf: state.buf + vstd::utf8::decode_utf8(bytes@),
                    done: state.done,
                },
            )
        } else {
            (Some(StreamChunkView::Error(text::utf8_error_message(bytes@))), over)
        },
        NetEvent::Failed(message) => (Some(StreamChunkView::Error(message@)), over),
        NetEvent::Ended => (Some(StreamChunkView::Done { usage: None }), over),
    }
}

impl SseState {
    /// A stream of which nothing has arrived.
    pub fn new() -> (r: Self)
        ensures
            r@ == (SseStateView { buf: Seq::empty(), done: false }),
    {
        SseState { buf: String::new(), done: false }
    }

    /// Works through what has arrived, up to the next chunk for the consumer.
    pub fn poll(&mut self) -> (r: SseStep)
        ensures
            if old(self)@.done {
                r is End && final(self)@ == old(self)@
            } else {
                (r@, final(self)@) == pulled(old(self)@.buf)
            },
    {
        if self.done {
            return SseStep::End;
        }
        loop
            invariant
                !self@.done,
                !old(self)@.done,
                pulled(self@.buf) == pulled(old(self)@.buf),
            decreases self@.buf.len(),
        {
            let ghost before = self@.buf;
            proof {
                lemma_frame_len(before);
            }
            match try_parse_sse_frame(&mut self.buf) {
                Some(SseFrame::Chunk(chunk)) => {
                    return SseStep::Emit(chunk);
                },
                Some(SseFrame::Done(usage)) => {
                    self.done = true;
                    return SseStep::Emit(StreamChunk::Done { usage });
                },
                Some(SseFrame::Skip) => {},
                None => {
                    // Need more data from the network.
                    return SseStep::Await;
                },
            }
        }
    }

    /// Takes in what the network answered.
    pub fn feed(&mut self, event: NetEvent) -> (r: Option<StreamChunk>)
        ensures
            received(old(self)@, event) == (match r {
                Some(chunk) => Some(chunk@),
                None => None,
            }, final(self)@),
    {
        match event {
            NetEvent::Bytes(bytes) => match std::str::from_utf8(bytes.as_slice()) {
                Ok(s) => {
                    self.buf.append(s);
                    None
                },
                Err(e) => {
                    self.done = true;
                    Some(StreamChunk::Error(e.to_string()))
                },
            },
            NetEvent::Failed(message) => {
                self.done = true;
                Some(StreamChunk::Error(message))
            },
            NetEvent::Ended => {
                self.done = true;
                // The body ended without a message_delta: still surface a Done so
                // consumers don't hang.
                Some(StreamChunk::Done { usage: None })
            },
        }
    }
}

// ---------------------------------------------------------------------------
// Laws
// ---------------------------------------------------------------------------

/// The chunks that repeated polls hand out, and how the stream then stands.
pub struct Drained {
    pub chunks: Seq<StreamChunkView>,
    pub state: SseStateView,
}

/// What a stream that is not over hands out before it next waits for the network or
/// is over.
pub open spec fn drained(buf: Seq<char>) -> Drained
    decreases buf.len(),
{
    match frame_len(buf) {
        None => Drained { chunks: Seq::empty(), state: SseStateView { buf, done: false } },
        Some(n) => {
            proof {
                lemma_frame_len(buf);
            }
            let rest = buf.skip(n);
            match frame_meaning(buf.take(n)) {
                None => Drained {
                    chunks: Seq::empty(),
                    state: SseStateView { buf: rest, done: false },
                },
                Some(SseFrameView::Chunk(chunk)) => {
                    let later = drained(rest);
                    Drained { chunks: seq![chunk] + later.chunks, state: later.state }
                },
                Some(SseFrameView::Done(usage)) => Drained {
                    chunks: seq![StreamChunkView::Done { usage }],
                    state: SseStateView { buf: rest, done: true },
                },
                Some(SseFrameView::Skip) => drained(rest),
            }
        },
    }
}

/// Whether the data of every complete frame that matters is JSON.
pub open spec fn well_formed(buf: Seq<char>) -> bool
    decreases buf.len(),
{
    match frame_len(buf) {
        None => true,
        Some(n) => {
            proof {
                lemma_frame_len(buf);
            }
            frame_meaning(buf.take(n)) is Some && well_formed(buf.skip(n))
        },
    }
}

/// One poll hands out the first of the chunks, and leaves the others for the polls
/// after it.
pub proof fn law_poll_hands_out_the_chunks(buf: Seq<char>)
    ensures
        match pulled(buf).0 {
            SseStepView::Emit(chunk) => {
                let next = pulled(buf).1;
                &&& next.buf.len() < buf.len()
                &&& next.done ==> drained(buf) == (Drained { chunks: seq![chunk], state: next })
                &&& !next.done ==> drained(buf) == (Drained {
                    chunks: seq![chunk] + drained(next.buf).chunks,
                    state: drained(next.buf).state,
                })
            },
            _ => drained(buf) == (Drained { chunks: Seq::empty(), state: pulled(buf).1 }),
        },
    decreases buf.len(),
{
    lemma_frame_len(buf);
    if let Some(n) = frame_len(buf) {
        if frame_meaning(buf.take(n)) == Some(SseFrameView::Skip) {
            law_poll_hands_out_the_chunks(buf.skip(n));
        }
    }
}

/// A stream is over exactly where a poll hands out its `Done`: there is one `Done`
/// from the frames, and nothing after it.
pub proof fn law_done_is_last(buf: Seq<char>)
    ensures
        pulled(buf).1.done <==> pulled(buf).0 matches SseStepView::Emit(
            StreamChunkView::Done { .. },
        ),
        !(pulled(buf).0 is End),
    decreases buf.len(),
{
    lemma_frame_len(buf);
    if let Some(n) = frame_len(buf) {
        if frame_meaning(buf.take(n)) == Some(SseFrameView::Skip) {
            law_done_is_last(buf.skip(n));
        }
    }
}

/// A complete frame stays what it is when more text arrives.
pub proof fn law_frame_is_stable(a: Seq<char>, b: Seq<char>)
    ensures
        frame_len(a) matches Some(n) ==> frame_len(a + b) == Some(n) && (a + b).take(n) == a.take(n)
            && (a + b).skip(n) == a.skip(n) + b,
{
    lemma_frame_len(a);
    lemma_frame_len(a + b);
    if let Some(n) = frame_len(a) {
        let whole = a + b;
        assert forall|j: int| 0 <= j < n - 1 implies blank_line_at(whole, j) == blank_line_at(
            a,
            j,
        ) by {}
        assert(blank_line_at(whole, n - 2));
        assert(first_blank_line(whole, n - 2));
        let k = choose|k: int| first_blank_line(whole, k);
        assert(blank_line_at(whole, k));
        assert(whole.take(n) =~= a.take(n));
        assert(whole.skip(n) =~= a.skip(n) + b);
    }
}

/// It does not matter where the network cuts the text of a stream in two: the chunks
/// are those of the whole text. (A frame whose data is not JSON makes the stream wait
/// for the network, so that the cut would show; and after a `Done` nothing is read.)
pub proof fn law_cut_does_not_matter(a: Seq<char>, b: Seq<char>)
    requires
        well_formed(a),
    ensures
        if drained(a).state.done {
            drained(a + b) == (Drained {
                chunks: drained(a).chunks,
                state: SseStateView { buf: drained(a).state.buf + b, done: true },
            })
        } else {
            let later = drained(drained(a).state.buf + b);
            drained(a + b) == (Drained {
                chunks: drained(a).chunks + later.chunks,
                state: later.state,
            })
        },
        !drained(a).state.done ==> frame_len(drained(a).state.buf) is None,
    decreases a.len(),
{
    lemma_frame_len(a);
    law_frame_is_stable(a, b);
    match frame_len(a) {
        None => {
            let later = drained(a + b);
            assert(Seq::<StreamChunkView>::empty() + later.chunks =~= later.chunks);
        },
        Some(n) => {
            law_cut_does_not_matter(a.skip(n), b);
            match frame_meaning(a.take(n)) {
                Some(SseFrameView::Chunk(chunk)) => {
                    let rest = drained(a.skip(n));
                    if !rest.state.done {
                        let later = drained(rest.state.buf + b);
                        assert(seq![chunk] + (rest.chunks + later.chunks) =~= (seq![chunk]
                            + rest.chunks) + later.chunks);
                    }
                },
                _ => {},
            }
        },
    }
}

/// What a stream that is not over hands out from here to its end, or as far as the
/// events from the network go.
pub open spec fn streamed(buf: Seq<char>, events: Seq<NetEvent>) -> Seq<StreamChunkView>
    decreases events.len(),
{
    let now = drained(buf);
    if now.state.done || events.len() == 0 {
        now.chunks
    } else {
        let (chunk, next) = received(now.state, events[0]);
        match chunk {
            Some(last) => now.chunks.push(last),
            None => now.chunks + streamed(next.buf, events.skip(1)),
        }
    }
}

/// Whether the body arrives whole: in pieces that are each valid UTF-8, and then its
/// end.
pub open spec fn arrives(events: Seq<NetEvent>) -> bool
    decreases events.len(),
{
    events.len() > 0 && match events[0] {
        NetEvent::Bytes(bytes) => vstd::utf8::valid_utf8(bytes@) && arrives(events.skip(1)),
        NetEvent::Failed(_) => false,
        NetEvent::Ended => true,
    }
}

/// The text of a body that arrives whole.
pub open spec fn body_text(events: Seq<NetEvent>) -> Seq<char>
    decreases events.len(),
{
    if events.len() == 0 {
        Seq::empty()
    } else {
        match events[0] {
            NetEvent::Bytes(bytes) => vstd::utf8::decode_utf8(bytes@) + body_text(events.skip(1)),
            _ => Seq::empty(),
        }
    }
}

/// What a stream hands out for the text of a whole body. Where the frames bring no
/// `Done`, the end of the body does.
pub open spec fn body_chunks(text: Seq<char>) -> Seq<StreamChunkView> {
    if drained(text).state.done {
        drained(text).chunks
    } else {
        drained(text).chunks.push(StreamChunkView::Done { usage: None })
    }
}

proof fn lemma_well_formed_parts(a: Seq<char>, b: Seq<char>)
    requires
        well_formed(a + b),
    ensures
        well_formed(a),
        !drained(a).state.done ==> well_formed(drained(a).state.buf + b),
    decreases a.len(),
{
    lemma_frame_len(a);
    lemma_frame_len(a + b);
    law_frame_is_stable(a, b);
    if let Some(n) = frame_len(a) {
        lemma_well_formed_parts(a.skip(n), b);
    }
}

proof fn lemma_pieces_from(buf: Seq<char>, events: Seq<NetEvent>)
    requires
        arrives(events),
        well_formed(buf + body_text(events)),
    ensures
        streamed(buf, events) == body_chunks(buf + body_text(events)),
    decreases events.len(),
{
    let now = drained(buf);
    match events[0] {
        NetEvent::Bytes(bytes) => {
            let piece = vstd::utf8::decode_utf8(bytes@);
            let rest = body_text(events.skip(1));
            lemma_well_formed_parts(buf, piece + rest);
            law_cut_does_not_matter(buf, piece + rest);
            if !now.state.done {
                let next = now.state.buf + piece;
                assert(next + rest =~= now.state.buf + (piece + rest));
                lemma_pieces_from(next, events.skip(1));
                assert(streamed(buf, events) =~= body_chunks(buf + body_text(events)));
            }
        },
        _ => {
            assert(buf + body_text(events) =~= buf);
        },
    }
}

/// However the network cuts a body into pieces of text, the consumer gets the same
/// chunks, those of the whole text, as long as the data of the frames is JSON.
pub proof fn law_pieces_do_not_matter(events: Seq<NetEvent>)
    requires
        arrives(events),
        well_formed(body_text(events)),
    ensures
        streamed(Seq::empty(), events) == body_chunks(body_text(events)),
{
    let nothing = Seq::<char>::empty();
    assert(nothing + body_text(events) =~= body_text(events));
    lemma_pieces_from(nothing, events);
}

/// Whether a chunk may stand before the last one of a stream: it carries some text, or
/// an error that the server reports.
pub open spec fn goes_before(chunk: StreamChunkView) -> bool {
    match chunk {
        StreamChunkView::Delta(text) => text.len() > 0,
        StreamChunkView::Error(_) => true,
        StreamChunkView::Done { .. } => false,
    }
}

proof fn lemma_drained_done(buf: Seq<char>)
    ensures
        ({
            let chunks = drained(buf).chunks;
            &&& forall|i: int| 0 <= i < chunks.len() - 1 ==> goes_before(#[trigger] chunks[i])
            &&& drained(buf).state.done ==> chunks.len() > 0 && chunks.last() is Done
            &&& !drained(buf).state.done && chunks.len() > 0 ==> goes_before(chunks.last())
        }),
    decreases buf.len(),
{
    lemma_frame_len(buf);
    if let Some(n) = frame_len(buf) {
        lemma_drained_done(buf.skip(n));
        match frame_meaning(buf.take(n)) {
            Some(SseFrameView::Chunk(chunk)) => {
                let chunks = drained(buf).chunks;
                let later = drained(buf.skip(n));
                assert(goes_before(chunk));
                assert forall|i: int| 0 <= i < chunks.len() - 1 implies goes_before(
                    #[trigger] chunks[i],
                ) by {
                    if i > 0 {
                        assert(chunks[i] == later.chunks[i - 1]);
                    }
                }
                if later.chunks.len() > 0 {
                    assert(chunks.last() == later.chunks.last());
                }
            },
            _ => {},
        }
    }
}

/// Whether an event from the network is the last one that a stream can take in: the end
/// of the body, a failure, or bytes that are not valid UTF-8.
pub open spec fn is_last(event: NetEvent) -> bool {
    match event {
        NetEvent::Bytes(bytes) => !vstd::utf8::valid_utf8(bytes@),
        NetEvent::Failed(_) => true,
        NetEvent::Ended => true,
    }
}

/// Whether a chunk can be the last one of a stream that is over: a `Done`, or the error
/// of a failure or of invalid UTF-8 among the events.
pub open spec fn ends_stream(chunk: StreamChunkView, events: Seq<NetEvent>) -> bool {
    ||| chunk is Done
    ||| exists|k: int|
        0 <= k < events.len() && is_last(#[trigger] events[k]) && match events[k] {
            NetEvent::Bytes(bytes) => chunk == StreamChunkView::Error(
                text::utf8_error_message(bytes@),
            ),
            NetEvent::Failed(message) => chunk == StreamChunkView::Error(message@),
            NetEvent::Ended => false,
        }
}

/// A stream ends once, and the consumer is never left waiting. Once the end of the body,
/// a failure or invalid UTF-8 is among the events, the stream hands out something, and
/// its last chunk is a `Done` or the error of such a failure or invalid UTF-8. A `Done`
/// is handed out at most once, as the last chunk; every chunk before the last carries
/// some text, or an error that the server reports.
pub proof fn law_stream_ends_once(buf: Seq<char>, events: Seq<NetEvent>)
    ensures
        ({
            let chunks = streamed(buf, events);
            &&& forall|i: int| 0 <= i < chunks.len() - 1 ==> goes_before(#[trigger] chunks[i])
            &&& chunks.len() > 0 ==> goes_before(chunks.last()) || ends_stream(
                chunks.last(),
                events,
            )
            &&& (exists|k: int| 0 <= k < events.len() && is_last(#[trigger] events[k])) ==> {
                &&& chunks.len() > 0
                &&& ends_stream(chunks.last(), events)
            }
        }),
    decreases events.len(),
{
    let chunks = streamed(buf, events);
    let now = drained(buf);
    lemma_drained_done(buf);
    if !now.state.done && events.len() > 0 {
        let (chunk, next) = received(now.state, events[0]);
        if chunk is None {
            let rest = events.skip(1);
            law_stream_ends_once(next.buf, rest);
            let later = streamed(next.buf, rest);
            assert(chunks =~= now.chunks + later);
            assert forall|i: int| 0 <= i < chunks.len() - 1 implies goes_before(
                #[trigger] chunks[i],
            ) by {
                if i >= now.chunks.len() {
                    assert(chunks[i] == later[i - now.chunks.len()]);
                }
            }
            if later.len() > 0 {
                assert(chunks.last() == later.last());
                if ends_stream(later.last(), rest) && !(later.last() is Done) {
                    let k = choose|k: int|
                        0 <= k < rest.len() && is_last(#[trigger] rest[k]) && match rest[k] {
                            NetEvent::Bytes(bytes) => later.last() == StreamChunkView::Error(
                                text::utf8_error_message(bytes@),
                            ),
                            NetEvent::Failed(message) => later.last() == StreamChunkView::Error(
                                message@,
                            ),
                            NetEvent::Ended => false,
                        };
                    assert(events[k + 1] == rest[k]);
                }
            }
            if exists|k: int| 0 <= k < events.len() && is_last(#[trigger] events[k]) {
                let k = choose|k: int| 0 <= k < events.len() && is_last(#[trigger] events[k]);
                assert(rest[k - 1] == events[k]);
            }
        } else {
            assert(is_last(events[0]));
        }
    }
}

/// A frame as a server writes it.
pub open spec fn written_frame(event: Seq<char>, data: Seq<char>) -> Seq<char> {
    "event: "@ + event + "\ndata: "@ + data + "\n\n"@
}

/// Whether a text stands on one line: it holds no newline, and does not end in a
/// carriage return.
pub open spec fn one_line(s: Seq<char>) -> bool {
    &&& forall|j: int| 0 <= j < s.len() ==> s[j] != '\n'
    &&& s.len() > 0 ==> s.last() != '\r'
}

/// A frame that was written is read back whole: it is the first frame of any text
/// that starts with it, and its fields are the event and the data that were written.
pub proof fn law_written_frame_is_read_back(event: Seq<char>, data: Seq<char>, rest: Seq<char>)
    requires
        one_line(event),
        one_line(data),
        text::trimmed(event) == event,
    ensures
        frame_len(written_frame(event, data) + rest) == Some(
            written_frame(event, data).len() as int,
        ),
        read_lines(text::text_lines(written_frame(event, data))) == (Fields { event, data }),
{
    reveal_strlit("event: ");
    reveal_strlit("event:");
    reveal_strlit("data: ");
    reveal_strlit("data:");
    reveal_strlit("\ndata: ");
    reveal_strlit("\n\n");
    reveal_strlit(" ");
    let frame = written_frame(event, data);
    let first = "event: "@ + event;
    let second = "data: "@ + data;
    let newline = seq!['\n'];
    let nothing = Seq::<char>::empty();
    assert(frame =~= first + newline + (second + newline + (nothing + newline + nothing)));
    text::law_first_line(first, second + newline + (nothing + newline + nothing));
    text::law_first_line(second, nothing + newline + nothing);
    text::law_first_line(nothing, nothing);
    assert(text::drop_cr(first) == first);
    assert(text::drop_cr(second) == second);
    let lines = text::text_lines(frame);
    assert(text::text_lines(nothing) =~= Seq::<Seq<char>>::empty());
    assert(lines =~= seq![first, second, nothing]);

    let none = read_lines(Seq::<Seq<char>>::empty());
    let after_first = read_lines(seq![first]);
    let after_second = read_lines(seq![first, second]);
    assert(seq![first].drop_last() =~= Seq::<Seq<char>>::empty());
    assert(seq![first, second].drop_last() =~= seq![first]);
    assert(lines.drop_last() =~= seq![first, second]);
    assert("event:"@.is_prefix_of(first));
    assert(first.skip(6) =~= seq![' '] + event);
    assert((seq![' '] + event).skip(1) =~= event);
    assert(text::trimmed(first.skip(6)) == event);
    assert(after_first.event == event && after_first.data == nothing);
    assert(!"event:"@.is_prefix_of(second)) by {
        assert(second[0] == 'd');
        assert("event:"@[0] == 'e');
    }
    assert("data:"@.is_prefix_of(second));
    assert(second.skip(5) =~= seq![' '] + data);
    assert(" "@.is_prefix_of(second.skip(5)));
    assert(second.skip(5).skip(1) =~= data);
    assert(nothing + data =~= data);
    assert(after_second == (Fields { event, data }));
    assert(!"event:"@.is_prefix_of(nothing));
    assert(!"data:"@.is_prefix_of(nothing));

    let all = frame + rest;
    let end = frame.len() - 2;
    assert(blank_line_at(all, end));
    assert forall|j: int| 0 <= j < end implies !blank_line_at(all, j) by {
        assert(all[j] == frame[j] && all[j + 1] == frame[j + 1]);
        if j < first.len() {
            assert(frame[j] == first[j]);
        } else if j == first.len() {
            assert(frame[j + 1] == 'd');
        } else {
            assert(frame[j] == second[j - first.len() - 1]);
        }
    }
    assert(first_blank_line(all, end));
    let k = choose|k: int| first_blank_line(all, k);
    assert(blank_line_at(all, k));
}

/// A frame ends with the first two newlines that stand side by side; where none do, no
/// frame is complete.
pub proof fn law_frame_ends_at_the_first_blank_line(buf: Seq<char>)
    ensures
        match frame_len(buf) {
            Some(n) => {
                &&& 2 <= n <= buf.len()
                &&& buf[n - 2] == '\n' && buf[n - 1] == '\n'
                &&& forall|j: int|
                    0 <= j < n - 2 ==> !((#[trigger] buf[j]) == '\n' && buf[j + 1] == '\n')
            },
            None => forall|j: int|
                0 <= j < buf.len() - 1 ==> !((#[trigger] buf[j]) == '\n' && buf[j + 1] == '\n'),
        },
{
    lemma_frame_len(buf);
    match frame_len(buf) {
        Some(n) => {
            assert forall|j: int| 0 <= j < n - 2 implies !((#[trigger] buf[j]) == '\n' && buf[j + 1]
                == '\n') by {
                assert(!blank_line_at(buf, j));
            }
        },
        None => {
            if exists|j: int| 0 <= j < buf.len() - 1 && (#[trigger] buf[j]) == '\n' && buf[j + 1]
                == '\n' {
                let j = choose|j: int|
                    0 <= j < buf.len() - 1 && (#[trigger] buf[j]) == '\n' && buf[j + 1] == '\n';
                assert(blank_line_at(buf, j));
                lemma_blank_line_ends_a_frame(buf, j);
            }
        },
    }
}

proof fn lemma_blank_line_ends_a_frame(buf: Seq<char>, j: int)
    requires
        blank_line_at(buf, j),
    ensures
        frame_len(buf) is Some,
    decreases j,
{
    if exists|k: int| 0 <= k < j && #[trigger] blank_line_at(buf, k) {
        let k = choose|k: int| 0 <= k < j && #[trigger] blank_line_at(buf, k);
        lemma_blank_line_ends_a_frame(buf, k);
    } else {
        assert(first_blank_line(buf, j));
    }
}

/// What a line does to the fields of a frame. An `event:` line sets the event, without
/// the white space around it. A `data:` line adds to the data all that stands behind the
/// colon, but for one space at most. Any other line does nothing. The lines of a frame
/// are read in order.
pub proof fn law_lines_of_a_frame(
    fields: Fields,
    value: Seq<char>,
    line: Seq<char>,
    lines: Seq<Seq<char>>,
)
    ensures
        read_line(fields, "event:"@ + value) == (Fields {
            event: text::trimmed(value),
            data: fields.data,
        }),
        read_line(fields, "data: "@ + value) == (Fields {
            event: fields.event,
            data: fields.data + value,
        }),
        value.len() == 0 || value[0] != ' ' ==> read_line(fields, "data:"@ + value) == (Fields {
            event: fields.event,
            data: fields.data + value,
        }),
        !"event:"@.is_prefix_of(line) && !"data:"@.is_prefix_of(line) ==> read_line(fields, line)
            == fields,
        read_lines(Seq::empty()) == (Fields { event: Seq::empty(), data: Seq::empty() }),
        read_lines(lines.push(line)) == read_line(read_lines(lines), line),
{
    reveal_strlit("event:");
    reveal_strlit("data:");
    reveal_strlit("data: ");
    reveal_strlit(" ");
    text::law_prefix_is_taken_off(line, "event:"@, value);
    text::law_prefix_is_taken_off(line, "data:"@, value);
    text::law_prefix_is_taken_off(line, "data:"@, " "@ + value);
    text::law_prefix_is_taken_off(value, " "@, value);
    assert("data: "@ + value =~= "data:"@ + (" "@ + value));
    assert(("data:"@ + value)[0] == 'd');
    assert(("data: "@ + value)[0] == 'd');
    assert("event:"@[0] == 'e');
    assert(!"event:"@.is_prefix_of("data:"@ + value));
    assert(!"event:"@.is_prefix_of("data: "@ + value));
    if value.len() == 0 || value[0] != ' ' {
        assert(" "@[0] == ' ' && " "@.len() == 1);
        assert(!" "@.is_prefix_of(value));
    }
    assert(lines.push(line).drop_last() =~= lines);
}

/// What the payload of an event contributes: a content delta with any text at all, white
/// space too, is handed out as it is, and only an empty one is skipped; the final delta
/// brings the end with its count; an error its whole message.
pub proof fn law_payloads(payload: Json, event: Seq<char>)
    ensures
        payload.at("delta"@).at("text"@) matches Json::Text(t) ==> {
            &&& t.len() > 0 ==> payload_frame("content_block_delta"@, payload)
                == SseFrameView::Chunk(StreamChunkView::Delta(t))
            &&& t.len() == 0 ==> payload_frame("content_block_delta"@, payload) is Skip
        },
        !(payload.at("delta"@).at("text"@) is Text) ==> payload_frame(
            "content_block_delta"@,
            payload,
        ) is Skip,
        match payload.at("usage"@).at("output_tokens"@) {
            Json::Number(Number::Unsigned(n)) => payload_frame("message_delta"@, payload) matches
                SseFrameView::Done(Some(usage)) && usage.input_tokens == 0
                && usage.output_tokens as int == n as int % 0x1_0000_0000,
            _ => payload_frame("message_delta"@, payload) == SseFrameView::Done(
                Some(Usage { input_tokens: 0, output_tokens: 0 }),
            ),
        },
        match payload.at("error"@).at("message"@) {
            Json::Text(message) => payload_frame("error"@, payload) == SseFrameView::Chunk(
                StreamChunkView::Error(message),
            ),
            _ => payload_frame("error"@, payload) == SseFrameView::Chunk(
                StreamChunkView::Error("unknown error"@),
            ),
        },
        event != "content_block_delta"@ && event != "message_delta"@ && event != "error"@
            ==> payload_frame(event, payload) is Skip,
{
    lemma_events_differ();
    reveal_strlit("");
}

proof fn lemma_events_differ()
    ensures
        "content_block_delta"@ != "message_delta"@,
        "content_block_delta"@ != "error"@,
        "message_delta"@ != "error"@,
{
    reveal_strlit("content_block_delta");
    reveal_strlit("message_delta");
    reveal_strlit("error");
    assert("content_block_delta"@.len() == 19 && "message_delta"@.len() == 13 && "error"@.len()
        == 5);
}

/// What a frame comes to: where its event is a content delta, the final delta or an
/// error, what the payload contributes, or nothing at all where the data is not JSON; any
/// other frame is skipped, whatever its data.
pub proof fn law_meaning_of_a_frame(frame: Seq<char>)
    ensures
        ({
            let fields = read_lines(text::text_lines(frame));
            if fields.event == "content_block_delta"@ || fields.event == "message_delta"@
                || fields.event == "error"@ {
                match json::parsed_json(fields.data) {
                    Ok(payload) => frame_meaning(frame) == Some(
                        payload_frame(fields.event, payload),
                    ),
                    Err(_) => frame_meaning(frame) is None,
                }
            } else {
                frame_meaning(frame) == Some(SseFrameView::Skip)
            }
        }),
{
}

/// What a poll does with the first frame of the buffer. A chunk is handed out as it is,
/// and the rest of the buffer is kept; the end is handed out as it is, and the stream is
/// over; a frame that says nothing is as if it were not there; a frame whose data is not
/// JSON is dropped, and the stream waits. Where no frame is complete it waits, and keeps
/// all that has arrived.
pub proof fn law_poll_takes_the_first_frame(buf: Seq<char>)
    ensures
        match frame_len(buf) {
            None => pulled(buf).0 is Await && pulled(buf).1 == (SseStateView { buf, done: false }),
            Some(n) => match frame_meaning(buf.subrange(0, n)) {
                None => pulled(buf).0 is Await && pulled(buf).1 == (SseStateView {
                    buf: buf.subrange(n, buf.len() as int),
                    done: false,
                }),
                Some(SseFrameView::Chunk(chunk)) => pulled(buf).0 == SseStepView::Emit(chunk)
                    && pulled(buf).1 == (SseStateView {
                    buf: buf.subrange(n, buf.len() as int),
                    done: false,
                }),
                Some(SseFrameView::Done(usage)) => pulled(buf).0 == SseStepView::Emit(
                    StreamChunkView::Done { usage },
                ) && pulled(buf).1 == (SseStateView {
                    buf: buf.subrange(n, buf.len() as int),
                    done: true,
                }),
                Some(SseFrameView::Skip) => pulled(buf) == pulled(
                    buf.subrange(n, buf.len() as int),
                ),
            },
        },
{
    lemma_frame_len(buf);
    if let Some(n) = frame_len(buf) {
        assert(buf.subrange(0, n) =~= buf.take(n));
        assert(buf.subrange(n, buf.len() as int) =~= buf.skip(n));
    }
}

/// What an event from the network does: the text of bytes goes behind what has arrived,
/// and nothing is handed out; bytes that are no text, and a failure, bring their error
/// and the end; so does the end of the body, with a `Done`. Nothing that has arrived is
/// lost.
pub proof fn law_events_taken_in(state: SseStateView, event: NetEvent)
    ensures
        ({
            let (chunk, next) = received(state, event);
            match event {
                NetEvent::Bytes(bytes) => {
                    &&& vstd::utf8::valid_utf8(bytes@) ==> {
                        &&& chunk is None
                        &&& next.buf == state.buf + vstd::utf8::decode_utf8(bytes@)
                        &&& next.done == state.done
                    }
                    &&& !vstd::utf8::valid_utf8(bytes@) ==> {
                        &&& chunk == Some(
                            StreamChunkView::Error(text::utf8_error_message(bytes@)),
                        )
                        &&& next.buf == state.buf
                        &&& next.done
                    }
                },
                NetEvent::Failed(message) => {
                    &&& chunk == Some(StreamChunkView::Error(message@))
                    &&& next.buf == state.buf
                    &&& next.done
                },
                NetEvent::Ended => {
                    &&& chunk == Some(StreamChunkView::Done { usage: None })
                    &&& next.buf == state.buf
                    &&& next.done
                },
            }
        }),
{
}

/// The text that a chunk adds to the streamed reply.
pub open spec fn delta_text(chunk: StreamChunkView) -> Seq<char> {
    match chunk {
        StreamChunkView::Delta(text) => text,
        _ => Seq::empty(),
    }
}

/// A body of content delta frames, as a server writes them.
pub open spec fn written_deltas(data: Seq<Seq<char>>) -> Seq<char>
    decreases data.len(),
{
    if data.len() == 0 {
        Seq::empty()
    } else {
        written_frame("content_block_delta"@, data[0]) + written_deltas(data.skip(1))
    }
}

proof fn lemma_event_name_is_trimmed(event: Seq<char>)
    requires
        event.len() > 0,
        !text::is_white_space(event[0]),
        !text::is_white_space(event.last()),
    ensures
        text::trimmed(event) == event,
{
}

/// A streamed reply loses nothing and adds nothing: where a server writes content delta
/// frames, each with a payload whose text is a string, the texts of the chunks that the
/// stream hands out, one after another, are those texts, one after another. White space
/// counts like any other text.
pub proof fn law_streamed_text_is_the_written_text(
    data: Seq<Seq<char>>,
    payloads: Seq<Json>,
    texts: Seq<Seq<char>>,
)
    requires
        data.len() == payloads.len() == texts.len(),
        forall|i: int| 0 <= i < data.len() ==> one_line(#[trigger] data[i]),
        forall|i: int|
            0 <= i < data.len() ==> json::parsed_json(#[trigger] data[i]) == Ok::<Json, Seq<char>>(
                payloads[i],
            ),
        forall|i: int|
            0 <= i < data.len() ==> (#[trigger] payloads[i]).at("delta"@).at("text"@) == Json::Text(
                texts[i],
            ),
    ensures
        ({
            let all = drained(written_deltas(data));
            &&& all.chunks.map_values(|c: StreamChunkView| delta_text(c)).flatten()
                == texts.flatten()
            &&& forall|i: int| 0 <= i < all.chunks.len() ==> (#[trigger] all.chunks[i]) is Delta
            &&& all.state == (SseStateView { buf: Seq::empty(), done: false })
            &&& well_formed(written_deltas(data))
        }),
    decreases data.len(),
{
    let text_of = |c: StreamChunkView| delta_text(c);
    let body = written_deltas(data);
    if data.len() == 0 {
        lemma_frame_len(body);
        assert(drained(body).chunks.map_values(text_of) =~= Seq::<Seq<char>>::empty());
        assert(texts =~= Seq::<Seq<char>>::empty());
    } else {
        let event = "content_block_delta"@;
        let frame = written_frame(event, data[0]);
        let rest = written_deltas(data.skip(1));
        reveal_strlit("content_block_delta");
        lemma_event_name_is_trimmed(event);
        assert(one_line(data[0]));
        law_written_frame_is_read_back(event, data[0], rest);
        assert(body.take(frame.len() as int) =~= frame);
        assert(body.skip(frame.len() as int) =~= rest);
        law_meaning_of_a_frame(frame);
        assert(payloads[0].at("delta"@).at("text"@) == Json::Text(texts[0]));
        assert(json::parsed_json(data[0]) == Ok::<Json, Seq<char>>(payloads[0]));
        law_payloads(payloads[0], event);
        assert forall|i: int| 0 <= i < data.skip(1).len() implies one_line(
            #[trigger] data.skip(1)[i],
        ) && json::parsed_json(data.skip(1)[i]) == Ok::<Json, Seq<char>>(payloads.skip(1)[i])
            && payloads.skip(1)[i].at("delta"@).at("text"@) == Json::Text(texts.skip(1)[i]) by {
            assert(data.skip(1)[i] == data[i + 1]);
            assert(payloads.skip(1)[i] == payloads[i + 1]);
        }
        assert forall|i: int| 0 <= i < data.skip(1).len() implies (
        #[trigger] payloads.skip(1)[i]).at("delta"@).at("text"@) == Json::Text(
            texts.skip(1)[i],
        ) by {
            assert(payloads.skip(1)[i] == payloads[i + 1]);
        }
        law_streamed_text_is_the_written_text(data.skip(1), payloads.skip(1), texts.skip(1));
        let later = drained(rest).chunks;
        let chunks = drained(body).chunks;
        assert(texts.drop_first() =~= texts.skip(1));
        if texts[0].len() > 0 {
            assert(chunks.map_values(text_of).drop_first() =~= later.map_values(text_of));
            assert(chunks.map_values(text_of).first() == texts[0]);
            assert forall|i: int| 0 <= i < chunks.len() implies (#[trigger] chunks[i]) is Delta by {
                if i > 0 {
                    assert(chunks[i] == later[i - 1]);
                }
            }
        } else {
            assert(texts[0] + texts.drop_first().flatten() =~= texts.drop_first().flatten());
        }
    }
}

/// The same over the network: however the body of such frames is cut into pieces, the
/// texts of all the chunks that the consumer gets are the texts that were written, one
/// after another, and then comes the one `Done`.
pub proof fn law_reply_arrives_as_it_was_written(
    events: Seq<NetEvent>,
    data: Seq<Seq<char>>,
    payloads: Seq<Json>,
    texts: Seq<Seq<char>>,
)
    requires
        arrives(events),
        body_text(events) == written_deltas(data),
        data.len() == payloads.len() == texts.len(),
        forall|i: int| 0 <= i < data.len() ==> one_line(#[trigger] data[i]),
        forall|i: int|
            0 <= i < data.len() ==> json::parsed_json(#[trigger] data[i]) == Ok::<Json, Seq<char>>(
                payloads[i],
            ),
        forall|i: int|
            0 <= i < data.len() ==> (#[trigger] payloads[i]).at("delta"@).at("text"@) == Json::Text(
                texts[i],
            ),
    ensures
        ({
            let chunks = streamed(Seq::empty(), events);
            &&& chunks.map_values(|c: StreamChunkView| delta_text(c)).flatten() == texts.flatten()
            &&& chunks.len() > 0
            &&& chunks.last() == StreamChunkView::Done { usage: None }
            &&& forall|i: int| 0 <= i < chunks.len() - 1 ==> (#[trigger] chunks[i]) is Delta
        }),
{
    let text_of = |c: StreamChunkView| delta_text(c);
    law_streamed_text_is_the_written_text(data, payloads, texts);
    law_pieces_do_not_matter(events);
    let deltas = drained(written_deltas(data)).chunks;
    let chunks = streamed(Seq::empty(), events);
    assert(chunks =~= deltas.push(StreamChunkView::Done { usage: None }));
    let nothing = Seq::<char>::empty();
    deltas.map_values(text_of).lemma_flatten_push(nothing);
    assert(chunks.map_values(text_of) =~= deltas.map_values(text_of).push(nothing));
    assert(texts.flatten() + nothing =~= texts.flatten());
}

/// What a frame, a stream and its next step say is what their fields hold.
pub proof fn law_views_of_a_stream(frame: SseFrame, state: SseState, step: SseStep)
    ensures
        match frame {
            SseFrame::Chunk(chunk) => frame@ == SseFrameView::Chunk(chunk@),
            SseFrame::Done(usage) => frame@ == SseFrameView::Done(usage),
            SseFrame::Skip => frame@ is Skip,
        },
        state@.buf == state.buf@,
        state@.done == state.done,
        match step {
            SseStep::Emit(chunk) => step@ == SseStepView::Emit(chunk@),
            SseStep::Await => step@ is Await,
            SseStep::End => step@ is End,
        },
{
}

} // verus!
