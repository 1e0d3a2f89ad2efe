//! Handles Anthropic's server-sent events, accumulating enough state to emit a
//! final `AgentResponse` on `message_stop`. The three stages of the pipeline
//! are step functions: each takes one item of its input stream and says what
//! to yield and whether the stream ends there.
use vstd::prelude::*;
use crate::json::{json_reserialized, JsonText};
use crate::provider::claude::wire::{stop_reason_from_wire, stop_reason_view};
use crate::provider::types::{
    AgentResponse, AgentResponseView, Content, ContentView, Message, MessageView,
    ProviderError, ProviderErrorView, Role, StreamEvent, StreamEventView, Usage,
};

verus! {

// ---------- Decoded event shapes ----------

/// Token counts as reported at some point in the stream; `output_tokens` is
/// typically 0 until `message_delta` near the end.
#[derive(Debug, Clone, Copy, PartialEq, Eq, Structural)]
pub struct UsagePayload {
    pub input_tokens: u32,
    pub output_tokens: u32,
}

/// Payload of a `message_start` event: carries initial token usage.
#[derive(Debug)]
pub struct MessageStartPayload {
    pub usage: Option<UsagePayload>,
}

/// The content block a `content_block_start` event is opening.
#[derive(Debug)]
pub enum ContentBlockStart {
    Text { text: String },
    ToolUse { id: String, name: String },
    Unknown,
}

/// An incremental update to a block already opened by `content_block_start`.
#[derive(Debug)]
pub enum ContentDelta {
    TextDelta { text: String },
    InputJsonDelta { partial_json: String },
    Unknown,
}

/// Payload of a `message_delta` event: final stop reason and usage update.
#[derive(Debug)]
pub struct MessageDeltaPayload {
    pub stop_reason: Option<String>,
    pub usage: Option<UsagePayload>,
}

/// One event of Anthropic's `text/event-stream`, as tagged by its `type` field.
#[derive(Debug)]
#[allow(inconsistent_fields)]
pub enum RawEvent {
    MessageStart { message: MessageStartPayload },
    ContentBlockStart { index: usize, content_block: ContentBlockStart },
    ContentBlockDelta { index: usize, delta: ContentDelta },
    ContentBlockStop { index: usize },
    MessageDelta { delta: MessageDeltaPayload },
    MessageStop,
    Ping,
    Unknown,
}

/// One server-sent event as framed from the byte stream.
#[derive(Debug)]
pub struct SseEvent {
    pub event: String,
    pub data: String,
    pub id: String,
}

// ---------- The accumulator ----------

/// One in-progress content block being accumulated across deltas.
#[derive(Debug)]
pub enum PendingBlock {
    Text(String),
    ToolUse { id: String, name: String, json_buf: String },
}

/// The mathematical value of a `PendingBlock`.
pub enum PendingBlockView {
    Text(Seq<char>),
    ToolUse { id: Seq<char>, name: Seq<char>, json_buf: Seq<char> },
}

impl View for PendingBlock {
    type V = PendingBlockView;

    open spec fn view(&self) -> PendingBlockView {
        match self {
            PendingBlock::Text(t) => PendingBlockView::Text(t@),
            PendingBlock::ToolUse { id, name, json_buf } => PendingBlockView::ToolUse {
                id: id@,
                name: name@,
                json_buf: json_buf@,
            },
        }
    }
}

/// Reassembles the full message from a sequence of events; blocks are kept in
/// the order they were opened, which is the order Anthropic indexes them in.
#[derive(Debug)]
pub struct Accumulator {
    blocks: Vec<PendingBlock>,
    input_tokens: u32,
    output_tokens: u32,
    stop_reason: Option<String>,
}

/// The mathematical value of an `Accumulator`.
pub struct AccumulatorView {
    pub blocks: Seq<PendingBlockView>,
    pub input_tokens: u32,
    pub output_tokens: u32,
    pub stop_reason: Option<Seq<char>>,
}

impl View for Accumulator {
    type V = AccumulatorView;

    closed spec fn view(&self) -> AccumulatorView {
        AccumulatorView {
            blocks: Seq::new(self.blocks@.len(), |i: int| self.blocks@[i]@),
            input_tokens: self.input_tokens,
            output_tokens: self.output_tokens,
            stop_reason: match self.stop_reason {
                Some(s) => Some(s@),
                None => None,
            },
        }
    }
}

/// The accumulator before any event.
pub open spec fn empty_accumulator() -> AccumulatorView {
    AccumulatorView { blocks: Seq::empty(), input_tokens: 0, output_tokens: 0, stop_reason: None }
}

/// The JSON text a tool call's buffered input finishes as: the canonical form
/// of the buffer where it is a JSON document, else an empty object.
pub open spec fn finished_input(json_buf: Seq<char>) -> Seq<char> {
    match json_reserialized(json_buf) {
        Some(v) => v,
        None => "{}"@,
    }
}

/// The content block a pending block finishes as.
pub open spec fn finished_content(b: PendingBlockView) -> ContentView {
    match b {
        PendingBlockView::Text(t) => ContentView::Text { text: t },
        PendingBlockView::ToolUse { id, name, json_buf } => ContentView::ToolUse {
            id,
            name,
            input: finished_input(json_buf),
        },
    }
}

/// The response an accumulator finishes as.
pub open spec fn finished_response(a: AccumulatorView) -> AgentResponseView {
    AgentResponseView {
        message: MessageView {
            role: Role::Assistant,
            content: Seq::new(a.blocks.len(), |i: int| finished_content(a.blocks[i])),
        },
        stop_reason: stop_reason_view(a.stop_reason),
        usage: Usage { input_tokens: a.input_tokens, output_tokens: a.output_tokens },
    }
}

/// The accumulator after a `message_start` event.
pub open spec fn after_message_start(a: AccumulatorView, message: MessageStartPayload) -> AccumulatorView {
    match message.usage {
        Some(u) => AccumulatorView {
            input_tokens: u.input_tokens,
            output_tokens: u.output_tokens,
            ..a
        },
        None => a,
    }
}

/// The accumulator after a `message_delta` event.
pub open spec fn after_message_delta(a: AccumulatorView, delta: MessageDeltaPayload) -> AccumulatorView {
    let a1 = match delta.stop_reason {
        Some(r) => AccumulatorView { stop_reason: Some(r@), ..a },
        None => a,
    };
    match delta.usage {
        Some(u) => AccumulatorView { output_tokens: u.output_tokens, ..a1 },
        None => a1,
    }
}

/// The block a `content_block_start` event opens; a block of unknown type is
/// kept as an empty text block so that later indices stay aligned.
pub open spec fn opened_block(cb: ContentBlockStart) -> PendingBlockView {
    match cb {
        ContentBlockStart::Text { text } => PendingBlockView::Text(text@),
        ContentBlockStart::ToolUse { id, name } => PendingBlockView::ToolUse {
            id: id@,
            name: name@,
            json_buf: Seq::empty(),
        },
        ContentBlockStart::Unknown => PendingBlockView::Text(Seq::empty()),
    }
}

/// What a `content_block_start` event yields.
pub open spec fn block_start_output(cb: ContentBlockStart) -> Option<StreamEventView> {
    match cb {
        ContentBlockStart::Text { text } => if text@.len() == 0 {
            None
        } else {
            Some(StreamEventView::TextDelta(text@))
        },
        ContentBlockStart::ToolUse { id, name } => Some(
            StreamEventView::ToolUseStart { id: id@, name: name@ },
        ),
        ContentBlockStart::Unknown => None,
    }
}

/// Whether a delta applies to the block at `index`: the block exists and the
/// delta's kind matches the block's kind.
pub open spec fn delta_applies(a: AccumulatorView, index: int, delta: ContentDelta) -> bool {
    &&& 0 <= index < a.blocks.len()
    &&& match (a.blocks[index], delta) {
        (PendingBlockView::Text(_), ContentDelta::TextDelta { .. }) => true,
        (PendingBlockView::ToolUse { .. }, ContentDelta::InputJsonDelta { .. }) => true,
        _ => false,
    }
}

/// The block at `index` after a delta that applies to it.
pub open spec fn grown_block(b: PendingBlockView, delta: ContentDelta) -> PendingBlockView {
    match (b, delta) {
        (PendingBlockView::Text(t), ContentDelta::TextDelta { text }) => PendingBlockView::Text(
            t + text@,
        ),
        (
            PendingBlockView::ToolUse { id, name, json_buf },
            ContentDelta::InputJsonDelta { partial_json },
        ) => PendingBlockView::ToolUse { id, name, json_buf: json_buf + partial_json@ },
        _ => b,
    }
}

/// The accumulator after a `content_block_delta` event.
pub open spec fn after_block_delta(a: AccumulatorView, index: int, delta: ContentDelta) -> AccumulatorView {
    if delta_applies(a, index, delta) {
        AccumulatorView { blocks: a.blocks.update(index, grown_block(a.blocks[index], delta)), ..a }
    } else {
        a
    }
}

/// What a `content_block_delta` event yields.
pub open spec fn block_delta_output(a: AccumulatorView, index: int, delta: ContentDelta) -> Option<
    StreamEventView,
> {
    if delta_applies(a, index, delta) {
        match (a.blocks[index], delta) {
            (PendingBlockView::Text(_), ContentDelta::TextDelta { text }) => Some(
                StreamEventView::TextDelta(text@),
            ),
            (
                PendingBlockView::ToolUse { id, .. },
                ContentDelta::InputJsonDelta { partial_json },
            ) => Some(StreamEventView::ToolInputDelta { id, partial_json: partial_json@ }),
            _ => None,
        }
    } else {
        None
    }
}

/// The accumulator after an event other than `message_stop`.
pub open spec fn after_raw_event(a: AccumulatorView, e: RawEvent) -> AccumulatorView {
    match e {
        RawEvent::MessageStart { message } => after_message_start(a, message),
        RawEvent::ContentBlockStart { content_block, .. } => AccumulatorView {
            blocks: a.blocks.push(opened_block(content_block)),
            ..a
        },
        RawEvent::ContentBlockDelta { index, delta } => after_block_delta(a, index as int, delta),
        RawEvent::MessageDelta { delta } => after_message_delta(a, delta),
        _ => a,
    }
}

/// What an event other than `message_stop` yields.
pub open spec fn raw_event_output(a: AccumulatorView, e: RawEvent) -> Option<StreamEventView> {
    match e {
        RawEvent::ContentBlockStart { content_block, .. } => block_start_output(content_block),
        RawEvent::ContentBlockDelta { index, delta } => block_delta_output(a, index as int, delta),
        _ => None,
    }
}

/// The view of an optional stream event.
pub open spec fn event_opt_view(o: Option<StreamEvent>) -> Option<StreamEventView> {
    match o {
        Some(e) => Some(e@),
        None => None,
    }
}

/// Whether a `content_block_start` event numbers a text or tool-use block as
/// the next one to open; a block of unknown type may carry any index.
pub open spec fn start_index_fits(a: AccumulatorView, index: int, cb: ContentBlockStart) -> bool {
    match cb {
        ContentBlockStart::Unknown => true,
        _ => index == a.blocks.len(),
    }
}

/// Whether an event's block index is one the accumulator can take: only a
/// `content_block_start` event is constrained, as `start_index_fits` says.
pub open spec fn raw_event_index_fits(a: AccumulatorView, e: RawEvent) -> bool {
    match e {
        RawEvent::ContentBlockStart { index, content_block } => start_index_fits(
            a,
            index as int,
            content_block,
        ),
        _ => true,
    }
}

impl Accumulator {
    /// An accumulator with no blocks, zero token counts and no stop reason.
    pub fn new() -> (res: Self)
        ensures
            res@ == empty_accumulator(),
    {
        let res = Accumulator {
            blocks: Vec::new(),
            input_tokens: 0,
            output_tokens: 0,
            stop_reason: None,
        };
        assert(res@.blocks =~= Seq::<PendingBlockView>::empty());
        res
    }

    /// Whether `event` numbers its block as the accumulator expects; the
    /// handlers take only events for which this holds.
    pub fn index_fits(&self, event: &RawEvent) -> (res: bool)
        ensures
            res == raw_event_index_fits(self@, *event),
    {
        match event {
            RawEvent::ContentBlockStart { index, content_block } => match content_block {
                ContentBlockStart::Unknown => true,
                _ => *index == self.blocks.len(),
            },
            _ => true,
        }
    }

    /// Converts the accumulated blocks into a complete `AgentResponse`. A tool
    /// call whose buffered JSON fails to parse falls back to `{}` rather than
    /// erroring the whole turn.
    pub fn finish(self) -> (res: AgentResponse)
        ensures
            res@ == finished_response(self@),
            res@.message.role == Role::Assistant,
            res@.message.content.len() == self@.blocks.len(),
            forall|i: int|
                0 <= i < self@.blocks.len() ==> match #[trigger] self@.blocks[i] {
                    PendingBlockView::Text(t) => res@.message.content[i] == ContentView::Text {
                        text: t,
                    },
                    PendingBlockView::ToolUse { id, name, json_buf } => {
                        &&& res@.message.content[i] is ToolUse
                        &&& res@.message.content[i]->id == id
                        &&& res@.message.content[i]->name == name
                        &&& json_reserialized(json_buf) matches Some(v) ==> res@.message.content[i]->input
                            == v
                        &&& json_reserialized(json_buf) is None ==> res@.message.content[i]->input
                            == "{}"@
                    },
                },
            res@.stop_reason == stop_reason_view(self@.stop_reason),
            res@.usage.input_tokens == self@.input_tokens,
            res@.usage.output_tokens == self@.output_tokens,
    {
        let mut content: Vec<Content> = Vec::new();
        let mut i: usize = 0;
        while i < self.blocks.len()
            invariant
                i <= self.blocks@.len(),
                content@.len() == i,
                forall|j: int|
                    0 <= j < i ==> (#[trigger] content@[j])@ == finished_content(self.blocks@[j]@),
            decreases self.blocks@.len() - i,
        {
            let c = match &self.blocks[i] {
                PendingBlock::Text(text) => Content::Text { text: text.clone() },
                PendingBlock::ToolUse { id, name, json_buf } => {
                    let input = match JsonText::parse(json_buf.as_str()) {
                        Some(v) => v,
                        None => JsonText::empty_object(),
                    };
                    Content::ToolUse { id: id.clone(), name: name.clone(), input }
                },
            };
            content.push(c);
            i = i + 1;
        }
        let stop_reason = match &self.stop_reason {
            Some(s) => stop_reason_from_wire(Some(s.as_str())),
            None => stop_reason_from_wire(None),
        };
        let res = AgentResponse {
            message: Message { role: Role::Assistant, content },
            stop_reason,
            usage: Usage { input_tokens: self.input_tokens, output_tokens: self.output_tokens },
        };
        assert(res@.message.content =~= finished_response(self@).message.content);
        res
    }

    /// Records initial token usage from a `message_start` event.
    pub fn handle_message_start(&mut self, message: MessageStartPayload)
        ensures
            final(self)@ == after_message_start(old(self)@, message),
            final(self)@.blocks == old(self)@.blocks,
            final(self)@.stop_reason == old(self)@.stop_reason,
            match message.usage {
                Some(u) => final(self)@.input_tokens == u.input_tokens
                    && final(self)@.output_tokens == u.output_tokens,
                None => final(self)@.input_tokens == old(self)@.input_tokens
                    && final(self)@.output_tokens == old(self)@.output_tokens,
            },
    {
        if let Some(usage) = message.usage {
            self.input_tokens = usage.input_tokens;
            self.output_tokens = usage.output_tokens;
        }
    }

    /// Records the final stop reason and output token count from a
    /// `message_delta` event.
    pub fn handle_message_delta(&mut self, delta: MessageDeltaPayload)
        ensures
            final(self)@ == after_message_delta(old(self)@, delta),
            final(self)@.blocks == old(self)@.blocks,
            final(self)@.input_tokens == old(self)@.input_tokens,
            final(self)@.stop_reason == match delta.stop_reason {
                Some(r) => Some(r@),
                None => old(self)@.stop_reason,
            },
            final(self)@.output_tokens == match delta.usage {
                Some(u) => u.output_tokens,
                None => old(self)@.output_tokens,
            },
    {
        let MessageDeltaPayload { stop_reason, usage } = delta;
        if let Some(reason) = stop_reason {
            self.stop_reason = Some(reason);
        }
        if let Some(u) = usage {
            self.output_tokens = u.output_tokens;
        }
    }

    /// Opens a new tool-use block and returns the `ToolUseStart` event for it.
    /// `index` must number the block as the next one to open.
    pub fn handle_tool_use_start(&mut self, index: usize, id: String, name: String) -> (res:
        StreamEvent)
        requires
            index == old(self)@.blocks.len(),
        ensures
            final(self)@ == (AccumulatorView {
                blocks: old(self)@.blocks.push(
                    PendingBlockView::ToolUse { id: id@, name: name@, json_buf: Seq::empty() },
                ),
                ..old(self)@
            }),
            res@ == (StreamEventView::ToolUseStart { id: id@, name: name@ }),
    {
        self.blocks.push(
            PendingBlock::ToolUse { id: id.clone(), name: name.clone(), json_buf: String::new() },
        );
        assert(self@.blocks =~= old(self)@.blocks.push(
            PendingBlockView::ToolUse { id: id@, name: name@, json_buf: Seq::empty() },
        ));
        StreamEvent::ToolUseStart { id, name }
    }

    /// Opens a new text block, yielding a `TextDelta` immediately if the block
    /// started with non-empty text. `index` must number the block as the next
    /// one to open.
    pub fn handle_content_block_start(&mut self, index: usize, text: String) -> (res: Option<
        StreamEvent,
    >)
        requires
            index == old(self)@.blocks.len(),
        ensures
            final(self)@ == (AccumulatorView {
                blocks: old(self)@.blocks.push(PendingBlockView::Text(text@)),
                ..old(self)@
            }),
            event_opt_view(res) == (if text@.len() == 0 {
                None
            } else {
                Some(StreamEventView::TextDelta(text@))
            }),
    {
        let mut out = None;
        if !text.as_str().is_empty() {
            out = Some(StreamEvent::TextDelta(text.clone()));
        }
        self.blocks.push(PendingBlock::Text(text));
        assert(self@.blocks =~= old(self)@.blocks.push(PendingBlockView::Text(text@)));
        out
    }

    /// Opens a placeholder block for a content-block type this library doesn't
    /// recognise, so later index-based lookups stay aligned.
    pub fn handle_content_block_unknown(&mut self)
        ensures
            final(self)@ == (AccumulatorView {
                blocks: old(self)@.blocks.push(PendingBlockView::Text(Seq::empty())),
                ..old(self)@
            }),
    {
        self.blocks.push(PendingBlock::Text(String::new()));
        assert(self@.blocks =~= old(self)@.blocks.push(PendingBlockView::Text(Seq::empty())));
    }

    /// Dispatches a `content_block_start` event by content-block kind.
    pub fn handle_content_block_start_event(
        &mut self,
        index: usize,
        content_block: ContentBlockStart,
    ) -> (res: Option<StreamEvent>)
        requires
            start_index_fits(old(self)@, index as int, content_block),
        ensures
            final(self)@ == (AccumulatorView {
                blocks: old(self)@.blocks.push(opened_block(content_block)),
                ..old(self)@
            }),
            event_opt_view(res) == block_start_output(content_block),
    {
        match content_block {
            ContentBlockStart::Text { text } => self.handle_content_block_start(index, text),
            ContentBlockStart::ToolUse { id, name } => Some(
                self.handle_tool_use_start(index, id, name),
            ),
            ContentBlockStart::Unknown => {
                self.handle_content_block_unknown();
                None
            },
        }
    }

    /// Appends a delta to the block at `index` and yields the corresponding
    /// incremental event, if the delta kind matches the block kind there;
    /// otherwise nothing changes and nothing is yielded.
    pub fn handle_content_block_delta(&mut self, index: usize, delta: ContentDelta) -> (res:
        Option<StreamEvent>)
        ensures
            final(self)@ == after_block_delta(old(self)@, index as int, delta),
            event_opt_view(res) == block_delta_output(old(self)@, index as int, delta),
            final(self)@.blocks.len() == old(self)@.blocks.len(),
            res matches Some(StreamEvent::ToolInputDelta { partial_json, .. }) ==> (
            delta matches ContentDelta::InputJsonDelta { partial_json: p } && partial_json@ == p@),
            res matches Some(StreamEvent::TextDelta(t)) ==> (
            delta matches ContentDelta::TextDelta { text } && t@ == text@),
    {
        if index >= self.blocks.len() {
            return None;
        }
        let ghost a = self@;
        let mut block = PendingBlock::Text(String::new());
        self.blocks.set_and_swap(index, &mut block);
        assert(block@ == a.blocks[index as int]);
        let (restored, out) = match block {
            PendingBlock::Text(text) => match delta {
                ContentDelta::TextDelta { text: chunk } => {
                    let mut t = text;
                    t.append(chunk.as_str());
                    (PendingBlock::Text(t), Some(StreamEvent::TextDelta(chunk)))
                },
                _ => (PendingBlock::Text(text), None),
            },
            PendingBlock::ToolUse { id, name, json_buf } => match delta {
                ContentDelta::InputJsonDelta { partial_json } => {
                    let mut buf = json_buf;
                    buf.append(partial_json.as_str());
                    let ev = StreamEvent::ToolInputDelta { id: id.clone(), partial_json };
                    (PendingBlock::ToolUse { id, name, json_buf: buf }, Some(ev))
                },
                _ => (PendingBlock::ToolUse { id, name, json_buf }, None),
            },
        };
        self.blocks.set(index, restored);
        assert(self@.blocks =~= after_block_delta(a, index as int, delta).blocks);
        out
    }

    /// Dispatches an event other than `message_stop` to its handler.
    /// `message_stop` is handled by `handle_raw_events`, since it finishes and
    /// replaces the accumulator rather than mutating it in place.
    pub fn handle_raw_event(&mut self, event: RawEvent) -> (res: Option<StreamEvent>)
        requires
            raw_event_index_fits(old(self)@, event),
        ensures
            final(self)@ == after_raw_event(old(self)@, event),
            event_opt_view(res) == raw_event_output(old(self)@, event),
    {
        match event {
            RawEvent::MessageStart { message } => {
                self.handle_message_start(message);
                None
            },
            RawEvent::ContentBlockStart { index, content_block } => {
                self.handle_content_block_start_event(index, content_block)
            },
            RawEvent::ContentBlockDelta { index, delta } => {
                self.handle_content_block_delta(index, delta)
            },
            RawEvent::ContentBlockStop { .. } => None,
            RawEvent::MessageDelta { delta } => {
                self.handle_message_delta(delta);
                None
            },
            RawEvent::Ping | RawEvent::Unknown => None,
            RawEvent::MessageStop => None,
        }
    }
}


// ---------- The pipeline stages ----------

/// What a pipeline stage does with one item of its input: the item it yields,
/// if any, and whether its output stream ends after it.
#[derive(Debug)]
pub struct Step<T> {
    pub item: Option<Result<T, ProviderError>>,
    pub stop: bool,
}

/// The view of an optional yielded stream event.
pub open spec fn yielded_event_view(o: Option<Result<StreamEvent, ProviderError>>) -> Option<
    Result<StreamEventView, ProviderErrorView>,
> {
    match o {
        Some(Ok(e)) => Some(Ok(e@)),
        Some(Err(e)) => Some(Err(e@)),
        None => None,
    }
}

/// First stage, on one framed item: a framing failure (carried as its
/// description) is yielded as a `Decode` error and ends the stream; a
/// keep-alive event with empty data is dropped; any other event passes.
pub fn remove_empty_and_map_errs(framed: Result<SseEvent, String>) -> (res: Step<SseEvent>)
    ensures
        match framed {
            Err(msg) => {
                &&& res.stop
                &&& res.item matches Some(Err(e))
                &&& e@ == ProviderErrorView::Decode(msg@)
            },
            Ok(event) => {
                &&& !res.stop
                &&& if event.data@.len() == 0 {
                    res.item is None
                } else {
                    res.item == Some(Ok::<SseEvent, ProviderError>(event))
                }
            },
        },
{
    match framed {
        Err(msg) => Step { item: Some(Err(ProviderError::Decode(msg))), stop: true },
        Ok(event) => {
            if event.data.as_str().is_empty() {
                Step { item: None, stop: false }
            } else {
                Step { item: Some(Ok(event)), stop: false }
            }
        },
    }
}

/// Second stage, on one item whose event data has been decoded (the decoding
/// failure carried as its description): an upstream error passes and ends the
/// stream; a decoding failure becomes a `Decode` error and ends the stream; a
/// decoded event passes.
pub fn extract_raw_events(item: Result<Result<RawEvent, String>, ProviderError>) -> (res: Step<
    RawEvent,
>)
    ensures
        match item {
            Err(e) => res.stop && res.item == Some(Err::<RawEvent, ProviderError>(e)),
            Ok(Err(msg)) => {
                &&& res.stop
                &&& res.item matches Some(Err(e))
                &&& e@ == ProviderErrorView::Decode(msg@)
            },
            Ok(Ok(raw)) => !res.stop && res.item == Some(Ok::<RawEvent, ProviderError>(raw)),
        },
{
    match item {
        Err(e) => Step { item: Some(Err(e)), stop: true },
        Ok(Err(msg)) => Step { item: Some(Err(ProviderError::Decode(msg))), stop: true },
        Ok(Ok(raw)) => Step { item: Some(Ok(raw)), stop: false },
    }
}

/// Third stage, on one decoded event: an upstream error passes and ends the
/// stream; `message_stop` yields the finished response and ends the stream,
/// leaving a fresh accumulator; any other event updates the accumulator and
/// yields its incremental event, if it has one.
pub fn handle_raw_events(acc: &mut Accumulator, item: Result<RawEvent, ProviderError>) -> (res:
    Step<StreamEvent>)
    requires
        item matches Ok(e) ==> raw_event_index_fits(old(acc)@, e),
    ensures
        match item {
            Err(e) => {
                &&& res.stop
                &&& yielded_event_view(res.item) == Some(Err::<StreamEventView, ProviderErrorView>(e@))
                &&& final(acc)@ == old(acc)@
            },
            Ok(RawEvent::MessageStop) => {
                &&& res.stop
                &&& yielded_event_view(res.item) == Some(
                    Ok::<StreamEventView, ProviderErrorView>(
                        StreamEventView::MessageDone(finished_response(old(acc)@)),
                    ),
                )
                &&& final(acc)@ == empty_accumulator()
            },
            Ok(event) => {
                &&& !res.stop
                &&& yielded_event_view(res.item) == match raw_event_output(old(acc)@, event) {
                    Some(ev) => Some(Ok::<StreamEventView, ProviderErrorView>(ev)),
                    None => None,
                }
                &&& final(acc)@ == after_raw_event(old(acc)@, event)
            },
        },
{
    match item {
        Err(e) => Step { item: Some(Err(e)), stop: true },
        Ok(RawEvent::MessageStop) => {
            let mut finished = Accumulator::new();
            std::mem::swap(acc, &mut finished);
            let response = finished.finish();
            Step { item: Some(Ok(StreamEvent::MessageDone(response))), stop: true }
        },
        Ok(event) => {
            let out = acc.handle_raw_event(event);
            match out {
                Some(ev) => Step { item: Some(Ok(ev)), stop: false },
                None => Step { item: None, stop: false },
            }
        },
    }
}

// ---------- What is streamed is what is kept ----------

/// The accumulator after each event of `events` in turn.
pub open spec fn fold_events(a: AccumulatorView, events: Seq<RawEvent>) -> AccumulatorView
    decreases events.len(),
{
    if events.len() == 0 {
        a
    } else {
        after_raw_event(fold_events(a, events.drop_last()), events.last())
    }
}

/// The text an optional event streams: the chunk of a `TextDelta`, else nothing.
pub open spec fn delta_text(o: Option<StreamEventView>) -> Seq<char> {
    match o {
        Some(StreamEventView::TextDelta(t)) => t,
        _ => Seq::empty(),
    }
}

/// The text streamed while `events` are handled in turn: the chunks of the
/// `TextDelta` events yielded, in order.
pub open spec fn streamed_text(a: AccumulatorView, events: Seq<RawEvent>) -> Seq<char>
    decreases events.len(),
{
    if events.len() == 0 {
        Seq::empty()
    } else {
        streamed_text(a, events.drop_last()) + delta_text(
            raw_event_output(fold_events(a, events.drop_last()), events.last()),
        )
    }
}

/// The text of a pending block: its text if it is a text block.
pub open spec fn block_text(b: PendingBlockView) -> Seq<char> {
    match b {
        PendingBlockView::Text(t) => t,
        _ => Seq::empty(),
    }
}

/// The texts of the text blocks, in order.
pub open spec fn blocks_text(blocks: Seq<PendingBlockView>) -> Seq<char>
    decreases blocks.len(),
{
    if blocks.len() == 0 {
        Seq::empty()
    } else {
        blocks_text(blocks.drop_last()) + block_text(blocks.last())
    }
}

/// The texts of the text blocks of a message, in order.
pub open spec fn message_text(content: Seq<ContentView>) -> Seq<char>
    decreases content.len(),
{
    if content.len() == 0 {
        Seq::empty()
    } else {
        message_text(content.drop_last()) + match content.last() {
            ContentView::Text { text } => text,
            _ => Seq::empty(),
        }
    }
}

/// Whether a delta event targets the most recently opened block, or no block
/// at all; any other event qualifies.
pub open spec fn delta_targets_last(a: AccumulatorView, e: RawEvent) -> bool {
    match e {
        RawEvent::ContentBlockDelta { index, .. } => index + 1 >= a.blocks.len(),
        _ => true,
    }
}

/// Whether every delta of `events` targets the block opened last, as Anthropic
/// streams them: each block is finished before the next one opens.
pub open spec fn deltas_in_order(a: AccumulatorView, events: Seq<RawEvent>) -> bool {
    forall|i: int|
        0 <= i < events.len() ==> #[trigger] delta_targets_last(
            fold_events(a, events.take(i)),
            events[i],
        )
}

proof fn lemma_blocks_text_update_last(blocks: Seq<PendingBlockView>, b: PendingBlockView)
    requires
        blocks.len() > 0,
    ensures
        blocks_text(blocks.update(blocks.len() - 1, b)) == blocks_text(blocks.drop_last())
            + block_text(b),
{
    assert(blocks.update(blocks.len() - 1, b).drop_last() =~= blocks.drop_last());
}

/// While the deltas of a stream arrive in order, the text that has been
/// streamed is exactly the text the accumulator holds: the text blocks after
/// handling `events` are those before, followed by the streamed chunks.
pub proof fn lemma_streamed_text_is_kept(a: AccumulatorView, events: Seq<RawEvent>)
    requires
        deltas_in_order(a, events),
    ensures
        blocks_text(fold_events(a, events).blocks) == blocks_text(a.blocks) + streamed_text(
            a,
            events,
        ),
    decreases events.len(),
{
    if events.len() == 0 {
        assert(blocks_text(a.blocks) + Seq::<char>::empty() =~= blocks_text(a.blocks));
    } else {
        let p = events.drop_last();
        let e = events.last();
        let n = events.len() - 1;
        assert forall|i: int| 0 <= i < p.len() implies #[trigger] delta_targets_last(
            fold_events(a, p.take(i)),
            p[i],
        ) by {
            assert(p.take(i) =~= events.take(i));
            assert(delta_targets_last(fold_events(a, events.take(i)), events[i]));
        }
        lemma_streamed_text_is_kept(a, p);
        let b = fold_events(a, p);
        assert(events.take(n) =~= p);
        assert(delta_targets_last(fold_events(a, events.take(n)), events[n]));
        assert(delta_targets_last(b, e));
        match e {
            RawEvent::ContentBlockStart { content_block, .. } => {
                let nb = b.blocks.push(opened_block(content_block));
                assert(nb.drop_last() =~= b.blocks);
                assert(blocks_text(nb) == blocks_text(b.blocks) + block_text(
                    opened_block(content_block),
                ));
                assert(block_text(opened_block(content_block)) =~= delta_text(
                    block_start_output(content_block),
                ));
            },
            RawEvent::ContentBlockDelta { index, delta } => {
                if delta_applies(b, index as int, delta) {
                    assert(index == b.blocks.len() - 1);
                    lemma_blocks_text_update_last(b.blocks, grown_block(b.blocks[index as int], delta));
                    assert(b.blocks.drop_last().push(b.blocks.last()) =~= b.blocks);
                    assert(blocks_text(b.blocks) == blocks_text(b.blocks.drop_last()) + block_text(
                        b.blocks.last(),
                    ));
                    assert(block_text(grown_block(b.blocks[index as int], delta)) =~= block_text(
                        b.blocks[index as int],
                    ) + delta_text(block_delta_output(b, index as int, delta)));
                }
            },
            _ => {},
        }
        assert(blocks_text(after_raw_event(b, e).blocks) =~= blocks_text(b.blocks) + delta_text(
            raw_event_output(b, e),
        ));
        assert(fold_events(a, events) == after_raw_event(b, e));
        assert(streamed_text(a, events) == streamed_text(a, p) + delta_text(
            raw_event_output(b, e),
        ));
        assert(blocks_text(fold_events(a, events).blocks) =~= blocks_text(a.blocks)
            + streamed_text(a, events));
    }
}

proof fn lemma_message_text_of_blocks(blocks: Seq<PendingBlockView>)
    ensures
        message_text(Seq::new(blocks.len(), |i: int| finished_content(blocks[i]))) == blocks_text(
            blocks,
        ),
    decreases blocks.len(),
{
    let c = Seq::new(blocks.len(), |i: int| finished_content(blocks[i]));
    if blocks.len() > 0 {
        let p = blocks.drop_last();
        lemma_message_text_of_blocks(p);
        assert(c.drop_last() =~= Seq::new(p.len(), |i: int| finished_content(p[i])));
    }
}

/// What the stream printed is what the reply keeps: for a stream whose deltas
/// arrive in order, the text of the message finished on `message_stop` is the
/// concatenation of every `TextDelta` chunk yielded before it.
pub proof fn lemma_finished_text_is_streamed_text(events: Seq<RawEvent>)
    requires
        deltas_in_order(empty_accumulator(), events),
    ensures
        message_text(
            finished_response(fold_events(empty_accumulator(), events)).message.content,
        ) == streamed_text(empty_accumulator(), events),
{
    lemma_streamed_text_is_kept(empty_accumulator(), events);
    lemma_message_text_of_blocks(fold_events(empty_accumulator(), events).blocks);
    assert(blocks_text(empty_accumulator().blocks) =~= Seq::<char>::empty());
    assert(Seq::<char>::empty() + streamed_text(empty_accumulator(), events) =~= streamed_text(
        empty_accumulator(),
        events,
    ));
}

// ---------- Blocks stay aligned with Anthropic's numbering ----------

/// The number of `content_block_start` events in `events`.
pub open spec fn block_starts(events: Seq<RawEvent>) -> nat
    decreases events.len(),
{
    if events.len() == 0 {
        0
    } else {
        block_starts(events.drop_last()) + if events.last() is ContentBlockStart {
            1nat
        } else {
            0nat
        }
    }
}

/// Every `content_block_start` event opens exactly one block, whatever its
/// kind, and no other event opens or drops one: after `events` the
/// accumulator holds one more block per start event. So, with blocks numbered
/// from zero in the order they open, index `k` names the block the `k`-th
/// start opened.
pub proof fn lemma_one_block_per_start(a: AccumulatorView, events: Seq<RawEvent>)
    ensures
        fold_events(a, events).blocks.len() == a.blocks.len() + block_starts(events),
    decreases events.len(),
{
    if events.len() > 0 {
        lemma_one_block_per_start(a, events.drop_last());
    }
}

// ---------- Tool calls streamed are tool calls kept ----------

/// One for an event that announces a tool call, else zero.
pub open spec fn tool_start_count(o: Option<StreamEventView>) -> nat {
    match o {
        Some(StreamEventView::ToolUseStart { .. }) => 1,
        _ => 0,
    }
}

/// The number of `ToolUseStart` events yielded while `events` are handled in
/// turn.
pub open spec fn streamed_tool_starts(a: AccumulatorView, events: Seq<RawEvent>) -> nat
    decreases events.len(),
{
    if events.len() == 0 {
        0
    } else {
        streamed_tool_starts(a, events.drop_last()) + tool_start_count(
            raw_event_output(fold_events(a, events.drop_last()), events.last()),
        )
    }
}

/// One for a pending tool-use block, else zero.
pub open spec fn tool_block_count(b: PendingBlockView) -> nat {
    match b {
        PendingBlockView::ToolUse { .. } => 1,
        _ => 0,
    }
}

/// The number of pending tool-use blocks.
pub open spec fn tool_blocks(blocks: Seq<PendingBlockView>) -> nat
    decreases blocks.len(),
{
    if blocks.len() == 0 {
        0
    } else {
        tool_blocks(blocks.drop_last()) + tool_block_count(blocks.last())
    }
}

/// The number of tool-use blocks of a message.
pub open spec fn message_tool_uses(content: Seq<ContentView>) -> nat
    decreases content.len(),
{
    if content.len() == 0 {
        0
    } else {
        message_tool_uses(content.drop_last()) + if content.last() is ToolUse {
            1nat
        } else {
            0nat
        }
    }
}

proof fn lemma_tool_blocks_update(blocks: Seq<PendingBlockView>, i: int, b: PendingBlockView)
    requires
        0 <= i < blocks.len(),
        tool_block_count(b) == tool_block_count(blocks[i]),
    ensures
        tool_blocks(blocks.update(i, b)) == tool_blocks(blocks),
    decreases blocks.len(),
{
    let u = blocks.update(i, b);
    if i == blocks.len() - 1 {
        assert(u.drop_last() =~= blocks.drop_last());
    } else {
        lemma_tool_blocks_update(blocks.drop_last(), i, b);
        assert(u.drop_last() =~= blocks.drop_last().update(i, b));
    }
}

/// Every `ToolUseStart` yielded opens a tool-use block and no other event
/// opens or changes the kind of one: the tool-use blocks after handling
/// `events` are those before plus one per `ToolUseStart` yielded.
pub proof fn lemma_streamed_tool_starts_are_kept(a: AccumulatorView, events: Seq<RawEvent>)
    ensures
        tool_blocks(fold_events(a, events).blocks) == tool_blocks(a.blocks)
            + streamed_tool_starts(a, events),
    decreases events.len(),
{
    if events.len() > 0 {
        let p = events.drop_last();
        let e = events.last();
        lemma_streamed_tool_starts_are_kept(a, p);
        let b = fold_events(a, p);
        match e {
            RawEvent::ContentBlockStart { content_block, .. } => {
                let nb = b.blocks.push(opened_block(content_block));
                assert(nb.drop_last() =~= b.blocks);
            },
            RawEvent::ContentBlockDelta { index, delta } => {
                if delta_applies(b, index as int, delta) {
                    lemma_tool_blocks_update(
                        b.blocks,
                        index as int,
                        grown_block(b.blocks[index as int], delta),
                    );
                }
            },
            _ => {},
        }
    }
}

proof fn lemma_message_tool_uses_of_blocks(blocks: Seq<PendingBlockView>)
    ensures
        message_tool_uses(Seq::new(blocks.len(), |i: int| finished_content(blocks[i])))
            == tool_blocks(blocks),
    decreases blocks.len(),
{
    let c = Seq::new(blocks.len(), |i: int| finished_content(blocks[i]));
    if blocks.len() > 0 {
        let p = blocks.drop_last();
        lemma_message_tool_uses_of_blocks(p);
        assert(c.drop_last() =~= Seq::new(p.len(), |i: int| finished_content(p[i])));
    }
}

/// Whether `events` number their blocks as Anthropic does: each
/// `content_block_start` carries the number of blocks started before it, and
/// each `content_block_delta` the number of the block started last.
pub open spec fn numbered_in_order(events: Seq<RawEvent>) -> bool {
    forall|i: int|
        0 <= i < events.len() ==> match #[trigger] events[i] {
            RawEvent::ContentBlockStart { index, .. } => index == block_starts(events.take(i)),
            RawEvent::ContentBlockDelta { index, .. } => index + 1 == block_starts(events.take(i)),
            _ => true,
        }
}

/// What the stream printed is what the reply keeps, text and tool calls
/// alike: for a stream whose blocks are numbered in order and whose deltas
/// each go to the block started last, the message finished on `message_stop`
/// has as its text the concatenation of every `TextDelta` chunk yielded
/// before, and as many tool-use blocks as `ToolUseStart` events were yielded.
/// Every event of such a stream numbers its block as the handlers require.
pub proof fn lemma_finished_reply_matches_stream(events: Seq<RawEvent>)
    requires
        numbered_in_order(events),
    ensures
        message_text(
            finished_response(fold_events(empty_accumulator(), events)).message.content,
        ) == streamed_text(empty_accumulator(), events),
        message_tool_uses(
            finished_response(fold_events(empty_accumulator(), events)).message.content,
        ) == streamed_tool_starts(empty_accumulator(), events),
        forall|i: int|
            0 <= i < events.len() ==> #[trigger] raw_event_index_fits(
                fold_events(empty_accumulator(), events.take(i)),
                events[i],
            ),
{
    let a = empty_accumulator();
    assert forall|i: int| 0 <= i < events.len() implies #[trigger] raw_event_index_fits(
        fold_events(a, events.take(i)),
        events[i],
    ) by {
        lemma_one_block_per_start(a, events.take(i));
        assert(numbered_in_order(events));
    }
    assert forall|i: int| 0 <= i < events.len() implies #[trigger] delta_targets_last(
        fold_events(a, events.take(i)),
        events[i],
    ) by {
        lemma_one_block_per_start(a, events.take(i));
        match events[i] {
            RawEvent::ContentBlockDelta { index, .. } => {
                assert(index + 1 == block_starts(events.take(i)));
            },
            _ => {},
        }
    }
    lemma_finished_text_is_streamed_text(events);
    lemma_streamed_tool_starts_are_kept(a, events);
    lemma_message_tool_uses_of_blocks(fold_events(a, events).blocks);
    assert(tool_blocks(a.blocks) == 0);
}

// ---------- Tool input streamed is tool input kept ----------

/// An input chunk for a tool-use block is yielded exactly as it arrived, and
/// the block keeps it: the event carries the block's id and the delta's own
/// chunk (not the buffer so far), and the block's buffer grows by that chunk.
pub proof fn lemma_tool_input_chunk_is_kept(a: AccumulatorView, index: int, delta: ContentDelta)
    requires
        0 <= index < a.blocks.len(),
        a.blocks[index] is ToolUse,
        delta is InputJsonDelta,
    ensures
        block_delta_output(a, index, delta) == Some(
            StreamEventView::ToolInputDelta {
                id: a.blocks[index]->id,
                partial_json: delta->partial_json@,
            },
        ),
        after_block_delta(a, index, delta).blocks.len() == a.blocks.len(),
        after_block_delta(a, index, delta).blocks[index] == (PendingBlockView::ToolUse {
            id: a.blocks[index]->id,
            name: a.blocks[index]->name,
            json_buf: a.blocks[index]->json_buf + delta->partial_json@,
        }),
{
}

/// A text chunk is yielded exactly as it arrived, and the block keeps it:
/// the text block at `index` grows by the chunk the event carries.
pub proof fn lemma_text_chunk_is_kept(a: AccumulatorView, index: int, delta: ContentDelta)
    requires
        0 <= index < a.blocks.len(),
        a.blocks[index] is Text,
        delta is TextDelta,
    ensures
        block_delta_output(a, index, delta) == Some(StreamEventView::TextDelta(delta->text@)),
        after_block_delta(a, index, delta).blocks.len() == a.blocks.len(),
        after_block_delta(a, index, delta).blocks[index] == PendingBlockView::Text(
            a.blocks[index]->Text_0 + delta->text@,
        ),
{
}

/// The input chunk an optional event streams: the chunk of a
/// `ToolInputDelta`, else nothing.
pub open spec fn delta_json(o: Option<StreamEventView>) -> Seq<char> {
    match o {
        Some(StreamEventView::ToolInputDelta { partial_json, .. }) => partial_json,
        _ => Seq::empty(),
    }
}

/// The tool input streamed while `events` are handled in turn: the chunks of
/// the `ToolInputDelta` events yielded, in order.
pub open spec fn streamed_json(a: AccumulatorView, events: Seq<RawEvent>) -> Seq<char>
    decreases events.len(),
{
    if events.len() == 0 {
        Seq::empty()
    } else {
        streamed_json(a, events.drop_last()) + delta_json(
            raw_event_output(fold_events(a, events.drop_last()), events.last()),
        )
    }
}

/// The buffered input of a pending block: its buffer if it is a tool call.
pub open spec fn block_json(b: PendingBlockView) -> Seq<char> {
    match b {
        PendingBlockView::ToolUse { json_buf, .. } => json_buf,
        _ => Seq::empty(),
    }
}

/// The buffered inputs of the tool-use blocks, in order.
pub open spec fn blocks_json(blocks: Seq<PendingBlockView>) -> Seq<char>
    decreases blocks.len(),
{
    if blocks.len() == 0 {
        Seq::empty()
    } else {
        blocks_json(blocks.drop_last()) + block_json(blocks.last())
    }
}

/// While the deltas of a stream arrive in order, the tool input that has been
/// streamed is exactly the tool input the accumulator holds: the buffers of
/// the tool-use blocks after handling `events` are those before, followed by
/// the streamed input chunks.
pub proof fn lemma_streamed_json_is_kept(a: AccumulatorView, events: Seq<RawEvent>)
    requires
        deltas_in_order(a, events),
    ensures
        blocks_json(fold_events(a, events).blocks) == blocks_json(a.blocks) + streamed_json(
            a,
            events,
        ),
    decreases events.len(),
{
    if events.len() == 0 {
        assert(blocks_json(a.blocks) + Seq::<char>::empty() =~= blocks_json(a.blocks));
    } else {
        let p = events.drop_last();
        let e = events.last();
        let n = events.len() - 1;
        assert forall|i: int| 0 <= i < p.len() implies #[trigger] delta_targets_last(
            fold_events(a, p.take(i)),
            p[i],
        ) by {
            assert(p.take(i) =~= events.take(i));
            assert(delta_targets_last(fold_events(a, events.take(i)), events[i]));
        }
        lemma_streamed_json_is_kept(a, p);
        let b = fold_events(a, p);
        assert(events.take(n) =~= p);
        assert(delta_targets_last(fold_events(a, events.take(n)), events[n]));
        match e {
            RawEvent::ContentBlockStart { content_block, .. } => {
                let nb = b.blocks.push(opened_block(content_block));
                assert(nb.drop_last() =~= b.blocks);
                assert(block_json(opened_block(content_block)) =~= delta_json(
                    block_start_output(content_block),
                ));
            },
            RawEvent::ContentBlockDelta { index, delta } => {
                if delta_applies(b, index as int, delta) {
                    let g = grown_block(b.blocks[index as int], delta);
                    let u = b.blocks.update(index as int, g);
                    assert(u.drop_last() =~= b.blocks.drop_last());
                    assert(b.blocks.drop_last().push(b.blocks.last()) =~= b.blocks);
                    assert(blocks_json(b.blocks) == blocks_json(b.blocks.drop_last()) + block_json(
                        b.blocks.last(),
                    ));
                    assert(block_json(g) =~= block_json(b.blocks[index as int]) + delta_json(
                        block_delta_output(b, index as int, delta),
                    ));
                }
            },
            _ => {},
        }
        assert(blocks_json(after_raw_event(b, e).blocks) =~= blocks_json(b.blocks) + delta_json(
            raw_event_output(b, e),
        ));
        assert(fold_events(a, events) == after_raw_event(b, e));
        assert(streamed_json(a, events) == streamed_json(a, p) + delta_json(raw_event_output(b, e)));
        assert(blocks_json(fold_events(a, events).blocks) =~= blocks_json(a.blocks)
            + streamed_json(a, events));
    }
}

/// A tool call announced is a tool call opened: a `content_block_start` of a
/// tool call yields `ToolUseStart` with the call's id and name, and opens, as
/// the last block, a tool-use block with that id and name and no input yet.
pub proof fn lemma_tool_start_opens_tool_block(a: AccumulatorView, index: usize, id: String, name: String)
    ensures
        ({
            let e = RawEvent::ContentBlockStart {
                index,
                content_block: ContentBlockStart::ToolUse { id, name },
            };
            &&& raw_event_output(a, e) == Some(
                StreamEventView::ToolUseStart { id: id@, name: name@ },
            )
            &&& after_raw_event(a, e).blocks.len() == a.blocks.len() + 1
            &&& after_raw_event(a, e).blocks.last() == (PendingBlockView::ToolUse {
                id: id@,
                name: name@,
                json_buf: Seq::empty(),
            })
            &&& after_raw_event(a, e).blocks.drop_last() == a.blocks
        }),
{
    let e = RawEvent::ContentBlockStart {
        index,
        content_block: ContentBlockStart::ToolUse { id, name },
    };
    assert(after_raw_event(a, e).blocks.drop_last() =~= a.blocks);
}

} // verus!
