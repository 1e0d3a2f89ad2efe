//! The provider-neutral conversation model: messages, requests, responses and
//! the incremental events a streaming provider emits.
use vstd::prelude::*;
use crate::json::JsonText;

verus! {

/// Who authored a message.
#[derive(Debug, Clone, Copy, PartialEq, Eq, Structural)]
pub enum Role {
    User,
    Assistant,
}

/// One piece of a message. Modeled after Anthropic's content blocks since that is
/// the richest shape implemented; a narrower provider can simply never emit
/// some variants.
#[derive(Debug)]
pub enum Content {
    Text { text: String },
    ToolUse { id: String, name: String, input: JsonText },
    ToolResult { tool_use_id: String, content: String, is_error: bool },
}

/// The mathematical value of a `Content`.
pub enum ContentView {
    Text { text: Seq<char> },
    ToolUse { id: Seq<char>, name: Seq<char>, input: Seq<char> },
    ToolResult { tool_use_id: Seq<char>, content: Seq<char>, is_error: bool },
}

impl View for Content {
    type V = ContentView;

    open spec fn view(&self) -> ContentView {
        match self {
            Content::Text { text } => ContentView::Text { text: text@ },
            Content::ToolUse { id, name, input } => ContentView::ToolUse {
                id: id@,
                name: name@,
                input: input@,
            },
            Content::ToolResult { tool_use_id, content, is_error } => ContentView::ToolResult {
                tool_use_id: tool_use_id@,
                content: content@,
                is_error: *is_error,
            },
        }
    }
}

impl Clone for Content {
    fn clone(&self) -> (res: Self)
        ensures
            res@ == self@,
    {
        match self {
            Content::Text { text } => Content::Text { text: text.clone() },
            Content::ToolUse { id, name, input } => Content::ToolUse {
                id: id.clone(),
                name: name.clone(),
                input: input.clone(),
            },
            Content::ToolResult { tool_use_id, content, is_error } => Content::ToolResult {
                tool_use_id: tool_use_id.clone(),
                content: content.clone(),
                is_error: *is_error,
            },
        }
    }
}

/// The views of a sequence of content blocks.
pub open spec fn contents_view(s: Seq<Content>) -> Seq<ContentView> {
    Seq::new(s.len(), |i: int| s[i]@)
}

/// One message of a conversation.
#[derive(Debug)]
pub struct Message {
    pub role: Role,
    pub content: Vec<Content>,
}

/// The mathematical value of a `Message`.
pub struct MessageView {
    pub role: Role,
    pub content: Seq<ContentView>,
}

impl View for Message {
    type V = MessageView;

    open spec fn view(&self) -> MessageView {
        MessageView { role: self.role, content: contents_view(self.content@) }
    }
}

/// The views of a sequence of messages.
pub open spec fn messages_view(s: Seq<Message>) -> Seq<MessageView> {
    Seq::new(s.len(), |i: int| s[i]@)
}

/// A message holding a single text block.
pub open spec fn text_message(role: Role, text: Seq<char>) -> MessageView {
    MessageView { role, content: seq![ContentView::Text { text }] }
}

fn clone_contents(v: &Vec<Content>) -> (res: Vec<Content>)
    ensures
        contents_view(res@) == contents_view(v@),
{
    let mut res: Vec<Content> = Vec::new();
    let mut i: usize = 0;
    while i < v.len()
        invariant
            i <= v.len(),
            res@.len() == i,
            forall|j: int| 0 <= j < i ==> res@[j]@ == #[trigger] v@[j]@,
        decreases v.len() - i,
    {
        res.push(v[i].clone());
        i = i + 1;
    }
    assert(contents_view(res@) =~= contents_view(v@));
    res
}

impl Clone for Message {
    fn clone(&self) -> (res: Self)
        ensures
            res@ == self@,
    {
        Message { role: self.role, content: clone_contents(&self.content) }
    }
}

/// Copies a sequence of messages.
pub fn clone_messages(v: &Vec<Message>) -> (res: Vec<Message>)
    ensures
        messages_view(res@) == messages_view(v@),
{
    let mut res: Vec<Message> = Vec::new();
    let mut i: usize = 0;
    while i < v.len()
        invariant
            i <= v.len(),
            res@.len() == i,
            forall|j: int| 0 <= j < i ==> res@[j]@ == #[trigger] v@[j]@,
        decreases v.len() - i,
    {
        res.push(v[i].clone());
        i = i + 1;
    }
    assert(messages_view(res@) =~= messages_view(v@));
    res
}

impl Message {
    /// A message from the assistant holding one text block.
    pub fn assistant(text: &str) -> (res: Self)
        ensures
            res@ == text_message(Role::Assistant, text@),
            res@.role == Role::Assistant,
            res@.content.len() == 1,
            res@.content[0] == (ContentView::Text { text: text@ }),
    {
        let mut content: Vec<Content> = Vec::new();
        content.push(Content::Text { text: text.to_owned() });
        let res = Message { role: Role::Assistant, content };
        assert(res@.content =~= seq![ContentView::Text { text: text@ }]);
        res
    }

    /// A message from the user holding one text block.
    pub fn user(text: &str) -> (res: Self)
        ensures
            res@ == text_message(Role::User, text@),
            res@.role == Role::User,
            res@.content.len() == 1,
            res@.content[0] == (ContentView::Text { text: text@ }),
    {
        let mut content: Vec<Content> = Vec::new();
        content.push(Content::Text { text: text.to_owned() });
        let res = Message { role: Role::User, content };
        assert(res@.content =~= seq![ContentView::Text { text: text@ }]);
        res
    }
}

/// A tool declaration. Nothing
/// implements tools yet, but keeping this on the request shape avoids
/// reshaping every provider later.
#[derive(Debug)]
pub struct ToolSpec {
    pub name: String,
    pub description: String,
    pub input_schema: JsonText,
}

/// The mathematical value of a `ToolSpec`.
pub struct ToolSpecView {
    pub name: Seq<char>,
    pub description: Seq<char>,
    pub input_schema: Seq<char>,
}

impl View for ToolSpec {
    type V = ToolSpecView;

    open spec fn view(&self) -> ToolSpecView {
        ToolSpecView {
            name: self.name@,
            description: self.description@,
            input_schema: self.input_schema@,
        }
    }
}

impl Clone for ToolSpec {
    fn clone(&self) -> (res: Self)
        ensures
            res@ == self@,
    {
        ToolSpec {
            name: self.name.clone(),
            description: self.description.clone(),
            input_schema: self.input_schema.clone(),
        }
    }
}

/// The views of a sequence of tool declarations.
pub open spec fn tools_view(s: Seq<ToolSpec>) -> Seq<ToolSpecView> {
    Seq::new(s.len(), |i: int| s[i]@)
}

/// The view of an optional JSON value.
pub open spec fn opt_json_view(o: Option<JsonText>) -> Option<Seq<char>> {
    match o {
        Some(j) => Some(j@),
        None => None,
    }
}

/// The view of an optional string.
pub open spec fn opt_view(o: Option<String>) -> Option<Seq<char>> {
    match o {
        Some(s) => Some(s@),
        None => None,
    }
}

fn clone_tools(v: &Vec<ToolSpec>) -> (res: Vec<ToolSpec>)
    ensures
        tools_view(res@) == tools_view(v@),
{
    let mut res: Vec<ToolSpec> = Vec::new();
    let mut i: usize = 0;
    while i < v.len()
        invariant
            i <= v.len(),
            res@.len() == i,
            forall|j: int| 0 <= j < i ==> res@[j]@ == #[trigger] v@[j]@,
        decreases v.len() - i,
    {
        res.push(v[i].clone());
        i = i + 1;
    }
    assert(tools_view(res@) =~= tools_view(v@));
    res
}

fn clone_opt_string(o: &Option<String>) -> (res: Option<String>)
    ensures
        opt_view(res) == opt_view(*o),
{
    match o {
        Some(s) => Some(s.clone()),
        None => None,
    }
}

fn clone_opt_json(o: &Option<JsonText>) -> (res: Option<JsonText>)
    ensures
        opt_json_view(res) == opt_json_view(*o),
{
    match o {
        Some(j) => Some(j.clone()),
        None => None,
    }
}

/// A request to a provider. The sampling temperature, where one is set, is
/// held as the JSON value of the number.
#[derive(Debug)]
pub struct AgentRequest {
    pub system: Option<String>,
    pub messages: Vec<Message>,
    pub tools: Vec<ToolSpec>,
    pub max_tokens: u32,
    pub temperature: Option<JsonText>,
}

/// The mathematical value of an `AgentRequest`.
pub struct AgentRequestView {
    pub system: Option<Seq<char>>,
    pub messages: Seq<MessageView>,
    pub tools: Seq<ToolSpecView>,
    pub max_tokens: u32,
    pub temperature: Option<Seq<char>>,
}

impl View for AgentRequest {
    type V = AgentRequestView;

    open spec fn view(&self) -> AgentRequestView {
        AgentRequestView {
            system: opt_view(self.system),
            messages: messages_view(self.messages@),
            tools: tools_view(self.tools@),
            max_tokens: self.max_tokens,
            temperature: opt_json_view(self.temperature),
        }
    }
}

impl Clone for AgentRequest {
    fn clone(&self) -> (res: Self)
        ensures
            res@ == self@,
    {
        AgentRequest {
            system: clone_opt_string(&self.system),
            messages: clone_messages(&self.messages),
            tools: clone_tools(&self.tools),
            max_tokens: self.max_tokens,
            temperature: clone_opt_json(&self.temperature),
        }
    }
}

/// Default `max_tokens` for a request when the caller doesn't set one.
pub const DEFAULT_MAX_TOKENS: u32 = 4096;

impl AgentRequest {
    /// A request for `messages` with no system prompt, no tools, no
    /// temperature and the default token limit.
    pub fn new(messages: Vec<Message>) -> (res: Self)
        ensures
            res.system is None,
            res.messages@ == messages@,
            res.tools@.len() == 0,
            res.max_tokens == DEFAULT_MAX_TOKENS,
            res.temperature is None,
    {
        AgentRequest {
            system: None,
            messages,
            tools: Vec::new(),
            max_tokens: DEFAULT_MAX_TOKENS,
            temperature: None,
        }
    }

    /// The same request with its token limit set to `max_tokens`.
    pub fn max_tokens(self, max_tokens: u32) -> (res: Self)
        ensures
            res.system == self.system,
            res.messages@ == self.messages@,
            res.tools@ == self.tools@,
            res.max_tokens == max_tokens,
            res.temperature == self.temperature,
    {
        let mut r = self;
        r.max_tokens = max_tokens;
        r
    }

    /// The same request with its system prompt replaced by `system`.
    pub fn system(self, system: Option<String>) -> (res: Self)
        ensures
            res.system == system,
            res.messages@ == self.messages@,
            res.tools@ == self.tools@,
            res.max_tokens == self.max_tokens,
            res.temperature == self.temperature,
    {
        let mut r = self;
        r.system = system;
        r
    }

    /// The same request with its sampling temperature set; `temperature` is
    /// the JSON value of the number.
    pub fn temperature(self, temperature: JsonText) -> (res: Self)
        ensures
            res.system == self.system,
            res.messages@ == self.messages@,
            res.tools@ == self.tools@,
            res.max_tokens == self.max_tokens,
            res.temperature == Some(temperature),
    {
        let mut r = self;
        r.temperature = Some(temperature);
        r
    }
}

/// Why the model stopped producing output.
#[derive(Debug)]
pub enum StopReason {
    EndTurn,
    ToolUse,
    MaxTokens,
    StopSequence,
    Other(String),
}

/// The mathematical value of a `StopReason`.
pub enum StopReasonView {
    EndTurn,
    ToolUse,
    MaxTokens,
    StopSequence,
    Other(Seq<char>),
}

impl View for StopReason {
    type V = StopReasonView;

    open spec fn view(&self) -> StopReasonView {
        match self {
            StopReason::EndTurn => StopReasonView::EndTurn,
            StopReason::ToolUse => StopReasonView::ToolUse,
            StopReason::MaxTokens => StopReasonView::MaxTokens,
            StopReason::StopSequence => StopReasonView::StopSequence,
            StopReason::Other(s) => StopReasonView::Other(s@),
        }
    }
}

impl Clone for StopReason {
    fn clone(&self) -> (res: Self)
        ensures
            res@ == self@,
    {
        match self {
            StopReason::EndTurn => StopReason::EndTurn,
            StopReason::ToolUse => StopReason::ToolUse,
            StopReason::MaxTokens => StopReason::MaxTokens,
            StopReason::StopSequence => StopReason::StopSequence,
            StopReason::Other(s) => StopReason::Other(s.clone()),
        }
    }
}

/// Token counts of one exchange.
#[derive(Debug, Clone, Copy, PartialEq, Eq, Structural)]
pub struct Usage {
    pub input_tokens: u32,
    pub output_tokens: u32,
}

impl Default for Usage {
    fn default() -> (res: Self)
        ensures
            res.input_tokens == 0,
            res.output_tokens == 0,
    {
        Usage { input_tokens: 0, output_tokens: 0 }
    }
}

/// A complete reply from a provider.
#[derive(Debug)]
pub struct AgentResponse {
    pub message: Message,
    pub stop_reason: StopReason,
    pub usage: Usage,
}

/// The mathematical value of an `AgentResponse`.
pub struct AgentResponseView {
    pub message: MessageView,
    pub stop_reason: StopReasonView,
    pub usage: Usage,
}

impl View for AgentResponse {
    type V = AgentResponseView;

    open spec fn view(&self) -> AgentResponseView {
        AgentResponseView {
            message: self.message@,
            stop_reason: self.stop_reason@,
            usage: self.usage,
        }
    }
}

impl Clone for AgentResponse {
    fn clone(&self) -> (res: Self)
        ensures
            res@ == self@,
    {
        AgentResponse {
            message: self.message.clone(),
            stop_reason: self.stop_reason.clone(),
            usage: self.usage,
        }
    }
}

/// Incremental events for streaming consumers (the CLI prints on `TextDelta`).
#[derive(Debug)]
pub enum StreamEvent {
    TextDelta(String),
    ToolUseStart { id: String, name: String },
    ToolInputDelta { id: String, partial_json: String },
    MessageDone(AgentResponse),
}

/// The mathematical value of a `StreamEvent`.
pub enum StreamEventView {
    TextDelta(Seq<char>),
    ToolUseStart { id: Seq<char>, name: Seq<char> },
    ToolInputDelta { id: Seq<char>, partial_json: Seq<char> },
    MessageDone(AgentResponseView),
}

impl View for StreamEvent {
    type V = StreamEventView;

    open spec fn view(&self) -> StreamEventView {
        match self {
            StreamEvent::TextDelta(s) => StreamEventView::TextDelta(s@),
            StreamEvent::ToolUseStart { id, name } => StreamEventView::ToolUseStart {
                id: id@,
                name: name@,
            },
            StreamEvent::ToolInputDelta { id, partial_json } => StreamEventView::ToolInputDelta {
                id: id@,
                partial_json: partial_json@,
            },
            StreamEvent::MessageDone(r) => StreamEventView::MessageDone(r@),
        }
    }
}

impl Clone for StreamEvent {
    fn clone(&self) -> (res: Self)
        ensures
            res@ == self@,
    {
        match self {
            StreamEvent::TextDelta(s) => StreamEvent::TextDelta(s.clone()),
            StreamEvent::ToolUseStart { id, name } => StreamEvent::ToolUseStart {
                id: id.clone(),
                name: name.clone(),
            },
            StreamEvent::ToolInputDelta { id, partial_json } => StreamEvent::ToolInputDelta {
                id: id.clone(),
                partial_json: partial_json.clone(),
            },
            StreamEvent::MessageDone(r) => StreamEvent::MessageDone(r.clone()),
        }
    }
}

/// What can go wrong talking to a provider. A transport failure carries the
/// transport's own description; an API failure carries the HTTP status code
/// and the response body.
#[derive(Debug)]
pub enum ProviderError {
    Transport(String),
    Api { status: u16, message: String },
    Decode(String),
}

/// The mathematical value of a `ProviderError`.
pub enum ProviderErrorView {
    Transport(Seq<char>),
    Api { status: u16, message: Seq<char> },
    Decode(Seq<char>),
}

impl View for ProviderError {
    type V = ProviderErrorView;

    open spec fn view(&self) -> ProviderErrorView {
        match self {
            ProviderError::Transport(s) => ProviderErrorView::Transport(s@),
            ProviderError::Api { status, message } => ProviderErrorView::Api {
                status: *status,
                message: message@,
            },
            ProviderError::Decode(s) => ProviderErrorView::Decode(s@),
        }
    }
}

} // verus!
