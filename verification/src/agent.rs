//! The agent's conversation state and its per-event decisions. Talking to the
//! provider, awaiting its stream and printing are left to the caller, which
//! performs the action each event is answered with.
use vstd::prelude::*;
use crate::provider::types::{
    clone_messages, messages_view, opt_view, text_message, AgentRequest, AgentRequestView,
    AgentResponse, AgentResponseView, Content, ContentView, Message, MessageView, ProviderError, ProviderErrorView, Role, StreamEvent,
    StreamEventView,
    ToolSpecView,
};

verus! {

/// A conversational agent over a provider `P`: the system prompt, the token
/// limit for each reply, the whole conversation so far, and whether the last
/// user message still waits for its reply.
pub struct Agent<P> {
    provider: P,
    system: Option<String>,
    history: Vec<Message>,
    max_tokens: u32,
    awaiting_reply: bool,
}

/// The mathematical value of an agent's conversation state.
pub struct AgentView {
    pub system: Option<Seq<char>>,
    pub history: Seq<MessageView>,
    pub max_tokens: u32,
    pub awaiting_reply: bool,
}

impl<P> View for Agent<P> {
    type V = AgentView;

    closed spec fn view(&self) -> AgentView {
        AgentView {
            system: opt_view(self.system),
            history: messages_view(self.history@),
            max_tokens: self.max_tokens,
            awaiting_reply: self.awaiting_reply,
        }
    }
}

/// What the caller is to do with one streamed event.
#[derive(Debug)]
pub enum EventAction {
    /// Write the text to standard output as it arrives.
    PrintText(String),
    /// Report that the assistant started a tool call that cannot run yet.
    ReportToolUse { name: String },
    /// Nothing: tool input is not consumed until tool execution exists.
    Nothing,
    /// The reply is complete and kept in the history; `tool_requested` says
    /// whether it asks for a tool, which cannot run yet.
    Finished { tool_requested: bool },
}

/// The mathematical value of an `EventAction`.
pub enum EventActionView {
    PrintText(Seq<char>),
    ReportToolUse { name: Seq<char> },
    Nothing,
    Finished { tool_requested: bool },
}

impl View for EventAction {
    type V = EventActionView;

    open spec fn view(&self) -> EventActionView {
        match self {
            EventAction::PrintText(t) => EventActionView::PrintText(t@),
            EventAction::ReportToolUse { name } => EventActionView::ReportToolUse { name: name@ },
            EventAction::Nothing => EventActionView::Nothing,
            EventAction::Finished { tool_requested } => EventActionView::Finished {
                tool_requested: *tool_requested,
            },
        }
    }
}

/// Whether a message holds a tool-use block.
pub open spec fn requests_tool(content: Seq<ContentView>) -> bool {
    exists|i: int| 0 <= i < content.len() && #[trigger] content[i] is ToolUse
}

/// The agent state after the user says `input`.
pub open spec fn after_input(a: AgentView, input: Seq<char>) -> AgentView {
    AgentView {
        history: a.history.push(text_message(Role::User, input)),
        awaiting_reply: true,
        ..a
    }
}

/// The request a turn sends: the whole history, the system prompt and the
/// token limit, with no tools and no temperature.
pub open spec fn turn_request(a: AgentView) -> AgentRequestView {
    AgentRequestView {
        system: a.system,
        messages: a.history,
        tools: Seq::<ToolSpecView>::empty(),
        max_tokens: a.max_tokens,
        temperature: None,
    }
}

/// The agent state after a streamed event: a finished reply joins the history.
pub open spec fn after_event(a: AgentView, e: StreamEventView) -> AgentView {
    match e {
        StreamEventView::MessageDone(r) => AgentView {
            history: a.history.push(r.message),
            awaiting_reply: false,
            ..a
        },
        _ => a,
    }
}

/// What the caller is to do with a streamed event.
pub open spec fn event_action(e: StreamEventView) -> EventActionView {
    match e {
        StreamEventView::TextDelta(t) => EventActionView::PrintText(t),
        StreamEventView::ToolUseStart { name, .. } => EventActionView::ReportToolUse { name },
        StreamEventView::ToolInputDelta { .. } => EventActionView::Nothing,
        StreamEventView::MessageDone(r) => EventActionView::Finished {
            tool_requested: requests_tool(r.message.content),
        },
    }
}

fn has_tool_use(content: &Vec<Content>) -> (res: bool)
    ensures
        res == exists|i: int| 0 <= i < content@.len() && #[trigger] content@[i] is ToolUse,
{
    let mut i: usize = 0;
    while i < content.len()
        invariant
            i <= content@.len(),
            forall|j: int| 0 <= j < i ==> !(#[trigger] content@[j] is ToolUse),
        decreases content@.len() - i,
    {
        if let Content::ToolUse { .. } = &content[i] {
            return true;
        }
        i = i + 1;
    }
    false
}

impl<P> Agent<P> {
    /// The provider the agent talks to.
    pub closed spec fn provider_value(&self) -> P {
        self.provider
    }

    /// An agent with an empty history.
    pub fn new(provider: P, system: Option<String>, max_tokens: u32) -> (res: Self)
        ensures
            res@ == (AgentView {
                system: opt_view(system),
                history: Seq::empty(),
                max_tokens,
                awaiting_reply: false,
            }),
            res.provider_value() == provider,
    {
        let res = Agent { provider, system, history: Vec::new(), max_tokens, awaiting_reply: false };
        assert(res@.history =~= Seq::<MessageView>::empty());
        res
    }

    /// The provider the agent talks to.
    pub fn provider(&self) -> (res: &P)
        ensures
            *res == self.provider_value(),
    {
        &self.provider
    }

    /// The conversation so far.
    pub fn history(&self) -> (res: &Vec<Message>)
        ensures
            messages_view(res@) == self@.history,
    {
        &self.history
    }

    /// Pushes `input` onto the history as a user message and builds the
    /// request for the turn from the whole history.
    pub fn request(&mut self, input: &str) -> (res: AgentRequest)
        ensures
            final(self)@ == after_input(old(self)@, input@),
            res@ == turn_request(final(self)@),
            final(self).provider_value() == old(self).provider_value(),
            res@.messages == final(self)@.history,
            res@.messages == old(self)@.history.push(text_message(Role::User, input@)),
            res@.system == old(self)@.system,
            res@.max_tokens == old(self)@.max_tokens,
            res@.tools.len() == 0,
            res@.temperature is None,
    {
        let msg = Message::user(input);
        self.history.push(msg);
        self.awaiting_reply = true;
        assert(self@.history =~= old(self)@.history.push(text_message(Role::User, input@)));
        let system = match &self.system {
            Some(s) => Some(s.clone()),
            None => None,
        };
        let req = AgentRequest::new(clone_messages(&self.history)).system(system).max_tokens(
            self.max_tokens,
        );
        assert(req@.tools =~= Seq::<ToolSpecView>::empty());
        req
    }

    /// Appends the completed assistant message to the history and says
    /// whether it asks for a tool, which cannot run yet.
    pub fn handle_message_done(&mut self, response: AgentResponse) -> (tool_requested: bool)
        ensures
            final(self)@ == (AgentView {
                history: old(self)@.history.push(response.message@),
                awaiting_reply: false,
                ..old(self)@
            }),
            tool_requested == requests_tool(response.message@.content),
            final(self).provider_value() == old(self).provider_value(),
            final(self)@.history.len() == old(self)@.history.len() + 1,
            final(self)@.history.last() == response.message@,
            tool_requested <==> exists|i: int|
                0 <= i < response.message@.content.len()
                    && #[trigger] response.message@.content[i] is ToolUse,
    {
        let tool_requested = has_tool_use(&response.message.content);
        proof {
            if tool_requested {
                let i = choose|i: int|
                    0 <= i < response.message.content@.len()
                        && #[trigger] response.message.content@[i] is ToolUse;
                assert(response.message@.content[i] is ToolUse);
            }
            if requests_tool(response.message@.content) {
                let i = choose|i: int|
                    0 <= i < response.message@.content.len()
                        && #[trigger] response.message@.content[i] is ToolUse;
                assert(response.message.content@[i] is ToolUse);
            }
        }
        self.history.push(response.message);
        self.awaiting_reply = false;
        assert(self@.history =~= old(self)@.history.push(response.message@));
        tool_requested
    }

    /// Decides how a turn ends once its stream of events is over: it is
    /// complete when the reply has joined the history; a stream that ended
    /// before the reply was finished is a `Decode` error, and the user's
    /// message stays in the history without a reply.
    pub fn end_turn(&self) -> (res: Result<(), ProviderError>)
        ensures
            res is Ok <==> !self@.awaiting_reply,
            res matches Err(e) ==> e@ == ProviderErrorView::Decode(
                "stream ended before the reply was complete"@,
            ),
    {
        if self.awaiting_reply {
            Err(ProviderError::Decode("stream ended before the reply was complete".to_owned()))
        } else {
            Ok(())
        }
    }

    /// Decides what to do with one streamed event, keeping a finished reply
    /// in the history.
    pub fn handle_event(&mut self, event: StreamEvent) -> (res: EventAction)
        ensures
            final(self)@ == after_event(old(self)@, event@),
            res@ == event_action(event@),
            final(self).provider_value() == old(self).provider_value(),
            match event@ {
                StreamEventView::TextDelta(t) => res@ == EventActionView::PrintText(t)
                    && final(self)@ == old(self)@,
                StreamEventView::ToolUseStart { name, .. } => res@
                    == EventActionView::ReportToolUse { name } && final(self)@ == old(self)@,
                StreamEventView::ToolInputDelta { .. } => res@ == EventActionView::Nothing
                    && final(self)@ == old(self)@,
                StreamEventView::MessageDone(r) => {
                    &&& final(self)@.history == old(self)@.history.push(r.message)
                    &&& !final(self)@.awaiting_reply
                    &&& res@ == EventActionView::Finished {
                        tool_requested: exists|i: int|
                            0 <= i < r.message.content.len()
                                && #[trigger] r.message.content[i] is ToolUse,
                    }
                },
            },
    {
        match event {
            StreamEvent::TextDelta(chunk) => EventAction::PrintText(chunk),
            StreamEvent::ToolUseStart { name, .. } => EventAction::ReportToolUse { name },
            StreamEvent::ToolInputDelta { .. } => EventAction::Nothing,
            StreamEvent::MessageDone(response) => {
                let tool_requested = self.handle_message_done(response);
                EventAction::Finished { tool_requested }
            },
        }
    }
}

/// The agent state after each event of `events` in turn.
pub open spec fn after_events(a: AgentView, events: Seq<StreamEventView>) -> AgentView
    decreases events.len(),
{
    if events.len() == 0 {
        a
    } else {
        after_event(after_events(a, events.drop_last()), events.last())
    }
}

/// A turn appends exactly the exchange to the history: after the user says
/// `input` and the provider streams `events`, of which only the last is the
/// finished reply `reply`, the history is the old one followed by the user's
/// message and the reply's message, the turn is complete, and the system
/// prompt and token limit stay.
pub proof fn lemma_turn_appends_exchange(
    a: AgentView,
    input: Seq<char>,
    events: Seq<StreamEventView>,
    reply: AgentResponseView,
)
    requires
        events.len() > 0,
        events.last() == StreamEventView::MessageDone(reply),
        forall|i: int| 0 <= i < events.len() - 1 ==> !(#[trigger] events[i] is MessageDone),
    ensures
        after_events(after_input(a, input), events) == (AgentView {
            history: a.history + seq![text_message(Role::User, input), reply.message],
            awaiting_reply: false,
            ..a
        }),
{
    let start = after_input(a, input);
    let p = events.drop_last();
    lemma_events_keep_history(start, p);
    assert(start.history.push(reply.message) =~= a.history + seq![
        text_message(Role::User, input),
        reply.message,
    ]);
}

/// Events other than a finished reply leave the agent state unchanged: a
/// stream that ends without one leaves the turn waiting for its reply, which
/// `end_turn` reports as an error.
pub proof fn lemma_events_keep_history(a: AgentView, events: Seq<StreamEventView>)
    requires
        forall|i: int| 0 <= i < events.len() ==> !(#[trigger] events[i] is MessageDone),
    ensures
        after_events(a, events) == a,
    decreases events.len(),
{
    if events.len() > 0 {
        let p = events.drop_last();
        assert forall|i: int| 0 <= i < p.len() implies !(#[trigger] p[i] is MessageDone) by {
            assert(p[i] == events[i]);
        }
        lemma_events_keep_history(a, p);
        assert(!(events[events.len() - 1] is MessageDone));
    }
}

/// A turn whose stream ends without a finished reply keeps the user's message
/// and stays waiting for the reply, so `end_turn` reports it as an error.
pub proof fn lemma_turn_without_reply_is_incomplete(
    a: AgentView,
    input: Seq<char>,
    events: Seq<StreamEventView>,
)
    requires
        forall|i: int| 0 <= i < events.len() ==> !(#[trigger] events[i] is MessageDone),
    ensures
        after_events(after_input(a, input), events) == (AgentView {
            history: a.history.push(text_message(Role::User, input)),
            awaiting_reply: true,
            ..a
        }),
{
    lemma_events_keep_history(after_input(a, input), events);
}

/// Every turn sends the whole conversation: the request built after the user
/// says `input` holds every earlier message, in order and unchanged, followed
/// by the user's new message and nothing else.
pub proof fn lemma_turn_request_sends_whole_history(a: AgentView, input: Seq<char>)
    ensures
        turn_request(after_input(a, input)).messages.len() == a.history.len() + 1,
        forall|i: int|
            0 <= i < a.history.len() ==> #[trigger] turn_request(after_input(a, input)).messages[i]
                == a.history[i],
        turn_request(after_input(a, input)).messages[a.history.len() as int] == text_message(
            Role::User,
            input,
        ),
        turn_request(after_input(a, input)).system == a.system,
        turn_request(after_input(a, input)).max_tokens == a.max_tokens,
{
}

} // verus!
