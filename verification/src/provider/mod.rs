//! Provider-neutral request, response and streaming types, and the Anthropic
//! implementation of the wire format.

pub mod claude;
pub mod types;

pub use types::{
    AgentRequest, AgentRequestView, AgentResponse, AgentResponseView, Content, ContentView, Message, MessageView,
    ProviderError, ProviderErrorView, Role, StopReason, StopReasonView, StreamEvent,
    StreamEventView, ToolSpec, ToolSpecView, Usage, DEFAULT_MAX_TOKENS,
};
