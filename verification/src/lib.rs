//! A minimal command-line AI agent: the provider-neutral conversation model,
//! the Anthropic Messages API wire format, the incremental SSE event handling and
//! the agent's turn bookkeeping.

pub mod agent;
pub mod json;
pub mod provider;
pub mod pinning;
pub mod counting;
pub mod repl;
