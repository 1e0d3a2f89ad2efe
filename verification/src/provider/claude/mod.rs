//! The Anthropic Messages API: request encoding, response decoding and the
//! streamed event handling.

pub mod stream;
pub mod wire;

use vstd::prelude::*;
use crate::provider::types::AgentRequest;
use wire::{to_wire_request, wire_request};

verus! {

/// The Messages API endpoint.
pub const API_BASE: &'static str = "https://api.anthropic.com/v1/messages";

/// The API version every request declares.
pub const ANTHROPIC_VERSION: &'static str = "2023-06-01";

/// What an Anthropic provider needs to address the Messages API: the key and the
/// model. The HTTP client itself belongs to the caller.
#[derive(Debug)]
pub struct ClaudeProvider {
    api_key: String,
    model: String,
}

impl ClaudeProvider {
    /// The API key.
    pub closed spec fn api_key_view(&self) -> Seq<char> {
        self.api_key@
    }

    /// The model requests name.
    pub closed spec fn model_view(&self) -> Seq<char> {
        self.model@
    }

    /// A provider for `model`, authenticated by `api_key`.
    pub fn new(api_key: String, model: String) -> (res: Self)
        ensures
            res.api_key_view() == api_key@,
            res.model_view() == model@,
    {
        ClaudeProvider { api_key, model }
    }

    /// The URL every request is posted to.
    pub fn endpoint(&self) -> (res: &'static str)
        ensures
            res@ == API_BASE@,
    {
        API_BASE
    }

    /// The headers every request carries, in order: the API key, the API
    /// version and the JSON content type.
    pub fn request_headers(&self) -> (res: Vec<(String, String)>)
        ensures
            res@.len() == 3,
            res@[0].0@ == "x-api-key"@,
            res@[0].1@ == self.api_key_view(),
            res@[1].0@ == "anthropic-version"@,
            res@[1].1@ == ANTHROPIC_VERSION@,
            res@[2].0@ == "content-type"@,
            res@[2].1@ == "application/json"@,
    {
        let mut res: Vec<(String, String)> = Vec::new();
        res.push(("x-api-key".to_owned(), self.api_key.clone()));
        res.push(("anthropic-version".to_owned(), ANTHROPIC_VERSION.to_owned()));
        res.push(("content-type".to_owned(), "application/json".to_owned()));
        res
    }

    /// The JSON body of a request for this provider's model; `stream` asks
    /// for the reply as server-sent events.
    pub fn request_body(&self, request: &AgentRequest, stream: bool) -> (res: String)
        ensures
            res@ == wire_request(self.model_view(), request@, stream),
    {
        to_wire_request(self.model.as_str(), request, stream)
    }
}

} // verus!
