# banks

A minimal command-line AI agent, written in Verus.

- `src/` is the verified library:
  - `provider/types.rs`: the provider-neutral conversation model (messages,
    requests, responses, streamed events, errors) and their views.
  - `wire.rs` (under `provider/`): the Messages API request body, written as JSON
    text, and the conversion of a complete response.
  - `stream.rs` (under `provider/`): the accumulator that rebuilds a reply from
    server-sent events, the three per-item stages of the event pipeline, and
    the proof that the streamed text is the text kept in the reply.
  - the provider module beside them: endpoint, headers and body of a request.
  - `agent.rs`: the conversation history and what to do with each streamed
    event, how a turn ends, and the proofs that a turn appends exactly the
    exchange or stays incomplete.
  - `repl.rs`: what a line typed at the prompt asks for.
  - `json.rs`: JSON string literals (escaping stated in full) and `JsonText`,
    a JSON value held as the text `serde_json` writes for it; decimal numbers
    and comma-separated lists.
  - `pinning.rs`, `counting.rs`: small text and counting helpers.
- `app/` is the program: arguments, HTTP, server-sent-event framing, `serde`
  decoding, and the prompt loop.
- `tests/` exercises the library on concrete values.
