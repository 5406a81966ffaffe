# praxis_openai

Verified building blocks for the OpenAI-facing filters of the Praxis proxy.

- `src/sse/` reassembles Server-Sent Events frames from a chunked body on top of
  the `praxis_filter` record decoder, under a byte budget and an event budget.
- `src/responses/` plans how lowered client tools are restored in a streamed
  Responses reply.
- `src/request_body_phase.rs` selects the lifecycle in which a filter reads the
  request body.
- `src/conversations/` normalizes and renders the Conversations OpenAPI document.
- `src/json.rs` and `src/sse/codec.rs` state what the library believes of
  `serde_json` and of the decoder; `laws.rs` in each area holds what is proved
  across calls.
- `app/` is ordinary Rust around the library: derives and trait impls of outside
  crates.
