# rmcp

Helpers for servers that speak the Model Context Protocol, written and proved in Verus.

- `src/json.rs`, `src/string_map.rs`: JSON values and objects, and their exchange with `serde_json`.
- `src/model.rs`, `src/service.rs`: tools, tool results, notifications, capabilities, peers and
  request contexts.
- `src/handler/server/`: JSON schemas of types (`schema.rs`), the parts of a request's context that
  a handler can ask for (`common.rs`), and structured tool results (`tool.rs`, `wrapper/json.rs`).
- `src/anthropic_ext.rs`, `src/anthropic_ext/`: the extensions of one client: a size for tool
  output, channels with their notifications and payloads, summaries beside structured content, the
  removal of empty structured content, and a test for texts that are too long.
- `src/sep2243_draft.rs`: marks for tool parameters that go to an HTTP header, and the standard
  headers of a request.
- `app/`: the library in use with serde, schemars, tracing and a transport.

What the library takes from `serde_json`, `schemars`, `http` and `tokio_util` without proof is
declared where it is used, each with the contract that is relied on.
