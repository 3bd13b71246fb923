# jsonrpc

A small JSON-RPC 2.0 server over HTTP and WebSocket (axum), whose logic is a
Verus-verified library.

- `src/rpc.rs`: the error codes and messages, the responses, and the stages of
  decoding a request (not JSON: "Parse error"; payload refused: "Method not
  found" when the decoder names an unknown variant, "Invalid params" otherwise).
- `src/state.rs`: the lobby of logged-in users and the rooms, with what a login
  and a logout do to them, and the laws that hold across them.
- `src/ws.rs`: the login decision and the per-connection state machine of the
  WebSocket endpoint.
- `src/headers.rs`: reading and writing the `x-signature` header's value.
- `src/math.rs`: the markers of the arithmetic methods.
- `src/json.rs`: the serde_json calls the library relies on.
- `app/`: the server itself: routing, extractors, serde types, the arithmetic
  methods (on `f64`), and the WebSocket loop that drives `ws::step`.
