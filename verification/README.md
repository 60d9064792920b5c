# surrealdb_client

A client for the SurrealDB RPC protocol over a websocket, verified with Verus.

- `src/json_text.rs`: JSON text as serde_json writes it in compact form
  (string literals, arrays, objects), with the string escaping stated exactly.
- `src/verbs.rs`: the requests of the protocol, `{"method":..,"params":[..],"id":".."}`,
  built as the exact text that is sent, with a fresh random identifier.
- `src/interaction.rs`: the client's calls. Each call is an `Exchange` that
  says what to do next (send, receive, decode, or stop with a result) and
  moves on the outcome of that step.
- `app/`: the program: the websocket connection on its own thread, the loop
  that performs each step of a call, and the decoding of replies with serde.
