# supabase_middleware

Authentication and realtime subscriptions for Supabase projects.

- `src/` decides: which tokens a request presents, what becomes of the request, what a realtime
  client keeps, and which messages it sends. Every function there is verified with Verus, but for
  the wrappers around outside calls in `src/token.rs` and `src/queue.rs`, whose contracts are
  taken as given.
- `app/` acts: the tower layer, the axum extractor, the websocket loop and the dioxus hooks. It
  carries out the steps that `src/` asks for and converts messages from and to JSON.
- `tests/` runs the library on concrete values, with the token, UUID and queue crates linked.

The contracts rest on what `src/token.rs`, `src/queue.rs` and `src/realtime.rs` say of
`jsonwebtoken`, `uuid`, `crossbeam` and `serde_json`. What holds of the library as a whole is stated in `src/auth_laws.rs`,
`src/realtime_laws.rs`, `src/reference_laws.rs` and `src/delivery_laws.rs`.
