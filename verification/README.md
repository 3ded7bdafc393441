# codex_fleet

A coding agent can run as an org chart: a large model in the cloud coordinates,
and small models on nearby hardware do the legwork. This crate holds the parts of
that which can be reasoned about, verified with Verus.

- `src/requests`, `src/endpoint.rs`: a turn in the shape of the Responses API,
  rewritten as a Chat Completions request.
- `src/sse`: a streamed Chat Completions reply, decoded into response events.
- `src/tools.rs`, `src/round_trip.rs`: the names tools travel under, and the way
  back from them.
- `src/fleet`: finding inference endpoints, writing them into the configuration,
  installing a team of roles, and checking that the result will run.
- `src/json.rs`, `src/text.rs`, `src/order.rs`: the vocabulary of the contracts.

The library neither reads nor sends anything: it says what to ask, and takes what
came of it. What is believed without proof is confined to `src/json.rs` (calls into
`serde_json`), `src/fleet/role_files.rs` (`toml_edit`), `src/fleet/team.rs`
(`std::path`) and two functions of `std`'s strings in `src/text.rs`.

What holds of the library as a whole is stated as public proof functions, most of
them in `src/sse/laws.rs`, `src/requests/laws.rs`, `src/fleet/laws.rs` and
`src/round_trip.rs`. What a role file says is stated over the TOML that
`src/fleet/toml_reader.rs` reads.

`app/` is ordinary Rust around the library: the command line, files, HTTP and the
stream a reply comes in. Its host is given by traits.
