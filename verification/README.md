# koan

The core of a music player's server and terminal interface, written in Rust and verified
with Verus: every function under `src/` carries a contract that is proved, down to the
calls into other crates, which stand behind small trusted items.

- `src/text.rs`, `lists.rs`, `order.rs`, `paths.rs`: texts, lists, stable sorting and path
  names, with their models.
- `src/fuzzy.rs`: the fuzzy matcher behind pickers and search.
- `src/tui/`: the terminal interface as pure drawing steps and state machines.
- `src/subsonic/`: the Subsonic interface: identifiers, documents in XML and JSON, ranges,
  covers, playlists.
- `src/auth/`: roles, tokens, cookies, and login and refresh as a state machine.
- `src/graphql/`: pages, catalog queries, the queue, jobs, settings, browser policy and the
  set-up of the server.
- `app/`: ordinary Rust around it: HTTP, GraphQL and MCP plumbing, painting on a terminal,
  and the floating-point visualizers.
- `tests/`: tests of the library from outside, with the real crates linked.

Laws that span several functions are public proof functions beside the functions they
speak of.
