# sisi

The core of a peer-to-peer site publishing network, written in Verus and
proved against its contracts.

- `src/` is the verified library: the grammar of human-readable names and
  the first-claim rule that decides who owns a name; signed pointers from an
  owner's key to the current manifest of its site, where the higher version
  wins; signed gossip messages, moderation lists and the message store;
  manifests and their canonical file order; the index of published sites;
  the pinning daemon's command handling; address resolution; the search
  index records; node statistics. The calls into `ed25519-dalek`, `sha2`,
  `hex`, `ulid` and `getrandom` stand behind small trusted wrappers in
  `crypto.rs`, `clock.rs` and `identity.rs`, whose contracts say what the
  rest of the library relies on.
- `app/` is the program around it: JSON and SQLite persistence, the daemon's
  Unix socket, the health server, fetching a site's description over HTTP,
  and a command line.
- `tests/` runs the library on concrete values.
