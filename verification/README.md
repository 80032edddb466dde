# grokchat

A small libp2p chat, split into a verified library (`src/`, checked with
Verus) and the program around it (`app/`).

- `src/config.rs`: the `key=value` startup file (reading, writing, and the
  proof that reading a written file gives the configuration back), the
  command line, and what a start does with both.
- `src/username.rs`, `src/gateway.rs`, `src/api_types.rs`: username rules of
  the mobile UI gateway, the registry of recently seen names, and the answer
  to each message of a connected client.
- `src/dial.rs`: dial bookkeeping for peers found by mDNS, and the decisions
  around publishing a typed line.
- `src/node.rs`: the mobile node's configuration, bridge commands, events, and
  bootstrap addresses (parsed with libp2p's `Multiaddr`).
- `src/sync.rs`, `src/logging.rs`: sync envelopes and log lines.
- `src/text.rs`, `src/timetable.rs`: string helpers and a name-to-time table.
- `app/`: sockets, swarms, clocks, files and JSON.
