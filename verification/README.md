# udp-over-tcp

Forwards UDP datagrams over a TCP connection, in both directions, with a verified core.

- `src/` decides. `forward.rs` is the forwarder, a state machine that takes what has happened at
  the sockets and says what to do next. `packet.rs`, `varint.rs`, `frame.rs` and `bytes_le.rs` are
  the wire format. `tables.rs` holds the tables of local ports and sockets. `addr.rs` and
  `options.rs` read the arguments of the program. `laws.rs` states what holds of forwarders, alone
  and in pairs, and `runs.rs` what holds of one over a whole run.
- `app/` does: it owns the sockets, the timer, the log and the command line.
- `tests/` runs the library on concrete values.
