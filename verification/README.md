# dbgif-protocol

An ADB-style debugging-interface protocol, server and daemon, written in
Verus. The library in `src/` holds the protocol and server logic with
machine-checked contracts; `app/` is the daemon program around it.

## Layout

- `src/protocol/` — the 24-byte message header and its encoding, the
  stream parser, the ASCII (length-prefixed hex) client protocol, CRC
  checks, the handshake state machine, host command
  parsing and stream bookkeeping.
- `src/server/` — the server's decision logic: dispatching messages, the
  per-session message handler, client and ASCII handlers, connection,
  device and stream managers, the device registry, TCP admission,
  heartbeat monitoring, rate limits and shutdown phases.
- `src/session/` — sessions, their multiplexed streams and authentication.
- `src/services/` — answering host commands from the transports that the
  transport layer lists.
- `src/host_services/`, `src/discovery/`, `src/config.rs`,
  `src/logging.rs`, `src/shutdown.rs` — host services, device discovery
  state, daemon configuration, logging settings and ordered shutdown.
- `src/text.rs`, `src/hex.rs`, `src/wire.rs`, `src/buffer.rs`,
  `src/clock.rs` — text, hexadecimal and little-endian helpers, and the
  few calls into `std` and outside crates, each with the contract it is
  trusted to meet.
- `app/` — command line, configuration files, logging setup, the TCP
  accept loop, USB scanning and the statistics that are reported as
  floating-point rates.
- `tests/` — scenarios run against the compiled library.

Laws that hold across calls (encoding round trips, parser behaviour on
split input, uniqueness of identifiers, shutdown order and so on) are
public proof functions next to the code they speak of.
