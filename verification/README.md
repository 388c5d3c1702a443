# nslogger

A client for the macOS NSLogger log viewer, verified with Verus.

- `src/` is the verified library:
  - `log_message` — the binary message format: parts, the message builder, serialization
    (`freeze`), sequence numbers, client info and marks.
  - `log_worker` — the log worker as a state machine: it numbers, queues and writes messages,
    sets up connections (a file, a host, or a browse for the default or a custom Bonjour
    service) and sends the client info first on each new connection. Each step takes
    the outcome of the previous action and returns the next action.
  - `config` — the logger configuration read from the `NSLOG_*` environment variables.
  - `connection`, `network_manager` — connection modes, Bonjour service types and the network
    manager's decisions.
  - `level`, `text`, `wire`, `error` — log levels and filters, string helpers, big-endian
    encodings, errors.
- `app/` runs the library: the tokio runtime, sockets, TLS, files, Bonjour discovery and the
  `log` crate integration (`init`, `Logger`).
- `tests/` exercises the library, including whole worker sessions against in-memory streams.
