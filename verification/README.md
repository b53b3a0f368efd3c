# network_decisions

A bounded, per-sandbox log of network-policy decisions, verified with Verus.

- `src/` is the verified library: the ring buffer (`log`), the functions that
  enforcement sites record through (`emit`), timestamps and the calendar behind
  them (`timestamp`, `calendar`), the requests and the stream of a client
  (`request`, `stream`), and what Python sees (`python`). `guarantees` states
  what readers of the log can rely on.
- `tests/` runs the library on concrete values.
- `app/` is ordinary Rust around it: the handle that threads share, JSON, the
  control socket, and the Python classes.
