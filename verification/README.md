# orderly

Ordered start, supervision and stop of a group of processes.

- `src/` is the verified library:
  - `decimal`: fixed-point decimals (six fractional digits) and their parsing;
  - `specs`: process and supervisor specifications and their builders;
  - `cli`: the command line that produces a supervisor specification;
  - `limiter`: the token bucket that bounds (re)starts;
  - `machine`: the supervision state machine, its invariant and its laws;
  - `supervisor`: the supervisor that runs the state machine.
- `app/` is the `orderly` program: it reads the command line, receives the
  stop signals, and performs each action the supervisor decides on
  (spawning, signalling and waiting for children, running process commands
  and lifecycle hooks within their timeouts, writing the status file,
  sleeping), handing the outcome back as the next event.
- `tests/` drive the library on concrete inputs, among them the examples of
  the manual.
