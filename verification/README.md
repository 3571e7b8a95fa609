# zeromq

ZeroMQ sockets (PUB, XPUB, SUB, PULL, REP) as values, verified with Verus.

A socket takes events in and hands actions out: what a peer's stream yields, that a
connection was made or lost, that a timer ran out; and in return what to send, what to
close, which task to start or stop. Nothing in `src/` does I/O. Peers go by keys,
connections, channels and tasks by handles, and the time is an argument.

- `src/` is the library. Every function states in its contract what it returns and what
  it changes; properties of the whole (`lifecycle`, `pubsub`, and the public proof
  functions at the end of other modules) are proved from the same definitions.
- `app/` drives sockets over real connections: it owns what the handles stand for, awaits
  what has to be awaited and reads the clock.
- `tests/` runs the library on concrete values.

The library trusts what it says about `bytes`, `scc`, `crossbeam-queue` and parts of std's
clock; these statements stand in `octets`, `peers`, `round_robin` and `clock`.
