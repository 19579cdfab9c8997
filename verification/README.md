# async_patterns

Verified decision logic for a set of asynchronous service patterns built on
Tokio: a chat server, graceful shutdown, retry with exponential backoff, a
connection pool, a log-processing pipeline, HTTP error mapping, an echo server,
a timer future, a small executor's scheduling rounds and a CPU-heavy prime
sum.

- `src/` is the verified library. Each module takes the events a
  service sees (a line read, a broadcast message, an attempt's outcome, a
  read result, a timer poll) and returns what to do next, with contracts that
  state the result exactly and proof functions for the properties that span
  calls (distinct usernames, the retry call limit and result, exponential
  backoff bounds, the pool's partition of connections into idle and checked
  out, one thread per timer, what an executor round keeps).
- `app/` holds the programs: sockets, channels, sleeps, signals and HTTP
  serving, each calling the library for its decisions. Run one with
  `app <program>`.
- `tests/` exercises the library on concrete values.
