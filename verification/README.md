# async-io-mini

Async I/O and timers for MCUs, with the registry of the `select` reactor and the
timer state machine verified with Verus.

- `src/time.rs`: spans of time and readings of the monotonic clock as plain
  values (seconds and nanoseconds), with exact arithmetic.
- `src/timer.rs`: the timer (fire once or periodically), the mapping of instants
  to the time driver's ticks, and polling as a future or a stream.
- `src/reactor.rs`: the fixed-capacity registry of watched descriptors, the
  descriptor sets a wait watches, and the recording of reported readiness.
- `src/task.rs`: the task wakers the registry and the timers hold.
- `app/`: the reactor thread (mutex, `eventfd` notification, `select`), and the
  timer as a `Future` and `Stream` over `std::time::Instant`.

The embassy time driver and timer queue are linked from `embassy-time` (features
`std` and `generic-queue` on hosts).
