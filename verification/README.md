# skid_steer

Loads assets in the background. A `Loader` returns an `Asset` handle as soon as a load is begun,
queues the loading itself as a `Task`, and disposes of the output after the last handle is gone.

- `src/` is the verified library: the queue, the life of an asset, the reference and task counts,
  the cache, closing and dropping a loader. `src/model.rs` gives the meaning of every operation,
  `src/laws.rs` what holds over any sequence of them.
- `app/` shares one such loader between threads: locking, awaiting, and sources of any type.
- `tests/` runs the library.

The work queue is an `async_channel`, an asset is settled through a `tokio` `SetOnce`, waiters are
woken by a `tokio` `Notify`, and the cache is a `foldhash` map. What the proofs rely on there is
stated next to the calls, in `src/channel.rs`, `src/once.rs`, `src/notify.rs` and `src/cache.rs`.
