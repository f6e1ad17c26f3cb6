# filecoin_scheduler

A resource scheduler served over gRPC. Each configured resource ("phase")
admits at most `concurrent_limit` holders at once. A holder gets a token,
keeps it alive by pinging, and releases it; holders that stay silent longer
than the resource's dead timeout are reclaimed when a refused request finds
that the check timeout has passed.

- `src/` is the verified library: the scheduler state (`cond`), its
  configuration, the service's calls and messages, the client's calls and
  the waiting client's decisions, and the laws that hold across operations
  (`laws`). The semaphore of each resource comes from the `semaphore` crate
  (`permits`), the clock from `std::time::Instant` (`clock`).
- `app/` is the server program and the gRPC plumbing: loading the YAML
  configuration, the grpcio service and transport, and the keep-alive guard
  of a waiting client.
- `tests/` exercises the library.
