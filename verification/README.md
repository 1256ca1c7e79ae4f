# lite_rpc

Library of a lightweight Solana RPC node that ingests shreds and serves
Geyser plugins and JSON-RPC, written in Verus.

- `src/latency_tracker.rs` — first-shred arrival per slot, latency samples per
  Geyser notification, periodic report, cleanup of old slots.
- `src/stats.rs` — count, mean, median, 99th percentile and maximum of a series,
  and its one-line summary.
- `src/text.rs` — decimal text: its value and its rendering.
- `src/parse.rs` — reading numbers, base58 hashes and keys, and port ranges.
- `src/config.rs` — the configuration decided from the command-line values.
- `src/paths.rs` — the filesystem paths of the configuration.
- `src/startup.rs` — the ports, optional services and shred-version check of
  node start-up.
- `src/clock.rs` — the monotonic clock and the time between two readings.

`app/` is the program around it: the command line, reading the identity
keypair, resolving entrypoints, starting and stopping the validator services,
sharing the tracker between threads and logging its reports.
