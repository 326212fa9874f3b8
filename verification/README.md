# dreamswarm

The KAIROS background daemon and the autoDream memory of DreamSwarm, with
their logic verified by Verus.

- `src/` is the verified library: the three-layer memory (index, topic files,
  transcripts; storing, pointing, removing, decaying, loading, searching), the
  context compaction stages, the daemon's decisions (heartbeat, schedule,
  signals, initiative rules, trust bands, tick planning, self-healing steps),
  autoDream (collection, pruning, analysis parsing, planning, applying,
  tallying, reporting, hashing), the providers' request and reply
  conversions, the model router and the API's request handling.
  Every function there carries a contract that Verus proves; the laws that
  span several calls (what a read of the index gives back after a write or a
  removal, that a plan has no duplicate keys, that a job runs once per
  moment, ...) are public proof functions.
- `tests/` runs the library on concrete values.
- `app/` is the `dreamswarm` command: files, processes, HTTP, the file
  watcher, the clock and the model calls, around the library, and the
  driver that measures a conversation and runs the compaction stages.
