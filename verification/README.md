# walrus_runtime

The runtime of a write-ahead log in segment files, verified with Verus.

* `src/reader.rs`, `src/registry.rs`: the chain of sealed blocks and the cursor of each
  column, and the process-wide list of readers. `src/reader_laws.rs` holds what is
  proved of them together, above all that purging a file that was read to its end
  leaves every reader where it was.
* `src/storage.rs`, `src/keeper.rs`: bytes in a mapping or behind a descriptor, and the
  one shared file per path. `src/storage_laws.rs` says what a read gives back of a write.
* `src/background.rs`: the background worker as a state machine. It takes what came of
  its last action and names the next one. `src/background_laws.rs` holds its laws, and
  `src/round_laws.rs` those that span the flush part of a round.
* `src/sync.rs`, `src/name_map.rs`, `src/block.rs`, `src/config.rs`: locks that can be
  poisoned, places that are set once, collections keyed by name, and small types.
* `src/mapping.rs`, `src/uring.rs`: what is believed without proof of `memmap2` and
  `io_uring`.

`app/` opens and unlinks the files, runs the thread and owns the ring. Nothing in it is
verified.
