# kunobi_reload

Hot reload of values derived from Kubernetes mounted volumes, with the rules of it proved in
[Verus](https://github.com/verus-lang/verus).

When a `Secret`, `ConfigMap` or `projected` volume is updated, kubelet writes a new timestamped
directory and atomically renames the `..data` symlink onto it. A process that read the files at
startup keeps using the stale value. This project follows the mount instead: it watches the mount
directory, takes a hash of the content on every trigger, parses the mount again when the hash
changed, and keeps the previous value when that fails.

## Layout

- `src/` is the library. It performs no I/O: it says what is to be done next, and takes what came
  of it. `reloader.rs` is the state of a watch from start to end, `watch.rs` the rules for waking
  up, `mount.rs` and `fingerprint.rs` the snapshot and its content hash, `order.rs`, `path.rs` and
  `text.rs` what they are made of. `laws.rs` and `content.rs` state and prove what holds of every
  watch and of every content, among it:
  - a re-sync with identical content wakes nobody;
  - the current value is always the last one that was parsed; no failure takes it away;
  - content that failed to parse is tried again on the next trigger;
  - a rotation during the start is noticed;
  - the paths of a snapshot's relative keys all begin with its one directory, and differ from those
    of another rotation.
- `app/` runs it: the file system, the `notify` watcher, and the tokio tasks and channels behind
  `watch(dir).spawn(parser)`, `FromMount`, `Refresh`, `Reloadable` and `Subscription`.
- `tests/` drives whole watches over a volume held in memory.

## Trusted

The proofs rest on what `src/text.rs` says of `String::from_utf8` and `String::from_utf8_lossy`,
and on vstd's model of the standard library, of which the model of `DefaultHasher` matters most:
what is hashed determines the hash.
