# chak

A small version control system. Files are stored as blobs of hashed lines; a file's
history is a chain of versions, each the diff of an older blob against its successor;
folders are trees of file and folder pointers; `add` stages root trees and `commit`
records the newest one in the commit log.

- `src/` is the library, verified with Verus: hashing and hash pointers, blobs and diffs
  (with the proof that a diff and the newer blob give the older lines back), trees,
  version heads, commits and the stage, settings, status bookkeeping, and the decisions
  behind each command. Calls into `sha2` and `indexmap` stand behind trusted items in
  `hashing.rs` and `collections.rs`.
- `app/` is the command-line program around it: argument parsing, files and folders,
  the stored (TOML) form of each object, and the ignore rules of the `ignore` crate.
- `tests/` exercises the library on concrete values.
