# archivefs_core

A verified library for reading what game files say about themselves and for
planning what could be done with them.

* `src/` is the library. Every function has a contract over mathematical models
  (`Seq<char>` for texts and paths, sequences of facts, groups and plans), and
  Verus proves each body against it. Files whose names end in `laws` hold
  theorems about several functions together.
* `tests/` runs the library on concrete values, among them a disk in memory on
  which batches of moves are carried out and taken back.
* `app/` stands between the library and a real disk: it captures file
  identities, makes and removes directories, and holds the serialised forms of
  plans and reports.

Paths are Unix paths as text. The hashes come from the `md-5`, `sha1` and `sha2`
crates; the library names their results and proves what it does with them.
