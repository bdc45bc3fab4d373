# media_sub

The rules of a media subscription service for a cloud drive, written in Verus
and proved against their contracts: which shared files are new, which episode
a file holds, when a subscription is complete, how a failing source is
replaced, what a check of a subscription does step by step, how pushes are
retried, and how backups are built, checked and read back.

Layout:

- `src/` is the verified library. Each module states its model as spec
  functions and proves every public function against it; laws that relate
  several functions are public proof functions. Calls into `regex`, `chrono`,
  `ring` and `base64` stand behind small trusted wrappers whose contracts name
  what the outside crate returns.
- `tests/` runs the library on concrete inputs.
- `app/` is the unverified shell: file and network I/O, JSON, and the loops
  that carry out what the library's step functions decide.
