# wasi_streams

Tables for a WASI host, written and verified in Verus.

- `src/descriptors.rs` maps the file descriptors of a program to streams, files
  and sockets. `src/model.rs` says what each operation does to the table,
  `src/descriptor_laws.rs` and `src/free_list.rs` what holds across operations.
- `src/stream.rs` has the traits that the streams of a host implement.
- `src/table.rs` maps keys to resources and tracks parents and children;
  `src/table_streams.rs` keeps streams in it, and `src/table_laws.rs` says what
  holds across operations.
- `src/outside.rs` lists what is taken to be true of other crates.
- `app/` holds what cannot be verified: the calls to the host, and waiting.

The closed slots of the descriptor table always form a free-list, through opening,
closing and renumbering alike; `Descriptors::wf` says so.
