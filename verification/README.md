# block_io

The core of the file-backed block device of a virtual machine monitor, written and verified in
Verus: how reads and writes of a guest are turned into file I/O, and what their completion does to
guest memory.

- `src/memory.rs`: guest memory. Which ranges are mapped, what an access to them returns, and a
  record, for proofs, of the accesses that were made.
- `src/storage.rs`: memory of the process whose address is known.
- `src/buffer.rs`: aligned bounce buffers in such memory, and when unbuffered I/O needs one.
- `src/uring.rs`: submissions to an io_uring, and completions.
- `src/async_io.rs`: the engine that goes through an io_uring.
- `src/sync_io.rs`: the engine that uses blocking file I/O.
- `src/prefault.rs`: the API request to pre-fault guest memory.
- `src/contents.rs`: what guest memory and files hold while nobody else changes it.
- `src/laws.rs`: what holds of the engines as a whole.
- `app/`: the engines on real files, event descriptors and rings.

The engines do no file I/O of their own. They say what is due, and are told how it went; `app/`
does the I/O. Guest memory is accessed through `vm-memory`, behind wrappers in `src/memory.rs` whose
contracts are trusted; so is the one in `src/storage.rs` that asks where memory lies.
