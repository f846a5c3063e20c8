# eryx_host

Tracking, capturing and restoring the Wasm linear memories of sandboxed Python sessions, verified
with Verus.

- `src/` is the verified library. Every function states what it returns or changes; `src/laws.rs`
  proves what holds across operations, among others that a snapshot which is restored where it was
  taken puts every byte of the live memories back and touches nothing else.
- `app/` is the host around it: `mmap`, `mprotect` and `munmap` for Wasmtime's `MemoryCreator`, and
  the `Session` class for Python. It holds one lock over the tracker, so that the library's
  functions see one call at a time.
- `tests/` runs the library against a host whose memory is an array.

The library asks of its caller that page sizes are powers of two and that the counters have room
for a new region or a growth; the host checks both before it calls.
