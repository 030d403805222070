# nidavellir

The decision core of a hardware-tuning service (CPU MSR decoding, Safe Loop crash recovery,
GPU V/F curve planning and sweep engine, F2 undervolt learning, condemnation ledger, Super I/O
profile matching, the CPU known answers of the GPU validation stages), written in Verus. Every
function under `src/` carries a contract that Verus proves, except the two trusted wrappers in
`fingerprint.rs` around the `sha2` and `hex` crates, whose contracts are taken as given.

- `src/` — the verified library, one module per area; `text.rs` holds the shared text helpers.
- `tests/` — executable tests of the library.
- `app/` — host plumbing around the library: JSON stores on disk, the data directory, the clock,
  driver and V/F-curve backends, and the floating-point scaling and confidence estimates. The
  platform harnesses (GPU devices, Windows drivers, NVML, WMI) are not part of this build.
