# lava_outcome_chain

Typed receipt chains linked by BLAKE3 content hashes, for attesting
reconcile ticks of infrastructure controllers. Every receipt names the
content hash of its predecessor; every content hash is the BLAKE3 digest of
the receipt's canonical JSON text; receipts may carry an Ed25519 signature
over their content hash. `verify_chain` walks a chain and reports the first
broken invariant.

The library is written in Verus and its contracts are proved:

- `src/` is the verified library: hashing (`hash`), instants (`time`), text
  encodings (`text`), receipts and payloads (`receipt`), signing
  (`signing`), sinks (`sink`), the chain (`chain`), the verifier
  (`verify`) and the cross-cutting properties (`laws`), such as that a chain
  built by appends with non-decreasing timestamps passes `verify_chain`.
- `app/` holds what runs around it: serde encodings of the library's types,
  the disk-backed sink (`FilesystemStore`), hashing of arbitrary
  serializable values, `std::error::Error` wrappers and key generation.
- `tests/` exercises the library on concrete values.
