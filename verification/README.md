# uuidgen

Generation and text rendering of RFC 9562 UUIDs, verified with Verus.

- `src/v1.rs`: version 1 (time based) with an explicit generator state
  `V1Context` (last timestamp, clock sequence, node ID).
- `src/v3.rs`: version 3 (MD5 of namespace ID and name).
- `src/v4.rs`: version 4 (random).
- `src/layout.rs`: the byte layout shared by versions 3 and 4.
- `src/hex.rs`: hexadecimal rendering and the shape of UUID text.
- `src/buffer.rs`, `src/hashing.rs`, `src/random.rs`, `src/clock.rs`: the
  calls into `bytes`, `md-5`, `getrandom`, `chrono` and the std clock, each with the
  contract the rest of the library is proved against.
- `app/`: a per-thread version-1 generator, panicking constructors and
  `Display` adapters.
