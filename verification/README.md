# heif_decode

Rules for decoding HEIF, HEIC and AVIF still images, proved with Verus: how the
items of a file hang together, how coded and uncompressed payloads become
planes of samples, how grids of tiles are put together, how samples become RGB
and RGBA, and how transforms, opacity, colour profiles, limits and errors are
dealt with.

- `src/` is the library. Every function states in its contract what it returns,
  and Verus proves it. A few small functions call other crates (`brotli`,
  `flate2`, `moxcms`, `png`, `scuffle-h265`) or parts of the standard library;
  what they promise is stated above them and not proved.
- `tests/` runs the library on concrete values.
- `app/` is the input and the output around it: files and streams, threads, the
  AV1 decoder `rav1d`, and the colour conversions on floating-point numbers. A
  program that uses it brings along a reader of the container format and a
  decoder of HEVC pictures (`app/backend.rs`).

The library takes the work of a picture decoder, and the colour conversions on
floating-point numbers, as functions that its callers hand in. Its contracts
hold for every such function.
