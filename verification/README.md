# serde_spline

A verified codec for Havok spline-compressed animation blocks, with the
integer logic around it.

- `src/spline/` reads and writes the stored form of spline blocks (transform
  masks, static and spline vectors, packed quaternions, knot vectors,
  alignment) byte for byte. The decoder and the encoder are stated over
  spec functions on byte sequences, and `roundtrip.rs` proves that decoding
  what the encoder wrote gives every block back with the same masks and
  kinds (exactly the same block when it is canonical: constant vectors with
  w = 0 and the default on identity axes), and that every block starts on a
  16-byte boundary.
- `src/anim.rs`, `src/fbx.rs` hold the shape checks of animations, skeletons
  and meshes, frame ranges of blocks and annotation grouping.
- `src/rig/` decides where the rig tools write their outputs; the path
  operations of `std::path` are called through trusted wrappers.
- `app/` is the command-line tool: file and directory I/O, JSON, and the
  floating-point work (evaluating splines, fitting samples, quantizing).
