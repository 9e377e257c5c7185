# opencad

The core logic of the OpenCAD design tool as a verified library: the
functions in `src/` carry `requires`/`ensures` contracts that Verus proves.
The exceptions are the few calls into other crates and into `std` (SHA-256
hashing, base64 decoding, JSON parsing and error text, the `IndexMap` that
indexes sketch lines, path splitting, string comparison and appending):
each sits behind a small `external_body` function or an
`assume_specification` whose contract is trusted, not proved, and whose
doc comment says what it claims.

- `validation`, `transaction`, `history`, `units`, `document`, `id`, `error`:
  validation reports, reversible transactions with rollback, snapshot
  undo/redo history, unit-aware expressions and document metadata.
- `checksums`: SHA-256 checksum manifests of container files, with the
  proof that a computed manifest verifies against its own files.
- `args`, `animate`, `smoke`, `plugin`: command-line parsing and the
  decisions of the CLI, animation and desktop commands.
- `image`, `font`, `review`: raster drawing and the before/after review
  image sequence, specified pixel by pixel.
- `stl`, `hidden_line`, `sketch_loop`, `refs`, `topology`, `component`,
  `parameters`: the binary STL layout, mesh edge adjacency, profile loop
  chaining, semantic topology references and assembly component paths.

`app/` holds what stays outside verification: floating-point unit values,
JSON and zip encodings, filesystem access (such as reading plugin request
files), and the float geometry of STL
normals.  `tests/` exercises the library on concrete values.
