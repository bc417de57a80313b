# arrow_interop

Moves columnar arrays over two boundaries, with contracts that Verus proves.

- `src/ffi`: arrays on the C data interface. `import::try_from` reads an array,
  `ArrowArray::new` hands one over, and `export::law_import_of_export` says that what
  was handed over is read back: all but a validity without nulls and bytes behind the
  last string.
- `src/ipc`: the buffers of a record batch in the body of an IPC message, compressed or
  not, in either byte order. `laws.rs` says what holds of all reads.
- `src/array.rs`, `buffer.rs`, `bitmap.rs`, `datatypes.rs`, `types.rs`, `byte_order.rs`,
  `text.rs`, `error.rs`: what both are made of.
- `app`: C structs and readers of files, in ordinary Rust.

What is believed of other crates is written at the functions marked
`#[verifier::external_body]`, each with the function that it calls.
