# posix_portable_filename

A validated type for POSIX portable filenames, with its rules stated and
proved in the code.

- `src/filename.rs`: the rules as spec functions (`is_portable_filename`,
  `rejection_of`), the validation, and `PortableFilename`, whose type
  invariant is that it holds a portable filename.
- `src/error.rs`: `InvalidFilename`, the reason for each rejection and the
  error message.
- `src/generate.rs`: generation of arbitrary valid filenames from
  `arbitrary::Unstructured`, for structure-aware fuzzing: the character set
  for each position (`choice_set`), what the draws from `Unstructured` give,
  and the proofs that the names it can spell are exactly the portable
  filenames and that each of them comes out of some input.
- `src/lexical.rs` and `src/order.rs`: names order as their strings do, by
  the bytes of their UTF-8 encoding.
- `app/lib.rs`: `serde`, `arbitrary`, `thiserror` and `Display` integrations,
  on thin copies of the library's types.
