//! POSIX portable filenames, as a validated type.
//!
//! POSIX.1-2008 defines the portable filename character set (`A-Z`, `a-z`,
//! `0-9`, `.`, `_`, `-`) and asks that a portable filename not start with `-`.
//! A [`PortableFilename`] can only be built by validation, so holding one is
//! proof that the name is non-empty, at most 255 bytes long, not `.` or `..`,
//! made only of that character set, and does not start with `-`.
//!
//! The rules are stated in [`filename`], the errors in [`error`], and the
//! generation of arbitrary valid names, for structure-aware fuzzing, in
//! [`generate`]. Names order as their strings do ([`lexical`]).

pub mod error;
pub mod filename;
pub mod generate;
pub mod lexical;
pub mod order;

pub use error::{InvalidFilename, Rejection};
pub use filename::PortableFilename;
