//! A verified file-hashing core: a multi-algorithm streaming digest engine,
//! a digest verifier that normalizes case and surrounding whitespace, and a
//! duplicate detector that groups paths sharing a digest.
//!
//! File and terminal I/O live outside this crate; the library works on byte
//! slices, digest strings and (digest, path) pairs handed in by the caller.
pub mod digests;
pub mod duplicates;
pub mod hasher;
pub mod verify;

pub use hasher::{DigestStream, HashAlgorithm, Hasher};
pub use duplicates::group_duplicates;
pub use verify::Verifier;
