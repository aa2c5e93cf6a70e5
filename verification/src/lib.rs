//! A sandboxed file-access gate.
//!
//! Starting from a trusted root directory, it decides whether a caller-supplied,
//! untrusted filename may be read or written, and never admits a path outside
//! the root. The decision logic here is purely lexical and verified; the
//! embedding application supplies the filesystem facts (canonicalized paths,
//! existence) and performs the actual I/O only on paths this library has
//! verified.

pub mod fs_model;
pub mod gate;
pub mod path;
pub mod resolve;
