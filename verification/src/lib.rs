//! Resolve the current user's name into a caller-supplied byte buffer.
//!
//! The user's name is taken, by convention, to be the final component of the
//! process owner's home directory path. The caller hands the library the raw
//! bytes of that path (or nothing, when no home directory is known) together
//! with a destination buffer; the library extracts the final path component,
//! checks that it is valid text, and copies as many of its bytes as fit into
//! the buffer, returning the number of bytes written, or `-1` when the name
//! cannot be determined. On failure the buffer is left untouched.

pub mod path;
pub mod resolver;
pub mod utf8;

pub use resolver::rs_username;
pub use resolver::username_of;
