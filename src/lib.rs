//! Status-code keys of an API description document: the two shapes a key
//! can take, how a key is read from a document node, and its canonical text.
pub mod status_code;
pub mod laws;

pub use status_code::StatusCode;
