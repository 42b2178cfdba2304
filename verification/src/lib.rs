//! A synchronous bridge from a font-source document, given as JSON text, to a
//! compiled binary font.
//!
//! The bridge decodes the text, checks the glyph references of the document,
//! wraps it as an in-memory source and drives the compilation engine on it,
//! all within one call. It returns the bytes of the font, or one failure that
//! says which step gave up and why. Decoding and compiling are the work of
//! outside crates; what is verified here is the bridge: the check of the
//! references, which failure comes out of which outcome, and what the host
//! reads in its message.

pub mod artifact;
pub mod bridge;
pub mod diagnostic;
pub mod engine;
pub mod references;

pub use bridge::{
    after_compile, after_decode, compile_babelfont, compile_glyphs, init, version, version_of,
};
pub use diagnostic::{BuildError, FailureKind};
