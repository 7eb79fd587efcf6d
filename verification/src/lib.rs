//! A verified URL rewriting engine.
//!
//! The library recognizes a fixed, ordered table of social-media URL
//! patterns inside arbitrary text and rewrites each occurrence into an
//! alternate, preview-friendly host form, leaving everything else
//! unchanged.  The single entry point is [`engine::transform`].

pub mod engine;
pub mod laws;
pub mod rules;
pub mod text;

pub use engine::transform;
pub use engine::transform_chars;

