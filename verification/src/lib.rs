//! Pipeline for turning machine-generated flashcard proposals into records an
//! existing flashcard application can import: tolerant parsing of an external
//! JSON payload, validation and sanitization of each card, deterministic
//! conversion into the import record shape, and durable, expiring session
//! storage for a review batch.

pub mod convert;
pub mod json;
pub mod parse;
pub mod session;
pub mod text;
pub mod validate;
