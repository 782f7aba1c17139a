//! Library for reading a single public WeChat article page: a verified
//! text normalizer and structured extractor over rendered markup, the
//! decision logic of the fetch sequence (URL validation, error taxonomy,
//! exactly-once engine launch), and the JSON response shapes handed back
//! to the caller.

pub mod engine;
pub mod error;
pub mod parser;
pub mod response;
pub mod text;
