//! A repository of patterns: structured documents with a header of metadata
//! and a free-text body. The library takes such documents apart, holds the
//! patterns in memory, answers queries over them, and decides what is to be
//! written when a pattern is created. What touches the file system or speaks
//! a protocol is left to the caller.

pub mod document;
pub mod error;
pub mod name;
pub mod pattern;
pub mod patterns;
pub mod request;
pub mod text;

pub use document::is_pattern_file;
pub use document::render_document;
pub use document::split_document;
pub use document::PatternFile;
pub use document::RawDocument;
pub use error::PatternError;
pub use name::validate_pattern_name;
pub use pattern::Pattern;
pub use pattern::PatternMetadata;
pub use patterns::created_message;
pub use patterns::Patterns;
pub use patterns::SearchHit;
pub use request::CreatePatternRequest;
pub use request::GetPatternRequest;
pub use request::PatternSearchRequest;
