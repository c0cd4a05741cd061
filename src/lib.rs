//! Converts the case of identifiers (snake_case and camelCase) inside free
//! text, choosing which whitespace-separated units to rewrite with a set of
//! regular expressions.
pub mod case;
pub mod chars;
pub mod converter;
pub mod matcher;
pub mod replacer;
pub mod tokenize;
pub mod transform;

pub use case::Case;
pub use converter::convert;
pub use matcher::{Matcher, PatternCompileError};
