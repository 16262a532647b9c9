//! LaTeX-level tokenization, highlighting and formatting.

pub mod format;
pub mod highlight;
pub mod token;
