//! Re-exports of the most useful components.

pub use crate::latex::token::{tokenize, SpannedToken, Token};
pub use crate::span::Span;
