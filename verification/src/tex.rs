//! TeX's core content: the classification of bytes into category codes.

pub mod category_codes;
