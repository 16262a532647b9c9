//! Category codes, the 16 classes TeX's input processor sorts characters
//! into. Each class has a number from 0 to 15 and, in the plain format, a
//! fixed set of bytes that fall into it; every byte not claimed by another
//! class is `Other`.

use crate::scanning::{
    is_letter, B_AMP, B_BACKSLASH, B_CARET, B_DOLLAR, B_HASH, B_LBRACE, B_NL, B_PERCENT, B_RBRACE,
    B_SP, B_TILDE, B_UNDERSCORE,
};
use crate::span::Span;
use vstd::prelude::*;

verus! {

/// The ASCII `null` byte, the one character of the `Ignored` category.
pub const B_NUL: u8 = 0;

/// The ASCII `delete` byte, the one character of the `InvalidChar` category.
pub const B_DEL: u8 = 127;

/// The 16 category codes of TeX, numbered 0 to 15.
#[derive(Clone, Copy, Debug, PartialEq, Eq, Structural, Hash)]
pub enum CategoryCode {
    /// Escape character, starting a control sequence: the backslash.
    EscapedChar,
    /// Beginning of group: the open brace.
    GroupBegin,
    /// End of group: the closing brace.
    GroupEnd,
    /// Math shift, opening and closing math formulas: the dollar sign.
    MathShift,
    /// Alignment tab, the column separator in tables: the ampersand.
    AlignmentTab,
    /// End of line.
    EndOfLine,
    /// Parameter character, marking macro parameters: the hash sign.
    ParameterChar,
    /// Superscript: the circumflex.
    Superscript,
    /// Subscript: the underscore.
    Subscript,
    /// Ignored; such characters are removed from the input: the null byte.
    Ignored,
    /// Space.
    Space,
    /// Letter: the characters `a..z` and `A..Z`.
    Letter,
    /// Other: everything no other category claims, such as digits and
    /// punctuation.
    Other,
    /// Active; such a character functions as a command by itself: the tilde.
    Active,
    /// Comment character; from it to the end of the line is a comment: the
    /// percent sign.
    CommentChar,
    /// Invalid character, one that should not appear in the input: the
    /// delete byte.
    InvalidChar,
}

/// The category a byte falls into.
pub open spec fn catcode_of(b: u8) -> CategoryCode {
    if b == B_BACKSLASH {
        CategoryCode::EscapedChar
    } else if b == B_LBRACE {
        CategoryCode::GroupBegin
    } else if b == B_RBRACE {
        CategoryCode::GroupEnd
    } else if b == B_DOLLAR {
        CategoryCode::MathShift
    } else if b == B_AMP {
        CategoryCode::AlignmentTab
    } else if b == B_NL {
        CategoryCode::EndOfLine
    } else if b == B_HASH {
        CategoryCode::ParameterChar
    } else if b == B_CARET {
        CategoryCode::Superscript
    } else if b == B_UNDERSCORE {
        CategoryCode::Subscript
    } else if b == B_NUL {
        CategoryCode::Ignored
    } else if b == B_SP {
        CategoryCode::Space
    } else if is_letter(b) {
        CategoryCode::Letter
    } else if b == B_TILDE {
        CategoryCode::Active
    } else if b == B_PERCENT {
        CategoryCode::CommentChar
    } else if b == B_DEL {
        CategoryCode::InvalidChar
    } else {
        CategoryCode::Other
    }
}

/// The number of a category, 0 to 15.
pub open spec fn spec_code_number(c: CategoryCode) -> int {
    match c {
        CategoryCode::EscapedChar => 0,
        CategoryCode::GroupBegin => 1,
        CategoryCode::GroupEnd => 2,
        CategoryCode::MathShift => 3,
        CategoryCode::AlignmentTab => 4,
        CategoryCode::EndOfLine => 5,
        CategoryCode::ParameterChar => 6,
        CategoryCode::Superscript => 7,
        CategoryCode::Subscript => 8,
        CategoryCode::Ignored => 9,
        CategoryCode::Space => 10,
        CategoryCode::Letter => 11,
        CategoryCode::Other => 12,
        CategoryCode::Active => 13,
        CategoryCode::CommentChar => 14,
        CategoryCode::InvalidChar => 15,
    }
}

impl CategoryCode {
    /// Classifies one byte.
    pub fn of_byte(b: u8) -> (c: CategoryCode)
        ensures
            c == catcode_of(b),
    {
        if b == B_BACKSLASH {
            CategoryCode::EscapedChar
        } else if b == B_LBRACE {
            CategoryCode::GroupBegin
        } else if b == B_RBRACE {
            CategoryCode::GroupEnd
        } else if b == B_DOLLAR {
            CategoryCode::MathShift
        } else if b == B_AMP {
            CategoryCode::AlignmentTab
        } else if b == B_NL {
            CategoryCode::EndOfLine
        } else if b == B_HASH {
            CategoryCode::ParameterChar
        } else if b == B_CARET {
            CategoryCode::Superscript
        } else if b == B_UNDERSCORE {
            CategoryCode::Subscript
        } else if b == B_NUL {
            CategoryCode::Ignored
        } else if b == B_SP {
            CategoryCode::Space
        } else if (97 <= b && b <= 122) || (65 <= b && b <= 90) {
            CategoryCode::Letter
        } else if b == B_TILDE {
            CategoryCode::Active
        } else if b == B_PERCENT {
            CategoryCode::CommentChar
        } else if b == B_DEL {
            CategoryCode::InvalidChar
        } else {
            CategoryCode::Other
        }
    }

    /// The category's number, 0 to 15.
    pub fn number(self) -> (n: usize)
        ensures
            n == spec_code_number(self),
    {
        match self {
            CategoryCode::EscapedChar => 0,
            CategoryCode::GroupBegin => 1,
            CategoryCode::GroupEnd => 2,
            CategoryCode::MathShift => 3,
            CategoryCode::AlignmentTab => 4,
            CategoryCode::EndOfLine => 5,
            CategoryCode::ParameterChar => 6,
            CategoryCode::Superscript => 7,
            CategoryCode::Subscript => 8,
            CategoryCode::Ignored => 9,
            CategoryCode::Space => 10,
            CategoryCode::Letter => 11,
            CategoryCode::Other => 12,
            CategoryCode::Active => 13,
            CategoryCode::CommentChar => 14,
            CategoryCode::InvalidChar => 15,
        }
    }

    /// The category with number `n`, or `Err(n)` when `n` is above 15: the
    /// inverse of [`CategoryCode::number`].
    pub fn try_from_number(n: usize) -> (r: Result<CategoryCode, usize>)
        ensures
            r matches Ok(c) ==> n <= 15 && spec_code_number(c) == n,
            r matches Err(m) ==> n > 15 && m == n,
    {
        if n == 0 {
            Ok(CategoryCode::EscapedChar)
        } else if n == 1 {
            Ok(CategoryCode::GroupBegin)
        } else if n == 2 {
            Ok(CategoryCode::GroupEnd)
        } else if n == 3 {
            Ok(CategoryCode::MathShift)
        } else if n == 4 {
            Ok(CategoryCode::AlignmentTab)
        } else if n == 5 {
            Ok(CategoryCode::EndOfLine)
        } else if n == 6 {
            Ok(CategoryCode::ParameterChar)
        } else if n == 7 {
            Ok(CategoryCode::Superscript)
        } else if n == 8 {
            Ok(CategoryCode::Subscript)
        } else if n == 9 {
            Ok(CategoryCode::Ignored)
        } else if n == 10 {
            Ok(CategoryCode::Space)
        } else if n == 11 {
            Ok(CategoryCode::Letter)
        } else if n == 12 {
            Ok(CategoryCode::Other)
        } else if n == 13 {
            Ok(CategoryCode::Active)
        } else if n == 14 {
            Ok(CategoryCode::CommentChar)
        } else if n == 15 {
            Ok(CategoryCode::InvalidChar)
        } else {
            Err(n)
        }
    }
}

/// Classifies every byte of a source: one category with a one-byte span per
/// input byte.
pub fn scan_catcodes(src: &[u8]) -> (r: Vec<(CategoryCode, Span)>)
    ensures
        r@.len() == src@.len(),
        forall|i: int| 0 <= i < r@.len() ==> #[trigger] r@[i] == (catcode_of(src@[i]), Span {
            start: i as usize,
            end: (i + 1) as usize,
        }),
{
    let mut out: Vec<(CategoryCode, Span)> = Vec::new();
    let mut i: usize = 0;
    let n = src.len();
    while i < n
        invariant
            i <= n,
            n == src@.len(),
            out@.len() == i,
            forall|k: int| 0 <= k < i ==> #[trigger] out@[k] == (catcode_of(src@[k]), Span {
                start: k as usize,
                end: (k + 1) as usize,
            }),
        decreases n - i,
    {
        let c = CategoryCode::of_byte(src[i]);
        out.push((c, Span { start: i, end: i + 1 }));
        i += 1;
    }
    out
}

} // verus!
