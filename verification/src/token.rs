//! The coarse TeX token set and its tokenizer.
//!
//! This is the smaller, payload-free classification used by the plain TeX
//! lexers in [`crate::lexer`]: `\begin` and `\end` are tokens of their own
//! without their braced name, words take in digits and underscores, and any
//! unmatched byte falls into [`Token::Word`], one character at a time.

use crate::latex::token::{kw_begin, kw_documentclass, kw_end};
use crate::scanning::{
    fallback_end, fallback_run, is_letter, is_space_or_tab, is_word_byte, lemma_run_end, letter,
    letter_pred, letter_run, line_run, not_newline_pred, run_end, space_tab_pred, space_tab_run,
    spells, spells_at, word_pred, word_run, B_AMP, B_BACKSLASH, B_BANG, B_CARET, B_COLON, B_COMMA, B_CR, B_DOLLAR,
    B_HASH, B_LBRACE, B_LBRACKET, B_LPAREN, B_NL, B_PERCENT, B_RBRACE, B_RBRACKET, B_RPAREN,
    B_SEMI, B_SP, B_STAR, B_TAB, B_TILDE, B_UNDERSCORE,
};
use crate::span::Span;
use vstd::prelude::*;

verus! {

/// All meaningful tokens that help parse a TeX document.
#[derive(Clone, Copy, Debug, PartialEq, Eq, Structural, Hash)]
pub enum Token {
    /// Ampersand `'&'` character.
    And,
    /// Asterix `'*'` character.
    Asterix,
    /// Left curly brace `'{'` character.
    BraceOpen,
    /// Right curly brace `'}'` character.
    BraceClose,
    /// A lone backslash `'\'` that starts no longer token.
    Backslash,
    /// Left bracket `'['` character.
    BracketOpen,
    /// Right bracket `']'` character.
    BracketClose,
    /// A comment: a percent sign through the end of its line, the newline
    /// excluded.
    Comment,
    /// Opening of display math, `"\["`.
    DisplayMathOpen,
    /// Closing of display math, `"\]"`.
    DisplayMathClose,
    /// The `"\documentclass"` command.
    DocumentClass,
    /// Dollar sign `'$'` character.
    DollarSign,
    /// Double, or escaped, backslash `"\\"`.
    DoubleBackslash,
    /// Double dollar sign `"$$"`.
    DoubleDollarSign,
    /// An escaped character `\x` that stands for `x`: one of `{ } _ $ & % #`.
    EscapedChar,
    /// The `"\begin"` command, its braced name not included.
    EnvironmentBegin,
    /// The `"\end"` command, its braced name not included.
    EnvironmentEnd,
    /// Hash `'#'` character.
    Hash,
    /// Hat, or caret, `'^'` character.
    Hat,
    /// Opening of inline math, `"\("`.
    InlineMathOpen,
    /// Closing of inline math, `"\)"`.
    InlineMathClose,
    /// An escaped character that stands for a space: backslash before one of
    /// `, : ; !` or a space.
    InsertSpace,
    /// A macro name: a backslash followed by one or more letters.
    MacroName,
    /// A newline, `'\n'` or `"\r\n"`.
    Newline,
    /// A run of tabs and spaces.
    TabsOrSpaces,
    /// Tilde `'~'` character.
    Tilde,
    /// Underscore `'_'` character.
    Underscore,
    /// A run of letters, digits and underscores; also the fallback class for
    /// any byte no other rule matches, one character at a time.
    Word,
}

/// The token starting at a backslash at `pos`, and its length. A backslash
/// that starts no longer lexeme is a token of its own.
pub open spec fn backslash_token_at(s: Seq<u8>, pos: int) -> (Token, int)
    recommends
        0 <= pos < s.len(),
        s[pos] == B_BACKSLASH,
{
    if pos + 1 >= s.len() {
        (Token::Backslash, 1)
    } else {
        let b1 = s[pos + 1];
        if is_letter(b1) {
            let e = run_end(s, pos + 1, letter_pred());
            if spells(s, pos + 1, e, kw_documentclass()) {
                (Token::DocumentClass, e - pos)
            } else if spells(s, pos + 1, e, kw_begin()) {
                (Token::EnvironmentBegin, e - pos)
            } else if spells(s, pos + 1, e, kw_end()) {
                (Token::EnvironmentEnd, e - pos)
            } else {
                (Token::MacroName, e - pos)
            }
        } else if b1 == B_LBRACE || b1 == B_RBRACE || b1 == B_UNDERSCORE || b1 == B_DOLLAR || b1
            == B_AMP || b1 == B_PERCENT || b1 == B_HASH {
            (Token::EscapedChar, 2)
        } else if b1 == B_COMMA || b1 == B_COLON || b1 == B_SEMI || b1 == B_BANG || b1 == B_SP {
            (Token::InsertSpace, 2)
        } else if b1 == B_BACKSLASH {
            (Token::DoubleBackslash, 2)
        } else if b1 == B_LBRACKET {
            (Token::DisplayMathOpen, 2)
        } else if b1 == B_RBRACKET {
            (Token::DisplayMathClose, 2)
        } else if b1 == B_LPAREN {
            (Token::InlineMathOpen, 2)
        } else if b1 == B_RPAREN {
            (Token::InlineMathClose, 2)
        } else {
            (Token::Backslash, 1)
        }
    }
}

/// The token starting at `pos`, and its length: the classification table of
/// the TeX tokenizer. Every case takes at least one byte and stays within
/// the buffer.
pub open spec fn token_at(s: Seq<u8>, pos: int) -> (Token, int)
    recommends
        0 <= pos < s.len(),
{
    let b = s[pos];
    if b == B_BACKSLASH {
        backslash_token_at(s, pos)
    } else if b == B_PERCENT {
        (Token::Comment, run_end(s, pos, not_newline_pred()) - pos)
    } else if b == B_DOLLAR {
        if pos + 1 < s.len() && s[pos + 1] == B_DOLLAR {
            (Token::DoubleDollarSign, 2)
        } else {
            (Token::DollarSign, 1)
        }
    } else if b == B_NL {
        (Token::Newline, 1)
    } else if b == B_CR {
        if pos + 1 < s.len() && s[pos + 1] == B_NL {
            (Token::Newline, 2)
        } else {
            (Token::Word, 1)
        }
    } else if is_space_or_tab(b) {
        (Token::TabsOrSpaces, run_end(s, pos, space_tab_pred()) - pos)
    } else if b == B_UNDERSCORE {
        if run_end(s, pos, word_pred()) == pos + 1 {
            (Token::Underscore, 1)
        } else {
            (Token::Word, run_end(s, pos, word_pred()) - pos)
        }
    } else if is_word_byte(b) {
        (Token::Word, run_end(s, pos, word_pred()) - pos)
    } else if b == B_AMP {
        (Token::And, 1)
    } else if b == B_STAR {
        (Token::Asterix, 1)
    } else if b == B_LBRACE {
        (Token::BraceOpen, 1)
    } else if b == B_RBRACE {
        (Token::BraceClose, 1)
    } else if b == B_LBRACKET {
        (Token::BracketOpen, 1)
    } else if b == B_RBRACKET {
        (Token::BracketClose, 1)
    } else if b == B_HASH {
        (Token::Hash, 1)
    } else if b == B_CARET {
        (Token::Hat, 1)
    } else if b == B_TILDE {
        (Token::Tilde, 1)
    } else {
        (Token::Word, fallback_end(s, pos) - pos)
    }
}

/// Every token takes at least one byte and ends within the buffer.
pub proof fn lemma_token_at_len(s: Seq<u8>, pos: int)
    requires
        0 <= pos < s.len(),
    ensures
        1 <= token_at(s, pos).1,
        pos + token_at(s, pos).1 <= s.len(),
{
    let b = s[pos];
    if b == B_BACKSLASH {
        if pos + 1 < s.len() && is_letter(s[pos + 1]) {
            lemma_run_end(s, pos + 1, letter_pred());
            assert(letter_pred()(s[pos + 1]));
        }
    } else if b == B_PERCENT {
        lemma_run_end(s, pos, not_newline_pred());
        assert(not_newline_pred()(s[pos]));
    } else if b == B_DOLLAR || b == B_NL || b == B_CR {
    } else if is_space_or_tab(b) {
        lemma_run_end(s, pos, space_tab_pred());
        assert(space_tab_pred()(s[pos]));
    } else if is_word_byte(b) {
        lemma_run_end(s, pos, word_pred());
        assert(word_pred()(s[pos]));
    }
}

/// The complete TeX token stream of `s` from position `pos` on.
pub open spec fn scan_from(s: Seq<u8>, pos: int) -> Seq<(Token, Span)>
    decreases s.len() - pos,
    via scan_from_decreases
{
    if pos < 0 || pos >= s.len() {
        Seq::empty()
    } else {
        let t = token_at(s, pos);
        seq![(t.0, Span { start: pos as usize, end: (pos + t.1) as usize })] + scan_from(
            s,
            pos + t.1,
        )
    }
}

#[via_fn]
proof fn scan_from_decreases(s: Seq<u8>, pos: int) {
    if 0 <= pos < s.len() {
        lemma_token_at_len(s, pos);
    }
}

/// Scans the TeX token that starts at `pos`: the classified token and the
/// position right after it.
pub(crate) fn scan_token(src: &[u8], pos: usize) -> (r: (Token, usize))
    requires
        pos < src@.len(),
    ensures
        r.0 == token_at(src@, pos as int).0,
        r.1 == pos + token_at(src@, pos as int).1,
        pos < r.1 <= src@.len(),
{
    proof {
        lemma_token_at_len(src@, pos as int);
    }
    let n = src.len();
    let b = src[pos];
    if b == B_BACKSLASH {
        if pos + 1 >= n {
            (Token::Backslash, pos + 1)
        } else {
            let b1 = src[pos + 1];
            if letter(b1) {
                let e = letter_run(src, pos + 1);
                let kw_dc: [u8; 13] = [100, 111, 99, 117, 109, 101, 110, 116, 99, 108, 97, 115,
                    115];
                let kw_bg: [u8; 5] = [98, 101, 103, 105, 110];
                let kw_en: [u8; 3] = [101, 110, 100];
                proof {
                    assert(kw_dc@ =~= kw_documentclass());
                    assert(kw_bg@ =~= kw_begin());
                    assert(kw_en@ =~= kw_end());
                }
                if spells_at(src, pos + 1, e, kw_dc.as_slice()) {
                    (Token::DocumentClass, e)
                } else if spells_at(src, pos + 1, e, kw_bg.as_slice()) {
                    (Token::EnvironmentBegin, e)
                } else if spells_at(src, pos + 1, e, kw_en.as_slice()) {
                    (Token::EnvironmentEnd, e)
                } else {
                    (Token::MacroName, e)
                }
            } else if b1 == B_LBRACE || b1 == B_RBRACE || b1 == B_UNDERSCORE || b1 == B_DOLLAR
                || b1 == B_AMP || b1 == B_PERCENT || b1 == B_HASH {
                (Token::EscapedChar, pos + 2)
            } else if b1 == B_COMMA || b1 == B_COLON || b1 == B_SEMI || b1 == B_BANG || b1 == B_SP {
                (Token::InsertSpace, pos + 2)
            } else if b1 == B_BACKSLASH {
                (Token::DoubleBackslash, pos + 2)
            } else if b1 == B_LBRACKET {
                (Token::DisplayMathOpen, pos + 2)
            } else if b1 == B_RBRACKET {
                (Token::DisplayMathClose, pos + 2)
            } else if b1 == B_LPAREN {
                (Token::InlineMathOpen, pos + 2)
            } else if b1 == B_RPAREN {
                (Token::InlineMathClose, pos + 2)
            } else {
                (Token::Backslash, pos + 1)
            }
        }
    } else if b == B_PERCENT {
        (Token::Comment, line_run(src, pos))
    } else if b == B_DOLLAR {
        if pos + 1 < n && src[pos + 1] == B_DOLLAR {
            (Token::DoubleDollarSign, pos + 2)
        } else {
            (Token::DollarSign, pos + 1)
        }
    } else if b == B_NL {
        (Token::Newline, pos + 1)
    } else if b == B_CR {
        if pos + 1 < n && src[pos + 1] == B_NL {
            (Token::Newline, pos + 2)
        } else {
            (Token::Word, pos + 1)
        }
    } else if b == B_SP || b == B_TAB {
        (Token::TabsOrSpaces, space_tab_run(src, pos))
    } else if b == B_UNDERSCORE {
        let e = word_run(src, pos);
        if e == pos + 1 {
            (Token::Underscore, pos + 1)
        } else {
            (Token::Word, e)
        }
    } else if letter(b) || (48 <= b && b <= 57) {
        (Token::Word, word_run(src, pos))
    } else if b == B_AMP {
        (Token::And, pos + 1)
    } else if b == B_STAR {
        (Token::Asterix, pos + 1)
    } else if b == B_LBRACE {
        (Token::BraceOpen, pos + 1)
    } else if b == B_RBRACE {
        (Token::BraceClose, pos + 1)
    } else if b == B_LBRACKET {
        (Token::BracketOpen, pos + 1)
    } else if b == B_RBRACKET {
        (Token::BracketClose, pos + 1)
    } else if b == B_HASH {
        (Token::Hash, pos + 1)
    } else if b == B_CARET {
        (Token::Hat, pos + 1)
    } else if b == B_TILDE {
        (Token::Tilde, pos + 1)
    } else {
        (Token::Word, fallback_run(src, pos))
    }
}

/// Tokenizes a whole source into TeX tokens with their spans: exactly the
/// stream [`scan_from`] describes.
pub fn tokenize(src: &[u8]) -> (r: Vec<(Token, Span)>)
    ensures
        r@ == scan_from(src@, 0),
{
    let n = src.len();
    let mut out: Vec<(Token, Span)> = Vec::new();
    let mut pos: usize = 0;
    while pos < n
        invariant
            pos <= n,
            n == src@.len(),
            out@ + scan_from(src@, pos as int) == scan_from(src@, 0),
        decreases n - pos,
    {
        let ghost prev_pos = pos as int;
        let (t, end) = scan_token(src, pos);
        let sp = Span { start: pos, end };
        let ghost old_out = out@;
        out.push((t, sp));
        pos = end;
        proof {
            assert(scan_from(src@, prev_pos) == seq![(t, sp)] + scan_from(src@, pos as int));
            assert(old_out.push((t, sp)) + scan_from(src@, pos as int) =~= old_out + (seq![
                (t, sp),
            ] + scan_from(src@, pos as int)));
        }
    }
    proof {
        assert(scan_from(src@, n as int) =~= Seq::<(Token, Span)>::empty());
        assert(out@ + Seq::<(Token, Span)>::empty() =~= out@);
    }
    out
}

} // verus!
