//! LaTeX tokens and the tokenizer that produces them.
//!
//! [`Token`] enumerates every lexical class a LaTeX source is split into.
//! Classification is longest-match-first over the byte rules written down by
//! [`token_model_at`]; ties go to the specific keyword over the generic
//! command name. Bytes no rule matches fall into [`Token::Other`], one
//! character at a time, so every input tokenizes completely: the spans of a
//! full tokenization partition the source (see [`lemma_tokens_cover_source`]).

use crate::scanning::{
    digit_pred, digit_run, fallback_end, fallback_run, is_digit, is_letter, is_space_or_tab,
    lemma_run_end, letter, letter_pred, letter_run, line_run, not_newline_pred, run_end,
    space_tab_pred, space_tab_run, spells, spells_at, B_AMP, B_AT, B_BACKSLASH, B_BANG, B_CARET,
    B_COLON, B_COMMA, B_CR, B_DOLLAR, B_DOT, B_EQUALS, B_HASH, B_HYPHEN, B_LBRACE, B_LBRACKET,
    B_LPAREN, B_NL, B_PERCENT, B_PLUS, B_QMARK, B_RBRACE, B_RBRACKET, B_RPAREN, B_SEMI, B_SP,
    B_STAR, B_TAB, B_TILDE, B_UNDERSCORE,
};
use crate::span::Span;
use vstd::prelude::*;

verus! {

/// All meaningful tokens of a LaTeX document.
///
/// Environment tokens carry the environment name: the bytes strictly between
/// the braces of the matched lexeme, a possible trailing star included.
/// [`Token::OwnedString`] carries text of its own, not backed by any span of
/// the source; only formatters produce it.
#[derive(Debug)]
pub enum Token {
    /// Ampersand `'&'` character.
    And,
    /// Asterix `'*'` character.
    Asterix,
    /// At `'@'` character.
    At,
    /// Left curly brace `'{'` character.
    BraceOpen,
    /// Right curly brace `'}'` character.
    BraceClose,
    /// Right bracket `']'` character.
    BracketClose,
    /// Left bracket `'['` character.
    BracketOpen,
    /// Colon `':'` character.
    Colon,
    /// Comma `','` character.
    Comma,
    /// A valid command name: a backslash followed by one or more letters.
    CommandName,
    /// A comment: a percent sign through the end of its line, the newline
    /// excluded.
    Comment,
    /// Closing of display math, `"\]"`.
    DisplayMathClose,
    /// Opening of display math, `"\["`.
    DisplayMathOpen,
    /// The `"\documentclass"` command.
    DocumentClass,
    /// Dollar sign `'$'` character.
    DollarSign,
    /// Dot `'.'` character.
    Dot,
    /// Double, or escaped, backslash `"\\"`.
    DoubleBackslash,
    /// Double dollar sign `"$$"`.
    DoubleDollarSign,
    /// An environment begin `\begin{name}`, carrying the name.
    EnvironmentBegin(Vec<u8>),
    /// An environment end `\end{name}`, carrying the name.
    EnvironmentEnd(Vec<u8>),
    /// Equal sign `'='` character.
    EqualSign,
    /// An escaped character `\x` that stands for `x`: one of `{ } _ $ & % #`.
    EscapedChar,
    /// Exclamation mark `'!'` character.
    ExclamationMark,
    /// Hash `'#'` character.
    Hash,
    /// Hat, or caret, `'^'` character.
    Hat,
    /// Hyphen, or minus, `'-'` character.
    Hyphen,
    /// Closing of inline math, `"\)"`.
    InlineMathClose,
    /// Opening of inline math, `"\("`.
    InlineMathOpen,
    /// An escaped character that stands for a space: backslash before one of
    /// `, : ; !` or a space.
    InsertSpace,
    /// A backslash before a character that starts no valid command.
    InvalidCommand,
    /// A newline, `'\n'` or `"\r\n"`.
    Newline,
    /// A run of ASCII digits.
    Number,
    /// Any other character, one at a time; the class that never fails.
    Other,
    /// Text owned by the token itself, produced by formatters.
    OwnedString(Vec<u8>),
    /// Right parenthesis `')'` character.
    ParenClose,
    /// Left parenthesis `'('` character.
    ParenOpen,
    /// Plus sign `'+'` character.
    PlusSign,
    /// Question mark `'?'` character.
    QuestionMark,
    /// Semicolon `';'` character.
    Semicolon,
    /// A run of tabs and spaces.
    TabsOrSpaces,
    /// Tilde `'~'` character.
    Tilde,
    /// Underscore `'_'` character.
    Underscore,
    /// A run of ASCII letters.
    Word,
}

/// The mathematical value of a [`Token`]: the same cases, with payloads as
/// byte sequences.
pub enum TokenModel {
    And,
    Asterix,
    At,
    BraceOpen,
    BraceClose,
    BracketClose,
    BracketOpen,
    Colon,
    Comma,
    CommandName,
    Comment,
    DisplayMathClose,
    DisplayMathOpen,
    DocumentClass,
    DollarSign,
    Dot,
    DoubleBackslash,
    DoubleDollarSign,
    EnvironmentBegin(Seq<u8>),
    EnvironmentEnd(Seq<u8>),
    EqualSign,
    EscapedChar,
    ExclamationMark,
    Hash,
    Hat,
    Hyphen,
    InlineMathClose,
    InlineMathOpen,
    InsertSpace,
    InvalidCommand,
    Newline,
    Number,
    Other,
    OwnedString(Seq<u8>),
    ParenClose,
    ParenOpen,
    PlusSign,
    QuestionMark,
    Semicolon,
    TabsOrSpaces,
    Tilde,
    Underscore,
    Word,
}

impl View for Token {
    type V = TokenModel;

    open spec fn view(&self) -> TokenModel {
        match self {
            Token::And => TokenModel::And,
            Token::Asterix => TokenModel::Asterix,
            Token::At => TokenModel::At,
            Token::BraceOpen => TokenModel::BraceOpen,
            Token::BraceClose => TokenModel::BraceClose,
            Token::BracketClose => TokenModel::BracketClose,
            Token::BracketOpen => TokenModel::BracketOpen,
            Token::Colon => TokenModel::Colon,
            Token::Comma => TokenModel::Comma,
            Token::CommandName => TokenModel::CommandName,
            Token::Comment => TokenModel::Comment,
            Token::DisplayMathClose => TokenModel::DisplayMathClose,
            Token::DisplayMathOpen => TokenModel::DisplayMathOpen,
            Token::DocumentClass => TokenModel::DocumentClass,
            Token::DollarSign => TokenModel::DollarSign,
            Token::Dot => TokenModel::Dot,
            Token::DoubleBackslash => TokenModel::DoubleBackslash,
            Token::DoubleDollarSign => TokenModel::DoubleDollarSign,
            Token::EnvironmentBegin(name) => TokenModel::EnvironmentBegin(name@),
            Token::EnvironmentEnd(name) => TokenModel::EnvironmentEnd(name@),
            Token::EqualSign => TokenModel::EqualSign,
            Token::EscapedChar => TokenModel::EscapedChar,
            Token::ExclamationMark => TokenModel::ExclamationMark,
            Token::Hash => TokenModel::Hash,
            Token::Hat => TokenModel::Hat,
            Token::Hyphen => TokenModel::Hyphen,
            Token::InlineMathClose => TokenModel::InlineMathClose,
            Token::InlineMathOpen => TokenModel::InlineMathOpen,
            Token::InsertSpace => TokenModel::InsertSpace,
            Token::InvalidCommand => TokenModel::InvalidCommand,
            Token::Newline => TokenModel::Newline,
            Token::Number => TokenModel::Number,
            Token::Other => TokenModel::Other,
            Token::OwnedString(text) => TokenModel::OwnedString(text@),
            Token::ParenClose => TokenModel::ParenClose,
            Token::ParenOpen => TokenModel::ParenOpen,
            Token::PlusSign => TokenModel::PlusSign,
            Token::QuestionMark => TokenModel::QuestionMark,
            Token::Semicolon => TokenModel::Semicolon,
            Token::TabsOrSpaces => TokenModel::TabsOrSpaces,
            Token::Tilde => TokenModel::Tilde,
            Token::Underscore => TokenModel::Underscore,
            Token::Word => TokenModel::Word,
        }
    }
}

/// Copies a byte vector.
pub fn clone_bytes(v: &Vec<u8>) -> (r: Vec<u8>)
    ensures
        r@ == v@,
{
    let mut r: Vec<u8> = Vec::new();
    let mut i: usize = 0;
    while i < v.len()
        invariant
            i <= v@.len(),
            r@ == v@.subrange(0, i as int),
        decreases v@.len() - i,
    {
        r.push(v[i]);
        i += 1;
        proof {
            assert(r@ =~= v@.subrange(0, i as int));
        }
    }
    proof {
        assert(r@ =~= v@);
    }
    r
}

impl Token {
    /// Alias of [`Token::Hyphen`] that should be used in math mode.
    #[allow(non_upper_case_globals)]
    pub const MinusSign: Token = Token::Hyphen;

    /// Copies the token, payload included.
    pub fn dup(&self) -> (r: Token)
        ensures
            r@ == self@,
    {
        match self {
            Token::And => Token::And,
            Token::Asterix => Token::Asterix,
            Token::At => Token::At,
            Token::BraceOpen => Token::BraceOpen,
            Token::BraceClose => Token::BraceClose,
            Token::BracketClose => Token::BracketClose,
            Token::BracketOpen => Token::BracketOpen,
            Token::Colon => Token::Colon,
            Token::Comma => Token::Comma,
            Token::CommandName => Token::CommandName,
            Token::Comment => Token::Comment,
            Token::DisplayMathClose => Token::DisplayMathClose,
            Token::DisplayMathOpen => Token::DisplayMathOpen,
            Token::DocumentClass => Token::DocumentClass,
            Token::DollarSign => Token::DollarSign,
            Token::Dot => Token::Dot,
            Token::DoubleBackslash => Token::DoubleBackslash,
            Token::DoubleDollarSign => Token::DoubleDollarSign,
            Token::EnvironmentBegin(name) => Token::EnvironmentBegin(clone_bytes(name)),
            Token::EnvironmentEnd(name) => Token::EnvironmentEnd(clone_bytes(name)),
            Token::EqualSign => Token::EqualSign,
            Token::EscapedChar => Token::EscapedChar,
            Token::ExclamationMark => Token::ExclamationMark,
            Token::Hash => Token::Hash,
            Token::Hat => Token::Hat,
            Token::Hyphen => Token::Hyphen,
            Token::InlineMathClose => Token::InlineMathClose,
            Token::InlineMathOpen => Token::InlineMathOpen,
            Token::InsertSpace => Token::InsertSpace,
            Token::InvalidCommand => Token::InvalidCommand,
            Token::Newline => Token::Newline,
            Token::Number => Token::Number,
            Token::Other => Token::Other,
            Token::OwnedString(text) => Token::OwnedString(clone_bytes(text)),
            Token::ParenClose => Token::ParenClose,
            Token::ParenOpen => Token::ParenOpen,
            Token::PlusSign => Token::PlusSign,
            Token::QuestionMark => Token::QuestionMark,
            Token::Semicolon => Token::Semicolon,
            Token::TabsOrSpaces => Token::TabsOrSpaces,
            Token::Tilde => Token::Tilde,
            Token::Underscore => Token::Underscore,
            Token::Word => Token::Word,
        }
    }
}

impl PartialEq for Token {
    /// Two tokens are equal when they are of the same case and carry the
    /// same payload bytes.
    fn eq(&self, other: &Token) -> (r: bool) {
        match (self, other) {
            (Token::And, Token::And) => true,
            (Token::Asterix, Token::Asterix) => true,
            (Token::At, Token::At) => true,
            (Token::BraceOpen, Token::BraceOpen) => true,
            (Token::BraceClose, Token::BraceClose) => true,
            (Token::BracketClose, Token::BracketClose) => true,
            (Token::BracketOpen, Token::BracketOpen) => true,
            (Token::Colon, Token::Colon) => true,
            (Token::Comma, Token::Comma) => true,
            (Token::CommandName, Token::CommandName) => true,
            (Token::Comment, Token::Comment) => true,
            (Token::DisplayMathClose, Token::DisplayMathClose) => true,
            (Token::DisplayMathOpen, Token::DisplayMathOpen) => true,
            (Token::DocumentClass, Token::DocumentClass) => true,
            (Token::DollarSign, Token::DollarSign) => true,
            (Token::Dot, Token::Dot) => true,
            (Token::DoubleBackslash, Token::DoubleBackslash) => true,
            (Token::DoubleDollarSign, Token::DoubleDollarSign) => true,
            (Token::EnvironmentBegin(a), Token::EnvironmentBegin(b)) => bytes_eq(a, b),
            (Token::EnvironmentEnd(a), Token::EnvironmentEnd(b)) => bytes_eq(a, b),
            (Token::EqualSign, Token::EqualSign) => true,
            (Token::EscapedChar, Token::EscapedChar) => true,
            (Token::ExclamationMark, Token::ExclamationMark) => true,
            (Token::Hash, Token::Hash) => true,
            (Token::Hat, Token::Hat) => true,
            (Token::Hyphen, Token::Hyphen) => true,
            (Token::InlineMathClose, Token::InlineMathClose) => true,
            (Token::InlineMathOpen, Token::InlineMathOpen) => true,
            (Token::InsertSpace, Token::InsertSpace) => true,
            (Token::InvalidCommand, Token::InvalidCommand) => true,
            (Token::Newline, Token::Newline) => true,
            (Token::Number, Token::Number) => true,
            (Token::Other, Token::Other) => true,
            (Token::OwnedString(a), Token::OwnedString(b)) => bytes_eq(a, b),
            (Token::ParenClose, Token::ParenClose) => true,
            (Token::ParenOpen, Token::ParenOpen) => true,
            (Token::PlusSign, Token::PlusSign) => true,
            (Token::QuestionMark, Token::QuestionMark) => true,
            (Token::Semicolon, Token::Semicolon) => true,
            (Token::TabsOrSpaces, Token::TabsOrSpaces) => true,
            (Token::Tilde, Token::Tilde) => true,
            (Token::Underscore, Token::Underscore) => true,
            (Token::Word, Token::Word) => true,
            _ => false,
        }
    }
}

impl vstd::std_specs::cmp::PartialEqSpecImpl for Token {
    open spec fn obeys_eq_spec() -> bool {
        true
    }

    open spec fn eq_spec(&self, other: &Token) -> bool {
        self@ == other@
    }
}

/// Compares two byte vectors for equality of their contents.
pub fn bytes_eq(a: &Vec<u8>, b: &Vec<u8>) -> (r: bool)
    ensures
        r == (a@ == b@),
{
    if a.len() != b.len() {
        proof {
            assert(a@.len() != b@.len());
        }
        return false;
    }
    let mut i: usize = 0;
    while i < a.len()
        invariant
            a@.len() == b@.len(),
            i <= a@.len(),
            forall|k: int| 0 <= k < i ==> a@[k] == b@[k],
        decreases a@.len() - i,
    {
        if a[i] != b[i] {
            return false;
        }
        i += 1;
    }
    proof {
        assert(a@ =~= b@);
    }
    true
}

/// A token paired with its span.
pub type SpannedToken = (Token, Span);

/// The bare case of a [`Token`], without any payload.
#[derive(Clone, Copy, Debug, PartialEq, Eq, Structural, Hash)]
pub enum TokenDiscriminants {
    And,
    Asterix,
    At,
    BraceOpen,
    BraceClose,
    BracketClose,
    BracketOpen,
    Colon,
    Comma,
    CommandName,
    Comment,
    DisplayMathClose,
    DisplayMathOpen,
    DocumentClass,
    DollarSign,
    Dot,
    DoubleBackslash,
    DoubleDollarSign,
    EnvironmentBegin,
    EnvironmentEnd,
    EqualSign,
    EscapedChar,
    ExclamationMark,
    Hash,
    Hat,
    Hyphen,
    InlineMathClose,
    InlineMathOpen,
    InsertSpace,
    InvalidCommand,
    Newline,
    Number,
    Other,
    OwnedString,
    ParenClose,
    ParenOpen,
    PlusSign,
    QuestionMark,
    Semicolon,
    TabsOrSpaces,
    Tilde,
    Underscore,
    Word,
}

/// The case of a token value.
pub open spec fn model_discriminant(t: TokenModel) -> TokenDiscriminants {
    match t {
        TokenModel::And => TokenDiscriminants::And,
        TokenModel::Asterix => TokenDiscriminants::Asterix,
        TokenModel::At => TokenDiscriminants::At,
        TokenModel::BraceOpen => TokenDiscriminants::BraceOpen,
        TokenModel::BraceClose => TokenDiscriminants::BraceClose,
        TokenModel::BracketClose => TokenDiscriminants::BracketClose,
        TokenModel::BracketOpen => TokenDiscriminants::BracketOpen,
        TokenModel::Colon => TokenDiscriminants::Colon,
        TokenModel::Comma => TokenDiscriminants::Comma,
        TokenModel::CommandName => TokenDiscriminants::CommandName,
        TokenModel::Comment => TokenDiscriminants::Comment,
        TokenModel::DisplayMathClose => TokenDiscriminants::DisplayMathClose,
        TokenModel::DisplayMathOpen => TokenDiscriminants::DisplayMathOpen,
        TokenModel::DocumentClass => TokenDiscriminants::DocumentClass,
        TokenModel::DollarSign => TokenDiscriminants::DollarSign,
        TokenModel::Dot => TokenDiscriminants::Dot,
        TokenModel::DoubleBackslash => TokenDiscriminants::DoubleBackslash,
        TokenModel::DoubleDollarSign => TokenDiscriminants::DoubleDollarSign,
        TokenModel::EnvironmentBegin(_) => TokenDiscriminants::EnvironmentBegin,
        TokenModel::EnvironmentEnd(_) => TokenDiscriminants::EnvironmentEnd,
        TokenModel::EqualSign => TokenDiscriminants::EqualSign,
        TokenModel::EscapedChar => TokenDiscriminants::EscapedChar,
        TokenModel::ExclamationMark => TokenDiscriminants::ExclamationMark,
        TokenModel::Hash => TokenDiscriminants::Hash,
        TokenModel::Hat => TokenDiscriminants::Hat,
        TokenModel::Hyphen => TokenDiscriminants::Hyphen,
        TokenModel::InlineMathClose => TokenDiscriminants::InlineMathClose,
        TokenModel::InlineMathOpen => TokenDiscriminants::InlineMathOpen,
        TokenModel::InsertSpace => TokenDiscriminants::InsertSpace,
        TokenModel::InvalidCommand => TokenDiscriminants::InvalidCommand,
        TokenModel::Newline => TokenDiscriminants::Newline,
        TokenModel::Number => TokenDiscriminants::Number,
        TokenModel::Other => TokenDiscriminants::Other,
        TokenModel::OwnedString(_) => TokenDiscriminants::OwnedString,
        TokenModel::ParenClose => TokenDiscriminants::ParenClose,
        TokenModel::ParenOpen => TokenDiscriminants::ParenOpen,
        TokenModel::PlusSign => TokenDiscriminants::PlusSign,
        TokenModel::QuestionMark => TokenDiscriminants::QuestionMark,
        TokenModel::Semicolon => TokenDiscriminants::Semicolon,
        TokenModel::TabsOrSpaces => TokenDiscriminants::TabsOrSpaces,
        TokenModel::Tilde => TokenDiscriminants::Tilde,
        TokenModel::Underscore => TokenDiscriminants::Underscore,
        TokenModel::Word => TokenDiscriminants::Word,
    }
}

impl Token {
    /// The case of this token.
    pub fn discriminant(&self) -> (d: TokenDiscriminants)
        ensures
            d == model_discriminant(self@),
    {
        match self {
            Token::And => TokenDiscriminants::And,
            Token::Asterix => TokenDiscriminants::Asterix,
            Token::At => TokenDiscriminants::At,
            Token::BraceOpen => TokenDiscriminants::BraceOpen,
            Token::BraceClose => TokenDiscriminants::BraceClose,
            Token::BracketClose => TokenDiscriminants::BracketClose,
            Token::BracketOpen => TokenDiscriminants::BracketOpen,
            Token::Colon => TokenDiscriminants::Colon,
            Token::Comma => TokenDiscriminants::Comma,
            Token::CommandName => TokenDiscriminants::CommandName,
            Token::Comment => TokenDiscriminants::Comment,
            Token::DisplayMathClose => TokenDiscriminants::DisplayMathClose,
            Token::DisplayMathOpen => TokenDiscriminants::DisplayMathOpen,
            Token::DocumentClass => TokenDiscriminants::DocumentClass,
            Token::DollarSign => TokenDiscriminants::DollarSign,
            Token::Dot => TokenDiscriminants::Dot,
            Token::DoubleBackslash => TokenDiscriminants::DoubleBackslash,
            Token::DoubleDollarSign => TokenDiscriminants::DoubleDollarSign,
            Token::EnvironmentBegin(_) => TokenDiscriminants::EnvironmentBegin,
            Token::EnvironmentEnd(_) => TokenDiscriminants::EnvironmentEnd,
            Token::EqualSign => TokenDiscriminants::EqualSign,
            Token::EscapedChar => TokenDiscriminants::EscapedChar,
            Token::ExclamationMark => TokenDiscriminants::ExclamationMark,
            Token::Hash => TokenDiscriminants::Hash,
            Token::Hat => TokenDiscriminants::Hat,
            Token::Hyphen => TokenDiscriminants::Hyphen,
            Token::InlineMathClose => TokenDiscriminants::InlineMathClose,
            Token::InlineMathOpen => TokenDiscriminants::InlineMathOpen,
            Token::InsertSpace => TokenDiscriminants::InsertSpace,
            Token::InvalidCommand => TokenDiscriminants::InvalidCommand,
            Token::Newline => TokenDiscriminants::Newline,
            Token::Number => TokenDiscriminants::Number,
            Token::Other => TokenDiscriminants::Other,
            Token::OwnedString(_) => TokenDiscriminants::OwnedString,
            Token::ParenClose => TokenDiscriminants::ParenClose,
            Token::ParenOpen => TokenDiscriminants::ParenOpen,
            Token::PlusSign => TokenDiscriminants::PlusSign,
            Token::QuestionMark => TokenDiscriminants::QuestionMark,
            Token::Semicolon => TokenDiscriminants::Semicolon,
            Token::TabsOrSpaces => TokenDiscriminants::TabsOrSpaces,
            Token::Tilde => TokenDiscriminants::Tilde,
            Token::Underscore => TokenDiscriminants::Underscore,
            Token::Word => TokenDiscriminants::Word,
        }
    }
}

// ---------------------------------------------------------------------------
// The classification rules: which token starts at a given byte position.
// ---------------------------------------------------------------------------

/// The letters of `documentclass`.
pub open spec fn kw_documentclass() -> Seq<u8> {
    seq![100u8, 111u8, 99u8, 117u8, 109u8, 101u8, 110u8, 116u8, 99u8, 108u8, 97u8, 115u8, 115u8]
}

/// The letters of `begin`.
pub open spec fn kw_begin() -> Seq<u8> {
    seq![98u8, 101u8, 103u8, 105u8, 110u8]
}

/// The letters of `end`.
pub open spec fn kw_end() -> Seq<u8> {
    seq![101u8, 110u8, 100u8]
}

/// End of the letter run that follows the brace at `j`.
pub open spec fn env_letters_end(s: Seq<u8>, j: int) -> int {
    run_end(s, j + 1, letter_pred())
}

/// End of the environment name that follows the brace at `j`: the letter
/// run, a trailing star included.
pub open spec fn env_name_end(s: Seq<u8>, j: int) -> int {
    let k = env_letters_end(s, j);
    if k < s.len() && s[k] == B_STAR {
        k + 1
    } else {
        k
    }
}

/// True when `s[j..]` starts with a braced environment name: `{`, one or
/// more letters, an optional `*`, and `}`.
pub open spec fn env_valid(s: Seq<u8>, j: int) -> bool {
    &&& 0 <= j < s.len()
    &&& s[j] == B_LBRACE
    &&& env_letters_end(s, j) > j + 1
    &&& env_name_end(s, j) < s.len()
    &&& s[env_name_end(s, j)] == B_RBRACE
}

/// The environment name between the braces: the bytes strictly between `{`
/// at `j` and the closing `}`.
pub open spec fn env_name(s: Seq<u8>, j: int) -> Seq<u8> {
    s.subrange(j + 1, env_name_end(s, j))
}

/// The token starting at a backslash at `pos`, and its length.
///
/// Longest match first: an environment begin or end outranks the command
/// name it starts with, and `\documentclass` outranks the generic command
/// name of the same length. A backslash that ends the input matches no rule
/// and falls back to [`TokenModel::Other`].
pub open spec fn backslash_token_at(s: Seq<u8>, pos: int) -> (TokenModel, int)
    recommends
        0 <= pos < s.len(),
        s[pos] == B_BACKSLASH,
{
    if pos + 1 >= s.len() {
        (TokenModel::Other, 1)
    } else {
        let b1 = s[pos + 1];
        if is_letter(b1) {
            let e = run_end(s, pos + 1, letter_pred());
            if spells(s, pos + 1, e, kw_documentclass()) {
                (TokenModel::DocumentClass, e - pos)
            } else if spells(s, pos + 1, e, kw_begin()) && env_valid(s, e) {
                (TokenModel::EnvironmentBegin(env_name(s, e)), env_name_end(s, e) + 1 - pos)
            } else if spells(s, pos + 1, e, kw_end()) && env_valid(s, e) {
                (TokenModel::EnvironmentEnd(env_name(s, e)), env_name_end(s, e) + 1 - pos)
            } else {
                (TokenModel::CommandName, e - pos)
            }
        } else if b1 == B_LBRACE || b1 == B_RBRACE || b1 == B_UNDERSCORE || b1 == B_DOLLAR
            || b1 == B_AMP || b1 == B_PERCENT || b1 == B_HASH {
            (TokenModel::EscapedChar, 2)
        } else if b1 == B_COMMA || b1 == B_COLON || b1 == B_SEMI || b1 == B_BANG || b1 == B_SP {
            (TokenModel::InsertSpace, 2)
        } else if b1 == B_BACKSLASH {
            (TokenModel::DoubleBackslash, 2)
        } else if b1 == B_LBRACKET {
            (TokenModel::DisplayMathOpen, 2)
        } else if b1 == B_RBRACKET {
            (TokenModel::DisplayMathClose, 2)
        } else if b1 == B_LPAREN {
            (TokenModel::InlineMathOpen, 2)
        } else if b1 == B_RPAREN {
            (TokenModel::InlineMathClose, 2)
        } else {
            (TokenModel::InvalidCommand, fallback_end(s, pos + 1) - pos)
        }
    }
}

/// The token starting at `pos`, and its length: the classification table of
/// the tokenizer. Every case takes at least one byte and stays within the
/// buffer, so tokenization never fails and never stalls.
pub open spec fn token_model_at(s: Seq<u8>, pos: int) -> (TokenModel, int)
    recommends
        0 <= pos < s.len(),
{
    let b = s[pos];
    if b == B_BACKSLASH {
        backslash_token_at(s, pos)
    } else if b == B_PERCENT {
        (TokenModel::Comment, run_end(s, pos, not_newline_pred()) - pos)
    } else if b == B_DOLLAR {
        if pos + 1 < s.len() && s[pos + 1] == B_DOLLAR {
            (TokenModel::DoubleDollarSign, 2)
        } else {
            (TokenModel::DollarSign, 1)
        }
    } else if b == B_NL {
        (TokenModel::Newline, 1)
    } else if b == B_CR {
        if pos + 1 < s.len() && s[pos + 1] == B_NL {
            (TokenModel::Newline, 2)
        } else {
            (TokenModel::Other, 1)
        }
    } else if is_space_or_tab(b) {
        (TokenModel::TabsOrSpaces, run_end(s, pos, space_tab_pred()) - pos)
    } else if is_letter(b) {
        (TokenModel::Word, run_end(s, pos, letter_pred()) - pos)
    } else if is_digit(b) {
        (TokenModel::Number, run_end(s, pos, digit_pred()) - pos)
    } else if b == B_AMP {
        (TokenModel::And, 1)
    } else if b == B_STAR {
        (TokenModel::Asterix, 1)
    } else if b == B_AT {
        (TokenModel::At, 1)
    } else if b == B_LBRACE {
        (TokenModel::BraceOpen, 1)
    } else if b == B_RBRACE {
        (TokenModel::BraceClose, 1)
    } else if b == B_RBRACKET {
        (TokenModel::BracketClose, 1)
    } else if b == B_LBRACKET {
        (TokenModel::BracketOpen, 1)
    } else if b == B_COLON {
        (TokenModel::Colon, 1)
    } else if b == B_COMMA {
        (TokenModel::Comma, 1)
    } else if b == B_DOT {
        (TokenModel::Dot, 1)
    } else if b == B_EQUALS {
        (TokenModel::EqualSign, 1)
    } else if b == B_BANG {
        (TokenModel::ExclamationMark, 1)
    } else if b == B_HASH {
        (TokenModel::Hash, 1)
    } else if b == B_CARET {
        (TokenModel::Hat, 1)
    } else if b == B_HYPHEN {
        (TokenModel::Hyphen, 1)
    } else if b == B_RPAREN {
        (TokenModel::ParenClose, 1)
    } else if b == B_LPAREN {
        (TokenModel::ParenOpen, 1)
    } else if b == B_PLUS {
        (TokenModel::PlusSign, 1)
    } else if b == B_QMARK {
        (TokenModel::QuestionMark, 1)
    } else if b == B_SEMI {
        (TokenModel::Semicolon, 1)
    } else if b == B_TILDE {
        (TokenModel::Tilde, 1)
    } else if b == B_UNDERSCORE {
        (TokenModel::Underscore, 1)
    } else {
        (TokenModel::Other, fallback_end(s, pos) - pos)
    }
}

/// Every token takes at least one byte and ends within the buffer.
pub proof fn lemma_token_model_at_len(s: Seq<u8>, pos: int)
    requires
        0 <= pos < s.len(),
    ensures
        1 <= token_model_at(s, pos).1,
        pos + token_model_at(s, pos).1 <= s.len(),
{
    let b = s[pos];
    if b == B_BACKSLASH {
        if pos + 1 < s.len() {
            let b1 = s[pos + 1];
            if is_letter(b1) {
                lemma_run_end(s, pos + 1, letter_pred());
                let e = run_end(s, pos + 1, letter_pred());
                assert(letter_pred()(s[pos + 1]));
                assert(e >= pos + 2);
                let le = env_letters_end(s, e);
                if (spells(s, pos + 1, e, kw_begin()) || spells(s, pos + 1, e, kw_end()))
                    && env_valid(s, e) {
                    assert(env_name_end(s, e) < s.len());
                    assert(env_name_end(s, e) >= le >= e + 1);
                }
            }
        }
    } else if b == B_PERCENT {
        lemma_run_end(s, pos, not_newline_pred());
        assert(not_newline_pred()(s[pos]));
        assert(run_end(s, pos, not_newline_pred()) >= pos + 1);
    } else if b == B_DOLLAR || b == B_NL || b == B_CR {
    } else if is_space_or_tab(b) {
        lemma_run_end(s, pos, space_tab_pred());
        assert(space_tab_pred()(s[pos]));
        assert(run_end(s, pos, space_tab_pred()) >= pos + 1);
    } else if is_letter(b) {
        lemma_run_end(s, pos, letter_pred());
        assert(letter_pred()(s[pos]));
        assert(run_end(s, pos, letter_pred()) >= pos + 1);
    } else if is_digit(b) {
        lemma_run_end(s, pos, digit_pred());
        assert(digit_pred()(s[pos]));
        assert(run_end(s, pos, digit_pred()) >= pos + 1);
    }
}

/// The token at `pos`, paired with its span.
pub open spec fn token_span_at(s: Seq<u8>, pos: int) -> (TokenModel, Span) {
    let t = token_model_at(s, pos);
    (t.0, Span { start: pos as usize, end: (pos + t.1) as usize })
}

/// The complete token stream of `s` from position `pos` on.
pub open spec fn scan_from(s: Seq<u8>, pos: int) -> Seq<(TokenModel, Span)>
    decreases s.len() - pos,
    via scan_from_decreases
{
    if pos < 0 || pos >= s.len() {
        Seq::empty()
    } else {
        seq![token_span_at(s, pos)] + scan_from(s, pos + token_model_at(s, pos).1)
    }
}

#[via_fn]
proof fn scan_from_decreases(s: Seq<u8>, pos: int) {
    if 0 <= pos < s.len() {
        lemma_token_model_at_len(s, pos);
    }
}

/// True when the spans of `r` tile `[lo, hi)` exactly: each span is
/// non-empty and lies within the range, the first starts at `lo`, each next
/// one starts where the previous ended, and the last ends at `hi`.
pub open spec fn spans_chained(r: Seq<(TokenModel, Span)>, lo: int, hi: int) -> bool {
    &&& (r.len() == 0 ==> lo == hi)
    &&& (r.len() > 0 ==> r[0].1.start == lo && r[r.len() - 1].1.end == hi)
    &&& (forall|k: int| 0 <= k < r.len() ==> lo <= #[trigger] r[k].1.start < r[k].1.end <= hi)
    &&& (forall|k: int| 0 < k < r.len() ==> #[trigger] r[k].1.start == r[k - 1].1.end)
}

/// The full scan of `s` from `pos` tiles `[pos, s.len())`.
pub proof fn lemma_scan_from_chained(s: Seq<u8>, pos: int)
    requires
        0 <= pos <= s.len(),
        s.len() <= usize::MAX,
    ensures
        spans_chained(scan_from(s, pos), pos, s.len() as int),
    decreases s.len() - pos,
{
    if pos < s.len() {
        lemma_token_model_at_len(s, pos);
        let l = token_model_at(s, pos).1;
        lemma_scan_from_chained(s, pos + l);
        let first = token_span_at(s, pos);
        let rest = scan_from(s, pos + l);
        let r = scan_from(s, pos);
        assert(r == seq![first] + rest);
        assert(r[0] == first);
        assert(forall|k: int| 0 < k < r.len() ==> r[k] == rest[k - 1]);
        assert(first.1.start == pos && first.1.end == pos + l);
        if rest.len() == 0 {
            assert(r.len() == 1);
        } else {
            assert(r[r.len() - 1] == rest[rest.len() - 1]);
        }
    }
}

/// The bytes of `s` that the spans of `r` denote, concatenated in order.
/// Owned-string tokens do not occur in a tokenizer's output; for uniformity
/// the definition reads every span.
pub open spec fn concat_spans(s: Seq<u8>, r: Seq<(TokenModel, Span)>) -> Seq<u8>
    decreases r.len(),
{
    if r.len() == 0 {
        Seq::empty()
    } else {
        s.subrange(r[0].1.start as int, r[0].1.end as int) + concat_spans(s, r.drop_first())
    }
}

/// Within a chained tiling, no later span starts before the first one ends.
proof fn lemma_chained_mono(r: Seq<(TokenModel, Span)>, lo: int, hi: int, k: int)
    requires
        spans_chained(r, lo, hi),
        0 <= k < r.len(),
    ensures
        r[0].1.end <= r[k].1.end,
        k > 0 ==> r[0].1.end <= r[k].1.start,
    decreases k,
{
    if k > 0 {
        lemma_chained_mono(r, lo, hi, k - 1);
        assert(r[k].1.start == r[k - 1].1.end);
    }
}

/// Chained spans cover their range: the concatenation of the denoted slices
/// is the slice `[lo, hi)` itself.
pub proof fn lemma_chained_spans_cover(s: Seq<u8>, r: Seq<(TokenModel, Span)>, lo: int, hi: int)
    requires
        spans_chained(r, lo, hi),
        0 <= lo <= hi <= s.len(),
    ensures
        concat_spans(s, r) == s.subrange(lo, hi),
    decreases r.len(),
{
    if r.len() == 0 {
        assert(concat_spans(s, r) =~= s.subrange(lo, hi));
    } else {
        let mid = r[0].1.end as int;
        let rest = r.drop_first();
        assert(forall|k: int| 0 <= k < rest.len() ==> rest[k] == r[k + 1]);
        if rest.len() > 0 {
            assert(rest[0].1.start == r[1].1.start);
            assert(r[1].1.start == r[0].1.end);
        }
        assert forall|k: int| 0 <= k < rest.len() implies mid <= #[trigger] rest[k].1.start
            < rest[k].1.end <= hi by {
            assert(rest[k] == r[k + 1]);
            lemma_chained_mono(r, lo, hi, k + 1);
        }
        assert(spans_chained(rest, mid, hi));
        lemma_chained_spans_cover(s, rest, mid, hi);
        assert(s.subrange(lo, hi) =~= s.subrange(lo, mid) + s.subrange(mid, hi));
    }
}

/// Coverage law: concatenating the source slices denoted by a complete
/// tokenization's spans, in order, reproduces the input exactly.
pub proof fn lemma_tokens_cover_source(s: Seq<u8>, r: Seq<(TokenModel, Span)>)
    requires
        r == scan_from(s, 0),
        s.len() <= usize::MAX,
    ensures
        concat_spans(s, r) == s,
{
    lemma_scan_from_chained(s, 0);
    lemma_chained_spans_cover(s, r, 0, s.len() as int);
    assert(s.subrange(0, s.len() as int) =~= s);
}

/// The mathematical value of a spanned-token stream.
pub open spec fn stream_model(v: Seq<(Token, Span)>) -> Seq<(TokenModel, Span)> {
    v.map_values(|p: (Token, Span)| (p.0@, p.1))
}

// ---------------------------------------------------------------------------
// The tokenizer.
// ---------------------------------------------------------------------------

/// Copies `src[a..b)` into a fresh vector.
fn copy_range(src: &[u8], a: usize, b: usize) -> (r: Vec<u8>)
    requires
        a <= b <= src@.len(),
    ensures
        r@ == src@.subrange(a as int, b as int),
{
    let mut r: Vec<u8> = Vec::new();
    let mut i = a;
    while i < b
        invariant
            a <= i <= b <= src@.len(),
            r@ == src@.subrange(a as int, i as int),
        decreases b - i,
    {
        r.push(src[i]);
        i += 1;
        proof {
            assert(r@ =~= src@.subrange(a as int, i as int));
        }
    }
    r
}

/// Recognises a braced environment name at `j`: `{`, one or more letters,
/// an optional `*`, and `}`. Returns the name and the position after `}`.
fn try_env(src: &[u8], j: usize) -> (r: Option<(Vec<u8>, usize)>)
    requires
        j <= src@.len(),
    ensures
        match r {
            Some(p) => env_valid(src@, j as int) && p.0@ == env_name(src@, j as int) && p.1
                == env_name_end(src@, j as int) + 1,
            None => !env_valid(src@, j as int),
        },
{
    let n = src.len();
    if j >= n || src[j] != B_LBRACE {
        return None;
    }
    let k = letter_run(src, j + 1);
    let k2: usize = if k < n && src[k] == B_STAR {
        k + 1
    } else {
        k
    };
    if k > j + 1 && k2 < n && src[k2] == B_RBRACE {
        let name = copy_range(src, j + 1, k2);
        Some((name, k2 + 1))
    } else {
        None
    }
}

/// Scans the token that starts at `pos`: the classified token and the
/// position right after it.
pub(crate) fn scan_token(src: &[u8], pos: usize) -> (r: (Token, usize))
    requires
        pos < src@.len(),
    ensures
        r.0@ == token_model_at(src@, pos as int).0,
        r.1 == pos + token_model_at(src@, pos as int).1,
        pos < r.1 <= src@.len(),
{
    proof {
        lemma_token_model_at_len(src@, pos as int);
    }
    let n = src.len();
    let b = src[pos];
    if b == B_BACKSLASH {
        if pos + 1 >= n {
            (Token::Other, pos + 1)
        } else {
            let b1 = src[pos + 1];
            if letter(b1) {
                let e = letter_run(src, pos + 1);
                let kw_dc: [u8; 13] = [100, 111, 99, 117, 109, 101, 110, 116, 99, 108, 97, 115,
                    115];
                let kw_bg: [u8; 5] = [98, 101, 103, 105, 110];
                let kw_en: [u8; 3] = [101, 110, 100];
                proof {
                    assert(kw_dc@ =~= kw_documentclass());
                    assert(kw_bg@ =~= kw_begin());
                    assert(kw_en@ =~= kw_end());
                }
                if spells_at(src, pos + 1, e, kw_dc.as_slice()) {
                    (Token::DocumentClass, e)
                } else if spells_at(src, pos + 1, e, kw_bg.as_slice()) {
                    match try_env(src, e) {
                        Some((name, tend)) => (Token::EnvironmentBegin(name), tend),
                        None => (Token::CommandName, e),
                    }
                } else if spells_at(src, pos + 1, e, kw_en.as_slice()) {
                    match try_env(src, e) {
                        Some((name, tend)) => (Token::EnvironmentEnd(name), tend),
                        None => (Token::CommandName, e),
                    }
                } else {
                    (Token::CommandName, e)
                }
            } else if b1 == B_LBRACE || b1 == B_RBRACE || b1 == B_UNDERSCORE || b1 == B_DOLLAR
                || b1 == B_AMP || b1 == B_PERCENT || b1 == B_HASH {
                (Token::EscapedChar, pos + 2)
            } else if b1 == B_COMMA || b1 == B_COLON || b1 == B_SEMI || b1 == B_BANG || b1 == B_SP {
                (Token::InsertSpace, pos + 2)
            } else if b1 == B_BACKSLASH {
                (Token::DoubleBackslash, pos + 2)
            } else if b1 == B_LBRACKET {
                (Token::DisplayMathOpen, pos + 2)
            } else if b1 == B_RBRACKET {
                (Token::DisplayMathClose, pos + 2)
            } else if b1 == B_LPAREN {
                (Token::InlineMathOpen, pos + 2)
            } else if b1 == B_RPAREN {
                (Token::InlineMathClose, pos + 2)
            } else {
                (Token::InvalidCommand, fallback_run(src, pos + 1))
            }
        }
    } else if b == B_PERCENT {
        (Token::Comment, line_run(src, pos))
    } else if b == B_DOLLAR {
        if pos + 1 < n && src[pos + 1] == B_DOLLAR {
            (Token::DoubleDollarSign, pos + 2)
        } else {
            (Token::DollarSign, pos + 1)
        }
    } else if b == B_NL {
        (Token::Newline, pos + 1)
    } else if b == B_CR {
        if pos + 1 < n && src[pos + 1] == B_NL {
            (Token::Newline, pos + 2)
        } else {
            (Token::Other, pos + 1)
        }
    } else if b == B_SP || b == B_TAB {
        (Token::TabsOrSpaces, space_tab_run(src, pos))
    } else if letter(b) {
        (Token::Word, letter_run(src, pos))
    } else if 48 <= b && b <= 57 {
        (Token::Number, digit_run(src, pos))
    } else if b == B_AMP {
        (Token::And, pos + 1)
    } else if b == B_STAR {
        (Token::Asterix, pos + 1)
    } else if b == B_AT {
        (Token::At, pos + 1)
    } else if b == B_LBRACE {
        (Token::BraceOpen, pos + 1)
    } else if b == B_RBRACE {
        (Token::BraceClose, pos + 1)
    } else if b == B_RBRACKET {
        (Token::BracketClose, pos + 1)
    } else if b == B_LBRACKET {
        (Token::BracketOpen, pos + 1)
    } else if b == B_COLON {
        (Token::Colon, pos + 1)
    } else if b == B_COMMA {
        (Token::Comma, pos + 1)
    } else if b == B_DOT {
        (Token::Dot, pos + 1)
    } else if b == B_EQUALS {
        (Token::EqualSign, pos + 1)
    } else if b == B_BANG {
        (Token::ExclamationMark, pos + 1)
    } else if b == B_HASH {
        (Token::Hash, pos + 1)
    } else if b == B_CARET {
        (Token::Hat, pos + 1)
    } else if b == B_HYPHEN {
        (Token::Hyphen, pos + 1)
    } else if b == B_RPAREN {
        (Token::ParenClose, pos + 1)
    } else if b == B_LPAREN {
        (Token::ParenOpen, pos + 1)
    } else if b == B_PLUS {
        (Token::PlusSign, pos + 1)
    } else if b == B_QMARK {
        (Token::QuestionMark, pos + 1)
    } else if b == B_SEMI {
        (Token::Semicolon, pos + 1)
    } else if b == B_TILDE {
        (Token::Tilde, pos + 1)
    } else if b == B_UNDERSCORE {
        (Token::Underscore, pos + 1)
    } else {
        (Token::Other, fallback_run(src, pos))
    }
}

/// A lexer positioned over a source buffer, handing out one token per call.
pub struct TokenLexer<'a> {
    src: &'a [u8],
    pos: usize,
    token_start: usize,
    token_end: usize,
}

impl<'a> TokenLexer<'a> {
    /// The cursor and the remembered span of the last token stay within the
    /// source.
    pub closed spec fn wf(&self) -> bool {
        self.token_start <= self.token_end <= self.pos <= self.src@.len()
    }

    /// The bytes the lexer scans.
    pub closed spec fn spec_src(&self) -> Seq<u8> {
        self.src@
    }

    /// The position of the next unscanned byte.
    pub closed spec fn spec_pos(&self) -> int {
        self.pos as int
    }

    /// The span of the most recently produced token; empty before the first.
    pub closed spec fn spec_token_span(&self) -> Span {
        Span { start: self.token_start, end: self.token_end }
    }

    /// Produces the next token with its span, or `None` at the end of the
    /// source. Tokens come in ascending span order and tile the source.
    pub fn next(&mut self) -> (r: Option<SpannedToken>)
        requires
            old(self).wf(),
        ensures
            final(self).wf(),
            final(self).spec_src() == old(self).spec_src(),
            final(self).spec_pos() <= final(self).spec_src().len(),
            r is Some <==> old(self).spec_pos() < old(self).spec_src().len(),
            r is None ==> *final(self) == *old(self),
            r matches Some(p) ==> {
                &&& (p.0@, p.1) == token_span_at(old(self).spec_src(), old(self).spec_pos())
                &&& final(self).spec_pos() == p.1.end
                &&& final(self).spec_token_span() == p.1
            },
    {
        if self.pos >= self.src.len() {
            return None;
        }
        let (tok, end) = scan_token(self.src, self.pos);
        let span = Span { start: self.pos, end };
        self.token_start = self.pos;
        self.token_end = end;
        self.pos = end;
        Some((tok, span))
    }

    /// The bytes of the most recently produced token.
    pub fn slice(&self) -> (r: &'a [u8])
        requires
            self.wf(),
        ensures
            r@ == self.spec_src().subrange(
                self.spec_token_span().start as int,
                self.spec_token_span().end as int,
            ),
    {
        let s = self.src;
        &s[self.token_start..self.token_end]
    }
}

impl Token {
    /// Starts a lexer at the beginning of `src`.
    pub fn lexer<'a>(src: &'a [u8]) -> (lex: TokenLexer<'a>)
        ensures
            lex.wf(),
            lex.spec_src() == src@,
            lex.spec_pos() == 0,
    {
        TokenLexer { src, pos: 0, token_start: 0, token_end: 0 }
    }
}

/// Tokenizes a whole source: the complete token stream, in source order,
/// whose spans tile the input without gap or overlap.
pub fn tokenize(src: &[u8]) -> (r: Vec<SpannedToken>)
    ensures
        stream_model(r@) == scan_from(src@, 0),
        spans_chained(stream_model(r@), 0, src@.len() as int),
{
    let n = src.len();
    let mut lex = Token::lexer(src);
    let mut out: Vec<SpannedToken> = Vec::new();
    let mut done = false;
    while !done
        invariant
            lex.wf(),
            lex.spec_src() == src@,
            src@.len() == n,
            0 <= lex.spec_pos() <= src@.len(),
            done ==> lex.spec_pos() == src@.len(),
            stream_model(out@) + scan_from(src@, lex.spec_pos()) == scan_from(src@, 0),
        decreases src@.len() - lex.spec_pos() + (if done { 0int } else { 1int }),
    {
        let ghost prev_pos = lex.spec_pos();
        match lex.next() {
            None => {
                done = true;
            },
            Some(p) => {
                let ghost old_out = out@;
                let ghost m = (p.0@, p.1);
                out.push(p);
                proof {
                    assert(m == token_span_at(src@, prev_pos));
                    assert(scan_from(src@, prev_pos) == seq![token_span_at(src@, prev_pos)]
                        + scan_from(src@, prev_pos + token_model_at(src@, prev_pos).1));
                    lemma_token_model_at_len(src@, prev_pos);
                    assert(lex.spec_pos() == prev_pos + token_model_at(src@, prev_pos).1);
                    assert(stream_model(out@) =~= stream_model(old_out).push(m));
                    assert(stream_model(old_out).push(m) + scan_from(src@, lex.spec_pos()) =~=
                        stream_model(old_out) + (seq![m] + scan_from(src@, lex.spec_pos())));
                }
            },
        }
    }
    proof {
        assert(scan_from(src@, src@.len() as int) =~= Seq::<(TokenModel, Span)>::empty());
        assert(stream_model(out@) + Seq::<(TokenModel, Span)>::empty() =~= stream_model(out@));
        lemma_scan_from_chained(src@, 0);
    }
    out
}

} // verus!
