//! Lexers over TeX sources: pull-based producers of [`Token`]s.

use crate::span::Span;
use crate::token::{scan_token, token_at, Token};
use vstd::prelude::*;
use vstd::string::StringExecFns;

verus! {

/// A proper TeX lexer: beside its tokens it exposes the bytes of the current
/// token, the line it stands on, and the name of the file being lexed.
pub trait Lexer {
    /// The bytes [`Lexer::slice`] returns.
    spec fn spec_slice(&self) -> Seq<u8>;

    /// The line count [`Lexer::lineno`] returns.
    spec fn spec_lineno(&self) -> int;


    /// The filename [`Lexer::filename`] returns, as characters.
    spec fn spec_filename(&self) -> Option<Seq<char>>;

    /// The bytes of the most recently produced token.
    fn slice(&self) -> (r: &[u8])
        ensures
            r@ == self.spec_slice(),
    ;

    /// The line the lexer stands on, counted in newline tokens produced.
    fn lineno(&self) -> (r: usize)
        ensures
            r == self.spec_lineno(),
    ;

    /// The name of the file being lexed, if one is known.
    fn filename(&self) -> (r: Option<&str>)
        ensures
            r is Some <==> self.spec_filename() is Some,
            r matches Some(f) ==> self.spec_filename() == Some(f@),
    ;
}

/// The character of one decimal digit.
pub open spec fn digit_char(d: int) -> char {
    ((48 + d) as u8) as char
}

/// The decimal digits of `n`, most significant first.
pub open spec fn decimal_chars(n: int) -> Seq<char>
    recommends
        n >= 0,
    decreases n,
{
    if n <= 9 {
        seq![digit_char(n)]
    } else {
        decimal_chars(n / 10).push(digit_char(n % 10))
    }
}

/// Appends one decimal digit to `s`.
fn append_digit(s: &mut String, d: usize)
    requires
        d <= 9,
    ensures
        final(s)@ == old(s)@ + seq![digit_char(d as int)],
{
    if d == 0 {
        proof {
            reveal_strlit("0");
            assert("0"@ =~= seq![digit_char(0)]);
        }
        s.append("0");
    } else if d == 1 {
        proof {
            reveal_strlit("1");
            assert("1"@ =~= seq![digit_char(1)]);
        }
        s.append("1");
    } else if d == 2 {
        proof {
            reveal_strlit("2");
            assert("2"@ =~= seq![digit_char(2)]);
        }
        s.append("2");
    } else if d == 3 {
        proof {
            reveal_strlit("3");
            assert("3"@ =~= seq![digit_char(3)]);
        }
        s.append("3");
    } else if d == 4 {
        proof {
            reveal_strlit("4");
            assert("4"@ =~= seq![digit_char(4)]);
        }
        s.append("4");
    } else if d == 5 {
        proof {
            reveal_strlit("5");
            assert("5"@ =~= seq![digit_char(5)]);
        }
        s.append("5");
    } else if d == 6 {
        proof {
            reveal_strlit("6");
            assert("6"@ =~= seq![digit_char(6)]);
        }
        s.append("6");
    } else if d == 7 {
        proof {
            reveal_strlit("7");
            assert("7"@ =~= seq![digit_char(7)]);
        }
        s.append("7");
    } else if d == 8 {
        proof {
            reveal_strlit("8");
            assert("8"@ =~= seq![digit_char(8)]);
        }
        s.append("8");
    } else {
        proof {
            reveal_strlit("9");
            assert("9"@ =~= seq![digit_char(9)]);
        }
        s.append("9");
    }
}

/// Appends the decimal form of `n` to `s`.
fn append_decimal(s: &mut String, n: usize)
    ensures
        final(s)@ == old(s)@ + decimal_chars(n as int),
    decreases n,
{
    if n <= 9 {
        append_digit(s, n);
    } else {
        append_decimal(s, n / 10);
        append_digit(s, n % 10);
        proof {
            assert(old(s)@ + decimal_chars(n as int) =~= (old(s)@ + decimal_chars(
                n as int / 10,
            )) + seq![digit_char(n as int % 10)]);
        }
    }
}

/// The slice information of a lexer: the filename and the line it stands on,
/// joined by a colon; nothing when no filename is known.
pub fn slice_info<L: Lexer>(lexer: &L) -> (r: Option<String>)
    ensures
        r is Some <==> lexer.spec_filename() is Some,
        r matches Some(s) ==> lexer.spec_filename() matches Some(f) && s@ == f + seq![':']
            + decimal_chars(lexer.spec_lineno()),
{
    match lexer.filename() {
        Some(f) => {
            let mut s = String::new();
            s.append(f);
            proof {
                reveal_strlit(":");
                assert(":"@ =~= seq![':']);
            }
            s.append(":");
            let n = lexer.lineno();
            append_decimal(&mut s, n);
            Some(s)
        },
        None => None,
    }
}

/// A lexer that holds exactly one token, handed out once.
pub struct OneTokenLexer<'a> {
    source: &'a [u8],
    token: Token,
    has_iterated: bool,
}

impl<'a> OneTokenLexer<'a> {
    /// The bytes the lexer stands for.
    pub closed spec fn spec_source(&self) -> Seq<u8> {
        self.source@
    }

    /// The one token the lexer hands out.
    pub closed spec fn spec_token(&self) -> Token {
        self.token
    }

    /// Whether the token has been handed out already.
    pub closed spec fn spec_done(&self) -> bool {
        self.has_iterated
    }

    /// Creates a one-token lexer from a source and the token it stands for.
    pub fn new(source: &'a [u8], token: Token) -> (lex: OneTokenLexer<'a>)
        ensures
            lex.spec_source() == source@,
            lex.spec_token() == token,
            !lex.spec_done(),
            lex.spec_slice() == source@,
            lex.spec_lineno() == 0,
            lex.spec_filename() is None,
    {
        OneTokenLexer { source, token, has_iterated: false }
    }

    /// Produces the token on the first call, `None` on every later one.
    pub fn next(&mut self) -> (r: Option<Token>)
        ensures
            final(self).spec_source() == old(self).spec_source(),
            final(self).spec_token() == old(self).spec_token(),
            final(self).spec_done(),
            final(self).spec_slice() == old(self).spec_slice(),
            final(self).spec_lineno() == old(self).spec_lineno(),
            final(self).spec_filename() == old(self).spec_filename(),
            r == (if old(self).spec_done() {
                None::<Token>
            } else {
                Some(old(self).spec_token())
            }),
    {
        if self.has_iterated {
            None
        } else {
            self.has_iterated = true;
            Some(self.token)
        }
    }
}

impl<'a> Lexer for OneTokenLexer<'a> {
    closed spec fn spec_slice(&self) -> Seq<u8> {
        self.source@
    }

    closed spec fn spec_lineno(&self) -> int {
        0
    }

    closed spec fn spec_filename(&self) -> Option<Seq<char>> {
        None
    }

    fn slice(&self) -> (r: &[u8]) {
        self.source
    }

    fn lineno(&self) -> (r: usize) {
        0
    }

    fn filename(&self) -> (r: Option<&str>) {
        None
    }
}

/// A lexer that scans a source buffer into TeX tokens, one per call.
pub struct BasicLexer<'a> {
    source: &'a [u8],
    pos: usize,
    token_start: usize,
    token_end: usize,
    lineno: usize,
    filename: Option<&'a str>,
}

impl<'a> BasicLexer<'a> {
    /// The cursor and the remembered span of the last token stay within the
    /// source.
    pub closed spec fn wf(&self) -> bool {
        &&& self.token_start <= self.token_end <= self.source@.len()
        &&& self.pos <= self.source@.len()
        &&& self.lineno <= self.pos
    }

    /// The bytes the lexer scans.
    pub closed spec fn spec_source(&self) -> Seq<u8> {
        self.source@
    }

    /// The position of the next unscanned byte.
    pub closed spec fn spec_pos(&self) -> int {
        self.pos as int
    }

    /// The span of the most recently produced token; the whole source before
    /// the first call.
    pub closed spec fn spec_token_span(&self) -> Span {
        Span { start: self.token_start, end: self.token_end }
    }

    /// Creates a lexer at the beginning of `source`.
    pub fn new(source: &'a [u8], filename: Option<&'a str>) -> (lex: BasicLexer<'a>)
        ensures
            lex.wf(),
            lex.spec_source() == source@,
            lex.spec_pos() == 0,
            lex.spec_lineno() == 0,
            lex.spec_slice() == source@,
            filename matches Some(f) ==> lex.spec_filename() == Some(f@),
            filename is None ==> lex.spec_filename() is None,
    {
        let lex = BasicLexer {
            source,
            pos: 0,
            token_start: 0,
            token_end: source.len(),
            lineno: 0,
            filename,
        };
        proof {
            assert(source@.subrange(0, source@.len() as int) =~= source@);
        }
        lex
    }

    /// Produces the next token, or `None` at the end of the source. Each
    /// token is the one [`token_at`] classifies at the cursor; a newline
    /// token advances the line count.
    pub fn next(&mut self) -> (r: Option<Token>)
        requires
            old(self).wf(),
        ensures
            final(self).wf(),
            final(self).spec_source() == old(self).spec_source(),
            r is Some <==> old(self).spec_pos() < old(self).spec_source().len(),
            r is None ==> *final(self) == *old(self),
            r matches Some(t) ==> {
                &&& t == token_at(old(self).spec_source(), old(self).spec_pos()).0
                &&& final(self).spec_pos() == old(self).spec_pos() + token_at(
                    old(self).spec_source(),
                    old(self).spec_pos(),
                ).1
                &&& final(self).spec_token_span() == (Span {
                    start: old(self).spec_pos() as usize,
                    end: final(self).spec_pos() as usize,
                })
                &&& final(self).spec_lineno() == old(self).spec_lineno() + (if t is Newline {
                    1int
                } else {
                    0int
                })
                &&& final(self).spec_slice() == old(self).spec_source().subrange(
                    old(self).spec_pos(),
                    final(self).spec_pos(),
                )
            },
            final(self).spec_filename() == old(self).spec_filename(),
    {
        if self.pos >= self.source.len() {
            return None;
        }
        let (t, end) = scan_token(self.source, self.pos);
        self.token_start = self.pos;
        self.token_end = end;
        self.pos = end;
        let is_newline = match t {
            Token::Newline => true,
            _ => false,
        };
        if is_newline {
            self.lineno = self.lineno + 1;
        }
        Some(t)
    }
}

impl<'a> Lexer for BasicLexer<'a> {
    closed spec fn spec_slice(&self) -> Seq<u8> {
        if self.token_start <= self.token_end <= self.source@.len() {
            self.source@.subrange(self.token_start as int, self.token_end as int)
        } else {
            self.source@
        }
    }

    closed spec fn spec_lineno(&self) -> int {
        self.lineno as int
    }

    closed spec fn spec_filename(&self) -> Option<Seq<char>> {
        match self.filename {
            Some(f) => Some(f@),
            None => None,
        }
    }

    fn slice(&self) -> (r: &[u8]) {
        let s = self.source;
        if self.token_start <= self.token_end && self.token_end <= s.len() {
            &s[self.token_start..self.token_end]
        } else {
            s
        }
    }

    fn lineno(&self) -> (r: usize) {
        self.lineno
    }

    fn filename(&self) -> (r: Option<&str>) {
        self.filename
    }
}

} // verus!
