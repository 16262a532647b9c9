//! A minimal recogniser for the overall shape of a LaTeX document.
//!
//! A full LaTeX grammar is a non-goal. The one accepted shape is: whitespace
//! and comments, `\documentclass`, a preamble up to the first `\begin`,
//! which must read `\begin{document}`, a body up to the first `\end`, and
//! then nothing but whitespace and comments. [`matches_document_shape`]
//! decides that shape for any stream; [`LaTeXDocument::try_from_tokens`]
//! accepts exactly the streams that have it, every other input being left
//! out by its precondition.

use crate::error::Error;
use crate::latex::highlight::name_document;
use crate::scanning::{spells, spells_at};
use crate::span::Span;
use crate::token::Token;
use vstd::pervasive::unreached;
use vstd::prelude::*;

verus! {

/// True for the tokens the recogniser passes over between significant ones.
pub open spec fn is_skippable(t: Token) -> bool {
    t is Comment || t is Newline || t is TabsOrSpaces
}

/// Tests [`is_skippable`].
fn skippable(t: &Token) -> (r: bool)
    ensures
        r == is_skippable(*t),
{
    match t {
        Token::Comment => true,
        Token::Newline => true,
        Token::TabsOrSpaces => true,
        _ => false,
    }
}

/// Tests for an environment begin.
fn env_begin(t: &Token) -> (r: bool)
    ensures
        r == (*t is EnvironmentBegin),
{
    match t {
        Token::EnvironmentBegin => true,
        _ => false,
    }
}

/// Tests for an environment end.
fn env_end(t: &Token) -> (r: bool)
    ensures
        r == (*t is EnvironmentEnd),
{
    match t {
        Token::EnvironmentEnd => true,
        _ => false,
    }
}

/// The first index at or after `from` whose token is significant, or the
/// length when none is.
pub open spec fn first_significant(toks: Seq<(Token, Span)>, from: int) -> int
    decreases toks.len() - from,
{
    if from < 0 || from >= toks.len() {
        toks.len() as int
    } else if is_skippable(toks[from].0) {
        first_significant(toks, from + 1)
    } else {
        from
    }
}

/// The first index at or after `from` holding an environment begin, or the
/// length when none is.
pub open spec fn first_env_begin(toks: Seq<(Token, Span)>, from: int) -> int
    decreases toks.len() - from,
{
    if from < 0 || from >= toks.len() {
        toks.len() as int
    } else if toks[from].0 is EnvironmentBegin {
        from
    } else {
        first_env_begin(toks, from + 1)
    }
}

/// The first index at or after `from` holding an environment end, or the
/// length when none is.
pub open spec fn first_env_end(toks: Seq<(Token, Span)>, from: int) -> int
    decreases toks.len() - from,
{
    if from < 0 || from >= toks.len() {
        toks.len() as int
    } else if toks[from].0 is EnvironmentEnd {
        from
    } else {
        first_env_end(toks, from + 1)
    }
}

/// The shape the recogniser accepts. With `i0` the first significant index,
/// `j` the first `\begin` after it and `k` the first `\end` after the
/// begin's braced name: the token at `i0` is `\documentclass`; `\begin` is
/// followed directly by `{`, a word spelling `document` in the source, and
/// `}`; the `\end` exists; and nothing significant follows it.
pub open spec fn latex_document_shape(src: Seq<u8>, toks: Seq<(Token, Span)>) -> bool {
    let i0 = first_significant(toks, 0);
    let j = first_env_begin(toks, i0 + 1);
    let k = first_env_end(toks, j + 4);
    &&& i0 < toks.len()
    &&& toks[i0].0 is DocumentClass
    &&& j + 3 < toks.len()
    &&& toks[j + 1].0 is BraceOpen
    &&& toks[j + 2].0 is Word
    &&& spells(src, toks[j + 2].1.start as int, toks[j + 2].1.end as int, name_document())
    &&& toks[j + 3].0 is BraceClose
    &&& k < toks.len()
    &&& forall|m: int| k < m < toks.len() ==> is_skippable((#[trigger] toks[m]).0)
}

/// The preamble part of a recognised document; it carries no data of its
/// own.
pub struct Preamble {}

/// The body part of a recognised document; it carries no data of its own.
pub struct Document {}

/// A whole recognised LaTeX document: a preamble and a body.
pub struct LaTeXDocument {
    preamble: Preamble,
    document: Document,
}

/// Walks a tokenized source and decides whether it has the accepted
/// document shape.
pub fn matches_document_shape(src: &[u8], tokens: &Vec<(Token, Span)>) -> (r: bool)
    ensures
    r == latex_document_shape(src@, tokens@),
{
    let n = tokens.len();
    let ghost i0 = first_significant(tokens@, 0);
    // Leading whitespace and comments, then `\documentclass`.
    let mut i: usize = 0;
    while i < n && skippable(&tokens[i].0)
        invariant
            i <= n,
            n == tokens@.len(),
            first_significant(tokens@, 0) == first_significant(tokens@, i as int),
        decreases n - i,
    {
        i += 1;
    }
    proof {
        assert(i0 == i);
    }
    if i >= n {
        return false;
    }
    let is_documentclass = match &tokens[i].0 {
        Token::DocumentClass => true,
        _ => false,
    };
    if !is_documentclass {
        return false;
    }
    // The preamble: everything up to the first `\begin`.
    let ghost jj = first_env_begin(tokens@, i0 + 1);
    let mut j: usize = i + 1;
    while j < n && !env_begin(&tokens[j].0)
        invariant
            i + 1 <= j <= n,
            n == tokens@.len(),
            first_env_begin(tokens@, i as int + 1) == first_env_begin(tokens@, j as int),
        decreases n - j,
    {
        j += 1;
    }
    proof {
        assert(jj == j);
    }
    // `\begin` must read `\begin{document}`: three more tokens at least.
    if n - j <= 3 {
        return false;
    }
    let braces_ok = match (&tokens[j + 1].0, &tokens[j + 3].0) {
        (Token::BraceOpen, Token::BraceClose) => true,
        _ => false,
    };
    let is_word = match &tokens[j + 2].0 {
        Token::Word => true,
        _ => false,
    };
    if !braces_ok || !is_word {
        return false;
    }
    let word_span = tokens[j + 2].1;
    if word_span.start > word_span.end || word_span.end > src.len() {
        return false;
    }
    let doc: [u8; 8] = [100, 111, 99, 117, 109, 101, 110, 116];
    proof {
        assert(doc@ =~= name_document());
    }
    if !spells_at(src, word_span.start, word_span.end, doc.as_slice()) {
        return false;
    }
    // The body: everything up to the first `\end`.
    let ghost kk = first_env_end(tokens@, jj + 4);
    let mut k: usize = j + 4;
    while k < n && !env_end(&tokens[k].0)
        invariant
            j + 4 <= k <= n,
            n == tokens@.len(),
            first_env_end(tokens@, j as int + 4) == first_env_end(tokens@, k as int),
        decreases n - k,
    {
        k += 1;
    }
    proof {
        assert(kk == k);
    }
    if k >= n {
        return false;
    }
    // Nothing significant may follow the `\end`.
    let mut m: usize = k + 1;
    while m < n
        invariant
            k < n == tokens@.len(),
            k + 1 <= m <= n,
            k as int == first_env_end(
                tokens@,
                first_env_begin(tokens@, first_significant(tokens@, 0) + 1) + 4,
            ),
            forall|q: int| k < q < m ==> is_skippable((#[trigger] tokens@[q]).0),
        decreases n - m,
    {
        if !skippable(&tokens[m].0) {
            return false;
        }
        m += 1;
    }
    true
}

impl LaTeXDocument {
    /// Accepts a tokenized source as a LaTeX document. The precondition
    /// holds exactly the accepted shape, so acceptance cannot fail: the
    /// rejecting branch is proved unreachable.
    pub fn try_from_tokens(src: &[u8], tokens: &Vec<(Token, Span)>) -> (r: Result<
        LaTeXDocument,
        Error,
    >)
        requires
            latex_document_shape(src@, tokens@),
        ensures
            r is Ok,
    {
        if matches_document_shape(src, tokens) {
            Ok(LaTeXDocument { preamble: Preamble {  }, document: Document {  } })
        } else {
            unreached()
        }
    }
}

} // verus!
