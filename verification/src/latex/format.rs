//! Pretty-formatting LaTeX documents: passes that rewrite a token stream,
//! and the renderer that turns a stream back into bytes.

use crate::latex::highlight::name_document;
use crate::latex::token::{stream_model, SpannedToken, Token, TokenModel};
use crate::scanning::B_SP;
use crate::span::Span;
use vstd::prelude::*;

verus! {

// ---------------------------------------------------------------------------
// Rendering.
// ---------------------------------------------------------------------------

/// True when every non-synthetic token's span lies within a source of
/// `src`'s length, so the stream can be rendered against it.
pub open spec fn spans_valid(src: Seq<u8>, s: Seq<(TokenModel, Span)>) -> bool {
    forall|i: int| 0 <= i < s.len() ==> ((#[trigger] s[i]).0 is OwnedString || (s[i].1.start
        <= s[i].1.end <= src.len()))
}

/// The bytes one stream entry stands for: its own text for an owned-string
/// token, the source slice its span denotes for every other token.
pub open spec fn token_bytes(src: Seq<u8>, p: (TokenModel, Span)) -> Seq<u8> {
    match p.0 {
        TokenModel::OwnedString(text) => text,
        _ => src.subrange(p.1.start as int, p.1.end as int),
    }
}

/// The bytes a spanned-token stream renders to against `src`: each entry's
/// [`token_bytes`], concatenated in order.
pub open spec fn render_model(src: Seq<u8>, s: Seq<(TokenModel, Span)>) -> Seq<u8>
    decreases s.len(),
{
    if s.len() == 0 {
        Seq::empty()
    } else {
        token_bytes(src, s[0]) + render_model(src, s.drop_first())
    }
}

/// Appends the bytes of `src` to `out`.
fn extend_bytes(out: &mut Vec<u8>, src: &[u8])
    ensures
        final(out)@ == old(out)@ + src@,
{
    let mut i: usize = 0;
    while i < src.len()
        invariant
            i <= src@.len(),
            out@ == old(out)@ + src@.subrange(0, i as int),
        decreases src@.len() - i,
    {
        out.push(src[i]);
        i += 1;
        proof {
            assert(out@ =~= old(out)@ + src@.subrange(0, i as int));
        }
    }
    proof {
        assert(out@ =~= old(out)@ + src@);
    }
}

/// Renders a spanned-token stream to bytes against `source`.
pub fn render_tokens(source: &[u8], tokens: &Vec<SpannedToken>) -> (out: Vec<u8>)
    requires
        spans_valid(source@, stream_model(tokens@)),
    ensures
        out@ == render_model(source@, stream_model(tokens@)),
{
    let ghost stream = stream_model(tokens@);
    let mut out: Vec<u8> = Vec::new();
    let mut i: usize = 0;
    proof {
        assert(stream.skip(0) =~= stream);
        assert(Seq::<u8>::empty() + render_model(source@, stream) =~= render_model(
            source@,
            stream,
        ));
    }
    while i < tokens.len()
        invariant
            i <= tokens@.len(),
            stream == stream_model(tokens@),
            spans_valid(source@, stream),
            out@ + render_model(source@, stream.skip(i as int)) == render_model(source@, stream),
        decreases tokens@.len() - i,
    {
        let ghost prev_out = out@;
        proof {
            assert(stream.skip(i as int)[0] == stream[i as int]);
            assert(stream.skip(i as int).drop_first() =~= stream.skip(i as int + 1));
            assert(stream[i as int] == (tokens@[i as int].0@, tokens@[i as int].1));
        }
        let entry = &tokens[i];
        match &entry.0 {
            Token::OwnedString(text) => {
                extend_bytes(&mut out, text.as_slice());
            },
            _ => {
                let sp = entry.1;
                extend_bytes(&mut out, &source[sp.start..sp.end]);
            },
        }
        i += 1;
        proof {
            assert(out@ + render_model(source@, stream.skip(i as int)) =~= prev_out
                + render_model(source@, stream.skip(i as int - 1)));
        }
    }
    proof {
        assert(stream.skip(tokens@.len() as int) =~= Seq::<(TokenModel, Span)>::empty());
        assert(out@ + Seq::<u8>::empty() =~= out@);
    }
    out
}

/// A tiling of the whole source, as a tokenizer produces it, is renderable
/// against that source.
pub proof fn lemma_chained_renderable(src: Seq<u8>, s: Seq<(TokenModel, Span)>)
    requires
        crate::latex::token::spans_chained(s, 0, src.len() as int),
    ensures
        spans_valid(src, s),
{
}

/// The tokens and spans of an annotated stream, the marks dropped.
pub open spec fn annotated_tokens(v: Seq<(bool, SpannedToken)>) -> Seq<(TokenModel, Span)> {
    v.map_values(|q: (bool, SpannedToken)| (q.1.0@, q.1.1))
}

/// Resolves each entry of an annotated stream to its bytes, keeping the
/// mark: the compute half of a colorized write, which leaves a sink nothing
/// but style switching around the marked entries.
pub fn resolve_marked(source: &[u8], items: Vec<(bool, SpannedToken)>) -> (r: Vec<(bool, Vec<u8>)>)
    requires
        spans_valid(source@, annotated_tokens(items@)),
    ensures
        r@.len() == items@.len(),
        forall|i: int| 0 <= i < r@.len() ==> (#[trigger] r@[i]).0 == items@[i].0,
        forall|i: int| 0 <= i < r@.len() ==> (#[trigger] r@[i]).1@ == token_bytes(
            source@,
            annotated_tokens(items@)[i],
        ),
{
    let mut r: Vec<(bool, Vec<u8>)> = Vec::new();
    let mut i: usize = 0;
    while i < items.len()
        invariant
            i <= items@.len(),
            r@.len() == i,
            spans_valid(source@, annotated_tokens(items@)),
            forall|k: int| 0 <= k < i ==> (#[trigger] r@[k]).0 == items@[k].0,
            forall|k: int| 0 <= k < i ==> (#[trigger] r@[k]).1@ == token_bytes(
                source@,
                annotated_tokens(items@)[k],
            ),
        decreases items@.len() - i,
    {
        proof {
            assert(annotated_tokens(items@)[i as int] == (items@[i as int].1.0@,
            items@[i as int].1.1));
        }
        let entry = &items[i];
        let marked = entry.0;
        let mut bytes: Vec<u8> = Vec::new();
        match &entry.1.0 {
            Token::OwnedString(text) => {
                extend_bytes(&mut bytes, text.as_slice());
            },
            _ => {
                let sp = entry.1.1;
                extend_bytes(&mut bytes, &source[sp.start..sp.end]);
            },
        }
        r.push((marked, bytes));
        i += 1;
    }
    r
}

/// A formatter rewrites a token stream and renders what remains of its
/// output to bytes.
pub trait Formatter {
    /// The bytes the formatter's remaining output renders to against `source`.
    spec fn formatted_model(&self, source: Seq<u8>) -> Seq<u8>;

    /// True when the remaining output can be rendered against `source`:
    /// every non-synthetic token's span lies within it.
    spec fn renderable(&self, source: Seq<u8>) -> bool;

    /// Formats the remaining tokens and renders them to bytes: an
    /// owned-string token contributes its own text, every other token the
    /// source slice its span denotes.
    fn write_formatted(&mut self, source: &[u8]) -> (out: Vec<u8>)
        requires
            old(self).renderable(source@),
        ensures
            out@ == old(self).formatted_model(source@),
    ;
}

// ---------------------------------------------------------------------------
// The comment-dropping formatter.
// ---------------------------------------------------------------------------

/// The stream with its comment tokens removed; everything else is kept, in
/// order.
pub open spec fn without_comments(s: Seq<(TokenModel, Span)>) -> Seq<(TokenModel, Span)>
    decreases s.len(),
{
    if s.len() == 0 {
        Seq::empty()
    } else {
        (if s[0].0 is Comment {
            Seq::empty()
        } else {
            seq![s[0]]
        }) + without_comments(s.drop_first())
    }
}

/// Dropping comments keeps renderability: every span of the output is a
/// span of the input.
pub proof fn lemma_without_comments_renderable(src: Seq<u8>, s: Seq<(TokenModel, Span)>)
    requires
        spans_valid(src, s),
    ensures
        spans_valid(src, without_comments(s)),
    decreases s.len(),
{
    if s.len() > 0 {
        let rest = s.drop_first();
        assert(forall|i: int| 0 <= i < rest.len() ==> rest[i] == s[i + 1]);
        lemma_without_comments_renderable(src, rest);
        let r = without_comments(s);
        if s[0].0 is Comment {
            assert(r =~= without_comments(rest));
        } else {
            assert(forall|i: int| 0 < i < r.len() ==> r[i] == without_comments(rest)[i - 1]);
        }
    }
}

/// The pass-through formatter: it drops comment tokens and changes nothing
/// else. Stateless.
pub struct DummyFormatter {
    tokens: Vec<SpannedToken>,
    pos: usize,
}

impl DummyFormatter {
    /// The cursor stays within the stream.
    pub closed spec fn wf(&self) -> bool {
        self.pos <= self.tokens@.len()
    }

    /// The stream being formatted.
    pub closed spec fn spec_stream(&self) -> Seq<(TokenModel, Span)> {
        stream_model(self.tokens@)
    }

    /// The position of the next unconsumed token.
    pub closed spec fn spec_pos(&self) -> int {
        self.pos as int
    }

    /// What remains of the formatter's output.
    pub open spec fn spec_rest(&self) -> Seq<(TokenModel, Span)> {
        without_comments(self.spec_stream().skip(self.spec_pos()))
    }

    /// Creates a comment-dropping formatter over `tokens`.
    pub fn new(tokens: Vec<SpannedToken>) -> (f: DummyFormatter)
        ensures
            f.wf(),
            f.spec_stream() == stream_model(tokens@),
            f.spec_pos() == 0,
    {
        DummyFormatter { tokens, pos: 0 }
    }

    /// Produces the next non-comment token, or `None` when only comments
    /// remain.
    pub fn next(&mut self) -> (r: Option<SpannedToken>)
        requires
            old(self).wf(),
        ensures
            final(self).wf(),
            final(self).spec_stream() == old(self).spec_stream(),
            final(self).spec_pos() >= old(self).spec_pos(),
            r is Some ==> final(self).spec_pos() > old(self).spec_pos(),
            r is None ==> final(self).spec_rest() == Seq::<(TokenModel, Span)>::empty()
                && old(self).spec_rest() == Seq::<(TokenModel, Span)>::empty(),
            r matches Some(p) ==> old(self).spec_rest() == seq![(p.0@, p.1)]
                + final(self).spec_rest(),
    {
        loop
            invariant
                self.wf(),
                self.spec_stream() == old(self).spec_stream(),
                old(self).spec_pos() <= self.spec_pos(),
                self.spec_rest() == old(self).spec_rest(),
            decreases self.spec_stream().len() - self.spec_pos(),
        {
            let ghost stream = self.spec_stream();
            if self.pos >= self.tokens.len() {
                proof {
                    assert(stream.skip(self.spec_pos()) =~= Seq::<(TokenModel, Span)>::empty());
                }
                return None;
            }
            proof {
                assert(stream.skip(self.spec_pos())[0] == stream[self.spec_pos()]);
                assert(stream.skip(self.spec_pos()).drop_first() =~= stream.skip(
                    self.spec_pos() + 1,
                ));
                assert(stream[self.spec_pos()] == (self.tokens@[self.spec_pos()].0@,
                self.tokens@[self.spec_pos()].1));
            }
            let entry = &self.tokens[self.pos];
            let is_comment = match &entry.0 {
                Token::Comment => true,
                _ => false,
            };
            if is_comment {
                self.pos = self.pos + 1;
            } else {
                let t = entry.0.dup();
                let sp = entry.1;
                self.pos = self.pos + 1;
                return Some((t, sp));
            }
        }
    }

    /// Formats the remaining tokens: the stream with its comments dropped.
    pub fn format_all(&mut self) -> (r: Vec<SpannedToken>)
        requires
            old(self).wf(),
        ensures
            final(self).wf(),
            final(self).spec_stream() == old(self).spec_stream(),
            stream_model(r@) == old(self).spec_rest(),
            final(self).spec_rest() == Seq::<(TokenModel, Span)>::empty(),
    {
        let ghost whole = self.spec_rest();
        let mut out: Vec<SpannedToken> = Vec::new();
        let mut done = false;
        while !done
            invariant
                self.wf(),
                self.spec_stream() == old(self).spec_stream(),
                done ==> self.spec_rest() == Seq::<(TokenModel, Span)>::empty(),
                stream_model(out@) + self.spec_rest() == whole,
            decreases (old(self).spec_stream().len() - self.spec_pos()) + (if done {
                0int
            } else {
                1int
            }),
        {
            let ghost prev_rest = self.spec_rest();
            match self.next() {
                None => {
                    done = true;
                },
                Some(p) => {
                    let ghost old_out = out@;
                    let ghost m = (p.0@, p.1);
                    out.push(p);
                    proof {
                        assert(stream_model(out@) =~= stream_model(old_out).push(m));
                        assert(stream_model(old_out).push(m) + self.spec_rest() =~= stream_model(
                            old_out,
                        ) + (seq![m] + self.spec_rest()));
                    }
                },
            }
        }
        proof {
            assert(stream_model(out@) + Seq::<(TokenModel, Span)>::empty() =~= stream_model(out@));
        }
        out
    }
}

impl Formatter for DummyFormatter {
    open spec fn formatted_model(&self, source: Seq<u8>) -> Seq<u8> {
        render_model(source, self.spec_rest())
    }

    open spec fn renderable(&self, source: Seq<u8>) -> bool {
        self.wf() && spans_valid(source, self.spec_rest())
    }

    fn write_formatted(&mut self, source: &[u8]) -> (out: Vec<u8>) {
        let toks = self.format_all();
        render_tokens(source, &toks)
    }
}

// ---------------------------------------------------------------------------
// The auto-indent formatter.
// ---------------------------------------------------------------------------

/// The auto-indent machine's state.
pub ghost struct IndentState {
    /// Whether `\begin{document}` has been seen.
    pub inside_document: bool,
    /// The nesting level: how many two-space units a fresh line receives.
    pub level: nat,
    /// Whether the current line has already received its indentation.
    pub is_indented: bool,
}

/// The synthetic indentation for `level` nesting units: `level` copies of a
/// two-space unit.
pub open spec fn indent_text(level: nat) -> Seq<u8> {
    Seq::new(2 * level, |i: int| B_SP)
}

/// What the machine does to its state on peeking `t` before a line is
/// indented or a token emitted: `\begin{document}` makes the state
/// inside-document; an environment end, peeked at the start of a line inside
/// the document, lowers the level once. The level never goes below zero: an
/// unmatched end in an unbalanced document leaves it at zero.
pub open spec fn indent_pre(st: IndentState, t: TokenModel) -> IndentState {
    match t {
        TokenModel::EnvironmentBegin(n) => if n == name_document() {
            IndentState { inside_document: true, ..st }
        } else {
            st
        },
        TokenModel::EnvironmentEnd(_) => if !st.is_indented && st.inside_document {
            IndentState {
                level: if st.level > 0 {
                    (st.level - 1) as nat
                } else {
                    0
                },
                ..st
            }
        } else {
            st
        },
        _ => st,
    }
}

/// What the machine does to its state right before emitting a token on an
/// already indented line: an environment begin inside the document raises
/// the level; a newline opens a fresh line.
pub open spec fn indent_post(st: IndentState, t: TokenModel) -> IndentState {
    match t {
        TokenModel::EnvironmentBegin(_) => if st.inside_document {
            IndentState { level: st.level + 1, ..st }
        } else {
            st
        },
        TokenModel::Newline => IndentState { is_indented: false, ..st },
        _ => st,
    }
}

/// The auto-indent machine's output for the remaining input `toks` in state
/// `st`: at the start of each line the pending run of tabs and spaces is
/// dropped and one synthetic owned-string token with the line's indentation
/// is emitted (its span is the placeholder `[0, 1)`); every other token
/// passes through unchanged.
pub open spec fn indent_run(toks: Seq<(TokenModel, Span)>, st: IndentState) -> Seq<
    (TokenModel, Span),
>
    decreases toks.len(), (if st.is_indented {
        0int
    } else {
        1int
    }),
{
    if toks.len() == 0 {
        if !st.is_indented {
            seq![(TokenModel::OwnedString(indent_text(st.level)), Span { start: 0, end: 1 })]
        } else {
            Seq::empty()
        }
    } else {
        let t = toks[0].0;
        let st1 = indent_pre(st, t);
        if !st1.is_indented {
            if t is TabsOrSpaces {
                indent_run(toks.drop_first(), st1)
            } else {
                seq![(TokenModel::OwnedString(indent_text(st1.level)), Span { start: 0, end: 1 })]
                    + indent_run(toks, IndentState { is_indented: true, ..st1 })
            }
        } else {
            let st2 = indent_post(st1, t);
            seq![toks[0]] + indent_run(toks.drop_first(), st2)
        }
    }
}

/// Auto-indenting keeps renderability: the pass emits only synthetic
/// owned-string tokens and tokens of its input.
pub proof fn lemma_indent_run_renderable(
    src: Seq<u8>,
    toks: Seq<(TokenModel, Span)>,
    st: IndentState,
)
    requires
        spans_valid(src, toks),
    ensures
        spans_valid(src, indent_run(toks, st)),
    decreases toks.len(), (if st.is_indented {
        0int
    } else {
        1int
    }),
{
    let r = indent_run(toks, st);
    if toks.len() == 0 {
    } else {
        let t = toks[0].0;
        let st1 = indent_pre(st, t);
        let rest = toks.drop_first();
        assert(forall|i: int| 0 <= i < rest.len() ==> rest[i] == toks[i + 1]);
        if !st1.is_indented {
            if t is TabsOrSpaces {
                lemma_indent_run_renderable(src, rest, st1);
            } else {
                let st2 = IndentState { is_indented: true, ..st1 };
                lemma_indent_run_renderable(src, toks, st2);
                assert(forall|i: int| 0 < i < r.len() ==> r[i] == indent_run(toks, st2)[i - 1]);
            }
        } else {
            let st2 = indent_post(st1, t);
            lemma_indent_run_renderable(src, rest, st2);
            assert(forall|i: int| 0 < i < r.len() ==> r[i] == indent_run(rest, st2)[i - 1]);
        }
    }
}

/// Builds the indentation text for `level` nesting units.
fn make_indent(level: usize) -> (r: Vec<u8>)
    ensures
        r@ == indent_text(level as nat),
{
    let mut r: Vec<u8> = Vec::new();
    let mut j: usize = 0;
    while j < level
        invariant
            j <= level,
            r@.len() == 2 * j,
            forall|k: int| 0 <= k < r@.len() ==> r@[k] == B_SP,
        decreases level - j,
    {
        r.push(B_SP);
        r.push(B_SP);
        j += 1;
    }
    proof {
        assert(r@ =~= indent_text(level as nat));
    }
    r
}

/// Rewrites the leading whitespace of each line to two spaces per nesting
/// level, counted from `\begin{document}` on.
pub struct AutoIndentFormatter {
    tokens: Vec<SpannedToken>,
    pos: usize,
    inside_document: bool,
    target_indentation_level: usize,
    is_indented: bool,
}

impl AutoIndentFormatter {
    /// The cursor stays within the stream, and the level never exceeds the
    /// number of consumed tokens.
    pub closed spec fn wf(&self) -> bool {
        self.target_indentation_level <= self.pos <= self.tokens@.len()
    }

    /// The stream being formatted.
    pub closed spec fn spec_stream(&self) -> Seq<(TokenModel, Span)> {
        stream_model(self.tokens@)
    }

    /// The position of the next unconsumed token.
    pub closed spec fn spec_pos(&self) -> int {
        self.pos as int
    }

    /// The machine's state.
    pub closed spec fn spec_state(&self) -> IndentState {
        IndentState {
            inside_document: self.inside_document,
            level: self.target_indentation_level as nat,
            is_indented: self.is_indented,
        }
    }

    /// What remains of the formatter's output.
    pub open spec fn spec_rest(&self) -> Seq<(TokenModel, Span)> {
        indent_run(self.spec_stream().skip(self.spec_pos()), self.spec_state())
    }

    /// How much output can still come: zero exactly when the stream is done
    /// and the last line has its indentation.
    pub open spec fn spec_measure(&self) -> int {
        2 * (self.spec_stream().len() - self.spec_pos()) + (if self.spec_state().is_indented {
            0int
        } else {
            1int
        })
    }

    /// Creates an auto-indent formatter at the start of a fresh line,
    /// outside the document, at level zero.
    pub fn new(tokens: Vec<SpannedToken>) -> (f: AutoIndentFormatter)
        ensures
            f.wf(),
            f.spec_stream() == stream_model(tokens@),
            f.spec_pos() == 0,
            f.spec_state() == (IndentState { inside_document: false, level: 0, is_indented: false }),
    {
        AutoIndentFormatter {
            tokens,
            pos: 0,
            inside_document: false,
            target_indentation_level: 0,
            is_indented: false,
        }
    }

    /// Produces the next output token: the synthetic indentation at the
    /// start of a line, or the next surviving input token.
    pub fn next(&mut self) -> (r: Option<SpannedToken>)
        requires
            old(self).wf(),
        ensures
            final(self).wf(),
            final(self).spec_stream() == old(self).spec_stream(),
            r is Some ==> final(self).spec_measure() < old(self).spec_measure(),
            r is None <==> old(self).spec_measure() == 0,
            r is None ==> *final(self) == *old(self),
            r matches Some(p) ==> old(self).spec_rest() == seq![(p.0@, p.1)]
                + final(self).spec_rest(),
    {
        loop
            invariant
                self.wf(),
                self.spec_stream() == old(self).spec_stream(),
                old(self).spec_pos() <= self.spec_pos(),
                self.spec_rest() == old(self).spec_rest(),
                self.spec_measure() <= old(self).spec_measure(),
                self.spec_state().is_indented == old(self).spec_state().is_indented,
                self.spec_state().is_indented ==> *self == *old(self),
            decreases self.spec_stream().len() - self.spec_pos(),
        {
            let ghost stream = self.spec_stream();
            let ghost st = self.spec_state();
            let ghost suffix = stream.skip(self.spec_pos());
            if self.pos >= self.tokens.len() {
                proof {
                    assert(suffix =~= Seq::<(TokenModel, Span)>::empty());
                }
                if !self.is_indented {
                    self.is_indented = true;
                    let text = make_indent(self.target_indentation_level);
                    return Some((Token::OwnedString(text), Span { start: 0, end: 1 }));
                }
                return None;
            }
            proof {
                assert(suffix[0] == stream[self.spec_pos()]);
                assert(suffix.drop_first() =~= stream.skip(self.spec_pos() + 1));
                assert(stream[self.spec_pos()] == (self.tokens@[self.spec_pos()].0@,
                self.tokens@[self.spec_pos()].1));
            }
            // The look ahead of one token, and what it does to the state
            // before anything is emitted.
            let peek_is_tabs: bool;
            {
                let entry = &self.tokens[self.pos];
                match &entry.0 {
                    Token::EnvironmentBegin(n) => {
                        if crate::latex::highlight::is_document_name(n) {
                            self.inside_document = true;
                        }
                    },
                    Token::EnvironmentEnd(_) => {
                        if !self.is_indented && self.inside_document {
                            if self.target_indentation_level > 0 {
                                self.target_indentation_level = self.target_indentation_level - 1;
                            }
                        }
                    },
                    _ => {},
                }
                peek_is_tabs = match &entry.0 {
                    Token::TabsOrSpaces => true,
                    _ => false,
                };
            }
            proof {
                assert(self.spec_state() == indent_pre(st, suffix[0].0));
            }
            if !self.is_indented {
                if peek_is_tabs {
                    // A pending run of tabs and spaces at the start of a
                    // line is consumed, not emitted.
                    self.pos = self.pos + 1;
                    continue ;
                }
                self.is_indented = true;
                let text = make_indent(self.target_indentation_level);
                return Some((Token::OwnedString(text), Span { start: 0, end: 1 }));
            }
            // The line already carries its indentation: emit the token, and
            // let an environment begin inside the document deepen the
            // nesting, a newline open a fresh line.
            let entry = &self.tokens[self.pos];
            let t = entry.0.dup();
            let sp = entry.1;
            match &entry.0 {
                Token::EnvironmentBegin(_) => {
                    if self.inside_document {
                        self.target_indentation_level = self.target_indentation_level + 1;
                    }
                },
                Token::Newline => {
                    self.is_indented = false;
                },
                _ => {},
            }
            self.pos = self.pos + 1;
            return Some((t, sp));
        }
    }

    /// Formats the remaining tokens: the auto-indent machine's whole output.
    pub fn format_all(&mut self) -> (r: Vec<SpannedToken>)
        requires
            old(self).wf(),
        ensures
            final(self).wf(),
            final(self).spec_stream() == old(self).spec_stream(),
            stream_model(r@) == old(self).spec_rest(),
            final(self).spec_rest() == Seq::<(TokenModel, Span)>::empty(),
    {
        let ghost whole = self.spec_rest();
        let mut out: Vec<SpannedToken> = Vec::new();
        let mut done = false;
        while !done
            invariant
                self.wf(),
                self.spec_stream() == old(self).spec_stream(),
                0 <= self.spec_measure(),
                done ==> self.spec_rest() == Seq::<(TokenModel, Span)>::empty(),
                stream_model(out@) + self.spec_rest() == whole,
            decreases self.spec_measure() + (if done {
                0int
            } else {
                1int
            }),
        {
            match self.next() {
                None => {
                    proof {
                        assert(self.spec_stream().skip(self.spec_pos())
                            =~= Seq::<(TokenModel, Span)>::empty());
                    }
                    done = true;
                },
                Some(p) => {
                    let ghost old_out = out@;
                    let ghost m = (p.0@, p.1);
                    out.push(p);
                    proof {
                        assert(stream_model(out@) =~= stream_model(old_out).push(m));
                        assert(stream_model(old_out).push(m) + self.spec_rest() =~= stream_model(
                            old_out,
                        ) + (seq![m] + self.spec_rest()));
                    }
                },
            }
        }
        proof {
            assert(stream_model(out@) + Seq::<(TokenModel, Span)>::empty() =~= stream_model(out@));
        }
        out
    }
}

impl Formatter for AutoIndentFormatter {
    open spec fn formatted_model(&self, source: Seq<u8>) -> Seq<u8> {
        render_model(source, self.spec_rest())
    }

    open spec fn renderable(&self, source: Seq<u8>) -> bool {
        self.wf() && spans_valid(source, self.spec_rest())
    }

    fn write_formatted(&mut self, source: &[u8]) -> (out: Vec<u8>) {
        let toks = self.format_all();
        render_tokens(source, &toks)
    }
}

} // verus!
