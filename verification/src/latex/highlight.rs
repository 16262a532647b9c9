//! Highlighting parts of LaTeX documents.
//!
//! Each highlighter walks a token stream once and annotates every token with
//! a boolean: the annotation pass adds, removes and reorders nothing (see the
//! ensures of each `highlight_all`). The math-family machines track one
//! pending closing token; the preamble and document machines a single flag;
//! the single-kind highlighter is memoryless.

use crate::latex::token::{
    clone_bytes, model_discriminant, stream_model, SpannedToken, Token, TokenDiscriminants,
    TokenModel,
};
use crate::scanning::{spells, spells_at, B_STAR};
use crate::span::Span;
use vstd::prelude::*;

verus! {

/// The letters of `document`.
pub open spec fn name_document() -> Seq<u8> {
    seq![100u8, 111u8, 99u8, 117u8, 109u8, 101u8, 110u8, 116u8]
}

/// The letters of `equation`.
pub open spec fn name_equation() -> Seq<u8> {
    seq![101u8, 113u8, 117u8, 97u8, 116u8, 105u8, 111u8, 110u8]
}

/// The letters of `align`.
pub open spec fn name_align() -> Seq<u8> {
    seq![97u8, 108u8, 105u8, 103u8, 110u8]
}

/// The environment names whose contents are mathematics: `equation`,
/// `equation*`, `align` and `align*`.
pub open spec fn is_math_env_name(n: Seq<u8>) -> bool {
    ||| n == name_equation()
    ||| n == name_equation().push(B_STAR)
    ||| n == name_align()
    ||| n == name_align().push(B_STAR)
}

/// Compares the contents of a byte vector against `kw`.
fn vec_spells(n: &Vec<u8>, kw: &[u8]) -> (r: bool)
    ensures
        r == (n@ == kw@),
{
    let r = spells_at(n.as_slice(), 0, n.len(), kw);
    proof {
        if spells(n@, 0, n@.len() as int, kw@) {
            assert(n@ =~= kw@);
        }
        if n@ == kw@ {
            assert(spells(n@, 0, n@.len() as int, kw@));
        }
    }
    r
}

/// Tests whether `n` is one of the four math environment names.
fn is_math_env(n: &Vec<u8>) -> (r: bool)
    ensures
        r == is_math_env_name(n@),
{
    let eq: [u8; 8] = [101, 113, 117, 97, 116, 105, 111, 110];
    let eqs: [u8; 9] = [101, 113, 117, 97, 116, 105, 111, 110, 42];
    let al: [u8; 5] = [97, 108, 105, 103, 110];
    let als: [u8; 6] = [97, 108, 105, 103, 110, 42];
    proof {
        assert(eq@ =~= name_equation());
        assert(eqs@ =~= name_equation().push(B_STAR));
        assert(al@ =~= name_align());
        assert(als@ =~= name_align().push(B_STAR));
    }
    vec_spells(n, eq.as_slice()) || vec_spells(n, eqs.as_slice()) || vec_spells(n, al.as_slice())
        || vec_spells(n, als.as_slice())
}

/// Tests whether `n` spells `document`.
pub(crate) fn is_document_name(n: &Vec<u8>) -> (r: bool)
    ensures
        r == (n@ == name_document()),
{
    let doc: [u8; 8] = [100, 111, 99, 117, 109, 101, 110, 116];
    proof {
        assert(doc@ =~= name_document());
    }
    vec_spells(n, doc.as_slice())
}

/// The token models of a spanned stream.
pub open spec fn models_of(s: Seq<(TokenModel, Span)>) -> Seq<TokenModel> {
    s.map_values(|p: (TokenModel, Span)| p.0)
}

// ---------------------------------------------------------------------------
// The math family: one machine, three delimiter tables.
// ---------------------------------------------------------------------------

/// The closer the full math machine records for an opening token, or `None`
/// when the token opens nothing.
pub open spec fn math_opener(t: TokenModel) -> Option<TokenModel> {
    match t {
        TokenModel::DisplayMathOpen => Some(TokenModel::DisplayMathClose),
        TokenModel::DollarSign => Some(TokenModel::DollarSign),
        TokenModel::DoubleDollarSign => Some(TokenModel::DoubleDollarSign),
        TokenModel::EnvironmentBegin(n) => if is_math_env_name(n) {
            Some(TokenModel::EnvironmentEnd(n))
        } else {
            None
        },
        TokenModel::InlineMathOpen => Some(TokenModel::InlineMathClose),
        _ => None,
    }
}

/// `math_opener` as a first-class function.
pub open spec fn math_opener_fn() -> spec_fn(TokenModel) -> Option<TokenModel> {
    |t: TokenModel| math_opener(t)
}

/// The display-math machine's table: double dollar, display delimiters and
/// the math environments; the single dollar and inline delimiters excluded.
pub open spec fn display_math_opener(t: TokenModel) -> Option<TokenModel> {
    match t {
        TokenModel::DisplayMathOpen => Some(TokenModel::DisplayMathClose),
        TokenModel::DoubleDollarSign => Some(TokenModel::DoubleDollarSign),
        TokenModel::EnvironmentBegin(n) => if is_math_env_name(n) {
            Some(TokenModel::EnvironmentEnd(n))
        } else {
            None
        },
        _ => None,
    }
}

/// `display_math_opener` as a first-class function.
pub open spec fn display_math_opener_fn() -> spec_fn(TokenModel) -> Option<TokenModel> {
    |t: TokenModel| display_math_opener(t)
}

/// The inline-math machine's table: the single dollar toggle and the inline
/// delimiters only.
pub open spec fn inline_math_opener(t: TokenModel) -> Option<TokenModel> {
    match t {
        TokenModel::DollarSign => Some(TokenModel::DollarSign),
        TokenModel::InlineMathOpen => Some(TokenModel::InlineMathClose),
        _ => None,
    }
}

/// `inline_math_opener` as a first-class function.
pub open spec fn inline_math_opener_fn() -> spec_fn(TokenModel) -> Option<TokenModel> {
    |t: TokenModel| inline_math_opener(t)
}

/// One step of a math-family machine: the mark the token gets and the state
/// after it. `Some(c)` is the inside state awaiting the closer `c`: there
/// every token is marked, and the closer itself leaves the state. Outside,
/// an opener is marked and enters the state; everything else is unmarked.
pub open spec fn toggle_step(
    st: Option<TokenModel>,
    t: TokenModel,
    opener: spec_fn(TokenModel) -> Option<TokenModel>,
) -> (bool, Option<TokenModel>) {
    match st {
        Some(c) => (true, if t == c { None } else { Some(c) }),
        None => (opener(t) is Some, opener(t)),
    }
}

/// The machine's state just before the token at `i`, starting from `st0`.
pub open spec fn toggle_state_at(
    toks: Seq<TokenModel>,
    st0: Option<TokenModel>,
    i: int,
    opener: spec_fn(TokenModel) -> Option<TokenModel>,
) -> Option<TokenModel>
    decreases i,
{
    if i <= 0 {
        st0
    } else {
        toggle_step(toggle_state_at(toks, st0, i - 1, opener), toks[i - 1], opener).1
    }
}

/// The mark the machine gives the token at `i`.
pub open spec fn toggle_mark_at(
    toks: Seq<TokenModel>,
    st0: Option<TokenModel>,
    i: int,
    opener: spec_fn(TokenModel) -> Option<TokenModel>,
) -> bool {
    toggle_step(toggle_state_at(toks, st0, i, opener), toks[i], opener).0
}

// ---------------------------------------------------------------------------
// The flag family: preamble and document machines.
// ---------------------------------------------------------------------------

/// One step of the preamble machine: `\documentclass` enters the preamble
/// and is marked; `\begin{document}` leaves it and is not marked; any other
/// token keeps the state and carries it as its mark.
pub open spec fn preamble_step(st: bool, t: TokenModel) -> (bool, bool) {
    match t {
        TokenModel::DocumentClass => (true, true),
        TokenModel::EnvironmentBegin(n) => if n == name_document() {
            (false, false)
        } else {
            (st, st)
        },
        _ => (st, st),
    }
}

/// `preamble_step` as a first-class function.
pub open spec fn preamble_step_fn() -> spec_fn(bool, TokenModel) -> (bool, bool) {
    |st: bool, t: TokenModel| preamble_step(st, t)
}

/// One step of the document machine: `\begin{document}` enters the document
/// and is marked; `\end{document}` leaves it and is still marked, so both
/// delimiters belong to the highlighted region; any other token keeps the
/// state and carries it as its mark.
pub open spec fn document_step(st: bool, t: TokenModel) -> (bool, bool) {
    match t {
        TokenModel::EnvironmentBegin(n) => if n == name_document() {
            (true, true)
        } else {
            (st, st)
        },
        TokenModel::EnvironmentEnd(n) => if n == name_document() {
            (true, false)
        } else {
            (st, st)
        },
        _ => (st, st),
    }
}

/// `document_step` as a first-class function.
pub open spec fn document_step_fn() -> spec_fn(bool, TokenModel) -> (bool, bool) {
    |st: bool, t: TokenModel| document_step(st, t)
}

/// A flag machine's state just before the token at `i`, starting from `st0`.
pub open spec fn flag_state_at(
    toks: Seq<TokenModel>,
    st0: bool,
    i: int,
    step: spec_fn(bool, TokenModel) -> (bool, bool),
) -> bool
    decreases i,
{
    if i <= 0 {
        st0
    } else {
        step(flag_state_at(toks, st0, i - 1, step), toks[i - 1]).1
    }
}

/// The mark a flag machine gives the token at `i`.
pub open spec fn flag_mark_at(
    toks: Seq<TokenModel>,
    st0: bool,
    i: int,
    step: spec_fn(bool, TokenModel) -> (bool, bool),
) -> bool {
    step(flag_state_at(toks, st0, i, step), toks[i]).0
}

// ---------------------------------------------------------------------------
// Highlighters.
// ---------------------------------------------------------------------------

/// Highlights the tokens of one specific case, memorylessly.
pub struct TokenHighlighter {
    tokens: Vec<SpannedToken>,
    pos: usize,
    token: TokenDiscriminants,
}

impl TokenHighlighter {
    /// The cursor stays within the stream.
    pub closed spec fn wf(&self) -> bool {
        self.pos <= self.tokens@.len()
    }

    /// The annotated stream.
    pub closed spec fn spec_stream(&self) -> Seq<(TokenModel, Span)> {
        stream_model(self.tokens@)
    }

    /// The position of the next token to annotate.
    pub closed spec fn spec_pos(&self) -> int {
        self.pos as int
    }

    /// The case being highlighted.
    pub closed spec fn spec_target(&self) -> TokenDiscriminants {
        self.token
    }

    /// Creates a highlighter of the tokens of case `token`.
    pub fn new(tokens: Vec<SpannedToken>, token: TokenDiscriminants) -> (h: TokenHighlighter)
        ensures
            h.wf(),
            h.spec_stream() == stream_model(tokens@),
            h.spec_pos() == 0,
            h.spec_target() == token,
    {
        TokenHighlighter { tokens, pos: 0, token }
    }

    /// Annotates the next token: marked exactly when its case is the target.
    pub fn next(&mut self) -> (r: Option<(bool, SpannedToken)>)
        requires
            old(self).wf(),
        ensures
            final(self).wf(),
            final(self).spec_stream() == old(self).spec_stream(),
            final(self).spec_target() == old(self).spec_target(),
            r is Some <==> old(self).spec_pos() < old(self).spec_stream().len(),
            r is None ==> *final(self) == *old(self),
            r matches Some(p) ==> {
                &&& (p.1.0@, p.1.1) == old(self).spec_stream()[old(self).spec_pos()]
                &&& final(self).spec_pos() == old(self).spec_pos() + 1
                &&& p.0 == (model_discriminant(p.1.0@) == old(self).spec_target())
            },
    {
        if self.pos >= self.tokens.len() {
            return None;
        }
        let entry = &self.tokens[self.pos];
        let t = entry.0.dup();
        let sp = entry.1;
        proof {
            assert(old(self).spec_stream()[self.pos as int] == (self.tokens@[self.pos as int].0@,
            self.tokens@[self.pos as int].1));
        }
        self.pos = self.pos + 1;
        let marked = t.discriminant() == self.token;
        Some((marked, (t, sp)))
    }

    /// Annotates the whole stream: one output entry per input token, in
    /// order, each carrying the unchanged token and span; an entry is marked
    /// exactly when its token is of the target case.
    pub fn highlight_all(self) -> (r: Vec<(bool, SpannedToken)>)
        requires
            self.wf(),
            self.spec_pos() == 0,
        ensures
            r@.len() == self.spec_stream().len(),
            forall|i: int| 0 <= i < r@.len() ==> ((#[trigger] r@[i]).1.0@, r@[i].1.1)
                == self.spec_stream()[i],
            forall|i: int| 0 <= i < r@.len() ==> (#[trigger] r@[i]).0 == (model_discriminant(
                self.spec_stream()[i].0,
            ) == self.spec_target()),
    {
        let mut this = self;
        let ghost stream = this.spec_stream();
        let ghost target = this.spec_target();
        let mut out: Vec<(bool, SpannedToken)> = Vec::new();
        let mut done = false;
        while !done
            invariant
                this.wf(),
                this.spec_stream() == stream,
                this.spec_target() == target,
                0 <= this.spec_pos() <= stream.len(),
                out@.len() == this.spec_pos(),
                done ==> this.spec_pos() == stream.len(),
                forall|i: int| 0 <= i < out@.len() ==> ((#[trigger] out@[i]).1.0@, out@[i].1.1)
                    == stream[i],
                forall|i: int| 0 <= i < out@.len() ==> (#[trigger] out@[i]).0
                    == (model_discriminant(stream[i].0) == target),
            decreases stream.len() - this.spec_pos() + (if done { 0int } else { 1int }),
        {
            match this.next() {
                None => {
                    done = true;
                },
                Some(p) => {
                    out.push(p);
                },
            }
        }
        out
    }
}

/// Highlights everything between math delimiters, the delimiters included.
pub struct MathHighlighter {
    tokens: Vec<SpannedToken>,
    pos: usize,
    in_math_mode: bool,
    closing_token: Option<Token>,
}

impl MathHighlighter {
    /// The cursor stays within the stream, and the mode flag agrees with the
    /// recorded closer.
    pub closed spec fn wf(&self) -> bool {
        self.pos <= self.tokens@.len() && (self.in_math_mode <==> self.closing_token is Some)
    }

    /// The annotated stream.
    pub closed spec fn spec_stream(&self) -> Seq<(TokenModel, Span)> {
        stream_model(self.tokens@)
    }

    /// The position of the next token to annotate.
    pub closed spec fn spec_pos(&self) -> int {
        self.pos as int
    }

    /// The machine's state: the closer it awaits, if inside math.
    pub closed spec fn spec_state(&self) -> Option<TokenModel> {
        match self.closing_token {
            Some(c) => Some(c@),
            None => None,
        }
    }

    /// Creates a math highlighter, outside math mode.
    pub fn new(tokens: Vec<SpannedToken>) -> (h: MathHighlighter)
        ensures
            h.wf(),
            h.spec_stream() == stream_model(tokens@),
            h.spec_pos() == 0,
            h.spec_state() is None,
    {
        MathHighlighter { tokens, pos: 0, in_math_mode: false, closing_token: None }
    }

    /// Annotates the next token, stepping the machine by [`toggle_step`]
    /// with the full math delimiter table.
    pub fn next(&mut self) -> (r: Option<(bool, SpannedToken)>)
        requires
            old(self).wf(),
        ensures
            final(self).wf(),
            final(self).spec_stream() == old(self).spec_stream(),
            r is Some <==> old(self).spec_pos() < old(self).spec_stream().len(),
            r is None ==> *final(self) == *old(self),
            r matches Some(p) ==> {
                &&& (p.1.0@, p.1.1) == old(self).spec_stream()[old(self).spec_pos()]
                &&& final(self).spec_pos() == old(self).spec_pos() + 1
                &&& (p.0, final(self).spec_state()) == toggle_step(
                    old(self).spec_state(),
                    p.1.0@,
                    math_opener_fn(),
                )
            },
    {
        if self.pos >= self.tokens.len() {
            return None;
        }
        let entry = &self.tokens[self.pos];
        let t = entry.0.dup();
        let sp = entry.1;
        proof {
            assert(old(self).spec_stream()[self.pos as int] == (self.tokens@[self.pos as int].0@,
            self.tokens@[self.pos as int].1));
        }
        self.pos = self.pos + 1;
        if self.in_math_mode {
            let is_closer = match &self.closing_token {
                Some(c) => &t == c,
                None => false,
            };
            if is_closer {
                self.in_math_mode = false;
                self.closing_token = None;
            }
            Some((true, (t, sp)))
        } else {
            let closer: Option<Token> = match &t {
                Token::DisplayMathOpen => Some(Token::DisplayMathClose),
                Token::DollarSign => Some(Token::DollarSign),
                Token::DoubleDollarSign => Some(Token::DoubleDollarSign),
                Token::EnvironmentBegin(n) => if is_math_env(n) {
                    Some(Token::EnvironmentEnd(clone_bytes(n)))
                } else {
                    None
                },
                Token::InlineMathOpen => Some(Token::InlineMathClose),
                _ => None,
            };
            let marked = match &closer {
                Some(_) => true,
                None => false,
            };
            self.in_math_mode = marked;
            self.closing_token = closer;
            Some((marked, (t, sp)))
        }
    }

    /// Annotates the whole stream: one output entry per input token, in
    /// order, each carrying the unchanged token and span; the marks are the
    /// math machine's, run from this highlighter's state.
    pub fn highlight_all(self) -> (r: Vec<(bool, SpannedToken)>)
        requires
            self.wf(),
            self.spec_pos() == 0,
        ensures
            r@.len() == self.spec_stream().len(),
            forall|i: int| 0 <= i < r@.len() ==> ((#[trigger] r@[i]).1.0@, r@[i].1.1)
                == self.spec_stream()[i],
            forall|i: int| 0 <= i < r@.len() ==> (#[trigger] r@[i]).0 == toggle_mark_at(
                models_of(self.spec_stream()),
                self.spec_state(),
                i,
                math_opener_fn(),
            ),
    {
        let mut this = self;
        let ghost stream = this.spec_stream();
        let ghost models = models_of(stream);
        let ghost st0 = this.spec_state();
        let mut out: Vec<(bool, SpannedToken)> = Vec::new();
        let mut done = false;
        while !done
            invariant
                this.wf(),
                this.spec_stream() == stream,
                models == models_of(stream),
                0 <= this.spec_pos() <= stream.len(),
                out@.len() == this.spec_pos(),
                done ==> this.spec_pos() == stream.len(),
                this.spec_state() == toggle_state_at(models, st0, this.spec_pos(), math_opener_fn()),
                forall|i: int| 0 <= i < out@.len() ==> ((#[trigger] out@[i]).1.0@, out@[i].1.1)
                    == stream[i],
                forall|i: int| 0 <= i < out@.len() ==> (#[trigger] out@[i]).0 == toggle_mark_at(
                    models,
                    st0,
                    i,
                    math_opener_fn(),
                ),
            decreases stream.len() - this.spec_pos() + (if done { 0int } else { 1int }),
        {
            let ghost prev_pos = this.spec_pos();
            match this.next() {
                None => {
                    done = true;
                },
                Some(p) => {
                    proof {
                        assert(models[prev_pos] == stream[prev_pos].0);
                        assert(toggle_state_at(models, st0, prev_pos + 1, math_opener_fn())
                            == toggle_step(
                            toggle_state_at(models, st0, prev_pos, math_opener_fn()),
                            models[prev_pos],
                            math_opener_fn(),
                        ).1);
                    }
                    out.push(p);
                },
            }
        }
        out
    }
}

/// Highlights the preamble: from `\documentclass` up to, and excluding,
/// `\begin{document}`.
pub struct PreambleHighlighter {
    tokens: Vec<SpannedToken>,
    pos: usize,
    in_preamble: bool,
}

impl PreambleHighlighter {
    /// The cursor stays within the stream.
    pub closed spec fn wf(&self) -> bool {
        self.pos <= self.tokens@.len()
    }

    /// The annotated stream.
    pub closed spec fn spec_stream(&self) -> Seq<(TokenModel, Span)> {
        stream_model(self.tokens@)
    }

    /// The position of the next token to annotate.
    pub closed spec fn spec_pos(&self) -> int {
        self.pos as int
    }

    /// The machine's state: whether the cursor stands inside the preamble.
    pub closed spec fn spec_state(&self) -> bool {
        self.in_preamble
    }

    /// Creates a preamble highlighter, outside the preamble.
    pub fn new(tokens: Vec<SpannedToken>) -> (h: PreambleHighlighter)
        ensures
            h.wf(),
            h.spec_stream() == stream_model(tokens@),
            h.spec_pos() == 0,
            h.spec_state() == false,
    {
        PreambleHighlighter { tokens, pos: 0, in_preamble: false }
    }

    /// Annotates the next token, stepping the machine by [`preamble_step`].
    pub fn next(&mut self) -> (r: Option<(bool, SpannedToken)>)
        requires
            old(self).wf(),
        ensures
            final(self).wf(),
            final(self).spec_stream() == old(self).spec_stream(),
            r is Some <==> old(self).spec_pos() < old(self).spec_stream().len(),
            r is None ==> *final(self) == *old(self),
            r matches Some(p) ==> {
                &&& (p.1.0@, p.1.1) == old(self).spec_stream()[old(self).spec_pos()]
                &&& final(self).spec_pos() == old(self).spec_pos() + 1
                &&& (p.0, final(self).spec_state()) == preamble_step(
                    old(self).spec_state(),
                    p.1.0@,
                )
            },
    {
        if self.pos >= self.tokens.len() {
            return None;
        }
        let entry = &self.tokens[self.pos];
        let t = entry.0.dup();
        let sp = entry.1;
        proof {
            assert(old(self).spec_stream()[self.pos as int] == (self.tokens@[self.pos as int].0@,
            self.tokens@[self.pos as int].1));
        }
        self.pos = self.pos + 1;
        match &t {
            Token::DocumentClass => {
                self.in_preamble = true;
            },
            Token::EnvironmentBegin(n) => {
                if is_document_name(n) {
                    self.in_preamble = false;
                }
            },
            _ => {},
        }
        Some((self.in_preamble, (t, sp)))
    }

    /// Annotates the whole stream: one output entry per input token, in
    /// order, each carrying the unchanged token and span; the marks are the
    /// preamble machine's, run from this highlighter's state.
    pub fn highlight_all(self) -> (r: Vec<(bool, SpannedToken)>)
        requires
            self.wf(),
            self.spec_pos() == 0,
        ensures
            r@.len() == self.spec_stream().len(),
            forall|i: int| 0 <= i < r@.len() ==> ((#[trigger] r@[i]).1.0@, r@[i].1.1)
                == self.spec_stream()[i],
            forall|i: int| 0 <= i < r@.len() ==> (#[trigger] r@[i]).0 == flag_mark_at(
                models_of(self.spec_stream()),
                self.spec_state(),
                i,
                preamble_step_fn(),
            ),
    {
        let mut this = self;
        let ghost stream = this.spec_stream();
        let ghost models = models_of(stream);
        let ghost st0 = this.spec_state();
        let mut out: Vec<(bool, SpannedToken)> = Vec::new();
        let mut done = false;
        while !done
            invariant
                this.wf(),
                this.spec_stream() == stream,
                models == models_of(stream),
                0 <= this.spec_pos() <= stream.len(),
                out@.len() == this.spec_pos(),
                done ==> this.spec_pos() == stream.len(),
                this.spec_state() == flag_state_at(models, st0, this.spec_pos(), preamble_step_fn()),
                forall|i: int| 0 <= i < out@.len() ==> ((#[trigger] out@[i]).1.0@, out@[i].1.1)
                    == stream[i],
                forall|i: int| 0 <= i < out@.len() ==> (#[trigger] out@[i]).0 == flag_mark_at(
                    models,
                    st0,
                    i,
                    preamble_step_fn(),
                ),
            decreases stream.len() - this.spec_pos() + (if done { 0int } else { 1int }),
        {
            let ghost prev_pos = this.spec_pos();
            match this.next() {
                None => {
                    done = true;
                },
                Some(p) => {
                    proof {
                        assert(models[prev_pos] == stream[prev_pos].0);
                        assert(flag_state_at(models, st0, prev_pos + 1, preamble_step_fn())
                            == preamble_step(
                            flag_state_at(models, st0, prev_pos, preamble_step_fn()),
                            models[prev_pos],
                        ).1);
                    }
                    out.push(p);
                },
            }
        }
        out
    }
}

/// Highlights the document body: from `\begin{document}` through
/// `\end{document}`, both delimiters included.
pub struct DocumentHighlighter {
    tokens: Vec<SpannedToken>,
    pos: usize,
    in_document: bool,
}

impl DocumentHighlighter {
    /// The cursor stays within the stream.
    pub closed spec fn wf(&self) -> bool {
        self.pos <= self.tokens@.len()
    }

    /// The annotated stream.
    pub closed spec fn spec_stream(&self) -> Seq<(TokenModel, Span)> {
        stream_model(self.tokens@)
    }

    /// The position of the next token to annotate.
    pub closed spec fn spec_pos(&self) -> int {
        self.pos as int
    }

    /// The machine's state: whether the cursor stands inside the document.
    pub closed spec fn spec_state(&self) -> bool {
        self.in_document
    }

    /// Creates a document highlighter, outside the document.
    pub fn new(tokens: Vec<SpannedToken>) -> (h: DocumentHighlighter)
        ensures
            h.wf(),
            h.spec_stream() == stream_model(tokens@),
            h.spec_pos() == 0,
            h.spec_state() == false,
    {
        DocumentHighlighter { tokens, pos: 0, in_document: false }
    }

    /// Annotates the next token, stepping the machine by [`document_step`].
    pub fn next(&mut self) -> (r: Option<(bool, SpannedToken)>)
        requires
            old(self).wf(),
        ensures
            final(self).wf(),
            final(self).spec_stream() == old(self).spec_stream(),
            r is Some <==> old(self).spec_pos() < old(self).spec_stream().len(),
            r is None ==> *final(self) == *old(self),
            r matches Some(p) ==> {
                &&& (p.1.0@, p.1.1) == old(self).spec_stream()[old(self).spec_pos()]
                &&& final(self).spec_pos() == old(self).spec_pos() + 1
                &&& (p.0, final(self).spec_state()) == document_step(
                    old(self).spec_state(),
                    p.1.0@,
                )
            },
    {
        if self.pos >= self.tokens.len() {
            return None;
        }
        let entry = &self.tokens[self.pos];
        let t = entry.0.dup();
        let sp = entry.1;
        proof {
            assert(old(self).spec_stream()[self.pos as int] == (self.tokens@[self.pos as int].0@,
            self.tokens@[self.pos as int].1));
        }
        self.pos = self.pos + 1;
        match &t {
            Token::EnvironmentBegin(n) => {
                if is_document_name(n) {
                    self.in_document = true;
                }
            },
            Token::EnvironmentEnd(n) => {
                if is_document_name(n) {
                    self.in_document = false;
                    return Some((true, (t, sp)));
                }
            },
            _ => {},
        }
        Some((self.in_document, (t, sp)))
    }

    /// Annotates the whole stream: one output entry per input token, in
    /// order, each carrying the unchanged token and span; the marks are the
    /// document machine's, run from this highlighter's state.
    pub fn highlight_all(self) -> (r: Vec<(bool, SpannedToken)>)
        requires
            self.wf(),
            self.spec_pos() == 0,
        ensures
            r@.len() == self.spec_stream().len(),
            forall|i: int| 0 <= i < r@.len() ==> ((#[trigger] r@[i]).1.0@, r@[i].1.1)
                == self.spec_stream()[i],
            forall|i: int| 0 <= i < r@.len() ==> (#[trigger] r@[i]).0 == flag_mark_at(
                models_of(self.spec_stream()),
                self.spec_state(),
                i,
                document_step_fn(),
            ),
    {
        let mut this = self;
        let ghost stream = this.spec_stream();
        let ghost models = models_of(stream);
        let ghost st0 = this.spec_state();
        let mut out: Vec<(bool, SpannedToken)> = Vec::new();
        let mut done = false;
        while !done
            invariant
                this.wf(),
                this.spec_stream() == stream,
                models == models_of(stream),
                0 <= this.spec_pos() <= stream.len(),
                out@.len() == this.spec_pos(),
                done ==> this.spec_pos() == stream.len(),
                this.spec_state() == flag_state_at(models, st0, this.spec_pos(), document_step_fn()),
                forall|i: int| 0 <= i < out@.len() ==> ((#[trigger] out@[i]).1.0@, out@[i].1.1)
                    == stream[i],
                forall|i: int| 0 <= i < out@.len() ==> (#[trigger] out@[i]).0 == flag_mark_at(
                    models,
                    st0,
                    i,
                    document_step_fn(),
                ),
            decreases stream.len() - this.spec_pos() + (if done { 0int } else { 1int }),
        {
            let ghost prev_pos = this.spec_pos();
            match this.next() {
                None => {
                    done = true;
                },
                Some(p) => {
                    proof {
                        assert(models[prev_pos] == stream[prev_pos].0);
                        assert(flag_state_at(models, st0, prev_pos + 1, document_step_fn())
                            == document_step(
                            flag_state_at(models, st0, prev_pos, document_step_fn()),
                            models[prev_pos],
                        ).1);
                    }
                    out.push(p);
                },
            }
        }
        out
    }
}

/// Highlights display-math regions only: the single dollar and the inline
/// delimiters open nothing here.
pub struct DisplayMathHighlighter {
    tokens: Vec<SpannedToken>,
    pos: usize,
    in_math_mode: bool,
    closing_token: Option<Token>,
}

impl DisplayMathHighlighter {
    /// The cursor stays within the stream, and the mode flag agrees with the
    /// recorded closer.
    pub closed spec fn wf(&self) -> bool {
        self.pos <= self.tokens@.len() && (self.in_math_mode <==> self.closing_token is Some)
    }

    /// The annotated stream.
    pub closed spec fn spec_stream(&self) -> Seq<(TokenModel, Span)> {
        stream_model(self.tokens@)
    }

    /// The position of the next token to annotate.
    pub closed spec fn spec_pos(&self) -> int {
        self.pos as int
    }

    /// The machine's state: the closer it awaits, if inside display math.
    pub closed spec fn spec_state(&self) -> Option<TokenModel> {
        match self.closing_token {
            Some(c) => Some(c@),
            None => None,
        }
    }

    /// Creates a display-math highlighter, outside math mode.
    pub fn new(tokens: Vec<SpannedToken>) -> (h: DisplayMathHighlighter)
        ensures
            h.wf(),
            h.spec_stream() == stream_model(tokens@),
            h.spec_pos() == 0,
            h.spec_state() is None,
    {
        DisplayMathHighlighter { tokens, pos: 0, in_math_mode: false, closing_token: None }
    }

    /// Annotates the next token, stepping the machine by [`toggle_step`]
    /// with the display-math delimiter table.
    pub fn next(&mut self) -> (r: Option<(bool, SpannedToken)>)
        requires
            old(self).wf(),
        ensures
            final(self).wf(),
            final(self).spec_stream() == old(self).spec_stream(),
            r is Some <==> old(self).spec_pos() < old(self).spec_stream().len(),
            r is None ==> *final(self) == *old(self),
            r matches Some(p) ==> {
                &&& (p.1.0@, p.1.1) == old(self).spec_stream()[old(self).spec_pos()]
                &&& final(self).spec_pos() == old(self).spec_pos() + 1
                &&& (p.0, final(self).spec_state()) == toggle_step(
                    old(self).spec_state(),
                    p.1.0@,
                    display_math_opener_fn(),
                )
            },
    {
        if self.pos >= self.tokens.len() {
            return None;
        }
        let entry = &self.tokens[self.pos];
        let t = entry.0.dup();
        let sp = entry.1;
        proof {
            assert(old(self).spec_stream()[self.pos as int] == (self.tokens@[self.pos as int].0@,
            self.tokens@[self.pos as int].1));
        }
        self.pos = self.pos + 1;
        if self.in_math_mode {
            let is_closer = match &self.closing_token {
                Some(c) => &t == c,
                None => false,
            };
            if is_closer {
                self.in_math_mode = false;
                self.closing_token = None;
            }
            Some((true, (t, sp)))
        } else {
            let closer: Option<Token> = match &t {
                Token::DisplayMathOpen => Some(Token::DisplayMathClose),
                Token::DoubleDollarSign => Some(Token::DoubleDollarSign),
                Token::EnvironmentBegin(n) => if is_math_env(n) {
                    Some(Token::EnvironmentEnd(clone_bytes(n)))
                } else {
                    None
                },
                _ => None,
            };
            let marked = match &closer {
                Some(_) => true,
                None => false,
            };
            self.in_math_mode = marked;
            self.closing_token = closer;
            Some((marked, (t, sp)))
        }
    }

    /// Annotates the whole stream: one output entry per input token, in
    /// order, each carrying the unchanged token and span; the marks are the
    /// display-math machine's, run from this highlighter's state.
    pub fn highlight_all(self) -> (r: Vec<(bool, SpannedToken)>)
        requires
            self.wf(),
            self.spec_pos() == 0,
        ensures
            r@.len() == self.spec_stream().len(),
            forall|i: int| 0 <= i < r@.len() ==> ((#[trigger] r@[i]).1.0@, r@[i].1.1)
                == self.spec_stream()[i],
            forall|i: int| 0 <= i < r@.len() ==> (#[trigger] r@[i]).0 == toggle_mark_at(
                models_of(self.spec_stream()),
                self.spec_state(),
                i,
                display_math_opener_fn(),
            ),
    {
        let mut this = self;
        let ghost stream = this.spec_stream();
        let ghost models = models_of(stream);
        let ghost st0 = this.spec_state();
        let mut out: Vec<(bool, SpannedToken)> = Vec::new();
        let mut done = false;
        while !done
            invariant
                this.wf(),
                this.spec_stream() == stream,
                models == models_of(stream),
                0 <= this.spec_pos() <= stream.len(),
                out@.len() == this.spec_pos(),
                done ==> this.spec_pos() == stream.len(),
                this.spec_state() == toggle_state_at(
                    models,
                    st0,
                    this.spec_pos(),
                    display_math_opener_fn(),
                ),
                forall|i: int| 0 <= i < out@.len() ==> ((#[trigger] out@[i]).1.0@, out@[i].1.1)
                    == stream[i],
                forall|i: int| 0 <= i < out@.len() ==> (#[trigger] out@[i]).0 == toggle_mark_at(
                    models,
                    st0,
                    i,
                    display_math_opener_fn(),
                ),
            decreases stream.len() - this.spec_pos() + (if done { 0int } else { 1int }),
        {
            let ghost prev_pos = this.spec_pos();
            match this.next() {
                None => {
                    done = true;
                },
                Some(p) => {
                    proof {
                        assert(models[prev_pos] == stream[prev_pos].0);
                        assert(toggle_state_at(models, st0, prev_pos + 1, display_math_opener_fn())
                            == toggle_step(
                            toggle_state_at(models, st0, prev_pos, display_math_opener_fn()),
                            models[prev_pos],
                            display_math_opener_fn(),
                        ).1);
                    }
                    out.push(p);
                },
            }
        }
        out
    }
}

/// Highlights inline-math regions only: the single dollar toggle and the
/// inline delimiters.
pub struct InlineMathHighlighter {
    tokens: Vec<SpannedToken>,
    pos: usize,
    in_math_mode: bool,
    closing_token: Option<Token>,
}

impl InlineMathHighlighter {
    /// The cursor stays within the stream, and the mode flag agrees with the
    /// recorded closer.
    pub closed spec fn wf(&self) -> bool {
        self.pos <= self.tokens@.len() && (self.in_math_mode <==> self.closing_token is Some)
    }

    /// The annotated stream.
    pub closed spec fn spec_stream(&self) -> Seq<(TokenModel, Span)> {
        stream_model(self.tokens@)
    }

    /// The position of the next token to annotate.
    pub closed spec fn spec_pos(&self) -> int {
        self.pos as int
    }

    /// The machine's state: the closer it awaits, if inside inline math.
    pub closed spec fn spec_state(&self) -> Option<TokenModel> {
        match self.closing_token {
            Some(c) => Some(c@),
            None => None,
        }
    }

    /// Creates an inline-math highlighter, outside math mode.
    pub fn new(tokens: Vec<SpannedToken>) -> (h: InlineMathHighlighter)
        ensures
            h.wf(),
            h.spec_stream() == stream_model(tokens@),
            h.spec_pos() == 0,
            h.spec_state() is None,
    {
        InlineMathHighlighter { tokens, pos: 0, in_math_mode: false, closing_token: None }
    }

    /// Annotates the next token, stepping the machine by [`toggle_step`]
    /// with the inline-math delimiter table.
    pub fn next(&mut self) -> (r: Option<(bool, SpannedToken)>)
        requires
            old(self).wf(),
        ensures
            final(self).wf(),
            final(self).spec_stream() == old(self).spec_stream(),
            r is Some <==> old(self).spec_pos() < old(self).spec_stream().len(),
            r is None ==> *final(self) == *old(self),
            r matches Some(p) ==> {
                &&& (p.1.0@, p.1.1) == old(self).spec_stream()[old(self).spec_pos()]
                &&& final(self).spec_pos() == old(self).spec_pos() + 1
                &&& (p.0, final(self).spec_state()) == toggle_step(
                    old(self).spec_state(),
                    p.1.0@,
                    inline_math_opener_fn(),
                )
            },
    {
        if self.pos >= self.tokens.len() {
            return None;
        }
        let entry = &self.tokens[self.pos];
        let t = entry.0.dup();
        let sp = entry.1;
        proof {
            assert(old(self).spec_stream()[self.pos as int] == (self.tokens@[self.pos as int].0@,
            self.tokens@[self.pos as int].1));
        }
        self.pos = self.pos + 1;
        if self.in_math_mode {
            let is_closer = match &self.closing_token {
                Some(c) => &t == c,
                None => false,
            };
            if is_closer {
                self.in_math_mode = false;
                self.closing_token = None;
            }
            Some((true, (t, sp)))
        } else {
            let closer: Option<Token> = match &t {
                Token::DollarSign => Some(Token::DollarSign),
                Token::InlineMathOpen => Some(Token::InlineMathClose),
                _ => None,
            };
            let marked = match &closer {
                Some(_) => true,
                None => false,
            };
            self.in_math_mode = marked;
            self.closing_token = closer;
            Some((marked, (t, sp)))
        }
    }

    /// Annotates the whole stream: one output entry per input token, in
    /// order, each carrying the unchanged token and span; the marks are the
    /// inline-math machine's, run from this highlighter's state.
    pub fn highlight_all(self) -> (r: Vec<(bool, SpannedToken)>)
        requires
            self.wf(),
            self.spec_pos() == 0,
        ensures
            r@.len() == self.spec_stream().len(),
            forall|i: int| 0 <= i < r@.len() ==> ((#[trigger] r@[i]).1.0@, r@[i].1.1)
                == self.spec_stream()[i],
            forall|i: int| 0 <= i < r@.len() ==> (#[trigger] r@[i]).0 == toggle_mark_at(
                models_of(self.spec_stream()),
                self.spec_state(),
                i,
                inline_math_opener_fn(),
            ),
    {
        let mut this = self;
        let ghost stream = this.spec_stream();
        let ghost models = models_of(stream);
        let ghost st0 = this.spec_state();
        let mut out: Vec<(bool, SpannedToken)> = Vec::new();
        let mut done = false;
        while !done
            invariant
                this.wf(),
                this.spec_stream() == stream,
                models == models_of(stream),
                0 <= this.spec_pos() <= stream.len(),
                out@.len() == this.spec_pos(),
                done ==> this.spec_pos() == stream.len(),
                this.spec_state() == toggle_state_at(
                    models,
                    st0,
                    this.spec_pos(),
                    inline_math_opener_fn(),
                ),
                forall|i: int| 0 <= i < out@.len() ==> ((#[trigger] out@[i]).1.0@, out@[i].1.1)
                    == stream[i],
                forall|i: int| 0 <= i < out@.len() ==> (#[trigger] out@[i]).0 == toggle_mark_at(
                    models,
                    st0,
                    i,
                    inline_math_opener_fn(),
                ),
            decreases stream.len() - this.spec_pos() + (if done { 0int } else { 1int }),
        {
            let ghost prev_pos = this.spec_pos();
            match this.next() {
                None => {
                    done = true;
                },
                Some(p) => {
                    proof {
                        assert(models[prev_pos] == stream[prev_pos].0);
                        assert(toggle_state_at(models, st0, prev_pos + 1, inline_math_opener_fn())
                            == toggle_step(
                            toggle_state_at(models, st0, prev_pos, inline_math_opener_fn()),
                            models[prev_pos],
                            inline_math_opener_fn(),
                        ).1);
                    }
                    out.push(p);
                },
            }
        }
        out
    }
}

// ---------------------------------------------------------------------------
// Derived views and laws.
// ---------------------------------------------------------------------------

/// The spans of the marked entries, in order.
pub open spec fn marked_spans(v: Seq<(bool, SpannedToken)>) -> Seq<Span>
    decreases v.len(),
{
    if v.len() == 0 {
        Seq::empty()
    } else {
        marked_spans(v.drop_last()) + (if v.last().0 {
            seq![v.last().1.1]
        } else {
            Seq::empty()
        })
    }
}

/// Keeps the spans of the marked entries: the derived "only highlighted"
/// view of an annotated stream.
pub fn highlight_spans(items: Vec<(bool, SpannedToken)>) -> (r: Vec<Span>)
    ensures
        r@ == marked_spans(items@),
{
    let mut r: Vec<Span> = Vec::new();
    let mut i: usize = 0;
    while i < items.len()
        invariant
            i <= items@.len(),
            r@ == marked_spans(items@.take(i as int)),
        decreases items@.len() - i,
    {
        if items[i].0 {
            r.push(items[i].1.1);
        }
        i += 1;
        proof {
            assert(items@.take(i as int).drop_last() =~= items@.take(i as int - 1));
            assert(items@.take(i as int).last() == items@[i - 1]);
        }
    }
    proof {
        assert(items@.take(items@.len() as int) =~= items@);
    }
    r
}

/// The token models of the marked entries, in order.
pub open spec fn marked_token_models(v: Seq<(bool, SpannedToken)>) -> Seq<TokenModel>
    decreases v.len(),
{
    if v.len() == 0 {
        Seq::empty()
    } else {
        marked_token_models(v.drop_last()) + (if v.last().0 {
            seq![v.last().1.0@]
        } else {
            Seq::empty()
        })
    }
}

/// The marked entries themselves, in order.
pub open spec fn marked_entries(v: Seq<(bool, SpannedToken)>) -> Seq<(TokenModel, Span)>
    decreases v.len(),
{
    if v.len() == 0 {
        Seq::empty()
    } else {
        marked_entries(v.drop_last()) + (if v.last().0 {
            seq![(v.last().1.0@, v.last().1.1)]
        } else {
            Seq::empty()
        })
    }
}

/// Keeps the tokens of the marked entries: the derived "only highlighted"
/// token view of an annotated stream.
pub fn highlight_tokens(items: Vec<(bool, SpannedToken)>) -> (r: Vec<Token>)
    ensures
        r@.map_values(|t: Token| t@) == marked_token_models(items@),
{
    let mut r: Vec<Token> = Vec::new();
    let mut i: usize = 0;
    while i < items.len()
        invariant
            i <= items@.len(),
            r@.map_values(|t: Token| t@) == marked_token_models(items@.take(i as int)),
        decreases items@.len() - i,
    {
        let ghost prev = r@.map_values(|t: Token| t@);
        if items[i].0 {
            let t = items[i].1.0.dup();
            r.push(t);
        }
        i += 1;
        proof {
            assert(items@.take(i as int).drop_last() =~= items@.take(i as int - 1));
            assert(items@.take(i as int).last() == items@[i - 1]);
            if items@[i - 1].0 {
                assert(r@.map_values(|t: Token| t@) =~= prev.push(r@.last()@));
                assert(r@.map_values(|t: Token| t@) =~= marked_token_models(
                    items@.take(i as int),
                ));
            } else {
                assert(marked_token_models(items@.take(i as int)) =~= prev);
            }
        }
    }
    proof {
        assert(items@.take(items@.len() as int) =~= items@);
    }
    r
}

/// Keeps the marked entries whole: the derived "only highlighted" spanned
/// view of an annotated stream.
pub fn highlight_spanned_tokens(items: Vec<(bool, SpannedToken)>) -> (r: Vec<SpannedToken>)
    ensures
        stream_model(r@) == marked_entries(items@),
{
    let mut r: Vec<SpannedToken> = Vec::new();
    let mut i: usize = 0;
    while i < items.len()
        invariant
            i <= items@.len(),
            stream_model(r@) == marked_entries(items@.take(i as int)),
        decreases items@.len() - i,
    {
        let ghost prev = stream_model(r@);
        if items[i].0 {
            let t = items[i].1.0.dup();
            let sp = items[i].1.1;
            r.push((t, sp));
        }
        i += 1;
        proof {
            assert(items@.take(i as int).drop_last() =~= items@.take(i as int - 1));
            assert(items@.take(i as int).last() == items@[i - 1]);
            if items@[i - 1].0 {
                assert(stream_model(r@) =~= prev.push((r@.last().0@, r@.last().1)));
                assert(stream_model(r@) =~= marked_entries(items@.take(i as int)));
            } else {
                assert(marked_entries(items@.take(i as int)) =~= prev);
            }
        }
    }
    proof {
        assert(items@.take(items@.len() as int) =~= items@);
    }
    r
}

/// How many entries of an annotated stream are marked.
pub open spec fn count_marked(v: Seq<(bool, SpannedToken)>) -> int
    decreases v.len(),
{
    if v.len() == 0 {
        0
    } else {
        count_marked(v.drop_last()) + (if v.last().0 {
            1int
        } else {
            0int
        })
    }
}

/// How many tokens of a stream are of case `d`.
pub open spec fn count_of_case(s: Seq<(TokenModel, Span)>, d: TokenDiscriminants) -> int
    decreases s.len(),
{
    if s.len() == 0 {
        0
    } else {
        count_of_case(s.drop_last(), d) + (if model_discriminant(s.last().0) == d {
            1int
        } else {
            0int
        })
    }
}

/// Single-kind law: in the single-kind highlighter's output, the number of
/// marked entries equals the number of input tokens of the target case.
pub proof fn lemma_single_kind_count(
    v: Seq<(bool, SpannedToken)>,
    s: Seq<(TokenModel, Span)>,
    d: TokenDiscriminants,
)
    requires
        v.len() == s.len(),
        forall|i: int| 0 <= i < v.len() ==> ((#[trigger] v[i]).1.0@, v[i].1.1) == s[i],
        forall|i: int| 0 <= i < v.len() ==> (#[trigger] v[i]).0 == (model_discriminant(s[i].0)
            == d),
    ensures
        count_marked(v) == count_of_case(s, d),
    decreases v.len(),
{
    if v.len() > 0 {
        assert(forall|i: int| 0 <= i < v.len() - 1 ==> (#[trigger] v.drop_last()[i]) == v[i]);
        lemma_single_kind_count(v.drop_last(), s.drop_last(), d);
        assert(v.last() == v[v.len() - 1]);
        assert(s.last() == s[s.len() - 1]);
        assert(v.last().1.0@ == s.last().0);
    }
}

} // verus!
