use untex::latex::highlight::{
    highlight_spanned_tokens, highlight_spans, highlight_tokens, DisplayMathHighlighter,
    DocumentHighlighter, InlineMathHighlighter, MathHighlighter, PreambleHighlighter,
    TokenHighlighter,
};
use untex::latex::token::{tokenize, SpannedToken, Token, TokenDiscriminants};

fn marks(items: &[(bool, SpannedToken)]) -> Vec<bool> {
    items.iter().map(|p| p.0).collect()
}

/// Math toggle: in `"a $x$ b"` exactly the two dollar signs and the token
/// between them are highlighted; the surrounding text is not.
#[test]
fn math_toggle_marks_dollar_region() {
    let source = "a $x$ b";
    let items = MathHighlighter::new(tokenize(source.as_bytes())).highlight_all();
    assert_eq!(marks(&items), vec![false, false, true, true, true, false, false]);
    // The annotation pass keeps every token and span.
    let again = tokenize(source.as_bytes());
    assert_eq!(items.len(), again.len());
    for (got, expected) in items.iter().zip(again.iter()) {
        assert_eq!(&got.1, expected);
    }
}

/// Display-math exclusivity: a single dollar opens nothing for the
/// display-math highlighter, while the full math highlighter takes the whole
/// span.
#[test]
fn display_math_excludes_single_dollar() {
    let source = "$x$";
    let display = DisplayMathHighlighter::new(tokenize(source.as_bytes())).highlight_all();
    assert_eq!(marks(&display), vec![false, false, false]);
    let math = MathHighlighter::new(tokenize(source.as_bytes())).highlight_all();
    assert_eq!(marks(&math), vec![true, true, true]);
}

/// Inline math covers the single-dollar region; double dollars open nothing.
#[test]
fn inline_math_takes_single_dollar_only() {
    let source = "$x$ $$y$$";
    let inline = InlineMathHighlighter::new(tokenize(source.as_bytes())).highlight_all();
    // $ x $ ' ' $$ y $$
    assert_eq!(marks(&inline), vec![true, true, true, false, false, false, false]);
    let display = DisplayMathHighlighter::new(tokenize(source.as_bytes())).highlight_all();
    assert_eq!(marks(&display), vec![false, false, false, false, true, true, true]);
}

/// Preamble boundary: everything from `\documentclass` up to
/// `\begin{document}` is highlighted; `\begin{document}` itself is not.
#[test]
fn preamble_stops_before_document() {
    let source = r"\documentclass{article}\begin{document}";
    let items = PreambleHighlighter::new(tokenize(source.as_bytes())).highlight_all();
    assert_eq!(marks(&items), vec![true, true, true, true, false]);
}

/// The document highlighter includes both delimiters of the `document`
/// environment and nothing outside them.
#[test]
fn document_includes_both_delimiters() {
    let source = r"x\begin{document}y\end{document}z";
    let items = DocumentHighlighter::new(tokenize(source.as_bytes())).highlight_all();
    assert_eq!(marks(&items), vec![false, true, true, true, false]);
}

/// A math environment named `equation` is tracked to its own `\end`, and
/// interior delimiters of another kind do not close it.
#[test]
fn math_environment_is_flat() {
    let source = r"\begin{equation}a$b\end{equation}c";
    let items = MathHighlighter::new(tokenize(source.as_bytes())).highlight_all();
    // begin a $ b end c
    assert_eq!(marks(&items), vec![true, true, true, true, true, false]);
}

/// An unclosed delimiter leaves the machine inside math to the end of the
/// stream: no panic, no implicit close.
#[test]
fn math_unclosed_region_runs_to_end() {
    let source = "$ab";
    let items = MathHighlighter::new(tokenize(source.as_bytes())).highlight_all();
    assert_eq!(marks(&items), vec![true, true]);
}

/// Single-kind highlighting: the marked entries are exactly the tokens of
/// the chosen case, and their count matches.
#[test]
fn token_highlighter_counts_dollars() {
    let source = "a $x$ b $$";
    let toks = tokenize(source.as_bytes());
    let dollars = toks
        .iter()
        .filter(|(t, _)| matches!(t, Token::DollarSign))
        .count();
    let items = TokenHighlighter::new(toks, TokenDiscriminants::DollarSign).highlight_all();
    let marked = items.iter().filter(|p| p.0).count();
    assert_eq!(marked, dollars);
    assert_eq!(marked, 2);
    for (b, (t, _)) in items.iter() {
        assert_eq!(*b, matches!(t, Token::DollarSign));
    }
}

/// Single-kind highlighting distinguishes environment begins from ends.
#[test]
fn token_highlighter_environment_begin() {
    let source = r"\begin{a}\end{a}\begin{b}";
    let items = TokenHighlighter::new(tokenize(source.as_bytes()), TokenDiscriminants::EnvironmentBegin)
        .highlight_all();
    assert_eq!(marks(&items), vec![true, false, true]);
}

/// On an empty input every highlighter yields an empty annotation stream.
#[test]
fn highlighters_on_empty_input() {
    assert_eq!(MathHighlighter::new(tokenize(b"")).highlight_all().len(), 0);
    assert_eq!(PreambleHighlighter::new(tokenize(b"")).highlight_all().len(), 0);
    assert_eq!(DocumentHighlighter::new(tokenize(b"")).highlight_all().len(), 0);
}

/// The derived span view keeps exactly the marked spans, in order.
#[test]
fn highlight_spans_keeps_marked() {
    let source = "a $x$ b";
    let items = MathHighlighter::new(tokenize(source.as_bytes())).highlight_all();
    let spans = highlight_spans(items);
    let positions: Vec<(usize, usize)> = spans.iter().map(|sp| (sp.start, sp.end)).collect();
    assert_eq!(positions, vec![(2, 3), (3, 4), (4, 5)]);
}

/// Starred math environments open math mode for the math family too.
#[test]
fn starred_environment_opens_math() {
    let source = r"\begin{align*}x\end{align*}y";
    let display = DisplayMathHighlighter::new(tokenize(source.as_bytes())).highlight_all();
    assert_eq!(marks(&display), vec![true, true, true, false]);
    // The closer must carry the same name: another environment's end does
    // not close it.
    let source = r"\begin{align*}x\end{align}y";
    let display = DisplayMathHighlighter::new(tokenize(source.as_bytes())).highlight_all();
    assert_eq!(marks(&display), vec![true, true, true, true]);
}

/// The derived token views keep exactly the marked tokens, in order.
#[test]
fn highlight_token_views_keep_marked() {
    let source = "a $x$ b";
    let items = MathHighlighter::new(tokenize(source.as_bytes())).highlight_all();
    let tokens = highlight_tokens(items);
    assert_eq!(tokens, vec![Token::DollarSign, Token::Word, Token::DollarSign]);

    let items = MathHighlighter::new(tokenize(source.as_bytes())).highlight_all();
    let spanned = highlight_spanned_tokens(items);
    assert_eq!(spanned.len(), 3);
    assert_eq!(spanned[1].0, Token::Word);
    assert_eq!((spanned[1].1.start, spanned[1].1.end), (3, 4));
}
