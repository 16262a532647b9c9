use untex::parse::{matches_document_shape, LaTeXDocument};
use untex::token::tokenize;

/// A source of the accepted shape: leading comments and whitespace, a
/// `\documentclass`, a preamble, `\begin{document}`, a body, and a final
/// bare `\end` followed only by whitespace.
#[test]
fn accepts_well_shaped_document() {
    let source = "% a note\n\\documentclass{article}\n\\usepackage{tikz}\n\\begin{document}\nhello world\n\\end\n";
    let tokens = tokenize(source.as_bytes());
    let parsed = LaTeXDocument::try_from_tokens(source.as_bytes(), &tokens);
    assert!(parsed.is_ok());
}

/// The body may hold math and commands; only the first `\end` matters.
#[test]
fn accepts_document_with_math_body() {
    let source = "\\documentclass{book}\\begin{document}$x + y$\\alpha\\end  \n";
    let tokens = tokenize(source.as_bytes());
    let parsed = LaTeXDocument::try_from_tokens(source.as_bytes(), &tokens);
    assert!(parsed.is_ok());
}

/// Sources that do not have the accepted shape are recognised as such: no
/// `\documentclass`, significant content after the first `\end`, or no
/// `\begin{document}` at all.
#[test]
fn rejects_malformed_documents() {
    for source in [
        "",
        "hello",
        "\\begin{document}\\end",
        "\\documentclass{article}",
        "\\documentclass{article}\\begin{quote}x\\end",
        "\\documentclass{article}\\begin{document}x\\end y",
    ] {
        let tokens = tokenize(source.as_bytes());
        assert!(!matches_document_shape(source.as_bytes(), &tokens));
    }
}

/// The recogniser agrees with what the walk accepts.
#[test]
fn shape_checker_matches_acceptance() {
    let source = "\\documentclass{a}\\begin{document}\\end";
    let tokens = tokenize(source.as_bytes());
    assert!(matches_document_shape(source.as_bytes(), &tokens));
    assert!(LaTeXDocument::try_from_tokens(source.as_bytes(), &tokens).is_ok());
}
