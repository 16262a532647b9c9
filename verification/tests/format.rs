use untex::latex::format::{AutoIndentFormatter, DummyFormatter, Formatter, render_tokens};
use untex::latex::token::{tokenize, Token};

fn auto_indent(source: &str) -> String {
    let mut formatter = AutoIndentFormatter::new(tokenize(source.as_bytes()));
    let bytes = formatter.write_formatted(source.as_bytes());
    String::from_utf8(bytes).unwrap()
}

#[test]
fn test_document_auto_indent() {
    let source = r#"
\documentclass{article}
  \usepackage{tikz} % Indent in preamble

\begin{document}
  Good indentation
    \begin{tikzpicture}[scale=1.5] % Wrong indentation
\draw[thick,fill=gray!60] (0,0) rectangle (1,1); % Also wrong
    \end{tikzpicture}
It should go back to an indentation level of one
\end{document}

    % Indentation after document
"#;

    let result = r#"
\documentclass{article}
\usepackage{tikz} % Indent in preamble

\begin{document}
  Good indentation
  \begin{tikzpicture}[scale=1.5] % Wrong indentation
    \draw[thick,fill=gray!60] (0,0) rectangle (1,1); % Also wrong
  \end{tikzpicture}
  It should go back to an indentation level of one
\end{document}

% Indentation after document
"#;

    assert_eq!(auto_indent(source), result);
}

/// Auto-indent normalizes the sample document and, applied a second time to
/// its own output, changes nothing.
#[test]
fn auto_indent_idempotent_on_sample() {
    let source = "\\documentclass{article}\n  \\usepackage{tikz}\n\\begin{document}\n  \\begin{tikzpicture}\n\\end{tikzpicture}\n\\end{document}\n";
    let expected = "\\documentclass{article}\n\\usepackage{tikz}\n\\begin{document}\n  \\begin{tikzpicture}\n  \\end{tikzpicture}\n\\end{document}\n";
    let once = auto_indent(source);
    assert_eq!(once, expected);
    let twice = auto_indent(&once);
    assert_eq!(twice, once);
}

/// The comment-dropping formatter removes comments and changes nothing else.
#[test]
fn dummy_formatter_drops_comments() {
    let source = "a % gone\nb";
    let mut formatter = DummyFormatter::new(tokenize(source.as_bytes()));
    let bytes = formatter.write_formatted(source.as_bytes());
    assert_eq!(String::from_utf8(bytes).unwrap(), "a \nb");
}

/// The comment-dropping formatter leaves a comment-free text unchanged.
#[test]
fn dummy_formatter_identity_without_comments() {
    let source = "\\alpha + 1 = $x$\n";
    let mut formatter = DummyFormatter::new(tokenize(source.as_bytes()));
    let bytes = formatter.write_formatted(source.as_bytes());
    assert_eq!(bytes, source.as_bytes());
}

/// Rendering a plain tokenization reproduces the source; an owned-string
/// token contributes its own text instead of any source slice.
#[test]
fn render_resolves_owned_and_spanned() {
    let source = "ab $x$ %c";
    let toks = tokenize(source.as_bytes());
    let rendered = render_tokens(source.as_bytes(), &toks);
    assert_eq!(rendered, source.as_bytes());

    let mut toks = tokenize(source.as_bytes());
    toks.insert(0, (Token::OwnedString(b"==".to_vec()), untex::span::Span::new(0, 1)));
    let rendered = render_tokens(source.as_bytes(), &toks);
    assert_eq!(rendered, b"==ab $x$ %c".to_vec());
}

/// An unbalanced document never drives the indentation level below zero: the
/// unmatched end keeps its line at the left margin.
#[test]
fn auto_indent_clamps_unbalanced_document() {
    let source = "\\begin{document}\n\\end{a}\n\\end{b}\n\\end{document}\n";
    let formatted = auto_indent(source);
    assert_eq!(formatted, "\\begin{document}\n\\end{a}\n\\end{b}\n\\end{document}\n");
}
