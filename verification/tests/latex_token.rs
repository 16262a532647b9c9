use untex::latex::token::{tokenize, Token};

/// Collects the `(start, end)` spans of the tokens matching `pred`.
fn token_positions(source: &str, pred: fn(&Token) -> bool) -> Vec<(usize, usize)> {
    tokenize(source.as_bytes())
        .into_iter()
        .filter(|(t, _)| pred(t))
        .map(|(_, sp)| (sp.start, sp.end))
        .collect()
}

fn assert_token_positions(source: &str, pred: fn(&Token) -> bool, positions: &[(usize, usize)]) {
    let found = token_positions(source, pred);
    assert_eq!(
        found.len(),
        positions.len(),
        "The number of tokens found did not match the expected number of positions"
    );
    for (expected, got) in positions.iter().zip(found.iter()) {
        assert_eq!(expected, got);
    }
}

#[test]
fn token_and() {
    assert_token_positions(r"Should match &, but not \&", |t| matches!(t, Token::And), &[(13, 14)]);
}

#[test]
fn token_asterix() {
    assert_token_positions(
        r"\section*{title} Doing some math $a * b$",
        |t| matches!(t, Token::Asterix),
        &[(8, 9), (36, 37)],
    );
}

#[test]
fn token_at() {
    assert_token_positions(r"Should match @, but not \@", |t| matches!(t, Token::At), &[(13, 14)]);
}

#[test]
fn token_brace_close() {
    assert_token_positions(
        r"Should match }, but not \}",
        |t| matches!(t, Token::BraceClose),
        &[(13, 14)],
    );
}

#[test]
fn token_brace_open() {
    assert_token_positions(
        r"Should match {, but not \{",
        |t| matches!(t, Token::BraceOpen),
        &[(13, 14)],
    );
}

#[test]
fn token_bracket_close() {
    assert_token_positions(
        r"Should match ], but not \]",
        |t| matches!(t, Token::BracketClose),
        &[(13, 14)],
    );
}

#[test]
fn token_bracket_open() {
    assert_token_positions(
        r"Should match [, but not \[",
        |t| matches!(t, Token::BracketOpen),
        &[(13, 14)],
    );
}

#[test]
fn token_colon() {
    assert_token_positions(
        r"Should match :, but not \:",
        |t| matches!(t, Token::Colon),
        &[(13, 14)],
    );
}

#[test]
fn token_comma() {
    assert_token_positions(
        r"Should match , but not \,",
        |t| matches!(t, Token::Comma),
        &[(13, 14)],
    );
}

#[test]
fn token_command_name() {
    assert_token_positions(
        r"\sin\cos\text{some text}\alpha1234",
        |t| matches!(t, Token::CommandName),
        &[(0, 4), (4, 8), (8, 13), (24, 30)],
    );
}

#[test]
fn token_comment() {
    assert_token_positions(
        "% this is a comment\n            \\% this is not a comment",
        |t| matches!(t, Token::Comment),
        &[(0, 19)],
    );
}

#[test]
fn token_display_math_close() {
    assert_token_positions(
        r"Should match \], but not ]",
        |t| matches!(t, Token::DisplayMathClose),
        &[(13, 15)],
    );
}

#[test]
fn token_display_math_open() {
    assert_token_positions(
        r"Should match \[, but not [",
        |t| matches!(t, Token::DisplayMathOpen),
        &[(13, 15)],
    );
}

#[test]
fn token_document_class() {
    assert_token_positions(
        r"\documentclass{article}",
        |t| matches!(t, Token::DocumentClass),
        &[(0, 14)],
    );
}

#[test]
fn token_dollar_sign() {
    assert_token_positions(
        r"Should match $, but not $$",
        |t| matches!(t, Token::DollarSign),
        &[(13, 14)],
    );
}

#[test]
fn token_dot() {
    assert_token_positions(r"Should match ., but not \.", |t| matches!(t, Token::Dot), &[(13, 14)]);
}

#[test]
fn token_double_backslash() {
    assert_token_positions(
        r"Should match \\, but not \",
        |t| matches!(t, Token::DoubleBackslash),
        &[(13, 15)],
    );
}

#[test]
fn token_double_dollar_sign() {
    assert_token_positions(
        r"Should match $$, but not $",
        |t| matches!(t, Token::DoubleDollarSign),
        &[(13, 15)],
    );
}

#[test]
fn token_environment_begin() {
    assert_token_positions(
        r"\begin{equation}",
        |t| matches!(t, Token::EnvironmentBegin(name) if name.as_slice() == &b"equation"[..]),
        &[(0, 16)],
    );
}

#[test]
fn token_environment_end() {
    assert_token_positions(
        r"\end{equation}",
        |t| matches!(t, Token::EnvironmentEnd(name) if name.as_slice() == &b"equation"[..]),
        &[(0, 14)],
    );
}

#[test]
fn token_equal_sign() {
    assert_token_positions(
        r"Should match =, but not \=",
        |t| matches!(t, Token::EqualSign),
        &[(13, 14)],
    );
}

#[test]
fn token_escaped_char() {
    for s in ["{", "}", "_", "$", "&", "%", "#"] {
        assert_token_positions(
            &format!("Should match \\{s}, but not {s}"),
            |t| matches!(t, Token::EscapedChar),
            &[(13, 15)],
        );
    }
}

#[test]
fn token_hash() {
    assert_token_positions(
        r"Should match #, but not \#",
        |t| matches!(t, Token::Hash),
        &[(13, 14)],
    );
}

#[test]
fn token_hat() {
    assert_token_positions("Should match ^", |t| matches!(t, Token::Hat), &[(13, 14)]);
}

#[test]
fn token_hyphen() {
    assert_token_positions(
        r"Should match -, but not \-",
        |t| matches!(t, Token::Hyphen),
        &[(13, 14)],
    );
}

#[test]
fn token_inline_math_close() {
    assert_token_positions(
        r"Should match \), but not )",
        |t| matches!(t, Token::InlineMathClose),
        &[(13, 15)],
    );
}

#[test]
fn token_inline_math_open() {
    assert_token_positions(
        r"Should match \(, but not (",
        |t| matches!(t, Token::InlineMathOpen),
        &[(13, 15)],
    );
}

#[test]
fn token_insert_space() {
    for s in [",", ":", ";", "!", " "] {
        assert_token_positions(
            &format!("Should match \\{s}, but not {s}"),
            |t| matches!(t, Token::InsertSpace),
            &[(13, 15)],
        );
    }
}

#[test]
fn token_invalid_command() {
    assert_token_positions(
        r"Should match \+, but not \;",
        |t| matches!(t, Token::InvalidCommand),
        &[(13, 15)],
    );
}

#[test]
fn token_minus_sign() {
    assert_token_positions(
        r"Should match -, but not \-",
        |t| *t == Token::MinusSign,
        &[(13, 14)],
    );
}

#[test]
fn token_newline() {
    assert_token_positions(
        "Hello\nMy name is\r\nJérome",
        |t| matches!(t, Token::Newline),
        &[(5, 6), (16, 18)],
    );
}

#[test]
fn token_number() {
    assert_token_positions(
        "0123.456 789",
        |t| matches!(t, Token::Number),
        &[(0, 4), (5, 8), (9, 12)],
    );
}

#[test]
fn token_other() {
    assert_token_positions(
        "' ` < >",
        |t| matches!(t, Token::Other),
        &[(0, 1), (2, 3), (4, 5), (6, 7)],
    );
}

#[test]
fn token_paren_close() {
    assert_token_positions(
        r"Should match ), but not \)",
        |t| matches!(t, Token::ParenClose),
        &[(13, 14)],
    );
}

#[test]
fn token_paren_open() {
    assert_token_positions(
        r"Should match (, but not \(",
        |t| matches!(t, Token::ParenOpen),
        &[(13, 14)],
    );
}

#[test]
fn token_plus_sign() {
    assert_token_positions(
        r"Should match +, but not \+",
        |t| matches!(t, Token::PlusSign),
        &[(13, 14)],
    );
}

#[test]
fn token_question_mark() {
    assert_token_positions(
        r"Should match ?, but not \?",
        |t| matches!(t, Token::QuestionMark),
        &[(13, 14)],
    );
}

#[test]
fn token_semicolon() {
    assert_token_positions(
        r"Should match ;, but not \;",
        |t| matches!(t, Token::Semicolon),
        &[(13, 14)],
    );
}

#[test]
fn token_tabs_or_spaces() {
    assert_token_positions(
        "Should match \t, but not \\ ",
        |t| matches!(t, Token::TabsOrSpaces),
        &[(6, 7), (12, 14), (15, 16), (19, 20), (23, 24)],
    );
}

#[test]
fn token_tilde() {
    assert_token_positions("Should match ~", |t| matches!(t, Token::Tilde), &[(13, 14)]);
}

#[test]
fn token_underscore() {
    assert_token_positions(
        r"Should match _, but not \_",
        |t| matches!(t, Token::Underscore),
        &[(13, 14)],
    );
}

#[test]
fn token_word() {
    assert_token_positions(
        r"Should match words",
        |t| matches!(t, Token::Word),
        &[(0, 6), (7, 12), (13, 18)],
    );
}

#[test]
fn test_document() {
    let source = r#"
\documentclass{article}
\usepackage{tikz}

\begin{document}
    \begin{tikzpicture}[scale=1.5]
        \draw[thick,fill=gray!60] (0,0) rectangle (1,1);
    \end{tikzpicture}
\end{document}
"#;
    let mut lex = Token::lexer(source.as_bytes());

    assert_eq!(lex.next().map(|p| p.0), Some(Token::Newline));

    assert_eq!(lex.next().map(|p| p.0), Some(Token::DocumentClass));
    assert_eq!(lex.next().map(|p| p.0), Some(Token::BraceOpen));
    assert_eq!(lex.next().map(|p| p.0), Some(Token::Word));
    assert_eq!(lex.slice(), &b"article"[..]);
    assert_eq!(lex.next().map(|p| p.0), Some(Token::BraceClose));
    assert_eq!(lex.next().map(|p| p.0), Some(Token::Newline));

    assert_eq!(lex.next().map(|p| p.0), Some(Token::CommandName));
    assert_eq!(lex.next().map(|p| p.0), Some(Token::BraceOpen));
    assert_eq!(lex.next().map(|p| p.0), Some(Token::Word));
    assert_eq!(lex.slice(), &b"tikz"[..]);
    assert_eq!(lex.next().map(|p| p.0), Some(Token::BraceClose));
    assert_eq!(lex.next().map(|p| p.0), Some(Token::Newline));
    assert_eq!(lex.next().map(|p| p.0), Some(Token::Newline));

    assert_eq!(
        lex.next().map(|p| p.0),
        Some(Token::EnvironmentBegin(b"document".to_vec()))
    );
    assert_eq!(lex.next().map(|p| p.0), Some(Token::Newline));

    assert_eq!(lex.next().map(|p| p.0), Some(Token::TabsOrSpaces));
    assert_eq!(
        lex.next().map(|p| p.0),
        Some(Token::EnvironmentBegin(b"tikzpicture".to_vec()))
    );
    assert_eq!(lex.next().map(|p| p.0), Some(Token::BracketOpen));
    assert_eq!(lex.next().map(|p| p.0), Some(Token::Word));
    assert_eq!(lex.slice(), &b"scale"[..]);
    assert_eq!(lex.next().map(|p| p.0), Some(Token::EqualSign));
    assert_eq!(lex.next().map(|p| p.0), Some(Token::Number));
    assert_eq!(lex.slice(), &b"1"[..]);
    assert_eq!(lex.next().map(|p| p.0), Some(Token::Dot));
    assert_eq!(lex.next().map(|p| p.0), Some(Token::Number));
    assert_eq!(lex.slice(), &b"5"[..]);
    assert_eq!(lex.next().map(|p| p.0), Some(Token::BracketClose));
    assert_eq!(lex.next().map(|p| p.0), Some(Token::Newline));

    assert_eq!(lex.next().map(|p| p.0), Some(Token::TabsOrSpaces));
    assert_eq!(lex.next().map(|p| p.0), Some(Token::CommandName));
    assert_eq!(lex.next().map(|p| p.0), Some(Token::BracketOpen));
    assert_eq!(lex.next().map(|p| p.0), Some(Token::Word));
    assert_eq!(lex.slice(), &b"thick"[..]);
    assert_eq!(lex.next().map(|p| p.0), Some(Token::Comma));
    assert_eq!(lex.next().map(|p| p.0), Some(Token::Word));
    assert_eq!(lex.slice(), &b"fill"[..]);
    assert_eq!(lex.next().map(|p| p.0), Some(Token::EqualSign));
    assert_eq!(lex.next().map(|p| p.0), Some(Token::Word));
    assert_eq!(lex.slice(), &b"gray"[..]);
    assert_eq!(lex.next().map(|p| p.0), Some(Token::ExclamationMark));
    assert_eq!(lex.next().map(|p| p.0), Some(Token::Number));
    assert_eq!(lex.slice(), &b"60"[..]);
    assert_eq!(lex.next().map(|p| p.0), Some(Token::BracketClose));
    assert_eq!(lex.next().map(|p| p.0), Some(Token::TabsOrSpaces));
    assert_eq!(lex.next().map(|p| p.0), Some(Token::ParenOpen));
    assert_eq!(lex.next().map(|p| p.0), Some(Token::Number));
    assert_eq!(lex.slice(), &b"0"[..]);
    assert_eq!(lex.next().map(|p| p.0), Some(Token::Comma));
    assert_eq!(lex.next().map(|p| p.0), Some(Token::Number));
    assert_eq!(lex.slice(), &b"0"[..]);
    assert_eq!(lex.next().map(|p| p.0), Some(Token::ParenClose));
    assert_eq!(lex.next().map(|p| p.0), Some(Token::TabsOrSpaces));
    assert_eq!(lex.next().map(|p| p.0), Some(Token::Word));
    assert_eq!(lex.slice(), &b"rectangle"[..]);
    assert_eq!(lex.next().map(|p| p.0), Some(Token::TabsOrSpaces));
    assert_eq!(lex.next().map(|p| p.0), Some(Token::ParenOpen));
    assert_eq!(lex.next().map(|p| p.0), Some(Token::Number));
    assert_eq!(lex.slice(), &b"1"[..]);
    assert_eq!(lex.next().map(|p| p.0), Some(Token::Comma));
    assert_eq!(lex.next().map(|p| p.0), Some(Token::Number));
    assert_eq!(lex.slice(), &b"1"[..]);
    assert_eq!(lex.next().map(|p| p.0), Some(Token::ParenClose));
    assert_eq!(lex.next().map(|p| p.0), Some(Token::Semicolon));
    assert_eq!(lex.next().map(|p| p.0), Some(Token::Newline));

    assert_eq!(lex.next().map(|p| p.0), Some(Token::TabsOrSpaces));
    assert_eq!(
        lex.next().map(|p| p.0),
        Some(Token::EnvironmentEnd(b"tikzpicture".to_vec()))
    );
    assert_eq!(lex.next().map(|p| p.0), Some(Token::Newline));

    assert_eq!(
        lex.next().map(|p| p.0),
        Some(Token::EnvironmentEnd(b"document".to_vec()))
    );
    assert_eq!(lex.next().map(|p| p.0), Some(Token::Newline));

    assert_eq!(lex.next().map(|p| p.0), None);
}

/// An environment name keeps a trailing star; an empty or ill-formed braced
/// name falls back to the plain command name.
#[test]
fn environment_name_edges() {
    assert_token_positions(
        r"\begin{align*}",
        |t| matches!(t, Token::EnvironmentBegin(name) if name.as_slice() == &b"align*"[..]),
        &[(0, 14)],
    );
    assert_token_positions(r"\begin{}", |t| matches!(t, Token::CommandName), &[(0, 6)]);
    assert_token_positions(r"\begin{1}", |t| matches!(t, Token::CommandName), &[(0, 6)]);
    assert_token_positions(r"\begin {x}", |t| matches!(t, Token::CommandName), &[(0, 6)]);
    assert_token_positions(r"\end{x", |t| matches!(t, Token::CommandName), &[(0, 4)]);
}

/// Longest match: a longer letter run beats the specific keywords it starts
/// with.
#[test]
fn keyword_prefix_is_a_command_name() {
    assert_token_positions(r"\documentclassx", |t| matches!(t, Token::CommandName), &[(0, 15)]);
    assert_token_positions(r"\documentclassx", |t| matches!(t, Token::DocumentClass), &[]);
    assert_token_positions(r"\beginning{x}", |t| matches!(t, Token::CommandName), &[(0, 10)]);
}

/// Three dollars split into a double and a single sign, in that order.
#[test]
fn dollar_runs_split_longest_first() {
    assert_token_positions("$$$", |t| matches!(t, Token::DoubleDollarSign), &[(0, 2)]);
    assert_token_positions("$$$", |t| matches!(t, Token::DollarSign), &[(2, 3)]);
}
