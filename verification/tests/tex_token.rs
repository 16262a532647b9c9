use untex::token::{tokenize, Token};

/// Collects the `(start, end)` spans of the tokens matching `pred`.
fn token_positions(source: &str, pred: fn(&Token) -> bool) -> Vec<(usize, usize)> {
    tokenize(source.as_bytes())
        .into_iter()
        .filter(|(t, _)| pred(t))
        .map(|(_, sp)| (sp.start, sp.end))
        .collect()
}

fn assert_token_positions(source: &str, pred: fn(&Token) -> bool, positions: &[(usize, usize)]) {
    let found = token_positions(source, pred);
    assert_eq!(
        found.len(),
        positions.len(),
        "The number of tokens found did not match the expected number of positions"
    );
    for (expected, got) in positions.iter().zip(found.iter()) {
        assert_eq!(expected, got);
    }
}

#[test]
fn token_token_and() {
    assert_token_positions(r"Should match &, but not \&", |t| matches!(t, Token::And), &[(13, 14)]);
}

#[test]
fn token_token_asterix() {
    assert_token_positions(
        r"\section*{title} Doing some math $a * b$",
        |t| matches!(t, Token::Asterix),
        &[(8, 9), (36, 37)],
    );
}

#[test]
fn token_backslash() {
    assert_token_positions(
        r"Should match \+, but not \\+",
        |t| matches!(t, Token::Backslash),
        &[(13, 14)],
    );
}

#[test]
fn token_token_brace_open() {
    assert_token_positions(
        r"Should match {, but not \{",
        |t| matches!(t, Token::BraceOpen),
        &[(13, 14)],
    );
}

#[test]
fn token_token_brace_close() {
    assert_token_positions(
        r"Should match }, but not \}",
        |t| matches!(t, Token::BraceClose),
        &[(13, 14)],
    );
}

#[test]
fn token_token_bracket_open() {
    assert_token_positions(
        r"Should match [, but not \[",
        |t| matches!(t, Token::BracketOpen),
        &[(13, 14)],
    );
}

#[test]
fn token_token_bracket_close() {
    assert_token_positions(
        r"Should match ], but not \]",
        |t| matches!(t, Token::BracketClose),
        &[(13, 14)],
    );
}

#[test]
fn token_token_comment() {
    assert_token_positions(
        "% this is a comment\n            \\% this is not a comment",
        |t| matches!(t, Token::Comment),
        &[(0, 19)],
    );
}

#[test]
fn token_token_display_math_open() {
    assert_token_positions(
        r"Should match \[, but not [",
        |t| matches!(t, Token::DisplayMathOpen),
        &[(13, 15)],
    );
}

#[test]
fn token_token_display_math_close() {
    assert_token_positions(
        r"Should match \], but not ]",
        |t| matches!(t, Token::DisplayMathClose),
        &[(13, 15)],
    );
}

#[test]
fn token_token_document_class() {
    assert_token_positions(
        r"\documentclass{article}",
        |t| matches!(t, Token::DocumentClass),
        &[(0, 14)],
    );
}

#[test]
fn token_token_dollar_sign() {
    assert_token_positions(
        r"Should match $, but not $$",
        |t| matches!(t, Token::DollarSign),
        &[(13, 14)],
    );
}

#[test]
fn token_token_double_backslash() {
    assert_token_positions(
        r"Should match \\, but not \",
        |t| matches!(t, Token::DoubleBackslash),
        &[(13, 15)],
    );
}

#[test]
fn token_token_double_dollar_sign() {
    assert_token_positions(
        r"Should match $$, but not $",
        |t| matches!(t, Token::DoubleDollarSign),
        &[(13, 15)],
    );
}

#[test]
fn token_token_escaped_char() {
    for s in ["{", "}", "_", "$", "&", "%", "#"] {
        assert_token_positions(
            &format!("Should match \\{s}, but not {s}"),
            |t| matches!(t, Token::EscapedChar),
            &[(13, 15)],
        );
    }
}

#[test]
fn token_token_environment_begin() {
    assert_token_positions(
        r"\begin{equation}",
        |t| matches!(t, Token::EnvironmentBegin),
        &[(0, 6)],
    );
}

#[test]
fn token_token_environment_end() {
    assert_token_positions(r"\end{equation}", |t| matches!(t, Token::EnvironmentEnd), &[(0, 4)]);
}

#[test]
fn token_token_hash() {
    assert_token_positions(
        r"Should match #, but not \#",
        |t| matches!(t, Token::Hash),
        &[(13, 14)],
    );
}

#[test]
fn token_token_hat() {
    assert_token_positions("Should match ^", |t| matches!(t, Token::Hat), &[(13, 14)]);
}

#[test]
fn token_token_inline_math_open() {
    assert_token_positions(
        r"Should match \(, but not (",
        |t| matches!(t, Token::InlineMathOpen),
        &[(13, 15)],
    );
}

#[test]
fn token_token_inline_math_close() {
    assert_token_positions(
        r"Should match \), but not )",
        |t| matches!(t, Token::InlineMathClose),
        &[(13, 15)],
    );
}

#[test]
fn token_token_insert_space() {
    for s in [",", ":", ";", "!", " "] {
        assert_token_positions(
            &format!("Should match \\{s}, but not {s}"),
            |t| matches!(t, Token::InsertSpace),
            &[(13, 15)],
        );
    }
}

#[test]
fn token_macro_name() {
    assert_token_positions(
        r"\sin\cos\text{some text}\alpha1234",
        |t| matches!(t, Token::MacroName),
        &[(0, 4), (4, 8), (8, 13), (24, 30)],
    );
}

#[test]
fn token_token_newline() {
    assert_token_positions(
        "Hello\nMy name is\r\nJérome",
        |t| matches!(t, Token::Newline),
        &[(5, 6), (16, 18)],
    );
}

#[test]
fn token_token_tabs_or_spaces() {
    assert_token_positions(
        "Should match \t, but not \\ ",
        |t| matches!(t, Token::TabsOrSpaces),
        &[(6, 7), (12, 14), (15, 16), (19, 20), (23, 24)],
    );
}

#[test]
fn token_token_tilde() {
    assert_token_positions("Should match ~", |t| matches!(t, Token::Tilde), &[(13, 14)]);
}

#[test]
fn token_token_underscore() {
    assert_token_positions(
        r"Should match _, but not \_",
        |t| matches!(t, Token::Underscore),
        &[(13, 14)],
    );
}

#[test]
fn token_token_word() {
    assert_token_positions(
        r"Should match words, commas or symbols!",
        |t| matches!(t, Token::Word),
        &[(0, 6), (7, 12), (13, 18), (18, 19), (20, 26), (27, 29), (30, 37), (37, 38)],
    );
}
