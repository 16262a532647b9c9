use untex::chars::CharStream;
use untex::tex::category_codes::CategoryCode;
use untex::lexer::{slice_info, BasicLexer, Lexer, OneTokenLexer};
use untex::token::Token;

/// The character stream yields every character with its position and counts
/// newlines as it passes them.
#[test]
fn char_stream_counts_lines() {
    let mut cs = CharStream::new("ab\ncd");
    assert_eq!(cs.next(), Some((0, 'a')));
    assert_eq!(cs.next(), Some((1, 'b')));
    assert_eq!(cs.lineno, 0);
    assert_eq!(cs.next(), Some((2, '\n')));
    assert_eq!(cs.lineno, 1);
    assert_eq!(cs.next(), Some((3, 'c')));
    assert_eq!(cs.next(), Some((4, 'd')));
    assert_eq!(cs.next(), None);
    assert_eq!(cs.lineno, 1);
    assert_eq!(cs.last_char, Some((4, 'd')));
}

/// Positions are byte offsets: a character beyond ASCII advances the offset
/// by the width of its encoding, exactly as `char_indices` does.
#[test]
fn char_stream_yields_byte_offsets() {
    let mut cs = CharStream::new("aéb");
    let expected: Vec<(usize, char)> = "aéb".char_indices().collect();
    assert_eq!(expected, vec![(0, 'a'), (1, 'é'), (3, 'b')]);
    for p in expected {
        assert_eq!(cs.next(), Some(p));
    }
    assert_eq!(cs.next(), None);
    assert_eq!(cs.last_char, Some((3, 'b')));
}

/// A one-token lexer hands its token out exactly once.
#[test]
fn one_token_lexer_yields_once() {
    let source = b"hello";
    let mut lex = OneTokenLexer::new(&source[..], Token::Word);
    assert_eq!(lex.slice(), &b"hello"[..]);
    assert_eq!(lex.lineno(), 0);
    assert_eq!(lex.filename(), None);
    assert_eq!(lex.next(), Some(Token::Word));
    assert_eq!(lex.next(), None);
    assert_eq!(lex.next(), None);
}

/// The basic lexer scans TeX tokens in order, tracks the bytes of the token
/// it last produced, and counts newline tokens.
#[test]
fn basic_lexer_scans_tex_tokens() {
    let source = b"\\documentclass{article}\n\\title{minimal}";
    let mut lex = BasicLexer::new(&source[..], Some("minimal.tex"));
    assert_eq!(lex.filename(), Some("minimal.tex"));

    assert_eq!(lex.next(), Some(Token::DocumentClass));
    assert_eq!(lex.slice(), &b"\\documentclass"[..]);
    assert_eq!(lex.next(), Some(Token::BraceOpen));
    assert_eq!(lex.next(), Some(Token::Word));
    assert_eq!(lex.slice(), &b"article"[..]);
    assert_eq!(lex.next(), Some(Token::BraceClose));
    assert_eq!(lex.lineno(), 0);
    assert_eq!(lex.next(), Some(Token::Newline));
    assert_eq!(lex.lineno(), 1);
    assert_eq!(lex.next(), Some(Token::MacroName));
    assert_eq!(lex.slice(), &b"\\title"[..]);
    assert_eq!(lex.next(), Some(Token::BraceOpen));
    assert_eq!(lex.next(), Some(Token::Word));
    assert_eq!(lex.next(), Some(Token::BraceClose));
    assert_eq!(lex.next(), None);
}

/// Concatenating the source slices of a complete tokenization reproduces the
/// input exactly: no byte is lost or duplicated, whatever the input.
#[test]
fn tokenization_covers_source() {
    for source in [
        "",
        "\\documentclass{article}\\begin{document}x\\end{document}",
        "% only a comment",
        "wild $$ math \\[ and \\unclosed{ braces",
        "\r alone, then \r\n together é ~ \\",
    ] {
        let mut rebuilt: Vec<u8> = Vec::new();
        for (_, sp) in untex::latex::token::tokenize(source.as_bytes()) {
            rebuilt.extend_from_slice(&source.as_bytes()[sp.start..sp.end]);
        }
        assert_eq!(rebuilt, source.as_bytes());

        let mut rebuilt: Vec<u8> = Vec::new();
        for (_, sp) in untex::token::tokenize(source.as_bytes()) {
            rebuilt.extend_from_slice(&source.as_bytes()[sp.start..sp.end]);
        }
        assert_eq!(rebuilt, source.as_bytes());
    }
}

/// Category code numbers round-trip through `try_from_number`.
#[test]
fn category_code_numbers_round_trip() {
    for n in 0..16usize {
        let code = CategoryCode::try_from_number(n).unwrap();
        assert_eq!(code.number(), n);
    }
    assert_eq!(CategoryCode::try_from_number(16), Err(16));
    assert_eq!(CategoryCode::of_byte(b'\\').number(), 0);
    assert_eq!(CategoryCode::of_byte(b'a').number(), 11);
    assert_eq!(CategoryCode::of_byte(b'7').number(), 12);
}

/// The slice information joins the filename and the line count; a lexer
/// without a filename has none.
#[test]
fn slice_info_formats_filename_and_line() {
    let source = b"a\nb\nc";
    let mut lex = BasicLexer::new(&source[..], Some("minimal.tex"));
    assert_eq!(slice_info(&lex), Some("minimal.tex:0".to_string()));
    while lex.next().is_some() {}
    assert_eq!(lex.lineno(), 2);
    assert_eq!(slice_info(&lex), Some("minimal.tex:2".to_string()));

    let anonymous = OneTokenLexer::new(&source[..], Token::Word);
    assert_eq!(slice_info(&anonymous), None);
}
