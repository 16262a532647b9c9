use untex::tex::category_codes::{scan_catcodes, CategoryCode};

/// Collects the `(start, end)` spans of the bytes classified as `code`.
fn catcode_positions(source: &[u8], code: CategoryCode) -> Vec<(usize, usize)> {
    scan_catcodes(source)
        .into_iter()
        .filter(|(c, _)| *c == code)
        .map(|(_, sp)| (sp.start, sp.end))
        .collect()
}

fn assert_catcode_positions(source: &str, code: CategoryCode, positions: &[(usize, usize)]) {
    let found = catcode_positions(source.as_bytes(), code);
    assert_eq!(
        found.len(),
        positions.len(),
        "The number of tokens found did not match the expected number of positions"
    );
    for (expected, got) in positions.iter().zip(found.iter()) {
        assert_eq!(expected, got);
    }
}

#[test]
fn catcode_escaped_char() {
    assert_catcode_positions(r"Should match \", CategoryCode::EscapedChar, &[(13, 14)]);
}

#[test]
fn catcode_group_begin() {
    assert_catcode_positions("Should match {", CategoryCode::GroupBegin, &[(13, 14)]);
}

#[test]
fn catcode_group_end() {
    assert_catcode_positions("Should match }", CategoryCode::GroupEnd, &[(13, 14)]);
}

#[test]
fn catcode_math_shift() {
    assert_catcode_positions("Should match $", CategoryCode::MathShift, &[(13, 14)]);
}

#[test]
fn catcode_alignment_tab() {
    assert_catcode_positions("Should match &", CategoryCode::AlignmentTab, &[(13, 14)]);
}

#[test]
fn catcode_end_of_line() {
    assert_catcode_positions("Should match \n", CategoryCode::EndOfLine, &[(13, 14)]);
}

#[test]
fn catcode_parameter_char() {
    assert_catcode_positions("Should match #", CategoryCode::ParameterChar, &[(13, 14)]);
}

#[test]
fn catcode_superscript() {
    assert_catcode_positions("Should match ^", CategoryCode::Superscript, &[(13, 14)]);
}

#[test]
fn catcode_subscript() {
    assert_catcode_positions("Should match _", CategoryCode::Subscript, &[(13, 14)]);
}

#[test]
fn catcode_ignored() {
    assert_catcode_positions("Should match \x00", CategoryCode::Ignored, &[(13, 14)]);
}

#[test]
fn catcode_space() {
    assert_catcode_positions("Should_match_ ", CategoryCode::Space, &[(13, 14)]);
}

#[test]
fn catcode_letter() {
    for s in 'A'..'Z' {
        let u = s.to_string();
        let l = s.to_ascii_lowercase().to_string();
        assert_catcode_positions(&u, CategoryCode::Letter, &[(0, 1)]);
        assert_catcode_positions(&l, CategoryCode::Letter, &[(0, 1)]);
    }
}

#[test]
fn catcode_other() {
    for range in [1..10, 11..32, 33..35, 39..65, 91..92, 93..94, 96..97, 124..125] {
        for b in range {
            let c = b as u8 as char;
            let s = c.to_string();
            assert_catcode_positions(&s, CategoryCode::Other, &[(0, 1)]);
        }
    }
}

#[test]
fn catcode_active() {
    assert_catcode_positions("Should match ~", CategoryCode::Active, &[(13, 14)]);
}

#[test]
fn catcode_comment_char() {
    assert_catcode_positions("Should match %", CategoryCode::CommentChar, &[(13, 14)]);
}

#[test]
fn catcode_invalid_char() {
    assert_catcode_positions("Should match \x7F", CategoryCode::InvalidChar, &[(13, 14)]);
}
