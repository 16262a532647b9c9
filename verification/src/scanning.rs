//! Byte classes and maximal-run scanning shared by the lexers.

use vstd::prelude::*;

verus! {

// ASCII codes of the bytes the grammars single out.
pub const B_TAB: u8 = 9;
pub const B_NL: u8 = 10;
pub const B_CR: u8 = 13;
pub const B_SP: u8 = 32;
pub const B_BANG: u8 = 33;
pub const B_HASH: u8 = 35;
pub const B_DOLLAR: u8 = 36;
pub const B_PERCENT: u8 = 37;
pub const B_AMP: u8 = 38;
pub const B_LPAREN: u8 = 40;
pub const B_RPAREN: u8 = 41;
pub const B_STAR: u8 = 42;
pub const B_PLUS: u8 = 43;
pub const B_COMMA: u8 = 44;
pub const B_HYPHEN: u8 = 45;
pub const B_DOT: u8 = 46;
pub const B_COLON: u8 = 58;
pub const B_SEMI: u8 = 59;
pub const B_EQUALS: u8 = 61;
pub const B_QMARK: u8 = 63;
pub const B_AT: u8 = 64;
pub const B_LBRACKET: u8 = 91;
pub const B_BACKSLASH: u8 = 92;
pub const B_RBRACKET: u8 = 93;
pub const B_CARET: u8 = 94;
pub const B_UNDERSCORE: u8 = 95;
pub const B_LBRACE: u8 = 123;
pub const B_RBRACE: u8 = 125;
pub const B_TILDE: u8 = 126;

/// True for ASCII letters.
pub open spec fn is_letter(b: u8) -> bool {
    (97 <= b && b <= 122) || (65 <= b && b <= 90)
}

/// True for ASCII digits.
pub open spec fn is_digit(b: u8) -> bool {
    48 <= b && b <= 57
}

/// True for a space or a tab.
pub open spec fn is_space_or_tab(b: u8) -> bool {
    b == B_SP || b == B_TAB
}

/// True for word bytes: ASCII letters, digits and the underscore.
pub open spec fn is_word_byte(b: u8) -> bool {
    is_letter(b) || is_digit(b) || b == B_UNDERSCORE
}

/// True for every byte but the newline; a comment runs through these.
pub open spec fn is_not_newline(b: u8) -> bool {
    b != B_NL
}

/// `is_letter` as a first-class predicate, for `run_end`.
pub open spec fn letter_pred() -> spec_fn(u8) -> bool {
    |b: u8| is_letter(b)
}

/// `is_digit` as a first-class predicate, for `run_end`.
pub open spec fn digit_pred() -> spec_fn(u8) -> bool {
    |b: u8| is_digit(b)
}

/// `is_space_or_tab` as a first-class predicate, for `run_end`.
pub open spec fn space_tab_pred() -> spec_fn(u8) -> bool {
    |b: u8| is_space_or_tab(b)
}

/// `is_word_byte` as a first-class predicate, for `run_end`.
pub open spec fn word_pred() -> spec_fn(u8) -> bool {
    |b: u8| is_word_byte(b)
}

/// `is_not_newline` as a first-class predicate, for `run_end`.
pub open spec fn not_newline_pred() -> spec_fn(u8) -> bool {
    |b: u8| is_not_newline(b)
}

/// Tests `is_letter`.
pub fn letter(b: u8) -> (r: bool)
    ensures
        r == is_letter(b),
{
    (97 <= b && b <= 122) || (65 <= b && b <= 90)
}

/// End of the maximal run of bytes satisfying `pred` that starts at `i`.
pub open spec fn run_end(s: Seq<u8>, i: int, pred: spec_fn(u8) -> bool) -> int
    decreases s.len() - i,
{
    if 0 <= i < s.len() && pred(s[i]) {
        run_end(s, i + 1, pred)
    } else {
        i
    }
}

/// The maximal run starting at `i` ends within the buffer, every byte of it
/// satisfies `pred`, and the byte after it (if any) does not.
pub proof fn lemma_run_end(s: Seq<u8>, i: int, pred: spec_fn(u8) -> bool)
    requires
        0 <= i <= s.len(),
    ensures
        i <= run_end(s, i, pred) <= s.len(),
        forall|k: int| i <= k < run_end(s, i, pred) ==> pred(s[k]),
        run_end(s, i, pred) < s.len() ==> !pred(s[run_end(s, i, pred)]),
    decreases s.len() - i,
{
    if i < s.len() && pred(s[i]) {
        lemma_run_end(s, i + 1, pred);
    }
}

/// Any position `e` bounding a `pred`-run from `i` with a non-`pred` byte
/// (or the buffer end) after it is the maximal run's end.
pub proof fn lemma_run_end_unique(s: Seq<u8>, i: int, e: int, pred: spec_fn(u8) -> bool)
    requires
        0 <= i <= e <= s.len(),
        forall|k: int| i <= k < e ==> pred(s[k]),
        e < s.len() ==> !pred(s[e]),
    ensures
        run_end(s, i, pred) == e,
    decreases e - i,
{
    if i < e {
        assert(pred(s[i]));
        lemma_run_end_unique(s, i + 1, e, pred);
    }
}

/// Scans the maximal run of ASCII letters starting at `i`.
pub fn letter_run(s: &[u8], i: usize) -> (e: usize)
    requires
        i <= s@.len(),
    ensures
        e == run_end(s@, i as int, letter_pred()),
        i <= e <= s@.len(),
{
    let n = s.len();
    let mut j = i;
    while j < n && letter(s[j])
        invariant
            i <= j <= n,
            n == s@.len(),
            forall|k: int| i <= k < j ==> is_letter(s@[k]),
        decreases n - j,
    {
        j += 1;
    }
    proof {
        lemma_run_end_unique(s@, i as int, j as int, letter_pred());
    }
    j
}

/// Scans the maximal run of ASCII digits starting at `i`.
pub fn digit_run(s: &[u8], i: usize) -> (e: usize)
    requires
        i <= s@.len(),
    ensures
        e == run_end(s@, i as int, digit_pred()),
        i <= e <= s@.len(),
{
    let n = s.len();
    let mut j = i;
    while j < n && 48 <= s[j] && s[j] <= 57
        invariant
            i <= j <= n,
            n == s@.len(),
            forall|k: int| i <= k < j ==> is_digit(s@[k]),
        decreases n - j,
    {
        j += 1;
    }
    proof {
        lemma_run_end_unique(s@, i as int, j as int, digit_pred());
    }
    j
}

/// Scans the maximal run of spaces and tabs starting at `i`.
pub fn space_tab_run(s: &[u8], i: usize) -> (e: usize)
    requires
        i <= s@.len(),
    ensures
        e == run_end(s@, i as int, space_tab_pred()),
        i <= e <= s@.len(),
{
    let n = s.len();
    let mut j = i;
    while j < n && (s[j] == B_SP || s[j] == B_TAB)
        invariant
            i <= j <= n,
            n == s@.len(),
            forall|k: int| i <= k < j ==> is_space_or_tab(s@[k]),
        decreases n - j,
    {
        j += 1;
    }
    proof {
        lemma_run_end_unique(s@, i as int, j as int, space_tab_pred());
    }
    j
}

/// Scans the maximal run of word bytes starting at `i`.
pub fn word_run(s: &[u8], i: usize) -> (e: usize)
    requires
        i <= s@.len(),
    ensures
        e == run_end(s@, i as int, word_pred()),
        i <= e <= s@.len(),
{
    let n = s.len();
    let mut j = i;
    while j < n && (letter(s[j]) || (48 <= s[j] && s[j] <= 57) || s[j] == B_UNDERSCORE)
        invariant
            i <= j <= n,
            n == s@.len(),
            forall|k: int| i <= k < j ==> is_word_byte(s@[k]),
        decreases n - j,
    {
        j += 1;
    }
    proof {
        lemma_run_end_unique(s@, i as int, j as int, word_pred());
    }
    j
}

/// Scans to the end of the line that starts at `i`: the next newline byte,
/// exclusive, or the end of the buffer.
pub fn line_run(s: &[u8], i: usize) -> (e: usize)
    requires
        i <= s@.len(),
    ensures
        e == run_end(s@, i as int, not_newline_pred()),
        i <= e <= s@.len(),
{
    let n = s.len();
    let mut j = i;
    while j < n && s[j] != B_NL
        invariant
            i <= j <= n,
            n == s@.len(),
            forall|k: int| i <= k < j ==> is_not_newline(s@[k]),
        decreases n - j,
    {
        j += 1;
    }
    proof {
        lemma_run_end_unique(s@, i as int, j as int, not_newline_pred());
    }
    j
}

/// The byte width a UTF-8 sequence announces through its leading byte; a
/// byte that cannot lead a sequence counts for one.
pub open spec fn utf8_leading_width(b: u8) -> int {
    if b < 0x80 {
        1
    } else if 0xc2 <= b && b <= 0xdf {
        2
    } else if 0xe0 <= b && b <= 0xef {
        3
    } else if 0xf0 <= b && b <= 0xf4 {
        4
    } else {
        1
    }
}

/// How far a single fallback token starting at `i` reaches: one whole UTF-8
/// sequence as announced by its leading byte, clamped to the buffer.
pub open spec fn fallback_end(s: Seq<u8>, i: int) -> int {
    let w = utf8_leading_width(s[i]);
    if i + w <= s.len() {
        i + w
    } else {
        s.len() as int
    }
}

/// Computes `fallback_end` for the byte at `i`.
pub fn fallback_run(s: &[u8], i: usize) -> (e: usize)
    requires
        i < s@.len(),
    ensures
        e == fallback_end(s@, i as int),
        i < e <= s@.len(),
{
    let n = s.len();
    let b = s[i];
    let w: usize = if b < 0x80 {
        1
    } else if 0xc2 <= b && b <= 0xdf {
        2
    } else if 0xe0 <= b && b <= 0xef {
        3
    } else if 0xf0 <= b && b <= 0xf4 {
        4
    } else {
        1
    };
    if n - i >= w {
        i + w
    } else {
        n
    }
}

/// True when `s[start..end)` spells exactly the bytes of `kw`.
pub open spec fn spells(s: Seq<u8>, start: int, end: int, kw: Seq<u8>) -> bool {
    &&& 0 <= start <= end <= s.len()
    &&& end - start == kw.len()
    &&& forall|k: int| 0 <= k < kw.len() ==> s[start + k] == kw[k]
}

/// Compares `s[start..end)` against `kw`.
pub fn spells_at(s: &[u8], start: usize, end: usize, kw: &[u8]) -> (r: bool)
    requires
        start <= end <= s@.len(),
    ensures
        r == spells(s@, start as int, end as int, kw@),
{
    if end - start != kw.len() {
        return false;
    }
    let mut k: usize = 0;
    while k < kw.len()
        invariant
            start <= end <= s@.len(),
            end - start == kw@.len(),
            k <= kw@.len(),
            forall|m: int| 0 <= m < k ==> s@[start + m] == kw@[m],
        decreases kw@.len() - k,
    {
        if s[start + k] != kw[k] {
            return false;
        }
        k += 1;
    }
    true
}

} // verus!
