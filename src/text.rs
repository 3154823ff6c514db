//! Character classes and scanning helpers shared by the matchers.
use vstd::prelude::*;
use vstd::string::StrSliceExecFns;

verus! {

/// Unicode `White_Space` characters.
pub open spec fn is_space(c: char) -> bool {
    ('\u{9}' <= c && c <= '\u{d}') || c == ' ' || c == '\u{85}' || c == '\u{a0}'
        || c == '\u{1680}' || ('\u{2000}' <= c && c <= '\u{200a}') || c == '\u{2028}'
        || c == '\u{2029}' || c == '\u{202f}' || c == '\u{205f}' || c == '\u{3000}'
}

pub open spec fn is_digit(c: char) -> bool {
    '0' <= c && c <= '9'
}

pub open spec fn is_alnum(c: char) -> bool {
    is_digit(c) || ('a' <= c && c <= 'z') || ('A' <= c && c <= 'Z')
}

/// Unicode word characters (`\w` of regular expressions): `Alphabetic`, `Join_Control`,
/// `Decimal_Number`, `Mark` and `Connector_Punctuation`.
pub uninterp spec fn unicode_word(c: char) -> bool;

/// Relies on `regex_syntax::is_word_character`, the table behind `\w`: whether `c` is a
/// Unicode word character. Its ASCII part is `[_0-9a-zA-Z]`, and no white space or
/// `/ # @ . -` is in the table.
#[verifier::external_body]
pub(crate) fn is_word_char(c: char) -> (r: bool)
    ensures
        r == unicode_word(c),
        (is_alnum(c) || c == '_') ==> r,
        (c == '/' || c == '#' || c == '@' || c == '.' || c == '-' || is_space(c)) ==> !r,
{
    regex_syntax::is_word_character(c)
}

/// `/` is no word character.
pub(crate) fn slash_is_not_word()
    ensures
        !unicode_word('/'),
{
    let _ = is_word_char('/');
}

/// The sets of characters that the matchers scan runs of.
#[derive(Clone, Copy, PartialEq, Eq, Debug)]
pub enum CharClass {
    /// Letters, digits and `-`: an account name.
    Owner,
    /// Word characters, `.` and `-`: a project name.
    Name,
    /// Letters and digits.
    Alnum,
    /// Word characters.
    Word,
    /// Decimal digits.
    Digit,
    /// Anything but `#` and `>`.
    PathChar,
}

pub open spec fn in_class(k: CharClass, c: char) -> bool {
    match k {
        CharClass::Owner => is_alnum(c) || c == '-',
        CharClass::Name => unicode_word(c) || c == '.' || c == '-',
        CharClass::Alnum => is_alnum(c),
        CharClass::Word => unicode_word(c),
        CharClass::Digit => is_digit(c),
        CharClass::PathChar => c != '#' && c != '>',
    }
}

/// Every character of `t[a..b)` is in class `k`.
pub open spec fn all_in(t: Seq<char>, a: int, b: int, k: CharClass) -> bool {
    forall|i: int| a <= i < b ==> in_class(k, #[trigger] t[i])
}

/// `t[a..b)` is a longest run of class `k` that starts at `a`.
pub open spec fn run_to(t: Seq<char>, a: int, b: int, k: CharClass) -> bool {
    &&& 0 <= a <= b <= t.len()
    &&& all_in(t, a, b, k)
    &&& (b == t.len() || !in_class(k, t[b]))
}

/// `t` holds `lit` starting at position `i`.
pub open spec fn lit_at(t: Seq<char>, i: int, lit: Seq<char>) -> bool {
    0 <= i && i + lit.len() <= t.len() && t.subrange(i, i + lit.len()) == lit
}

pub fn is_space_char(c: char) -> (r: bool)
    ensures
        r == is_space(c),
{
    ('\u{9}' <= c && c <= '\u{d}') || c == ' ' || c == '\u{85}' || c == '\u{a0}'
        || c == '\u{1680}' || ('\u{2000}' <= c && c <= '\u{200a}') || c == '\u{2028}'
        || c == '\u{2029}' || c == '\u{202f}' || c == '\u{205f}' || c == '\u{3000}'
}

pub fn class_contains(k: CharClass, c: char) -> (r: bool)
    ensures
        r == in_class(k, c),
{
    let alnum = ('0' <= c && c <= '9') || ('a' <= c && c <= 'z') || ('A' <= c && c <= 'Z');
    match k {
        CharClass::Owner => alnum || c == '-',
        CharClass::Name => is_word_char(c) || c == '.' || c == '-',
        CharClass::Alnum => alnum,
        CharClass::Word => is_word_char(c),
        CharClass::Digit => '0' <= c && c <= '9',
        CharClass::PathChar => c != '#' && c != '>',
    }
}

/// The characters of `s`, in order.
pub fn chars_of(s: &str) -> (v: Vec<char>)
    ensures
        v@ == s@,
{
    let mut v: Vec<char> = Vec::new();
    for c in it: s.chars()
        invariant
            v@ == it.seq().take(it.index() as int),
    {
        v.push(c);
    }
    v
}

/// End of the longest run of class `k` that starts at `a`.
pub fn scan_run(t: &Vec<char>, a: usize, k: CharClass) -> (b: usize)
    requires
        a <= t@.len(),
    ensures
        run_to(t@, a as int, b as int, k),
{
    let mut b = a;
    while b < t.len() && class_contains(k, t[b])
        invariant
            a <= b <= t@.len(),
            all_in(t@, a as int, b as int, k),
        decreases t@.len() - b,
    {
        b = b + 1;
    }
    b
}

/// Whether `t` holds `lit` at position `i`.
pub fn has_lit_at(t: &Vec<char>, i: usize, lit: &str) -> (r: bool)
    ensures
        r == lit_at(t@, i as int, lit@),
{
    let n = lit.unicode_len();
    if n > t.len() || i > t.len() - n {
        return false;
    }
    let mut j: usize = 0;
    while j < n
        invariant
            j <= n,
            n == lit@.len(),
            i + n <= t.len(),
            forall|m: int| 0 <= m < j ==> t@[i + m] == lit@[m],
        decreases n - j,
    {
        if t[i + j] != lit.get_char(j) {
            assert(t@.subrange(i as int, i + n)[j as int] != lit@[j as int]);
            return false;
        }
        j = j + 1;
    }
    assert(t@.subrange(i as int, i + n) =~= lit@);
    true
}

} // verus!
