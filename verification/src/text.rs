use vstd::prelude::*;

verus! {

broadcast use vstd::string::group_string_axioms;

/// The characters of `s`, in order.
pub fn to_chars(s: &str) -> (v: Vec<char>)
    ensures
        v@ == s@,
{
    let mut v: Vec<char> = Vec::new();
    for c in it: s.chars()
        invariant
            v@ == it.seq().take(it.index() as int),
    {
        v.push(c);
    }
    v
}

/// Whether `c` is an ASCII letter, `a`-`z` or `A`-`Z`.
pub open spec fn ascii_letter(c: char) -> bool {
    ('a' <= c && c <= 'z') || ('A' <= c && c <= 'Z')
}

/// Whether `c` is an ASCII digit, `0`-`9`.
pub open spec fn ascii_digit(c: char) -> bool {
    '0' <= c && c <= '9'
}

/// Whether `c` is an ASCII hexadecimal digit, in either case.
pub open spec fn hex_digit(c: char) -> bool {
    ascii_digit(c) || ('a' <= c && c <= 'f') || ('A' <= c && c <= 'F')
}

/// A C0 control, the space, DEL or a C1 control (U+0000 to U+0020 and
/// U+007F to U+009F).
pub open spec fn control_or_space(c: char) -> bool {
    c <= ' ' || ('\u{7f}' <= c && c <= '\u{9f}')
}

/// Character classes that the validators test.
#[derive(Clone, Copy, PartialEq, Eq, Structural, Debug)]
pub enum CharClass {
    /// ASCII letters.
    Letter,
    /// ASCII digits.
    Digit,
    /// ASCII letters and digits.
    LetterOrDigit,
    /// ASCII letters, digits and `.`, `_`, `%`, `+`, `-`.
    EmailLocal,
    /// ASCII letters, digits and `.`, `-`.
    EmailDomain,
    /// ASCII hexadecimal digits.
    Hex,
    /// The digit `0`.
    Zero,
    /// The hexadecimal digit `f`, in either case.
    MaxNibble,
}

/// Whether `class` holds `c`.
pub open spec fn class_has(class: CharClass, c: char) -> bool {
    match class {
        CharClass::Letter => ascii_letter(c),
        CharClass::Digit => ascii_digit(c),
        CharClass::LetterOrDigit => ascii_letter(c) || ascii_digit(c),
        CharClass::EmailLocal => ascii_letter(c) || ascii_digit(c) || c == '.' || c == '_' || c
            == '%' || c == '+' || c == '-',
        CharClass::EmailDomain => ascii_letter(c) || ascii_digit(c) || c == '.' || c == '-',
        CharClass::Hex => hex_digit(c),
        CharClass::Zero => c == '0',
        CharClass::MaxNibble => c == 'f' || c == 'F',
    }
}

/// Whether every character of `s` in positions `lo` (inclusive) to `hi`
/// (exclusive) is in `class`.
pub open spec fn all_in(s: Seq<char>, lo: int, hi: int, class: CharClass) -> bool {
    forall|i: int| lo <= i < hi ==> class_has(class, #[trigger] s[i])
}

/// Whether `class` holds `c`.
pub fn in_class(class: CharClass, c: char) -> (b: bool)
    ensures
        b == class_has(class, c),
{
    let letter = ('a' <= c && c <= 'z') || ('A' <= c && c <= 'Z');
    let digit = '0' <= c && c <= '9';
    match class {
        CharClass::Letter => letter,
        CharClass::Digit => digit,
        CharClass::LetterOrDigit => letter || digit,
        CharClass::EmailLocal => letter || digit || c == '.' || c == '_' || c == '%' || c == '+'
            || c == '-',
        CharClass::EmailDomain => letter || digit || c == '.' || c == '-',
        CharClass::Hex => digit || ('a' <= c && c <= 'f') || ('A' <= c && c <= 'F'),
        CharClass::Zero => c == '0',
        CharClass::MaxNibble => c == 'f' || c == 'F',
    }
}

/// Whether every character of `s` from `lo` up to `hi` is in `class`.
pub fn span_in(s: &Vec<char>, lo: usize, hi: usize, class: CharClass) -> (b: bool)
    requires
        lo <= hi <= s@.len(),
    ensures
        b == all_in(s@, lo as int, hi as int, class),
{
    let mut i = lo;
    while i < hi
        invariant
            lo <= i <= hi <= s@.len(),
            all_in(s@, lo as int, i as int, class),
        decreases hi - i,
    {
        if !in_class(class, s[i]) {
            return false;
        }
        i = i + 1;
    }
    true
}

/// Whether `c` has Unicode's `White_Space` property, the characters that
/// `char::is_whitespace` and `str::trim` treat as white space: U+0009 to
/// U+000D, U+0020, U+0085, U+00A0, U+1680, U+2000 to U+200A, U+2028,
/// U+2029, U+202F, U+205F and U+3000.
pub open spec fn white_space(c: char) -> bool {
    ||| ('\u{9}' <= c && c <= '\u{d}')
    ||| c == ' '
    ||| c == '\u{85}'
    ||| c == '\u{a0}'
    ||| c == '\u{1680}'
    ||| ('\u{2000}' <= c && c <= '\u{200a}')
    ||| c == '\u{2028}'
    ||| c == '\u{2029}'
    ||| c == '\u{202f}'
    ||| c == '\u{205f}'
    ||| c == '\u{3000}'
}

/// Whether `c` is white space.
pub fn is_white_space(c: char) -> (b: bool)
    ensures
        b == white_space(c),
{
    ('\u{9}' <= c && c <= '\u{d}') || c == ' ' || c == '\u{85}' || c == '\u{a0}' || c
        == '\u{1680}' || ('\u{2000}' <= c && c <= '\u{200a}') || c == '\u{2028}' || c
        == '\u{2029}' || c == '\u{202f}' || c == '\u{205f}' || c == '\u{3000}'
}

/// Whether some character of `s` is not white space.
pub open spec fn has_visible(s: Seq<char>) -> bool {
    exists|i: int| 0 <= i < s.len() && !white_space(#[trigger] s[i])
}

/// Whether some character of `s` is not white space.
pub fn any_visible(s: &Vec<char>) -> (b: bool)
    ensures
        b == has_visible(s@),
{
    let n = s.len();
    for i in 0..n
        invariant
            n == s@.len(),
            forall|j: int| 0 <= j < i ==> white_space(#[trigger] s@[j]),
    {
        if !is_white_space(s[i]) {
            return true;
        }
    }
    false
}

/// Whether no character of `s` is a control character or a space.
pub open spec fn free_of_controls(s: Seq<char>) -> bool {
    forall|i: int| 0 <= i < s.len() ==> !control_or_space(#[trigger] s[i])
}

/// Whether no character of `s` is a control character or a space.
pub fn no_controls(s: &Vec<char>) -> (b: bool)
    ensures
        b == free_of_controls(s@),
{
    let n = s.len();
    for i in 0..n
        invariant
            n == s@.len(),
            forall|j: int| 0 <= j < i ==> !control_or_space(#[trigger] s@[j]),
    {
        let c = s[i];
        if c <= ' ' || ('\u{7f}' <= c && c <= '\u{9f}') {
            return false;
        }
    }
    true
}

} // verus!
