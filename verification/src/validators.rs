use vstd::prelude::*;

use crate::errors::{opt_view, outcome, reject, verdict, ErrorView, ValidationError};
use crate::text::{
    all_in, any_visible, class_has, free_of_controls, has_visible, no_controls, span_in,
    to_chars, CharClass,
};

verus! {

// ---------------------------------------------------------------- emails

/// `s` splits as `local "@" domain "." tld` at positions `at` and `dot`:
/// a non-empty local part of letters, digits and `._%+-`, a non-empty
/// domain of letters, digits and `.-`, and a top-level label of at least
/// two ASCII letters.
pub open spec fn email_split(s: Seq<char>, at: int, dot: int) -> bool {
    &&& 0 < at
    &&& at + 1 < dot
    &&& dot + 2 < s.len()
    &&& s[at] == '@'
    &&& s[dot] == '.'
    &&& all_in(s, 0, at, CharClass::EmailLocal)
    &&& all_in(s, at + 1, dot, CharClass::EmailDomain)
    &&& all_in(s, dot + 1, s.len() as int, CharClass::Letter)
}

/// Whether `s` is an email address: `local@domain.tld` as [`email_split`]
/// describes.
pub open spec fn email_accepts(s: Seq<char>) -> bool {
    exists|at: int, dot: int| email_split(s, at, dot)
}

fn email_ok(s: &Vec<char>) -> (b: bool)
    ensures
        b == email_accepts(s@),
{
    let n = s.len();
    let mut at: usize = 0;
    while at < n && s[at] != '@'
        invariant
            at <= n == s@.len(),
            forall|j: int| 0 <= j < at ==> s@[j] != '@',
        decreases n - at,
    {
        at = at + 1;
    }
    let mut k: usize = n;
    while k > 0 && s[k - 1] != '.'
        invariant
            k <= n == s@.len(),
            forall|j: int| k <= j < n ==> s@[j] != '.',
        decreases k,
    {
        k = k - 1;
    }
    // Any split must put the `@` at the first `@` and the `.` at the last `.`.
    assert forall|a: int, d: int| email_split(s@, a, d) implies a == at && k > 0 && d == k - 1 by {
        if a < at {
            assert(s@[a] != '@');
        }
        if at < a {
            assert(class_has(CharClass::EmailLocal, s@[at as int]));
        }
        if d >= k {
            assert(s@[d] != '.');
        }
        if k > 0 && d < k - 1 {
            assert(class_has(CharClass::Letter, s@[k - 1]));
        }
    }
    if at == n || at == 0 || k == 0 {
        return false;
    }
    let dot = k - 1;
    if !(at + 1 < dot && n - dot > 2) {
        return false;
    }
    let b = span_in(s, 0, at, CharClass::EmailLocal) && span_in(
        s,
        at + 1,
        dot,
        CharClass::EmailDomain,
    ) && span_in(s, dot + 1, n, CharClass::Letter);
    proof {
        if b {
            assert(email_split(s@, at as int, dot as int));
        }
    }
    b
}

/// What [`IsEmail`] answers for `value` in `field`.
pub open spec fn email_verdict(value: Seq<char>, field: Seq<char>) -> Result<(), ErrorView> {
    verdict(email_accepts(value), field, "must be a valid email address"@, "email"@)
}

/// Email address validator.
pub struct IsEmail;

impl IsEmail {
    /// Accept `value` exactly when it is `local@domain.tld` (see
    /// [`email_accepts`]).
    pub fn validate(value: &str, field: &str) -> (r: Result<(), ValidationError>)
        ensures
            outcome(r) == email_verdict(value@, field@),
    {
        let s = to_chars(value);
        if email_ok(&s) {
            Ok(())
        } else {
            reject(field, "must be a valid email address", "email")
        }
    }
}

// ------------------------------------------------------------------ URLs

/// The scheme of the absolute URL that `url::Url::parse` reads from `text`,
/// or `None` where it reads none.
pub uninterp spec fn parsed_url_scheme(text: Seq<char>) -> Option<Seq<char>>;

/// `url::Url::parse` followed, on success, by `Url::scheme`. The contract
/// claims only that the answer is the one `parsed_url_scheme` names for
/// `text`; the WHATWG parsing rules behind it are not written out here.
#[verifier::external_body]
fn url_scheme(text: &str) -> (r: Option<String>)
    ensures
        opt_view(r) == parsed_url_scheme(text@),
{
    match url::Url::parse(text) {
        Ok(u) => Some(u.scheme().to_owned()),
        Err(_) => None,
    }
}

/// Whether `s` is an accepted URL: it holds no control character and no
/// space, and it parses as an absolute URL whose scheme is `http` or
/// `https`.
pub open spec fn url_accepts(s: Seq<char>) -> bool {
    &&& free_of_controls(s)
    &&& (parsed_url_scheme(s) == Some("http"@) || parsed_url_scheme(s) == Some("https"@))
}

/// What [`IsUrl`] answers for `value` in `field`.
pub open spec fn url_verdict(value: Seq<char>, field: Seq<char>) -> Result<(), ErrorView> {
    verdict(url_accepts(value), field, "must be a valid URL"@, "url"@)
}

/// URL validator.
pub struct IsUrl;

impl IsUrl {
    /// Accept `value` exactly when [`url_accepts`] holds of it. Control
    /// characters and spaces are refused before parsing, since the parser
    /// would drop them silently while the caller keeps the text as given.
    pub fn validate(value: &str, field: &str) -> (r: Result<(), ValidationError>)
        ensures
            outcome(r) == url_verdict(value@, field@),
    {
        let s = to_chars(value);
        if !no_controls(&s) {
            return reject(field, "must be a valid URL", "url");
        }
        let http = "http".to_owned();
        let https = "https".to_owned();
        match url_scheme(value) {
            Some(scheme) => {
                if scheme == http || scheme == https {
                    Ok(())
                } else {
                    reject(field, "must be a valid URL", "url")
                }
            },
            None => reject(field, "must be a valid URL", "url"),
        }
    }
}

// ---------------------------------------------------------------- patterns

#[verifier::external_type_specification]
#[verifier::external_body]
pub struct ExRegexError(regex::Error);

/// Whether `regex::Regex::new` accepts `pattern`.
pub uninterp spec fn regex_compiles(pattern: Seq<char>) -> bool;

/// Whether the regex compiled from `pattern` matches somewhere in `haystack`.
pub uninterp spec fn regex_finds(pattern: Seq<char>, haystack: Seq<char>) -> bool;

/// What [`Matches`] for `pattern` answers for `value` in `field`.
pub open spec fn pattern_verdict(pattern: Seq<char>, value: Seq<char>, field: Seq<char>) -> Result<(), ErrorView> {
    verdict(regex_finds(pattern, value), field, "does not match the required pattern"@, "matches"@)
}

/// Regular expression validator: holds a regex compiled by
/// `regex::Regex::new`. Its regex is out of Verus's sight; only the trusted
/// functions below build, copy or run one.
#[verifier::external_body]
#[derive(Debug)]
pub struct Matches {
    regex: regex::Regex,
}

/// The pattern that the regex held by `m` was compiled from.
pub uninterp spec fn matches_pattern(m: Matches) -> Seq<char>;

/// `regex::Regex::new`. The contract claims that it succeeds exactly when
/// `regex_compiles` holds of the pattern, and that the regex it gives is
/// the one compiled from `pattern`; the regex syntax and size limits behind
/// that are not written out here.
#[verifier::external_body]
fn compile_matches(pattern: &str) -> (r: Result<Matches, regex::Error>)
    ensures
        r is Ok <==> regex_compiles(pattern@),
        r matches Ok(m) ==> matches_pattern(m) == pattern@,
{
    match regex::Regex::new(pattern) {
        Ok(regex) => Ok(Matches { regex }),
        Err(e) => Err(e),
    }
}

/// `regex::Regex::is_match` on the regex that `m` holds. The contract claims
/// that the answer is the one `regex_finds` names for the pattern the regex
/// was compiled from and `haystack`; regex matching itself is not written
/// out here.
#[verifier::external_body]
fn regex_is_match(m: &Matches, haystack: &str) -> (b: bool)
    ensures
        b == regex_finds(matches_pattern(*m), haystack@),
{
    m.regex.is_match(haystack)
}

/// `Regex::clone`: the copy is the same compiled regex, from the same
/// pattern.
#[verifier::external_body]
fn clone_matches(m: &Matches) -> (r: Matches)
    ensures
        matches_pattern(r) == matches_pattern(*m),
{
    Matches { regex: m.regex.clone() }
}

impl Clone for Matches {
    fn clone(&self) -> (r: Self)
        ensures
            r.pattern() == self.pattern(),
    {
        clone_matches(self)
    }
}

/// A pattern that `regex::Regex::new` refused, with the reason it gave.
#[derive(Debug)]
pub struct InvalidPattern {
    /// The refused pattern.
    pub pattern: String,
    /// The regex crate's description of the problem.
    pub reason: String,
}

/// The text of a `regex::Error`, as its `Display` impl writes it. Nothing is
/// claimed of the text.
#[verifier::external_body]
fn regex_error_text(e: &regex::Error) -> String {
    e.to_string()
}

impl Matches {
    /// The pattern the regex was compiled from.
    pub open spec fn pattern(&self) -> Seq<char> {
        matches_pattern(*self)
    }

    /// Compile `pattern`; fails exactly when `regex::Regex::new` refuses it.
    pub fn new(pattern: &str) -> (r: Result<Matches, InvalidPattern>)
        ensures
            r is Ok <==> regex_compiles(pattern@),
            r matches Ok(m) ==> m.pattern() == pattern@,
            r matches Err(e) ==> e.pattern@ == pattern@,
    {
        match compile_matches(pattern) {
            Ok(m) => Ok(m),
            Err(e) => Err(InvalidPattern { pattern: pattern.to_owned(), reason: regex_error_text(&e) }),
        }
    }

    /// Accept `value` exactly when the regex matches somewhere in it.
    pub fn validate(&self, value: &str, field: &str) -> (r: Result<(), ValidationError>)
        ensures
            outcome(r) == pattern_verdict(self.pattern(), value@, field@),
    {
        if regex_is_match(self, value) {
            Ok(())
        } else {
            reject(field, "does not match the required pattern", "matches")
        }
    }
}

// ---------------------------------------------------------------- UUIDs

/// The five hexadecimal groups of a hyphenated UUID, at positions 0-7,
/// 9-12, 14-17, 19-22 and 24-35, are all in `class`.
pub open spec fn uuid_groups(s: Seq<char>, class: CharClass) -> bool {
    &&& all_in(s, 0, 8, class)
    &&& all_in(s, 9, 13, class)
    &&& all_in(s, 14, 18, class)
    &&& all_in(s, 19, 23, class)
    &&& all_in(s, 24, 36, class)
}

/// `s` is 36 characters `8-4-4-4-12` of hexadecimal digits in either case.
pub open spec fn uuid_layout(s: Seq<char>) -> bool {
    &&& s.len() == 36
    &&& s[8] == '-'
    &&& s[13] == '-'
    &&& s[18] == '-'
    &&& s[23] == '-'
    &&& uuid_groups(s, CharClass::Hex)
}

/// Whether `s` is a UUID in the RFC 9562 text form: the hyphenated layout,
/// in either case, and either a version digit `1`-`8` at position 14 with a
/// variant digit `8`, `9`, `a` or `b` at position 19, or the nil UUID (all
/// zeros) or the max UUID (all `f`).
pub open spec fn uuid_accepts(s: Seq<char>) -> bool {
    &&& uuid_layout(s)
    &&& {
        ||| ('1' <= s[14] && s[14] <= '8' && (s[19] == '8' || s[19] == '9' || s[19] == 'a'
            || s[19] == 'b' || s[19] == 'A' || s[19] == 'B'))
        ||| uuid_groups(s, CharClass::Zero)
        ||| uuid_groups(s, CharClass::MaxNibble)
    }
}

fn groups_in(s: &Vec<char>, class: CharClass) -> (b: bool)
    requires
        s@.len() == 36,
    ensures
        b == uuid_groups(s@, class),
{
    span_in(s, 0, 8, class) && span_in(s, 9, 13, class) && span_in(s, 14, 18, class) && span_in(
        s,
        19,
        23,
        class,
    ) && span_in(s, 24, 36, class)
}

fn uuid_ok(s: &Vec<char>) -> (b: bool)
    ensures
        b == uuid_accepts(s@),
{
    if s.len() != 36 {
        return false;
    }
    if !(s[8] == '-' && s[13] == '-' && s[18] == '-' && s[23] == '-') {
        return false;
    }
    if !groups_in(s, CharClass::Hex) {
        return false;
    }
    let v = s[14];
    let w = s[19];
    if '1' <= v && v <= '8' && (w == '8' || w == '9' || w == 'a' || w == 'b' || w == 'A' || w
        == 'B') {
        return true;
    }
    groups_in(s, CharClass::Zero) || groups_in(s, CharClass::MaxNibble)
}

/// What [`IsUuid`] answers for `value` in `field`.
pub open spec fn uuid_verdict(value: Seq<char>, field: Seq<char>) -> Result<(), ErrorView> {
    verdict(uuid_accepts(value), field, "must be a valid UUID"@, "uuid"@)
}

/// UUID validator.
pub struct IsUuid;

impl IsUuid {
    /// Accept `value` exactly when it is a UUID as [`uuid_accepts`] states.
    pub fn validate(value: &str, field: &str) -> (r: Result<(), ValidationError>)
        ensures
            outcome(r) == uuid_verdict(value@, field@),
    {
        let s = to_chars(value);
        if uuid_ok(&s) {
            Ok(())
        } else {
            reject(field, "must be a valid UUID", "uuid")
        }
    }
}

// ------------------------------------------------------ character classes

/// `s` is non-empty and every character of it is in `class`.
pub open spec fn nonempty_run(s: Seq<char>, class: CharClass) -> bool {
    s.len() > 0 && all_in(s, 0, s.len() as int, class)
}

fn run_ok(s: &Vec<char>, class: CharClass) -> (b: bool)
    ensures
        b == nonempty_run(s@, class),
{
    s.len() > 0 && span_in(s, 0, s.len(), class)
}

/// What [`IsAlpha`] answers for `value` in `field`.
pub open spec fn alpha_verdict(value: Seq<char>, field: Seq<char>) -> Result<(), ErrorView> {
    verdict(nonempty_run(value, CharClass::Letter), field, "must contain only letters"@, "alpha"@)
}

/// Letters-only validator.
pub struct IsAlpha;

impl IsAlpha {
    /// Accept `value` exactly when it is a non-empty run of ASCII letters.
    pub fn validate(value: &str, field: &str) -> (r: Result<(), ValidationError>)
        ensures
            outcome(r) == alpha_verdict(value@, field@),
    {
        let s = to_chars(value);
        if run_ok(&s, CharClass::Letter) {
            Ok(())
        } else {
            reject(field, "must contain only letters", "alpha")
        }
    }
}

/// What [`IsAlphanumeric`] answers for `value` in `field`.
pub open spec fn alphanumeric_verdict(value: Seq<char>, field: Seq<char>) -> Result<(), ErrorView> {
    verdict(
        nonempty_run(value, CharClass::LetterOrDigit),
        field,
        "must contain only letters and digits"@,
        "alphanumeric"@,
    )
}

/// Letters-and-digits validator.
pub struct IsAlphanumeric;

impl IsAlphanumeric {
    /// Accept `value` exactly when it is a non-empty run of ASCII letters and
    /// digits.
    pub fn validate(value: &str, field: &str) -> (r: Result<(), ValidationError>)
        ensures
            outcome(r) == alphanumeric_verdict(value@, field@),
    {
        let s = to_chars(value);
        if run_ok(&s, CharClass::LetterOrDigit) {
            Ok(())
        } else {
            reject(field, "must contain only letters and digits", "alphanumeric")
        }
    }
}

/// What [`IsNumeric`] answers for `value` in `field`.
pub open spec fn numeric_verdict(value: Seq<char>, field: Seq<char>) -> Result<(), ErrorView> {
    verdict(nonempty_run(value, CharClass::Digit), field, "must contain only digits"@, "numeric"@)
}

/// Digits-only validator.
pub struct IsNumeric;

impl IsNumeric {
    /// Accept `value` exactly when it is a non-empty run of ASCII digits.
    pub fn validate(value: &str, field: &str) -> (r: Result<(), ValidationError>)
        ensures
            outcome(r) == numeric_verdict(value@, field@),
    {
        let s = to_chars(value);
        if run_ok(&s, CharClass::Digit) {
            Ok(())
        } else {
            reject(field, "must contain only digits", "numeric")
        }
    }
}

// ------------------------------------------------------- emptiness, length

/// What [`NotEmpty`] answers for `value` in `field`.
pub open spec fn not_empty_verdict(value: Seq<char>, field: Seq<char>) -> Result<(), ErrorView> {
    verdict(has_visible(value), field, "must not be empty"@, "not_empty"@)
}

/// Required-value validator.
pub struct NotEmpty;

impl NotEmpty {
    /// Accept `value` exactly when some character of it is not white space:
    /// the empty string and white space alone are rejected.
    pub fn validate(value: &str, field: &str) -> (r: Result<(), ValidationError>)
        ensures
            outcome(r) == not_empty_verdict(value@, field@),
    {
        let s = to_chars(value);
        if any_visible(&s) {
            Ok(())
        } else {
            reject(field, "must not be empty", "not_empty")
        }
    }
}

/// What [`MinLength`] with bound `min` answers for `value` in `field`.
pub open spec fn min_length_verdict(min: nat, value: Seq<char>, field: Seq<char>) -> Result<(), ErrorView> {
    verdict(value.len() >= min, field, "is too short"@, "min_length"@)
}

/// Minimum length validator; the length counts characters, not bytes.
pub struct MinLength(pub usize);

impl MinLength {
    /// Accept `value` exactly when it has at least `self.0` characters.
    pub fn validate(&self, value: &str, field: &str) -> (r: Result<(), ValidationError>)
        ensures
            outcome(r) == min_length_verdict(self.0 as nat, value@, field@),
    {
        let s = to_chars(value);
        if s.len() >= self.0 {
            Ok(())
        } else {
            reject(field, "is too short", "min_length")
        }
    }
}

/// What [`MaxLength`] with bound `max` answers for `value` in `field`.
pub open spec fn max_length_verdict(max: nat, value: Seq<char>, field: Seq<char>) -> Result<(), ErrorView> {
    verdict(value.len() <= max, field, "is too long"@, "max_length"@)
}

/// Maximum length validator; the length counts characters, not bytes.
pub struct MaxLength(pub usize);

impl MaxLength {
    /// Accept `value` exactly when it has at most `self.0` characters.
    pub fn validate(&self, value: &str, field: &str) -> (r: Result<(), ValidationError>)
        ensures
            outcome(r) == max_length_verdict(self.0 as nat, value@, field@),
    {
        let s = to_chars(value);
        if s.len() <= self.0 {
            Ok(())
        } else {
            reject(field, "is too long", "max_length")
        }
    }
}

// ---------------------------------------------------------------- numbers

/// Lower bound validator.
pub struct Min(pub i64);

impl Min {
    /// Accept `value` exactly when it is at least `self.0`.
    pub fn validate(&self, value: i64, field: &str) -> (r: Result<(), ValidationError>)
        ensures
            outcome(r) == verdict(value >= self.0, field@, "is below the minimum"@, "min"@),
    {
        if value >= self.0 {
            Ok(())
        } else {
            reject(field, "is below the minimum", "min")
        }
    }
}

/// Upper bound validator.
pub struct Max(pub i64);

impl Max {
    /// Accept `value` exactly when it is at most `self.0`.
    pub fn validate(&self, value: i64, field: &str) -> (r: Result<(), ValidationError>)
        ensures
            outcome(r) == verdict(value <= self.0, field@, "is above the maximum"@, "max"@),
    {
        if value <= self.0 {
            Ok(())
        } else {
            reject(field, "is above the maximum", "max")
        }
    }
}

/// Inclusive range validator.
pub struct InRange {
    pub min: i64,
    pub max: i64,
}

impl InRange {
    /// Accept `value` exactly when `min <= value <= max`.
    pub fn validate(&self, value: i64, field: &str) -> (r: Result<(), ValidationError>)
        ensures
            outcome(r) == verdict(
                self.min <= value && value <= self.max,
                field@,
                "is out of range"@,
                "range"@,
            ),
    {
        if self.min <= value && value <= self.max {
            Ok(())
        } else {
            reject(field, "is out of range", "range")
        }
    }
}

/// Strictly positive number validator.
pub struct IsPositive;

impl IsPositive {
    /// Accept `value` exactly when it is greater than zero.
    pub fn validate_i32(value: i32, field: &str) -> (r: Result<(), ValidationError>)
        ensures
            outcome(r) == verdict(value > 0, field@, "must be positive"@, "positive"@),
    {
        if value > 0 {
            Ok(())
        } else {
            reject(field, "must be positive", "positive")
        }
    }

    /// Accept `value` exactly when it is greater than zero.
    pub fn validate_i64(value: i64, field: &str) -> (r: Result<(), ValidationError>)
        ensures
            outcome(r) == verdict(value > 0, field@, "must be positive"@, "positive"@),
    {
        if value > 0 {
            Ok(())
        } else {
            reject(field, "must be positive", "positive")
        }
    }
}

} // verus!
