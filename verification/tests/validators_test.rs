//! Edge cases of the built-in validators, their error contents, and the
//! outside calls behind `IsUrl` and `Matches`.

use armature_validation::{
    InRange, IsAlpha, IsAlphanumeric, IsEmail, IsNumeric, IsPositive, IsUrl, IsUuid, Matches,
    Max, MaxLength, Min, MinLength, NotEmpty,
};

#[test]
fn not_empty_rejects_white_space_only() {
    assert!(NotEmpty::validate("   ", "t").is_err());
    assert!(NotEmpty::validate("\t\n\r", "t").is_err());
    // U+3000 IDEOGRAPHIC SPACE and U+00A0 NO-BREAK SPACE are white space too.
    assert!(NotEmpty::validate("\u{3000}\u{a0}", "t").is_err());
    assert!(NotEmpty::validate("  x  ", "t").is_ok());
}

#[test]
fn not_empty_error_contents() {
    let e = NotEmpty::validate("", "name").unwrap_err();
    assert_eq!(e.field, "name");
    assert_eq!(e.message, "must not be empty");
    assert_eq!(e.constraint, "not_empty");
    assert_eq!(e.value, None);
}

#[test]
fn lengths_count_characters() {
    let s = "ééé"; // 3 characters, 6 bytes
    assert!(MaxLength(3).validate(s, "t").is_ok());
    assert!(MinLength(3).validate(s, "t").is_ok());
    assert!(MinLength(4).validate(s, "t").is_err());
    assert!(MaxLength(2).validate(s, "t").is_err());
    assert!(MinLength(0).validate("", "t").is_ok());
    assert!(MaxLength(0).validate("", "t").is_ok());
    let e = MinLength(4).validate(s, "t").unwrap_err();
    assert_eq!(e.constraint, "min_length");
    assert_eq!(e.message, "is too short");
    let e = MaxLength(2).validate(s, "t").unwrap_err();
    assert_eq!(e.constraint, "max_length");
    assert_eq!(e.message, "is too long");
}

#[test]
fn email_shapes() {
    assert!(IsEmail::validate("a@b.co", "e").is_ok());
    assert!(IsEmail::validate("first.last+tag%x_y-z@sub.example.org", "e").is_ok());
    assert!(IsEmail::validate("a@b.c", "e").is_err()); // one-letter top-level label
    assert!(IsEmail::validate("a@.com", "e").is_err()); // empty domain
    assert!(IsEmail::validate("a@b.c0m", "e").is_err()); // digit in top-level label
    assert!(IsEmail::validate("a@@b.com", "e").is_err());
    assert!(IsEmail::validate("a b@c.com", "e").is_err());
    assert!(IsEmail::validate("a@b.com.", "e").is_err());
    assert!(IsEmail::validate("", "e").is_err());
    assert!(IsEmail::validate("ab.com", "e").is_err());
    let e = IsEmail::validate("nope", "email").unwrap_err();
    assert_eq!(e.constraint, "email");
    assert_eq!(e.message, "must be a valid email address");
}

#[test]
fn url_shapes() {
    assert!(IsUrl::validate("https://a", "u").is_ok());
    assert!(IsUrl::validate("HTTP://EXAMPLE.COM", "u").is_ok());
    assert!(IsUrl::validate("ftp://example.com", "u").is_err());
    assert!(IsUrl::validate("mailto:a@b.com", "u").is_err());
    assert!(IsUrl::validate("", "u").is_err());
    // Control characters and spaces are refused even where the parser would
    // strip them.
    assert!(IsUrl::validate("https://a.example/\r\nX-Injected: 1", "u").is_err());
    assert!(IsUrl::validate(" https://a.example/", "u").is_err());
    assert!(IsUrl::validate("https://a.example/\t", "u").is_err());
    assert!(IsUrl::validate("https://a.example/\u{7f}", "u").is_err());
    assert!(IsUrl::validate("https://a.example/\u{85}", "u").is_err());
    let e = IsUrl::validate("x", "site").unwrap_err();
    assert_eq!(e.constraint, "url");
    assert_eq!(e.field, "site");
}

#[test]
fn uuid_shapes() {
    assert!(IsUuid::validate("550E8400-E29B-41D4-A716-446655440000", "id").is_ok());
    assert!(IsUuid::validate("00000000-0000-0000-0000-000000000000", "id").is_ok());
    assert!(IsUuid::validate("ffffffff-ffff-ffff-ffff-ffffffffffff", "id").is_ok());
    assert!(IsUuid::validate("FFFFFFFF-FFFF-FFFF-FFFF-FFFFFFFFFFFF", "id").is_ok());
    // version 9 is out of range, and so is version 0 outside the nil UUID
    assert!(IsUuid::validate("550e8400-e29b-91d4-a716-446655440000", "id").is_err());
    assert!(IsUuid::validate("550e8400-e29b-01d4-a716-446655440000", "id").is_err());
    // variant digit 7 is not 8, 9, a or b
    assert!(IsUuid::validate("550e8400-e29b-41d4-7716-446655440000", "id").is_err());
    // no hyphens, braces, or a stray character
    assert!(IsUuid::validate("550e8400e29b41d4a716446655440000", "id").is_err());
    assert!(IsUuid::validate("{550e8400-e29b-41d4-a716-446655440000}", "id").is_err());
    assert!(IsUuid::validate("550e8400-e29b-41d4-a716-44665544000g", "id").is_err());
}

#[test]
fn accepted_uuids_parse_with_the_uuid_crate() {
    for s in [
        "550e8400-e29b-41d4-a716-446655440000",
        "550E8400-E29B-81D4-B716-446655440000",
        "00000000-0000-0000-0000-000000000000",
        "ffffffff-ffff-ffff-ffff-ffffffffffff",
    ] {
        assert!(IsUuid::validate(s, "id").is_ok());
        assert!(uuid::Uuid::parse_str(s).is_ok(), "{s}");
    }
}

#[test]
fn character_classes_are_ascii() {
    assert!(IsAlpha::validate("", "t").is_err());
    assert!(IsAlphanumeric::validate("", "t").is_err());
    assert!(IsNumeric::validate("", "t").is_err());
    assert!(IsAlpha::validate("é", "t").is_err());
    assert!(IsNumeric::validate("١٢", "t").is_err());
    assert!(IsNumeric::validate("007", "t").is_ok());
    assert!(IsAlphanumeric::validate("A1b2", "t").is_ok());
    assert_eq!(IsAlpha::validate("1", "t").unwrap_err().constraint, "alpha");
    assert_eq!(
        IsAlphanumeric::validate("-", "t").unwrap_err().constraint,
        "alphanumeric"
    );
    assert_eq!(IsNumeric::validate("x", "t").unwrap_err().constraint, "numeric");
}

#[test]
fn numbers() {
    assert!(Min(18).validate(25, "age").is_ok());
    assert!(Min(18).validate(18, "age").is_ok());
    assert!(Min(18).validate(17, "age").is_err());
    assert!(Max(100).validate(50, "age").is_ok());
    assert!(Max(100).validate(100, "age").is_ok());
    assert!(Max(100).validate(101, "age").is_err());
    let range = InRange { min: 1, max: 10 };
    assert!(range.validate(5, "score").is_ok());
    assert!(range.validate(1, "score").is_ok());
    assert!(range.validate(10, "score").is_ok());
    assert!(range.validate(0, "score").is_err());
    assert!(range.validate(11, "score").is_err());
    assert!(IsPositive::validate_i32(42, "count").is_ok());
    assert!(IsPositive::validate_i32(0, "count").is_err());
    assert!(IsPositive::validate_i64(-5, "count").is_err());
    assert_eq!(Min(1).validate(0, "n").unwrap_err().constraint, "min");
    assert_eq!(Max(1).validate(2, "n").unwrap_err().constraint, "max");
    assert_eq!(
        InRange { min: 1, max: 2 }.validate(3, "n").unwrap_err().constraint,
        "range"
    );
    assert_eq!(
        IsPositive::validate_i64(0, "n").unwrap_err().constraint,
        "positive"
    );
}

#[test]
fn patterns() {
    let starts_with_capital = Matches::new("^[A-Z]").unwrap();
    assert!(starts_with_capital.validate("Hello", "name").is_ok());
    assert!(starts_with_capital.validate("hello", "name").is_err());
    // `is_match` finds a match anywhere unless anchored.
    let digit = Matches::new(r"\d").unwrap();
    assert!(digit.validate("abc1def", "t").is_ok());
    assert_eq!(
        digit.validate("abc", "t").unwrap_err().constraint,
        "matches"
    );
    let bad = Matches::new("foo(bar").unwrap_err();
    assert_eq!(bad.pattern, "foo(bar");
    assert!(!bad.reason.is_empty());
    let copy = digit.clone();
    assert!(copy.validate("7", "t").is_ok());
}
