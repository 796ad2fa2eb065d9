//! Concrete instances of the laws proved in the library.

use armature_validation::{
    IsAlpha, IsAlphanumeric, IsEmail, IsNumeric, IsUrl, IsUuid, MaxLength, MinLength, NotEmpty,
};

#[test]
fn letters_and_digits_are_alphanumeric() {
    for s in ["abc", "XYZ", "123", "a", "9"] {
        let alpha = IsAlpha::validate(s, "t").is_ok();
        let numeric = IsNumeric::validate(s, "t").is_ok();
        assert!(alpha || numeric);
        assert!(IsAlphanumeric::validate(s, "t").is_ok());
    }
}

#[test]
fn length_bounds_at_own_length() {
    for s in ["", "a", "😀😀😀", "日本語テキスト", "mixed é 😀"] {
        let chars = s.chars().count();
        assert!(MaxLength(chars).validate(s, "t").is_ok());
        assert!(MinLength(chars + 1).validate(s, "t").is_err());
    }
}

#[test]
fn email_never_empty() {
    assert!(IsEmail::validate("", "e").is_err());
}

#[test]
fn not_empty_exactly_when_something_visible() {
    for (s, ok) in [("", false), (" ", false), ("\u{2003}", false), (" a ", true), ("\u{200b}", true)] {
        assert_eq!(NotEmpty::validate(s, "t").is_ok(), ok, "{s:?}");
    }
}

const SAMPLES: &[&str] = &[
    "",
    "https://example.com",
    "http://localhost:8080/path?q=1#frag",
    "HTTPS://EXAMPLE.COM/a b",
    "https://a.example/\r\nX-Injected: 1",
    "ftp://example.com",
    "javascript:alert(1)",
    "//example.com",
    "https://例え.jp",
    "https://a/\u{7f}",
    "550e8400-e29b-41d4-a716-446655440000",
    "550E8400-E29B-41D4-A716-446655440000",
    "00000000-0000-0000-0000-000000000000",
    "abc",
    "ABC123",
    "١٢٣",
    "ⅷ",
    "user@example.com",
    "日本語",
];

#[test]
fn accepted_urls_parse_as_http_or_https_without_controls() {
    for s in SAMPLES {
        if IsUrl::validate(s, "u").is_ok() {
            assert!(!s.chars().any(|c| c.is_control() || c == ' '), "{s:?}");
            let scheme = url::Url::parse(s).ok().map(|u| u.scheme().to_owned());
            assert!(
                matches!(scheme.as_deref(), Some("http") | Some("https")),
                "{s:?}"
            );
        }
    }
}

#[test]
fn accepted_uuids_parse() {
    for s in SAMPLES {
        if IsUuid::validate(s, "id").is_ok() {
            assert!(uuid::Uuid::parse_str(s).is_ok(), "{s:?}");
        }
    }
}

#[test]
fn character_classes_agree_with_std() {
    for s in SAMPLES {
        if IsAlpha::validate(s, "t").is_ok() {
            assert!(!s.is_empty() && s.chars().all(|c| c.is_alphabetic()), "{s:?}");
            assert!(IsAlphanumeric::validate(s, "t").is_ok(), "{s:?}");
        }
        if IsNumeric::validate(s, "t").is_ok() {
            assert!(!s.is_empty() && s.chars().all(|c| c.is_numeric()), "{s:?}");
        }
        if IsAlphanumeric::validate(s, "t").is_ok() {
            assert!(!s.is_empty() && s.chars().all(|c| c.is_alphanumeric()), "{s:?}");
        }
        if NotEmpty::validate(s, "t").is_ok() {
            assert!(s.chars().any(|c| !c.is_whitespace()), "{s:?}");
        }
        let chars = s.chars().count();
        assert!(MaxLength(chars).validate(s, "t").is_ok());
        assert!(MinLength(chars + 1).validate(s, "t").is_err());
    }
}

#[test]
fn white_space_matches_std_on_every_char() {
    let mut buf = [0u8; 4];
    for c in (0u32..=0x10FFFF).filter_map(char::from_u32) {
        let s: &str = c.encode_utf8(&mut buf);
        assert_eq!(NotEmpty::validate(s, "t").is_ok(), !c.is_whitespace(), "{c:?}");
    }
}
