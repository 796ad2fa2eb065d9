//! The rules builder and the form builder, with closures as checks.

use armature_validation::{
    FormData, IsEmail, IsUrl, NotEmpty, ValidationBuilder, ValidationRules,
};

#[test]
fn test_module_exports() {
    // Ensure the crate compiles and its root items are reachable.
    let _ = ValidationBuilder::new();
}

#[test]
fn test_validation_rules() {
    let rules = ValidationRules::for_field("email")
        .add(NotEmpty::validate)
        .add(IsEmail::validate);

    assert!(rules.validate("test@example.com").is_ok());
    assert!(rules.validate("invalid").is_err());
    assert!(rules.validate("").is_err());
}

#[test]
fn test_validation_builder() {
    let mut data = FormData::new();
    data.insert("name".to_string(), "John".to_string());
    data.insert("email".to_string(), "john@example.com".to_string());

    let builder = ValidationBuilder::new()
        .field(ValidationRules::for_field("name").add(NotEmpty::validate))
        .field(ValidationRules::for_field("email").add(IsEmail::validate));

    assert!(builder.validate(&data).is_ok());
}

fn signup_validator() -> ValidationBuilder {
    ValidationBuilder::new()
        .field(
            ValidationRules::for_field("email")
                .add(NotEmpty::validate)
                .add(IsEmail::validate),
        )
        .field(ValidationRules::for_field("name").add(NotEmpty::validate))
}

/// A field with rules but absent from the input is checked as `""`, so
/// omitting `email` fails `NotEmpty` and `IsEmail` instead of passing them.
#[test]
fn test_missing_required_field_fails() {
    let mut data = FormData::new();
    data.insert("name".to_string(), "John".to_string());

    let errors = signup_validator()
        .validate(&data)
        .expect_err("an omitted required field must not pass validation");
    assert!(errors.iter().any(|e| e.field == "email"));
}

/// An explicitly optional field may be absent, but is still validated when
/// present.
#[test]
fn test_optional_field_may_be_absent() {
    let validator = ValidationBuilder::new().field(
        ValidationRules::for_field("website")
            .optional()
            .add(IsUrl::validate),
    );

    let empty = FormData::new();
    assert!(validator.validate(&empty).is_ok());

    let mut present = FormData::new();
    present.insert("website".to_string(), "not a url".to_string());
    assert!(validator.validate(&present).is_err());
}
