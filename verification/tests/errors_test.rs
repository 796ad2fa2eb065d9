//! Error values and error collections.

use armature_validation::{ValidationError, ValidationErrors};

#[test]
fn new_error_defaults() {
    let e = ValidationError::new("email", "bad");
    assert_eq!(e.constraint, "custom");
    assert_eq!(e.value, None);
    let e = e.with_constraint("email").with_value("x@");
    assert_eq!(e.field, "email");
    assert_eq!(e.message, "bad");
    assert_eq!(e.constraint, "email");
    assert_eq!(e.value, Some("x@".to_string()));
    assert_eq!(e.display(), "email: bad");
}

#[test]
fn collection_operations() {
    let mut errors = ValidationErrors::new(Vec::new());
    assert!(errors.is_empty());
    assert_eq!(errors.len(), 0);
    errors.add(ValidationError::new("a", "one"));
    errors.add(ValidationError::new("b", "two"));
    errors.add(ValidationError::new("a", "three"));
    assert!(!errors.is_empty());
    assert_eq!(errors.len(), 3);
    let a: Vec<&str> = errors
        .get_field_errors("a")
        .iter()
        .map(|e| e.message.as_str())
        .collect();
    assert_eq!(a, vec!["one", "three"]);
    assert_eq!(errors.get_field_errors("b").len(), 1);
    assert!(errors.get_field_errors("c").is_empty());
    assert_eq!(errors.display(), "a: one\nb: two\na: three\n");
}

#[test]
fn from_a_vector() {
    let errors: ValidationErrors = vec![ValidationError::new("x", "y")].into();
    assert_eq!(errors.len(), 1);
    assert_eq!(errors.errors[0].field, "x");
}

#[test]
fn adding_an_error_extends_only_its_field() {
    let mut errors = ValidationErrors::new(vec![ValidationError::new("a", "1")]);
    let before_b = errors.get_field_errors("b").len();
    errors.add(ValidationError::new("a", "2"));
    assert_eq!(errors.get_field_errors("a").len(), 2);
    assert_eq!(errors.get_field_errors("b").len(), before_b);
}
