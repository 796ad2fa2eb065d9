//! Form data, context data, and the form builder with built-in rules.

use armature_validation::{
    FormData, Rule, ValidationBuilder, ValidationContext, ValidationError, ValidationRules,
    Matches,
};

#[test]
fn form_read_after_write() {
    let mut data = FormData::new();
    assert_eq!(data.get("a"), None);
    assert_eq!(data.insert("a".to_string(), "1".to_string()), None);
    assert_eq!(data.insert("b".to_string(), "2".to_string()), None);
    assert_eq!(data.get("a").map(|s| s.as_str()), Some("1"));
    assert_eq!(
        data.insert("a".to_string(), "3".to_string()),
        Some("1".to_string())
    );
    assert_eq!(data.get("a").map(|s| s.as_str()), Some("3"));
    assert_eq!(data.get("b").map(|s| s.as_str()), Some("2"));
    assert!(data.contains_key("b"));
    assert!(!data.contains_key("c"));
    let copy = data.clone();
    assert_eq!(copy.get("a").map(|s| s.as_str()), Some("3"));
}

#[test]
fn context_data() {
    let ctx = ValidationContext::new()
        .with_data("user".to_string(), "42".to_string())
        .with_data("user".to_string(), "43".to_string());
    assert_eq!(ctx.get("user").map(|s| s.as_str()), Some("43"));
    assert_eq!(ctx.get("other"), None);
    assert_eq!(ValidationContext::default().get("user"), None);
}

#[test]
fn rules_accessors() {
    let rules = ValidationRules::for_field("email");
    assert!(!rules.is_optional());
    assert_eq!(rules.field_name(), "email");
    let rules = rules.optional();
    assert!(rules.is_optional());
    assert_eq!(rules.field_name(), "email");
}

#[test]
fn built_in_rules_report_in_order() {
    let rules = ValidationRules::for_field("code")
        .rule(Rule::NotEmpty)
        .rule(Rule::MinLength(3))
        .rule(Rule::Alpha)
        .rule(Rule::Pattern(Matches::new("^[A-Z]").unwrap()));
    let errors = rules.validate("").unwrap_err();
    let constraints: Vec<&str> = errors.iter().map(|e| e.constraint.as_str()).collect();
    assert_eq!(constraints, vec!["not_empty", "min_length", "alpha", "matches"]);
    assert!(errors.iter().all(|e| e.field == "code"));
    assert!(rules.validate("Abc").is_ok());
    let errors = rules.validate("ab").unwrap_err();
    let constraints: Vec<&str> = errors.iter().map(|e| e.constraint.as_str()).collect();
    assert_eq!(constraints, vec!["min_length", "matches"]);
}

#[test]
fn every_built_in_rule_runs() {
    let cases: Vec<(Rule, &str, &str)> = vec![
        (Rule::Email, "a@b.com", "nope"),
        (Rule::Url, "https://a.b", "nope"),
        (Rule::Uuid, "550e8400-e29b-41d4-a716-446655440000", "nope"),
        (Rule::Alphanumeric, "a1", "a-1"),
        (Rule::Numeric, "12", "1a"),
        (Rule::MaxLength(2), "ab", "abc"),
    ];
    for (rule, good, bad) in cases {
        let rules = ValidationRules::for_field("f").rule(rule);
        assert!(rules.validate(good).is_ok(), "{good}");
        assert!(rules.validate(bad).is_err(), "{bad}");
    }
}

#[test]
fn builder_concatenates_in_rule_set_order() {
    let builder = ValidationBuilder::new()
        .field(ValidationRules::for_field("a").rule(Rule::NotEmpty))
        .field(ValidationRules::for_field("b").rule(Rule::NotEmpty).rule(Rule::Numeric))
        .field(ValidationRules::for_field("c").optional().rule(Rule::NotEmpty));
    let data = FormData::new();
    let errors = builder.validate(&data).unwrap_err();
    let fields: Vec<(&str, &str)> = errors
        .iter()
        .map(|e| (e.field.as_str(), e.constraint.as_str()))
        .collect();
    // `a` and `b` are required and absent, so checked as ""; `c` is skipped.
    assert_eq!(
        fields,
        vec![("a", "not_empty"), ("b", "not_empty"), ("b", "numeric")]
    );
}

#[test]
fn optional_field_present_but_empty_is_checked() {
    let builder = ValidationBuilder::default()
        .field(ValidationRules::for_field("nick").optional().rule(Rule::NotEmpty));
    let mut data = FormData::new();
    assert!(builder.validate(&data).is_ok());
    data.insert("nick".to_string(), "".to_string());
    let errors = builder.validate(&data).unwrap_err();
    assert_eq!(errors.len(), 1);
    assert_eq!(errors[0].field, "nick");
}

#[test]
fn closures_see_value_and_field() {
    let rules = ValidationRules::for_field("user").add(|value: &str, field: &str| {
        if value == "admin" {
            Err(ValidationError::new(field, "reserved").with_constraint("reserved"))
        } else {
            Ok(())
        }
    });
    assert!(rules.validate("bob").is_ok());
    let errors = rules.validate("admin").unwrap_err();
    assert_eq!(errors[0].field, "user");
    assert_eq!(errors[0].constraint, "reserved");
    let cloned = rules.clone();
    assert!(cloned.validate("admin").is_err());
}

#[test]
fn value_for_follows_presence_and_optionality() {
    let mut data = FormData::new();
    data.insert("x".to_string(), "v".to_string());
    let required = ValidationRules::for_field("y");
    let optional = ValidationRules::for_field("y").optional();
    let present = ValidationRules::for_field("x").optional();
    assert_eq!(ValidationBuilder::value_for(&required, &data), Some(""));
    assert_eq!(ValidationBuilder::value_for(&optional, &data), None);
    assert_eq!(ValidationBuilder::value_for(&present, &data), Some("v"));
}

#[test]
fn entry_counts() {
    let mut data = FormData::new();
    assert!(data.is_empty());
    data.insert("a".to_string(), "1".to_string());
    data.insert("b".to_string(), "2".to_string());
    data.insert("a".to_string(), "3".to_string());
    assert_eq!(data.len(), 2);
    assert!(!data.is_empty());
    let c0 = ValidationContext::new().with_data("k".to_string(), "v".to_string());
    let c1 = c0.clone().with_data("k".to_string(), "w".to_string());
    let c2 = c0.clone().with_data("j".to_string(), "w".to_string());
    assert_eq!(c1.data.len(), c0.data.len());
    assert_eq!(c2.data.len(), c0.data.len() + 1);
}

#[test]
fn unchecked_entries_change_nothing() {
    let builder = ValidationBuilder::new()
        .field(ValidationRules::for_field("a").rule(Rule::NotEmpty));
    let mut data = FormData::new();
    let before = builder.validate(&data).unwrap_err().len();
    data.insert("zzz".to_string(), "".to_string());
    assert_eq!(builder.validate(&data).unwrap_err().len(), before);
    data.insert("a".to_string(), "".to_string());
    assert_eq!(builder.validate(&data).unwrap_err().len(), before);
}
