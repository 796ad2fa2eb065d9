//! The field rules of the `#[validate(...)]` attribute syntax, written out
//! as `Validate` impls: `length(min, max)` is `MinLength`/`MaxLength`,
//! `email` is `IsEmail`, `url` is `IsUrl`, `range(min, max)` is `InRange`,
//! `regex(pattern)` is `Matches`, `required` is `NotEmpty`, `custom` calls
//! the function, and a nested struct is validated in turn.

use armature_validation::{
    InRange, IsEmail, IsUrl, Matches, MaxLength, MinLength, NotEmpty, Validate, ValidationError,
};

fn collect(errors: &mut Vec<ValidationError>, r: Result<(), ValidationError>) {
    if let Err(e) = r {
        errors.push(e);
    }
}

fn finish(errors: Vec<ValidationError>) -> Result<(), Vec<ValidationError>> {
    if errors.is_empty() {
        Ok(())
    } else {
        Err(errors)
    }
}

struct CreateUser {
    username: String,
    email: String,
    password: String,
    age: u8,
}

impl Validate for CreateUser {
    fn validate(&self) -> Result<(), Vec<ValidationError>> {
        let mut errors = Vec::new();
        collect(&mut errors, MinLength(3).validate(&self.username, "username"));
        collect(&mut errors, MaxLength(50).validate(&self.username, "username"));
        collect(&mut errors, IsEmail::validate(&self.email, "email"));
        collect(&mut errors, MinLength(8).validate(&self.password, "password"));
        collect(
            &mut errors,
            InRange { min: 13, max: 120 }.validate(self.age as i64, "age"),
        );
        finish(errors)
    }
}

#[test]
fn derived_struct_accepts_valid_input() {
    let user = CreateUser {
        username: "john_doe".to_string(),
        email: "john@example.com".to_string(),
        password: "supersecret".to_string(),
        age: 30,
    };
    assert!(user.validate().is_ok());
}

#[test]
fn derived_struct_rejects_invalid_input() {
    let user = CreateUser {
        username: "jo".to_string(),        // too short
        email: "not-an-email".to_string(), // bad email
        password: "short".to_string(),     // too short
        age: 5,                            // below range
    };
    let errors = user.validate().unwrap_err();
    // one error per failing field
    let fields: Vec<&str> = errors.iter().map(|e| e.field.as_str()).collect();
    assert!(
        fields.contains(&"username"),
        "missing username error: {fields:?}"
    );
    assert!(fields.contains(&"email"), "missing email error: {fields:?}");
    assert!(
        fields.contains(&"password"),
        "missing password error: {fields:?}"
    );
    assert!(fields.contains(&"age"), "missing age error: {fields:?}");
}

struct Named {
    name: String,
}

impl Validate for Named {
    fn validate(&self) -> Result<(), Vec<ValidationError>> {
        let mut errors = Vec::new();
        collect(&mut errors, MinLength(3).validate(&self.name, "name"));
        collect(&mut errors, MaxLength(5).validate(&self.name, "name"));
        finish(errors)
    }
}

#[test]
fn length_counts_characters_not_bytes() {
    // 4 emoji = 4 chars (ok for max=5) but 16 bytes.
    let ok = Named {
        name: "😀😀😀😀".to_string(),
    };
    assert!(ok.validate().is_ok());
    // 2 chars < min 3
    let bad = Named {
        name: "😀😀".to_string(),
    };
    assert!(bad.validate().is_err());
}

struct Doc {
    title: String,
    homepage: String,
    code: String,
}

impl Validate for Doc {
    fn validate(&self) -> Result<(), Vec<ValidationError>> {
        let mut errors = Vec::new();
        collect(&mut errors, NotEmpty::validate(&self.title, "title"));
        collect(&mut errors, IsUrl::validate(&self.homepage, "homepage"));
        let pattern = Matches::new("^[A-Z]").unwrap();
        collect(&mut errors, pattern.validate(&self.code, "code"));
        finish(errors)
    }
}

#[test]
fn regex_and_url_and_required() {
    let ok = Doc {
        title: "Hello".to_string(),
        homepage: "https://example.com".to_string(),
        code: "Xray".to_string(),
    };
    assert!(ok.validate().is_ok());

    let bad = Doc {
        title: "   ".to_string(),
        homepage: "not-a-url".to_string(),
        code: "lower".to_string(),
    };
    let errors = bad.validate().unwrap_err();
    assert_eq!(errors.len(), 3);
}

fn no_spaces(value: &str) -> Result<(), ValidationError> {
    if value.contains(' ') {
        Err(ValidationError::new("username", "No spaces allowed"))
    } else {
        Ok(())
    }
}

struct Account {
    username: String,
}

impl Validate for Account {
    fn validate(&self) -> Result<(), Vec<ValidationError>> {
        let mut errors = Vec::new();
        collect(&mut errors, no_spaces(&self.username));
        finish(errors)
    }
}

#[test]
fn custom_validator_is_invoked() {
    assert!(
        Account {
            username: "clean".to_string()
        }
        .validate()
        .is_ok()
    );
    assert!(
        Account {
            username: "has space".to_string()
        }
        .validate()
        .is_err()
    );
}

struct Address {
    city: String,
    state: String,
}

impl Validate for Address {
    fn validate(&self) -> Result<(), Vec<ValidationError>> {
        let mut errors = Vec::new();
        collect(&mut errors, NotEmpty::validate(&self.city, "city"));
        collect(&mut errors, MinLength(2).validate(&self.state, "state"));
        collect(&mut errors, MaxLength(2).validate(&self.state, "state"));
        finish(errors)
    }
}

struct Profile {
    email: String,
    address: Address,
}

impl Validate for Profile {
    fn validate(&self) -> Result<(), Vec<ValidationError>> {
        let mut errors = Vec::new();
        collect(&mut errors, IsEmail::validate(&self.email, "email"));
        if let Err(mut nested) = self.address.validate() {
            errors.append(&mut nested);
        }
        finish(errors)
    }
}

#[test]
fn nested_validation_recurses() {
    let ok = Profile {
        email: "a@b.com".to_string(),
        address: Address {
            city: "Portland".to_string(),
            state: "OR".to_string(),
        },
    };
    assert!(ok.validate().is_ok());

    // Nested failure surfaces through the parent.
    let bad = Profile {
        email: "a@b.com".to_string(),
        address: Address {
            city: "".to_string(),        // required fails
            state: "Oregon".to_string(), // length != 2
        },
    };
    let errors = bad.validate().unwrap_err();
    let fields: Vec<&str> = errors.iter().map(|e| e.field.as_str()).collect();
    assert!(fields.contains(&"city"), "{fields:?}");
    assert!(fields.contains(&"state"), "{fields:?}");
}
