use vstd::prelude::*;
use vstd::string::StringExecFns;

verus! {

/// What a [`ValidationError`] says, as mathematical text.
pub struct ErrorView {
    pub field: Seq<char>,
    pub message: Seq<char>,
    pub constraint: Seq<char>,
    pub value: Option<Seq<char>>,
}

/// Validation error for a single field.
#[derive(Debug)]
pub struct ValidationError {
    /// Field name that failed validation
    pub field: String,
    /// Error message
    pub message: String,
    /// Validation constraint that failed
    pub constraint: String,
    /// Value that failed validation (optional)
    pub value: Option<String>,
}

pub open spec fn opt_view(o: Option<String>) -> Option<Seq<char>> {
    match o {
        Some(s) => Some(s@),
        None => None,
    }
}

impl View for ValidationError {
    type V = ErrorView;

    open spec fn view(&self) -> ErrorView {
        ErrorView {
            field: self.field@,
            message: self.message@,
            constraint: self.constraint@,
            value: opt_view(self.value),
        }
    }
}

/// The error that `field`, `message` and `constraint` describe, with no value.
pub open spec fn error_view(field: Seq<char>, message: Seq<char>, constraint: Seq<char>) -> ErrorView {
    ErrorView { field, message, constraint, value: None }
}

/// What a validator's answer says: nothing, or the error by its view.
pub open spec fn outcome(r: Result<(), ValidationError>) -> Result<(), ErrorView> {
    match r {
        Ok(()) => Ok(()),
        Err(e) => Err(e@),
    }
}

/// A check's answer: `Ok` when `accepted`, else the error that `field`,
/// `message` and `constraint` describe.
pub open spec fn verdict(accepted: bool, field: Seq<char>, message: Seq<char>, constraint: Seq<char>) -> Result<(), ErrorView> {
    if accepted {
        Ok(())
    } else {
        Err(error_view(field, message, constraint))
    }
}

/// An error for `field` with `message` and `constraint` and no value.
pub fn reject(field: &str, message: &str, constraint: &str) -> (r: Result<(), ValidationError>)
    ensures
        outcome(r) == Err::<(), ErrorView>(error_view(field@, message@, constraint@)),
{
    Err(
        ValidationError {
            field: field.to_owned(),
            message: message.to_owned(),
            constraint: constraint.to_owned(),
            value: None,
        },
    )
}

/// The text `"<field>: <message>"`.
pub open spec fn error_line(e: ErrorView) -> Seq<char> {
    e.field + ": "@ + e.message
}

impl Clone for ValidationError {
    fn clone(&self) -> (e: Self)
        ensures
            e == *self,
    {
        let value = match &self.value {
            Some(v) => Some(v.clone()),
            None => None,
        };
        ValidationError {
            field: self.field.clone(),
            message: self.message.clone(),
            constraint: self.constraint.clone(),
            value,
        }
    }
}

impl ValidationError {
    /// Create a new validation error; its constraint is `"custom"` and it
    /// carries no value.
    pub fn new(field: &str, message: &str) -> (e: ValidationError)
        ensures
            e@ == error_view(field@, message@, "custom"@),
    {
        ValidationError {
            constraint: "custom".to_owned(),
            message: message.to_owned(),
            field: field.to_owned(),
            value: None,
        }
    }

    /// Set the constraint name.
    pub fn with_constraint(self, constraint: &str) -> (e: ValidationError)
        ensures
            e@ == (ErrorView { constraint: constraint@, ..self@ }),
    {
        let mut e = self;
        e.constraint = constraint.to_owned();
        e
    }

    /// Set the invalid value.
    pub fn with_value(self, value: &str) -> (e: ValidationError)
        ensures
            e@ == (ErrorView { value: Some(value@), ..self@ }),
    {
        let mut e = self;
        e.value = Some(value.to_owned());
        e
    }

    /// The error as one line of text, `"<field>: <message>"`.
    pub fn display(&self) -> (s: String)
        ensures
            s@ == error_line(self@),
    {
        let mut s = self.field.clone();
        s.append(": ");
        s.append(self.message.as_str());
        proof {
            reveal_strlit(": ");
        }
        s
    }
}

/// The views of a sequence of errors.
pub open spec fn views(errors: Seq<ValidationError>) -> Seq<ErrorView> {
    errors.map_values(|e: ValidationError| e@)
}

/// The errors of `errors` whose field is `field`, in order.
pub open spec fn errors_for_field(errors: Seq<ErrorView>, field: Seq<char>) -> Seq<ErrorView>
    decreases errors.len(),
{
    if errors.len() == 0 {
        Seq::empty()
    } else if errors.last().field == field {
        errors_for_field(errors.drop_last(), field).push(errors.last())
    } else {
        errors_for_field(errors.drop_last(), field)
    }
}

/// One line `"<field>: <message>\n"` per error, in order.
pub open spec fn errors_text(errors: Seq<ErrorView>) -> Seq<char>
    decreases errors.len(),
{
    if errors.len() == 0 {
        Seq::empty()
    } else {
        errors_text(errors.drop_last()) + error_line(errors.last()) + "\n"@
    }
}

/// Collection of validation errors.
#[derive(Debug)]
pub struct ValidationErrors {
    pub errors: Vec<ValidationError>,
}

impl View for ValidationErrors {
    type V = Seq<ErrorView>;

    open spec fn view(&self) -> Seq<ErrorView> {
        views(self.errors@)
    }
}

impl Clone for ValidationErrors {
    fn clone(&self) -> (r: Self)
        ensures
            r.errors@ == self.errors@,
    {
        let mut errors: Vec<ValidationError> = Vec::new();
        let n = self.errors.len();
        for i in 0..n
            invariant
                n == self.errors@.len(),
                errors@ == self.errors@.take(i as int),
        {
            errors.push(self.errors[i].clone());
            proof {
                assert(errors@ =~= self.errors@.take(i + 1));
            }
        }
        proof {
            assert(self.errors@.take(n as int) =~= self.errors@);
        }
        ValidationErrors { errors }
    }
}

impl ValidationErrors {
    /// Create a new validation errors collection.
    pub fn new(errors: Vec<ValidationError>) -> (r: ValidationErrors)
        ensures
            r.errors == errors,
    {
        ValidationErrors { errors }
    }

    /// Check if there are any errors.
    pub fn is_empty(&self) -> (b: bool)
        ensures
            b == (self@.len() == 0),
    {
        self.errors.len() == 0
    }

    /// Get the number of errors.
    pub fn len(&self) -> (n: usize)
        ensures
            n == self@.len(),
    {
        self.errors.len()
    }

    /// Add an error at the end.
    pub fn add(&mut self, error: ValidationError)
        ensures
            final(self).errors@ == old(self).errors@.push(error),
            final(self)@ == old(self)@.push(error@),
    {
        self.errors.push(error);
        proof {
            assert(views(self.errors@) =~= views(old(self).errors@).push(error@));
        }
    }

    /// Get the errors for a specific field, in order.
    pub fn get_field_errors(&self, field: &str) -> (r: Vec<&ValidationError>)
        ensures
            r@.map_values(|e: &ValidationError| e@) == errors_for_field(self@, field@),
    {
        let wanted = field.to_owned();
        let mut r: Vec<&ValidationError> = Vec::new();
        let n = self.errors.len();
        for i in 0..n
            invariant
                n == self.errors@.len(),
                wanted@ == field@,
                r@.map_values(|e: &ValidationError| e@) == errors_for_field(
                    self@.take(i as int),
                    field@,
                ),
        {
            proof {
                assert(self@.take(i + 1).drop_last() =~= self@.take(i as int));
                assert(self@.take(i + 1).last() == self.errors@[i as int]@);
            }
            let e = &self.errors[i];
            if e.field == wanted {
                let ghost before = r@;
                r.push(e);
                proof {
                    assert(r@.map_values(|e: &ValidationError| e@) =~= before.map_values(
                        |e: &ValidationError| e@,
                    ).push(e@));
                }
            }
        }
        proof {
            assert(self@.take(n as int) =~= self@);
        }
        r
    }

    /// The errors as text, one `"<field>: <message>"` line each.
    pub fn display(&self) -> (s: String)
        ensures
            s@ == errors_text(self@),
    {
        let mut s = String::new();
        let n = self.errors.len();
        for i in 0..n
            invariant
                n == self.errors@.len(),
                s@ == errors_text(self@.take(i as int)),
        {
            proof {
                assert(self@.take(i + 1).drop_last() =~= self@.take(i as int));
                assert(self@.take(i + 1).last() == self.errors@[i as int]@);
            }
            let line = self.errors[i].display();
            s.append(line.as_str());
            s.append("\n");
        }
        proof {
            assert(self@.take(n as int) =~= self@);
        }
        s
    }
}

impl From<Vec<ValidationError>> for ValidationErrors {
    fn from(errors: Vec<ValidationError>) -> (r: ValidationErrors) {
        ValidationErrors { errors }
    }
}

impl vstd::std_specs::convert::FromSpecImpl<Vec<ValidationError>> for ValidationErrors {
    open spec fn obeys_from_spec() -> bool {
        true
    }

    open spec fn from_spec(errors: Vec<ValidationError>) -> ValidationErrors {
        ValidationErrors { errors }
    }
}

} // verus!
