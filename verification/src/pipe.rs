use vstd::prelude::*;

use crate::errors::ValidationError;
use crate::traits::Validate;

verus! {

/// Why a request body was refused.
#[derive(Debug)]
pub enum PipeRejection {
    /// The body is not a value of the expected type; the parser's message.
    InvalidJson(String),
    /// The value failed validation; its errors.
    Invalid(Vec<ValidationError>),
}

/// Validation pipe for request bodies: a body is accepted when it parses
/// and the parsed value validates.
pub struct ValidationPipe;

/// What a validated value comes to: the value when its verdict is `Ok`,
/// else a refusal carrying the verdict's errors.
pub open spec fn decision<T>(value: T, verdict: Result<(), Vec<ValidationError>>) -> Result<T, PipeRejection> {
    match verdict {
        Ok(()) => Ok(value),
        Err(errors) => Err(PipeRejection::Invalid(errors)),
    }
}

/// `r` is what a parsed `value` comes to under a verdict that a call of
/// the value's own `validate` can return.
pub open spec fn validated_answer<T: Validate>(value: T, r: Result<T, PipeRejection>) -> bool {
    exists|verdict: Result<(), Vec<ValidationError>>|
        call_ensures(T::validate, (&value,), verdict) && r == decision(value, verdict)
}

impl ValidationPipe {
    /// Decide on a parsed value given the verdict of its validation: accept
    /// the value when the verdict is `Ok`, refuse it with the verdict's
    /// errors otherwise.
    pub fn decide<T>(value: T, verdict: Result<(), Vec<ValidationError>>) -> (r: Result<T, PipeRejection>)
        ensures
            r == decision(value, verdict),
    {
        match verdict {
            Ok(()) => Ok(value),
            Err(errors) => Err(PipeRejection::Invalid(errors)),
        }
    }

    /// Decide on a parsed body: a parse failure is refused as invalid JSON
    /// with the parser's message; a parsed value is validated, and `decide`
    /// turns the value and the verdict of its `validate` into the answer.
    pub fn accept<T: Validate>(parsed: Result<T, String>) -> (r: Result<T, PipeRejection>)
        ensures
            parsed matches Err(m) ==> r matches Err(PipeRejection::InvalidJson(m2)) && m2 == m,
            parsed is Ok ==> validated_answer(parsed->Ok_0, r),
    {
        match parsed {
            Err(message) => Err(PipeRejection::InvalidJson(message)),
            Ok(value) => {
                let verdict = value.validate();
                Self::decide(value, verdict)
            },
        }
    }
}

} // verus!
