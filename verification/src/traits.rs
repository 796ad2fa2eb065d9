use vstd::prelude::*;

use crate::errors::ValidationError;
use crate::form::FormData;

verus! {

/// Types that can check themselves.
pub trait Validate {
    /// Validate the value and return the errors, if any.
    fn validate(&self) -> Result<(), Vec<ValidationError>>;
}

/// Additional data that validation may consult.
#[derive(Debug)]
pub struct ValidationContext {
    /// Request data or additional context.
    pub data: FormData,
}

impl Clone for ValidationContext {
    fn clone(&self) -> (c: Self)
        ensures
            c.data@ == self.data@,
    {
        ValidationContext { data: self.data.clone() }
    }
}

impl ValidationContext {
    /// No context data.
    pub fn new() -> (c: ValidationContext)
        ensures
            c.data@ == Map::<Seq<char>, Seq<char>>::empty(),
    {
        ValidationContext { data: FormData::new() }
    }

    /// Add context data; a later value for the same key replaces an earlier
    /// one.
    pub fn with_data(self, key: String, value: String) -> (c: ValidationContext)
        ensures
            c.data@ == self.data@.insert(key@, value@),
    {
        let mut c = self;
        c.data.insert(key, value);
        c
    }

    /// Get context data.
    pub fn get(&self, key: &str) -> (r: Option<&String>)
        ensures
            match r {
                Some(v) => self.data@.contains_key(key@) && self.data@[key@] == v@,
                None => !self.data@.contains_key(key@),
            },
    {
        self.data.get(key)
    }
}

impl Default for ValidationContext {
    fn default() -> (c: ValidationContext)
        ensures
            c.data@ == Map::<Seq<char>, Seq<char>>::empty(),
    {
        ValidationContext::new()
    }
}

} // verus!
