//! Input validation, implemented by the types the front-end accepts from
//! users.

use vstd::prelude::*;

verus! {

pub trait Validate {
    fn validate(&self) -> Result<(), ValidationError>;
}

pub struct ValidationError;

impl ValidationError {
    /// The one-line description a form shows for a rejected input.
    pub fn message(&self) -> (r: &'static str)
        ensures
            r@ == "validation error"@,
    {
        "validation error"
    }
}

} // verus!
