//! Validation of input values, and a wrapper that marks a value as validated.

use vstd::prelude::*;

verus! {

/// One reason why a value failed validation.
#[derive(Copy, Clone, Debug, PartialEq, Eq)]
pub enum ValidationError {
    /// A number field is below its minimum; the field is named.
    Range(&'static str),
    /// A cursor field does not hold a valid cursor; the field is named.
    Cursor(&'static str),
    /// A text or list field is shorter or longer than allowed; the field is
    /// named.
    Length(&'static str),
}

/// All the reasons why a value failed validation, in field order.
#[derive(Clone, Debug, PartialEq)]
pub struct ValidationErrors {
    pub errors: Vec<ValidationError>,
}

/// A value whose fields can be checked against rules.
pub trait Validate: Sized {
    /// The reasons why the value breaks the rules, in field order; empty
    /// exactly when the value is valid.
    spec fn validation_errors(&self) -> Seq<ValidationError>;

    /// Checks the value against the rules, and reports every rule it breaks.
    fn validate(&self) -> (r: Result<(), ValidationErrors>)
        ensures
            match r {
                Ok(()) => self.validation_errors().len() == 0,
                Err(e) => e.errors@ == self.validation_errors() && e.errors@.len() > 0,
            },
    ;
}

/// A value that has passed validation. It can only be made by
/// [`Valid::validate`], so holding one proves that the value is valid.
#[derive(Debug)]
pub struct Valid<T: Validate> {
    inner: T,
}

impl<T: Validate> Valid<T> {
    #[verifier::type_invariant]
    spec fn wf(self) -> bool {
        self.inner.validation_errors().len() == 0
    }

    /// The validated value.
    pub closed spec fn value(self) -> T {
        self.inner
    }

    /// Validates the value; on success wraps it to mark it as valid.
    pub fn validate(value: T) -> (r: Result<Self, ValidationErrors>)
        ensures
            match r {
                Ok(v) => v.value() == value && value.validation_errors().len() == 0,
                Err(e) => e.errors@ == value.validation_errors() && e.errors@.len() > 0,
            },
    {
        match value.validate() {
            Ok(()) => Ok(Valid { inner: value }),
            Err(e) => Err(e),
        }
    }

    /// The validated value, which is known to break no rule.
    pub fn inner(&self) -> (r: &T)
        ensures
            *r == self.value(),
            r.validation_errors().len() == 0,
    {
        proof {
            use_type_invariant(self);
        }
        &self.inner
    }
}

} // verus!
