//! Validators made of two others.

use vstd::prelude::*;
use crate::validations::{ValidationError, Validator};

verus! {

/// Passes when both sides pass; the left side is asked first.
#[derive(Debug)]
pub struct AndValidation<T, U> where T: std::fmt::Debug, U: std::fmt::Debug {
    pub left: T,
    pub right: U,
}

impl<T, U> Validator for AndValidation<T, U> where T: Validator + std::fmt::Debug, U: Validator + std::fmt::Debug {
    /// The left side's failure if it fails, else the right side's verdict.
    open spec fn outcome(&self) -> Result<(), ValidationError> {
        match self.left.outcome() {
            Ok(_) => self.right.outcome(),
            Err(e) => Err(e),
        }
    }

    fn validate(&self) -> (verdict: Result<(), ValidationError>) {
        match self.left.validate() {
            Ok(_) => self.right.validate(),
            Err(err) => Err(err),
        }
    }
}

/// Passes when either side passes; the right side is asked only when the
/// left one fails.
#[derive(Debug)]
pub struct OrValidation<T, U> where T: std::fmt::Debug, U: std::fmt::Debug {
    pub left: T,
    pub right: U,
}

impl<T, U> Validator for OrValidation<T, U> where T: Validator + std::fmt::Debug, U: Validator + std::fmt::Debug {
    /// A pass if the left side passes, else the right side's verdict.
    open spec fn outcome(&self) -> Result<(), ValidationError> {
        match self.left.outcome() {
            Ok(_) => Ok(()),
            Err(_) => self.right.outcome(),
        }
    }

    fn validate(&self) -> (verdict: Result<(), ValidationError>) {
        match self.left.validate() {
            Ok(_) => Ok(()),
            Err(_) => self.right.validate(),
        }
    }
}

/// A conjunction passes exactly when both sides pass, and fails with the
/// failure of the first side that fails.
pub proof fn lemma_and_passes_iff_both<T: Validator, U: Validator>(both: AndValidation<T, U>)
    ensures
        both.outcome() is Ok <==> both.left.outcome() is Ok && both.right.outcome() is Ok,
        both.left.outcome() is Err ==> both.outcome() == both.left.outcome(),
        both.left.outcome() is Ok ==> both.outcome() == both.right.outcome(),
{
}

/// A disjunction passes exactly when either side passes, and fails with the
/// failure of the right side when both fail.
pub proof fn lemma_or_passes_iff_either<T: Validator, U: Validator>(either: OrValidation<T, U>)
    ensures
        either.outcome() is Ok <==> either.left.outcome() is Ok || either.right.outcome() is Ok,
        either.outcome() is Err ==> either.outcome() == either.right.outcome(),
{
}

} // verus!
