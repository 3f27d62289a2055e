//! Presence: what it means for a value of each kind to be filled in.

use vstd::prelude::*;
use crate::forms::storage::FormStorage;
use crate::validations::{ValidationError, Validator};

verus! {

/// Values of which one can say whether they are filled in.
pub trait Presentable: Default + Clone + PartialEq {
    /// Whether the value counts as filled in.
    spec fn is_filled(&self) -> bool;

    /// Whether the value counts as filled in.
    fn present(&self) -> (filled: bool)
        ensures
            filled == self.is_filled(),
    ;

    /// Whether the value counts as left empty.
    fn absent(&self) -> (empty: bool)
        ensures
            empty == !self.is_filled(),
    {
        !self.present()
    }
}

impl Presentable for String {
    /// A string is filled in when it is not empty.
    open spec fn is_filled(&self) -> bool {
        self@.len() != 0
    }

    fn present(&self) -> (filled: bool) {
        !self.as_str().is_empty()
    }
}

impl Presentable for u8 {
    /// A number is filled in when it is not zero.
    open spec fn is_filled(&self) -> bool {
        *self != 0
    }

    fn present(&self) -> (filled: bool) {
        *self != 0
    }
}

impl Presentable for u16 {
    /// A number is filled in when it is not zero.
    open spec fn is_filled(&self) -> bool {
        *self != 0
    }

    fn present(&self) -> (filled: bool) {
        *self != 0
    }
}

impl Presentable for u32 {
    /// A number is filled in when it is not zero.
    open spec fn is_filled(&self) -> bool {
        *self != 0
    }

    fn present(&self) -> (filled: bool) {
        *self != 0
    }
}

impl Presentable for u64 {
    /// A number is filled in when it is not zero.
    open spec fn is_filled(&self) -> bool {
        *self != 0
    }

    fn present(&self) -> (filled: bool) {
        *self != 0
    }
}

impl Presentable for u128 {
    /// A number is filled in when it is not zero.
    open spec fn is_filled(&self) -> bool {
        *self != 0
    }

    fn present(&self) -> (filled: bool) {
        *self != 0
    }
}

impl Presentable for i8 {
    /// A number is filled in when it is not zero.
    open spec fn is_filled(&self) -> bool {
        *self != 0
    }

    fn present(&self) -> (filled: bool) {
        *self != 0
    }
}

impl Presentable for i16 {
    /// A number is filled in when it is not zero.
    open spec fn is_filled(&self) -> bool {
        *self != 0
    }

    fn present(&self) -> (filled: bool) {
        *self != 0
    }
}

impl Presentable for i32 {
    /// A number is filled in when it is not zero.
    open spec fn is_filled(&self) -> bool {
        *self != 0
    }

    fn present(&self) -> (filled: bool) {
        *self != 0
    }
}

impl Presentable for i64 {
    /// A number is filled in when it is not zero.
    open spec fn is_filled(&self) -> bool {
        *self != 0
    }

    fn present(&self) -> (filled: bool) {
        *self != 0
    }
}

impl Presentable for i128 {
    /// A number is filled in when it is not zero.
    open spec fn is_filled(&self) -> bool {
        *self != 0
    }

    fn present(&self) -> (filled: bool) {
        *self != 0
    }
}

impl Presentable for isize {
    /// A number is filled in when it is not zero.
    open spec fn is_filled(&self) -> bool {
        *self != 0
    }

    fn present(&self) -> (filled: bool) {
        *self != 0
    }
}

impl Presentable for usize {
    /// A number is filled in when it is not zero.
    open spec fn is_filled(&self) -> bool {
        *self != 0
    }

    fn present(&self) -> (filled: bool) {
        *self != 0
    }
}

impl<T> Presentable for Option<T> where T: Presentable {
    /// An optional value is filled in when it holds a value that is.
    open spec fn is_filled(&self) -> bool {
        match self {
            Some(p) => p.is_filled(),
            None => false,
        }
    }

    fn present(&self) -> (filled: bool) {
        match self {
            Some(p) => p.present(),
            None => false,
        }
    }
}

/// Requires the stored value to be filled in.
#[derive(Debug)]
pub struct PresentValidation<T> where T: Default + Clone + PartialEq + std::fmt::Debug {
    pub value: FormStorage<T>,
}

impl<T> Validator for PresentValidation<T> where T: Presentable + std::fmt::Debug {
    /// `InvalidValue` where the input's text is marked invalid, else
    /// `NotPresent` where the stored value is not filled in.
    open spec fn outcome(&self) -> Result<(), ValidationError> {
        if self.value.is_invalid() {
            Err(ValidationError::InvalidValue)
        } else if self.value.current().is_filled() {
            Ok(())
        } else {
            Err(ValidationError::NotPresent)
        }
    }

    fn validate(&self) -> (verdict: Result<(), ValidationError>) {
        match self.value.value_ref() {
            Ok(value) => {
                if value.present() {
                    Ok(())
                } else {
                    Err(ValidationError::NotPresent)
                }
            },
            Err(e) => Err(e),
        }
    }
}

/// Requires the stored value to be left empty.
#[derive(Debug)]
pub struct AbsentValidation<T> where T: Default + Clone + PartialEq + std::fmt::Debug {
    pub value: FormStorage<T>,
}

impl<T> Validator for AbsentValidation<T> where T: Presentable + std::fmt::Debug {
    /// `InvalidValue` where the input's text is marked invalid, else
    /// `NotAbsent` where the stored value is filled in.
    open spec fn outcome(&self) -> Result<(), ValidationError> {
        if self.value.is_invalid() {
            Err(ValidationError::InvalidValue)
        } else if self.value.current().is_filled() {
            Err(ValidationError::NotAbsent)
        } else {
            Ok(())
        }
    }

    fn validate(&self) -> (verdict: Result<(), ValidationError>) {
        match self.value.value_ref() {
            Ok(value) => {
                if value.absent() {
                    Ok(())
                } else {
                    Err(ValidationError::NotAbsent)
                }
            },
            Err(e) => Err(e),
        }
    }
}

} // verus!
