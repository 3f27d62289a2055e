//! The value behind a form input, with the two marks that validation reads.

use vstd::prelude::*;
use vstd::std_specs::cmp::PartialEqSpec;
use crate::validations::{ValidationError, Validator};

verus! {

/// The current value of a form input, whether the input was touched, and
/// whether the text in the input failed to convert to a value at all.
#[derive(Debug, Default, Clone)]
pub struct FormStorage<T> where T: std::fmt::Debug + Default + Clone {
    value: T,
    dirty: bool,
    invalid_value: bool,
}

impl<T> FormStorage<T> where T: std::fmt::Debug + Default + Clone + PartialEq {
    /// The stored value.
    pub closed spec fn current(&self) -> T {
        self.value
    }

    /// Whether an update has marked the storage as touched.
    pub closed spec fn is_dirty(&self) -> bool {
        self.dirty
    }

    /// Whether the input's text is known not to convert to a value.
    pub closed spec fn is_invalid(&self) -> bool {
        self.invalid_value
    }

    /// What reading the storage yields: the value can be had only while the
    /// input's text is not marked as invalid.
    pub open spec fn checked(&self) -> Result<(), ValidationError> {
        if self.is_invalid() {
            Err(ValidationError::InvalidValue)
        } else {
            Ok(())
        }
    }

    /// A storage that holds `value`, untouched and not marked invalid.
    pub fn new(value: T) -> (storage: Self)
        ensures
            storage.current() == value,
            !storage.is_dirty(),
            !storage.is_invalid(),
    {
        Self { value, dirty: false, invalid_value: false }
    }

    /// Stores `new_value`. The storage becomes touched when the value it held
    /// compares equal to the new one, and stays touched once it is.
    pub fn update(&mut self, new_value: T)
        ensures
            final(self).current() == new_value,
            final(self).is_invalid() == old(self).is_invalid(),
            old(self).is_dirty() ==> final(self).is_dirty(),
            T::obeys_eq_spec() ==> final(self).is_dirty() == (old(self).is_dirty() || old(self).current().eq_spec(
                &new_value,
            )),
    {
        let same = self.value == new_value;
        self.dirty = self.dirty || same;
        self.value = new_value;
    }

    /// Stores `new_value` as [`update`](Self::update) does, and sets the
    /// invalid mark to `invalid`.
    pub fn update_with_invalid_hint(&mut self, new_value: T, invalid: bool)
        ensures
            final(self).current() == new_value,
            final(self).is_invalid() == invalid,
            old(self).is_dirty() ==> final(self).is_dirty(),
            T::obeys_eq_spec() ==> final(self).is_dirty() == (old(self).is_dirty() || old(self).current().eq_spec(
                &new_value,
            )),
    {
        self.update(new_value);
        self.invalid_value = invalid;
    }

    /// Sets the invalid mark to `invalid` and leaves the rest as it is.
    pub fn update_invalid_hint(&mut self, invalid: bool)
        ensures
            final(self).current() == old(self).current(),
            final(self).is_dirty() == old(self).is_dirty(),
            final(self).is_invalid() == invalid,
    {
        self.invalid_value = invalid;
    }

    /// A copy of the stored value, unless the input's text is marked invalid.
    pub fn value(&self) -> (value: Result<T, ValidationError>)
        ensures
            match value {
                Ok(v) => !self.is_invalid() && cloned(self.current(), v),
                Err(e) => self.is_invalid() && e == ValidationError::InvalidValue,
            },
    {
        match self.validate() {
            Ok(_) => Ok(self.unchecked_value()),
            Err(e) => Err(e),
        }
    }

    /// The stored value itself, unless the input's text is marked invalid.
    pub fn value_ref(&self) -> (value: Result<&T, ValidationError>)
        ensures
            match value {
                Ok(v) => !self.is_invalid() && *v == self.current(),
                Err(e) => self.is_invalid() && e == ValidationError::InvalidValue,
            },
    {
        match self.validate() {
            Ok(_) => Ok(&self.value),
            Err(e) => Err(e),
        }
    }

    /// A copy of the stored value, whatever the invalid mark says.
    pub fn unchecked_value(&self) -> (value: T)
        ensures
            cloned(self.current(), value),
    {
        self.value.clone()
    }

    /// A storage of its own with a copy of the value and the same marks.
    pub fn duplicate(&self) -> (copy: Self)
        ensures
            cloned(self.current(), copy.current()),
            copy.is_dirty() == self.is_dirty(),
            copy.is_invalid() == self.is_invalid(),
    {
        Self { value: self.value.clone(), dirty: self.dirty, invalid_value: self.invalid_value }
    }
}

impl<T> Validator for FormStorage<T> where T: std::fmt::Debug + Default + Clone + PartialEq {
    open spec fn outcome(&self) -> Result<(), ValidationError> {
        self.checked()
    }

    /// Fails with `InvalidValue` exactly when the input's text is marked invalid.
    fn validate(&self) -> (verdict: Result<(), ValidationError>) {
        if self.invalid_value {
            return Err(ValidationError::InvalidValue);
        }
        Ok(())
    }
}

} // verus!
