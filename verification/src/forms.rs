//! What form inputs share: the identity of a field and the storage of its value.

use vstd::prelude::*;
use std::borrow::Cow;

pub mod button;
pub mod radio;
pub mod storage;
pub mod text_input;

verus! {

/// A value that names one field of a form.
pub trait FormField: Copy + std::hash::Hash + Eq + PartialEq + std::fmt::Debug + 'static {
    /// The identifier under which the field's input is known to the page.
    fn form_id(&self) -> Cow<'static, str>;
}

} // verus!
