//! Text inputs: what typing does to the stored value, and how an input shows
//! that its field has failures.

use vstd::prelude::*;
use vstd::std_specs::cmp::PartialEqSpec;
use crate::forms::storage::FormStorage;

verus! {

/// The classes of a text input, marked where its field has failures.
pub open spec fn field_class(has_errors: bool) -> Seq<char> {
    if has_errors {
        "input is-danger"@
    } else {
        "input"@
    }
}

/// The classes of a text input.
pub fn input_class(has_errors: bool) -> (class: &'static str)
    ensures
        class@ == field_class(has_errors),
{
    if has_errors {
        "input is-danger"
    } else {
        "input"
    }
}

/// Takes the text of an input into its storage and says which value to
/// announce. `parsed` is the value that the text converts to, if it converts.
///
/// Empty text stores no value and announces none. Text that converts stores
/// its value and announces it. Text that does not convert leaves the stored
/// value alone, marks the storage invalid and announces no value.
pub fn record_input<V>(storage: &mut FormStorage<Option<V>>, text: &str, parsed: Option<V>) -> (announced:
    Option<V>) where V: std::fmt::Debug + Clone + PartialEq
    ensures
        text@.len() == 0 ==> {
            &&& final(storage).current() == None::<V>
            &&& !final(storage).is_invalid()
            &&& announced is None
        },
        text@.len() != 0 && parsed is Some ==> {
            &&& final(storage).current() == parsed
            &&& !final(storage).is_invalid()
            &&& announced is Some
            &&& cloned(parsed->Some_0, announced->Some_0)
        },
        text@.len() != 0 && parsed is None ==> {
            &&& final(storage).current() == old(storage).current()
            &&& final(storage).is_dirty() == old(storage).is_dirty()
            &&& final(storage).is_invalid()
            &&& announced is None
        },
        (text@.len() == 0 || parsed is Some) ==> {
            &&& old(storage).is_dirty() ==> final(storage).is_dirty()
            &&& Option::<V>::obeys_eq_spec() ==> final(storage).is_dirty() == (old(storage).is_dirty()
                || old(storage).current().eq_spec(&final(storage).current()))
        },
{
    if text.is_empty() {
        storage.update_with_invalid_hint(None, false);
        None
    } else {
        match parsed {
            Some(value) => {
                let announced = value.clone();
                storage.update_with_invalid_hint(Some(value), false);
                Some(announced)
            },
            None => {
                storage.update_invalid_hint(true);
                None
            },
        }
    }
}

} // verus!
