//! Radio groups: how a group shows that its field has failures.

use vstd::prelude::*;

verus! {

/// The classes of a radio group, marked where its field has failures.
pub open spec fn group_class(has_errors: bool) -> Seq<char> {
    if has_errors {
        "control is-danger"@
    } else {
        "control"@
    }
}

/// The classes of a radio group.
pub fn control_class(has_errors: bool) -> (class: &'static str)
    ensures
        class@ == group_class(has_errors),
{
    if has_errors {
        "control is-danger"
    } else {
        "control"
    }
}

} // verus!
