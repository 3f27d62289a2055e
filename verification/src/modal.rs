//! Modal dialogs: whether the page shows them.

use vstd::prelude::*;

verus! {

/// The classes of a modal dialog, which is active exactly while it is visible.
pub open spec fn modal_class(visible: bool) -> Seq<char> {
    if visible {
        "modal is-active"@
    } else {
        "modal"@
    }
}

/// The classes of a modal dialog.
pub fn css_class(visible: bool) -> (class: &'static str)
    ensures
        class@ == modal_class(visible),
{
    if visible {
        "modal is-active"
    } else {
        "modal"
    }
}

} // verus!
