//! Buttons: how a button shows that its action is under way.

use vstd::prelude::*;
use vstd::string::StringExecFns;

verus! {

/// The class of a button whose action is under way; empty otherwise.
pub open spec fn loading_class(processing: bool) -> Seq<char> {
    if processing {
        "is-loading"@
    } else {
        ""@
    }
}

/// The class of a button whose action is under way; empty otherwise.
pub fn is_loading(processing: bool) -> (class: &'static str)
    ensures
        class@ == loading_class(processing),
{
    if processing {
        "is-loading"
    } else {
        ""
    }
}

/// The classes of a button: `button`, the caller's own classes, and the
/// loading class, each after a space.
pub fn button_class(css_class: &str, processing: bool) -> (class: String)
    ensures
        class@ == "button "@ + css_class@ + " "@ + loading_class(processing),
{
    "button ".to_owned().concat(css_class).concat(" ").concat(is_loading(processing))
}

} // verus!
