//! Flash notices: their kinds, their styling, and how long they show.

use vstd::prelude::*;
use vstd::string::StringExecFns;

verus! {

/// What a notice is about, which decides its colour.
#[derive(Debug, Clone, PartialEq, Eq, Structural)]
pub enum Kind {
    Primary,
    Link,
    Info,
    Success,
    Warning,
    Danger,
}

impl Kind {
    /// The class that colours a notice of this kind.
    pub open spec fn class_name(self) -> Seq<char> {
        match self {
            Kind::Primary => "is-primary"@,
            Kind::Link => "is-link"@,
            Kind::Info => "is-info"@,
            Kind::Success => "is-success"@,
            Kind::Warning => "is-warning"@,
            Kind::Danger => "is-danger"@,
        }
    }

    /// The class that colours a notice of this kind.
    pub fn css_class(&self) -> (class: &'static str)
        ensures
            class@ == self.class_name(),
    {
        match self {
            Kind::Primary => "is-primary",
            Kind::Link => "is-link",
            Kind::Info => "is-info",
            Kind::Success => "is-success",
            Kind::Warning => "is-warning",
            Kind::Danger => "is-danger",
        }
    }
}

/// The classes of the element that shows a notice of the given kind.
pub fn notification_class(kind: &Kind) -> (class: String)
    ensures
        class@ == "notification "@ + kind.class_name(),
{
    "notification ".to_owned().concat(kind.css_class())
}

/// Whether a notice made at `created_at` to show for `duration` still shows
/// at `now`: it shows until its time is up, and no longer. The three are
/// counted in one unit.
pub fn is_showing(now: i64, created_at: i64, duration: u64) -> (showing: bool)
    ensures
        showing == (now < created_at + duration),
{
    let until: i128 = created_at as i128 + duration as i128;
    (now as i128) < until
}

} // verus!
