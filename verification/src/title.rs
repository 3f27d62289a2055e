//! Titles and subtitles: which heading they are and how large it is drawn.

use vstd::prelude::*;
use vstd::string::StringExecFns;
use crate::markdown::shape::{decimal, decimal_string, heading_name, heading_tag};

verus! {

/// The size of a title that asks for none: 3, or 5 for a subtitle.
pub open spec fn default_size_of(subtitle: bool) -> i8 {
    if subtitle {
        5
    } else {
        3
    }
}

/// The size that a title is drawn in: the size asked for where it is one of
/// 1 to 6, else the default.
pub open spec fn effective_size_of(size: Option<i8>, subtitle: bool) -> i8 {
    match size {
        Some(asked) => if 1 <= asked <= 6 {
            asked
        } else {
            default_size_of(subtitle)
        },
        None => default_size_of(subtitle),
    }
}

/// The class that tells a title from a subtitle.
pub open spec fn primary_class_of(subtitle: bool) -> Seq<char> {
    if subtitle {
        "subtitle"@
    } else {
        "title"@
    }
}

/// The class that tells a title from a subtitle.
pub fn primary_class(subtitle: bool) -> (class: &'static str)
    ensures
        class@ == primary_class_of(subtitle),
{
    if subtitle {
        "subtitle"
    } else {
        "title"
    }
}

/// The size of a title that asks for none.
pub fn default_size(subtitle: bool) -> (size: i8)
    ensures
        size == default_size_of(subtitle),
{
    if subtitle {
        5
    } else {
        3
    }
}

/// The size that a title is drawn in, always one of 1 to 6.
pub fn effective_size(size: Option<i8>, subtitle: bool) -> (effective: i8)
    ensures
        effective == effective_size_of(size, subtitle),
        1 <= effective <= 6,
{
    match size {
        Some(asked) => {
            if 1 <= asked && asked <= 6 {
                asked
            } else {
                default_size(subtitle)
            }
        },
        None => default_size(subtitle),
    }
}

/// The heading element of a title: `h1` to `h6`, by its effective size.
pub fn title_tag(size: Option<i8>, subtitle: bool) -> (name: &'static str)
    ensures
        name@ == heading_name(effective_size_of(size, subtitle) as u32),
{
    heading_tag(effective_size(size, subtitle) as u32)
}

/// The classes of a title: its primary class, then `is-` and its effective size.
pub fn title_class(size: Option<i8>, subtitle: bool) -> (class: String)
    ensures
        class@ == primary_class_of(subtitle) + " is-"@ + decimal(effective_size_of(size, subtitle) as nat),
{
    let digits = decimal_string(effective_size(size, subtitle) as u64);
    primary_class(subtitle).to_owned().concat(" is-").concat(digits.as_str())
}

} // verus!
