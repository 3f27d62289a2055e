//! The tag shaper: which fresh element a start tag opens.

use vstd::prelude::*;
use vstd::string::StringExecFns;
use crate::markdown::event::{Alignment, CodeBlockKind, Tag};
use crate::markdown::node::{add_class, Node, NodeView};

verus! {

/// Why a tag has no shape.
#[derive(Clone, Copy, Debug, PartialEq, Eq, Structural)]
pub enum ShapeError {
    /// A heading whose level is not one of 1 to 6.
    InvalidHeadingLevel,
}

/// The decimal digit `d`, for `d` below ten.
pub open spec fn digit(d: nat) -> Seq<char> {
    if d == 0 {
        "0"@
    } else if d == 1 {
        "1"@
    } else if d == 2 {
        "2"@
    } else if d == 3 {
        "3"@
    } else if d == 4 {
        "4"@
    } else if d == 5 {
        "5"@
    } else if d == 6 {
        "6"@
    } else if d == 7 {
        "7"@
    } else if d == 8 {
        "8"@
    } else {
        "9"@
    }
}

/// The decimal numeral of `n`, without leading zeros.
pub open spec fn decimal(n: nat) -> Seq<char>
    decreases n,
{
    if n < 10 {
        digit(n)
    } else {
        decimal(n / 10) + digit(n % 10)
    }
}

fn digit_str(d: u64) -> (s: &'static str)
    requires
        d < 10,
    ensures
        s@ == digit(d as nat),
{
    if d == 0 {
        "0"
    } else if d == 1 {
        "1"
    } else if d == 2 {
        "2"
    } else if d == 3 {
        "3"
    } else if d == 4 {
        "4"
    } else if d == 5 {
        "5"
    } else if d == 6 {
        "6"
    } else if d == 7 {
        "7"
    } else if d == 8 {
        "8"
    } else {
        "9"
    }
}

/// Writes `n` as a decimal numeral.
pub fn decimal_string(n: u64) -> (s: String)
    ensures
        s@ == decimal(n as nat),
    decreases n,
{
    if n < 10 {
        digit_str(n).to_owned()
    } else {
        let mut s = decimal_string(n / 10);
        s.append(digit_str(n % 10));
        s
    }
}

/// The element name of a heading of the given level, for levels 1 to 6.
pub open spec fn heading_name(level: u32) -> Seq<char> {
    if level == 1 {
        "h1"@
    } else if level == 2 {
        "h2"@
    } else if level == 3 {
        "h3"@
    } else if level == 4 {
        "h4"@
    } else if level == 5 {
        "h5"@
    } else {
        "h6"@
    }
}

/// The class that marks a code block of a recognised language.
pub open spec fn language_class(lang: Seq<char>) -> Option<Seq<char>> {
    if lang == "html"@ {
        Some("html-language"@)
    } else if lang == "rust"@ {
        Some("rust-language"@)
    } else if lang == "java"@ {
        Some("java-language"@)
    } else if lang == "c"@ {
        Some("c-language"@)
    } else {
        None
    }
}

/// An element that points somewhere: `key` holds the target, and `title` is
/// set only for a title that is not empty.
pub open spec fn pointing(name: Seq<char>, key: Seq<char>, target: Seq<char>, title: Seq<char>) -> NodeView {
    let el = NodeView::element(name).with_attribute(key, target);
    if title.len() == 0 {
        el
    } else {
        el.with_attribute("title"@, title)
    }
}

/// The fresh element that `tag` opens, or why it opens none.
pub open spec fn shape(tag: Tag) -> Result<NodeView, ShapeError> {
    match tag {
        Tag::Paragraph => Ok(NodeView::element("p"@)),
        Tag::Heading(level) => if 1 <= level <= 6 {
            Ok(NodeView::element(heading_name(level)))
        } else {
            Err(ShapeError::InvalidHeadingLevel)
        },
        Tag::BlockQuote => Ok(NodeView::element("blockquote"@).with_class("blockquote"@)),
        Tag::CodeBlock(CodeBlockKind::Indented) => Ok(NodeView::element("code"@)),
        Tag::CodeBlock(CodeBlockKind::Fenced(lang)) => match language_class(lang@) {
            Some(class) => Ok(NodeView::element("code"@).with_class(class)),
            None => Ok(NodeView::element("code"@)),
        },
        Tag::List(None) => Ok(NodeView::element("ul"@)),
        Tag::List(Some(start)) => if start == 1 {
            Ok(NodeView::element("ol"@))
        } else {
            Ok(NodeView::element("ol"@).with_attribute("start"@, decimal(start as nat)))
        },
        Tag::ListItem => Ok(NodeView::element("li"@)),
        Tag::Table(_) => Ok(NodeView::element("table"@).with_class("table"@)),
        Tag::TableHead => Ok(NodeView::element("th"@)),
        Tag::TableRow => Ok(NodeView::element("tr"@)),
        Tag::TableCell => Ok(NodeView::element("td"@)),
        Tag::Emphasis => Ok(NodeView::element("span"@).with_class("is-italic"@)),
        Tag::Strong => Ok(NodeView::element("span"@).with_class("has-text-weight-bold"@)),
        Tag::Strikethrough => Ok(NodeView::element("strike"@)),
        Tag::Link(target, title) => Ok(pointing("a"@, "href"@, target@, title@)),
        Tag::Image(target, title) => Ok(pointing("img"@, "src"@, target@, title@)),
        Tag::FootnoteDefinition(_) => Ok(NodeView::element("span"@)),
    }
}

/// The column alignments that a table tag carries; no other tag carries any.
pub open spec fn column_alignments(tag: Tag) -> Seq<Alignment> {
    match tag {
        Tag::Table(aligns) => aligns@,
        _ => Seq::empty(),
    }
}

/// The element name of a heading of the given level.
pub fn heading_tag(level: u32) -> (name: &'static str)
    requires
        1 <= level <= 6,
    ensures
        name@ == heading_name(level),
{
    if level == 1 {
        "h1"
    } else if level == 2 {
        "h2"
    } else if level == 3 {
        "h3"
    } else if level == 4 {
        "h4"
    } else if level == 5 {
        "h5"
    } else {
        "h6"
    }
}

fn language_token(lang: &String) -> (class: Option<&'static str>)
    ensures
        match class {
            Some(c) => language_class(lang@) == Some(c@),
            None => language_class(lang@) is None,
        },
{
    if *lang == "html".to_owned() {
        Some("html-language")
    } else if *lang == "rust".to_owned() {
        Some("rust-language")
    } else if *lang == "java".to_owned() {
        Some("java-language")
    } else if *lang == "c".to_owned() {
        Some("c-language")
    } else {
        None
    }
}

fn pointing_element(name: &str, key: &str, target: &String, title: &String) -> (node: Node)
    ensures
        node@ == pointing(name@, key@, target@, title@),
{
    let mut el = Node::new(name);
    el.set_attribute(key, target.clone());
    if !title.as_str().is_empty() {
        el.set_attribute("title", title.clone());
    }
    el
}

/// Shapes `tag` into the fresh element that it opens: the element's name and
/// its starting classes and attributes. A heading outside levels 1 to 6 is
/// refused; every other tag has a shape.
pub fn make_tag(tag: &Tag) -> (shaped: Result<Node, ShapeError>)
    ensures
        match shaped {
            Ok(node) => shape(*tag) == Ok::<NodeView, ShapeError>(node@),
            Err(e) => shape(*tag) == Err::<NodeView, ShapeError>(e),
        },
{
    match tag {
        Tag::Paragraph => Ok(Node::new("p")),
        Tag::Heading(level) => {
            if 1 <= *level && *level <= 6 {
                Ok(Node::new(heading_tag(*level)))
            } else {
                Err(ShapeError::InvalidHeadingLevel)
            }
        },
        Tag::BlockQuote => {
            let mut el = Node::new("blockquote");
            add_class(&mut el, "blockquote");
            Ok(el)
        },
        Tag::CodeBlock(kind) => {
            let mut el = Node::new("code");
            match kind {
                CodeBlockKind::Fenced(lang) => {
                    match language_token(lang) {
                        Some(class) => {
                            add_class(&mut el, class);
                        },
                        None => {},
                    }
                },
                CodeBlockKind::Indented => {},
            }
            Ok(el)
        },
        Tag::List(None) => Ok(Node::new("ul")),
        Tag::List(Some(start)) => {
            let mut el = Node::new("ol");
            if *start != 1 {
                el.set_attribute("start", decimal_string(*start));
            }
            Ok(el)
        },
        Tag::ListItem => Ok(Node::new("li")),
        Tag::Table(_) => {
            let mut el = Node::new("table");
            add_class(&mut el, "table");
            Ok(el)
        },
        Tag::TableHead => Ok(Node::new("th")),
        Tag::TableRow => Ok(Node::new("tr")),
        Tag::TableCell => Ok(Node::new("td")),
        Tag::Emphasis => {
            let mut el = Node::new("span");
            add_class(&mut el, "is-italic");
            Ok(el)
        },
        Tag::Strong => {
            let mut el = Node::new("span");
            add_class(&mut el, "has-text-weight-bold");
            Ok(el)
        },
        Tag::Strikethrough => Ok(Node::new("strike")),
        Tag::Link(target, title) => Ok(pointing_element("a", "href", target, title)),
        Tag::Image(target, title) => Ok(pointing_element("img", "src", target, title)),
        Tag::FootnoteDefinition(_) => Ok(Node::new("span")),
    }
}

/// A copy of the column alignments that `tag` carries.
pub fn retained_alignments(tag: &Tag) -> (aligns: Vec<Alignment>)
    ensures
        aligns@ == column_alignments(*tag),
{
    let mut out: Vec<Alignment> = Vec::new();
    match tag {
        Tag::Table(aligns) => {
            let mut i: usize = 0;
            while i < aligns.len()
                invariant
                    i <= aligns.len(),
                    out@ == aligns@.take(i as int),
                decreases aligns.len() - i,
            {
                out.push(aligns[i]);
                proof {
                    assert(aligns@.take(i + 1) =~= aligns@.take(i as int).push(aligns@[i as int]));
                }
                i += 1;
            }
            proof {
                assert(aligns@.take(i as int) =~= aligns@);
            }
        },
        _ => {},
    }
    out
}

} // verus!
