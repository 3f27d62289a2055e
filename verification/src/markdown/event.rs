//! The flat event vocabulary that a markup parser hands to the tree builder.

use vstd::prelude::*;

verus! {

/// How the cells of one table column are aligned.
#[derive(Clone, Copy, Debug, PartialEq, Eq, Structural)]
pub enum Alignment {
    /// The column states no alignment.
    Unaligned,
    Left,
    Center,
    Right,
}

/// Whether a code block declared its language or was recognised by indentation.
#[derive(Debug)]
pub enum CodeBlockKind {
    Indented,
    Fenced(String),
}

/// The element that a `Start` or `End` event opens or closes, with the
/// parameters that decide its shape.
#[derive(Debug)]
pub enum Tag {
    Paragraph,
    /// A heading of the given level; only levels 1 to 6 have a shape.
    Heading(u32),
    BlockQuote,
    CodeBlock(CodeBlockKind),
    /// A list; `Some(n)` is an ordered list whose first item is numbered `n`.
    List(Option<u64>),
    ListItem,
    /// A table with one alignment per column.
    Table(Vec<Alignment>),
    TableHead,
    TableRow,
    TableCell,
    Emphasis,
    Strong,
    Strikethrough,
    /// A link: target, then title.
    Link(String, String),
    /// An image: source, then title.
    Image(String, String),
    FootnoteDefinition(String),
}

/// One unit of a flattened parse.
#[derive(Debug)]
pub enum Event {
    Start(Tag),
    End(Tag),
    Text(String),
    SoftBreak,
    HardBreak,
    InlineHtml(String),
    /// Inline code; the builder has no rendering for it.
    Code(String),
    /// A reference to a footnote; the builder has no rendering for it.
    FootnoteReference(String),
    /// A horizontal rule; the builder has no rendering for it.
    Rule,
    /// A task list checkbox; the builder has no rendering for it.
    TaskListMarker(bool),
}

} // verus!
