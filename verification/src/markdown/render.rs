//! The tree builder: an open-element stack driven by the event stream, the
//! transforms applied when an element closes, and the assembly of the root.

use vstd::prelude::*;
use crate::markdown::event::{Alignment, Event, Tag};
use crate::markdown::node::{
    add_class, children_view, lemma_node_view, nodes_view, Child, ChildView, Node, NodeView,
};
use crate::markdown::shape::{column_alignments, make_tag, retained_alignments, shape, ShapeError};

verus! {

/// Why an event sequence cannot be built into a tree.
#[derive(Clone, Copy, Debug, PartialEq, Eq, Structural)]
pub enum BuilderError {
    /// An `End` arrived while no element was open.
    UnbalancedEnd,
    /// The events ran out while an element was still open.
    UnclosedElement,
    /// An event that the builder has no rendering for.
    UnsupportedEvent,
    /// Text, a break or inline markup arrived while no element was open.
    ContentOutsideElement,
}

/// Why rendering failed.
#[derive(Clone, Copy, Debug, PartialEq, Eq, Structural)]
pub enum RenderError {
    Shape(ShapeError),
    Builder(BuilderError),
}

/// The value of an element that is still open: the node built so far and the
/// column alignments that its start tag carried.
pub struct OpenView {
    pub node: NodeView,
    pub aligns: Seq<Alignment>,
}

/// The value of the builder between two events.
pub struct BuildState {
    /// The open elements, innermost last.
    pub stack: Seq<OpenView>,
    /// The finished top-level elements, in the order they closed.
    pub roots: Seq<NodeView>,
}

/// The class that aligns a cell's text, if the column states an alignment.
pub open spec fn alignment_class(alignment: Alignment) -> Option<Seq<char>> {
    match alignment {
        Alignment::Unaligned => None,
        Alignment::Left => Some("text-left"@),
        Alignment::Center => Some("text-center"@),
        Alignment::Right => Some("text-right"@),
    }
}

/// The cell at position `column` of its row, aligned as its column states.
/// Text, and a cell beyond the stated columns, stay as they are.
pub open spec fn align_cell(cell: ChildView, column: int, aligns: Seq<Alignment>) -> ChildView {
    match cell {
        ChildView::Element(el) => if 0 <= column < aligns.len() {
            match alignment_class(aligns[column]) {
                Some(class) => ChildView::Element(el.with_class(class)),
                None => cell,
            }
        } else {
            cell
        },
        ChildView::Text(_) => cell,
    }
}

/// A row with each of its cells aligned by its position.
pub open spec fn align_cells(row: NodeView, aligns: Seq<Alignment>) -> NodeView {
    NodeView {
        children: Seq::new(row.children.len(), |i: int| align_cell(row.children[i], i, aligns)),
        ..row
    }
}

/// A child of a table: a row has its cells aligned, text stays as it is.
pub open spec fn align_row(row: ChildView, aligns: Seq<Alignment>) -> ChildView {
    match row {
        ChildView::Element(el) => ChildView::Element(align_cells(el, aligns)),
        ChildView::Text(_) => row,
    }
}

/// A table with the cells of each of its rows aligned.
pub open spec fn align_table(table: NodeView, aligns: Seq<Alignment>) -> NodeView {
    NodeView {
        children: Seq::new(table.children.len(), |i: int| align_row(table.children[i], aligns)),
        ..table
    }
}

/// A head cell marked as the header of its column; text stays as it is.
pub open spec fn scope_cell(cell: ChildView) -> ChildView {
    match cell {
        ChildView::Element(el) => ChildView::Element(el.with_attribute("scope"@, "col"@)),
        ChildView::Text(_) => cell,
    }
}

/// A head row with each of its cells marked as the header of its column.
pub open spec fn scope_cells(head: NodeView) -> NodeView {
    NodeView {
        children: Seq::new(head.children.len(), |i: int| scope_cell(head.children[i])),
        ..head
    }
}

/// A code element wrapped as the only child of a `pre` element.
pub open spec fn wrap_code(code: NodeView) -> NodeView {
    NodeView::element("pre"@).with_child(ChildView::Element(code))
}

/// The finished element that an open element becomes when `tag` closes it.
pub open spec fn close(open: OpenView, tag: Tag) -> NodeView {
    match tag {
        Tag::CodeBlock(_) => wrap_code(open.node),
        Tag::Table(_) => align_table(open.node, open.aligns),
        Tag::TableHead => scope_cells(open.node),
        _ => open.node,
    }
}

/// The state with `leaf` appended to the innermost open element.
pub open spec fn append_leaf(state: BuildState, leaf: ChildView) -> Result<BuildState, RenderError> {
    if state.stack.len() == 0 {
        Err(RenderError::Builder(BuilderError::ContentOutsideElement))
    } else {
        let top = state.stack.last();
        Ok(
            BuildState {
                stack: state.stack.update(
                    state.stack.len() - 1,
                    OpenView { node: top.node.with_child(leaf), aligns: top.aligns },
                ),
                roots: state.roots,
            },
        )
    }
}

/// The state after the innermost open element is closed by `tag`: the
/// finished element becomes the last child of the element below it, or the
/// last top-level element when none is open below.
pub open spec fn close_top(state: BuildState, tag: Tag) -> Result<BuildState, RenderError> {
    if state.stack.len() == 0 {
        Err(RenderError::Builder(BuilderError::UnbalancedEnd))
    } else {
        let done = close(state.stack.last(), tag);
        let rest = state.stack.drop_last();
        if rest.len() == 0 {
            Ok(BuildState { stack: rest, roots: state.roots.push(done) })
        } else {
            let parent = rest.last();
            Ok(
                BuildState {
                    stack: rest.update(
                        rest.len() - 1,
                        OpenView {
                            node: parent.node.with_child(ChildView::Element(done)),
                            aligns: parent.aligns,
                        },
                    ),
                    roots: state.roots,
                },
            )
        }
    }
}

/// The state after one event, or the error that the event raises.
pub open spec fn step(state: BuildState, event: Event) -> Result<BuildState, RenderError> {
    match event {
        Event::Start(tag) => match shape(tag) {
            Ok(node) => Ok(
                BuildState {
                    stack: state.stack.push(OpenView { node, aligns: column_alignments(tag) }),
                    roots: state.roots,
                },
            ),
            Err(e) => Err(RenderError::Shape(e)),
        },
        Event::End(tag) => close_top(state, tag),
        Event::Text(text) => append_leaf(state, ChildView::Text(text@)),
        Event::SoftBreak => append_leaf(state, ChildView::Text("\n"@)),
        Event::HardBreak => append_leaf(state, ChildView::Element(NodeView::element("br"@))),
        Event::InlineHtml(html) => append_leaf(state, ChildView::Text(html@)),
        _ => Err(RenderError::Builder(BuilderError::UnsupportedEvent)),
    }
}

/// The state after all of `events`, taken in order from the empty state, or
/// the error of the first event that raises one.
pub open spec fn run(events: Seq<Event>) -> Result<BuildState, RenderError>
    decreases events.len(),
{
    if events.len() == 0 {
        Ok(BuildState { stack: Seq::empty(), roots: Seq::empty() })
    } else {
        match run(events.drop_last()) {
            Ok(state) => step(state, events.last()),
            Err(e) => Err(e),
        }
    }
}

/// The document tree of the finished top-level elements: the element itself
/// when there is exactly one, else a `div` that holds them in order.
pub open spec fn assemble(roots: Seq<NodeView>) -> NodeView {
    if roots.len() == 1 {
        roots[0]
    } else {
        NodeView {
            children: roots.map_values(|n: NodeView| ChildView::Element(n)),
            ..NodeView::element("div"@)
        }
    }
}

/// What rendering `events` yields.
pub open spec fn render_spec(events: Seq<Event>) -> Result<NodeView, RenderError> {
    match run(events) {
        Ok(state) => if state.stack.len() == 0 {
            Ok(assemble(state.roots))
        } else {
            Err(RenderError::Builder(BuilderError::UnclosedElement))
        },
        Err(e) => Err(e),
    }
}

/// An error raised within a prefix of the events is the error of the whole.
pub proof fn lemma_error_is_final(events: Seq<Event>, k: int)
    requires
        0 <= k <= events.len(),
        run(events.take(k)) is Err,
    ensures
        run(events) == run(events.take(k)),
    decreases events.len() - k,
{
    if k == events.len() {
        assert(events.take(k) =~= events);
    } else {
        assert(events.drop_last().take(k) =~= events.take(k));
        lemma_error_is_final(events.drop_last(), k);
    }
}

/// An element that is still open.
struct OpenElement {
    node: Node,
    aligns: Vec<Alignment>,
}

impl View for OpenElement {
    type V = OpenView;

    closed spec fn view(&self) -> OpenView {
        OpenView { node: self.node@, aligns: self.aligns@ }
    }
}

spec fn stack_view(stack: Seq<OpenElement>) -> Seq<OpenView> {
    stack.map_values(|o: OpenElement| o@)
}

fn class_of(alignment: Alignment) -> (class: Option<&'static str>)
    ensures
        match class {
            Some(c) => alignment_class(alignment) == Some(c@),
            None => alignment_class(alignment) is None,
        },
{
    match alignment {
        Alignment::Unaligned => None,
        Alignment::Left => Some("text-left"),
        Alignment::Center => Some("text-center"),
        Alignment::Right => Some("text-right"),
    }
}

/// Aligns each cell of `row` as the column at its position states.
fn align_row_cells(row: &mut Node, aligns: &Vec<Alignment>)
    ensures
        final(row)@ == align_cells(old(row)@, aligns@),
{
    let mut i: usize = 0;
    while i < row.children.len()
        invariant
            i <= row.children.len(),
            row.children.len() == old(row).children.len(),
            row.name == old(row).name,
            row.classes == old(row).classes,
            row.attributes == old(row).attributes,
            forall|j: int| 0 <= j < i ==> row.children[j]@ == align_cell(old(row).children[j]@, j, aligns@),
            forall|j: int| i <= j < row.children.len() ==> row.children[j] == old(row).children[j],
        decreases row.children.len() - i,
    {
        if i < aligns.len() {
            match class_of(aligns[i]) {
                Some(class) => {
                    match &mut row.children[i] {
                        Child::Element(cell) => {
                            add_class(cell, class);
                        },
                        Child::Text(_) => {},
                    }
                },
                None => {},
            }
        }
        i += 1;
    }
    proof {
        lemma_node_view(*old(row));
        lemma_node_view(*final(row));
        assert(final(row)@.children =~= align_cells(old(row)@, aligns@).children);
    }
}

/// Aligns the cells of each row of `table`.
fn align_table_rows(table: &mut Node, aligns: &Vec<Alignment>)
    ensures
        final(table)@ == align_table(old(table)@, aligns@),
{
    let mut i: usize = 0;
    while i < table.children.len()
        invariant
            i <= table.children.len(),
            table.children.len() == old(table).children.len(),
            table.name == old(table).name,
            table.classes == old(table).classes,
            table.attributes == old(table).attributes,
            forall|j: int| 0 <= j < i ==> table.children[j]@ == align_row(old(table).children[j]@, aligns@),
            forall|j: int| i <= j < table.children.len() ==> table.children[j] == old(table).children[j],
        decreases table.children.len() - i,
    {
        match &mut table.children[i] {
            Child::Element(row) => {
                align_row_cells(row, aligns);
            },
            Child::Text(_) => {},
        }
        i += 1;
    }
    proof {
        lemma_node_view(*old(table));
        lemma_node_view(*final(table));
        assert(final(table)@.children =~= align_table(old(table)@, aligns@).children);
    }
}

/// Marks each cell of the head row `head` as the header of its column.
fn scope_head_cells(head: &mut Node)
    ensures
        final(head)@ == scope_cells(old(head)@),
{
    let mut i: usize = 0;
    while i < head.children.len()
        invariant
            i <= head.children.len(),
            head.children.len() == old(head).children.len(),
            head.name == old(head).name,
            head.classes == old(head).classes,
            head.attributes == old(head).attributes,
            forall|j: int| 0 <= j < i ==> head.children[j]@ == scope_cell(old(head).children[j]@),
            forall|j: int| i <= j < head.children.len() ==> head.children[j] == old(head).children[j],
        decreases head.children.len() - i,
    {
        match &mut head.children[i] {
            Child::Element(cell) => {
                cell.set_attribute("scope", "col".to_owned());
            },
            Child::Text(_) => {},
        }
        i += 1;
    }
    proof {
        lemma_node_view(*old(head));
        lemma_node_view(*final(head));
        assert(final(head)@.children =~= scope_cells(old(head)@).children);
    }
}

/// Finishes an open element that `tag` closes.
fn close_element(open: OpenElement, tag: &Tag) -> (done: Node)
    ensures
        done@ == close(open@, *tag),
{
    let OpenElement { node, aligns } = open;
    let mut node = node;
    match tag {
        Tag::CodeBlock(_) => {
            let mut pre = Node::new("pre");
            pre.add_child(Child::Element(node));
            pre
        },
        Tag::Table(_) => {
            align_table_rows(&mut node, &aligns);
            node
        },
        Tag::TableHead => {
            scope_head_cells(&mut node);
            node
        },
        _ => node,
    }
}

/// Appends `leaf` to the innermost open element, if there is one.
fn push_leaf(stack: &mut Vec<OpenElement>, leaf: Child) -> (added: bool)
    ensures
        added == (old(stack).len() > 0),
        added ==> stack_view(final(stack)@) == stack_view(old(stack)@).update(
            old(stack).len() - 1,
            OpenView {
                node: stack_view(old(stack)@).last().node.with_child(leaf@),
                aligns: stack_view(old(stack)@).last().aligns,
            },
        ),
        !added ==> final(stack)@ == old(stack)@,
{
    let depth = stack.len();
    if depth == 0 {
        return false;
    }
    stack[depth - 1].node.add_child(leaf);
    proof {
        let before = stack_view(old(stack)@);
        let top = before.last();
        assert(stack_view(stack@) =~= before.update(
            depth - 1,
            OpenView { node: top.node.with_child(leaf@), aligns: top.aligns },
        ));
    }
    true
}

/// Builds the document tree of `events`.
///
/// The events are taken in order. A `Start` opens the element that its tag
/// shapes; text, breaks and inline markup become children of the innermost
/// open element; an `End` closes the innermost open element, applies the
/// transform of its tag and hands the element to the one below it, or to the
/// top level. The first event that cannot be taken decides the error, and
/// events that leave an element open are refused. A single top-level element
/// is the tree; any other number of them is wrapped in a `div`.
pub fn render(events: &Vec<Event>) -> (tree: Result<Node, RenderError>)
    ensures
        match tree {
            Ok(node) => render_spec(events@) == Ok::<NodeView, RenderError>(node@),
            Err(e) => render_spec(events@) == Err::<NodeView, RenderError>(e),
        },
{
    let mut stack: Vec<OpenElement> = Vec::new();
    let mut roots: Vec<Node> = Vec::new();
    let mut i: usize = 0;
    proof {
        assert(stack_view(stack@) =~= Seq::empty());
        assert(nodes_view(roots@) =~= Seq::empty());
    }
    while i < events.len()
        invariant
            i <= events.len(),
            run(events@.take(i as int)) == Ok::<BuildState, RenderError>(
                BuildState { stack: stack_view(stack@), roots: nodes_view(roots@) },
            ),
        decreases events.len() - i,
    {
        let ghost before = BuildState { stack: stack_view(stack@), roots: nodes_view(roots@) };
        proof {
            assert(events@.take(i + 1).drop_last() =~= events@.take(i as int));
            assert(events@.take(i + 1).last() == events@[i as int]);
        }
        let failure: Option<RenderError> = match &events[i] {
            Event::Start(tag) => {
                match make_tag(tag) {
                    Ok(node) => {
                        let open = OpenElement { node, aligns: retained_alignments(tag) };
                        stack.push(open);
                        proof {
                            assert(stack_view(stack@) =~= before.stack.push(open@));
                        }
                        None
                    },
                    Err(e) => Some(RenderError::Shape(e)),
                }
            },
            Event::End(tag) => {
                match stack.pop() {
                    Some(top) => {
                        proof {
                            assert(stack_view(stack@) =~= before.stack.drop_last());
                            assert(top@ == before.stack.last());
                        }
                        let done = close_element(top, tag);
                        let depth = stack.len();
                        if depth == 0 {
                            roots.push(done);
                            proof {
                                assert(nodes_view(roots@) =~= before.roots.push(done@));
                            }
                        } else {
                            let ghost rest = stack_view(stack@);
                            stack[depth - 1].node.add_child(Child::Element(done));
                            proof {
                                assert(stack_view(stack@) =~= rest.update(
                                    depth - 1,
                                    OpenView {
                                        node: rest.last().node.with_child(ChildView::Element(done@)),
                                        aligns: rest.last().aligns,
                                    },
                                ));
                            }
                        }
                        None
                    },
                    None => Some(RenderError::Builder(BuilderError::UnbalancedEnd)),
                }
            },
            Event::Text(text) => leaf_outcome(push_leaf(&mut stack, Child::Text(text.clone()))),
            Event::SoftBreak => leaf_outcome(push_leaf(&mut stack, Child::Text("\n".to_owned()))),
            Event::HardBreak => leaf_outcome(push_leaf(&mut stack, Child::Element(Node::new("br")))),
            Event::InlineHtml(html) => leaf_outcome(push_leaf(&mut stack, Child::Text(html.clone()))),
            _ => Some(RenderError::Builder(BuilderError::UnsupportedEvent)),
        };
        match failure {
            Some(e) => {
                proof {
                    lemma_error_is_final(events@, i + 1);
                }
                return Err(e);
            },
            None => {},
        }
        i += 1;
    }
    proof {
        assert(events@.take(i as int) =~= events@);
    }
    if stack.len() > 0 {
        return Err(RenderError::Builder(BuilderError::UnclosedElement));
    }
    Ok(assemble_roots(roots))
}

/// The error, if any, of appending a leaf.
fn leaf_outcome(added: bool) -> (failure: Option<RenderError>)
    ensures
        failure == if added {
            None
        } else {
            Some(RenderError::Builder(BuilderError::ContentOutsideElement))
        },
{
    if added {
        None
    } else {
        Some(RenderError::Builder(BuilderError::ContentOutsideElement))
    }
}

/// Makes the document tree of the finished top-level elements.
fn assemble_roots(roots: Vec<Node>) -> (tree: Node)
    ensures
        tree@ == assemble(nodes_view(roots@)),
{
    let mut roots = roots;
    if roots.len() == 1 {
        let only = roots.pop().unwrap();
        return only;
    }
    let mut wrapper = Node::new("div");
    let mut children: Vec<Child> = Vec::new();
    let ghost all = roots@;
    // Move the elements out from the back, then restore their order.
    let mut reversed: Vec<Node> = Vec::new();
    while roots.len() > 0
        invariant
            roots@.len() + reversed@.len() == all.len(),
            roots@ == all.take(roots@.len() as int),
            forall|j: int| 0 <= j < reversed@.len() ==> reversed@[j] == all[all.len() - 1 - j],
        decreases roots.len(),
    {
        let node = roots.pop().unwrap();
        reversed.push(node);
    }
    while reversed.len() > 0
        invariant
            reversed@.len() + children@.len() == all.len(),
            forall|j: int| 0 <= j < reversed@.len() ==> reversed@[j] == all[all.len() - 1 - j],
            forall|j: int| 0 <= j < children@.len() ==> children@[j] == Child::Element(all[j]),
        decreases reversed.len(),
    {
        let node = reversed.pop().unwrap();
        children.push(Child::Element(node));
    }
    wrapper.children = children;
    proof {
        lemma_node_view(wrapper);
        assert(wrapper@.children =~= nodes_view(all).map_values(|n: NodeView| ChildView::Element(n)));
        assert(wrapper@.classes =~= Seq::empty());
    }
    wrapper
}

} // verus!
