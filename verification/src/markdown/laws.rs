//! What holds of every rendering: which event sequences render at all, how
//! many elements the tree has, and what the root of a single top-level
//! element looks like.

use vstd::prelude::*;
use crate::markdown::event::{Alignment, Event, Tag};
use crate::markdown::node::{count_elements, ChildView, NodeView};
use crate::markdown::render::{
    align_cells, align_table, append_leaf, close, close_top, lemma_error_is_final, render_spec, run, scope_cells,
    BuildState, BuilderError, OpenView, RenderError,
};
use crate::markdown::shape::{column_alignments, shape, ShapeError};

verus! {

/// The number of elements that are open after `events`: each `Start` opens
/// one and each `End` closes one.
pub open spec fn depth(events: Seq<Event>) -> int
    decreases events.len(),
{
    if events.len() == 0 {
        0
    } else {
        depth(events.drop_last()) + match events.last() {
            Event::Start(_) => 1int,
            Event::End(_) => -1int,
            _ => 0int,
        }
    }
}

/// Whether a tag has a shape: every tag but a heading outside levels 1 to 6.
pub open spec fn has_shape(tag: Tag) -> bool {
    match tag {
        Tag::Heading(level) => 1 <= level <= 6,
        _ => true,
    }
}

/// Whether `event` can be taken while `open` elements are open: a `Start`
/// needs a tag that has a shape, an `End` and every kind of content need an
/// open element, and the events without a rendering can never be taken.
pub open spec fn acceptable(event: Event, open: int) -> bool {
    match event {
        Event::Start(tag) => has_shape(tag),
        Event::End(_) | Event::Text(_) | Event::SoftBreak | Event::HardBreak | Event::InlineHtml(_) => open
            > 0,
        _ => false,
    }
}

/// Whether each event of `events` can be taken where it stands.
pub open spec fn well_formed(events: Seq<Event>) -> bool
    decreases events.len(),
{
    events.len() == 0 || (well_formed(events.drop_last()) && acceptable(
        events.last(),
        depth(events.drop_last()),
    ))
}

/// Whether `events` is well formed and leaves no element open.
pub open spec fn well_nested(events: Seq<Event>) -> bool {
    well_formed(events) && depth(events) == 0
}

/// The number of `Start` events.
pub open spec fn starts(events: Seq<Event>) -> nat
    decreases events.len(),
{
    if events.len() == 0 {
        0
    } else {
        starts(events.drop_last()) + if events.last() is Start {
            1nat
        } else {
            0nat
        }
    }
}

/// The number of `HardBreak` events, each of which adds a `br` element.
pub open spec fn hard_breaks(events: Seq<Event>) -> nat
    decreases events.len(),
{
    if events.len() == 0 {
        0
    } else {
        hard_breaks(events.drop_last()) + if events.last() is HardBreak {
            1nat
        } else {
            0nat
        }
    }
}

/// Whether `event` closes a code block, which adds a `pre` element.
pub open spec fn ends_code_block(event: Event) -> bool {
    event matches Event::End(Tag::CodeBlock(_))
}

/// The number of `End` events of a code block.
pub open spec fn code_block_ends(events: Seq<Event>) -> nat
    decreases events.len(),
{
    if events.len() == 0 {
        0
    } else {
        code_block_ends(events.drop_last()) + if ends_code_block(events.last()) {
            1nat
        } else {
            0nat
        }
    }
}

/// The number of top-level elements that `events` finishes: the `End` events
/// that close the only open element.
pub open spec fn top_level(events: Seq<Event>) -> nat
    decreases events.len(),
{
    if events.len() == 0 {
        0
    } else {
        top_level(events.drop_last()) + if events.last() is End && depth(events.drop_last()) == 1 {
            1nat
        } else {
            0nat
        }
    }
}

/// Whether two elements agree in name, classes and attributes.
pub open spec fn same_shell(a: NodeView, b: NodeView) -> bool {
    a.name == b.name && a.classes == b.classes && a.attributes == b.attributes
}

spec fn child_count(child: ChildView) -> nat {
    match child {
        ChildView::Element(n) => n.count(),
        ChildView::Text(_) => 0,
    }
}

spec fn stack_total(stack: Seq<OpenView>) -> nat
    decreases stack.len(),
{
    if stack.len() == 0 {
        0
    } else {
        stack_total(stack.drop_last()) + stack.last().node.count()
    }
}

spec fn roots_total(roots: Seq<NodeView>) -> nat
    decreases roots.len(),
{
    if roots.len() == 0 {
        0
    } else {
        roots_total(roots.drop_last()) + roots.last().count()
    }
}

proof fn lemma_count_pointwise(a: Seq<ChildView>, b: Seq<ChildView>)
    requires
        a.len() == b.len(),
        forall|i: int| 0 <= i < a.len() ==> child_count(a[i]) == child_count(b[i]),
    ensures
        count_elements(a) == count_elements(b),
    decreases a.len(),
{
    if a.len() > 0 {
        assert(child_count(a.last()) == child_count(b.last()));
        lemma_count_pointwise(a.drop_last(), b.drop_last());
    }
}

proof fn lemma_with_child_count(node: NodeView, child: ChildView)
    ensures
        node.with_child(child).count() == node.count() + child_count(child),
{
    assert(node.children.push(child).drop_last() =~= node.children);
}

proof fn lemma_fresh_count(name: Seq<char>)
    ensures
        NodeView::element(name).count() == 1,
{
}

proof fn lemma_shape_count(tag: Tag)
    ensures
        has_shape(tag) <==> shape(tag) is Ok,
        shape(tag) matches Ok(node) ==> node.count() == 1,
{
    match shape(tag) {
        Ok(node) => {
            assert(node.children =~= Seq::empty());
        },
        Err(_) => {},
    }
}

proof fn lemma_align_cells_count(row: NodeView, aligns: Seq<Alignment>)
    ensures
        align_cells(row, aligns).count() == row.count(),
{
    lemma_count_pointwise(align_cells(row, aligns).children, row.children);
}

proof fn lemma_close_count(open: OpenView, tag: Tag)
    ensures
        close(open, tag).count() == open.node.count() + if tag is CodeBlock {
            1nat
        } else {
            0nat
        },
        !(tag is CodeBlock) ==> same_shell(close(open, tag), open.node),
{
    match tag {
        Tag::CodeBlock(_) => {
            lemma_with_child_count(NodeView::element("pre"@), ChildView::Element(open.node));
        },
        Tag::Table(_) => {
            let after = align_table(open.node, open.aligns).children;
            assert forall|i: int| 0 <= i < after.len() implies child_count(after[i]) == child_count(
                open.node.children[i],
            ) by {
                match open.node.children[i] {
                    ChildView::Element(row) => {
                        lemma_align_cells_count(row, open.aligns);
                    },
                    ChildView::Text(_) => {},
                }
            }
            lemma_count_pointwise(after, open.node.children);
        },
        Tag::TableHead => {
            lemma_count_pointwise(scope_cells(open.node).children, open.node.children);
        },
        _ => {},
    }
}

proof fn lemma_stack_total_update_last(stack: Seq<OpenView>, top: OpenView)
    requires
        stack.len() > 0,
    ensures
        stack_total(stack.update(stack.len() - 1, top)) == stack_total(stack.drop_last()) + top.node.count(),
{
    assert(stack.update(stack.len() - 1, top).drop_last() =~= stack.drop_last());
}

proof fn lemma_stack_total_push(stack: Seq<OpenView>, top: OpenView)
    ensures
        stack_total(stack.push(top)) == stack_total(stack) + top.node.count(),
{
    assert(stack.push(top).drop_last() =~= stack);
}

proof fn lemma_roots_total_push(roots: Seq<NodeView>, node: NodeView)
    ensures
        roots_total(roots.push(node)) == roots_total(roots) + node.count(),
{
    assert(roots.push(node).drop_last() =~= roots);
}

proof fn lemma_roots_wrapped(roots: Seq<NodeView>)
    ensures
        count_elements(roots.map_values(|n: NodeView| ChildView::Element(n))) == roots_total(roots),
    decreases roots.len(),
{
    if roots.len() > 0 {
        assert(roots.map_values(|n: NodeView| ChildView::Element(n)).drop_last() =~= roots.drop_last().map_values(
            |n: NodeView| ChildView::Element(n),
        ));
        lemma_roots_wrapped(roots.drop_last());
    }
}

proof fn lemma_leaf_tracks(state: BuildState, leaf: ChildView)
    ensures
        append_leaf(state, leaf) is Ok <==> state.stack.len() > 0,
        append_leaf(state, leaf) matches Ok(next) ==> {
            &&& next.stack.len() == state.stack.len()
            &&& next.roots == state.roots
            &&& stack_total(next.stack) == stack_total(state.stack) + child_count(leaf)
            &&& same_shell(next.stack[0].node, state.stack[0].node)
        },
{
    if state.stack.len() > 0 {
        let top = state.stack.last();
        lemma_with_child_count(top.node, leaf);
        lemma_stack_total_update_last(
            state.stack,
            OpenView { node: top.node.with_child(leaf), aligns: top.aligns },
        );
    }
}

proof fn lemma_end_tracks(state: BuildState, tag: Tag)
    ensures
        close_top(state, tag) is Ok <==> state.stack.len() > 0,
        close_top(state, tag) matches Ok(next) ==> {
            &&& next.stack.len() == state.stack.len() - 1
            &&& next.roots.len() == state.roots.len() + if state.stack.len() == 1 {
                1nat
            } else {
                0nat
            }
            &&& stack_total(next.stack) + roots_total(next.roots) == stack_total(state.stack) + roots_total(
                state.roots,
            ) + if tag is CodeBlock {
                1nat
            } else {
                0nat
            }
            &&& state.stack.len() > 1 ==> same_shell(next.stack[0].node, state.stack[0].node) && next.roots
                == state.roots
            &&& state.stack.len() == 1 ==> next.roots == state.roots.push(close(state.stack[0], tag))
        },
{
    if state.stack.len() > 0 {
        let done = close(state.stack.last(), tag);
        let rest = state.stack.drop_last();
        lemma_close_count(state.stack.last(), tag);
        if rest.len() == 0 {
            assert(stack_total(rest) == 0);
            lemma_roots_total_push(state.roots, done);
        } else {
            let parent = rest.last();
            assert(stack_total(rest) == stack_total(rest.drop_last()) + parent.node.count());
            lemma_with_child_count(parent.node, ChildView::Element(done));
            lemma_stack_total_update_last(
                rest,
                OpenView { node: parent.node.with_child(ChildView::Element(done)), aligns: parent.aligns },
            );
        }
    }
}

/// What the builder's state holds after a run of events, in terms of the
/// events alone.
proof fn lemma_run_tracks(events: Seq<Event>)
    ensures
        well_formed(events) <==> run(events) is Ok,
        run(events) matches Ok(state) ==> {
            &&& state.stack.len() == depth(events)
            &&& state.roots.len() == top_level(events)
            &&& stack_total(state.stack) + roots_total(state.roots) == starts(events) + hard_breaks(events)
                + code_block_ends(events)
        },
    decreases events.len(),
{
    if events.len() > 0 {
        let prefix = events.drop_last();
        let event = events.last();
        lemma_run_tracks(prefix);
        match run(prefix) {
            Ok(state) => {
                match event {
                    Event::Start(tag) => {
                        lemma_shape_count(tag);
                        match shape(tag) {
                            Ok(node) => {
                                lemma_stack_total_push(
                                    state.stack,
                                    OpenView { node, aligns: column_alignments(tag) },
                                );
                            },
                            Err(_) => {},
                        }
                    },
                    Event::End(tag) => {
                        lemma_end_tracks(state, tag);
                    },
                    Event::Text(text) => {
                        lemma_leaf_tracks(state, ChildView::Text(text@));
                    },
                    Event::SoftBreak => {
                        lemma_leaf_tracks(state, ChildView::Text("\n"@));
                    },
                    Event::HardBreak => {
                        lemma_fresh_count("br"@);
                        lemma_leaf_tracks(state, ChildView::Element(NodeView::element("br"@)));
                    },
                    Event::InlineHtml(html) => {
                        lemma_leaf_tracks(state, ChildView::Text(html@));
                    },
                    _ => {},
                }
            },
            Err(_) => {},
        }
    }
}

/// Every tag has a shape but a heading whose level is outside 1 to 6.
pub proof fn lemma_shape_iff_level_in_range(tag: Tag)
    ensures
        shape(tag) is Ok <==> has_shape(tag),
        shape(tag) is Err ==> shape(tag) == Err::<NodeView, ShapeError>(
            ShapeError::InvalidHeadingLevel,
        ),
{
}

/// While a sequence of events is taken, the number of open elements is the
/// nesting depth of the events taken so far, and the number of finished
/// top-level elements is the number of times that depth came back to zero.
pub proof fn lemma_stack_follows_depth(events: Seq<Event>)
    requires
        run(events) is Ok,
    ensures
        run(events)->Ok_0.stack.len() == depth(events),
        run(events)->Ok_0.roots.len() == top_level(events),
        depth(events) >= 0,
{
    lemma_run_tracks(events);
}

/// Rendering refuses a sequence for an element left open exactly when every
/// event can be taken where it stands and the sequence ends at a depth above
/// zero.
pub proof fn lemma_unclosed_iff_left_open(events: Seq<Event>)
    ensures
        render_spec(events) == Err::<NodeView, RenderError>(
            RenderError::Builder(BuilderError::UnclosedElement),
        ) <==> well_formed(events) && depth(events) > 0,
{
    lemma_run_tracks(events);
    lemma_no_step_leaves_open(events);
}

/// No single event is refused for an element left open: that is decided at
/// the end of the events only.
proof fn lemma_no_step_leaves_open(events: Seq<Event>)
    ensures
        run(events) is Err ==> run(events)->Err_0 != RenderError::Builder(
            BuilderError::UnclosedElement,
        ),
    decreases events.len(),
{
    if events.len() > 0 {
        lemma_no_step_leaves_open(events.drop_last());
    }
}

/// The error that an event raises where it cannot be taken.
pub open spec fn refusal(event: Event) -> RenderError {
    match event {
        Event::Start(_) => RenderError::Shape(ShapeError::InvalidHeadingLevel),
        Event::End(_) => RenderError::Builder(BuilderError::UnbalancedEnd),
        Event::Text(_) | Event::SoftBreak | Event::HardBreak | Event::InlineHtml(_) => RenderError::Builder(
            BuilderError::ContentOutsideElement,
        ),
        _ => RenderError::Builder(BuilderError::UnsupportedEvent),
    }
}

/// The first event that cannot be taken where it stands decides the error
/// of the whole rendering, whatever follows it.
pub proof fn lemma_first_refusal_decides(events: Seq<Event>, k: int)
    requires
        0 <= k < events.len(),
        well_formed(events.take(k)),
        !acceptable(events[k], depth(events.take(k))),
    ensures
        render_spec(events) == Err::<NodeView, RenderError>(refusal(events[k])),
{
    let prefix = events.take(k);
    let upto = events.take(k + 1);
    lemma_run_tracks(prefix);
    assert(upto.drop_last() =~= prefix);
    assert(upto.last() == events[k]);
    if events[k] is Start {
        lemma_shape_count(events[k]->Start_0);
    }
    assert(run(upto) == Err::<BuildState, RenderError>(refusal(events[k])));
    lemma_error_is_final(events, k + 1);
}

/// Rendering succeeds on exactly the event sequences in which every event
/// can be taken where it stands and no element is left open.
pub proof fn lemma_renders_iff_well_nested(events: Seq<Event>)
    ensures
        render_spec(events) is Ok <==> well_nested(events),
{
    lemma_run_tracks(events);
}

/// The tree of a rendering holds one element for each `Start` event, one
/// `pre` for each `End` of a code block, one `br` for each `HardBreak`, and
/// one wrapping `div` unless exactly one top-level element was finished.
pub proof fn lemma_element_count(events: Seq<Event>, tree: NodeView)
    requires
        render_spec(events) == Ok::<NodeView, RenderError>(tree),
    ensures
        tree.count() == starts(events) + code_block_ends(events) + hard_breaks(events) + if top_level(events)
            == 1 {
            0nat
        } else {
            1nat
        },
{
    lemma_run_tracks(events);
    let state = run(events)->Ok_0;
    assert(stack_total(state.stack) == 0);
    if state.roots.len() == 1 {
        assert(roots_total(state.roots.drop_last()) == 0);
    } else {
        lemma_roots_wrapped(state.roots);
    }
}

/// While no top-level element has been finished, the outermost open element
/// keeps the name, classes and attributes that the first event gave it.
proof fn lemma_bottom_shell(events: Seq<Event>)
    requires
        run(events) is Ok,
        events.len() >= 1,
        top_level(events) == 0,
    ensures
        run(events)->Ok_0.stack.len() >= 1,
        events[0] matches Event::Start(tag) && shape(tag) matches Ok(root) && same_shell(
            run(events)->Ok_0.stack[0].node,
            root,
        ),
    decreases events.len(),
{
    let prefix = events.drop_last();
    let event = events.last();
    lemma_run_tracks(prefix);
    lemma_run_tracks(events);
    let state = run(prefix)->Ok_0;
    if prefix.len() == 0 {
        assert(events[0] == event);
    } else {
        lemma_bottom_shell(prefix);
        assert(events[0] == prefix[0]);
        match event {
            Event::Start(tag) => {},
            Event::End(tag) => {
                lemma_end_tracks(state, tag);
            },
            Event::Text(text) => {
                lemma_leaf_tracks(state, ChildView::Text(text@));
            },
            Event::SoftBreak => {
                lemma_leaf_tracks(state, ChildView::Text("\n"@));
            },
            Event::HardBreak => {
                lemma_leaf_tracks(state, ChildView::Element(NodeView::element("br"@)));
            },
            Event::InlineHtml(html) => {
                lemma_leaf_tracks(state, ChildView::Text(html@));
            },
            _ => {},
        }
    }
}

/// Where a rendering finishes exactly one top-level element, no wrapper is
/// made: the first event opens that element, the last event closes it, and
/// the tree's root has the name, classes and attributes that the first
/// event's tag shapes. The one exception is a last event that closes a code
/// block: the root is then the `pre` that wraps the element, and its only
/// child has that name, those classes and those attributes.
pub proof fn lemma_single_root(events: Seq<Event>, tree: NodeView)
    requires
        render_spec(events) == Ok::<NodeView, RenderError>(tree),
        top_level(events) == 1,
    ensures
        events.len() >= 2,
        events[0] is Start,
        events.last() is End,
        shape(events[0]->Start_0) is Ok,
        !(events.last()->End_0 is CodeBlock) ==> same_shell(tree, shape(events[0]->Start_0)->Ok_0),
        events.last()->End_0 is CodeBlock ==> {
            &&& tree.name == "pre"@
            &&& tree.children.len() == 1
            &&& tree.children[0] is Element
            &&& same_shell(tree.children[0]->Element_0, shape(events[0]->Start_0)->Ok_0)
        },
{
    let prefix = events.drop_last();
    lemma_run_tracks(events);
    lemma_run_tracks(prefix);
    let state = run(prefix)->Ok_0;
    assert(depth(prefix) == 1);
    lemma_bottom_shell(prefix);
    assert(events[0] == prefix[0]);
    let closing = events.last()->End_0;
    lemma_end_tracks(state, closing);
    lemma_close_count(state.stack[0], closing);
    assert(state.roots =~= Seq::empty());
}

spec fn child_is_set(child: ChildView) -> bool {
    child matches ChildView::Element(inner) ==> inner.classes_are_sets()
}

spec fn state_is_sets(state: BuildState) -> bool {
    &&& forall|i: int| 0 <= i < state.stack.len() ==> (#[trigger] state.stack[i]).node.classes_are_sets()
    &&& forall|i: int| 0 <= i < state.roots.len() ==> (#[trigger] state.roots[i]).classes_are_sets()
}

proof fn lemma_with_class_keeps_sets(node: NodeView, class: Seq<char>)
    requires
        node.classes_are_sets(),
    ensures
        node.with_class(class).classes_are_sets(),
{
    if !node.classes.contains(class) {
        let pushed = node.classes.push(class);
        assert forall|i: int, j: int| 0 <= i < pushed.len() && 0 <= j < pushed.len() && i != j implies pushed[i]
            != pushed[j] by {
            if i == node.classes.len() {
                assert(node.classes[j] != class);
            } else if j == node.classes.len() {
                assert(node.classes[i] != class);
            }
        }
    }
}

proof fn lemma_with_child_keeps_sets(node: NodeView, child: ChildView)
    requires
        node.classes_are_sets(),
        child_is_set(child),
    ensures
        node.with_child(child).classes_are_sets(),
{
    let after = node.children.push(child);
    assert forall|i: int| 0 <= i < after.len() implies child_is_set(#[trigger] after[i]) by {
        if i < node.children.len() {
            assert(after[i] == node.children[i]);
        }
    }
}

proof fn lemma_fresh_is_set(name: Seq<char>)
    ensures
        NodeView::element(name).classes_are_sets(),
{
}

proof fn lemma_shape_is_set(tag: Tag)
    ensures
        shape(tag) matches Ok(node) ==> node.classes_are_sets(),
{
    match tag {
        Tag::BlockQuote => {
            lemma_with_class_keeps_sets(NodeView::element("blockquote"@), "blockquote"@);
        },
        Tag::CodeBlock(crate::markdown::event::CodeBlockKind::Fenced(lang)) => {
            match crate::markdown::shape::language_class(lang@) {
                Some(class) => {
                    lemma_with_class_keeps_sets(NodeView::element("code"@), class);
                },
                None => {},
            }
        },
        Tag::Table(_) => {
            lemma_with_class_keeps_sets(NodeView::element("table"@), "table"@);
        },
        Tag::Emphasis => {
            lemma_with_class_keeps_sets(NodeView::element("span"@), "is-italic"@);
        },
        Tag::Strong => {
            lemma_with_class_keeps_sets(NodeView::element("span"@), "has-text-weight-bold"@);
        },
        _ => {},
    }
}

proof fn lemma_align_cells_keeps_sets(row: NodeView, aligns: Seq<Alignment>)
    requires
        row.classes_are_sets(),
    ensures
        align_cells(row, aligns).classes_are_sets(),
{
    let after = align_cells(row, aligns).children;
    assert forall|i: int| 0 <= i < after.len() implies child_is_set(#[trigger] after[i]) by {
        assert(child_is_set(row.children[i]));
        match row.children[i] {
            ChildView::Element(cell) => {
                if 0 <= i < aligns.len() {
                    match crate::markdown::render::alignment_class(aligns[i]) {
                        Some(class) => {
                            lemma_with_class_keeps_sets(cell, class);
                        },
                        None => {},
                    }
                }
            },
            ChildView::Text(_) => {},
        }
    }
}

proof fn lemma_close_keeps_sets(open: OpenView, tag: Tag)
    requires
        open.node.classes_are_sets(),
    ensures
        close(open, tag).classes_are_sets(),
{
    match tag {
        Tag::CodeBlock(_) => {
            lemma_with_child_keeps_sets(NodeView::element("pre"@), ChildView::Element(open.node));
        },
        Tag::Table(_) => {
            let after = align_table(open.node, open.aligns).children;
            assert forall|i: int| 0 <= i < after.len() implies child_is_set(#[trigger] after[i]) by {
                assert(child_is_set(open.node.children[i]));
                match open.node.children[i] {
                    ChildView::Element(row) => {
                        lemma_align_cells_keeps_sets(row, open.aligns);
                    },
                    ChildView::Text(_) => {},
                }
            }
        },
        Tag::TableHead => {
            let after = scope_cells(open.node).children;
            assert forall|i: int| 0 <= i < after.len() implies child_is_set(#[trigger] after[i]) by {
                assert(child_is_set(open.node.children[i]));
            }
        },
        _ => {},
    }
}

proof fn lemma_leaf_keeps_sets(state: BuildState, leaf: ChildView)
    requires
        state_is_sets(state),
        child_is_set(leaf),
    ensures
        append_leaf(state, leaf) matches Ok(next) ==> state_is_sets(next),
{
    if state.stack.len() > 0 {
        lemma_with_child_keeps_sets(state.stack.last().node, leaf);
    }
}

proof fn lemma_end_keeps_sets(state: BuildState, tag: Tag)
    requires
        state_is_sets(state),
    ensures
        close_top(state, tag) matches Ok(next) ==> state_is_sets(next),
{
    if state.stack.len() > 0 {
        let done = close(state.stack.last(), tag);
        let rest = state.stack.drop_last();
        lemma_close_keeps_sets(state.stack.last(), tag);
        if rest.len() > 0 {
            lemma_with_child_keeps_sets(rest.last().node, ChildView::Element(done));
        }
    }
}

proof fn lemma_run_keeps_sets(events: Seq<Event>)
    ensures
        run(events) matches Ok(state) ==> state_is_sets(state),
    decreases events.len(),
{
    if events.len() > 0 {
        lemma_run_keeps_sets(events.drop_last());
        match run(events.drop_last()) {
            Ok(state) => {
                match events.last() {
                    Event::Start(tag) => {
                        lemma_shape_is_set(tag);
                    },
                    Event::End(tag) => {
                        lemma_end_keeps_sets(state, tag);
                    },
                    Event::Text(text) => {
                        lemma_leaf_keeps_sets(state, ChildView::Text(text@));
                    },
                    Event::SoftBreak => {
                        lemma_leaf_keeps_sets(state, ChildView::Text("\n"@));
                    },
                    Event::HardBreak => {
                        lemma_fresh_is_set("br"@);
                        lemma_leaf_keeps_sets(state, ChildView::Element(NodeView::element("br"@)));
                    },
                    Event::InlineHtml(html) => {
                        lemma_leaf_keeps_sets(state, ChildView::Text(html@));
                    },
                    _ => {},
                }
            },
            Err(_) => {},
        }
    }
}

/// In the tree of a rendering the class tokens of each element are a set: no
/// element carries a token twice.
pub proof fn lemma_classes_are_sets(events: Seq<Event>, tree: NodeView)
    requires
        render_spec(events) == Ok::<NodeView, RenderError>(tree),
    ensures
        tree.classes_are_sets(),
{
    lemma_run_keeps_sets(events);
    let state = run(events)->Ok_0;
    if state.roots.len() != 1 {
        lemma_fresh_is_set("div"@);
    }
}

} // verus!
