//! The output tree: elements with a name, a set of class tokens, attributes
//! and ordered children.

use vstd::prelude::*;

verus! {

/// The mathematical value of a [`Node`].
pub struct NodeView {
    pub name: Seq<char>,
    /// Class tokens in insertion order.
    pub classes: Seq<Seq<char>>,
    pub attributes: Map<Seq<char>, Seq<char>>,
    pub children: Seq<ChildView>,
}

/// The mathematical value of a [`Child`].
pub enum ChildView {
    Element(NodeView),
    Text(Seq<char>),
}

impl NodeView {
    /// A childless element with no classes and no attributes.
    pub open spec fn element(name: Seq<char>) -> NodeView {
        NodeView { name, classes: Seq::empty(), attributes: Map::empty(), children: Seq::empty() }
    }

    /// The node with `class` added to its class set; an element that already
    /// carries the token is unchanged.
    pub open spec fn with_class(self, class: Seq<char>) -> NodeView {
        if self.classes.contains(class) {
            self
        } else {
            NodeView { classes: self.classes.push(class), ..self }
        }
    }

    /// The node with attribute `name` set to `value`, replacing an earlier value.
    pub open spec fn with_attribute(self, name: Seq<char>, value: Seq<char>) -> NodeView {
        NodeView { attributes: self.attributes.insert(name, value), ..self }
    }

    /// The node with `child` appended as its last child.
    pub open spec fn with_child(self, child: ChildView) -> NodeView {
        NodeView { children: self.children.push(child), ..self }
    }

    /// Whether the class tokens of each element of the tree are a set: no
    /// element carries a token twice.
    pub open spec fn classes_are_sets(self) -> bool
        decreases self,
    {
        &&& self.classes.no_duplicates()
        &&& forall|i: int|
            0 <= i < self.children.len() ==> (#[trigger] self.children[i] matches ChildView::Element(inner)
                ==> inner.classes_are_sets())
    }

    /// The number of elements in the tree rooted here, text leaves not counted.
    pub open spec fn count(self) -> nat
        decreases self,
    {
        1 + count_elements(self.children)
    }
}

/// The number of elements in a list of children and below them.
pub open spec fn count_elements(children: Seq<ChildView>) -> nat
    decreases children,
{
    if children.len() == 0 {
        0
    } else {
        count_elements(children.drop_last()) + match children.last() {
            ChildView::Element(n) => n.count(),
            ChildView::Text(_) => 0,
        }
    }
}

/// An element of the document tree.
#[derive(Debug)]
pub struct Node {
    pub name: String,
    /// Class tokens in insertion order.
    pub classes: Vec<String>,
    /// Attribute assignments; where a name occurs twice, the later entry counts.
    pub attributes: Vec<(String, String)>,
    pub children: Vec<Child>,
}

/// A child of an element: another element or a run of text.
#[derive(Debug)]
pub enum Child {
    Element(Node),
    Text(String),
}

/// The class tokens of a list of strings.
pub open spec fn tokens_view(classes: Seq<String>) -> Seq<Seq<char>> {
    classes.map_values(|c: String| c@)
}

/// The attribute map that a list of assignments amounts to.
pub open spec fn assignments_view(attributes: Seq<(String, String)>) -> Map<Seq<char>, Seq<char>>
    decreases attributes.len(),
{
    if attributes.len() == 0 {
        Map::empty()
    } else {
        assignments_view(attributes.drop_last()).insert(attributes.last().0@, attributes.last().1@)
    }
}

pub open spec fn node_view(node: Node) -> NodeView
    decreases node,
{
    NodeView {
        name: node.name@,
        classes: tokens_view(node.classes@),
        attributes: assignments_view(node.attributes@),
        children: Seq::new(
            node.children@.len(),
            |i: int|
                if 0 <= i < node.children@.len() {
                    child_view(node.children[i])
                } else {
                    ChildView::Text(Seq::empty())
                },
        ),
    }
}

pub open spec fn child_view(child: Child) -> ChildView
    decreases child,
{
    match child {
        Child::Element(n) => ChildView::Element(node_view(n)),
        Child::Text(t) => ChildView::Text(t@),
    }
}

impl View for Node {
    type V = NodeView;

    open spec fn view(&self) -> NodeView {
        node_view(*self)
    }
}

impl View for Child {
    type V = ChildView;

    open spec fn view(&self) -> ChildView {
        child_view(*self)
    }
}

/// The values of a list of nodes.
pub open spec fn nodes_view(nodes: Seq<Node>) -> Seq<NodeView> {
    nodes.map_values(|n: Node| n@)
}

/// The values of a list of children.
pub open spec fn children_view(children: Seq<Child>) -> Seq<ChildView> {
    children.map_values(|c: Child| c@)
}

/// The value of a node, field by field.
pub proof fn lemma_node_view(node: Node)
    ensures
        node@.children == children_view(node.children@),
        node@.name == node.name@,
        node@.classes == tokens_view(node.classes@),
        node@.attributes == assignments_view(node.attributes@),
{
    assert(node@.children =~= children_view(node.children@));
}

/// Replacing the last assignment to a name changes the attribute map as a
/// new assignment to that name does.
proof fn lemma_replace_last_assignment(attributes: Seq<(String, String)>, i: int, entry: (String, String))
    requires
        0 <= i < attributes.len(),
        attributes[i].0@ == entry.0@,
        forall|j: int| i < j < attributes.len() ==> attributes[j].0@ != entry.0@,
    ensures
        assignments_view(attributes.update(i, entry)) == assignments_view(attributes).insert(entry.0@, entry.1@),
    decreases attributes.len(),
{
    let updated = attributes.update(i, entry);
    if i == attributes.len() - 1 {
        assert(updated.drop_last() =~= attributes.drop_last());
    } else {
        assert(updated.drop_last() =~= attributes.drop_last().update(i, entry));
        lemma_replace_last_assignment(attributes.drop_last(), i, entry);
    }
    assert(assignments_view(updated) =~= assignments_view(attributes).insert(entry.0@, entry.1@));
}

impl Node {
    /// A childless element named `name`, with no classes and no attributes.
    pub fn new(name: &str) -> (node: Node)
        ensures
            node@ == NodeView::element(name@),
    {
        let node = Node {
            name: name.to_owned(),
            classes: Vec::new(),
            attributes: Vec::new(),
            children: Vec::new(),
        };
        proof {
            lemma_node_view(node);
            assert(node@.children =~= Seq::empty());
            assert(node@.classes =~= Seq::empty());
        }
        node
    }

    /// Sets attribute `name` to `value`; an earlier value of `name` is replaced.
    pub fn set_attribute(&mut self, name: &str, value: String)
        ensures
            final(self)@ == old(self)@.with_attribute(name@, value@),
    {
        let key = name.to_owned();
        let mut i: usize = self.attributes.len();
        while i > 0
            invariant
                i <= self.attributes.len(),
                key@ == name@,
                *self == *old(self),
                forall|j: int| i <= j < self.attributes.len() ==> self.attributes[j].0@ != name@,
            decreases i,
        {
            i -= 1;
            if self.attributes[i].0 == key {
                self.attributes[i].1 = value;
                proof {
                    lemma_node_view(*old(self));
                    lemma_node_view(*final(self));
                    lemma_replace_last_assignment(old(self).attributes@, i as int, self.attributes@[i as int]);
                    assert(self.attributes@ =~= old(self).attributes@.update(i as int, self.attributes@[i as int]));
                }
                return;
            }
        }
        self.attributes.push((key, value));
        proof {
            lemma_node_view(*old(self));
            lemma_node_view(*final(self));
            assert(self.attributes@.drop_last() =~= old(self).attributes@);
        }
    }

    /// Appends `child` as the last child.
    pub fn add_child(&mut self, child: Child)
        ensures
            final(self)@ == old(self)@.with_child(child@),
    {
        self.children.push(child);
        proof {
            lemma_node_view(*old(self));
            lemma_node_view(*final(self));
            assert(children_view(self.children@) =~= children_view(old(self).children@).push(child@));
        }
    }

    /// Whether the element carries the class token `class`.
    pub fn has_class(&self, class: &str) -> (found: bool)
        ensures
            found == self@.classes.contains(class@),
    {
        let token = class.to_owned();
        let mut i: usize = 0;
        while i < self.classes.len()
            invariant
                i <= self.classes.len(),
                token@ == class@,
                forall|j: int| 0 <= j < i ==> self.classes[j]@ != class@,
            decreases self.classes.len() - i,
        {
            if self.classes[i] == token {
                proof {
                    assert(tokens_view(self.classes@)[i as int] == class@);
                }
                return true;
            }
            i += 1;
        }
        proof {
            lemma_node_view(*self);
        }
        false
    }

    /// The value of attribute `name`, if it was set.
    pub fn attribute(&self, name: &str) -> (value: Option<&String>)
        ensures
            match value {
                Some(v) => self@.attributes.contains_key(name@) && self@.attributes[name@] == v@,
                None => !self@.attributes.contains_key(name@),
            },
    {
        let key = name.to_owned();
        let mut i: usize = self.attributes.len();
        proof {
            lemma_node_view(*self);
            assert(self.attributes@.take(i as int) =~= self.attributes@);
        }
        while i > 0
            invariant
                i <= self.attributes.len(),
                key@ == name@,
                self@.attributes.contains_key(name@) <==> assignments_view(
                    self.attributes@.take(i as int),
                ).contains_key(name@),
                self@.attributes.contains_key(name@) ==> self@.attributes[name@]
                    == assignments_view(self.attributes@.take(i as int))[name@],
            decreases i,
        {
            i -= 1;
            proof {
                assert(self.attributes@.take(i + 1).drop_last() =~= self.attributes@.take(i as int));
            }
            if self.attributes[i].0 == key {
                return Some(&self.attributes[i].1);
            }
        }
        None
    }
}

/// Adds the class token `class` to `node`; a token that the node already
/// carries is not added again.
pub fn add_class(node: &mut Node, class: &str)
    ensures
        final(node)@ == old(node)@.with_class(class@),
{
    if !node.has_class(class) {
        node.classes.push(class.to_owned());
        proof {
            lemma_node_view(*old(node));
            lemma_node_view(*final(node));
            assert(tokens_view(node.classes@) =~= tokens_view(old(node).classes@).push(class@));
        }
    }
}

} // verus!
