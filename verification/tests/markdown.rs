use yew_widgets::markdown::event::{Alignment, CodeBlockKind, Event, Tag};
use yew_widgets::markdown::node::{add_class, Child, Node};
use yew_widgets::markdown::render::{render, BuilderError, RenderError};
use yew_widgets::markdown::shape::{decimal_string, make_tag, retained_alignments, ShapeError};

fn text(s: &str) -> Event {
    Event::Text(s.to_string())
}

fn element(child: &Child) -> &Node {
    match child {
        Child::Element(node) => node,
        Child::Text(t) => panic!("expected an element, found the text {:?}", t),
    }
}

fn leaf(child: &Child) -> &str {
    match child {
        Child::Text(t) => t,
        Child::Element(node) => panic!("expected text, found the element {:?}", node.name),
    }
}

fn count(node: &Node) -> usize {
    let mut n = 1;
    for child in &node.children {
        if let Child::Element(inner) = child {
            n += count(inner);
        }
    }
    n
}

fn classes(node: &Node) -> Vec<&str> {
    node.classes.iter().map(|c| c.as_str()).collect()
}

fn shaped(tag: Tag) -> Node {
    make_tag(&tag).expect("the tag has a shape")
}

fn two_by_two_table(aligns: Vec<Alignment>) -> Vec<Event> {
    vec![
        Event::Start(Tag::Table(aligns.clone())),
        Event::Start(Tag::TableHead),
        Event::Start(Tag::TableCell),
        text("h1"),
        Event::End(Tag::TableCell),
        Event::Start(Tag::TableCell),
        text("h2"),
        Event::End(Tag::TableCell),
        Event::End(Tag::TableHead),
        Event::Start(Tag::TableRow),
        Event::Start(Tag::TableCell),
        text("a"),
        Event::End(Tag::TableCell),
        Event::Start(Tag::TableCell),
        text("b"),
        Event::End(Tag::TableCell),
        Event::End(Tag::TableRow),
        Event::End(Tag::Table(aligns)),
    ]
}

#[test]
fn single_paragraph_is_the_root() {
    let tree = render(&vec![Event::Start(Tag::Paragraph), text("hello"), Event::End(Tag::Paragraph)])
        .expect("balanced events render");
    assert_eq!(tree.name, "p");
    assert!(tree.classes.is_empty());
    assert!(tree.attributes.is_empty());
    assert_eq!(tree.children.len(), 1);
    assert_eq!(leaf(&tree.children[0]), "hello");
}

#[test]
fn single_root_keeps_the_shape_of_its_tag() {
    let tag = Tag::Link("https://example.org".to_string(), "Example".to_string());
    let shell = shaped(Tag::Link("https://example.org".to_string(), "Example".to_string()));
    let tree = render(
        &vec![
            Event::Start(tag),
            Event::Start(Tag::Emphasis),
            text("x"),
            Event::End(Tag::Emphasis),
            Event::End(Tag::Link(String::new(), String::new())),
        ],
    ).expect("balanced events render");
    assert_eq!(tree.name, shell.name);
    assert_eq!(tree.classes, shell.classes);
    assert_eq!(tree.attributes, shell.attributes);
    assert_eq!(tree.attribute("href").map(|s| s.as_str()), Some("https://example.org"));
}

#[test]
fn two_paragraphs_are_wrapped() {
    let tree = render(
        &vec![
            Event::Start(Tag::Paragraph),
            text("a"),
            Event::End(Tag::Paragraph),
            Event::Start(Tag::Paragraph),
            text("b"),
            Event::End(Tag::Paragraph),
        ],
    ).expect("balanced events render");
    assert_eq!(tree.name, "div");
    assert!(tree.classes.is_empty());
    assert!(tree.attributes.is_empty());
    assert_eq!(tree.children.len(), 2);
    let first = element(&tree.children[0]);
    let second = element(&tree.children[1]);
    assert_eq!(first.name, "p");
    assert_eq!(second.name, "p");
    assert_eq!(first.children.len(), 1);
    assert_eq!(second.children.len(), 1);
    assert_eq!(leaf(&first.children[0]), "a");
    assert_eq!(leaf(&second.children[0]), "b");
}

#[test]
fn no_events_give_an_empty_wrapper() {
    let tree = render(&vec![]).expect("nothing to refuse");
    assert_eq!(tree.name, "div");
    assert!(tree.children.is_empty());
    assert_eq!(count(&tree), 1);
}

#[test]
fn heading_levels_out_of_range_are_refused() {
    assert_eq!(make_tag(&Tag::Heading(0)).err(), Some(ShapeError::InvalidHeadingLevel));
    assert_eq!(make_tag(&Tag::Heading(7)).err(), Some(ShapeError::InvalidHeadingLevel));
    assert_eq!(make_tag(&Tag::Heading(u32::MAX)).err(), Some(ShapeError::InvalidHeadingLevel));
    assert_eq!(
        render(&vec![Event::Start(Tag::Heading(0)), Event::End(Tag::Heading(0))]).err(),
        Some(RenderError::Shape(ShapeError::InvalidHeadingLevel)),
    );
    assert_eq!(
        render(&vec![Event::Start(Tag::Heading(7)), Event::End(Tag::Heading(7))]).err(),
        Some(RenderError::Shape(ShapeError::InvalidHeadingLevel)),
    );
}

#[test]
fn heading_levels_in_range_are_named_by_level() {
    assert_eq!(shaped(Tag::Heading(1)).name, "h1");
    assert_eq!(shaped(Tag::Heading(2)).name, "h2");
    assert_eq!(shaped(Tag::Heading(3)).name, "h3");
    assert_eq!(shaped(Tag::Heading(4)).name, "h4");
    assert_eq!(shaped(Tag::Heading(5)).name, "h5");
    assert_eq!(shaped(Tag::Heading(6)).name, "h6");
    let tree = render(&vec![Event::Start(Tag::Heading(2)), text("t"), Event::End(Tag::Heading(2))])
        .expect("a heading of level 2 renders");
    assert_eq!(tree.name, "h2");
}

#[test]
fn fenced_rust_block_is_wrapped_in_pre() {
    let tree = render(
        &vec![
            Event::Start(Tag::CodeBlock(CodeBlockKind::Fenced("rust".to_string()))),
            text("fn main(){}"),
            Event::End(Tag::CodeBlock(CodeBlockKind::Fenced("rust".to_string()))),
        ],
    ).expect("balanced events render");
    assert_eq!(tree.name, "pre");
    assert!(tree.classes.is_empty());
    assert!(tree.attributes.is_empty());
    assert_eq!(tree.children.len(), 1);
    let code = element(&tree.children[0]);
    assert_eq!(code.name, "code");
    assert_eq!(classes(code), vec!["rust-language"]);
    assert!(code.attributes.is_empty());
    assert_eq!(code.children.len(), 1);
    assert_eq!(leaf(&code.children[0]), "fn main(){}");
    assert_eq!(count(&tree), 2);
}

#[test]
fn recognised_languages_get_a_class() {
    let fenced = |lang: &str| shaped(Tag::CodeBlock(CodeBlockKind::Fenced(lang.to_string())));
    assert_eq!(classes(&fenced("html")), vec!["html-language"]);
    assert_eq!(classes(&fenced("rust")), vec!["rust-language"]);
    assert_eq!(classes(&fenced("java")), vec!["java-language"]);
    assert_eq!(classes(&fenced("c")), vec!["c-language"]);
    assert!(fenced("python").classes.is_empty());
    assert!(fenced("").classes.is_empty());
    assert!(fenced("Rust").classes.is_empty());
    let indented = shaped(Tag::CodeBlock(CodeBlockKind::Indented));
    assert_eq!(indented.name, "code");
    assert!(indented.classes.is_empty());
}

#[test]
fn table_alignment_reaches_every_row() {
    let tree = render(&two_by_two_table(vec![Alignment::Left, Alignment::Right])).expect("the table renders");
    assert_eq!(tree.name, "table");
    assert_eq!(classes(&tree), vec!["table"]);
    assert_eq!(tree.children.len(), 2);
    let head = element(&tree.children[0]);
    assert_eq!(head.name, "th");
    assert_eq!(head.children.len(), 2);
    let h1 = element(&head.children[0]);
    let h2 = element(&head.children[1]);
    assert_eq!(h1.attribute("scope").map(|s| s.as_str()), Some("col"));
    assert_eq!(h2.attribute("scope").map(|s| s.as_str()), Some("col"));
    assert_eq!(classes(h1), vec!["text-left"]);
    assert_eq!(classes(h2), vec!["text-right"]);
    let row = element(&tree.children[1]);
    assert_eq!(row.name, "tr");
    assert_eq!(row.children.len(), 2);
    let a = element(&row.children[0]);
    let b = element(&row.children[1]);
    assert_eq!(a.name, "td");
    assert_eq!(classes(a), vec!["text-left"]);
    assert_eq!(classes(b), vec!["text-right"]);
    assert_eq!(a.attribute("scope"), None);
    assert_eq!(b.attribute("scope"), None);
    assert_eq!(leaf(&a.children[0]), "a");
    assert_eq!(leaf(&b.children[0]), "b");
}

#[test]
fn cells_beyond_the_stated_columns_get_no_class() {
    let tree = render(&two_by_two_table(vec![Alignment::Center])).expect("the table renders");
    let row = element(&tree.children[1]);
    assert_eq!(classes(element(&row.children[0])), vec!["text-center"]);
    assert!(element(&row.children[1]).classes.is_empty());
    let tree = render(&two_by_two_table(vec![])).expect("the table renders");
    let row = element(&tree.children[1]);
    assert!(element(&row.children[0]).classes.is_empty());
    assert!(element(&row.children[1]).classes.is_empty());
}

#[test]
fn unaligned_columns_get_no_class() {
    let tree = render(&two_by_two_table(vec![Alignment::Unaligned, Alignment::Center]))
        .expect("the table renders");
    let head = element(&tree.children[0]);
    assert!(element(&head.children[0]).classes.is_empty());
    assert_eq!(classes(element(&head.children[1])), vec!["text-center"]);
}

#[test]
fn alignment_comes_from_the_start_of_the_table() {
    let mut events = two_by_two_table(vec![Alignment::Left, Alignment::Right]);
    let last = events.len() - 1;
    events[last] = Event::End(Tag::Table(vec![Alignment::Center, Alignment::Center]));
    let tree = render(&events).expect("the table renders");
    let row = element(&tree.children[1]);
    assert_eq!(classes(element(&row.children[0])), vec!["text-left"]);
    assert_eq!(classes(element(&row.children[1])), vec!["text-right"]);
}

#[test]
fn retained_alignments_copy_the_table_columns() {
    let aligns = vec![Alignment::Left, Alignment::Unaligned, Alignment::Right];
    assert_eq!(retained_alignments(&Tag::Table(aligns.clone())), aligns);
    assert!(retained_alignments(&Tag::Paragraph).is_empty());
}

#[test]
fn end_without_start_is_unbalanced() {
    assert_eq!(
        render(&vec![Event::End(Tag::Paragraph)]).err(),
        Some(RenderError::Builder(BuilderError::UnbalancedEnd)),
    );
    assert_eq!(
        render(
            &vec![Event::Start(Tag::Paragraph), Event::End(Tag::Paragraph), Event::End(Tag::Paragraph)],
        ).err(),
        Some(RenderError::Builder(BuilderError::UnbalancedEnd)),
    );
}

#[test]
fn start_without_end_is_unclosed() {
    assert_eq!(
        render(&vec![Event::Start(Tag::Paragraph)]).err(),
        Some(RenderError::Builder(BuilderError::UnclosedElement)),
    );
    assert_eq!(
        render(&vec![Event::Start(Tag::Paragraph), Event::Start(Tag::Strong), Event::End(Tag::Strong)])
            .err(),
        Some(RenderError::Builder(BuilderError::UnclosedElement)),
    );
}

#[test]
fn content_outside_an_element_is_refused() {
    let refused = Some(RenderError::Builder(BuilderError::ContentOutsideElement));
    assert_eq!(render(&vec![text("a")]).err(), refused);
    assert_eq!(render(&vec![Event::SoftBreak]).err(), refused);
    assert_eq!(render(&vec![Event::HardBreak]).err(), refused);
    assert_eq!(render(&vec![Event::InlineHtml("<b>".to_string())]).err(), refused);
}

#[test]
fn events_without_a_rendering_are_refused() {
    let refused = Some(RenderError::Builder(BuilderError::UnsupportedEvent));
    let inside = |event: Event| vec![Event::Start(Tag::Paragraph), event, Event::End(Tag::Paragraph)];
    assert_eq!(render(&inside(Event::Code("x".to_string()))).err(), refused);
    assert_eq!(render(&inside(Event::FootnoteReference("1".to_string()))).err(), refused);
    assert_eq!(render(&inside(Event::Rule)).err(), refused);
    assert_eq!(render(&inside(Event::TaskListMarker(true))).err(), refused);
    assert_eq!(render(&vec![Event::Rule]).err(), refused);
}

#[test]
fn the_first_failing_event_decides_the_error() {
    assert_eq!(
        render(&vec![Event::End(Tag::Paragraph), Event::Start(Tag::Heading(9)), Event::Rule]).err(),
        Some(RenderError::Builder(BuilderError::UnbalancedEnd)),
    );
    assert_eq!(
        render(&vec![Event::Start(Tag::Heading(9)), Event::Rule]).err(),
        Some(RenderError::Shape(ShapeError::InvalidHeadingLevel)),
    );
}

#[test]
fn ordered_list_start() {
    let five = shaped(Tag::List(Some(5)));
    assert_eq!(five.name, "ol");
    assert_eq!(five.attribute("start").map(|s| s.as_str()), Some("5"));
    assert_eq!(five.attributes.len(), 1);
    let one = shaped(Tag::List(Some(1)));
    assert_eq!(one.name, "ol");
    assert_eq!(one.attribute("start"), None);
    assert!(one.attributes.is_empty());
    let none = shaped(Tag::List(None));
    assert_eq!(none.name, "ul");
    assert!(none.attributes.is_empty());
    let zero = shaped(Tag::List(Some(0)));
    assert_eq!(zero.attribute("start").map(|s| s.as_str()), Some("0"));
    let large = shaped(Tag::List(Some(u64::MAX)));
    assert_eq!(large.attribute("start").map(|s| s.as_str()), Some("18446744073709551615"));
}

#[test]
fn decimal_numerals() {
    assert_eq!(decimal_string(0), "0");
    assert_eq!(decimal_string(9), "9");
    assert_eq!(decimal_string(10), "10");
    assert_eq!(decimal_string(1234567890), "1234567890");
    assert_eq!(decimal_string(u64::MAX), u64::MAX.to_string());
}

#[test]
fn plain_tags_have_plain_shapes() {
    let plain = |tag: Tag, name: &str| {
        let node = shaped(tag);
        assert_eq!(node.name, name);
        assert!(node.classes.is_empty());
        assert!(node.attributes.is_empty());
        assert!(node.children.is_empty());
    };
    plain(Tag::Paragraph, "p");
    plain(Tag::ListItem, "li");
    plain(Tag::TableHead, "th");
    plain(Tag::TableRow, "tr");
    plain(Tag::TableCell, "td");
    plain(Tag::Strikethrough, "strike");
    plain(Tag::FootnoteDefinition("note".to_string()), "span");
}

#[test]
fn styled_tags_carry_their_class() {
    let quote = shaped(Tag::BlockQuote);
    assert_eq!(quote.name, "blockquote");
    assert_eq!(classes(&quote), vec!["blockquote"]);
    let table = shaped(Tag::Table(vec![Alignment::Left]));
    assert_eq!(table.name, "table");
    assert_eq!(classes(&table), vec!["table"]);
    let emphasis = shaped(Tag::Emphasis);
    assert_eq!(emphasis.name, "span");
    assert_eq!(classes(&emphasis), vec!["is-italic"]);
    let strong = shaped(Tag::Strong);
    assert_eq!(strong.name, "span");
    assert_eq!(classes(&strong), vec!["has-text-weight-bold"]);
}

#[test]
fn links_and_images_carry_their_target() {
    let link = shaped(Tag::Link("/a".to_string(), "A".to_string()));
    assert_eq!(link.name, "a");
    assert_eq!(link.attribute("href").map(|s| s.as_str()), Some("/a"));
    assert_eq!(link.attribute("title").map(|s| s.as_str()), Some("A"));
    assert_eq!(link.attribute("src"), None);
    let bare = shaped(Tag::Link("/a".to_string(), String::new()));
    assert_eq!(bare.attribute("href").map(|s| s.as_str()), Some("/a"));
    assert_eq!(bare.attribute("title"), None);
    let image = shaped(Tag::Image("/i.png".to_string(), "I".to_string()));
    assert_eq!(image.name, "img");
    assert_eq!(image.attribute("src").map(|s| s.as_str()), Some("/i.png"));
    assert_eq!(image.attribute("title").map(|s| s.as_str()), Some("I"));
    assert_eq!(image.attribute("href"), None);
    let untitled = shaped(Tag::Image("/i.png".to_string(), String::new()));
    assert_eq!(untitled.attribute("title"), None);
}

#[test]
fn breaks_and_inline_markup_become_children() {
    let tree = render(
        &vec![
            Event::Start(Tag::Paragraph),
            text("a"),
            Event::SoftBreak,
            Event::HardBreak,
            Event::InlineHtml("<b>raw</b>".to_string()),
            Event::End(Tag::Paragraph),
        ],
    ).expect("balanced events render");
    assert_eq!(tree.children.len(), 4);
    assert_eq!(leaf(&tree.children[0]), "a");
    assert_eq!(leaf(&tree.children[1]), "\n");
    let br = element(&tree.children[2]);
    assert_eq!(br.name, "br");
    assert!(br.children.is_empty());
    assert_eq!(leaf(&tree.children[3]), "<b>raw</b>");
}

#[test]
fn nested_elements_close_into_their_parent() {
    let tree = render(
        &vec![
            Event::Start(Tag::List(None)),
            Event::Start(Tag::ListItem),
            Event::Start(Tag::Strong),
            text("one"),
            Event::End(Tag::Strong),
            text(" tail"),
            Event::End(Tag::ListItem),
            Event::Start(Tag::ListItem),
            text("two"),
            Event::End(Tag::ListItem),
            Event::End(Tag::List(None)),
        ],
    ).expect("balanced events render");
    assert_eq!(tree.name, "ul");
    assert_eq!(tree.children.len(), 2);
    let first = element(&tree.children[0]);
    assert_eq!(first.name, "li");
    assert_eq!(first.children.len(), 2);
    let strong = element(&first.children[0]);
    assert_eq!(strong.name, "span");
    assert_eq!(leaf(&strong.children[0]), "one");
    assert_eq!(leaf(&first.children[1]), " tail");
    let second = element(&tree.children[1]);
    assert_eq!(leaf(&second.children[0]), "two");
}

#[test]
fn element_count_follows_the_events() {
    // Four starts, one code block end, one hard break, and a wrapper for two roots.
    let tree = render(
        &vec![
            Event::Start(Tag::Paragraph),
            Event::Start(Tag::Emphasis),
            text("a"),
            Event::HardBreak,
            Event::End(Tag::Emphasis),
            Event::End(Tag::Paragraph),
            Event::Start(Tag::BlockQuote),
            Event::Start(Tag::CodeBlock(CodeBlockKind::Indented)),
            text("x"),
            Event::End(Tag::CodeBlock(CodeBlockKind::Indented)),
            Event::End(Tag::BlockQuote),
        ],
    ).expect("balanced events render");
    assert_eq!(tree.name, "div");
    assert_eq!(count(&tree), 4 + 1 + 1 + 1);
    // Eighteen events of a table: seven starts, one root, nothing else.
    let table = render(&two_by_two_table(vec![Alignment::Left])).expect("the table renders");
    assert_eq!(count(&table), 7);
}

#[test]
fn the_end_tag_decides_the_transform() {
    let tree = render(
        &vec![Event::Start(Tag::Paragraph), text("x"), Event::End(Tag::CodeBlock(CodeBlockKind::Indented))],
    ).expect("balanced events render");
    assert_eq!(tree.name, "pre");
    assert_eq!(element(&tree.children[0]).name, "p");
}

#[test]
fn a_class_is_added_once() {
    let mut node = Node::new("p");
    add_class(&mut node, "a");
    add_class(&mut node, "b");
    add_class(&mut node, "a");
    assert_eq!(classes(&node), vec!["a", "b"]);
    assert!(node.has_class("a"));
    assert!(node.has_class("b"));
    assert!(!node.has_class("c"));
}

#[test]
fn a_later_attribute_value_replaces_an_earlier_one() {
    let mut node = Node::new("a");
    assert_eq!(node.attribute("href"), None);
    node.set_attribute("href", "/one".to_string());
    node.set_attribute("title", "t".to_string());
    node.set_attribute("href", "/two".to_string());
    assert_eq!(node.attribute("href").map(|s| s.as_str()), Some("/two"));
    assert_eq!(node.attribute("title").map(|s| s.as_str()), Some("t"));
    assert_eq!(node.attribute("src"), None);
    assert_eq!(node.attributes.len(), 2);
}

#[test]
fn children_keep_their_order() {
    let mut node = Node::new("p");
    node.add_child(Child::Text("a".to_string()));
    node.add_child(Child::Element(Node::new("br")));
    node.add_child(Child::Text("b".to_string()));
    assert_eq!(node.children.len(), 3);
    assert_eq!(leaf(&node.children[0]), "a");
    assert_eq!(element(&node.children[1]).name, "br");
    assert_eq!(leaf(&node.children[2]), "b");
}

fn classes_are_sets(node: &Node) -> bool {
    let mut seen: Vec<&str> = Vec::new();
    for class in &node.classes {
        if seen.contains(&class.as_str()) {
            return false;
        }
        seen.push(class);
    }
    node.children.iter().all(|child| match child {
        Child::Element(inner) => classes_are_sets(inner),
        Child::Text(_) => true,
    })
}

#[test]
fn no_element_carries_a_class_twice() {
    // A table closed inside the cell of another: the inner table is aligned
    // when it closes, and its cells are not touched again by the outer one.
    let mut events = vec![
        Event::Start(Tag::Table(vec![Alignment::Left])),
        Event::Start(Tag::TableRow),
        Event::Start(Tag::TableCell),
    ];
    events.extend(two_by_two_table(vec![Alignment::Left, Alignment::Left]));
    events.extend(vec![
        Event::End(Tag::TableCell),
        Event::End(Tag::TableRow),
        Event::End(Tag::Table(vec![Alignment::Left])),
    ]);
    let tree = render(&events).expect("the tables render");
    assert!(classes_are_sets(&tree));
    let cell = element(&element(&tree.children[0]).children[0]);
    assert_eq!(classes(cell), vec!["text-left"]);
    // A row that is closed as a table and then aligned again by its table.
    let twice = render(
        &vec![
            Event::Start(Tag::Table(vec![Alignment::Right])),
            Event::Start(Tag::Table(vec![Alignment::Right])),
            Event::Start(Tag::TableRow),
            Event::Start(Tag::TableCell),
            Event::End(Tag::TableCell),
            Event::End(Tag::TableRow),
            Event::End(Tag::Table(vec![])),
            Event::End(Tag::Table(vec![])),
        ],
    ).expect("balanced events render");
    assert!(classes_are_sets(&twice));
    let inner = element(&twice.children[0]);
    assert_eq!(classes(inner), vec!["table"]);
    let row = element(&inner.children[0]);
    assert_eq!(classes(row), vec!["text-right"]);
    assert_eq!(classes(element(&row.children[0])), vec!["text-right"]);
}
