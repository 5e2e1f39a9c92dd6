use std::ops::Range;

use pulldown_cmark::LinkType;
use web_framework_markdown::context::{
    ComponentCreationError, Context, ElementAttributes, HtmlElement, LinkDescription,
    MarkdownProps, MdComponentProps,
};
use web_framework_markdown::error::HtmlError;
use web_framework_markdown::event::{Alignment, CodeBlockKind, Math, MdEvent, MdTag, MdTagEnd};
use web_framework_markdown::markdown::{markdown_component, render_events, render_markdown};
use web_framework_markdown::nested::nesting_breach_of;
use web_framework_markdown::render::Renderer;
use web_framework_markdown::scan::StreamError;

/// A view as a tree that the tests can look into.
#[derive(Debug, Clone, PartialEq)]
enum Node {
    Element {
        kind: HtmlElement,
        inside: Box<Node>,
        classes: Vec<String>,
        style: Option<String>,
        click: Option<(Range<usize>, bool)>,
    },
    RawHtml {
        html: String,
        classes: Vec<String>,
        click: Option<(Range<usize>, bool)>,
    },
    Hr,
    Br,
    Fragment(Vec<Node>),
    Anchor {
        children: Box<Node>,
        href: String,
    },
    Image {
        src: String,
        alt: String,
    },
    Text(String),
    Checkbox(bool),
    Props(Vec<(String, String, Range<usize>)>, Box<Node>),
}

impl Node {
    /// The text that the tree shows, from left to right.
    fn text(&self) -> String {
        match self {
            Node::Element { inside, .. } => inside.text(),
            Node::RawHtml { html, .. } => html.clone(),
            Node::Fragment(children) => children.iter().map(|c| c.text()).collect(),
            Node::Anchor { children, .. } => children.text(),
            Node::Text(text) => text.clone(),
            Node::Props(_, children) => children.text(),
            Node::Hr | Node::Br | Node::Image { .. } | Node::Checkbox(_) => String::new(),
        }
    }

    /// Every element of the tree of the kind `kind`, from left to right.
    fn find(&self, kind: HtmlElement, found: &mut Vec<Node>) {
        match self {
            Node::Element { kind: k, inside, .. } => {
                if *k == kind {
                    found.push(self.clone());
                }
                inside.find(kind, found);
            }
            Node::Fragment(children) => children.iter().for_each(|c| c.find(kind, found)),
            Node::Anchor { children, .. } => children.find(kind, found),
            Node::Props(_, children) => children.find(kind, found),
            _ => {}
        }
    }

    /// The one view in a fragment of one view.
    fn only(&self) -> &Node {
        match self {
            Node::Fragment(children) if children.len() == 1 => &children[0],
            other => panic!("no fragment of one view: {other:?}"),
        }
    }

    /// Every call of the component `Echo` in the tree, from left to right.
    fn echoes(&self, found: &mut Vec<Node>) {
        match self {
            Node::Element { inside, .. } => inside.echoes(found),
            Node::Fragment(children) => children.iter().for_each(|c| c.echoes(found)),
            Node::Anchor { children, .. } => children.echoes(found),
            Node::Props(_, children) => {
                found.push(self.clone());
                children.echoes(found);
            }
            _ => {}
        }
    }

    fn is_error(&self) -> bool {
        matches!(self, Node::Element { kind: HtmlElement::Span, classes, .. }
            if classes == &vec!["markdown-error".to_string()])
    }

    /// The views of failures in the tree, from left to right.
    fn errors(&self) -> Vec<Node> {
        let mut spans = Vec::new();
        self.find(HtmlElement::Span, &mut spans);
        spans.into_iter().filter(|s| s.is_error()).collect()
    }
}

/// A user interface that builds trees. It knows the components `X`, which
/// shows the text `Content`, `Echo`, which shows what it was called with, and
/// `Broken`, which fails.
#[derive(Clone, Copy)]
struct Cx {
    hard_line_breaks: bool,
    custom_links: bool,
}

const CX: Cx = Cx { hard_line_breaks: false, custom_links: false };

/// The metadata that the renderer has handed over, by the name of the test that asked for it.
static FRONT_MATTER: std::sync::Mutex<Vec<String>> = std::sync::Mutex::new(Vec::new());

impl Context for Cx {
    type View = Node;
    type Handler = (Range<usize>, bool);

    fn props(self) -> MarkdownProps {
        MarkdownProps {
            hard_line_breaks: self.hard_line_breaks,
            wikilinks: false,
            parse_options: None,
            theme: None,
        }
    }

    fn set_frontmatter(self, frontmatter: String) {
        FRONT_MATTER.lock().unwrap().push(frontmatter);
    }

    fn render_links(self, link: LinkDescription<Node>) -> Result<Node, String> {
        if link.url == "bad" {
            Err("no such page".to_string())
        } else {
            Ok(Node::Text(format!("{}:{}:{}", link.image, link.url, link.content.text())))
        }
    }

    fn make_md_handler(self, position: Range<usize>, stop_propagation: bool) -> Self::Handler {
        (position, stop_propagation)
    }

    fn el_with_attributes(
        self,
        e: HtmlElement,
        inside: Node,
        attributes: ElementAttributes<Self::Handler>,
    ) -> Node {
        Node::Element {
            kind: e,
            inside: Box::new(inside),
            classes: attributes.classes,
            style: attributes.style,
            click: attributes.on_click,
        }
    }

    fn el_span_with_inner_html(
        self,
        inner_html: String,
        attributes: ElementAttributes<Self::Handler>,
    ) -> Node {
        Node::RawHtml { html: inner_html, classes: attributes.classes, click: attributes.on_click }
    }

    fn el_hr(self, _attributes: ElementAttributes<Self::Handler>) -> Node {
        Node::Hr
    }

    fn el_br(self) -> Node {
        Node::Br
    }

    fn el_fragment(self, children: Vec<Node>) -> Node {
        Node::Fragment(children)
    }

    fn el_a(self, children: Node, href: String) -> Node {
        Node::Anchor { children: Box::new(children), href }
    }

    fn el_img(self, src: String, alt: String) -> Node {
        Node::Image { src, alt }
    }

    fn el_text(self, text: &str) -> Node {
        Node::Text(text.to_string())
    }

    fn el_input_checkbox(self, checked: bool, _attributes: ElementAttributes<Self::Handler>) -> Node {
        Node::Checkbox(checked)
    }

    fn has_custom_component(self, name: &str) -> bool {
        name == "X" || name == "Echo" || name == "Broken"
    }

    fn render_custom_component(
        self,
        name: &str,
        input: MdComponentProps<Node>,
    ) -> Result<Node, ComponentCreationError> {
        match name {
            "X" => Ok(Node::Text("Content".to_string())),
            "Echo" => Ok(Node::Props(
                input
                    .attributes
                    .iter()
                    .map(|(k, v)| (k.clone(), v.value.clone(), v.range.clone()))
                    .collect(),
                Box::new(input.children),
            )),
            _ => Err(ComponentCreationError("it is broken".to_string())),
        }
    }

    fn has_custom_links(self) -> bool {
        self.custom_links
    }
}

fn render(source: &str) -> Node {
    markdown_component(CX, source).unwrap()
}

fn text_event(s: &str) -> (MdEvent, Range<usize>) {
    (MdEvent::Text(s.to_string()), 0..0)
}

fn start(tag: MdTag) -> (MdEvent, Range<usize>) {
    (MdEvent::Start(tag), 0..0)
}

fn end(tag: MdTagEnd) -> (MdEvent, Range<usize>) {
    (MdEvent::End(tag), 0..0)
}

fn clickable_span(text: &str, range: Range<usize>) -> Node {
    Node::Element {
        kind: HtmlElement::Span,
        inside: Box::new(Node::Text(text.to_string())),
        classes: vec![],
        style: None,
        click: Some((range, false)),
    }
}

fn plain(kind: HtmlElement, children: Vec<Node>) -> Node {
    Node::Element {
        kind,
        inside: Box::new(Node::Fragment(children)),
        classes: vec![],
        style: None,
        click: None,
    }
}

#[test]
fn plain_text_is_one_paragraph_with_one_span() {
    for source in ["hello", "Plain text with several words", "x"] {
        assert_eq!(
            render(source),
            Node::Fragment(vec![plain(
                HtmlElement::Paragraph,
                vec![clickable_span(source, 0..source.len())]
            )])
        );
    }
}

#[test]
fn sub_scan_stops_behind_the_matching_end() {
    let events = vec![
        start(MdTag::Paragraph),
        text_event("a"),
        start(MdTag::Emphasis),
        text_event("b"),
        end(MdTagEnd::Emphasis),
        end(MdTagEnd::Paragraph),
        text_event("c"),
    ];
    let mut renderer = Renderer::new(CX, &events);
    let first = renderer.next().unwrap().unwrap();
    assert_eq!(renderer.position(), 6);
    assert_eq!(first.text(), "ab");
    let second = renderer.next().unwrap().unwrap();
    assert_eq!(renderer.position(), 7);
    assert_eq!(second.text(), "c");
    assert_eq!(renderer.next(), Ok(None));
    assert_eq!(renderer.position(), 7);
}

#[test]
fn nested_containers_are_rebuilt() {
    let events = vec![
        start(MdTag::BlockQuote),
        start(MdTag::List(None)),
        start(MdTag::Item),
        text_event("one"),
        end(MdTagEnd::Item),
        start(MdTag::Item),
        text_event("two"),
        end(MdTagEnd::Item),
        end(MdTagEnd::List(false)),
        end(MdTagEnd::BlockQuote),
    ];
    assert_eq!(
        render_markdown(CX, &events).unwrap(),
        Node::Fragment(vec![plain(
            HtmlElement::BlockQuote,
            vec![plain(
                HtmlElement::Ul,
                vec![
                    plain(HtmlElement::Li, vec![clickable_span("one", 0..0)]),
                    plain(HtmlElement::Li, vec![clickable_span("two", 0..0)]),
                ]
            )]
        )])
    );
}

#[test]
fn self_closing_and_paired_component_are_alike() {
    assert_eq!(render("<X/>").text(), "Content");
    assert_eq!(render("<X></X>").text(), "Content");
    assert_eq!(
        render("<X/>"),
        Node::Fragment(vec![Node::Fragment(vec![Node::Text("Content".to_string())])])
    );
    assert_eq!(render("<X>\n\n</X>"), render("<X/>"));
    assert_eq!(render("<X>\n</X>").text(), "Content");
    assert_eq!(
        render("<X></X>"),
        Node::Fragment(vec![plain(
            HtmlElement::Paragraph,
            vec![Node::Text("Content".to_string())]
        )])
    );
}

#[test]
fn adjacent_inline_components_concatenate() {
    let view = render("<X/><X/>");
    assert_eq!(view.text(), "ContentContent");
    assert_eq!(
        view,
        Node::Fragment(vec![plain(
            HtmlElement::Paragraph,
            vec![Node::Text("Content".to_string()), Node::Text("Content".to_string())]
        )])
    );
}

#[test]
fn attribute_range_points_into_the_document() {
    let source = " <Echo test=\"abc\"/>";
    let view = render(source);
    let mut echoes = Vec::new();
    view.echoes(&mut echoes);
    let Node::Props(attributes, _) = &echoes[0] else { panic!("{view:?}") };
    assert_eq!(attributes.len(), 1);
    let (name, value, range) = &attributes[0];
    assert_eq!(name, "test");
    assert_eq!(value, "abc");
    assert_eq!(&source[range.clone()], "abc");
}

#[test]
fn component_with_children_ends_at_its_closing_tag() {
    let source = "<Echo a=\"1\">\n\n**hey !**\n\n</Echo>\n\nafter";
    let Node::Fragment(children) = render(source) else { panic!() };
    assert_eq!(children.len(), 2);
    let Node::Props(attributes, inside) = children[0].only() else { panic!("{children:?}") };
    assert_eq!(attributes, &vec![("a".to_string(), "1".to_string(), 9..10)]);
    assert_eq!(inside.text(), "hey !");
    let mut bold = Vec::new();
    inside.find(HtmlElement::Bold, &mut bold);
    assert_eq!(bold.len(), 1);
    assert_eq!(children[1].text(), "after");
    assert!(children[1].errors().is_empty());
}

#[test]
fn failing_component_does_not_harm_its_neighbours() {
    let view = render("before\n\n<Broken/>\n\nafter *all*");
    let Node::Fragment(children) = &view else { panic!() };
    assert_eq!(children.len(), 3);
    assert_eq!(children[0], plain(HtmlElement::Paragraph, vec![clickable_span("before", 0..6)]));
    assert!(children[1].only().is_error());
    assert_eq!(children[1].text(), "Custom component `Broken` failed: `it is broken`");
    assert_eq!(children[2].text(), "after all");
    assert!(children[2].errors().is_empty());
    assert_eq!(view.errors().len(), 1);
}

#[test]
fn unregistered_component_is_kept_as_raw_html() {
    let view = render("<Unknown/>\n\ntext");
    let Node::Fragment(children) = &view else { panic!() };
    assert_eq!(
        children[0],
        Node::Fragment(vec![Node::RawHtml {
            html: "<Unknown/>\n".to_string(),
            classes: vec![],
            click: None
        }])
    );
    assert_eq!(children[1].text(), "text");
    assert!(view.errors().is_empty());
}

#[test]
fn closing_tag_without_start_is_an_error() {
    let view = render("</X>\n\ntext");
    let errors = view.errors();
    assert_eq!(errors.len(), 1);
    assert_eq!(errors[0].text(), "Custom component `X` failed: `expected start, not end`");
    assert!(view.text().ends_with("text"));
}

#[test]
fn malformed_tag_of_a_component_is_an_error() {
    let view = render("<X a>\n");
    let errors = view.errors();
    assert_eq!(errors.len(), 1);
    assert_eq!(
        errors[0].text(),
        "Custom component `X` failed: `not a valid component: expected equal sign after attribute name`"
    );
}

#[test]
fn components_do_not_nest() {
    let view = render("<Echo>\n\n<X/>\n\n</Echo>\n");
    let Node::Fragment(children) = &view else { panic!() };
    assert_eq!(children.len(), 1);
    let Node::Props(_, inside) = children[0].only() else { panic!("{children:?}") };
    let errors = inside.errors();
    assert_eq!(errors.len(), 1);
    assert_eq!(
        errors[0].text(),
        "Custom component `<X/>\n` failed: `please make sure there is a newline before the end of your component`"
    );
    let inline = render("<Echo><X/></Echo>");
    let errors = inline.errors();
    assert_eq!(errors.len(), 1);
    assert_eq!(errors[0].text(), "Custom component `Echo` failed: `expected end of component`");
}

#[test]
fn table_cells_take_the_alignment_of_their_column() {
    let view = render("| a | b |\n|:--|--:|\n| c | d |\n");
    let mut cells = Vec::new();
    view.find(HtmlElement::Tcell, &mut cells);
    let styles: Vec<Option<String>> = cells
        .iter()
        .map(|c| match c {
            Node::Element { style, .. } => style.clone(),
            _ => None,
        })
        .collect();
    assert_eq!(
        styles,
        vec![
            Some("text-align: left".to_string()),
            Some("text-align: right".to_string()),
            Some("text-align: left".to_string()),
            Some("text-align: right".to_string()),
        ]
    );
}

#[test]
fn column_index_starts_anew_in_every_row() {
    let row = |a: &str, b: &str| {
        vec![
            start(MdTag::TableRow),
            start(MdTag::TableCell),
            text_event(a),
            end(MdTagEnd::TableCell),
            start(MdTag::TableCell),
            text_event(b),
            end(MdTagEnd::TableCell),
            end(MdTagEnd::TableRow),
        ]
    };
    let mut events = vec![start(MdTag::Table(vec![Alignment::Center, Alignment::Unset]))];
    events.extend(row("a", "b"));
    events.extend(row("c", "d"));
    events.push(end(MdTagEnd::Table));
    let view = render_markdown(CX, &events).unwrap();
    let mut cells = Vec::new();
    view.find(HtmlElement::Tcell, &mut cells);
    assert_eq!(cells.len(), 4);
    let style = |c: &Node| match c {
        Node::Element { style, .. } => style.clone().unwrap(),
        _ => panic!(),
    };
    assert_eq!(style(&cells[0]), "text-align: center");
    assert_eq!(style(&cells[1]), "");
    assert_eq!(style(&cells[2]), "text-align: center");
    assert_eq!(style(&cells[3]), "");
}

#[test]
fn cell_without_column_breaks_the_stream() {
    let events = vec![start(MdTag::TableCell), end(MdTagEnd::TableCell)];
    assert_eq!(render_markdown(CX, &events), Err(StreamError::NoColumn));
    let events = vec![
        start(MdTag::Table(vec![Alignment::Left])),
        start(MdTag::TableRow),
        start(MdTag::TableCell),
        end(MdTagEnd::TableCell),
        start(MdTag::TableCell),
        end(MdTagEnd::TableCell),
        end(MdTagEnd::TableRow),
        end(MdTagEnd::Table),
    ];
    assert_eq!(render_markdown(CX, &events), Err(StreamError::NoColumn));
}

#[test]
fn wrong_closing_tags_break_the_stream() {
    let events = vec![start(MdTag::Paragraph), end(MdTagEnd::Item)];
    assert_eq!(nesting_breach_of(&events), Some(StreamError::WrongClosingTag));
    assert_eq!(render_events(CX, &events), Err(StreamError::WrongClosingTag));
    let events = vec![end(MdTagEnd::Paragraph)];
    assert_eq!(nesting_breach_of(&events), Some(StreamError::UnexpectedClosingTag));
    assert_eq!(render_events(CX, &events), Err(StreamError::UnexpectedClosingTag));
    let events = vec![
        start(MdTag::Paragraph),
        start(MdTag::Emphasis),
        end(MdTagEnd::Paragraph),
        end(MdTagEnd::Emphasis),
    ];
    assert_eq!(render_events(CX, &events), Err(StreamError::WrongClosingTag));
    let events = vec![text_event("a"), start(MdTag::Paragraph), text_event("b")];
    assert_eq!(nesting_breach_of(&events), None);
    assert_eq!(render_events(CX, &events), render_markdown(CX, &events));
    assert_eq!(render_events(CX, &events).unwrap().text(), "ab");
    let events = vec![
        start(MdTag::CodeBlock(CodeBlockKind::Indented)),
        (MdEvent::Rule, 0..0),
        end(MdTagEnd::CodeBlock),
    ];
    assert_eq!(render_markdown(CX, &events), Err(StreamError::UnexpectedContent));
}

#[test]
fn tag_beyond_the_largest_address_breaks_the_stream() {
    let events = vec![(MdEvent::InlineHtml("<X/>".to_string()), usize::MAX - 2..usize::MAX)];
    assert_eq!(render_markdown(CX, &events), Err(StreamError::RangeOverflow));
}

#[test]
fn leaves_are_rendered_in_place() {
    let events = vec![
        (MdEvent::Code("x".to_string()), 1..2),
        (MdEvent::SoftBreak, 2..3),
        (MdEvent::HardBreak, 3..4),
        (MdEvent::Rule, 4..5),
        (MdEvent::TaskListMarker(true), 5..6),
    ];
    assert_eq!(
        render_markdown(CX, &events).unwrap(),
        Node::Fragment(vec![
            Node::Element {
                kind: HtmlElement::Code,
                inside: Box::new(Node::Text("x".to_string())),
                classes: vec![],
                style: None,
                click: Some((1..2, false)),
            },
            Node::Text(" ".to_string()),
            Node::Br,
            Node::Hr,
            Node::Checkbox(true),
        ])
    );
}

#[test]
fn hard_line_breaks_replace_soft_ones() {
    let source = "a\nb";
    assert_eq!(render(source).text(), "a b");
    let hard = markdown_component(Cx { hard_line_breaks: true, custom_links: false }, source).unwrap();
    let Node::Fragment(children) = hard else { panic!() };
    assert_eq!(
        children[0],
        plain(
            HtmlElement::Paragraph,
            vec![clickable_span("a", 0..1), Node::Br, clickable_span("b", 2..3)]
        )
    );
}

#[test]
fn math_shows_markup_or_failure() {
    let typeset = Math { content: "x".to_string(), markup: Some("<m>x</m>".to_string()) };
    let failed = Math { content: "\\".to_string(), markup: None };
    let events = vec![(MdEvent::InlineMath(typeset), 0..3), (MdEvent::DisplayMath(failed), 3..8)];
    let Node::Fragment(children) = render_markdown(CX, &events).unwrap() else { panic!() };
    assert_eq!(
        children[0],
        Node::RawHtml {
            html: "<m>x</m>".to_string(),
            classes: vec!["math-inline".to_string()],
            click: Some((0..3, true)),
        }
    );
    assert!(children[1].is_error());
    assert_eq!(children[1].text(), "invalid math");
}

#[test]
fn math_is_typeset_while_parsing() {
    let Node::Fragment(children) = render("$x^2$") else { panic!() };
    let mut found = false;
    if let Node::Element { inside, .. } = &children[0] {
        if let Node::Fragment(parts) = &**inside {
            if let Node::RawHtml { html, classes, .. } = &parts[0] {
                found = true;
                assert_eq!(classes, &vec!["math-inline".to_string()]);
                assert!(html.contains("katex"));
            }
        }
    }
    assert!(found, "{children:?}");
}

#[test]
fn fenced_code_is_highlighted() {
    let Node::Fragment(children) = render("```rust\nfn main() {}\n```\n") else { panic!() };
    let Node::RawHtml { html, click, .. } = &children[0] else { panic!("{children:?}") };
    assert!(html.starts_with("<pre"));
    assert!(html.contains("main"));
    assert!(click.as_ref().unwrap().1);
}

#[test]
fn code_without_known_language_is_plain() {
    let Node::Fragment(children) = render("```nolanguage\nabc\n```\n") else { panic!() };
    assert_eq!(
        children[0],
        Node::Element {
            kind: HtmlElement::Code,
            inside: Box::new(Node::Element {
                kind: HtmlElement::Code,
                inside: Box::new(Node::Text("abc\n".to_string())),
                classes: vec![],
                style: None,
                click: None,
            }),
            classes: vec![],
            style: None,
            click: Some((0..21, true)),
        }
    );
}

#[test]
fn links_and_images_are_plain_without_custom_links() {
    let Node::Fragment(children) = render("[text](http://a.b \"t\") ![alt](pic.png \"title\")")
    else {
        panic!()
    };
    let Node::Element { inside, .. } = &children[0] else { panic!() };
    let Node::Fragment(parts) = &**inside else { panic!() };
    assert_eq!(
        parts[0],
        Node::Anchor {
            children: Box::new(Node::Fragment(vec![clickable_span("text", 1..5)])),
            href: "http://a.b".to_string(),
        }
    );
    assert_eq!(parts[2], Node::Image { src: "pic.png".to_string(), alt: "title".to_string() });
}

#[test]
fn link_type_is_handed_on() {
    let events = vec![
        start(MdTag::Link {
            link_type: LinkType::Autolink,
            dest_url: "u".to_string(),
            title: String::new(),
        }),
        end(MdTagEnd::Link),
    ];
    assert_eq!(
        render_markdown(CX, &events).unwrap(),
        Node::Fragment(vec![Node::Anchor {
            children: Box::new(Node::Fragment(vec![])),
            href: "u".to_string(),
        }])
    );
}

#[test]
fn unsupported_containers_are_errors_and_are_passed_over() {
    let events = vec![
        start(MdTag::Superscript),
        text_event("up"),
        end(MdTagEnd::Superscript),
        text_event("after"),
    ];
    let Node::Fragment(children) = render_markdown(CX, &events).unwrap() else { panic!() };
    assert_eq!(children.len(), 2);
    assert!(children[0].is_error());
    assert_eq!(children[0].text(), "`superscript not implemented`: not implemented");
    assert_eq!(children[1], clickable_span("after", 0..0));
}

#[test]
fn front_matter_is_handed_over_and_shows_nothing() {
    let Node::Fragment(children) = render("---\ntitle: front matter of this test\n---\n\ntext")
    else {
        panic!()
    };
    assert_eq!(children[0], Node::Fragment(vec![]));
    assert_eq!(children[1].text(), "text");
    let handed = FRONT_MATTER.lock().unwrap();
    assert_eq!(
        handed.iter().filter(|f| f.contains("front matter of this test")).collect::<Vec<_>>(),
        vec!["title: front matter of this test\n"]
    );
}

#[test]
fn custom_links_render_links_and_images() {
    let cx = Cx { hard_line_breaks: false, custom_links: true };
    let view = markdown_component(cx, "[text](good) ![alt](pic) [x](bad) end").unwrap();
    let Node::Fragment(children) = &view else { panic!() };
    let Node::Element { inside, .. } = &children[0] else { panic!() };
    let Node::Fragment(parts) = &**inside else { panic!() };
    assert_eq!(parts[0], Node::Text("false:good:text".to_string()));
    assert_eq!(parts[2], Node::Text("true:pic:alt".to_string()));
    assert!(parts[4].is_error());
    assert_eq!(parts[4].text(), "invalid link: no such page");
    assert_eq!(parts[5], clickable_span(" end", 33..37));
    assert_eq!(view.errors().len(), 1);
}

#[test]
fn text_that_is_no_tag_fails_in_the_body_of_a_component() {
    let events = vec![
        (MdEvent::InlineHtml("<Echo>".to_string()), 0..6),
        (MdEvent::InlineHtml("not a tag".to_string()), 6..15),
        (MdEvent::InlineHtml("<Other>".to_string()), 15..22),
        (MdEvent::InlineHtml("</Other>".to_string()), 22..30),
        (MdEvent::InlineHtml("</Echo>".to_string()), 30..37),
        text_event("after"),
    ];
    let Node::Fragment(children) = render_markdown(CX, &events).unwrap() else { panic!() };
    assert_eq!(children.len(), 2);
    let Node::Props(_, inside) = &children[0] else { panic!("{children:?}") };
    let errors: Vec<String> = inside.errors().iter().map(|e| e.text()).collect();
    assert_eq!(
        errors,
        vec![
            "syntax error: expected <",
            "Custom component `Echo` failed: `expected end of component`",
            "Custom component `Echo` failed: `expected end of component`",
        ]
    );
    assert_eq!(children[1], clickable_span("after", 0..0));
}

#[test]
fn closing_tag_inside_a_container_does_not_close_the_component() {
    let source = "<Echo>\n\ntext </Echo>\n\nmore";
    let Node::Fragment(children) = render(source) else { panic!() };
    assert_eq!(children.len(), 1);
    let Node::Props(_, inside) = children[0].only() else { panic!("{children:?}") };
    let errors = inside.errors();
    assert_eq!(errors.len(), 1);
    assert_eq!(
        errors[0].text(),
        "Custom component `</Echo>` failed: `please make sure there is a newline before the end of your component`"
    );
    assert!(inside.text().ends_with("more"));
}

#[test]
fn body_of_a_component_ends_with_the_container_around_it() {
    let events = vec![
        start(MdTag::BlockQuote),
        (MdEvent::InlineHtml("<Echo>".to_string()), 0..6),
        text_event("inside"),
        end(MdTagEnd::BlockQuote),
        text_event("outside"),
    ];
    let mut renderer = Renderer::new(CX, &events);
    let quote = renderer.next().unwrap().unwrap();
    assert_eq!(renderer.position(), 4);
    let Node::Element { kind: HtmlElement::BlockQuote, inside, .. } = quote else { panic!() };
    let Node::Fragment(parts) = *inside else { panic!() };
    assert_eq!(parts.len(), 1);
    let Node::Props(_, body) = &parts[0] else { panic!("{parts:?}") };
    assert_eq!(body.text(), "inside");
    assert_eq!(renderer.next().unwrap().unwrap().text(), "outside");
}

#[test]
fn footnote_reference_is_not_implemented() {
    let events = vec![(MdEvent::FootnoteReference("1".to_string()), 0..4)];
    let Node::Fragment(children) = render_markdown(CX, &events).unwrap() else { panic!() };
    assert!(children[0].is_error());
    assert_eq!(children[0].text(), "`footnotes refs`: not implemented");
}

#[test]
fn headings_and_ordered_lists_keep_their_numbers() {
    let Node::Fragment(children) = render("### Title\n\n7. seven\n8. eight\n") else {
        panic!()
    };
    assert!(matches!(&children[0], Node::Element { kind: HtmlElement::Heading(3), .. }));
    assert!(matches!(&children[1], Node::Element { kind: HtmlElement::Ol(7), .. }));
    let mut items = Vec::new();
    children[1].find(HtmlElement::Li, &mut items);
    assert_eq!(items.len(), 2);
    let events = vec![start(MdTag::List(Some(u64::MAX))), end(MdTagEnd::List(true))];
    let Node::Fragment(children) = render_markdown(CX, &events).unwrap() else { panic!() };
    assert!(matches!(&children[0], Node::Element { kind: HtmlElement::Ol(-1), .. }));
}

#[test]
fn a_document_with_every_construct_is_rendered() {
    let source = "---\ntitle: all\n---\n\n# Heading *one*\n\nA paragraph with **bold**, ~~struck~~, `code`, a [link](http://x.y), an\nimage ![alt](a.png), a [[wiki link]] and math $a+b$.\nSecond line  \nafter a hard break.\n\n> A quote\n>\n> - item one\n> - [ ] task\n>   1. nested\n>   2. list\n\n| a | b |\n|---|:-:|\n| 1 | 2 |\n| 3 | 4 |\n\n```rust\nfn main() {}\n```\n\n    indented code\n\n<div class=\"x\">\n<p>raw</p>\n</div>\n\n<X/>\n\n<Echo a=\"1\">\n\ninside *the* component\n\n</Echo>\n\n$$\n\\sum_i x_i\n$$\n\n***\n\nlast <b>inline</b> words\n";
    let view = render(source);
    let Node::Fragment(children) = &view else { panic!() };
    assert!(view.errors().is_empty(), "{:?}", view.errors());
    let text = view.text();
    for expected in [
        "Heading one",
        "bold",
        "struck",
        "code",
        "link",
        "wiki link",
        "after a hard break.",
        "A quote",
        "item one",
        "nested",
        "<p>raw</p>",
        "Content",
        "inside the component",
        "last <b>inline</b> words",
    ] {
        assert!(text.contains(expected), "{expected}: {text}");
    }
    let count = |kind: HtmlElement| {
        let mut found = Vec::new();
        view.find(kind, &mut found);
        found.len()
    };
    assert_eq!(count(HtmlElement::Heading(1)), 1);
    assert_eq!(count(HtmlElement::BlockQuote), 1);
    assert_eq!(count(HtmlElement::Ul), 1);
    assert_eq!(count(HtmlElement::Ol(1)), 1);
    assert_eq!(count(HtmlElement::Li), 4);
    assert_eq!(count(HtmlElement::Table), 1);
    assert_eq!(count(HtmlElement::Thead), 1);
    assert_eq!(count(HtmlElement::Trow), 2);
    assert_eq!(count(HtmlElement::Tcell), 6);
    assert_eq!(count(HtmlElement::Bold), 1);
    assert_eq!(count(HtmlElement::StrikeThrough), 1);
    assert_eq!(count(HtmlElement::Italics), 2);
    assert!(matches!(children.last().unwrap(), Node::Element { kind: HtmlElement::Paragraph, .. }));
    let mut echoes = Vec::new();
    view.echoes(&mut echoes);
    assert_eq!(echoes.len(), 1);
    let Node::Props(attributes, _) = &echoes[0] else { panic!() };
    assert_eq!(attributes[0].0, "a");
    assert_eq!(&source[attributes[0].2.clone()], "1");
}

#[test]
fn every_source_is_rendered_without_a_breach() {
    let sources = [
        "",
        "\n",
        "<X>",
        "</X>",
        "<X>\n",
        "<X",
        "<Echo>\n\n> quote\n\n</Echo>\n\n</Echo>",
        "> <Echo>\n>\n> inside\n\noutside </Echo>",
        "- <X/>\n- <Echo>\n  a\n- b</Echo>",
        "| <X/> | <Echo> |\n|--|--|\n| </Echo> | c |\n",
        "[a <X/> b](u)",
        "*<Echo>a*b</Echo>",
        "<Echo>a</Echo><Echo>b</Echo>",
        "<Echo><Echo>a</Echo></Echo>",
        "<Broken>\n\ntext\n\n</Broken>",
        "```\n<X/>\n```",
        "<!-- comment -->\n\n<?php ?>\n\n<div>\n<X/>\n</div>\n",
        "[^1]\n\n[^1]: note",
        "$$\n\\frac{1}{\n$$ and $\\badcommand$",
        "a\\\nb\n***\n- [x] t\n",
    ];
    for source in sources {
        let view = markdown_component(CX, source);
        assert!(view.is_ok(), "{source:?}: {view:?}");
    }
}

#[test]
fn block_of_raw_html_is_one_construct() {
    let line = |s: &str| (MdEvent::Html(s.to_string()), 0..0);
    let events = vec![
        start(MdTag::HtmlBlock),
        line("<div>\n"),
        line("<p>raw</p>\n"),
        line("</div>\n"),
        end(MdTagEnd::HtmlBlock),
        text_event("after"),
    ];
    let mut renderer = Renderer::new(CX, &events);
    let block = renderer.next().unwrap().unwrap();
    assert_eq!(renderer.position(), 5);
    let raw = |s: &str| Node::RawHtml { html: s.to_string(), classes: vec![], click: None };
    assert_eq!(block, Node::Fragment(vec![raw("<div>\n"), raw("<p>raw</p>\n"), raw("</div>\n")]));
    assert_eq!(renderer.next().unwrap().unwrap().text(), "after");
    assert_eq!(renderer.next(), Ok(None));
}

#[test]
fn end_of_a_block_of_raw_html_ends_its_scan() {
    let events = vec![end(MdTagEnd::HtmlBlock), text_event("after")];
    let mut renderer = Renderer::new(CX, &events);
    renderer.end_tag = Some(MdTagEnd::HtmlBlock);
    assert_eq!(renderer.next(), Ok(None));
    assert_eq!(renderer.position(), 1);
    assert_eq!(render_events(CX, &events), Err(StreamError::UnexpectedClosingTag));
    let events = vec![start(MdTag::HtmlBlock), end(MdTagEnd::Paragraph)];
    assert_eq!(render_events(CX, &events), Err(StreamError::WrongClosingTag));
}

#[test]
fn block_that_opens_a_component_reaches_to_the_block_that_closes_it() {
    let line = |s: &str| (MdEvent::Html(s.to_string()), 0..0);
    let events = vec![
        start(MdTag::HtmlBlock),
        line("<Echo>\n"),
        line("same block\n"),
        end(MdTagEnd::HtmlBlock),
        start(MdTag::Paragraph),
        text_event("inside"),
        end(MdTagEnd::Paragraph),
        start(MdTag::HtmlBlock),
        line("</Echo>\n"),
        line("not shown\n"),
        end(MdTagEnd::HtmlBlock),
        text_event("after"),
    ];
    let mut renderer = Renderer::new(CX, &events);
    let block = renderer.next().unwrap().unwrap();
    assert_eq!(renderer.position(), 11);
    let Node::Props(_, body) = block.only() else { panic!("{block:?}") };
    let Node::Fragment(children) = &**body else { panic!() };
    assert_eq!(children.len(), 2);
    assert!(children[0].is_error());
    assert_eq!(
        children[0].text(),
        "Custom component `same block\n` failed: `please make sure there is a newline before the end of your component`"
    );
    assert_eq!(children[1].text(), "inside");
    assert_eq!(renderer.next().unwrap().unwrap().text(), "after");
}

#[test]
fn children_are_one_fragment_up_to_the_matching_end() {
    let events = vec![
        text_event("a"),
        start(MdTag::Strong),
        text_event("b"),
        end(MdTagEnd::Strong),
        text_event("c"),
        end(MdTagEnd::Emphasis),
        text_event("rest"),
    ];
    let mut renderer = Renderer::new(CX, &events);
    let view = renderer.children(&MdTag::Emphasis).unwrap();
    assert_eq!(renderer.position(), 6);
    assert_eq!(renderer.end_tag, None);
    assert_eq!(renderer.current_component, None);
    let Node::Fragment(children) = view else { panic!() };
    assert_eq!(children.len(), 3);
    assert_eq!(children[0], clickable_span("a", 0..0));
    assert_eq!(children[1], plain(HtmlElement::Bold, vec![clickable_span("b", 0..0)]));
    assert_eq!(children[2], clickable_span("c", 0..0));
    assert_eq!(renderer.next().unwrap().unwrap().text(), "rest");
    assert_eq!(renderer.next(), Ok(None));
}

#[test]
fn table_is_rendered_with_head_and_row_counted_from_nought() {
    let cells = |wrapper: MdTag, closing: MdTagEnd| {
        vec![
            start(wrapper),
            start(MdTag::TableCell),
            text_event("x"),
            end(MdTagEnd::TableCell),
            start(MdTag::TableCell),
            text_event("y"),
            end(MdTagEnd::TableCell),
            end(closing),
        ]
    };
    let table = MdTag::Table(vec![Alignment::Left, Alignment::Right]);
    let mut events = cells(MdTag::TableHead, MdTagEnd::TableHead);
    events.extend(cells(MdTag::TableRow, MdTagEnd::TableRow));
    events.push(end(MdTagEnd::Table));
    events.push(text_event("rest"));
    let mut renderer = Renderer::new(CX, &events);
    let view = renderer.render_tag(&table, 0..0).unwrap().ok().unwrap();
    assert_eq!(renderer.position(), 17);
    assert!(matches!(view, Node::Element { kind: HtmlElement::Table, .. }));
    let mut found = Vec::new();
    view.find(HtmlElement::Tcell, &mut found);
    let styles: Vec<Option<String>> = found
        .iter()
        .map(|c| match c {
            Node::Element { style, .. } => style.clone(),
            _ => None,
        })
        .collect();
    assert_eq!(
        styles,
        vec![
            Some("text-align: left".to_string()),
            Some("text-align: right".to_string()),
            Some("text-align: left".to_string()),
            Some("text-align: right".to_string()),
        ]
    );
    assert_eq!(renderer.next().unwrap().unwrap().text(), "rest");
}

#[test]
fn container_that_is_not_rendered_is_taken_whole() {
    let unsupported = vec![
        (MdTag::FootnoteDefinition, MdTagEnd::FootnoteDefinition),
        (MdTag::DefinitionList, MdTagEnd::DefinitionList),
        (MdTag::DefinitionListTitle, MdTagEnd::DefinitionListTitle),
        (MdTag::DefinitionListDefinition, MdTagEnd::DefinitionListDefinition),
        (MdTag::Superscript, MdTagEnd::Superscript),
        (MdTag::Subscript, MdTagEnd::Subscript),
    ];
    for (tag, closing) in unsupported {
        let events = vec![
            start(MdTag::Emphasis),
            text_event("inside"),
            end(MdTagEnd::Emphasis),
            end(closing),
            text_event("rest"),
        ];
        let mut renderer = Renderer::new(CX, &events);
        let rendered = renderer.render_tag(&tag, 0..0).unwrap();
        assert!(matches!(rendered, Err(HtmlError::NotImplemented(_))), "{tag:?}");
        assert_eq!(renderer.position(), 4, "{tag:?}");
        assert_eq!(renderer.next().unwrap().unwrap().text(), "rest");
        assert_eq!(renderer.next(), Ok(None));
    }
}
