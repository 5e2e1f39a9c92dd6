use web_framework_markdown::classify::{classify, Classified};
use web_framework_markdown::component::CustomHtmlTag;
use web_framework_markdown::context::{
    math_style_sheet_link, ComponentCreationError, Context, ElementAttributes, HtmlElement,
    LinkDescription, MarkdownProps, MdComponentAttribute, MdComponentProps,
};
use web_framework_markdown::error::HtmlError;
use web_framework_markdown::event::{
    align_string, as_closing_tag, Alignment, CodeBlockKind, MdEvent, MdTag, MdTagEnd,
};
use web_framework_markdown::highlight::highlight_code;
use web_framework_markdown::markdown::harden_breaks;
use web_framework_markdown::event::Math;
use pulldown_cmark::Options;
use web_framework_markdown::parser::{
    DEFAULT_PARSE_OPTIONS, ENABLE_GFM, ENABLE_MATH, ENABLE_STRIKETHROUGH, ENABLE_TABLES,
    ENABLE_TASKLISTS, ENABLE_WIKILINKS, ENABLE_YAML_STYLE_METADATA_BLOCKS,
};
use web_framework_markdown::parser::{
    convert_events, event_of_parts, formula_mode, parse, tag_end_of_parts, tag_of_parts,
    EventKind,
};
use web_framework_markdown::range::range_within;
use web_framework_markdown::registry::CustomComponents;
use web_framework_markdown::render::convert_attributes;
use web_framework_markdown::text::{
    byte_len, char_is_whitespace, contains_whitespace, first_char, split_once, str_eq, to_chars,
    trim, trim_end, trim_start,
};

#[test]
fn failures_read_as_documented() {
    assert_eq!(HtmlError::Math.to_string(), "invalid math");
    assert_eq!(HtmlError::not_implemented("x").to_string(), "`x`: not implemented");
    assert_eq!(
        HtmlError::component("A", "b").to_string(),
        "Custom component `A` failed: `b`"
    );
    assert_eq!(HtmlError::syntax("s").to_string(), "syntax error: s");
    assert_eq!(HtmlError::Link("l".to_string()).to_string(), "invalid link: l");
    assert_eq!(HtmlError::Unavailable("u".to_string()).to_string(), "u");
    assert_eq!(
        HtmlError::component("A", "b"),
        HtmlError::CustomComponent { name: "A".to_string(), msg: "b".to_string() }
    );
}

#[test]
fn whitespace_is_the_unicode_property() {
    let white = [
        '\t', '\n', '\u{b}', '\u{c}', '\r', ' ', '\u{85}', '\u{a0}', '\u{1680}', '\u{2000}',
        '\u{2005}', '\u{200a}', '\u{2028}', '\u{2029}', '\u{202f}', '\u{205f}', '\u{3000}',
    ];
    for c in white {
        assert!(char_is_whitespace(c), "{c:?}");
    }
    for c in ['a', '\u{8}', '\u{e}', '\u{200b}', '\u{180e}', '\u{feff}', '<'] {
        assert!(!char_is_whitespace(c), "{c:?}");
    }
    for code in 0..0x3100u32 {
        if let Some(c) = char::from_u32(code) {
            assert_eq!(char_is_whitespace(c), c.is_whitespace(), "{c:?}");
        }
    }
}

#[test]
fn slicing_agrees_with_the_standard_library() {
    for s in ["", " ", "a", "  a b \n", "\u{a0}é=ü\u{3000}", "a=b=c", "=", "\t\t"] {
        assert_eq!(trim_start(s), s.trim_start());
        assert_eq!(trim_end(s), s.trim_end());
        assert_eq!(trim(s), s.trim());
        assert_eq!(split_once(s, '='), s.split_once('='));
        assert_eq!(first_char(s), s.chars().next());
        assert_eq!(to_chars(s), s.chars().collect::<Vec<_>>());
        assert_eq!(byte_len(s), s.len());
        assert_eq!(contains_whitespace(s), s.contains(char::is_whitespace));
        assert!(str_eq(s, &s.to_string()));
    }
    assert!(!str_eq("a", "b"));
    assert!(!str_eq("a", "ab"));
}

#[test]
fn closing_tags_and_styles() {
    assert_eq!(as_closing_tag(&MdTag::Paragraph), MdTagEnd::Paragraph);
    assert_eq!(as_closing_tag(&MdTag::Heading(3)), MdTagEnd::Heading(3));
    assert_eq!(as_closing_tag(&MdTag::List(Some(4))), MdTagEnd::List(true));
    assert_eq!(as_closing_tag(&MdTag::List(None)), MdTagEnd::List(false));
    assert_eq!(as_closing_tag(&MdTag::Subscript), MdTagEnd::Subscript);
    assert_eq!(as_closing_tag(&MdTag::Superscript), MdTagEnd::Superscript);
    assert_eq!(
        as_closing_tag(&MdTag::CodeBlock(CodeBlockKind::Indented)),
        MdTagEnd::CodeBlock
    );
    assert_eq!(as_closing_tag(&MdTag::Table(vec![])), MdTagEnd::Table);
    assert_eq!(align_string(Alignment::Left), "text-align: left");
    assert_eq!(align_string(Alignment::Right), "text-align: right");
    assert_eq!(align_string(Alignment::Center), "text-align: center");
    assert_eq!(align_string(Alignment::Unset), "");
}

#[test]
fn style_sheet_of_mathematics() {
    let link = math_style_sheet_link();
    assert_eq!(link.rel, "stylesheet");
    assert_eq!(link.href, "https://cdn.jsdelivr.net/npm/katex@0.16.7/dist/katex.min.css");
    assert_eq!(link.crossorigin, "anonymous");
    assert!(link.integrity.starts_with("sha384-"));
}

#[test]
fn attribute_round_trip() {
    let source = " <Place test=\"abc\"/>";
    let tag = &source[1..];
    let CustomHtmlTag::Inline(call) = CustomHtmlTag::from_str(tag, 1).unwrap() else { panic!() };
    assert_eq!(call.name, "Place");
    let props = MdComponentProps { attributes: convert_attributes(&call).unwrap(), children: () };
    let attribute = props.get_attribute("test").unwrap();
    assert_eq!(attribute.value, "abc");
    assert_eq!(attribute.range, 14..17);
    assert_eq!(&source[attribute.range.clone()], "abc");
    assert_eq!(props.get("test"), Some("abc".to_string()));
    assert_eq!(props.get("Test"), None);
    assert_eq!(props.get_attribute("other"), None);
    assert_eq!(props.get_required("test"), Ok("abc".to_string()));
    assert_eq!(
        props.get_required("size"),
        Err("please provide the attribute `size`".to_string())
    );
}

#[test]
fn attributes_beyond_the_largest_address() {
    let tag = "<A k=\"v\"/>";
    let CustomHtmlTag::Inline(call) = CustomHtmlTag::from_str(tag, usize::MAX - 3).unwrap()
    else {
        panic!()
    };
    assert_eq!(convert_attributes(&call), None);
    let CustomHtmlTag::Inline(call) = CustomHtmlTag::from_str(tag, usize::MAX - tag.len()).unwrap()
    else {
        panic!()
    };
    let attributes = convert_attributes(&call).unwrap();
    assert_eq!(attributes[0].1.range, usize::MAX - 4..usize::MAX - 3);
}

#[test]
fn first_attribute_of_a_name_is_found() {
    let attribute = |v: &str| MdComponentAttribute::new(v.to_string(), 0..1);
    let props = MdComponentProps {
        attributes: vec![
            ("a".to_string(), attribute("1")),
            ("b".to_string(), attribute("2")),
            ("a".to_string(), attribute("3")),
        ],
        children: (),
    };
    assert_eq!(props.get("a"), Some("1".to_string()));
    assert_eq!(props.get("b"), Some("2".to_string()));
    assert_eq!(attribute("x").clone(), attribute("x"));
}

#[test]
fn registry_finds_exact_names() {
    let mut store: CustomComponents<u32> = CustomComponents::new();
    assert_eq!(store.get("A"), None);
    assert!(!store.contains("A"));
    store.register("A", 1);
    store.register("a", 2);
    assert_eq!(store.get("A"), Some(&1));
    assert_eq!(store.get("a"), Some(&2));
    assert_eq!(store.get("B"), None);
    store.register("A", 3);
    assert_eq!(store.get("A"), Some(&3));
    assert_eq!(store.get("a"), Some(&2));
    assert!(store.contains("a"));
    assert!(!store.contains(" a"));
}

#[test]
fn failure_of_a_component_from_any_value() {
    let error: ComponentCreationError = "text".into();
    assert_eq!(error.0, "\"text\"");
    let error: ComponentCreationError = 5.into();
    assert_eq!(error.0, "5");
    assert_eq!(ComponentCreationError::new("m".to_string()).0, "m");
}

#[test]
fn soft_breaks_are_made_hard() {
    let mut events = vec![
        (MdEvent::Text("a".to_string()), 0..1),
        (MdEvent::SoftBreak, 1..2),
        (MdEvent::HardBreak, 2..3),
        (MdEvent::SoftBreak, 3..4),
    ];
    harden_breaks(&mut events);
    assert_eq!(
        events,
        vec![
            (MdEvent::Text("a".to_string()), 0..1),
            (MdEvent::HardBreak, 1..2),
            (MdEvent::HardBreak, 2..3),
            (MdEvent::HardBreak, 3..4),
        ]
    );
}

#[test]
fn highlighting_needs_a_fence_a_language_and_a_theme() {
    let rust = CodeBlockKind::Fenced("rust".to_string());
    assert_eq!(highlight_code(None, "let x = 1;", &CodeBlockKind::Indented), None);
    assert_eq!(highlight_code(None, "x", &CodeBlockKind::Fenced("nolanguage".to_string())), None);
    assert_eq!(highlight_code(Some("no such theme"), "let x = 1;", &rust), None);
    let light = highlight_code(None, "let x = 1;", &rust).unwrap();
    assert!(light.starts_with("<pre style=\"background-color:#eff1f5;\">"));
    assert!(light.ends_with("</pre>\n"));
    assert_ne!(light, "let x = 1;");
    assert_eq!(highlight_code(Some("base16-ocean.light"), "let x = 1;", &rust), Some(light.clone()));
    let dark = highlight_code(Some("base16-ocean.dark"), "let x = 1;", &rust).unwrap();
    assert_ne!(dark, light);
}

#[test]
fn parser_hands_over_balanced_events() {
    let events = parse("# Title\n\n- [x] *done*\n\n`code` and $x$\n", None).unwrap();
    let kinds: Vec<&MdEvent> = events.iter().map(|e| &e.0).collect();
    assert_eq!(kinds[0], &MdEvent::Start(MdTag::Heading(1)));
    assert_eq!(kinds[1], &MdEvent::Text("Title".to_string()));
    assert_eq!(kinds[2], &MdEvent::End(MdTagEnd::Heading(1)));
    assert_eq!(kinds[3], &MdEvent::Start(MdTag::List(None)));
    assert_eq!(kinds[4], &MdEvent::Start(MdTag::Item));
    assert_eq!(kinds[5], &MdEvent::TaskListMarker(true));
    assert_eq!(kinds[6], &MdEvent::Start(MdTag::Emphasis));
    assert!(kinds.contains(&&MdEvent::Code("code".to_string())));
    assert!(matches!(kinds[kinds.len() - 2], MdEvent::InlineMath(m) if m.content == "x" && m.markup.is_some()));
    assert_eq!(events[1].1, 2..7);
    let plain = parse("~~a~~ $x$", Some(pulldown_cmark::Options::empty())).unwrap();
    assert_eq!(plain[1].0, MdEvent::Text("~~a~~ $x$".to_string()));
}

#[derive(Clone, Copy)]
struct Names;

impl Context for Names {
    type View = ();
    type Handler = ();

    fn props(self) -> MarkdownProps {
        MarkdownProps { hard_line_breaks: false, wikilinks: false, parse_options: None, theme: None }
    }

    fn set_frontmatter(self, _frontmatter: String) {}

    fn render_links(self, _link: LinkDescription<()>) -> Result<(), String> {
        Ok(())
    }

    fn make_md_handler(self, _position: std::ops::Range<usize>, _stop_propagation: bool) {}

    fn el_with_attributes(self, _e: HtmlElement, _inside: (), _attributes: ElementAttributes<()>) {}

    fn el_span_with_inner_html(self, _inner_html: String, _attributes: ElementAttributes<()>) {}

    fn el_hr(self, _attributes: ElementAttributes<()>) {}

    fn el_br(self) {}

    fn el_fragment(self, _children: Vec<()>) {}

    fn el_a(self, _children: (), _href: String) {}

    fn el_img(self, _src: String, _alt: String) {}

    fn el_text(self, _text: &str) {}

    fn el_input_checkbox(self, _checked: bool, _attributes: ElementAttributes<()>) {}

    fn has_custom_component(self, name: &str) -> bool {
        name == "Known" || name == "my-known" || name == ""
    }

    fn render_custom_component(
        self,
        _name: &str,
        _input: MdComponentProps<()>,
    ) -> Result<(), ComponentCreationError> {
        Ok(())
    }

    fn has_custom_links(self) -> bool {
        false
    }
}

#[test]
fn only_registered_custom_tags_call_components() {
    assert_eq!(classify(Names, "<div>", 0), Classified::Raw);
    assert_eq!(classify(Names, "<Unknown/>", 0), Classified::Raw);
    assert_eq!(classify(Names, "<known/>", 0), Classified::Raw);
    assert_eq!(classify(Names, "text", 0), Classified::Raw);
    assert_eq!(classify(Names, "</Known>", 0), Classified::End("Known"));
    assert_eq!(classify(Names, "</Unknown>", 0), Classified::Raw);
    assert!(matches!(classify(Names, "<Known/>\n", 4), Classified::Inline(c) if c.range_offset == 4));
    assert!(matches!(classify(Names, "<my-known a=\"1\">", 0), Classified::Start(c) if c.name == "my-known"));
    assert_eq!(
        classify(Names, "<Known a>", 0),
        Classified::Malformed {
            name: "Known".to_string(),
            message: "expected equal sign after attribute name".to_string()
        }
    );
    assert_eq!(classify(Names, "<Unknown a>", 0), Classified::Raw);
}

#[test]
fn range_of_an_inner_text_from_addresses() {
    assert_eq!(range_within(100, 5, 100, 5), Some(0..5));
    assert_eq!(range_within(100, 5, 101, 3), Some(1..4));
    assert_eq!(range_within(100, 5, 105, 0), Some(5..5));
    assert_eq!(range_within(100, 5, 99, 1), None);
    assert_eq!(range_within(100, 5, 103, 3), None);
    assert_eq!(range_within(0, usize::MAX, usize::MAX, 1), None);
    assert_eq!(range_within(0, usize::MAX, usize::MAX - 1, 1), Some(usize::MAX - 1..usize::MAX));
}

#[test]
fn end_of_a_container_from_the_two_tables() {
    assert_eq!(tag_end_of_parts(Some(MdTagEnd::Item), None), Some(MdTagEnd::Item));
    assert_eq!(tag_end_of_parts(None, Some(MdTagEnd::Link)), Some(MdTagEnd::Link));
    assert_eq!(tag_end_of_parts(Some(MdTagEnd::Item), Some(MdTagEnd::Link)), Some(MdTagEnd::Item));
    assert_eq!(tag_end_of_parts(None, None), None);
}

#[test]
fn container_from_its_end_and_what_its_start_holds() {
    let link = || Some((pulldown_cmark::LinkType::Inline, "u".to_string(), "t".to_string()));
    assert_eq!(tag_of_parts(MdTagEnd::Paragraph, None, None, None, None), Some(MdTag::Paragraph));
    assert_eq!(
        tag_of_parts(MdTagEnd::Paragraph, Some("x".to_string()), Some(1), Some(vec![]), link()),
        Some(MdTag::Paragraph)
    );
    assert_eq!(tag_of_parts(MdTagEnd::Heading(2), None, None, None, None), Some(MdTag::Heading(2)));
    assert_eq!(
        tag_of_parts(MdTagEnd::CodeBlock, Some("rust".to_string()), None, None, None),
        Some(MdTag::CodeBlock(CodeBlockKind::Fenced("rust".to_string())))
    );
    assert_eq!(
        tag_of_parts(MdTagEnd::CodeBlock, None, None, None, None),
        Some(MdTag::CodeBlock(CodeBlockKind::Indented))
    );
    assert_eq!(tag_of_parts(MdTagEnd::List(true), None, Some(3), None, None), Some(MdTag::List(Some(3))));
    assert_eq!(tag_of_parts(MdTagEnd::List(false), None, None, None, None), Some(MdTag::List(None)));
    assert_eq!(tag_of_parts(MdTagEnd::List(true), None, None, None, None), None);
    assert_eq!(tag_of_parts(MdTagEnd::List(false), None, Some(3), None, None), None);
    assert_eq!(
        tag_of_parts(MdTagEnd::Table, None, None, Some(vec![Alignment::Left]), None),
        Some(MdTag::Table(vec![Alignment::Left]))
    );
    assert_eq!(tag_of_parts(MdTagEnd::Table, None, None, None, None), None);
    assert_eq!(
        tag_of_parts(MdTagEnd::Link, None, None, None, link()),
        Some(MdTag::Link {
            link_type: pulldown_cmark::LinkType::Inline,
            dest_url: "u".to_string(),
            title: "t".to_string()
        })
    );
    assert_eq!(
        tag_of_parts(MdTagEnd::Image, None, None, None, link()),
        Some(MdTag::Image {
            link_type: pulldown_cmark::LinkType::Inline,
            dest_url: "u".to_string(),
            title: "t".to_string()
        })
    );
    assert_eq!(tag_of_parts(MdTagEnd::Link, None, None, None, None), None);
    assert_eq!(tag_of_parts(MdTagEnd::Image, None, None, None, None), None);
    for end in [
        MdTagEnd::BlockQuote,
        MdTagEnd::HtmlBlock,
        MdTagEnd::Item,
        MdTagEnd::FootnoteDefinition,
        MdTagEnd::DefinitionList,
        MdTagEnd::DefinitionListTitle,
        MdTagEnd::DefinitionListDefinition,
        MdTagEnd::TableHead,
        MdTagEnd::TableRow,
        MdTagEnd::TableCell,
        MdTagEnd::Emphasis,
        MdTagEnd::Strong,
        MdTagEnd::Strikethrough,
        MdTagEnd::Superscript,
        MdTagEnd::Subscript,
        MdTagEnd::MetadataBlock,
    ] {
        let tag = tag_of_parts(end, None, None, None, None).unwrap();
        assert_eq!(as_closing_tag(&tag), end);
    }
}

#[test]
fn event_from_its_kind_and_what_it_holds() {
    let text = || Some("t".to_string());
    let markup = || Some("m".to_string());
    let plain = |kind| event_of_parts(kind, text(), Some(true), Some(MdTag::Item), Some(MdTagEnd::Item), markup());
    assert_eq!(plain(EventKind::Start), Some(MdEvent::Start(MdTag::Item)));
    assert_eq!(plain(EventKind::End), Some(MdEvent::End(MdTagEnd::Item)));
    assert_eq!(plain(EventKind::Text), Some(MdEvent::Text("t".to_string())));
    assert_eq!(plain(EventKind::Code), Some(MdEvent::Code("t".to_string())));
    assert_eq!(plain(EventKind::Html), Some(MdEvent::Html("t".to_string())));
    assert_eq!(plain(EventKind::InlineHtml), Some(MdEvent::InlineHtml("t".to_string())));
    assert_eq!(
        plain(EventKind::FootnoteReference),
        Some(MdEvent::FootnoteReference("t".to_string()))
    );
    assert_eq!(
        plain(EventKind::InlineMath),
        Some(MdEvent::InlineMath(Math { content: "t".to_string(), markup: markup() }))
    );
    assert_eq!(
        plain(EventKind::DisplayMath),
        Some(MdEvent::DisplayMath(Math { content: "t".to_string(), markup: markup() }))
    );
    assert_eq!(plain(EventKind::SoftBreak), Some(MdEvent::SoftBreak));
    assert_eq!(plain(EventKind::HardBreak), Some(MdEvent::HardBreak));
    assert_eq!(plain(EventKind::Rule), Some(MdEvent::Rule));
    assert_eq!(plain(EventKind::TaskListMarker), Some(MdEvent::TaskListMarker(true)));
    let bare = |kind| event_of_parts(kind, None, None, None, None, None);
    for kind in [
        EventKind::Start,
        EventKind::End,
        EventKind::Text,
        EventKind::Code,
        EventKind::Html,
        EventKind::InlineHtml,
        EventKind::FootnoteReference,
        EventKind::InlineMath,
        EventKind::DisplayMath,
        EventKind::TaskListMarker,
    ] {
        assert_eq!(bare(kind), None);
    }
    assert_eq!(bare(EventKind::SoftBreak), Some(MdEvent::SoftBreak));
    assert_eq!(bare(EventKind::HardBreak), Some(MdEvent::HardBreak));
    assert_eq!(bare(EventKind::Rule), Some(MdEvent::Rule));
    assert_eq!(
        event_of_parts(EventKind::InlineMath, text(), None, None, None, None),
        Some(MdEvent::InlineMath(Math { content: "t".to_string(), markup: None }))
    );
}

#[test]
fn only_formulas_are_typeset() {
    assert_eq!(formula_mode(EventKind::InlineMath), Some(false));
    assert_eq!(formula_mode(EventKind::DisplayMath), Some(true));
    assert_eq!(formula_mode(EventKind::Text), None);
    assert_eq!(formula_mode(EventKind::Code), None);
    assert_eq!(formula_mode(EventKind::Start), None);
}

#[test]
fn events_of_the_parser_are_converted_one_for_one() {
    let raw = vec![
        (pulldown_cmark::Event::Start(pulldown_cmark::Tag::List(Some(4))), 0..9),
        (pulldown_cmark::Event::Start(pulldown_cmark::Tag::Item), 0..9),
        (pulldown_cmark::Event::TaskListMarker(false), 3..6),
        (pulldown_cmark::Event::Text("t".into()), 7..8),
        (pulldown_cmark::Event::End(pulldown_cmark::TagEnd::Item), 0..9),
        (pulldown_cmark::Event::End(pulldown_cmark::TagEnd::List(true)), 0..9),
        (
            pulldown_cmark::Event::Start(pulldown_cmark::Tag::Table(vec![
                pulldown_cmark::Alignment::None,
                pulldown_cmark::Alignment::Center,
            ])),
            9..20,
        ),
        (pulldown_cmark::Event::End(pulldown_cmark::TagEnd::Table), 9..20),
        (
            pulldown_cmark::Event::Start(pulldown_cmark::Tag::Heading {
                level: pulldown_cmark::HeadingLevel::H5,
                id: None,
                classes: vec![],
                attrs: vec![],
            }),
            20..30,
        ),
        (pulldown_cmark::Event::End(pulldown_cmark::TagEnd::Heading(pulldown_cmark::HeadingLevel::H5)), 20..30),
        (
            pulldown_cmark::Event::Start(pulldown_cmark::Tag::CodeBlock(
                pulldown_cmark::CodeBlockKind::Fenced("rust".into()),
            )),
            30..40,
        ),
        (
            pulldown_cmark::Event::Start(pulldown_cmark::Tag::Image {
                link_type: pulldown_cmark::LinkType::Autolink,
                dest_url: "u".into(),
                title: "t".into(),
                id: "i".into(),
            }),
            40..50,
        ),
        (pulldown_cmark::Event::SoftBreak, 50..51),
    ];
    let events = convert_events(&raw).unwrap();
    assert_eq!(
        events,
        vec![
            (MdEvent::Start(MdTag::List(Some(4))), 0..9),
            (MdEvent::Start(MdTag::Item), 0..9),
            (MdEvent::TaskListMarker(false), 3..6),
            (MdEvent::Text("t".to_string()), 7..8),
            (MdEvent::End(MdTagEnd::Item), 0..9),
            (MdEvent::End(MdTagEnd::List(true)), 0..9),
            (MdEvent::Start(MdTag::Table(vec![Alignment::Unset, Alignment::Center])), 9..20),
            (MdEvent::End(MdTagEnd::Table), 9..20),
            (MdEvent::Start(MdTag::Heading(5)), 20..30),
            (MdEvent::End(MdTagEnd::Heading(5)), 20..30),
            (MdEvent::Start(MdTag::CodeBlock(CodeBlockKind::Fenced("rust".to_string()))), 30..40),
            (
                MdEvent::Start(MdTag::Image {
                    link_type: pulldown_cmark::LinkType::Autolink,
                    dest_url: "u".to_string(),
                    title: "t".to_string()
                }),
                40..50
            ),
            (MdEvent::SoftBreak, 50..51),
        ]
    );
    assert_eq!(convert_events(&vec![]), Some(vec![]));
}

#[test]
fn default_extensions_are_those_of_the_parser() {
    assert_eq!(ENABLE_TABLES, Options::ENABLE_TABLES.bits());
    assert_eq!(ENABLE_STRIKETHROUGH, Options::ENABLE_STRIKETHROUGH.bits());
    assert_eq!(ENABLE_TASKLISTS, Options::ENABLE_TASKLISTS.bits());
    assert_eq!(
        ENABLE_YAML_STYLE_METADATA_BLOCKS,
        Options::ENABLE_YAML_STYLE_METADATA_BLOCKS.bits()
    );
    assert_eq!(ENABLE_MATH, Options::ENABLE_MATH.bits());
    assert_eq!(ENABLE_GFM, Options::ENABLE_GFM.bits());
    assert_eq!(ENABLE_WIKILINKS, Options::ENABLE_WIKILINKS.bits());
    assert_eq!(DEFAULT_PARSE_OPTIONS, 0x8c9a);
    let named = Options::ENABLE_GFM
        | Options::ENABLE_MATH
        | Options::ENABLE_TABLES
        | Options::ENABLE_TASKLISTS
        | Options::ENABLE_WIKILINKS
        | Options::ENABLE_STRIKETHROUGH
        | Options::ENABLE_YAML_STYLE_METADATA_BLOCKS;
    assert_eq!(Options::from_bits_truncate(DEFAULT_PARSE_OPTIONS), named);
    let source = "| a |\n|---|\n| ~~b~~ $c$ [[d]] |\n\n- [ ] e\n";
    assert_eq!(parse(source, None), parse(source, Some(named)));
    assert_ne!(parse(source, None), parse(source, Some(Options::empty())));
}
