//! The Markdown parser, and the way from its events to those of this library.
//!
//! The parser and the typesetter of formulas are not verified. Each is called
//! in one place. What the parser makes of a source has a name, and so has
//! what each of its events holds; the way from there to the events of this
//! library is verified. What the typesetter makes of a formula has no name:
//! the contracts hold whatever it is.

use vstd::prelude::*;
use core::ops::Range;
use pulldown_cmark::{LinkType, Options, Parser};
use crate::event::{
    events_view, Alignment, CodeBlockKind, CodeBlockKindView, Math, MathView, MdEvent,
    MdEventView, MdTag, MdTagEnd, MdTagView,
};
use crate::highlight::optional_text;

verus! {

/// The kinds of event that the parser produces.
#[derive(Debug, Clone, Copy, PartialEq, Eq)]
pub enum EventKind {
    Start,
    End,
    Text,
    Code,
    InlineMath,
    DisplayMath,
    Html,
    InlineHtml,
    FootnoteReference,
    SoftBreak,
    HardBreak,
    Rule,
    TaskListMarker,
}

/// The events that `pulldown_cmark::Parser::new_ext` makes of `source` with
/// the options `options`, in the order of `into_offset_iter`, each with the
/// range of bytes of the source that it comes from.
pub uninterp spec fn parsed_events(source: Seq<char>, options: Options) -> Seq<
    (pulldown_cmark::Event<'static>, Range<usize>),
>;

/// Runs `pulldown_cmark::Parser::new_ext` on the source and collects what its
/// `into_offset_iter` yields. The contract gives the events their name and
/// claims nothing else of them.
#[verifier::external_body]
fn parse_offsets<'a>(source: &'a str, options: Options) -> (events: Vec<
    (pulldown_cmark::Event<'a>, Range<usize>),
>)
    ensures
        events@ == parsed_events(source@, options),
{
    Parser::new_ext(source, options).into_offset_iter().collect()
}

/// The options whose flags are the bits `bits`, as
/// `pulldown_cmark::Options::from_bits_truncate` gives them.
pub uninterp spec fn options_of_bits(bits: u32) -> Options;

/// Makes options of their bits with `pulldown_cmark::Options::from_bits_truncate`.
#[verifier::external_body]
fn options_from_bits(bits: u32) -> (options: Options)
    ensures
        options == options_of_bits(bits),
{
    Options::from_bits_truncate(bits)
}

/// The bit of the parser's option for tables.
pub const ENABLE_TABLES: u32 = 0x0002;

/// The bit of the parser's option for struck text.
pub const ENABLE_STRIKETHROUGH: u32 = 0x0008;

/// The bit of the parser's option for lists of tasks.
pub const ENABLE_TASKLISTS: u32 = 0x0010;

/// The bit of the parser's option for metadata between lines of dashes.
pub const ENABLE_YAML_STYLE_METADATA_BLOCKS: u32 = 0x0080;

/// The bit of the parser's option for formulas.
pub const ENABLE_MATH: u32 = 0x0400;

/// The bit of the parser's option for the extensions of GitHub.
pub const ENABLE_GFM: u32 = 0x0800;

/// The bit of the parser's option for links in double brackets.
pub const ENABLE_WIKILINKS: u32 = 0x8000;

/// The bits of the extensions that are parsed where the user asks for nothing else.
pub const DEFAULT_PARSE_OPTIONS: u32 = ENABLE_GFM | ENABLE_MATH | ENABLE_TABLES | ENABLE_TASKLISTS
    | ENABLE_WIKILINKS | ENABLE_STRIKETHROUGH | ENABLE_YAML_STYLE_METADATA_BLOCKS;

/// The kind of the event, by the variant of `pulldown_cmark::Event` that it is.
pub uninterp spec fn kind_of(event: pulldown_cmark::Event<'static>) -> EventKind;

/// Tells the variants of `pulldown_cmark::Event` apart.
#[verifier::external_body]
fn event_kind(event: &pulldown_cmark::Event<'_>) -> (kind: EventKind)
    ensures
        kind == kind_of(*event),
{
    match event {
        pulldown_cmark::Event::Start(_) => EventKind::Start,
        pulldown_cmark::Event::End(_) => EventKind::End,
        pulldown_cmark::Event::Text(_) => EventKind::Text,
        pulldown_cmark::Event::Code(_) => EventKind::Code,
        pulldown_cmark::Event::InlineMath(_) => EventKind::InlineMath,
        pulldown_cmark::Event::DisplayMath(_) => EventKind::DisplayMath,
        pulldown_cmark::Event::Html(_) => EventKind::Html,
        pulldown_cmark::Event::InlineHtml(_) => EventKind::InlineHtml,
        pulldown_cmark::Event::FootnoteReference(_) => EventKind::FootnoteReference,
        pulldown_cmark::Event::SoftBreak => EventKind::SoftBreak,
        pulldown_cmark::Event::HardBreak => EventKind::HardBreak,
        pulldown_cmark::Event::Rule => EventKind::Rule,
        pulldown_cmark::Event::TaskListMarker(_) => EventKind::TaskListMarker,
    }
}

/// The text in the `CowStr` of the event, where its variant holds one.
pub uninterp spec fn text_of(event: pulldown_cmark::Event<'static>) -> Option<Seq<char>>;

/// The text that a `pulldown_cmark::Event` carries, copied out of its `CowStr`.
#[verifier::external_body]
fn event_text(event: &pulldown_cmark::Event<'_>) -> (text: Option<String>)
    ensures
        optional_text(text) == text_of(*event),
{
    match event {
        pulldown_cmark::Event::Text(s)
        | pulldown_cmark::Event::Code(s)
        | pulldown_cmark::Event::InlineMath(s)
        | pulldown_cmark::Event::DisplayMath(s)
        | pulldown_cmark::Event::Html(s)
        | pulldown_cmark::Event::InlineHtml(s)
        | pulldown_cmark::Event::FootnoteReference(s) => Some(s.to_string()),
        _ => None,
    }
}

/// The flag of the event, where it is a `TaskListMarker`.
pub uninterp spec fn checked_of(event: pulldown_cmark::Event<'static>) -> Option<bool>;

/// The flag of a `pulldown_cmark::Event::TaskListMarker`.
#[verifier::external_body]
fn event_checked(event: &pulldown_cmark::Event<'_>) -> (checked: Option<bool>)
    ensures
        checked == checked_of(*event),
{
    match event {
        pulldown_cmark::Event::TaskListMarker(checked) => Some(*checked),
        _ => None,
    }
}

/// The end that the event is, or that `pulldown_cmark::Tag::to_end` gives for
/// the container that it starts.
pub uninterp spec fn tag_end_of(event: pulldown_cmark::Event<'static>) -> Option<
    pulldown_cmark::TagEnd,
>;

/// The `pulldown_cmark::TagEnd` of an `End` event, and for a `Start` event
/// what `pulldown_cmark::Tag::to_end` gives for its tag.
#[verifier::external_body]
fn event_tag_end(event: &pulldown_cmark::Event<'_>) -> (end: Option<pulldown_cmark::TagEnd>)
    ensures
        end == tag_end_of(*event),
{
    match event {
        pulldown_cmark::Event::Start(tag) => Some(tag.to_end()),
        pulldown_cmark::Event::End(end) => Some(*end),
        _ => None,
    }
}

/// The end of a block in this library's terms, by the variant of
/// `pulldown_cmark::TagEnd` that it is.
pub uninterp spec fn block_end_of(end: pulldown_cmark::TagEnd) -> Option<MdTagEnd>;

/// Tells the variants of `pulldown_cmark::TagEnd` for blocks apart.
#[verifier::external_body]
fn block_tag_end(end: &pulldown_cmark::TagEnd) -> (r: Option<MdTagEnd>)
    ensures
        r == block_end_of(*end),
{
    match end {
        pulldown_cmark::TagEnd::Paragraph => Some(MdTagEnd::Paragraph),
        pulldown_cmark::TagEnd::Heading(level) => Some(MdTagEnd::Heading(*level as u8)),
        pulldown_cmark::TagEnd::BlockQuote(_) => Some(MdTagEnd::BlockQuote),
        pulldown_cmark::TagEnd::CodeBlock => Some(MdTagEnd::CodeBlock),
        pulldown_cmark::TagEnd::HtmlBlock => Some(MdTagEnd::HtmlBlock),
        pulldown_cmark::TagEnd::List(ordered) => Some(MdTagEnd::List(*ordered)),
        pulldown_cmark::TagEnd::Item => Some(MdTagEnd::Item),
        pulldown_cmark::TagEnd::FootnoteDefinition => Some(MdTagEnd::FootnoteDefinition),
        pulldown_cmark::TagEnd::DefinitionList => Some(MdTagEnd::DefinitionList),
        pulldown_cmark::TagEnd::DefinitionListTitle => Some(MdTagEnd::DefinitionListTitle),
        pulldown_cmark::TagEnd::DefinitionListDefinition => Some(MdTagEnd::DefinitionListDefinition),
        pulldown_cmark::TagEnd::MetadataBlock(_) => Some(MdTagEnd::MetadataBlock),
        _ => None,
    }
}

/// The end of a table, of a part of one or of a span in this library's terms,
/// by the variant of `pulldown_cmark::TagEnd` that it is.
pub uninterp spec fn span_end_of(end: pulldown_cmark::TagEnd) -> Option<MdTagEnd>;

/// Tells the variants of `pulldown_cmark::TagEnd` for tables and for spans apart.
#[verifier::external_body]
fn span_tag_end(end: &pulldown_cmark::TagEnd) -> (r: Option<MdTagEnd>)
    ensures
        r == span_end_of(*end),
{
    match end {
        pulldown_cmark::TagEnd::Table => Some(MdTagEnd::Table),
        pulldown_cmark::TagEnd::TableHead => Some(MdTagEnd::TableHead),
        pulldown_cmark::TagEnd::TableRow => Some(MdTagEnd::TableRow),
        pulldown_cmark::TagEnd::TableCell => Some(MdTagEnd::TableCell),
        pulldown_cmark::TagEnd::Emphasis => Some(MdTagEnd::Emphasis),
        pulldown_cmark::TagEnd::Strong => Some(MdTagEnd::Strong),
        pulldown_cmark::TagEnd::Strikethrough => Some(MdTagEnd::Strikethrough),
        pulldown_cmark::TagEnd::Superscript => Some(MdTagEnd::Superscript),
        pulldown_cmark::TagEnd::Subscript => Some(MdTagEnd::Subscript),
        pulldown_cmark::TagEnd::Link => Some(MdTagEnd::Link),
        pulldown_cmark::TagEnd::Image => Some(MdTagEnd::Image),
        _ => None,
    }
}

/// The number in the `pulldown_cmark::Tag::List` that the event starts.
pub uninterp spec fn list_start_of(event: pulldown_cmark::Event<'static>) -> Option<u64>;

/// The number in a `pulldown_cmark::Tag::List`.
#[verifier::external_body]
fn list_start(event: &pulldown_cmark::Event<'_>) -> (start: Option<u64>)
    ensures
        start == list_start_of(*event),
{
    match event {
        pulldown_cmark::Event::Start(pulldown_cmark::Tag::List(start)) => *start,
        _ => None,
    }
}

/// The language of the fenced `pulldown_cmark::Tag::CodeBlock` that the event starts.
pub uninterp spec fn code_language_of(event: pulldown_cmark::Event<'static>) -> Option<
    Seq<char>,
>;

/// The language in a `pulldown_cmark::Tag::CodeBlock` that is `Fenced`.
#[verifier::external_body]
fn code_language(event: &pulldown_cmark::Event<'_>) -> (language: Option<String>)
    ensures
        optional_text(language) == code_language_of(*event),
{
    match event {
        pulldown_cmark::Event::Start(
            pulldown_cmark::Tag::CodeBlock(pulldown_cmark::CodeBlockKind::Fenced(language)),
        ) => Some(language.to_string()),
        _ => None,
    }
}

/// The alignments of the `pulldown_cmark::Tag::Table` that the event starts,
/// one for one in this library's terms.
pub uninterp spec fn alignments_of(event: pulldown_cmark::Event<'static>) -> Option<
    Seq<Alignment>,
>;

/// The alignments of an optional vector.
pub open spec fn optional_alignments(alignments: Option<Vec<Alignment>>) -> Option<
    Seq<Alignment>,
> {
    match alignments {
        Some(alignments) => Some(alignments@),
        None => None,
    }
}

/// The alignments in a `pulldown_cmark::Tag::Table`, one for one.
#[verifier::external_body]
fn table_alignments(event: &pulldown_cmark::Event<'_>) -> (alignments: Option<Vec<Alignment>>)
    ensures
        optional_alignments(alignments) == alignments_of(*event),
{
    let pulldown_cmark::Event::Start(pulldown_cmark::Tag::Table(columns)) = event else {
        return None;
    };
    Some(
        columns.iter().map(
            |column|
                match column {
                    pulldown_cmark::Alignment::None => Alignment::Unset,
                    pulldown_cmark::Alignment::Left => Alignment::Left,
                    pulldown_cmark::Alignment::Center => Alignment::Center,
                    pulldown_cmark::Alignment::Right => Alignment::Right,
                },
        ).collect(),
    )
}

/// The type, the address and the title of the `pulldown_cmark::Tag::Link` or
/// `pulldown_cmark::Tag::Image` that the event starts.
pub uninterp spec fn link_parts_of(event: pulldown_cmark::Event<'static>) -> Option<
    (LinkType, Seq<char>, Seq<char>),
>;

/// The parts of a link, with its texts as characters.
pub open spec fn optional_link(link: Option<(LinkType, String, String)>) -> Option<
    (LinkType, Seq<char>, Seq<char>),
> {
    match link {
        Some((link_type, dest_url, title)) => Some((link_type, dest_url@, title@)),
        None => None,
    }
}

/// The type, the address and the title in a `pulldown_cmark::Tag::Link` or
/// `pulldown_cmark::Tag::Image`.
#[verifier::external_body]
fn link_parts(event: &pulldown_cmark::Event<'_>) -> (parts: Option<(LinkType, String, String)>)
    ensures
        optional_link(parts) == link_parts_of(*event),
{
    match event {
        pulldown_cmark::Event::Start(pulldown_cmark::Tag::Link { link_type, dest_url, title, .. })
        | pulldown_cmark::Event::Start(
            pulldown_cmark::Tag::Image { link_type, dest_url, title, .. },
        ) => Some((*link_type, dest_url.to_string(), title.to_string())),
        _ => None,
    }
}

/// Typesets a formula with `katex::render_to_string`, in a fresh
/// `katex::KatexContext` and with settings that hold nothing but the display
/// mode. Nothing is claimed of the markup, and it has no name: the typesetter
/// writes the attributes of an element in the order of a hash map that every
/// process seeds anew. There is no markup where the call fails.
#[verifier::external_body]
fn typeset_math(content: &str, display_mode: bool) -> (markup: Option<String>) {
    let context = katex::KatexContext::default();
    let settings = katex::Settings::builder().display_mode(display_mode).build();
    katex::render_to_string(&context, content, &settings).ok()
}

/// The end of a container, from what the two halves of the table of ends
/// make of it: that of the blocks where there is one, else that of the spans.
pub open spec fn spec_tag_end_of_parts(block: Option<MdTagEnd>, span: Option<MdTagEnd>) -> Option<
    MdTagEnd,
> {
    match block {
        Some(end) => Some(end),
        None => span,
    }
}

/// The end of a container, from what the two halves of the table of ends make of it.
pub fn tag_end_of_parts(block: Option<MdTagEnd>, span: Option<MdTagEnd>) -> (r: Option<MdTagEnd>)
    ensures
        r == spec_tag_end_of_parts(block, span),
{
    match block {
        Some(end) => Some(end),
        None => span,
    }
}

/// The end of a container of the parser in this library's terms.
pub open spec fn spec_convert_tag_end(end: pulldown_cmark::TagEnd) -> Option<MdTagEnd> {
    spec_tag_end_of_parts(block_end_of(end), span_end_of(end))
}

/// The end of a container in this library's terms.
fn convert_tag_end(end: &pulldown_cmark::TagEnd) -> (r: Option<MdTagEnd>)
    ensures
        r == spec_convert_tag_end(*end),
{
    tag_end_of_parts(block_tag_end(end), span_tag_end(end))
}

/// The container of an optional container, over characters.
pub open spec fn optional_tag(tag: Option<MdTag>) -> Option<MdTagView> {
    match tag {
        Some(tag) => Some(tag@),
        None => None,
    }
}

/// The event of an optional event, over characters.
pub open spec fn optional_event(event: Option<MdEvent>) -> Option<MdEventView> {
    match event {
        Some(event) => Some(event@),
        None => None,
    }
}

/// The container that ends with `end`, from what its start holds: the
/// language of a block of code, the number of a list, the alignments of a
/// table, the parts of a link or of an image.
///
/// A block of code without a language is indented. There is no container
/// where a list is ordered and has no number, or is not ordered and has one,
/// where a table has no alignments, and where a link or an image has no parts.
pub open spec fn spec_tag_of_parts(
    end: MdTagEnd,
    language: Option<Seq<char>>,
    start: Option<u64>,
    alignments: Option<Seq<Alignment>>,
    link: Option<(LinkType, Seq<char>, Seq<char>)>,
) -> Option<MdTagView> {
    match end {
        MdTagEnd::Paragraph => Some(MdTagView::Paragraph),
        MdTagEnd::Heading(level) => Some(MdTagView::Heading(level)),
        MdTagEnd::BlockQuote => Some(MdTagView::BlockQuote),
        MdTagEnd::CodeBlock => Some(
            MdTagView::CodeBlock(
                match language {
                    Some(language) => CodeBlockKindView::Fenced(language),
                    None => CodeBlockKindView::Indented,
                },
            ),
        ),
        MdTagEnd::HtmlBlock => Some(MdTagView::HtmlBlock),
        MdTagEnd::List(ordered) => if start is Some == ordered {
            Some(MdTagView::List(start))
        } else {
            None
        },
        MdTagEnd::Item => Some(MdTagView::Item),
        MdTagEnd::FootnoteDefinition => Some(MdTagView::FootnoteDefinition),
        MdTagEnd::DefinitionList => Some(MdTagView::DefinitionList),
        MdTagEnd::DefinitionListTitle => Some(MdTagView::DefinitionListTitle),
        MdTagEnd::DefinitionListDefinition => Some(MdTagView::DefinitionListDefinition),
        MdTagEnd::Table => match alignments {
            Some(alignments) => Some(MdTagView::Table(alignments)),
            None => None,
        },
        MdTagEnd::TableHead => Some(MdTagView::TableHead),
        MdTagEnd::TableRow => Some(MdTagView::TableRow),
        MdTagEnd::TableCell => Some(MdTagView::TableCell),
        MdTagEnd::Emphasis => Some(MdTagView::Emphasis),
        MdTagEnd::Strong => Some(MdTagView::Strong),
        MdTagEnd::Strikethrough => Some(MdTagView::Strikethrough),
        MdTagEnd::Superscript => Some(MdTagView::Superscript),
        MdTagEnd::Subscript => Some(MdTagView::Subscript),
        MdTagEnd::Link => match link {
            Some((link_type, dest_url, title)) => Some(
                MdTagView::Link { link_type, dest_url, title },
            ),
            None => None,
        },
        MdTagEnd::Image => match link {
            Some((link_type, dest_url, title)) => Some(
                MdTagView::Image { link_type, dest_url, title },
            ),
            None => None,
        },
        MdTagEnd::MetadataBlock => Some(MdTagView::MetadataBlock),
    }
}

/// The container that ends with `end`, from what its start holds.
pub fn tag_of_parts(
    end: MdTagEnd,
    language: Option<String>,
    start: Option<u64>,
    alignments: Option<Vec<Alignment>>,
    link: Option<(LinkType, String, String)>,
) -> (tag: Option<MdTag>)
    ensures
        optional_tag(tag) == spec_tag_of_parts(
            end,
            optional_text(language),
            start,
            optional_alignments(alignments),
            optional_link(link),
        ),
        tag matches Some(t) ==> crate::event::closing_tag(t) == end,
{
    match end {
        MdTagEnd::Paragraph => Some(MdTag::Paragraph),
        MdTagEnd::Heading(level) => Some(MdTag::Heading(level)),
        MdTagEnd::BlockQuote => Some(MdTag::BlockQuote),
        MdTagEnd::CodeBlock => Some(
            MdTag::CodeBlock(
                match language {
                    Some(language) => CodeBlockKind::Fenced(language),
                    None => CodeBlockKind::Indented,
                },
            ),
        ),
        MdTagEnd::HtmlBlock => Some(MdTag::HtmlBlock),
        MdTagEnd::List(ordered) => {
            if start.is_some() == ordered {
                Some(MdTag::List(start))
            } else {
                None
            }
        },
        MdTagEnd::Item => Some(MdTag::Item),
        MdTagEnd::FootnoteDefinition => Some(MdTag::FootnoteDefinition),
        MdTagEnd::DefinitionList => Some(MdTag::DefinitionList),
        MdTagEnd::DefinitionListTitle => Some(MdTag::DefinitionListTitle),
        MdTagEnd::DefinitionListDefinition => Some(MdTag::DefinitionListDefinition),
        MdTagEnd::Table => match alignments {
            Some(alignments) => Some(MdTag::Table(alignments)),
            None => None,
        },
        MdTagEnd::TableHead => Some(MdTag::TableHead),
        MdTagEnd::TableRow => Some(MdTag::TableRow),
        MdTagEnd::TableCell => Some(MdTag::TableCell),
        MdTagEnd::Emphasis => Some(MdTag::Emphasis),
        MdTagEnd::Strong => Some(MdTag::Strong),
        MdTagEnd::Strikethrough => Some(MdTag::Strikethrough),
        MdTagEnd::Superscript => Some(MdTag::Superscript),
        MdTagEnd::Subscript => Some(MdTag::Subscript),
        MdTagEnd::Link => match link {
            Some((link_type, dest_url, title)) => Some(MdTag::Link { link_type, dest_url, title }),
            None => None,
        },
        MdTagEnd::Image => match link {
            Some((link_type, dest_url, title)) => Some(MdTag::Image { link_type, dest_url, title }),
            None => None,
        },
        MdTagEnd::MetadataBlock => Some(MdTag::MetadataBlock),
    }
}

/// The container that the parser's `Start` event opens, where `end` is its
/// end in this library's terms.
pub open spec fn spec_convert_tag(event: pulldown_cmark::Event<'static>, end: MdTagEnd) -> Option<
    MdTagView,
> {
    spec_tag_of_parts(
        end,
        code_language_of(event),
        list_start_of(event),
        alignments_of(event),
        link_parts_of(event),
    )
}

/// The container that a `Start` event opens, from its end and what the event holds.
fn convert_tag(event: &pulldown_cmark::Event<'_>, end: MdTagEnd) -> (tag: Option<MdTag>)
    ensures
        optional_tag(tag) == spec_convert_tag(*event, end),
        tag matches Some(t) ==> crate::event::closing_tag(t) == end,
{
    let language = code_language(event);
    let start = list_start(event);
    let alignments = table_alignments(event);
    let link = link_parts(event);
    tag_of_parts(end, language, start, alignments, link)
}

/// The event of the kind `kind`, from what the parser's event holds: its
/// text, its flag, the container that it opens, the end that it is, and the
/// markup of its formula. There is none where the kind lacks what it needs.
pub open spec fn spec_event_of_parts(
    kind: EventKind,
    text: Option<Seq<char>>,
    checked: Option<bool>,
    tag: Option<MdTagView>,
    end: Option<MdTagEnd>,
    markup: Option<Seq<char>>,
) -> Option<MdEventView> {
    match kind {
        EventKind::Start => match tag {
            Some(tag) => Some(MdEventView::Start(tag)),
            None => None,
        },
        EventKind::End => match end {
            Some(end) => Some(MdEventView::End(end)),
            None => None,
        },
        EventKind::SoftBreak => Some(MdEventView::SoftBreak),
        EventKind::HardBreak => Some(MdEventView::HardBreak),
        EventKind::Rule => Some(MdEventView::Rule),
        EventKind::TaskListMarker => match checked {
            Some(checked) => Some(MdEventView::TaskListMarker(checked)),
            None => None,
        },
        _ => match text {
            Some(text) => Some(
                match kind {
                    EventKind::Text => MdEventView::Text(text),
                    EventKind::Code => MdEventView::Code(text),
                    EventKind::InlineMath => MdEventView::InlineMath(
                        MathView { content: text, markup },
                    ),
                    EventKind::DisplayMath => MdEventView::DisplayMath(
                        MathView { content: text, markup },
                    ),
                    EventKind::Html => MdEventView::Html(text),
                    EventKind::InlineHtml => MdEventView::InlineHtml(text),
                    _ => MdEventView::FootnoteReference(text),
                },
            ),
            None => None,
        },
    }
}

/// The event of the kind `kind`, from what the parser's event holds.
pub fn event_of_parts(
    kind: EventKind,
    text: Option<String>,
    checked: Option<bool>,
    tag: Option<MdTag>,
    end: Option<MdTagEnd>,
    markup: Option<String>,
) -> (r: Option<MdEvent>)
    ensures
        optional_event(r) == spec_event_of_parts(
            kind,
            optional_text(text),
            checked,
            optional_tag(tag),
            end,
            optional_text(markup),
        ),
{
    match kind {
        EventKind::Start => match tag {
            Some(tag) => Some(MdEvent::Start(tag)),
            None => None,
        },
        EventKind::End => match end {
            Some(end) => Some(MdEvent::End(end)),
            None => None,
        },
        EventKind::SoftBreak => Some(MdEvent::SoftBreak),
        EventKind::HardBreak => Some(MdEvent::HardBreak),
        EventKind::Rule => Some(MdEvent::Rule),
        EventKind::TaskListMarker => match checked {
            Some(checked) => Some(MdEvent::TaskListMarker(checked)),
            None => None,
        },
        EventKind::Text => match text {
            Some(text) => Some(MdEvent::Text(text)),
            None => None,
        },
        EventKind::Code => match text {
            Some(text) => Some(MdEvent::Code(text)),
            None => None,
        },
        EventKind::InlineMath => match text {
            Some(text) => Some(MdEvent::InlineMath(Math { content: text, markup })),
            None => None,
        },
        EventKind::DisplayMath => match text {
            Some(text) => Some(MdEvent::DisplayMath(Math { content: text, markup })),
            None => None,
        },
        EventKind::Html => match text {
            Some(text) => Some(MdEvent::Html(text)),
            None => None,
        },
        EventKind::InlineHtml => match text {
            Some(text) => Some(MdEvent::InlineHtml(text)),
            None => None,
        },
        EventKind::FootnoteReference => match text {
            Some(text) => Some(MdEvent::FootnoteReference(text)),
            None => None,
        },
    }
}

/// Whether events of this kind hold a formula, and whether it is displayed.
pub fn formula_mode(kind: EventKind) -> (mode: Option<bool>)
    ensures
        mode == (match kind {
            EventKind::InlineMath => Some(false),
            EventKind::DisplayMath => Some(true),
            _ => None,
        }),
{
    match kind {
        EventKind::InlineMath => Some(false),
        EventKind::DisplayMath => Some(true),
        _ => None,
    }
}

/// The end of the parser's event in this library's terms: that of an `End`
/// event, and that of the container that a `Start` event opens.
pub open spec fn spec_convert_end(event: pulldown_cmark::Event<'static>) -> Option<MdTagEnd> {
    match tag_end_of(event) {
        Some(end) => spec_convert_tag_end(end),
        None => None,
    }
}

/// The parser's event in this library's terms, where `markup` is what the
/// typesetter made of its formula. There is none for an event that lacks
/// what its kind needs, which the parser does not produce.
pub open spec fn spec_convert_event(
    event: pulldown_cmark::Event<'static>,
    markup: Option<Seq<char>>,
) -> Option<MdEventView> {
    spec_event_of_parts(
        kind_of(event),
        text_of(event),
        checked_of(event),
        match (kind_of(event), spec_convert_end(event)) {
            (EventKind::Start, Some(end)) => spec_convert_tag(event, end),
            _ => None,
        },
        spec_convert_end(event),
        markup,
    )
}

/// The event in this library's terms, with its formula typeset where it holds
/// one. Whatever the typesetter makes of the formula, the event is what
/// `spec_convert_event` says.
fn convert_event(event: &pulldown_cmark::Event<'_>) -> (r: Option<MdEvent>)
    ensures
        exists|markup: Option<Seq<char>>|
            optional_event(r) == #[trigger] spec_convert_event(*event, markup),
{
    let kind = event_kind(event);
    let end = match event_tag_end(event) {
        Some(end) => convert_tag_end(&end),
        None => None,
    };
    let tag = match (kind, end) {
        (EventKind::Start, Some(end)) => convert_tag(event, end),
        _ => None,
    };
    let text = event_text(event);
    let markup = match (formula_mode(kind), &text) {
        (Some(display), Some(formula)) => typeset_math(formula.as_str(), display),
        _ => None,
    };
    let ghost typeset = optional_text(markup);
    let r = event_of_parts(kind, text, event_checked(event), tag, end, markup);
    assert(optional_event(r) == spec_convert_event(*event, typeset));
    r
}

/// The parser's events in this library's terms, each with its range, where
/// `markups` holds for each event what the typesetter made of its formula.
/// There are none where one of the events has no counterpart.
pub open spec fn spec_convert_events(
    raw: Seq<(pulldown_cmark::Event<'static>, Range<usize>)>,
    markups: Seq<Option<Seq<char>>>,
) -> Option<Seq<(MdEventView, Range<usize>)>> {
    if forall|i: int| 0 <= i < raw.len() ==> (#[trigger] spec_convert_event(raw[i].0, markups[i]))
        is Some {
        Some(
            Seq::new(
                raw.len(),
                |i: int| (spec_convert_event(raw[i].0, markups[i])->Some_0, raw[i].1),
            ),
        )
    } else {
        None
    }
}

/// The events of an optional vector, over characters.
pub open spec fn optional_events(events: Option<Vec<(MdEvent, Range<usize>)>>) -> Option<
    Seq<(MdEventView, Range<usize>)>,
> {
    match events {
        Some(events) => Some(events_view(events@)),
        None => None,
    }
}

/// The events of this library for those of the parser, one for one and each
/// with the range of its event. There are none where one of the events has no
/// counterpart. Whatever the typesetter makes of the formulas, the events are
/// what `spec_convert_events` says.
pub fn convert_events(raw: &Vec<(pulldown_cmark::Event<'_>, Range<usize>)>) -> (r: Option<
    Vec<(MdEvent, Range<usize>)>,
>)
    ensures
        exists|markups: Seq<Option<Seq<char>>>|
            markups.len() == raw@.len() && optional_events(r) == #[trigger] spec_convert_events(
                raw@,
                markups,
            ),
{
    let mut events: Vec<(MdEvent, Range<usize>)> = Vec::new();
    let ghost mut markups: Seq<Option<Seq<char>>> = Seq::empty();
    let mut i: usize = 0;
    while i < raw.len()
        invariant
            i <= raw.len(),
            events@.len() == i,
            markups.len() == i,
            forall|j: int|
                0 <= j < i ==> (#[trigger] spec_convert_event(raw@[j].0, markups[j]))
                    == Some(events@[j].0@),
            forall|j: int| 0 <= j < i ==> (#[trigger] events@[j]).1 == raw@[j].1,
        decreases raw.len() - i,
    {
        let converted = convert_event(&raw[i].0);
        let ghost markup = choose|markup: Option<Seq<char>>|
            optional_event(converted) == #[trigger] spec_convert_event(raw@[i as int].0, markup);
        match converted {
            Some(event) => {
                events.push((event, raw[i].1.start..raw[i].1.end));
                proof {
                    markups = markups.push(markup);
                }
            },
            None => {
                proof {
                    let all = Seq::new(
                        raw@.len(),
                        |j: int|
                            if j < i {
                                markups[j]
                            } else {
                                markup
                            },
                    );
                    assert(spec_convert_event(raw@[i as int].0, all[i as int]) is None);
                    assert(spec_convert_events(raw@, all) is None);
                }
                return None;
            },
        }
        i += 1;
    }
    proof {
        let views = spec_convert_events(raw@, markups);
        assert(views is Some);
        assert(events_view(events@) =~= views->Some_0);
    }
    Some(events)
}

/// The options that a document is parsed with: those that the user asks for,
/// else the usual extensions.
pub open spec fn spec_parse_options(options: Option<Options>) -> Options {
    match options {
        Some(options) => options,
        None => options_of_bits(DEFAULT_PARSE_OPTIONS),
    }
}

/// The events of this library that the parser makes of `source`, each with
/// the bytes of the source that it comes from, where `markups` holds for each
/// event what the typesetter made of its formula.
pub open spec fn spec_parse(
    source: Seq<char>,
    options: Option<Options>,
    markups: Seq<Option<Seq<char>>>,
) -> Option<Seq<(MdEventView, Range<usize>)>> {
    spec_convert_events(parsed_events(source, spec_parse_options(options)), markups)
}

/// Parses `source` into the events of this library, each with the bytes of the
/// source that it comes from. Without `options` the usual extensions are
/// parsed. There is no result where the parser hands over an event that has
/// no counterpart. Whatever the typesetter makes of the formulas, the events
/// are what `spec_parse` says.
pub fn parse(source: &str, options: Option<Options>) -> (events: Option<
    Vec<(MdEvent, Range<usize>)>,
>)
    ensures
        exists|markups: Seq<Option<Seq<char>>>|
            optional_events(events) == #[trigger] spec_parse(source@, options, markups),
{
    let chosen = match options {
        Some(options) => options,
        None => options_from_bits(DEFAULT_PARSE_OPTIONS),
    };
    let raw = parse_offsets(source, chosen);
    let events = convert_events(&raw);
    proof {
        let markups = choose|markups: Seq<Option<Seq<char>>>|
            markups.len() == raw@.len() && optional_events(events) == #[trigger] spec_convert_events(
                raw@,
                markups,
            );
        assert(optional_events(events) == spec_parse(source@, options, markups));
    }
    events
}

} // verus!
