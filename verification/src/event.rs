//! The flat stream of events that a Markdown parser produces, as the renderer reads it.
//!
//! A container opens with `Start` and closes with `End`; everything between the
//! two lies inside it. The types here hold what the renderer looks at, as plain values.

use vstd::prelude::*;
use pulldown_cmark::LinkType;

verus! {

/// How the text of a table's column is aligned.
#[derive(Debug, Clone, Copy, PartialEq, Eq, Structural)]
pub enum Alignment {
    /// No alignment is asked for.
    Unset,
    Left,
    Center,
    Right,
}

/// How a block of code was written.
#[derive(Debug, PartialEq, Eq)]
pub enum CodeBlockKind {
    /// By indentation.
    Indented,
    /// Between fences; the text behind the opening fence names the language.
    Fenced(String),
}

/// A container: an element of the document that holds other elements.
#[derive(Debug, PartialEq)]
pub enum MdTag {
    Paragraph,
    /// A heading and its level, from 1 to 6.
    Heading(u8),
    BlockQuote,
    CodeBlock(CodeBlockKind),
    /// Lines of raw HTML.
    HtmlBlock,
    /// A list; where it is ordered, the number of its first item.
    List(Option<u64>),
    Item,
    FootnoteDefinition,
    DefinitionList,
    DefinitionListTitle,
    DefinitionListDefinition,
    /// A table and the alignment of each of its columns.
    Table(Vec<Alignment>),
    /// The first row of a table. Its cells lie directly inside it.
    TableHead,
    TableRow,
    TableCell,
    Emphasis,
    Strong,
    Strikethrough,
    Superscript,
    Subscript,
    Link { link_type: LinkType, dest_url: String, title: String },
    Image { link_type: LinkType, dest_url: String, title: String },
    /// Metadata at the head of the document.
    MetadataBlock,
}

/// The end of a container.
#[derive(Debug, Clone, Copy, PartialEq, Eq, Structural)]
pub enum MdTagEnd {
    Paragraph,
    Heading(u8),
    BlockQuote,
    CodeBlock,
    HtmlBlock,
    /// The end of a list, and whether the list is ordered.
    List(bool),
    Item,
    FootnoteDefinition,
    DefinitionList,
    DefinitionListTitle,
    DefinitionListDefinition,
    Table,
    TableHead,
    TableRow,
    TableCell,
    Emphasis,
    Strong,
    Strikethrough,
    Superscript,
    Subscript,
    Link,
    Image,
    MetadataBlock,
}

/// A formula, and the markup that the typesetter made of it.
#[derive(Debug, PartialEq, Eq)]
pub struct Math {
    /// The formula as it stands in the source.
    pub content: String,
    /// The typeset formula; nothing where the typesetter failed.
    pub markup: Option<String>,
}

/// One step of the walk through a document.
#[derive(Debug, PartialEq)]
pub enum MdEvent {
    Start(MdTag),
    End(MdTagEnd),
    Text(String),
    /// Code inside a line.
    Code(String),
    /// A formula inside a line.
    InlineMath(Math),
    /// A formula on lines of its own.
    DisplayMath(Math),
    /// One line of a block of raw HTML.
    Html(String),
    /// One tag of raw HTML inside a line.
    InlineHtml(String),
    FootnoteReference(String),
    SoftBreak,
    HardBreak,
    Rule,
    /// The box of a task and whether it is ticked.
    TaskListMarker(bool),
}

/// How a block of code was written, over characters: the model of [`CodeBlockKind`].
pub enum CodeBlockKindView {
    Indented,
    Fenced(Seq<char>),
}

impl View for CodeBlockKind {
    type V = CodeBlockKindView;

    open spec fn view(&self) -> CodeBlockKindView {
        match self {
            CodeBlockKind::Indented => CodeBlockKindView::Indented,
            CodeBlockKind::Fenced(language) => CodeBlockKindView::Fenced(language@),
        }
    }
}

/// A container over characters: the model of [`MdTag`].
pub enum MdTagView {
    Paragraph,
    Heading(u8),
    BlockQuote,
    CodeBlock(CodeBlockKindView),
    HtmlBlock,
    List(Option<u64>),
    Item,
    FootnoteDefinition,
    DefinitionList,
    DefinitionListTitle,
    DefinitionListDefinition,
    Table(Seq<Alignment>),
    TableHead,
    TableRow,
    TableCell,
    Emphasis,
    Strong,
    Strikethrough,
    Superscript,
    Subscript,
    Link { link_type: LinkType, dest_url: Seq<char>, title: Seq<char> },
    Image { link_type: LinkType, dest_url: Seq<char>, title: Seq<char> },
    MetadataBlock,
}

impl View for MdTag {
    type V = MdTagView;

    open spec fn view(&self) -> MdTagView {
        match self {
            MdTag::Paragraph => MdTagView::Paragraph,
            MdTag::Heading(level) => MdTagView::Heading(*level),
            MdTag::BlockQuote => MdTagView::BlockQuote,
            MdTag::CodeBlock(kind) => MdTagView::CodeBlock(kind@),
            MdTag::HtmlBlock => MdTagView::HtmlBlock,
            MdTag::List(start) => MdTagView::List(*start),
            MdTag::Item => MdTagView::Item,
            MdTag::FootnoteDefinition => MdTagView::FootnoteDefinition,
            MdTag::DefinitionList => MdTagView::DefinitionList,
            MdTag::DefinitionListTitle => MdTagView::DefinitionListTitle,
            MdTag::DefinitionListDefinition => MdTagView::DefinitionListDefinition,
            MdTag::Table(alignments) => MdTagView::Table(alignments@),
            MdTag::TableHead => MdTagView::TableHead,
            MdTag::TableRow => MdTagView::TableRow,
            MdTag::TableCell => MdTagView::TableCell,
            MdTag::Emphasis => MdTagView::Emphasis,
            MdTag::Strong => MdTagView::Strong,
            MdTag::Strikethrough => MdTagView::Strikethrough,
            MdTag::Superscript => MdTagView::Superscript,
            MdTag::Subscript => MdTagView::Subscript,
            MdTag::Link { link_type, dest_url, title } => MdTagView::Link {
                link_type: *link_type,
                dest_url: dest_url@,
                title: title@,
            },
            MdTag::Image { link_type, dest_url, title } => MdTagView::Image {
                link_type: *link_type,
                dest_url: dest_url@,
                title: title@,
            },
            MdTag::MetadataBlock => MdTagView::MetadataBlock,
        }
    }
}

/// A formula over characters: the model of [`Math`].
pub struct MathView {
    pub content: Seq<char>,
    pub markup: Option<Seq<char>>,
}

impl View for Math {
    type V = MathView;

    open spec fn view(&self) -> MathView {
        MathView {
            content: self.content@,
            markup: match self.markup {
                Some(markup) => Some(markup@),
                None => None,
            },
        }
    }
}

/// An event over characters: the model of [`MdEvent`].
pub enum MdEventView {
    Start(MdTagView),
    End(MdTagEnd),
    Text(Seq<char>),
    Code(Seq<char>),
    InlineMath(MathView),
    DisplayMath(MathView),
    Html(Seq<char>),
    InlineHtml(Seq<char>),
    FootnoteReference(Seq<char>),
    SoftBreak,
    HardBreak,
    Rule,
    TaskListMarker(bool),
}

impl View for MdEvent {
    type V = MdEventView;

    open spec fn view(&self) -> MdEventView {
        match self {
            MdEvent::Start(tag) => MdEventView::Start(tag@),
            MdEvent::End(end) => MdEventView::End(*end),
            MdEvent::Text(s) => MdEventView::Text(s@),
            MdEvent::Code(s) => MdEventView::Code(s@),
            MdEvent::InlineMath(math) => MdEventView::InlineMath(math@),
            MdEvent::DisplayMath(math) => MdEventView::DisplayMath(math@),
            MdEvent::Html(s) => MdEventView::Html(s@),
            MdEvent::InlineHtml(s) => MdEventView::InlineHtml(s@),
            MdEvent::FootnoteReference(s) => MdEventView::FootnoteReference(s@),
            MdEvent::SoftBreak => MdEventView::SoftBreak,
            MdEvent::HardBreak => MdEventView::HardBreak,
            MdEvent::Rule => MdEventView::Rule,
            MdEvent::TaskListMarker(checked) => MdEventView::TaskListMarker(*checked),
        }
    }
}

/// The events with their ranges, over characters.
pub open spec fn events_view(events: Seq<(MdEvent, core::ops::Range<usize>)>) -> Seq<
    (MdEventView, core::ops::Range<usize>),
> {
    events.map_values(|e: (MdEvent, core::ops::Range<usize>)| (e.0@, e.1))
}

/// The end that closes the container `tag`.
pub open spec fn closing_tag(tag: MdTag) -> MdTagEnd {
    match tag {
        MdTag::Paragraph => MdTagEnd::Paragraph,
        MdTag::Heading(level) => MdTagEnd::Heading(level),
        MdTag::BlockQuote => MdTagEnd::BlockQuote,
        MdTag::CodeBlock(_) => MdTagEnd::CodeBlock,
        MdTag::HtmlBlock => MdTagEnd::HtmlBlock,
        MdTag::List(start) => MdTagEnd::List(start is Some),
        MdTag::Item => MdTagEnd::Item,
        MdTag::FootnoteDefinition => MdTagEnd::FootnoteDefinition,
        MdTag::DefinitionList => MdTagEnd::DefinitionList,
        MdTag::DefinitionListTitle => MdTagEnd::DefinitionListTitle,
        MdTag::DefinitionListDefinition => MdTagEnd::DefinitionListDefinition,
        MdTag::Table(_) => MdTagEnd::Table,
        MdTag::TableHead => MdTagEnd::TableHead,
        MdTag::TableRow => MdTagEnd::TableRow,
        MdTag::TableCell => MdTagEnd::TableCell,
        MdTag::Emphasis => MdTagEnd::Emphasis,
        MdTag::Strong => MdTagEnd::Strong,
        MdTag::Strikethrough => MdTagEnd::Strikethrough,
        MdTag::Superscript => MdTagEnd::Superscript,
        MdTag::Subscript => MdTagEnd::Subscript,
        MdTag::Link { .. } => MdTagEnd::Link,
        MdTag::Image { .. } => MdTagEnd::Image,
        MdTag::MetadataBlock => MdTagEnd::MetadataBlock,
    }
}

/// The end that closes the container `t`.
pub fn as_closing_tag(t: &MdTag) -> (end: MdTagEnd)
    ensures
        end == closing_tag(*t),
{
    match t {
        MdTag::Paragraph => MdTagEnd::Paragraph,
        MdTag::Heading(level) => MdTagEnd::Heading(*level),
        MdTag::BlockQuote => MdTagEnd::BlockQuote,
        MdTag::CodeBlock(_) => MdTagEnd::CodeBlock,
        MdTag::HtmlBlock => MdTagEnd::HtmlBlock,
        MdTag::List(start) => MdTagEnd::List(start.is_some()),
        MdTag::Item => MdTagEnd::Item,
        MdTag::FootnoteDefinition => MdTagEnd::FootnoteDefinition,
        MdTag::DefinitionList => MdTagEnd::DefinitionList,
        MdTag::DefinitionListTitle => MdTagEnd::DefinitionListTitle,
        MdTag::DefinitionListDefinition => MdTagEnd::DefinitionListDefinition,
        MdTag::Table(_) => MdTagEnd::Table,
        MdTag::TableHead => MdTagEnd::TableHead,
        MdTag::TableRow => MdTagEnd::TableRow,
        MdTag::TableCell => MdTagEnd::TableCell,
        MdTag::Emphasis => MdTagEnd::Emphasis,
        MdTag::Strong => MdTagEnd::Strong,
        MdTag::Strikethrough => MdTagEnd::Strikethrough,
        MdTag::Superscript => MdTagEnd::Superscript,
        MdTag::Subscript => MdTagEnd::Subscript,
        MdTag::Link { .. } => MdTagEnd::Link,
        MdTag::Image { .. } => MdTagEnd::Image,
        MdTag::MetadataBlock => MdTagEnd::MetadataBlock,
    }
}

/// The style that aligns text as `align` says.
pub open spec fn spec_align_string(align: Alignment) -> Seq<char> {
    match align {
        Alignment::Left => "text-align: left"@,
        Alignment::Right => "text-align: right"@,
        Alignment::Center => "text-align: center"@,
        Alignment::Unset => ""@,
    }
}

/// The style that aligns text as `align` says.
pub fn align_string(align: Alignment) -> (style: &'static str)
    ensures
        style@ == spec_align_string(align),
{
    match align {
        Alignment::Left => "text-align: left",
        Alignment::Right => "text-align: right",
        Alignment::Center => "text-align: center",
        Alignment::Unset => "",
    }
}

} // verus!
