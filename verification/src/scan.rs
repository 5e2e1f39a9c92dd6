//! What a stream of events becomes: the mathematical model of the renderer.
//!
//! A scan walks the events from a position on and yields one view for each
//! construct that it meets. A container is rendered by a scan of its own,
//! which ends with the container; the body of a custom component by another,
//! which ends at the closing tag of the component. The functions here say
//! what each scan yields and where it stops. They are written over the
//! specification functions of a [`Context`], so they hold for every user
//! interface.
//!
//! A stream that the parser should not produce makes a scan fail with a
//! [`StreamError`]. A construct that cannot be rendered does not: it yields
//! the view of its failure, and the scan goes on.

use vstd::prelude::*;
use core::ops::Range;
use crate::classify::{spec_classify, ClassifiedView};
use crate::component::{spec_parse_tag, AttributeView, ComponentCallView, CustomHtmlTagView};
use crate::context::{
    spec_code, spec_link, spec_rule, spec_tasklist_marker, spec_text, Context,
    ElementAttributesView, HtmlElement, LinkDescriptionView, MdComponentAttributeView,
    MdComponentPropsView,
};
use crate::error::HtmlErrorView;
use crate::event::{
    closing_tag, spec_align_string, Alignment, CodeBlockKind, MdEvent, MdTag, MdTagEnd,
};
use crate::highlight::spec_highlight_code;
use crate::text::utf8_len;

verus! {

/// The class of the view of a failure.
pub const CLASS_ERROR: &'static str = "markdown-error";

/// The class of a formula inside a line.
pub const CLASS_MATH_INLINE: &'static str = "math-inline";

/// The class of a formula on lines of its own.
pub const CLASS_MATH_FLOW: &'static str = "math-flow";

/// What is not implemented where a footnote is referred to.
pub const MSG_FOOTNOTE_REFERENCE: &'static str = "footnotes refs";

/// What is not implemented where a footnote is defined.
pub const MSG_FOOTNOTE: &'static str = "footnote not implemented";

/// What is not implemented where a list of definitions stands.
pub const MSG_DEFINITION_LIST: &'static str = "definition list not implemented";

/// What is not implemented where text is raised.
pub const MSG_SUPERSCRIPT: &'static str = "superscript not implemented";

/// What is not implemented where text is lowered.
pub const MSG_SUBSCRIPT: &'static str = "subscript not implemented";

/// The message for raw HTML inside a container in the body of a component.
pub const MSG_NEWLINE_BEFORE_END: &'static str =
    "please make sure there is a newline before the end of your component";

/// The message for a tag in the body of a component that does not close it.
pub const MSG_EXPECTED_END_OF_COMPONENT: &'static str = "expected end of component";

/// The message for the closing tag of a component that was not opened.
pub const MSG_EXPECTED_START: &'static str = "expected start, not end";

/// The message for a call of a component that the context does not know.
pub const MSG_NOT_A_COMPONENT: &'static str = "not a valid component";

/// The start of the message for text that names a component and is no tag.
pub const MSG_NOT_A_COMPONENT_BECAUSE: &'static str = "not a valid component: ";

/// A breach of what the parser promises of its events.
#[derive(Debug, Clone, Copy, PartialEq, Eq, Structural)]
pub enum StreamError {
    /// A container ends with the end of another.
    WrongClosingTag,
    /// An end stands where no container is open.
    UnexpectedClosingTag,
    /// A block of code or of metadata holds something else than text.
    UnexpectedContent,
    /// A cell stands outside a table, or in a column that the table does not have.
    NoColumn,
    /// The bytes of a tag would lie beyond the largest address.
    RangeOverflow,
    /// The parser handed over an event of a kind that it does not document.
    UnknownEvent,
}

/// The state of a scan.
pub struct Scan {
    /// The index of the next event.
    pub pos: int,
    /// The alignments of the columns of the table that was entered last.
    pub column_alignment: Option<Seq<Alignment>>,
    /// How many cells this scan has met.
    pub cell_index: int,
    /// The end of the container that this scan renders; none for a document
    /// and for the body of a component.
    pub end_tag: Option<MdTagEnd>,
    /// The name of the component whose body is being scanned.
    pub current_component: Option<Seq<char>>,
    /// The metadata that was handed to the context so far, in its order.
    pub frontmatter: Seq<Seq<char>>,
}

impl Scan {
    /// The scan of a whole document.
    pub open spec fn document() -> Scan {
        Scan {
            pos: 0,
            column_alignment: None,
            cell_index: 0,
            end_tag: None,
            current_component: None,
            frontmatter: Seq::empty(),
        }
    }

    /// This scan at another position.
    pub open spec fn at(self, pos: int) -> Scan {
        Scan { pos, ..self }
    }

    /// This scan, gone on where the scan `inner`, which it had started, has stopped.
    pub open spec fn resumed(self, inner: Scan) -> Scan {
        Scan { pos: inner.pos, frontmatter: inner.frontmatter, ..self }
    }

    /// The scan of what lies inside the container `tag`, started where this scan stands.
    pub open spec fn inside(self, tag: MdTag) -> Scan {
        Scan { cell_index: 0, end_tag: Some(closing_tag(tag)), ..self }
    }

    /// The scan of the body of the component `name`, started where this scan stands.
    pub open spec fn body_of(self, name: Seq<char>) -> Scan {
        Scan { cell_index: 0, end_tag: None, current_component: Some(name), ..self }
    }
}

/// What a piece of raw HTML turns out to be.
pub enum HtmlOutcome<V> {
    /// The closing tag of the component whose body is being scanned.
    Closed,
    /// A view, or a failure to show in its place.
    Rendered(Result<V, HtmlErrorView>),
}

/// The view of a failure: a span of class `markdown-error` that holds the
/// message and a line break.
pub open spec fn spec_error_view<F: Context>(cx: F, message: Seq<char>) -> F::View {
    cx.el_with_attributes_spec(
        HtmlElement::Span,
        cx.el_fragment_spec(seq![cx.el_text_spec(message), cx.el_br_spec()]),
        ElementAttributesView { classes: seq![CLASS_ERROR@], style: None, on_click: None },
    )
}

/// The view of a construct: its own, or that of its failure.
pub open spec fn spec_recover<F: Context>(cx: F, rendered: Result<F::View, HtmlErrorView>) -> F::View {
    match rendered {
        Ok(view) => view,
        Err(error) => spec_error_view(cx, error.message()),
    }
}

/// The view of a formula: a span around the typesetter's markup, of class
/// `math-flow` where the formula is displayed and `math-inline` where it is
/// not, whose clicks are reported and go no further.
pub open spec fn spec_maths<F: Context>(
    cx: F,
    markup: Option<Seq<char>>,
    display: bool,
    range: Range<usize>,
) -> Result<F::View, HtmlErrorView> {
    match markup {
        Some(markup) => Ok(
            cx.el_span_with_inner_html_spec(
                markup,
                ElementAttributesView {
                    classes: seq![
                        if display {
                            CLASS_MATH_FLOW@
                        } else {
                            CLASS_MATH_INLINE@
                        },
                    ],
                    style: None,
                    on_click: Some(cx.make_md_handler_spec(range, true)),
                },
            ),
        ),
        None => Err(HtmlErrorView::Math),
    }
}

/// The view of a block of code: the highlighter's markup in a span, or, where
/// there is none, the code as text in two code elements. Clicks on either are
/// reported and go no further.
pub open spec fn spec_code_block<F: Context>(
    cx: F,
    source: Seq<char>,
    kind: CodeBlockKind,
    range: Range<usize>,
) -> F::View {
    let attributes = ElementAttributesView::clickable(cx.make_md_handler_spec(range, true));
    match spec_highlight_code(cx.props_spec().theme, source, kind) {
        None => cx.el_with_attributes_spec(
            HtmlElement::Code,
            cx.el_with_attributes_spec(
                HtmlElement::Code,
                cx.el_text_spec(source),
                ElementAttributesView::empty(),
            ),
            attributes,
        ),
        Some(html) => cx.el_span_with_inner_html_spec(html, attributes),
    }
}

/// The text inside a block of code or of metadata, from `pos` up to the end
/// `end`, added to `text`: the texts in their order, with a newline for each
/// line break. Anything else inside the block is a breach.
pub open spec fn spec_collect_text(
    events: Seq<(MdEvent, Range<usize>)>,
    pos: int,
    end: MdTagEnd,
    text: Seq<char>,
) -> (Result<Seq<char>, StreamError>, int)
    decreases events.len() - pos,
{
    if pos < 0 || pos >= events.len() {
        (Ok(text), pos)
    } else {
        match events[pos].0 {
            MdEvent::Text(s) => spec_collect_text(events, pos + 1, end, text + s@),
            MdEvent::SoftBreak => spec_collect_text(events, pos + 1, end, text.push('\n')),
            MdEvent::HardBreak => spec_collect_text(events, pos + 1, end, text.push('\n')),
            MdEvent::End(e) => if e == end {
                (Ok(text), pos + 1)
            } else {
                (Err(StreamError::UnexpectedContent), pos)
            },
            _ => (Err(StreamError::UnexpectedContent), pos),
        }
    }
}

/// The text inside the container `tag`, if there is any, and the scan after the container.
pub open spec fn spec_children_text(
    events: Seq<(MdEvent, Range<usize>)>,
    scan: Scan,
    tag: MdTag,
) -> (Result<Option<Seq<char>>, StreamError>, Scan) {
    let (text, pos) = spec_collect_text(events, scan.pos, closing_tag(tag), Seq::empty());
    (
        match text {
            Ok(text) => Ok(
                if text.len() == 0 {
                    None
                } else {
                    Some(text)
                },
            ),
            Err(error) => Err(error),
        },
        scan.at(pos),
    )
}

/// Whether the bytes of a tag that starts at `range_offset` lie below the largest address.
pub open spec fn range_fits(call: ComponentCallView) -> bool {
    call.range_offset + utf8_len(call.full_string) <= usize::MAX
}

/// The attribute of a component for an attribute of its tag: the value, and
/// the bytes of the document that hold it.
pub open spec fn spec_convert_attribute(call: ComponentCallView, attribute: AttributeView) -> (
    Seq<char>,
    MdComponentAttributeView,
) {
    (
        attribute.name,
        MdComponentAttributeView {
            value: attribute.value,
            range: Range {
                start: (call.range_offset + attribute.start) as usize,
                end: (call.range_offset + attribute.start + utf8_len(attribute.value)) as usize,
            },
        },
    )
}

/// The attributes of a component for the attributes of its tag, in their order.
pub open spec fn spec_convert_attributes(call: ComponentCallView) -> Seq<
    (Seq<char>, MdComponentAttributeView),
> {
    call.attributes.map_values(|a: AttributeView| spec_convert_attribute(call, a))
}

/// What calling the component of the tag `call` with the children `children`
/// yields: the component's view, or its failure under the component's name.
pub open spec fn spec_call_component<F: Context>(
    cx: F,
    call: ComponentCallView,
    children: F::View,
) -> Result<F::View, HtmlErrorView> {
    if !cx.has_custom_component_spec(call.name) {
        Err(HtmlErrorView::CustomComponent { name: call.name, msg: MSG_NOT_A_COMPONENT@ })
    } else {
        match cx.render_custom_component_spec(
            call.name,
            MdComponentPropsView { attributes: spec_convert_attributes(call), children },
        ) {
            Ok(view) => Ok(view),
            Err(message) => Err(HtmlErrorView::CustomComponent { name: call.name, msg: message }),
        }
    }
}

/// With `views` put before what a scan collected.
pub open spec fn prepend<V>(views: Seq<V>, collected: (Result<Seq<V>, StreamError>, Scan)) -> (
    Result<Seq<V>, StreamError>,
    Scan,
) {
    (
        match collected.0 {
            Ok(rest) => Ok(views + rest),
            Err(error) => Err(error),
        },
        collected.1,
    )
}

/// The view of a whole document: the views that the scan of the document
/// yields, as one.
pub open spec fn spec_document<F: Context>(cx: F, events: Seq<(MdEvent, Range<usize>)>) -> Result<
    F::View,
    StreamError,
> {
    match spec_collect(cx, events, Scan::document()).0 {
        Ok(views) => Ok(cx.el_fragment_spec(views)),
        Err(error) => Err(error),
    }
}

/// One step of a scan: the view of the next construct, or nothing where the
/// scan is at its end, and the scan after the step.
///
/// A scan is at its end where the events are, at the end of its container,
/// which it takes, at the closing tag of its component, which it takes with
/// the block of raw HTML that holds it, and, in the body of a component,
/// before the end of the container around it.
pub open spec fn spec_next<F: Context>(
    cx: F,
    events: Seq<(MdEvent, Range<usize>)>,
    scan: Scan,
) -> (Result<Option<F::View>, StreamError>, Scan)
    decreases events.len() - scan.pos, 2int,
{
    if scan.pos < 0 || scan.pos >= events.len() {
        (Ok(None), scan)
    } else {
        let (event, range) = events[scan.pos];
        let after = scan.at(scan.pos + 1);
        match event {
            MdEvent::End(end) => match scan.end_tag {
                Some(expected) => if expected == end {
                    (Ok(None), after)
                } else {
                    (Err(StreamError::WrongClosingTag), scan)
                },
                None => if scan.current_component is Some {
                    (Ok(None), scan)
                } else {
                    (Err(StreamError::UnexpectedClosingTag), scan)
                },
            },
            MdEvent::Start(MdTag::HtmlBlock) => spec_next_block(cx, events, after, range),
            MdEvent::Start(tag) => {
                let (rendered, then) = spec_render_tag(cx, events, after, tag, range);
                match rendered {
                    Ok(rendered) => (Ok(Some(spec_recover(cx, rendered))), then),
                    Err(error) => (Err(error), then),
                }
            },
            MdEvent::Text(s) => (Ok(Some(spec_text(cx, s@, range))), after),
            MdEvent::Code(s) => (Ok(Some(spec_code(cx, s@, range))), after),
            MdEvent::InlineHtml(s) => spec_next_html(cx, events, after, s@, range),
            MdEvent::Html(s) => spec_next_html(cx, events, after, s@, range),
            MdEvent::FootnoteReference(_) => (
                Ok(
                    Some(
                        spec_error_view(
                            cx,
                            HtmlErrorView::NotImplemented(MSG_FOOTNOTE_REFERENCE@).message(),
                        ),
                    ),
                ),
                after,
            ),
            MdEvent::SoftBreak => (Ok(Some(cx.el_text_spec(" "@))), after),
            MdEvent::HardBreak => (Ok(Some(cx.el_br_spec())), after),
            MdEvent::Rule => (Ok(Some(spec_rule(cx, range))), after),
            MdEvent::TaskListMarker(m) => (Ok(Some(spec_tasklist_marker(cx, m, range))), after),
            MdEvent::InlineMath(math) => (
                Ok(
                    Some(
                        spec_recover(
                            cx,
                            spec_maths(cx, crate::highlight::optional_text(math.markup), false, range),
                        ),
                    ),
                ),
                after,
            ),
            MdEvent::DisplayMath(math) => (
                Ok(
                    Some(
                        spec_recover(
                            cx,
                            spec_maths(cx, crate::highlight::optional_text(math.markup), true, range),
                        ),
                    ),
                ),
                after,
            ),
        }
    }
}

/// What a block of raw HTML is to the scan that has taken its start, told by
/// the first event in the block.
pub enum BlockRole {
    /// The first line opens a registered component.
    Opens(ComponentCallView),
    /// The first line closes the component whose body the scan is in.
    Closes,
    /// A container like any other.
    Plain,
}

/// What the block of raw HTML is whose start the scan has just taken: the
/// scan looks one event ahead, at the first line of the block.
///
/// Outside a component the block opens one where that line is the start of a
/// call of a registered component. In the body of a component, and not inside
/// a container within it, the block closes the component where that line is
/// its closing tag. Any other block is a container.
pub open spec fn spec_block_role<F: Context>(
    cx: F,
    events: Seq<(MdEvent, Range<usize>)>,
    scan: Scan,
) -> BlockRole {
    if 0 <= scan.pos < events.len() {
        match events[scan.pos].0 {
            MdEvent::Html(raw) => match scan.current_component {
                None => match spec_classify(cx, raw@, events[scan.pos].1.start as nat) {
                    ClassifiedView::Start(call) => BlockRole::Opens(call),
                    _ => BlockRole::Plain,
                },
                Some(current) => if scan.end_tag is None && spec_parse_tag(
                    raw@,
                    events[scan.pos].1.start as nat,
                ) == Ok::<CustomHtmlTagView, crate::component::CustomHtmlTagErrorView>(
                    CustomHtmlTagView::End(current),
                ) {
                    BlockRole::Closes
                } else {
                    BlockRole::Plain
                },
            },
            _ => BlockRole::Plain,
        }
    } else {
        BlockRole::Plain
    }
}

/// The scan of the lines that follow the first line of a block of raw HTML
/// which opens the component `name`, up to the end of the block.
pub open spec fn spec_rest_of_block(scan: Scan, name: Seq<char>) -> Scan {
    Scan {
        pos: scan.pos + 1,
        cell_index: 0,
        end_tag: Some(MdTagEnd::HtmlBlock),
        current_component: Some(name),
        ..scan
    }
}

/// The step of a scan that has just taken the start of a block of raw HTML.
///
/// A plain block is a container: its view is that of its lines, as one, and
/// the scan goes on behind its end. A block that opens a component calls the
/// component: the children are the other lines of the block and then what
/// follows the block, up to the closing tag of the component; the view is
/// that of the call, as the one line of the block. A block that closes the
/// component ends the scan of the body; the scan stops behind the block, and
/// the other lines of the block are scanned and not shown.
pub open spec fn spec_next_block<F: Context>(
    cx: F,
    events: Seq<(MdEvent, Range<usize>)>,
    scan: Scan,
    range: Range<usize>,
) -> (Result<Option<F::View>, StreamError>, Scan)
    decreases events.len() - scan.pos, 7int,
{
    match spec_block_role(cx, events, scan) {
        BlockRole::Plain => {
            let (rendered, then) = spec_render_tag(cx, events, scan, MdTag::HtmlBlock, range);
            match rendered {
                Ok(rendered) => (Ok(Some(spec_recover(cx, rendered))), then),
                Err(error) => (Err(error), then),
            }
        },
        BlockRole::Closes => {
            let (lines, then) = spec_children(
                cx,
                events,
                scan.at(scan.pos + 1),
                MdTag::HtmlBlock,
            );
            (
                match lines {
                    Ok(_) => Ok(None),
                    Err(error) => Err(error),
                },
                then,
            )
        },
        BlockRole::Opens(call) => if !range_fits(call) {
            (Err(StreamError::RangeOverflow), scan)
        } else {
            let (lines, behind) = spec_collect(cx, events, spec_rest_of_block(scan, call.name));
            match lines {
                Err(error) => (Err(error), scan.resumed(behind)),
                Ok(lines) => if scan.pos <= behind.pos <= events.len() {
                    let (body, then) = spec_collect(
                        cx,
                        events,
                        scan.resumed(behind).body_of(call.name),
                    );
                    (
                        match body {
                            Ok(body) => Ok(
                                Some(
                                    cx.el_fragment_spec(
                                        seq![
                                            spec_recover(
                                                cx,
                                                spec_call_component(
                                                    cx,
                                                    call,
                                                    cx.el_fragment_spec(lines + body),
                                                ),
                                            ),
                                        ],
                                    ),
                                ),
                            ),
                            Err(error) => Err(error),
                        },
                        scan.resumed(then),
                    )
                } else {
                    (Err(StreamError::UnexpectedContent), scan.resumed(behind))
                },
            }
        },
    }
}

/// The step of a scan that has just taken the raw HTML `raw_html`.
pub open spec fn spec_next_html<F: Context>(
    cx: F,
    events: Seq<(MdEvent, Range<usize>)>,
    scan: Scan,
    raw_html: Seq<char>,
    range: Range<usize>,
) -> (Result<Option<F::View>, StreamError>, Scan)
    decreases events.len() - scan.pos, 5int,
{
    let (outcome, then) = spec_html(cx, events, scan, raw_html, range);
    match outcome {
        Ok(HtmlOutcome::Closed) => (Ok(None), then),
        Ok(HtmlOutcome::Rendered(rendered)) => (Ok(Some(spec_recover(cx, rendered))), then),
        Err(error) => (Err(error), then),
    }
}

/// All the views that a scan yields up to its end, and the scan at its end.
pub open spec fn spec_collect<F: Context>(
    cx: F,
    events: Seq<(MdEvent, Range<usize>)>,
    scan: Scan,
) -> (Result<Seq<F::View>, StreamError>, Scan)
    decreases events.len() - scan.pos, 3int,
{
    let (step, then) = spec_next(cx, events, scan);
    match step {
        Err(error) => (Err(error), then),
        Ok(None) => (Ok(Seq::empty()), then),
        Ok(Some(view)) => if scan.pos < then.pos <= events.len() {
            prepend(seq![view], spec_collect(cx, events, then))
        } else {
            (Ok(seq![view]), then)
        },
    }
}

/// The views of what lies inside the container `tag`, as one view, and the
/// scan after the end of the container. The scan `scan` stands behind the
/// start of the container.
pub open spec fn spec_children<F: Context>(
    cx: F,
    events: Seq<(MdEvent, Range<usize>)>,
    scan: Scan,
    tag: MdTag,
) -> (Result<F::View, StreamError>, Scan)
    decreases events.len() - scan.pos, 4int,
{
    let (views, then) = spec_collect(cx, events, scan.inside(tag));
    (
        match views {
            Ok(views) => Ok(cx.el_fragment_spec(views)),
            Err(error) => Err(error),
        },
        scan.resumed(then),
    )
}

/// The element `element` around what lies inside the container `tag`.
pub open spec fn spec_wrap_children<F: Context>(
    cx: F,
    events: Seq<(MdEvent, Range<usize>)>,
    scan: Scan,
    tag: MdTag,
    element: HtmlElement,
) -> (Result<Result<F::View, HtmlErrorView>, StreamError>, Scan)
    decreases events.len() - scan.pos, 5int,
{
    let (children, then) = spec_children(cx, events, scan, tag);
    (
        match children {
            Ok(children) => Ok(
                Ok(cx.el_with_attributes_spec(element, children, ElementAttributesView::empty())),
            ),
            Err(error) => Err(error),
        },
        then,
    )
}

/// The failure of a container that is not rendered. What lies inside the
/// container is scanned all the same, so that the scan goes on behind its end.
pub open spec fn spec_skip_children<F: Context>(
    cx: F,
    events: Seq<(MdEvent, Range<usize>)>,
    scan: Scan,
    tag: MdTag,
    message: Seq<char>,
) -> (Result<Result<F::View, HtmlErrorView>, StreamError>, Scan)
    decreases events.len() - scan.pos, 5int,
{
    let (children, then) = spec_children(cx, events, scan, tag);
    (
        match children {
            Ok(_) => Ok(Err(HtmlErrorView::NotImplemented(message))),
            Err(error) => Err(error),
        },
        then,
    )
}

/// A link or an image around what lies inside the container `tag`.
pub open spec fn spec_link_children<F: Context>(
    cx: F,
    events: Seq<(MdEvent, Range<usize>)>,
    scan: Scan,
    tag: MdTag,
    link_type: pulldown_cmark::LinkType,
    dest_url: Seq<char>,
    title: Seq<char>,
    image: bool,
) -> (Result<Result<F::View, HtmlErrorView>, StreamError>, Scan)
    decreases events.len() - scan.pos, 5int,
{
    let (children, then) = spec_children(cx, events, scan, tag);
    (
        match children {
            Ok(children) => Ok(
                match spec_link(
                    cx,
                    LinkDescriptionView { url: dest_url, content: children, title, link_type, image },
                ) {
                    Ok(view) => Ok(view),
                    Err(message) => Err(HtmlErrorView::Link(message)),
                },
            ),
            Err(error) => Err(error),
        },
        then,
    )
}

/// The view of the container `tag`, whose start the scan has just taken, and
/// the scan after the end of the container.
///
/// A table hands the alignments of its columns down to its cells. A row and
/// the head of a table count their cells from nought, and the cell with the
/// index `i` is aligned as the column `i`. A block of metadata shows nothing:
/// its text, if it has any, is handed to the context.
pub open spec fn spec_render_tag<F: Context>(
    cx: F,
    events: Seq<(MdEvent, Range<usize>)>,
    scan: Scan,
    tag: MdTag,
    range: Range<usize>,
) -> (Result<Result<F::View, HtmlErrorView>, StreamError>, Scan)
    decreases events.len() - scan.pos, 6int,
{
    match tag {
        MdTag::HtmlBlock => {
            let (children, then) = spec_children(cx, events, scan, tag);
            (
                match children {
                    Ok(children) => Ok(Ok(children)),
                    Err(error) => Err(error),
                },
                then,
            )
        },
        MdTag::Paragraph => spec_wrap_children(cx, events, scan, tag, HtmlElement::Paragraph),
        MdTag::Heading(level) => spec_wrap_children(
            cx,
            events,
            scan,
            tag,
            HtmlElement::Heading(level),
        ),
        MdTag::BlockQuote => spec_wrap_children(cx, events, scan, tag, HtmlElement::BlockQuote),
        MdTag::CodeBlock(kind) => {
            let (text, then) = spec_children_text(events, scan, tag);
            (
                match text {
                    Ok(text) => Ok(
                        Ok(
                            spec_code_block(
                                cx,
                                match text {
                                    Some(text) => text,
                                    None => Seq::empty(),
                                },
                                kind,
                                range,
                            ),
                        ),
                    ),
                    Err(error) => Err(error),
                },
                then,
            )
        },
        MdTag::List(Some(start)) => spec_wrap_children(
            cx,
            events,
            scan,
            tag,
            HtmlElement::Ol(start as i32),
        ),
        MdTag::List(None) => spec_wrap_children(cx, events, scan, tag, HtmlElement::Ul),
        MdTag::Item => spec_wrap_children(cx, events, scan, tag, HtmlElement::Li),
        MdTag::Table(alignments) => spec_wrap_children(
            cx,
            events,
            Scan { column_alignment: Some(alignments@), ..scan },
            tag,
            HtmlElement::Table,
        ),
        MdTag::TableHead => spec_wrap_children(cx, events, scan, tag, HtmlElement::Thead),
        MdTag::TableRow => spec_wrap_children(cx, events, scan, tag, HtmlElement::Trow),
        MdTag::TableCell => match scan.column_alignment {
            Some(alignments) => if 0 <= scan.cell_index < alignments.len() {
                let (children, then) = spec_children(
                    cx,
                    events,
                    Scan { cell_index: scan.cell_index + 1, ..scan },
                    tag,
                );
                (
                    match children {
                        Ok(children) => Ok(
                            Ok(
                                cx.el_with_attributes_spec(
                                    HtmlElement::Tcell,
                                    children,
                                    ElementAttributesView {
                                        classes: Seq::empty(),
                                        style: Some(
                                            spec_align_string(alignments[scan.cell_index]),
                                        ),
                                        on_click: None,
                                    },
                                ),
                            ),
                        ),
                        Err(error) => Err(error),
                    },
                    then,
                )
            } else {
                (Err(StreamError::NoColumn), scan)
            },
            None => (Err(StreamError::NoColumn), scan),
        },
        MdTag::Emphasis => spec_wrap_children(cx, events, scan, tag, HtmlElement::Italics),
        MdTag::Strong => spec_wrap_children(cx, events, scan, tag, HtmlElement::Bold),
        MdTag::Strikethrough => spec_wrap_children(
            cx,
            events,
            scan,
            tag,
            HtmlElement::StrikeThrough,
        ),
        MdTag::Image { link_type, dest_url, title } => spec_link_children(
            cx,
            events,
            scan,
            tag,
            link_type,
            dest_url@,
            title@,
            true,
        ),
        MdTag::Link { link_type, dest_url, title } => spec_link_children(
            cx,
            events,
            scan,
            tag,
            link_type,
            dest_url@,
            title@,
            false,
        ),
        MdTag::FootnoteDefinition => spec_skip_children(cx, events, scan, tag, MSG_FOOTNOTE@),
        MdTag::MetadataBlock => {
            let (text, then) = spec_children_text(events, scan, tag);
            match text {
                Ok(Some(text)) => (
                    Ok(Ok(cx.el_fragment_spec(Seq::empty()))),
                    Scan { frontmatter: then.frontmatter.push(text), ..then },
                ),
                Ok(None) => (Ok(Ok(cx.el_fragment_spec(Seq::empty()))), then),
                Err(error) => (Err(error), then),
            }
        },
        MdTag::DefinitionList => spec_skip_children(cx, events, scan, tag, MSG_DEFINITION_LIST@),
        MdTag::DefinitionListTitle => spec_skip_children(
            cx,
            events,
            scan,
            tag,
            MSG_DEFINITION_LIST@,
        ),
        MdTag::DefinitionListDefinition => spec_skip_children(
            cx,
            events,
            scan,
            tag,
            MSG_DEFINITION_LIST@,
        ),
        MdTag::Superscript => spec_skip_children(cx, events, scan, tag, MSG_SUPERSCRIPT@),
        MdTag::Subscript => spec_skip_children(cx, events, scan, tag, MSG_SUBSCRIPT@),
    }
}

/// What the raw HTML `raw_html`, which the scan has just taken, is rendered as.
///
/// In the body of a component the text is the component's closing tag, or a
/// failure. Elsewhere it is what [`spec_classify`] says: a call of a component,
/// with what follows up to the closing tag as its children where the tag
/// opens the component; a failure; or raw HTML, which is kept as it is.
pub open spec fn spec_html<F: Context>(
    cx: F,
    events: Seq<(MdEvent, Range<usize>)>,
    scan: Scan,
    raw_html: Seq<char>,
    range: Range<usize>,
) -> (Result<HtmlOutcome<F::View>, StreamError>, Scan)
    decreases events.len() - scan.pos, 4int,
{
    let raw = Ok(
        HtmlOutcome::Rendered(
            Ok(cx.el_span_with_inner_html_spec(raw_html, ElementAttributesView::empty())),
        ),
    );
    match scan.current_component {
        Some(current) => (
            if scan.end_tag is Some {
                Ok(
                    HtmlOutcome::Rendered(
                        Err(
                            HtmlErrorView::CustomComponent {
                                name: raw_html,
                                msg: MSG_NEWLINE_BEFORE_END@,
                            },
                        ),
                    ),
                )
            } else {
                match spec_parse_tag(raw_html, range.start as nat) {
                    Ok(CustomHtmlTagView::End(name)) if name == current => Ok(HtmlOutcome::Closed),
                    Ok(_) => Ok(
                        HtmlOutcome::Rendered(
                            Err(
                                HtmlErrorView::CustomComponent {
                                    name: current,
                                    msg: MSG_EXPECTED_END_OF_COMPONENT@,
                                },
                            ),
                        ),
                    ),
                    Err(error) => Ok(
                        HtmlOutcome::Rendered(Err(HtmlErrorView::Syntax(error.message))),
                    ),
                }
            },
            scan,
        ),
        None => match spec_classify(cx, raw_html, range.start as nat) {
            ClassifiedView::Raw => (raw, scan),
            ClassifiedView::Inline(call) => if !range_fits(call) {
                (Err(StreamError::RangeOverflow), scan)
            } else {
                (
                    Ok(
                        HtmlOutcome::Rendered(
                            spec_call_component(cx, call, cx.el_fragment_spec(Seq::empty())),
                        ),
                    ),
                    scan,
                )
            },
            ClassifiedView::Start(call) => if !range_fits(call) {
                (Err(StreamError::RangeOverflow), scan)
            } else {
                let (views, then) = spec_collect(cx, events, scan.body_of(call.name));
                (
                    match views {
                        Ok(views) => Ok(
                            HtmlOutcome::Rendered(
                                spec_call_component(cx, call, cx.el_fragment_spec(views)),
                            ),
                        ),
                        Err(error) => Err(error),
                    },
                    scan.resumed(then),
                )
            },
            ClassifiedView::End(name) => (
                Ok(
                    HtmlOutcome::Rendered(
                        Err(HtmlErrorView::CustomComponent { name, msg: MSG_EXPECTED_START@ }),
                    ),
                ),
                scan,
            ),
            ClassifiedView::Malformed { name, message } => (
                Ok(
                    HtmlOutcome::Rendered(
                        Err(
                            HtmlErrorView::CustomComponent {
                                name,
                                msg: MSG_NOT_A_COMPONENT_BECAUSE@ + message,
                            },
                        ),
                    ),
                ),
                scan,
            ),
        },
    }
}

} // verus!
