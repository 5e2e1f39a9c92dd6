//! The renderer: a walk through the events of a document that builds the
//! views of a user interface.
//!
//! The events are one flat sequence. The nesting of the document is found
//! again by recursion: a container is rendered by a renderer of its own that
//! starts at the cursor, runs to the end of the container and hands the
//! cursor back. No stack is kept besides the call stack.

use vstd::prelude::*;
use core::ops::Range;
use crate::classify::{classify, Classified};
use crate::component::{value_lies_in, ComponentCall, CustomHtmlTag};
use crate::context::{
    distinct_attribute_names, props_attributes_view, Context, ElementAttributes,
    ElementAttributesView, HtmlElement, LinkDescription, MdComponentAttribute, MdComponentProps,
};
use crate::error::{HtmlError, HtmlErrorView};
use crate::event::{
    align_string, as_closing_tag, Alignment, CodeBlockKind, Math, MdEvent, MdTag, MdTagEnd,
};
use crate::highlight::{highlight_code, optional_text};
use crate::scan::{
    prepend, range_fits, spec_block_role, spec_call_component, spec_children,
    spec_children_text, spec_code_block, spec_collect, spec_collect_text,
    spec_convert_attribute, spec_convert_attributes, spec_error_view, spec_html, spec_maths,
    spec_next, spec_next_block, spec_recover, spec_render_tag, BlockRole, HtmlOutcome, Scan,
    StreamError, CLASS_ERROR, CLASS_MATH_FLOW, CLASS_MATH_INLINE, MSG_DEFINITION_LIST,
    MSG_EXPECTED_END_OF_COMPONENT, MSG_EXPECTED_START, MSG_FOOTNOTE, MSG_FOOTNOTE_REFERENCE,
    MSG_NEWLINE_BEFORE_END, MSG_NOT_A_COMPONENT, MSG_NOT_A_COMPONENT_BECAUSE, MSG_SUBSCRIPT,
    MSG_SUPERSCRIPT,
};
use crate::nested::{
    keeps_nesting, lemma_body_behind_scan, lemma_collect_keeps_nesting, lemma_leaf_passes,
    lemma_next_keeps_nesting, lemma_same_place_well_nested, lemma_start_enters,
    scan_well_nested, scope_fits, well_nested,
};
use crate::nesting::lemma_next_respects_nesting;
use crate::range::copy_range;
use crate::text::{byte_len, str_eq};

verus! {

/// A view, or the failure to show in its place, with the failure as its view.
pub open spec fn rendered_view<V>(rendered: Result<V, HtmlError>) -> Result<V, HtmlErrorView> {
    match rendered {
        Ok(view) => Ok(view),
        Err(error) => Err(error@),
    }
}

/// What a container was rendered as, with a failure as its view.
pub open spec fn tag_view<V>(rendered: Result<Result<V, HtmlError>, StreamError>) -> Result<
    Result<V, HtmlErrorView>,
    StreamError,
> {
    match rendered {
        Ok(rendered) => Ok(rendered_view(rendered)),
        Err(error) => Err(error),
    }
}

/// The views in a vector.
pub open spec fn views_of<V>(views: Result<Vec<V>, StreamError>) -> Result<Seq<V>, StreamError> {
    match views {
        Ok(views) => Ok(views@),
        Err(error) => Err(error),
    }
}

/// The characters of an optional text.
pub open spec fn text_of(text: Result<Option<String>, StreamError>) -> Result<
    Option<Seq<char>>,
    StreamError,
> {
    match text {
        Ok(text) => Ok(optional_text(text)),
        Err(error) => Err(error),
    }
}

/// What a piece of raw HTML turned out to be.
pub enum HtmlStep<V> {
    /// The closing tag of the component whose body is being rendered.
    Closed,
    /// A view, or a failure to show in its place.
    Rendered(Result<V, HtmlError>),
}

/// What a block of raw HTML is to the renderer that has taken its start.
pub enum BlockStep<'a> {
    /// The first line opens a registered component.
    Opens(ComponentCall<'a>),
    /// The first line closes the component whose body is being rendered.
    Closes,
    /// A container like any other.
    Plain,
}

impl<'a> View for BlockStep<'a> {
    type V = BlockRole;

    open spec fn view(&self) -> BlockRole {
        match self {
            BlockStep::Opens(call) => BlockRole::Opens(call@),
            BlockStep::Closes => BlockRole::Closes,
            BlockStep::Plain => BlockRole::Plain,
        }
    }
}

/// What a piece of raw HTML turned out to be, with a failure as its view.
pub open spec fn html_view<V>(step: Result<HtmlStep<V>, StreamError>) -> Result<
    HtmlOutcome<V>,
    StreamError,
> {
    match step {
        Ok(HtmlStep::Closed) => Ok(HtmlOutcome::Closed),
        Ok(HtmlStep::Rendered(rendered)) => Ok(HtmlOutcome::Rendered(rendered_view(rendered))),
        Err(error) => Err(error),
    }
}

/// Shows a failure: a span of class `markdown-error` with the message and a line break.
pub fn error_view<F: Context>(cx: F, error: &HtmlError) -> (view: F::View)
    ensures
        view == spec_error_view(cx, error@.message()),
{
    let message = error.to_string();
    let mut parts: Vec<F::View> = Vec::new();
    parts.push(cx.el_text(message.as_str()));
    parts.push(cx.el_br());
    assert(parts@ =~= seq![cx.el_text_spec(message@), cx.el_br_spec()]);
    let mut classes: Vec<String> = Vec::new();
    classes.push(CLASS_ERROR.to_string());
    let attributes = ElementAttributes { classes, on_click: None, style: None };
    assert(attributes@.classes =~= seq![CLASS_ERROR@]);
    cx.el_with_attributes(HtmlElement::Span, cx.el_fragment(parts), attributes)
}

/// The view of a construct: its own, or that of its failure.
pub fn recover<F: Context>(cx: F, rendered: Result<F::View, HtmlError>) -> (view: F::View)
    ensures
        view == spec_recover(cx, rendered_view(rendered)),
{
    match rendered {
        Ok(view) => view,
        Err(error) => error_view(cx, &error),
    }
}

/// Shows a formula that the typesetter has been through: its markup in a span,
/// or the failure where there is no markup.
pub fn render_maths<F: Context>(cx: F, math: &Math, display: bool, range: Range<usize>) -> (r:
    Result<F::View, HtmlError>)
    ensures
        rendered_view(r) == spec_maths(cx, optional_text(math.markup), display, range),
{
    match &math.markup {
        Some(markup) => {
            let class_name = if display {
                CLASS_MATH_FLOW
            } else {
                CLASS_MATH_INLINE
            };
            let callback = cx.make_md_handler(range, true);
            let mut classes: Vec<String> = Vec::new();
            classes.push(class_name.to_string());
            let attributes = ElementAttributes { classes, on_click: Some(callback), style: None };
            assert(attributes@.classes =~= seq![class_name@]);
            Ok(cx.el_span_with_inner_html(markup.clone(), attributes))
        },
        None => Err(HtmlError::Math),
    }
}

/// Shows a block of code, with syntax highlighting where that is possible.
pub fn render_code_block<F: Context>(
    cx: F,
    source: String,
    kind: &CodeBlockKind,
    range: Range<usize>,
) -> (view: F::View)
    ensures
        view == spec_code_block(cx, source@, *kind, range),
{
    let code_attributes = ElementAttributes::with_handler(cx.make_md_handler(range, true));
    let props = cx.props();
    match highlight_code(props.theme, source.as_str(), kind) {
        None => cx.el_with_attributes(
            HtmlElement::Code,
            cx.el(HtmlElement::Code, cx.el_text(source.as_str())),
            code_attributes,
        ),
        Some(html) => cx.el_span_with_inner_html(html, code_attributes),
    }
}

/// The attributes of a component for those of its tag: each value with the
/// bytes of the document that hold it. There are none where the bytes of the
/// tag would lie beyond the largest address.
pub fn convert_attributes(input: &ComponentCall) -> (r: Option<Vec<(String, MdComponentAttribute)>>)
    requires
        input@.wf(),
    ensures
        match r {
            Some(attributes) => range_fits(input@) && props_attributes_view(attributes@)
                == spec_convert_attributes(input@) && distinct_attribute_names(
                props_attributes_view(attributes@),
            ),
            None => !range_fits(input@),
        },
{
    if byte_len(input.full_string) > usize::MAX - input.range_offset {
        return None;
    }
    let mut attributes: Vec<(String, MdComponentAttribute)> = Vec::new();
    let mut i: usize = 0;
    assert(props_attributes_view(attributes@) =~= spec_convert_attributes(input@).take(0));
    while i < input.attributes.len()
        invariant
            i <= input.attributes.len(),
            input@.wf(),
            range_fits(input@),
            props_attributes_view(attributes@) == spec_convert_attributes(input@).take(i as int),
        decreases input.attributes.len() - i,
    {
        let attribute = &input.attributes[i];
        assert(input@.attributes[i as int] == attribute@);
        assert(value_lies_in(input@.full_string, input@.attributes[i as int]));
        let length = byte_len(attribute.value);
        let start = input.range_offset + attribute.start;
        let converted = MdComponentAttribute::new(
            attribute.value.to_string(),
            start..(start + length),
        );
        let name = attribute.name.to_string();
        let ghost before = attributes@;
        assert((name@, converted@) == spec_convert_attribute(input@, attribute@));
        attributes.push((name, converted));
        proof {
            let all = spec_convert_attributes(input@);
            let now = props_attributes_view(attributes@);
            assert(all[i as int] == spec_convert_attribute(input@, input@.attributes[i as int]));
            assert(all.len() == input.attributes@.len());
            assert(props_attributes_view(before).len() == before.len());
            assert(all.take(i as int).len() == i);
            assert(now.len() == i + 1);
            assert forall|j: int| 0 <= j < i + 1 implies now[j] == all.take(i + 1)[j] by {
                if j < i {
                    assert(now[j] == props_attributes_view(before)[j]);
                    assert(all.take(i as int)[j] == all[j]);
                } else {
                    assert(attributes@[j] == (name, converted));
                }
            }
            assert(now =~= all.take(i + 1));
        }
        i += 1;
    }
    assert(spec_convert_attributes(input@).take(i as int) =~= spec_convert_attributes(input@));
    proof {
        let converted = spec_convert_attributes(input@);
        assert forall|i: int, j: int| 0 <= i < j < converted.len() implies (
        #[trigger] converted[i]).0 != (#[trigger] converted[j]).0 by {
            assert(converted[i].0 == input@.attributes[i].name);
            assert(converted[j].0 == input@.attributes[j].name);
        }
    }
    Some(attributes)
}

/// Calls the component of a tag with the children `children`. The rendering
/// fails where the bytes of the tag would lie beyond the largest address.
fn call_component<F: Context>(cx: F, description: &ComponentCall, children: F::View) -> (r: Result<
    HtmlStep<F::View>,
    StreamError,
>)
    requires
        description@.wf(),
    ensures
        html_view(r) == (if !range_fits(description@) {
            Err(StreamError::RangeOverflow)
        } else {
            Ok(HtmlOutcome::Rendered(spec_call_component(cx, description@, children)))
        }),
{
    let attributes = match convert_attributes(description) {
        Some(attributes) => attributes,
        None => {
            return Err(StreamError::RangeOverflow);
        },
    };
    let name: &str = description.name;
    if !cx.has_custom_component(name) {
        return Ok(HtmlStep::Rendered(Err(HtmlError::component(name, MSG_NOT_A_COMPONENT))));
    }
    let props = MdComponentProps { attributes, children };
    Ok(
        HtmlStep::Rendered(
            match cx.render_custom_component(name, props) {
                Ok(view) => Ok(view),
                Err(error) => Err(
                    HtmlError::CustomComponent { name: name.to_string(), msg: error.0 },
                ),
            },
        ),
    )
}

/// The text, if there is any.
fn non_empty(text: String) -> (r: Option<String>)
    ensures
        optional_text(r) == (if text@.len() == 0 {
            None
        } else {
            Some(text@)
        }),
{
    if text.as_str().is_empty() {
        None
    } else {
        Some(text)
    }
}

/// Makes views of a stream of Markdown events.
pub struct Renderer<'e, F: Context> {
    /// The user interface.
    pub cx: F,
    /// The events of the document.
    pub events: &'e Vec<(MdEvent, Range<usize>)>,
    /// The cursor: the index of the next event.
    pub pos: usize,
    /// The alignments of the columns of the table that was entered last.
    pub column_alignment: Option<&'e Vec<Alignment>>,
    /// How many cells this renderer has met.
    pub cell_index: usize,
    /// The end of the container that this renderer renders.
    pub end_tag: Option<MdTagEnd>,
    /// The component whose body is being rendered. Components do not nest.
    pub current_component: Option<&'e str>,
    /// The metadata that was handed to the context so far.
    pub frontmatter: Ghost<Seq<Seq<char>>>,
}

impl<'e, F: Context> Renderer<'e, F> {
    /// The state of the scan that this renderer performs.
    pub open spec fn scan(&self) -> Scan {
        Scan {
            pos: self.pos as int,
            column_alignment: match self.column_alignment {
                Some(alignments) => Some(alignments@),
                None => None,
            },
            cell_index: self.cell_index as int,
            end_tag: self.end_tag,
            current_component: match self.current_component {
                Some(name) => Some(name@),
                None => None,
            },
            frontmatter: self.frontmatter@,
        }
    }

    /// The cursor has moved forward, if at all, and not beyond the events.
    pub open spec fn advanced_from(&self, before: &Self) -> bool {
        &&& self.cx == before.cx
        &&& self.events == before.events
        &&& before.pos <= self.pos
        &&& before.pos <= before.events@.len() ==> self.pos <= before.events@.len()
    }

    /// A renderer for a whole document.
    pub fn new(cx: F, events: &'e Vec<(MdEvent, Range<usize>)>) -> (renderer: Self)
        ensures
            renderer.cx == cx,
            renderer.events == events,
            renderer.scan() == Scan::document(),
    {
        Self {
            cx,
            events,
            pos: 0,
            column_alignment: None,
            cell_index: 0,
            end_tag: None,
            current_component: None,
            frontmatter: Ghost(Seq::empty()),
        }
    }

    /// The index of the next event.
    pub fn position(&self) -> (pos: usize)
        ensures
            pos == self.pos,
    {
        self.pos
    }

    /// This renderer stands in a stream that is well nested from its cursor
    /// on: every end that it can meet is that of the innermost open container.
    pub open spec fn well_nested(&self) -> bool {
        self.pos <= self.events@.len() && scan_well_nested(self.events@, self.scan())
    }

    /// This renderer stands behind the start of the container `tag`, in a
    /// stream that is well nested from its cursor on.
    pub open spec fn well_nested_inside(&self, tag: MdTag) -> bool {
        self.pos <= self.events@.len() && scan_well_nested(self.events@, self.scan().inside(tag))
    }

    /// The view of the next construct, or nothing where the renderer is at
    /// its end. The stream must be well nested: then no end is met that does
    /// not match, and the renderer can go on behind every view.
    pub fn next(&mut self) -> (r: Result<Option<F::View>, StreamError>)
        requires
            old(self).well_nested(),
        ensures
            (r, final(self).scan()) == spec_next(old(self).cx, old(self).events@, old(self).scan()),
            final(self).advanced_from(old(self)),
            r matches Ok(Some(_)) ==> old(self).pos < final(self).pos && final(self).well_nested(),
            keeps_nesting(r),
        decreases old(self).events@.len() - old(self).pos, 2int,
    {
        proof {
            let open = choose|open: Seq<MdTagEnd>| #[trigger]
                well_nested(self.events@, self.scan().pos, open) && scope_fits(self.scan(), open);
            lemma_next_keeps_nesting(self.cx, self.events@, self.scan(), open);
            lemma_next_respects_nesting(self.cx, self.events@, self.scan());
            let (step, then) = spec_next(self.cx, self.events@, self.scan());
            if step matches Ok(Some(_)) {
                assert(well_nested(self.events@, then.pos, open) && scope_fits(then, open));
            }
        }
        let events: &'e Vec<(MdEvent, Range<usize>)> = self.events;
        let cx = self.cx;
        if self.pos >= events.len() {
            return Ok(None);
        }
        let event = &events[self.pos].0;
        let range = copy_range(&events[self.pos].1);
        {
            let rendered = match event {
                MdEvent::Start(tag) => {
                    self.pos = self.pos + 1;
                    proof {
                        lemma_start_enters(self.events@, old(self).scan(), *tag);
                    }
                    match tag {
                        MdTag::HtmlBlock => {
                            return self.next_block(tag, range);
                        },
                        _ => {},
                    }
                    match self.render_tag(tag, range) {
                        Ok(rendered) => rendered,
                        Err(error) => {
                            return Err(error);
                        },
                    }
                },
                MdEvent::End(end) => {
                    match self.end_tag {
                        Some(expected) => {
                            if expected == *end {
                                self.pos = self.pos + 1;
                                return Ok(None);
                            } else {
                                // No such end stands in a well nested stream.
                                assert(false);
                                return Err(StreamError::WrongClosingTag);
                            }
                        },
                        None => {
                            if self.current_component.is_some() {
                                return Ok(None);
                            } else {
                                // No such end stands in a well nested stream.
                                assert(false);
                                return Err(StreamError::UnexpectedClosingTag);
                            }
                        },
                    }
                },
                MdEvent::Text(s) => {
                    self.pos = self.pos + 1;
                    Ok(cx.render_text(s.as_str(), range))
                },
                MdEvent::Code(s) => {
                    self.pos = self.pos + 1;
                    Ok(cx.render_code(s.as_str(), range))
                },
                MdEvent::InlineHtml(s) => {
                    self.pos = self.pos + 1;
                    proof {
                        lemma_leaf_passes(self.events@, old(self).scan());
                    }
                    return self.next_html(s.as_str(), range);
                },
                MdEvent::Html(s) => {
                    self.pos = self.pos + 1;
                    proof {
                        lemma_leaf_passes(self.events@, old(self).scan());
                    }
                    return self.next_html(s.as_str(), range);
                },
                MdEvent::FootnoteReference(_) => {
                    self.pos = self.pos + 1;
                    Err(HtmlError::not_implemented(MSG_FOOTNOTE_REFERENCE))
                },
                MdEvent::SoftBreak => {
                    self.pos = self.pos + 1;
                    Ok(cx.el_text(" "))
                },
                MdEvent::HardBreak => {
                    self.pos = self.pos + 1;
                    Ok(cx.el_br())
                },
                MdEvent::Rule => {
                    self.pos = self.pos + 1;
                    Ok(cx.render_rule(range))
                },
                MdEvent::TaskListMarker(m) => {
                    self.pos = self.pos + 1;
                    Ok(cx.render_tasklist_marker(*m, range))
                },
                MdEvent::InlineMath(math) => {
                    self.pos = self.pos + 1;
                    render_maths(cx, math, false, range)
                },
                MdEvent::DisplayMath(math) => {
                    self.pos = self.pos + 1;
                    render_maths(cx, math, true, range)
                },
            };
            return Ok(Some(recover(cx, rendered)));
        }
    }

    /// Looks one event ahead, at the first line of the block of raw HTML
    /// whose start has just been taken, and tells what the block is.
    pub fn block_role(&self) -> (role: BlockStep<'e>)
        ensures
            role@ == spec_block_role(self.cx, self.events@, self.scan()),
            role matches BlockStep::Opens(call) ==> call@.wf(),
            role is Plain || self.pos < self.events.len(),
    {
        let events: &'e Vec<(MdEvent, Range<usize>)> = self.events;
        if self.pos >= events.len() {
            return BlockStep::Plain;
        }
        let offset = events[self.pos].1.start;
        match &events[self.pos].0 {
            MdEvent::Html(raw) => {
                match self.current_component {
                    None => match classify(self.cx, raw.as_str(), offset) {
                        Classified::Start(call) => BlockStep::Opens(call),
                        _ => BlockStep::Plain,
                    },
                    Some(current) => {
                        if self.end_tag.is_some() {
                            return BlockStep::Plain;
                        }
                        match CustomHtmlTag::from_str(raw.as_str(), offset) {
                            Ok(CustomHtmlTag::End(name)) => {
                                if str_eq(name, current) {
                                    BlockStep::Closes
                                } else {
                                    BlockStep::Plain
                                }
                            },
                            _ => BlockStep::Plain,
                        }
                    },
                }
            },
            _ => BlockStep::Plain,
        }
    }

    /// The step of a renderer that has just taken the start of a block of raw
    /// HTML: a container of its lines, the call of the component that its
    /// first line opens, or the end of the body that its first line closes.
    pub fn next_block(&mut self, tag: &'e MdTag, range: Range<usize>) -> (r: Result<
        Option<F::View>,
        StreamError,
    >)
        requires
            *tag == MdTag::HtmlBlock,
            old(self).well_nested_inside(*tag),
        ensures
            (r, final(self).scan()) == spec_next_block(
                old(self).cx,
                old(self).events@,
                old(self).scan(),
                range,
            ),
            final(self).advanced_from(old(self)),
        decreases old(self).events@.len() - old(self).pos, 7int,
    {
        let cx = self.cx;
        match self.block_role() {
            BlockStep::Plain => match self.render_tag(tag, range) {
                Ok(rendered) => Ok(Some(recover(cx, rendered))),
                Err(error) => Err(error),
            },
            BlockStep::Closes => {
                self.pos = self.pos + 1;
                proof {
                    lemma_leaf_passes(self.events@, old(self).scan().inside(*tag));
                }
                match self.children(tag) {
                    Ok(_) => Ok(None),
                    Err(error) => Err(error),
                }
            },
            BlockStep::Opens(description) => {
                if byte_len(description.full_string) > usize::MAX - description.range_offset {
                    return Err(StreamError::RangeOverflow);
                }
                let mut rest_of_block = Renderer {
                    cx: self.cx,
                    events: self.events,
                    pos: self.pos + 1,
                    column_alignment: self.column_alignment,
                    cell_index: 0,
                    end_tag: Some(MdTagEnd::HtmlBlock),
                    current_component: Some(description.name),
                    frontmatter: self.frontmatter,
                };
                proof {
                    let inside = old(self).scan().inside(*tag);
                    lemma_leaf_passes(self.events@, inside);
                    lemma_same_place_well_nested(
                        self.events@,
                        inside.at(inside.pos + 1),
                        rest_of_block.scan(),
                    );
                }
                let ghost rest = rest_of_block.scan();
                let lines = rest_of_block.collect();
                self.pos = rest_of_block.pos;
                self.frontmatter = rest_of_block.frontmatter;
                let mut children = match lines {
                    Ok(lines) => lines,
                    Err(error) => {
                        return Err(error);
                    },
                };
                let ghost shown = children@;
                let mut body_renderer = Renderer {
                    cx: self.cx,
                    events: self.events,
                    pos: self.pos,
                    column_alignment: self.column_alignment,
                    cell_index: 0,
                    end_tag: None,
                    current_component: Some(description.name),
                    frontmatter: self.frontmatter,
                };
                proof {
                    lemma_body_behind_scan(self.cx, self.events@, rest, body_renderer.scan());
                }
                let body = body_renderer.collect();
                self.pos = body_renderer.pos;
                self.frontmatter = body_renderer.frontmatter;
                let mut body = match body {
                    Ok(body) => body,
                    Err(error) => {
                        return Err(error);
                    },
                };
                children.append(&mut body);
                let called = match call_component(cx, &description, cx.el_fragment(children)) {
                    Ok(HtmlStep::Rendered(called)) => called,
                    Ok(HtmlStep::Closed) => {
                        return Ok(None);
                    },
                    Err(error) => {
                        return Err(error);
                    },
                };
                let mut line: Vec<F::View> = Vec::new();
                line.push(recover(cx, called));
                assert(line@ =~= seq![spec_recover(cx, rendered_view(called))]);
                Ok(Some(cx.el_fragment(line)))
            },
        }
    }

    /// The step of a renderer that has just taken the raw HTML `raw_html`.
    pub fn next_html(&mut self, raw_html: &'e str, range: Range<usize>) -> (r: Result<
        Option<F::View>,
        StreamError,
    >)
        requires
            old(self).well_nested(),
        ensures
            (r, final(self).scan()) == crate::scan::spec_next_html(
                old(self).cx,
                old(self).events@,
                old(self).scan(),
                raw_html@,
                range,
            ),
            final(self).advanced_from(old(self)),
        decreases old(self).events@.len() - old(self).pos, 6int,
    {
        match self.html(raw_html, range) {
            Ok(HtmlStep::Rendered(rendered)) => Ok(Some(recover(self.cx, rendered))),
            Ok(HtmlStep::Closed) => Ok(None),
            Err(error) => Err(error),
        }
    }

    /// All the views up to the end of this renderer. The stream must be well
    /// nested: then no end is met that does not match.
    pub fn collect(&mut self) -> (r: Result<Vec<F::View>, StreamError>)
        requires
            old(self).well_nested(),
        ensures
            (views_of(r), final(self).scan()) == spec_collect(
                old(self).cx,
                old(self).events@,
                old(self).scan(),
            ),
            final(self).advanced_from(old(self)),
            keeps_nesting(r),
        decreases old(self).events@.len() - old(self).pos, 3int,
    {
        proof {
            let open = choose|open: Seq<MdTagEnd>| #[trigger]
                well_nested(self.events@, self.scan().pos, open) && scope_fits(self.scan(), open);
            lemma_collect_keeps_nesting(self.cx, self.events@, self.scan(), open);
        }
        let mut views: Vec<F::View> = Vec::new();
        assert(prepend(views@, spec_collect(self.cx, self.events@, self.scan())) == spec_collect(
            self.cx,
            self.events@,
            self.scan(),
        )) by {
            let collected = spec_collect(self.cx, self.events@, self.scan());
            if collected.0 is Ok {
                assert(views@ + collected.0->Ok_0 =~= collected.0->Ok_0);
            }
        }
        loop
            invariant
                self.well_nested(),
                self.advanced_from(old(self)),
                prepend(views@, spec_collect(self.cx, self.events@, self.scan())) == spec_collect(
                    old(self).cx,
                    old(self).events@,
                    old(self).scan(),
                ),
            decreases
                    (if self.pos <= self.events@.len() {
                        self.events@.len() - self.pos
                    } else {
                        0
                    }),
        {
            let ghost collected = views@;
            match self.next() {
                Ok(Some(view)) => {
                    views.push(view);
                    proof {
                        let rest = spec_collect(self.cx, self.events@, self.scan());
                        if rest.0 is Ok {
                            assert(collected + (seq![view] + rest.0->Ok_0) =~= views@
                                + rest.0->Ok_0);
                        }
                    }
                },
                Ok(None) => {
                    assert(views@ + Seq::<F::View>::empty() =~= views@);
                    return Ok(views);
                },
                Err(error) => {
                    return Err(error);
                },
            }
        }
    }

    /// Renders what lies inside the container `tag` in a renderer of its own,
    /// up to the end of the container. The stream must be well nested inside
    /// the container, as it is behind every start that `next` takes.
    pub fn children(&mut self, tag: &MdTag) -> (r: Result<F::View, StreamError>)
        requires
            old(self).well_nested_inside(*tag),
        ensures
            (r, final(self).scan()) == spec_children(
                old(self).cx,
                old(self).events@,
                old(self).scan(),
                *tag,
            ),
            final(self).advanced_from(old(self)),
        decreases old(self).events@.len() - old(self).pos, 4int,
    {
        let mut sub_renderer = Renderer {
            cx: self.cx,
            events: self.events,
            pos: self.pos,
            column_alignment: self.column_alignment,
            cell_index: 0,
            end_tag: Some(as_closing_tag(tag)),
            current_component: self.current_component,
            frontmatter: self.frontmatter,
        };
        let views = sub_renderer.collect();
        self.pos = sub_renderer.pos;
        self.frontmatter = sub_renderer.frontmatter;
        match views {
            Ok(views) => Ok(self.cx.el_fragment(views)),
            Err(error) => Err(error),
        }
    }

    /// Collects the text inside `tag` up to its end. A line break counts as a newline.
    pub fn children_text(&mut self, tag: &MdTag) -> (r: Result<Option<String>, StreamError>)
        ensures
            (text_of(r), final(self).scan()) == spec_children_text(
                old(self).events@,
                old(self).scan(),
                *tag,
            ),
            final(self).advanced_from(old(self)),
    {
        let end = as_closing_tag(tag);
        let events: &'e Vec<(MdEvent, Range<usize>)> = self.events;
        let mut buf = String::new();
        loop
            invariant
                self.advanced_from(old(self)),
                events == self.events,
                end == crate::event::closing_tag(*tag),
                self.scan() == old(self).scan().at(self.pos as int),
                spec_collect_text(self.events@, self.pos as int, end, buf@) == spec_collect_text(
                    old(self).events@,
                    old(self).pos as int,
                    end,
                    Seq::empty(),
                ),
            decreases self.events@.len() - self.pos,
        {
            if self.pos >= events.len() {
                return Ok(non_empty(buf));
            }
            let ghost text = buf@;
            match &events[self.pos].0 {
                MdEvent::Text(s) => {
                    buf = buf.concat(s.as_str());
                    self.pos = self.pos + 1;
                },
                MdEvent::SoftBreak => {
                    buf = buf.concat("\n");
                    proof {
                        reveal_strlit("\n");
                        assert(text + "\n"@ =~= text.push('\n'));
                    }
                    self.pos = self.pos + 1;
                },
                MdEvent::HardBreak => {
                    buf = buf.concat("\n");
                    proof {
                        reveal_strlit("\n");
                        assert(text + "\n"@ =~= text.push('\n'));
                    }
                    self.pos = self.pos + 1;
                },
                MdEvent::End(e) => {
                    if *e == end {
                        self.pos = self.pos + 1;
                        return Ok(non_empty(buf));
                    } else {
                        return Err(StreamError::UnexpectedContent);
                    }
                },
                _ => {
                    return Err(StreamError::UnexpectedContent);
                },
            }
        }
    }

    /// Renders the element `element` around what lies inside `tag`.
    pub fn wrap_children(&mut self, tag: &MdTag, element: HtmlElement) -> (r: Result<
        Result<F::View, HtmlError>,
        StreamError,
    >)
        requires
            old(self).well_nested_inside(*tag),
        ensures
            (tag_view(r), final(self).scan()) == crate::scan::spec_wrap_children(
                old(self).cx,
                old(self).events@,
                old(self).scan(),
                *tag,
                element,
            ),
            final(self).advanced_from(old(self)),
        decreases old(self).events@.len() - old(self).pos, 5int,
    {
        match self.children(tag) {
            Ok(children) => Ok(Ok(self.cx.el(element, children))),
            Err(error) => Err(error),
        }
    }

    /// Scans what lies inside a container that is not rendered, and fails for it.
    pub fn skip_children(&mut self, tag: &MdTag, message: &str) -> (r: Result<
        Result<F::View, HtmlError>,
        StreamError,
    >)
        requires
            old(self).well_nested_inside(*tag),
        ensures
            (tag_view(r), final(self).scan()) == crate::scan::spec_skip_children(
                old(self).cx,
                old(self).events@,
                old(self).scan(),
                *tag,
                message@,
            ),
            final(self).advanced_from(old(self)),
        decreases old(self).events@.len() - old(self).pos, 5int,
    {
        match self.children(tag) {
            Ok(_) => Ok(Err(HtmlError::not_implemented(message))),
            Err(error) => Err(error),
        }
    }

    /// Renders a link or an image around what lies inside `tag`.
    pub fn link_children(
        &mut self,
        tag: &MdTag,
        link_type: pulldown_cmark::LinkType,
        dest_url: &String,
        title: &String,
        image: bool,
    ) -> (r: Result<Result<F::View, HtmlError>, StreamError>)
        requires
            old(self).well_nested_inside(*tag),
        ensures
            (tag_view(r), final(self).scan()) == crate::scan::spec_link_children(
                old(self).cx,
                old(self).events@,
                old(self).scan(),
                *tag,
                link_type,
                dest_url@,
                title@,
                image,
            ),
            final(self).advanced_from(old(self)),
        decreases old(self).events@.len() - old(self).pos, 5int,
    {
        match self.children(tag) {
            Ok(content) => {
                let description = LinkDescription {
                    url: dest_url.clone(),
                    title: title.clone(),
                    content,
                    link_type,
                    image,
                };
                Ok(
                    match self.cx.render_link(description) {
                        Ok(view) => Ok(view),
                        Err(message) => Err(HtmlError::Link(message)),
                    },
                )
            },
            Err(error) => Err(error),
        }
    }

    /// Renders the container `tag`, whose start has just been taken. The
    /// stream must be well nested inside the container.
    pub fn render_tag(&mut self, tag: &'e MdTag, range: Range<usize>) -> (r: Result<
        Result<F::View, HtmlError>,
        StreamError,
    >)
        requires
            old(self).well_nested_inside(*tag),
        ensures
            (tag_view(r), final(self).scan()) == spec_render_tag(
                old(self).cx,
                old(self).events@,
                old(self).scan(),
                *tag,
                range,
            ),
            final(self).advanced_from(old(self)),
        decreases old(self).events@.len() - old(self).pos, 6int,
    {
        let cx = self.cx;
        match tag {
            MdTag::HtmlBlock => match self.children(tag) {
                Ok(children) => Ok(Ok(children)),
                Err(error) => Err(error),
            },
            MdTag::Paragraph => self.wrap_children(tag, HtmlElement::Paragraph),
            MdTag::Heading(level) => self.wrap_children(tag, HtmlElement::Heading(*level)),
            MdTag::BlockQuote => self.wrap_children(tag, HtmlElement::BlockQuote),
            MdTag::CodeBlock(kind) => {
                match self.children_text(tag) {
                    Ok(text) => {
                        let source = match text {
                            Some(text) => text,
                            None => String::new(),
                        };
                        Ok(Ok(render_code_block(cx, source, kind, range)))
                    },
                    Err(error) => Err(error),
                }
            },
            MdTag::List(Some(start)) => self.wrap_children(
                tag,
                HtmlElement::Ol(
                    #[verifier::truncate]
                    (*start as i32),
                ),
            ),
            MdTag::List(None) => self.wrap_children(tag, HtmlElement::Ul),
            MdTag::Item => self.wrap_children(tag, HtmlElement::Li),
            MdTag::Table(alignments) => {
                self.column_alignment = Some(alignments);
                proof {
                    lemma_same_place_well_nested(
                        self.events@,
                        old(self).scan().inside(*tag),
                        self.scan().inside(*tag),
                    );
                }
                self.wrap_children(tag, HtmlElement::Table)
            },
            MdTag::TableHead => self.wrap_children(tag, HtmlElement::Thead),
            MdTag::TableRow => self.wrap_children(tag, HtmlElement::Trow),
            MdTag::TableCell => {
                let alignments = match self.column_alignment {
                    Some(alignments) => alignments,
                    None => {
                        return Err(StreamError::NoColumn);
                    },
                };
                if self.cell_index >= alignments.len() {
                    return Err(StreamError::NoColumn);
                }
                let align = alignments[self.cell_index];
                self.cell_index = self.cell_index + 1;
                proof {
                    lemma_same_place_well_nested(
                        self.events@,
                        old(self).scan().inside(*tag),
                        self.scan().inside(*tag),
                    );
                }
                match self.children(tag) {
                    Ok(children) => {
                        let attributes = ElementAttributes {
                            classes: Vec::new(),
                            style: Some(align_string(align).to_string()),
                            on_click: None,
                        };
                        assert(attributes@.classes =~= Seq::empty());
                        Ok(Ok(cx.el_with_attributes(HtmlElement::Tcell, children, attributes)))
                    },
                    Err(error) => Err(error),
                }
            },
            MdTag::Emphasis => self.wrap_children(tag, HtmlElement::Italics),
            MdTag::Strong => self.wrap_children(tag, HtmlElement::Bold),
            MdTag::Strikethrough => self.wrap_children(tag, HtmlElement::StrikeThrough),
            MdTag::Image { link_type, dest_url, title } => self.link_children(
                tag,
                *link_type,
                dest_url,
                title,
                true,
            ),
            MdTag::Link { link_type, dest_url, title } => self.link_children(
                tag,
                *link_type,
                dest_url,
                title,
                false,
            ),
            MdTag::FootnoteDefinition => self.skip_children(tag, MSG_FOOTNOTE),
            MdTag::MetadataBlock => {
                match self.children_text(tag) {
                    Ok(text) => {
                        match text {
                            Some(text) => {
                                proof {
                                    self.frontmatter@ = self.frontmatter@.push(text@);
                                }
                                cx.set_frontmatter(text);
                            },
                            None => {},
                        }
                        Ok(Ok(cx.el_empty()))
                    },
                    Err(error) => Err(error),
                }
            },
            MdTag::DefinitionList => self.skip_children(tag, MSG_DEFINITION_LIST),
            MdTag::DefinitionListTitle => self.skip_children(tag, MSG_DEFINITION_LIST),
            MdTag::DefinitionListDefinition => self.skip_children(tag, MSG_DEFINITION_LIST),
            MdTag::Superscript => self.skip_children(tag, MSG_SUPERSCRIPT),
            MdTag::Subscript => self.skip_children(tag, MSG_SUBSCRIPT),
        }
    }

    /// Renders the raw HTML as it stands, in a span.
    fn raw_html(&self, raw_html: &str) -> (r: Result<HtmlStep<F::View>, StreamError>)
        ensures
            html_view(r) == Ok::<HtmlOutcome<F::View>, StreamError>(
                HtmlOutcome::Rendered(
                    Ok(
                        self.cx.el_span_with_inner_html_spec(
                            raw_html@,
                            ElementAttributesView::empty(),
                        ),
                    ),
                ),
            ),
    {
        Ok(
            HtmlStep::Rendered(
                Ok(
                    self.cx.el_span_with_inner_html(
                        raw_html.to_string(),
                        ElementAttributes::default(),
                    ),
                ),
            ),
        )
    }

    /// Renders a piece of raw HTML, which may call a custom component.
    ///
    /// - `<Component/>` with a registered name calls the component.
    /// - `<Component>` with a registered name calls it with what follows, up
    ///   to `</Component>`, as its children.
    /// - In the body of a component, `</Component>` ends the body, and any
    ///   other tag is a failure.
    /// - Any other text is kept as raw HTML.
    pub fn html(&mut self, raw_html: &'e str, range: Range<usize>) -> (r: Result<
        HtmlStep<F::View>,
        StreamError,
    >)
        requires
            old(self).well_nested(),
        ensures
            (html_view(r), final(self).scan()) == spec_html(
                old(self).cx,
                old(self).events@,
                old(self).scan(),
                raw_html@,
                range,
            ),
            final(self).advanced_from(old(self)),
        decreases old(self).events@.len() - old(self).pos, 5int,
    {
        match self.current_component {
            Some(current_name) => {
                if self.end_tag.is_some() {
                    return Ok(
                        HtmlStep::Rendered(
                            Err(HtmlError::component(raw_html, MSG_NEWLINE_BEFORE_END)),
                        ),
                    );
                }
                match CustomHtmlTag::from_str(raw_html, range.start) {
                    Ok(CustomHtmlTag::End(name)) => {
                        if str_eq(name, current_name) {
                            Ok(HtmlStep::Closed)
                        } else {
                            Ok(
                                HtmlStep::Rendered(
                                    Err(
                                        HtmlError::component(
                                            current_name,
                                            MSG_EXPECTED_END_OF_COMPONENT,
                                        ),
                                    ),
                                ),
                            )
                        }
                    },
                    Ok(_) => Ok(
                        HtmlStep::Rendered(
                            Err(HtmlError::component(current_name, MSG_EXPECTED_END_OF_COMPONENT)),
                        ),
                    ),
                    Err(error) => Ok(
                        HtmlStep::Rendered(Err(HtmlError::syntax(error.message.as_str()))),
                    ),
                }
            },
            None => {
                match classify(self.cx, raw_html, range.start) {
                    Classified::Raw => self.raw_html(raw_html),
                    Classified::Inline(description) => self.custom_component_inline(description),
                    Classified::Start(description) => self.custom_component(description),
                    Classified::End(name) => Ok(
                        HtmlStep::Rendered(Err(HtmlError::component(name, MSG_EXPECTED_START))),
                    ),
                    Classified::Malformed { name, message } => {
                        let msg = MSG_NOT_A_COMPONENT_BECAUSE.to_string().concat(message.as_str());
                        Ok(
                            HtmlStep::Rendered(
                                Err(HtmlError::component(name.as_str(), msg.as_str())),
                            ),
                        )
                    },
                }
            },
        }
    }

    /// Renders a custom component with children: what follows, up to the
    /// closing tag of the component.
    fn custom_component(&mut self, description: ComponentCall<'e>) -> (r: Result<
        HtmlStep<F::View>,
        StreamError,
    >)
        requires
            description@.wf(),
            old(self).well_nested(),
        ensures
            html_view(r) == (if !range_fits(description@) {
                Err(StreamError::RangeOverflow)
            } else {
                match spec_collect(
                    old(self).cx,
                    old(self).events@,
                    old(self).scan().body_of(description@.name),
                ).0 {
                    Ok(views) => Ok(
                        HtmlOutcome::Rendered(
                            spec_call_component(
                                old(self).cx,
                                description@,
                                old(self).cx.el_fragment_spec(views),
                            ),
                        ),
                    ),
                    Err(error) => Err(error),
                }
            }),
            final(self).scan() == (if !range_fits(description@) {
                old(self).scan()
            } else {
                old(self).scan().resumed(
                    spec_collect(
                        old(self).cx,
                        old(self).events@,
                        old(self).scan().body_of(description@.name),
                    ).1,
                )
            }),
            final(self).advanced_from(old(self)),
        decreases old(self).events@.len() - old(self).pos, 4int,
    {
        if byte_len(description.full_string) > usize::MAX - description.range_offset {
            return Err(StreamError::RangeOverflow);
        }
        let mut sub_renderer = Renderer {
            cx: self.cx,
            events: self.events,
            pos: self.pos,
            column_alignment: self.column_alignment,
            cell_index: 0,
            end_tag: None,
            current_component: Some(description.name),
            frontmatter: self.frontmatter,
        };
        proof {
            lemma_same_place_well_nested(self.events@, self.scan(), sub_renderer.scan());
        }
        let views = sub_renderer.collect();
        self.pos = sub_renderer.pos;
        self.frontmatter = sub_renderer.frontmatter;
        match views {
            Ok(views) => {
                let children = self.cx.el_fragment(views);
                call_component(self.cx, &description, children)
            },
            Err(error) => Err(error),
        }
    }

    /// Renders a custom component without children.
    fn custom_component_inline(&mut self, description: ComponentCall<'e>) -> (r: Result<
        HtmlStep<F::View>,
        StreamError,
    >)
        requires
            description@.wf(),
        ensures
            html_view(r) == (if !range_fits(description@) {
                Err(StreamError::RangeOverflow)
            } else {
                Ok(
                    HtmlOutcome::Rendered(
                        spec_call_component(
                            old(self).cx,
                            description@,
                            old(self).cx.el_fragment_spec(Seq::empty()),
                        ),
                    ),
                )
            }),
            *final(self) == *old(self),
    {
        let children = self.cx.el_empty();
        call_component(self.cx, &description, children)
    }
}

} // verus!
