//! The course of a scan does not depend on the views: which events a
//! construct takes, and whether the stream is broken, is the same whatever the
//! components, the renderer of links, the highlighter and the typesetter make
//! of their input. So a construct that fails cannot reach beyond itself.

use vstd::prelude::*;
use core::ops::Range;
use crate::classify::{spec_classify, ClassifiedView};
use crate::context::{Context, HtmlElement};
use crate::event::{MdEvent, MdTag};
use crate::scan::{
    spec_block_role, spec_children, spec_collect, spec_html, spec_link_children, spec_next,
    spec_next_block, spec_next_html, spec_render_tag, spec_rest_of_block, spec_skip_children,
    spec_wrap_children, BlockRole, HtmlOutcome, Scan, StreamError,
};

verus! {

/// The two contexts know the same components.
pub open spec fn same_components<F: Context, G: Context>(one: F, other: G) -> bool {
    forall|name: Seq<char>|
        #[trigger] one.has_custom_component_spec(name) == other.has_custom_component_spec(name)
}

/// Two results break the stream alike, or not at all.
pub open spec fn same_breach<A, B>(one: Result<A, StreamError>, other: Result<B, StreamError>) -> bool {
    match one {
        Ok(_) => other is Ok,
        Err(error) => other matches Err(e) && e == error,
    }
}

/// Two steps take the same course: they stop at the same place, they break
/// the stream alike, and both yield a view or both yield none.
pub open spec fn same_step<A, B>(
    one: (Result<Option<A>, StreamError>, Scan),
    other: (Result<Option<B>, StreamError>, Scan),
) -> bool {
    &&& one.1 == other.1
    &&& same_breach(one.0, other.0)
    &&& (one.0 matches Ok(Some(_))) <==> (other.0 matches Ok(Some(_)))
}

/// Two scans take the same course: they stop at the same place, they break
/// the stream alike, and they yield the same number of views.
pub open spec fn same_course<A, B>(
    one: (Result<Seq<A>, StreamError>, Scan),
    other: (Result<Seq<B>, StreamError>, Scan),
) -> bool {
    &&& one.1 == other.1
    &&& same_breach(one.0, other.0)
    &&& one.0 matches Ok(views) ==> (other.0 matches Ok(others) && views.len() == others.len())
}

/// Two renderings of a construct take the same course.
pub open spec fn same_end<A, B>(
    one: (Result<A, StreamError>, Scan),
    other: (Result<B, StreamError>, Scan),
) -> bool {
    one.1 == other.1 && same_breach(one.0, other.0)
}

/// A step takes the same course in every context that knows the same components.
pub proof fn lemma_next_same_course<F: Context, G: Context>(
    one: F,
    other: G,
    events: Seq<(MdEvent, Range<usize>)>,
    scan: Scan,
)
    requires
        same_components(one, other),
    ensures
        same_step(spec_next(one, events, scan), spec_next(other, events, scan)),
    decreases events.len() - scan.pos, 2int,
{
    if 0 <= scan.pos < events.len() {
        let (event, range) = events[scan.pos];
        let after = scan.at(scan.pos + 1);
        match event {
            MdEvent::Start(MdTag::HtmlBlock) => {
                lemma_next_block_same_course(one, other, events, after, range);
            },
            MdEvent::Start(tag) => {
                lemma_render_tag_same_course(one, other, events, after, tag, range);
            },
            MdEvent::InlineHtml(s) => {
                lemma_next_html_same_course(one, other, events, after, s@, range);
            },
            MdEvent::Html(s) => {
                lemma_next_html_same_course(one, other, events, after, s@, range);
            },
            _ => {},
        }
    }
}

/// A block of raw HTML takes the same events in every context that knows the
/// same components.
proof fn lemma_next_block_same_course<F: Context, G: Context>(
    one: F,
    other: G,
    events: Seq<(MdEvent, Range<usize>)>,
    scan: Scan,
    range: Range<usize>,
)
    requires
        same_components(one, other),
    ensures
        same_step(
            spec_next_block(one, events, scan, range),
            spec_next_block(other, events, scan, range),
        ),
    decreases events.len() - scan.pos, 7int,
{
    match spec_block_role(one, events, scan) {
        BlockRole::Plain => {
            lemma_render_tag_same_course(one, other, events, scan, MdTag::HtmlBlock, range);
        },
        BlockRole::Closes => {
            lemma_children_same_course(one, other, events, scan.at(scan.pos + 1), MdTag::HtmlBlock);
        },
        BlockRole::Opens(call) => {
            let rest = spec_rest_of_block(scan, call.name);
            lemma_collect_same_course(one, other, events, rest);
            let (lines, behind) = spec_collect(one, events, rest);
            if lines is Ok && scan.pos <= behind.pos <= events.len() {
                lemma_collect_same_course(
                    one,
                    other,
                    events,
                    scan.resumed(behind).body_of(call.name),
                );
            }
        },
    }
}

/// A scan takes the same course in every context that knows the same components.
pub proof fn lemma_collect_same_course<F: Context, G: Context>(
    one: F,
    other: G,
    events: Seq<(MdEvent, Range<usize>)>,
    scan: Scan,
)
    requires
        same_components(one, other),
    ensures
        same_course(spec_collect(one, events, scan), spec_collect(other, events, scan)),
    decreases events.len() - scan.pos, 3int,
{
    lemma_next_same_course(one, other, events, scan);
    let (step, then) = spec_next(one, events, scan);
    if (step matches Ok(Some(_))) && scan.pos < then.pos <= events.len() {
        lemma_collect_same_course(one, other, events, then);
    }
}

proof fn lemma_children_same_course<F: Context, G: Context>(
    one: F,
    other: G,
    events: Seq<(MdEvent, Range<usize>)>,
    scan: Scan,
    tag: MdTag,
)
    requires
        same_components(one, other),
    ensures
        same_end(spec_children(one, events, scan, tag), spec_children(other, events, scan, tag)),
    decreases events.len() - scan.pos, 4int,
{
    lemma_collect_same_course(one, other, events, scan.inside(tag));
}

/// Raw HTML takes the same events in every context that knows the same
/// components, and ends the body of a component in all of them or in none.
pub proof fn lemma_html_same_course<F: Context, G: Context>(
    one: F,
    other: G,
    events: Seq<(MdEvent, Range<usize>)>,
    scan: Scan,
    raw_html: Seq<char>,
    range: Range<usize>,
)
    requires
        same_components(one, other),
    ensures
        same_end(
            spec_html(one, events, scan, raw_html, range),
            spec_html(other, events, scan, raw_html, range),
        ),
        (spec_html(one, events, scan, raw_html, range).0 matches Ok(HtmlOutcome::Closed)) <==> (
        spec_html(other, events, scan, raw_html, range).0 matches Ok(HtmlOutcome::Closed)),
    decreases events.len() - scan.pos, 4int,
{
    if scan.current_component is None {
        match spec_classify(one, raw_html, range.start as nat) {
            ClassifiedView::Start(call) => {
                lemma_collect_same_course(one, other, events, scan.body_of(call.name));
            },
            _ => {},
        }
    }
}

proof fn lemma_next_html_same_course<F: Context, G: Context>(
    one: F,
    other: G,
    events: Seq<(MdEvent, Range<usize>)>,
    scan: Scan,
    raw_html: Seq<char>,
    range: Range<usize>,
)
    requires
        same_components(one, other),
    ensures
        same_step(
            spec_next_html(one, events, scan, raw_html, range),
            spec_next_html(other, events, scan, raw_html, range),
        ),
    decreases events.len() - scan.pos, 5int,
{
    lemma_html_same_course(one, other, events, scan, raw_html, range);
}

proof fn lemma_wrap_children_same_course<F: Context, G: Context>(
    one: F,
    other: G,
    events: Seq<(MdEvent, Range<usize>)>,
    scan: Scan,
    tag: MdTag,
    element: HtmlElement,
)
    requires
        same_components(one, other),
    ensures
        same_end(
            spec_wrap_children(one, events, scan, tag, element),
            spec_wrap_children(other, events, scan, tag, element),
        ),
    decreases events.len() - scan.pos, 5int,
{
    lemma_children_same_course(one, other, events, scan, tag);
}

proof fn lemma_skip_children_same_course<F: Context, G: Context>(
    one: F,
    other: G,
    events: Seq<(MdEvent, Range<usize>)>,
    scan: Scan,
    tag: MdTag,
    message: Seq<char>,
)
    requires
        same_components(one, other),
    ensures
        same_end(
            spec_skip_children(one, events, scan, tag, message),
            spec_skip_children(other, events, scan, tag, message),
        ),
    decreases events.len() - scan.pos, 5int,
{
    lemma_children_same_course(one, other, events, scan, tag);
}

proof fn lemma_link_children_same_course<F: Context, G: Context>(
    one: F,
    other: G,
    events: Seq<(MdEvent, Range<usize>)>,
    scan: Scan,
    tag: MdTag,
    link_type: pulldown_cmark::LinkType,
    dest_url: Seq<char>,
    title: Seq<char>,
    image: bool,
)
    requires
        same_components(one, other),
    ensures
        same_end(
            spec_link_children(one, events, scan, tag, link_type, dest_url, title, image),
            spec_link_children(other, events, scan, tag, link_type, dest_url, title, image),
        ),
    decreases events.len() - scan.pos, 5int,
{
    lemma_children_same_course(one, other, events, scan, tag);
}

/// A container takes the same events in every context that knows the same components.
pub proof fn lemma_render_tag_same_course<F: Context, G: Context>(
    one: F,
    other: G,
    events: Seq<(MdEvent, Range<usize>)>,
    scan: Scan,
    tag: MdTag,
    range: Range<usize>,
)
    requires
        same_components(one, other),
    ensures
        same_end(
            spec_render_tag(one, events, scan, tag, range),
            spec_render_tag(other, events, scan, tag, range),
        ),
    decreases events.len() - scan.pos, 6int,
{
    match tag {
        MdTag::HtmlBlock => {
            lemma_children_same_course(one, other, events, scan, tag);
        },
        MdTag::Paragraph => {
            lemma_wrap_children_same_course(one, other, events, scan, tag, HtmlElement::Paragraph);
        },
        MdTag::Heading(level) => {
            lemma_wrap_children_same_course(
                one,
                other,
                events,
                scan,
                tag,
                HtmlElement::Heading(level),
            );
        },
        MdTag::BlockQuote => {
            lemma_wrap_children_same_course(one, other, events, scan, tag, HtmlElement::BlockQuote);
        },
        MdTag::List(Some(start)) => {
            lemma_wrap_children_same_course(
                one,
                other,
                events,
                scan,
                tag,
                HtmlElement::Ol(start as i32),
            );
        },
        MdTag::List(None) => {
            lemma_wrap_children_same_course(one, other, events, scan, tag, HtmlElement::Ul);
        },
        MdTag::Item => {
            lemma_wrap_children_same_course(one, other, events, scan, tag, HtmlElement::Li);
        },
        MdTag::Table(alignments) => {
            lemma_wrap_children_same_course(
                one,
                other,
                events,
                Scan { column_alignment: Some(alignments@), ..scan },
                tag,
                HtmlElement::Table,
            );
        },
        MdTag::TableHead => {
            lemma_wrap_children_same_course(one, other, events, scan, tag, HtmlElement::Thead);
        },
        MdTag::TableRow => {
            lemma_wrap_children_same_course(one, other, events, scan, tag, HtmlElement::Trow);
        },
        MdTag::TableCell => {
            lemma_children_same_course(
                one,
                other,
                events,
                Scan { cell_index: scan.cell_index + 1, ..scan },
                tag,
            );
        },
        MdTag::Emphasis => {
            lemma_wrap_children_same_course(one, other, events, scan, tag, HtmlElement::Italics);
        },
        MdTag::Strong => {
            lemma_wrap_children_same_course(one, other, events, scan, tag, HtmlElement::Bold);
        },
        MdTag::Strikethrough => {
            lemma_wrap_children_same_course(
                one,
                other,
                events,
                scan,
                tag,
                HtmlElement::StrikeThrough,
            );
        },
        MdTag::Image { link_type, dest_url, title } => {
            lemma_link_children_same_course(
                one,
                other,
                events,
                scan,
                tag,
                link_type,
                dest_url@,
                title@,
                true,
            );
        },
        MdTag::Link { link_type, dest_url, title } => {
            lemma_link_children_same_course(
                one,
                other,
                events,
                scan,
                tag,
                link_type,
                dest_url@,
                title@,
                false,
            );
        },
        MdTag::FootnoteDefinition => {
            lemma_skip_children_same_course(
                one,
                other,
                events,
                scan,
                tag,
                crate::scan::MSG_FOOTNOTE@,
            );
        },
        MdTag::DefinitionList => {
            lemma_skip_children_same_course(
                one,
                other,
                events,
                scan,
                tag,
                crate::scan::MSG_DEFINITION_LIST@,
            );
        },
        MdTag::DefinitionListTitle => {
            lemma_skip_children_same_course(
                one,
                other,
                events,
                scan,
                tag,
                crate::scan::MSG_DEFINITION_LIST@,
            );
        },
        MdTag::DefinitionListDefinition => {
            lemma_skip_children_same_course(
                one,
                other,
                events,
                scan,
                tag,
                crate::scan::MSG_DEFINITION_LIST@,
            );
        },
        MdTag::Superscript => {
            lemma_skip_children_same_course(
                one,
                other,
                events,
                scan,
                tag,
                crate::scan::MSG_SUPERSCRIPT@,
            );
        },
        MdTag::Subscript => {
            lemma_skip_children_same_course(
                one,
                other,
                events,
                scan,
                tag,
                crate::scan::MSG_SUBSCRIPT@,
            );
        },
        _ => {},
    }
}

/// Failures are contained: whether a document can be rendered, and how many
/// views it becomes, does not depend on what any component, link, formula or
/// block of code is rendered as, nor on whether that succeeds.
pub proof fn lemma_failures_are_contained<F: Context, G: Context>(
    one: F,
    other: G,
    events: Seq<(MdEvent, Range<usize>)>,
)
    requires
        same_components(one, other),
    ensures
        same_course(
            spec_collect(one, events, Scan::document()),
            spec_collect(other, events, Scan::document()),
        ),
        same_breach(crate::scan::spec_document(one, events), crate::scan::spec_document(other, events)),
{
    lemma_collect_same_course(one, other, events, Scan::document());
}

} // verus!
