//! A scan reads its events by their views: two streams whose events have the
//! same views and the same ranges are rendered alike, step by step.

use vstd::prelude::*;
use core::ops::Range;
use crate::context::{Context, HtmlElement};
use crate::event::{closing_tag, events_view, MdEvent, MdTag, MdTagEnd};
use crate::markdown::{is_rendering_of, spec_harden, spec_markdown, spec_render_events};
use crate::nested::nesting_breach;
use crate::scan::{
    spec_block_role, spec_children, spec_children_text, spec_collect, spec_collect_text,
    spec_document, spec_html, spec_link_children, spec_next, spec_next_block, spec_next_html,
    spec_render_tag, spec_rest_of_block, spec_skip_children, spec_wrap_children, BlockRole,
    Scan, StreamError,
};

verus! {

/// The two streams hold the same events: as many, with the same views and
/// the same ranges.
pub open spec fn same_events(
    one: Seq<(MdEvent, Range<usize>)>,
    other: Seq<(MdEvent, Range<usize>)>,
) -> bool {
    events_view(one) == events_view(other)
}

/// Streams that hold the same events hold the same event at each index.
pub proof fn lemma_same_event(
    one: Seq<(MdEvent, Range<usize>)>,
    other: Seq<(MdEvent, Range<usize>)>,
    i: int,
)
    requires
        same_events(one, other),
    ensures
        one.len() == other.len(),
        0 <= i < one.len() ==> one[i].0@ == other[i].0@ && one[i].1 == other[i].1,
{
    assert(events_view(one).len() == one.len());
    assert(events_view(other).len() == other.len());
    if 0 <= i < one.len() {
        assert(events_view(one)[i] == (one[i].0@, one[i].1));
        assert(events_view(other)[i] == (other[i].0@, other[i].1));
    }
}

/// Containers with the same view have the same end.
pub proof fn lemma_same_closing_tag(one: MdTag, other: MdTag)
    requires
        one@ == other@,
    ensures
        closing_tag(one) == closing_tag(other),
{
}

/// The text inside a block is the same in both streams.
pub proof fn lemma_collect_text_reads_views(
    one: Seq<(MdEvent, Range<usize>)>,
    other: Seq<(MdEvent, Range<usize>)>,
    pos: int,
    end: MdTagEnd,
    text: Seq<char>,
)
    requires
        same_events(one, other),
    ensures
        spec_collect_text(one, pos, end, text) == spec_collect_text(other, pos, end, text),
    decreases one.len() - pos,
{
    lemma_same_event(one, other, pos);
    if 0 <= pos < one.len() {
        match one[pos].0 {
            MdEvent::Text(s) => {
                lemma_collect_text_reads_views(one, other, pos + 1, end, text + s@);
            },
            MdEvent::SoftBreak => {
                lemma_collect_text_reads_views(one, other, pos + 1, end, text.push('\n'));
            },
            MdEvent::HardBreak => {
                lemma_collect_text_reads_views(one, other, pos + 1, end, text.push('\n'));
            },
            _ => {},
        }
    }
}

/// The first breach of the nesting is the same in both streams.
pub proof fn lemma_nesting_breach_reads_views(
    one: Seq<(MdEvent, Range<usize>)>,
    other: Seq<(MdEvent, Range<usize>)>,
    pos: int,
    open: Seq<MdTagEnd>,
)
    requires
        same_events(one, other),
    ensures
        nesting_breach(one, pos, open) == nesting_breach(other, pos, open),
    decreases one.len() - pos,
{
    lemma_same_event(one, other, pos);
    if 0 <= pos < one.len() {
        match (one[pos].0, other[pos].0) {
            (MdEvent::Start(tag), MdEvent::Start(twin)) => {
                lemma_same_closing_tag(tag, twin);
                lemma_nesting_breach_reads_views(one, other, pos + 1, open.push(closing_tag(tag)));
            },
            (MdEvent::End(end), _) => {
                if open.len() > 0 && open.last() == end {
                    lemma_nesting_breach_reads_views(one, other, pos + 1, open.drop_last());
                }
            },
            _ => {
                lemma_nesting_breach_reads_views(one, other, pos + 1, open);
            },
        }
    }
}

/// A step is the same in both streams.
pub proof fn lemma_next_reads_views<F: Context>(
    cx: F,
    one: Seq<(MdEvent, Range<usize>)>,
    other: Seq<(MdEvent, Range<usize>)>,
    scan: Scan,
)
    requires
        same_events(one, other),
    ensures
        spec_next(cx, one, scan) == spec_next(cx, other, scan),
    decreases one.len() - scan.pos, 2int,
{
    lemma_same_event(one, other, scan.pos);
    if 0 <= scan.pos < one.len() {
        let range = one[scan.pos].1;
        let after = scan.at(scan.pos + 1);
        match (one[scan.pos].0, other[scan.pos].0) {
            (MdEvent::Start(MdTag::HtmlBlock), _) => {
                lemma_next_block_reads_views(cx, one, other, after, range);
            },
            (MdEvent::Start(tag), MdEvent::Start(twin)) => {
                lemma_render_tag_reads_views(cx, one, other, after, tag, twin, range);
            },
            (MdEvent::InlineHtml(s), _) => {
                lemma_next_html_reads_views(cx, one, other, after, s@, range);
            },
            (MdEvent::Html(s), _) => {
                lemma_next_html_reads_views(cx, one, other, after, s@, range);
            },
            _ => {},
        }
    }
}

/// A block of raw HTML plays the same part in both streams.
proof fn lemma_block_role_reads_views<F: Context>(
    cx: F,
    one: Seq<(MdEvent, Range<usize>)>,
    other: Seq<(MdEvent, Range<usize>)>,
    scan: Scan,
)
    requires
        same_events(one, other),
    ensures
        spec_block_role(cx, one, scan) == spec_block_role(cx, other, scan),
{
    lemma_same_event(one, other, scan.pos);
}

proof fn lemma_next_block_reads_views<F: Context>(
    cx: F,
    one: Seq<(MdEvent, Range<usize>)>,
    other: Seq<(MdEvent, Range<usize>)>,
    scan: Scan,
    range: Range<usize>,
)
    requires
        same_events(one, other),
    ensures
        spec_next_block(cx, one, scan, range) == spec_next_block(cx, other, scan, range),
    decreases one.len() - scan.pos, 7int,
{
    lemma_same_event(one, other, scan.pos);
    lemma_block_role_reads_views(cx, one, other, scan);
    match spec_block_role(cx, one, scan) {
        BlockRole::Plain => {
            lemma_render_tag_reads_views(
                cx,
                one,
                other,
                scan,
                MdTag::HtmlBlock,
                MdTag::HtmlBlock,
                range,
            );
        },
        BlockRole::Closes => {
            lemma_children_reads_views(
                cx,
                one,
                other,
                scan.at(scan.pos + 1),
                MdTag::HtmlBlock,
                MdTag::HtmlBlock,
            );
        },
        BlockRole::Opens(call) => {
            let rest = spec_rest_of_block(scan, call.name);
            lemma_collect_reads_views(cx, one, other, rest);
            let (lines, behind) = spec_collect(cx, one, rest);
            if lines is Ok && scan.pos <= behind.pos <= one.len() {
                lemma_collect_reads_views(cx, one, other, scan.resumed(behind).body_of(call.name));
            }
        },
    }
}

/// A scan is the same in both streams.
pub proof fn lemma_collect_reads_views<F: Context>(
    cx: F,
    one: Seq<(MdEvent, Range<usize>)>,
    other: Seq<(MdEvent, Range<usize>)>,
    scan: Scan,
)
    requires
        same_events(one, other),
    ensures
        spec_collect(cx, one, scan) == spec_collect(cx, other, scan),
    decreases one.len() - scan.pos, 3int,
{
    lemma_same_event(one, other, scan.pos);
    lemma_next_reads_views(cx, one, other, scan);
    let (step, then) = spec_next(cx, one, scan);
    if (step matches Ok(Some(_))) && scan.pos < then.pos <= one.len() {
        lemma_collect_reads_views(cx, one, other, then);
    }
}

proof fn lemma_children_reads_views<F: Context>(
    cx: F,
    one: Seq<(MdEvent, Range<usize>)>,
    other: Seq<(MdEvent, Range<usize>)>,
    scan: Scan,
    tag: MdTag,
    twin: MdTag,
)
    requires
        same_events(one, other),
        closing_tag(tag) == closing_tag(twin),
    ensures
        spec_children(cx, one, scan, tag) == spec_children(cx, other, scan, twin),
    decreases one.len() - scan.pos, 4int,
{
    lemma_same_event(one, other, scan.pos);
    assert(scan.inside(tag) == scan.inside(twin));
    lemma_collect_reads_views(cx, one, other, scan.inside(tag));
}

proof fn lemma_html_reads_views<F: Context>(
    cx: F,
    one: Seq<(MdEvent, Range<usize>)>,
    other: Seq<(MdEvent, Range<usize>)>,
    scan: Scan,
    raw_html: Seq<char>,
    range: Range<usize>,
)
    requires
        same_events(one, other),
    ensures
        spec_html(cx, one, scan, raw_html, range) == spec_html(cx, other, scan, raw_html, range),
    decreases one.len() - scan.pos, 4int,
{
    lemma_same_event(one, other, scan.pos);
    if scan.current_component is None {
        match crate::classify::spec_classify(cx, raw_html, range.start as nat) {
            crate::classify::ClassifiedView::Start(call) => {
                lemma_collect_reads_views(cx, one, other, scan.body_of(call.name));
            },
            _ => {},
        }
    }
}

proof fn lemma_next_html_reads_views<F: Context>(
    cx: F,
    one: Seq<(MdEvent, Range<usize>)>,
    other: Seq<(MdEvent, Range<usize>)>,
    scan: Scan,
    raw_html: Seq<char>,
    range: Range<usize>,
)
    requires
        same_events(one, other),
    ensures
        spec_next_html(cx, one, scan, raw_html, range) == spec_next_html(
            cx,
            other,
            scan,
            raw_html,
            range,
        ),
    decreases one.len() - scan.pos, 5int,
{
    lemma_same_event(one, other, scan.pos);
    lemma_html_reads_views(cx, one, other, scan, raw_html, range);
}

proof fn lemma_wrap_children_reads_views<F: Context>(
    cx: F,
    one: Seq<(MdEvent, Range<usize>)>,
    other: Seq<(MdEvent, Range<usize>)>,
    scan: Scan,
    tag: MdTag,
    twin: MdTag,
    element: HtmlElement,
)
    requires
        same_events(one, other),
        closing_tag(tag) == closing_tag(twin),
    ensures
        spec_wrap_children(cx, one, scan, tag, element) == spec_wrap_children(
            cx,
            other,
            scan,
            twin,
            element,
        ),
    decreases one.len() - scan.pos, 5int,
{
    lemma_same_event(one, other, scan.pos);
    lemma_children_reads_views(cx, one, other, scan, tag, twin);
}

proof fn lemma_skip_children_reads_views<F: Context>(
    cx: F,
    one: Seq<(MdEvent, Range<usize>)>,
    other: Seq<(MdEvent, Range<usize>)>,
    scan: Scan,
    tag: MdTag,
    twin: MdTag,
    message: Seq<char>,
)
    requires
        same_events(one, other),
        closing_tag(tag) == closing_tag(twin),
    ensures
        spec_skip_children(cx, one, scan, tag, message) == spec_skip_children(
            cx,
            other,
            scan,
            twin,
            message,
        ),
    decreases one.len() - scan.pos, 5int,
{
    lemma_same_event(one, other, scan.pos);
    lemma_children_reads_views(cx, one, other, scan, tag, twin);
}

proof fn lemma_link_children_reads_views<F: Context>(
    cx: F,
    one: Seq<(MdEvent, Range<usize>)>,
    other: Seq<(MdEvent, Range<usize>)>,
    scan: Scan,
    tag: MdTag,
    twin: MdTag,
    link_type: pulldown_cmark::LinkType,
    dest_url: Seq<char>,
    title: Seq<char>,
    image: bool,
)
    requires
        same_events(one, other),
        closing_tag(tag) == closing_tag(twin),
    ensures
        spec_link_children(cx, one, scan, tag, link_type, dest_url, title, image)
            == spec_link_children(cx, other, scan, twin, link_type, dest_url, title, image),
    decreases one.len() - scan.pos, 5int,
{
    lemma_same_event(one, other, scan.pos);
    lemma_children_reads_views(cx, one, other, scan, tag, twin);
}

/// A container is rendered alike in both streams, whichever of two tags with
/// the same view has opened it.
pub proof fn lemma_render_tag_reads_views<F: Context>(
    cx: F,
    one: Seq<(MdEvent, Range<usize>)>,
    other: Seq<(MdEvent, Range<usize>)>,
    scan: Scan,
    tag: MdTag,
    twin: MdTag,
    range: Range<usize>,
)
    requires
        same_events(one, other),
        tag@ == twin@,
    ensures
        spec_render_tag(cx, one, scan, tag, range) == spec_render_tag(cx, other, scan, twin, range),
    decreases one.len() - scan.pos, 6int,
{
    lemma_same_event(one, other, scan.pos);
    lemma_same_closing_tag(tag, twin);
    match (tag, twin) {
        (MdTag::HtmlBlock, _) => {
            lemma_children_reads_views(cx, one, other, scan, tag, twin);
        },
        (MdTag::Paragraph, _) => {
            lemma_wrap_children_reads_views(cx, one, other, scan, tag, twin, HtmlElement::Paragraph);
        },
        (MdTag::Heading(level), _) => {
            lemma_wrap_children_reads_views(
                cx,
                one,
                other,
                scan,
                tag,
                twin,
                HtmlElement::Heading(level),
            );
        },
        (MdTag::BlockQuote, _) => {
            lemma_wrap_children_reads_views(cx, one, other, scan, tag, twin, HtmlElement::BlockQuote);
        },
        (MdTag::CodeBlock(kind), MdTag::CodeBlock(other_kind)) => {
            assert(kind@ == other_kind@);
            lemma_collect_text_reads_views(one, other, scan.pos, closing_tag(tag), Seq::empty());
            assert(spec_children_text(one, scan, tag) == spec_children_text(other, scan, twin));
        },
        (MdTag::List(Some(start)), _) => {
            lemma_wrap_children_reads_views(
                cx,
                one,
                other,
                scan,
                tag,
                twin,
                HtmlElement::Ol(start as i32),
            );
        },
        (MdTag::List(None), _) => {
            lemma_wrap_children_reads_views(cx, one, other, scan, tag, twin, HtmlElement::Ul);
        },
        (MdTag::Item, _) => {
            lemma_wrap_children_reads_views(cx, one, other, scan, tag, twin, HtmlElement::Li);
        },
        (MdTag::Table(alignments), _) => {
            lemma_wrap_children_reads_views(
                cx,
                one,
                other,
                Scan { column_alignment: Some(alignments@), ..scan },
                tag,
                twin,
                HtmlElement::Table,
            );
        },
        (MdTag::TableHead, _) => {
            lemma_wrap_children_reads_views(cx, one, other, scan, tag, twin, HtmlElement::Thead);
        },
        (MdTag::TableRow, _) => {
            lemma_wrap_children_reads_views(cx, one, other, scan, tag, twin, HtmlElement::Trow);
        },
        (MdTag::TableCell, _) => {
            lemma_children_reads_views(
                cx,
                one,
                other,
                Scan { cell_index: scan.cell_index + 1, ..scan },
                tag,
                twin,
            );
        },
        (MdTag::Emphasis, _) => {
            lemma_wrap_children_reads_views(cx, one, other, scan, tag, twin, HtmlElement::Italics);
        },
        (MdTag::Strong, _) => {
            lemma_wrap_children_reads_views(cx, one, other, scan, tag, twin, HtmlElement::Bold);
        },
        (MdTag::Strikethrough, _) => {
            lemma_wrap_children_reads_views(
                cx,
                one,
                other,
                scan,
                tag,
                twin,
                HtmlElement::StrikeThrough,
            );
        },
        (MdTag::Image { link_type, dest_url, title }, _) => {
            lemma_link_children_reads_views(
                cx,
                one,
                other,
                scan,
                tag,
                twin,
                link_type,
                dest_url@,
                title@,
                true,
            );
        },
        (MdTag::Link { link_type, dest_url, title }, _) => {
            lemma_link_children_reads_views(
                cx,
                one,
                other,
                scan,
                tag,
                twin,
                link_type,
                dest_url@,
                title@,
                false,
            );
        },
        (MdTag::FootnoteDefinition, _) => {
            lemma_skip_children_reads_views(
                cx,
                one,
                other,
                scan,
                tag,
                twin,
                crate::scan::MSG_FOOTNOTE@,
            );
        },
        (MdTag::MetadataBlock, _) => {
            lemma_collect_text_reads_views(one, other, scan.pos, closing_tag(tag), Seq::empty());
            assert(spec_children_text(one, scan, tag) == spec_children_text(other, scan, twin));
        },
        (MdTag::DefinitionList, _) => {
            lemma_skip_children_reads_views(
                cx,
                one,
                other,
                scan,
                tag,
                twin,
                crate::scan::MSG_DEFINITION_LIST@,
            );
        },
        (MdTag::DefinitionListTitle, _) => {
            lemma_skip_children_reads_views(
                cx,
                one,
                other,
                scan,
                tag,
                twin,
                crate::scan::MSG_DEFINITION_LIST@,
            );
        },
        (MdTag::DefinitionListDefinition, _) => {
            lemma_skip_children_reads_views(
                cx,
                one,
                other,
                scan,
                tag,
                twin,
                crate::scan::MSG_DEFINITION_LIST@,
            );
        },
        (MdTag::Superscript, _) => {
            lemma_skip_children_reads_views(
                cx,
                one,
                other,
                scan,
                tag,
                twin,
                crate::scan::MSG_SUPERSCRIPT@,
            );
        },
        (MdTag::Subscript, _) => {
            lemma_skip_children_reads_views(
                cx,
                one,
                other,
                scan,
                tag,
                twin,
                crate::scan::MSG_SUBSCRIPT@,
            );
        },
        _ => {},
    }
}

/// Making the soft line breaks hard keeps two streams the same.
pub proof fn lemma_harden_reads_views(
    one: Seq<(MdEvent, Range<usize>)>,
    other: Seq<(MdEvent, Range<usize>)>,
)
    requires
        same_events(one, other),
    ensures
        same_events(
            one.map_values(|e: (MdEvent, Range<usize>)| spec_harden(e)),
            other.map_values(|e: (MdEvent, Range<usize>)| spec_harden(e)),
        ),
{
    let hard_one = one.map_values(|e: (MdEvent, Range<usize>)| spec_harden(e));
    let hard_other = other.map_values(|e: (MdEvent, Range<usize>)| spec_harden(e));
    lemma_same_event(one, other, 0);
    assert forall|i: int| 0 <= i < hard_one.len() implies events_view(hard_one)[i] == events_view(
        hard_other,
    )[i] by {
        lemma_same_event(one, other, i);
    }
    assert(events_view(hard_one) =~= events_view(hard_other));
}

/// A document is what the views of its events make it: two streams that
/// hold the same events are the same document, in every context, whether
/// they are rendered as they are or told apart from a broken stream first,
/// with soft line breaks as they are or made hard.
pub proof fn lemma_document_reads_views<F: Context>(
    cx: F,
    one: Seq<(MdEvent, Range<usize>)>,
    other: Seq<(MdEvent, Range<usize>)>,
)
    requires
        same_events(one, other),
    ensures
        spec_document(cx, one) == spec_document(cx, other),
        spec_render_events(cx, one) == spec_render_events(cx, other),
        spec_markdown(cx, one) == spec_markdown(cx, other),
{
    lemma_collect_reads_views(cx, one, other, Scan::document());
    lemma_nesting_breach_reads_views(one, other, 0, Seq::empty());
    if cx.props_spec().hard_line_breaks {
        let hard_one = one.map_values(|e: (MdEvent, Range<usize>)| spec_harden(e));
        let hard_other = other.map_values(|e: (MdEvent, Range<usize>)| spec_harden(e));
        lemma_harden_reads_views(one, other);
        lemma_collect_reads_views(cx, hard_one, hard_other, Scan::document());
        lemma_nesting_breach_reads_views(hard_one, hard_other, 0, Seq::empty());
    }
}

/// The rendering of a source is determined by the source, the context and
/// what the typesetter makes of the formulas: two results that are both
/// renderings of the source, with the same markups, are the same result.
pub proof fn lemma_rendering_is_determined<F: Context>(
    cx: F,
    source: Seq<char>,
    markups: Seq<Option<Seq<char>>>,
    one: Result<F::View, StreamError>,
    parsed_one: Option<Seq<(MdEvent, Range<usize>)>>,
    other: Result<F::View, StreamError>,
    parsed_other: Option<Seq<(MdEvent, Range<usize>)>>,
)
    requires
        is_rendering_of(cx, source, one, parsed_one, markups),
        is_rendering_of(cx, source, other, parsed_other, markups),
    ensures
        one == other,
{
    match (parsed_one, parsed_other) {
        (Some(events), Some(others)) => {
            lemma_document_reads_views(cx, events, others);
        },
        _ => {},
    }
}

} // verus!
