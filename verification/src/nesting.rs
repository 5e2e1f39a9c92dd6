//! The nesting of a stream of events, and the proof that a scan respects it:
//! a container is taken whole, from its start to the end that matches it.

use vstd::prelude::*;
use core::ops::Range;
use crate::classify::{spec_classify, ClassifiedView};
use crate::context::{Context, HtmlElement};
use crate::event::{closing_tag, MdEvent, MdTag, MdTagEnd};
use crate::scan::{
    spec_block_role, spec_children, spec_collect, spec_collect_text, spec_html,
    spec_link_children, spec_next, spec_next_block, spec_next_html, spec_render_tag,
    spec_rest_of_block, spec_skip_children, spec_wrap_children, BlockRole, Scan,
};

verus! {

/// The event starts a container.
pub open spec fn opens(event: MdEvent) -> bool {
    event is Start
}

/// The event ends a container.
pub open spec fn closes(event: MdEvent) -> bool {
    event is End
}

/// The index of the first end, from `pos` on, that matches no start from
/// `pos` on, when `depth` containers that start from `pos` on are still open;
/// the number of events where there is no such end.
pub open spec fn unmatched_end(events: Seq<(MdEvent, Range<usize>)>, pos: int, depth: nat) -> int
    decreases events.len() - pos,
{
    if pos < 0 || pos >= events.len() {
        events.len() as int
    } else if opens(events[pos].0) {
        unmatched_end(events, pos + 1, depth + 1)
    } else if closes(events[pos].0) {
        if depth == 0 {
            pos
        } else {
            unmatched_end(events, pos + 1, (depth - 1) as nat)
        }
    } else {
        unmatched_end(events, pos + 1, depth)
    }
}

/// The index of the end of the container in which the event `pos` lies.
pub open spec fn level_end(events: Seq<(MdEvent, Range<usize>)>, pos: int) -> int {
    unmatched_end(events, pos, 0)
}

/// From `from` to `to` lie whole constructs of one level: no container is
/// left, and none is open at `to` that was not open at `from`.
pub open spec fn within_level(events: Seq<(MdEvent, Range<usize>)>, from: int, to: int) -> bool {
    &&& from <= to <= level_end(events, from)
    &&& level_end(events, to) == level_end(events, from)
}

/// `to` lies right behind the end of the container in which `from` lies, and
/// that end is `end`; where the events run out before, `to` is their number.
pub open spec fn behind_end(
    events: Seq<(MdEvent, Range<usize>)>,
    from: int,
    to: int,
    end: MdTagEnd,
) -> bool {
    let close = level_end(events, from);
    if close < events.len() {
        to == close + 1 && events[close].0 == MdEvent::End(end)
    } else {
        to == events.len()
    }
}

/// The scan `then` goes on where `scan` was, in the same container and the same component.
pub open spec fn same_scope(scan: Scan, then: Scan) -> bool {
    then.end_tag == scan.end_tag && then.current_component == scan.current_component
}

/// The first unmatched end lies at or behind the position, and is an end.
pub proof fn lemma_unmatched_end_bounds(events: Seq<(MdEvent, Range<usize>)>, pos: int, depth: nat)
    requires
        0 <= pos <= events.len(),
    ensures
        pos <= unmatched_end(events, pos, depth) <= events.len(),
        unmatched_end(events, pos, depth) < events.len() ==> closes(
            events[unmatched_end(events, pos, depth)].0,
        ),
    decreases events.len() - pos,
{
    if pos < events.len() {
        if opens(events[pos].0) {
            lemma_unmatched_end_bounds(events, pos + 1, depth + 1);
        } else if closes(events[pos].0) {
            if depth > 0 {
                lemma_unmatched_end_bounds(events, pos + 1, (depth - 1) as nat);
            }
        } else {
            lemma_unmatched_end_bounds(events, pos + 1, depth);
        }
    }
}

/// With more containers open, the search for an unmatched end goes on behind
/// the end that closes the innermost of them.
pub proof fn lemma_unmatched_end_deeper(
    events: Seq<(MdEvent, Range<usize>)>,
    pos: int,
    inner: nat,
    outer: nat,
)
    requires
        0 <= pos <= events.len(),
    ensures
        unmatched_end(events, pos, inner + outer + 1) == (if unmatched_end(events, pos, inner)
            < events.len() {
            unmatched_end(events, unmatched_end(events, pos, inner) + 1, outer)
        } else {
            events.len() as int
        }),
    decreases events.len() - pos,
{
    if pos < events.len() {
        if opens(events[pos].0) {
            lemma_unmatched_end_deeper(events, pos + 1, inner + 1, outer);
        } else if closes(events[pos].0) {
            if inner > 0 {
                lemma_unmatched_end_deeper(events, pos + 1, (inner - 1) as nat, outer);
            }
        } else {
            lemma_unmatched_end_deeper(events, pos + 1, inner, outer);
        }
    }
}

/// A container, from its start to behind its end, is a whole construct of its level.
pub proof fn lemma_container_within_level(
    events: Seq<(MdEvent, Range<usize>)>,
    pos: int,
    to: int,
    end: MdTagEnd,
)
    requires
        0 <= pos < events.len(),
        opens(events[pos].0),
        behind_end(events, pos + 1, to, end),
    ensures
        within_level(events, pos, to),
        pos < to <= events.len(),
{
    lemma_unmatched_end_bounds(events, pos + 1, 0);
    lemma_unmatched_end_deeper(events, pos + 1, 0, 0);
    lemma_unmatched_end_bounds(events, to, 0);
}

/// An event that neither starts nor ends a container is a whole construct of its level.
pub proof fn lemma_leaf_within_level(events: Seq<(MdEvent, Range<usize>)>, pos: int)
    requires
        0 <= pos < events.len(),
        !opens(events[pos].0),
        !closes(events[pos].0),
    ensures
        within_level(events, pos, pos + 1),
        level_end(events, pos) == level_end(events, pos + 1),
{
    lemma_unmatched_end_bounds(events, pos + 1, 0);
}

/// Text is collected up to the end of the container that holds it.
pub proof fn lemma_collect_text_leaves_container(
    events: Seq<(MdEvent, Range<usize>)>,
    pos: int,
    end: MdTagEnd,
    text: Seq<char>,
)
    requires
        0 <= pos <= events.len(),
    ensures
        spec_collect_text(events, pos, end, text).0 is Ok ==> behind_end(
            events,
            pos,
            spec_collect_text(events, pos, end, text).1,
            end,
        ),
    decreases events.len() - pos,
{
    if pos < events.len() {
        match events[pos].0 {
            MdEvent::Text(s) => {
                lemma_collect_text_leaves_container(events, pos + 1, end, text + s@);
            },
            MdEvent::SoftBreak => {
                lemma_collect_text_leaves_container(events, pos + 1, end, text.push('\n'));
            },
            MdEvent::HardBreak => {
                lemma_collect_text_leaves_container(events, pos + 1, end, text.push('\n'));
            },
            _ => {},
        }
    }
}

/// What holds of a scan after a step, or after all its steps: it is still in
/// its scope, and it has either taken the end of its container or kept to its level.
pub open spec fn step_respects_nesting(
    events: Seq<(MdEvent, Range<usize>)>,
    scan: Scan,
    then: Scan,
    at_end: bool,
) -> bool {
    &&& same_scope(scan, then)
    &&& match scan.end_tag {
        Some(end) if at_end => behind_end(events, scan.pos, then.pos, end),
        _ => within_level(events, scan.pos, then.pos),
    }
}

/// What holds of a scan behind a container whose start it had taken.
pub open spec fn container_respects_nesting(
    events: Seq<(MdEvent, Range<usize>)>,
    scan: Scan,
    then: Scan,
    tag: MdTag,
) -> bool {
    same_scope(scan, then) && behind_end(events, scan.pos, then.pos, closing_tag(tag))
}

/// One step of a scan takes whole constructs.
pub proof fn lemma_next_respects_nesting<F: Context>(
    cx: F,
    events: Seq<(MdEvent, Range<usize>)>,
    scan: Scan,
)
    requires
        0 <= scan.pos <= events.len(),
    ensures
        match spec_next(cx, events, scan) {
            (Ok(Some(_)), then) => step_respects_nesting(events, scan, then, false) && scan.pos
                < then.pos,
            (Ok(None), then) => step_respects_nesting(events, scan, then, true),
            (Err(_), _) => true,
        },
    decreases events.len() - scan.pos, 2int,
{
    lemma_unmatched_end_bounds(events, scan.pos, 0);
    if scan.pos < events.len() {
        let (event, range) = events[scan.pos];
        let after = scan.at(scan.pos + 1);
        match event {
            MdEvent::End(end) => {},
            MdEvent::Start(MdTag::HtmlBlock) => {
                lemma_next_block_respects_nesting(cx, events, after, range);
            },
            MdEvent::Start(tag) => {
                lemma_render_tag_respects_nesting(cx, events, after, tag, range);
                let (rendered, then) = spec_render_tag(cx, events, after, tag, range);
                if rendered is Ok {
                    lemma_container_within_level(events, scan.pos, then.pos, closing_tag(tag));
                }
            },
            MdEvent::InlineHtml(s) => {
                lemma_next_html_respects_nesting(cx, events, after, s@, range);
                lemma_leaf_within_level(events, scan.pos);
            },
            MdEvent::Html(s) => {
                lemma_next_html_respects_nesting(cx, events, after, s@, range);
                lemma_leaf_within_level(events, scan.pos);
            },
            _ => {
                lemma_leaf_within_level(events, scan.pos);
            },
        }
    }
}

/// The steps of a scan, taken together, take whole constructs.
pub proof fn lemma_collect_respects_nesting<F: Context>(
    cx: F,
    events: Seq<(MdEvent, Range<usize>)>,
    scan: Scan,
)
    requires
        0 <= scan.pos <= events.len(),
    ensures
        spec_collect(cx, events, scan).0 is Ok ==> step_respects_nesting(
            events,
            scan,
            spec_collect(cx, events, scan).1,
            true,
        ),
    decreases events.len() - scan.pos, 3int,
{
    lemma_next_respects_nesting(cx, events, scan);
    let (step, then) = spec_next(cx, events, scan);
    match step {
        Ok(Some(view)) => {
            lemma_unmatched_end_bounds(events, scan.pos, 0);
            lemma_collect_respects_nesting(cx, events, then);
            lemma_unmatched_end_bounds(events, then.pos, 0);
        },
        _ => {},
    }
}

/// The scan of what lies inside a container stops behind the end of the container.
pub proof fn lemma_children_respects_nesting<F: Context>(
    cx: F,
    events: Seq<(MdEvent, Range<usize>)>,
    scan: Scan,
    tag: MdTag,
)
    requires
        0 <= scan.pos <= events.len(),
    ensures
        spec_children(cx, events, scan, tag).0 is Ok ==> container_respects_nesting(
            events,
            scan,
            spec_children(cx, events, scan, tag).1,
            tag,
        ),
    decreases events.len() - scan.pos, 4int,
{
    lemma_collect_respects_nesting(cx, events, scan.inside(tag));
}

/// A piece of raw HTML, with the body of the component that it may open, is
/// a whole construct of its level.
pub proof fn lemma_html_respects_nesting<F: Context>(
    cx: F,
    events: Seq<(MdEvent, Range<usize>)>,
    scan: Scan,
    raw_html: Seq<char>,
    range: Range<usize>,
)
    requires
        0 <= scan.pos <= events.len(),
    ensures
        spec_html(cx, events, scan, raw_html, range).0 is Ok ==> same_scope(
            scan,
            spec_html(cx, events, scan, raw_html, range).1,
        ) && within_level(events, scan.pos, spec_html(cx, events, scan, raw_html, range).1.pos),
    decreases events.len() - scan.pos, 4int,
{
    lemma_unmatched_end_bounds(events, scan.pos, 0);
    if scan.current_component is None {
        match spec_classify(cx, raw_html, range.start as nat) {
            ClassifiedView::Start(call) => {
                lemma_collect_respects_nesting(cx, events, scan.body_of(call.name));
            },
            _ => {},
        }
    }
}

proof fn lemma_next_html_respects_nesting<F: Context>(
    cx: F,
    events: Seq<(MdEvent, Range<usize>)>,
    scan: Scan,
    raw_html: Seq<char>,
    range: Range<usize>,
)
    requires
        0 <= scan.pos <= events.len(),
    ensures
        spec_next_html(cx, events, scan, raw_html, range).0 is Ok ==> same_scope(
            scan,
            spec_next_html(cx, events, scan, raw_html, range).1,
        ) && within_level(
            events,
            scan.pos,
            spec_next_html(cx, events, scan, raw_html, range).1.pos,
        ),
    decreases events.len() - scan.pos, 5int,
{
    lemma_html_respects_nesting(cx, events, scan, raw_html, range);
}

proof fn lemma_wrap_children_respects_nesting<F: Context>(
    cx: F,
    events: Seq<(MdEvent, Range<usize>)>,
    scan: Scan,
    tag: MdTag,
    element: HtmlElement,
)
    requires
        0 <= scan.pos <= events.len(),
    ensures
        spec_wrap_children(cx, events, scan, tag, element).0 is Ok ==> container_respects_nesting(
            events,
            scan,
            spec_wrap_children(cx, events, scan, tag, element).1,
            tag,
        ),
    decreases events.len() - scan.pos, 5int,
{
    lemma_children_respects_nesting(cx, events, scan, tag);
}

proof fn lemma_skip_children_respects_nesting<F: Context>(
    cx: F,
    events: Seq<(MdEvent, Range<usize>)>,
    scan: Scan,
    tag: MdTag,
    message: Seq<char>,
)
    requires
        0 <= scan.pos <= events.len(),
    ensures
        spec_skip_children(cx, events, scan, tag, message).0 is Ok ==> container_respects_nesting(
            events,
            scan,
            spec_skip_children(cx, events, scan, tag, message).1,
            tag,
        ),
    decreases events.len() - scan.pos, 5int,
{
    lemma_children_respects_nesting(cx, events, scan, tag);
}

proof fn lemma_link_children_respects_nesting<F: Context>(
    cx: F,
    events: Seq<(MdEvent, Range<usize>)>,
    scan: Scan,
    tag: MdTag,
    link_type: pulldown_cmark::LinkType,
    dest_url: Seq<char>,
    title: Seq<char>,
    image: bool,
)
    requires
        0 <= scan.pos <= events.len(),
    ensures
        spec_link_children(cx, events, scan, tag, link_type, dest_url, title, image).0 is Ok
            ==> container_respects_nesting(
            events,
            scan,
            spec_link_children(cx, events, scan, tag, link_type, dest_url, title, image).1,
            tag,
        ),
    decreases events.len() - scan.pos, 5int,
{
    lemma_children_respects_nesting(cx, events, scan, tag);
}

/// A block of raw HTML is taken whole, with the body of the component that
/// it opens, up to the block that closes the component: the step that has
/// taken the start of the block keeps to the level of that start. Only a
/// block that closes a component yields no view.
pub proof fn lemma_next_block_respects_nesting<F: Context>(
    cx: F,
    events: Seq<(MdEvent, Range<usize>)>,
    scan: Scan,
    range: Range<usize>,
)
    requires
        1 <= scan.pos <= events.len(),
        events[scan.pos - 1].0 == MdEvent::Start(MdTag::HtmlBlock),
    ensures
        spec_next_block(cx, events, scan, range).0 is Ok ==> same_scope(
            scan,
            spec_next_block(cx, events, scan, range).1,
        ) && within_level(events, scan.pos - 1, spec_next_block(cx, events, scan, range).1.pos)
            && scan.pos <= spec_next_block(cx, events, scan, range).1.pos,
        spec_next_block(cx, events, scan, range).0 matches Ok(None) ==> scan.end_tag is None,
        spec_block_role(cx, events, scan) is Plain && spec_next_block(cx, events, scan, range).0
            is Ok ==> behind_end(
            events,
            scan.pos,
            spec_next_block(cx, events, scan, range).1.pos,
            MdTagEnd::HtmlBlock,
        ) && spec_next_block(cx, events, scan, range).0 matches Ok(Some(_)),
    decreases events.len() - scan.pos, 7int,
{
    let start = scan.pos - 1;
    lemma_unmatched_end_bounds(events, scan.pos, 0);
    match spec_block_role(cx, events, scan) {
        BlockRole::Plain => {
            lemma_render_tag_respects_nesting(cx, events, scan, MdTag::HtmlBlock, range);
            let (rendered, then) = spec_render_tag(cx, events, scan, MdTag::HtmlBlock, range);
            if rendered is Ok {
                lemma_container_within_level(events, start, then.pos, MdTagEnd::HtmlBlock);
            }
        },
        BlockRole::Closes => {
            let first = scan.at(scan.pos + 1);
            lemma_children_respects_nesting(cx, events, first, MdTag::HtmlBlock);
            let (lines, then) = spec_children(cx, events, first, MdTag::HtmlBlock);
            if lines is Ok {
                lemma_leaf_within_level(events, scan.pos);
                lemma_container_within_level(events, start, then.pos, MdTagEnd::HtmlBlock);
            }
        },
        BlockRole::Opens(call) => {
            let rest = spec_rest_of_block(scan, call.name);
            lemma_collect_respects_nesting(cx, events, rest);
            let (lines, behind) = spec_collect(cx, events, rest);
            if lines is Ok && crate::scan::range_fits(call) {
                lemma_leaf_within_level(events, scan.pos);
                lemma_container_within_level(events, start, behind.pos, MdTagEnd::HtmlBlock);
                let body = scan.resumed(behind).body_of(call.name);
                lemma_collect_respects_nesting(cx, events, body);
                lemma_unmatched_end_bounds(events, behind.pos, 0);
            }
        },
    }
}

/// A container is rendered up to its end.
pub proof fn lemma_render_tag_respects_nesting<F: Context>(
    cx: F,
    events: Seq<(MdEvent, Range<usize>)>,
    scan: Scan,
    tag: MdTag,
    range: Range<usize>,
)
    requires
        0 <= scan.pos <= events.len(),
    ensures
        spec_render_tag(cx, events, scan, tag, range).0 is Ok ==> container_respects_nesting(
            events,
            scan,
            spec_render_tag(cx, events, scan, tag, range).1,
            tag,
        ),
    decreases events.len() - scan.pos, 6int,
{
    match tag {
        MdTag::HtmlBlock => {
            lemma_children_respects_nesting(cx, events, scan, tag);
        },
        MdTag::Paragraph => {
            lemma_wrap_children_respects_nesting(cx, events, scan, tag, HtmlElement::Paragraph);
        },
        MdTag::Heading(level) => {
            lemma_wrap_children_respects_nesting(
                cx,
                events,
                scan,
                tag,
                HtmlElement::Heading(level),
            );
        },
        MdTag::BlockQuote => {
            lemma_wrap_children_respects_nesting(cx, events, scan, tag, HtmlElement::BlockQuote);
        },
        MdTag::CodeBlock(kind) => {
            lemma_collect_text_leaves_container(events, scan.pos, closing_tag(tag), Seq::empty());
        },
        MdTag::List(Some(start)) => {
            lemma_wrap_children_respects_nesting(
                cx,
                events,
                scan,
                tag,
                HtmlElement::Ol(start as i32),
            );
        },
        MdTag::List(None) => {
            lemma_wrap_children_respects_nesting(cx, events, scan, tag, HtmlElement::Ul);
        },
        MdTag::Item => {
            lemma_wrap_children_respects_nesting(cx, events, scan, tag, HtmlElement::Li);
        },
        MdTag::Table(alignments) => {
            lemma_wrap_children_respects_nesting(
                cx,
                events,
                Scan { column_alignment: Some(alignments@), ..scan },
                tag,
                HtmlElement::Table,
            );
        },
        MdTag::TableHead => {
            lemma_wrap_children_respects_nesting(cx, events, scan, tag, HtmlElement::Thead);
        },
        MdTag::TableRow => {
            lemma_wrap_children_respects_nesting(cx, events, scan, tag, HtmlElement::Trow);
        },
        MdTag::TableCell => {
            lemma_children_respects_nesting(
                cx,
                events,
                Scan { cell_index: scan.cell_index + 1, ..scan },
                tag,
            );
        },
        MdTag::Emphasis => {
            lemma_wrap_children_respects_nesting(cx, events, scan, tag, HtmlElement::Italics);
        },
        MdTag::Strong => {
            lemma_wrap_children_respects_nesting(cx, events, scan, tag, HtmlElement::Bold);
        },
        MdTag::Strikethrough => {
            lemma_wrap_children_respects_nesting(
                cx,
                events,
                scan,
                tag,
                HtmlElement::StrikeThrough,
            );
        },
        MdTag::Image { link_type, dest_url, title } => {
            lemma_link_children_respects_nesting(
                cx,
                events,
                scan,
                tag,
                link_type,
                dest_url@,
                title@,
                true,
            );
        },
        MdTag::Link { link_type, dest_url, title } => {
            lemma_link_children_respects_nesting(
                cx,
                events,
                scan,
                tag,
                link_type,
                dest_url@,
                title@,
                false,
            );
        },
        MdTag::FootnoteDefinition => {
            lemma_skip_children_respects_nesting(cx, events, scan, tag, crate::scan::MSG_FOOTNOTE@);
        },
        MdTag::MetadataBlock => {
            lemma_collect_text_leaves_container(events, scan.pos, closing_tag(tag), Seq::empty());
        },
        MdTag::DefinitionList => {
            lemma_skip_children_respects_nesting(
                cx,
                events,
                scan,
                tag,
                crate::scan::MSG_DEFINITION_LIST@,
            );
        },
        MdTag::DefinitionListTitle => {
            lemma_skip_children_respects_nesting(
                cx,
                events,
                scan,
                tag,
                crate::scan::MSG_DEFINITION_LIST@,
            );
        },
        MdTag::DefinitionListDefinition => {
            lemma_skip_children_respects_nesting(
                cx,
                events,
                scan,
                tag,
                crate::scan::MSG_DEFINITION_LIST@,
            );
        },
        MdTag::Superscript => {
            lemma_skip_children_respects_nesting(
                cx,
                events,
                scan,
                tag,
                crate::scan::MSG_SUPERSCRIPT@,
            );
        },
        MdTag::Subscript => {
            lemma_skip_children_respects_nesting(
                cx,
                events,
                scan,
                tag,
                crate::scan::MSG_SUBSCRIPT@,
            );
        },
    }
}

/// The tag-matching law: a scan that meets the start of a container takes
/// exactly the events up to and including the end that matches the start.
/// Where the step succeeds, it yields a view, the event before the scan's new
/// position is the end that closes the container, and no end between the
/// start and that end is without its start. Where the events run out before
/// the container is closed, the scan stops behind the last of them.
///
/// The one container that can reach further is a block of raw HTML whose
/// first line opens or closes a component: see
/// `lemma_next_block_respects_nesting`.
pub proof fn lemma_container_is_taken_whole<F: Context>(
    cx: F,
    events: Seq<(MdEvent, Range<usize>)>,
    scan: Scan,
)
    requires
        0 <= scan.pos < events.len(),
        opens(events[scan.pos].0),
        events[scan.pos].0 == MdEvent::Start(MdTag::HtmlBlock) ==> spec_block_role(
            cx,
            events,
            scan.at(scan.pos + 1),
        ) is Plain,
        spec_next(cx, events, scan).0 is Ok,
    ensures
        spec_next(cx, events, scan).0 matches Ok(Some(_)),
        behind_end(
            events,
            scan.pos + 1,
            spec_next(cx, events, scan).1.pos,
            closing_tag(events[scan.pos].0->Start_0),
        ),
{
    let (event, range) = events[scan.pos];
    let tag = event->Start_0;
    let after = scan.at(scan.pos + 1);
    if tag == MdTag::HtmlBlock {
        lemma_next_block_respects_nesting(cx, events, after, range);
    } else {
        lemma_render_tag_respects_nesting(cx, events, after, tag, range);
    }
}

} // verus!
