//! Streams whose containers are well nested, and the proof that the scan of
//! such a stream never meets an end that does not match.
//!
//! The parser promises that every start has its end. A stream that breaks the
//! promise is no document: the renderer leaves it out by a precondition, and
//! `nesting_breach_of` tells such a stream before it is rendered.

use vstd::prelude::*;
use core::ops::Range;
use crate::context::{Context, HtmlElement};
use crate::event::{closing_tag, MdEvent, MdTag, MdTagEnd};
use crate::nesting::{closes, lemma_next_respects_nesting, opens};
use crate::scan::{
    spec_block_role, spec_children, spec_collect, spec_collect_text, spec_html,
    spec_link_children, spec_next, spec_next_block, spec_next_html, spec_render_tag,
    spec_rest_of_block, spec_skip_children, spec_wrap_children, BlockRole, Scan, StreamError,
};

verus! {

/// The first breach of the nesting from the event `pos` on, where `open`
/// holds the ends of the containers that are open there, the innermost last:
/// an end where no container is open, or an end that is not that of the
/// innermost container. A stream may end with containers still open.
pub open spec fn nesting_breach(
    events: Seq<(MdEvent, Range<usize>)>,
    pos: int,
    open: Seq<MdTagEnd>,
) -> Option<StreamError>
    decreases events.len() - pos,
{
    if pos < 0 || pos >= events.len() {
        None
    } else {
        match events[pos].0 {
            MdEvent::Start(tag) => nesting_breach(events, pos + 1, open.push(closing_tag(tag))),
            MdEvent::End(end) => if open.len() == 0 {
                Some(StreamError::UnexpectedClosingTag)
            } else if open.last() != end {
                Some(StreamError::WrongClosingTag)
            } else {
                nesting_breach(events, pos + 1, open.drop_last())
            },
            _ => nesting_breach(events, pos + 1, open),
        }
    }
}

/// From the event `pos` on, every end is that of the innermost open container.
pub open spec fn well_nested(
    events: Seq<(MdEvent, Range<usize>)>,
    pos: int,
    open: Seq<MdTagEnd>,
) -> bool {
    nesting_breach(events, pos, open) is None
}

/// The containers `open` are those around the scan: the scan of a container
/// has that container innermost, and the scan of a document has none.
pub open spec fn scope_fits(scan: Scan, open: Seq<MdTagEnd>) -> bool {
    match scan.end_tag {
        Some(end) => open.len() > 0 && open.last() == end,
        None => scan.current_component is Some || open.len() == 0,
    }
}

/// The containers that are open behind the end of the scan.
pub open spec fn open_behind(scan: Scan, open: Seq<MdTagEnd>) -> Seq<MdTagEnd> {
    if scan.end_tag is Some {
        open.drop_last()
    } else {
        open
    }
}

/// The result is no failure of the nesting.
pub open spec fn keeps_nesting<A>(r: Result<A, StreamError>) -> bool {
    match r {
        Err(StreamError::WrongClosingTag) => false,
        Err(StreamError::UnexpectedClosingTag) => false,
        _ => true,
    }
}

/// The scan stands in a stream that is well nested from its cursor on.
pub open spec fn scan_well_nested(events: Seq<(MdEvent, Range<usize>)>, scan: Scan) -> bool {
    exists|open: Seq<MdTagEnd>| #[trigger]
        well_nested(events, scan.pos, open) && scope_fits(scan, open)
}

/// The scan `other` stands where `scan` stands, in a scope that the same
/// open containers fit: in the same container, or in the body of a component.
pub open spec fn same_place(scan: Scan, other: Scan) -> bool {
    &&& other.pos == scan.pos
    &&& ((other.end_tag is None && other.current_component is Some) || (other.end_tag
        == scan.end_tag && (scan.end_tag is Some || scan.current_component is None
        || other.current_component is Some)))
}

/// A stream that is well nested for a scan is so for every scan at the same place.
pub proof fn lemma_same_place_well_nested(
    events: Seq<(MdEvent, Range<usize>)>,
    scan: Scan,
    other: Scan,
)
    requires
        scan_well_nested(events, scan),
        same_place(scan, other),
    ensures
        scan_well_nested(events, other),
{
    let open = choose|open: Seq<MdTagEnd>| #[trigger]
        well_nested(events, scan.pos, open) && scope_fits(scan, open);
    assert(well_nested(events, other.pos, open) && scope_fits(other, open));
}

/// Behind the start of a container the stream is well nested for the scan
/// of what lies inside the container.
pub proof fn lemma_start_enters(events: Seq<(MdEvent, Range<usize>)>, scan: Scan, tag: MdTag)
    requires
        0 <= scan.pos < events.len(),
        events[scan.pos].0 == MdEvent::Start(tag),
        scan_well_nested(events, scan),
    ensures
        scan_well_nested(events, scan.at(scan.pos + 1).inside(tag)),
{
    let open = choose|open: Seq<MdTagEnd>| #[trigger]
        well_nested(events, scan.pos, open) && scope_fits(scan, open);
    let inner = open.push(closing_tag(tag));
    let inside = scan.at(scan.pos + 1).inside(tag);
    assert(well_nested(events, inside.pos, inner) && scope_fits(inside, inner));
}

/// Behind an event that neither starts nor ends a container the stream is
/// well nested as it was before.
pub proof fn lemma_leaf_passes(events: Seq<(MdEvent, Range<usize>)>, scan: Scan)
    requires
        0 <= scan.pos < events.len(),
        !opens(events[scan.pos].0),
        !closes(events[scan.pos].0),
        scan_well_nested(events, scan),
    ensures
        scan_well_nested(events, scan.at(scan.pos + 1)),
{
    let open = choose|open: Seq<MdTagEnd>| #[trigger]
        well_nested(events, scan.pos, open) && scope_fits(scan, open);
    let after = scan.at(scan.pos + 1);
    assert(well_nested(events, after.pos, open) && scope_fits(after, open));
}

/// Where a scan has come to its end, the stream is well nested for the scan
/// of the body of a component that starts there.
pub proof fn lemma_body_behind_scan<F: Context>(
    cx: F,
    events: Seq<(MdEvent, Range<usize>)>,
    scan: Scan,
    body: Scan,
)
    requires
        0 <= scan.pos <= events.len(),
        scan_well_nested(events, scan),
        spec_collect(cx, events, scan).0 is Ok,
        body.pos == spec_collect(cx, events, scan).1.pos,
        body.end_tag is None,
        body.current_component is Some,
    ensures
        scan_well_nested(events, body),
{
    let open = choose|open: Seq<MdTagEnd>| #[trigger]
        well_nested(events, scan.pos, open) && scope_fits(scan, open);
    lemma_collect_keeps_nesting(cx, events, scan, open);
    let behind = open_behind(scan, open);
    assert(well_nested(events, body.pos, behind) && scope_fits(body, behind));
}

/// In a well nested stream a step meets no end that does not match, and the
/// stream is well nested behind the step.
pub proof fn lemma_next_keeps_nesting<F: Context>(
    cx: F,
    events: Seq<(MdEvent, Range<usize>)>,
    scan: Scan,
    open: Seq<MdTagEnd>,
)
    requires
        0 <= scan.pos <= events.len(),
        well_nested(events, scan.pos, open),
        scope_fits(scan, open),
    ensures
        keeps_nesting(spec_next(cx, events, scan).0),
        spec_next(cx, events, scan).0 matches Ok(Some(_)) ==> well_nested(
            events,
            spec_next(cx, events, scan).1.pos,
            open,
        ),
        spec_next(cx, events, scan).0 matches Ok(None) ==> well_nested(
            events,
            spec_next(cx, events, scan).1.pos,
            open_behind(scan, open),
        ),
    decreases events.len() - scan.pos, 2int,
{
    if scan.pos < events.len() {
        let (event, range) = events[scan.pos];
        let after = scan.at(scan.pos + 1);
        match event {
            MdEvent::Start(MdTag::HtmlBlock) => {
                lemma_next_block_keeps_nesting(cx, events, after, range, open);
            },
            MdEvent::Start(tag) => {
                lemma_render_tag_keeps_nesting(cx, events, after, tag, range, open);
            },
            MdEvent::InlineHtml(s) => {
                lemma_next_html_keeps_nesting(cx, events, after, s@, range, open);
            },
            MdEvent::Html(s) => {
                lemma_next_html_keeps_nesting(cx, events, after, s@, range, open);
            },
            _ => {},
        }
    }
}

/// In a well nested stream a scan meets no end that does not match, and the
/// stream is well nested behind the scan.
pub proof fn lemma_collect_keeps_nesting<F: Context>(
    cx: F,
    events: Seq<(MdEvent, Range<usize>)>,
    scan: Scan,
    open: Seq<MdTagEnd>,
)
    requires
        0 <= scan.pos <= events.len(),
        well_nested(events, scan.pos, open),
        scope_fits(scan, open),
    ensures
        keeps_nesting(spec_collect(cx, events, scan).0),
        spec_collect(cx, events, scan).0 is Ok ==> well_nested(
            events,
            spec_collect(cx, events, scan).1.pos,
            open_behind(scan, open),
        ),
    decreases events.len() - scan.pos, 3int,
{
    lemma_next_keeps_nesting(cx, events, scan, open);
    lemma_next_respects_nesting(cx, events, scan);
    let (step, then) = spec_next(cx, events, scan);
    if (step matches Ok(Some(_))) && scan.pos < then.pos <= events.len() {
        lemma_collect_keeps_nesting(cx, events, then, open);
    }
}

proof fn lemma_children_keeps_nesting<F: Context>(
    cx: F,
    events: Seq<(MdEvent, Range<usize>)>,
    scan: Scan,
    tag: MdTag,
    open: Seq<MdTagEnd>,
)
    requires
        0 <= scan.pos <= events.len(),
        well_nested(events, scan.pos, open.push(closing_tag(tag))),
    ensures
        keeps_nesting(spec_children(cx, events, scan, tag).0),
        spec_children(cx, events, scan, tag).0 is Ok ==> well_nested(
            events,
            spec_children(cx, events, scan, tag).1.pos,
            open,
        ),
    decreases events.len() - scan.pos, 4int,
{
    let inner = open.push(closing_tag(tag));
    assert(inner.drop_last() =~= open);
    lemma_collect_keeps_nesting(cx, events, scan.inside(tag), inner);
}

proof fn lemma_collect_text_keeps_nesting(
    events: Seq<(MdEvent, Range<usize>)>,
    pos: int,
    end: MdTagEnd,
    text: Seq<char>,
    open: Seq<MdTagEnd>,
)
    requires
        0 <= pos <= events.len(),
        well_nested(events, pos, open.push(end)),
    ensures
        keeps_nesting(spec_collect_text(events, pos, end, text).0),
        spec_collect_text(events, pos, end, text).0 is Ok ==> well_nested(
            events,
            spec_collect_text(events, pos, end, text).1,
            open,
        ),
    decreases events.len() - pos,
{
    assert(open.push(end).drop_last() =~= open);
    if pos < events.len() {
        match events[pos].0 {
            MdEvent::Text(s) => {
                lemma_collect_text_keeps_nesting(events, pos + 1, end, text + s@, open);
            },
            MdEvent::SoftBreak => {
                lemma_collect_text_keeps_nesting(events, pos + 1, end, text.push('\n'), open);
            },
            MdEvent::HardBreak => {
                lemma_collect_text_keeps_nesting(events, pos + 1, end, text.push('\n'), open);
            },
            _ => {},
        }
    }
}

proof fn lemma_html_keeps_nesting<F: Context>(
    cx: F,
    events: Seq<(MdEvent, Range<usize>)>,
    scan: Scan,
    raw_html: Seq<char>,
    range: Range<usize>,
    open: Seq<MdTagEnd>,
)
    requires
        0 <= scan.pos <= events.len(),
        well_nested(events, scan.pos, open),
    ensures
        keeps_nesting(spec_html(cx, events, scan, raw_html, range).0),
        spec_html(cx, events, scan, raw_html, range).0 is Ok ==> well_nested(
            events,
            spec_html(cx, events, scan, raw_html, range).1.pos,
            open,
        ),
    decreases events.len() - scan.pos, 4int,
{
    if scan.current_component is None {
        match crate::classify::spec_classify(cx, raw_html, range.start as nat) {
            crate::classify::ClassifiedView::Start(call) => {
                lemma_collect_keeps_nesting(cx, events, scan.body_of(call.name), open);
            },
            _ => {},
        }
    }
}

proof fn lemma_next_html_keeps_nesting<F: Context>(
    cx: F,
    events: Seq<(MdEvent, Range<usize>)>,
    scan: Scan,
    raw_html: Seq<char>,
    range: Range<usize>,
    open: Seq<MdTagEnd>,
)
    requires
        0 <= scan.pos <= events.len(),
        well_nested(events, scan.pos, open),
    ensures
        keeps_nesting(spec_next_html(cx, events, scan, raw_html, range).0),
        spec_next_html(cx, events, scan, raw_html, range).0 is Ok ==> well_nested(
            events,
            spec_next_html(cx, events, scan, raw_html, range).1.pos,
            open,
        ),
    decreases events.len() - scan.pos, 5int,
{
    lemma_html_keeps_nesting(cx, events, scan, raw_html, range, open);
}

proof fn lemma_wrap_children_keeps_nesting<F: Context>(
    cx: F,
    events: Seq<(MdEvent, Range<usize>)>,
    scan: Scan,
    tag: MdTag,
    element: HtmlElement,
    open: Seq<MdTagEnd>,
)
    requires
        0 <= scan.pos <= events.len(),
        well_nested(events, scan.pos, open.push(closing_tag(tag))),
    ensures
        keeps_nesting(spec_wrap_children(cx, events, scan, tag, element).0),
        spec_wrap_children(cx, events, scan, tag, element).0 is Ok ==> well_nested(
            events,
            spec_wrap_children(cx, events, scan, tag, element).1.pos,
            open,
        ),
    decreases events.len() - scan.pos, 5int,
{
    lemma_children_keeps_nesting(cx, events, scan, tag, open);
}

proof fn lemma_skip_children_keeps_nesting<F: Context>(
    cx: F,
    events: Seq<(MdEvent, Range<usize>)>,
    scan: Scan,
    tag: MdTag,
    message: Seq<char>,
    open: Seq<MdTagEnd>,
)
    requires
        0 <= scan.pos <= events.len(),
        well_nested(events, scan.pos, open.push(closing_tag(tag))),
    ensures
        keeps_nesting(spec_skip_children(cx, events, scan, tag, message).0),
        spec_skip_children(cx, events, scan, tag, message).0 is Ok ==> well_nested(
            events,
            spec_skip_children(cx, events, scan, tag, message).1.pos,
            open,
        ),
    decreases events.len() - scan.pos, 5int,
{
    lemma_children_keeps_nesting(cx, events, scan, tag, open);
}

proof fn lemma_link_children_keeps_nesting<F: Context>(
    cx: F,
    events: Seq<(MdEvent, Range<usize>)>,
    scan: Scan,
    tag: MdTag,
    link_type: pulldown_cmark::LinkType,
    dest_url: Seq<char>,
    title: Seq<char>,
    image: bool,
    open: Seq<MdTagEnd>,
)
    requires
        0 <= scan.pos <= events.len(),
        well_nested(events, scan.pos, open.push(closing_tag(tag))),
    ensures
        keeps_nesting(
            spec_link_children(cx, events, scan, tag, link_type, dest_url, title, image).0,
        ),
        spec_link_children(cx, events, scan, tag, link_type, dest_url, title, image).0 is Ok
            ==> well_nested(
            events,
            spec_link_children(cx, events, scan, tag, link_type, dest_url, title, image).1.pos,
            open,
        ),
    decreases events.len() - scan.pos, 5int,
{
    lemma_children_keeps_nesting(cx, events, scan, tag, open);
}

/// In a well nested stream a container is rendered without a failure of the
/// nesting, and the stream is well nested behind it.
pub proof fn lemma_render_tag_keeps_nesting<F: Context>(
    cx: F,
    events: Seq<(MdEvent, Range<usize>)>,
    scan: Scan,
    tag: MdTag,
    range: Range<usize>,
    open: Seq<MdTagEnd>,
)
    requires
        0 <= scan.pos <= events.len(),
        well_nested(events, scan.pos, open.push(closing_tag(tag))),
    ensures
        keeps_nesting(spec_render_tag(cx, events, scan, tag, range).0),
        spec_render_tag(cx, events, scan, tag, range).0 is Ok ==> well_nested(
            events,
            spec_render_tag(cx, events, scan, tag, range).1.pos,
            open,
        ),
    decreases events.len() - scan.pos, 6int,
{
    match tag {
        MdTag::HtmlBlock => {
            lemma_children_keeps_nesting(cx, events, scan, tag, open);
        },
        MdTag::Paragraph => {
            lemma_wrap_children_keeps_nesting(cx, events, scan, tag, HtmlElement::Paragraph, open);
        },
        MdTag::Heading(level) => {
            lemma_wrap_children_keeps_nesting(
                cx,
                events,
                scan,
                tag,
                HtmlElement::Heading(level),
                open,
            );
        },
        MdTag::BlockQuote => {
            lemma_wrap_children_keeps_nesting(cx, events, scan, tag, HtmlElement::BlockQuote, open);
        },
        MdTag::CodeBlock(kind) => {
            lemma_collect_text_keeps_nesting(
                events,
                scan.pos,
                closing_tag(tag),
                Seq::empty(),
                open,
            );
        },
        MdTag::List(Some(start)) => {
            lemma_wrap_children_keeps_nesting(
                cx,
                events,
                scan,
                tag,
                HtmlElement::Ol(start as i32),
                open,
            );
        },
        MdTag::List(None) => {
            lemma_wrap_children_keeps_nesting(cx, events, scan, tag, HtmlElement::Ul, open);
        },
        MdTag::Item => {
            lemma_wrap_children_keeps_nesting(cx, events, scan, tag, HtmlElement::Li, open);
        },
        MdTag::Table(alignments) => {
            lemma_wrap_children_keeps_nesting(
                cx,
                events,
                Scan { column_alignment: Some(alignments@), ..scan },
                tag,
                HtmlElement::Table,
                open,
            );
        },
        MdTag::TableHead => {
            lemma_wrap_children_keeps_nesting(cx, events, scan, tag, HtmlElement::Thead, open);
        },
        MdTag::TableRow => {
            lemma_wrap_children_keeps_nesting(cx, events, scan, tag, HtmlElement::Trow, open);
        },
        MdTag::TableCell => {
            lemma_children_keeps_nesting(
                cx,
                events,
                Scan { cell_index: scan.cell_index + 1, ..scan },
                tag,
                open,
            );
        },
        MdTag::Emphasis => {
            lemma_wrap_children_keeps_nesting(cx, events, scan, tag, HtmlElement::Italics, open);
        },
        MdTag::Strong => {
            lemma_wrap_children_keeps_nesting(cx, events, scan, tag, HtmlElement::Bold, open);
        },
        MdTag::Strikethrough => {
            lemma_wrap_children_keeps_nesting(
                cx,
                events,
                scan,
                tag,
                HtmlElement::StrikeThrough,
                open,
            );
        },
        MdTag::Image { link_type, dest_url, title } => {
            lemma_link_children_keeps_nesting(
                cx,
                events,
                scan,
                tag,
                link_type,
                dest_url@,
                title@,
                true,
                open,
            );
        },
        MdTag::Link { link_type, dest_url, title } => {
            lemma_link_children_keeps_nesting(
                cx,
                events,
                scan,
                tag,
                link_type,
                dest_url@,
                title@,
                false,
                open,
            );
        },
        MdTag::FootnoteDefinition => {
            lemma_skip_children_keeps_nesting(
                cx,
                events,
                scan,
                tag,
                crate::scan::MSG_FOOTNOTE@,
                open,
            );
        },
        MdTag::MetadataBlock => {
            lemma_collect_text_keeps_nesting(
                events,
                scan.pos,
                closing_tag(tag),
                Seq::empty(),
                open,
            );
        },
        MdTag::DefinitionList => {
            lemma_skip_children_keeps_nesting(
                cx,
                events,
                scan,
                tag,
                crate::scan::MSG_DEFINITION_LIST@,
                open,
            );
        },
        MdTag::DefinitionListTitle => {
            lemma_skip_children_keeps_nesting(
                cx,
                events,
                scan,
                tag,
                crate::scan::MSG_DEFINITION_LIST@,
                open,
            );
        },
        MdTag::DefinitionListDefinition => {
            lemma_skip_children_keeps_nesting(
                cx,
                events,
                scan,
                tag,
                crate::scan::MSG_DEFINITION_LIST@,
                open,
            );
        },
        MdTag::Superscript => {
            lemma_skip_children_keeps_nesting(
                cx,
                events,
                scan,
                tag,
                crate::scan::MSG_SUPERSCRIPT@,
                open,
            );
        },
        MdTag::Subscript => {
            lemma_skip_children_keeps_nesting(
                cx,
                events,
                scan,
                tag,
                crate::scan::MSG_SUBSCRIPT@,
                open,
            );
        },
    }
}

proof fn lemma_next_block_keeps_nesting<F: Context>(
    cx: F,
    events: Seq<(MdEvent, Range<usize>)>,
    scan: Scan,
    range: Range<usize>,
    open: Seq<MdTagEnd>,
)
    requires
        0 <= scan.pos <= events.len(),
        well_nested(events, scan.pos, open.push(MdTagEnd::HtmlBlock)),
    ensures
        keeps_nesting(spec_next_block(cx, events, scan, range).0),
        spec_next_block(cx, events, scan, range).0 is Ok ==> well_nested(
            events,
            spec_next_block(cx, events, scan, range).1.pos,
            open,
        ),
    decreases events.len() - scan.pos, 7int,
{
    let inner = open.push(MdTagEnd::HtmlBlock);
    assert(inner.drop_last() =~= open);
    match spec_block_role(cx, events, scan) {
        BlockRole::Plain => {
            lemma_render_tag_keeps_nesting(cx, events, scan, MdTag::HtmlBlock, range, open);
        },
        BlockRole::Closes => {
            lemma_children_keeps_nesting(
                cx,
                events,
                scan.at(scan.pos + 1),
                MdTag::HtmlBlock,
                open,
            );
        },
        BlockRole::Opens(call) => {
            let rest = spec_rest_of_block(scan, call.name);
            lemma_collect_keeps_nesting(cx, events, rest, inner);
            let (lines, behind) = spec_collect(cx, events, rest);
            if lines is Ok && scan.pos <= behind.pos <= events.len() {
                lemma_collect_keeps_nesting(
                    cx,
                    events,
                    scan.resumed(behind).body_of(call.name),
                    open,
                );
            }
        },
    }
}

/// The first breach of the nesting of a stream, if there is one.
pub fn nesting_breach_of(events: &Vec<(MdEvent, Range<usize>)>) -> (breach: Option<StreamError>)
    ensures
        breach == nesting_breach(events@, 0, Seq::empty()),
{
    let mut open: Vec<MdTagEnd> = Vec::new();
    let mut i: usize = 0;
    while i < events.len()
        invariant
            i <= events.len(),
            nesting_breach(events@, i as int, open@) == nesting_breach(events@, 0, Seq::empty()),
        decreases events.len() - i,
    {
        match &events[i].0 {
            MdEvent::Start(tag) => {
                open.push(crate::event::as_closing_tag(tag));
            },
            MdEvent::End(end) => {
                match open.pop() {
                    None => {
                        return Some(StreamError::UnexpectedClosingTag);
                    },
                    Some(innermost) => {
                        if innermost != *end {
                            return Some(StreamError::WrongClosingTag);
                        }
                    },
                }
            },
            _ => {},
        }
        i += 1;
    }
    None
}

} // verus!
