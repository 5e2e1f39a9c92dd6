//! What holds of every rendering: laws about cells, attributes, components,
//! failures and plain text, each proved from the model in [`crate::scan`].

use vstd::prelude::*;
use vstd::utf8::encode_utf8;
use core::ops::Range;
use crate::classify::{spec_classify, ClassifiedView};
use crate::component::{spec_parse_tag, value_lies_in, ComponentCallView, CustomHtmlTagView};
use crate::context::{Context, ElementAttributesView, HtmlElement};
use crate::event::{spec_align_string, Alignment, MdEvent, MdTag, MdTagEnd};
use crate::context::spec_text;
use crate::event::closing_tag;
use crate::nesting::{
    behind_end, lemma_container_is_taken_whole, lemma_next_respects_nesting,
    lemma_unmatched_end_bounds, opens, within_level,
};
use crate::scan::{
    prepend, range_fits, spec_block_role, spec_call_component, spec_children, spec_collect,
    spec_convert_attributes, spec_document, spec_error_view, spec_html, spec_next,
    spec_next_block, spec_next_html, spec_recover, spec_render_tag, spec_rest_of_block,
    spec_wrap_children, BlockRole, HtmlOutcome, Scan, StreamError,
};
use crate::text::{lemma_encode_utf8_subrange, utf8_len};

verus! {

/// The view of a cell that is aligned as `alignment` says.
pub open spec fn cell_view<F: Context>(cx: F, children: F::View, alignment: Alignment) -> F::View {
    cx.el_with_attributes_spec(
        HtmlElement::Tcell,
        children,
        ElementAttributesView {
            classes: Seq::empty(),
            style: Some(spec_align_string(alignment)),
            on_click: None,
        },
    )
}

/// A cell is aligned as the column of its index, and the next cell of the
/// scan has the next index.
pub proof fn lemma_cell_takes_its_column<F: Context>(
    cx: F,
    events: Seq<(MdEvent, Range<usize>)>,
    scan: Scan,
)
    requires
        0 <= scan.pos < events.len(),
        events[scan.pos].0 == MdEvent::Start(MdTag::TableCell),
        scan.column_alignment matches Some(alignments) && 0 <= scan.cell_index
            < alignments.len(),
    ensures
        ({
            let (children, then) = spec_children(
                cx,
                events,
                Scan { pos: scan.pos + 1, cell_index: scan.cell_index + 1, ..scan },
                MdTag::TableCell,
            );
            &&& spec_next(cx, events, scan) == (
                match children {
                    Ok(children) => Ok(
                        Some(
                            cell_view(
                                cx,
                                children,
                                scan.column_alignment->Some_0[scan.cell_index],
                            ),
                        ),
                    ),
                    Err(error) => Err(error),
                },
                then,
            )
            &&& then.cell_index == scan.cell_index + 1
            &&& then.column_alignment == scan.column_alignment
        }),
{
    let after = scan.at(scan.pos + 1);
    let range = events[scan.pos].1;
    assert(spec_render_tag(cx, events, after, MdTag::TableCell, range).1 == spec_children(
        cx,
        events,
        Scan { cell_index: scan.cell_index + 1, ..after },
        MdTag::TableCell,
    ).1);
}

/// The cells of a row are counted from nought: whatever the renderer that
/// meets a row or the head of a table has counted before, the first cell in
/// it is aligned as the first column of the table.
pub proof fn lemma_first_cell_of_row_takes_first_column<F: Context>(
    cx: F,
    events: Seq<(MdEvent, Range<usize>)>,
    scan: Scan,
    row: MdTag,
)
    requires
        row == MdTag::TableRow || row == MdTag::TableHead,
        0 <= scan.pos < events.len(),
        events[scan.pos].0 == MdEvent::Start(MdTag::TableCell),
        scan.column_alignment matches Some(alignments) && alignments.len() > 0,
    ensures
        ({
            let cells = scan.inside(row);
            let (children, then) = spec_children(
                cx,
                events,
                Scan { pos: scan.pos + 1, cell_index: 1, ..cells },
                MdTag::TableCell,
            );
            spec_next(cx, events, cells) == (
                match children {
                    Ok(children) => Ok(
                        Some(cell_view(cx, children, scan.column_alignment->Some_0[0])),
                    ),
                    Err(error) => Err(error),
                },
                then,
            )
        }),
{
    lemma_cell_takes_its_column(cx, events, scan.inside(row));
}

/// A value that an attribute of a tag records is found again in the document:
/// where the tag `tag` stands in the document `document` from the character
/// `at` on, and `call` was read from it with the byte offset of that
/// character, the bytes of the document in the range of an attribute are the
/// bytes of the attribute's value.
pub proof fn lemma_attribute_range_holds_value(
    document: Seq<char>,
    at: int,
    tag: Seq<char>,
    call: ComponentCallView,
    i: int,
)
    requires
        0 <= at,
        at + tag.len() <= document.len(),
        document.subrange(at, at + tag.len()) == tag,
        call.full_string == tag,
        call.range_offset == utf8_len(document.take(at)),
        call.wf(),
        0 <= i < call.attributes.len(),
    ensures
        ({
            let converted = spec_convert_attributes(call)[i].1;
            let start = call.range_offset + call.attributes[i].start;
            let end = start + utf8_len(call.attributes[i].value);
            &&& converted.value == call.attributes[i].value
            &&& end <= utf8_len(document) <= usize::MAX ==> converted.range.start == start
                && converted.range.end == end
            &&& end <= utf8_len(document)
            &&& encode_utf8(document).subrange(start as int, end as int) == encode_utf8(
                converted.value,
            )
        }),
{
    let attribute = call.attributes[i];
    assert(value_lies_in(tag, attribute));
    lemma_encode_utf8_subrange(document, at, at + tag.len());
    let before = utf8_len(document.take(at)) as int;
    let bytes = encode_utf8(document);
    let inner = encode_utf8(tag);
    let from = attribute.start as int;
    let to = from + utf8_len(attribute.value);
    assert(bytes.subrange(before, before + inner.len()) == inner);
    assert(bytes.subrange(before + from, before + to) =~= inner.subrange(from, to));
}

/// The event is raw HTML that reads as the closing tag of the component `name`.
pub open spec fn closes_component(event: (MdEvent, Range<usize>), name: Seq<char>) -> bool {
    match event.0 {
        MdEvent::Html(s) => spec_parse_tag(s@, event.1.start as nat) == Ok::<
            CustomHtmlTagView,
            crate::component::CustomHtmlTagErrorView,
        >(CustomHtmlTagView::End(name)),
        MdEvent::InlineHtml(s) => spec_parse_tag(s@, event.1.start as nat) == Ok::<
            CustomHtmlTagView,
            crate::component::CustomHtmlTagErrorView,
        >(CustomHtmlTagView::End(name)),
        _ => false,
    }
}

/// The body of a component that is closed at once is empty: where the
/// closing tag of the component is the next event, the scan of the body
/// yields no view and stops behind that tag.
pub proof fn lemma_body_closed_at_once<F: Context>(
    cx: F,
    events: Seq<(MdEvent, Range<usize>)>,
    body: Scan,
)
    requires
        body.end_tag is None,
        body.current_component is Some,
        0 <= body.pos < events.len(),
        closes_component(events[body.pos], body.current_component->Some_0),
    ensures
        spec_next(cx, events, body) == (
            Ok::<Option<F::View>, StreamError>(None),
            body.at(body.pos + 1),
        ),
        spec_collect(cx, events, body) == (
            Ok::<Seq<F::View>, StreamError>(Seq::empty()),
            body.at(body.pos + 1),
        ),
{
    let after = body.at(body.pos + 1);
    let (event, range) = events[body.pos];
    let raw: Seq<char> = match event {
        MdEvent::Html(s) => s@,
        MdEvent::InlineHtml(s) => s@,
        _ => Seq::empty(),
    };
    assert(spec_html(cx, events, after, raw, range) == (
        Ok::<HtmlOutcome<F::View>, StreamError>(HtmlOutcome::Closed),
        after,
    ));
    assert(spec_next_html(cx, events, after, raw, range) == (
        Ok::<Option<F::View>, StreamError>(None),
        after,
    ));
    assert(spec_next(cx, events, body) == spec_next_html(cx, events, after, raw, range));
}

/// A component that is opened and closed at once is rendered as one that
/// closes itself: where `opening` is the start and `self_closing` the whole of
/// a call of a registered component, with the same name and attributes, and
/// the closing tag is the next event, the two yield the same view, and the
/// paired form takes the closing tag.
pub proof fn lemma_empty_pair_is_self_closing<F: Context>(
    cx: F,
    events: Seq<(MdEvent, Range<usize>)>,
    scan: Scan,
    range: Range<usize>,
    opening: Seq<char>,
    self_closing: Seq<char>,
)
    requires
        scan.current_component is None,
        0 <= scan.pos < events.len(),
        spec_classify(cx, opening, range.start as nat) matches ClassifiedView::Start(paired)
            && spec_classify(cx, self_closing, range.start as nat) matches ClassifiedView::Inline(
            single,
        ) && paired.name == single.name && paired.attributes == single.attributes && range_fits(
            paired,
        ) && range_fits(single) && closes_component(events[scan.pos], paired.name),
    ensures
        spec_html(cx, events, scan, opening, range).0 == spec_html(
            cx,
            events,
            scan,
            self_closing,
            range,
        ).0,
        spec_html(cx, events, scan, opening, range).1 == scan.at(scan.pos + 1),
        spec_html(cx, events, scan, self_closing, range).1 == scan,
{
    let paired = spec_classify(cx, opening, range.start as nat)->Start_0;
    let single = spec_classify(cx, self_closing, range.start as nat)->Inline_0;
    lemma_body_closed_at_once(cx, events, scan.body_of(paired.name));
    assert(spec_convert_attributes(paired) =~= spec_convert_attributes(single));
}

/// The views of a scan are those of its steps, in their order, with nothing
/// between them: where a step yields a view, the scan yields that view and
/// then what the scan yields from there on.
pub proof fn lemma_collect_joins_steps<F: Context>(
    cx: F,
    events: Seq<(MdEvent, Range<usize>)>,
    scan: Scan,
)
    requires
        0 <= scan.pos <= events.len(),
    ensures
        match spec_next(cx, events, scan) {
            (Ok(Some(view)), then) => spec_collect(cx, events, scan) == prepend(
                seq![view],
                spec_collect(cx, events, then),
            ),
            (Ok(None), then) => spec_collect(cx, events, scan) == (
                Ok::<Seq<F::View>, StreamError>(Seq::empty()),
                then,
            ),
            (Err(error), then) => spec_collect(cx, events, scan) == (
                Err::<Seq<F::View>, StreamError>(error),
                then,
            ),
        },
{
    lemma_next_respects_nesting(cx, events, scan);
    lemma_unmatched_end_bounds(events, scan.pos, 0);
}

/// A container that cannot be rendered is shown as its failure, in its
/// place: the step yields the view of the failure, and the scan goes on
/// behind the end of the container as it does behind any other.
pub proof fn lemma_failed_container_is_shown_in_place<F: Context>(
    cx: F,
    events: Seq<(MdEvent, Range<usize>)>,
    scan: Scan,
)
    requires
        0 <= scan.pos < events.len(),
        opens(events[scan.pos].0),
        spec_render_tag(
            cx,
            events,
            scan.at(scan.pos + 1),
            events[scan.pos].0->Start_0,
            events[scan.pos].1,
        ).0 matches Ok(Err(_)),
    ensures
        ({
            let (rendered, then) = spec_render_tag(
                cx,
                events,
                scan.at(scan.pos + 1),
                events[scan.pos].0->Start_0,
                events[scan.pos].1,
            );
            &&& spec_next(cx, events, scan) == (
                Ok::<Option<F::View>, StreamError>(
                    Some(spec_error_view(cx, rendered->Ok_0->Err_0.message())),
                ),
                then,
            )
            &&& behind_end(
                events,
                scan.pos + 1,
                then.pos,
                closing_tag(events[scan.pos].0->Start_0),
            )
        }),
{
    lemma_container_is_taken_whole(cx, events, scan);
}

/// Raw HTML that cannot be rendered is shown as its failure, in its place:
/// the step yields the view of the failure, and the scan goes on at the same
/// level of the document.
pub proof fn lemma_failed_html_is_shown_in_place<F: Context>(
    cx: F,
    events: Seq<(MdEvent, Range<usize>)>,
    scan: Scan,
    raw_html: Seq<char>,
)
    requires
        0 <= scan.pos < events.len(),
        (events[scan.pos].0 matches MdEvent::Html(s) && s@ == raw_html) || (events[scan.pos].0
            matches MdEvent::InlineHtml(s) && s@ == raw_html),
        spec_html(cx, events, scan.at(scan.pos + 1), raw_html, events[scan.pos].1).0 matches Ok(
            HtmlOutcome::Rendered(Err(_)),
        ),
    ensures
        ({
            let (outcome, then) = spec_html(
                cx,
                events,
                scan.at(scan.pos + 1),
                raw_html,
                events[scan.pos].1,
            );
            &&& spec_next(cx, events, scan) == (
                Ok::<Option<F::View>, StreamError>(
                    Some(spec_error_view(cx, outcome->Ok_0->Rendered_0->Err_0.message())),
                ),
                then,
            )
            &&& within_level(events, scan.pos, then.pos)
        }),
{
    let after = scan.at(scan.pos + 1);
    let range = events[scan.pos].1;
    assert(spec_next(cx, events, scan) == spec_next_html(cx, events, after, raw_html, range));
    lemma_next_respects_nesting(cx, events, scan);
}

/// A paragraph that holds nothing but one text is rendered as one paragraph
/// around one span of that text.
pub proof fn lemma_paragraph_of_text<F: Context>(
    cx: F,
    events: Seq<(MdEvent, Range<usize>)>,
    text: String,
)
    requires
        events.len() == 3,
        events[0].0 == MdEvent::Start(MdTag::Paragraph),
        events[1].0 == MdEvent::Text(text),
        events[2].0 == MdEvent::End(MdTagEnd::Paragraph),
    ensures
        spec_document(cx, events) == Ok::<F::View, StreamError>(
            cx.el_fragment_spec(
                seq![
                    cx.el_with_attributes_spec(
                        HtmlElement::Paragraph,
                        cx.el_fragment_spec(seq![spec_text(cx, text@, events[1].1)]),
                        ElementAttributesView::empty(),
                    ),
                ],
            ),
        ),
{
    let root = Scan::document();
    let inside = root.at(1).inside(MdTag::Paragraph);
    let span = spec_text(cx, text@, events[1].1);
    // Inside the paragraph: the text, then the end.
    assert(spec_next(cx, events, inside.at(2)) == (
        Ok::<Option<F::View>, StreamError>(None),
        inside.at(3),
    ));
    lemma_collect_joins_steps(cx, events, inside.at(2));
    assert(spec_next(cx, events, inside) == (
        Ok::<Option<F::View>, StreamError>(Some(span)),
        inside.at(2),
    ));
    lemma_collect_joins_steps(cx, events, inside);
    assert(seq![span] + Seq::<F::View>::empty() =~= seq![span]);
    assert(spec_collect(cx, events, inside) == (
        Ok::<Seq<F::View>, StreamError>(seq![span]),
        inside.at(3),
    ));
    // The paragraph itself.
    let paragraph = cx.el_with_attributes_spec(
        HtmlElement::Paragraph,
        cx.el_fragment_spec(seq![span]),
        ElementAttributesView::empty(),
    );
    assert(spec_children(cx, events, root.at(1), MdTag::Paragraph) == (
        Ok::<F::View, StreamError>(cx.el_fragment_spec(seq![span])),
        root.at(3),
    ));
    assert(spec_wrap_children(cx, events, root.at(1), MdTag::Paragraph, HtmlElement::Paragraph)
        == (
        Ok::<Result<F::View, crate::error::HtmlErrorView>, StreamError>(Ok(paragraph)),
        root.at(3),
    ));
    assert(spec_render_tag(cx, events, root.at(1), MdTag::Paragraph, events[0].1) == (
        Ok::<Result<F::View, crate::error::HtmlErrorView>, StreamError>(Ok(paragraph)),
        root.at(3),
    ));
    assert(spec_next(cx, events, root) == (
        Ok::<Option<F::View>, StreamError>(Some(paragraph)),
        root.at(3),
    ));
    // Behind the paragraph the document ends.
    assert(spec_next(cx, events, root.at(3)) == (
        Ok::<Option<F::View>, StreamError>(None),
        root.at(3),
    ));
    lemma_collect_joins_steps(cx, events, root.at(3));
    lemma_collect_joins_steps(cx, events, root);
    assert(seq![paragraph] + Seq::<F::View>::empty() =~= seq![paragraph]);
}

/// The same holds of blocks of raw HTML: a block that opens a component,
/// with no other line, followed at once by the block that closes it, with no
/// other line, is rendered as a block whose one line calls the component and
/// closes itself. The first form is read in `paired` and takes its six
/// events, the second in `single` and takes its three.
pub proof fn lemma_empty_block_pair_is_self_closing<F: Context>(
    cx: F,
    paired: Seq<(MdEvent, Range<usize>)>,
    single: Seq<(MdEvent, Range<usize>)>,
    scan: Scan,
    other: Scan,
    opening: String,
    closing: String,
    self_closing: String,
)
    requires
        scan.current_component is None,
        other == scan.at(other.pos),
        0 <= scan.pos && scan.pos + 6 <= paired.len(),
        0 <= other.pos && other.pos + 3 <= single.len(),
        paired[scan.pos].0 == MdEvent::Start(MdTag::HtmlBlock),
        paired[scan.pos + 1].0 == MdEvent::Html(opening),
        paired[scan.pos + 2].0 == MdEvent::End(MdTagEnd::HtmlBlock),
        paired[scan.pos + 3].0 == MdEvent::Start(MdTag::HtmlBlock),
        paired[scan.pos + 4].0 == MdEvent::Html(closing),
        paired[scan.pos + 5].0 == MdEvent::End(MdTagEnd::HtmlBlock),
        single[other.pos].0 == MdEvent::Start(MdTag::HtmlBlock),
        single[other.pos + 1].0 == MdEvent::Html(self_closing),
        single[other.pos + 2].0 == MdEvent::End(MdTagEnd::HtmlBlock),
        spec_classify(cx, opening@, paired[scan.pos + 1].1.start as nat) matches ClassifiedView::Start(
            open,
        ) && spec_classify(cx, self_closing@, single[other.pos + 1].1.start as nat)
            matches ClassifiedView::Inline(whole) && open.name == whole.name && open.attributes
            == whole.attributes && open.range_offset == whole.range_offset && range_fits(open)
            && range_fits(whole) && closes_component(paired[scan.pos + 4], open.name),
    ensures
        spec_next(cx, paired, scan).0 == spec_next(cx, single, other).0,
        spec_next(cx, paired, scan).0 is Ok,
        spec_next(cx, paired, scan).1 == scan.at(scan.pos + 6),
        spec_next(cx, single, other).1 == other.at(other.pos + 3),
{
    let p = scan.pos;
    let q = other.pos;
    let open = spec_classify(cx, opening@, paired[p + 1].1.start as nat)->Start_0;
    let whole = spec_classify(cx, self_closing@, single[q + 1].1.start as nat)->Inline_0;
    let nothing = cx.el_fragment_spec(Seq::empty());
    assert(spec_convert_attributes(open) =~= spec_convert_attributes(whole));
    let called = spec_recover(cx, spec_call_component(cx, open, nothing));
    assert(called == spec_recover(cx, spec_call_component(cx, whole, nothing)));

    // The paired form: the rest of the opening block is its end.
    let first = scan.at(p + 1);
    assert(spec_block_role(cx, paired, first) == BlockRole::Opens(open));
    let rest = spec_rest_of_block(first, open.name);
    assert(spec_next(cx, paired, rest) == (
        Ok::<Option<F::View>, StreamError>(None),
        rest.at(p + 3),
    ));
    lemma_collect_joins_steps(cx, paired, rest);
    // The body is the block that closes the component.
    let body = first.resumed(rest.at(p + 3)).body_of(open.name);
    let inside = body.at(p + 4);
    assert(spec_block_role(cx, paired, inside) == BlockRole::Closes);
    let last = inside.at(p + 5).inside(MdTag::HtmlBlock);
    assert(spec_next(cx, paired, last) == (
        Ok::<Option<F::View>, StreamError>(None),
        last.at(p + 6),
    ));
    lemma_collect_joins_steps(cx, paired, last);
    assert(spec_children(cx, paired, inside.at(p + 5), MdTag::HtmlBlock) == (
        Ok::<F::View, StreamError>(nothing),
        inside.at(p + 6),
    ));
    assert(spec_next_block(cx, paired, inside, paired[p + 3].1) == (
        Ok::<Option<F::View>, StreamError>(None),
        inside.at(p + 6),
    ));
    assert(spec_next(cx, paired, body) == spec_next_block(cx, paired, inside, paired[p + 3].1));
    lemma_collect_joins_steps(cx, paired, body);
    assert(Seq::<F::View>::empty() + Seq::<F::View>::empty() =~= Seq::<F::View>::empty());
    assert(spec_next_block(cx, paired, first, paired[p].1) == (
        Ok::<Option<F::View>, StreamError>(Some(cx.el_fragment_spec(seq![called]))),
        scan.at(p + 6),
    ));

    // The form that closes itself: a plain block with one line.
    let start = other.at(q + 1);
    assert(spec_block_role(cx, single, start) == BlockRole::Plain);
    let lines = start.inside(MdTag::HtmlBlock);
    let line = lines.at(q + 2);
    assert(spec_html(cx, single, line, self_closing@, single[q + 1].1) == (
        Ok::<HtmlOutcome<F::View>, StreamError>(
            HtmlOutcome::Rendered(spec_call_component(cx, whole, nothing)),
        ),
        line,
    ));
    assert(spec_next_html(cx, single, line, self_closing@, single[q + 1].1) == (
        Ok::<Option<F::View>, StreamError>(Some(called)),
        line,
    ));
    assert(spec_next(cx, single, lines) == spec_next_html(
        cx,
        single,
        line,
        self_closing@,
        single[q + 1].1,
    ));
    assert(spec_next(cx, single, line) == (
        Ok::<Option<F::View>, StreamError>(None),
        line.at(q + 3),
    ));
    lemma_collect_joins_steps(cx, single, line);
    lemma_collect_joins_steps(cx, single, lines);
    assert(seq![called] + Seq::<F::View>::empty() =~= seq![called]);
    assert(spec_children(cx, single, start, MdTag::HtmlBlock) == (
        Ok::<F::View, StreamError>(cx.el_fragment_spec(seq![called])),
        start.at(q + 3),
    ));
    assert(spec_render_tag(cx, single, start, MdTag::HtmlBlock, single[q].1) == (
        Ok::<Result<F::View, crate::error::HtmlErrorView>, StreamError>(
            Ok(cx.el_fragment_spec(seq![called])),
        ),
        start.at(q + 3),
    ));
    assert(spec_next_block(cx, single, start, single[q].1) == (
        Ok::<Option<F::View>, StreamError>(Some(cx.el_fragment_spec(seq![called]))),
        other.at(q + 3),
    ));
}

} // verus!
