//! Rendering a whole document.

use vstd::prelude::*;
use core::ops::Range;
use crate::context::Context;
use crate::event::{events_view, MdEvent};
use crate::parser::{optional_events, parse, spec_parse};
use crate::nested::{
    keeps_nesting, nesting_breach, nesting_breach_of, scope_fits, well_nested,
};
use crate::render::Renderer;
use crate::scan::{spec_document, StreamError};

verus! {

/// The event with a soft line break made hard.
pub open spec fn spec_harden(event: (MdEvent, Range<usize>)) -> (MdEvent, Range<usize>) {
    match event.0 {
        MdEvent::SoftBreak => (MdEvent::HardBreak, event.1),
        _ => event,
    }
}

/// Makes every soft line break a hard one.
pub fn harden_breaks(events: &mut Vec<(MdEvent, Range<usize>)>)
    ensures
        final(events)@ == old(events)@.map_values(|e: (MdEvent, Range<usize>)| spec_harden(e)),
{
    let ghost before = events@;
    let mut i: usize = 0;
    while i < events.len()
        invariant
            i <= events.len(),
            events@.len() == before.len(),
            forall|j: int| 0 <= j < i ==> events@[j] == spec_harden(#[trigger] before[j]),
            forall|j: int| i <= j < before.len() ==> events@[j] == #[trigger] before[j],
        decreases events.len() - i,
    {
        let soft = match &events[i].0 {
            MdEvent::SoftBreak => true,
            _ => false,
        };
        if soft {
            let range = events[i].1.start..events[i].1.end;
            events.set(i, (MdEvent::HardBreak, range));
        }
        i += 1;
    }
    assert(events@ =~= before.map_values(|e: (MdEvent, Range<usize>)| spec_harden(e)));
}

/// Renders the events of a document into one view. The events must be well
/// nested: a stream in which an end does not match is no document.
///
/// The rendering fails where the events break what the parser promises in
/// another way, and only there: a construct that cannot be rendered shows its
/// failure in its place.
pub fn render_markdown<F: Context>(cx: F, events: &Vec<(MdEvent, Range<usize>)>) -> (r: Result<
    F::View,
    StreamError,
>)
    requires
        well_nested(events@, 0, Seq::empty()),
    ensures
        r == spec_document(cx, events@),
        keeps_nesting(r),
{
    let mut renderer = Renderer::new(cx, events);
    assert(well_nested(events@, renderer.scan().pos, Seq::empty()) && scope_fits(
        renderer.scan(),
        Seq::empty(),
    ));
    match renderer.collect() {
        Ok(elements) => Ok(cx.el_fragment(elements)),
        Err(error) => Err(error),
    }
}

/// The view of the events `events`: the breach of their nesting where there
/// is one, else the view of the document that they are.
pub open spec fn spec_render_events<F: Context>(
    cx: F,
    events: Seq<(MdEvent, Range<usize>)>,
) -> Result<F::View, StreamError> {
    match nesting_breach(events, 0, Seq::empty()) {
        Some(breach) => Err(breach),
        None => spec_document(cx, events),
    }
}

/// Renders events that come from anywhere: tells first whether they are well
/// nested, and renders them only where they are.
pub fn render_events<F: Context>(cx: F, events: &Vec<(MdEvent, Range<usize>)>) -> (r: Result<
    F::View,
    StreamError,
>)
    ensures
        r == spec_render_events(cx, events@),
{
    match nesting_breach_of(events) {
        Some(breach) => Err(breach),
        None => render_markdown(cx, events),
    }
}

/// The view of the document that the parser made the events `events` of: that
/// of the events, with the soft line breaks made hard where the context asks for it.
pub open spec fn spec_markdown<F: Context>(cx: F, events: Seq<(MdEvent, Range<usize>)>) -> Result<
    F::View,
    StreamError,
> {
    spec_render_events(
        cx,
        if cx.props_spec().hard_line_breaks {
            events.map_values(|e: (MdEvent, Range<usize>)| spec_harden(e))
        } else {
            events
        },
    )
}

/// Whether `r` is the rendering of `source`: `parsed` are events as the
/// parser and the typesetter, with the markups `markups`, make them of the
/// source, and `r` is the view of those events; and where the parser hands
/// over an event that has no counterpart, `r` is that failure.
pub open spec fn is_rendering_of<F: Context>(
    cx: F,
    source: Seq<char>,
    r: Result<F::View, StreamError>,
    parsed: Option<Seq<(MdEvent, Range<usize>)>>,
    markups: Seq<Option<Seq<char>>>,
) -> bool {
    &&& (match parsed {
        Some(events) => Some(events_view(events)),
        None => None,
    }) == spec_parse(source, cx.props_spec().parse_options, markups)
    &&& r == (match parsed {
        Some(events) => spec_markdown(cx, events),
        None => Err(StreamError::UnknownEvent),
    })
}

/// Renders the Markdown `source` into one view.
///
/// The source is parsed with the options of the context, a soft line break is
/// made hard where the context asks for it, and the events are rendered. The
/// result is the view of the events that the parser makes of the source,
/// whatever the typesetter makes of its formulas: nothing is known of the
/// markups beforehand, and with them the result is the only one that there is
/// (`lemma_rendering_is_determined`).
pub fn markdown_component<F: Context>(cx: F, source: &str) -> (r: Result<F::View, StreamError>)
    ensures
        exists|parsed: Option<Seq<(MdEvent, Range<usize>)>>, markups: Seq<Option<Seq<char>>>|
            #[trigger] is_rendering_of(cx, source@, r, parsed, markups),
{
    let props = cx.props();
    let parsed = parse(source, props.parse_options);
    let ghost markups = choose|markups: Seq<Option<Seq<char>>>|
        optional_events(parsed) == #[trigger] spec_parse(source@, props.parse_options, markups);
    let mut stream = match parsed {
        Some(stream) => stream,
        None => {
            assert(is_rendering_of(
                cx,
                source@,
                Err::<F::View, StreamError>(StreamError::UnknownEvent),
                None,
                markups,
            ));
            return Err(StreamError::UnknownEvent);
        },
    };
    let ghost events = stream@;
    if props.hard_line_breaks {
        harden_breaks(&mut stream);
    }
    let r = render_events(cx, &stream);
    assert(is_rendering_of(cx, source@, r, Some(events), markups));
    r
}

} // verus!
