//! Telling the tags of custom components from raw HTML.
//!
//! A piece of raw HTML calls a component only where two things hold: it has
//! the shape and the name of a custom tag, and the context knows a component
//! of that name. Raw HTML that merely looks like a tag is left alone.

use vstd::prelude::*;
use crate::component::{
    can_be_custom_component, spec_can_be_custom_component, spec_parse_tag, ComponentCall,
    ComponentCallView, CustomHtmlTag, CustomHtmlTagView,
};
use crate::context::Context;

verus! {

/// What a piece of raw HTML is to the renderer.
#[derive(Debug, PartialEq)]
pub enum Classified<'a> {
    /// Raw HTML that calls no component.
    Raw,
    /// A tag that calls a registered component and closes itself.
    Inline(ComponentCall<'a>),
    /// A tag that opens a registered component.
    Start(ComponentCall<'a>),
    /// The closing tag of a registered component.
    End(&'a str),
    /// Text that names a registered component and is no tag.
    Malformed { name: String, message: String },
}

/// What a piece of raw HTML is to the renderer, over the views of its parts.
pub enum ClassifiedView {
    Raw,
    Inline(ComponentCallView),
    Start(ComponentCallView),
    End(Seq<char>),
    Malformed { name: Seq<char>, message: Seq<char> },
}

impl<'a> View for Classified<'a> {
    type V = ClassifiedView;

    open spec fn view(&self) -> ClassifiedView {
        match self {
            Classified::Raw => ClassifiedView::Raw,
            Classified::Inline(call) => ClassifiedView::Inline(call@),
            Classified::Start(call) => ClassifiedView::Start(call@),
            Classified::End(name) => ClassifiedView::End(name@),
            Classified::Malformed { name, message } => ClassifiedView::Malformed {
                name: name@,
                message: message@,
            },
        }
    }
}

/// What `raw_html`, which starts at the byte `offset` of the document, is to
/// the renderer. Text without the shape and name of a custom tag is raw HTML,
/// and so is text whose name the context does not know, or that fails before
/// a name was read.
pub open spec fn spec_classify<F: Context>(cx: F, raw_html: Seq<char>, offset: nat) -> ClassifiedView {
    if !spec_can_be_custom_component(raw_html) {
        ClassifiedView::Raw
    } else {
        match spec_parse_tag(raw_html, offset) {
            Ok(CustomHtmlTagView::Inline(call)) => if cx.has_custom_component_spec(call.name) {
                ClassifiedView::Inline(call)
            } else {
                ClassifiedView::Raw
            },
            Ok(CustomHtmlTagView::Start(call)) => if cx.has_custom_component_spec(call.name) {
                ClassifiedView::Start(call)
            } else {
                ClassifiedView::Raw
            },
            Ok(CustomHtmlTagView::End(name)) => if cx.has_custom_component_spec(name) {
                ClassifiedView::End(name)
            } else {
                ClassifiedView::Raw
            },
            Err(error) => match error.name {
                Some(name) => if cx.has_custom_component_spec(name) {
                    ClassifiedView::Malformed { name, message: error.message }
                } else {
                    ClassifiedView::Raw
                },
                None => ClassifiedView::Raw,
            },
        }
    }
}

/// Decides whether `raw_html` calls a custom component.
pub fn classify<'a, F: Context>(cx: F, raw_html: &'a str, offset: usize) -> (c: Classified<'a>)
    ensures
        c@ == spec_classify(cx, raw_html@, offset as nat),
        c matches Classified::Inline(call) ==> call@.wf(),
        c matches Classified::Start(call) ==> call@.wf(),
{
    if !can_be_custom_component(raw_html) {
        return Classified::Raw;
    }
    match CustomHtmlTag::from_str(raw_html, offset) {
        Ok(CustomHtmlTag::Inline(call)) => {
            if cx.has_custom_component(call.name) {
                Classified::Inline(call)
            } else {
                Classified::Raw
            }
        },
        Ok(CustomHtmlTag::Start(call)) => {
            if cx.has_custom_component(call.name) {
                Classified::Start(call)
            } else {
                Classified::Raw
            }
        },
        Ok(CustomHtmlTag::End(name)) => {
            if cx.has_custom_component(name) {
                Classified::End(name)
            } else {
                Classified::Raw
            }
        },
        Err(error) => {
            match error.name {
                Some(name) => {
                    if cx.has_custom_component(name.as_str()) {
                        Classified::Malformed { name, message: error.message }
                    } else {
                        Classified::Raw
                    }
                },
                None => Classified::Raw,
            }
        },
    }
}

} // verus!
