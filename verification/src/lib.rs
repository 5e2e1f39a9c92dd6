//! Renders Markdown into the views of a user interface.
//!
//! A document is parsed into a flat stream of events ([`event`]), and the
//! renderer ([`render`]) rebuilds the nesting of the document from it, one
//! view per construct. Tags such as `<MyWidget size="5"/>` call custom
//! components that the user has registered ([`component`], [`classify`]).
//! What the user interface is made of is up to a [`context::Context`].
//!
//! What a rendering yields is stated in [`scan`], what holds of every
//! rendering in [`nesting`], [`nested`], [`containment`], [`reading`] and
//! [`laws`].

pub mod classify;
pub mod component;
pub mod containment;
pub mod context;
pub mod error;
pub mod event;
pub mod highlight;
pub mod laws;
pub mod markdown;
pub mod nested;
pub mod nesting;
pub mod outside;
pub mod parser;
pub mod range;
pub mod reading;
pub mod registry;
pub mod render;
pub mod scan;
pub mod stuff;
pub mod text;

pub use component::{ComponentCall, CustomHtmlTag, CustomHtmlTagError};
pub use context::{
    ComponentCreationError, Context, ElementAttributes, HtmlElement, LinkDescription,
    MarkdownProps, MdComponentAttribute, MdComponentProps, StyleLink,
};
pub use error::HtmlError;
pub use markdown::{markdown_component, render_events, render_markdown};
pub use pulldown_cmark::Options;
pub use registry::CustomComponents;
pub use render::Renderer;
pub use scan::StreamError;
pub use stuff::Stuff;
