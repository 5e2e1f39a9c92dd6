//! The types of the Markdown parser that values of this library carry.
//!
//! Nothing is known of what is inside them.

use vstd::prelude::*;

verus! {

/// `pulldown_cmark::Options`: the extensions that the parser reads.
#[verifier::external_type_specification]
#[verifier::external_body]
pub struct ExOptions(pulldown_cmark::Options);

/// `pulldown_cmark::LinkType`: how a link was written.
#[verifier::external_type_specification]
#[verifier::external_body]
pub struct ExLinkType(pulldown_cmark::LinkType);

/// `pulldown_cmark::Event`: an event as the parser hands it over.
#[verifier::external_type_specification]
#[verifier::external_body]
pub struct ExEvent<'a>(pulldown_cmark::Event<'a>);

/// `pulldown_cmark::TagEnd`: the end of a container as the parser hands it over.
#[verifier::external_type_specification]
#[verifier::external_body]
pub struct ExTagEnd(pulldown_cmark::TagEnd);

} // verus!
