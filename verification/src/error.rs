//! The failures that a rendering survives: each is shown in place of the
//! construct that caused it, and the rest of the document is rendered as usual.

use vstd::prelude::*;
use vstd::string::StringExecFns;

verus! {

/// Why a construct of the document could not be rendered.
#[derive(Debug, PartialEq, Eq)]
pub enum HtmlError {
    /// A feature of Markdown that this library does not render.
    NotImplemented(String),
    /// A link that the user's renderer refused.
    Link(String),
    /// Text that looks like the tag of a component and is none.
    Syntax(String),
    /// A component that failed, or that was called in the wrong way.
    CustomComponent { name: String, msg: String },
    /// A feature that this build does not offer.
    Unavailable(String),
    /// Mathematics that could not be typeset.
    Math,
}

/// A failure over characters: the model of [`HtmlError`].
pub enum HtmlErrorView {
    NotImplemented(Seq<char>),
    Link(Seq<char>),
    Syntax(Seq<char>),
    CustomComponent { name: Seq<char>, msg: Seq<char> },
    Unavailable(Seq<char>),
    Math,
}

impl View for HtmlError {
    type V = HtmlErrorView;

    open spec fn view(&self) -> HtmlErrorView {
        match self {
            HtmlError::NotImplemented(s) => HtmlErrorView::NotImplemented(s@),
            HtmlError::Link(s) => HtmlErrorView::Link(s@),
            HtmlError::Syntax(s) => HtmlErrorView::Syntax(s@),
            HtmlError::CustomComponent { name, msg } => HtmlErrorView::CustomComponent {
                name: name@,
                msg: msg@,
            },
            HtmlError::Unavailable(s) => HtmlErrorView::Unavailable(s@),
            HtmlError::Math => HtmlErrorView::Math,
        }
    }
}

impl HtmlErrorView {
    /// The text that is shown for the failure.
    pub open spec fn message(self) -> Seq<char> {
        match self {
            HtmlErrorView::Math => "invalid math"@,
            HtmlErrorView::NotImplemented(s) => "`"@ + s + "`: not implemented"@,
            HtmlErrorView::CustomComponent { name, msg } => "Custom component `"@ + name
                + "` failed: `"@ + msg + "`"@,
            HtmlErrorView::Syntax(s) => "syntax error: "@ + s,
            HtmlErrorView::Link(s) => "invalid link: "@ + s,
            HtmlErrorView::Unavailable(s) => s,
        }
    }
}

impl HtmlError {
    /// The failure of a feature that is not rendered.
    pub fn not_implemented(message: &str) -> (e: Self)
        ensures
            e@ == HtmlErrorView::NotImplemented(message@),
    {
        HtmlError::NotImplemented(message.to_string())
    }

    /// The failure of text that is no tag.
    pub fn syntax(message: &str) -> (e: Self)
        ensures
            e@ == HtmlErrorView::Syntax(message@),
    {
        HtmlError::Syntax(message.to_string())
    }

    /// The failure of the component `name`.
    pub fn component(name: &str, msg: &str) -> (e: Self)
        ensures
            e@ == (HtmlErrorView::CustomComponent { name: name@, msg: msg@ }),
    {
        HtmlError::CustomComponent { name: name.to_string(), msg: msg.to_string() }
    }

    /// The text that is shown for the failure.
    pub fn to_string(&self) -> (s: String)
        ensures
            s@ == self@.message(),
    {
        match self {
            HtmlError::Math => "invalid math".to_string(),
            HtmlError::NotImplemented(s) => {
                "`".to_string().concat(s.as_str()).concat("`: not implemented")
            },
            HtmlError::CustomComponent { name, msg } => {
                "Custom component `".to_string().concat(name.as_str()).concat(
                    "` failed: `",
                ).concat(msg.as_str()).concat("`")
            },
            HtmlError::Syntax(s) => "syntax error: ".to_string().concat(s.as_str()),
            HtmlError::Link(s) => "invalid link: ".to_string().concat(s.as_str()),
            HtmlError::Unavailable(s) => s.clone(),
        }
    }
}

} // verus!
