//! Colouring the code of a code block.

use vstd::prelude::*;
use syntect::highlighting::ThemeSet;
use syntect::html::highlighted_html_for_string;
use syntect::parsing::SyntaxSet;
use crate::event::CodeBlockKind;

verus! {

/// The theme that colours code where the user names none.
pub const DEFAULT_THEME: &'static str = "base16-ocean.light";

/// The markup that `syntect::html::highlighted_html_for_string` makes of
/// `content`, with the syntax that `SyntaxSet::find_syntax_by_token` finds for
/// `language` among the default syntaxes and with the default theme called
/// `theme`. There is none where the theme or the syntax is not found, or where
/// the highlighter fails.
pub uninterp spec fn highlighted_html(
    theme: Seq<char>,
    content: Seq<char>,
    language: Seq<char>,
) -> Option<Seq<char>>;

/// The characters of an optional string.
pub open spec fn optional_text(s: Option<String>) -> Option<Seq<char>> {
    match s {
        Some(s) => Some(s@),
        None => None,
    }
}

/// Looks the theme up in `ThemeSet::load_defaults` and the syntax in
/// `SyntaxSet::load_defaults_newlines`, and calls
/// `syntect::html::highlighted_html_for_string` with them. The contract gives
/// the result its name and claims nothing else of it.
#[verifier::external_body]
fn syntect_highlight(theme: &str, content: &str, language: &str) -> (html: Option<String>)
    ensures
        optional_text(html) == highlighted_html(theme@, content@, language@),
{
    let syntaxes = SyntaxSet::load_defaults_newlines();
    let themes = ThemeSet::load_defaults();
    let theme = themes.themes.get(theme)?;
    let syntax = syntaxes.find_syntax_by_token(language)?;
    highlighted_html_for_string(content, &syntaxes, syntax, theme).ok()
}

/// The markup of a code block: that of the highlighter for fenced code, in
/// the theme asked for or else in the default theme; none for indented code.
pub open spec fn spec_highlight_code(
    theme_name: Option<Seq<char>>,
    content: Seq<char>,
    kind: CodeBlockKind,
) -> Option<Seq<char>> {
    match kind {
        CodeBlockKind::Fenced(language) => highlighted_html(
            match theme_name {
                Some(name) => name,
                None => DEFAULT_THEME@,
            },
            content,
            language@,
        ),
        CodeBlockKind::Indented => None,
    }
}

/// Renders `content` with syntax highlighting, where that is possible.
pub fn highlight_code(theme_name: Option<&str>, content: &str, kind: &CodeBlockKind) -> (html:
    Option<String>)
    ensures
        optional_text(html) == spec_highlight_code(
            match theme_name {
                Some(name) => Some(name@),
                None => None,
            },
            content@,
            *kind,
        ),
{
    let language = match kind {
        CodeBlockKind::Fenced(language) => language,
        CodeBlockKind::Indented => {
            return None;
        },
    };
    let theme = match theme_name {
        Some(name) => name,
        None => DEFAULT_THEME,
    };
    syntect_highlight(theme, content, language.as_str())
}

} // verus!
