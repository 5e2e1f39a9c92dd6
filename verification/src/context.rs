//! What the renderer asks of a user interface: the elements it can build, the
//! custom components it knows, and the handlers it attaches to clicks.
//!
//! The renderer never looks inside a view. Each building method of [`Context`]
//! has a specification function beside it that names the view it returns, and
//! the renderer's contracts say which of those views a document becomes.

use vstd::prelude::*;
use vstd::string::StringExecFns;
use core::ops::Range;
use pulldown_cmark::{LinkType, Options};
use crate::text::{lemma_index_of_first_is, lemma_index_of_first_none, str_eq};

verus! {

/// The markers that an element carries besides its content.
pub struct ElementAttributes<H> {
    pub classes: Vec<String>,
    pub style: Option<String>,
    pub on_click: Option<H>,
}

/// Attributes over characters: the model of [`ElementAttributes`].
pub struct ElementAttributesView<H> {
    pub classes: Seq<Seq<char>>,
    pub style: Option<Seq<char>>,
    pub on_click: Option<H>,
}

/// The characters of an optional string.
pub open spec fn option_string_view(s: Option<String>) -> Option<Seq<char>> {
    match s {
        Some(s) => Some(s@),
        None => None,
    }
}

impl<H> View for ElementAttributes<H> {
    type V = ElementAttributesView<H>;

    open spec fn view(&self) -> ElementAttributesView<H> {
        ElementAttributesView {
            classes: self.classes@.map_values(|s: String| s@),
            style: option_string_view(self.style),
            on_click: self.on_click,
        }
    }
}

impl<H> ElementAttributesView<H> {
    /// No class, no style and no handler.
    pub open spec fn empty() -> Self {
        ElementAttributesView { classes: Seq::empty(), style: None, on_click: None }
    }

    /// Nothing but a click handler.
    pub open spec fn clickable(handler: H) -> Self {
        ElementAttributesView { classes: Seq::empty(), style: None, on_click: Some(handler) }
    }
}

impl<H> Default for ElementAttributes<H> {
    fn default() -> (r: Self)
        ensures
            r@ == ElementAttributesView::<H>::empty(),
    {
        let r = Self { style: None, classes: Vec::new(), on_click: None };
        assert(r@.classes =~= Seq::empty());
        r
    }
}

impl<H> ElementAttributes<H> {
    /// Attributes that hold nothing but a click handler.
    pub fn with_handler(handler: H) -> (r: Self)
        ensures
            r@ == ElementAttributesView::clickable(handler),
    {
        let r = Self { style: None, classes: Vec::new(), on_click: Some(handler) };
        assert(r@.classes =~= Seq::empty());
        r
    }
}

/// The kinds of element that Markdown needs.
#[derive(Debug, Clone, Copy, PartialEq, Eq)]
pub enum HtmlElement {
    Div,
    Span,
    Paragraph,
    BlockQuote,
    Ul,
    /// An ordered list and the number of its first item.
    Ol(i32),
    Li,
    /// A heading and its level, from 1 to 6.
    Heading(u8),
    Table,
    Thead,
    Trow,
    Tcell,
    Italics,
    Bold,
    StrikeThrough,
    Pre,
    Code,
}

/// A style sheet that a page has to load.
#[derive(Debug, Clone, Copy, PartialEq, Eq)]
pub struct StyleLink {
    pub rel: &'static str,
    pub href: &'static str,
    pub integrity: &'static str,
    pub crossorigin: &'static str,
}

/// The relation of the style sheet of mathematics to the page.
pub const MATH_STYLE_SHEET_REL: &'static str = "stylesheet";

/// The address of the style sheet of mathematics.
pub const MATH_STYLE_SHEET_HREF: &'static str =
    "https://cdn.jsdelivr.net/npm/katex@0.16.7/dist/katex.min.css";

/// The digest that the style sheet of mathematics must have.
pub const MATH_STYLE_SHEET_INTEGRITY: &'static str =
    "sha384-3UiQGuEI4TTMaFmGIZumfRPtfKQ3trwQE2JgosJxCnGmQpL/lJdjpcHkaaFwHlcI";

/// How the style sheet of mathematics is fetched from another origin.
pub const MATH_STYLE_SHEET_CROSSORIGIN: &'static str = "anonymous";

/// The style sheet that typeset mathematics needs.
pub fn math_style_sheet_link() -> (link: StyleLink)
    ensures
        link.rel@ == MATH_STYLE_SHEET_REL@,
        link.href@ == MATH_STYLE_SHEET_HREF@,
        link.integrity@ == MATH_STYLE_SHEET_INTEGRITY@,
        link.crossorigin@ == MATH_STYLE_SHEET_CROSSORIGIN@,
{
    StyleLink {
        rel: MATH_STYLE_SHEET_REL,
        href: MATH_STYLE_SHEET_HREF,
        integrity: MATH_STYLE_SHEET_INTEGRITY,
        crossorigin: MATH_STYLE_SHEET_CROSSORIGIN,
    }
}

/// A link or an image, as handed to a custom link renderer.
pub struct LinkDescription<V> {
    /// The address that the link points to.
    pub url: String,
    /// The view of what stands under the link.
    pub content: V,
    /// The title of the link, which is often empty.
    pub title: String,
    /// How the link was written.
    pub link_type: LinkType,
    /// Whether the link is an image.
    pub image: bool,
}

/// A link over characters: the model of [`LinkDescription`].
pub struct LinkDescriptionView<V> {
    pub url: Seq<char>,
    pub content: V,
    pub title: Seq<char>,
    pub link_type: LinkType,
    pub image: bool,
}

impl<V> View for LinkDescription<V> {
    type V = LinkDescriptionView<V>;

    open spec fn view(&self) -> LinkDescriptionView<V> {
        LinkDescriptionView {
            url: self.url@,
            content: self.content,
            title: self.title@,
            link_type: self.link_type,
            image: self.image,
        }
    }
}

/// The value of an attribute of a custom component.
#[non_exhaustive]
#[derive(Debug, PartialEq)]
pub struct MdComponentAttribute {
    pub value: String,
    /// The bytes of the Markdown source that hold the value.
    pub range: Range<usize>,
}

/// The value of an attribute over characters: the model of [`MdComponentAttribute`].
pub struct MdComponentAttributeView {
    pub value: Seq<char>,
    pub range: Range<usize>,
}

impl View for MdComponentAttribute {
    type V = MdComponentAttributeView;

    open spec fn view(&self) -> MdComponentAttributeView {
        MdComponentAttributeView { value: self.value@, range: self.range }
    }
}

impl MdComponentAttribute {
    /// The value `value`, which the bytes `range` of the source hold.
    pub fn new(value: String, range: Range<usize>) -> (r: Self)
        ensures
            r.value == value,
            r.range == range,
    {
        MdComponentAttribute { value, range }
    }
}

impl Clone for MdComponentAttribute {
    fn clone(&self) -> (r: Self)
        ensures
            r@ == self@,
    {
        MdComponentAttribute {
            value: self.value.clone(),
            range: self.range.start..self.range.end,
        }
    }
}

/// What a custom component is called with.
///
/// For
/// ```md
/// <MyBox color="blue" size="5">
///
/// **hey !**
///
/// </MyBox>
/// ```
/// the attributes are `color` and `size`, and `children` is the view of `**hey !**`.
pub struct MdComponentProps<V> {
    /// The attributes by name; no name occurs twice.
    pub attributes: Vec<(String, MdComponentAttribute)>,
    pub children: V,
}

/// What a component is called with, over characters: the model of [`MdComponentProps`].
pub struct MdComponentPropsView<V> {
    pub attributes: Seq<(Seq<char>, MdComponentAttributeView)>,
    pub children: V,
}

/// The names and values of the attributes, in their order.
pub open spec fn props_attributes_view(attributes: Seq<(String, MdComponentAttribute)>) -> Seq<
    (Seq<char>, MdComponentAttributeView),
> {
    attributes.map_values(|a: (String, MdComponentAttribute)| (a.0@, a.1@))
}

impl<V> View for MdComponentProps<V> {
    type V = MdComponentPropsView<V>;

    open spec fn view(&self) -> MdComponentPropsView<V> {
        MdComponentPropsView {
            attributes: props_attributes_view(self.attributes@),
            children: self.children,
        }
    }
}

/// No two attributes have the same name.
pub open spec fn distinct_attribute_names(
    attributes: Seq<(Seq<char>, MdComponentAttributeView)>,
) -> bool {
    forall|i: int, j: int|
        0 <= i < j < attributes.len() ==> (#[trigger] attributes[i]).0 != (
        #[trigger] attributes[j]).0
}

impl<V> MdComponentPropsView<V> {
    /// The attributes are told apart by their names.
    pub open spec fn wf(self) -> bool {
        distinct_attribute_names(self.attributes)
    }

    /// The index of the first attribute called `name`.
    pub open spec fn index_of(self, name: Seq<char>) -> Option<int> {
        self.attributes.map_values(|a: (Seq<char>, MdComponentAttributeView)| a.0).index_of_first(
            name,
        )
    }

    /// The attribute called `name`.
    pub open spec fn get_attribute(self, name: Seq<char>) -> Option<MdComponentAttributeView> {
        match self.index_of(name) {
            Some(i) => Some(self.attributes[i].1),
            None => None,
        }
    }
}

/// The start of the message that asks for a missing attribute.
pub const MSG_PROVIDE_ATTRIBUTE: &'static str = "please provide the attribute `";

impl<V> MdComponentProps<V> {
    /// The attribute called `name`, if it was given.
    pub fn get_attribute(&self, name: &str) -> (r: Option<MdComponentAttribute>)
        ensures
            match self@.get_attribute(name@) {
                Some(attribute) => r matches Some(a) && a@ == attribute,
                None => r is None,
            },
    {
        let ghost names = self@.attributes.map_values(
            |a: (Seq<char>, MdComponentAttributeView)| a.0,
        );
        let mut i: usize = 0;
        while i < self.attributes.len()
            invariant
                i <= self.attributes.len(),
                names == self@.attributes.map_values(
                    |a: (Seq<char>, MdComponentAttributeView)| a.0,
                ),
                forall|j: int| 0 <= j < i ==> names[j] != name@,
            decreases self.attributes.len() - i,
        {
            if str_eq(self.attributes[i].0.as_str(), name) {
                proof {
                    lemma_index_of_first_is(names, name@, i as int);
                }
                return Some(self.attributes[i].1.clone());
            }
            i += 1;
        }
        proof {
            lemma_index_of_first_none(names, name@);
        }
        None
    }

    /// The value of the attribute called `name`, if it was given.
    pub fn get(&self, name: &str) -> (r: Option<String>)
        ensures
            match self@.get_attribute(name@) {
                Some(attribute) => r matches Some(value) && value@ == attribute.value,
                None => r is None,
            },
    {
        match self.get_attribute(name) {
            Some(attribute) => Some(attribute.value),
            None => None,
        }
    }

    /// The value of the attribute called `name`, or a message that asks for it.
    pub fn get_required(&self, name: &str) -> (r: Result<String, String>)
        ensures
            match self@.get_attribute(name@) {
                Some(attribute) => r matches Ok(value) && value@ == attribute.value,
                None => r matches Err(message) && message@ == MSG_PROVIDE_ATTRIBUTE@ + name@
                    + "`"@,
            },
    {
        match self.get(name) {
            Some(value) => Ok(value),
            None => Err(MSG_PROVIDE_ATTRIBUTE.to_string().concat(name).concat("`")),
        }
    }
}

/// The failure of a user's component, as a message.
pub struct ComponentCreationError(pub String);

impl ComponentCreationError {
    /// The failure with the message `message`.
    pub fn new(message: String) -> (error: Self)
        ensures
            error.0 == message,
    {
        ComponentCreationError(message)
    }
}

impl<T: core::fmt::Debug> From<T> for ComponentCreationError {
    /// The failure whose message is `value` as `format!` shows it with
    /// `{:?}`. The formatting is that of the value's type, so nothing is
    /// claimed of the message.
    #[verifier::external_body]
    fn from(value: T) -> (error: Self) {
        Self(format!("{:?}", value))
    }
}

/// The options of a rendering.
pub struct MarkdownProps {
    /// Whether a soft line break is rendered as a hard one.
    pub hard_line_breaks: bool,
    pub wikilinks: bool,
    /// The options of the Markdown parser; the usual extensions where there are none.
    pub parse_options: Option<Options>,
    /// The name of the theme that colours code blocks.
    pub theme: Option<&'static str>,
}

/// The options of a rendering over characters: the model of [`MarkdownProps`].
pub struct MarkdownPropsView {
    pub hard_line_breaks: bool,
    pub wikilinks: bool,
    pub parse_options: Option<Options>,
    pub theme: Option<Seq<char>>,
}

impl View for MarkdownProps {
    type V = MarkdownPropsView;

    open spec fn view(&self) -> MarkdownPropsView {
        MarkdownPropsView {
            hard_line_breaks: self.hard_line_breaks,
            wikilinks: self.wikilinks,
            parse_options: self.parse_options,
            theme: match self.theme {
                Some(t) => Some(t@),
                None => None,
            },
        }
    }
}

/// A view or the message of a failure, with the message as characters.
pub open spec fn message_result<V>(r: Result<V, String>) -> Result<V, Seq<char>> {
    match r {
        Ok(v) => Ok(v),
        Err(message) => Err(message@),
    }
}

/// A view or the failure of a component, with the failure's message as characters.
pub open spec fn component_result<V>(r: Result<V, ComponentCreationError>) -> Result<
    V,
    Seq<char>,
> {
    match r {
        Ok(v) => Ok(v),
        Err(error) => Err(error.0@),
    }
}

/// A user interface that the renderer can build views of.
///
/// A method that builds or decides something has a specification function of
/// the same name with `_spec` behind it. The method returns what that function
/// says: a context answers alike whenever it is asked alike. Each of these
/// functions has a default that says nothing of its value, so that an
/// implementation written in plain Rust can leave them out.
pub trait Context: Copy {
    /// A node of the user interface.
    type View;

    /// What reacts to a click.
    type Handler;

    closed spec fn props_spec(self) -> MarkdownPropsView {
        arbitrary()
    }

    /// The options of this rendering.
    fn props(self) -> (p: MarkdownProps)
        ensures
            p@ == self.props_spec(),
    ;

    /// Takes the metadata found at the top of the Markdown source.
    fn set_frontmatter(self, frontmatter: String);

    closed spec fn render_links_spec(self, link: LinkDescriptionView<Self::View>) -> Result<
        Self::View,
        Seq<char>,
    > {
        arbitrary()
    }

    /// Renders a link the user's way. Called only where `has_custom_links` holds.
    fn render_links(self, link: LinkDescription<Self::View>) -> (r: Result<Self::View, String>)
        ensures
            message_result(r) == self.render_links_spec(link@),
    ;

    closed spec fn make_md_handler_spec(
        self,
        position: Range<usize>,
        stop_propagation: bool,
    ) -> Self::Handler {
        arbitrary()
    }

    /// Makes the handler that reports a click on the bytes `position` of the source.
    fn make_md_handler(self, position: Range<usize>, stop_propagation: bool) -> (h: Self::Handler)
        ensures
            h == self.make_md_handler_spec(position, stop_propagation),
    ;

    closed spec fn el_with_attributes_spec(
        self,
        e: HtmlElement,
        inside: Self::View,
        attributes: ElementAttributesView<Self::Handler>,
    ) -> Self::View {
        arbitrary()
    }

    /// Builds an element around `inside`.
    fn el_with_attributes(
        self,
        e: HtmlElement,
        inside: Self::View,
        attributes: ElementAttributes<Self::Handler>,
    ) -> (v: Self::View)
        ensures
            v == self.el_with_attributes_spec(e, inside, attributes@),
    ;

    /// Builds an element without attributes.
    fn el(self, e: HtmlElement, inside: Self::View) -> (v: Self::View)
        ensures
            v == self.el_with_attributes_spec(e, inside, ElementAttributesView::empty()),
    {
        self.el_with_attributes(e, inside, ElementAttributes::default())
    }

    closed spec fn el_span_with_inner_html_spec(
        self,
        inner_html: Seq<char>,
        attributes: ElementAttributesView<Self::Handler>,
    ) -> Self::View {
        arbitrary()
    }

    /// Builds a span that holds raw HTML.
    fn el_span_with_inner_html(
        self,
        inner_html: String,
        attributes: ElementAttributes<Self::Handler>,
    ) -> (v: Self::View)
        ensures
            v == self.el_span_with_inner_html_spec(inner_html@, attributes@),
    ;

    closed spec fn el_hr_spec(self, attributes: ElementAttributesView<Self::Handler>) -> Self::View {
        arbitrary()
    }

    /// Builds a horizontal rule.
    fn el_hr(self, attributes: ElementAttributes<Self::Handler>) -> (v: Self::View)
        ensures
            v == self.el_hr_spec(attributes@),
    ;

    closed spec fn el_br_spec(self) -> Self::View {
        arbitrary()
    }

    /// Builds a line break.
    fn el_br(self) -> (v: Self::View)
        ensures
            v == self.el_br_spec(),
    ;

    closed spec fn el_fragment_spec(self, children: Seq<Self::View>) -> Self::View {
        arbitrary()
    }

    /// Makes one view of several.
    fn el_fragment(self, children: Vec<Self::View>) -> (v: Self::View)
        ensures
            v == self.el_fragment_spec(children@),
    ;

    closed spec fn el_a_spec(self, children: Self::View, href: Seq<char>) -> Self::View {
        arbitrary()
    }

    /// Builds a link.
    fn el_a(self, children: Self::View, href: String) -> (v: Self::View)
        ensures
            v == self.el_a_spec(children, href@),
    ;

    closed spec fn el_img_spec(self, src: Seq<char>, alt: Seq<char>) -> Self::View {
        arbitrary()
    }

    /// Builds an image.
    fn el_img(self, src: String, alt: String) -> (v: Self::View)
        ensures
            v == self.el_img_spec(src@, alt@),
    ;

    /// Builds a view that shows nothing.
    fn el_empty(self) -> (v: Self::View)
        ensures
            v == self.el_fragment_spec(Seq::empty()),
    {
        self.el_fragment(Vec::new())
    }

    closed spec fn el_text_spec(self, text: Seq<char>) -> Self::View {
        arbitrary()
    }

    /// Builds plain text.
    fn el_text(self, text: &str) -> (v: Self::View)
        ensures
            v == self.el_text_spec(text@),
    ;

    closed spec fn el_input_checkbox_spec(
        self,
        checked: bool,
        attributes: ElementAttributesView<Self::Handler>,
    ) -> Self::View {
        arbitrary()
    }

    /// Builds a checkbox.
    fn el_input_checkbox(self, checked: bool, attributes: ElementAttributes<Self::Handler>) -> (v:
        Self::View)
        ensures
            v == self.el_input_checkbox_spec(checked, attributes@),
    ;

    closed spec fn has_custom_component_spec(self, name: Seq<char>) -> bool {
        arbitrary()
    }

    /// Whether a component is registered under exactly this name.
    fn has_custom_component(self, name: &str) -> (b: bool)
        ensures
            b == self.has_custom_component_spec(name@),
    ;

    closed spec fn render_custom_component_spec(
        self,
        name: Seq<char>,
        input: MdComponentPropsView<Self::View>,
    ) -> Result<Self::View, Seq<char>> {
        arbitrary()
    }

    /// Calls the component registered under `name`. No two of the attributes
    /// that it is called with have the same name.
    fn render_custom_component(self, name: &str, input: MdComponentProps<Self::View>) -> (r: Result<
        Self::View,
        ComponentCreationError,
    >)
        requires
            input@.wf(),
        ensures
            component_result(r) == self.render_custom_component_spec(name@, input@),
    ;

    /// Builds the checkbox of a task list. A click on it does not reach the text behind it.
    fn render_tasklist_marker(self, m: bool, position: Range<usize>) -> (v: Self::View)
        ensures
            v == self.el_input_checkbox_spec(
                m,
                ElementAttributesView::clickable(self.make_md_handler_spec(position, true)),
            ),
    {
        let attributes = ElementAttributes::with_handler(self.make_md_handler(position, true));
        self.el_input_checkbox(m, attributes)
    }

    /// Builds a horizontal rule that reports clicks.
    fn render_rule(self, range: Range<usize>) -> (v: Self::View)
        ensures
            v == self.el_hr_spec(
                ElementAttributesView::clickable(self.make_md_handler_spec(range, false)),
            ),
    {
        let attributes = ElementAttributes::with_handler(self.make_md_handler(range, false));
        self.el_hr(attributes)
    }

    /// Builds a span of code that reports clicks.
    fn render_code(self, s: &str, range: Range<usize>) -> (v: Self::View)
        ensures
            v == self.el_with_attributes_spec(
                HtmlElement::Code,
                self.el_text_spec(s@),
                ElementAttributesView::clickable(self.make_md_handler_spec(range, false)),
            ),
    {
        let attributes = ElementAttributes::with_handler(self.make_md_handler(range, false));
        self.el_with_attributes(HtmlElement::Code, self.el_text(s), attributes)
    }

    /// Builds a span of text that reports clicks.
    fn render_text(self, s: &str, range: Range<usize>) -> (v: Self::View)
        ensures
            v == self.el_with_attributes_spec(
                HtmlElement::Span,
                self.el_text_spec(s@),
                ElementAttributesView::clickable(self.make_md_handler_spec(range, false)),
            ),
    {
        let attributes = ElementAttributes::with_handler(self.make_md_handler(range, false));
        self.el_with_attributes(HtmlElement::Span, self.el_text(s), attributes)
    }

    closed spec fn has_custom_links_spec(self) -> bool {
        arbitrary()
    }

    /// Whether the user renders links.
    fn has_custom_links(self) -> (b: bool)
        ensures
            b == self.has_custom_links_spec(),
    ;

    /// Builds a link or an image: the user's way where there is one, else as
    /// a plain anchor or image.
    fn render_link(self, link: LinkDescription<Self::View>) -> (r: Result<Self::View, String>)
        ensures
            message_result(r) == (if self.has_custom_links_spec() {
                self.render_links_spec(link@)
            } else if link.image {
                Ok(self.el_img_spec(link.url@, link.title@))
            } else {
                Ok(self.el_a_spec(link.content, link.url@))
            }),
    {
        if self.has_custom_links() {
            self.render_links(link)
        } else {
            Ok(
                if link.image {
                    self.el_img(link.url, link.title)
                } else {
                    self.el_a(link.content, link.url)
                },
            )
        }
    }
}

/// The checkbox of a task list: its clicks are reported and go no further.
pub open spec fn spec_tasklist_marker<F: Context>(cx: F, m: bool, position: Range<usize>) -> F::View {
    cx.el_input_checkbox_spec(
        m,
        ElementAttributesView::clickable(cx.make_md_handler_spec(position, true)),
    )
}

/// A horizontal rule whose clicks are reported.
pub open spec fn spec_rule<F: Context>(cx: F, range: Range<usize>) -> F::View {
    cx.el_hr_spec(ElementAttributesView::clickable(cx.make_md_handler_spec(range, false)))
}

/// A code element around the text `s`, whose clicks are reported.
pub open spec fn spec_code<F: Context>(cx: F, s: Seq<char>, range: Range<usize>) -> F::View {
    cx.el_with_attributes_spec(
        HtmlElement::Code,
        cx.el_text_spec(s),
        ElementAttributesView::clickable(cx.make_md_handler_spec(range, false)),
    )
}

/// A span around the text `s`, whose clicks are reported.
pub open spec fn spec_text<F: Context>(cx: F, s: Seq<char>, range: Range<usize>) -> F::View {
    cx.el_with_attributes_spec(
        HtmlElement::Span,
        cx.el_text_spec(s),
        ElementAttributesView::clickable(cx.make_md_handler_spec(range, false)),
    )
}

/// A link or an image: the user's rendering where there is one, else an image
/// of the address with the title as its text, or an anchor around the content.
pub open spec fn spec_link<F: Context>(cx: F, link: LinkDescriptionView<F::View>) -> Result<
    F::View,
    Seq<char>,
> {
    if cx.has_custom_links_spec() {
        cx.render_links_spec(link)
    } else if link.image {
        Ok(cx.el_img_spec(link.url, link.title))
    } else {
        Ok(cx.el_a_spec(link.content, link.url))
    }
}

} // verus!
