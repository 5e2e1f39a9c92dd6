//! The tags that call a custom component from inside Markdown:
//! `<Name key="value"/>`, `<Name key="value">` and `</Name>`.
//!
//! A tag is read from one fragment of raw HTML. The names and values that come
//! out borrow from that fragment, and every value knows at which byte of the
//! fragment it starts, so that a component can point back into the document.

use vstd::prelude::*;
use vstd::utf8::encode_utf8;
use crate::text::{
    byte_len, char_is_whitespace, contains_whitespace, first_char, has_whitespace,
    is_whitespace, leading_whitespace, lemma_encode_utf8_concat, lemma_encode_utf8_subrange,
    lemma_index_of_first_is, lemma_index_of_first_none, lemma_leading_whitespace_bound,
    spec_split_once, spec_trim, spec_trim_start, split_once, str_eq, to_chars, trim,
    trim_start, utf8_len,
};

verus! {

/// The message for text that does not start with `<`.
pub const MSG_EXPECTED_OPEN: &'static str = "expected <";

/// The message for a value that does not start with a double quote.
pub const MSG_EXPECTED_QUOTE: &'static str = "please use `\"` to wrap your attribute values";

/// The message for a value without a closing quote.
pub const MSG_EXPECTED_VALUE: &'static str = "expected attribute value";

/// The message for a name of an attribute that holds whitespace.
pub const MSG_NAME_WHITESPACE: &'static str =
    "attribute name must be followed by equals sign, and not contain whitespace";

/// The message for an attribute without an equals sign.
pub const MSG_EXPECTED_EQUAL: &'static str = "expected equal sign after attribute name";

/// The message for a tag that ends before `/` or `>`.
pub const MSG_EXPECTED_END: &'static str = "expected end of tag";

/// The message of a failure to read a part of a tag.
pub type ParseError = String;

/// One `key="value"` pair of a tag.
#[derive(Debug, PartialEq, Eq, Clone, Copy)]
pub struct Attribute<'a> {
    pub name: &'a str,
    /// Escape codes are kept as written: un-escaping is up to the consumer.
    pub value: &'a str,
    /// The byte of the tag's text at which `value` starts.
    pub start: usize,
}

/// A custom, non-native HTML element called inside Markdown.
#[derive(Debug, PartialEq)]
pub struct ComponentCall<'a> {
    /// Where in the larger document `full_string` starts.
    pub range_offset: usize,
    /// The text that was parsed into this call.
    pub full_string: &'a str,
    /// The name of the tag.
    pub name: &'a str,
    /// The attributes in the order in which their names first occur; no name occurs twice.
    pub attributes: Vec<Attribute<'a>>,
}

/// An HTML tag used to create a custom component.
#[derive(Debug, PartialEq)]
pub enum CustomHtmlTag<'a> {
    /// `<Component key="value"/>`
    Inline(ComponentCall<'a>),
    /// `<Component>`
    Start(ComponentCall<'a>),
    /// `</Component>`
    End(&'a str),
}

/// Why a piece of text is no tag.
#[derive(Debug)]
pub struct CustomHtmlTagError {
    /// The name, if one was read before the failure.
    pub name: Option<String>,
    pub message: String,
}

/// An attribute over characters: the model of [`Attribute`].
pub struct AttributeView {
    pub name: Seq<char>,
    pub value: Seq<char>,
    pub start: nat,
}

/// A call over characters: the model of [`ComponentCall`].
pub struct ComponentCallView {
    pub range_offset: nat,
    pub full_string: Seq<char>,
    pub name: Seq<char>,
    pub attributes: Seq<AttributeView>,
}

/// A tag over characters: the model of [`CustomHtmlTag`].
pub enum CustomHtmlTagView {
    Inline(ComponentCallView),
    Start(ComponentCallView),
    End(Seq<char>),
}

/// A failure over characters: the model of [`CustomHtmlTagError`].
pub struct CustomHtmlTagErrorView {
    pub name: Option<Seq<char>>,
    pub message: Seq<char>,
}

impl<'a> View for Attribute<'a> {
    type V = AttributeView;

    open spec fn view(&self) -> AttributeView {
        AttributeView { name: self.name@, value: self.value@, start: self.start as nat }
    }
}

impl<'a> View for ComponentCall<'a> {
    type V = ComponentCallView;

    open spec fn view(&self) -> ComponentCallView {
        ComponentCallView {
            range_offset: self.range_offset as nat,
            full_string: self.full_string@,
            name: self.name@,
            attributes: self.attributes@.map_values(|a: Attribute<'a>| a@),
        }
    }
}

impl<'a> View for CustomHtmlTag<'a> {
    type V = CustomHtmlTagView;

    open spec fn view(&self) -> CustomHtmlTagView {
        match self {
            CustomHtmlTag::Inline(call) => CustomHtmlTagView::Inline(call@),
            CustomHtmlTag::Start(call) => CustomHtmlTagView::Start(call@),
            CustomHtmlTag::End(name) => CustomHtmlTagView::End(name@),
        }
    }
}

impl View for CustomHtmlTagError {
    type V = CustomHtmlTagErrorView;

    open spec fn view(&self) -> CustomHtmlTagErrorView {
        CustomHtmlTagErrorView {
            name: match self.name {
                Some(n) => Some(n@),
                None => None,
            },
            message: self.message@,
        }
    }
}

/// The index of the attribute called `name`.
pub open spec fn attribute_index(attributes: Seq<AttributeView>, name: Seq<char>) -> Option<int> {
    attributes.map_values(|a: AttributeView| a.name).index_of_first(name)
}

/// The attributes after `attribute` was set: a name that is already there keeps
/// its place and takes the new value.
pub open spec fn insert_attribute(
    attributes: Seq<AttributeView>,
    attribute: AttributeView,
) -> Seq<AttributeView> {
    match attribute_index(attributes, attribute.name) {
        Some(i) => attributes.update(i, attribute),
        None => attributes.push(attribute),
    }
}

/// No two attributes have the same name.
pub open spec fn distinct_names(attributes: Seq<AttributeView>) -> bool {
    forall|i: int, j: int|
        0 <= i < j < attributes.len() ==> (#[trigger] attributes[i]).name != (
        #[trigger] attributes[j]).name
}

/// The bytes of `full` from `attribute.start` on are those of the attribute's value.
pub open spec fn value_lies_in(full: Seq<char>, attribute: AttributeView) -> bool {
    &&& attribute.start + utf8_len(attribute.value) <= utf8_len(full)
    &&& encode_utf8(full).subrange(
        attribute.start as int,
        (attribute.start + utf8_len(attribute.value)) as int,
    ) == encode_utf8(attribute.value)
}

impl ComponentCallView {
    /// The attributes are told apart by their names, and each value is found
    /// in the tag's text at the byte that the attribute records.
    pub open spec fn wf(self) -> bool {
        &&& distinct_names(self.attributes)
        &&& forall|i: int|
            0 <= i < self.attributes.len() ==> value_lies_in(
                self.full_string,
                #[trigger] self.attributes[i],
            )
    }

    /// The attribute called `name`.
    pub open spec fn get(self, name: Seq<char>) -> Option<AttributeView> {
        match attribute_index(self.attributes, name) {
            Some(i) => Some(self.attributes[i]),
            None => None,
        }
    }
}

/// The input after one `expected` character was taken from its start, and whether it was there.
pub open spec fn spec_check_and_skip(stream: Seq<char>, expected: char) -> (bool, Seq<char>) {
    if stream.len() > 0 && stream[0] == expected {
        (true, stream.skip(1))
    } else {
        (false, stream)
    }
}

/// A value in double quotes at the start of `stream`, and the input after the closing quote.
pub open spec fn spec_attribute_value(stream: Seq<char>) -> (
    Result<Seq<char>, Seq<char>>,
    Seq<char>,
) {
    if !(stream.len() > 0 && stream[0] == '"') {
        (Err(MSG_EXPECTED_QUOTE@), stream)
    } else {
        match spec_split_once(stream.skip(1), '"') {
            Some((content, after)) => (Ok(content), after),
            None => (Err(MSG_EXPECTED_VALUE@), stream.skip(1)),
        }
    }
}

/// The trimmed name before the first equals sign of `stream`, and the input after that sign.
pub open spec fn spec_attribute_name(stream: Seq<char>) -> (
    Result<Seq<char>, Seq<char>>,
    Seq<char>,
) {
    match spec_split_once(stream, '=') {
        Some((name, after)) => (
            if has_whitespace(spec_trim(name)) {
                Err(MSG_NAME_WHITESPACE@)
            } else {
                Ok(spec_trim(name))
            },
            after,
        ),
        None => (Err(MSG_EXPECTED_EQUAL@), stream),
    }
}

/// A name, an equals sign and a quoted value at the start of `stream`.
pub open spec fn spec_attribute(stream: Seq<char>) -> (
    Result<(Seq<char>, Seq<char>), Seq<char>>,
    Seq<char>,
) {
    let (name, after_name) = spec_attribute_name(stream);
    match name {
        Err(message) => (Err(message), after_name),
        Ok(name) => {
            let (value, rest) = spec_attribute_value(spec_trim_start(after_name));
            match value {
                Err(message) => (Err(message), rest),
                Ok(value) => (Ok((name, value)), rest),
            }
        },
    }
}

/// A character that cannot belong to a tag's name.
pub open spec fn ends_name(c: char) -> bool {
    is_whitespace(c) || c == '/' || c == '>'
}

/// How many characters at the start of `stream` can belong to a name.
pub open spec fn name_run(stream: Seq<char>) -> nat
    decreases stream.len(),
{
    if stream.len() > 0 && !ends_name(stream[0]) {
        1 + name_run(stream.skip(1))
    } else {
        0
    }
}

/// The name at the start of `stream` and the input from the character that ends it.
/// Where nothing ends the name, the name is all the input and nothing is left.
pub open spec fn spec_tag_name(stream: Seq<char>) -> (Seq<char>, Seq<char>) {
    let k = name_run(stream) as int;
    (stream.take(k), stream.skip(k))
}

/// `rest` is what is left of `full` after some of its first characters.
pub open spec fn is_suffix(rest: Seq<char>, full: Seq<char>) -> bool {
    rest.len() <= full.len() && full.skip(full.len() - rest.len()) == rest
}

/// What is left of a suffix is a suffix.
proof fn lemma_suffix_skip(rest: Seq<char>, full: Seq<char>, k: int)
    requires
        is_suffix(rest, full),
        0 <= k <= rest.len(),
    ensures
        is_suffix(rest.skip(k), full),
{
    assert(full.skip(full.len() - rest.skip(k).len()) =~= rest.skip(k));
}

/// A suffix of a suffix is a suffix.
proof fn lemma_suffix_transitive(a: Seq<char>, b: Seq<char>, c: Seq<char>)
    requires
        is_suffix(a, b),
        is_suffix(b, c),
    ensures
        is_suffix(a, c),
{
    assert(c.skip(c.len() - a.len()) =~= b.skip(b.len() - a.len()));
}

/// The bytes before a suffix are the bytes of the whole less those of the suffix.
proof fn lemma_suffix_bytes(rest: Seq<char>, full: Seq<char>)
    requires
        is_suffix(rest, full),
    ensures
        utf8_len(full.take(full.len() - rest.len())) + utf8_len(rest) == utf8_len(full),
{
    let k = full.len() - rest.len();
    assert(full =~= full.take(k) + rest);
    lemma_encode_utf8_concat(full.take(k), rest);
}

/// The two parts of a split and the delimiter between them make up the whole.
pub proof fn lemma_split_once_parts(s: Seq<char>, delimiter: char)
    ensures
        match spec_split_once(s, delimiter) {
            Some((before, after)) => {
                &&& before.len() + 1 + after.len() == s.len()
                &&& before == s.take(before.len() as int)
                &&& after == s.skip(before.len() as int + 1)
                &&& s[before.len() as int] == delimiter
            },
            None => true,
        },
{
    s.index_of_first_ensures(delimiter);
}

/// Where an attribute is read, its value, the closing quote and the rest are
/// the end of the input, and at least an equals sign and a quote come before.
pub proof fn lemma_attribute_parts(stream: Seq<char>)
    ensures
        match spec_attribute(stream) {
            (Ok((name, value)), rest) => {
                &&& value.len() + 1 + rest.len() + 2 <= stream.len()
                &&& is_suffix(rest, stream)
                &&& stream.subrange(
                    stream.len() - rest.len() - 1 - value.len(),
                    stream.len() - rest.len() - 1,
                ) == value
                &&& stream[stream.len() - rest.len() - 1] == '"'
            },
            (Err(_), _) => true,
        },
{
    lemma_split_once_parts(stream, '=');
    match spec_attribute(stream) {
        (Ok((name, value)), rest) => {
            let after_name = spec_attribute_name(stream).1;
            let quoted = spec_trim_start(after_name);
            lemma_leading_whitespace_bound(after_name);
            let body = quoted.skip(1);
            lemma_split_once_parts(body, '"');
            assert(is_suffix(after_name, stream)) by {
                assert(stream.skip(stream.len() - after_name.len()) =~= after_name);
            }
            lemma_suffix_skip(after_name, stream, leading_whitespace(after_name) as int);
            lemma_suffix_skip(quoted, stream, 1);
            lemma_suffix_skip(body, stream, value.len() as int + 1);
            assert(body.skip(value.len() as int + 1) == rest);
            let k = stream.len() - body.len();
            assert(stream.skip(k) == body);
            assert(stream.subrange(k, k + value.len()) =~= body.take(value.len() as int));
            assert(stream[k + value.len()] == body[value.len() as int]);
        },
        (Err(_), _) => {},
    }
}

/// How a tag ends after its attributes.
pub enum TagEnding {
    /// With `/`.
    SelfClosing,
    /// With `>`.
    Open,
}

/// The character of `full` at which `value` starts, when `rest` is what follows
/// the quote that closes it.
pub open spec fn value_position(full: Seq<char>, value: Seq<char>, rest: Seq<char>) -> int {
    full.len() - rest.len() - 1 - value.len()
}

/// The attributes of the tag `full`, read from `stream` on and added to
/// `attributes`, up to the `/` or `>` that ends them.
pub open spec fn spec_attributes(
    full: Seq<char>,
    stream: Seq<char>,
    attributes: Seq<AttributeView>,
) -> Result<(TagEnding, Seq<AttributeView>), Seq<char>>
    decreases stream.len(),
{
    let s = spec_trim_start(stream);
    if s.len() == 0 {
        Err(MSG_EXPECTED_END@)
    } else if s[0] == '/' {
        Ok((TagEnding::SelfClosing, attributes))
    } else if s[0] == '>' {
        Ok((TagEnding::Open, attributes))
    } else {
        let (parsed, rest) = spec_attribute(s);
        match parsed {
            Err(message) => Err(message),
            Ok((name, value)) => {
                proof {
                    lemma_leading_whitespace_bound(stream);
                    lemma_attribute_parts(s);
                }
                spec_attributes(
                    full,
                    rest,
                    insert_attribute(
                        attributes,
                        AttributeView {
                            name,
                            value,
                            start: utf8_len(full.take(value_position(full, value, rest))),
                        },
                    ),
                )
            },
        }
    }
}

/// What the text `s`, which starts at byte `range_offset` of the document, says as a tag.
///
/// The grammar is `<`, an optional `/`, a name, any number of `key="value"`
/// pairs, and `/` or `>`. What follows the `/` or `>` is not looked at.
pub open spec fn spec_parse_tag(s: Seq<char>, range_offset: nat) -> Result<
    CustomHtmlTagView,
    CustomHtmlTagErrorView,
> {
    if !(s.len() > 0 && s[0] == '<') {
        Err(CustomHtmlTagErrorView { name: None, message: MSG_EXPECTED_OPEN@ })
    } else {
        let (is_closing, after_slash) = spec_check_and_skip(s.skip(1), '/');
        let (name, after_name) = spec_tag_name(after_slash);
        match spec_attributes(s, after_name, Seq::empty()) {
            Err(message) => Err(CustomHtmlTagErrorView { name: Some(name), message }),
            Ok((ending, attributes)) => {
                let call = ComponentCallView { range_offset, full_string: s, name, attributes };
                match ending {
                    TagEnding::SelfClosing => Ok(CustomHtmlTagView::Inline(call)),
                    TagEnding::Open => if is_closing {
                        Ok(CustomHtmlTagView::End(name))
                    } else {
                        Ok(CustomHtmlTagView::Start(call))
                    },
                }
            },
        }
    }
}

/// Takes `expected` from the start of the input, if it is there.
pub fn check_and_skip<'a>(stream: &mut &'a str, expected: char) -> (found: bool)
    ensures
        found == spec_check_and_skip(old(stream)@, expected).0,
        final(stream)@ == spec_check_and_skip(old(stream)@, expected).1,
{
    match first_char(stream) {
        Some(c) => {
            if c == expected {
                let n = stream.unicode_len();
                *stream = stream.substring_char(1, n);
                true
            } else {
                false
            }
        },
        None => false,
    }
}

/// Takes `expected` from the start of the input, or fails with `error_message`.
pub fn parse_expect_character<'a>(
    stream: &mut &'a str,
    expected: char,
    error_message: &str,
) -> (r: Result<(), ParseError>)
    ensures
        final(stream)@ == spec_check_and_skip(old(stream)@, expected).1,
        spec_check_and_skip(old(stream)@, expected).0 ==> r is Ok,
        !spec_check_and_skip(old(stream)@, expected).0 ==> (r matches Err(message) && message@
            == error_message@),
{
    if check_and_skip(stream, expected) {
        Ok(())
    } else {
        Err(error_message.to_string())
    }
}

/// Reads a value in double quotes. The quotes are taken from the input and are
/// no part of the value.
pub fn parse_attribute_value<'a>(stream: &mut &'a str) -> (r: Result<&'a str, ParseError>)
    ensures
        final(stream)@ == spec_attribute_value(old(stream)@).1,
        match spec_attribute_value(old(stream)@).0 {
            Ok(value) => r matches Ok(v) && v@ == value,
            Err(message) => r matches Err(m) && m@ == message,
        },
{
    match parse_expect_character(stream, '"', MSG_EXPECTED_QUOTE) {
        Ok(()) => {},
        Err(message) => {
            return Err(message);
        },
    }
    match split_once(stream, '"') {
        Some((content, after)) => {
            *stream = after;
            Ok(content)
        },
        None => Err(MSG_EXPECTED_VALUE.to_string()),
    }
}

/// Reads a name up to an equals sign and trims it. The equals sign is taken from the input.
pub fn parse_attribute_name<'a>(stream: &mut &'a str) -> (r: Result<&'a str, ParseError>)
    ensures
        final(stream)@ == spec_attribute_name(old(stream)@).1,
        match spec_attribute_name(old(stream)@).0 {
            Ok(name) => r matches Ok(n) && n@ == name,
            Err(message) => r matches Err(m) && m@ == message,
        },
{
    match split_once(stream, '=') {
        Some((name, after)) => {
            *stream = after;
            let trimmed = trim(name);
            if contains_whitespace(trimmed) {
                return Err(MSG_NAME_WHITESPACE.to_string());
            }
            Ok(trimmed)
        },
        None => Err(MSG_EXPECTED_EQUAL.to_string()),
    }
}

/// Reads `key="value"`, with any whitespace between the equals sign and the value.
pub fn parse_attribute<'a>(stream: &mut &'a str) -> (r: Result<(&'a str, &'a str), ParseError>)
    ensures
        final(stream)@ == spec_attribute(old(stream)@).1,
        match spec_attribute(old(stream)@).0 {
            Ok((name, value)) => r matches Ok((n, v)) && n@ == name && v@ == value,
            Err(message) => r matches Err(m) && m@ == message,
        },
{
    let name = match parse_attribute_name(stream) {
        Ok(name) => name,
        Err(message) => {
            return Err(message);
        },
    };
    *stream = trim_start(stream);
    let value = match parse_attribute_value(stream) {
        Ok(value) => value,
        Err(message) => {
            return Err(message);
        },
    };
    Ok((name, value))
}

/// A name is no longer than the input.
proof fn lemma_name_run_bound(stream: Seq<char>)
    ensures
        name_run(stream) <= stream.len(),
    decreases stream.len(),
{
    if stream.len() > 0 && !ends_name(stream[0]) {
        lemma_name_run_bound(stream.skip(1));
    }
}

/// A position that ends a run of name characters at the start of the input is its length.
proof fn lemma_name_run_is(stream: Seq<char>, k: int)
    requires
        0 <= k <= stream.len(),
        forall|j: int| 0 <= j < k ==> !ends_name(#[trigger] stream[j]),
        k < stream.len() ==> ends_name(stream[k]),
    ensures
        name_run(stream) == k,
    decreases k,
{
    if k > 0 {
        let t = stream.skip(1);
        assert(!ends_name(stream[0]));
        assert forall|j: int| 0 <= j < k - 1 implies !ends_name(#[trigger] t[j]) by {
            assert(t[j] == stream[j + 1]);
        }
        lemma_name_run_is(t, k - 1);
    }
}

/// Where an attribute is read from a suffix of `full`, its value lies in `full`
/// at the position that the attribute will record.
proof fn lemma_value_start(full: Seq<char>, stream: Seq<char>)
    requires
        is_suffix(stream, full),
        spec_attribute(stream).0 is Ok,
    ensures
        ({
            let (parsed, rest) = spec_attribute(stream);
            let (name, value) = parsed->Ok_0;
            let k = value_position(full, value, rest);
            &&& 0 <= k <= full.len()
            &&& utf8_len(full.take(k)) + utf8_len(value) + 1 + utf8_len(rest) == utf8_len(full)
            &&& value_lies_in(full, AttributeView { name, value, start: utf8_len(full.take(k)) })
            &&& is_suffix(rest, full)
        }),
{
    let (parsed, rest) = spec_attribute(stream);
    let (name, value) = parsed->Ok_0;
    let k = value_position(full, value, rest);
    lemma_attribute_parts(stream);
    lemma_suffix_transitive(rest, stream, full);
    let shift = full.len() - stream.len();
    let end = k + value.len();
    assert(full.subrange(k, end) =~= stream.subrange(k - shift, end - shift));
    assert(full[end] == stream[end - shift]);
    lemma_encode_utf8_subrange(full, k, end);
    lemma_encode_utf8_subrange(full, end, end + 1);
    lemma_suffix_bytes(rest, full);
    let quote = full.subrange(end, end + 1);
    assert(quote =~= seq!['"']);
    assert(utf8_len(quote) == 1) by {
        reveal_with_fuel(vstd::utf8::encode_utf8, 2);
        assert(quote.drop_first() =~= Seq::<char>::empty());
    }
}

/// Setting an attribute whose value lies in `full` keeps the attributes well formed.
proof fn lemma_insert_attribute_wf(
    full: Seq<char>,
    attributes: Seq<AttributeView>,
    attribute: AttributeView,
)
    requires
        distinct_names(attributes),
        forall|i: int| 0 <= i < attributes.len() ==> value_lies_in(full, #[trigger] attributes[i]),
        value_lies_in(full, attribute),
    ensures
        distinct_names(insert_attribute(attributes, attribute)),
        forall|i: int|
            0 <= i < insert_attribute(attributes, attribute).len() ==> value_lies_in(
                full,
                #[trigger] insert_attribute(attributes, attribute)[i],
            ),
{
    let names = attributes.map_values(|a: AttributeView| a.name);
    names.index_of_first_ensures(attribute.name);
    let after = insert_attribute(attributes, attribute);
    match attribute_index(attributes, attribute.name) {
        Some(k) => {
            assert(names[k] == attributes[k].name);
        },
        None => {
            assert forall|i: int| 0 <= i < attributes.len() implies (
            #[trigger] attributes[i]).name != attribute.name by {
                assert(names[i] == attributes[i].name);
                assert(names.contains(names[i]));
            }
        },
    }
}

/// Whether `c` cannot belong to a tag's name.
fn char_ends_name(c: char) -> (b: bool)
    ensures
        b == ends_name(c),
{
    char_is_whitespace(c) || c == '/' || c == '>'
}

/// Reads the name of a tag, up to the first whitespace, `/` or `>`, or to the
/// end of the input.
fn parse_tag_name<'a>(stream: &mut &'a str) -> (name: &'a str)
    ensures
        name@ == spec_tag_name(old(stream)@).0,
        final(stream)@ == spec_tag_name(old(stream)@).1,
{
    let chars = to_chars(stream);
    let n = chars.len();
    let mut i: usize = 0;
    while i < n && !char_ends_name(chars[i])
        invariant
            i <= n,
            n == chars@.len(),
            forall|j: int| 0 <= j < i ==> !ends_name(#[trigger] chars@[j]),
        decreases n - i,
    {
        i += 1;
    }
    proof {
        lemma_name_run_is(stream@, i as int);
    }
    let name = stream.substring_char(0, i);
    *stream = stream.substring_char(i, n);
    name
}

/// The views of the attributes, in their order.
pub open spec fn attribute_views<'a>(attributes: Seq<Attribute<'a>>) -> Seq<AttributeView> {
    attributes.map_values(|a: Attribute<'a>| a@)
}

/// Sets an attribute: a name that is already there takes the new value.
fn set_attribute<'a>(attributes: &mut Vec<Attribute<'a>>, attribute: Attribute<'a>)
    ensures
        attribute_views(final(attributes)@) == insert_attribute(
            attribute_views(old(attributes)@),
            attribute@,
        ),
{
    let ghost before = attribute_views(attributes@);
    let ghost names = before.map_values(|a: AttributeView| a.name);
    let mut i: usize = 0;
    while i < attributes.len()
        invariant
            i <= attributes.len(),
            attributes@ == old(attributes)@,
            before == attribute_views(attributes@),
            names == before.map_values(|a: AttributeView| a.name),
            forall|j: int| 0 <= j < i ==> names[j] != attribute.name@,
        decreases attributes.len() - i,
    {
        if str_eq(attributes[i].name, attribute.name) {
            proof {
                lemma_index_of_first_is(names, attribute.name@, i as int);
            }
            attributes.set(i, attribute);
            assert(attribute_views(attributes@) =~= before.update(i as int, attribute@));
            return;
        }
        i += 1;
    }
    proof {
        lemma_index_of_first_none(names, attribute.name@);
    }
    attributes.push(attribute);
    assert(attribute_views(attributes@) =~= before.push(attribute@));
}

impl<'a> CustomHtmlTag<'a> {
    /// Reads the tag that `s` holds; `range_offset` is the byte of the document
    /// at which `s` starts.
    ///
    /// Only values in double quotes are read, and no escape is interpreted.
    /// Every failure carries the tag's name if the name was read before it.
    pub fn from_str(s: &'a str, range_offset: usize) -> (r: Result<
        CustomHtmlTag<'a>,
        CustomHtmlTagError,
    >)
        ensures
            match spec_parse_tag(s@, range_offset as nat) {
                Ok(tag) => r matches Ok(t) && t@ == tag,
                Err(error) => r matches Err(e) && e@ == error,
            },
            r matches Ok(CustomHtmlTag::Inline(call)) ==> call@.wf(),
            r matches Ok(CustomHtmlTag::Start(call)) ==> call@.wf(),
    {
        let mut stream: &'a str = s;
        match parse_expect_character(&mut stream, '<', MSG_EXPECTED_OPEN) {
            Ok(()) => {},
            Err(message) => {
                return Err(CustomHtmlTagError { name: None, message });
            },
        }
        proof {
            assert(s@.skip(0) =~= s@);
            lemma_suffix_skip(s@, s@, 1);
        }
        let is_closing_tag = check_and_skip(&mut stream, '/');
        proof {
            if is_closing_tag {
                lemma_suffix_skip(s@.skip(1), s@, 1);
            }
        }
        let ghost after_slash = stream@;
        let name = parse_tag_name(&mut stream);
        proof {
            lemma_name_run_bound(after_slash);
            lemma_suffix_skip(after_slash, s@, name_run(after_slash) as int);
        }
        let ghost after_name = stream@;
        let mut attributes: Vec<Attribute<'a>> = Vec::new();
        assert(attribute_views(attributes@) =~= Seq::<AttributeView>::empty());
        loop
            invariant
                is_suffix(stream@, s@),
                name@ == spec_tag_name(after_slash).0,
                spec_attributes(s@, stream@, attribute_views(attributes@)) == spec_attributes(
                    s@,
                    after_name,
                    Seq::empty(),
                ),
                distinct_names(attribute_views(attributes@)),
                forall|i: int|
                    0 <= i < attribute_views(attributes@).len() ==> value_lies_in(
                        s@,
                        #[trigger] attribute_views(attributes@)[i],
                    ),
                s@.len() > 0 && s@[0] == '<',
                after_slash == spec_check_and_skip(s@.skip(1), '/').1,
                is_closing_tag == spec_check_and_skip(s@.skip(1), '/').0,
                after_name == spec_tag_name(after_slash).1,
            decreases stream@.len(),
        {
            let ghost at_head = stream@;
            stream = trim_start(stream);
            proof {
                lemma_leading_whitespace_bound(at_head);
                lemma_suffix_skip(at_head, s@, leading_whitespace(at_head) as int);
            }
            match first_char(stream) {
                None => {
                    return Err(
                        CustomHtmlTagError {
                            name: Some(name.to_string()),
                            message: MSG_EXPECTED_END.to_string(),
                        },
                    );
                },
                Some(c) => {
                    if c == '/' {
                        return Ok(
                            CustomHtmlTag::Inline(
                                ComponentCall { name, attributes, full_string: s, range_offset },
                            ),
                        );
                    } else if c == '>' {
                        if is_closing_tag {
                            return Ok(CustomHtmlTag::End(name));
                        } else {
                            return Ok(
                                CustomHtmlTag::Start(
                                    ComponentCall { name, attributes, full_string: s, range_offset },
                                ),
                            );
                        }
                    } else {
                        let ghost trimmed = stream@;
                        match parse_attribute(&mut stream) {
                            Ok((key, value)) => {
                                proof {
                                    lemma_value_start(s@, trimmed);
                                    lemma_attribute_parts(trimmed);
                                }
                                let start = byte_len(s) - byte_len(stream) - 1 - byte_len(value);
                                let attribute = Attribute { name: key, value, start };
                                proof {
                                    lemma_insert_attribute_wf(
                                        s@,
                                        attribute_views(attributes@),
                                        attribute@,
                                    );
                                }
                                set_attribute(&mut attributes, attribute);
                            },
                            Err(message) => {
                                return Err(
                                    CustomHtmlTagError { name: Some(name.to_string()), message },
                                );
                            },
                        }
                    }
                },
            }
        }
    }
}

/// The text is one `<...>` pair with no other `<` or `>` inside.
pub open spec fn is_bracketed(t: Seq<char>) -> bool {
    &&& t.len() >= 3
    &&& t[0] == '<'
    &&& t.last() == '>'
    &&& forall|i: int| 0 < i < t.len() - 1 ==> #[trigger] t[i] != '<' && t[i] != '>'
}

/// The name of the tag `t`: what follows `<` and an optional `/`.
pub open spec fn tag_name_of(t: Seq<char>) -> Seq<char> {
    spec_tag_name(spec_check_and_skip(t.skip(1), '/').1).0
}

/// A name that sets a custom component apart from the elements of HTML: it
/// starts with an ASCII capital, or with a small ASCII letter and then holds a dash.
pub open spec fn is_custom_name(name: Seq<char>) -> bool {
    name.len() > 0 && (('A' <= name[0] <= 'Z') || (('a' <= name[0] <= 'z') && name.contains('-')))
}

/// Whether `raw_html`, without the whitespace around it, has the shape of a
/// tag and the name of a custom component.
pub open spec fn spec_can_be_custom_component(raw_html: Seq<char>) -> bool {
    is_bracketed(spec_trim(raw_html)) && is_custom_name(tag_name_of(spec_trim(raw_html)))
}

/// Whether `name` is a name that a custom component can have.
fn has_custom_name(name: &str) -> (b: bool)
    ensures
        b == is_custom_name(name@),
{
    match first_char(name) {
        None => false,
        Some(c) => {
            if 'A' <= c && c <= 'Z' {
                true
            } else if 'a' <= c && c <= 'z' {
                proof {
                    name@.index_of_first_ensures('-');
                }
                split_once(name, '-').is_some()
            } else {
                false
            }
        },
    }
}

/// Whether `raw_html` may call a custom component: it is a single tag, and the
/// tag's name is none that HTML uses.
pub fn can_be_custom_component(raw_html: &str) -> (b: bool)
    ensures
        b == spec_can_be_custom_component(raw_html@),
{
    let trimmed = trim(raw_html);
    let chars = to_chars(trimmed);
    let len = chars.len();
    if len < 3 {
        return false;
    }
    if chars[0] != '<' || chars[len - 1] != '>' {
        return false;
    }
    let mut i: usize = 1;
    while i < len - 1
        invariant
            1 <= i <= len - 1,
            len == chars@.len(),
            chars@ == trimmed@,
            trimmed@ == spec_trim(raw_html@),
            forall|j: int| 0 < j < i ==> #[trigger] chars@[j] != '<' && chars@[j] != '>',
        decreases len - i,
    {
        if chars[i] == '<' || chars[i] == '>' {
            assert(trimmed@[i as int] == '<' || trimmed@[i as int] == '>');
            return false;
        }
        i += 1;
    }
    let mut stream: &str = trimmed;
    let _ = check_and_skip(&mut stream, '<');
    let _ = check_and_skip(&mut stream, '/');
    let name = parse_tag_name(&mut stream);
    has_custom_name(name)
}

} // verus!
