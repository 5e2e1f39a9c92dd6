//! Tags in an owned form, for callers that keep a tag longer than its text.
//!
//! The grammar is stricter than that of [`crate::component`]: only the space
//! separates, a name is taken as it stands, and an attribute may occur twice.

use vstd::prelude::*;
use crate::component::{
    check_and_skip, lemma_split_once_parts, spec_check_and_skip, MSG_EXPECTED_END,
    MSG_EXPECTED_EQUAL, MSG_EXPECTED_OPEN, MSG_EXPECTED_QUOTE, MSG_EXPECTED_VALUE,
};
use crate::text::{first_char, spec_split_once, split_once, to_chars};

verus! {

/// The call of a custom component: its name and its attributes as written.
#[derive(Debug, PartialEq, Eq)]
pub struct ComponentCall {
    pub name: String,
    pub attributes: Vec<(String, String)>,
}

/// A tag of a custom component.
#[derive(Debug, PartialEq, Eq)]
pub enum Stuff {
    /// `<Component key="value"/>`
    Inline(ComponentCall),
    /// `<Component>`
    Start(ComponentCall),
    /// `</Component>`
    End(String),
}

/// A call over characters: the model of [`ComponentCall`].
pub struct ComponentCallView {
    pub name: Seq<char>,
    pub attributes: Seq<(Seq<char>, Seq<char>)>,
}

/// A tag over characters: the model of [`Stuff`].
pub enum StuffView {
    Inline(ComponentCallView),
    Start(ComponentCallView),
    End(Seq<char>),
}

/// The names and values of the attributes, in their order.
pub open spec fn pairs_view(attributes: Seq<(String, String)>) -> Seq<(Seq<char>, Seq<char>)> {
    attributes.map_values(|a: (String, String)| (a.0@, a.1@))
}

impl View for ComponentCall {
    type V = ComponentCallView;

    open spec fn view(&self) -> ComponentCallView {
        ComponentCallView { name: self.name@, attributes: pairs_view(self.attributes@) }
    }
}

impl View for Stuff {
    type V = StuffView;

    open spec fn view(&self) -> StuffView {
        match self {
            Stuff::Inline(call) => StuffView::Inline(call@),
            Stuff::Start(call) => StuffView::Start(call@),
            Stuff::End(name) => StuffView::End(name@),
        }
    }
}

/// How many spaces `s` starts with.
pub open spec fn leading_spaces(s: Seq<char>) -> nat
    decreases s.len(),
{
    if s.len() > 0 && s[0] == ' ' {
        1 + leading_spaces(s.skip(1))
    } else {
        0
    }
}

/// `s` without the spaces at its start.
pub open spec fn spec_skip_spaces(s: Seq<char>) -> Seq<char> {
    s.skip(leading_spaces(s) as int)
}

/// A character that ends the name of a tag.
pub open spec fn ends_name(c: char) -> bool {
    c == ' ' || c == '/' || c == '>'
}

/// How many characters at the start of `s` belong to a name.
pub open spec fn name_run(s: Seq<char>) -> nat
    decreases s.len(),
{
    if s.len() > 0 && !ends_name(s[0]) {
        1 + name_run(s.skip(1))
    } else {
        0
    }
}

/// An attribute at the start of `stream`: spaces, a name up to an equals sign,
/// spaces, and a value in double quotes; and the input behind the value.
pub open spec fn spec_attribute(stream: Seq<char>) -> (
    Result<(Seq<char>, Seq<char>), Seq<char>>,
    Seq<char>,
) {
    match spec_split_once(spec_skip_spaces(stream), '=') {
        None => (Err(MSG_EXPECTED_EQUAL@), stream),
        Some((name, after)) => {
            let quoted = spec_skip_spaces(after);
            if !(quoted.len() > 0 && quoted[0] == '"') {
                (Err(MSG_EXPECTED_QUOTE@), quoted)
            } else {
                match spec_split_once(quoted.skip(1), '"') {
                    None => (Err(MSG_EXPECTED_VALUE@), quoted),
                    Some((value, rest)) => (Ok((name, value)), rest),
                }
            }
        },
    }
}

/// There are no more leading spaces than characters.
pub proof fn lemma_leading_spaces_bound(s: Seq<char>)
    ensures
        leading_spaces(s) <= s.len(),
    decreases s.len(),
{
    if s.len() > 0 && s[0] == ' ' {
        lemma_leading_spaces_bound(s.skip(1));
    }
}

/// An attribute that is read takes at least two characters from the input.
pub proof fn lemma_attribute_shortens(stream: Seq<char>)
    ensures
        spec_attribute(stream).0 is Ok ==> spec_attribute(stream).1.len() + 2 <= stream.len(),
{
    lemma_leading_spaces_bound(stream);
    lemma_split_once_parts(spec_skip_spaces(stream), '=');
    match spec_split_once(spec_skip_spaces(stream), '=') {
        None => {},
        Some((name, after)) => {
            lemma_leading_spaces_bound(after);
            let quoted = spec_skip_spaces(after);
            if quoted.len() > 0 && quoted[0] == '"' {
                lemma_split_once_parts(quoted.skip(1), '"');
            }
        },
    }
}

/// The attributes read from `stream` on and added to `attributes`, up to the
/// `/` or `>` that ends them, and the input from that character on.
pub open spec fn spec_attributes(stream: Seq<char>, attributes: Seq<(Seq<char>, Seq<char>)>) -> Result<
    (Seq<(Seq<char>, Seq<char>)>, Seq<char>),
    Seq<char>,
>
    decreases stream.len(),
{
    if stream.len() == 0 {
        Err(MSG_EXPECTED_END@)
    } else if stream[0] == '>' || stream[0] == '/' {
        Ok((attributes, stream))
    } else {
        let (parsed, rest) = spec_attribute(stream);
        match parsed {
            Err(message) => Err(message),
            Ok(pair) => {
                proof {
                    lemma_attribute_shortens(stream);
                }
                spec_attributes(rest, attributes.push(pair))
            },
        }
    }
}

/// What the text `s` says as a tag: `<`, an optional `/`, a name, any number
/// of attributes, and `/` or `>`.
pub open spec fn spec_parse(s: Seq<char>) -> Result<StuffView, Seq<char>> {
    if !(s.len() > 0 && s[0] == '<') {
        Err(MSG_EXPECTED_OPEN@)
    } else {
        let (is_end, after_slash) = spec_check_and_skip(s.skip(1), '/');
        let k = name_run(after_slash) as int;
        let name = after_slash.take(k);
        match spec_attributes(after_slash.skip(k), Seq::empty()) {
            Err(message) => Err(message),
            Ok((attributes, rest)) => {
                let call = ComponentCallView { name, attributes };
                if rest.len() > 0 && rest[0] == '/' {
                    Ok(StuffView::Inline(call))
                } else if is_end {
                    Ok(StuffView::End(name))
                } else {
                    Ok(StuffView::Start(call))
                }
            },
        }
    }
}

/// A position that ends a run of spaces at the start of the input is its length.
proof fn lemma_leading_spaces_is(s: Seq<char>, k: int)
    requires
        0 <= k <= s.len(),
        forall|j: int| 0 <= j < k ==> #[trigger] s[j] == ' ',
        k < s.len() ==> s[k] != ' ',
    ensures
        leading_spaces(s) == k,
    decreases k,
{
    if k > 0 {
        let t = s.skip(1);
        assert(s[0] == ' ');
        assert forall|j: int| 0 <= j < k - 1 implies #[trigger] t[j] == ' ' by {
            assert(t[j] == s[j + 1]);
        }
        lemma_leading_spaces_is(t, k - 1);
    }
}

/// A position that ends a run of name characters at the start of the input is its length.
proof fn lemma_name_run_is(s: Seq<char>, k: int)
    requires
        0 <= k <= s.len(),
        forall|j: int| 0 <= j < k ==> !ends_name(#[trigger] s[j]),
        k < s.len() ==> ends_name(s[k]),
    ensures
        name_run(s) == k,
    decreases k,
{
    if k > 0 {
        let t = s.skip(1);
        assert(!ends_name(s[0]));
        assert forall|j: int| 0 <= j < k - 1 implies !ends_name(#[trigger] t[j]) by {
            assert(t[j] == s[j + 1]);
        }
        lemma_name_run_is(t, k - 1);
    }
}

/// `s` from its first character that is no space.
fn skip_spaces<'a>(s: &'a str) -> (r: &'a str)
    ensures
        r@ == spec_skip_spaces(s@),
{
    let chars = to_chars(s);
    let n = chars.len();
    let mut i: usize = 0;
    while i < n && chars[i] == ' '
        invariant
            i <= n,
            n == chars@.len(),
            forall|j: int| 0 <= j < i ==> #[trigger] chars@[j] == ' ',
        decreases n - i,
    {
        i += 1;
    }
    proof {
        lemma_leading_spaces_is(s@, i as int);
    }
    s.substring_char(i, n)
}

/// Reads the name of a tag, up to the first space, `/` or `>`, or to the end of the input.
fn parse_name<'a>(stream: &mut &'a str) -> (name: &'a str)
    ensures
        name@ == old(stream)@.take(name_run(old(stream)@) as int),
        final(stream)@ == old(stream)@.skip(name_run(old(stream)@) as int),
{
    let chars = to_chars(stream);
    let n = chars.len();
    let mut i: usize = 0;
    while i < n && !(chars[i] == ' ' || chars[i] == '/' || chars[i] == '>')
        invariant
            i <= n,
            n == chars@.len(),
            forall|j: int| 0 <= j < i ==> !ends_name(#[trigger] chars@[j]),
        decreases n - i,
    {
        i += 1;
    }
    proof {
        lemma_name_run_is(stream@, i as int);
    }
    let name = stream.substring_char(0, i);
    *stream = stream.substring_char(i, n);
    name
}

/// Reads `key="value"`, with any spaces before the key and before the value.
fn parse_pair<'a>(stream: &mut &'a str) -> (r: Result<(&'a str, &'a str), String>)
    ensures
        match spec_attribute(old(stream)@).0 {
            Ok((name, value)) => r matches Ok((n, v)) && n@ == name && v@ == value
                && final(stream)@ == spec_attribute(old(stream)@).1,
            Err(message) => r matches Err(m) && m@ == message,
        },
{
    let (name, after) = match split_once(skip_spaces(stream), '=') {
        Some(parts) => parts,
        None => {
            return Err(MSG_EXPECTED_EQUAL.to_string());
        },
    };
    let mut quoted = skip_spaces(after);
    if !check_and_skip(&mut quoted, '"') {
        return Err(MSG_EXPECTED_QUOTE.to_string());
    }
    match split_once(quoted, '"') {
        Some((value, rest)) => {
            *stream = rest;
            Ok((name, value))
        },
        None => Err(MSG_EXPECTED_VALUE.to_string()),
    }
}

impl Stuff {
    /// Reads the tag that `s` holds.
    pub fn from_str(s: &str) -> (r: Result<Stuff, String>)
        ensures
            match spec_parse(s@) {
                Ok(tag) => r matches Ok(t) && t@ == tag,
                Err(message) => r matches Err(m) && m@ == message,
            },
    {
        let mut stream: &str = s;
        if !check_and_skip(&mut stream, '<') {
            return Err(MSG_EXPECTED_OPEN.to_string());
        }
        let is_end = check_and_skip(&mut stream, '/');
        let ghost after_slash = stream@;
        let name = parse_name(&mut stream);
        let ghost after_name = stream@;
        let mut attributes: Vec<(String, String)> = Vec::new();
        assert(pairs_view(attributes@) =~= Seq::empty());
        loop
            invariant
                s@.len() > 0 && s@[0] == '<',
                is_end == spec_check_and_skip(s@.skip(1), '/').0,
                after_slash == spec_check_and_skip(s@.skip(1), '/').1,
                name@ == after_slash.take(name_run(after_slash) as int),
                after_name == after_slash.skip(name_run(after_slash) as int),
                spec_attributes(stream@, pairs_view(attributes@)) == spec_attributes(
                    after_name,
                    Seq::empty(),
                ),
            decreases stream@.len(),
        {
            match first_char(stream) {
                None => {
                    return Err(MSG_EXPECTED_END.to_string());
                },
                Some(c) => {
                    if c == '/' {
                        return Ok(
                            Stuff::Inline(ComponentCall { name: name.to_string(), attributes }),
                        );
                    } else if c == '>' {
                        if is_end {
                            return Ok(Stuff::End(name.to_string()));
                        } else {
                            return Ok(
                                Stuff::Start(ComponentCall { name: name.to_string(), attributes }),
                            );
                        }
                    } else {
                        let ghost before = pairs_view(attributes@);
                        proof {
                            lemma_attribute_shortens(stream@);
                        }
                        match parse_pair(&mut stream) {
                            Ok((key, value)) => {
                                attributes.push((key.to_string(), value.to_string()));
                                assert(pairs_view(attributes@) =~= before.push((key@, value@)));
                            },
                            Err(message) => {
                                return Err(message);
                            },
                        }
                    }
                },
            }
        }
    }
}

impl core::str::FromStr for Stuff {
    type Err = String;

    /// Reads the tag that `s` holds, as `Stuff::from_str` does.
    fn from_str(s: &str) -> (r: Result<Stuff, String>)
        ensures
            match spec_parse(s@) {
                Ok(tag) => r matches Ok(t) && t@ == tag,
                Err(message) => r matches Err(m) && m@ == message,
            },
    {
        Stuff::from_str(s)
    }
}

} // verus!
