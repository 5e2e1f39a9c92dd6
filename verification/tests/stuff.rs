use web_framework_markdown::stuff::{ComponentCall, Stuff};

#[test]
fn component_parse_start() {
    let c: Stuff = "<a>".parse().unwrap();
    assert_eq!(
        c,
        Stuff::Start(ComponentCall {
            name: "a".into(),
            attributes: [].into(),
        },)
    )
}

#[test]
fn component_parse_end() {
    let c: Stuff = "</a>".parse().unwrap();
    assert_eq!(c, Stuff::End("a".into()))
}

#[test]
fn component_parse_inline_empty() {
    let c: Stuff = "<a/>".parse().unwrap();
    assert_eq!(
        c,
        Stuff::Inline(ComponentCall {
            name: "a".into(),
            attributes: [].into(),
        },)
    )
}

#[test]
fn component_parse_inline() {
    let c: Stuff = "<a key=\"val\"/>".parse().unwrap();
    assert_eq!(
        c,
        Stuff::Inline(ComponentCall {
            name: "a".into(),
            attributes: vec![("key".into(), "val".into())]
        },)
    )
}

#[test]
fn owned_tag_keeps_attributes_as_written() {
    let c: Stuff = "<a  k = \"1\" k=\"2\">".parse().unwrap();
    assert_eq!(
        c,
        Stuff::Start(ComponentCall {
            name: "a".into(),
            attributes: vec![("k ".into(), "1".into()), ("k".into(), "2".into())]
        })
    );
    assert_eq!(Stuff::from_str("</a>"), Ok(Stuff::End("a".into())));
}

#[test]
fn owned_tag_failures() {
    assert_eq!(Stuff::from_str("a"), Err("expected <".to_string()));
    assert_eq!(Stuff::from_str("<a"), Err("expected end of tag".to_string()));
    assert_eq!(
        Stuff::from_str("<a x>"),
        Err("expected equal sign after attribute name".to_string())
    );
    assert_eq!(
        Stuff::from_str("<a x=1>"),
        Err("please use `\"` to wrap your attribute values".to_string())
    );
    assert_eq!(Stuff::from_str("<a x=\"1>"), Err("expected attribute value".to_string()));
    assert_eq!(Stuff::from_str("<a x=\"1\""), Err("expected end of tag".to_string()));
    assert_eq!(
        Stuff::from_str("<a\tx=\"1\">"),
        Ok(Stuff::Start(ComponentCall {
            name: "a\tx=\"1\"".into(),
            attributes: vec![]
        }))
    );
}
