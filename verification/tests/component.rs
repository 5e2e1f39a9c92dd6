use web_framework_markdown::component::{
    can_be_custom_component, Attribute, ComponentCall, CustomHtmlTag, CustomHtmlTagError,
};

#[test]
fn parse_start() {
    let full_string = "<a>";
    let c: CustomHtmlTag = CustomHtmlTag::from_str(full_string, 0).unwrap();
    assert_eq!(
        c,
        CustomHtmlTag::Start(ComponentCall {
            name: &full_string[1..2],
            attributes: vec![],
            range_offset: 0,
            full_string
        },)
    )
}

#[test]
fn parse_end() {
    let c: CustomHtmlTag = CustomHtmlTag::from_str("</a>", 0).unwrap();
    assert_eq!(c, CustomHtmlTag::End("a".into()))
}

#[test]
fn parse_inline_empty() {
    let full_string = "<a/>";
    let c: CustomHtmlTag = CustomHtmlTag::from_str(full_string, 0).unwrap();
    assert_eq!(
        c,
        CustomHtmlTag::Inline(ComponentCall {
            name: &full_string[1..2],
            attributes: vec![],
            range_offset: 0,
            full_string
        },)
    )
}

#[test]
fn parse_inline() {
    let full_string = "<a key=\"val\"/>";
    let c: CustomHtmlTag = CustomHtmlTag::from_str(full_string, 1).unwrap();
    assert_eq!(
        c,
        CustomHtmlTag::Inline(ComponentCall {
            name: &full_string[1..2],
            attributes: vec![Attribute {
                name: &full_string[3..6],
                value: &full_string[8..11],
                start: 8
            }],
            range_offset: 1,
            full_string
        },)
    )
}

#[test]
fn parse_error() {
    let c: Result<CustomHtmlTag, CustomHtmlTagError> = CustomHtmlTag::from_str("<a x>", 0);
    match c {
        Ok(_) => panic!(),
        Err(CustomHtmlTagError {
            name: Some(name),
            message: _,
        }) => assert_eq!(name, "a"),
        Err(CustomHtmlTagError {
            name: None,
            message: _,
        }) => panic!(),
    }
}

#[test]
fn naming_gate() {
    assert!(!can_be_custom_component("<div>"));
    assert!(can_be_custom_component("<My-Component>"));
    assert!(can_be_custom_component("<my-widget/>"));
    assert!(can_be_custom_component("<MyComponent attr=\"v\">"));
    assert!(!can_be_custom_component("<>"));
    assert!(!can_be_custom_component(""));
    assert!(!can_be_custom_component("<a x>"));
}

fn message_of(text: &str) -> (Option<String>, String) {
    let error = CustomHtmlTag::from_str(text, 0).unwrap_err();
    (error.name, error.message)
}

#[test]
fn each_failure_has_its_message() {
    assert_eq!(message_of("a"), (None, "expected <".to_string()));
    assert_eq!(message_of(""), (None, "expected <".to_string()));
    assert_eq!(message_of("<a"), (Some("a".to_string()), "expected end of tag".to_string()));
    assert_eq!(message_of("<"), (Some("".to_string()), "expected end of tag".to_string()));
    assert_eq!(message_of("</abc"), (Some("abc".to_string()), "expected end of tag".to_string()));
    assert_eq!(message_of("<a "), (Some("a".to_string()), "expected end of tag".to_string()));
    assert_eq!(
        message_of("<a x>"),
        (Some("a".to_string()), "expected equal sign after attribute name".to_string())
    );
    assert_eq!(
        message_of("<a x y=\"1\">"),
        (
            Some("a".to_string()),
            "attribute name must be followed by equals sign, and not contain whitespace".to_string()
        )
    );
    assert_eq!(
        message_of("<a x=1>"),
        (Some("a".to_string()), "please use `\"` to wrap your attribute values".to_string())
    );
    assert_eq!(
        message_of("<a x=\"1>"),
        (Some("a".to_string()), "expected attribute value".to_string())
    );
    assert_eq!(
        message_of("<a x=\"1\""),
        (Some("a".to_string()), "expected end of tag".to_string())
    );
}

#[test]
fn whitespace_of_any_kind_separates() {
    let text = "<a\u{a0}k\t=\n\"v\"\u{3000}>";
    let CustomHtmlTag::Start(call) = CustomHtmlTag::from_str(text, 0).unwrap() else { panic!() };
    assert_eq!(call.name, "a");
    assert_eq!(call.attributes.len(), 1);
    assert_eq!(call.attributes[0].name, "k");
    assert_eq!(call.attributes[0].value, "v");
    let start = call.attributes[0].start;
    assert_eq!(&text[start..start + 1], "v");
}

#[test]
fn value_start_counts_bytes() {
    let text = "<é ü=\"ß→\" k=\"\"/>";
    let CustomHtmlTag::Inline(call) = CustomHtmlTag::from_str(text, 7).unwrap() else { panic!() };
    assert_eq!(call.name, "é");
    assert_eq!(call.range_offset, 7);
    assert_eq!(call.full_string, text);
    assert_eq!(
        call.attributes,
        vec![
            Attribute { name: "ü", value: "ß→", start: 8 },
            Attribute { name: "k", value: "", start: 18 },
        ]
    );
    for attribute in &call.attributes {
        assert_eq!(&text[attribute.start..attribute.start + attribute.value.len()], attribute.value);
    }
}

#[test]
fn later_value_replaces_earlier_one() {
    let text = "<a k=\"1\" j=\"2\" k=\"3\">";
    let CustomHtmlTag::Start(call) = CustomHtmlTag::from_str(text, 0).unwrap() else { panic!() };
    assert_eq!(
        call.attributes,
        vec![
            Attribute { name: "k", value: "3", start: 18 },
            Attribute { name: "j", value: "2", start: 12 },
        ]
    );
}

#[test]
fn what_follows_the_end_of_a_tag_is_not_read() {
    assert_eq!(CustomHtmlTag::from_str("</a> and more", 0).unwrap(), CustomHtmlTag::End("a"));
    assert!(matches!(CustomHtmlTag::from_str("<a/ b>", 0).unwrap(), CustomHtmlTag::Inline(_)));
    assert!(matches!(CustomHtmlTag::from_str("</a/>", 0).unwrap(), CustomHtmlTag::Inline(_)));
    assert!(matches!(CustomHtmlTag::from_str("<a>\n", 0).unwrap(), CustomHtmlTag::Start(_)));
}

#[test]
fn naming_gate_looks_at_shape_and_name() {
    assert!(can_be_custom_component("  <X>\n"));
    assert!(can_be_custom_component("</My-Component>"));
    assert!(can_be_custom_component("<a-b>"));
    assert!(!can_be_custom_component("<a>"));
    assert!(!can_be_custom_component("<-a>"));
    assert!(!can_be_custom_component("<1A>"));
    assert!(!can_be_custom_component("<X><Y>"));
    assert!(!can_be_custom_component("<X a=\">\">"));
    assert!(!can_be_custom_component("X>"));
    assert!(!can_be_custom_component("<X"));
    assert!(!can_be_custom_component("< X>"));
    assert!(!can_be_custom_component("<é-a>"));
}
