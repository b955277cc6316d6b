use confluence::rpser::xml::{Element, Error};
use confluence::rpser::{Method, Response};

fn attr_sorted(e: &Element) -> Vec<(String, String)> {
    let mut v = e.attributes.clone();
    v.sort();
    v
}

fn sample() -> Element {
    Element::node("root")
        .with_attr("version", "2")
        .with_child(
            Element::node("a")
                .with_child(Element::node("b").with_text("first b"))
                .with_child(Element::node("b").with_text("second b")),
        )
        .with_child(Element::node("c").with_attr("type", "xsd:string").with_text("cee"))
}

#[test]
fn node_is_empty() {
    let e = Element::node("tag");
    assert_eq!(e.name, "tag");
    assert!(e.attributes.is_empty());
    assert!(e.children.is_empty());
    assert_eq!(e.text, None);
}

#[test]
fn with_attr_replaces_value_of_same_key() {
    let e = Element::node("tag").with_attr("k", "1").with_attr("k", "2");
    assert_eq!(e.attribute("k"), Some("2".to_string()));
    assert_eq!(e.attribute("missing"), None);
    assert_eq!(e.attributes.len(), 1);
    let two = e.with_attr("j", "3");
    assert_eq!(two.attributes.len(), 2);
    assert_eq!(two.attribute("j"), Some("3".to_string()));
}

#[test]
fn with_children_appends_in_order() {
    let e = Element::node("p")
        .with_child(Element::node("first"))
        .with_children(vec![Element::node("second"), Element::node("third")]);
    let names: Vec<&str> = e.children.iter().map(|c| c.name.as_str()).collect();
    assert_eq!(names, vec!["first", "second", "third"]);
}

#[test]
fn with_children_from_iter_copies() {
    let kids = vec![Element::node("x").with_text("1"), Element::node("y")];
    let e = Element::node("p").with_children_from_iter(&kids);
    assert_eq!(e.children.len(), 2);
    assert_eq!(e.children[0].text, Some("1".to_string()));
    assert_eq!(kids[0].text, Some("1".to_string()));
}

#[test]
fn with_name_and_text() {
    let e = Element::node("a").with_name("b").with_text("t");
    assert_eq!(e.name, "b");
    assert_eq!(e.text, Some("t".to_string()));
}

#[test]
fn to_string_writes_attributes_in_key_order() {
    let a = Element::node("e").with_attr("b", "2").with_attr("a", "1").to_string();
    let b = Element::node("e").with_attr("a", "1").with_attr("b", "2").to_string();
    assert_eq!(a, b);
    assert!(a.ends_with("<e a=\"1\" b=\"2\" />") || a.ends_with("<e a=\"1\" b=\"2\"/>"));
    let replaced = Element::node("e").with_attr("a", "0").with_attr("a", "1").to_string();
    assert!(replaced.contains("a=\"1\""));
    assert!(!replaced.contains("a=\"0\""));
}

#[test]
fn cloned_is_independent() {
    let original = sample();
    let mut copy = original.cloned();
    copy.children[0].children[0].text = Some("changed".to_string());
    copy.name = "other".to_string();
    assert_eq!(original.name, "root");
    assert_eq!(original.children[0].children[0].text, Some("first b".to_string()));
    assert_eq!(copy.children.len(), original.children.len());
}

#[test]
fn to_string_writes_document() {
    let s = Element::node("tag").with_child(Element::node("hello").with_text("world")).to_string();
    assert_eq!(
        s,
        "<?xml version=\"1.0\" encoding=\"UTF-8\"?><tag><hello>world</hello></tag>"
    );
}

#[test]
fn to_string_then_parse_round_trips() {
    let tree = sample();
    let document = Method::new("echo").with(tree.cloned()).as_xml("http://example.com/rpc");
    let parsed = Response::from_xml(&document).unwrap().body.descend_first().unwrap();
    assert_eq!(parsed.name, "root");
    assert_eq!(attr_sorted(&parsed), attr_sorted(&tree));
    assert_eq!(parsed.children.len(), 2);
    assert_eq!(parsed.children[0].name, "a");
    assert_eq!(parsed.children[1].name, "c");
    assert_eq!(parsed.children[0].children.len(), 2);
    assert_eq!(parsed.children[0].children[1].text, Some("second b".to_string()));
    assert_eq!(attr_sorted(&parsed.children[1]), attr_sorted(&tree.children[1]));
    assert_eq!(parsed.children[1].text, Some("cee".to_string()));
}

#[test]
fn descend_takes_first_match() {
    let found = sample().descend(&["a", "b"]).unwrap();
    assert_eq!(found.text, Some("first b".to_string()));
}

#[test]
fn descend_empty_path_returns_self() {
    let found = sample().descend(&[]).unwrap();
    assert_eq!(found.name, "root");
}

#[test]
fn descend_and_get_at_path_agree() {
    let tree = sample();
    let copy = tree.get_at_path(&["a", "b"]).unwrap();
    let again = tree.get_at_path(&["a", "b"]).unwrap();
    let consumed = tree.cloned().descend(&["a", "b"]).unwrap();
    assert_eq!(copy.text, consumed.text);
    assert_eq!(copy.name, consumed.name);
    assert_eq!(again.text, copy.text);
    assert_eq!(tree.children.len(), 2);
    assert_eq!(
        tree.get_at_path(&["c"]).unwrap().text,
        tree.cloned().descend(&["c"]).unwrap().text
    );
}

#[test]
fn descend_reports_path_to_missing_second_segment() {
    let tree = Element::node("root").with_child(Element::node("a").with_child(Element::node("x")));
    assert_eq!(
        tree.cloned().descend(&["a", "b"]).unwrap_err(),
        Error::NotFoundAtPath { path: vec!["a".to_string(), "b".to_string()] }
    );
    assert_eq!(
        tree.get_at_path(&["a", "b"]).unwrap_err(),
        Error::NotFoundAtPath { path: vec!["a".to_string(), "b".to_string()] }
    );
}

#[test]
fn descend_reports_path_to_missing_first_segment() {
    let tree = Element::node("root").with_child(Element::node("z"));
    assert_eq!(
        tree.descend(&["a", "b"]).unwrap_err(),
        Error::NotFoundAtPath { path: vec!["a".to_string()] }
    );
}

#[test]
fn descend_first_takes_first_child() {
    let first = sample().descend_first().unwrap();
    assert_eq!(first.name, "a");
    assert_eq!(
        Element::node("empty").descend_first().unwrap_err(),
        Error::ExpectedNotEmpty { parent: "empty".to_string() }
    );
}

#[test]
fn as_long_reads_typed_text() {
    let e = Element::node("n").with_attr("type", "xsd:long").with_text("42");
    assert_eq!(e.as_long(), Ok(42));
    let negative = Element::node("n").with_attr("type", "xsd:long").with_text("-7");
    assert_eq!(negative.as_long(), Ok(-7));
}

#[test]
fn as_long_rejects_bad_number() {
    let e = Element::node("n").with_attr("type", "xsd:long").with_text("abc");
    match e.as_long() {
        Err(Error::ParseIntError { name, .. }) => assert_eq!(name, "n"),
        other => panic!("unexpected {:?}", other),
    }
    let too_big = Element::node("n").with_attr("type", "xsd:long").with_text("9223372036854775808");
    assert!(matches!(too_big.as_long(), Err(Error::ParseIntError { .. })));
}

#[test]
fn as_long_rejects_other_type() {
    for text in ["42", "abc", ""] {
        let e = Element::node("n").with_attr("type", "xsd:string").with_text(text);
        assert_eq!(
            e.as_long(),
            Err(Error::ExpectedElementWithType {
                name: "n".to_string(),
                expected_type: "*:long".to_string(),
                given: Some("xsd:string".to_string()),
            })
        );
    }
    let untyped = Element::node("n").with_text("42");
    assert_eq!(
        untyped.as_long(),
        Err(Error::ExpectedElementWithType {
            name: "n".to_string(),
            expected_type: "*:long".to_string(),
            given: None,
        })
    );
}

#[test]
fn as_string_needs_text_and_type() {
    let e = Element::node("s").with_attr("type", "soapenc:string").with_text("hi");
    assert_eq!(e.as_string(), Ok("hi".to_string()));
    let no_text = Element::node("s").with_attr("type", "xsd:string");
    assert_eq!(
        no_text.as_string(),
        Err(Error::ExpectedElementWithType {
            name: "s".to_string(),
            expected_type: "*:string".to_string(),
            given: Some("xsd:string".to_string()),
        })
    );
}

#[test]
fn as_int_reads_and_bounds() {
    let e = Element::node("v").with_attr("type", "xsd:int").with_text("+17");
    assert_eq!(e.as_int(), Ok(17));
    let big = Element::node("v").with_attr("type", "xsd:int").with_text("2147483648");
    assert!(matches!(big.as_int(), Err(Error::ParseIntError { .. })));
}

#[test]
fn as_boolean_reads_true_and_false() {
    let t = Element::node("b").with_attr("type", "xsd:boolean").with_text("true");
    let f = Element::node("b").with_attr("type", "xsd:boolean").with_text("false");
    let bad = Element::node("b").with_attr("type", "xsd:boolean").with_text("yes");
    assert_eq!(t.as_boolean(), Ok(true));
    assert_eq!(f.as_boolean(), Ok(false));
    assert_eq!(
        bad.as_boolean(),
        Err(Error::ParseBoolError { name: "b".to_string(), text: "yes".to_string() })
    );
}

#[test]
fn as_datetime_reads_rfc3339() {
    let e = Element::node("d").with_attr("type", "xsd:dateTime").with_text("2017-05-10T12:34:56.250Z");
    let ts = e.as_datetime().unwrap();
    assert_eq!(ts.seconds, 1494419696);
    assert_eq!(ts.nanos, 250_000_000);
    let offset = Element::node("d").with_attr("type", "xsd:dateTime").with_text("1970-01-01T01:00:00+01:00");
    assert_eq!(offset.as_datetime().unwrap().seconds, 0);
    let bad = Element::node("d").with_attr("type", "xsd:dateTime").with_text("yesterday");
    assert!(matches!(bad.as_datetime(), Err(Error::ParseDateTimeError { .. })));
}
