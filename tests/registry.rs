use confluence::wsdl::{fetch, PullEvent, Wsdl};

const TWO_OPERATIONS: &str = "<?xml version=\"1.0\" encoding=\"UTF-8\"?>\
<wsdl:definitions xmlns:wsdl=\"http://schemas.xmlsoap.org/wsdl/\" \
xmlns:impl=\"https://wiki.example.com/rpc/soap-axis/confluenceservice-v2\">\
<wsdl:portType name=\"ConfluenceSoapService\">\
<wsdl:operation name=\"login\"><wsdl:input message=\"impl:loginRequest\"/></wsdl:operation>\
<wsdl:operation name=\"getSpace\"/>\
</wsdl:portType>\
</wsdl:definitions>";

fn url_of<'a>(w: &'a Wsdl, name: &str) -> Option<&'a str> {
    w.get(name).map(|op| op.url.as_str())
}

#[test]
fn parse_finds_two_operations() {
    let w = Wsdl::parse(TWO_OPERATIONS);
    assert_eq!(w.operations.len(), 2);
    let url = "https://wiki.example.com/rpc/soap-axis/confluenceservice-v2";
    assert_eq!(url_of(&w, "login"), Some(url));
    assert_eq!(url_of(&w, "getSpace"), Some(url));
    assert_eq!(url_of(&w, "logout"), None);
}

#[test]
fn parse_skips_operations_without_impl_binding() {
    let doc = "<definitions><operation name=\"a\"/></definitions>";
    assert_eq!(Wsdl::parse(doc).operations.len(), 0);
}

#[test]
fn parse_keeps_what_came_before_malformed_text() {
    let doc = "<d xmlns:impl=\"http://u\"><operation name=\"a\"/><operation name=\"b\"></d>";
    let w = Wsdl::parse(doc);
    assert_eq!(url_of(&w, "a"), Some("http://u"));
    assert_eq!(url_of(&w, "b"), Some("http://u"));
    let broken = "<d xmlns:impl=\"http://u\"><operation name=\"a\"/><<operation name=\"c\"/></d>";
    let w = Wsdl::parse(broken);
    assert_eq!(url_of(&w, "a"), Some("http://u"));
    assert_eq!(url_of(&w, "c"), None);
}

#[test]
fn from_events_stops_at_malformed() {
    let start = |name: &str| PullEvent::StartElement {
        prefix: Some("wsdl".to_string()),
        local_name: "operation".to_string(),
        attributes: vec![(None, "name".to_string(), name.to_string())],
        namespaces: vec![("impl".to_string(), "http://u".to_string())],
    };
    let events = vec![start("a"), PullEvent::Other, PullEvent::Malformed, start("b")];
    let w = Wsdl::from_events(&events);
    assert_eq!(w.operations.len(), 1);
    assert_eq!(w.operations[0].0, "a");
}

#[test]
fn later_declaration_wins() {
    let events = vec![
        PullEvent::StartElement {
            prefix: None,
            local_name: "operation".to_string(),
            attributes: vec![(None, "name".to_string(), "a".to_string())],
            namespaces: vec![("impl".to_string(), "http://first".to_string())],
        },
        PullEvent::StartElement {
            prefix: None,
            local_name: "operation".to_string(),
            attributes: vec![(None, "name".to_string(), "a".to_string())],
            namespaces: vec![("impl".to_string(), "http://second".to_string())],
        },
    ];
    let w = Wsdl::from_events(&events);
    assert_eq!(url_of(&w, "a"), Some("http://second"));
}

#[test]
fn fetch_passes_transport_outcome() {
    let ok = fetch("http://x", &|_: &str| Ok(TWO_OPERATIONS.to_string())).unwrap();
    assert_eq!(ok.operations.len(), 2);
    let failed = fetch("http://x", &|u: &str| Err(format!("no route to {}", u)));
    assert_eq!(failed.unwrap_err(), "no route to http://x");
}

#[test]
fn namespace_uri_does_not_make_an_operation() {
    let doc = "<d xmlns:impl=\"http://u\" xmlns:x=\"urn:operation\">\
        <x:service name=\"s\"/><x:operation name=\"o\"/></d>";
    let w = Wsdl::parse(doc);
    assert_eq!(w.operations.len(), 1);
    assert_eq!(url_of(&w, "o"), Some("http://u"));
    assert_eq!(url_of(&w, "s"), None);
}

#[test]
fn prefixed_name_attribute_is_not_the_name() {
    let events = vec![PullEvent::StartElement {
        prefix: None,
        local_name: "operation".to_string(),
        attributes: vec![(Some("x".to_string()), "name".to_string(), "a".to_string())],
        namespaces: vec![("impl".to_string(), "http://u".to_string())],
    }];
    assert_eq!(Wsdl::from_events(&events).operations.len(), 0);
}
