use std::cell::RefCell;

use confluence::rpser::xml::{Element, Error as XmlError};
use confluence::rpser::{Response, RpcError};
use confluence::{Error, FromElement, PageUpdateOptions, Session, Space, UpdatePage};

const ENDPOINT: &str = "https://wiki.example.com/rpc/soap-axis/confluenceservice-v2";

fn description() -> String {
    let ops = [
        "login", "logout", "getSpace", "getPage", "storePage", "updatePage", "getChildren",
    ];
    let mut doc = format!(
        "<?xml version=\"1.0\"?><wsdl:definitions xmlns:wsdl=\"http://schemas.xmlsoap.org/wsdl/\" xmlns:impl=\"{}\">",
        ENDPOINT
    );
    for op in ops.iter() {
        doc.push_str(&format!("<wsdl:operation name=\"{}\"/>", op));
    }
    doc.push_str("</wsdl:definitions>");
    doc
}

fn reply(method: &str, payload: &str) -> String {
    format!(
        "<?xml version=\"1.0\" encoding=\"UTF-8\"?>\
         <soapenv:Envelope xmlns:soapenv=\"http://schemas.xmlsoap.org/soap/envelope/\" \
         xmlns:xsi=\"http://www.w3.org/2001/XMLSchema-instance\">\
         <soapenv:Body><ns1:{m}Response xmlns:ns1=\"urn:confluence\">{p}</ns1:{m}Response>\
         </soapenv:Body></soapenv:Envelope>",
        m = method,
        p = payload
    )
}

fn space_fields(home_page: &str) -> String {
    format!(
        "<description xsi:type=\"xsd:string\">A space</description>\
         <homePage xsi:type=\"xsd:long\">{}</homePage>\
         <key xsi:type=\"xsd:string\">KEY</key>\
         <name xsi:type=\"xsd:string\">Team space</name>\
         <spaceGroup>Engineering</spaceGroup>\
         <type xsi:type=\"xsd:string\">global</type>\
         <url xsi:type=\"xsd:string\">https://wiki.example.com/display/KEY</url>",
        home_page
    )
}

fn page_fields(id: &str) -> String {
    format!(
        "<id xsi:type=\"xsd:long\">{}</id>\
         <space xsi:type=\"xsd:string\">KEY</space>\
         <parentId xsi:type=\"xsd:long\">0</parentId>\
         <title xsi:type=\"xsd:string\">Home</title>\
         <url xsi:type=\"xsd:string\">https://wiki.example.com/pages/{}</url>\
         <version xsi:type=\"xsd:int\">3</version>\
         <content xsi:type=\"xsd:string\">Body</content>\
         <created xsi:type=\"xsd:dateTime\">2017-05-10T12:34:56.000Z</created>\
         <creator xsi:type=\"xsd:string\">alice</creator>\
         <modified xsi:type=\"xsd:dateTime\">2017-05-11T00:00:00.000Z</modified>\
         <modifier xsi:type=\"xsd:string\">bob</modifier>\
         <homePage xsi:type=\"xsd:boolean\">true</homePage>\
         <contentStatus xsi:type=\"xsd:string\">current</contentStatus>\
         <current xsi:type=\"xsd:boolean\">true</current>",
        id, id
    )
}

fn summary_fields(id: &str) -> String {
    format!(
        "<id xsi:type=\"xsd:long\">{}</id>\
         <space xsi:type=\"xsd:string\">KEY</space>\
         <parentId xsi:type=\"xsd:long\">1</parentId>\
         <title xsi:type=\"xsd:string\">Child {}</title>\
         <url xsi:type=\"xsd:string\">https://wiki.example.com/pages/{}</url>",
        id, id, id
    )
}

fn server(action: &str) -> String {
    match action {
        "login" => reply("login", "<loginReturn xsi:type=\"xsd:string\">tok-1</loginReturn>"),
        "logout" => reply("logout", "<logoutReturn xsi:type=\"xsd:boolean\">true</logoutReturn>"),
        "getSpace" => reply(
            "getSpace",
            &format!("<getSpaceReturn>{}</getSpaceReturn>", space_fields("123")),
        ),
        "getPage" | "storePage" | "updatePage" => reply(
            action,
            &format!("<{}Return>{}</{}Return>", action, page_fields("77"), action),
        ),
        "getChildren" => reply(
            "getChildren",
            &format!(
                "<getChildrenReturn><item>{}</item><item>{}</item></getChildrenReturn>",
                summary_fields("5"),
                summary_fields("6")
            ),
        ),
        _ => String::from("not a document"),
    }
}

fn get(url: &str) -> Result<String, String> {
    if url == "https://wiki.example.com/rpc/soap-axis/confluenceservice-v2?wsdl" {
        Ok(description())
    } else {
        Err(format!("unexpected url {}", url))
    }
}

fn post(url: &str, action: &str, _body: &str) -> Result<String, String> {
    if url == ENDPOINT {
        Ok(server(action))
    } else {
        Err(format!("unexpected endpoint {}", url))
    }
}

fn session() -> Session {
    Session::login("https://wiki.example.com/", "user", "pass", &get, &post).unwrap()
}

#[test]
fn login_strips_slash_and_reads_token() {
    let sent = RefCell::new(Vec::new());
    let recording = |u: &str, a: &str, b: &str| {
        sent.borrow_mut().push((u.to_string(), a.to_string(), b.to_string()));
        post(u, a, b)
    };
    let s = Session::login("https://wiki.example.com/", "user", "secret", &get, &recording);
    assert!(s.is_ok());
    let sent = sent.borrow();
    assert_eq!(sent.len(), 1);
    assert_eq!(sent[0].0, ENDPOINT);
    assert_eq!(sent[0].1, "login");
    let call = Response::from_xml(&sent[0].2).unwrap().body;
    assert_eq!(call.name, "login");
    assert_eq!(call.children[0].name, "username");
    assert_eq!(call.children[0].text, Some("user".to_string()));
    assert_eq!(call.children[1].name, "password");
    assert_eq!(call.children[1].text, Some("secret".to_string()));
}

#[test]
fn login_without_slash() {
    assert!(Session::login("https://wiki.example.com", "user", "pass", &get, &post).is_ok());
}

#[test]
fn login_passes_transport_failure() {
    let r = Session::login("https://elsewhere.example.com", "u", "p", &get, &post);
    match r {
        Err(Error::Http(m)) => assert!(m.contains("elsewhere")),
        _ => panic!("expected a transport error"),
    }
}

#[test]
fn login_without_token_fails() {
    let no_token = |_: &str, _: &str, _: &str| Ok(reply("login", "<loginReturn/>"));
    let r = Session::login("https://wiki.example.com", "u", "p", &get, &no_token);
    assert!(matches!(r, Err(Error::ReceivedNoLoginToken)));
}

#[test]
fn login_without_login_operation_fails() {
    let empty = |_: &str| Ok("<definitions/>".to_string());
    let r = Session::login("https://wiki.example.com", "u", "p", &empty, &post);
    match r {
        Err(Error::MethodNotFoundInWsdl(name)) => assert_eq!(name, "login"),
        _ => panic!("expected an unknown method"),
    }
}

#[test]
fn logout_reports_confirmation() {
    let s = session();
    assert_eq!(s.logout(&post).unwrap(), true);
    let refused = |_: &str, _: &str, _: &str| Ok(reply("logout", "<logoutReturn>false</logoutReturn>"));
    assert_eq!(s.logout(&refused).unwrap(), false);
}

#[test]
fn get_space_end_to_end() {
    let sent = RefCell::new(String::new());
    let recording = |u: &str, a: &str, b: &str| {
        *sent.borrow_mut() = b.to_string();
        post(u, a, b)
    };
    let space = session().get_space("KEY", &recording).unwrap();
    assert_eq!(space.key, "KEY");
    assert_eq!(space.name, "Team space");
    assert_eq!(space.space_type, "global");
    assert_eq!(space.url, "https://wiki.example.com/display/KEY");
    assert_eq!(space.home_page, 123);
    assert_eq!(space.description, Some("A space".to_string()));
    assert_eq!(space.space_group, Some("Engineering".to_string()));
    let call = Response::from_xml(&sent.borrow()).unwrap().body;
    assert_eq!(call.children.len(), 2);
    assert_eq!(call.children[0].name, "token");
    assert_eq!(call.children[0].text, Some("tok-1".to_string()));
    assert_eq!(call.children[1].name, "spaceKey");
    assert_eq!(call.children[1].text, Some("KEY".to_string()));
}

#[test]
fn get_space_reports_mistyped_field() {
    let bad = |_: &str, _: &str, _: &str| {
        Ok(reply("getSpace", &format!("<getSpaceReturn>{}</getSpaceReturn>", space_fields("many"))))
    };
    match session().get_space("KEY", &bad) {
        Err(Error::Rpc(RpcError::XmlError(XmlError::ParseIntError { name, .. }))) => {
            assert_eq!(name, "homePage")
        }
        _ => panic!("expected a parse error"),
    }
}

#[test]
fn get_space_reports_missing_field() {
    let fields = space_fields("1").replace("<key xsi:type=\"xsd:string\">KEY</key>", "");
    let missing = move |_: &str, _: &str, _: &str| {
        Ok(reply("getSpace", &format!("<getSpaceReturn>{}</getSpaceReturn>", fields)))
    };
    match session().get_space("KEY", &missing) {
        Err(Error::Rpc(RpcError::XmlError(e))) => {
            assert_eq!(e, XmlError::NotFoundAtPath { path: vec!["key".to_string()] })
        }
        _ => panic!("expected a missing field"),
    }
}

#[test]
fn fault_reply_surfaces_as_missing_return() {
    let fault = |_: &str, _: &str, _: &str| {
        Ok(reply("getSpace", "").replace(
            "<ns1:getSpaceResponse xmlns:ns1=\"urn:confluence\"></ns1:getSpaceResponse>",
            "<soapenv:Fault><faultstring>boom</faultstring></soapenv:Fault>",
        ))
    };
    match session().get_space("KEY", &fault) {
        Err(Error::Rpc(RpcError::XmlError(e))) => {
            assert_eq!(e, XmlError::NotFoundAtPath { path: vec!["getSpaceReturn".to_string()] })
        }
        _ => panic!("expected a missing return"),
    }
}

#[test]
fn unknown_method_is_refused_before_sending() {
    let never = |_: &str, _: &str, _: &str| -> Result<String, String> { panic!("sent") };
    let s = Session::login(
        "https://wiki.example.com",
        "u",
        "p",
        &|_: &str| {
            Ok(format!(
                "<d xmlns:impl=\"{}\"><operation name=\"login\"/></d>",
                ENDPOINT
            ))
        },
        &post,
    )
    .unwrap();
    match s.get_space("KEY", &never) {
        Err(Error::MethodNotFoundInWsdl(name)) => assert_eq!(name, "getSpace"),
        _ => panic!("expected an unknown method"),
    }
}

#[test]
fn malformed_reply_is_an_rpc_error() {
    let garbage = |_: &str, _: &str, _: &str| Ok("<<<".to_string());
    assert!(matches!(
        session().get_space("KEY", &garbage),
        Err(Error::Rpc(RpcError::ParseError(_)))
    ));
}

#[test]
fn get_page_by_id_sends_decimal_id() {
    let sent = RefCell::new(String::new());
    let recording = |u: &str, a: &str, b: &str| {
        *sent.borrow_mut() = b.to_string();
        post(u, a, b)
    };
    let page = session().get_page_by_id(-123456, &recording).unwrap();
    assert_eq!(page.id, 77);
    assert_eq!(page.version, 3);
    assert_eq!(page.created.seconds, 1494419696);
    assert_eq!(page.creator, "alice");
    assert!(page.home_page);
    assert!(page.current);
    let call = Response::from_xml(&sent.borrow()).unwrap().body;
    assert_eq!(call.children[1].name, "pageId");
    assert_eq!(call.children[1].text, Some("-123456".to_string()));
}

#[test]
fn get_page_by_title_reads_page() {
    let page = session().get_page_by_title("KEY", "Home", &post).unwrap();
    assert_eq!(page.title, "Home");
    assert_eq!(page.content_status, "current");
    assert_eq!(page.modified.seconds, 1494460800);
}

#[test]
fn store_page_sends_present_fields() {
    let sent = RefCell::new(String::new());
    let recording = |u: &str, a: &str, b: &str| {
        *sent.borrow_mut() = b.to_string();
        post(u, a, b)
    };
    let page = UpdatePage::with_create_fields(Some(9), "KEY", "New", "<b>Works</b>");
    let stored = session().store_page(page, &recording).unwrap();
    assert_eq!(stored.id, 77);
    let call = Response::from_xml(&sent.borrow()).unwrap().body.descend(&["page"]).unwrap();
    let names: Vec<&str> = call.children.iter().map(|c| c.name.as_str()).collect();
    assert_eq!(names, vec!["space", "title", "content", "parentId"]);
    assert_eq!(call.children[2].text, Some("<b>Works</b>".to_string()));
    assert_eq!(call.children[3].text, Some("9".to_string()));
}

#[test]
fn update_page_sends_options() {
    let sent = RefCell::new(String::new());
    let recording = |u: &str, a: &str, b: &str| {
        *sent.borrow_mut() = b.to_string();
        post(u, a, b)
    };
    let s = session();
    let page = s.get_page_by_id(77, &post).unwrap();
    let update = UpdatePage::from_page(page);
    let updated = s
        .update_page(update, PageUpdateOptions::new_minor_with_comment("typo"), &recording)
        .unwrap();
    assert_eq!(updated.id, 77);
    let call = Response::from_xml(&sent.borrow()).unwrap().body;
    let page_names: Vec<&str> = call.children[1].children.iter().map(|c| c.name.as_str()).collect();
    assert_eq!(page_names, vec!["space", "title", "content", "id", "version"]);
    let options = &call.children[2];
    assert_eq!(options.name, "pageUpdateOptions");
    assert_eq!(options.children[0].name, "versionComment");
    assert_eq!(options.children[0].text, Some("typo".to_string()));
    assert_eq!(options.children[1].name, "minorEdit");
    assert_eq!(options.children[1].text, Some("true".to_string()));
}

#[test]
fn get_children_reads_all_summaries() {
    let children = session().get_children(1, &post).unwrap();
    assert_eq!(children.len(), 2);
    assert_eq!(children[0].id, 5);
    assert_eq!(children[1].id, 6);
    assert_eq!(children[1].title, "Child 6");
}

#[test]
fn get_children_fails_on_first_bad_child() {
    let bad = |_: &str, _: &str, _: &str| {
        Ok(reply(
            "getChildren",
            &format!(
                "<getChildrenReturn><item>{}</item><item><id>x</id></item></getChildrenReturn>",
                summary_fields("5")
            ),
        ))
    };
    assert!(matches!(session().get_children(1, &bad), Err(Error::Rpc(_))));
}

#[test]
fn space_from_element_directly() {
    let e = Element::node("getSpaceReturn")
        .with_child(Element::node("description"))
        .with_child(Element::node("homePage").with_attr("type", "xsd:long").with_text("5"))
        .with_child(Element::node("key").with_attr("type", "xsd:string").with_text("K"))
        .with_child(Element::node("name").with_attr("type", "xsd:string").with_text("N"))
        .with_child(Element::node("spaceGroup"))
        .with_child(Element::node("type").with_attr("type", "xsd:string").with_text("personal"))
        .with_child(Element::node("url").with_attr("type", "xsd:string").with_text("u"));
    let s = Space::from_element(e).unwrap();
    assert_eq!(s.description, None);
    assert_eq!(s.space_group, None);
    assert_eq!(s.home_page, 5);
    assert_eq!(s.space_type, "personal");
}

#[test]
fn space_group_comes_from_its_own_child() {
    let n = Element::node;
    let ty = |x: &str, t: &str, v: &str| Element::node(x).with_attr("type", t).with_text(v);
    let el = n("getSpaceReturn").with_children(vec![
        n("description").with_text("D"),
        ty("homePage", "xsd:long", "42"),
        ty("key", "xsd:string", "K"),
        ty("name", "xsd:string", "N"),
        n("spaceGroup").with_text("G"),
        ty("type", "xsd:string", "global"),
        ty("url", "xsd:string", "http://u"),
    ]);
    let s = Space::from_element(el).unwrap();
    assert_eq!(s.key, "K");
    assert_eq!(s.name, "N");
    assert_eq!(s.space_type, "global");
    assert_eq!(s.url, "http://u");
    assert_eq!(s.home_page, 42);
    assert_eq!(s.description, Some("D".to_string()));
    assert_eq!(s.space_group, Some("G".to_string()));
}

#[test]
fn space_without_group_child_is_missing_field() {
    let el = Element::node("getSpaceReturn")
        .with_child(Element::node("description"))
        .with_child(Element::node("homePage").with_attr("type", "xsd:long").with_text("1"))
        .with_child(Element::node("key").with_attr("type", "xsd:string").with_text("K"))
        .with_child(Element::node("name").with_attr("type", "xsd:string").with_text("N"));
    match Space::from_element(el) {
        Err(Error::Rpc(RpcError::XmlError(e))) => {
            assert_eq!(e, XmlError::NotFoundAtPath { path: vec!["spaceGroup".to_string()] })
        }
        _ => panic!("expected a missing field"),
    }
}
