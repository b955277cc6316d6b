//! Remote procedure calls in SOAP envelopes.

use vstd::prelude::*;

pub mod xml;

use crate::text::str_eq;
use self::xml::{located, parsed_tree, trees_of, xml_document, Element, Fault, Tree};

verus! {

/// A remote method call: its name and its parameters, in call order.
#[derive(Debug)]
pub struct Method {
    pub name: String,
    pub body: Vec<Element>,
}

/// The payload of a reply: the first element inside the envelope's body.
#[derive(Debug)]
pub struct Response {
    pub body: Element,
}

/// Envelope-level error.
#[derive(Debug)]
pub enum RpcError {
    /// The reply is not a well-formed XML document.
    ParseError(xmltree::ParseError),
    /// The reply's root element is not an envelope; the root's name.
    NotAnEnvelope(String),
    /// The reply lacks the envelope structure.
    XmlError(xml::Error),
}

/// Envelope-level error, as a value of the model.
pub ghost enum RpcFault {
    Malformed,
    NotAnEnvelope(Seq<char>),
    Structure(Fault),
}

impl View for RpcError {
    type V = RpcFault;

    open spec fn view(&self) -> RpcFault {
        match self {
            RpcError::ParseError(_) => RpcFault::Malformed,
            RpcError::NotAnEnvelope(root) => RpcFault::NotAnEnvelope(root@),
            RpcError::XmlError(e) => RpcFault::Structure(e@),
        }
    }
}

/// The request document's tree: an envelope, its body, and under the body a child named
/// after the method (in the `impl` namespace, bound to `url`) holding the parameters.
pub open spec fn envelope(name: Seq<char>, params: Seq<Tree>, url: Seq<char>) -> Tree {
    Tree {
        name: "soapenv:Envelope"@,
        attributes: Map::<Seq<char>, Seq<char>>::empty().insert(
            "xmlns:soapenv"@,
            "http://schemas.xmlsoap.org/soap/envelope/"@,
        ).insert("xmlns:impl"@, url),
        children: seq![
            Tree {
                name: "soapenv:Body"@,
                attributes: Map::empty(),
                children: seq![
                    Tree {
                        name: "impl:"@ + name,
                        attributes: Map::empty(),
                        children: params,
                        text: None,
                    },
                ],
                text: None,
            },
        ],
        text: None,
    }
}

/// The payload of a reply tree: the root must be an `Envelope`, and the payload is the
/// first child of its `Body`.
pub open spec fn payload_of(t: Tree) -> Result<Tree, RpcFault> {
    if t.name != "Envelope"@ {
        Err(RpcFault::NotAnEnvelope(t.name))
    } else {
        match located(t, seq!["Body"@]) {
            Err(f) => Err(RpcFault::Structure(f)),
            Ok(b) => if b.children.len() == 0 {
                Err(RpcFault::Structure(Fault::ExpectedNotEmpty(b.name)))
            } else {
                Ok(b.children[0])
            },
        }
    }
}

/// What a reply text yields.
pub open spec fn reply_of(text: Seq<char>) -> Result<Tree, RpcFault> {
    match parsed_tree(text) {
        None => Err(RpcFault::Malformed),
        Some(t) => payload_of(t),
    }
}

pub open spec fn reply_outcome(r: Result<Response, RpcError>) -> Result<Tree, RpcFault> {
    match r {
        Ok(resp) => Ok(resp.body@),
        Err(e) => Err(e@),
    }
}

impl Method {
    /// Start a call of the method `name`, with no parameters.
    pub fn new(name: &str) -> (r: Method)
        ensures
            r.name@ == name@,
            r.body@.len() == 0,
    {
        Method { name: name.to_owned(), body: Vec::new() }
    }

    /// Append a parameter.
    pub fn with(self, element: Element) -> (r: Method)
        ensures
            r.name == self.name,
            r.body@ == self.body@.push(element),
    {
        let mut m = self;
        m.body.push(element);
        m
    }

    /// Render the call as a request document for the endpoint at `url`.
    pub fn as_xml(&self, url: &str) -> (r: String)
        ensures
            r@ == xml_document(envelope(self.name@, trees_of(self.body@), url@)),
    {
        let call_name = "impl:".to_owned().concat(self.name.as_str());
        let call = Element::node(call_name.as_str()).with_children_from_iter(self.body.as_slice());
        let body = Element::node("soapenv:Body").with_child(call);
        let root = Element::node("soapenv:Envelope").with_attr(
            "xmlns:soapenv",
            "http://schemas.xmlsoap.org/soap/envelope/",
        ).with_attr("xmlns:impl", url).with_child(body);
        proof {
            let e = envelope(self.name@, trees_of(self.body@), url@);
            assert(call@.children =~= e.children[0].children[0].children);
            assert(call@ == e.children[0].children[0]);
            assert(body@.children =~= e.children[0].children);
            assert(body@ == e.children[0]);
            assert(root@.children =~= e.children);
            assert(root@ == e);
        }
        root.to_string()
    }
}

impl Response {
    /// Parse a reply document and take the payload out of its body.
    pub fn from_xml(text: &str) -> (r: Result<Response, RpcError>)
        ensures
            reply_outcome(r) == reply_of(text@),
    {
        let root = match Element::parse(text) {
            Ok(root) => root,
            Err(e) => return Err(RpcError::ParseError(e)),
        };
        if !str_eq(root.name.as_str(), "Envelope") {
            return Err(RpcError::NotAnEnvelope(root.name));
        }
        let path = ["Body"];
        proof {
            assert(xml::path_view(path@) =~= seq!["Body"@]);
        }
        let body = match root.descend(path.as_slice()) {
            Ok(b) => b,
            Err(e) => return Err(RpcError::XmlError(e)),
        };
        match body.descend_first() {
            Ok(p) => Ok(Response { body: p }),
            Err(e) => Err(RpcError::XmlError(e)),
        }
    }
}

} // verus!
