//! Service description inspection: where each operation is implemented.

use vstd::prelude::*;

use crate::rpser::xml::{attr_map, entry_value, opt_view};
use crate::text::{occurs_in, str_contains, str_eq};

verus! {

/// WSDL operation info.
#[derive(Debug)]
pub struct Operation {
    pub url: String,
}

/// WSDL document: operations by name. When a name occurs twice, the later entry counts.
#[derive(Debug)]
pub struct Wsdl {
    pub operations: Vec<(String, Operation)>,
}

/// One event of a pull parse, reduced to what the scan reads.
#[derive(Debug)]
pub enum PullEvent {
    /// A start tag: the prefix and local part of its name, its attributes (prefix, local
    /// name, value), and the namespace bindings in force there (prefix, URI).
    StartElement {
        prefix: Option<String>,
        local_name: String,
        attributes: Vec<(Option<String>, String, String)>,
        namespaces: Vec<(String, String)>,
    },
    /// The document stopped being well-formed here.
    Malformed,
    /// Any other event.
    Other,
}

/// A pull event, as a value of the model: a start tag has its qualified name, its
/// attributes by qualified name, and its namespace bindings by prefix.
pub ghost enum Event {
    Start(Seq<char>, Map<Seq<char>, Seq<char>>, Map<Seq<char>, Seq<char>>),
    Malformed,
    Other,
}

/// A name as written: `prefix:local`, or the local part alone.
pub open spec fn qualified_name(prefix: Option<Seq<char>>, local: Seq<char>) -> Seq<char> {
    match prefix {
        Some(p) => p + seq![':'] + local,
        None => local,
    }
}

/// The value of the latest attribute whose qualified name is `key`.
pub open spec fn qualified_lookup(attributes: Seq<(Option<String>, String, String)>, key: Seq<char>) -> Option<
    Seq<char>,
>
    decreases attributes.len(),
{
    if attributes.len() == 0 {
        None
    } else if qualified_name(opt_view(attributes.last().0), attributes.last().1@) == key {
        Some(attributes.last().2@)
    } else {
        qualified_lookup(attributes.drop_last(), key)
    }
}

pub open spec fn qualified_map(attributes: Seq<(Option<String>, String, String)>) -> Map<
    Seq<char>,
    Seq<char>,
> {
    Map::new(
        |k: Seq<char>| qualified_lookup(attributes, k) is Some,
        |k: Seq<char>| qualified_lookup(attributes, k)->Some_0,
    )
}

impl View for PullEvent {
    type V = Event;

    open spec fn view(&self) -> Event {
        match self {
            PullEvent::StartElement { prefix, local_name, attributes, namespaces } => Event::Start(
                qualified_name(opt_view(*prefix), local_name@),
                qualified_map(attributes@),
                attr_map(namespaces@),
            ),
            PullEvent::Malformed => Event::Malformed,
            PullEvent::Other => Event::Other,
        }
    }
}

pub open spec fn events_view(s: Seq<PullEvent>) -> Seq<Event> {
    s.map_values(|e: PullEvent| e@)
}

pub open spec fn entries_view(s: Seq<(String, Operation)>) -> Seq<(Seq<char>, Seq<char>)> {
    s.map_values(|e: (String, Operation)| (e.0@, e.1.url@))
}

/// The events that the xml crate's pull parser reports for a document, up to and
/// including the first error.
pub uninterp spec fn document_events(doc: Seq<char>) -> Seq<Event>;

/// The operation that an event declares: a start tag whose name contains `operation`,
/// with a `name` attribute, where the `impl` prefix is bound.
pub open spec fn declared_operation(e: Event) -> Option<(Seq<char>, Seq<char>)> {
    match e {
        Event::Start(name, attributes, ns) => if occurs_in(name, "operation"@)
            && attributes.contains_key("name"@) && ns.contains_key("impl"@) {
            Some((attributes["name"@], ns["impl"@]))
        } else {
            None
        },
        _ => None,
    }
}

/// The operations declared by a run of events, in order; the scan stops at the first
/// malformed event.
pub open spec fn scan(events: Seq<Event>) -> Seq<(Seq<char>, Seq<char>)>
    decreases events.len(),
{
    if events.len() == 0 {
        seq![]
    } else if events[0] is Malformed {
        seq![]
    } else {
        match declared_operation(events[0]) {
            Some(p) => seq![p] + scan(events.skip(1)),
            None => scan(events.skip(1)),
        }
    }
}

/// The URL recorded last for `name`.
pub open spec fn lookup(entries: Seq<(Seq<char>, Seq<char>)>, name: Seq<char>) -> Option<Seq<char>>
    decreases entries.len(),
{
    if entries.len() == 0 {
        None
    } else if entries.last().0 == name {
        Some(entries.last().1)
    } else {
        lookup(entries.drop_last(), name)
    }
}

/// Operations by name: the URL recorded last for each name.
pub open spec fn operations_map(entries: Seq<(Seq<char>, Seq<char>)>) -> Map<Seq<char>, Seq<char>> {
    Map::new(|k: Seq<char>| lookup(entries, k) is Some, |k: Seq<char>| lookup(entries, k)->Some_0)
}

impl View for Wsdl {
    type V = Map<Seq<char>, Seq<char>>;

    open spec fn view(&self) -> Map<Seq<char>, Seq<char>> {
        operations_map(entries_view(self.operations@))
    }
}

/// Relies on the xml crate's `EventReader`: each event it yields, in order, with a start
/// tag's names and namespace bindings copied as they are; its iterator ends after the
/// first error.
#[verifier::external_body]
fn pull_events(doc: &str) -> (r: Vec<PullEvent>)
    ensures
        events_view(r@) == document_events(doc@),
{
    let mut events = Vec::new();
    for e in xml::reader::EventReader::new(doc.as_bytes()) {
        events.push(match e {
            Ok(xml::reader::XmlEvent::StartElement { name, attributes, namespace }) => PullEvent::StartElement {
                prefix: name.prefix,
                local_name: name.local_name,
                attributes: attributes.into_iter().map(|a| (a.name.prefix, a.name.local_name, a.value)).collect(),
                namespaces: namespace.iter().map(|(p, u)| (p.to_string(), u.to_string())).collect(),
            },
            Ok(_) => PullEvent::Other,
            Err(_) => PullEvent::Malformed,
        });
    }
    events
}

fn qualify(prefix: &Option<String>, local: &String) -> (r: String)
    ensures
        r@ == qualified_name(opt_view(*prefix), local@),
{
    proof {
        reveal_strlit(":");
    }
    match prefix {
        Some(p) => p.clone().concat(":").concat(local.as_str()),
        None => local.clone(),
    }
}

/// The value of the latest attribute whose qualified name is `key`.
fn attribute_value(attributes: &Vec<(Option<String>, String, String)>, key: &str) -> (r: Option<
    String,
>)
    ensures
        opt_view(r) == qualified_lookup(attributes@, key@),
{
    let mut i: usize = attributes.len();
    proof {
        assert(attributes@.subrange(0, i as int) =~= attributes@);
    }
    while i > 0
        invariant
            i <= attributes@.len(),
            qualified_lookup(attributes@, key@) == qualified_lookup(
                attributes@.subrange(0, i as int),
                key@,
            ),
        decreases i,
    {
        let ghost prefix = attributes@.subrange(0, i as int);
        i -= 1;
        proof {
            assert(prefix.drop_last() =~= attributes@.subrange(0, i as int));
        }
        let name = qualify(&attributes[i].0, &attributes[i].1);
        if str_eq(name.as_str(), key) {
            return Some(attributes[i].2.clone());
        }
    }
    None
}

impl Wsdl {
    /// Collect the operations that a run of pull events declares.
    pub fn from_events(events: &Vec<PullEvent>) -> (r: Wsdl)
        ensures
            entries_view(r.operations@) == scan(events_view(events@)),
    {
        let ghost ev = events_view(events@);
        let mut operations: Vec<(String, Operation)> = Vec::new();
        let mut i: usize = 0;
        proof {
            assert(ev.skip(0) =~= ev);
            reveal_strlit("operation");
            reveal_strlit("name");
            reveal_strlit("impl");
        }
        while i < events.len()
            invariant
                ev == events_view(events@),
                i <= events@.len(),
                entries_view(operations@) + scan(ev.skip(i as int)) == scan(ev),
            decreases events@.len() - i,
        {
            let ghost rest = ev.skip(i as int);
            proof {
                assert(rest[0] == events@[i as int]@);
                assert(rest.skip(1) =~= ev.skip(i + 1));
            }
            match &events[i] {
                PullEvent::Malformed => {
                    proof {
                        assert(entries_view(operations@) =~= entries_view(operations@) + Seq::<
                            (Seq<char>, Seq<char>),
                        >::empty());
                    }
                    return Wsdl { operations };
                },
                PullEvent::Other => {},
                PullEvent::StartElement { prefix, local_name, attributes, namespaces } => {
                    let name = qualify(prefix, local_name);
                    if str_contains(name.as_str(), "operation") {
                        let found = attribute_value(attributes, "name");
                        let bound = entry_value(namespaces, "impl");
                        match (found, bound) {
                            (Some(op), Some(url)) => {
                                let ghost before = operations@;
                                operations.push((op, Operation { url }));
                                proof {
                                    assert(entries_view(operations@) =~= entries_view(before)
                                        + seq![declared_operation(rest[0])->Some_0]);
                                }
                            },
                            _ => {},
                        }
                    }
                },
            }
            i += 1;
        }
        proof {
            assert(ev.skip(i as int) =~= Seq::<Event>::empty());
            assert(entries_view(operations@) =~= entries_view(operations@) + Seq::<
                (Seq<char>, Seq<char>),
            >::empty());
        }
        Wsdl { operations }
    }

    /// Read the operations out of a service description document.
    pub fn parse(doc: &str) -> (r: Wsdl)
        ensures
            entries_view(r.operations@) == scan(document_events(doc@)),
    {
        let events = pull_events(doc);
        Wsdl::from_events(&events)
    }

    /// The operation recorded under `name`.
    pub fn get(&self, name: &str) -> (r: Option<&Operation>)
        ensures
            match r {
                Some(op) => self@.contains_key(name@) && self@[name@] == op.url@,
                None => !self@.contains_key(name@),
            },
    {
        let ghost entries = entries_view(self.operations@);
        let mut i: usize = self.operations.len();
        proof {
            assert(entries.subrange(0, i as int) =~= entries);
        }
        while i > 0
            invariant
                entries == entries_view(self.operations@),
                i <= self.operations@.len(),
                lookup(entries, name@) == lookup(entries.subrange(0, i as int), name@),
            decreases i,
        {
            let ghost prefix = entries.subrange(0, i as int);
            i -= 1;
            proof {
                assert(prefix.drop_last() =~= entries.subrange(0, i as int));
            }
            if str_eq(self.operations[i].0.as_str(), name) {
                return Some(&self.operations[i].1);
            }
        }
        None
    }
}

/// Fetch the service description at `url` through `get` and read its operations.
/// A transport failure is passed on as it came.
pub fn fetch<G: Fn(&str) -> Result<String, String>>(url: &str, get: &G) -> (r: Result<
    Wsdl,
    String,
>)
    requires
        forall|u: &str| get.requires((u,)),
    ensures
        match r {
            Ok(w) => exists|doc: String|
                get.ensures((url,), Ok::<String, String>(doc)) && entries_view(w.operations@)
                    == scan(document_events(doc@)),
            Err(e) => get.ensures((url,), Err::<String, String>(e)),
        },
{
    match get(url) {
        Ok(doc) => Ok(Wsdl::parse(doc.as_str())),
        Err(e) => Err(e),
    }
}

} // verus!
