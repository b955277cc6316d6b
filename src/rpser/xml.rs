//! The element tree: construction, path queries and typed text extraction.

use vstd::prelude::*;

use crate::text::{decimal_value, is_suffix, parse_i32, parse_i64, str_ends_with, str_eq};
use crate::time::{parse_rfc3339, rfc3339_instant, Timestamp};
use xmltree::Element as XmlTree;

verus! {

/// Mathematical model of an element tree.
pub ghost struct Tree {
    pub name: Seq<char>,
    pub attributes: Map<Seq<char>, Seq<char>>,
    pub children: Seq<Tree>,
    pub text: Option<Seq<char>>,
}

/// What went wrong in a tree query, as a value of the model.
pub ghost enum Fault {
    NotFoundAtPath(Seq<Seq<char>>),
    ExpectedNotEmpty(Seq<char>),
    ExpectedElementWithType(Seq<char>, Seq<char>, Option<Seq<char>>),
    ParseInt(Seq<char>),
    ParseBool(Seq<char>),
    ParseDateTime(Seq<char>),
}

/// A node of an ordered, labelled tree.
///
/// Attributes are kept as entries; when two entries share a key, the later one counts.
#[derive(Debug)]
pub struct Element {
    pub name: String,
    pub attributes: Vec<(String, String)>,
    pub children: Vec<Element>,
    pub text: Option<String>,
}

/// Tree query error.
#[derive(Debug, PartialEq)]
pub enum Error {
    /// Element was expected at path, but was not found.
    NotFoundAtPath { path: Vec<String> },
    /// Expected element to contain children.
    ExpectedNotEmpty { parent: String },
    /// Expected to find element with specified type.
    ExpectedElementWithType { name: String, expected_type: String, given: Option<String> },
    /// The text of an integer element is not a number in range.
    ParseIntError { name: String, inner: core::num::ParseIntError },
    /// The text of a boolean element is neither `true` nor `false`.
    ParseBoolError { name: String, text: String },
    /// The text of a date-time element is not an RFC 3339 timestamp.
    ParseDateTimeError { name: String, cause: chrono::format::ParseError },
}

#[verifier::external_type_specification]
#[verifier::external_body]
pub struct ExChronoParseError(chrono::format::ParseError);

/// The value bound to `key` by the latest entry with that key.
pub open spec fn attr_lookup(entries: Seq<(String, String)>, key: Seq<char>) -> Option<Seq<char>>
    decreases entries.len(),
{
    if entries.len() == 0 {
        None
    } else if entries.last().0@ == key {
        Some(entries.last().1@)
    } else {
        attr_lookup(entries.drop_last(), key)
    }
}

pub open spec fn attr_map(entries: Seq<(String, String)>) -> Map<Seq<char>, Seq<char>> {
    Map::new(
        |k: Seq<char>| attr_lookup(entries, k) is Some,
        |k: Seq<char>| attr_lookup(entries, k)->Some_0,
    )
}

pub open spec fn opt_view(o: Option<String>) -> Option<Seq<char>> {
    match o {
        Some(s) => Some(s@),
        None => None,
    }
}

pub open spec fn tree_of(e: Element) -> Tree
    decreases e,
{
    Tree {
        name: e.name@,
        attributes: attr_map(e.attributes@),
        children: Seq::new(
            e.children@.len(),
            |i: int|
                if 0 <= i < e.children@.len() {
                    tree_of(e.children@[i])
                } else {
                    arbitrary()
                },
        ),
        text: opt_view(e.text),
    }
}

impl View for Element {
    type V = Tree;

    open spec fn view(&self) -> Tree {
        tree_of(*self)
    }
}

pub open spec fn trees_of(s: Seq<Element>) -> Seq<Tree> {
    s.map_values(|e: Element| e@)
}

pub open spec fn path_view(p: Seq<&str>) -> Seq<Seq<char>> {
    p.map_values(|s: &str| s@)
}

pub open spec fn strings_view(p: Seq<String>) -> Seq<Seq<char>> {
    p.map_values(|s: String| s@)
}

impl View for Error {
    type V = Fault;

    open spec fn view(&self) -> Fault {
        match self {
            Error::NotFoundAtPath { path } => Fault::NotFoundAtPath(strings_view(path@)),
            Error::ExpectedNotEmpty { parent } => Fault::ExpectedNotEmpty(parent@),
            Error::ExpectedElementWithType { name, expected_type, given } => {
                Fault::ExpectedElementWithType(name@, expected_type@, opt_view(*given))
            },
            Error::ParseIntError { name, .. } => Fault::ParseInt(name@),
            Error::ParseBoolError { name, .. } => Fault::ParseBool(name@),
            Error::ParseDateTimeError { name, .. } => Fault::ParseDateTime(name@),
        }
    }
}

/// A result of the library, with its error seen in the model.
pub open spec fn outcome<T>(r: Result<T, Error>) -> Result<T, Fault> {
    match r {
        Ok(v) => Ok(v),
        Err(e) => Err(e@),
    }
}

/// A tree result, seen in the model.
pub open spec fn tree_outcome(r: Result<Element, Error>) -> Result<Tree, Fault> {
    match r {
        Ok(e) => Ok(e@),
        Err(e) => Err(e@),
    }
}

/// `i` is the position of the first child named `name`.
pub open spec fn is_first_named(children: Seq<Tree>, name: Seq<char>, i: int) -> bool {
    &&& 0 <= i < children.len()
    &&& children[i].name == name
    &&& forall|j: int| 0 <= j < i ==> (#[trigger] children[j]).name != name
}

pub open spec fn has_child_named(children: Seq<Tree>, name: Seq<char>) -> bool {
    exists|i: int| is_first_named(children, name, i)
}

/// Follows `path` from `t`, taking the first child of the wanted name at each step.
/// On failure, the error is the part of the path matched so far plus the failing name.
pub open spec fn path_of(t: Tree, path: Seq<Seq<char>>) -> Result<Tree, Seq<Seq<char>>>
    decreases path.len(),
{
    if path.len() == 0 {
        Ok(t)
    } else if has_child_named(t.children, path[0]) {
        let i = choose|i: int| is_first_named(t.children, path[0], i);
        match path_of(t.children[i], path.skip(1)) {
            Ok(d) => Ok(d),
            Err(p) => Err(seq![path[0]] + p),
        }
    } else {
        Err(seq![path[0]])
    }
}

/// `path_of`, with the failure as a fault.
pub open spec fn located(t: Tree, path: Seq<Seq<char>>) -> Result<Tree, Fault> {
    match path_of(t, path) {
        Ok(d) => Ok(d),
        Err(p) => Err(Fault::NotFoundAtPath(p)),
    }
}

pub open spec fn type_key() -> Seq<char> {
    seq!['t', 'y', 'p', 'e']
}

/// The declared type of a tree: its `type` attribute.
pub open spec fn declared_type(t: Tree) -> Option<Seq<char>> {
    if t.attributes.contains_key(type_key()) {
        Some(t.attributes[type_key()])
    } else {
        None
    }
}

/// The text of `t` when its declared type ends with `suffix`.
pub open spec fn typed_text(t: Tree, suffix: Seq<char>) -> Option<Seq<char>> {
    match (declared_type(t), t.text) {
        (Some(ty), Some(text)) => if is_suffix(ty, suffix) {
            Some(text)
        } else {
            None
        },
        _ => None,
    }
}

pub open spec fn type_fault(t: Tree, expected: Seq<char>) -> Fault {
    Fault::ExpectedElementWithType(t.name, expected, declared_type(t))
}

pub open spec fn long_of(t: Tree) -> Result<i64, Fault> {
    match typed_text(t, seq!['l', 'o', 'n', 'g']) {
        None => Err(type_fault(t, seq!['*', ':', 'l', 'o', 'n', 'g'])),
        Some(x) => match decimal_value(x) {
            Some(v) => if i64::MIN <= v <= i64::MAX {
                Ok(v as i64)
            } else {
                Err(Fault::ParseInt(t.name))
            },
            None => Err(Fault::ParseInt(t.name)),
        },
    }
}

pub open spec fn int_of(t: Tree) -> Result<i32, Fault> {
    match typed_text(t, seq!['i', 'n', 't']) {
        None => Err(type_fault(t, seq!['*', ':', 'i', 'n', 't'])),
        Some(x) => match decimal_value(x) {
            Some(v) => if i32::MIN <= v <= i32::MAX {
                Ok(v as i32)
            } else {
                Err(Fault::ParseInt(t.name))
            },
            None => Err(Fault::ParseInt(t.name)),
        },
    }
}

pub open spec fn string_of(t: Tree) -> Result<Seq<char>, Fault> {
    match typed_text(t, seq!['s', 't', 'r', 'i', 'n', 'g']) {
        None => Err(type_fault(t, seq!['*', ':', 's', 't', 'r', 'i', 'n', 'g'])),
        Some(x) => Ok(x),
    }
}

pub open spec fn boolean_of(t: Tree) -> Result<bool, Fault> {
    match typed_text(t, seq!['b', 'o', 'o', 'l', 'e', 'a', 'n']) {
        None => Err(type_fault(t, seq!['*', ':', 'b', 'o', 'o', 'l', 'e', 'a', 'n'])),
        Some(x) => if x == seq!['t', 'r', 'u', 'e'] {
            Ok(true)
        } else if x == seq!['f', 'a', 'l', 's', 'e'] {
            Ok(false)
        } else {
            Err(Fault::ParseBool(t.name))
        },
    }
}

pub open spec fn datetime_of(t: Tree) -> Result<Timestamp, Fault> {
    match typed_text(t, seq!['d', 'a', 't', 'e', 'T', 'i', 'm', 'e']) {
        None => Err(type_fault(t, seq!['*', ':', 'd', 'a', 't', 'e', 'T', 'i', 'm', 'e'])),
        Some(x) => match rfc3339_instant(x) {
            Some(ts) => Ok(Timestamp { seconds: ts.0, nanos: ts.1 }),
            None => Err(Fault::ParseDateTime(t.name)),
        },
    }
}

/// The value bound to `key` by the latest entry with that key.
pub fn entry_value(entries: &Vec<(String, String)>, key: &str) -> (r: Option<String>)
    ensures
        opt_view(r) == attr_lookup(entries@, key@),
{
    let mut i: usize = entries.len();
    proof {
        assert(entries@.subrange(0, i as int) =~= entries@);
    }
    while i > 0
        invariant
            i <= entries@.len(),
            attr_lookup(entries@, key@) == attr_lookup(entries@.subrange(0, i as int), key@),
        decreases i,
    {
        let ghost prefix = entries@.subrange(0, i as int);
        i -= 1;
        proof {
            assert(prefix.drop_last() =~= entries@.subrange(0, i as int));
        }
        if str_eq(entries[i].0.as_str(), key) {
            return Some(entries[i].1.clone());
        }
    }
    None
}

proof fn lemma_no_entry(entries: Seq<(String, String)>, key: Seq<char>)
    requires
        forall|m: int| 0 <= m < entries.len() ==> (#[trigger] entries[m]).0@ != key,
    ensures
        attr_lookup(entries, key) is None,
    decreases entries.len(),
{
    if entries.len() > 0 {
        assert(entries.last() == entries[entries.len() - 1]);
        lemma_no_entry(entries.drop_last(), key);
    }
}

/// Replacing the latest entry of a key binds the key to the new value and leaves the
/// other keys as they were.
proof fn lemma_replace_last_entry(entries: Seq<(String, String)>, j: int, entry: (String, String))
    requires
        0 <= j < entries.len(),
        entries[j].0@ == entry.0@,
        forall|m: int| j < m < entries.len() ==> (#[trigger] entries[m]).0@ != entry.0@,
    ensures
        forall|k: Seq<char>|
            #![trigger attr_lookup(entries.update(j, entry), k)]
            attr_lookup(entries.update(j, entry), k) == if k == entry.0@ {
                Some(entry.1@)
            } else {
                attr_lookup(entries, k)
            },
    decreases entries.len(),
{
    let updated = entries.update(j, entry);
    assert(entries.last() == entries[entries.len() - 1]);
    assert(updated.last() == updated[updated.len() - 1]);
    if j == entries.len() - 1 {
        assert(updated.drop_last() =~= entries.drop_last());
        assert forall|k: Seq<char>|
            #![trigger attr_lookup(updated, k)]
            attr_lookup(updated, k) == if k == entry.0@ {
                Some(entry.1@)
            } else {
                attr_lookup(entries, k)
            } by {}
    } else {
        assert(updated.drop_last() =~= entries.drop_last().update(j, entry));
        lemma_replace_last_entry(entries.drop_last(), j, entry);
        assert forall|k: Seq<char>|
            #![trigger attr_lookup(updated, k)]
            attr_lookup(updated, k) == if k == entry.0@ {
                Some(entry.1@)
            } else {
                attr_lookup(entries, k)
            } by {
            assert(attr_lookup(updated.drop_last(), k) == attr_lookup(
                entries.drop_last().update(j, entry),
                k,
            ));
        }
    }
}

fn path_from(path: &[&str], k: usize) -> (r: Vec<String>)
    requires
        k < path@.len(),
    ensures
        strings_view(r@) == seq![path@[k as int]@],
{
    let mut p = Vec::new();
    p.push(path[k].to_owned());
    proof {
        assert(strings_view(p@) =~= seq![path@[k as int]@]);
    }
    p
}

fn prepend_segment(p: Vec<String>, seg: &str) -> (r: Vec<String>)
    ensures
        strings_view(r@) == seq![seg@] + strings_view(p@),
{
    let mut p = p;
    let ghost old_p = p@;
    p.insert(0, seg.to_owned());
    proof {
        assert(strings_view(p@) =~= seq![seg@] + strings_view(old_p));
    }
    p
}

proof fn lemma_first_named_unique(children: Seq<Tree>, name: Seq<char>, i: int)
    requires
        is_first_named(children, name, i),
    ensures
        has_child_named(children, name),
        (choose|j: int| is_first_named(children, name, j)) == i,
{
    let j = choose|j: int| is_first_named(children, name, j);
    assert(is_first_named(children, name, j));
    if j < i {
        assert(children[j].name != name);
    } else if i < j {
        assert(children[i].name != name);
    }
}

proof fn lemma_path_step(path: Seq<&str>, k: int)
    requires
        0 <= k < path.len(),
    ensures
        path_view(path).skip(k).len() > 0,
        path_view(path).skip(k)[0] == path[k]@,
        path_view(path).skip(k).skip(1) == path_view(path).skip(k + 1),
{
    assert(path_view(path).skip(k).skip(1) =~= path_view(path).skip(k + 1));
}

impl Element {
    /// Create an empty node.
    pub fn node(name: &str) -> (r: Element)
        ensures
            r@.name == name@,
            r@.attributes == Map::<Seq<char>, Seq<char>>::empty(),
            r@.children == Seq::<Tree>::empty(),
            r@.text is None,
    {
        let r = Element {
            name: name.to_owned(),
            attributes: Vec::new(),
            children: Vec::new(),
            text: None,
        };
        proof {
            assert(r@.attributes =~= Map::<Seq<char>, Seq<char>>::empty());
            assert(r@.children =~= Seq::<Tree>::empty());
        }
        r
    }

    /// A deep copy of the node and all its descendants.
    pub fn cloned(&self) -> (r: Element)
        ensures
            r@ == self@,
        decreases self,
    {
        let mut attributes: Vec<(String, String)> = Vec::new();
        let mut i: usize = 0;
        while i < self.attributes.len()
            invariant
                i <= self.attributes@.len(),
                attributes@ == self.attributes@.subrange(0, i as int),
            decreases self.attributes@.len() - i,
        {
            let entry = (self.attributes[i].0.clone(), self.attributes[i].1.clone());
            attributes.push(entry);
            i += 1;
            proof {
                assert(attributes@ =~= self.attributes@.subrange(0, i as int));
            }
        }
        let mut children: Vec<Element> = Vec::new();
        let mut j: usize = 0;
        while j < self.children.len()
            invariant
                j <= self.children@.len(),
                children@.len() == j,
                forall|m: int| 0 <= m < j ==> (#[trigger] children@[m])@ == self.children@[m]@,
            decreases self.children@.len() - j,
        {
            let c = self.children[j].cloned();
            children.push(c);
            j += 1;
        }
        let text = match &self.text {
            Some(t) => Some(t.clone()),
            None => None,
        };
        let r = Element { name: self.name.clone(), attributes, children, text };
        proof {
            assert(attributes@ =~= self.attributes@);
            assert(r@.children =~= self@.children);
            assert(r@.attributes =~= self@.attributes);
        }
        r
    }

    /// Replace the node's name.
    pub fn with_name(self, name: &str) -> (r: Element)
        ensures
            r@ == (Tree { name: name@, ..self@ }),
    {
        let ghost old = self;
        let mut s = self;
        s.name = name.to_owned();
        proof {
            assert(s@.children =~= old@.children);
        }
        s
    }

    /// Set the node's text.
    pub fn with_text(self, text: &str) -> (r: Element)
        ensures
            r@ == (Tree { text: Some(text@), ..self@ }),
    {
        let ghost old = self;
        let mut s = self;
        s.text = Some(text.to_owned());
        proof {
            assert(s@.children =~= old@.children);
        }
        s
    }

    /// Add an attribute; a value already bound to `key` is replaced.
    pub fn with_attr(self, key: &str, value: &str) -> (r: Element)
        ensures
            r@ == (Tree { attributes: self@.attributes.insert(key@, value@), ..self@ }),
    {
        let ghost old = self;
        let mut s = self;
        let entry = (key.to_owned(), value.to_owned());
        let mut i: usize = s.attributes.len();
        while i > 0
            invariant
                s == old,
                old == self,
                entry.0@ == key@,
                entry.1@ == value@,
                i <= s.attributes@.len(),
                forall|m: int| i <= m < s.attributes@.len() ==> (#[trigger] s.attributes@[m]).0@ != key@,
            decreases i,
        {
            i -= 1;
            if str_eq(s.attributes[i].0.as_str(), key) {
                proof {
                    lemma_replace_last_entry(old.attributes@, i as int, entry);
                }
                s.attributes.set(i, entry);
                proof {
                    assert(s@.attributes =~= old@.attributes.insert(key@, value@));
                    assert(s@.children =~= old@.children);
                }
                return s;
            }
        }
        proof {
            lemma_no_entry(old.attributes@, key@);
        }
        s.attributes.push(entry);
        proof {
            assert(s.attributes@.drop_last() =~= old.attributes@);
            assert(s@.attributes =~= old@.attributes.insert(key@, value@));
            assert(s@.children =~= old@.children);
        }
        s
    }

    /// Append a child.
    pub fn with_child(self, child: Element) -> (r: Element)
        ensures
            r@ == (Tree { children: self@.children.push(child@), ..self@ }),
    {
        let ghost old = self;
        let mut s = self;
        s.children.push(child);
        proof {
            assert(s@.children =~= old@.children.push(child@));
        }
        s
    }

    /// Append children, in order.
    pub fn with_children(self, children: Vec<Element>) -> (r: Element)
        ensures
            r@ == (Tree { children: self@.children + trees_of(children@), ..self@ }),
    {
        let ghost old = self;
        let ghost added = children@;
        let mut s = self;
        let mut children = children;
        s.children.append(&mut children);
        proof {
            assert(s@.children =~= old@.children + trees_of(added));
        }
        s
    }

    /// Append deep copies of the given children, in order.
    pub fn with_children_from_iter(self, children: &[Element]) -> (r: Element)
        ensures
            r@ == (Tree { children: self@.children + trees_of(children@), ..self@ }),
    {
        let ghost old = self;
        let mut s = self;
        let mut i: usize = 0;
        while i < children.len()
            invariant
                i <= children@.len(),
                s.name == old.name,
                s.attributes == old.attributes,
                s.text == old.text,
                s@.children == old@.children + trees_of(children@.subrange(0, i as int)),
            decreases children@.len() - i,
        {
            let c = children[i].cloned();
            let ghost before = s;
            s.children.push(c);
            i += 1;
            proof {
                assert(s.children@ == before.children@.push(c));
                assert(s@.children =~= before@.children.push(c@));
                assert(trees_of(children@.subrange(0, i as int)) =~= trees_of(
                    children@.subrange(0, i - 1),
                ).push(children@[i - 1]@));
                assert(s@.children =~= old@.children + trees_of(children@.subrange(0, i as int)));
            }
        }
        proof {
            assert(children@.subrange(0, children@.len() as int) =~= children@);
        }
        s
    }

    fn descend_at(self, path: &[&str], k: usize) -> (r: Result<Element, Vec<String>>)
        requires
            k <= path@.len(),
        ensures
            match r {
                Ok(e) => path_of(self@, path_view(path@).skip(k as int)) == Ok::<
                    Tree,
                    Seq<Seq<char>>,
                >(e@),
                Err(p) => path_of(self@, path_view(path@).skip(k as int)) == Err::<
                    Tree,
                    Seq<Seq<char>>,
                >(strings_view(p@)),
            },
        decreases path@.len() - k,
    {
        let ghost t = self@;
        if k == path.len() {
            proof {
                assert(path_view(path@).skip(k as int) =~= Seq::<Seq<char>>::empty());
            }
            return Ok(self);
        }
        assert(k < path@.len());
        proof {
            lemma_path_step(path@, k as int);
        }
        let seg = path[k];
        let n = path.len();
        let ghost orig = self.children@;
        let mut children = self.children;
        let mut i: usize = 0;
        while i < children.len()
            invariant
                k < n,
                n == path@.len(),
                seg == path@[k as int],
                t == self@,
                children@ == orig,
                orig.len() == t.children.len(),
                forall|m: int| 0 <= m < orig.len() ==> t.children[m] == (#[trigger] orig[m])@,
                i <= children@.len(),
                forall|m: int| 0 <= m < i ==> (#[trigger] t.children[m]).name != seg@,
            decreases children@.len() - i,
        {
            if str_eq(children[i].name.as_str(), seg) {
                proof {
                    assert(is_first_named(t.children, seg@, i as int));
                    lemma_first_named_unique(t.children, seg@, i as int);
                    lemma_path_step(path@, k as int);
                }
                let child = children.remove(i);
                assert(child == orig[i as int]);
                assert(child@ == t.children[i as int]);
                match child.descend_at(path, k + 1) {
                    Ok(e) => {
                        return Ok(e);
                    },
                    Err(p) => {
                        return Err(prepend_segment(p, seg));
                    },
                }
            }
            i += 1;
        }
        proof {
            if has_child_named(t.children, seg@) {
                let j = choose|j: int| is_first_named(t.children, seg@, j);
                assert(t.children[j].name == seg@);
            }
        }
        Err(path_from(path, k))
    }

    fn get_at(&self, path: &[&str], k: usize) -> (r: Result<Element, Vec<String>>)
        requires
            k <= path@.len(),
        ensures
            match r {
                Ok(e) => path_of(self@, path_view(path@).skip(k as int)) == Ok::<
                    Tree,
                    Seq<Seq<char>>,
                >(e@),
                Err(p) => path_of(self@, path_view(path@).skip(k as int)) == Err::<
                    Tree,
                    Seq<Seq<char>>,
                >(strings_view(p@)),
            },
        decreases path@.len() - k,
    {
        let ghost t = self@;
        if k == path.len() {
            proof {
                assert(path_view(path@).skip(k as int) =~= Seq::<Seq<char>>::empty());
            }
            return Ok(self.cloned());
        }
        assert(k < path@.len());
        proof {
            lemma_path_step(path@, k as int);
        }
        let seg = path[k];
        let n = path.len();
        let mut i: usize = 0;
        while i < self.children.len()
            invariant
                k < n,
                n == path@.len(),
                seg == path@[k as int],
                t == self@,
                i <= self.children@.len(),
                forall|m: int| 0 <= m < i ==> (#[trigger] t.children[m]).name != seg@,
            decreases self.children@.len() - i,
        {
            assert(t.children[i as int] == self.children@[i as int]@);
            if str_eq(self.children[i].name.as_str(), seg) {
                proof {
                    assert(is_first_named(t.children, seg@, i as int));
                    lemma_first_named_unique(t.children, seg@, i as int);
                    lemma_path_step(path@, k as int);
                }
                match self.children[i].get_at(path, k + 1) {
                    Ok(e) => {
                        return Ok(e);
                    },
                    Err(p) => {
                        return Err(prepend_segment(p, seg));
                    },
                }
            }
            i += 1;
        }
        proof {
            if has_child_named(t.children, seg@) {
                let j = choose|j: int| is_first_named(t.children, seg@, j);
                assert(t.children[j].name == seg@);
            }
        }
        Err(path_from(path, k))
    }

    /// Descend into the element at `path`, destroying the parent.
    pub fn descend(self, path: &[&str]) -> (r: Result<Element, Error>)
        ensures
            tree_outcome(r) == located(self@, path_view(path@)),
    {
        let ghost t = self@;
        proof {
            assert(path_view(path@).skip(0) =~= path_view(path@));
        }
        match self.descend_at(path, 0) {
            Ok(e) => Ok(e),
            Err(p) => Err(Error::NotFoundAtPath { path: p }),
        }
    }

    /// Descend into the first child, destroying the parent.
    pub fn descend_first(self) -> (r: Result<Element, Error>)
        ensures
            self@.children.len() == 0 ==> tree_outcome(r) == Err::<Tree, Fault>(
                Fault::ExpectedNotEmpty(self@.name),
            ),
            self@.children.len() > 0 ==> tree_outcome(r) == Ok::<Tree, Fault>(self@.children[0]),
    {
        let mut s = self;
        if s.children.len() == 0 {
            Err(Error::ExpectedNotEmpty { parent: s.name })
        } else {
            Ok(s.children.remove(0))
        }
    }

    /// A deep copy of the element at `path`; the tree itself is left as it was.
    pub fn get_at_path(&self, path: &[&str]) -> (r: Result<Element, Error>)
        ensures
            tree_outcome(r) == located(self@, path_view(path@)),
    {
        proof {
            assert(path_view(path@).skip(0) =~= path_view(path@));
        }
        match self.get_at(path, 0) {
            Ok(e) => Ok(e),
            Err(p) => Err(Error::NotFoundAtPath { path: p }),
        }
    }

    /// The value of the attribute `key`.
    pub fn attribute(&self, key: &str) -> (r: Option<String>)
        ensures
            opt_view(r) == attr_lookup(self.attributes@, key@),
            opt_view(r) == (if self@.attributes.contains_key(key@) {
                Some(self@.attributes[key@])
            } else {
                None
            }),
    {
        entry_value(&self.attributes, key)
    }

    /// The text, when the declared type ends with `suffix`.
    fn typed_text(&self, suffix: &str, expected: &str) -> (r: Result<String, Error>)
        ensures
            match r {
                Ok(x) => typed_text(self@, suffix@) == Some(x@),
                Err(e) => typed_text(self@, suffix@) is None && e@ == type_fault(self@, expected@),
            },
    {
        let ty = self.attribute("type");
        proof {
            reveal_strlit("type");
            assert("type"@ =~= type_key());
        }
        match (ty, &self.text) {
            (Some(value), Some(text)) => {
                if str_ends_with(value.as_str(), suffix) {
                    return Ok(text.clone());
                }
                Err(
                    Error::ExpectedElementWithType {
                        name: self.name.clone(),
                        expected_type: expected.to_owned(),
                        given: Some(value),
                    },
                )
            },
            (other, _) => Err(
                Error::ExpectedElementWithType {
                    name: self.name.clone(),
                    expected_type: expected.to_owned(),
                    given: other,
                },
            ),
        }
    }

    /// Extract the value of `long` type from the text.
    pub fn as_long(&self) -> (r: Result<i64, Error>)
        ensures
            outcome(r) == long_of(self@),
    {
        proof {
            reveal_strlit("long");
            reveal_strlit("*:long");
            assert("long"@ =~= seq!['l', 'o', 'n', 'g']);
            assert("*:long"@ =~= seq!['*', ':', 'l', 'o', 'n', 'g']);
        }
        let text = match self.typed_text("long", "*:long") {
            Ok(x) => x,
            Err(e) => return Err(e),
        };
        match parse_i64(text.as_str()) {
            Ok(v) => Ok(v),
            Err(inner) => Err(Error::ParseIntError { name: self.name.clone(), inner }),
        }
    }

    /// Extract the value of `int` type from the text.
    pub fn as_int(&self) -> (r: Result<i32, Error>)
        ensures
            outcome(r) == int_of(self@),
    {
        proof {
            reveal_strlit("int");
            reveal_strlit("*:int");
            assert("int"@ =~= seq!['i', 'n', 't']);
            assert("*:int"@ =~= seq!['*', ':', 'i', 'n', 't']);
        }
        let text = match self.typed_text("int", "*:int") {
            Ok(x) => x,
            Err(e) => return Err(e),
        };
        match parse_i32(text.as_str()) {
            Ok(v) => Ok(v),
            Err(inner) => Err(Error::ParseIntError { name: self.name.clone(), inner }),
        }
    }

    /// Extract the value of `string` type from the text.
    pub fn as_string(&self) -> (r: Result<String, Error>)
        ensures
            match r {
                Ok(x) => string_of(self@) == Ok::<Seq<char>, Fault>(x@),
                Err(e) => string_of(self@) == Err::<Seq<char>, Fault>(e@),
            },
    {
        proof {
            reveal_strlit("string");
            reveal_strlit("*:string");
            assert("string"@ =~= seq!['s', 't', 'r', 'i', 'n', 'g']);
            assert("*:string"@ =~= seq!['*', ':', 's', 't', 'r', 'i', 'n', 'g']);
        }
        self.typed_text("string", "*:string")
    }

    /// Extract the value of `boolean` type from the text: `true` or `false`.
    pub fn as_boolean(&self) -> (r: Result<bool, Error>)
        ensures
            outcome(r) == boolean_of(self@),
    {
        proof {
            reveal_strlit("boolean");
            reveal_strlit("*:boolean");
            reveal_strlit("true");
            reveal_strlit("false");
            assert("boolean"@ =~= seq!['b', 'o', 'o', 'l', 'e', 'a', 'n']);
            assert("*:boolean"@ =~= seq!['*', ':', 'b', 'o', 'o', 'l', 'e', 'a', 'n']);
            assert("true"@ =~= seq!['t', 'r', 'u', 'e']);
            assert("false"@ =~= seq!['f', 'a', 'l', 's', 'e']);
        }
        let text = match self.typed_text("boolean", "*:boolean") {
            Ok(x) => x,
            Err(e) => return Err(e),
        };
        if str_eq(text.as_str(), "true") {
            Ok(true)
        } else if str_eq(text.as_str(), "false") {
            Ok(false)
        } else {
            Err(Error::ParseBoolError { name: self.name.clone(), text })
        }
    }

    /// Extract the value of `dateTime` type from the text.
    pub fn as_datetime(&self) -> (r: Result<Timestamp, Error>)
        ensures
            outcome(r) == datetime_of(self@),
    {
        proof {
            reveal_strlit("dateTime");
            reveal_strlit("*:dateTime");
            assert("dateTime"@ =~= seq!['d', 'a', 't', 'e', 'T', 'i', 'm', 'e']);
            assert("*:dateTime"@ =~= seq!['*', ':', 'd', 'a', 't', 'e', 'T', 'i', 'm', 'e']);
        }
        let text = match self.typed_text("dateTime", "*:dateTime") {
            Ok(x) => x,
            Err(e) => return Err(e),
        };
        match parse_rfc3339(text.as_str()) {
            Ok(ts) => Ok(ts),
            Err(inner) => Err(Error::ParseDateTimeError { name: self.name.clone(), cause: inner }),
        }
    }
}

/// Following a path in two stages gives what following it at once gives: a query for
/// `first` that succeeds, then a query for `rest` on the element it found, agrees with a
/// query for `first + rest`; a failure in the second stage reports the whole path so far.
/// So a copy taken by `get_at_path` can be descended into further with the same outcome.
pub proof fn lemma_path_stages(t: Tree, first: Seq<Seq<char>>, rest: Seq<Seq<char>>)
    requires
        path_of(t, first) is Ok,
    ensures
        path_of(t, first + rest) == match path_of(path_of(t, first)->Ok_0, rest) {
            Ok(d) => Ok::<Tree, Seq<Seq<char>>>(d),
            Err(p) => Err::<Tree, Seq<Seq<char>>>(first + p),
        },
    decreases first.len(),
{
    if first.len() == 0 {
        assert(first + rest =~= rest);
    } else {
        let whole = first + rest;
        assert(whole[0] == first[0]);
        assert(whole.skip(1) =~= first.skip(1) + rest);
        let i = choose|i: int| is_first_named(t.children, first[0], i);
        lemma_path_stages(t.children[i], first.skip(1), rest);
        match path_of(path_of(t, first)->Ok_0, rest) {
            Ok(d) => {},
            Err(p) => {
                assert(seq![first[0]] + (first.skip(1) + p) =~= first + p);
            },
        }
    }
}

/// Looking up `[a, b]` where no child is named `a` fails with the path `[a]`.
pub proof fn lemma_missing_first_segment(t: Tree, a: Seq<char>, b: Seq<char>)
    requires
        !has_child_named(t.children, a),
    ensures
        located(t, seq![a, b]) == Err::<Tree, Fault>(Fault::NotFoundAtPath(seq![a])),
{
    assert(seq![a, b][0] == a);
}

/// Looking up `[a, b]` where the first child named `a` has no child named `b` fails with
/// the path `[a, b]`.
pub proof fn lemma_missing_second_segment(t: Tree, a: Seq<char>, b: Seq<char>)
    requires
        has_child_named(t.children, a),
        forall|i: int|
            is_first_named(t.children, a, i) ==> !has_child_named(t.children[i].children, b),
    ensures
        located(t, seq![a, b]) == Err::<Tree, Fault>(Fault::NotFoundAtPath(seq![a, b])),
{
    let path = seq![a, b];
    assert(path[0] == a);
    assert(path.skip(1) =~= seq![b]);
    let i = choose|i: int| is_first_named(t.children, a, i);
    assert(seq![b][0] == b);
    assert(!has_child_named(t.children[i].children, b));
    assert(path_of(t.children[i], seq![b]) == Err::<Tree, Seq<Seq<char>>>(seq![b]));
    assert(seq![a] + seq![b] =~= path);
    assert(path_of(t, path) == Err::<Tree, Seq<Seq<char>>>(seq![a] + seq![b]));
}

/// An element whose declared type is a string type is never read as a `long`, whatever
/// its text: the failure names the element, the expected type and the type found.
pub proof fn lemma_long_needs_long_type(t: Tree)
    requires
        declared_type(t) == Some("xsd:string"@),
    ensures
        long_of(t) == Err::<i64, Fault>(
            Fault::ExpectedElementWithType(t.name, "*:long"@, Some("xsd:string"@)),
        ),
{
    reveal_strlit("xsd:string");
    reveal_strlit("*:long");
    let ty = "xsd:string"@;
    let suffix = seq!['l', 'o', 'n', 'g'];
    assert(ty.subrange(ty.len() - suffix.len(), ty.len() as int)[0] == 'r');
    assert(!is_suffix(ty, suffix));
    assert("*:long"@ =~= seq!['*', ':', 'l', 'o', 'n', 'g']);
}

#[verifier::external_type_specification]
#[verifier::external_body]
pub struct ExXmlTree(XmlTree);

#[verifier::external_type_specification]
#[verifier::external_body]
pub struct ExXmlTreeParseError(xmltree::ParseError);

/// The XML document that xmltree writes for a tree.
pub uninterp spec fn xml_document(t: Tree) -> Seq<char>;

/// The tree that xmltree reads from a document, if the text is well-formed XML.
pub uninterp spec fn parsed_tree(text: Seq<char>) -> Option<Tree>;

impl Element {
    /// The same tree as an `xmltree::Element`, built through `xmltree::Element::new` and
    /// its public fields: the text, if any, comes before the children.
    #[verifier::external_body]
    fn to_xml_tree(&self) -> XmlTree {
        let mut x = XmlTree::new(&self.name);
        for (k, v) in self.attributes.iter() {
            x.attributes.insert(k.clone(), v.clone());
        }
        if let Some(t) = &self.text {
            x.children.push(xmltree::XMLNode::Text(t.clone()));
        }
        for c in self.children.iter() {
            x.children.push(xmltree::XMLNode::Element(c.to_xml_tree()));
        }
        x
    }

    /// The same tree read back from an `xmltree::Element`: its element children, and its
    /// text as `xmltree::Element::get_text` joins it.
    #[verifier::external_body]
    fn from_xml_tree(x: &XmlTree) -> Element {
        let mut children = Vec::new();
        for node in x.children.iter() {
            if let xmltree::XMLNode::Element(c) = node {
                children.push(Element::from_xml_tree(c));
            }
        }
        let attributes = x.attributes.iter().map(|(k, v)| (k.clone(), v.clone())).collect();
        let text = x.get_text().map(|t| t.into_owned());
        Element { name: x.name.clone(), attributes, children, text }
    }

    /// Serialize to an XML document (with its declaration).
    ///
    /// Relies on `xmltree::Element::write`, with xmltree's attributes kept sorted by key
    /// (a later insert replacing an earlier one): the document depends on the tree alone.
    #[verifier::external_body]
    pub fn to_string(&self) -> (r: String)
        ensures
            r@ == xml_document(self@),
    {
        let mut out: Vec<u8> = Vec::new();
        let _ = self.to_xml_tree().write(&mut out);
        String::from_utf8_lossy(&out).into_owned()
    }

    /// Parse an XML document into a tree.
    ///
    /// Relies on `xmltree::Element::parse`: it fails exactly on text that is not a
    /// well-formed document, and otherwise gives a tree that depends on the text alone.
    #[verifier::external_body]
    pub(crate) fn parse(text: &str) -> (r: Result<Element, xmltree::ParseError>)
        ensures
            r is Ok <==> parsed_tree(text@) is Some,
            r is Ok ==> parsed_tree(text@) == Some(r->Ok_0@),
    {
        XmlTree::parse(text.as_bytes()).map(|x| Element::from_xml_tree(&x))
    }
}

} // verus!
