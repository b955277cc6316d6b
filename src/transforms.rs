//! Reading typed fields out of element trees, and records built from them.

use vstd::prelude::*;

use crate::rpser::xml::{
    boolean_of, datetime_of, int_of, located, long_of, opt_view, path_view, string_of, tree_outcome,
    Element, Error, Fault, Tree,
};
use crate::time::Timestamp;

verus! {

/// Values that can be produced from an element tree.
pub trait FromElement: Sized {
    fn from_element(element: Element) -> Result<Self, crate::Error>;
}

/// The child of `t` named `name` (the first one).
pub open spec fn child_of(t: Tree, name: Seq<char>) -> Result<Tree, Fault> {
    located(t, seq![name])
}

/// The bare text of the child `name`.
pub open spec fn text_field(t: Tree, name: Seq<char>) -> Result<Option<Seq<char>>, Fault> {
    match child_of(t, name) {
        Ok(c) => Ok(c.text),
        Err(f) => Err(f),
    }
}

pub open spec fn long_field(t: Tree, name: Seq<char>) -> Result<i64, Fault> {
    match child_of(t, name) {
        Ok(c) => long_of(c),
        Err(f) => Err(f),
    }
}

pub open spec fn int_field(t: Tree, name: Seq<char>) -> Result<i32, Fault> {
    match child_of(t, name) {
        Ok(c) => int_of(c),
        Err(f) => Err(f),
    }
}

pub open spec fn string_field(t: Tree, name: Seq<char>) -> Result<Seq<char>, Fault> {
    match child_of(t, name) {
        Ok(c) => string_of(c),
        Err(f) => Err(f),
    }
}

pub open spec fn boolean_field(t: Tree, name: Seq<char>) -> Result<bool, Fault> {
    match child_of(t, name) {
        Ok(c) => boolean_of(c),
        Err(f) => Err(f),
    }
}

pub open spec fn datetime_field(t: Tree, name: Seq<char>) -> Result<Timestamp, Fault> {
    match child_of(t, name) {
        Ok(c) => datetime_of(c),
        Err(f) => Err(f),
    }
}

/// A tree query error, as the library reports it.
pub fn xml_failure(e: Error) -> (r: crate::Error)
    ensures
        r == crate::Error::Rpc(crate::rpser::RpcError::XmlError(e)),
        r@ == crate::tree_fault(e@),
{
    crate::Error::Rpc(crate::rpser::RpcError::XmlError(e))
}

fn child(element: &Element, name: &str) -> (r: Result<Element, Error>)
    ensures
        tree_outcome(r) == child_of(element@, name@),
{
    let path = [name];
    proof {
        assert(path_view(path@) =~= seq![name@]);
    }
    element.get_at_path(path.as_slice())
}

pub fn text_at(element: &Element, name: &str) -> (r: Result<Option<String>, Error>)
    ensures
        match r {
            Ok(v) => text_field(element@, name@) == Ok::<Option<Seq<char>>, Fault>(opt_view(v)),
            Err(e) => text_field(element@, name@) == Err::<Option<Seq<char>>, Fault>(e@),
        },
{
    match child(element, name) {
        Ok(c) => Ok(c.text),
        Err(e) => Err(e),
    }
}

pub fn long_at(element: &Element, name: &str) -> (r: Result<i64, Error>)
    ensures
        crate::rpser::xml::outcome(r) == long_field(element@, name@),
{
    match child(element, name) {
        Ok(c) => c.as_long(),
        Err(e) => Err(e),
    }
}

pub fn int_at(element: &Element, name: &str) -> (r: Result<i32, Error>)
    ensures
        crate::rpser::xml::outcome(r) == int_field(element@, name@),
{
    match child(element, name) {
        Ok(c) => c.as_int(),
        Err(e) => Err(e),
    }
}

pub fn string_at(element: &Element, name: &str) -> (r: Result<String, Error>)
    ensures
        match r {
            Ok(v) => string_field(element@, name@) == Ok::<Seq<char>, Fault>(v@),
            Err(e) => string_field(element@, name@) == Err::<Seq<char>, Fault>(e@),
        },
{
    match child(element, name) {
        Ok(c) => c.as_string(),
        Err(e) => Err(e),
    }
}

pub fn boolean_at(element: &Element, name: &str) -> (r: Result<bool, Error>)
    ensures
        crate::rpser::xml::outcome(r) == boolean_field(element@, name@),
{
    match child(element, name) {
        Ok(c) => c.as_boolean(),
        Err(e) => Err(e),
    }
}

pub fn datetime_at(element: &Element, name: &str) -> (r: Result<Timestamp, Error>)
    ensures
        crate::rpser::xml::outcome(r) == datetime_field(element@, name@),
{
    match child(element, name) {
        Ok(c) => c.as_datetime(),
        Err(e) => Err(e),
    }
}

} // verus!
