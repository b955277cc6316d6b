use vstd::prelude::*;

use crate::rpser::xml::{opt_view, Element, Fault, Tree};
use crate::transforms::{
    long_at, long_field, string_at, string_field, text_at, text_field, xml_failure,
    FromElement,
};

verus! {

/// Space.
#[derive(Debug)]
pub struct Space {
    /// The space key
    pub key: String,
    /// The name of the space
    pub name: String,
    /// Space group
    pub space_group: Option<String>,
    /// Space type
    pub space_type: String,
    /// The url to view this space online
    pub url: String,
    /// The id of the space homepage
    pub home_page: i64,
    /// The HTML rendered space description
    pub description: Option<String>,
}

/// A space, as a value of the model.
pub ghost struct SpaceModel {
    pub key: Seq<char>,
    pub name: Seq<char>,
    pub space_group: Option<Seq<char>>,
    pub space_type: Seq<char>,
    pub url: Seq<char>,
    pub home_page: i64,
    pub description: Option<Seq<char>>,
}

impl View for Space {
    type V = SpaceModel;

    open spec fn view(&self) -> SpaceModel {
        SpaceModel {
            key: self.key@,
            name: self.name@,
            space_group: opt_view(self.space_group),
            space_type: self.space_type@,
            url: self.url@,
            home_page: self.home_page,
            description: opt_view(self.description),
        }
    }
}

/// The space that a tree describes, fields read in order; the first failure wins.
pub open spec fn space_of(t: Tree) -> Result<SpaceModel, Fault> {
    match text_field(t, "description"@) {
        Err(f) => Err(f),
        Ok(description) => match long_field(t, "homePage"@) {
            Err(f) => Err(f),
            Ok(home_page) => match string_field(t, "key"@) {
                Err(f) => Err(f),
                Ok(key) => match string_field(t, "name"@) {
                    Err(f) => Err(f),
                    Ok(name) => match text_field(t, "spaceGroup"@) {
                        Err(f) => Err(f),
                        Ok(space_group) => match string_field(t, "type"@) {
                            Err(f) => Err(f),
                            Ok(space_type) => match string_field(t, "url"@) {
                                Err(f) => Err(f),
                                Ok(url) => Ok(
                                    SpaceModel {
                                        key,
                                        name,
                                        space_group,
                                        space_type,
                                        url,
                                        home_page,
                                        description,
                                    },
                                ),
                            },
                        },
                    },
                },
            },
        },
    }
}

/// When every field decodes, the space holds exactly the decoded values, each read from
/// the child of its own name.
pub proof fn lemma_space_fields_decoded(t: Tree)
    requires
        text_field(t, "description"@) is Ok,
        long_field(t, "homePage"@) is Ok,
        string_field(t, "key"@) is Ok,
        string_field(t, "name"@) is Ok,
        text_field(t, "spaceGroup"@) is Ok,
        string_field(t, "type"@) is Ok,
        string_field(t, "url"@) is Ok,
    ensures
        space_of(t) == Ok::<SpaceModel, Fault>(
            SpaceModel {
                key: string_field(t, "key"@)->Ok_0,
                name: string_field(t, "name"@)->Ok_0,
                space_group: text_field(t, "spaceGroup"@)->Ok_0,
                space_type: string_field(t, "type"@)->Ok_0,
                url: string_field(t, "url"@)->Ok_0,
                home_page: long_field(t, "homePage"@)->Ok_0,
                description: text_field(t, "description"@)->Ok_0,
            },
        ),
{
}

impl FromElement for Space {
    fn from_element(element: Element) -> (r: Result<Space, crate::Error>)
        ensures
            match r {
                Ok(v) => space_of(element@) == Ok::<SpaceModel, Fault>(v@),
                Err(e) => space_of(element@) is Err && e@ == crate::tree_fault(space_of(element@)->Err_0),
            },
    {
        let description = match text_at(&element, "description") {
            Ok(v) => v,
            Err(e) => return Err(xml_failure(e)),
        };
        let home_page = match long_at(&element, "homePage") {
            Ok(v) => v,
            Err(e) => return Err(xml_failure(e)),
        };
        let key = match string_at(&element, "key") {
            Ok(v) => v,
            Err(e) => return Err(xml_failure(e)),
        };
        let name = match string_at(&element, "name") {
            Ok(v) => v,
            Err(e) => return Err(xml_failure(e)),
        };
        let space_group = match text_at(&element, "spaceGroup") {
            Ok(v) => v,
            Err(e) => return Err(xml_failure(e)),
        };
        let space_type = match string_at(&element, "type") {
            Ok(v) => v,
            Err(e) => return Err(xml_failure(e)),
        };
        let url = match string_at(&element, "url") {
            Ok(v) => v,
            Err(e) => return Err(xml_failure(e)),
        };
        Ok(Space { key, name, space_group, space_type, url, home_page, description })
    }
}

} // verus!
