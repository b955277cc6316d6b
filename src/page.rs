use vstd::prelude::*;

use crate::rpser::xml::{opt_view, Element, Fault, Tree};
use crate::time::Timestamp;
use crate::transforms::{
    boolean_at, boolean_field, datetime_at, datetime_field, int_at, int_field,
    long_at, long_field, string_at, string_field, xml_failure, FromElement,
};

verus! {

/// Page.
#[derive(Debug)]
pub struct Page {
    /// The id of the page
    pub id: i64,
    /// The key of the space that this page belongs to
    pub space: String,
    /// The id of the parent page
    pub parent_id: i64,
    /// The title of the page
    pub title: String,
    /// The url to view this page online
    pub url: String,
    /// The version number of this page
    pub version: i32,
    /// The page content
    pub content: String,
    /// Timestamp page was created
    pub created: Timestamp,
    /// Username of the creator
    pub creator: String,
    /// Timestamp page was modified
    pub modified: Timestamp,
    /// Username of the page's last modifier
    pub modifier: String,
    /// Whether or not this page is the space's homepage
    pub home_page: bool,
    /// Status of the page (eg. current or deleted)
    pub content_status: String,
    /// Whether the page is current and not deleted
    pub current: bool,
}

/// A page, as a value of the model.
pub ghost struct PageModel {
    pub id: i64,
    pub space: Seq<char>,
    pub parent_id: i64,
    pub title: Seq<char>,
    pub url: Seq<char>,
    pub version: i32,
    pub content: Seq<char>,
    pub created: Timestamp,
    pub creator: Seq<char>,
    pub modified: Timestamp,
    pub modifier: Seq<char>,
    pub home_page: bool,
    pub content_status: Seq<char>,
    pub current: bool,
}

impl View for Page {
    type V = PageModel;

    open spec fn view(&self) -> PageModel {
        PageModel {
            id: self.id,
            space: self.space@,
            parent_id: self.parent_id,
            title: self.title@,
            url: self.url@,
            version: self.version,
            content: self.content@,
            created: self.created,
            creator: self.creator@,
            modified: self.modified,
            modifier: self.modifier@,
            home_page: self.home_page,
            content_status: self.content_status@,
            current: self.current,
        }
    }
}

/// The page that a tree describes, fields read in order; the first failure wins.
pub open spec fn page_of(t: Tree) -> Result<PageModel, Fault> {
    match long_field(t, "id"@) {
        Err(f) => Err(f),
        Ok(id) => match string_field(t, "space"@) {
            Err(f) => Err(f),
            Ok(space) => match long_field(t, "parentId"@) {
                Err(f) => Err(f),
                Ok(parent_id) => match string_field(t, "title"@) {
                    Err(f) => Err(f),
                    Ok(title) => match string_field(t, "url"@) {
                        Err(f) => Err(f),
                        Ok(url) => match int_field(t, "version"@) {
                            Err(f) => Err(f),
                            Ok(version) => match string_field(t, "content"@) {
                                Err(f) => Err(f),
                                Ok(content) => page_rest_of(
                                    t,
                                    id,
                                    space,
                                    parent_id,
                                    title,
                                    url,
                                    version,
                                    content,
                                ),
                            },
                        },
                    },
                },
            },
        },
    }
}

/// The later fields of a page, once the first seven were read.
pub open spec fn page_rest_of(
    t: Tree,
    id: i64,
    space: Seq<char>,
    parent_id: i64,
    title: Seq<char>,
    url: Seq<char>,
    version: i32,
    content: Seq<char>,
) -> Result<PageModel, Fault> {
    match datetime_field(t, "created"@) {
        Err(f) => Err(f),
        Ok(created) => match string_field(t, "creator"@) {
            Err(f) => Err(f),
            Ok(creator) => match datetime_field(t, "modified"@) {
                Err(f) => Err(f),
                Ok(modified) => match string_field(t, "modifier"@) {
                    Err(f) => Err(f),
                    Ok(modifier) => match boolean_field(t, "homePage"@) {
                        Err(f) => Err(f),
                        Ok(home_page) => match string_field(t, "contentStatus"@) {
                            Err(f) => Err(f),
                            Ok(content_status) => match boolean_field(t, "current"@) {
                                Err(f) => Err(f),
                                Ok(current) => Ok(
                                    PageModel {
                                        id,
                                        space,
                                        parent_id,
                                        title,
                                        url,
                                        version,
                                        content,
                                        created,
                                        creator,
                                        modified,
                                        modifier,
                                        home_page,
                                        content_status,
                                        current,
                                    },
                                ),
                            },
                        },
                    },
                },
            },
        },
    }
}

/// Page Summary.
#[derive(Debug)]
pub struct PageSummary {
    /// The id of the page
    pub id: i64,
    /// The key of the space that this page belongs to
    pub space: String,
    /// The id of the parent page
    pub parent_id: i64,
    /// The title of the page
    pub title: String,
    /// The url to view this page online
    pub url: String,
}

/// A page summary, as a value of the model.
pub ghost struct PageSummaryModel {
    pub id: i64,
    pub space: Seq<char>,
    pub parent_id: i64,
    pub title: Seq<char>,
    pub url: Seq<char>,
}

impl View for PageSummary {
    type V = PageSummaryModel;

    open spec fn view(&self) -> PageSummaryModel {
        PageSummaryModel {
            id: self.id,
            space: self.space@,
            parent_id: self.parent_id,
            title: self.title@,
            url: self.url@,
        }
    }
}

/// The page summary that a tree describes, fields read in order; the first failure wins.
pub open spec fn page_summary_of(t: Tree) -> Result<PageSummaryModel, Fault> {
    match long_field(t, "id"@) {
        Err(f) => Err(f),
        Ok(id) => match string_field(t, "space"@) {
            Err(f) => Err(f),
            Ok(space) => match long_field(t, "parentId"@) {
                Err(f) => Err(f),
                Ok(parent_id) => match string_field(t, "title"@) {
                    Err(f) => Err(f),
                    Ok(title) => match string_field(t, "url"@) {
                        Err(f) => Err(f),
                        Ok(url) => Ok(PageSummaryModel { id, space, parent_id, title, url }),
                    },
                },
            },
        },
    }
}

/// Page Object for creating a Page.
#[derive(Debug)]
pub struct UpdatePage {
    /// The id of the page
    pub id: Option<i64>,
    /// The key of the space that this page belongs to
    pub space: String,
    /// The title of the page
    pub title: String,
    /// The page content
    pub content: String,
    /// The version number of this page
    pub version: Option<i32>,
    /// The id of the parent page
    pub parent_id: Option<i64>,
}

/// Options for updating the page.
#[derive(Debug)]
pub struct PageUpdateOptions {
    /// Edit comment for the updated page
    pub version_comment: Option<String>,
    /// Is this update a 'minor edit'? (default value: false)
    pub minor_edit: bool,
}

impl PageUpdateOptions {
    pub fn new_minor() -> (r: PageUpdateOptions)
        ensures
            r.version_comment is None,
            r.minor_edit,
    {
        PageUpdateOptions { version_comment: None, minor_edit: true }
    }

    pub fn new_minor_with_comment(comment: &str) -> (r: PageUpdateOptions)
        ensures
            opt_view(r.version_comment) == Some(comment@),
            r.minor_edit,
    {
        PageUpdateOptions { version_comment: Some(comment.to_owned()), minor_edit: true }
    }
}

impl UpdatePage {
    /// The fields needed to create a page.
    pub fn with_create_fields(parent_id: Option<i64>, space: &str, title: &str, content: &str) -> (r:
        UpdatePage)
        ensures
            r.id is None,
            r.space@ == space@,
            r.title@ == title@,
            r.content@ == content@,
            r.version is None,
            r.parent_id == parent_id,
    {
        UpdatePage {
            id: None,
            space: space.to_owned(),
            title: title.to_owned(),
            content: content.to_owned(),
            version: None,
            parent_id,
        }
    }

    /// The fields needed to update `page`; a parent id of 0 means no parent.
    pub fn from_page(page: Page) -> (r: UpdatePage)
        ensures
            r.id == Some(page.id),
            r.space == page.space,
            r.title == page.title,
            r.content == page.content,
            r.version == Some(page.version),
            r.parent_id == (if page.parent_id == 0 {
                None
            } else {
                Some(page.parent_id)
            }),
    {
        UpdatePage {
            id: Some(page.id),
            space: page.space,
            title: page.title,
            content: page.content,
            version: Some(page.version),
            parent_id: if page.parent_id == 0 {
                None
            } else {
                Some(page.parent_id)
            },
        }
    }
}

impl From<Page> for UpdatePage {
    fn from(other: Page) -> (r: UpdatePage) {
        UpdatePage::from_page(other)
    }
}

impl vstd::std_specs::convert::FromSpecImpl<Page> for UpdatePage {
    open spec fn obeys_from_spec() -> bool {
        true
    }

    open spec fn from_spec(v: Page) -> UpdatePage {
        UpdatePage {
            id: Some(v.id),
            space: v.space,
            title: v.title,
            content: v.content,
            version: Some(v.version),
            parent_id: if v.parent_id == 0 {
                None
            } else {
                Some(v.parent_id)
            },
        }
    }
}

impl FromElement for Page {
    fn from_element(element: Element) -> (r: Result<Page, crate::Error>)
        ensures
            match r {
                Ok(v) => page_of(element@) == Ok::<PageModel, Fault>(v@),
                Err(e) => page_of(element@) is Err && e@ == crate::tree_fault(page_of(element@)->Err_0),
            },
    {
        let id = match long_at(&element, "id") {
            Ok(v) => v,
            Err(e) => return Err(xml_failure(e)),
        };
        let space = match string_at(&element, "space") {
            Ok(v) => v,
            Err(e) => return Err(xml_failure(e)),
        };
        let parent_id = match long_at(&element, "parentId") {
            Ok(v) => v,
            Err(e) => return Err(xml_failure(e)),
        };
        let title = match string_at(&element, "title") {
            Ok(v) => v,
            Err(e) => return Err(xml_failure(e)),
        };
        let url = match string_at(&element, "url") {
            Ok(v) => v,
            Err(e) => return Err(xml_failure(e)),
        };
        let version = match int_at(&element, "version") {
            Ok(v) => v,
            Err(e) => return Err(xml_failure(e)),
        };
        let content = match string_at(&element, "content") {
            Ok(v) => v,
            Err(e) => return Err(xml_failure(e)),
        };
        let created = match datetime_at(&element, "created") {
            Ok(v) => v,
            Err(e) => return Err(xml_failure(e)),
        };
        let creator = match string_at(&element, "creator") {
            Ok(v) => v,
            Err(e) => return Err(xml_failure(e)),
        };
        let modified = match datetime_at(&element, "modified") {
            Ok(v) => v,
            Err(e) => return Err(xml_failure(e)),
        };
        let modifier = match string_at(&element, "modifier") {
            Ok(v) => v,
            Err(e) => return Err(xml_failure(e)),
        };
        let home_page = match boolean_at(&element, "homePage") {
            Ok(v) => v,
            Err(e) => return Err(xml_failure(e)),
        };
        let content_status = match string_at(&element, "contentStatus") {
            Ok(v) => v,
            Err(e) => return Err(xml_failure(e)),
        };
        let current = match boolean_at(&element, "current") {
            Ok(v) => v,
            Err(e) => return Err(xml_failure(e)),
        };
        Ok(
            Page {
                id,
                space,
                parent_id,
                title,
                url,
                version,
                content,
                created,
                creator,
                modified,
                modifier,
                home_page,
                content_status,
                current,
            },
        )
    }
}

impl FromElement for PageSummary {
    fn from_element(element: Element) -> (r: Result<PageSummary, crate::Error>)
        ensures
            match r {
                Ok(v) => page_summary_of(element@) == Ok::<PageSummaryModel, Fault>(v@),
                Err(e) => page_summary_of(element@) is Err && e@ == crate::tree_fault(page_summary_of(element@)->Err_0),
            },
    {
        let id = match long_at(&element, "id") {
            Ok(v) => v,
            Err(e) => return Err(xml_failure(e)),
        };
        let space = match string_at(&element, "space") {
            Ok(v) => v,
            Err(e) => return Err(xml_failure(e)),
        };
        let parent_id = match long_at(&element, "parentId") {
            Ok(v) => v,
            Err(e) => return Err(xml_failure(e)),
        };
        let title = match string_at(&element, "title") {
            Ok(v) => v,
            Err(e) => return Err(xml_failure(e)),
        };
        let url = match string_at(&element, "url") {
            Ok(v) => v,
            Err(e) => return Err(xml_failure(e)),
        };
        Ok(PageSummary { id, space, parent_id, title, url })
    }
}

} // verus!
