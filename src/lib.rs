//! Access and modify Confluence pages through its SOAP interface.
//!
//! A `Session` holds the operations read from the service description and the
//! authentication token. The transport is handed in by the caller: `get` fetches a
//! document, `post` sends a request body to a URL with a SOAP action and returns the reply.

use vstd::prelude::*;

pub mod page;
pub mod rpser;
pub mod server;
pub mod space;
pub mod text;
pub mod time;
pub mod transforms;
pub mod wsdl;

pub use page::{Page, PageSummary, PageUpdateOptions, UpdatePage};
pub use space::Space;
pub use transforms::FromElement;

use rpser::xml::{has_child_named, located, path_view, trees_of, xml_document, Element, Fault, Tree};
use rpser::{envelope, reply_of, Method, Response, RpcError, RpcFault};
use page::{page_of, page_summary_of, PageModel, PageSummaryModel};
use space::{space_of, SpaceModel};
use text::int_text;
use text::{i32_text, i64_text, is_suffix, str_ends_with, str_eq};
use vstd::string::StrSliceExecFns;
use wsdl::{document_events, operations_map, scan, Wsdl};

verus! {

/// Where the service description lives, below the server's base URL.
pub const V2_API_RPC_PATH: &'static str = "/rpc/soap-axis/confluenceservice-v2?wsdl";

/// Client's session.
pub struct Session {
    wsdl: Wsdl,
    token: String,
}

/// Confluence library error.
#[derive(Debug)]
pub enum Error {
    MethodNotFoundInWsdl(String),
    ReceivedNoLoginToken,
    /// The transport failed; its message.
    Http(String),
    Rpc(RpcError),
}

/// A library error, as a value of the model.
pub ghost enum SessionFault {
    MethodNotFoundInWsdl(Seq<char>),
    ReceivedNoLoginToken,
    Http(Seq<char>),
    Rpc(RpcFault),
}

impl View for Error {
    type V = SessionFault;

    open spec fn view(&self) -> SessionFault {
        match self {
            Error::MethodNotFoundInWsdl(n) => SessionFault::MethodNotFoundInWsdl(n@),
            Error::ReceivedNoLoginToken => SessionFault::ReceivedNoLoginToken,
            Error::Http(m) => SessionFault::Http(m@),
            Error::Rpc(e) => SessionFault::Rpc(e@),
        }
    }
}

pub type Result<T> = core::result::Result<T, Error>;

impl From<RpcError> for Error {
    fn from(other: RpcError) -> (r: Error) {
        Error::Rpc(other)
    }
}

impl vstd::std_specs::convert::FromSpecImpl<RpcError> for Error {
    open spec fn obeys_from_spec() -> bool {
        true
    }

    open spec fn from_spec(v: RpcError) -> Error {
        Error::Rpc(v)
    }
}

impl From<rpser::xml::Error> for Error {
    fn from(other: rpser::xml::Error) -> (r: Error) {
        Error::Rpc(RpcError::XmlError(other))
    }
}

impl vstd::std_specs::convert::FromSpecImpl<rpser::xml::Error> for Error {
    open spec fn obeys_from_spec() -> bool {
        true
    }

    open spec fn from_spec(v: rpser::xml::Error) -> Error {
        Error::Rpc(RpcError::XmlError(v))
    }
}

/// A tree fault, as the library reports it.
pub open spec fn tree_fault(f: Fault) -> SessionFault {
    SessionFault::Rpc(RpcFault::Structure(f))
}

/// What a reply from the transport yields: the payload of the envelope.
pub open spec fn posted(reply: core::result::Result<String, String>) -> core::result::Result<
    Tree,
    SessionFault,
> {
    match reply {
        Err(m) => Err(SessionFault::Http(m@)),
        Ok(text) => match reply_of(text@) {
            Ok(t) => Ok(t),
            Err(f) => Err(SessionFault::Rpc(f)),
        },
    }
}

/// A call of `name` with `params`: unknown to the registry, or posted as an envelope to
/// the operation's URL with the method's name as SOAP action, giving `result`.
pub open spec fn exchange<P: Fn(&str, &str, &str) -> core::result::Result<String, String>>(
    operations: Map<Seq<char>, Seq<char>>,
    post: P,
    name: Seq<char>,
    params: Seq<Tree>,
    result: core::result::Result<Tree, SessionFault>,
) -> bool {
    if !operations.contains_key(name) {
        result == Err::<Tree, SessionFault>(SessionFault::MethodNotFoundInWsdl(name))
    } else {
        exists|u: &str, a: &str, x: &str, reply: core::result::Result<String, String>|
            u@ == operations[name] && a@ == name && x@ == xml_document(envelope(name, params, u@))
                && #[trigger] post.ensures((u, a, x), reply) && result == posted(reply)
    }
}

pub open spec fn response_outcome(r: Result<Response>) -> core::result::Result<Tree, SessionFault> {
    match r {
        Ok(resp) => Ok(resp.body@),
        Err(e) => Err(e@),
    }
}

/// A parameter element: a name and a text.
pub open spec fn text_param(name: Seq<char>, text: Seq<char>) -> Tree {
    Tree { name, attributes: Map::empty(), children: Seq::empty(), text: Some(text) }
}

/// The token in a login reply: the text of its `loginReturn` child.
pub open spec fn login_token(t: Tree) -> core::result::Result<Seq<char>, SessionFault> {
    match located(t, seq!["loginReturn"@]) {
        Err(f) => Err(tree_fault(f)),
        Ok(c) => match c.text {
            Some(x) => Ok(x),
            None => Err(SessionFault::ReceivedNoLoginToken),
        },
    }
}

/// A logout reply: whether its `logoutReturn` child holds `true`.
pub open spec fn logout_confirmed(t: Tree) -> core::result::Result<bool, SessionFault> {
    match located(t, seq!["logoutReturn"@]) {
        Err(f) => Err(tree_fault(f)),
        Ok(c) => Ok(c.text == Some("true"@)),
    }
}

/// The service description's URL for a server's base URL (one trailing `/` dropped).
pub open spec fn description_url(url: Seq<char>) -> Seq<char> {
    (if is_suffix(url, "/"@) {
        url.drop_last()
    } else {
        url
    }) + V2_API_RPC_PATH@
}

/// The payload child `name` of a reply, then decoded as a space.
pub open spec fn space_reply(
    reply: core::result::Result<Tree, SessionFault>,
    name: Seq<char>,
) -> core::result::Result<SpaceModel, SessionFault> {
    match reply {
        Err(f) => Err(f),
        Ok(t) => match located(t, seq![name]) {
            Err(f) => Err(tree_fault(f)),
            Ok(c) => match space_of(c) {
                Ok(s) => Ok(s),
                Err(f) => Err(tree_fault(f)),
            },
        },
    }
}

/// The payload child `name` of a reply, then decoded as a page.
pub open spec fn page_reply(
    reply: core::result::Result<Tree, SessionFault>,
    name: Seq<char>,
) -> core::result::Result<PageModel, SessionFault> {
    match reply {
        Err(f) => Err(f),
        Ok(t) => match located(t, seq![name]) {
            Err(f) => Err(tree_fault(f)),
            Ok(c) => match page_of(c) {
                Ok(s) => Ok(s),
                Err(f) => Err(tree_fault(f)),
            },
        },
    }
}

/// Each of `children` decoded as a page summary, in order; the first failure wins.
pub open spec fn summaries_of(children: Seq<Tree>) -> core::result::Result<
    Seq<PageSummaryModel>,
    Fault,
>
    decreases children.len(),
{
    if children.len() == 0 {
        Ok(Seq::empty())
    } else {
        match summaries_of(children.drop_last()) {
            Err(f) => Err(f),
            Ok(v) => match page_summary_of(children.last()) {
                Err(f) => Err(f),
                Ok(x) => Ok(v.push(x)),
            },
        }
    }
}

/// The payload child `name` of a reply, then its children decoded as page summaries.
pub open spec fn summaries_reply(
    reply: core::result::Result<Tree, SessionFault>,
    name: Seq<char>,
) -> core::result::Result<Seq<PageSummaryModel>, SessionFault> {
    match reply {
        Err(f) => Err(f),
        Ok(t) => match located(t, seq![name]) {
            Err(f) => Err(tree_fault(f)),
            Ok(c) => match summaries_of(c.children) {
                Ok(s) => Ok(s),
                Err(f) => Err(tree_fault(f)),
            },
        },
    }
}

/// What a login reply yields.
pub open spec fn login_result(reply: core::result::Result<Tree, SessionFault>) -> core::result::Result<
    Seq<char>,
    SessionFault,
> {
    match reply {
        Err(f) => Err(f),
        Ok(t) => login_token(t),
    }
}

/// What a logout reply yields.
pub open spec fn logout_result(reply: core::result::Result<Tree, SessionFault>) -> core::result::Result<
    bool,
    SessionFault,
> {
    match reply {
        Err(f) => Err(f),
        Ok(t) => logout_confirmed(t),
    }
}

/// The parameters that describe a page to store.
pub open spec fn page_params(page: UpdatePage) -> Seq<Tree> {
    seq![
        text_param("space"@, page.space@),
        text_param("title"@, page.title@),
        text_param("content"@, page.content@),
    ] + (match page.id {
        Some(id) => seq![text_param("id"@, int_text(id as int))],
        None => Seq::empty(),
    }) + (match page.version {
        Some(v) => seq![text_param("version"@, int_text(v as int))],
        None => Seq::empty(),
    }) + (match page.parent_id {
        Some(p) => seq![text_param("parentId"@, int_text(p as int))],
        None => Seq::empty(),
    })
}

/// The parameters that describe update options.
pub open spec fn options_params(options: PageUpdateOptions) -> Seq<Tree> {
    (match options.version_comment {
        Some(c) => seq![text_param("versionComment"@, c@)],
        None => Seq::empty(),
    }) + seq![
        text_param(
            "minorEdit"@,
            if options.minor_edit {
                "true"@
            } else {
                "false"@
            },
        ),
    ]
}

/// A parameter element holding other parameters.
pub open spec fn group_param(name: Seq<char>, children: Seq<Tree>) -> Tree {
    Tree { name, attributes: Map::empty(), children, text: None }
}

pub open spec fn space_outcome(r: Result<Space>) -> core::result::Result<SpaceModel, SessionFault> {
    match r {
        Ok(s) => Ok(s@),
        Err(e) => Err(e@),
    }
}

pub open spec fn page_outcome(r: Result<Page>) -> core::result::Result<PageModel, SessionFault> {
    match r {
        Ok(p) => Ok(p@),
        Err(e) => Err(e@),
    }
}

pub open spec fn summaries_outcome(r: Result<Vec<PageSummary>>) -> core::result::Result<
    Seq<PageSummaryModel>,
    SessionFault,
> {
    match r {
        Ok(v) => Ok(v@.map_values(|p: PageSummary| p@)),
        Err(e) => Err(e@),
    }
}

/// A `getSpace` reply payload `b` gives a space exactly when `b` has a `getSpaceReturn`
/// child and every field of that child decodes; the space is then that decoding. Without
/// a `getSpaceReturn` child the error is the path `[getSpaceReturn]`; otherwise a failing
/// field's own error comes through.
pub proof fn lemma_space_reply(b: Tree)
    ensures
        space_reply(Ok(b), "getSpaceReturn"@) is Ok <==> (located(b, seq!["getSpaceReturn"@]) is Ok
            && space_of(located(b, seq!["getSpaceReturn"@])->Ok_0) is Ok),
        space_reply(Ok(b), "getSpaceReturn"@) is Ok ==> space_reply(Ok(b), "getSpaceReturn"@)
            == Ok::<SpaceModel, SessionFault>(
            space_of(located(b, seq!["getSpaceReturn"@])->Ok_0)->Ok_0,
        ),
        !has_child_named(b.children, "getSpaceReturn"@) ==> space_reply(Ok(b), "getSpaceReturn"@)
            == Err::<SpaceModel, SessionFault>(
            tree_fault(Fault::NotFoundAtPath(seq!["getSpaceReturn"@])),
        ),
        located(b, seq!["getSpaceReturn"@]) is Ok && space_of(
            located(b, seq!["getSpaceReturn"@])->Ok_0,
        ) is Err ==> space_reply(Ok(b), "getSpaceReturn"@) == Err::<SpaceModel, SessionFault>(
            tree_fault(space_of(located(b, seq!["getSpaceReturn"@])->Ok_0)->Err_0),
        ),
{
    assert(seq!["getSpaceReturn"@][0] == "getSpaceReturn"@);
}

fn param(name: &str, text: &str) -> (r: Element)
    ensures
        r@ == text_param(name@, text@),
{
    let e = Element::node(name).with_text(text);
    proof {
        assert(e@ =~= text_param(name@, text@));
    }
    e
}

fn child_of_reply(response: Response, name: &str) -> (r: Result<Element>)
    ensures
        match r {
            Ok(e) => located(response.body@, seq![name@]) == Ok::<Tree, Fault>(e@),
            Err(e) => located(response.body@, seq![name@]) is Err && e@ == tree_fault(
                located(response.body@, seq![name@])->Err_0,
            ),
        },
{
    let path = [name];
    proof {
        assert(path_view(path@) =~= seq![name@]);
    }
    match response.body.descend(path.as_slice()) {
        Ok(e) => Ok(e),
        Err(e) => Err(Error::Rpc(RpcError::XmlError(e))),
    }
}

fn group(name: &str, children: Vec<Element>) -> (r: Element)
    ensures
        r@ == group_param(name@, trees_of(children@)),
{
    let e = Element::node(name).with_children(children);
    proof {
        assert(e@.children =~= trees_of(children@));
        assert(e@ =~= group_param(name@, trees_of(children@)));
    }
    e
}

fn page_elements(page: UpdatePage) -> (r: Vec<Element>)
    ensures
        trees_of(r@) == page_params(page),
{
    let ghost described = page_params(page);
    let mut items = Vec::new();
    items.push(param("space", page.space.as_str()));
    items.push(param("title", page.title.as_str()));
    items.push(param("content", page.content.as_str()));
    let ghost base = seq![
        text_param("space"@, page.space@),
        text_param("title"@, page.title@),
        text_param("content"@, page.content@),
    ];
    proof {
        assert(trees_of(items@) =~= base);
    }
    let ghost with_id = base + match page.id {
        Some(id) => seq![text_param("id"@, int_text(id as int))],
        None => Seq::<Tree>::empty(),
    };
    if let Some(id) = page.id {
        let t = i64_text(id);
        items.push(param("id", t.as_str()));
    }
    proof {
        assert(trees_of(items@) =~= with_id);
    }
    let ghost with_version = with_id + match page.version {
        Some(v) => seq![text_param("version"@, int_text(v as int))],
        None => Seq::<Tree>::empty(),
    };
    if let Some(version) = page.version {
        let t = i32_text(version);
        items.push(param("version", t.as_str()));
    }
    proof {
        assert(trees_of(items@) =~= with_version);
    }
    if let Some(parent_id) = page.parent_id {
        let t = i64_text(parent_id);
        items.push(param("parentId", t.as_str()));
    }
    proof {
        assert(trees_of(items@) =~= described);
    }
    items
}

fn option_elements(options: PageUpdateOptions) -> (r: Vec<Element>)
    ensures
        trees_of(r@) == options_params(options),
{
    let ghost described = options_params(options);
    let mut items = Vec::new();
    if let Some(comment) = &options.version_comment {
        items.push(param("versionComment", comment.as_str()));
    }
    let flag = if options.minor_edit {
        "true"
    } else {
        "false"
    };
    items.push(param("minorEdit", flag));
    proof {
        assert(trees_of(items@) =~= described);
    }
    items
}

proof fn lemma_summaries_prefix_fails(children: Seq<Tree>, i: int)
    requires
        0 <= i <= children.len(),
        summaries_of(children.take(i)) is Err,
    ensures
        summaries_of(children) == summaries_of(children.take(i)),
    decreases children.len() - i,
{
    if i < children.len() {
        assert(children.take(i + 1).drop_last() =~= children.take(i));
        lemma_summaries_prefix_fails(children, i + 1);
    } else {
        assert(children.take(i) =~= children);
    }
}

fn summaries_from(element: &Element) -> (r: Result<Vec<PageSummary>>)
    ensures
        match r {
            Ok(v) => summaries_of(element@.children) == Ok::<Seq<PageSummaryModel>, Fault>(
                v@.map_values(|p: PageSummary| p@),
            ),
            Err(e) => summaries_of(element@.children) is Err && e@ == tree_fault(
                summaries_of(element@.children)->Err_0,
            ),
        },
{
    let ghost children = element@.children;
    let mut out: Vec<PageSummary> = Vec::new();
    let mut i: usize = 0;
    proof {
        assert(children.take(0) =~= Seq::<Tree>::empty());
        assert(out@.map_values(|p: PageSummary| p@) =~= Seq::<PageSummaryModel>::empty());
    }
    while i < element.children.len()
        invariant
            children == element@.children,
            i <= element.children@.len(),
            summaries_of(children.take(i as int)) == Ok::<Seq<PageSummaryModel>, Fault>(
                out@.map_values(|p: PageSummary| p@),
            ),
        decreases element.children@.len() - i,
    {
        proof {
            assert(children.take(i + 1).drop_last() =~= children.take(i as int));
            assert(children.take(i + 1).last() == children[i as int]);
            assert(children[i as int] == element.children@[i as int]@);
        }
        let c = element.children[i].cloned();
        match PageSummary::from_element(c) {
            Ok(x) => {
                let ghost before = out@;
                out.push(x);
                proof {
                    assert(out@.map_values(|p: PageSummary| p@) =~= before.map_values(
                        |p: PageSummary| p@,
                    ).push(x@));
                }
            },
            Err(e) => {
                proof {
                    lemma_summaries_prefix_fails(children, i + 1);
                }
                return Err(e);
            },
        }
        i += 1;
    }
    proof {
        assert(children.take(i as int) =~= children);
    }
    Ok(out)
}

impl Session {
    /// The operations that the session knows, by name.
    pub closed spec fn operations(&self) -> Map<Seq<char>, Seq<char>> {
        self.wsdl@
    }

    /// The authentication token.
    pub closed spec fn token(&self) -> Seq<char> {
        self.token@
    }

    /// The authentication token taken from a login reply.
    pub fn token_from_reply(response: Response) -> (r: Result<String>)
        ensures
            match r {
                Ok(t) => login_token(response.body@) == Ok::<Seq<char>, SessionFault>(t@),
                Err(e) => login_token(response.body@) == Err::<Seq<char>, SessionFault>(e@),
            },
    {
        let ghost t = response.body@;
        proof {
            reveal_strlit("loginReturn");
        }
        match child_of_reply(response, "loginReturn") {
            Ok(e) => match e.text {
                Some(token) => Ok(token),
                None => Err(Error::ReceivedNoLoginToken),
            },
            Err(e) => Err(e),
        }
    }

    /// Whether a logout reply confirms the logout.
    pub fn logout_from_reply(response: Response) -> (r: Result<bool>)
        ensures
            match r {
                Ok(b) => logout_confirmed(response.body@) == Ok::<bool, SessionFault>(b),
                Err(e) => logout_confirmed(response.body@) == Err::<bool, SessionFault>(e@),
            },
    {
        match child_of_reply(response, "logoutReturn") {
            Ok(e) => match e.text {
                Some(v) => Ok(str_eq(v.as_str(), "true")),
                None => Ok(false),
            },
            Err(e) => Err(e),
        }
    }

    /// Create a new session: read the service description below `url` through `get`,
    /// then log in with the credentials through `post`.
    pub fn login<G, P>(url: &str, user: &str, pass: &str, get: &G, post: &P) -> (r: Result<
        Session,
    >) where
        G: Fn(&str) -> core::result::Result<String, String>,
        P: Fn(&str, &str, &str) -> core::result::Result<String, String>,

        requires
            forall|u: &str| get.requires((u,)),
            forall|u: &str, a: &str, x: &str| post.requires((u, a, x)),
        ensures
            exists|u: &str, fetched: core::result::Result<String, String>|
                u@ == description_url(url@) && #[trigger] get.ensures((u,), fetched) && match fetched {
                    Err(m) => r is Err && r->Err_0@ == SessionFault::Http(m@),
                    Ok(doc) => exists|reply: core::result::Result<Tree, SessionFault>|
                        exchange(
                            operations_map(scan(document_events(doc@))),
                            *post,
                            "login"@,
                            seq![text_param("username"@, user@), text_param("password"@, pass@)],
                            reply,
                        ) && match r {
                            Ok(s) => s.operations() == operations_map(scan(document_events(doc@)))
                                && login_result(reply) == Ok::<Seq<char>, SessionFault>(s.token()),
                            Err(e) => login_result(reply) == Err::<Seq<char>, SessionFault>(e@),
                        },
                },
    {
        proof {
            reveal_strlit("/");
        }
        let base = if str_ends_with(url, "/") {
            url.substring_char(0, url.unicode_len() - 1)
        } else {
            url
        };
        let wsdl_url = base.to_owned().concat(V2_API_RPC_PATH);
        let u = wsdl_url.as_str();
        proof {
            assert(u@ =~= description_url(url@));
        }
        let wsdl = match wsdl::fetch(u, get) {
            Ok(w) => w,
            Err(m) => {
                proof {
                    let fetched = Err::<String, String>(m);
                    assert(get.ensures((u,), fetched));
                }
                return Err(Error::Http(m));
            },
        };
        let ghost doc = choose|doc: String|
            get.ensures((u,), Ok::<String, String>(doc)) && wsdl::entries_view(wsdl.operations@)
                == scan(document_events(doc@));
        let ghost operations = wsdl@;
        let r = Session::open(wsdl, user, pass, post);
        proof {
            let fetched = Ok::<String, String>(doc);
            assert(get.ensures((u,), fetched));
            assert(operations == operations_map(scan(document_events(doc@))));
            let params = seq![text_param("username"@, user@), text_param("password"@, pass@)];
            let reply = choose|reply: core::result::Result<Tree, SessionFault>|
                exchange(operations, *post, "login"@, params, reply) && match r {
                    Ok(s) => s.operations() == operations && login_result(reply) == Ok::<
                        Seq<char>,
                        SessionFault,
                    >(s.token()),
                    Err(e) => login_result(reply) == Err::<Seq<char>, SessionFault>(e@),
                };
            assert(exchange(operations_map(scan(document_events(doc@))), *post, "login"@, params, reply));
            assert(match r {
                Ok(s) => s.operations() == operations_map(scan(document_events(doc@)))
                    && login_result(reply) == Ok::<Seq<char>, SessionFault>(s.token()),
                Err(e) => login_result(reply) == Err::<Seq<char>, SessionFault>(e@),
            });
            assert(match fetched {
                Err(m) => false,
                Ok(d) => d == doc,
            });
        }
        r
    }

    /// Log in on a server whose operations are known.
    fn open<P: Fn(&str, &str, &str) -> core::result::Result<String, String>>(
        wsdl: Wsdl,
        user: &str,
        pass: &str,
        post: &P,
    ) -> (r: Result<Session>)
        requires
            forall|u: &str, a: &str, x: &str| post.requires((u, a, x)),
        ensures
            exists|reply: core::result::Result<Tree, SessionFault>|
                exchange(
                    wsdl@,
                    *post,
                    "login"@,
                    seq![text_param("username"@, user@), text_param("password"@, pass@)],
                    reply,
                ) && match r {
                    Ok(s) => s.operations() == wsdl@ && login_result(reply) == Ok::<
                        Seq<char>,
                        SessionFault,
                    >(s.token()),
                    Err(e) => login_result(reply) == Err::<Seq<char>, SessionFault>(e@),
                },
    {
        let ghost operations = wsdl@;
        let mut session = Session { wsdl, token: String::new() };
        let method = Method::new("login").with(param("username", user)).with(param("password", pass));
        let ghost params = trees_of(method.body@);
        proof {
            assert(params =~= seq![text_param("username"@, user@), text_param("password"@, pass@)]);
        }
        let response = session.call(method, post);
        let ghost reply = response_outcome(response);
        proof {
            assert(exchange(operations, *post, "login"@, params, reply));
        }
        let response = match response {
            Ok(resp) => resp,
            Err(e) => return Err(e),
        };
        let token = match Session::token_from_reply(response) {
            Ok(t) => t,
            Err(e) => return Err(e),
        };
        session.token = token;
        Ok(session)
    }

    /// Explicitly log out: whether the server confirmed it.
    pub fn logout<P: Fn(&str, &str, &str) -> core::result::Result<String, String>>(
        &self,
        post: &P,
    ) -> (r: Result<bool>)
        requires
            forall|u: &str, a: &str, x: &str| post.requires((u, a, x)),
        ensures
            exists|reply: core::result::Result<Tree, SessionFault>|
                exchange(
                    self.operations(),
                    *post,
                    "logout"@,
                    seq![text_param("token"@, self.token())],
                    reply,
                ) && match r {
                    Ok(b) => logout_result(reply) == Ok::<bool, SessionFault>(b),
                    Err(e) => logout_result(reply) == Err::<bool, SessionFault>(e@),
                },
    {
        let method = Method::new("logout").with(param("token", self.token.as_str()));
        proof {
            assert(trees_of(method.body@) =~= seq![text_param("token"@, self.token())]);
        }
        let ghost params = trees_of(method.body@);
        let response = self.call(method, post);
        let ghost reply = response_outcome(response);
        let r = match response {
            Ok(resp) => Session::logout_from_reply(resp),
            Err(e) => Err(e),
        };
        proof {
            assert(exchange(self.operations(), *post, "logout"@, params, reply));
        }
        r
    }

    /// Returns a single space.
    pub fn get_space<P: Fn(&str, &str, &str) -> core::result::Result<String, String>>(
        &self,
        space_key: &str,
        post: &P,
    ) -> (r: Result<Space>)
        requires
            forall|u: &str, a: &str, x: &str| post.requires((u, a, x)),
        ensures
            exists|reply: core::result::Result<Tree, SessionFault>|
                exchange(
                    self.operations(),
                    *post,
                    "getSpace"@,
                    seq![text_param("token"@, self.token()), text_param("spaceKey"@, space_key@)],
                    reply,
                ) && space_outcome(r) == space_reply(reply, "getSpaceReturn"@),
    {
        let method = Method::new("getSpace").with(param("token", self.token.as_str())).with(
            param("spaceKey", space_key),
        );
        proof {
            assert(trees_of(method.body@) =~= seq![
                text_param("token"@, self.token()),
                text_param("spaceKey"@, space_key@),
            ]);
        }
        let ghost params = trees_of(method.body@);
        let response = self.call(method, post);
        let ghost reply = response_outcome(response);
        let r = match response {
            Ok(resp) => match child_of_reply(resp, "getSpaceReturn") {
                Ok(e) => Space::from_element(e),
                Err(e) => Err(e),
            },
            Err(e) => Err(e),
        };
        proof {
            assert(exchange(self.operations(), *post, "getSpace"@, params, reply));
            assert(space_outcome(r) == space_reply(reply, "getSpaceReturn"@));
        }
        r
    }

    fn page_call<P: Fn(&str, &str, &str) -> core::result::Result<String, String>>(
        &self,
        method: Method,
        post: &P,
        result_name: &str,
    ) -> (r: Result<Page>)
        requires
            forall|u: &str, a: &str, x: &str| post.requires((u, a, x)),
        ensures
            exists|reply: core::result::Result<Tree, SessionFault>|
                exchange(self.operations(), *post, method.name@, trees_of(method.body@), reply)
                    && page_outcome(r) == page_reply(reply, result_name@),
    {
        let ghost name = method.name@;
        let ghost params = trees_of(method.body@);
        let response = self.call(method, post);
        let ghost reply = response_outcome(response);
        let r = match response {
            Ok(resp) => match child_of_reply(resp, result_name) {
                Ok(e) => Page::from_element(e),
                Err(e) => Err(e),
            },
            Err(e) => Err(e),
        };
        proof {
            assert(exchange(self.operations(), *post, name, params, reply));
            assert(page_outcome(r) == page_reply(reply, result_name@));
        }
        r
    }

    /// Returns a single page by space and title.
    pub fn get_page_by_title<P: Fn(&str, &str, &str) -> core::result::Result<String, String>>(
        &self,
        space_key: &str,
        page_title: &str,
        post: &P,
    ) -> (r: Result<Page>)
        requires
            forall|u: &str, a: &str, x: &str| post.requires((u, a, x)),
        ensures
            exists|reply: core::result::Result<Tree, SessionFault>|
                exchange(
                    self.operations(),
                    *post,
                    "getPage"@,
                    seq![
                        text_param("token"@, self.token()),
                        text_param("spaceKey"@, space_key@),
                        text_param("pageTitle"@, page_title@),
                    ],
                    reply,
                ) && page_outcome(r) == page_reply(reply, "getPageReturn"@),
    {
        let method = Method::new("getPage").with(param("token", self.token.as_str())).with(
            param("spaceKey", space_key),
        ).with(param("pageTitle", page_title));
        proof {
            assert(trees_of(method.body@) =~= seq![
                text_param("token"@, self.token()),
                text_param("spaceKey"@, space_key@),
                text_param("pageTitle"@, page_title@),
            ]);
        }
        self.page_call(method, post, "getPageReturn")
    }

    /// Returns a single page by id.
    pub fn get_page_by_id<P: Fn(&str, &str, &str) -> core::result::Result<String, String>>(
        &self,
        page_id: i64,
        post: &P,
    ) -> (r: Result<Page>)
        requires
            forall|u: &str, a: &str, x: &str| post.requires((u, a, x)),
        ensures
            exists|reply: core::result::Result<Tree, SessionFault>|
                exchange(
                    self.operations(),
                    *post,
                    "getPage"@,
                    seq![
                        text_param("token"@, self.token()),
                        text_param("pageId"@, int_text(page_id as int)),
                    ],
                    reply,
                ) && page_outcome(r) == page_reply(reply, "getPageReturn"@),
    {
        let id = i64_text(page_id);
        let method = Method::new("getPage").with(param("token", self.token.as_str())).with(
            param("pageId", id.as_str()),
        );
        proof {
            assert(trees_of(method.body@) =~= seq![
                text_param("token"@, self.token()),
                text_param("pageId"@, int_text(page_id as int)),
            ]);
        }
        self.page_call(method, post, "getPageReturn")
    }

    /// Adds or updates a page.
    pub fn store_page<P: Fn(&str, &str, &str) -> core::result::Result<String, String>>(
        &self,
        page: UpdatePage,
        post: &P,
    ) -> (r: Result<Page>)
        requires
            forall|u: &str, a: &str, x: &str| post.requires((u, a, x)),
        ensures
            exists|reply: core::result::Result<Tree, SessionFault>|
                exchange(
                    self.operations(),
                    *post,
                    "storePage"@,
                    seq![
                        text_param("token"@, self.token()),
                        group_param("page"@, page_params(page)),
                    ],
                    reply,
                ) && page_outcome(r) == page_reply(reply, "storePageReturn"@),
    {
        let ghost described = page_params(page);
        let items = page_elements(page);
        let method = Method::new("storePage").with(param("token", self.token.as_str())).with(
            group("page", items),
        );
        proof {
            assert(trees_of(method.body@) =~= seq![
                text_param("token"@, self.token()),
                group_param("page"@, described),
            ]);
        }
        self.page_call(method, post, "storePageReturn")
    }

    /// Updates a page, with update options.
    pub fn update_page<P: Fn(&str, &str, &str) -> core::result::Result<String, String>>(
        &self,
        page: UpdatePage,
        options: PageUpdateOptions,
        post: &P,
    ) -> (r: Result<Page>)
        requires
            forall|u: &str, a: &str, x: &str| post.requires((u, a, x)),
        ensures
            exists|reply: core::result::Result<Tree, SessionFault>|
                exchange(
                    self.operations(),
                    *post,
                    "updatePage"@,
                    seq![
                        text_param("token"@, self.token()),
                        group_param("page"@, page_params(page)),
                        group_param("pageUpdateOptions"@, options_params(options)),
                    ],
                    reply,
                ) && page_outcome(r) == page_reply(reply, "updatePageReturn"@),
    {
        let ghost described = page_params(page);
        let ghost described_options = options_params(options);
        let items = page_elements(page);
        let option_items = option_elements(options);
        let method = Method::new("updatePage").with(param("token", self.token.as_str())).with(
            group("page", items),
        ).with(group("pageUpdateOptions", option_items));
        proof {
            assert(trees_of(method.body@) =~= seq![
                text_param("token"@, self.token()),
                group_param("page"@, described),
                group_param("pageUpdateOptions"@, described_options),
            ]);
        }
        self.page_call(method, post, "updatePageReturn")
    }

    /// Returns all the direct children of a page.
    pub fn get_children<P: Fn(&str, &str, &str) -> core::result::Result<String, String>>(
        &self,
        page_id: i64,
        post: &P,
    ) -> (r: Result<Vec<PageSummary>>)
        requires
            forall|u: &str, a: &str, x: &str| post.requires((u, a, x)),
        ensures
            exists|reply: core::result::Result<Tree, SessionFault>|
                exchange(
                    self.operations(),
                    *post,
                    "getChildren"@,
                    seq![
                        text_param("token"@, self.token()),
                        text_param("pageId"@, int_text(page_id as int)),
                    ],
                    reply,
                ) && summaries_outcome(r) == summaries_reply(reply, "getChildrenReturn"@),
    {
        let id = i64_text(page_id);
        let method = Method::new("getChildren").with(param("token", self.token.as_str())).with(
            param("pageId", id.as_str()),
        );
        proof {
            assert(trees_of(method.body@) =~= seq![
                text_param("token"@, self.token()),
                text_param("pageId"@, int_text(page_id as int)),
            ]);
        }
        let ghost params = trees_of(method.body@);
        let response = self.call(method, post);
        let ghost reply = response_outcome(response);
        let r = match response {
            Ok(resp) => match child_of_reply(resp, "getChildrenReturn") {
                Ok(e) => summaries_from(&e),
                Err(e) => Err(e),
            },
            Err(e) => Err(e),
        };
        proof {
            assert(exchange(self.operations(), *post, "getChildren"@, params, reply));
            assert(summaries_outcome(r) == summaries_reply(reply, "getChildrenReturn"@));
        }
        r
    }

    /// Call a method on this session: look up its operation, post the envelope there,
    /// and parse the reply.
    pub fn call<P: Fn(&str, &str, &str) -> core::result::Result<String, String>>(
        &self,
        method: Method,
        post: &P,
    ) -> (r: Result<Response>)
        requires
            forall|u: &str, a: &str, x: &str| post.requires((u, a, x)),
        ensures
            exchange(self.operations(), *post, method.name@, trees_of(method.body@), response_outcome(r)),
    {
        let url = match self.wsdl.get(method.name.as_str()) {
            None => return Err(Error::MethodNotFoundInWsdl(method.name)),
            Some(op) => op.url.as_str(),
        };
        let envelope = method.as_xml(url);
        let reply = post(url, method.name.as_str(), envelope.as_str());
        match reply {
            Err(m) => Err(Error::Http(m)),
            Ok(text) => match Response::from_xml(text.as_str()) {
                Ok(resp) => Ok(resp),
                Err(e) => Err(Error::Rpc(e)),
            },
        }
    }
}

} // verus!
