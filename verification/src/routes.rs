//! The route decision tree: which resource a request reaches, with the
//! access controller composed in front of the editor view, and the fixed
//! bodies of the placeholder and not-found responses.

use crate::db::Data;
use crate::db::UID_LENGTH;
use crate::db::is_alphanum_char;
use crate::db::uid_of;
use crate::handlers::Credentials;
use crate::handlers::Decision;
use crate::handlers::RawParams;
use crate::handlers::access_paste;
use crate::handlers::normalize;
use crate::handlers::opt_view;
use crate::handlers::validate_allows;
use vstd::prelude::*;

verus! {

broadcast use vstd::string::group_string_axioms;

/// The request methods the service distinguishes.
pub enum Method {
    Get,
    Post,
}

/// A transport-independent request: method, decoded path segments, the
/// `id` / `pwd` fields of the query string and of the form body, and whether
/// the request asks for a websocket upgrade.
pub struct Request {
    pub method: Method,
    pub path: Vec<String>,
    pub query: RawParams,
    pub form: RawParams,
    pub upgrade: bool,
}

/// What the transport layer is directed to serve.
pub enum Resource {
    /// The index page, with the identifier field prefilled.
    IndexPage { id_prefill: String },
    /// The editor page of one paste.
    EditorPage { id: String },
    /// The placeholder render-status response (plain 200 with a fixed body).
    ViewStatus,
    /// A file under the static asset directory, named by the remaining
    /// path segments.
    StaticAsset { path: Vec<String> },
    /// The favicon file.
    Favicon,
    /// The websocket echo channel.
    EchoSocket,
    /// A 404 response with the fixed not-found body.
    NotFoundPage,
}

pub open spec fn root_path(path: Seq<Seq<char>>) -> bool {
    path.len() == 0
}

pub open spec fn editor_path(path: Seq<Seq<char>>) -> bool {
    path.len() == 2 && path[0] == "e"@
}

pub open spec fn view_path(path: Seq<Seq<char>>) -> bool {
    path.len() == 3 && path[0] == "e"@ && path[2] == "view"@
}

pub open spec fn static_path(path: Seq<Seq<char>>) -> bool {
    path.len() >= 1 && path[0] == "static"@
}

pub open spec fn favicon_path(path: Seq<Seq<char>>) -> bool {
    path.len() == 1 && path[0] == "favicon.ico"@
}

/// No route matches: the request falls through to the not-found response.
pub open spec fn unrouted(req: Request) -> bool {
    let path = req.path.deep_view();
    &&& !req.upgrade || !root_path(path)
    &&& !(req.method is Get && root_path(path))
    &&& !(req.method is Post && root_path(path))
    &&& !(req.method is Get && editor_path(path))
    &&& !(req.method is Get && view_path(path))
    &&& !(req.method is Get && static_path(path))
    &&& !(req.method is Get && favicon_path(path))
}

/// Decide which resource a request reaches. Only the two routes that go
/// through the access controller can generate an identifier or be rejected;
/// every other route leaves the shared state untouched.
pub fn dispatch(req: Request, data: &mut Data) -> (r: Resource)
    ensures
        ({
            let path = req.path.deep_view();
            &&& (req.upgrade && root_path(path)) ==> (*final(data) == *old(data)
                && r is EchoSocket)
            &&& (!req.upgrade && req.method is Get && root_path(path)) ==> (*final(data) == *old(
                data,
            ) && (r matches Resource::IndexPage { id_prefill } && id_prefill@ == match req
                .query
                .id {
                Some(s) => s@,
                None => Seq::<char>::empty(),
            }))
            &&& (!req.upgrade && req.method is Post && root_path(path)) ==> post_root_directive(
                req,
                *old(data),
                *final(data),
                r,
            )
            &&& (req.method is Get && editor_path(path)) ==> open_paste_directive(
                path[1],
                *old(data),
                *final(data),
                r,
            )
            &&& (req.method is Get && view_path(path)) ==> (*final(data) == *old(data)
                && r is ViewStatus)
            &&& (req.method is Get && static_path(path)) ==> (*final(data) == *old(data) && (
            r matches Resource::StaticAsset { path: rest } && rest.deep_view() == path.skip(1)))
            &&& (req.method is Get && favicon_path(path)) ==> (*final(data) == *old(data)
                && r is Favicon)
            &&& unrouted(req) ==> (*final(data) == *old(data) && r is NotFoundPage)
        }),
{
    proof {
        reveal_strlit("e");
        reveal_strlit("view");
        reveal_strlit("static");
        reveal_strlit("favicon.ico");
        assert("e"@.len() == 1);
        assert("view"@.len() == 4);
        assert("static"@.len() == 6);
        assert("favicon.ico"@.len() == 11);
    }
    let Request { method, path, query, form, upgrade } = req;
    let is_root = path.len() == 0;
    if upgrade && is_root {
        return Resource::EchoSocket;
    }
    match method {
        Method::Get => {
            if is_root {
                let id_prefill = match query.id {
                    Some(s) => s,
                    None => String::new(),
                };
                return Resource::IndexPage { id_prefill };
            }
            if path.len() == 2 && segment_is(&path, 0, "e") {
                let id = clone_segment(&path, 1);
                return open_paste(id, data);
            }
            if path.len() == 3 && segment_is(&path, 0, "e") && segment_is(&path, 2, "view") {
                return Resource::ViewStatus;
            }
            if path.len() >= 1 && segment_is(&path, 0, "static") {
                let rest = tail_segments(&path);
                return Resource::StaticAsset { path: rest };
            }
            if path.len() == 1 && segment_is(&path, 0, "favicon.ico") {
                return Resource::Favicon;
            }
            Resource::NotFoundPage
        },
        Method::Post => {
            if is_root {
                let creds = normalize(form);
                let decision = access_paste(creds, data);
                match decision {
                    Decision::Authorized { id, pwd: _ } => Resource::EditorPage { id },
                    Decision::Rejected => Resource::NotFoundPage,
                }
            } else {
                Resource::NotFoundPage
            }
        },
    }
}

/// What `POST /` must produce: the form fields go through normalization and
/// the access controller; an authorized request reaches the editor page of
/// the resolved identifier, a rejected one the not-found response.
pub open spec fn post_root_directive(req: Request, pre: Data, post: Data, r: Resource) -> bool {
    let id = match req.form.id {
        Some(s) => s@,
        None => Seq::<char>::empty(),
    };
    let pwd = opt_view(req.form.pwd);
    if id.len() == 0 {
        &&& post.seed() == pre.seed()
        &&& post.draws() == pre.draws() + UID_LENGTH
        &&& post.socket_spec() == pre.socket_spec()
        &&& (r matches Resource::EditorPage { id: fresh } && fresh@ == uid_of(
            pre.seed(),
            pre.draws(),
        ) && fresh@.len() == UID_LENGTH && (forall|i: int|
            0 <= i < fresh@.len() ==> is_alphanum_char(#[trigger] fresh@[i])))
    } else {
        &&& post == pre
        &&& (if validate_allows(id, pwd) {
            r matches Resource::EditorPage { id: out } && out@ == id
        } else {
            r is NotFoundPage
        })
    }
}

/// What `GET /e/{id}` must produce: the path segment goes through the access
/// controller with no password, so an empty segment allocates a fresh
/// identifier, the sentinel is always rejected, and any other identifier
/// reaches its editor page.
pub open spec fn open_paste_directive(seg: Seq<char>, pre: Data, post: Data, r: Resource) -> bool {
    if seg.len() == 0 {
        &&& post.seed() == pre.seed()
        &&& post.draws() == pre.draws() + UID_LENGTH
        &&& post.socket_spec() == pre.socket_spec()
        &&& (r matches Resource::EditorPage { id: fresh } && fresh@ == uid_of(
            pre.seed(),
            pre.draws(),
        ) && fresh@.len() == UID_LENGTH && (forall|i: int|
            0 <= i < fresh@.len() ==> is_alphanum_char(#[trigger] fresh@[i])))
    } else {
        &&& post == pre
        &&& (if validate_allows(seg, None) {
            r matches Resource::EditorPage { id: out } && out@ == seg
        } else {
            r is NotFoundPage
        })
    }
}

/// Open the paste a path segment names: the access controller runs with no
/// password, exactly as a direct editor link supplies none.
fn open_paste(id: String, data: &mut Data) -> (r: Resource)
    ensures
        open_paste_directive(id@, *old(data), *final(data), r),
{
    let creds = Credentials { id, pwd: None };
    let decision = access_paste(creds, data);
    match decision {
        Decision::Authorized { id: out, pwd: _ } => Resource::EditorPage { id: out },
        Decision::Rejected => Resource::NotFoundPage,
    }
}

/// Does the path segment at `i` equal the given literal?
fn segment_is(path: &Vec<String>, i: usize, lit: &str) -> (r: bool)
    requires
        i < path@.len(),
    ensures
        r == (path.deep_view()[i as int] == lit@),
{
    let s: &String = &path[i];
    *s == lit.to_owned()
}

/// Clone the path segment at `i`.
fn clone_segment(path: &Vec<String>, i: usize) -> (r: String)
    requires
        i < path@.len(),
    ensures
        r@ == path.deep_view()[i as int],
{
    path[i].clone()
}

/// The path segments after the first, naming a file under the static
/// directory.
fn tail_segments(path: &Vec<String>) -> (r: Vec<String>)
    requires
        path@.len() >= 1,
    ensures
        r.deep_view() == path.deep_view().skip(1),
{
    let mut rest: Vec<String> = Vec::new();
    let mut i: usize = 1;
    while i < path.len()
        invariant
            1 <= i <= path@.len(),
            rest@.len() == i - 1,
            forall|j: int| 0 <= j < i - 1 ==> (#[trigger] rest@[j])@ == path.deep_view()[j + 1],
        decreases path@.len() - i,
    {
        let seg = path[i].clone();
        assert(seg@ == path.deep_view()[i as int]);
        rest.push(seg);
        i = i + 1;
    }
    proof {
        assert forall|j: int| 0 <= j < rest.deep_view().len() implies rest.deep_view()[j]
            == path.deep_view().skip(1)[j] by {
            assert(rest.deep_view()[j] == rest@[j]@);
        }
        assert(rest.deep_view() =~= path.deep_view().skip(1));
    }
    rest
}

} // verus!
