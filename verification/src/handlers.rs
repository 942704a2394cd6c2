//! The access-control gate: request-parameter normalization, the decision
//! between "create a new paste" and "open an existing one", and the one
//! credential check guarding the reserved test identifier.

use crate::db::Data;
use crate::db::UID_LENGTH;
use crate::db::is_alphanum_char;
use crate::db::uid_of;
use vstd::prelude::*;

verus! {

/// The reserved identifier that exercises the password gate.
pub open spec fn sentinel() -> Seq<char> {
    "pwdtest"@
}

/// The one password the sentinel identifier accepts.
pub open spec fn secret() -> Seq<char> {
    "Geronimo"@
}

/// The view of an optional string.
pub open spec fn opt_view(s: Option<String>) -> Option<Seq<char>> {
    match s {
        Some(t) => Some(t@),
        None => None,
    }
}

/// Raw `id` / `pwd` fields as one transport source (query string or form
/// body) supplies them; either may be absent.
pub struct RawParams {
    pub id: Option<String>,
    pub pwd: Option<String>,
}

/// The access controller's single input shape: an identifier (empty means
/// "allocate a new one") and an optional password.
pub struct Credentials {
    pub id: String,
    pub pwd: Option<String>,
}

/// The terminal states of the access controller.
pub enum Decision {
    /// The request may proceed to the editor view of `id`.
    Authorized { id: String, pwd: Option<String> },
    /// The request is turned away with a not-found response.
    Rejected,
}

/// A non-empty identifier is allowed through unless it is the sentinel
/// accompanied by anything other than the one expected secret.
pub open spec fn validate_allows(id: Seq<char>, pwd: Option<Seq<char>>) -> bool {
    id == sentinel() ==> pwd == Some(secret())
}

/// Turn one transport parameter source into the controller's input: an
/// absent `id` becomes the empty identifier, the password passes through.
pub fn normalize(params: RawParams) -> (c: Credentials)
    ensures
        c.id@ == match params.id {
            Some(s) => s@,
            None => Seq::<char>::empty(),
        },
        opt_view(c.pwd) == opt_view(params.pwd),
{
    let id = match params.id {
        Some(s) => s,
        None => String::new(),
    };
    Credentials { id, pwd: params.pwd }
}

/// The validation step alone: does `(id, pwd)` pass the credential check?
pub fn validate(id: &String, pwd: &Option<String>) -> (allow: bool)
    ensures
        allow == validate_allows(id@, opt_view(*pwd)),
{
    let sentinel_id: String = "pwdtest".to_owned();
    if *id == sentinel_id {
        match pwd {
            Some(p) => {
                let secret_pwd: String = "Geronimo".to_owned();
                *p == secret_pwd
            },
            None => false,
        }
    } else {
        true
    }
}

/// The access controller. An empty identifier means a fresh paste: a new
/// identifier is generated (the one state mutation) and the request is
/// authorized. A non-empty identifier is validated against the sentinel rule
/// with no state change: the sentinel without the secret is rejected, and
/// everything else is authorized.
pub fn access_paste(creds: Credentials, data: &mut Data) -> (d: Decision)
    ensures
        creds.id@.len() == 0 ==> {
            &&& final(data).seed() == old(data).seed()
            &&& final(data).draws() == old(data).draws() + UID_LENGTH
            &&& final(data).socket_spec() == old(data).socket_spec()
            &&& (d matches Decision::Authorized { id, pwd } ==> id@ == uid_of(
                old(data).seed(),
                old(data).draws(),
            ) && id@.len() == UID_LENGTH && (forall|i: int|
                0 <= i < id@.len() ==> is_alphanum_char(#[trigger] id@[i])) && opt_view(pwd)
                == opt_view(creds.pwd))
            &&& d is Authorized
        },
        creds.id@.len() > 0 ==> {
            &&& *final(data) == *old(data)
            &&& d == (if validate_allows(creds.id@, opt_view(creds.pwd)) {
                Decision::Authorized { id: creds.id, pwd: creds.pwd }
            } else {
                Decision::Rejected
            })
        },
{
    let Credentials { id, pwd } = creds;
    if id.as_str().is_empty() {
        let fresh = data.generate_uid();
        Decision::Authorized { id: fresh, pwd }
    } else {
        if validate(&id, &pwd) {
            Decision::Authorized { id, pwd }
        } else {
            Decision::Rejected
        }
    }
}

/// The sentinel is authorized with the one expected secret and rejected with
/// any other password, or with none.
pub proof fn lemma_sentinel_gate(pwd: Option<Seq<char>>)
    ensures
        pwd == Some(secret()) ==> validate_allows(sentinel(), pwd),
        pwd != Some(secret()) ==> !validate_allows(sentinel(), pwd),
{
}

/// Any non-sentinel, non-empty identifier is authorized whatever the
/// password.
pub proof fn lemma_non_sentinel_authorized(id: Seq<char>, pwd: Option<Seq<char>>)
    requires
        id.len() > 0,
        id != sentinel(),
    ensures
        validate_allows(id, pwd),
{
}

/// Submitting the same non-empty credential pair twice yields the same
/// decision both times: the validation path is a pure function of the pair,
/// with no hidden state advance. The two hypotheses are exactly what the
/// access controller ensures of each of the two calls.
pub proof fn lemma_decision_idempotent(
    id: String,
    pwd: Option<String>,
    first: Decision,
    second: Decision,
)
    requires
        id@.len() > 0,
        first == (if validate_allows(id@, opt_view(pwd)) {
            Decision::Authorized { id, pwd }
        } else {
            Decision::Rejected
        }),
        second == (if validate_allows(id@, opt_view(pwd)) {
            Decision::Authorized { id, pwd }
        } else {
            Decision::Rejected
        }),
    ensures
        first == second,
{
}

/// The content placeholder every editor page is rendered with.
pub open spec fn default_content() -> Seq<char> {
    r"\\begin{equation}\n\te^{i\\pi} + 1 = 0\n\\end{equation}"@
}

/// The template parameters of the editor page: the resolved identifier and
/// the content placeholder.
pub fn editor_params(id: String) -> (pairs: Vec<(String, String)>)
    ensures
        pairs@.len() == 2,
        pairs@[0].0@ == "id"@,
        pairs@[0].1@ == id@,
        pairs@[1].0@ == "original_content"@,
        pairs@[1].1@ == default_content(),
{
    let mut pairs: Vec<(String, String)> = Vec::new();
    pairs.push(("id".to_owned(), id));
    pairs.push(
        ("original_content".to_owned(), r"\\begin{equation}\n\te^{i\\pi} + 1 = 0\n\\end{equation}".to_owned()),
    );
    pairs
}

/// The template parameters of the index page: the identifier field to
/// prefill.
pub fn index_params(id_prefill: String) -> (pairs: Vec<(String, String)>)
    ensures
        pairs@.len() == 1,
        pairs@[0].0@ == "id"@,
        pairs@[0].1@ == id_prefill@,
{
    let mut pairs: Vec<(String, String)> = Vec::new();
    pairs.push(("id".to_owned(), id_prefill));
    pairs
}

/// The fixed body of the not-found response.
pub fn not_found() -> (b: String)
    ensures
        b@ == "Page non trouv\u{e9}e"@,
{
    "Page non trouv\u{e9}e".to_owned()
}

/// The fixed body of the placeholder render-status response.
pub fn pdf_view() -> (b: String)
    ensures
        b@ == "heyo let me compile"@,
{
    "heyo let me compile".to_owned()
}

} // verus!
