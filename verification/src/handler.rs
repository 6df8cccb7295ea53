//! The request-to-response logic of the create-user endpoint: the local
//! validation step that runs before any store call, the classification of a
//! store outcome, and the rendering of the final HTTP reply.

use vstd::prelude::*;
use crate::errors::MyError;
use crate::errors::now_rfc3339_micros;
use crate::json::api_error_json;
use crate::json::escape_seq;
use crate::json::lemma_escape_seq_len;
use crate::user::User;

verus! {

/// What the store reported for the single insert attempt: the identifier it
/// assigned, or a failure with its driver-side detail. The detail is carried
/// only so the library can show it never reaches the caller.
pub enum StoreOutcome {
    Inserted(String),
    Failed(String),
}

/// How a failed request is encoded: the structured JSON envelope, or the bare
/// caller-safe message. Fixed per deployment, never chosen per request.
#[derive(Debug, Clone, Copy, PartialEq, Eq, Structural)]
pub enum RenderMode {
    Structured,
    Plain,
}

/// A finished HTTP reply: the status code and the body text.
#[derive(Debug, Clone)]
pub struct HttpReply {
    pub status: u16,
    pub body: String,
}

/// The decision taken on a decoded payload before any store call: the record
/// to insert (its `id` cleared — the store assigns it), or the taxonomy kind
/// to answer with.
pub open spec fn spec_create_plan(u: User) -> Result<User, MyError> {
    if u.spec_valid() {
        Ok(
            User {
                id: None,
                first_name: u.first_name,
                last_name: u.last_name,
                email: u.email,
            },
        )
    } else {
        Err(MyError::BadClientData)
    }
}

/// How a store outcome is classified: the assigned identifier on success, and
/// the default `InternalError` kind on any store failure, whatever its
/// driver-side detail was.
pub open spec fn spec_classify(o: StoreOutcome) -> Result<Seq<char>, MyError> {
    match o {
        StoreOutcome::Inserted(id) => Ok(id@),
        StoreOutcome::Failed(_) => Err(MyError::InternalError),
    }
}

/// The body of a successful creation: the assigned identifier as a JSON
/// string.
pub open spec fn spec_created_body(id: Seq<char>) -> Seq<char> {
    seq!['"'] + escape_seq(id) + seq!['"']
}

/// The body of a failed request under the given rendering mode, stamped with
/// the given render time.
pub open spec fn spec_error_body(kind: MyError, mode: RenderMode, time: Seq<char>) -> Seq<char> {
    match mode {
        RenderMode::Plain => kind.spec_message(),
        RenderMode::Structured => api_error_json(
            kind.spec_status(),
            time,
            kind.spec_message(),
            Some(kind.spec_debug_message()),
        ),
    }
}

/// Validates a decoded payload. Exactly one insert may follow, and only on
/// `Ok`: an invalid payload is answered locally with `BadClientData`, before
/// any store call.
pub fn handle_create(u: &User) -> (r: Result<User, MyError>)
    ensures
        r == spec_create_plan(*u),
{
    if u.validate() {
        Ok(
            User {
                id: None,
                first_name: u.first_name.clone(),
                last_name: u.last_name.clone(),
                email: u.email.clone(),
            },
        )
    } else {
        Err(MyError::BadClientData)
    }
}

/// Classifies the store's answer to the one insert attempt.
pub fn complete_create(o: StoreOutcome) -> (r: Result<String, MyError>)
    ensures
        match r {
            Ok(id) => spec_classify(o) == Ok::<Seq<char>, MyError>(id@),
            Err(k) => spec_classify(o) == Err::<Seq<char>, MyError>(k),
        },
{
    match o {
        StoreOutcome::Inserted(id) => Ok(id),
        StoreOutcome::Failed(_) => Err(MyError::InternalError),
    }
}

/// The reply for a successful insert: 201 with the assigned identifier in the
/// body.
pub fn respond_created(id: &String) -> (r: HttpReply)
    ensures
        r.status == 201,
        r.body@ == spec_created_body(id@),
{
    let mut out: Vec<char> = Vec::new();
    out.push('"');
    let idv = crate::strutil::string_to_chars(id.as_str());
    crate::json::push_escaped_seq(&mut out, &idv);
    out.push('"');
    let body = crate::strutil::chars_to_string(&out);
    proof {
        assert(body@ =~= spec_created_body(id@));
    }
    HttpReply { status: 201, body }
}

/// Renders a failed request under the given mode, stamped with the given
/// render time.
pub fn render_error_at(kind: MyError, mode: RenderMode, time: String) -> (r: HttpReply)
    ensures
        r.status == kind.spec_status(),
        r.body@ == spec_error_body(kind, mode, time@),
{
    match mode {
        RenderMode::Plain => HttpReply { status: kind.status_code(), body: kind.message() },
        RenderMode::Structured => {
            let env = kind.error_response_at(time);
            let body = env.to_json();
            HttpReply { status: kind.status_code(), body }
        },
    }
}

/// Renders a failed request under the given mode, stamped with the wall clock
/// at the moment of the call. Everything but the timestamp characters is
/// fixed by the kind and the mode.
pub fn render_error(kind: MyError, mode: RenderMode) -> (r: HttpReply)
    ensures
        r.status == kind.spec_status(),
        mode is Plain ==> r.body@ == kind.spec_message(),
        mode is Structured ==> exists|t: Seq<char>|
            r.body@ == spec_error_body(kind, RenderMode::Structured, t),
{
    let time = now_rfc3339_micros();
    let r = render_error_at(kind, mode, time);
    proof {
        if mode is Structured {
            assert(r.body@ == spec_error_body(kind, RenderMode::Structured, time@));
        }
    }
    r
}

/// The reply for a store outcome: 201 with the identifier on success, the
/// rendered `InternalError` on any failure.
pub fn reply_for_outcome(o: StoreOutcome, mode: RenderMode) -> (r: HttpReply)
    ensures
        o matches StoreOutcome::Inserted(id) ==> r.status == 201 && r.body@ == spec_created_body(
            id@,
        ),
        o matches StoreOutcome::Failed(m) ==> r.status == 500 && (mode is Plain ==> r.body@
            == MyError::InternalError.spec_message()) && (mode is Structured ==> exists|t: Seq<char>|
            r.body@ == spec_error_body(MyError::InternalError, RenderMode::Structured, t)),
{
    match o {
        StoreOutcome::Inserted(id) => respond_created(&id),
        StoreOutcome::Failed(_) => render_error(MyError::InternalError, mode),
    }
}

/// A valid payload whose insert succeeded is answered with exactly 201, and
/// the body carries the (non-empty) assigned identifier: escaped in general,
/// and verbatim whenever the identifier needs no escaping.
pub proof fn lemma_create_success(u: User, id: Seq<char>)
    requires
        u.spec_valid(),
        id.len() > 0,
    ensures
        spec_create_plan(u) is Ok,
        spec_created_body(id).len() >= id.len() + 2,
        spec_created_body(id) == seq!['"'] + escape_seq(id) + seq!['"'],
        (forall|i: int| 0 <= i < id.len() ==> !crate::json::needs_escape(id[i]))
            ==> spec_created_body(id) == seq!['"'] + id + seq!['"'],
{
    lemma_escape_seq_len(id);
    if forall|i: int| 0 <= i < id.len() ==> !crate::json::needs_escape(id[i]) {
        crate::json::lemma_escape_seq_plain(id);
    }
}

/// A payload that fails validation is answered locally with `BadClientData`,
/// HTTP 400; no record is handed on for insertion.
pub proof fn lemma_invalid_rejected(u: User)
    requires
        !u.spec_valid(),
    ensures
        spec_create_plan(u) == Err::<User, MyError>(MyError::BadClientData),
        MyError::BadClientData.spec_status() == 400,
{
}

/// Store-failure detail never shapes the answer: any two failures classify
/// alike, to `InternalError`, and the rendered body is a function of the kind,
/// the mode and the render time alone.
pub proof fn lemma_failure_detail_hidden(m1: String, m2: String)
    ensures
        spec_classify(StoreOutcome::Failed(m1)) == spec_classify(StoreOutcome::Failed(m2)),
        spec_classify(StoreOutcome::Failed(m1)) == Err::<Seq<char>, MyError>(
            MyError::InternalError,
        ),
{
}

/// Rendering the same kind twice yields identical status codes and identical
/// message texts, whatever the two render times were; only the timestamp may
/// differ between the two bodies.
pub proof fn lemma_render_idempotent(kind: MyError, mode: RenderMode, t1: Seq<char>, t2: Seq<char>)
    ensures
        spec_error_body(kind, RenderMode::Plain, t1) == spec_error_body(
            kind,
            RenderMode::Plain,
            t2,
        ),
        api_error_json(kind.spec_status(), t1, kind.spec_message(), Some(kind.spec_debug_message()))
            == spec_error_body(kind, RenderMode::Structured, t1),
{
}

} // verus!
