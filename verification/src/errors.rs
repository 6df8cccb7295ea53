//! The closed error taxonomy: each kind carries a fixed HTTP status, a fixed
//! caller-safe message and a fixed internal debug sentence, and renders into
//! an [`ApiError`] envelope.

use vstd::prelude::*;

verus! {

/// The closed set of failure categories. `Timeout` and `NotFound` are part of
/// the enumeration although the create-only handler never produces them.
#[derive(Debug, Clone, Copy, PartialEq, Eq, Structural)]
pub enum MyError {
    InternalError,
    BadClientData,
    NotFound,
    Timeout,
}

/// The structured error envelope sent to callers when a request fails.
#[derive(Debug, Clone)]
pub struct ApiError {
    pub status_code: u16,
    pub time: String,
    pub message: String,
    pub debug_message: Option<String>,
}

impl MyError {
    /// The fixed HTTP status of each kind.
    pub open spec fn spec_status(self) -> u16 {
        match self {
            MyError::InternalError => 500,
            MyError::BadClientData => 400,
            MyError::NotFound => 404,
            MyError::Timeout => 504,
        }
    }

    /// The fixed caller-safe message of each kind.
    pub open spec fn spec_message(self) -> Seq<char> {
        match self {
            MyError::InternalError => "Internal server error"@,
            MyError::BadClientData => "Bad request"@,
            MyError::NotFound => "Not found"@,
            MyError::Timeout => "Timeout"@,
        }
    }

    /// The fixed internal debug sentence of each kind. It is canned: it never
    /// carries detail of the concrete failure.
    pub open spec fn spec_debug_message(self) -> Seq<char> {
        match self {
            MyError::InternalError => "Internal server error. Please try again later."@,
            MyError::BadClientData => "Bad user data"@,
            MyError::NotFound => "User not found for the given ID"@,
            MyError::Timeout => "The operation timed out. Please try again later."@,
        }
    }

    /// The HTTP status code of this kind.
    pub fn status_code(&self) -> (r: u16)
        ensures
            r == self.spec_status(),
    {
        match self {
            MyError::InternalError => 500,
            MyError::BadClientData => 400,
            MyError::NotFound => 404,
            MyError::Timeout => 504,
        }
    }

    /// The caller-safe message of this kind.
    pub fn message(&self) -> (r: String)
        ensures
            r@ == self.spec_message(),
    {
        match self {
            MyError::InternalError => "Internal server error".to_owned(),
            MyError::BadClientData => "Bad request".to_owned(),
            MyError::NotFound => "Not found".to_owned(),
            MyError::Timeout => "Timeout".to_owned(),
        }
    }

    /// The internal debug sentence of this kind.
    pub fn debug_message(&self) -> (r: String)
        ensures
            r@ == self.spec_debug_message(),
    {
        match self {
            MyError::InternalError => "Internal server error. Please try again later.".to_owned(),
            MyError::BadClientData => "Bad user data".to_owned(),
            MyError::NotFound => "User not found for the given ID".to_owned(),
            MyError::Timeout => "The operation timed out. Please try again later.".to_owned(),
        }
    }

    /// Builds the structured envelope for this kind, stamped with the given
    /// render-time timestamp.
    pub fn error_response_at(&self, time: String) -> (r: ApiError)
        ensures
            r.status_code == self.spec_status(),
            r.time == time,
            r.message@ == self.spec_message(),
            r.debug_message matches Some(d) && d@ == self.spec_debug_message(),
    {
        ApiError {
            status_code: self.status_code(),
            time,
            message: self.message(),
            debug_message: Some(self.debug_message()),
        }
    }

    /// Builds the structured envelope for this kind, stamped with the wall
    /// clock at the moment of the call. Everything but the timestamp is fixed
    /// by the kind alone.
    pub fn error_response(&self) -> (r: ApiError)
        ensures
            r.status_code == self.spec_status(),
            r.time@.len() > 0,
            r.message@ == self.spec_message(),
            r.debug_message matches Some(d) && d@ == self.spec_debug_message(),
    {
        let time = now_rfc3339_micros();
        self.error_response_at(time)
    }
}

/// Relies on chrono's `Utc::now` and `DateTime::to_rfc3339_opts` with
/// microsecond precision and a `Z` suffix: the current instant as an RFC 3339
/// timestamp string. The result depends on the wall clock, so nothing is
/// assumed of it beyond being non-empty.
#[verifier::external_body]
pub(crate) fn now_rfc3339_micros() -> (r: String)
    ensures
        r@.len() > 0,
{
    chrono::Utc::now().to_rfc3339_opts(chrono::SecondsFormat::Micros, true)
}

/// Every kind maps to exactly one status, that status is never a success
/// status, and distinct kinds map to distinct statuses.
pub proof fn lemma_status_table(a: MyError, b: MyError)
    ensures
        400 <= a.spec_status() < 600,
        a != b ==> a.spec_status() != b.spec_status(),
{
}

} // verus!
