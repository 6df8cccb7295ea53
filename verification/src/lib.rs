//! A small user-creation service core: a request handler that validates a
//! candidate user record, hands it to a document store, and maps the outcome
//! through a closed error taxonomy onto an HTTP status code and response body.
//!
//! The store itself, the HTTP transport and process bootstrap live outside
//! this crate; this library holds the decision logic and the exact shape of
//! every response it can produce.

pub mod errors;
pub mod handler;
pub mod json;
pub mod strutil;
pub mod user;

pub use errors::ApiError;
pub use errors::MyError;
pub use handler::HttpReply;
pub use handler::RenderMode;
pub use handler::StoreOutcome;
pub use user::User;
