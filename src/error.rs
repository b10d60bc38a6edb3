use vstd::prelude::*;
use reqwest::Error as HttpError;

verus! {

/// `reqwest::Error`, carried through in the library's own error.
#[verifier::external_type_specification]
#[verifier::external_body]
pub struct ExRequestError(HttpError);

/// What can go wrong when talking to the event store.
#[derive(Debug)]
pub enum Error {
    /// A required setting is empty; the field names it.
    MissingConfig(String),
    /// The server answered with a status outside 200..=299.
    ApiError { status: u16, status_text: String },
    /// The HTTP exchange itself failed.
    RequestError(HttpError),
    /// A body or a line is not the JSON that was expected.
    JsonError(serde_json::Error),
    /// The server's answer could not be used.
    InvalidResponse(String),
    /// A required environment variable is absent.
    EnvError(String),
}

} // verus!
