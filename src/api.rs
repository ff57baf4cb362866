//! What the HTTP boundary answers: status codes for each outcome, and the body
//! of an error response.

use vstd::prelude::*;

use crate::url_service::{GetUrlError, PostUrlError, PutUrlError, UrlCreationStatus};

verus! {

/// Body of an error response.
pub struct Error {
    pub error: String,
    pub error_id: String,
}

/// `201 Created` for a new entry, `200 OK` for an identical one found stored.
pub fn creation_status_code(status: UrlCreationStatus) -> (r: u16)
    ensures
        r == (if status == UrlCreationStatus::NewlyCreated {
            201u16
        } else {
            200u16
        }),
{
    match status {
        UrlCreationStatus::NewlyCreated => 201,
        UrlCreationStatus::AlreadyExists => 200,
    }
}

/// `404 Not Found` for an absent or expired identifier, `500` for a store
/// failure.
pub fn get_error_status_code(error: &GetUrlError) -> (r: u16)
    ensures
        r == (if error is NotFound {
            404u16
        } else {
            500u16
        }),
{
    match error {
        GetUrlError::NotFound => 404,
        GetUrlError::Db(_) => 500,
    }
}

/// `409 Conflict` for a taken identifier, `400 Bad Request` for invalid input,
/// `500` for an internal failure.
pub fn put_error_status_code(error: &PutUrlError) -> (r: u16)
    ensures
        r == (match error {
            PutUrlError::ShortIdAlreadyTaken => 409u16,
            PutUrlError::Internal(_) => 500u16,
            _ => 400u16,
        }),
{
    match error {
        PutUrlError::ShortIdAlreadyTaken => 409,
        PutUrlError::Internal(_) => 500,
        PutUrlError::TimestampParse(_) => 400,
        PutUrlError::InvalidExpirationTime(_) => 400,
        PutUrlError::InvalidShortId(_) => 400,
        PutUrlError::InvalidUrl(_) => 400,
    }
}

/// `400 Bad Request` for invalid input, `500` for an internal failure.
pub fn post_error_status_code(error: &PostUrlError) -> (r: u16)
    ensures
        r == (if error is Internal {
            500u16
        } else {
            400u16
        }),
{
    match error {
        PostUrlError::Internal(_) => 500,
        PostUrlError::TimestampParse(_) => 400,
        PostUrlError::InvalidExpirationTime(_) => 400,
        PostUrlError::InvalidUrl(_) => 400,
    }
}

} // verus!
