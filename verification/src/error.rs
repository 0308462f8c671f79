//! The error every handler answers with, its status code and its message.

use vstd::prelude::*;
use crate::response::UniResponse;

verus! {

/// An error returned by a handler.
#[derive(Debug, Clone)]
pub enum UniError {
    DatabaseError(String),
    InternalError(String),
    NotFound(String),
    AuthError,
    CustomError(String),
    SQLError(String),
    BadRequest(String),
    NotEnoughPermission,
}

/// The HTTP status code that answers an error.
pub open spec fn error_code(e: UniError) -> i32 {
    match e {
        UniError::DatabaseError(_) => 500,
        UniError::InternalError(_) => 500,
        UniError::NotFound(_) => 404,
        UniError::AuthError => 401,
        UniError::CustomError(_) => 400,
        UniError::SQLError(_) => 400,
        UniError::BadRequest(_) => 400,
        UniError::NotEnoughPermission => 403,
    }
}

/// The text of an error, as shown to the client.
pub open spec fn error_message(e: UniError) -> Seq<char> {
    match e {
        UniError::DatabaseError(s) => "Database error: "@ + s@,
        UniError::InternalError(s) => "Internal error: "@ + s@,
        UniError::NotFound(s) => "Not Found: "@ + s@,
        UniError::AuthError => "Authentication error"@,
        UniError::CustomError(s) => s@,
        UniError::SQLError(s) => "SQL Execution Error: "@ + s@,
        UniError::BadRequest(s) => "Bad Request: "@ + s@,
        UniError::NotEnoughPermission => "Not Enough Permission"@,
    }
}

fn prefixed(prefix: &str, s: &String) -> (r: String)
    ensures
        r@ == prefix@ + s@,
{
    let mut r = String::from_str(prefix);
    r.append(s.as_str());
    r
}

impl UniError {
    /// The HTTP status code of this error.
    pub fn code(&self) -> (r: i32)
        ensures
            r == error_code(*self),
    {
        match self {
            UniError::DatabaseError(_) => 500,
            UniError::InternalError(_) => 500,
            UniError::NotFound(_) => 404,
            UniError::AuthError => 401,
            UniError::CustomError(_) => 400,
            UniError::SQLError(_) => 400,
            UniError::BadRequest(_) => 400,
            UniError::NotEnoughPermission => 403,
        }
    }

    /// The message of this error (what `to_string` gives).
    pub fn message(&self) -> (r: String)
        ensures
            r@ == error_message(*self),
    {
        match self {
            UniError::DatabaseError(s) => prefixed("Database error: ", s),
            UniError::InternalError(s) => prefixed("Internal error: ", s),
            UniError::NotFound(s) => prefixed("Not Found: ", s),
            UniError::AuthError => String::from_str("Authentication error"),
            UniError::CustomError(s) => s.clone(),
            UniError::SQLError(s) => prefixed("SQL Execution Error: ", s),
            UniError::BadRequest(s) => prefixed("Bad Request: ", s),
            UniError::NotEnoughPermission => String::from_str("Not Enough Permission"),
        }
    }

    /// The response body that carries this error: its code and its message,
    /// no data and no page information.
    pub fn to_response(&self) -> (r: UniResponse<()>)
        ensures
            r.code == error_code(*self),
            r.message@ == error_message(*self),
            r.data.is_none(),
            r.meta.is_none(),
    {
        UniResponse::err(self.code(), self.message())
    }
}

} // verus!
