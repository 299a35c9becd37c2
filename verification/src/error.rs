//! The error taxonomy surfaced to API callers, and the uniform response
//! envelope: a successful payload or a coded error with a description.

use vstd::prelude::*;

verus! {

/// Failure categories reported to callers of the API layer.
#[derive(Debug, Clone, Copy, PartialEq, Eq, Structural)]
pub enum Error {
    Internal,
    DiscordAPI,
    Unauthorized,
    InvalidRequest,
}

/// The numeric code a variant is transmitted as.
pub open spec fn spec_error_code(e: Error) -> u16 {
    match e {
        Error::Internal => 0,
        Error::DiscordAPI => 1,
        Error::Unauthorized => 2,
        Error::InvalidRequest => 3,
    }
}

impl Error {
    /// The numeric code of this error variant on the wire.
    pub fn code(self) -> (r: u16)
        ensures
            r == spec_error_code(self),
    {
        match self {
            Error::Internal => 0,
            Error::DiscordAPI => 1,
            Error::Unauthorized => 2,
            Error::InvalidRequest => 3,
        }
    }

    /// The description used when the caller supplies none.
    pub fn default_description(self) -> (r: String)
        ensures
            r@ == spec_default_description(self),
    {
        proof {
            reveal_strlit("internal error");
            reveal_strlit("discord api errror");
            reveal_strlit("not authorized");
            reveal_strlit("invalid request");
        }
        match self {
            Error::Internal => String::from_str("internal error"),
            Error::DiscordAPI => String::from_str("discord api errror"),
            Error::Unauthorized => String::from_str("not authorized"),
            Error::InvalidRequest => String::from_str("invalid request"),
        }
    }

    /// Wraps this error into a response body, with the given description or
    /// the default one.
    pub fn into_err_with_desc(self, description: Option<String>) -> (r: ErrResponse)
        ensures
            r.err.code == self,
            r.err.description@ == match description {
                Some(d) => d@,
                None => spec_default_description(self),
            },
    {
        let description = match description {
            Some(d) => d,
            None => self.default_description(),
        };
        ErrResponse { err: UserError { code: self, description } }
    }

    /// Wraps this error into a response body with its default description.
    pub fn into_err(self) -> (r: ErrResponse)
        ensures
            r.err.code == self,
            r.err.description@ == spec_default_description(self),
    {
        self.into_err_with_desc(None)
    }
}

/// The description text used when the caller supplies none.
pub open spec fn spec_default_description(e: Error) -> Seq<char> {
    match e {
        Error::Internal => "internal error"@,
        Error::DiscordAPI => "discord api errror"@,
        Error::Unauthorized => "not authorized"@,
        Error::InvalidRequest => "invalid request"@,
    }
}

/// A coded error with human-readable detail.
#[derive(Debug, PartialEq, Eq)]
pub struct UserError {
    pub code: Error,
    pub description: String,
}

/// The error body of a failed response.
#[derive(Debug, PartialEq, Eq)]
pub struct ErrResponse {
    pub err: UserError,
}

/// The body of a successful response.
#[derive(Debug, PartialEq, Eq)]
pub struct OkResponse<T> {
    pub ok: T,
}

impl<T> OkResponse<T> {
    /// Wraps a payload as a successful response.
    pub fn ok(v: T) -> (r: Rsp<T>)
        ensures
            r == Rsp::Success(OkResponse { ok: v }),
    {
        Rsp::Success(OkResponse { ok: v })
    }
}

/// A response: either a successful payload or a coded error.
#[derive(Debug, PartialEq, Eq)]
pub enum Rsp<T> {
    Success(OkResponse<T>),
    Failure(ErrResponse),
}

impl<T> Rsp<T> {
    /// A successful response around `v`.
    pub fn ok(v: T) -> (r: Self)
        ensures
            r == Rsp::Success(OkResponse { ok: v }),
    {
        OkResponse::ok(v)
    }

    /// A failed response with the given error and optional description.
    pub fn err(e: Error, description: Option<String>) -> (r: Self)
        ensures
            r matches Rsp::Failure(body) && body.err.code == e && body.err.description@
                == match description {
                Some(d) => d@,
                None => spec_default_description(e),
            },
    {
        Rsp::Failure(e.into_err_with_desc(description))
    }
}

} // verus!
