//! Unified error taxonomy, and the one place where an internal failure kind
//! is turned into the coarse client-facing category and HTTP status code.
//! Internal parameters (ids, reasons) never reach the client: only the
//! category tag does.

use vstd::prelude::*;

verus! {

/// Internal failure kinds, produced by the login collaborator, the
/// resolver/guard, and the ticket store.
#[derive(Clone, Copy, Debug, PartialEq, Eq, Structural)]
pub enum Error {
    LoginFailUsernameNotFound,
    LoginFailUserPasswordNotMatching { user_id: u64 },
    AuthFailNoAuthTokenCookie,
    AuthFailTokenWrongFormat,
    AuthFailCtxNotInRequestExt,
    TicketDeleteFailIdNotFound { id: u64 },
}

/// Client-facing error categories: coarse tags, decoupled from internal
/// detail.
#[derive(Clone, Copy, Debug, PartialEq, Eq, Structural)]
pub enum ClientError {
    LoginFail,
    NoAuth,
    InvalidParams,
    ServiceError,
}

/// The fixed mapping table from an internal kind to the pair of HTTP status
/// code and client-facing category. Every internal kind maps to exactly one
/// pair; anything not covered by a more specific row would fall back to
/// `(500, ServiceError)`.
pub open spec fn spec_client_status_and_error(e: Error) -> (u16, ClientError) {
    match e {
        Error::LoginFailUsernameNotFound => (403u16, ClientError::LoginFail),
        Error::LoginFailUserPasswordNotMatching { .. } => (403u16, ClientError::LoginFail),
        Error::AuthFailNoAuthTokenCookie => (403u16, ClientError::NoAuth),
        Error::AuthFailTokenWrongFormat => (403u16, ClientError::NoAuth),
        Error::AuthFailCtxNotInRequestExt => (403u16, ClientError::NoAuth),
        Error::TicketDeleteFailIdNotFound { .. } => (404u16, ClientError::InvalidParams),
    }
}

impl Error {
    /// The status code and client category this kind maps to, per the fixed
    /// table above.
    pub fn client_status_and_error(&self) -> (r: (u16, ClientError))
        ensures
            r == spec_client_status_and_error(*self),
    {
        match self {
            Error::LoginFailUsernameNotFound => (403, ClientError::LoginFail),
            Error::LoginFailUserPasswordNotMatching { .. } => (403, ClientError::LoginFail),
            Error::AuthFailNoAuthTokenCookie => (403, ClientError::NoAuth),
            Error::AuthFailTokenWrongFormat => (403, ClientError::NoAuth),
            Error::AuthFailCtxNotInRequestExt => (403, ClientError::NoAuth),
            Error::TicketDeleteFailIdNotFound { .. } => (404, ClientError::InvalidParams),
        }
    }
}

/// The tag string for a client category, exactly as it appears in the error
/// envelope's `type` field.
pub open spec fn spec_client_error_tag(c: ClientError) -> Seq<char> {
    match c {
        ClientError::LoginFail => "LOGIN_FAIL"@,
        ClientError::NoAuth => "NO_AUTH"@,
        ClientError::InvalidParams => "INVALID_PARAMS"@,
        ClientError::ServiceError => "SERVICE_ERROR"@,
    }
}

impl ClientError {
    /// The tag written into the client error envelope for this category.
    pub fn as_tag(&self) -> (r: &'static str)
        ensures
            r@ == spec_client_error_tag(*self),
    {
        match self {
            ClientError::LoginFail => "LOGIN_FAIL",
            ClientError::NoAuth => "NO_AUTH",
            ClientError::InvalidParams => "INVALID_PARAMS",
            ClientError::ServiceError => "SERVICE_ERROR",
        }
    }
}

/// A convenient alias: every fallible operation of this crate reports an
/// `Error`.
pub type TicketResult<T> = Result<T, Error>;

} // verus!
