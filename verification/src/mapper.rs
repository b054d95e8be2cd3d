//! The response mapper: the single place where an internal failure is
//! separated from what the client sees. Given the outcome of a request it
//! produces (a) the replacement error envelope when a service error is
//! attached, with only the coarse kind and a correlation id, and (b) exactly
//! one structured log record carrying the full internal detail under the
//! same correlation id.

use vstd::prelude::*;
use vstd::string::StringExecFns;

use crate::ctx::Ctx;
use crate::error::ClientError;
use crate::error::Error;
use crate::error::spec_client_error_tag;
use crate::error::spec_client_status_and_error;

verus! {

/// The client error envelope body for a category tag and a correlation id:
/// `{"error":{"type":"<tag>","req_uuid":"<id>"}}`.
pub open spec fn spec_envelope(tag: Seq<char>, req_id: Seq<char>) -> Seq<char> {
    "{\"error\":{\"type\":\""@ + tag + "\",\"req_uuid\":\""@ + req_id + "\"}}"@
}

/// The replacement response when a service error was attached: the mapped
/// status code and the envelope body.
pub struct ErrorResponse {
    pub status: u16,
    pub body: String,
}

/// One structured log record per request: correlation id, timestamp (as the
/// caller formats it), method and path, the caller's identity if resolved,
/// the full internal error if any, and the client-facing category if one
/// was sent.
pub struct RequestLogLine {
    pub uuid: String,
    pub timestamp: String,
    pub http_method: String,
    pub http_path: String,
    pub user_id: Option<u64>,
    pub error: Option<Error>,
    pub client_error: Option<ClientError>,
}

/// Everything the mapper decides for one response: the replacement error
/// response, if any, and the single log record.
pub struct MapperOutcome {
    pub error_response: Option<ErrorResponse>,
    pub log: RequestLogLine,
}

/// The mapper's full contract for one request, with `req_id` the
/// correlation id it used. The log record carries the inputs and the
/// internal error verbatim; the client sees a replacement response exactly
/// when a service error was attached, holding only the mapped status, the
/// category tag and the same correlation id.
pub open spec fn mapper_outcome_ok(
    r: MapperOutcome,
    service_error: Option<Error>,
    req_id: Seq<char>,
    timestamp: Seq<char>,
    http_method: Seq<char>,
    http_path: Seq<char>,
    user_id: Option<u64>,
) -> bool {
    &&& r.log.uuid@ == req_id
    &&& r.log.timestamp@ == timestamp
    &&& r.log.http_method@ == http_method
    &&& r.log.http_path@ == http_path
    &&& r.log.user_id == user_id
    &&& r.log.error == service_error
    &&& r.log.client_error == (match service_error {
        Some(e) => Some(spec_client_status_and_error(e).1),
        None => None::<ClientError>,
    })
    &&& (match service_error {
        Some(e) => r.error_response matches Some(er) && er.status == spec_client_status_and_error(
            e,
        ).0 && er.body@ == spec_envelope(
            spec_client_error_tag(spec_client_status_and_error(e).1),
            req_id,
        ),
        None => r.error_response is None,
    })
}

/// The user id a log line reports for an optional context.
pub open spec fn spec_log_user_id(c: Option<Ctx>) -> Option<u64> {
    match c {
        Some(cx) => Some(cx.user_id),
        None => None,
    }
}

/// Build the client error envelope body for a category and a correlation
/// id.
pub fn error_envelope(client_error: ClientError, req_id: &str) -> (r: String)
    ensures
        r@ == spec_envelope(spec_client_error_tag(client_error), req_id@),
{
    let mut s = "{\"error\":{\"type\":\"".to_owned();
    s.append(client_error.as_tag());
    s.append("\",\"req_uuid\":\"");
    s.append(req_id);
    s.append("\"}}");
    proof {
        assert(s@ =~= spec_envelope(spec_client_error_tag(client_error), req_id@));
    }
    s
}

/// Map one outgoing response, with the correlation id supplied by the
/// caller: decide the replacement error response and build the one log
/// record, per `mapper_outcome_ok`.
pub fn map_response(
    service_error: Option<Error>,
    req_id: String,
    timestamp: String,
    http_method: String,
    http_path: String,
    c: Option<Ctx>,
) -> (r: MapperOutcome)
    ensures
        mapper_outcome_ok(
            r,
            service_error,
            req_id@,
            timestamp@,
            http_method@,
            http_path@,
            spec_log_user_id(c),
        ),
{
    let (error_response, client_error) = match &service_error {
        Some(e) => {
            let (status, ce) = e.client_status_and_error();
            let body = error_envelope(ce, req_id.as_str());
            (Some(ErrorResponse { status, body }), Some(ce))
        },
        None => (None, None),
    };
    let user_id = match &c {
        Some(cx) => Some(cx.user_id()),
        None => None,
    };
    let log = RequestLogLine {
        uuid: req_id,
        timestamp,
        http_method,
        http_path,
        user_id,
        error: service_error,
        client_error,
    };
    MapperOutcome { error_response, log }
}

/// Relies on uuid::Uuid::new_v4 and its Display form: a fresh version-4
/// UUID rendered hyphenated, which is always 36 characters.
#[verifier::external_body]
fn fresh_request_id() -> (r: String)
    ensures
        r@.len() == 36,
{
    uuid::Uuid::new_v4().to_string()
}

/// Map one outgoing response with a freshly generated correlation id:
/// whatever id was drawn, exactly one log record is produced under it, and
/// the error envelope (when one is sent) carries that same id.
pub fn process_response(
    service_error: Option<Error>,
    timestamp: String,
    http_method: String,
    http_path: String,
    c: Option<Ctx>,
) -> (r: MapperOutcome)
    ensures
        r.log.uuid@.len() == 36,
        mapper_outcome_ok(
            r,
            service_error,
            r.log.uuid@,
            timestamp@,
            http_method@,
            http_path@,
            spec_log_user_id(c),
        ),
{
    let req_id = fresh_request_id();
    map_response(service_error, req_id, timestamp, http_method, http_path, c)
}

} // verus!
