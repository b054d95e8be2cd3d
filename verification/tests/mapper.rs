use ticket_api::ClientError;
use ticket_api::Ctx;
use ticket_api::Error;
use ticket_api::mapper::error_envelope;
use ticket_api::mapper::map_response;
use ticket_api::mapper::process_response;
use ticket_api::ModelController;
use ticket_api::TicketForCreate;

#[test]
fn error_mapping_table() {
    assert_eq!(
        Error::LoginFailUsernameNotFound.client_status_and_error(),
        (403, ClientError::LoginFail)
    );
    assert_eq!(
        Error::LoginFailUserPasswordNotMatching { user_id: 3 }.client_status_and_error(),
        (403, ClientError::LoginFail)
    );
    assert_eq!(
        Error::AuthFailNoAuthTokenCookie.client_status_and_error(),
        (403, ClientError::NoAuth)
    );
    assert_eq!(
        Error::AuthFailTokenWrongFormat.client_status_and_error(),
        (403, ClientError::NoAuth)
    );
    assert_eq!(
        Error::AuthFailCtxNotInRequestExt.client_status_and_error(),
        (403, ClientError::NoAuth)
    );
    assert_eq!(
        Error::TicketDeleteFailIdNotFound { id: 0 }.client_status_and_error(),
        (404, ClientError::InvalidParams)
    );
}

#[test]
fn client_error_tags() {
    assert_eq!(ClientError::LoginFail.as_tag(), "LOGIN_FAIL");
    assert_eq!(ClientError::NoAuth.as_tag(), "NO_AUTH");
    assert_eq!(ClientError::InvalidParams.as_tag(), "INVALID_PARAMS");
    assert_eq!(ClientError::ServiceError.as_tag(), "SERVICE_ERROR");
}

#[test]
fn envelope_shape() {
    let body = error_envelope(ClientError::NoAuth, "abc-123");
    assert_eq!(body, "{\"error\":{\"type\":\"NO_AUTH\",\"req_uuid\":\"abc-123\"}}");
}

#[test]
fn map_response_with_error_builds_envelope_and_log() {
    let out = map_response(
        Some(Error::AuthFailNoAuthTokenCookie),
        String::from("rid-1"),
        String::from("2024-01-01T00:00:00Z"),
        String::from("GET"),
        String::from("/api/tickets"),
        None,
    );
    let er = out.error_response.unwrap();
    assert_eq!(er.status, 403);
    assert_eq!(er.body, "{\"error\":{\"type\":\"NO_AUTH\",\"req_uuid\":\"rid-1\"}}");
    assert_eq!(out.log.uuid, "rid-1");
    assert_eq!(out.log.timestamp, "2024-01-01T00:00:00Z");
    assert_eq!(out.log.http_method, "GET");
    assert_eq!(out.log.http_path, "/api/tickets");
    assert_eq!(out.log.user_id, None);
    assert_eq!(out.log.error, Some(Error::AuthFailNoAuthTokenCookie));
    assert_eq!(out.log.client_error, Some(ClientError::NoAuth));
}

#[test]
fn map_response_without_error_passes_through() {
    let out = map_response(
        None,
        String::from("rid-2"),
        String::from("t"),
        String::from("POST"),
        String::from("/api/login"),
        Some(Ctx::new(8)),
    );
    assert!(out.error_response.is_none());
    assert_eq!(out.log.user_id, Some(8));
    assert_eq!(out.log.error, None);
    assert_eq!(out.log.client_error, None);
}

#[test]
fn process_response_uses_one_fresh_id_in_log_and_envelope() {
    let ok = process_response(
        None,
        String::from("t"),
        String::from("GET"),
        String::from("/hello"),
        None,
    );
    assert_eq!(ok.log.uuid.len(), 36);
    assert!(ok.error_response.is_none());

    let failing = process_response(
        Some(Error::TicketDeleteFailIdNotFound { id: 0 }),
        String::from("t"),
        String::from("DELETE"),
        String::from("/api/tickets/0"),
        Some(Ctx::new(1)),
    );
    assert_eq!(failing.log.uuid.len(), 36);
    let er = failing.error_response.unwrap();
    assert_eq!(er.status, 404);
    let expected = format!(
        "{{\"error\":{{\"type\":\"INVALID_PARAMS\",\"req_uuid\":\"{}\"}}}}",
        failing.log.uuid
    );
    assert_eq!(er.body, expected);

    // Two requests draw different correlation ids.
    let other = process_response(
        None,
        String::from("t"),
        String::from("GET"),
        String::from("/hello"),
        None,
    );
    assert_ne!(ok.log.uuid, other.log.uuid);
}

#[test]
fn full_ticket_scenario() {
    let mut m = ModelController::new().unwrap();
    let c = Ctx::new(1);
    let t = m
        .create_ticket(c, TicketForCreate { title: String::from("buy milk") })
        .unwrap();
    assert_eq!(t.id, 0);
    assert_eq!(t.cid, 1);
    assert_eq!(t.title, "buy milk");

    let deleted = m.delete_ticket(0, c).unwrap();
    assert_eq!(deleted.id, 0);
    assert_eq!(deleted.cid, 1);
    assert_eq!(deleted.title, "buy milk");

    assert!(m.list_tickets(c).unwrap().is_empty());

    let err = m.delete_ticket(0, c).unwrap_err();
    assert_eq!(err, Error::TicketDeleteFailIdNotFound { id: 0 });

    let out = map_response(
        Some(err),
        String::from("rid-9"),
        String::from("t"),
        String::from("DELETE"),
        String::from("/api/tickets/0"),
        Some(c),
    );
    let er = out.error_response.unwrap();
    assert_eq!(er.status, 404);
    assert_eq!(
        er.body,
        "{\"error\":{\"type\":\"INVALID_PARAMS\",\"req_uuid\":\"rid-9\"}}"
    );
    assert_eq!(out.log.client_error, Some(ClientError::InvalidParams));
}
