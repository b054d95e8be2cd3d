use ticket_api::ClientError;
use ticket_api::Ctx;
use ticket_api::CtxStash;
use ticket_api::Error;
use ticket_api::auth::require_auth;
use ticket_api::auth::resolve_ctx;
use ticket_api::token::make_token;
use ticket_api::token::parse_token;
use ticket_api::token::u64_to_dec;

#[test]
fn parse_token_well_formed() {
    assert_eq!(parse_token("user-42.placeholder.sign").unwrap(), 42);
    assert_eq!(parse_token("user-0.x.sign").unwrap(), 0);
    assert_eq!(
        parse_token("user-18446744073709551615.sig-part.sign").unwrap(),
        u64::MAX
    );
}

#[test]
fn parse_token_malformed() {
    let cases = [
        "",
        "user-",
        "user-1",
        "nope-1.x.sign",
        "user-.x.sign",
        "user-4a.x.sign",
        "user-1..sign",
        "user-1.x.sig",
        "user-1.x.signs",
        "user-1.x.y.sign",
        "user-1.x.sign.",
        "user-18446744073709551616.x.sign",
        "USER-1.x.sign",
    ];
    for t in cases {
        assert_eq!(parse_token(t).unwrap_err(), Error::AuthFailTokenWrongFormat, "{t}");
    }
}

#[test]
fn u64_to_dec_renders_decimal() {
    assert_eq!(u64_to_dec(0), "0");
    assert_eq!(u64_to_dec(7), "7");
    assert_eq!(u64_to_dec(1234567890), "1234567890");
    assert_eq!(u64_to_dec(u64::MAX), "18446744073709551615");
}

#[test]
fn make_token_round_trips() {
    let tok = make_token(7, "abc");
    assert_eq!(tok, "user-7.abc.sign");
    assert_eq!(parse_token(&tok).unwrap(), 7);
    let tok2 = make_token(u64::MAX, "s");
    assert_eq!(parse_token(&tok2).unwrap(), u64::MAX);
}

#[test]
fn resolve_without_cookie_is_anonymous() {
    let r = resolve_ctx(None);
    assert_eq!(r.stash, CtxStash::Anonymous);
    assert!(!r.remove_cookie);
    let guarded = require_auth(&r.stash);
    assert_eq!(guarded.unwrap_err(), Error::AuthFailNoAuthTokenCookie);
}

#[test]
fn resolve_malformed_cookie_fails_and_clears() {
    let r = resolve_ctx(Some("not-a-token"));
    assert_eq!(r.stash, CtxStash::Failed(Error::AuthFailTokenWrongFormat));
    assert!(r.remove_cookie);
    let guarded = require_auth(&r.stash);
    assert_eq!(guarded.unwrap_err(), Error::AuthFailTokenWrongFormat);
}

#[test]
fn resolve_valid_cookie_yields_context() {
    let r = resolve_ctx(Some("user-5.whatever.sign"));
    assert_eq!(r.stash, CtxStash::Resolved(Ctx::new(5)));
    assert!(!r.remove_cookie);
    let guarded = require_auth(&r.stash);
    assert_eq!(guarded.unwrap().user_id(), 5);
}

#[test]
fn auth_failures_share_client_kind() {
    let absent = require_auth(&resolve_ctx(None).stash).unwrap_err();
    let malformed_resolve = resolve_ctx(Some("garbage"));
    let malformed = require_auth(&malformed_resolve.stash).unwrap_err();
    assert_eq!(
        absent.client_status_and_error(),
        malformed.client_status_and_error()
    );
    assert_eq!(absent.client_status_and_error(), (403, ClientError::NoAuth));
    assert!(malformed_resolve.remove_cookie);
    assert!(!resolve_ctx(None).remove_cookie);
}
