//! The two authentication stages. The resolver runs on every request and
//! turns the optional auth cookie into exactly one of: a context, a recorded
//! auth failure, or nothing (anonymous). The guard runs only in front of
//! protected routes and turns anything but a resolved context into a hard
//! failure.

use vstd::prelude::*;

use crate::ctx::Ctx;
use crate::error::Error;
use crate::error::TicketResult;
use crate::error::spec_client_status_and_error;
use crate::token::parse_token;
use crate::token::spec_parse_token;

verus! {

/// The request-scoped stash the resolver leaves for the guard, the handlers
/// and the response mapper: exactly one of a context, an auth failure, or
/// nothing.
#[derive(Clone, Copy, Debug, PartialEq, Eq, Structural)]
pub enum CtxStash {
    Resolved(Ctx),
    Failed(Error),
    Anonymous,
}

/// What the resolver decides for one request: the stash, and whether the
/// (malformed) cookie must be cleared in the response.
#[derive(Clone, Copy, Debug, PartialEq, Eq, Structural)]
pub struct ResolveOutcome {
    pub stash: CtxStash,
    pub remove_cookie: bool,
}

/// The resolver's decision as a function of the cookie: no cookie leaves the
/// request anonymous; a well-formed token yields a context; a malformed
/// token records the wrong-format failure and asks for the cookie to be
/// cleared (preventing retry loops with the same broken token).
pub open spec fn spec_resolve_ctx(cookie: Option<Seq<char>>) -> ResolveOutcome {
    match cookie {
        None => ResolveOutcome { stash: CtxStash::Anonymous, remove_cookie: false },
        Some(tok) => match spec_parse_token(tok) {
            Some(id) => ResolveOutcome {
                stash: CtxStash::Resolved(Ctx { user_id: id }),
                remove_cookie: false,
            },
            None => ResolveOutcome {
                stash: CtxStash::Failed(Error::AuthFailTokenWrongFormat),
                remove_cookie: true,
            },
        },
    }
}

/// The guard's decision: a resolved context passes through unchanged; a
/// recorded failure is reused; otherwise the generic no-token failure is
/// raised.
pub open spec fn spec_require_auth(stash: CtxStash) -> Result<Ctx, Error> {
    match stash {
        CtxStash::Resolved(c) => Ok(c),
        CtxStash::Failed(e) => Err(e),
        CtxStash::Anonymous => Err(Error::AuthFailNoAuthTokenCookie),
    }
}

/// Resolve the request's optional auth cookie into the stash, per
/// `spec_resolve_ctx`. Runs on every request and never blocks it.
pub fn resolve_ctx(cookie: Option<&str>) -> (r: ResolveOutcome)
    ensures
        match cookie {
            Some(tok) => r == spec_resolve_ctx(Some(tok@)),
            None => r == spec_resolve_ctx(None::<Seq<char>>),
        },
{
    match cookie {
        None => ResolveOutcome { stash: CtxStash::Anonymous, remove_cookie: false },
        Some(tok) => match parse_token(tok) {
            Ok(id) => ResolveOutcome {
                stash: CtxStash::Resolved(Ctx::new(id)),
                remove_cookie: false,
            },
            Err(_) => ResolveOutcome {
                stash: CtxStash::Failed(Error::AuthFailTokenWrongFormat),
                remove_cookie: true,
            },
        },
    }
}

/// The require-auth guard for protected routes, per `spec_require_auth`:
/// only a request with a resolved context reaches the handler.
pub fn require_auth(stash: &CtxStash) -> (r: TicketResult<Ctx>)
    ensures
        r == spec_require_auth(*stash),
{
    match stash {
        CtxStash::Resolved(c) => Ok(*c),
        CtxStash::Failed(e) => Err(*e),
        CtxStash::Anonymous => Err(Error::AuthFailNoAuthTokenCookie),
    }
}

/// A protected request with no auth cookie and one with a malformed cookie
/// are rejected with the same client-facing status and kind; the malformed
/// case, and only that case, additionally asks for the cookie to be
/// cleared.
pub proof fn lemma_auth_failure_uniform(tok: Seq<char>)
    requires
        spec_parse_token(tok) is None,
    ensures
        ({
            let absent = spec_resolve_ctx(None);
            let malformed = spec_resolve_ctx(Some(tok));
            let r_absent = spec_require_auth(absent.stash);
            let r_malformed = spec_require_auth(malformed.stash);
            &&& r_absent is Err
            &&& r_malformed is Err
            &&& spec_client_status_and_error(r_absent->Err_0) == spec_client_status_and_error(
                r_malformed->Err_0,
            )
            &&& !absent.remove_cookie
            &&& malformed.remove_cookie
        }),
{
}

} // verus!
