//! The phase runners: verified loops that walk the middleware chain exactly
//! as the pipeline machine prescribes, composing hook results into the
//! current response.
//!
//! What a hook returns is the hook's own business (the trait carries no
//! contract), so each runner states what holds whatever came back: the chain
//! is walked without gaps, an empty chain changes nothing, and every single
//! result is folded in by [`absorb`] and [`recover`], whose contracts are
//! exact.

use vstd::prelude::*;

use crate::http::{ProxyError, Response, is_error_response, response_from};
use crate::middleware::{HookResult, Middleware, MiddlewareResult};
use crate::service::ServiceContext;
use crate::state::SharedState;
use crate::http::Request;

verus! {

/// How one composing hook result changes the current response: `Next` keeps
/// it, `RespondWith` replaces it, and a hook's own error is synthesized into
/// an error response (treated as that middleware's chosen response).
pub open spec fn absorbs_to(cur: Response, r: HookResult, out: Response) -> bool {
    match r {
        Ok(MiddlewareResult::Next) => out == cur,
        Ok(MiddlewareResult::RespondWith(n)) => out == n,
        Err(e) => is_error_response(out, ProxyError::Hook(e)),
    }
}

/// Fold one hook result into the current response.
pub fn absorb(cur: Response, r: HookResult) -> (out: Response)
    ensures
        absorbs_to(cur, r, out),
{
    match r {
        Ok(MiddlewareResult::Next) => cur,
        Ok(MiddlewareResult::RespondWith(n)) => n,
        Err(e) => response_from(&ProxyError::Hook(e)),
    }
}

/// How one post-failure hook result changes the recovery state: `Next` keeps
/// whatever was recovered so far, `RespondWith` recovers with that response,
/// and a hook error is synthesized into a response as well. Recovery is
/// monotone: once some middleware produced a response, no later `Next` can
/// drop it.
pub open spec fn recovers_to(cur: Option<Response>, r: HookResult, out: Option<Response>) -> bool {
    match r {
        Ok(MiddlewareResult::Next) => out == cur,
        Ok(MiddlewareResult::RespondWith(n)) => out == Some(n),
        Err(e) => match out {
            Some(x) => is_error_response(x, ProxyError::Hook(e)),
            None => false,
        },
    }
}

/// Fold one post-failure hook result into the recovery state.
pub fn recover(cur: Option<Response>, r: HookResult) -> (out: Option<Response>)
    ensures
        recovers_to(cur, r, out),
{
    match r {
        Ok(MiddlewareResult::Next) => cur,
        Ok(MiddlewareResult::RespondWith(n)) => Some(n),
        Err(e) => Some(response_from(&ProxyError::Hook(e))),
    }
}

/// The before-phase: in registration order, each middleware's `before_request`
/// then `before_request_async`, stopping at the first result that is not
/// continue. Returns the short-circuit response if one was produced; `None`
/// means every hook continued and the (possibly rewritten) request goes to
/// dispatch.
pub fn run_before_phase<M: Middleware>(
    chain: &mut Vec<M>,
    req: &mut Request,
    context: &ServiceContext,
    state: &mut SharedState,
) -> (early: Option<Response>)
    ensures
        final(chain)@.len() == old(chain)@.len(),
        old(chain)@.len() == 0 ==> early is None && *final(req) == *old(req) && *final(chain)
            == *old(chain) && *final(state) == *old(state),
{
    let n = chain.len();
    let mut i: usize = 0;
    while i < n
        invariant
            i <= n,
            n == chain@.len(),
            n == old(chain)@.len(),
            n == 0 ==> *req == *old(req) && *chain == *old(chain) && *state == *old(state),
        decreases n - i,
    {
        let r = chain[i].before_request(req, context, state);
        match r {
            Ok(MiddlewareResult::Next) => {},
            Ok(MiddlewareResult::RespondWith(res)) => {
                return Some(res);
            },
            Err(e) => {
                return Some(response_from(&ProxyError::Hook(e)));
            },
        }
        let r = chain[i].before_request_async(req, context, state);
        match r {
            Ok(MiddlewareResult::Next) => {},
            Ok(MiddlewareResult::RespondWith(res)) => {
                return Some(res);
            },
            Err(e) => {
                return Some(response_from(&ProxyError::Hook(e)));
            },
        }
        i += 1;
    }
    None
}

/// The restricted post-phase after a before-phase short-circuit: only the
/// non-suspending `after_request`, over the entire chain, no short-circuit,
/// each result folded into the next middleware's input.
pub fn run_early_after_phase<M: Middleware>(
    chain: &mut Vec<M>,
    early: Response,
    context: &ServiceContext,
    state: &mut SharedState,
) -> (r: Response)
    ensures
        final(chain)@.len() == old(chain)@.len(),
        old(chain)@.len() == 0 ==> r == early && *final(chain) == *old(chain) && *final(state)
            == *old(state),
{
    let n = chain.len();
    let mut cur = early;
    let mut i: usize = 0;
    while i < n
        invariant
            i <= n,
            n == chain@.len(),
            n == old(chain)@.len(),
            n == 0 ==> cur == early && *chain == *old(chain) && *state == *old(state),
        decreases n - i,
    {
        let hr = chain[i].after_request(Some(&cur), context, state);
        cur = absorb(cur, hr);
        i += 1;
    }
    cur
}

/// The success phase: `request_success` on every middleware in order, no
/// short-circuit, left-to-right composition.
pub fn run_success_phase<M: Middleware>(
    chain: &mut Vec<M>,
    res: Response,
    context: &ServiceContext,
    state: &mut SharedState,
) -> (r: Response)
    ensures
        final(chain)@.len() == old(chain)@.len(),
        old(chain)@.len() == 0 ==> r == res && *final(chain) == *old(chain) && *final(state)
            == *old(state),
{
    let n = chain.len();
    let mut cur = res;
    let mut i: usize = 0;
    while i < n
        invariant
            i <= n,
            n == chain@.len(),
            n == old(chain)@.len(),
            n == 0 ==> cur == res && *chain == *old(chain) && *state == *old(state),
        decreases n - i,
    {
        let hr = chain[i].request_success(&cur, context, state);
        cur = absorb(cur, hr);
        i += 1;
    }
    cur
}

/// The post-success phase: for every middleware in order, `after_request`
/// then `after_request_async`, each allowed to replace the response, no
/// short-circuit.
pub fn run_after_phase_success<M: Middleware>(
    chain: &mut Vec<M>,
    res: Response,
    context: &ServiceContext,
    state: &mut SharedState,
) -> (r: Response)
    ensures
        final(chain)@.len() == old(chain)@.len(),
        old(chain)@.len() == 0 ==> r == res && *final(chain) == *old(chain) && *final(state)
            == *old(state),
{
    let n = chain.len();
    let mut cur = res;
    let mut i: usize = 0;
    while i < n
        invariant
            i <= n,
            n == chain@.len(),
            n == old(chain)@.len(),
            n == 0 ==> cur == res && *chain == *old(chain) && *state == *old(state),
        decreases n - i,
    {
        let hr = chain[i].after_request(Some(&cur), context, state);
        cur = absorb(cur, hr);
        let hr = chain[i].after_request_async(Some(&cur), context, state);
        cur = absorb(cur, hr);
        i += 1;
    }
    cur
}

/// The failure notification: `request_failure` on every middleware in order.
/// Notify-only — each hook's result is dropped here, so nothing a hook
/// returns can alter the response or the propagated error.
pub fn run_failure_notify<M: Middleware>(
    chain: &mut Vec<M>,
    err: &ProxyError,
    context: &ServiceContext,
    state: &mut SharedState,
)
    ensures
        final(chain)@.len() == old(chain)@.len(),
        old(chain)@.len() == 0 ==> *final(chain) == *old(chain) && *final(state) == *old(state),
{
    let n = chain.len();
    let mut i: usize = 0;
    while i < n
        invariant
            i <= n,
            n == chain@.len(),
            n == old(chain)@.len(),
            n == 0 ==> *chain == *old(chain) && *state == *old(state),
        decreases n - i,
    {
        let _ = chain[i].request_failure(err, context, state);
        i += 1;
    }
}

/// The post-failure phase: the non-suspending `after_request` on every
/// middleware in order, without a response, where any middleware may recover
/// the failure into a response. The suspending after-hook is never invoked
/// here.
pub fn run_after_phase_failure<M: Middleware>(
    chain: &mut Vec<M>,
    context: &ServiceContext,
    state: &mut SharedState,
) -> (rec: Option<Response>)
    ensures
        final(chain)@.len() == old(chain)@.len(),
        old(chain)@.len() == 0 ==> rec is None && *final(chain) == *old(chain) && *final(state)
            == *old(state),
{
    let n = chain.len();
    let mut cur: Option<Response> = None;
    let mut i: usize = 0;
    while i < n
        invariant
            i <= n,
            n == chain@.len(),
            n == old(chain)@.len(),
            n == 0 ==> cur is None && *chain == *old(chain) && *state == *old(state),
        decreases n - i,
    {
        let hr = chain[i].after_request(None, context, state);
        cur = recover(cur, hr);
        i += 1;
    }
    cur
}

/// The whole failure tail: notify every middleware, then offer the failure to
/// the post-failure phase; an unrecovered transport error is the only error
/// that crosses the pipeline boundary — hook and construction errors are
/// synthesized into responses here.
pub fn conclude_failure<M: Middleware>(
    chain: &mut Vec<M>,
    err: ProxyError,
    context: &ServiceContext,
    state: &mut SharedState,
) -> (out: Result<Response, crate::http::TransportError>)
    ensures
        final(chain)@.len() == old(chain)@.len(),
        (match out {
            Err(t) => err == ProxyError::Transport(t),
            Ok(_) => true,
        }),
        !(err is Transport) ==> out is Ok,
        old(chain)@.len() == 0 ==> (match err {
            ProxyError::Transport(t) => out == Err::<Response, crate::http::TransportError>(t),
            _ => (match out {
                Ok(r) => is_error_response(r, err),
                Err(_) => false,
            }),
        }),
{
    run_failure_notify(chain, &err, context, state);
    let rec = run_after_phase_failure(chain, context, state);
    match rec {
        Some(r) => Ok(r),
        None => match err {
            ProxyError::Transport(t) => Err(t),
            e => Ok(response_from(&e)),
        },
    }
}

} // verus!
