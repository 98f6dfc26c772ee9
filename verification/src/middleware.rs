//! The middleware abstraction: six optional hooks around one request's trip
//! to the upstream. Every hook defaults to "continue, no change", so a
//! concrete middleware implements only the capabilities it needs.
//!
//! Hooks are total: an internal failure is reported as the `Err` arm and is
//! synthesized into a response by the pipeline, never propagated as a panic.
//! The hooks named `_async` are the ones a host may suspend on; the library's
//! bundled driver invokes them like the others, in the same chain order.

use vstd::prelude::*;

use crate::http::{MiddlewareError, ProxyError, Request, Response};
use crate::service::ServiceContext;
use crate::state::SharedState;

verus! {

/// The continue-or-respond outcome of a hook.
pub enum MiddlewareResult {
    /// Keep going with the current request or response unchanged.
    Next,
    /// Answer with this response: in the before-phase that short-circuits the
    /// chain; in every later phase it replaces the current response.
    RespondWith(Response),
}

/// What every hook except the notify-only failure hook returns.
pub type HookResult = Result<MiddlewareResult, MiddlewareError>;

/// The capability contract every hook provider implements. Hooks take the
/// middleware exclusively (`&mut self`), the immutable per-request context,
/// and the shared state store through which middlewares of one run pass data
/// to each other.
pub trait Middleware {
    /// Before-phase, non-suspending. May rewrite the request in place.
    fn before_request(
        &mut self,
        req: &mut Request,
        context: &ServiceContext,
        state: &mut SharedState,
    ) -> HookResult {
        Ok(MiddlewareResult::Next)
    }

    /// Before-phase, suspending.
    fn before_request_async(
        &mut self,
        req: &mut Request,
        context: &ServiceContext,
        state: &mut SharedState,
    ) -> HookResult {
        Ok(MiddlewareResult::Next)
    }

    /// After a successful dispatch, every middleware in order; `RespondWith`
    /// replaces the response handed to the next middleware.
    fn request_success(
        &mut self,
        res: &Response,
        context: &ServiceContext,
        state: &mut SharedState,
    ) -> HookResult {
        Ok(MiddlewareResult::Next)
    }

    /// After a failed dispatch, every middleware in order. Notify-only: the
    /// result is dropped by the pipeline and cannot alter the outcome.
    fn request_failure(
        &mut self,
        err: &ProxyError,
        context: &ServiceContext,
        state: &mut SharedState,
    ) -> Result<(), MiddlewareError> {
        Ok(())
    }

    /// Post-phase, non-suspending. `res` is the current response, absent on
    /// the post-failure path, where returning `RespondWith` recovers the
    /// error into a response.
    fn after_request(
        &mut self,
        res: Option<&Response>,
        context: &ServiceContext,
        state: &mut SharedState,
    ) -> HookResult {
        Ok(MiddlewareResult::Next)
    }

    /// Post-phase, suspending. Never invoked on the post-failure path.
    fn after_request_async(
        &mut self,
        res: Option<&Response>,
        context: &ServiceContext,
        state: &mut SharedState,
    ) -> HookResult {
        Ok(MiddlewareResult::Next)
    }
}

} // verus!
