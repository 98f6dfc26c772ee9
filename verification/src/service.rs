//! The per-connection proxy service: owns the middleware chain reference, the
//! shared state store, the connection's remote address, and a private
//! request-id generator, and drives one pipeline run per inbound request.
//!
//! The service itself is synchronous over plain values: the host performs the
//! actual upstream dispatch and hands its result in (or drives the
//! [`crate::pipeline`] machine directly around its await points). Requests on
//! one connection are assumed strictly sequential; the full clear of the
//! state store at the start of each request would otherwise erase a sibling
//! run's entries.

use vstd::prelude::*;

use rand::rngs::SmallRng;

use crate::executor::{
    conclude_failure, run_after_phase_success, run_before_phase, run_early_after_phase,
    run_success_phase,
};
use crate::http::{
    ProxyError, Request, Response, TransportError, Upstream, path_ok, rewrite_to_upstream,
    upstream_ok,
};
use crate::middleware::Middleware;
use crate::state::SharedState;

verus! {

/// The per-connection pseudorandom generator the request ids are drawn from.
#[verifier::external_type_specification]
#[verifier::external_body]
pub struct ExSmallRng(SmallRng);

/// Relies on rand's `SeedableRng::from_entropy`: a small PRNG seeded from
/// fresh system entropy. Nothing is promised of the generator's output.
#[verifier::external_body]
fn fresh_rng() -> SmallRng {
    <SmallRng as rand::SeedableRng>::from_entropy()
}

/// Relies on rand's `RngCore::next_u64`: the generator's next value, which
/// depends on its hidden state. Request ids are scoping keys, not guaranteed
/// unique; nothing is promised of the value.
#[verifier::external_body]
fn next_random_id(rng: &mut SmallRng) -> u64 {
    rand::RngCore::next_u64(rng)
}

/// The immutable per-request identity, fixed for one pipeline run and handed
/// unchanged to every hook of that run.
#[derive(Clone, Debug)]
pub struct ServiceContext {
    pub remote_addr: String,
    pub req_id: u64,
}

/// One connection's service instance, constructed by the external acceptor
/// and living for the connection's lifetime.
pub struct ProxyService<M: Middleware> {
    pub middlewares: Vec<M>,
    pub state: SharedState,
    pub remote_addr: String,
    pub rng: SmallRng,
}

impl<M: Middleware> ProxyService<M> {
    pub fn new(middlewares: Vec<M>, remote_addr: String) -> (s: Self)
        ensures
            s.middlewares == middlewares,
            s.remote_addr == remote_addr,
            s.state@ == Map::<(Seq<char>, u64), serde_json::Value>::empty(),
    {
        ProxyService { middlewares, state: SharedState::new(), remote_addr, rng: fresh_rng() }
    }

    /// Start a pipeline run: clear the whole state store — before any hook of
    /// the new request runs, whatever earlier requests on this connection
    /// left behind — and mint the run's fixed identity.
    pub fn begin_request(&mut self) -> (context: ServiceContext)
        ensures
            final(self).state@ == Map::<(Seq<char>, u64), serde_json::Value>::empty(),
            context.remote_addr == old(self).remote_addr,
            final(self).middlewares == old(self).middlewares,
            final(self).remote_addr == old(self).remote_addr,
    {
        self.state.clear_all();
        let req_id = next_random_id(&mut self.rng);
        ServiceContext { remote_addr: self.remote_addr.clone(), req_id }
    }

    /// One full pipeline run. The caller supplies the upstream's answer
    /// (`transport`) since the dispatch itself is the host's I/O; the second
    /// component of the result is the rewritten request that was (or would
    /// have been) dispatched — `None` when the run never reached the
    /// upstream.
    ///
    /// Whatever the hooks of the chain return: the only error that can come
    /// out is the transport's own, an error outcome implies the upstream was
    /// dispatched, a successful dispatch always yields a response, and with
    /// no middleware registered the request is forwarded unchanged but for
    /// the upstream target and the upstream's answer is returned verbatim.
    pub fn call(
        &mut self,
        req: Request,
        upstream: &Upstream,
        transport: Result<Response, TransportError>,
    ) -> (out: (Result<Response, TransportError>, Option<Request>))
        ensures
            final(self).middlewares@.len() == old(self).middlewares@.len(),
            final(self).remote_addr == old(self).remote_addr,
            (match out.0 {
                Err(t) => transport == Err::<Response, TransportError>(t),
                Ok(_) => true,
            }),
            out.0 is Err ==> out.1 is Some,
            transport is Ok ==> out.0 is Ok,
            old(self).middlewares@.len() == 0 ==> {
                if upstream_ok(*upstream) && path_ok(req.path_and_query@) {
                    &&& out.0 == transport
                    &&& (match out.1 {
                        Some(d) => {
                            &&& d.method@ == req.method@
                            &&& d.scheme@ == upstream.scheme@
                            &&& d.authority@ == upstream.authority@
                            &&& d.path_and_query@ == req.path_and_query@
                            &&& d.headers.deep_view() == req.headers.deep_view()
                            &&& d.body@ == req.body@
                        },
                        None => false,
                    })
                } else {
                    &&& out.1 is None
                    &&& (match out.0 {
                        Ok(r) => r.status == 400,
                        Err(_) => false,
                    })
                }
            },
    {
        let context = self.begin_request();
        let mut req = req;
        let early = run_before_phase(&mut self.middlewares, &mut req, &context, &mut self.state);
        match early {
            Some(res) => {
                let answer = run_early_after_phase(
                    &mut self.middlewares,
                    res,
                    &context,
                    &mut self.state,
                );
                (Ok(answer), None)
            },
            None => {
                match rewrite_to_upstream(req, upstream) {
                    Err(c) => {
                        let out = conclude_failure(
                            &mut self.middlewares,
                            ProxyError::Construction(c),
                            &context,
                            &mut self.state,
                        );
                        (out, None)
                    },
                    Ok(outbound) => {
                        match transport {
                            Ok(res) => {
                                let res = run_success_phase(
                                    &mut self.middlewares,
                                    res,
                                    &context,
                                    &mut self.state,
                                );
                                let res = run_after_phase_success(
                                    &mut self.middlewares,
                                    res,
                                    &context,
                                    &mut self.state,
                                );
                                (Ok(res), Some(outbound))
                            },
                            Err(te) => {
                                let out = conclude_failure(
                                    &mut self.middlewares,
                                    ProxyError::Transport(te),
                                    &context,
                                    &mut self.state,
                                );
                                (out, Some(outbound))
                            },
                        }
                    },
                }
            },
        }
    }
}

} // verus!
