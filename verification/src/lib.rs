//! Request-handling core of a reverse proxy: an ordered middleware chain run
//! in phases around a single upstream dispatch, with short-circuiting in the
//! before-phase, full-chain traversal everywhere else, and a per-connection
//! scoped state store that is cleared at the start of every request.
//!
//! - [`http`]: plain-value request/response models, the upstream rewrite, and
//!   the total error-to-response synthesizer.
//! - [`state`]: the scoped key-value store hooks share within one run.
//! - [`middleware`]: the six-hook capability contract.
//! - [`pipeline`]: the pipeline state machine and its laws.
//! - [`executor`]: the verified phase runners over a middleware chain.
//! - [`service`]: the per-connection service driving one run per request.

pub mod executor;
pub mod http;
pub mod middleware;
pub mod pipeline;
pub mod service;
pub mod state;
