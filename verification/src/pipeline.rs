//! The pipeline state machine: one value of [`PipelineRun`] tracks where a
//! single request stands in its phases, and [`PipelineRun::step`] is the whole
//! transition relation.
//!
//! The machine carries control flow only. It tells the driver which hook of
//! which middleware to invoke next ([`PipelineRun::next_action`]); the driver
//! performs the call (or the upstream dispatch) and feeds the outcome back as
//! an [`Event`]. Payload composition — how a hook result changes the current
//! response — lives in [`crate::executor`]. A host with suspending hooks and a
//! real transport drives this same machine around its await points.
//!
//! The asymmetry the machine encodes, deliberately: the before-phase stops at
//! the first middleware that responds or fails, while every other phase walks
//! the entire chain whatever each hook returns, and the post-failure path
//! never asks for the suspending after-hook.

use vstd::prelude::*;

verus! {

/// Where a single pipeline run stands. Every `i` is the position in the
/// middleware chain whose hook is asked next.
#[derive(Clone, Copy, PartialEq, Eq, Structural, Debug)]
pub enum Phase {
    /// Before-phase, about to invoke `before_request` of middleware `i`.
    BeforeSync { i: usize },
    /// Before-phase, about to invoke `before_request_async` of middleware `i`.
    BeforeAsync { i: usize },
    /// Restricted post-phase after a before-phase short-circuit: only
    /// `after_request`, over the full chain, upstream never contacted.
    EarlyAfter { i: usize },
    /// About to dispatch the rewritten request to the upstream.
    Dispatch,
    /// Post-dispatch success: `request_success` of middleware `i`.
    SuccessHook { i: usize },
    /// Post-success: `after_request` of middleware `i`.
    AfterSync { i: usize },
    /// Post-success: `after_request_async` of middleware `i`.
    AfterAsync { i: usize },
    /// Post-failure notification: `request_failure` of middleware `i`.
    FailNotify { i: usize },
    /// Post-failure: `after_request` (without a response) of middleware `i`;
    /// `recovered` records whether some earlier hook produced a response.
    FailAfter { i: usize, recovered: bool },
    /// Finished with a response in hand.
    DoneRespond,
    /// Finished with the unrecovered dispatch error.
    DoneFail,
}

/// What the driver reports back after performing the requested action.
#[derive(Clone, Copy, PartialEq, Eq, Structural, Debug)]
pub enum Event {
    /// A before hook returned: `halted` is true when it returned a response
    /// or an error, i.e. anything but continue.
    BeforeHook { halted: bool },
    /// A composing hook (success, after, early-after) returned. Whatever it
    /// returned, the machine advances: these phases never short-circuit.
    ComposeHook,
    /// The notify-only failure hook returned: `errored` says whether the hook
    /// itself failed. Deliberately without any effect on the run.
    NotifyHook { errored: bool },
    /// The upstream dispatch finished.
    DispatchDone { ok: bool },
    /// A post-failure after-hook returned: `recovered` is true when it
    /// produced a response (or failed, which is synthesized into one).
    RecoverHook { recovered: bool },
}

/// What the driver must do next.
#[derive(Clone, Copy, PartialEq, Eq, Structural, Debug)]
pub enum Action {
    CallBefore { i: usize },
    CallBeforeAsync { i: usize },
    CallSuccess { i: usize },
    CallFailure { i: usize },
    /// Invoke `after_request` of middleware `i`; `with_response` says whether
    /// a current response exists (it never does on the post-failure path).
    CallAfter { i: usize, with_response: bool },
    CallAfterAsync { i: usize },
    PerformDispatch,
    /// The run is over: answer with the composed response (`respond`) or
    /// propagate the dispatch error.
    Finish { respond: bool },
}

/// One request's walk through the phases, against a chain of `chain_len`
/// middlewares.
#[derive(Clone, Copy, PartialEq, Eq, Structural, Debug)]
pub struct PipelineRun {
    pub chain_len: usize,
    pub phase: Phase,
}

pub open spec fn phase_wf(p: Phase, n: usize) -> bool {
    match p {
        Phase::BeforeSync { i } => i < n,
        Phase::BeforeAsync { i } => i < n,
        Phase::EarlyAfter { i } => i < n,
        Phase::SuccessHook { i } => i < n,
        Phase::AfterSync { i } => i < n,
        Phase::AfterAsync { i } => i < n,
        Phase::FailNotify { i } => i < n,
        Phase::FailAfter { i, .. } => i < n,
        Phase::Dispatch => true,
        Phase::DoneRespond => true,
        Phase::DoneFail => true,
    }
}

/// Which event a phase is waiting for. Terminal phases accept none.
pub open spec fn accepts(p: Phase, e: Event) -> bool {
    match p {
        Phase::BeforeSync { .. } => e is BeforeHook,
        Phase::BeforeAsync { .. } => e is BeforeHook,
        Phase::EarlyAfter { .. } => e is ComposeHook,
        Phase::Dispatch => e is DispatchDone,
        Phase::SuccessHook { .. } => e is ComposeHook,
        Phase::AfterSync { .. } => e is ComposeHook,
        Phase::AfterAsync { .. } => e is ComposeHook,
        Phase::FailNotify { .. } => e is NotifyHook,
        Phase::FailAfter { .. } => e is RecoverHook,
        Phase::DoneRespond => false,
        Phase::DoneFail => false,
    }
}

pub open spec fn spec_start(chain_len: usize) -> PipelineRun {
    PipelineRun {
        chain_len,
        phase: if chain_len == 0 {
            Phase::Dispatch
        } else {
            Phase::BeforeSync { i: 0 }
        },
    }
}

/// The whole transition relation of the pipeline, phase by phase. An event a
/// phase does not accept leaves the machine unchanged.
pub open spec fn spec_step(m: PipelineRun, e: Event) -> PipelineRun {
    let n = m.chain_len;
    let next = match (m.phase, e) {
        (Phase::BeforeSync { i }, Event::BeforeHook { halted }) => {
            if halted {
                Phase::EarlyAfter { i: 0 }
            } else {
                Phase::BeforeAsync { i }
            }
        },
        (Phase::BeforeAsync { i }, Event::BeforeHook { halted }) => {
            if halted {
                Phase::EarlyAfter { i: 0 }
            } else if i + 1 < n {
                Phase::BeforeSync { i: (i + 1) as usize }
            } else {
                Phase::Dispatch
            }
        },
        (Phase::EarlyAfter { i }, Event::ComposeHook) => {
            if i + 1 < n {
                Phase::EarlyAfter { i: (i + 1) as usize }
            } else {
                Phase::DoneRespond
            }
        },
        (Phase::Dispatch, Event::DispatchDone { ok }) => {
            if ok {
                if n == 0 {
                    Phase::DoneRespond
                } else {
                    Phase::SuccessHook { i: 0 }
                }
            } else {
                if n == 0 {
                    Phase::DoneFail
                } else {
                    Phase::FailNotify { i: 0 }
                }
            }
        },
        (Phase::SuccessHook { i }, Event::ComposeHook) => {
            if i + 1 < n {
                Phase::SuccessHook { i: (i + 1) as usize }
            } else {
                Phase::AfterSync { i: 0 }
            }
        },
        (Phase::AfterSync { i }, Event::ComposeHook) => Phase::AfterAsync { i },
        (Phase::AfterAsync { i }, Event::ComposeHook) => {
            if i + 1 < n {
                Phase::AfterSync { i: (i + 1) as usize }
            } else {
                Phase::DoneRespond
            }
        },
        (Phase::FailNotify { i }, Event::NotifyHook { .. }) => {
            if i + 1 < n {
                Phase::FailNotify { i: (i + 1) as usize }
            } else {
                Phase::FailAfter { i: 0, recovered: false }
            }
        },
        (Phase::FailAfter { i, recovered }, Event::RecoverHook { recovered: now }) => {
            let rec = recovered || now;
            if i + 1 < n {
                Phase::FailAfter { i: (i + 1) as usize, recovered: rec }
            } else {
                if rec {
                    Phase::DoneRespond
                } else {
                    Phase::DoneFail
                }
            }
        },
        _ => m.phase,
    };
    PipelineRun { chain_len: n, phase: next }
}

pub open spec fn spec_action(m: PipelineRun) -> Action {
    match m.phase {
        Phase::BeforeSync { i } => Action::CallBefore { i },
        Phase::BeforeAsync { i } => Action::CallBeforeAsync { i },
        Phase::EarlyAfter { i } => Action::CallAfter { i, with_response: true },
        Phase::Dispatch => Action::PerformDispatch,
        Phase::SuccessHook { i } => Action::CallSuccess { i },
        Phase::AfterSync { i } => Action::CallAfter { i, with_response: true },
        Phase::AfterAsync { i } => Action::CallAfterAsync { i },
        Phase::FailNotify { i } => Action::CallFailure { i },
        Phase::FailAfter { i, .. } => Action::CallAfter { i, with_response: false },
        Phase::DoneRespond => Action::Finish { respond: true },
        Phase::DoneFail => Action::Finish { respond: false },
    }
}

impl PipelineRun {
    pub open spec fn wf(self) -> bool {
        phase_wf(self.phase, self.chain_len)
    }

    /// A fresh run: straight to dispatch when the chain is empty, else the
    /// first middleware's non-suspending before hook.
    pub fn start(chain_len: usize) -> (m: Self)
        ensures
            m == spec_start(chain_len),
            m.wf(),
    {
        PipelineRun {
            chain_len,
            phase: if chain_len == 0 {
                Phase::Dispatch
            } else {
                Phase::BeforeSync { i: 0 }
            },
        }
    }

    /// What the driver must do in the current phase.
    pub fn next_action(&self) -> (a: Action)
        ensures
            a == spec_action(*self),
    {
        match self.phase {
            Phase::BeforeSync { i } => Action::CallBefore { i },
            Phase::BeforeAsync { i } => Action::CallBeforeAsync { i },
            Phase::EarlyAfter { i } => Action::CallAfter { i, with_response: true },
            Phase::Dispatch => Action::PerformDispatch,
            Phase::SuccessHook { i } => Action::CallSuccess { i },
            Phase::AfterSync { i } => Action::CallAfter { i, with_response: true },
            Phase::AfterAsync { i } => Action::CallAfterAsync { i },
            Phase::FailNotify { i } => Action::CallFailure { i },
            Phase::FailAfter { i, .. } => Action::CallAfter { i, with_response: false },
            Phase::DoneRespond => Action::Finish { respond: true },
            Phase::DoneFail => Action::Finish { respond: false },
        }
    }

    /// Feed the outcome of the requested action back into the machine.
    pub fn step(&mut self, e: Event)
        requires
            old(self).wf(),
            accepts(old(self).phase, e),
        ensures
            *final(self) == spec_step(*old(self), e),
            final(self).wf(),
    {
        let n = self.chain_len;
        let next = match (self.phase, e) {
            (Phase::BeforeSync { i }, Event::BeforeHook { halted }) => {
                if halted {
                    Phase::EarlyAfter { i: 0 }
                } else {
                    Phase::BeforeAsync { i }
                }
            },
            (Phase::BeforeAsync { i }, Event::BeforeHook { halted }) => {
                if halted {
                    Phase::EarlyAfter { i: 0 }
                } else if i + 1 < n {
                    Phase::BeforeSync { i: i + 1 }
                } else {
                    Phase::Dispatch
                }
            },
            (Phase::EarlyAfter { i }, Event::ComposeHook) => {
                if i + 1 < n {
                    Phase::EarlyAfter { i: i + 1 }
                } else {
                    Phase::DoneRespond
                }
            },
            (Phase::Dispatch, Event::DispatchDone { ok }) => {
                if ok {
                    if n == 0 {
                        Phase::DoneRespond
                    } else {
                        Phase::SuccessHook { i: 0 }
                    }
                } else {
                    if n == 0 {
                        Phase::DoneFail
                    } else {
                        Phase::FailNotify { i: 0 }
                    }
                }
            },
            (Phase::SuccessHook { i }, Event::ComposeHook) => {
                if i + 1 < n {
                    Phase::SuccessHook { i: i + 1 }
                } else {
                    Phase::AfterSync { i: 0 }
                }
            },
            (Phase::AfterSync { i }, Event::ComposeHook) => Phase::AfterAsync { i },
            (Phase::AfterAsync { i }, Event::ComposeHook) => {
                if i + 1 < n {
                    Phase::AfterSync { i: i + 1 }
                } else {
                    Phase::DoneRespond
                }
            },
            (Phase::FailNotify { i }, Event::NotifyHook { .. }) => {
                if i + 1 < n {
                    Phase::FailNotify { i: i + 1 }
                } else {
                    Phase::FailAfter { i: 0, recovered: false }
                }
            },
            (Phase::FailAfter { i, recovered }, Event::RecoverHook { recovered: now }) => {
                let rec = recovered || now;
                if i + 1 < n {
                    Phase::FailAfter { i: i + 1, recovered: rec }
                } else {
                    if rec {
                        Phase::DoneRespond
                    } else {
                        Phase::DoneFail
                    }
                }
            },
            (p, _) => p,
        };
        self.phase = next;
    }

    pub open spec fn in_before_phase(self) -> bool {
        self.phase is BeforeSync || self.phase is BeforeAsync
    }

    pub open spec fn on_failure_path(self) -> bool {
        self.phase is FailNotify || self.phase is FailAfter || self.phase is DoneFail
    }

    pub open spec fn finished(self) -> bool {
        self.phase is DoneRespond || self.phase is DoneFail
    }
}

/// Law: a before hook that answers or fails short-circuits at once — the run
/// jumps to the restricted post-phase at the head of the chain, and the
/// upstream is never dispatched on this path.
pub proof fn lemma_before_short_circuit(m: PipelineRun, e: Event)
    requires
        m.wf(),
        m.in_before_phase(),
        e == (Event::BeforeHook { halted: true }),
    ensures
        spec_step(m, e).phase == (Phase::EarlyAfter { i: 0 }),
{
}

/// Law: the before-phase, once left, is never re-entered — after a
/// short-circuit at middleware `i`, the middlewares past `i` never see a
/// before hook for that request.
pub proof fn lemma_before_phase_never_reentered(m: PipelineRun, e: Event)
    requires
        m.wf(),
        accepts(m.phase, e),
        !m.in_before_phase(),
    ensures
        !spec_step(m, e).in_before_phase(),
{
}

/// Law: no phase but the before-phase short-circuits. In the early-after,
/// success, after, notify, and post-failure phases the machine advances to
/// the next middleware whatever the hook returned, so within one phase every
/// middleware is asked exactly once, in chain order.
pub proof fn lemma_full_chain_no_short_circuit(m: PipelineRun, e: Event)
    requires
        m.wf(),
        accepts(m.phase, e),
        !m.in_before_phase(),
        !m.finished(),
        !(m.phase is Dispatch),
        !(m.phase is AfterSync),
    ensures
        (match (m.phase, spec_step(m, e).phase) {
            (Phase::EarlyAfter { i }, Phase::EarlyAfter { i: j }) => j == i + 1,
            (Phase::EarlyAfter { i }, Phase::DoneRespond) => i + 1 == m.chain_len,
            (Phase::SuccessHook { i }, Phase::SuccessHook { i: j }) => j == i + 1,
            (Phase::SuccessHook { i }, Phase::AfterSync { i: j }) => i + 1 == m.chain_len && j
                == 0,
            (Phase::AfterAsync { i }, Phase::AfterSync { i: j }) => j == i + 1,
            (Phase::AfterAsync { i }, Phase::DoneRespond) => i + 1 == m.chain_len,
            (Phase::FailNotify { i }, Phase::FailNotify { i: j }) => j == i + 1,
            (Phase::FailNotify { i }, Phase::FailAfter { i: j, recovered }) => i + 1
                == m.chain_len && j == 0 && !recovered,
            (Phase::FailAfter { i, .. }, Phase::FailAfter { i: j, .. }) => j == i + 1,
            (Phase::FailAfter { i, .. }, Phase::DoneRespond) => i + 1 == m.chain_len,
            (Phase::FailAfter { i, .. }, Phase::DoneFail) => i + 1 == m.chain_len,
            _ => false,
        }),
{
}

/// Law: the failure-notification hook is notify-only — whether it succeeded
/// or itself failed, the run continues identically.
pub proof fn lemma_failure_notification_cannot_alter(m: PipelineRun, e1: Event, e2: Event)
    requires
        m.wf(),
        m.phase is FailNotify,
        e1 is NotifyHook,
        e2 is NotifyHook,
    ensures
        spec_step(m, e1) == spec_step(m, e2),
{
}

/// Law (asymmetry): the post-failure path never invokes the suspending
/// after-hook. No state on the failure path asks for `CallAfterAsync`, and
/// stepping stays on that path until the run finishes.
pub proof fn lemma_failure_path_never_suspends(m: PipelineRun, e: Event)
    requires
        m.wf(),
        accepts(m.phase, e),
        m.on_failure_path(),
    ensures
        !(spec_action(m) is CallAfterAsync),
        spec_step(m, e).on_failure_path() || spec_step(m, e).phase is DoneRespond,
{
}

/// Law: the suspending after-hook is requested on the post-success path
/// alone.
pub proof fn lemma_suspending_after_only_post_success(m: PipelineRun)
    ensures
        spec_action(m) is CallAfterAsync ==> m.phase is AfterAsync,
{
}

/// Law (trace form): once the run has left the before-phase — by a
/// short-circuit or by reaching dispatch — no continuation of the run ever
/// asks a before hook again.
pub proof fn lemma_before_phase_stays_left(m: PipelineRun, es: Seq<Event>)
    requires
        !m.in_before_phase(),
    ensures
        !run_events(m, es).in_before_phase(),
    decreases es.len(),
{
    if es.len() > 0 {
        assert(!spec_step(m, es[0]).in_before_phase());
        lemma_before_phase_stays_left(spec_step(m, es[0]), es.drop_first());
    }
}

/// Law (trace form): a run that has entered the failure path stays on it
/// until it finishes — recovering into a response at most — and at no point
/// along the way is the suspending after-hook the requested action.
pub proof fn lemma_failure_path_stays(m: PipelineRun, es: Seq<Event>)
    requires
        m.on_failure_path(),
    ensures
        run_events(m, es).on_failure_path() || run_events(m, es).phase is DoneRespond,
        !(spec_action(run_events(m, es)) is CallAfterAsync),
    decreases es.len(),
{
    if es.len() > 0 {
        let next = spec_step(m, es[0]);
        if next.on_failure_path() {
            lemma_failure_path_stays(next, es.drop_first());
        } else {
            assert(next.phase is DoneRespond);
            lemma_done_is_terminal(next, es.drop_first());
        }
    }
}

/// A finished run stays finished: terminal phases accept no event.
pub proof fn lemma_done_is_terminal(m: PipelineRun, es: Seq<Event>)
    requires
        m.finished(),
    ensures
        run_events(m, es) == m,
    decreases es.len(),
{
    if es.len() > 0 {
        assert(spec_step(m, es[0]) == m);
        lemma_done_is_terminal(m, es.drop_first());
    }
}

/// A whole trace: the machine fed one event after the other.
pub open spec fn run_events(m: PipelineRun, es: Seq<Event>) -> PipelineRun
    decreases es.len(),
{
    if es.len() == 0 {
        m
    } else {
        run_events(spec_step(m, es[0]), es.drop_first())
    }
}

/// Law: when every before hook continues, the before-phase asks every
/// middleware from `start` on, in chain order and sync-then-async sub-order —
/// two events per middleware — and then, only then, dispatches upstream.
pub proof fn lemma_before_phase_all_continue(n: usize, start: usize, es: Seq<Event>)
    requires
        start < n,
        es.len() % 2 == 0,
        es.len() <= 2 * (n - start),
        forall|k: int| 0 <= k < es.len() ==> es[k] == (Event::BeforeHook { halted: false }),
    ensures
        ({
            let end = run_events(
                PipelineRun { chain_len: n, phase: Phase::BeforeSync { i: start } },
                es,
            );
            &&& end.chain_len == n
            &&& if start + es.len() / 2 < n {
                end.phase == (Phase::BeforeSync { i: (start + es.len() / 2) as usize })
            } else {
                end.phase == Phase::Dispatch
            }
        }),
    decreases es.len(),
{
    if es.len() > 0 {
        let m0 = PipelineRun { chain_len: n, phase: Phase::BeforeSync { i: start } };
        let m1 = spec_step(m0, es[0]);
        assert(m1.phase == (Phase::BeforeAsync { i: start }));
        let m2 = spec_step(m1, es[1]);
        let tail = es.drop_first().drop_first();
        assert(es.len() >= 2);
        assert(run_events(m0, es) == run_events(m1, es.drop_first()));
        assert(es.drop_first()[0] == es[1]);
        assert(run_events(m1, es.drop_first()) == run_events(m2, tail));
        assert(forall|k: int| 0 <= k < tail.len() ==> tail[k] == es[k + 2]);
        if start + 1 < n {
            assert(m2.phase == (Phase::BeforeSync { i: (start + 1) as usize }));
            lemma_before_phase_all_continue(n, (start + 1) as usize, tail);
        } else {
            assert(m2.phase == Phase::Dispatch);
            assert(es.len() == 2);
            assert(run_events(m2, tail) == m2);
        }
    }
}

/// Law: the restricted post-phase after a short-circuit runs over the full
/// chain — from middleware `start`, each hook result moves the walk exactly
/// one middleware further, whatever it was, until the whole chain has been
/// seen and the run answers.
pub proof fn lemma_early_after_walks_whole_chain(n: usize, start: usize, es: Seq<Event>)
    requires
        start < n,
        es.len() <= n - start,
        forall|k: int| 0 <= k < es.len() ==> es[k] is ComposeHook,
    ensures
        ({
            let end = run_events(
                PipelineRun { chain_len: n, phase: Phase::EarlyAfter { i: start } },
                es,
            );
            &&& end.chain_len == n
            &&& if start + es.len() < n {
                end.phase == (Phase::EarlyAfter { i: (start + es.len()) as usize })
            } else {
                end.phase == Phase::DoneRespond
            }
        }),
    decreases es.len(),
{
    if es.len() > 0 {
        let m = PipelineRun { chain_len: n, phase: Phase::EarlyAfter { i: start } };
        let next = spec_step(m, es[0]);
        if start + 1 < n {
            lemma_early_after_walks_whole_chain(n, (start + 1) as usize, es.drop_first());
        } else {
            assert(next.phase == Phase::DoneRespond);
            assert(es.len() == 1);
            assert(run_events(next, es.drop_first()) == next);
        }
    }
}

/// Law: in the success phase every middleware's hook is invoked exactly once,
/// in chain order, regardless of prior results in the phase: after `k` hook
/// results the machine stands at middleware `start + k`, and after the whole
/// chain it moves on to the post-phase.
pub proof fn lemma_success_phase_exactly_once(n: usize, start: usize, es: Seq<Event>)
    requires
        start < n,
        es.len() <= n - start,
        forall|k: int| 0 <= k < es.len() ==> es[k] is ComposeHook,
    ensures
        ({
            let end = run_events(
                PipelineRun { chain_len: n, phase: Phase::SuccessHook { i: start } },
                es,
            );
            &&& end.chain_len == n
            &&& if start + es.len() < n {
                end.phase == (Phase::SuccessHook { i: (start + es.len()) as usize })
            } else {
                end.phase == (Phase::AfterSync { i: 0 })
            }
        }),
    decreases es.len(),
{
    if es.len() > 0 {
        let m = PipelineRun { chain_len: n, phase: Phase::SuccessHook { i: start } };
        let next = spec_step(m, es[0]);
        if start + 1 < n {
            lemma_success_phase_exactly_once(n, (start + 1) as usize, es.drop_first());
        } else {
            assert(next.phase == (Phase::AfterSync { i: 0 }));
            assert(es.len() == 1);
            assert(run_events(next, es.drop_first()) == next);
        }
    }
}

/// Law: the post-failure walk also sees every middleware exactly once, and
/// ends in a response exactly when some hook along the way recovered one.
pub proof fn lemma_failure_after_walks_whole_chain(
    n: usize,
    start: usize,
    rec: bool,
    es: Seq<Event>,
)
    requires
        start < n,
        es.len() <= n - start,
        forall|k: int| 0 <= k < es.len() ==> es[k] is RecoverHook,
    ensures
        ({
            let end = run_events(
                PipelineRun { chain_len: n, phase: Phase::FailAfter { i: start, recovered: rec } },
                es,
            );
            let rec_all = rec || (exists|k: int|
                0 <= k < es.len() && es[k] == (Event::RecoverHook { recovered: true }));
            &&& end.chain_len == n
            &&& if start + es.len() < n {
                end.phase == (Phase::FailAfter {
                    i: (start + es.len()) as usize,
                    recovered: rec_all,
                })
            } else {
                end.phase == if rec_all {
                    Phase::DoneRespond
                } else {
                    Phase::DoneFail
                }
            }
        }),
    decreases es.len(),
{
    if es.len() > 0 {
        let m = PipelineRun { chain_len: n, phase: Phase::FailAfter { i: start, recovered: rec } };
        let next = spec_step(m, es[0]);
        let tail = es.drop_first();
        let now = rec || es[0] == (Event::RecoverHook { recovered: true });
        let rec_full = rec || (exists|k: int|
            0 <= k < es.len() && es[k] == (Event::RecoverHook { recovered: true }));
        let rec_tail = now || (exists|k: int|
            0 <= k < tail.len() && tail[k] == (Event::RecoverHook { recovered: true }));
        assert(rec_full == rec_tail) by {
            if rec_tail && !now {
                let k = choose|k: int|
                    0 <= k < tail.len() && tail[k] == (Event::RecoverHook { recovered: true });
                assert(es[k + 1] == tail[k]);
            }
            if rec_full && !rec {
                let k = choose|k: int|
                    0 <= k < es.len() && es[k] == (Event::RecoverHook { recovered: true });
                if k > 0 {
                    assert(tail[k - 1] == es[k]);
                }
            }
        }
        if start + 1 < n {
            lemma_failure_after_walks_whole_chain(n, (start + 1) as usize, now, tail);
        } else {
            assert(es.len() == 1);
            assert(run_events(next, tail) == next);
        }
    }
}

} // verus!
