//! The backoff waiter: drives the existence poller repeatedly under an
//! exponential-backoff schedule until every watched path exists or the
//! elapsed-time budget is exhausted. The waiter is an explicit state object;
//! the caller owns the loop, performs each sleep, and feeds every poll result
//! back into `step`, so the schedule itself is pure and fully specified.

use vstd::prelude::*;

use crate::poller::{
    is_subsequence, lemma_missing_is_subsequence, lemma_subsequence_contains, missing_seq,
    ExistencePoller,
};

verus! {

/// The retry schedule: the first delay, the cap the doubling delays grow to,
/// and the total time budget the waiter may spend sleeping, all in
/// milliseconds.
#[derive(Clone, Copy, Debug, PartialEq, Eq, Structural)]
pub struct BackoffPolicy {
    pub initial_interval_ms: u64,
    pub max_interval_ms: u64,
    pub max_elapsed_ms: u64,
}

impl BackoffPolicy {
    /// A policy is well formed when its first delay is positive and no longer
    /// than the cap.
    pub open spec fn wf(self) -> bool {
        1 <= self.initial_interval_ms <= self.max_interval_ms
    }
}

impl Default for BackoffPolicy {
    /// The default schedule: half a second to start, doubling to a cap of one
    /// minute, with a total budget of fifteen minutes.
    fn default() -> (policy: BackoffPolicy)
        ensures
            policy.initial_interval_ms == 500,
            policy.max_interval_ms == 60_000,
            policy.max_elapsed_ms == 900_000,
            policy.wf(),
    {
        BackoffPolicy { initial_interval_ms: 500, max_interval_ms: 60_000, max_elapsed_ms: 900_000 }
    }
}

/// What a tick of the waiter asks its driver to do next: stop with success,
/// sleep the given number of milliseconds and poll again, or stop with a
/// timeout failure.
#[derive(Clone, Copy, Debug, PartialEq, Eq, Structural)]
pub enum TickAction {
    Ready,
    Sleep(u64),
    TimedOut,
}

/// The mathematical state of a waiter: the paths still awaited, the delay the
/// next sleep would take, the total time slept so far, and the schedule.
#[verifier::ext_equal]
pub ghost struct WaiterModel {
    pub pending: Seq<Seq<char>>,
    pub interval_ms: u64,
    pub elapsed_ms: u64,
    pub policy: BackoffPolicy,
}

impl WaiterModel {
    pub open spec fn wf(self) -> bool {
        &&& self.policy.wf()
        &&& self.policy.initial_interval_ms <= self.interval_ms <= self.policy.max_interval_ms
        &&& self.elapsed_ms <= self.policy.max_elapsed_ms
    }
}

/// The delay after a delay of `interval_ms`: doubled, but never more than
/// `max_interval_ms`.
pub open spec fn next_interval_spec(interval_ms: u64, max_interval_ms: u64) -> u64 {
    if 2 * interval_ms <= max_interval_ms {
        (2 * interval_ms) as u64
    } else {
        max_interval_ms
    }
}

/// One transition of the waiter, given the poll result `still_missing`: the
/// pending set becomes exactly the poll result; an empty result succeeds; a
/// non-empty result times out when the next sleep would overrun the budget,
/// and otherwise schedules a sleep of the current interval.
pub open spec fn step_spec(m: WaiterModel, still_missing: Seq<Seq<char>>) -> (WaiterModel,
    TickAction) {
    if still_missing.len() == 0 {
        (
            WaiterModel {
                pending: still_missing,
                interval_ms: m.interval_ms,
                elapsed_ms: m.elapsed_ms,
                policy: m.policy,
            },
            TickAction::Ready,
        )
    } else if m.elapsed_ms + m.interval_ms > m.policy.max_elapsed_ms {
        (
            WaiterModel {
                pending: still_missing,
                interval_ms: m.interval_ms,
                elapsed_ms: m.elapsed_ms,
                policy: m.policy,
            },
            TickAction::TimedOut,
        )
    } else {
        (
            WaiterModel {
                pending: still_missing,
                interval_ms: next_interval_spec(m.interval_ms, m.policy.max_interval_ms),
                elapsed_ms: (m.elapsed_ms + m.interval_ms) as u64,
                policy: m.policy,
            },
            TickAction::Sleep(m.interval_ms),
        )
    }
}

/// The waiter over a list of paths: poll, shrink the pending set to what is
/// still missing, and back off until the set is empty or the budget is spent.
pub struct BackoffWaiter {
    pending: Vec<String>,
    interval_ms: u64,
    elapsed_ms: u64,
    policy: BackoffPolicy,
}

impl View for BackoffWaiter {
    type V = WaiterModel;

    closed spec fn view(&self) -> WaiterModel {
        WaiterModel {
            pending: self.pending.deep_view(),
            interval_ms: self.interval_ms,
            elapsed_ms: self.elapsed_ms,
            policy: self.policy,
        }
    }
}

impl BackoffWaiter {
    /// A fresh waiter: every listed path is pending, nothing has elapsed, and
    /// the first sleep would take the schedule's initial interval.
    pub fn new(paths: Vec<String>, policy: BackoffPolicy) -> (waiter: BackoffWaiter)
        requires
            policy.wf(),
        ensures
            waiter@.pending == paths.deep_view(),
            waiter@.interval_ms == policy.initial_interval_ms,
            waiter@.elapsed_ms == 0,
            waiter@.policy == policy,
            waiter@.wf(),
    {
        BackoffWaiter {
            pending: paths,
            interval_ms: policy.initial_interval_ms,
            elapsed_ms: 0,
            policy,
        }
    }

    /// The paths still awaited, in the order of the watched list.
    pub fn pending(&self) -> (paths: &Vec<String>)
        ensures
            paths.deep_view() == self@.pending,
    {
        &self.pending
    }

    /// The total milliseconds of sleep the waiter has scheduled so far.
    pub fn elapsed_ms(&self) -> (elapsed: u64)
        ensures
            elapsed == self@.elapsed_ms,
    {
        self.elapsed_ms
    }

    /// Apply one poll result: the pure transition of the waiter, taking the
    /// still-missing subset as an argument and following `step_spec` exactly.
    pub fn step(&mut self, still_missing: Vec<String>) -> (action: TickAction)
        requires
            old(self)@.wf(),
            is_subsequence(still_missing.deep_view(), old(self)@.pending),
        ensures
            final(self)@ == step_spec(old(self)@, still_missing.deep_view()).0,
            action == step_spec(old(self)@, still_missing.deep_view()).1,
            final(self)@.wf(),
    {
        let empty = still_missing.len() == 0;
        proof {
            assert(still_missing.deep_view().len() == still_missing@.len());
        }
        self.pending = still_missing;
        if empty {
            TickAction::Ready
        } else if (self.elapsed_ms as u128) + (self.interval_ms as u128) > (
        self.policy.max_elapsed_ms as u128) {
            TickAction::TimedOut
        } else {
            let current = self.interval_ms;
            self.elapsed_ms = self.elapsed_ms + current;
            self.interval_ms = if current <= self.policy.max_interval_ms / 2 {
                current * 2
            } else {
                self.policy.max_interval_ms
            };
            TickAction::Sleep(current)
        }
    }

    /// Poll the filesystem once and apply the result. The poll's answers
    /// depend on the disk, so the transition is pinned relative to them: for
    /// some sequence of per-path existence flags, the waiter moved exactly as
    /// `step_spec` says on the missing subset those flags select. Whatever
    /// the answers were, the pending set only ever shrinks, and the tick
    /// reports `Ready` exactly when it has become empty.
    pub fn tick(&mut self) -> (action: TickAction)
        requires
            old(self)@.wf(),
        ensures
            final(self)@.wf(),
            exists|flags: Seq<bool>|
                flags.len() == old(self)@.pending.len() && final(self)@ == step_spec(
                    old(self)@,
                    missing_seq(old(self)@.pending, flags),
                ).0 && action == step_spec(
                    old(self)@,
                    missing_seq(old(self)@.pending, flags),
                ).1,
            is_subsequence(final(self)@.pending, old(self)@.pending),
            action == TickAction::Ready <==> final(self)@.pending.len() == 0,
            forall|p: Seq<char>|
                final(self)@.pending.contains(p) ==> old(self)@.pending.contains(p),
    {
        let ghost m = self@;
        let missing = ExistencePoller::check(&self.pending);
        let ghost missing_dv = missing.deep_view();
        let ghost flags = choose|flags: Seq<bool>|
            flags.len() == m.pending.len() && missing_dv == missing_seq(m.pending, flags);
        let action = self.step(missing);
        proof {
            assert(self@ == step_spec(m, missing_seq(m.pending, flags)).0 && action == step_spec(
                m,
                missing_seq(m.pending, flags),
            ).1);
            lemma_subsequence_contains(self@.pending, m.pending);
        }
        action
    }
}

/// Law: the waiter never un-learns existence. A path absent from the pending
/// set — one already observed to exist, or never watched — is still absent
/// after any step, whatever the poll reported.
pub proof fn lemma_pending_monotonic(m: WaiterModel, still_missing: Seq<Seq<char>>, p: Seq<char>)
    requires
        is_subsequence(still_missing, m.pending),
        !m.pending.contains(p),
    ensures
        !step_spec(m, still_missing).0.pending.contains(p),
{
    lemma_subsequence_contains(still_missing, m.pending);
}

/// The waiter's state after a whole run of ticks, one per element of
/// `all_flags`: each tick polls the then-pending paths — `all_flags[i]` gives
/// the per-path existence answers the filesystem returned — and applies the
/// missing subset as `step_spec` says.
pub open spec fn run_spec(m: WaiterModel, all_flags: Seq<Seq<bool>>) -> WaiterModel
    decreases all_flags.len(),
{
    if all_flags.len() == 0 {
        m
    } else {
        run_spec(step_spec(m, missing_seq(m.pending, all_flags.first())).0, all_flags.drop_first())
    }
}

/// Law: over a whole run, the waiter never un-learns existence. A path absent
/// from the pending set stays absent through every later tick, whatever the
/// filesystem answered at each poll — even if the path is deleted again after
/// it was once observed to exist.
pub proof fn lemma_run_monotonic(m: WaiterModel, all_flags: Seq<Seq<bool>>, p: Seq<char>)
    requires
        !m.pending.contains(p),
    ensures
        !run_spec(m, all_flags).pending.contains(p),
    decreases all_flags.len(),
{
    if all_flags.len() > 0 {
        let missing = missing_seq(m.pending, all_flags.first());
        lemma_missing_is_subsequence(m.pending, all_flags.first());
        lemma_pending_monotonic(m, missing, p);
        lemma_run_monotonic(step_spec(m, missing).0, all_flags.drop_first(), p);
    }
}

/// Law: a step taken with at least one path still missing never reports
/// success, and reports a timeout exactly when the next sleep would push the
/// elapsed total past the budget.
pub proof fn lemma_timeout_never_success(m: WaiterModel, still_missing: Seq<Seq<char>>)
    requires
        still_missing.len() > 0,
    ensures
        step_spec(m, still_missing).1 != TickAction::Ready,
        m.elapsed_ms + m.interval_ms > m.policy.max_elapsed_ms ==> step_spec(m, still_missing).1
            == TickAction::TimedOut,
{
}

/// Law: once every watched path exists the wait succeeds at once — the step
/// reports `Ready`, schedules no further sleep, and leaves the elapsed total
/// unchanged.
pub proof fn lemma_satisfied_stops_polling(m: WaiterModel)
    ensures
        step_spec(m, Seq::empty()).1 == TickAction::Ready,
        step_spec(m, Seq::empty()).0.elapsed_ms == m.elapsed_ms,
        step_spec(m, Seq::empty()).0.pending.len() == 0,
{
}

} // verus!
