//! The execution scheduler's state machine.
//!
//! An `Execution` tracks one build of a validated plan: one `StepResult`
//! per step, a cancellation flag and a clock high-water mark. The driver
//! loop around it is trivial: launch the ready steps, hand each to a
//! runner, record each completion as it arrives, and finalize once nothing
//! is left running. Everything the loop decides is decided here, under
//! `wf`:
//!
//! - a step is launched only when all its dependencies succeeded, and at
//!   most once, since no transition re-enters `Pending`;
//! - when a step ends without success, every step depending on it,
//!   transitively, is marked `Skipped` at once;
//! - when cancellation is requested nothing new launches, and steps that
//!   never launched end `Cancelled`;
//! - a bounded measure falls with every launch and every completion, so a
//!   build always terminates with a result for every step.

use vstd::prelude::*;
use crate::model::StepResult;
use crate::status::StepStatus;
use crate::validate::Plan;

verus! {

/// The smaller of the two only loses: the scheduler's clock never moves
/// backwards even if the caller's does.
pub open spec fn max64(a: u64, b: u64) -> u64 {
    if a > b {
        a
    } else {
        b
    }
}

/// The legal transitions of one step's status within a build: `Pending`
/// may launch or be skipped or cancelled; `Running` may end in any
/// run-terminal state; terminal states never change. A step therefore
/// reaches `Running` at most once: it is handed to a runner at most once
/// per build.
pub open spec fn step_advances(a: StepStatus, b: StepStatus) -> bool {
    ||| a == b
    ||| (a == StepStatus::Pending && (b == StepStatus::Running || b == StepStatus::Skipped || b
        == StepStatus::Cancelled))
    ||| (a == StepStatus::Running && b.spec_is_terminal() && b != StepStatus::Skipped)
}

/// Statuses a step can only hold after it was handed to a runner.
pub open spec fn launched_status(s: StepStatus) -> bool {
    ||| s == StepStatus::Running
    ||| s == StepStatus::Success
    ||| s == StepStatus::Failed
    ||| s == StepStatus::TimedOut
}

/// Once a step has left `Pending` it never returns, so whatever launches
/// only pending steps launches each step at most once.
pub proof fn lemma_no_return_to_pending(a: StepStatus, b: StepStatus)
    requires
        step_advances(a, b),
        a != StepStatus::Pending,
    ensures
        b != StepStatus::Pending,
{
}

/// How many results currently hold the given status.
pub open spec fn count_status(s: Seq<StepResult>, t: StepStatus) -> int
    decreases s.len(),
{
    if s.len() == 0 {
        0
    } else {
        count_status(s.drop_last(), t) + if s.last().status == t {
            1int
        } else {
            0int
        }
    }
}

proof fn lemma_count_status_bounds(s: Seq<StepResult>, t: StepStatus)
    ensures
        0 <= count_status(s, t) <= s.len(),
    decreases s.len(),
{
    if s.len() > 0 {
        lemma_count_status_bounds(s.drop_last(), t);
    }
}

proof fn lemma_count_status_zero(s: Seq<StepResult>, t: StepStatus)
    requires
        forall|i: int| 0 <= i < s.len() ==> (#[trigger] s[i]).status != t,
    ensures
        count_status(s, t) == 0,
    decreases s.len(),
{
    if s.len() > 0 {
        lemma_count_status_zero(s.drop_last(), t);
    }
}

proof fn lemma_count_status_update(s: Seq<StepResult>, i: int, v: StepResult, t: StepStatus)
    requires
        0 <= i < s.len(),
    ensures
        count_status(s.update(i, v), t) == count_status(s, t) - (if s[i].status == t {
            1int
        } else {
            0int
        }) + (if v.status == t {
            1int
        } else {
            0int
        }),
    decreases s.len(),
{
    let s2 = s.update(i, v);
    if i == s.len() - 1 {
        assert(s2.drop_last() =~= s.drop_last());
    } else {
        assert(s2.drop_last() =~= s.drop_last().update(i, v));
        lemma_count_status_update(s.drop_last(), i, v, t);
    }
}


/// The scheduler's progress measure over a raw result sequence.
pub open spec fn count_measure_of(s: Seq<StepResult>) -> int {
    2 * count_status(s, StepStatus::Pending) + count_status(s, StepStatus::Running)
}

/// One build of a validated plan, in flight.
pub struct Execution {
    pub plan: Plan,
    pub results: Vec<StepResult>,
    pub cancelled: bool,
    pub clock: u64,
}

impl Execution {
    pub open spec fn n(self) -> int {
        self.plan.n()
    }

    /// The current status of step `i`.
    pub open spec fn st(self, i: int) -> StepStatus {
        self.results@[i].status
    }

    pub open spec fn dep_count(self, i: int) -> int {
        self.plan.dep_seq(i).len() as int
    }

    /// All dependencies of step `i` have succeeded.
    pub open spec fn deps_successful(self, i: int) -> bool {
        forall|k: int|
            0 <= k < self.dep_count(i) ==> self.st(
                #[trigger] self.plan.dep_seq(i)[k] as int,
            ) == StepStatus::Success
    }

    /// Step `i` is ready to launch: still pending, with every dependency
    /// successful.
    pub open spec fn spec_ready(self, i: int) -> bool {
        &&& 0 <= i < self.n()
        &&& self.st(i) == StepStatus::Pending
        &&& self.deps_successful(i)
    }

    /// Some dependency of step `i` ended without success.
    pub open spec fn has_bad_dep(self, i: int) -> bool {
        exists|k: int|
            0 <= k < self.dep_count(i) && self.st(
                #[trigger] self.plan.dep_seq(i)[k] as int,
            ).spec_is_non_success_terminal()
    }

    /// How much work is left: pending steps count twice (launch and
    /// completion), running steps once. Every launch and every recorded
    /// completion strictly decreases this measure, so a build terminates.
    pub open spec fn spec_measure(self) -> int {
        2 * count_status(self.results@, StepStatus::Pending) + count_status(
            self.results@,
            StepStatus::Running,
        )
    }

    /// The state invariant of an execution.
    pub open spec fn wf(self) -> bool {
        &&& self.plan.wf()
        &&& self.results@.len() == self.n()
        &&& forall|i: int|
            0 <= i < self.n() ==> (#[trigger] self.results@[i]).step_id@ == self.plan.ids@[i]@
        &&& forall|i: int|
            0 <= i < self.n() ==> (#[trigger] self.results@[i]).status != StepStatus::Unspecified
        // a launched step's dependencies had all succeeded
        &&& forall|i: int|
            0 <= i < self.n() && launched_status((#[trigger] self.results@[i]).status)
                ==> self.deps_successful(i)
        // failure propagation is complete: a step never stays pending above
        // a dependency that ended without success
        &&& forall|i: int, k: int|
            0 <= i < self.n() && 0 <= k < self.dep_count(i) && self.st(
                #[trigger] self.plan.dep_seq(i)[k] as int,
            ).spec_is_non_success_terminal() ==> self.st(i) == StepStatus::Skipped || (
            self.cancelled && self.st(i) == StepStatus::Cancelled)
        // and sound: every skipped step has such a dependency
        &&& forall|i: int|
            0 <= i < self.n() && (#[trigger] self.results@[i]).status == StepStatus::Skipped
                ==> self.has_bad_dep(i)
        // clocks: recorded times never exceed the high-water mark
        &&& forall|i: int|
            0 <= i < self.n() ==> ((#[trigger] self.results@[i]).started_at matches Some(s) ==> s
                <= self.clock)
        &&& forall|i: int|
            0 <= i < self.n() ==> ((#[trigger] self.results@[i]).completed_at matches Some(c) ==> c
                <= self.clock)
        // a running or successful step started no earlier than each
        // dependency completed
        &&& forall|i: int|
            0 <= i < self.n() && ((#[trigger] self.results@[i]).status == StepStatus::Running
                || self.results@[i].status == StepStatus::Success) ==> self.started_after_deps(i)
        &&& forall|i: int|
            0 <= i < self.n() && (#[trigger] self.results@[i]).started_at is Some
                && self.results@[i].completed_at is Some ==> self.results@[i].started_at.unwrap()
                <= self.results@[i].completed_at.unwrap()
        &&& forall|i: int|
            0 <= i < self.n() && (#[trigger] self.results@[i]).status == StepStatus::Pending
                ==> self.results@[i].started_at is None && self.results@[i].completed_at is None
        &&& forall|i: int|
            0 <= i < self.n() && ((#[trigger] self.results@[i]).status).spec_is_terminal()
                ==> self.results@[i].completed_at is Some
        // a step ends cancelled only once cancellation was requested
        &&& forall|i: int|
            0 <= i < self.n() && (#[trigger] self.results@[i]).status == StepStatus::Cancelled
                ==> self.cancelled
    }

    /// Step `i` started no earlier than each of its dependencies
    /// completed.
    pub open spec fn started_after_deps(self, i: int) -> bool {
        &&& self.results@[i].started_at is Some
        &&& forall|k: int|
            0 <= k < self.dep_count(i) ==> (self.results@[#[trigger] self.plan.dep_seq(i)[k] as int].completed_at matches Some(c)
                && c <= self.results@[i].started_at.unwrap())
    }


    /// A record as the skip pass writes it: skipped at time `t`, carrying
    /// the step id of the pending record it replaces.
    pub open spec fn is_skip_of(post: StepResult, pre: StepResult, t: u64) -> bool {
        &&& post.status == StepStatus::Skipped
        &&& post.step_id@ == pre.step_id@
        &&& post.output@ == Seq::<char>::empty()
        &&& post.error@ == Seq::<char>::empty()
        &&& post.exit_code is None
        &&& post.started_at == Some(t)
        &&& post.completed_at == Some(t)
    }

    /// A record as the cancellation pass writes it: cancelled at time `t`,
    /// never started.
    pub open spec fn is_cancel_of(post: StepResult, pre: StepResult, t: u64) -> bool {
        &&& post.status == StepStatus::Cancelled
        &&& post.step_id@ == pre.step_id@
        &&& post.output@ == Seq::<char>::empty()
        &&& post.error@ == Seq::<char>::empty()
        &&& post.exit_code is None
        &&& post.started_at is None
        &&& post.completed_at == Some(t)
    }

    /// Launches every ready step: each becomes `Running` with its start
    /// time recorded, and the launched indices are returned. While
    /// cancellation is requested nothing launches. Only pending steps are
    /// returned, so together with `step_advances` (no transition re-enters
    /// `Pending`) each step is handed to a runner at most once per build.
    pub fn launch_ready(&mut self, now: u64) -> (r: Vec<usize>)
        requires
            old(self).wf(),
        ensures
            final(self).wf(),
            final(self).plan == old(self).plan,
            final(self).cancelled == old(self).cancelled,
            final(self).results@.len() == old(self).results@.len(),
            old(self).cancelled ==> r@.len() == 0 && final(self).results == old(self).results
                && final(self).clock == old(self).clock,
            !old(self).cancelled ==> final(self).clock == max64(now, old(self).clock),
            forall|a: int, b: int| 0 <= a < b < r@.len() ==> r@[a] < r@[b],
            forall|j: int| 0 <= j < r@.len() ==> old(self).spec_ready(#[trigger] r@[j] as int),
            !old(self).cancelled ==> forall|x: int|
                0 <= x < old(self).n() && old(self).spec_ready(x) ==> r@.contains(x as usize),
            forall|j: int|
                0 <= j < r@.len() ==> {
                    let x = #[trigger] r@[j] as int;
                    &&& final(self).results@[x].status == StepStatus::Running
                    &&& final(self).results@[x].step_id@ == old(self).results@[x].step_id@
                    &&& final(self).results@[x].started_at == Some(final(self).clock)
                    &&& final(self).results@[x].completed_at is None
                },
            forall|x: int|
                0 <= x < old(self).n() && !(old(self).spec_ready(x) && !old(self).cancelled) ==> (
                #[trigger] final(self).results@[x]) == old(self).results@[x],
            forall|x: int|
                0 <= x < old(self).n() ==> step_advances(
                    old(self).st(x),
                    (#[trigger] final(self).results@[x]).status,
                ),
            final(self).spec_measure() + r@.len() == old(self).spec_measure(),
    {
        if self.cancelled {
            return Vec::new();
        }
        let t = if now > self.clock {
            now
        } else {
            self.clock
        };
        self.clock = t;
        let n = self.results.len();
        let mut launched: Vec<usize> = Vec::new();
        #[verifier::loop_isolation(false)]
        for i in 0..n
            invariant
                self.plan == old(self).plan,
                self.cancelled == old(self).cancelled,
                self.clock == t,
                self.results@.len() == n,
                forall|a: int, b: int| 0 <= a < b < launched@.len() ==> launched@[a] < launched@[b],
                forall|j: int| 0 <= j < launched@.len() ==> #[trigger] launched@[j] < i,
                forall|j: int|
                    0 <= j < launched@.len() ==> old(self).spec_ready(
                        #[trigger] launched@[j] as int,
                    ),
                forall|x: int|
                    0 <= x < i && old(self).spec_ready(x) ==> #[trigger] launched@.contains(
                        x as usize,
                    ),
                forall|x: int|
                    0 <= x < n && !(x < i && old(self).spec_ready(x)) ==> (
                    #[trigger] self.results@[x]) == old(self).results@[x],
                forall|x: int|
                    0 <= x < i && old(self).spec_ready(x) ==> {
                        &&& (#[trigger] self.results@[x]).status == StepStatus::Running
                        &&& self.results@[x].step_id@ == old(self).results@[x].step_id@
                        &&& self.results@[x].started_at == Some(t)
                        &&& self.results@[x].completed_at is None
                    },
                self.spec_measure() + launched@.len() == old(self).spec_measure(),
        {
            let pending = match self.results[i].status {
                StepStatus::Pending => true,
                _ => false,
            };
            if pending {
                let mut all_ok = true;
                let m = self.plan.deps[i].len();
                #[verifier::loop_isolation(false)]
                for k in 0..m
                    invariant
                        m == self.plan.dep_seq(i as int).len(),
                        all_ok <==> forall|q: int|
                            0 <= q < k ==> old(self).st(
                                #[trigger] self.plan.dep_seq(i as int)[q] as int,
                            ) == StepStatus::Success,
                {
                    let d = self.plan.deps[i][k];
                    let ok = match self.results[d].status {
                        StepStatus::Success => true,
                        _ => false,
                    };
                    proof {
                        // launching so far only turned pending steps into
                        // running ones, so the set of successful steps is
                        // the initial one
                        assert((self.results@[d as int].status == StepStatus::Success) == (old(
                            self,
                        ).results@[d as int].status == StepStatus::Success));
                    }
                    if !ok {
                        all_ok = false;
                    }
                }
                if all_ok {
                    proof {
                        assert(self.results@[i as int] == old(self).results@[i as int]);
                        assert(old(self).spec_ready(i as int));
                    }
                    let sr = StepResult {
                        step_id: self.results[i].step_id.clone(),
                        status: StepStatus::Running,
                        output: String::new(),
                        error: String::new(),
                        exit_code: None,
                        started_at: Some(t),
                        completed_at: None,
                    };
                    proof {
                        lemma_count_status_update(self.results@, i as int, sr, StepStatus::Pending);
                        lemma_count_status_update(self.results@, i as int, sr, StepStatus::Running);
                    }
                    let ghost launched0 = launched@;
                    self.results.set(i, sr);
                    launched.push(i);
                    proof {
                        assert(launched@ == launched0.push(i));
                        assert forall|x: int|
                            0 <= x < i + 1 && old(self).spec_ready(
                                x,
                            ) implies #[trigger] launched@.contains(x as usize) by {
                            if x < i as int {
                                assert(launched0.contains(x as usize));
                                let j = choose|j: int|
                                    0 <= j < launched0.len() && launched0[j] == x as usize;
                                assert(launched@[j] == x as usize);
                            } else {
                                assert(launched@[launched@.len() - 1] == i);
                            }
                        }
                        assert forall|j: int|
                            0 <= j < launched@.len() implies old(self).spec_ready(
                            #[trigger] launched@[j] as int,
                        ) by {
                            if j < launched0.len() {
                                assert(launched@[j] == launched0[j]);
                            } else {
                                assert(launched@[j] == i);
                            }
                        }
                        assert forall|a: int, b: int|
                            0 <= a < b < launched@.len() implies launched@[a] < launched@[b] by {
                            assert(launched@[a] == launched0[a]);
                            if b < launched0.len() {
                                assert(launched@[b] == launched0[b]);
                            } else {
                                assert(launched@[b] == i);
                                assert(launched0[a] < i);
                            }
                        }
                        assert forall|j: int|
                            0 <= j < launched@.len() implies #[trigger] launched@[j] < i + 1 by {
                            if j < launched0.len() {
                                assert(launched@[j] == launched0[j]);
                            } else {
                                assert(launched@[j] == i);
                            }
                        }
                    }
                } else {
                    proof {
                        assert(!old(self).spec_ready(i as int));
                    }
                }
            } else {
                proof {
                    assert(self.results@[i as int] == old(self).results@[i as int]);
                    assert(!old(self).spec_ready(i as int));
                }
            }
        }
        proof {
            assert forall|x: int|
                0 <= x < self.n() && launched_status(
                    (#[trigger] self.results@[x]).status,
                ) implies self.deps_successful(x) by {
                if old(self).spec_ready(x) {
                    assert(old(self).deps_successful(x));
                    assert forall|k: int|
                        0 <= k < self.dep_count(x) implies self.st(
                        #[trigger] self.plan.dep_seq(x)[k] as int,
                    ) == StepStatus::Success by {
                        let d = self.plan.dep_seq(x)[k] as int;
                        assert(old(self).st(d) == StepStatus::Success);
                        assert(!old(self).spec_ready(d));
                        assert(self.results@[d] == old(self).results@[d]);
                    }
                } else {
                    assert(self.results@[x] == old(self).results@[x]);
                    assert(launched_status(old(self).st(x)));
                    assert forall|k: int|
                        0 <= k < self.dep_count(x) implies self.st(
                        #[trigger] self.plan.dep_seq(x)[k] as int,
                    ) == StepStatus::Success by {
                        let d = self.plan.dep_seq(x)[k] as int;
                        assert(old(self).st(d) == StepStatus::Success);
                        assert(!old(self).spec_ready(d));
                        assert(self.results@[d] == old(self).results@[d]);
                    }
                }
            }
            assert forall|x: int|
                0 <= x < self.n() && ((#[trigger] self.results@[x]).status == StepStatus::Running
                    || self.results@[x].status == StepStatus::Success) implies self.started_after_deps(
                x,
            ) by {
                assert forall|k: int|
                    0 <= k < self.dep_count(x) implies (self.results@[#[trigger] self.plan.dep_seq(
                    x,
                )[k] as int].completed_at matches Some(c) && c
                    <= self.results@[x].started_at.unwrap()) by {
                    let d = self.plan.dep_seq(x)[k] as int;
                    if old(self).spec_ready(x) {
                        assert(old(self).st(d) == StepStatus::Success);
                        assert(!old(self).spec_ready(d));
                        assert(self.results@[d] == old(self).results@[d]);
                        assert(old(self).results@[d].completed_at is Some);
                    } else {
                        assert(self.results@[x] == old(self).results@[x]);
                        assert(old(self).started_after_deps(x));
                        assert(old(self).st(d) == StepStatus::Success);
                        assert(!old(self).spec_ready(d));
                        assert(self.results@[d] == old(self).results@[d]);
                    }
                }
            }
            assert forall|x: int, k: int|
                0 <= x < self.n() && 0 <= k < self.dep_count(x) && self.st(
                    #[trigger] self.plan.dep_seq(x)[k] as int,
                ).spec_is_non_success_terminal() implies self.st(x) == StepStatus::Skipped || (
            self.cancelled && self.st(x) == StepStatus::Cancelled) by {
                let d = self.plan.dep_seq(x)[k] as int;
                if old(self).spec_ready(d) {
                    assert(self.results@[d].status == StepStatus::Running);
                } else {
                    assert(self.results@[d] == old(self).results@[d]);
                    assert(old(self).st(d).spec_is_non_success_terminal());
                    assert(!old(self).spec_ready(x));
                    assert(self.results@[x] == old(self).results@[x]);
                }
            }
            assert forall|x: int|
                0 <= x < self.n() && (#[trigger] self.results@[x]).status
                    == StepStatus::Skipped implies self.has_bad_dep(x) by {
                assert(self.results@[x] == old(self).results@[x]);
                assert(old(self).has_bad_dep(x));
                let k = choose|k: int|
                    0 <= k < old(self).dep_count(x) && old(self).st(
                        #[trigger] old(self).plan.dep_seq(x)[k] as int,
                    ).spec_is_non_success_terminal();
                let d = self.plan.dep_seq(x)[k] as int;
                assert(!old(self).spec_ready(d));
                assert(self.results@[d] == old(self).results@[d]);
                assert(self.st(d).spec_is_non_success_terminal());
            }
            assert forall|x: int|
                0 <= x < self.n() implies step_advances(
                old(self).st(x),
                (#[trigger] self.results@[x]).status,
            ) by {
                if !old(self).spec_ready(x) {
                    assert(self.results@[x] == old(self).results@[x]);
                }
            }
        }
        launched
    }

    /// A fresh execution: every step pending, nothing recorded yet.
    pub fn new(plan: Plan) -> (r: Execution)
        requires
            plan.wf(),
        ensures
            r.wf(),
            r.plan == plan,
            !r.cancelled,
            r.clock == 0,
            r.results@.len() == plan.n(),
            forall|i: int| 0 <= i < r.n() ==> #[trigger] r.st(i) == StepStatus::Pending,
    {
        let n = plan.ids.len();
        let mut results: Vec<StepResult> = Vec::new();
        let mut i: usize = 0;
        while i < n
            invariant
                i <= n,
                n == plan.ids@.len(),
                results@.len() == i,
                forall|j: int|
                    0 <= j < i ==> #[trigger] results@[j].step_id@ == plan.ids@[j]@,
                forall|j: int| 0 <= j < i ==> #[trigger] results@[j].status == StepStatus::Pending,
                forall|j: int|
                    0 <= j < i ==> #[trigger] results@[j].started_at is None
                        && results@[j].completed_at is None,
            decreases n - i,
        {
            results.push(
                StepResult {
                    step_id: plan.ids[i].clone(),
                    status: StepStatus::Pending,
                    output: String::new(),
                    error: String::new(),
                    exit_code: None,
                    started_at: None,
                    completed_at: None,
                },
            );
            i = i + 1;
        }
        let e = Execution { plan, results, cancelled: false, clock: 0 };
        proof {
            assert(e.plan.wf());
            assert(e.results@.len() == e.n());
            assert(forall|j: int|
                0 <= j < e.n() ==> (#[trigger] e.results@[j]).step_id@ == e.plan.ids@[j]@);
            assert(forall|j: int|
                0 <= j < e.n() ==> (#[trigger] e.results@[j]).status != StepStatus::Unspecified);
            assert(forall|j: int|
                0 <= j < e.n() && launched_status((#[trigger] e.results@[j]).status)
                    ==> e.deps_successful(j));
            assert(forall|j: int, k: int|
                0 <= j < e.n() && 0 <= k < e.dep_count(j) && e.st(
                    #[trigger] e.plan.dep_seq(j)[k] as int,
                ).spec_is_non_success_terminal() ==> e.st(j) == StepStatus::Skipped || (e.cancelled
                    && e.st(j) == StepStatus::Cancelled));
            assert(forall|j: int|
                0 <= j < e.n() && (#[trigger] e.results@[j]).status == StepStatus::Skipped
                    ==> e.has_bad_dep(j));
            assert(forall|j: int|
                0 <= j < e.n() ==> ((#[trigger] e.results@[j]).started_at matches Some(s) ==> s
                    <= e.clock));
            assert(forall|j: int|
                0 <= j < e.n() ==> ((#[trigger] e.results@[j]).completed_at matches Some(c) ==> c
                    <= e.clock));
            assert(forall|j: int|
                0 <= j < e.n() && ((#[trigger] e.results@[j]).status == StepStatus::Running
                    || e.results@[j].status == StepStatus::Success) ==> e.started_after_deps(j));
            assert(forall|j: int|
                0 <= j < e.n() && (#[trigger] e.results@[j]).status == StepStatus::Pending
                    ==> e.results@[j].started_at is None && e.results@[j].completed_at is None);
            assert(forall|j: int|
                0 <= j < e.n() && ((#[trigger] e.results@[j]).status).spec_is_terminal()
                    ==> e.results@[j].completed_at is Some);
        }
        e
    }

    /// Records the outcome the runner delivered for step `i`, which must
    /// be running. The step's result takes the given terminal status with
    /// its completion time; if the outcome is not `Success`, every pending
    /// step that sits, directly or through other steps, above a dependency
    /// that ended without success is marked `Skipped` at once. A `Cancelled`
    /// outcome can only arrive after cancellation was requested, since
    /// runners cancel only when asked to.
    #[verifier::rlimit(100)]
    pub fn record_completion(
        &mut self,
        i: usize,
        status: StepStatus,
        output: String,
        error: String,
        exit_code: Option<i32>,
        now: u64,
    )
        requires
            old(self).wf(),
            i < old(self).n(),
            old(self).st(i as int) == StepStatus::Running,
            status == StepStatus::Success || status == StepStatus::Failed || status
                == StepStatus::Cancelled || status == StepStatus::TimedOut,
            status == StepStatus::Cancelled ==> old(self).cancelled,
        ensures
            final(self).wf(),
            final(self).plan == old(self).plan,
            final(self).cancelled == old(self).cancelled,
            final(self).clock == max64(now, old(self).clock),
            final(self).results@.len() == old(self).results@.len(),
            final(self).results@[i as int].status == status,
            final(self).results@[i as int].step_id@ == old(self).results@[i as int].step_id@,
            final(self).results@[i as int].output == output,
            final(self).results@[i as int].error == error,
            final(self).results@[i as int].exit_code == exit_code,
            final(self).results@[i as int].started_at == old(self).results@[i as int].started_at,
            final(self).results@[i as int].completed_at == Some(final(self).clock),
            forall|x: int|
                0 <= x < old(self).n() && x != i ==> (#[trigger] final(self).results@[x]) == old(
                    self,
                ).results@[x] || (old(self).st(x) == StepStatus::Pending
                    && Execution::is_skip_of(
                    final(self).results@[x],
                    old(self).results@[x],
                    final(self).clock,
                )),
            status == StepStatus::Success ==> forall|x: int|
                0 <= x < old(self).n() && x != i ==> (#[trigger] final(self).results@[x]) == old(
                    self,
                ).results@[x],
            forall|x: int|
                0 <= x < old(self).n() ==> step_advances(
                    old(self).st(x),
                    (#[trigger] final(self).results@[x]).status,
                ),
            final(self).spec_measure() < old(self).spec_measure(),
    {
        let t = if now > self.clock {
            now
        } else {
            self.clock
        };
        self.clock = t;
        let n = self.results.len();
        let finished = StepResult {
            step_id: self.results[i].step_id.clone(),
            status,
            output,
            error,
            exit_code,
            started_at: self.results[i].started_at,
            completed_at: Some(t),
        };
        proof {
            lemma_count_status_update(self.results@, i as int, finished, StepStatus::Pending);
            lemma_count_status_update(self.results@, i as int, finished, StepStatus::Running);
        }
        self.results.set(i, finished);
        let ghost mid = *self;
        let success = match status {
            StepStatus::Success => true,
            _ => false,
        };
        if !success {
            proof {
                lemma_count_status_bounds(self.results@, StepStatus::Pending);
                lemma_count_status_bounds(self.results@, StepStatus::Running);
            }
            let mut changed = true;
            #[verifier::loop_isolation(false)]
            while changed
                invariant
                    self.plan == mid.plan,
                    self.cancelled == mid.cancelled,
                    self.clock == mid.clock,
                    self.results@.len() == n,
                    forall|x: int|
                        0 <= x < n ==> (#[trigger] self.results@[x]) == mid.results@[x] || (
                        mid.results@[x].status == StepStatus::Pending && Execution::is_skip_of(
                            self.results@[x],
                            mid.results@[x],
                            t,
                        )),
                    forall|x: int|
                        0 <= x < n && (#[trigger] self.results@[x]).status == StepStatus::Skipped
                            && mid.results@[x].status == StepStatus::Pending
                            ==> self.has_bad_dep(x),
                    self.spec_measure() <= mid.spec_measure(),
                    !changed ==> forall|x: int|
                        0 <= x < n && (#[trigger] self.results@[x]).status == StepStatus::Pending
                            ==> !self.has_bad_dep(x),
                decreases self.spec_measure() + (if changed {
                    1int
                } else {
                    0int
                }),
            {
                changed = false;
                let ghost pass0 = self.results@;
                #[verifier::loop_isolation(false)]
                for j in 0..n
                    invariant
                        self.plan == mid.plan,
                        self.cancelled == mid.cancelled,
                        self.clock == mid.clock,
                        self.results@.len() == n,
                        forall|x: int|
                            0 <= x < n ==> (#[trigger] self.results@[x]) == mid.results@[x] || (
                            mid.results@[x].status == StepStatus::Pending
                                && Execution::is_skip_of(
                                self.results@[x],
                                mid.results@[x],
                                t,
                            )),
                        forall|x: int|
                            0 <= x < n && (#[trigger] self.results@[x]).status
                                == StepStatus::Skipped && mid.results@[x].status
                                == StepStatus::Pending ==> self.has_bad_dep(x),
                        self.spec_measure() <= mid.spec_measure(),
                        changed ==> self.spec_measure() < count_measure_of(pass0),
                        !changed ==> self.results@ == pass0,
                        !changed ==> forall|x: int|
                            0 <= x < j && (#[trigger] self.results@[x]).status
                                == StepStatus::Pending ==> !self.has_bad_dep(x),
                {
                    let is_pending = match self.results[j].status {
                        StepStatus::Pending => true,
                        _ => false,
                    };
                    if is_pending {
                        let m = self.plan.deps[j].len();
                        let mut bad = false;
                        #[verifier::loop_isolation(false)]
                        for k in 0..m
                            invariant
                                m == self.plan.dep_seq(j as int).len(),
                                bad ==> self.has_bad_dep(j as int),
                                !bad ==> forall|q: int|
                                    0 <= q < k ==> !self.st(
                                        #[trigger] self.plan.dep_seq(j as int)[q] as int,
                                    ).spec_is_non_success_terminal(),
                        {
                            let d = self.plan.deps[j][k];
                            let nst = self.results[d].status.is_terminal() && !(match self
                                .results[d].status {
                                StepStatus::Success => true,
                                _ => false,
                            });
                            if nst {
                                bad = true;
                                proof {
                                    assert(self.st(
                                        self.plan.dep_seq(j as int)[k as int] as int,
                                    ).spec_is_non_success_terminal());
                                }
                            }
                        }
                        if bad {
                            let sk = StepResult {
                                step_id: self.results[j].step_id.clone(),
                                status: StepStatus::Skipped,
                                output: String::new(),
                                error: String::new(),
                                exit_code: None,
                                started_at: Some(t),
                                completed_at: Some(t),
                            };
                            proof {
                                lemma_count_status_update(
                                    self.results@,
                                    j as int,
                                    sk,
                                    StepStatus::Pending,
                                );
                                lemma_count_status_update(
                                    self.results@,
                                    j as int,
                                    sk,
                                    StepStatus::Running,
                                );
                                lemma_count_status_bounds(self.results@, StepStatus::Running);
                                lemma_count_status_bounds(
                                    self.results@.update(j as int, sk),
                                    StepStatus::Running,
                                );
                            }
                            let ghost before = *self;
                            self.results.set(j, sk);
                            changed = true;
                            proof {
                                // a step marked earlier keeps a failed
                                // dependency: only pending steps change, and
                                // they become skipped, which is itself a
                                // non-success terminal status
                                assert forall|x: int|
                                    0 <= x < n && (#[trigger] self.results@[x]).status
                                        == StepStatus::Skipped && mid.results@[x].status
                                        == StepStatus::Pending implies self.has_bad_dep(x) by {
                                    if x != j {
                                        assert(before.results@[x] == self.results@[x]);
                                        assert(before.has_bad_dep(x));
                                        let k = choose|k: int|
                                            0 <= k < before.dep_count(x) && before.st(
                                                #[trigger] before.plan.dep_seq(x)[k] as int,
                                            ).spec_is_non_success_terminal();
                                        let d = self.plan.dep_seq(x)[k] as int;
                                        assert(self.st(d).spec_is_non_success_terminal());
                                    } else {
                                        assert(before.has_bad_dep(j as int));
                                        let k = choose|k: int|
                                            0 <= k < before.dep_count(j as int) && before.st(
                                                #[trigger] before.plan.dep_seq(j as int)[k] as int,
                                            ).spec_is_non_success_terminal();
                                        let d = self.plan.dep_seq(j as int)[k] as int;
                                        assert(self.st(d).spec_is_non_success_terminal());
                                    }
                                }
                            }
                        }
                    }
                }
                proof {
                    lemma_count_status_bounds(self.results@, StepStatus::Pending);
                    lemma_count_status_bounds(self.results@, StepStatus::Running);
                }
            }
        }
        proof {
            let fin = *self;
            // steps that had already succeeded are untouched: the completed
            // step was running, and only pending steps were skipped
            assert forall|d: int|
                0 <= d < n && old(self).results@[d].status == StepStatus::Success implies (
            #[trigger] fin.results@[d]) == old(self).results@[d] by {
                assert(d != i);
                assert(mid.results@[d] == old(self).results@[d]);
            }
            // deps of launched steps stayed successful
            assert forall|x: int|
                0 <= x < n && launched_status(
                    (#[trigger] fin.results@[x]).status,
                ) implies fin.deps_successful(x) by {
                assert(launched_status(old(self).st(x)));
                assert(old(self).deps_successful(x));
                assert forall|k: int|
                    0 <= k < fin.dep_count(x) implies fin.st(
                    #[trigger] fin.plan.dep_seq(x)[k] as int,
                ) == StepStatus::Success by {
                    let d = fin.plan.dep_seq(x)[k] as int;
                    assert(old(self).st(d) == StepStatus::Success);
                }
            }
            // failure propagation is complete again
            assert forall|x: int, k: int|
                0 <= x < n && 0 <= k < fin.dep_count(x) && fin.st(
                    #[trigger] fin.plan.dep_seq(x)[k] as int,
                ).spec_is_non_success_terminal() implies fin.st(x) == StepStatus::Skipped || (
            fin.cancelled && fin.st(x) == StepStatus::Cancelled) by {
                let d = fin.plan.dep_seq(x)[k] as int;
                if fin.st(x) == StepStatus::Pending {
                    assert(fin.has_bad_dep(x));
                } else if launched_status(fin.st(x)) {
                    assert(fin.st(d) == StepStatus::Success);
                } else if fin.st(x) == StepStatus::Cancelled {
                    assert(old(self).st(x) == StepStatus::Cancelled);
                    assert(fin.cancelled);
                }
            }
            // skip soundness
            assert forall|x: int|
                0 <= x < n && (#[trigger] fin.results@[x]).status
                    == StepStatus::Skipped implies fin.has_bad_dep(x) by {
                if old(self).st(x) == StepStatus::Skipped {
                    assert(old(self).has_bad_dep(x));
                    let k = choose|k: int|
                        0 <= k < old(self).dep_count(x) && old(self).st(
                            #[trigger] old(self).plan.dep_seq(x)[k] as int,
                        ).spec_is_non_success_terminal();
                    let d = fin.plan.dep_seq(x)[k] as int;
                    assert(fin.st(d).spec_is_non_success_terminal());
                }
            }
            // timing: running and successful steps still start after their
            // dependencies complete
            assert forall|x: int|
                0 <= x < n && ((#[trigger] fin.results@[x]).status == StepStatus::Running
                    || fin.results@[x].status == StepStatus::Success) implies fin.started_after_deps(
                x,
            ) by {
                assert(old(self).started_after_deps(x));
                assert forall|k: int|
                    0 <= k < fin.dep_count(x) implies (fin.results@[#[trigger] fin.plan.dep_seq(x)[k] as int].completed_at matches Some(
                    c,
                ) && c <= fin.results@[x].started_at.unwrap()) by {
                    let d = fin.plan.dep_seq(x)[k] as int;
                    assert(old(self).st(d) == StepStatus::Success);
                    assert(fin.results@[d] == old(self).results@[d]);
                }
            }
            assert(fin.wf());
        }
    }

    /// Raises the cancellation flag. Nothing else changes; the scheduler
    /// stops launching and waits for in-flight steps.
    pub fn request_cancel(&mut self)
        requires
            old(self).wf(),
        ensures
            final(self).wf(),
            final(self).cancelled,
            final(self).plan == old(self).plan,
            final(self).clock == old(self).clock,
            final(self).results == old(self).results,
    {
        self.cancelled = true;
    }

    /// Once cancellation was requested and the last in-flight runner has
    /// returned, marks every step that never launched as `Cancelled`.
    /// After this, every step is terminal and the build can close.
    pub fn finalize_cancelled(&mut self, now: u64)
        requires
            old(self).wf(),
            old(self).cancelled,
            forall|x: int| 0 <= x < old(self).n() ==> old(self).st(x) != StepStatus::Running,
        ensures
            final(self).wf(),
            final(self).plan == old(self).plan,
            final(self).cancelled == old(self).cancelled,
            final(self).clock == max64(now, old(self).clock),
            final(self).results@.len() == old(self).results@.len(),
            forall|x: int|
                0 <= x < old(self).n() && old(self).st(x) != StepStatus::Pending ==> (
                #[trigger] final(self).results@[x]) == old(self).results@[x],
            forall|x: int|
                0 <= x < old(self).n() && old(self).st(x) == StepStatus::Pending
                    ==> Execution::is_cancel_of(
                    #[trigger] final(self).results@[x],
                    old(self).results@[x],
                    final(self).clock,
                ),
            forall|x: int|
                0 <= x < old(self).n() ==> ((#[trigger] final(self).results@[x]).status).spec_is_terminal(),
            forall|x: int|
                0 <= x < old(self).n() ==> step_advances(
                    old(self).st(x),
                    (#[trigger] final(self).results@[x]).status,
                ),
            final(self).spec_measure() == 0,
    {
        let t = if now > self.clock {
            now
        } else {
            self.clock
        };
        self.clock = t;
        let n = self.results.len();
        #[verifier::loop_isolation(false)]
        for j in 0..n
            invariant
                self.plan == old(self).plan,
                self.cancelled == old(self).cancelled,
                self.clock == t,
                self.results@.len() == n,
                forall|x: int|
                    0 <= x < n && !(x < j && old(self).st(x) == StepStatus::Pending) ==> (
                    #[trigger] self.results@[x]) == old(self).results@[x],
                forall|x: int|
                    0 <= x < j && old(self).st(x) == StepStatus::Pending
                        ==> Execution::is_cancel_of(
                        #[trigger] self.results@[x],
                        old(self).results@[x],
                        t,
                    ),
        {
            let is_pending = match self.results[j].status {
                StepStatus::Pending => true,
                _ => false,
            };
            if is_pending {
                let ca = StepResult {
                    step_id: self.results[j].step_id.clone(),
                    status: StepStatus::Cancelled,
                    output: String::new(),
                    error: String::new(),
                    exit_code: None,
                    started_at: None,
                    completed_at: Some(t),
                };
                self.results.set(j, ca);
            } else {
                proof {
                    assert(self.results@[j as int] == old(self).results@[j as int]);
                }
            }
        }
        proof {
            let fin = *self;
            assert forall|d: int|
                0 <= d < n && old(self).results@[d].status == StepStatus::Success implies (
            #[trigger] fin.results@[d]) == old(self).results@[d] by {}
            assert forall|x: int|
                0 <= x < n && launched_status(
                    (#[trigger] fin.results@[x]).status,
                ) implies fin.deps_successful(x) by {
                assert(fin.results@[x] == old(self).results@[x]);
                assert(old(self).deps_successful(x));
                assert forall|k: int|
                    0 <= k < fin.dep_count(x) implies fin.st(
                    #[trigger] fin.plan.dep_seq(x)[k] as int,
                ) == StepStatus::Success by {
                    let d = fin.plan.dep_seq(x)[k] as int;
                    assert(old(self).st(d) == StepStatus::Success);
                }
            }
            assert forall|x: int, k: int|
                0 <= x < n && 0 <= k < fin.dep_count(x) && fin.st(
                    #[trigger] fin.plan.dep_seq(x)[k] as int,
                ).spec_is_non_success_terminal() implies fin.st(x) == StepStatus::Skipped || (
            fin.cancelled && fin.st(x) == StepStatus::Cancelled) by {
                if launched_status(fin.st(x)) {
                    let d = fin.plan.dep_seq(x)[k] as int;
                    assert(fin.st(d) == StepStatus::Success);
                }
            }
            assert forall|x: int|
                0 <= x < n && (#[trigger] fin.results@[x]).status
                    == StepStatus::Skipped implies fin.has_bad_dep(x) by {
                assert(old(self).has_bad_dep(x));
                let k = choose|k: int|
                    0 <= k < old(self).dep_count(x) && old(self).st(
                        #[trigger] old(self).plan.dep_seq(x)[k] as int,
                    ).spec_is_non_success_terminal();
                let d = fin.plan.dep_seq(x)[k] as int;
                assert(fin.st(d).spec_is_non_success_terminal());
            }
            assert forall|x: int|
                0 <= x < n && ((#[trigger] fin.results@[x]).status == StepStatus::Running
                    || fin.results@[x].status == StepStatus::Success) implies fin.started_after_deps(
                x,
            ) by {
                assert(old(self).started_after_deps(x));
                assert forall|k: int|
                    0 <= k < fin.dep_count(x) implies (fin.results@[#[trigger] fin.plan.dep_seq(x)[k] as int].completed_at matches Some(
                    c,
                ) && c <= fin.results@[x].started_at.unwrap()) by {
                    let d = fin.plan.dep_seq(x)[k] as int;
                    assert(old(self).st(d) == StepStatus::Success);
                    assert(fin.results@[d] == old(self).results@[d]);
                }
            }
            assert(fin.wf());
            assert forall|x: int|
                0 <= x < n implies (#[trigger] fin.results@[x]).status
                != StepStatus::Pending && fin.results@[x].status != StepStatus::Running by {}
            lemma_count_status_zero(fin.results@, StepStatus::Pending);
            lemma_count_status_zero(fin.results@, StepStatus::Running);
        }
    }

    /// The build status the scheduler reports once every step is terminal:
    /// success exactly when every step succeeded; otherwise cancelled when
    /// cancellation was requested and some step ended cancelled; otherwise
    /// failed.
    pub open spec fn spec_build_status(self) -> crate::status::BuildStatus {
        if forall|j: int|
            0 <= j < self.n() ==> (#[trigger] self.results@[j]).status == StepStatus::Success {
            crate::status::BuildStatus::Success
        } else if self.cancelled && exists|j: int|
            0 <= j < self.n() && (#[trigger] self.results@[j]).status == StepStatus::Cancelled {
            crate::status::BuildStatus::Cancelled
        } else {
            crate::status::BuildStatus::Failed
        }
    }

    /// Computes the build's terminal status from the step results.
    pub fn build_status(&self) -> (r: crate::status::BuildStatus)
        requires
            self.wf(),
            forall|j: int| 0 <= j < self.n() ==> ((#[trigger] self.results@[j]).status).spec_is_terminal(),
        ensures
            r == self.spec_build_status(),
            r == crate::status::BuildStatus::Success <==> forall|j: int|
                0 <= j < self.n() ==> (#[trigger] self.results@[j]).status == StepStatus::Success,
            ((exists|j: int|
                0 <= j < self.n() && ((#[trigger] self.results@[j]).status == StepStatus::Failed
                    || self.results@[j].status == StepStatus::TimedOut)) && !(exists|j: int|
                0 <= j < self.n() && (#[trigger] self.results@[j]).status
                    == StepStatus::Cancelled)) ==> r == crate::status::BuildStatus::Failed,
            (self.cancelled && (exists|j: int|
                0 <= j < self.n() && (#[trigger] self.results@[j]).status
                    == StepStatus::Cancelled)) ==> r == crate::status::BuildStatus::Cancelled,
    {
        let n = self.results.len();
        let mut all_success = true;
        let mut any_cancelled = false;
        let mut i: usize = 0;
        while i < n
            invariant
                i <= n,
                n == self.results@.len(),
                all_success <==> forall|j: int|
                    0 <= j < i ==> (#[trigger] self.results@[j]).status == StepStatus::Success,
                any_cancelled <==> exists|j: int|
                    0 <= j < i && (#[trigger] self.results@[j]).status == StepStatus::Cancelled,
            decreases n - i,
        {
            match self.results[i].status {
                StepStatus::Success => {},
                StepStatus::Cancelled => {
                    all_success = false;
                    any_cancelled = true;
                    proof {
                        assert(self.results@[i as int].status == StepStatus::Cancelled);
                    }
                },
                _ => {
                    all_success = false;
                    proof {
                        assert(self.results@[i as int].status != StepStatus::Success);
                    }
                },
            }
            i = i + 1;
        }
        proof {
            if any_cancelled {
                let j = choose|j: int|
                    0 <= j < self.n() && (#[trigger] self.results@[j]).status
                        == StepStatus::Cancelled;
                assert(self.results@[j].status != StepStatus::Success);
            }
        }
        if all_success {
            crate::status::BuildStatus::Success
        } else if self.cancelled && any_cancelled {
            crate::status::BuildStatus::Cancelled
        } else {
            crate::status::BuildStatus::Failed
        }
    }

    /// Whether every step has reached a terminal status, that is, whether
    /// the build is over and has a result for every step.
    pub fn is_done(&self) -> (r: bool)
        requires
            self.wf(),
        ensures
            r <==> forall|i: int| 0 <= i < self.n() ==> (#[trigger] self.st(i)).spec_is_terminal(),
    {
        let n = self.results.len();
        let mut i: usize = 0;
        let mut done = true;
        while i < n
            invariant
                i <= n,
                n == self.results@.len(),
                done <==> forall|j: int| 0 <= j < i ==> (#[trigger] self.st(j)).spec_is_terminal(),
            decreases n - i,
        {
            let term = self.results[i].status.is_terminal();
            if !term {
                done = false;
            }
            proof {
                assert(self.st(i as int).spec_is_terminal() == term);
            }
            i = i + 1;
        }
        done
    }

    /// Whether any step is currently running.
    pub fn any_running(&self) -> (r: bool)
        requires
            self.wf(),
        ensures
            r <==> exists|i: int| 0 <= i < self.n() && #[trigger] self.st(i) == StepStatus::Running,
    {
        let n = self.results.len();
        let mut i: usize = 0;
        let mut running = false;
        while i < n
            invariant
                i <= n,
                n == self.results@.len(),
                running <==> exists|j: int| 0 <= j < i && #[trigger] self.st(j)
                    == StepStatus::Running,
            decreases n - i,
        {
            match self.results[i].status {
                StepStatus::Running => {
                    running = true;
                    proof {
                        assert(self.st(i as int) == StepStatus::Running);
                    }
                },
                _ => {},
            }
            i = i + 1;
        }
        running
    }

    /// The recorded results, one per step, in plan order.
    pub fn results(&self) -> (r: &Vec<StepResult>)
        ensures
            r == self.results,
    {
        &self.results
    }

    /// The number of steps in the plan.
    pub fn step_count(&self) -> (r: usize)
        requires
            self.wf(),
        ensures
            r == self.n(),
    {
        self.results.len()
    }
}


/// Dependency order: a successful step's dependencies all succeeded, and
/// it started no earlier than each of them completed.
pub proof fn lemma_dependency_order(e: Execution, i: int, k: int)
    requires
        e.wf(),
        0 <= i < e.n(),
        e.st(i) == StepStatus::Success,
        0 <= k < e.dep_count(i),
    ensures
        e.st(e.plan.dep_seq(i)[k] as int) == StepStatus::Success,
        e.results@[e.plan.dep_seq(i)[k] as int].completed_at is Some,
        e.results@[i].started_at is Some,
        e.results@[e.plan.dep_seq(i)[k] as int].completed_at.unwrap()
            <= e.results@[i].started_at.unwrap(),
{
    assert(launched_status(e.st(i)));
    assert(e.deps_successful(i));
    assert(e.started_after_deps(i));
}

/// Skip propagation along one edge: when a dependency ended without
/// success and no cancellation was requested, the dependent is skipped.
pub proof fn lemma_skip_edge(e: Execution, i: int, k: int)
    requires
        e.wf(),
        !e.cancelled,
        0 <= i < e.n(),
        0 <= k < e.dep_count(i),
        e.st(e.plan.dep_seq(i)[k] as int).spec_is_non_success_terminal(),
    ensures
        e.st(i) == StepStatus::Skipped,
{
}

/// Skip propagation along any dependency path: when the step at the far
/// end of the path ended without success and no cancellation was
/// requested, every step on the path above it is skipped.
pub proof fn lemma_skip_propagation(e: Execution, path: Seq<int>)
    requires
        e.wf(),
        !e.cancelled,
        path.len() >= 2,
        forall|q: int| 0 <= q < path.len() ==> 0 <= #[trigger] path[q] < e.n(),
        forall|q: int| 0 <= q < path.len() - 1 ==> e.plan.edge(#[trigger] path[q], path[q + 1]),
        e.st(path[path.len() - 1]).spec_is_non_success_terminal(),
    ensures
        forall|q: int| 0 <= q < path.len() - 1 ==> e.st(#[trigger] path[q]) == StepStatus::Skipped,
    decreases path.len(),
{
    let m = path.len() - 1;
    assert(e.plan.edge(path[m - 1], path[m]));
    let k = choose|k: int|
        0 <= k < e.plan.dep_seq(path[m - 1]).len() && #[trigger] e.plan.dep_seq(path[m - 1])[k]
            == path[m];
    lemma_skip_edge(e, path[m - 1], k);
    if path.len() > 2 {
        let prefix = path.drop_last();
        assert forall|q: int| 0 <= q < prefix.len() - 1 implies e.plan.edge(
            #[trigger] prefix[q],
            prefix[q + 1],
        ) by {
            assert(e.plan.edge(path[q], path[q + 1]));
        }
        assert(prefix[prefix.len() - 1] == path[m - 1]);
        lemma_skip_propagation(e, prefix);
        assert forall|q: int| 0 <= q < path.len() - 1 implies e.st(#[trigger] path[q])
            == StepStatus::Skipped by {
            if q < m - 1 {
                assert(e.st(prefix[q]) == StepStatus::Skipped);
            }
        }
    }
}

/// Skip soundness: chains of skipped steps bottom out at a step that
/// genuinely ended without success — failed, timed out or cancelled — so
/// no step is ever skipped without such an origin below it.
pub proof fn lemma_skipped_has_failed_origin(e: Execution, i: int)
    requires
        e.wf(),
        0 <= i < e.n(),
        e.st(i) == StepStatus::Skipped,
    ensures
        exists|d: int|
            0 <= d < e.n() && (#[trigger] e.st(d)).spec_is_non_success_terminal() && e.st(d)
                != StepStatus::Skipped,
    decreases e.plan.rank@[i],
{
    assert(e.has_bad_dep(i));
    let k = choose|k: int|
        0 <= k < e.dep_count(i) && e.st(
            #[trigger] e.plan.dep_seq(i)[k] as int,
        ).spec_is_non_success_terminal();
    let d = e.plan.dep_seq(i)[k] as int;
    if e.st(d) == StepStatus::Skipped {
        assert(e.plan.rank@[d] < e.plan.rank@[i]);
        lemma_skipped_has_failed_origin(e, d);
    } else {
        assert(e.st(d).spec_is_non_success_terminal() && e.st(d) != StepStatus::Skipped);
    }
}

/// Progress: while no step runs, cancellation was not requested and some
/// step is still pending, a ready step exists, so the scheduler never
/// stalls and every validated build runs to a result for every step.
pub proof fn lemma_pending_has_ready(e: Execution, j: int)
    requires
        e.wf(),
        !e.cancelled,
        forall|x: int| 0 <= x < e.n() ==> #[trigger] e.st(x) != StepStatus::Running,
        0 <= j < e.n(),
        e.st(j) == StepStatus::Pending,
    ensures
        exists|x: int| e.spec_ready(x),
    decreases e.plan.rank@[j],
{
    if e.spec_ready(j) {
    } else {
        assert(!e.deps_successful(j));
        let k = choose|k: int|
            0 <= k < e.dep_count(j) && e.st(#[trigger] e.plan.dep_seq(j)[k] as int)
                != StepStatus::Success;
        let d = e.plan.dep_seq(j)[k] as int;
        if e.st(d).spec_is_non_success_terminal() {
            lemma_skip_edge(e, j, k);
        }
        assert(e.st(d) == StepStatus::Pending);
        assert(e.plan.rank@[d] < e.plan.rank@[j]);
        lemma_pending_has_ready(e, d);
    }
}

} // verus!
