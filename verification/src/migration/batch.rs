//! The transaction protocol of a migration run or rollback: each step runs
//! in its own transaction, `BEGIN`, the step's script, the bookkeeping
//! statement, `COMMIT`; a failing script is rolled back and ends the batch.
//!
//! [`BatchRunner`] makes the decisions; the caller performs each action it
//! returns and reports whether the action succeeded.

use vstd::prelude::*;

verus! {

/// What the runner waits for.
#[derive(Debug, Clone, Copy, PartialEq, Eq, Structural)]
pub enum Phase {
    /// Nothing has been asked yet.
    Start,
    /// The outcome of `BEGIN`.
    AwaitBegin,
    /// The outcome of the current step's script.
    AwaitPerform,
    /// The outcome of the bookkeeping statement of the current step.
    AwaitRecord,
    /// The outcome of `COMMIT`.
    AwaitCommit,
    /// The outcome of `ROLLBACK` after a failed script.
    AwaitRollback,
    /// Every step was committed.
    Finished,
    /// The batch stopped at a failure.
    Aborted,
}

/// What the caller does next.
#[derive(Debug, Clone, Copy, PartialEq, Eq, Structural)]
pub enum BatchAction {
    /// Open a transaction.
    Begin,
    /// Run the script of step `i`.
    Perform(usize),
    /// Record (or erase) step `i` in the bookkeeping table.
    Record(usize),
    /// Commit the transaction.
    Commit,
    /// Roll the transaction back.
    Rollback,
    /// Stop: this many steps were committed.
    Finish(usize),
    /// Stop and report the failure.
    Abort,
}

/// The state of a batch of `total` steps, `done` of them committed.
pub ghost struct BatchState {
    pub total: usize,
    pub done: usize,
    pub phase: Phase,
}

/// The runner's invariant: `done` never passes `total`, a step is under way
/// only while some remain, and a finished batch committed every step.
pub open spec fn batch_wf(r: BatchState) -> bool {
    &&& r.done <= r.total
    &&& (r.phase == Phase::AwaitBegin || r.phase == Phase::AwaitPerform || r.phase
        == Phase::AwaitRecord || r.phase == Phase::AwaitCommit || r.phase == Phase::AwaitRollback)
        ==> r.done < r.total
    &&& r.phase == Phase::Finished ==> r.done == r.total
    &&& r.phase == Phase::Start ==> r.done == 0
}

/// The next state and action, given whether the last action succeeded.
pub open spec fn batch_next(r: BatchState, ok: bool) -> (BatchState, BatchAction) {
    match r.phase {
        Phase::Start => if r.total == 0 {
            (BatchState { phase: Phase::Finished, ..r }, BatchAction::Finish(0))
        } else {
            (BatchState { phase: Phase::AwaitBegin, ..r }, BatchAction::Begin)
        },
        Phase::AwaitBegin => if ok {
            (BatchState { phase: Phase::AwaitPerform, ..r }, BatchAction::Perform(r.done))
        } else {
            (BatchState { phase: Phase::Aborted, ..r }, BatchAction::Abort)
        },
        Phase::AwaitPerform => if ok {
            (BatchState { phase: Phase::AwaitRecord, ..r }, BatchAction::Record(r.done))
        } else {
            (BatchState { phase: Phase::AwaitRollback, ..r }, BatchAction::Rollback)
        },
        Phase::AwaitRollback => (BatchState { phase: Phase::Aborted, ..r }, BatchAction::Abort),
        Phase::AwaitRecord => if ok {
            (BatchState { phase: Phase::AwaitCommit, ..r }, BatchAction::Commit)
        } else {
            (BatchState { phase: Phase::Aborted, ..r }, BatchAction::Abort)
        },
        Phase::AwaitCommit => if !ok {
            (BatchState { phase: Phase::Aborted, ..r }, BatchAction::Abort)
        } else if r.done + 1 == r.total {
            (
                BatchState { phase: Phase::Finished, done: r.total, total: r.total },
                BatchAction::Finish(r.total),
            )
        } else {
            (
                BatchState { phase: Phase::AwaitBegin, done: (r.done + 1) as usize, total: r.total },
                BatchAction::Begin,
            )
        },
        Phase::Finished => (r, BatchAction::Finish(r.done)),
        Phase::Aborted => (r, BatchAction::Abort),
    }
}

/// The runner; its state always satisfies [`batch_wf`].
#[derive(Debug, Clone, Copy)]
pub struct BatchRunner {
    total: usize,
    done: usize,
    phase: Phase,
}

impl View for BatchRunner {
    type V = BatchState;

    closed spec fn view(&self) -> BatchState {
        BatchState { total: self.total, done: self.done, phase: self.phase }
    }
}

impl BatchRunner {
    #[verifier::type_invariant]
    closed spec fn state_is_valid(self) -> bool {
        batch_wf(self@)
    }

    /// A runner for `total` steps, none started.
    pub fn new(total: usize) -> (r: BatchRunner)
        ensures
            r@ == (BatchState { total, done: 0, phase: Phase::Start }),
    {
        BatchRunner { total, done: 0, phase: Phase::Start }
    }

    /// The number of steps.
    pub fn total(&self) -> (n: usize)
        ensures
            n == self@.total,
    {
        self.total
    }

    /// The number of steps done.
    pub fn done(&self) -> (n: usize)
        ensures
            n == self@.done,
    {
        self.done
    }

    /// What the runner waits for.
    pub fn phase(&self) -> (p: Phase)
        ensures
            p == self@.phase,
    {
        self.phase
    }

    /// Takes the outcome of the last action (ignored for the first call)
    /// and returns the next action.
    pub fn step(&mut self, ok: bool) -> (a: BatchAction)
        ensures
            (final(self)@, a) == batch_next(old(self)@, ok),
            batch_wf(final(self)@),
    {
        proof {
            use_type_invariant(&*self);
        }
        let total = self.total;
        let done = self.done;
        let (phase, done, a) = match self.phase {
            Phase::Start => if total == 0 {
                (Phase::Finished, done, BatchAction::Finish(0))
            } else {
                (Phase::AwaitBegin, done, BatchAction::Begin)
            },
            Phase::AwaitBegin => if ok {
                (Phase::AwaitPerform, done, BatchAction::Perform(done))
            } else {
                (Phase::Aborted, done, BatchAction::Abort)
            },
            Phase::AwaitPerform => if ok {
                (Phase::AwaitRecord, done, BatchAction::Record(done))
            } else {
                (Phase::AwaitRollback, done, BatchAction::Rollback)
            },
            Phase::AwaitRollback => (Phase::Aborted, done, BatchAction::Abort),
            Phase::AwaitRecord => if ok {
                (Phase::AwaitCommit, done, BatchAction::Commit)
            } else {
                (Phase::Aborted, done, BatchAction::Abort)
            },
            Phase::AwaitCommit => if !ok {
                (Phase::Aborted, done, BatchAction::Abort)
            } else if done + 1 == total {
                (Phase::Finished, total, BatchAction::Finish(total))
            } else {
                (Phase::AwaitBegin, done + 1, BatchAction::Begin)
            },
            Phase::Finished => (Phase::Finished, done, BatchAction::Finish(done)),
            Phase::Aborted => (Phase::Aborted, done, BatchAction::Abort),
        };
        *self = BatchRunner { total, done, phase };
        a
    }
}

/// The state and the actions after feeding `events` to the runner in turn.
pub open spec fn batch_run(r: BatchState, events: Seq<bool>) -> (BatchState, Seq<BatchAction>)
    decreases events.len(),
{
    if events.len() == 0 {
        (r, Seq::empty())
    } else {
        let (r1, a) = batch_next(r, events[0]);
        let (r2, rest) = batch_run(r1, events.skip(1));
        (r2, seq![a] + rest)
    }
}

/// The state and the actions after `m` actions that all succeed.
pub open spec fn batch_run_ok(r: BatchState, m: nat) -> (BatchState, Seq<BatchAction>)
    decreases m,
{
    if m == 0 {
        (r, Seq::empty())
    } else {
        let next = batch_next(r, true);
        let rest = batch_run_ok(next.0, (m - 1) as nat);
        (rest.0, seq![next.1] + rest.1)
    }
}

proof fn lemma_run_ok_is_run(r: BatchState, m: nat)
    ensures
        batch_run(r, Seq::new(m, |i: int| true)) == batch_run_ok(r, m),
    decreases m,
{
    if m > 0 {
        let evs = Seq::new(m, |i: int| true);
        assert(evs.skip(1) =~= Seq::new((m - 1) as nat, |i: int| true));
        lemma_run_ok_is_run(batch_next(r, true).0, (m - 1) as nat);
    }
}

/// The actions of one step `i` that succeeds throughout.
pub open spec fn step_actions(i: usize) -> Seq<BatchAction> {
    seq![BatchAction::Begin, BatchAction::Perform(i), BatchAction::Record(i), BatchAction::Commit]
}

/// The actions of steps `from..to` when every action succeeds.
pub open spec fn steps_actions(from: nat, to: nat) -> Seq<BatchAction>
    decreases to - from,
{
    if from >= to {
        Seq::empty()
    } else {
        step_actions(from as usize) + steps_actions(from + 1, to)
    }
}

/// Every step `from..to` of the batch succeeds from the start of step
/// `from` (the `BEGIN` just issued) on.
proof fn lemma_steps_succeed(total: usize, from: nat)
    requires
        from < total,
    ensures
        batch_run_ok(
            BatchState { total, done: from as usize, phase: Phase::AwaitBegin },
            (4 * (total - from)) as nat,
        ).0 == (BatchState { total, done: total, phase: Phase::Finished }),
        seq![BatchAction::Begin] + batch_run_ok(
            BatchState { total, done: from as usize, phase: Phase::AwaitBegin },
            (4 * (total - from)) as nat,
        ).1 == steps_actions(from, total as nat) + seq![BatchAction::Finish(total)],
    decreases total - from,
{
    let n = (4 * (total - from)) as nat;
    let r0 = BatchState { total, done: from as usize, phase: Phase::AwaitBegin };
    let r1 = BatchState { phase: Phase::AwaitPerform, ..r0 };
    let r2 = BatchState { phase: Phase::AwaitRecord, ..r0 };
    let r3 = BatchState { phase: Phase::AwaitCommit, ..r0 };
    let s3 = batch_run_ok(r3, (n - 3) as nat);
    let s2 = batch_run_ok(r2, (n - 2) as nat);
    let s1 = batch_run_ok(r1, (n - 1) as nat);
    let s0 = batch_run_ok(r0, n);
    assert(s2 == (s3.0, seq![BatchAction::Commit] + s3.1));
    assert(s1 == (s3.0, seq![BatchAction::Record(from as usize)] + s2.1));
    assert(s0 == (s3.0, seq![BatchAction::Perform(from as usize)] + s1.1));
    if from + 1 == total {
        let rf = BatchState { total, done: total, phase: Phase::Finished };
        assert(batch_run_ok(rf, 0) == (rf, Seq::<BatchAction>::empty()));
        assert(s3 == (rf, seq![BatchAction::Finish(total)] + Seq::<BatchAction>::empty()));
        assert(steps_actions(from + 1, total as nat) =~= Seq::<BatchAction>::empty());
        assert(seq![BatchAction::Begin] + s0.1 =~= steps_actions(from, total as nat) + seq![
            BatchAction::Finish(total),
        ]);
    } else {
        lemma_steps_succeed(total, from + 1);
        let r4 = BatchState { total, done: (from + 1) as usize, phase: Phase::AwaitBegin };
        let s4 = batch_run_ok(r4, (n - 4) as nat);
        assert((n - 4) as nat == (4 * (total - (from + 1))) as nat);
        assert(s3 == (s4.0, seq![BatchAction::Begin] + s4.1));
        assert(seq![BatchAction::Begin] + s0.1 =~= step_actions(from as usize) + (seq![
            BatchAction::Begin,
        ] + s4.1));
    }
}

/// A batch whose every action succeeds runs each step in order, `BEGIN`,
/// script, bookkeeping, `COMMIT`, and then finishes with all of its steps
/// committed; an empty batch finishes at once.
pub proof fn lemma_batch_all_succeed(total: usize)
    ensures
        batch_run(
            BatchState { total, done: 0, phase: Phase::Start },
            Seq::new((4 * total + 1) as nat, |i: int| true),
        ).0 == (BatchState { total, done: total, phase: Phase::Finished }),
        batch_run(
            BatchState { total, done: 0, phase: Phase::Start },
            Seq::new((4 * total + 1) as nat, |i: int| true),
        ).1 == steps_actions(0, total as nat) + seq![BatchAction::Finish(total)],
{
    let m = (4 * total + 1) as nat;
    let r0 = BatchState { total, done: 0, phase: Phase::Start };
    lemma_run_ok_is_run(r0, m);
    if total == 0 {
        let r1 = BatchState { phase: Phase::Finished, ..r0 };
        assert(batch_run_ok(r1, 0) == (r1, Seq::<BatchAction>::empty()));
        assert(steps_actions(0, 0) =~= Seq::<BatchAction>::empty());
        assert(batch_run_ok(r0, m).1 =~= steps_actions(0, total as nat) + seq![BatchAction::Finish(total)]);
    } else {
        lemma_steps_succeed(total, 0);
        let r1 = BatchState { phase: Phase::AwaitBegin, ..r0 };
        assert((m - 1) as nat == (4 * (total - 0)) as nat);
    }
}

/// Once a batch has stopped at a failure, whatever happens next it only
/// reports the failure: no further transaction is opened and no further
/// script runs.
pub proof fn lemma_aborted_stays(r: BatchState, events: Seq<bool>)
    requires
        r.phase == Phase::Aborted,
    ensures
        batch_run(r, events).0 == r,
        forall|i: int| 0 <= i < events.len() ==> #[trigger] batch_run(r, events).1[i] == BatchAction::Abort,
        batch_run(r, events).1.len() == events.len(),
    decreases events.len(),
{
    if events.len() > 0 {
        lemma_aborted_stays(r, events.skip(1));
        let rest = batch_run(r, events.skip(1)).1;
        assert forall|i: int| 0 <= i < events.len() implies #[trigger] batch_run(r, events).1[i]
            == BatchAction::Abort by {
            if i > 0 {
                assert(batch_run(r, events).1[i] == rest[i - 1]);
            }
        }
    }
}

/// A step whose script fails is rolled back, and the batch then stops: the
/// `ROLLBACK` is followed by the report of the failure, whatever its outcome.
pub proof fn lemma_failed_step_rolls_back(r: BatchState, rollback_ok: bool)
    requires
        batch_wf(r),
        r.phase == Phase::AwaitPerform,
    ensures
        batch_next(r, false).1 == BatchAction::Rollback,
        batch_next(batch_next(r, false).0, rollback_ok) == (
            BatchState { phase: Phase::Aborted, ..r },
            BatchAction::Abort,
        ),
{
}

/// The runner reports `Finish(n)` only for a batch whose `n` steps were all
/// committed, and runs only the script of the step under way.
pub proof fn lemma_batch_actions_in_range(r: BatchState, ok: bool)
    requires
        batch_wf(r),
    ensures
        batch_wf(batch_next(r, ok).0),
        batch_next(r, ok).1 matches BatchAction::Finish(n) ==> n == r.total,
        batch_next(r, ok).1 matches BatchAction::Perform(i) ==> i == r.done && i < r.total,
        batch_next(r, ok).1 matches BatchAction::Record(i) ==> i == r.done && i < r.total,
{
}

} // verus!
