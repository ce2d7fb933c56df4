//! The transaction protocol of a bulk insert: `BEGIN`, one `INSERT` per
//! record, `COMMIT`; a failing `INSERT` or `COMMIT` rolls the whole batch
//! back.
//!
//! [`BulkRunner`] makes the decisions; the caller performs each action it
//! returns and reports whether the action succeeded.

use vstd::prelude::*;

verus! {

/// What the runner waits for.
#[derive(Debug, Clone, Copy, PartialEq, Eq, Structural)]
pub enum BulkPhase {
    /// Nothing has been asked yet.
    Start,
    /// The outcome of `BEGIN`.
    AwaitBegin,
    /// The outcome of the `INSERT` of the current record.
    AwaitInsert,
    /// The outcome of `COMMIT`.
    AwaitCommit,
    /// The outcome of `ROLLBACK`.
    AwaitRollback,
    /// Every record was written and committed.
    Finished,
    /// The batch stopped at a failure.
    Aborted,
}

/// What the caller does next.
#[derive(Debug, Clone, Copy, PartialEq, Eq, Structural)]
pub enum BulkAction {
    /// Open the transaction.
    Begin,
    /// Insert record `i`.
    Insert(usize),
    /// Commit the transaction.
    Commit,
    /// Roll the transaction back.
    Rollback,
    /// Stop: every record was inserted.
    Finish,
    /// Stop and report the failure.
    Abort,
}

/// The state of a bulk insert of `total` records, `done` of them written.
pub ghost struct BulkState {
    pub total: usize,
    pub done: usize,
    pub phase: BulkPhase,
}

/// The runner's invariant: `done` never passes `total`, and an insert is
/// under way only while some record remains.
pub open spec fn bulk_wf(r: BulkState) -> bool {
    &&& r.done <= r.total
    &&& r.phase == BulkPhase::AwaitInsert ==> r.done < r.total
    &&& (r.phase == BulkPhase::AwaitCommit || r.phase == BulkPhase::Finished) ==> r.done == r.total
    &&& (r.phase == BulkPhase::Start || r.phase == BulkPhase::AwaitBegin) ==> r.done == 0
}

/// The next state and action, given whether the last action succeeded.
pub open spec fn bulk_next(r: BulkState, ok: bool) -> (BulkState, BulkAction) {
    match r.phase {
        BulkPhase::Start => (BulkState { phase: BulkPhase::AwaitBegin, ..r }, BulkAction::Begin),
        BulkPhase::AwaitBegin => if !ok {
            (BulkState { phase: BulkPhase::Aborted, ..r }, BulkAction::Abort)
        } else if r.total == 0 {
            (BulkState { phase: BulkPhase::AwaitCommit, ..r }, BulkAction::Commit)
        } else {
            (BulkState { phase: BulkPhase::AwaitInsert, ..r }, BulkAction::Insert(0))
        },
        BulkPhase::AwaitInsert => if !ok {
            (BulkState { phase: BulkPhase::AwaitRollback, ..r }, BulkAction::Rollback)
        } else if r.done + 1 == r.total {
            (
                BulkState { phase: BulkPhase::AwaitCommit, done: r.total, total: r.total },
                BulkAction::Commit,
            )
        } else {
            (
                BulkState { phase: BulkPhase::AwaitInsert, done: (r.done + 1) as usize, total: r.total },
                BulkAction::Insert((r.done + 1) as usize),
            )
        },
        BulkPhase::AwaitCommit => if ok {
            (BulkState { phase: BulkPhase::Finished, ..r }, BulkAction::Finish)
        } else {
            (BulkState { phase: BulkPhase::AwaitRollback, ..r }, BulkAction::Rollback)
        },
        BulkPhase::AwaitRollback => (BulkState { phase: BulkPhase::Aborted, ..r }, BulkAction::Abort),
        BulkPhase::Finished => (r, BulkAction::Finish),
        BulkPhase::Aborted => (r, BulkAction::Abort),
    }
}

/// The runner; its state always satisfies [`bulk_wf`].
#[derive(Debug, Clone, Copy)]
pub struct BulkRunner {
    total: usize,
    done: usize,
    phase: BulkPhase,
}

impl View for BulkRunner {
    type V = BulkState;

    closed spec fn view(&self) -> BulkState {
        BulkState { total: self.total, done: self.done, phase: self.phase }
    }
}

impl BulkRunner {
    #[verifier::type_invariant]
    closed spec fn state_is_valid(self) -> bool {
        bulk_wf(self@)
    }

    /// A runner for `total` steps, none started.
    pub fn new(total: usize) -> (r: BulkRunner)
        ensures
            r@ == (BulkState { total, done: 0, phase: BulkPhase::Start }),
    {
        BulkRunner { total, done: 0, phase: BulkPhase::Start }
    }

    /// The number of steps.
    pub fn total(&self) -> (n: usize)
        ensures
            n == self@.total,
    {
        self.total
    }

    /// The number of steps done.
    pub fn done(&self) -> (n: usize)
        ensures
            n == self@.done,
    {
        self.done
    }

    /// What the runner waits for.
    pub fn phase(&self) -> (p: BulkPhase)
        ensures
            p == self@.phase,
    {
        self.phase
    }

    /// Takes the outcome of the last action (ignored for the first call)
    /// and returns the next action.
    pub fn step(&mut self, ok: bool) -> (a: BulkAction)
        ensures
            (final(self)@, a) == bulk_next(old(self)@, ok),
            bulk_wf(final(self)@),
    {
        proof {
            use_type_invariant(&*self);
        }
        let total = self.total;
        let done = self.done;
        let (phase, done, a) = match self.phase {
            BulkPhase::Start => (BulkPhase::AwaitBegin, done, BulkAction::Begin),
            BulkPhase::AwaitBegin => if !ok {
                (BulkPhase::Aborted, done, BulkAction::Abort)
            } else if total == 0 {
                (BulkPhase::AwaitCommit, done, BulkAction::Commit)
            } else {
                (BulkPhase::AwaitInsert, done, BulkAction::Insert(0))
            },
            BulkPhase::AwaitInsert => if !ok {
                (BulkPhase::AwaitRollback, done, BulkAction::Rollback)
            } else if done + 1 == total {
                (BulkPhase::AwaitCommit, total, BulkAction::Commit)
            } else {
                (BulkPhase::AwaitInsert, done + 1, BulkAction::Insert(done + 1))
            },
            BulkPhase::AwaitCommit => if ok {
                (BulkPhase::Finished, done, BulkAction::Finish)
            } else {
                (BulkPhase::AwaitRollback, done, BulkAction::Rollback)
            },
            BulkPhase::AwaitRollback => (BulkPhase::Aborted, done, BulkAction::Abort),
            BulkPhase::Finished => (BulkPhase::Finished, done, BulkAction::Finish),
            BulkPhase::Aborted => (BulkPhase::Aborted, done, BulkAction::Abort),
        };
        *self = BulkRunner { total, done, phase };
        a
    }
}

/// The state and the actions after `m` actions that all succeed.
pub open spec fn bulk_run_ok(r: BulkState, m: nat) -> (BulkState, Seq<BulkAction>)
    decreases m,
{
    if m == 0 {
        (r, Seq::empty())
    } else {
        let next = bulk_next(r, true);
        let rest = bulk_run_ok(next.0, (m - 1) as nat);
        (rest.0, seq![next.1] + rest.1)
    }
}

/// `Insert(from), ..., Insert(to - 1)`.
pub open spec fn inserts(from: nat, to: nat) -> Seq<BulkAction>
    decreases to - from,
{
    if from >= to {
        Seq::empty()
    } else {
        seq![BulkAction::Insert(from as usize)] + inserts(from + 1, to)
    }
}

proof fn lemma_inserts_succeed(total: usize, from: nat)
    requires
        from < total,
    ensures
        bulk_run_ok(
            BulkState { total, done: from as usize, phase: BulkPhase::AwaitInsert },
            (total - from) as nat,
        ) == (
            BulkState { total, done: total, phase: BulkPhase::AwaitCommit },
            inserts(from + 1, total as nat) + seq![BulkAction::Commit],
        ),
    decreases total - from,
{
    let r0 = BulkState { total, done: from as usize, phase: BulkPhase::AwaitInsert };
    let n = (total - from) as nat;
    if from + 1 == total {
        let rc = BulkState { total, done: total, phase: BulkPhase::AwaitCommit };
        assert(bulk_run_ok(rc, 0) == (rc, Seq::<BulkAction>::empty()));
        assert(inserts(from + 1, total as nat) =~= Seq::<BulkAction>::empty());
        assert(bulk_run_ok(r0, n).1 =~= inserts(from + 1, total as nat) + seq![BulkAction::Commit]);
    } else {
        lemma_inserts_succeed(total, from + 1);
        let r1 = BulkState { total, done: (from + 1) as usize, phase: BulkPhase::AwaitInsert };
        assert(bulk_next(r0, true) == (r1, BulkAction::Insert((from + 1) as usize)));
        assert(inserts(from + 1, total as nat) =~= seq![BulkAction::Insert((from + 1) as usize)]
            + inserts(from + 2, total as nat));
        assert(bulk_run_ok(r0, n).1 =~= inserts(from + 1, total as nat) + seq![BulkAction::Commit]);
    }
}

/// A bulk insert whose every action succeeds opens one transaction, inserts
/// each record once in order, commits, and finishes.
pub proof fn lemma_bulk_all_succeed(total: usize)
    ensures
        bulk_run_ok(BulkState { total, done: 0, phase: BulkPhase::Start }, (total + 3) as nat) == (
            BulkState { total, done: total, phase: BulkPhase::Finished },
            seq![BulkAction::Begin] + inserts(0, total as nat) + seq![BulkAction::Commit, BulkAction::Finish],
        ),
{
    let r0 = BulkState { total, done: 0, phase: BulkPhase::Start };
    let r1 = BulkState { phase: BulkPhase::AwaitBegin, ..r0 };
    let rc = BulkState { total, done: total, phase: BulkPhase::AwaitCommit };
    let rf = BulkState { total, done: total, phase: BulkPhase::Finished };
    assert(bulk_run_ok(rf, 0) == (rf, Seq::<BulkAction>::empty()));
    assert(bulk_run_ok(rc, 1) == (rf, seq![BulkAction::Finish]));
    if total == 0 {
        assert(inserts(0, 0) =~= Seq::<BulkAction>::empty());
        assert(bulk_next(r0, true) == (r1, BulkAction::Begin));
        assert(bulk_next(r1, true) == (rc, BulkAction::Commit));
        assert(bulk_run_ok(r1, 2) == (rf, seq![BulkAction::Commit] + seq![BulkAction::Finish]));
        assert(bulk_run_ok(r0, 3) == (rf, seq![BulkAction::Begin] + bulk_run_ok(r1, 2).1));
        assert(bulk_run_ok(r0, 3).1 =~= seq![BulkAction::Begin] + inserts(0, total as nat) + seq![
            BulkAction::Commit,
            BulkAction::Finish,
        ]);
    } else {
        let ri = BulkState { phase: BulkPhase::AwaitInsert, ..r0 };
        lemma_inserts_succeed(total, 0);
        lemma_run_ok_split(ri, total as nat, 1);
        assert(bulk_next(r0, true) == (r1, BulkAction::Begin));
        assert(bulk_next(r1, true) == (ri, BulkAction::Insert(0)));
        let s1 = bulk_run_ok(ri, (total + 1) as nat);
        assert(s1.0 == rf);
        assert(bulk_run_ok(r1, (total + 2) as nat) == (s1.0, seq![BulkAction::Insert(0)] + s1.1));
        assert(bulk_run_ok(r0, (total + 3) as nat) == (s1.0, seq![BulkAction::Begin] + (seq![
            BulkAction::Insert(0),
        ] + s1.1)));
        assert(inserts(0, total as nat) =~= seq![BulkAction::Insert(0)] + inserts(1, total as nat));
        assert(bulk_run_ok(ri, (total + 1) as nat).1 =~= inserts(1, total as nat) + seq![
            BulkAction::Commit,
            BulkAction::Finish,
        ]);
        assert(bulk_run_ok(r0, (total + 3) as nat).1 =~= seq![BulkAction::Begin] + inserts(
            0,
            total as nat,
        ) + seq![BulkAction::Commit, BulkAction::Finish]);
    }
}

proof fn lemma_run_ok_split(r: BulkState, a: nat, b: nat)
    ensures
        bulk_run_ok(r, a + b) == (
            bulk_run_ok(bulk_run_ok(r, a).0, b).0,
            bulk_run_ok(r, a).1 + bulk_run_ok(bulk_run_ok(r, a).0, b).1,
        ),
    decreases a,
{
    if a == 0 {
        assert(Seq::<BulkAction>::empty() + bulk_run_ok(r, b).1 =~= bulk_run_ok(r, b).1);
    } else {
        let next = bulk_next(r, true);
        lemma_run_ok_split(next.0, (a - 1) as nat, b);
        assert((a + b - 1) as nat == ((a - 1) as nat + b) as nat);
        assert(seq![next.1] + (bulk_run_ok(next.0, (a - 1) as nat).1 + bulk_run_ok(
            bulk_run_ok(next.0, (a - 1) as nat).0,
            b,
        ).1) =~= (seq![next.1] + bulk_run_ok(next.0, (a - 1) as nat).1) + bulk_run_ok(
            bulk_run_ok(next.0, (a - 1) as nat).0,
            b,
        ).1);
    }
}

/// A failing `INSERT` or `COMMIT` is followed by `ROLLBACK` and then by the
/// report of the failure, whatever the outcome of the rollback.
pub proof fn lemma_bulk_failure_rolls_back(r: BulkState, rollback_ok: bool)
    requires
        bulk_wf(r),
        r.phase == BulkPhase::AwaitInsert || r.phase == BulkPhase::AwaitCommit,
    ensures
        bulk_next(r, false).1 == BulkAction::Rollback,
        bulk_next(bulk_next(r, false).0, rollback_ok) == (
            BulkState { phase: BulkPhase::Aborted, ..r },
            BulkAction::Abort,
        ),
{
}

/// Once stopped at a failure, the runner only reports it: nothing more is
/// inserted or committed.
pub proof fn lemma_bulk_aborted_stays(r: BulkState, ok: bool)
    requires
        r.phase == BulkPhase::Aborted,
    ensures
        bulk_next(r, ok) == (r, BulkAction::Abort),
{
}

} // verus!
