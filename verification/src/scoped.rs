//! Deferred-cleanup guard for native resources.
//!
//! A `Scoped` value pairs a resource (a descriptor, a native handle) with
//! the obligation to run a cleanup action for it exactly once.  The guard
//! starts armed; `close` hands the obligation out (at most once), and
//! `swap` replaces the resource without touching the obligation, so the
//! previous resource's disposal becomes the caller's business.

use vstd::prelude::*;

verus! {

/// A value guarded by a deferred cleanup obligation.
pub struct Scoped<T> {
    /// The guarded resource.
    pub value: T,
    closer_armed: bool,
}

impl<T> Scoped<T> {
    /// Whether the cleanup action is still owed for `value`.
    pub closed spec fn armed(&self) -> bool {
        self.closer_armed
    }

    /// The guarded resource, for contracts.
    pub closed spec fn val(&self) -> T {
        self.value
    }

    /// Wraps `initial`, arming the cleanup obligation.
    pub fn new(initial: T) -> (s: Self)
        ensures
            s.armed(),
            s.val() == initial,
    {
        Scoped { value: initial, closer_armed: true }
    }

    /// Replaces the guarded value and returns the previous one.  The
    /// cleanup obligation stays with the guard and now covers `new`;
    /// the returned value is the caller's to dispose of.
    pub fn swap(&mut self, new: T) -> (prev: T)
        ensures
            prev == old(self).val(),
            final(self).val() == new,
            final(self).armed() == old(self).armed(),
    {
        let mut new = new;
        core::mem::swap(&mut self.value, &mut new);
        new
    }

    /// Settles the cleanup obligation: returns whether the cleanup action
    /// must run now, and disarms the guard either way.  Two calls can
    /// never both answer `true`, so the action runs at most once.
    pub fn close(&mut self) -> (run: bool)
        ensures
            run == old(self).armed(),
            !final(self).armed(),
            final(self).val() == old(self).val(),
    {
        let run = self.closer_armed;
        self.closer_armed = false;
        run
    }

    /// Disarms the guard and hands the value out, suppressing cleanup:
    /// ownership of the resource moves onward.
    pub fn release(self) -> (v: T)
        ensures
            v == self.val(),
    {
        self.value
    }
}

/// One operation a guard's owner can perform on it.
pub enum GuardOp {
    /// `swap`: replace the value, keeping the obligation.
    Swap,
    /// `close`: settle the obligation.
    Close,
}

/// Whether the guard is still armed after a fresh guard has gone
/// through `ops`, exactly as the contracts of `swap` and `close` say:
/// swaps preserve the flag, the first close clears it for good.
pub open spec fn armed_after(ops: Seq<GuardOp>) -> bool
    decreases ops.len(),
{
    if ops.len() == 0 {
        true
    } else {
        match ops.last() {
            GuardOp::Swap => armed_after(ops.drop_last()),
            GuardOp::Close => false,
        }
    }
}

/// How many of the closes in `ops` answered `true` — that is, how many
/// times the cleanup action actually ran.
pub open spec fn closer_runs(ops: Seq<GuardOp>) -> nat
    decreases ops.len(),
{
    if ops.len() == 0 {
        0
    } else {
        match ops.last() {
            GuardOp::Swap => closer_runs(ops.drop_last()),
            GuardOp::Close => closer_runs(ops.drop_last()) + if armed_after(ops.drop_last()) {
                1nat
            } else {
                0nat
            },
        }
    }
}

/// A guard that is still armed has never run its closer.
pub proof fn lemma_armed_means_never_ran(ops: Seq<GuardOp>)
    requires
        armed_after(ops),
    ensures
        closer_runs(ops) == 0,
    decreases ops.len(),
{
    if ops.len() > 0 {
        lemma_armed_means_never_ran(ops.drop_last());
    }
}

/// Exactly-once law for the cleanup obligation: whatever sequence of
/// swaps and closes a fresh guard goes through, the cleanup action runs
/// at most once — and it runs exactly once as soon as one close is
/// among them.
pub proof fn lemma_closer_runs_at_most_once(ops: Seq<GuardOp>)
    ensures
        closer_runs(ops) <= 1,
        ops.contains(GuardOp::Close) ==> closer_runs(ops) == 1,
    decreases ops.len(),
{
    if ops.len() > 0 {
        lemma_closer_runs_at_most_once(ops.drop_last());
        match ops.last() {
            GuardOp::Swap => {
                if ops.contains(GuardOp::Close) {
                    let i = choose|i: int| 0 <= i < ops.len() && ops[i] == GuardOp::Close;
                    assert(i < ops.len() - 1);
                    assert(ops.drop_last()[i] == GuardOp::Close);
                    assert(ops.drop_last().contains(GuardOp::Close));
                }
            },
            GuardOp::Close => {
                if armed_after(ops.drop_last()) {
                    lemma_armed_means_never_ran(ops.drop_last());
                } else {
                    lemma_disarmed_means_closed(ops.drop_last());
                }
            },
        }
    }
}

/// A guard that is no longer armed has been closed, and so its closer
/// has run.
proof fn lemma_disarmed_means_closed(ops: Seq<GuardOp>)
    requires
        !armed_after(ops),
    ensures
        closer_runs(ops) == 1,
        ops.contains(GuardOp::Close),
    decreases ops.len(),
{
    if ops.len() > 0 {
        match ops.last() {
            GuardOp::Swap => {
                lemma_disarmed_means_closed(ops.drop_last());
                let i = choose|i: int|
                    0 <= i < ops.drop_last().len() && ops.drop_last()[i] == GuardOp::Close;
                assert(ops[i] == GuardOp::Close);
            },
            GuardOp::Close => {
                if armed_after(ops.drop_last()) {
                    lemma_armed_means_never_ran(ops.drop_last());
                } else {
                    lemma_disarmed_means_closed(ops.drop_last());
                }
                assert(ops[ops.len() - 1] == GuardOp::Close);
            },
        }
    }
}

} // verus!
