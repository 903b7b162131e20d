//! The one-shot initialization guard: the decision of whether a call of the
//! entry point must perform the installation. The caller holds one guard for
//! the whole process and serializes calls of `begin` on it; the lemmas below
//! state that any such sequence of calls performs the installation exactly
//! once.

use vstd::prelude::*;

verus! {

/// Whether the one-time installation body has run.
pub struct InitGuard {
    done: bool,
}

impl InitGuard {
    /// The installation has run.
    pub closed spec fn is_done(self) -> bool {
        self.done
    }

    /// A fresh guard: the installation has not run.
    pub fn new() -> (r: InitGuard)
        ensures
            !r.is_done(),
    {
        InitGuard { done: false }
    }

    /// Decide whether this call must perform the installation. The first
    /// call on a fresh guard answers yes; every later call answers no, and
    /// the guard never resets.
    pub fn begin(&mut self) -> (run: bool)
        ensures
            final(self).is_done(),
            run == !old(self).is_done(),
    {
        let run = !self.done;
        self.done = true;
        run
    }
}

/// How many installations `n` successive calls of `begin` perform, starting
/// from a guard whose done-state is `done`: each call runs the body exactly
/// when the guard was not yet done, and leaves it done.
pub open spec fn installs_in(done: bool, n: nat) -> nat
    decreases n,
{
    if n == 0 {
        0
    } else {
        (if done {
            0nat
        } else {
            1nat
        }) + installs_in(true, (n - 1) as nat)
    }
}

/// A guard that is already done never installs again.
pub proof fn lemma_done_guard_never_installs(n: nat)
    ensures
        installs_in(true, n) == 0,
    decreases n,
{
    if n > 0 {
        lemma_done_guard_never_installs((n - 1) as nat);
    }
}

/// Idempotence: any number of calls, one or more, on a fresh guard performs
/// the installation exactly once.
pub proof fn lemma_fresh_guard_installs_once(n: nat)
    requires
        n >= 1,
    ensures
        installs_in(false, n) == 1,
{
    lemma_done_guard_never_installs((n - 1) as nat);
}

} // verus!
