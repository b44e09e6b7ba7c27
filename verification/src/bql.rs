//! Guard discipline for the global device-framework lock.
//!
//! The lock itself lives outside this crate; this module models its
//! observable state — whether the lock is held, and how many guards
//! currently block unlocking — and proves that the guard discipline
//! restores that state exactly.

use vstd::prelude::*;

verus! {

/// The observable state of the global lock.
pub struct Bql {
    /// Whether the lock is currently held.
    pub locked: bool,
    /// How many guards currently block unlocking.
    pub block_count: u64,
}

/// Returns whether the lock is held.
pub fn is_locked(bql: &Bql) -> (r: bool)
    ensures
        r == bql.locked,
{
    bql.locked
}

/// Blocks (`increase`) or unblocks unlocking: adjusts the block counter by
/// one and touches nothing else.
pub fn block_unlock(bql: &mut Bql, increase: bool)
    requires
        increase ==> old(bql).block_count < u64::MAX,
        !increase ==> old(bql).block_count > 0,
    ensures
        final(bql).locked == old(bql).locked,
        increase ==> final(bql).block_count == old(bql).block_count + 1,
        !increase ==> final(bql).block_count == old(bql).block_count - 1,
{
    if increase {
        bql.block_count = bql.block_count + 1;
    } else {
        bql.block_count = bql.block_count - 1;
    }
}

/// Takes the lock; callers go through [`BqlGuard`].
fn lock(bql: &mut Bql)
    requires
        !old(bql).locked,
    ensures
        final(bql).locked,
        final(bql).block_count == old(bql).block_count,
{
    bql.locked = true;
}

/// Releases the lock; callers go through [`BqlGuard`].
fn unlock(bql: &mut Bql)
    requires
        old(bql).locked,
    ensures
        !final(bql).locked,
        final(bql).block_count == old(bql).block_count,
{
    bql.locked = false;
}

/// A guard that ensures a block of code runs with the lock held.
///
/// Taking the guard on an unlocked state locks; taking it on an already
/// locked state blocks unlocking instead. [`BqlGuard::release`] undoes
/// exactly what [`BqlGuard::new`] did.
pub struct BqlGuard {
    /// Whether this guard took the lock itself (and so must release it).
    pub locked: bool,
}

impl BqlGuard {
    /// Creates a new guard, ensuring the lock is held during its lifetime.
    pub fn new(bql: &mut Bql) -> (g: BqlGuard)
        requires
            old(bql).block_count < u64::MAX,
        ensures
            final(bql).locked,
            g.locked == !old(bql).locked,
            !old(bql).locked ==> final(bql).block_count == old(bql).block_count,
            old(bql).locked ==> final(bql).block_count == old(bql).block_count + 1,
    {
        if !is_locked(bql) {
            lock(bql);
            BqlGuard { locked: true }
        } else {
            block_unlock(bql, true);
            BqlGuard { locked: false }
        }
    }

    /// Consumes the guard: unlocks if the guard locked, else stops blocking.
    pub fn release(self, bql: &mut Bql)
        requires
            old(bql).locked,
            !self.locked ==> old(bql).block_count > 0,
        ensures
            final(bql).locked == !self.locked,
            self.locked ==> final(bql).block_count == old(bql).block_count,
            !self.locked ==> final(bql).block_count == old(bql).block_count - 1,
    {
        if self.locked {
            unlock(bql);
        } else {
            block_unlock(bql, false);
        }
    }
}

/// Executes a closure within the lock's context: a guard is taken before
/// the call and released after it, and the lock state comes out exactly as
/// it went in.
pub fn with_guard<F, R>(bql: &mut Bql, f: F) -> (r: R) where F: FnOnce() -> R
    requires
        old(bql).block_count < u64::MAX,
        call_requires(f, ()),
    ensures
        final(bql).locked == old(bql).locked,
        final(bql).block_count == old(bql).block_count,
        call_ensures(f, (), r),
{
    let guard = BqlGuard::new(bql);
    let r = f();
    guard.release(bql);
    r
}

} // verus!
