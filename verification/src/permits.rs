//! The counting semaphore of one resource, from the `semaphore` crate, kept
//! together with the access guards it has handed out.
//!
//! A `semaphore::Semaphore` counts its active accesses in shared state that a
//! `SemaphoreGuard` decrements when it is dropped. Keeping the semaphore and
//! every guard it granted in one private place, keyed by the token of the
//! holder, makes that count a property of a single value: the semaphore's
//! active count is always the number of tokens stored here.
use semaphore::Semaphore;
use semaphore::SemaphoreGuard;
use std::collections::HashMap;
use vstd::prelude::*;

verus! {

/// A semaphore and the guards it has granted, keyed by holder token.
#[verifier::external_body]
pub struct PermitPool {
    semaphore: Semaphore<()>,
    guards: HashMap<u64, SemaphoreGuard<()>>,
}

/// The tokens that currently hold an access of the pool's semaphore.
pub uninterp spec fn pool_held(pool: PermitPool) -> Set<u64>;

/// The capacity the pool's semaphore was made with.
pub uninterp spec fn pool_capacity(pool: PermitPool) -> nat;

/// Makes a semaphore with `Semaphore::new(capacity, ())` and no guard.
/// Claimed: nothing is held and the capacity is `capacity`.
#[verifier::external_body]
pub(crate) fn pool_new(capacity: usize) -> (pool: PermitPool)
    ensures
        pool_held(pool) == Set::<u64>::empty(),
        pool_capacity(pool) == capacity as nat,
{
    PermitPool { semaphore: Semaphore::new(capacity, ()), guards: HashMap::new() }
}

/// Calls `Semaphore::try_access` and, when it grants access, stores the
/// guard under `token` (a guard already stored under `token` is dropped,
/// which releases its access).
/// Claimed: `try_access` grants access exactly when fewer accesses are
/// active than the capacity (the semaphore is never shut down, and its
/// active count is the number of stored guards); on success `token` is held
/// afterwards, otherwise nothing changes.
#[verifier::external_body]
pub(crate) fn pool_try_acquire(pool: &mut PermitPool, token: u64) -> (acquired: bool)
    ensures
        acquired == (pool_held(*old(pool)).len() < pool_capacity(*old(pool))),
        acquired ==> pool_held(*final(pool)) == pool_held(*old(pool)).insert(token),
        !acquired ==> pool_held(*final(pool)) == pool_held(*old(pool)),
        pool_held(*final(pool)).finite(),
        pool_capacity(*final(pool)) == pool_capacity(*old(pool)),
{
    match pool.semaphore.try_access() {
        Ok(guard) => {
            pool.guards.insert(token, guard);
            true
        },
        Err(_) => false,
    }
}

/// Drops the guard stored under `token`, if any; `SemaphoreGuard::drop`
/// releases its access of the semaphore.
/// Claimed: the result says whether `token` was held, and afterwards it is
/// not.
#[verifier::external_body]
pub(crate) fn pool_release(pool: &mut PermitPool, token: u64) -> (released: bool)
    ensures
        released == pool_held(*old(pool)).contains(token),
        pool_held(*final(pool)) == pool_held(*old(pool)).remove(token),
        pool_held(*final(pool)).finite(),
        pool_capacity(*final(pool)) == pool_capacity(*old(pool)),
{
    pool.guards.remove(&token).is_some()
}

} // verus!
