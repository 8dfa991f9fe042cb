//! The readers-writer lock of `parking_lot`, as far as the store uses it.
//! Everything here is taken on trust: Verus does not read the lock's code.
//!
//! A value behind a lock changes under the eyes of a thread that only holds
//! a `&` to the lock, so no contract here says what a lock holds. What is
//! known of a value that comes out of a lock is what is known of every
//! value of its type.

use std::sync::Arc;
use vstd::prelude::*;

verus! {

/// `lock_api::RwLock`, the type behind `parking_lot::RwLock`. Nothing inside
/// it is visible to contracts.
#[verifier::external_type_specification]
#[verifier::external_body]
#[verifier::reject_recursive_types(R)]
#[verifier::reject_recursive_types(T)]
pub struct ExRwLock<R, T: ?Sized>(parking_lot::lock_api::RwLock<R, T>);

/// `parking_lot::RawRwLock`, the raw lock that `parking_lot::RwLock` is
/// built on.
#[verifier::external_type_specification]
#[verifier::external_body]
pub struct ExRawRwLock(parking_lot::RawRwLock);

/// Shared access to the value behind a lock: holds a
/// `parking_lot::RwLockReadGuard`, which gives the access up when it is
/// dropped. The guard's type is bounded by a trait of `lock_api` that cannot
/// be declared to Verus, so the guard is kept in this struct, of which
/// nothing is visible to contracts.
#[verifier::external_body]
#[verifier::reject_recursive_types(T)]
pub(crate) struct SharedAccess<'a, T> {
    guard: parking_lot::RwLockReadGuard<'a, T>,
}

/// Exclusive access to the value behind a lock: holds a
/// `parking_lot::RwLockWriteGuard`, which gives the access up when it is
/// dropped. It is kept in a struct for the same reason as the read guard,
/// and nothing of it is visible to contracts.
#[verifier::external_body]
#[verifier::reject_recursive_types(T)]
pub(crate) struct ExclusiveAccess<'a, T> {
    guard: parking_lot::RwLockWriteGuard<'a, T>,
}

/// `RwLock::new`: an unlocked lock around `value`. Nothing is claimed of the
/// result.
#[verifier::external_body]
pub(crate) fn new_lock<T>(value: T) -> parking_lot::RwLock<T> {
    parking_lot::RwLock::new(value)
}

/// `RwLock::read`: waits until no writer holds the lock or waits for it,
/// then returns with shared access. Nothing is claimed of the result. A
/// thread that already holds access to `lock`, shared or exclusive, must not
/// make the call: it might never return.
#[verifier::external_body]
pub(crate) fn lock_shared<'a, T>(lock: &'a parking_lot::RwLock<T>) -> SharedAccess<'a, T> {
    SharedAccess { guard: lock.read() }
}

/// `RwLock::write`: waits until nobody holds the lock, then returns with
/// exclusive access. Nothing is claimed of the result. A thread that already
/// holds access to `lock`, shared or exclusive, must not make the call: it
/// would never return.
#[verifier::external_body]
pub(crate) fn lock_exclusive<'a, T>(lock: &'a parking_lot::RwLock<T>) -> ExclusiveAccess<'a, T> {
    ExclusiveAccess { guard: lock.write() }
}

/// `Deref::deref` of the read guard: the value behind the lock. Which value
/// that is depends on what was written before the lock was taken, so nothing
/// is claimed of it.
#[verifier::external_body]
pub(crate) fn shared_value<'a, 'b, T>(access: &'a SharedAccess<'b, T>) -> &'a T {
    &access.guard
}

/// `DerefMut::deref_mut` of the write guard: the value behind the lock, open
/// to change. Nothing is claimed of it.
#[verifier::external_body]
pub(crate) fn exclusive_value<'a, 'b, T>(access: &'a mut ExclusiveAccess<'b, T>) -> &'a mut T {
    &mut access.guard
}

/// `Arc::clone`: one more pointer to the same lock. In contracts an `Arc`
/// is what it points to, so the result equals the argument.
#[verifier::external_body]
pub(crate) fn share<T>(lock: &Arc<parking_lot::RwLock<T>>) -> (shared: Arc<parking_lot::RwLock<T>>)
    ensures
        shared == lock,
{
    Arc::clone(lock)
}

} // verus!
