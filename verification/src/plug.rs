//! The guard-type plugging layer.
//!
//! A backend names its guard types through scope-independent marker types;
//! [`PlugLifetime`] projects a marker to the concrete guard handle. The
//! handles here are plain tokens rather than borrow-scoped values, so the
//! projection collapses the scope parameter; the markers are kept as the
//! stable names a backend declaration plugs in, one per capability, for
//! blocking and suspending backends alike.

use core::marker::PhantomData;
use vstd::prelude::*;

verus! {

/// Projects a backend's guard marker to its concrete guard handle type.
pub trait PlugLifetime {
    type Type;
}

/// The concrete guard type a marker stands for.
pub type PluggedGuard<T> = <T as PlugLifetime>::Type;

/// The handle of an exclusive (mutual-exclusion) holding.
pub struct ExclusiveGuard {
    _token: (),
}

impl ExclusiveGuard {
    /// A token for a granted exclusive holding.
    pub fn grant() -> ExclusiveGuard {
        ExclusiveGuard { _token: () }
    }
}

/// The handle of a shared-read holding.
pub struct SharedReadGuard {
    _token: (),
}

impl SharedReadGuard {
    /// A token for a granted shared-read holding.
    pub fn grant() -> SharedReadGuard {
        SharedReadGuard { _token: () }
    }
}

/// The handle of a shared-write holding.
pub struct SharedWriteGuard {
    _token: (),
}

impl SharedWriteGuard {
    /// A token for a granted shared-write holding.
    pub fn grant() -> SharedWriteGuard {
        SharedWriteGuard { _token: () }
    }
}

/// Marker for the guard of a blocking mutual-exclusion backend.
pub struct H1MutexLockGuard<T>(PhantomData<T>);

impl<T> PlugLifetime for H1MutexLockGuard<T> {
    type Type = ExclusiveGuard;
}

/// Marker for the guard of a suspending mutual-exclusion backend; the
/// handle shape is shared with the blocking one, synchronicity being slot
/// metadata.
pub struct H1TokioMutexLockGuard<T>(PhantomData<T>);

impl<T> PlugLifetime for H1TokioMutexLockGuard<T> {
    type Type = ExclusiveGuard;
}

/// Marker for the read guard of a blocking shared/exclusive backend.
pub struct H1RwLockReadGuard<T>(PhantomData<T>);

impl<T> PlugLifetime for H1RwLockReadGuard<T> {
    type Type = SharedReadGuard;
}

/// Marker for the write guard of a blocking shared/exclusive backend.
pub struct H1RwLockWriteGuard<T>(PhantomData<T>);

impl<T> PlugLifetime for H1RwLockWriteGuard<T> {
    type Type = SharedWriteGuard;
}

/// Marker for the read guard of a suspending shared/exclusive backend.
pub struct H1TokioRwLockReadGuard<T>(PhantomData<T>);

impl<T> PlugLifetime for H1TokioRwLockReadGuard<T> {
    type Type = SharedReadGuard;
}

/// Marker for the write guard of a suspending shared/exclusive backend.
pub struct H1TokioRwLockWriteGuard<T>(PhantomData<T>);

impl<T> PlugLifetime for H1TokioRwLockWriteGuard<T> {
    type Type = SharedWriteGuard;
}

} // verus!
