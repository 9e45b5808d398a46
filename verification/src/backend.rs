//! The backend layer: the lock primitives a tree instance owns, one per
//! slot, and the capability traits through which further primitives can be
//! plugged in.
//!
//! [`Exclusive`] offers mutual exclusion only; [`SharedExclusive`] offers
//! shared reading and exclusive writing. Both record their holders as plain
//! state, so the ordering protocol above them is checkable: with the
//! reentrancy guard admitting a single chain per instance, no acquisition
//! ever has to wait, and a primitive found busy is a protocol violation
//! rather than contention.

use vstd::prelude::*;

use crate::plug::{
    ExclusiveGuard, H1MutexLockGuard, H1RwLockReadGuard, H1RwLockWriteGuard, PlugLifetime,
    PluggedGuard, SharedReadGuard, SharedWriteGuard,
};

verus! {

/// A primitive's report that it cannot be taken: under the ordering
/// protocol this is a caller logic error, never contention.
#[derive(Clone, Copy, Debug, PartialEq, Eq, Structural)]
pub enum BackendError {
    Busy,
}

/// Backends constructible around an initial payload.
pub trait New<T>: Sized {
    /// The payload the backend holds.
    spec fn payload(&self) -> T;

    /// A fresh, unheld backend around `value`.
    fn new(value: T) -> (r: Self)
        ensures
            r.payload() == value,
    ;
}

/// The capability set of a mutual-exclusion backend.
pub trait Mutex: Sized {
    /// The marker of this backend's guard type.
    type Guard: PlugLifetime;

    /// Whether the backend can be taken now.
    spec fn mutex_free(&self) -> bool;

    /// Take the backend: granted exactly when it is free, and it is not
    /// free afterwards.
    fn lock(&mut self) -> (r: Result<PluggedGuard<Self::Guard>, BackendError>)
        ensures
            r is Ok <==> old(self).mutex_free(),
            r is Ok ==> !final(self).mutex_free(),
    ;
}

/// The capability set of a shared/exclusive backend.
pub trait RwLock: Sized {
    /// The marker of this backend's read-guard type.
    type ReadGuard: PlugLifetime;

    /// The marker of this backend's write-guard type.
    type WriteGuard: PlugLifetime;

    /// Whether a reader may join now.
    spec fn read_free(&self) -> bool;

    /// Whether a writer may take the backend now.
    spec fn write_free(&self) -> bool;

    /// Join the readers: granted exactly when reading is free.
    fn read(&mut self) -> (r: Result<PluggedGuard<Self::ReadGuard>, BackendError>)
        ensures
            r is Ok <==> old(self).read_free(),
    ;

    /// Take the backend for writing: granted exactly when writing is free,
    /// and nothing is free afterwards.
    fn write(&mut self) -> (r: Result<PluggedGuard<Self::WriteGuard>, BackendError>)
        ensures
            r is Ok <==> old(self).write_free(),
            r is Ok ==> !final(self).write_free() && !final(self).read_free(),
    ;
}

/// How a guard may touch its slot's payload.
#[derive(Clone, Copy, Debug, PartialEq, Eq, Structural)]
pub enum AccessMode {
    /// Shared reading.
    Read,
    /// Exclusive reading and writing.
    Write,
}

/// A mutual-exclusion primitive: one holder at a time, all access
/// exclusive.
pub struct Exclusive<T> {
    pub value: T,
    pub held: bool,
}

impl<T> Exclusive<T> {
    /// A fresh, unheld primitive around `value`.
    pub fn new(value: T) -> (r: Exclusive<T>)
        ensures
            !r.held,
            r.value == value,
    {
        Exclusive { value, held: false }
    }

    /// Take the primitive: granted exactly when nobody holds it.
    pub fn try_acquire(&mut self) -> (r: bool)
        ensures
            r == !old(self).held,
            final(self).held,
            final(self).value == old(self).value,
    {
        if self.held {
            false
        } else {
            self.held = true;
            true
        }
    }

    /// Give the primitive back: reports whether it was held.
    pub fn release(&mut self) -> (r: bool)
        ensures
            r == old(self).held,
            !final(self).held,
            final(self).value == old(self).value,
    {
        let was = self.held;
        self.held = false;
        was
    }

    /// The payload, readable only while held.
    pub fn get(&self) -> (r: &T)
        requires
            self.held,
        ensures
            r == self.value,
    {
        &self.value
    }

    /// Replace the payload, only while held; the previous payload comes
    /// back.
    pub fn replace(&mut self, value: T) -> (prev: T)
        requires
            old(self).held,
        ensures
            final(self).held,
            final(self).value == value,
            prev == old(self).value,
    {
        let mut value = value;
        core::mem::swap(&mut self.value, &mut value);
        value
    }
}

/// A shared/exclusive primitive: any number of readers, or one writer.
pub struct SharedExclusive<T> {
    pub value: T,
    pub readers: usize,
    pub writer: bool,
}

impl<T> SharedExclusive<T> {
    /// A fresh, unheld primitive around `value`.
    pub fn new(value: T) -> (r: SharedExclusive<T>)
        ensures
            r.readers == 0,
            !r.writer,
            r.value == value,
    {
        SharedExclusive { value, readers: 0, writer: false }
    }

    /// Join the readers: granted exactly when no writer holds the
    /// primitive and the reader count has room.
    pub fn try_acquire_read(&mut self) -> (r: bool)
        ensures
            r == (!old(self).writer && old(self).readers < usize::MAX),
            r ==> final(self).readers == old(self).readers + 1,
            !r ==> final(self).readers == old(self).readers,
            final(self).writer == old(self).writer,
            final(self).value == old(self).value,
    {
        if self.writer || self.readers == usize::MAX {
            false
        } else {
            self.readers = self.readers + 1;
            true
        }
    }

    /// Take the primitive for writing: granted exactly when nobody holds
    /// it.
    pub fn try_acquire_write(&mut self) -> (r: bool)
        ensures
            r == (!old(self).writer && old(self).readers == 0),
            r ==> final(self).writer,
            !r ==> final(self).writer == old(self).writer,
            final(self).readers == old(self).readers,
            final(self).value == old(self).value,
    {
        if self.writer || self.readers > 0 {
            false
        } else {
            self.writer = true;
            true
        }
    }

    /// Leave the readers: reports whether a reader was registered.
    pub fn release_read(&mut self) -> (r: bool)
        ensures
            r == (old(self).readers > 0),
            r ==> final(self).readers == old(self).readers - 1,
            !r ==> final(self).readers == old(self).readers,
            final(self).writer == old(self).writer,
            final(self).value == old(self).value,
    {
        if self.readers > 0 {
            self.readers = self.readers - 1;
            true
        } else {
            false
        }
    }

    /// Give up the writer's hold: reports whether a writer held it.
    pub fn release_write(&mut self) -> (r: bool)
        ensures
            r == old(self).writer,
            !final(self).writer,
            final(self).readers == old(self).readers,
            final(self).value == old(self).value,
    {
        let was = self.writer;
        self.writer = false;
        was
    }

    /// The payload, readable only while held for reading or writing.
    pub fn get(&self) -> (r: &T)
        requires
            self.readers > 0 || self.writer,
        ensures
            r == self.value,
    {
        &self.value
    }

    /// Replace the payload, only while held for writing; the previous
    /// payload comes back.
    pub fn replace(&mut self, value: T) -> (prev: T)
        requires
            old(self).writer,
        ensures
            final(self).writer,
            final(self).readers == old(self).readers,
            final(self).value == value,
            prev == old(self).value,
    {
        let mut value = value;
        core::mem::swap(&mut self.value, &mut value);
        value
    }
}

/// The capability set of a suspending mutual-exclusion backend. Its
/// acquisition is one poll: `None` asks the caller's task to yield and
/// poll again; the futures that drive the polling live outside the
/// verified engine.
pub trait AsyncMutex: Sized {
    /// The marker of this backend's guard type.
    type Guard: PlugLifetime;

    /// Whether the backend can be taken now.
    spec fn mutex_free(&self) -> bool;

    /// One poll of a suspending acquisition: granted exactly when the
    /// backend is free now, and it is not free afterwards.
    fn lock(&mut self) -> (r: Option<PluggedGuard<Self::Guard>>)
        ensures
            r is Some <==> old(self).mutex_free(),
            r is Some ==> !final(self).mutex_free(),
    ;
}

/// The capability set of a suspending shared/exclusive backend, polled
/// like [`AsyncMutex`].
pub trait AsyncRwLock: Sized {
    /// The marker of this backend's read-guard type.
    type ReadGuard: PlugLifetime;

    /// The marker of this backend's write-guard type.
    type WriteGuard: PlugLifetime;

    /// Whether a reader may join now.
    spec fn read_free(&self) -> bool;

    /// Whether a writer may take the backend now.
    spec fn write_free(&self) -> bool;

    /// One poll of a suspending read acquisition: granted exactly when
    /// reading is free now.
    fn read(&mut self) -> (r: Option<PluggedGuard<Self::ReadGuard>>)
        ensures
            r is Some <==> old(self).read_free(),
    ;

    /// One poll of a suspending write acquisition: granted exactly when
    /// writing is free now, and nothing is free afterwards.
    fn write(&mut self) -> (r: Option<PluggedGuard<Self::WriteGuard>>)
        ensures
            r is Some <==> old(self).write_free(),
            r is Some ==> !final(self).write_free() && !final(self).read_free(),
    ;
}

/// Capability widening for suspending backends: a suspending
/// mutual-exclusion backend satisfies the shared/exclusive capability set
/// with reading and writing alike exclusive.
impl<T: AsyncMutex> AsyncRwLock for T {
    type ReadGuard = <T as AsyncMutex>::Guard;

    type WriteGuard = <T as AsyncMutex>::Guard;

    open spec fn read_free(&self) -> bool {
        AsyncMutex::mutex_free(self)
    }

    open spec fn write_free(&self) -> bool {
        AsyncMutex::mutex_free(self)
    }

    fn read(&mut self) -> (r: Option<PluggedGuard<<T as AsyncMutex>::Guard>>) {
        AsyncMutex::lock(self)
    }

    fn write(&mut self) -> (r: Option<PluggedGuard<<T as AsyncMutex>::Guard>>) {
        AsyncMutex::lock(self)
    }
}

impl<T> New<T> for Exclusive<T> {
    open spec fn payload(&self) -> T {
        self.value
    }

    fn new(value: T) -> (r: Self) {
        Exclusive { value, held: false }
    }
}

impl<T> New<T> for SharedExclusive<T> {
    open spec fn payload(&self) -> T {
        self.value
    }

    fn new(value: T) -> (r: Self) {
        SharedExclusive { value, readers: 0, writer: false }
    }
}

impl<T> Mutex for Exclusive<T> {
    type Guard = H1MutexLockGuard<T>;

    open spec fn mutex_free(&self) -> bool {
        !self.held
    }

    fn lock(&mut self) -> (r: Result<ExclusiveGuard, BackendError>) {
        if self.try_acquire() {
            Ok(ExclusiveGuard::grant())
        } else {
            Err(BackendError::Busy)
        }
    }
}

impl<T> RwLock for SharedExclusive<T> {
    type ReadGuard = H1RwLockReadGuard<T>;

    type WriteGuard = H1RwLockWriteGuard<T>;

    open spec fn read_free(&self) -> bool {
        !self.writer && self.readers < usize::MAX
    }

    open spec fn write_free(&self) -> bool {
        !self.writer && self.readers == 0
    }

    fn read(&mut self) -> (r: Result<SharedReadGuard, BackendError>) {
        if self.try_acquire_read() {
            Ok(SharedReadGuard::grant())
        } else {
            Err(BackendError::Busy)
        }
    }

    fn write(&mut self) -> (r: Result<SharedWriteGuard, BackendError>) {
        if self.try_acquire_write() {
            Ok(SharedWriteGuard::grant())
        } else {
            Err(BackendError::Busy)
        }
    }
}

/// The concrete guard a mutual-exclusion backend hands out.
pub type PluggedMutexGuard<T> = PluggedGuard<<T as Mutex>::Guard>;

/// The concrete read guard a shared/exclusive backend hands out.
pub type PluggedRwLockReadGuard<T> = PluggedGuard<<T as RwLock>::ReadGuard>;

/// The concrete write guard a shared/exclusive backend hands out.
pub type PluggedRwLockWriteGuard<T> = PluggedGuard<<T as RwLock>::WriteGuard>;

/// Capability widening: a mutual-exclusion backend satisfies the
/// shared/exclusive capability set by treating reading and writing alike
/// as exclusive, so no readers ever run concurrently.
impl<T: Mutex> RwLock for T {
    type ReadGuard = <T as Mutex>::Guard;

    type WriteGuard = <T as Mutex>::Guard;

    open spec fn read_free(&self) -> bool {
        self.mutex_free()
    }

    open spec fn write_free(&self) -> bool {
        self.mutex_free()
    }

    fn read(&mut self) -> (r: Result<PluggedGuard<<T as Mutex>::Guard>, BackendError>) {
        self.lock()
    }

    fn write(&mut self) -> (r: Result<PluggedGuard<<T as Mutex>::Guard>, BackendError>) {
        self.lock()
    }
}

} // verus!
