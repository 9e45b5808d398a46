//! Deadlock-freedom through a verified lock-acquisition ordering.
//!
//! A *tree* declares, once, a total order over a fixed set of named locks
//! (*slots*). A [`tree::TreeInstance`] owns one lock primitive per slot and
//! exposes an entry point from which an acquisition chain moves strictly
//! forward through the declared order; a per-instance reentrancy guard keeps
//! two chains from running against the same instance at once. The textual
//! schema that declares a tree is compiled by [`codegen::locktree_impl`],
//! which is kept strictly separate from the runtime protocol engine.

pub mod backend;
pub mod codegen;
pub mod laws;
pub mod parse;
pub mod plug;
pub mod schema;
pub mod text;
pub mod tree;

pub use backend::{
    AccessMode, AsyncMutex, AsyncRwLock, BackendError, Exclusive, Mutex, New, PluggedMutexGuard, PluggedRwLockReadGuard,
    PluggedRwLockWriteGuard, RwLock, SharedExclusive,
};
pub use codegen::{locktree_impl, snake_to_camel_case};
pub use parse::{Scanner, SchemaError};
pub use plug::{
    ExclusiveGuard, H1MutexLockGuard, H1RwLockReadGuard, H1RwLockWriteGuard,
    H1TokioMutexLockGuard, H1TokioRwLockReadGuard, H1TokioRwLockWriteGuard, PlugLifetime,
    PluggedGuard, SharedReadGuard, SharedWriteGuard,
};
pub use schema::{Fragment, Lock, LockInterface, LockSequence, LockTree, LockType};
pub use tree::{
    Cursor, LockKind, ReentrancyGuard, SlotDescriptor, SlotGuard, SlotPrimitive, SlotState,
    Synchronicity, TreeDescriptor, TreeError, TreeInstance,
};
