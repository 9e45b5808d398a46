//! The backend primitives and the capability traits over them.

use locktree::{AccessMode, BackendError, Exclusive, Mutex, New, RwLock, SharedExclusive};

#[test]
fn an_exclusive_backend_admits_one_holder() {
    let mut m: Exclusive<u32> = New::new(9);
    let first = Mutex::lock(&mut m);
    assert!(first.is_ok());
    let second = Mutex::lock(&mut m);
    assert!(matches!(second, Err(BackendError::Busy)));
    assert!(m.release());
    assert!(Mutex::lock(&mut m).is_ok());
}

#[test]
fn a_shared_backend_admits_readers_until_a_writer() {
    let mut s: SharedExclusive<u32> = New::new(1);
    assert!(RwLock::read(&mut s).is_ok());
    assert!(RwLock::read(&mut s).is_ok());
    assert!(matches!(RwLock::write(&mut s), Err(BackendError::Busy)));
    assert!(s.release_read());
    assert!(s.release_read());
    assert!(RwLock::write(&mut s).is_ok());
    assert!(matches!(RwLock::read(&mut s), Err(BackendError::Busy)));
    assert!(s.release_write());
}

#[test]
fn widening_forbids_concurrent_readers_on_an_exclusive_backend() {
    // an exclusive backend satisfies the shared/exclusive capability set by
    // treating reads as exclusive: the second reader is refused
    let mut m: Exclusive<u32> = New::new(0);
    assert!(RwLock::read(&mut m).is_ok());
    assert!(matches!(RwLock::read(&mut m), Err(BackendError::Busy)));
    assert!(m.release());
    assert!(RwLock::write(&mut m).is_ok());
    assert!(m.release());
}

#[test]
fn backends_hand_back_their_payload() {
    let mut m: Exclusive<String> = New::new(String::from("alpha"));
    assert!(m.try_acquire());
    assert_eq!(m.get(), "alpha");
    assert_eq!(m.replace(String::from("beta")), "alpha");
    assert_eq!(m.get(), "beta");
    assert!(m.release());

    let mut s: SharedExclusive<u8> = New::new(3);
    assert!(s.try_acquire_write());
    assert_eq!(*s.get(), 3);
    assert_eq!(s.replace(4), 3);
    assert!(s.release_write());
    assert!(s.try_acquire_read());
    assert_eq!(*s.get(), 4);
    assert!(s.release_read());
}

#[test]
fn modes_compare_as_plain_values() {
    assert_eq!(AccessMode::Read, AccessMode::Read);
    assert_ne!(AccessMode::Read, AccessMode::Write);
}
