//! The schema compiler, held to its generated code token for token.

use locktree::locktree_impl;

/// The tokens of a piece of Rust-like source text: identifiers and numbers,
/// string literals, lifetimes, and single punctuation characters, with all
/// whitespace dropped. Two texts with equal token sequences denote the same
/// generated code.
fn toks(s: &str) -> Vec<String> {
    let cs: Vec<char> = s.chars().collect();
    let mut out: Vec<String> = Vec::new();
    let mut i = 0;
    while i < cs.len() {
        let c = cs[i];
        if c.is_whitespace() {
            i += 1;
        } else if c.is_alphanumeric() || c == '_' {
            let mut t = String::new();
            while i < cs.len() && (cs[i].is_alphanumeric() || cs[i] == '_') {
                t.push(cs[i]);
                i += 1;
            }
            out.push(t);
        } else if c == '"' {
            let mut t = String::from("\"");
            i += 1;
            while i < cs.len() && cs[i] != '"' {
                t.push(cs[i]);
                i += 1;
            }
            t.push('"');
            i += 1;
            out.push(t);
        } else if c == '\'' && i + 1 < cs.len() && (cs[i + 1].is_alphabetic() || cs[i + 1] == '_') {
            let mut t = String::from("'");
            i += 1;
            while i < cs.len() && (cs[i].is_alphanumeric() || cs[i] == '_') {
                t.push(cs[i]);
                i += 1;
            }
            out.push(t);
        } else {
            out.push(c.to_string());
            i += 1;
        }
    }
    out
}

fn compare_input_output(input: &str, output: &str) {
    assert_eq!(toks(&locktree_impl(input).unwrap()), toks(output));
}

#[test]
fn should_output_nothing_with_empty_input() {
    compare_input_output("", "");
}

#[test]
fn should_output_barebones_with_valid_empty_code() {
    compare_input_output(
        "Main {}",
        "
        struct MainLockTree {
            glsBWeCagvYcGEd: ::std::sync::atomic::AtomicBool
        }

        impl MainLockTree {
            pub fn new() -> Self {
                Self {
                    glsBWeCagvYcGEd: ::std::sync::atomic::AtomicBool::new(false)
                }
            }
        }
        ",
    );
}

#[test]
fn should_handle_a_single_mutex() {
    compare_input_output(
        "
        Main {
            mutex: Mutex<()>
        }
        ",
        "
        struct MainLockTree {
            mutex: ::std::sync::Mutex<()>,
            glsBWeCagvYcGEd: ::std::sync::atomic::AtomicBool
        }

        impl MainLockTree {
            pub fn new(mutex_value: ()) -> Self {
                Self {
                    mutex: ::locktree::New::new(mutex_value),
                    glsBWeCagvYcGEd: ::std::sync::atomic::AtomicBool::new(false)
                }
            }

            pub fn lock_mutex<'a>(
                &'a self
            ) -> (
                ::locktree::PluggedMutexGuard<'a, ::std::sync::Mutex<()>>,
                MainLockTreeMutex<'a>
            ) {
                if self.glsBWeCagvYcGEd.compare_and_swap(false, true, ::std::sync::atomic::Ordering::AcqRel) {
                    panic!(\"potential deadlock detected: MainLockTree was locked twice\");
                }

                (::locktree::Mutex::lock(&self.mutex), MainLockTreeMutex { locks: self })
            }
        }

        struct MainLockTreeMutex<'b> {
            locks: &'b MainLockTree
        }

        impl<'b> MainLockTreeMutex<'b> {}

        impl<'b> Drop for MainLockTreeMutex<'b> {
            fn drop(&mut self) {
                self.locks.glsBWeCagvYcGEd.store(false, ::std::sync::atomic::Ordering::Release)
            }
        }
        ",
    );
}

#[test]
fn should_handle_a_mutex_with_an_explicit_hkt() {
    compare_input_output(
        "
        Main {
            mutex: Mutex(SuperMutex)<()>
        }
        ",
        "
        struct MainLockTree {
            mutex: SuperMutex<()>,
            glsBWeCagvYcGEd: ::std::sync::atomic::AtomicBool
        }

        impl MainLockTree {
            pub fn new(mutex_value: ()) -> Self {
                Self {
                    mutex: ::locktree::New::new(mutex_value),
                    glsBWeCagvYcGEd: ::std::sync::atomic::AtomicBool::new(false)
                }
            }

            pub fn lock_mutex<'a>(
                &'a self
            ) -> (
                ::locktree::PluggedMutexGuard<'a, SuperMutex<()>>,
                MainLockTreeMutex<'a>
            ) {
                if self.glsBWeCagvYcGEd.compare_and_swap(false, true, ::std::sync::atomic::Ordering::AcqRel) {
                    panic!(\"potential deadlock detected: MainLockTree was locked twice\");
                }

                (::locktree::Mutex::lock(&self.mutex), MainLockTreeMutex { locks: self })
            }
        }

        struct MainLockTreeMutex<'b> {
            locks: &'b MainLockTree
        }

        impl<'b> MainLockTreeMutex<'b> {}

        impl<'b> Drop for MainLockTreeMutex<'b> {
            fn drop(&mut self) {
                self.locks.glsBWeCagvYcGEd.store(false, ::std::sync::atomic::Ordering::Release)
            }
        }
        ",
    );
}

#[test]
fn should_handle_an_async_mutex() {
    compare_input_output(
        "
        Main {
            mutex: async Mutex(SuperMutex)<()>
        }
        ",
        "
        struct MainLockTree {
            mutex: SuperMutex<()>,
            glsBWeCagvYcGEd: ::std::sync::atomic::AtomicBool
        }

        impl MainLockTree {
            pub fn new(mutex_value: ()) -> Self {
                Self {
                    mutex: ::locktree::New::new(mutex_value),
                    glsBWeCagvYcGEd: ::std::sync::atomic::AtomicBool::new(false)
                }
            }

            pub fn lock_mutex<'a>(
                &'a self
            ) -> (
                ::locktree::PluggedAsyncMutexGuard<'a, SuperMutex<()>>,
                MainLockTreeMutex<'a>
            ) {
                if self.glsBWeCagvYcGEd.compare_and_swap(false, true, ::std::sync::atomic::Ordering::AcqRel) {
                    panic!(\"potential deadlock detected: MainLockTree was locked twice\");
                }

                (::locktree::AsyncMutex::lock(&self.mutex), MainLockTreeMutex { locks: self })
            }
        }

        struct MainLockTreeMutex<'b> {
            locks: &'b MainLockTree
        }

        impl<'b> MainLockTreeMutex<'b> {}

        impl<'b> Drop for MainLockTreeMutex<'b> {
            fn drop(&mut self) {
                self.locks.glsBWeCagvYcGEd.store(false, ::std::sync::atomic::Ordering::Release)
            }
        }
        ",
    );
}

#[test]
fn should_handle_a_single_rw_lock() {
    compare_input_output(
        "
        Main {
            rw_lock: RwLock<()>
        }
        ",
        "
        struct MainLockTree {
            rw_lock: ::std::sync::RwLock<()>,
            glsBWeCagvYcGEd: ::std::sync::atomic::AtomicBool
        }

        impl MainLockTree {
            pub fn new(rw_lock_value: ()) -> Self {
                Self {
                    rw_lock: ::locktree::New::new(rw_lock_value),
                    glsBWeCagvYcGEd: ::std::sync::atomic::AtomicBool::new(false)
                }
            }

            pub fn read_rw_lock<'a>(
                &'a self
            ) -> (
                ::locktree::PluggedRwLockReadGuard<'a, ::std::sync::RwLock<()>>,
                MainLockTreeRwLock<'a>
            ) {
                if self.glsBWeCagvYcGEd.compare_and_swap(false, true, ::std::sync::atomic::Ordering::AcqRel) {
                    panic!(\"potential deadlock detected: MainLockTree was locked twice\");
                }

                (::locktree::RwLock::read(&self.rw_lock), MainLockTreeRwLock { locks: self })
            }

            pub fn write_rw_lock<'a>(
                &'a self
            ) -> (
                ::locktree::PluggedRwLockWriteGuard<'a, ::std::sync::RwLock<()>>,
                MainLockTreeRwLock<'a>
            ) {
                if self.glsBWeCagvYcGEd.compare_and_swap(false, true, ::std::sync::atomic::Ordering::AcqRel) {
                    panic!(\"potential deadlock detected: MainLockTree was locked twice\");
                }

                (::locktree::RwLock::write(&self.rw_lock), MainLockTreeRwLock { locks: self })
            }
        }

        struct MainLockTreeRwLock<'b> {
            locks: &'b MainLockTree
        }

        impl<'b> MainLockTreeRwLock<'b> {}

        impl<'b> Drop for MainLockTreeRwLock<'b> {
            fn drop(&mut self) {
                self.locks.glsBWeCagvYcGEd.store(false, ::std::sync::atomic::Ordering::Release)
            }
        }
        ",
    );
}

#[test]
fn should_handle_an_rw_lock_with_an_explicit_hkt() {
    compare_input_output(
        "
        Main {
            rw_lock: RwLock(SuperRwLock)<()>
        }
        ",
        "
        struct MainLockTree {
            rw_lock: SuperRwLock<()>,
            glsBWeCagvYcGEd: ::std::sync::atomic::AtomicBool
        }

        impl MainLockTree {
            pub fn new(rw_lock_value: ()) -> Self {
                Self {
                    rw_lock: ::locktree::New::new(rw_lock_value),
                    glsBWeCagvYcGEd: ::std::sync::atomic::AtomicBool::new(false)
                }
            }

            pub fn read_rw_lock<'a>(
                &'a self
            ) -> (
                ::locktree::PluggedRwLockReadGuard<'a, SuperRwLock<()>>,
                MainLockTreeRwLock<'a>
            ) {
                if self.glsBWeCagvYcGEd.compare_and_swap(false, true, ::std::sync::atomic::Ordering::AcqRel) {
                    panic!(\"potential deadlock detected: MainLockTree was locked twice\");
                }

                (::locktree::RwLock::read(&self.rw_lock), MainLockTreeRwLock { locks: self })
            }

            pub fn write_rw_lock<'a>(
                &'a self
            ) -> (
                ::locktree::PluggedRwLockWriteGuard<'a, SuperRwLock<()>>,
                MainLockTreeRwLock<'a>
            ) {
                if self.glsBWeCagvYcGEd.compare_and_swap(false, true, ::std::sync::atomic::Ordering::AcqRel) {
                    panic!(\"potential deadlock detected: MainLockTree was locked twice\");
                }

                (::locktree::RwLock::write(&self.rw_lock), MainLockTreeRwLock { locks: self })
            }
        }

        struct MainLockTreeRwLock<'b> {
            locks: &'b MainLockTree
        }

        impl<'b> MainLockTreeRwLock<'b> {}

        impl<'b> Drop for MainLockTreeRwLock<'b> {
            fn drop(&mut self) {
                self.locks.glsBWeCagvYcGEd.store(false, ::std::sync::atomic::Ordering::Release)
            }
        }
        ",
    );
}

#[test]
fn should_handle_an_async_rw_lock() {
    compare_input_output(
        "
        Main {
            rw_lock: async RwLock(SuperRwLock)<()>
        }
        ",
        "
        struct MainLockTree {
            rw_lock: SuperRwLock<()>,
            glsBWeCagvYcGEd: ::std::sync::atomic::AtomicBool
        }

        impl MainLockTree {
            pub fn new(rw_lock_value: ()) -> Self {
                Self {
                    rw_lock: ::locktree::New::new(rw_lock_value),
                    glsBWeCagvYcGEd: ::std::sync::atomic::AtomicBool::new(false)
                }
            }

            pub fn read_rw_lock<'a>(
                &'a self
            ) -> (
                ::locktree::PluggedAsyncRwLockReadGuard<'a, SuperRwLock<()>>,
                MainLockTreeRwLock<'a>
            ) {
                if self.glsBWeCagvYcGEd.compare_and_swap(false, true, ::std::sync::atomic::Ordering::AcqRel) {
                    panic!(\"potential deadlock detected: MainLockTree was locked twice\");
                }

                (::locktree::AsyncRwLock::read(&self.rw_lock), MainLockTreeRwLock { locks: self })
            }

            pub fn write_rw_lock<'a>(
                &'a self
            ) -> (
                ::locktree::PluggedAsyncRwLockWriteGuard<'a, SuperRwLock<()>>,
                MainLockTreeRwLock<'a>
            ) {
                if self.glsBWeCagvYcGEd.compare_and_swap(false, true, ::std::sync::atomic::Ordering::AcqRel) {
                    panic!(\"potential deadlock detected: MainLockTree was locked twice\");
                }

                (::locktree::AsyncRwLock::write(&self.rw_lock), MainLockTreeRwLock { locks: self })
            }
        }

        struct MainLockTreeRwLock<'b> {
            locks: &'b MainLockTree
        }

        impl<'b> MainLockTreeRwLock<'b> {}

        impl<'b> Drop for MainLockTreeRwLock<'b> {
            fn drop(&mut self) {
                self.locks.glsBWeCagvYcGEd.store(false, ::std::sync::atomic::Ordering::Release)
            }
        }
        ",
    );
}

#[test]
fn should_handle_two_locks() {
    compare_input_output(
        "
        Main {
            mutex0: Mutex<()>,
            mutex1: Mutex<()>,
        }
        ",
        "
        struct MainLockTree {
            mutex0: ::std::sync::Mutex<()>,
            mutex1: ::std::sync::Mutex<()>,
            glsBWeCagvYcGEd: ::std::sync::atomic::AtomicBool
        }

        impl MainLockTree {
            pub fn new(mutex0_value: (), mutex1_value: ()) -> Self {
                Self {
                    mutex0: ::locktree::New::new(mutex0_value),
                    mutex1: ::locktree::New::new(mutex1_value),
                    glsBWeCagvYcGEd: ::std::sync::atomic::AtomicBool::new(false)
                }
            }

            pub fn lock_mutex0<'a>(
                &'a self
            ) -> (
                ::locktree::PluggedMutexGuard<'a, ::std::sync::Mutex<()>>,
                MainLockTreeMutex0<'a>
            ) {
                if self.glsBWeCagvYcGEd.compare_and_swap(false, true, ::std::sync::atomic::Ordering::AcqRel) {
                    panic!(\"potential deadlock detected: MainLockTree was locked twice\");
                }

                (::locktree::Mutex::lock(&self.mutex0), MainLockTreeMutex0 { locks: self })
            }

            pub fn lock_mutex1<'a>(
                &'a self
            ) -> (
                ::locktree::PluggedMutexGuard<'a, ::std::sync::Mutex<()>>,
                MainLockTreeMutex1<'a>
            ) {
                if self.glsBWeCagvYcGEd.compare_and_swap(false, true, ::std::sync::atomic::Ordering::AcqRel) {
                    panic!(\"potential deadlock detected: MainLockTree was locked twice\");
                }

                (::locktree::Mutex::lock(&self.mutex1), MainLockTreeMutex1 { locks: self })
            }
        }

        struct MainLockTreeMutex0<'b> {
            locks: &'b MainLockTree
        }

        impl<'b> MainLockTreeMutex0<'b> {
            pub fn lock_mutex1<'a>(
                &'a mut self
            ) -> (
                ::locktree::PluggedMutexGuard<'a, ::std::sync::Mutex<()>>,
                MainLockTreeMutex1<'a>
            ) {
                (::locktree::Mutex::lock(&self.locks.mutex1), MainLockTreeMutex1 { locks: self.locks })
            }
        }

        impl<'b> Drop for MainLockTreeMutex0<'b> {
            fn drop(&mut self) {
                self.locks.glsBWeCagvYcGEd.store(false, ::std::sync::atomic::Ordering::Release)
            }
        }

        struct MainLockTreeMutex1<'b> {
            locks: &'b MainLockTree
        }

        impl<'b> MainLockTreeMutex1<'b> {}
        ",
    );
}

#[test]
fn rejects_unclosed_tree() {
    assert!(locktree_impl("Main {").is_err());
}

#[test]
fn rejects_unknown_interface() {
    assert!(locktree_impl("Main { m: Semaphore<()> }").is_err());
}

#[test]
fn rejects_async_without_explicit_backend() {
    assert!(locktree_impl("Main { m: async Mutex<()> }").is_err());
}

#[test]
fn rejects_missing_payload_type() {
    assert!(locktree_impl("Main { m: Mutex }").is_err());
}

#[test]
fn handles_two_trees_in_declaration_order() {
    let code = locktree_impl("A { x: Mutex<()> } B { y: RwLock<()> }").unwrap();
    let a = code.find("struct ALockTree").unwrap();
    let b = code.find("struct BLockTree").unwrap();
    assert!(a < b);
    assert!(code.contains("pub fn lock_x"));
    assert!(code.contains("pub fn read_y"));
    assert!(code.contains("pub fn write_y"));
}

#[test]
fn a_repeated_tree_name_keeps_the_later_sequence() {
    let code = locktree_impl("A { x: Mutex<()> } A { y: Mutex<()> }").unwrap();
    assert!(code.contains("pub fn lock_y"));
    assert!(!code.contains("pub fn lock_x"));
}

#[test]
fn nested_payload_types_are_kept_whole() {
    let code = locktree_impl("Main { m: Mutex<Vec<Box<u8>>> }").unwrap();
    assert!(code.contains("::std::sync::Mutex<Vec<Box<u8>>>"));
    assert!(code.contains("mutex_value: Vec<Box<u8>>") || code.contains("m_value: Vec<Box<u8>>"));
}

#[test]
fn backend_paths_are_rendered_with_their_separators() {
    let code = locktree_impl("Main { m: Mutex(crate_a::locks::Super)<u8> }").unwrap();
    assert!(code.contains("crate_a::locks::Super<u8>"));
}

#[test]
fn snake_to_camel_case_uppercases_each_word() {
    assert_eq!(locktree::snake_to_camel_case("rw_lock"), "RwLock");
    assert_eq!(locktree::snake_to_camel_case("a_long_field_name"), "ALongFieldName");
    assert_eq!(locktree::snake_to_camel_case("mutex0"), "Mutex0");
    assert_eq!(locktree::snake_to_camel_case(""), "");
}
