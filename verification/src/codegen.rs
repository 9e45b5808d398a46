//! The code generator: from a parsed schema to the Rust source text of the
//! generated tree types.
//!
//! For every declared tree the generator emits the tree struct (one field
//! per lock plus the reentrancy flag), its constructor, one entry-point
//! accessor per lock (two for a shared/exclusive lock), and one forward
//! struct per lock whose accessors reach only strictly later locks. The
//! `spec_*` functions state the emitted text exactly; each executable
//! function returns a string equal to its specification.

use vstd::prelude::*;

use crate::parse::{spec_parse_schema, Scanner, SchemaError};
use crate::schema::{Fragment, FragmentModel, Lock, LockInterface, LockModel, LockTree, LockType};
use crate::text::{exec_to_upper, push_char, spec_to_upper};

verus! {

/// First position at or after `pos` that holds `_`, or the end.
pub open spec fn spec_word_end(s: Seq<char>, pos: int) -> int
    decreases s.len() - pos,
{
    if 0 <= pos < s.len() && s[pos] != '_' {
        spec_word_end(s, pos + 1)
    } else {
        pos
    }
}

/// Camel-case rendering of the `_`-separated words starting at `pos`: each
/// word's first character is uppercased and the separators are dropped.
pub open spec fn spec_camel_from(s: Seq<char>, pos: int) -> Seq<char>
    decreases s.len() - pos,
{
    if pos < 0 || pos >= s.len() {
        Seq::empty()
    } else {
        let e = spec_word_end(s, pos);
        let w: Seq<char> = if e > pos {
            seq![spec_to_upper(s[pos])] + s.subrange(pos + 1, e)
        } else {
            Seq::empty()
        };
        if e < s.len() && pos < e + 1 <= s.len() {
            w + spec_camel_from(s, e + 1)
        } else {
            w
        }
    }
}

/// `snake_case` rendered as `CamelCase`.
pub open spec fn spec_camel(s: Seq<char>) -> Seq<char> {
    spec_camel_from(s, 0)
}

/// A snake_case name turned into CamelCase: the first character of every
/// `_`-separated word is uppercased, the underscores are dropped.
pub fn snake_to_camel_case(x: &str) -> (r: String)
    ensures
        r@ == spec_camel(x@),
{
    let chars = crate::text::chars_of(x);
    let n = chars.len();
    let mut camel = String::new();
    let mut pos: usize = 0;
    proof {
        assert(camel@ + spec_camel_from(x@, 0) =~= spec_camel_from(x@, 0));
    }
    while pos < n
        invariant
            pos <= n,
            n == chars@.len(),
            chars@ == x@,
            n <= usize::MAX,
            spec_camel(x@) == camel@ + spec_camel_from(x@, pos as int),
        decreases n - pos,
    {
        let ghost camel0 = camel@;
        let ghost pos0 = pos as int;
        if chars[pos] == '_' {
            // an empty word adds nothing
            pos += 1;
            proof {
                assert(spec_word_end(x@, pos0) == pos0);
                assert(camel@ + (Seq::<char>::empty() + spec_camel_from(x@, pos0 + 1)) =~= camel@
                    + spec_camel_from(x@, pos0 + 1));
            }
        } else {
            push_char(&mut camel, exec_to_upper(chars[pos]));
            pos += 1;
            proof {
                assert(camel@ =~= camel0 + seq![spec_to_upper(x@[pos0])] + x@.subrange(
                    pos0 + 1,
                    pos as int,
                ));
            }
            while pos < n && chars[pos] != '_'
                invariant
                    0 <= pos0 < pos <= n,
                    n == chars@.len(),
                    chars@ == x@,
                    n <= usize::MAX,
                    camel@ == camel0 + seq![spec_to_upper(x@[pos0])] + x@.subrange(
                        pos0 + 1,
                        pos as int,
                    ),
                    spec_word_end(x@, pos as int) == spec_word_end(x@, pos0),
                decreases n - pos,
            {
                push_char(&mut camel, chars[pos]);
                pos += 1;
                proof {
                    assert(camel@ =~= camel0 + seq![spec_to_upper(x@[pos0])] + x@.subrange(
                        pos0 + 1,
                        pos as int,
                    ));
                }
            }
            proof {
                assert(spec_word_end(x@, pos0) == pos as int);
                let w = seq![spec_to_upper(x@[pos0])] + x@.subrange(pos0 + 1, pos as int);
                assert(camel@ =~= camel0 + w);
                if (pos as int) < n {
                    assert((camel0 + w) + spec_camel_from(x@, pos as int + 1) =~= camel0 + (w
                        + spec_camel_from(x@, pos as int + 1)));
                } else {
                    assert((camel0 + w) + Seq::<char>::empty() =~= camel0 + w);
                    assert(camel0 + w =~= camel0 + (w + Seq::<char>::empty()));
                }
            }
            if pos < n {
                // skip the separator that ended the word
                pos += 1;
            }
        }
    }
    proof {
        assert(camel@ + Seq::<char>::empty() =~= camel@);
    }
    camel
}

/// The generated name of a tree's main struct.
pub open spec fn spec_struct_prefix(tree_name: Seq<char>) -> Seq<char> {
    tree_name + "LockTree"@
}

/// The generated name of the forward struct positioned after a lock.
pub open spec fn spec_forward_name(struct_prefix: Seq<char>, lock_name: Seq<char>) -> Seq<char> {
    struct_prefix + spec_camel(lock_name)
}

/// The reentrancy test emitted at the head of every entry-point accessor:
/// test-and-set the flag, and abort naming the tree when it was already set.
pub open spec fn spec_guard_check(struct_prefix: Seq<char>) -> Seq<char> {
    "if self.glsBWeCagvYcGEd.compare_and_swap(false, true, ::std::sync::atomic::Ordering::AcqRel) { panic!(\"potential deadlock detected: "@
        + struct_prefix + " was locked twice\"); } "@
}

/// The receiver of an accessor: entry-point accessors share the tree struct,
/// forward accessors consume their cursor exclusively.
pub open spec fn spec_receiver(is_entry_point: bool) -> Seq<char> {
    if is_entry_point {
        "&'a self"@
    } else {
        "&'a mut self"@
    }
}

/// How an accessor reaches the lock fields.
pub open spec fn spec_accessor_base(is_entry_point: bool) -> Seq<char> {
    if is_entry_point {
        "self"@
    } else {
        "self.locks"@
    }
}

/// The `Async` marker spliced into guard and trait names of suspending
/// locks.
pub open spec fn spec_async_mark(is_async: bool) -> Seq<char> {
    if is_async {
        "Async"@
    } else {
        ""@
    }
}

/// One generated accessor: its name prefix, guard type and locking call
/// vary with the lock's interface; receiver, reentrancy test and field
/// access vary with its place.
pub open spec fn spec_one_accessor(
    fn_kw: Seq<char>,
    guard_kw: Seq<char>,
    call_kw: Seq<char>,
    is_async: bool,
    name: Seq<char>,
    forward: Seq<char>,
    struct_prefix: Seq<char>,
    is_entry_point: bool,
    declaration: Seq<char>,
) -> Seq<char> {
    fn_kw + name + "<'a>("@ + spec_receiver(is_entry_point) + ") -> (::locktree::Plugged"@
        + spec_async_mark(is_async) + guard_kw + declaration + ">, "@ + forward + "<'a>) { "@ + (
    if is_entry_point {
        spec_guard_check(struct_prefix)
    } else {
        ""@
    }) + "(::locktree::"@ + spec_async_mark(is_async) + call_kw + spec_accessor_base(
        is_entry_point,
    ) + "."@ + name + "), "@ + forward + " { locks: "@ + spec_accessor_base(is_entry_point)
        + " }) } "@
}

/// The lock accessor emitted for a mutual-exclusion lock.
pub open spec fn spec_mutex_accessors(
    is_async: bool,
    name: Seq<char>,
    forward: Seq<char>,
    struct_prefix: Seq<char>,
    is_entry_point: bool,
    declaration: Seq<char>,
) -> Seq<char> {
    spec_one_accessor(
        "pub fn lock_"@,
        "MutexGuard<'a, "@,
        "Mutex::lock(&"@,
        is_async,
        name,
        forward,
        struct_prefix,
        is_entry_point,
        declaration,
    )
}

/// The read and write accessors emitted for a shared/exclusive lock.
pub open spec fn spec_rw_accessors(
    is_async: bool,
    name: Seq<char>,
    forward: Seq<char>,
    struct_prefix: Seq<char>,
    is_entry_point: bool,
    declaration: Seq<char>,
) -> Seq<char> {
    spec_one_accessor(
        "pub fn read_"@,
        "RwLockReadGuard<'a, "@,
        "RwLock::read(&"@,
        is_async,
        name,
        forward,
        struct_prefix,
        is_entry_point,
        declaration,
    ) + spec_one_accessor(
        "pub fn write_"@,
        "RwLockWriteGuard<'a, "@,
        "RwLock::write(&"@,
        is_async,
        name,
        forward,
        struct_prefix,
        is_entry_point,
        declaration,
    )
}

/// The accessors a lock contributes, by its interface.
pub open spec fn spec_accessors(
    interface: LockInterface,
    is_async: bool,
    name: Seq<char>,
    forward: Seq<char>,
    struct_prefix: Seq<char>,
    is_entry_point: bool,
    declaration: Seq<char>,
) -> Seq<char> {
    match interface {
        LockInterface::Mutex => spec_mutex_accessors(
            is_async,
            name,
            forward,
            struct_prefix,
            is_entry_point,
            declaration,
        ),
        LockInterface::RwLock => spec_rw_accessors(
            is_async,
            name,
            forward,
            struct_prefix,
            is_entry_point,
            declaration,
        ),
    }
}

/// The reentrancy test at the head of an entry-point accessor.
fn guard_check(struct_prefix: &str) -> (r: String)
    ensures
        r@ == spec_guard_check(struct_prefix@),
{
    let mut out = String::from_str(
        "if self.glsBWeCagvYcGEd.compare_and_swap(false, true, ::std::sync::atomic::Ordering::AcqRel) { panic!(\"potential deadlock detected: ",
    );
    out.append(struct_prefix);
    out.append(" was locked twice\"); } ");
    out
}

/// One generated accessor; see [`spec_one_accessor`].
fn emit_accessor(
    fn_kw: &str,
    guard_kw: &str,
    call_kw: &str,
    is_async: bool,
    name: &str,
    forward: &str,
    struct_prefix: &str,
    is_entry_point: bool,
    declaration: &str,
) -> (r: String)
    ensures
        r@ == spec_one_accessor(
            fn_kw@,
            guard_kw@,
            call_kw@,
            is_async,
            name@,
            forward@,
            struct_prefix@,
            is_entry_point,
            declaration@,
        ),
{
    let mut out = String::from_str(fn_kw);
    out.append(name);
    out.append("<'a>(");
    if is_entry_point {
        out.append("&'a self");
    } else {
        out.append("&'a mut self");
    }
    out.append(") -> (::locktree::Plugged");
    if is_async {
        out.append("Async");
    } else {
        out.append("");
    }
    out.append(guard_kw);
    out.append(declaration);
    out.append(">, ");
    out.append(forward);
    out.append("<'a>) { ");
    if is_entry_point {
        let check = guard_check(struct_prefix);
        out.append(check.as_str());
    } else {
        out.append("");
    }
    out.append("(::locktree::");
    if is_async {
        out.append("Async");
    } else {
        out.append("");
    }
    out.append(call_kw);
    if is_entry_point {
        out.append("self");
    } else {
        out.append("self.locks");
    }
    out.append(".");
    out.append(name);
    out.append("), ");
    out.append(forward);
    out.append(" { locks: ");
    if is_entry_point {
        out.append("self");
    } else {
        out.append("self.locks");
    }
    out.append(" }) } ");
    proof {
        assert(out@ =~= spec_one_accessor(
            fn_kw@,
            guard_kw@,
            call_kw@,
            is_async,
            name@,
            forward@,
            struct_prefix@,
            is_entry_point,
            declaration@,
        ));
    }
    out
}

impl LockInterface {
    /// The accessor functions a lock of this interface contributes: one
    /// locking accessor for a mutual-exclusion lock, a read and a write
    /// accessor for a shared/exclusive lock.
    pub fn accessor_functions(
        &self,
        is_async: bool,
        name: &str,
        forward: &str,
        struct_prefix: &str,
        is_entry_point: bool,
        declaration: &str,
    ) -> (r: String)
        ensures
            r@ == spec_accessors(
                *self,
                is_async,
                name@,
                forward@,
                struct_prefix@,
                is_entry_point,
                declaration@,
            ),
    {
        match self {
            LockInterface::Mutex => emit_accessor(
                "pub fn lock_",
                "MutexGuard<'a, ",
                "Mutex::lock(&",
                is_async,
                name,
                forward,
                struct_prefix,
                is_entry_point,
                declaration,
            ),
            LockInterface::RwLock => {
                let mut out = emit_accessor(
                    "pub fn read_",
                    "RwLockReadGuard<'a, ",
                    "RwLock::read(&",
                    is_async,
                    name,
                    forward,
                    struct_prefix,
                    is_entry_point,
                    declaration,
                );
                let write_accessor = emit_accessor(
                    "pub fn write_",
                    "RwLockWriteGuard<'a, ",
                    "RwLock::write(&",
                    is_async,
                    name,
                    forward,
                    struct_prefix,
                    is_entry_point,
                    declaration,
                );
                out.append(write_accessor.as_str());
                out
            },
        }
    }
}

impl LockType {
    /// The accessor functions a lock of this type contributes.
    pub fn accessor_functions(
        &self,
        name: &str,
        forward: &str,
        struct_prefix: &str,
        is_entry_point: bool,
    ) -> (r: String)
        ensures
            r@ == spec_accessors(
                self@.interface,
                self@.is_async,
                name@,
                forward@,
                struct_prefix@,
                is_entry_point,
                self@.declaration,
            ),
    {
        self.interface.accessor_functions(
            self.is_async,
            name,
            forward,
            struct_prefix,
            is_entry_point,
            self.declaration.as_str(),
        )
    }

    /// The rendered concrete type of this lock.
    pub fn declaration(&self) -> (r: &String)
        ensures
            r@ == self@.declaration,
    {
        &self.declaration
    }

    /// The payload type arguments of this lock.
    pub fn generics(&self) -> (r: &String)
        ensures
            r@ == self@.generics,
    {
        &self.generics
    }
}

impl Lock {
    /// The generated name of the forward struct positioned after this lock.
    pub fn forward(&self, struct_prefix: &str) -> (r: String)
        ensures
            r@ == spec_forward_name(struct_prefix@, self.name@),
    {
        let mut out = String::from_str(struct_prefix);
        let camel = snake_to_camel_case(self.name.as_str());
        out.append(camel.as_str());
        out
    }

    /// The text pieces this lock contributes to its tree's generated code.
    pub fn fragment(&self, struct_prefix: &str) -> (r: Fragment)
        ensures
            r@ == spec_fragment(struct_prefix@, self@),
    {
        proof {
            reveal(spec_fragment);
        }
        let forward = self.forward(struct_prefix);
        let main_accessors = self.ty.accessor_functions(
            self.name.as_str(),
            forward.as_str(),
            struct_prefix,
            true,
        );
        let forward_accessors = self.ty.accessor_functions(
            self.name.as_str(),
            forward.as_str(),
            struct_prefix,
            false,
        );
        let mut lock_declaration = String::from_str(self.name.as_str());
        lock_declaration.append(": ");
        lock_declaration.append(self.ty.declaration.as_str());
        lock_declaration.append(", ");
        let mut init_arg = String::from_str(self.name.as_str());
        init_arg.append("_value: ");
        init_arg.append(self.ty.generics.as_str());
        let mut init_statement = String::from_str(self.name.as_str());
        init_statement.append(": ::locktree::New::new(");
        init_statement.append(self.name.as_str());
        init_statement.append("_value), ");
        Fragment {
            main_accessors,
            forward_accessors,
            forward,
            lock_declaration,
            init_arg,
            init_statement,
        }
    }
}

/// The text pieces one lock contributes to its tree's generated code.
#[verifier::opaque]
pub open spec fn spec_fragment(struct_prefix: Seq<char>, lk: LockModel) -> FragmentModel {
    let forward = spec_forward_name(struct_prefix, lk.name);
    FragmentModel {
        main_accessors: spec_accessors(
            lk.ty.interface,
            lk.ty.is_async,
            lk.name,
            forward,
            struct_prefix,
            true,
            lk.ty.declaration,
        ),
        forward_accessors: spec_accessors(
            lk.ty.interface,
            lk.ty.is_async,
            lk.name,
            forward,
            struct_prefix,
            false,
            lk.ty.declaration,
        ),
        forward,
        lock_declaration: lk.name + ": "@ + lk.ty.declaration + ", "@,
        init_arg: lk.name + "_value: "@ + lk.ty.generics,
        init_statement: lk.name + ": ::locktree::New::new("@ + lk.name + "_value), "@,
    }
}

/// The field declarations of the locks at `from` and later.
pub open spec fn spec_decls(prefix: Seq<char>, locks: Seq<LockModel>, from: int) -> Seq<char>
    decreases locks.len() - from,
{
    if from >= locks.len() {
        Seq::empty()
    } else {
        spec_fragment(prefix, locks[from]).lock_declaration + spec_decls(prefix, locks, from + 1)
    }
}

/// The constructor arguments of the locks at `from` and later, each behind
/// a separating comma.
pub open spec fn spec_args_rest(prefix: Seq<char>, locks: Seq<LockModel>, from: int) -> Seq<char>
    decreases locks.len() - from,
{
    if from >= locks.len() {
        Seq::empty()
    } else {
        ", "@ + spec_fragment(prefix, locks[from]).init_arg + spec_args_rest(prefix, locks, from + 1)
    }
}

/// The comma-separated constructor arguments of all locks.
pub open spec fn spec_args(prefix: Seq<char>, locks: Seq<LockModel>) -> Seq<char> {
    if locks.len() == 0 {
        Seq::empty()
    } else {
        spec_fragment(prefix, locks[0]).init_arg + spec_args_rest(prefix, locks, 1)
    }
}

/// The constructor field initialisers of the locks at `from` and later.
pub open spec fn spec_stmts(prefix: Seq<char>, locks: Seq<LockModel>, from: int) -> Seq<char>
    decreases locks.len() - from,
{
    if from >= locks.len() {
        Seq::empty()
    } else {
        spec_fragment(prefix, locks[from]).init_statement + spec_stmts(prefix, locks, from + 1)
    }
}

/// The entry-point accessors of the locks at `from` and later.
pub open spec fn spec_entry_accessors(prefix: Seq<char>, locks: Seq<LockModel>, from: int) -> Seq<
    char,
>
    decreases locks.len() - from,
{
    if from >= locks.len() {
        Seq::empty()
    } else {
        spec_fragment(prefix, locks[from]).main_accessors + spec_entry_accessors(
            prefix,
            locks,
            from + 1,
        )
    }
}

/// The forward accessors of the locks at `from` and later.
pub open spec fn spec_forward_accessors(prefix: Seq<char>, locks: Seq<LockModel>, from: int) -> Seq<
    char,
>
    decreases locks.len() - from,
{
    if from >= locks.len() {
        Seq::empty()
    } else {
        spec_fragment(prefix, locks[from]).forward_accessors + spec_forward_accessors(
            prefix,
            locks,
            from + 1,
        )
    }
}

/// The release hook of the chain type handed out by the entry point's first
/// accessor: dropping it clears the reentrancy flag.
pub open spec fn spec_drop_impl(forward: Seq<char>) -> Seq<char> {
    "impl<'b> Drop for "@ + forward
        + "<'b> { fn drop(&mut self) { self.locks.glsBWeCagvYcGEd.store(false, ::std::sync::atomic::Ordering::Release) } } "@
}

/// The forward struct positioned after lock `i`, with accessors for the
/// strictly later locks only.
pub open spec fn spec_forward_block(prefix: Seq<char>, locks: Seq<LockModel>, i: int) -> Seq<char> {
    let forward = spec_fragment(prefix, locks[i]).forward;
    "struct "@ + forward + "<'b> { locks: &'b "@ + prefix + " } impl<'b> "@ + forward + "<'b> { "@
        + spec_forward_accessors(prefix, locks, i + 1) + "} "@ + (if i == 0 {
        spec_drop_impl(forward)
    } else {
        ""@
    })
}

/// The forward structs of the locks at `i` and later.
pub open spec fn spec_forward_blocks(prefix: Seq<char>, locks: Seq<LockModel>, i: int) -> Seq<char>
    decreases locks.len() - i,
{
    if i >= locks.len() {
        Seq::empty()
    } else {
        spec_forward_block(prefix, locks, i) + spec_forward_blocks(prefix, locks, i + 1)
    }
}

/// The whole generated code of one declared tree.
#[verifier::opaque]
pub open spec fn spec_tree_code(name: Seq<char>, locks: Seq<LockModel>) -> Seq<char> {
    let prefix = spec_struct_prefix(name);
    "struct "@ + prefix + " { "@ + spec_decls(prefix, locks, 0)
        + "glsBWeCagvYcGEd: ::std::sync::atomic::AtomicBool } "@ + "impl "@ + prefix
        + " { pub fn new("@ + spec_args(prefix, locks) + ") -> Self { Self { "@ + spec_stmts(
        prefix,
        locks,
        0,
    ) + "glsBWeCagvYcGEd: ::std::sync::atomic::AtomicBool::new(false) } } "@ + spec_entry_accessors(
        prefix,
        locks,
        0,
    ) + "} "@ + spec_forward_blocks(prefix, locks, 0)
}

/// The generated code of the trees at `from` and later.
pub open spec fn spec_trees_code(trees: Seq<(Seq<char>, Seq<LockModel>)>, from: int) -> Seq<char>
    decreases trees.len() - from,
{
    if from >= trees.len() {
        Seq::empty()
    } else {
        spec_tree_code(trees[from].0, trees[from].1) + spec_trees_code(trees, from + 1)
    }
}

/// The whole generated code of a schema.
pub open spec fn spec_schema_code(trees: Seq<(Seq<char>, Seq<LockModel>)>) -> Seq<char> {
    spec_trees_code(trees, 0)
}

/// Whether each fragment is the one its lock contributes.
pub open spec fn fragments_match(
    fragments: Seq<Fragment>,
    prefix: Seq<char>,
    locks: Seq<LockModel>,
) -> bool {
    fragments.len() == locks.len() && (forall|j: int|
        0 <= j < locks.len() ==> fragments[j]@ == spec_fragment(prefix, locks[j]))
}

/// Append the lock field declarations.
fn append_decls(
    out: &mut String,
    fragments: &Vec<Fragment>,
    Ghost(prefix): Ghost<Seq<char>>,
    Ghost(locks): Ghost<Seq<LockModel>>,
)
    requires
        fragments_match(fragments@, prefix, locks),
    ensures
        final(out)@ == old(out)@ + spec_decls(prefix, locks, 0),
{
    let ghost base = out@;
    let n = fragments.len();
    let mut i: usize = 0;
    while i < n
        invariant
            i <= n,
            n == fragments@.len(),
            fragments_match(fragments@, prefix, locks),
            base + spec_decls(prefix, locks, 0) == out@ + spec_decls(prefix, locks, i as int),
        decreases n - i,
    {
        let ghost out0 = out@;
        out.append(fragments[i].lock_declaration.as_str());
        i += 1;
        proof {
            let rest = spec_decls(prefix, locks, i as int);
            assert(out@ + rest =~= out0 + (spec_fragment(prefix, locks[i - 1]).lock_declaration
                + rest));
        }
    }
    proof {
        assert(out@ + Seq::<char>::empty() =~= out@);
    }
}

/// Append the comma-separated constructor arguments.
fn append_args(
    out: &mut String,
    fragments: &Vec<Fragment>,
    Ghost(prefix): Ghost<Seq<char>>,
    Ghost(locks): Ghost<Seq<LockModel>>,
)
    requires
        fragments_match(fragments@, prefix, locks),
    ensures
        final(out)@ == old(out)@ + spec_args(prefix, locks),
{
    let ghost base = out@;
    let n = fragments.len();
    if n == 0 {
        proof {
            assert(out@ + Seq::<char>::empty() =~= out@);
        }
        return ;
    }
    out.append(fragments[0].init_arg.as_str());
    let mut i: usize = 1;
    while i < n
        invariant
            1 <= i <= n,
            n == fragments@.len(),
            fragments_match(fragments@, prefix, locks),
            base + (spec_fragment(prefix, locks[0]).init_arg + spec_args_rest(prefix, locks, 1))
                == out@ + spec_args_rest(prefix, locks, i as int),
        decreases n - i,
    {
        let ghost out0 = out@;
        out.append(", ");
        out.append(fragments[i].init_arg.as_str());
        i += 1;
        proof {
            let rest = spec_args_rest(prefix, locks, i as int);
            assert(out@ + rest =~= out0 + (", "@ + spec_fragment(prefix, locks[i - 1]).init_arg
                + rest));
        }
    }
    proof {
        assert(out@ + Seq::<char>::empty() =~= out@);
    }
}

/// Append the constructor field initialisers.
fn append_stmts(
    out: &mut String,
    fragments: &Vec<Fragment>,
    Ghost(prefix): Ghost<Seq<char>>,
    Ghost(locks): Ghost<Seq<LockModel>>,
)
    requires
        fragments_match(fragments@, prefix, locks),
    ensures
        final(out)@ == old(out)@ + spec_stmts(prefix, locks, 0),
{
    let ghost base = out@;
    let n = fragments.len();
    let mut i: usize = 0;
    while i < n
        invariant
            i <= n,
            n == fragments@.len(),
            fragments_match(fragments@, prefix, locks),
            base + spec_stmts(prefix, locks, 0) == out@ + spec_stmts(prefix, locks, i as int),
        decreases n - i,
    {
        let ghost out0 = out@;
        out.append(fragments[i].init_statement.as_str());
        i += 1;
        proof {
            let rest = spec_stmts(prefix, locks, i as int);
            assert(out@ + rest =~= out0 + (spec_fragment(prefix, locks[i - 1]).init_statement
                + rest));
        }
    }
    proof {
        assert(out@ + Seq::<char>::empty() =~= out@);
    }
}

/// Append the entry-point accessors of every lock.
fn append_entry_accessors(
    out: &mut String,
    fragments: &Vec<Fragment>,
    Ghost(prefix): Ghost<Seq<char>>,
    Ghost(locks): Ghost<Seq<LockModel>>,
)
    requires
        fragments_match(fragments@, prefix, locks),
    ensures
        final(out)@ == old(out)@ + spec_entry_accessors(prefix, locks, 0),
{
    let ghost base = out@;
    let n = fragments.len();
    let mut i: usize = 0;
    while i < n
        invariant
            i <= n,
            n == fragments@.len(),
            fragments_match(fragments@, prefix, locks),
            base + spec_entry_accessors(prefix, locks, 0) == out@ + spec_entry_accessors(
                prefix,
                locks,
                i as int,
            ),
        decreases n - i,
    {
        let ghost out0 = out@;
        out.append(fragments[i].main_accessors.as_str());
        i += 1;
        proof {
            let rest = spec_entry_accessors(prefix, locks, i as int);
            assert(out@ + rest =~= out0 + (spec_fragment(prefix, locks[i - 1]).main_accessors
                + rest));
        }
    }
    proof {
        assert(out@ + Seq::<char>::empty() =~= out@);
    }
}

/// Append the forward accessors of the locks at `from` and later.
fn append_forward_accessors(
    out: &mut String,
    fragments: &Vec<Fragment>,
    from: usize,
    Ghost(prefix): Ghost<Seq<char>>,
    Ghost(locks): Ghost<Seq<LockModel>>,
)
    requires
        fragments_match(fragments@, prefix, locks),
        from <= fragments@.len(),
    ensures
        final(out)@ == old(out)@ + spec_forward_accessors(prefix, locks, from as int),
{
    let ghost base = out@;
    let n = fragments.len();
    let mut i: usize = from;
    while i < n
        invariant
            from <= i <= n,
            n == fragments@.len(),
            fragments_match(fragments@, prefix, locks),
            base + spec_forward_accessors(prefix, locks, from as int) == out@
                + spec_forward_accessors(prefix, locks, i as int),
        decreases n - i,
    {
        let ghost out0 = out@;
        out.append(fragments[i].forward_accessors.as_str());
        i += 1;
        proof {
            let rest = spec_forward_accessors(prefix, locks, i as int);
            assert(out@ + rest =~= out0 + (spec_fragment(prefix, locks[i - 1]).forward_accessors
                + rest));
        }
    }
    proof {
        assert(out@ + Seq::<char>::empty() =~= out@);
    }
}

/// The whole generated code of one declared tree.
#[verifier::rlimit(100)]
fn tree_code(name: &str, locks: &Vec<Lock>) -> (r: String)
    ensures
        r@ == spec_tree_code(name@, crate::schema::locks_view(locks@)),
{
    let ghost lv = crate::schema::locks_view(locks@);
    let mut struct_prefix = String::from_str(name);
    struct_prefix.append("LockTree");
    let ghost prefix = struct_prefix@;
    // one fragment per lock
    let mut fragments: Vec<Fragment> = Vec::new();
    let n = locks.len();
    let mut i: usize = 0;
    while i < n
        invariant
            i <= n,
            n == locks@.len(),
            lv == crate::schema::locks_view(locks@),
            prefix == struct_prefix@,
            fragments@.len() == i,
            forall|j: int| 0 <= j < i ==> fragments@[j]@ == spec_fragment(prefix, lv[j]),
        decreases n - i,
    {
        let fragment = locks[i].fragment(struct_prefix.as_str());
        fragments.push(fragment);
        i += 1;
    }
    proof {
        assert(fragments_match(fragments@, prefix, lv));
    }
    // the tree struct
    let mut out = String::from_str("struct ");
    out.append(struct_prefix.as_str());
    out.append(" { ");
    append_decls(&mut out, &fragments, Ghost(prefix), Ghost(lv));
    out.append("glsBWeCagvYcGEd: ::std::sync::atomic::AtomicBool } ");
    // its impl: constructor, then one entry accessor per lock
    out.append("impl ");
    out.append(struct_prefix.as_str());
    out.append(" { pub fn new(");
    append_args(&mut out, &fragments, Ghost(prefix), Ghost(lv));
    out.append(") -> Self { Self { ");
    append_stmts(&mut out, &fragments, Ghost(prefix), Ghost(lv));
    out.append("glsBWeCagvYcGEd: ::std::sync::atomic::AtomicBool::new(false) } } ");
    append_entry_accessors(&mut out, &fragments, Ghost(prefix), Ghost(lv));
    out.append("} ");
    proof {
        reveal(spec_tree_code);
        assert(spec_tree_code(name@, lv) == out@ + spec_forward_blocks(prefix, lv, 0));
    }
    // one forward struct per lock, reaching the strictly later locks
    let mut i: usize = 0;
    while i < n
        invariant
            i <= n,
            n == lv.len(),
            prefix == struct_prefix@,
            fragments_match(fragments@, prefix, lv),
            spec_tree_code(name@, lv) == out@ + spec_forward_blocks(prefix, lv, i as int),
        decreases n - i,
    {
        let ghost out0 = out@;
        out.append("struct ");
        out.append(fragments[i].forward.as_str());
        out.append("<'b> { locks: &'b ");
        out.append(struct_prefix.as_str());
        out.append(" } impl<'b> ");
        out.append(fragments[i].forward.as_str());
        out.append("<'b> { ");
        append_forward_accessors(&mut out, &fragments, i + 1, Ghost(prefix), Ghost(lv));
        out.append("} ");
        if i == 0 {
            out.append("impl<'b> Drop for ");
            out.append(fragments[i].forward.as_str());
            out.append(
                "<'b> { fn drop(&mut self) { self.locks.glsBWeCagvYcGEd.store(false, ::std::sync::atomic::Ordering::Release) } } ",
            );
        } else {
            out.append("");
        }
        i += 1;
        proof {
            let rest = spec_forward_blocks(prefix, lv, i as int);
            assert(out@ + rest =~= out0 + (spec_forward_block(prefix, lv, i - 1) + rest));
        }
    }
    proof {
        assert(out@ + Seq::<char>::empty() =~= out@);
    }
    out
}

/// The schema compiler: parse the declarations and emit the generated tree
/// code. An input that does not match the grammar is refused, and refused
/// only then.
pub fn locktree_impl(input: &str) -> (r: Result<String, SchemaError>)
    ensures
        r is Ok <==> spec_parse_schema(input@) is Some,
        r matches Ok(out) ==> out@ == spec_schema_code(spec_parse_schema(input@)->Some_0),
{
    let mut sc = Scanner::new(input);
    let tree = match LockTree::parse(&mut sc) {
        Ok(t) => t,
        Err(e) => {
            return Err(e);
        },
    };
    let ghost trees = tree@;
    let mut code = String::new();
    let n = tree.entries.len();
    let mut i: usize = 0;
    proof {
        assert(Seq::<char>::empty() + spec_trees_code(trees, 0) =~= spec_trees_code(trees, 0));
    }
    while i < n
        invariant
            i <= n,
            n == tree.entries@.len(),
            trees == tree@,
            spec_schema_code(trees) == code@ + spec_trees_code(trees, i as int),
        decreases n - i,
    {
        let ghost code0 = code@;
        let entry = &tree.entries[i];
        let piece = tree_code(entry.0.as_str(), &entry.1.seq);
        code.append(piece.as_str());
        i += 1;
        proof {
            let rest = spec_trees_code(trees, i as int);
            assert(code@ + rest =~= code0 + (spec_tree_code(trees[i - 1].0, trees[i - 1].1)
                + rest));
        }
    }
    proof {
        assert(code@ + Seq::<char>::empty() =~= code@);
    }
    Ok(code)
}

} // verus!
