//! The schema compiler's abstract syntax: a declared tree is a named,
//! ordered sequence of lock declarations, each with an interface, a
//! synchronicity marker, a concrete backend type and a payload type.

use vstd::prelude::*;

verus! {

/// The lock interface a slot declares: plain mutual exclusion, or a
/// shared/exclusive lock.
#[derive(Clone, Copy, Debug, PartialEq, Eq, Structural)]
pub enum LockInterface {
    Mutex,
    RwLock,
}

/// A parsed lock type: synchronicity, the rendered concrete type, the
/// payload type arguments, and the interface.
pub struct LockType {
    pub is_async: bool,
    pub declaration: String,
    pub generics: String,
    pub interface: LockInterface,
}

/// A named lock declaration within a tree.
pub struct Lock {
    pub name: String,
    pub ty: LockType,
}

/// The ordered slot declarations of one tree.
pub struct LockSequence {
    pub seq: Vec<Lock>,
}

/// Every tree declared by one schema, in declaration order; a repeated tree
/// name replaces the earlier sequence.
pub struct LockTree {
    pub entries: Vec<(String, LockSequence)>,
}

/// The text pieces one lock declaration contributes to its tree's
/// generated code.
pub struct Fragment {
    pub main_accessors: String,
    pub forward_accessors: String,
    pub forward: String,
    pub lock_declaration: String,
    pub init_arg: String,
    pub init_statement: String,
}

/// Mathematical image of a [`Fragment`].
pub ghost struct FragmentModel {
    pub main_accessors: Seq<char>,
    pub forward_accessors: Seq<char>,
    pub forward: Seq<char>,
    pub lock_declaration: Seq<char>,
    pub init_arg: Seq<char>,
    pub init_statement: Seq<char>,
}

impl View for Fragment {
    type V = FragmentModel;

    open spec fn view(&self) -> FragmentModel {
        FragmentModel {
            main_accessors: self.main_accessors@,
            forward_accessors: self.forward_accessors@,
            forward: self.forward@,
            lock_declaration: self.lock_declaration@,
            init_arg: self.init_arg@,
            init_statement: self.init_statement@,
        }
    }
}

/// Mathematical image of a [`LockType`].
pub ghost struct LockTypeModel {
    pub is_async: bool,
    pub declaration: Seq<char>,
    pub generics: Seq<char>,
    pub interface: LockInterface,
}

/// Mathematical image of a [`Lock`].
pub ghost struct LockModel {
    pub name: Seq<char>,
    pub ty: LockTypeModel,
}

impl View for LockType {
    type V = LockTypeModel;

    open spec fn view(&self) -> LockTypeModel {
        LockTypeModel {
            is_async: self.is_async,
            declaration: self.declaration@,
            generics: self.generics@,
            interface: self.interface,
        }
    }
}

impl View for Lock {
    type V = LockModel;

    open spec fn view(&self) -> LockModel {
        LockModel { name: self.name@, ty: self.ty@ }
    }
}

/// The models of a sequence of lock declarations.
pub open spec fn locks_view(s: Seq<Lock>) -> Seq<LockModel> {
    Seq::new(s.len(), |i: int| s[i]@)
}

/// The models of a tree list.
pub open spec fn entries_view(s: Seq<(String, LockSequence)>) -> Seq<(Seq<char>, Seq<LockModel>)> {
    Seq::new(s.len(), |i: int| (s[i].0@, s[i].1@))
}

impl View for LockSequence {
    type V = Seq<LockModel>;

    open spec fn view(&self) -> Seq<LockModel> {
        locks_view(self.seq@)
    }
}

impl View for LockTree {
    type V = Seq<(Seq<char>, Seq<LockModel>)>;

    open spec fn view(&self) -> Seq<(Seq<char>, Seq<LockModel>)> {
        entries_view(self.entries@)
    }
}

} // verus!
