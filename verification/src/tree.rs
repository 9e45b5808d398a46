//! The runtime protocol engine: a table-driven tree instance that enforces
//! the declared acquisition order.
//!
//! A [`TreeInstance`] owns one lock primitive per declared slot. An
//! acquisition chain starts at the entry point ([`TreeInstance::entry_acquire`]),
//! which engages the per-instance reentrancy guard, and moves strictly
//! forward from a [`Cursor`] ([`TreeInstance::acquire_from`]); a cursor is
//! consumed by use, so a chain can never hold two positions at once. The
//! reentrancy guard disengages only when every guard and cursor of the
//! chain has been released, on any path.

use vstd::prelude::*;

use crate::backend::{AccessMode, Exclusive, SharedExclusive};

verus! {

/// The lock capability a slot declares.
#[derive(Clone, Copy, Debug, PartialEq, Eq, Structural)]
pub enum LockKind {
    Exclusive,
    SharedExclusive,
}

/// Whether a slot's backend blocks its thread or suspends its task while
/// it waits. The ordering protocol treats both alike; the marker is kept
/// for the backend that is plugged in.
#[derive(Clone, Copy, Debug, PartialEq, Eq, Structural)]
pub enum Synchronicity {
    Blocking,
    Suspending,
}

/// The occupancy of one slot.
#[derive(Clone, Copy, Debug, PartialEq, Eq, Structural)]
pub enum SlotState {
    Free,
    ReadHeld,
    WriteHeld,
}

/// Why an acquisition or release was refused. Every violation is a caller
/// logic error: none is transient, none is retried.
#[derive(Clone, Copy, Debug, PartialEq, Eq, Structural)]
pub enum TreeError {
    /// A second chain tried to start while one is live.
    Reentrancy,
    /// A chain tried to acquire a slot at or before its position.
    OrderingViolation,
    /// A cursor was used on an instance with no live chain.
    NoActiveChain,
    /// No slot has the requested position.
    UnknownSlot,
    /// The requested slot is not free.
    SlotBusy,
    /// The released handle does not belong to a live holding.
    StaleHandle,
}

/// One slot's declaration: its name, lock kind and synchronicity.
pub struct SlotDescriptor {
    pub name: String,
    pub kind: LockKind,
    pub sync: Synchronicity,
}

/// A compiled tree shape: the name and the ordered slot declarations.
pub struct TreeDescriptor {
    pub name: String,
    pub slots: Vec<SlotDescriptor>,
}

/// Mathematical image of a [`SlotDescriptor`].
pub ghost struct SlotDescModel {
    pub name: Seq<char>,
    pub kind: LockKind,
    pub sync: Synchronicity,
}

/// Mathematical image of a [`TreeDescriptor`].
pub ghost struct DescModel {
    pub name: Seq<char>,
    pub slots: Seq<SlotDescModel>,
}

impl View for SlotDescriptor {
    type V = SlotDescModel;

    open spec fn view(&self) -> SlotDescModel {
        SlotDescModel { name: self.name@, kind: self.kind, sync: self.sync }
    }
}

impl View for TreeDescriptor {
    type V = DescModel;

    open spec fn view(&self) -> DescModel {
        DescModel {
            name: self.name@,
            slots: Seq::new(self.slots@.len(), |i: int| self.slots@[i]@),
        }
    }
}

/// The per-instance flag that admits one acquisition chain at a time.
pub struct ReentrancyGuard {
    pub engaged: bool,
}

impl ReentrancyGuard {
    /// A disengaged guard.
    pub fn new() -> (r: ReentrancyGuard)
        ensures
            !r.engaged,
    {
        ReentrancyGuard { engaged: false }
    }

    /// Test-and-set: engage the guard, reporting whether it was free. A
    /// `false` answer is a reentrancy violation in the caller.
    pub fn begin(&mut self) -> (r: bool)
        ensures
            r == !old(self).engaged,
            final(self).engaged,
    {
        let was = self.engaged;
        self.engaged = true;
        !was
    }

    /// Clear the guard, once every handle of the chain is gone.
    pub fn end(&mut self)
        ensures
            !final(self).engaged,
    {
        self.engaged = false;
    }

    /// Whether a chain is live.
    pub fn is_engaged(&self) -> (r: bool)
        ensures
            r == self.engaged,
    {
        self.engaged
    }
}

/// The lock primitive plugged into one slot.
pub enum SlotPrimitive<T> {
    Exclusive(Exclusive<T>),
    SharedExclusive(SharedExclusive<T>),
}

/// The occupancy a primitive currently shows.
pub open spec fn prim_state<T>(p: SlotPrimitive<T>) -> SlotState {
    match p {
        SlotPrimitive::Exclusive(e) => if e.held {
            SlotState::WriteHeld
        } else {
            SlotState::Free
        },
        SlotPrimitive::SharedExclusive(s) => if s.writer {
            SlotState::WriteHeld
        } else if s.readers > 0 {
            SlotState::ReadHeld
        } else {
            SlotState::Free
        },
    }
}

/// The payload a primitive holds.
pub open spec fn prim_value<T>(p: SlotPrimitive<T>) -> T {
    match p {
        SlotPrimitive::Exclusive(e) => e.value,
        SlotPrimitive::SharedExclusive(s) => s.value,
    }
}

/// Whether a primitive is the kind its slot declares, with its holders in
/// the range the single-chain protocol admits.
pub open spec fn prim_ok<T>(p: SlotPrimitive<T>, kind: LockKind) -> bool {
    match p {
        SlotPrimitive::Exclusive(e) => kind is Exclusive,
        SlotPrimitive::SharedExclusive(s) => kind is SharedExclusive && s.readers <= 1,
    }
}

impl<T> SlotPrimitive<T> {
    /// Whether nobody holds the primitive.
    fn is_free(&self) -> (r: bool)
        ensures
            r == (prim_state(*self) is Free),
    {
        match self {
            SlotPrimitive::Exclusive(e) => !e.held,
            SlotPrimitive::SharedExclusive(s) => !s.writer && s.readers == 0,
        }
    }

    /// Whether the primitive is held exactly as a guard of `mode` records.
    fn holds_mode(&self, mode: AccessMode) -> (r: bool)
        ensures
            r == (prim_state(*self) == held_state(mode)),
    {
        match self {
            SlotPrimitive::Exclusive(e) => match mode {
                AccessMode::Read => false,
                AccessMode::Write => e.held,
            },
            SlotPrimitive::SharedExclusive(s) => match mode {
                AccessMode::Read => !s.writer && s.readers > 0,
                AccessMode::Write => s.writer,
            },
        }
    }

    /// Take a free primitive in the granted mode.
    fn hold(&mut self, mode: AccessMode)
        requires
            prim_state(*old(self)) is Free,
            grant_mode(prim_lock_kind(*old(self)), mode) == mode,
        ensures
            prim_state(*final(self)) == held_state(mode),
            prim_value(*final(self)) == prim_value(*old(self)),
            prim_lock_kind(*final(self)) == prim_lock_kind(*old(self)),
            prim_shared_bounded(*final(self)),
    {
        match self {
            SlotPrimitive::Exclusive(e) => {
                let _taken = e.try_acquire();
            },
            SlotPrimitive::SharedExclusive(s) => match mode {
                AccessMode::Read => {
                    let _taken = s.try_acquire_read();
                },
                AccessMode::Write => {
                    let _taken = s.try_acquire_write();
                },
            },
        }
    }

    /// Free a primitive held in `mode`.
    fn free_hold(&mut self, mode: AccessMode)
        requires
            prim_state(*old(self)) == held_state(mode),
            prim_shared_bounded(*old(self)),
        ensures
            prim_state(*final(self)) is Free,
            prim_value(*final(self)) == prim_value(*old(self)),
            prim_lock_kind(*final(self)) == prim_lock_kind(*old(self)),
            prim_shared_bounded(*final(self)),
    {
        match self {
            SlotPrimitive::Exclusive(e) => {
                let _was = e.release();
            },
            SlotPrimitive::SharedExclusive(s) => match mode {
                AccessMode::Read => {
                    let _was = s.release_read();
                },
                AccessMode::Write => {
                    let _was = s.release_write();
                },
            },
        }
    }

    /// The payload of a held primitive.
    fn read(&self) -> (r: &T)
        requires
            !(prim_state(*self) is Free),
        ensures
            r == prim_value(*self),
    {
        match self {
            SlotPrimitive::Exclusive(e) => e.get(),
            SlotPrimitive::SharedExclusive(s) => s.get(),
        }
    }

    /// Replace the payload of a write-held primitive; the previous payload
    /// comes back.
    fn replace_value(&mut self, value: T) -> (prev: T)
        requires
            prim_state(*old(self)) is WriteHeld,
            prim_shared_bounded(*old(self)),
        ensures
            prim_state(*final(self)) == prim_state(*old(self)),
            prim_lock_kind(*final(self)) == prim_lock_kind(*old(self)),
            prim_value(*final(self)) == value,
            prev == prim_value(*old(self)),
            prim_shared_bounded(*final(self)),
    {
        match self {
            SlotPrimitive::Exclusive(e) => e.replace(value),
            SlotPrimitive::SharedExclusive(s) => s.replace(value),
        }
    }
}

/// The lock kind a primitive implements.
pub open spec fn prim_lock_kind<T>(p: SlotPrimitive<T>) -> LockKind {
    match p {
        SlotPrimitive::Exclusive(e) => LockKind::Exclusive,
        SlotPrimitive::SharedExclusive(s) => LockKind::SharedExclusive,
    }
}

/// Under the single-chain protocol a shared/exclusive primitive never
/// carries more than one reader, and never a writer beside a reader.
pub open spec fn prim_shared_bounded<T>(p: SlotPrimitive<T>) -> bool {
    match p {
        SlotPrimitive::Exclusive(e) => true,
        SlotPrimitive::SharedExclusive(s) => s.readers <= 1 && !(s.writer && s.readers > 0),
    }
}

/// Mathematical image of one slot: its declaration, payload and occupancy.
pub ghost struct SlotModel<T> {
    pub name: Seq<char>,
    pub kind: LockKind,
    pub sync: Synchronicity,
    pub payload: T,
    pub state: SlotState,
}

/// Mathematical image of a [`TreeInstance`]: the declared slots with their
/// payloads and occupancy, the reentrancy flag, and the chain bookkeeping
/// (`live` outstanding handles, of which `held` are guards over slots).
pub ghost struct TreeModel<T> {
    pub name: Seq<char>,
    pub slots: Seq<SlotModel<T>>,
    pub active: bool,
    pub live: nat,
    pub held: nat,
}

/// A guard over one slot: the capability to touch that slot's payload in
/// its mode, and the duty to be released.
#[derive(Debug)]
pub struct SlotGuard {
    pub slot: usize,
    pub mode: AccessMode,
}

/// Mathematical image of a [`SlotGuard`].
pub ghost struct GuardModel {
    pub slot: int,
    pub mode: AccessMode,
}

impl View for SlotGuard {
    type V = GuardModel;

    open spec fn view(&self) -> GuardModel {
        GuardModel { slot: self.slot as int, mode: self.mode }
    }
}

/// A cursor positioned after one slot: the single-use capability to
/// acquire strictly later slots. Acquiring through it consumes it; so does
/// a refused acquisition, since a violation ends its chain.
#[derive(Debug)]
pub struct Cursor {
    pub after: usize,
}

/// Mathematical image of a [`Cursor`].
pub ghost struct CursorModel {
    pub after: int,
}

impl View for Cursor {
    type V = CursorModel;

    open spec fn view(&self) -> CursorModel {
        CursorModel { after: self.after as int }
    }
}

/// How many slots are held.
pub open spec fn count_held<T>(slots: Seq<SlotModel<T>>) -> nat
    decreases slots.len(),
{
    if slots.len() == 0 {
        0
    } else {
        (if slots[0].state is Free {
            0nat
        } else {
            1nat
        }) + count_held(slots.drop_first())
    }
}

/// The bookkeeping a well-formed instance maintains: the flag is engaged
/// exactly while handles are outstanding; the held count matches the
/// slots; and at most one cursor is ever live.
pub open spec fn model_wf<T>(m: TreeModel<T>) -> bool {
    &&& m.active == (m.live > 0)
    &&& m.held == count_held(m.slots)
    &&& m.held <= m.live
    &&& m.live <= m.held + 1
}

/// The mode actually granted: a mutual-exclusion slot widens every request
/// to exclusive access.
pub open spec fn grant_mode(kind: LockKind, want: AccessMode) -> AccessMode {
    match kind {
        LockKind::Exclusive => AccessMode::Write,
        LockKind::SharedExclusive => want,
    }
}

/// The occupancy a granted guard of `mode` leaves behind.
pub open spec fn held_state(mode: AccessMode) -> SlotState {
    match mode {
        AccessMode::Read => SlotState::ReadHeld,
        AccessMode::Write => SlotState::WriteHeld,
    }
}

/// Whether `g` is a live guard of `m`.
pub open spec fn holds<T>(m: TreeModel<T>, g: GuardModel) -> bool {
    0 <= g.slot < m.slots.len() && m.slots[g.slot].state == held_state(g.mode)
}

pub proof fn lemma_count_held_update<T>(slots: Seq<SlotModel<T>>, i: int, s: SlotModel<T>)
    requires
        0 <= i < slots.len(),
    ensures
        count_held(slots.update(i, s)) + (if slots[i].state is Free {
            0nat
        } else {
            1nat
        }) == count_held(slots) + (if s.state is Free {
            0nat
        } else {
            1nat
        }),
    decreases slots.len(),
{
    if i == 0 {
        assert(slots.update(0, s).drop_first() =~= slots.drop_first());
    } else {
        assert(slots.update(i, s).drop_first() =~= slots.drop_first().update(i - 1, s));
        lemma_count_held_update(slots.drop_first(), i - 1, s);
    }
}

pub proof fn lemma_count_held_zero<T>(slots: Seq<SlotModel<T>>)
    requires
        count_held(slots) == 0,
    ensures
        forall|i: int| 0 <= i < slots.len() ==> (#[trigger] slots[i]).state is Free,
    decreases slots.len(),
{
    if slots.len() > 0 {
        lemma_count_held_zero(slots.drop_first());
        assert forall|i: int| 0 <= i < slots.len() implies (#[trigger] slots[i]).state is Free by {
            if i > 0 {
                assert(slots[i] == slots.drop_first()[i - 1]);
            }
        }
    }
}

pub proof fn lemma_count_held_all_free<T>(slots: Seq<SlotModel<T>>)
    requires
        forall|i: int| 0 <= i < slots.len() ==> (#[trigger] slots[i]).state is Free,
    ensures
        count_held(slots) == 0,
    decreases slots.len(),
{
    if slots.len() > 0 {
        assert forall|i: int| 0 <= i < slots.drop_first().len() implies (#[trigger] slots.drop_first()[i]).state
            is Free by {
            assert(slots.drop_first()[i] == slots[i + 1]);
        }
        lemma_count_held_all_free(slots.drop_first());
    }
}

pub proof fn lemma_count_held_lt<T>(slots: Seq<SlotModel<T>>, j: int)
    requires
        0 <= j < slots.len(),
        slots[j].state is Free,
    ensures
        count_held(slots) < slots.len(),
    decreases slots.len(),
{
    if j == 0 {
        lemma_count_held_le(slots.drop_first());
    } else {
        assert(slots.drop_first()[j - 1] == slots[j]);
        lemma_count_held_lt(slots.drop_first(), j - 1);
    }
}

pub proof fn lemma_count_held_le<T>(slots: Seq<SlotModel<T>>)
    ensures
        count_held(slots) <= slots.len(),
    decreases slots.len(),
{
    if slots.len() > 0 {
        lemma_count_held_le(slots.drop_first());
    }
}

/// The model of a freshly constructed instance: the declared slots carry
/// the initial payloads, everything is free, no chain is live.
pub open spec fn spec_initial_model<T>(d: DescModel, payloads: Seq<T>) -> TreeModel<T> {
    TreeModel {
        name: d.name,
        slots: Seq::new(
            payloads.len(),
            |i: int|
                SlotModel {
                    name: d.slots[i].name,
                    kind: d.slots[i].kind,
                    sync: d.slots[i].sync,
                    payload: payloads[i],
                    state: SlotState::Free,
                },
        ),
        active: false,
        live: 0,
        held: 0,
    }
}

/// Why an entry-point acquisition of slot `i` is refused, if it is: a live
/// chain first, then a missing slot, then an occupied slot (unreachable on
/// a well-formed idle instance).
pub open spec fn spec_entry_check<T>(m: TreeModel<T>, i: int) -> Option<TreeError> {
    if m.active {
        Some(TreeError::Reentrancy)
    } else if !(0 <= i < m.slots.len()) {
        Some(TreeError::UnknownSlot)
    } else if !(m.slots[i].state is Free) {
        Some(TreeError::SlotBusy)
    } else {
        None
    }
}

/// The instance after the entry point grants slot `i`: the slot is held in
/// the granted mode, the reentrancy guard is engaged, and the chain starts
/// with two handles, one guard and one cursor.
pub open spec fn spec_entry_grant<T>(m: TreeModel<T>, i: int, want: AccessMode) -> TreeModel<T> {
    let mode = grant_mode(m.slots[i].kind, want);
    TreeModel {
        slots: m.slots.update(
            i,
            SlotModel { state: held_state(mode), ..m.slots[i] },
        ),
        active: true,
        live: 2,
        held: 1,
        ..m
    }
}

/// The instance after a chain's cursor is spent without a grant: one
/// handle fewer; the guard disengages when it was the last.
pub open spec fn spec_spend_cursor<T>(m: TreeModel<T>) -> TreeModel<T> {
    if m.active && m.live > m.held {
        TreeModel { active: m.live - 1 > 0, live: (m.live - 1) as nat, ..m }
    } else {
        m
    }
}

/// Why a forward acquisition of slot `j` from a cursor after `after` is
/// refused, if it is: no live chain, then the ordering rule, then a
/// missing slot, then an occupied slot (unreachable through the protocol).
pub open spec fn spec_forward_check<T>(m: TreeModel<T>, after: int, j: int) -> Option<TreeError> {
    if !m.active {
        Some(TreeError::NoActiveChain)
    } else if j <= after {
        Some(TreeError::OrderingViolation)
    } else if !(0 <= j < m.slots.len()) {
        Some(TreeError::UnknownSlot)
    } else if !(m.slots[j].state is Free) {
        Some(TreeError::SlotBusy)
    } else {
        None
    }
}

/// The instance after a forward grant of slot `j`: the slot is held in the
/// granted mode; the spent cursor is replaced by a new guard and a new
/// cursor, one handle more in all.
pub open spec fn spec_forward_grant<T>(m: TreeModel<T>, j: int, want: AccessMode) -> TreeModel<T> {
    let mode = grant_mode(m.slots[j].kind, want);
    TreeModel {
        slots: m.slots.update(
            j,
            SlotModel { state: held_state(mode), ..m.slots[j] },
        ),
        active: true,
        live: (m.live + 1) as nat,
        held: (m.held + 1) as nat,
        ..m
    }
}

/// Why releasing guard `g` is refused, if it is: the guard must name a
/// slot held exactly in its mode, on an instance with handles live.
pub open spec fn spec_release_guard_check<T>(m: TreeModel<T>, g: GuardModel) -> Option<TreeError> {
    if !holds(m, g) {
        Some(TreeError::StaleHandle)
    } else if m.held == 0 || m.live == 0 {
        Some(TreeError::StaleHandle)
    } else {
        None
    }
}

/// The instance after guard `g` is released: its slot is free again, one
/// handle fewer; the reentrancy guard disengages when it was the last.
pub open spec fn spec_release_guard_step<T>(m: TreeModel<T>, g: GuardModel) -> TreeModel<T> {
    TreeModel {
        slots: m.slots.update(g.slot, SlotModel { state: SlotState::Free, ..m.slots[g.slot] }),
        active: m.live - 1 > 0,
        live: (m.live - 1) as nat,
        held: (m.held - 1) as nat,
        ..m
    }
}

/// Why releasing a cursor is refused, if it is: a cursor is live exactly
/// when the chain has one handle beyond its guards.
pub open spec fn spec_release_cursor_check<T>(m: TreeModel<T>) -> Option<TreeError> {
    if m.active && m.live > m.held {
        None
    } else {
        Some(TreeError::StaleHandle)
    }
}

/// A reentrancy violation's diagnostic names the offending tree.
pub open spec fn spec_reentrancy_diagnostic(name: Seq<char>) -> Seq<char> {
    "potential deadlock detected: "@ + name + " was locked twice"@
}

/// A mutable borrow of one slot's primitive.
fn prim_at<T>(prims: &mut Vec<SlotPrimitive<T>>, i: usize) -> (element: &mut SlotPrimitive<T>)
    requires
        i < old(prims).len(),
    ensures
        *element == old(prims)@[i as int],
        final(prims)@ == old(prims)@.update(i as int, *final(element)),
{
    &mut prims[i]
}

/// A tree instance: the compiled descriptor, one owned lock primitive per
/// slot, the reentrancy guard, and the live-handle bookkeeping of the
/// current chain.
pub struct TreeInstance<T> {
    pub desc: TreeDescriptor,
    pub prims: Vec<SlotPrimitive<T>>,
    pub guard: ReentrancyGuard,
    pub live: usize,
    pub held: usize,
}

impl<T> View for TreeInstance<T> {
    type V = TreeModel<T>;

    open spec fn view(&self) -> TreeModel<T> {
        TreeModel {
            name: self.desc.name@,
            slots: Seq::new(
                self.prims@.len(),
                |i: int|
                    SlotModel {
                        name: self.desc.slots@[i].name@,
                        kind: self.desc.slots@[i].kind,
                        sync: self.desc.slots@[i].sync,
                        payload: prim_value(self.prims@[i]),
                        state: prim_state(self.prims@[i]),
                    },
            ),
            active: self.guard.engaged,
            live: self.live as nat,
            held: self.held as nat,
        }
    }
}

impl<T> TreeInstance<T> {
    /// The representation invariant: primitives match their declarations,
    /// their holders stay in the single-chain range, and the bookkeeping
    /// is well-formed.
    pub open spec fn inv(&self) -> bool {
        &&& self.prims@.len() == self.desc.slots@.len()
        &&& self.prims@.len() < usize::MAX
        &&& forall|i: int|
            0 <= i < self.prims@.len() ==> prim_lock_kind(#[trigger] self.prims@[i])
                == self.desc.slots@[i].kind
        &&& forall|i: int|
            0 <= i < self.prims@.len() ==> prim_shared_bounded(#[trigger] self.prims@[i])
        &&& model_wf(self@)
    }

    /// An idle instance of the declared tree shape, holding exactly the
    /// given payloads, one per slot, in declared order.
    pub fn new(desc: TreeDescriptor, payloads: Vec<T>) -> (r: TreeInstance<T>)
        requires
            payloads@.len() == desc.slots@.len(),
            payloads@.len() < usize::MAX,
        ensures
            r.inv(),
            r@ == spec_initial_model(desc@, payloads@),
    {
        let ghost d = desc@;
        let ghost ps = payloads@;
        let mut rest = payloads;
        let mut prims: Vec<SlotPrimitive<T>> = Vec::new();
        let mut i: usize = 0;
        while rest.len() > 0
            invariant
                prims@.len() == i,
                i + rest@.len() == ps.len(),
                ps.len() < usize::MAX,
                ps.len() == desc.slots@.len(),
                desc@ == d,
                rest@ == ps.skip(i as int),
                forall|j: int|
                    0 <= j < i ==> prim_state(#[trigger] prims@[j]) is Free && prim_value(
                        prims@[j],
                    ) == ps[j] && prim_lock_kind(prims@[j]) == d.slots[j].kind
                        && prim_shared_bounded(prims@[j]),
            decreases rest@.len(),
        {
            let v = rest.remove(0);
            proof {
                assert(v == ps[i as int]);
                assert(rest@ =~= ps.skip(i as int + 1));
            }
            let p = match self_kind_at(&desc, i) {
                LockKind::Exclusive => SlotPrimitive::Exclusive(Exclusive::new(v)),
                LockKind::SharedExclusive => SlotPrimitive::SharedExclusive(
                    SharedExclusive::new(v),
                ),
            };
            prims.push(p);
            i += 1;
        }
        let r = TreeInstance { desc, prims, guard: ReentrancyGuard::new(), live: 0, held: 0 };
        proof {
            assert(r@.slots =~= spec_initial_model(d, ps).slots);
            lemma_count_held_all_free(r@.slots);
            assert(r@ == spec_initial_model(d, ps));
        }
        r
    }

    /// The declared name of this tree.
    pub fn tree_name(&self) -> (r: &String)
        ensures
            r@ == self@.name,
    {
        &self.desc.name
    }

    /// How many slots the tree declares.
    pub fn slot_count(&self) -> (r: usize)
        requires
            self.inv(),
        ensures
            r == self@.slots.len(),
    {
        self.prims.len()
    }

    /// Whether an acquisition chain is live.
    pub fn is_active(&self) -> (r: bool)
        ensures
            r == self@.active,
    {
        self.guard.is_engaged()
    }

    /// The diagnostic a reentrancy violation carries.
    pub fn reentrancy_diagnostic(&self) -> (r: String)
        ensures
            r@ == spec_reentrancy_diagnostic(self@.name),
    {
        let mut out = String::from_str("potential deadlock detected: ");
        out.append(self.desc.name.as_str());
        out.append(" was locked twice");
        out
    }

    /// Whether `g` is a live guard of this instance.
    pub fn holds_guard(&self, g: &SlotGuard) -> (r: bool)
        ensures
            r == holds(self@, g@),
    {
        g.slot < self.prims.len() && self.prims[g.slot].holds_mode(g.mode)
    }

    /// Start an acquisition chain at slot `i`: engages the reentrancy
    /// guard and returns the slot's guard with the cursor positioned after
    /// `i`. Refused exactly when a chain is already live or `i` names no
    /// slot; on refusal nothing changes.
    pub fn entry_acquire(&mut self, i: usize, want: AccessMode) -> (r: Result<
        (SlotGuard, Cursor),
        TreeError,
    >)
        requires
            old(self).inv(),
        ensures
            final(self).inv(),
            match r {
                Ok(handles) => spec_entry_check(old(self)@, i as int) is None && final(self)@
                    == spec_entry_grant(old(self)@, i as int, want) && handles.0@ == (GuardModel {
                    slot: i as int,
                    mode: grant_mode(old(self)@.slots[i as int].kind, want),
                }) && handles.1@ == (CursorModel { after: i as int }),
                Err(e) => spec_entry_check(old(self)@, i as int) == Some(e) && final(self)@ == old(
                    self,
                )@,
            },
    {
        if self.guard.is_engaged() {
            return Err(TreeError::Reentrancy);
        }
        if i >= self.prims.len() {
            return Err(TreeError::UnknownSlot);
        }
        if !self.prims[i].is_free() {
            return Err(TreeError::SlotBusy);
        }
        let mode = match self_kind_at(&self.desc, i) {
            LockKind::Exclusive => AccessMode::Write,
            LockKind::SharedExclusive => want,
        };
        let _fresh = self.guard.begin();
        let ghost m0 = old(self)@;
        let prim = prim_at(&mut self.prims, i);
        prim.hold(mode);
        self.live = 2;
        self.held = 1;
        proof {
            assert(self@.slots =~= spec_entry_grant(m0, i as int, want).slots);
            assert(self@ == spec_entry_grant(m0, i as int, want));
            lemma_count_held_update(
                m0.slots,
                i as int,
                SlotModel { state: held_state(mode), ..m0.slots[i as int] },
            );
        }
        Ok((SlotGuard { slot: i, mode }, Cursor { after: i }))
    }

    /// Spend the chain's cursor without a grant.
    fn spend_cursor(&mut self)
        requires
            old(self).inv(),
        ensures
            final(self).inv(),
            final(self)@ == spec_spend_cursor(old(self)@),
    {
        if self.guard.is_engaged() && self.live > self.held {
            self.live = self.live - 1;
            if self.live == 0 {
                self.guard.end();
            }
        }
    }

    /// Move the chain forward: consume its cursor and acquire slot `j`
    /// strictly after the cursor's position. Refused exactly when no chain
    /// is live, `j` is at or before the cursor, or `j` names no slot; a
    /// refused acquisition still consumes the cursor, since a violation is
    /// fatal to its chain, and the guards already granted remain to be
    /// released.
    pub fn acquire_from(&mut self, cursor: Cursor, j: usize, want: AccessMode) -> (r: Result<
        (SlotGuard, Cursor),
        TreeError,
    >)
        requires
            old(self).inv(),
        ensures
            final(self).inv(),
            match r {
                Ok(handles) => spec_forward_check(old(self)@, cursor@.after, j as int) is None
                    && final(self)@ == spec_forward_grant(old(self)@, j as int, want) && handles.0@
                    == (GuardModel {
                    slot: j as int,
                    mode: grant_mode(old(self)@.slots[j as int].kind, want),
                }) && handles.1@ == (CursorModel { after: j as int }),
                Err(e) => spec_forward_check(old(self)@, cursor@.after, j as int) == Some(e)
                    && final(self)@ == spec_spend_cursor(old(self)@),
            },
    {
        if !self.guard.is_engaged() {
            return Err(TreeError::NoActiveChain);
        }
        if j <= cursor.after {
            self.spend_cursor();
            return Err(TreeError::OrderingViolation);
        }
        if j >= self.prims.len() {
            self.spend_cursor();
            return Err(TreeError::UnknownSlot);
        }
        if !self.prims[j].is_free() {
            self.spend_cursor();
            return Err(TreeError::SlotBusy);
        }
        let mode = match self_kind_at(&self.desc, j) {
            LockKind::Exclusive => AccessMode::Write,
            LockKind::SharedExclusive => want,
        };
        let ghost m0 = old(self)@;
        proof {
            lemma_count_held_lt(m0.slots, j as int);
        }
        let prim = prim_at(&mut self.prims, j);
        prim.hold(mode);
        self.live = self.live + 1;
        self.held = self.held + 1;
        proof {
            assert(self@.slots =~= spec_forward_grant(m0, j as int, want).slots);
            assert(self@ == spec_forward_grant(m0, j as int, want));
            lemma_count_held_update(
                m0.slots,
                j as int,
                SlotModel { state: held_state(mode), ..m0.slots[j as int] },
            );
        }
        Ok((SlotGuard { slot: j, mode }, Cursor { after: j }))
    }

    /// Release a guard: frees its slot and drops one handle; when it was
    /// the chain's last handle, the reentrancy guard disengages. Refused
    /// exactly when the guard does not match a live holding; on refusal
    /// nothing changes.
    pub fn release_guard(&mut self, g: SlotGuard) -> (r: Result<(), TreeError>)
        requires
            old(self).inv(),
        ensures
            final(self).inv(),
            match r {
                Ok(u) => spec_release_guard_check(old(self)@, g@) is None && final(self)@
                    == spec_release_guard_step(old(self)@, g@),
                Err(e) => spec_release_guard_check(old(self)@, g@) == Some(e) && final(self)@
                    == old(self)@,
            },
    {
        if g.slot >= self.prims.len() {
            return Err(TreeError::StaleHandle);
        }
        if !self.prims[g.slot].holds_mode(g.mode) {
            return Err(TreeError::StaleHandle);
        }
        if self.held == 0 || self.live == 0 {
            return Err(TreeError::StaleHandle);
        }
        let ghost m0 = old(self)@;
        let prim = prim_at(&mut self.prims, g.slot);
        prim.free_hold(g.mode);
        self.held = self.held - 1;
        self.live = self.live - 1;
        if self.live == 0 {
            self.guard.end();
        }
        proof {
            assert(self@.slots =~= spec_release_guard_step(m0, g@).slots);
            assert(self@ == spec_release_guard_step(m0, g@));
            lemma_count_held_update(
                m0.slots,
                g@.slot,
                SlotModel { state: SlotState::Free, ..m0.slots[g@.slot] },
            );
        }
        Ok(())
    }

    /// Release a cursor without using it: drops one handle; when it was
    /// the chain's last handle, the reentrancy guard disengages. Refused
    /// exactly when no cursor is live; on refusal nothing changes.
    pub fn release_cursor(&mut self, cursor: Cursor) -> (r: Result<(), TreeError>)
        requires
            old(self).inv(),
        ensures
            final(self).inv(),
            match r {
                Ok(u) => spec_release_cursor_check(old(self)@) is None && final(self)@
                    == spec_spend_cursor(old(self)@),
                Err(e) => spec_release_cursor_check(old(self)@) == Some(e) && final(self)@ == old(
                    self,
                )@,
            },
    {
        if self.guard.is_engaged() && self.live > self.held {
            self.spend_cursor();
            Ok(())
        } else {
            Err(TreeError::StaleHandle)
        }
    }

    /// The payload of the slot a live guard holds.
    pub fn read_through(&self, g: &SlotGuard) -> (r: &T)
        requires
            self.inv(),
            holds(self@, g@),
        ensures
            r == self@.slots[g@.slot].payload,
    {
        self.prims[g.slot].read()
    }

    /// Replace the payload of the slot a live write guard holds; the
    /// previous payload comes back. Only the named slot's payload changes.
    pub fn write_through(&mut self, g: &SlotGuard, value: T) -> (prev: T)
        requires
            old(self).inv(),
            holds(old(self)@, g@),
            g@.mode is Write,
        ensures
            final(self).inv(),
            prev == old(self)@.slots[g@.slot].payload,
            final(self)@ == (TreeModel {
                slots: old(self)@.slots.update(
                    g@.slot,
                    SlotModel { payload: value, ..old(self)@.slots[g@.slot] },
                ),
                ..old(self)@
            }),
    {
        let ghost m0 = old(self)@;
        let prim = prim_at(&mut self.prims, g.slot);
        let prev = prim.replace_value(value);
        proof {
            assert(self@.slots =~= m0.slots.update(
                g@.slot,
                SlotModel { payload: value, ..m0.slots[g@.slot] },
            ));
            lemma_count_held_update(
                m0.slots,
                g@.slot,
                SlotModel { payload: value, ..m0.slots[g@.slot] },
            );
        }
        prev
    }
}

/// The declared kind of slot `i`.
fn self_kind_at(desc: &TreeDescriptor, i: usize) -> (r: LockKind)
    requires
        i < desc.slots@.len(),
    ensures
        r == desc@.slots[i as int].kind,
{
    desc.slots[i].kind
}

} // verus!
