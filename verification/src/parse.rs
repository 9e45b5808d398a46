//! The schema grammar and its parser.
//!
//! A schema is a sequence of tree declarations `Name { lock, lock, ... }`;
//! each lock is `name: [async] Interface[(backend_path)]<payload>` with
//! `Interface` one of `Mutex` and `RwLock`. The grammar is stated by the
//! `spec_parse_*` functions over the character sequence; each executable
//! parsing function returns `Ok` exactly when the corresponding grammar
//! function accepts, and then returns its value.

use vstd::prelude::*;

use crate::schema::{
    entries_view, locks_view, Lock, LockInterface, LockModel, LockSequence, LockTree, LockType,
    LockTypeModel,
};
use crate::text::{
    chars_of, exec_is_ident_char, exec_is_ident_start, exec_is_space, is_ident_char,
    is_ident_start_char, is_space_char, str_eq_str, string_of,
};

verus! {

/// A schema that does not match the grammar is refused with this error.
#[derive(Clone, Copy, Debug, PartialEq, Eq, Structural)]
pub struct SchemaError;

/// First position at or after `pos` that does not hold whitespace.
pub open spec fn spec_skip_space(s: Seq<char>, pos: int) -> int
    decreases s.len() - pos,
{
    if 0 <= pos < s.len() && is_space_char(s[pos]) {
        spec_skip_space(s, pos + 1)
    } else {
        pos
    }
}

/// First position at or after `pos` that does not hold an identifier
/// character.
pub open spec fn spec_ident_end(s: Seq<char>, pos: int) -> int
    decreases s.len() - pos,
{
    if 0 <= pos < s.len() && is_ident_char(s[pos]) {
        spec_ident_end(s, pos + 1)
    } else {
        pos
    }
}

/// An identifier starting exactly at `pos`, and the position after it.
pub open spec fn spec_ident(s: Seq<char>, pos: int) -> Option<(Seq<char>, int)> {
    if 0 <= pos < s.len() && is_ident_start_char(s[pos]) {
        let end = spec_ident_end(s, pos);
        Some((s.subrange(pos, end), end))
    } else {
        None
    }
}

/// The single character `c` at `pos`, and the position after it.
pub open spec fn spec_expect(s: Seq<char>, pos: int, c: char) -> Option<int> {
    if 0 <= pos < s.len() && s[pos] == c {
        Some(pos + 1)
    } else {
        None
    }
}

pub proof fn lemma_skip_space_bounds(s: Seq<char>, pos: int)
    requires
        0 <= pos <= s.len(),
    ensures
        pos <= spec_skip_space(s, pos) <= s.len(),
    decreases s.len() - pos,
{
    if pos < s.len() && is_space_char(s[pos]) {
        lemma_skip_space_bounds(s, pos + 1);
    }
}

pub proof fn lemma_ident_end_bounds(s: Seq<char>, pos: int)
    requires
        0 <= pos <= s.len(),
    ensures
        pos <= spec_ident_end(s, pos) <= s.len(),
    decreases s.len() - pos,
{
    if pos < s.len() && is_ident_char(s[pos]) {
        lemma_ident_end_bounds(s, pos + 1);
    }
}

/// The interface keyword at `pos`, and the position after it.
pub open spec fn spec_parse_interface(s: Seq<char>, pos: int) -> Option<(LockInterface, int)> {
    match spec_ident(s, pos) {
        Some((w, end)) => if w == "Mutex"@ {
            Some((LockInterface::Mutex, end))
        } else if w == "RwLock"@ {
            Some((LockInterface::RwLock, end))
        } else {
            None
        },
        None => None,
    }
}

/// The concrete type a bare interface keyword stands for.
pub open spec fn spec_default_concrete(interface: LockInterface) -> Seq<char> {
    match interface {
        LockInterface::Mutex => "::std::sync::Mutex"@,
        LockInterface::RwLock => "::std::sync::RwLock"@,
    }
}

/// Further `:: segment` parts of a path, appended to `acc`.
pub open spec fn spec_parse_path_segs(s: Seq<char>, pos: int, acc: Seq<char>) -> Option<
    (Seq<char>, int),
>
    decreases s.len() - pos,
{
    let p = spec_skip_space(s, pos);
    if 0 <= p && p + 1 < s.len() && s[p] == ':' && s[p + 1] == ':' {
        let q = spec_skip_space(s, p + 2);
        match spec_ident(s, q) {
            Some((w, end)) => if pos < end <= s.len() {
                spec_parse_path_segs(s, end, acc + "::"@ + w)
            } else {
                None
            },
            None => None,
        }
    } else {
        Some((acc, pos))
    }
}

/// A possibly-rooted path of identifiers, rendered with `::` separators,
/// and the position after it.
pub open spec fn spec_parse_path(s: Seq<char>, pos: int) -> Option<(Seq<char>, int)> {
    let p = spec_skip_space(s, pos);
    let rooted = 0 <= p && p + 1 < s.len() && s[p] == ':' && s[p + 1] == ':';
    let lead: Seq<char> = if rooted {
        "::"@
    } else {
        Seq::empty()
    };
    let p2: int = if rooted {
        p + 2
    } else {
        p
    };
    let q = spec_skip_space(s, p2);
    match spec_ident(s, q) {
        Some((w, end)) => spec_parse_path_segs(s, end, lead + w),
        None => None,
    }
}

/// Position of the `>` that closes an angle-bracketed region opened just
/// before `pos`, honouring nested brackets and skipping `->`.
pub open spec fn spec_angle_close(s: Seq<char>, pos: int, depth: nat) -> Option<int>
    decreases s.len() - pos,
{
    if pos < 0 || pos >= s.len() {
        None
    } else if s[pos] == '-' && pos + 1 < s.len() && s[pos + 1] == '>' {
        spec_angle_close(s, pos + 2, depth)
    } else if s[pos] == '<' {
        spec_angle_close(s, pos + 1, depth + 1)
    } else if s[pos] == '>' {
        if depth == 0 {
            Some(pos)
        } else {
            spec_angle_close(s, pos + 1, (depth - 1) as nat)
        }
    } else {
        spec_angle_close(s, pos + 1, depth)
    }
}

/// The `<payload>` part of a lock type together with the already-parsed
/// pieces, and the position after it.
pub open spec fn spec_lock_type_tail(
    s: Seq<char>,
    pos: int,
    is_async: bool,
    interface: LockInterface,
    hkt: Seq<char>,
) -> Option<(LockTypeModel, int)> {
    let p = spec_skip_space(s, pos);
    match spec_expect(s, p, '<') {
        None => None,
        Some(q) => match spec_angle_close(s, q, 0) {
            None => None,
            Some(gend) => {
                let g = s.subrange(q, gend);
                Some(
                    (
                        LockTypeModel {
                            is_async,
                            declaration: hkt + "<"@ + g + ">"@,
                            generics: g,
                            interface,
                        },
                        gend + 1,
                    ),
                )
            },
        },
    }
}

/// A lock type: `[async] Interface[(backend_path)]<payload>`, and the
/// position after it. A suspending lock must name its backend explicitly.
pub open spec fn spec_parse_lock_type(s: Seq<char>, pos: int) -> Option<(LockTypeModel, int)> {
    let p0 = spec_skip_space(s, pos);
    let took_async = match spec_ident(s, p0) {
        Some((w, e)) => w == "async"@,
        None => false,
    };
    let is_async = took_async;
    let p1: int = if took_async {
        spec_skip_space(s, spec_ident(s, p0)->Some_0.1)
    } else {
        p0
    };
    match spec_parse_interface(s, p1) {
        None => None,
        Some((interface, p2)) => {
            let p3 = spec_skip_space(s, p2);
            if spec_expect(s, p3, '(') is Some {
                match spec_parse_path(s, p3 + 1) {
                    None => None,
                    Some((hkt, p4)) => {
                        let p5 = spec_skip_space(s, p4);
                        match spec_expect(s, p5, ')') {
                            None => None,
                            Some(p6) => spec_lock_type_tail(s, p6, is_async, interface, hkt),
                        }
                    },
                }
            } else if is_async {
                None
            } else {
                spec_lock_type_tail(s, p3, is_async, interface, spec_default_concrete(interface))
            }
        },
    }
}

/// A lock declaration `name: lock_type`, and the position after it.
pub open spec fn spec_parse_lock(s: Seq<char>, pos: int) -> Option<(LockModel, int)> {
    let p = spec_skip_space(s, pos);
    match spec_ident(s, p) {
        None => None,
        Some((name, e)) => {
            let q = spec_skip_space(s, e);
            match spec_expect(s, q, ':') {
                None => None,
                Some(q2) => match spec_parse_lock_type(s, q2) {
                    None => None,
                    Some((ty, e2)) => Some((LockModel { name, ty }, e2)),
                },
            }
        },
    }
}

/// A comma-separated lock sequence, ending before `}` or at the end of the
/// input; a trailing comma is allowed.
pub open spec fn spec_parse_lock_seq(s: Seq<char>, pos: int) -> Option<(Seq<LockModel>, int)>
    decreases s.len() - pos,
{
    let p = spec_skip_space(s, pos);
    if p >= s.len() || s[p] == '}' {
        Some((Seq::empty(), p))
    } else {
        match spec_parse_lock(s, p) {
            None => None,
            Some((lk, e)) => {
                let q = spec_skip_space(s, e);
                if spec_expect(s, q, ',') is Some {
                    if pos < q + 1 <= s.len() {
                        match spec_parse_lock_seq(s, q + 1) {
                            None => None,
                            Some((rest, e2)) => Some((seq![lk] + rest, e2)),
                        }
                    } else {
                        None
                    }
                } else {
                    Some((seq![lk], q))
                }
            },
        }
    }
}

/// `entries` with the sequence for `name` replaced in place, or appended.
pub open spec fn spec_insert_tree(
    entries: Seq<(Seq<char>, Seq<LockModel>)>,
    name: Seq<char>,
    locks: Seq<LockModel>,
) -> Seq<(Seq<char>, Seq<LockModel>)>
    decreases entries.len(),
{
    if entries.len() == 0 {
        seq![(name, locks)]
    } else if entries[0].0 == name {
        seq![(name, locks)] + entries.drop_first()
    } else {
        seq![entries[0]] + spec_insert_tree(entries.drop_first(), name, locks)
    }
}

/// Tree declarations `Name { ... }` until the end of the input, folded over
/// `acc`.
pub open spec fn spec_parse_trees(
    s: Seq<char>,
    pos: int,
    acc: Seq<(Seq<char>, Seq<LockModel>)>,
) -> Option<Seq<(Seq<char>, Seq<LockModel>)>>
    decreases s.len() - pos,
{
    let p = spec_skip_space(s, pos);
    if p >= s.len() {
        Some(acc)
    } else {
        match spec_ident(s, p) {
            None => None,
            Some((name, e)) => {
                let q = spec_skip_space(s, e);
                match spec_expect(s, q, '{') {
                    None => None,
                    Some(q2) => match spec_parse_lock_seq(s, q2) {
                        None => None,
                        Some((locks, e2)) => match spec_expect(s, e2, '}') {
                            None => None,
                            Some(e3) => if pos < e3 <= s.len() {
                                spec_parse_trees(s, e3, spec_insert_tree(acc, name, locks))
                            } else {
                                None
                            },
                        },
                    },
                }
            },
        }
    }
}

/// The whole schema grammar: what `LockTree::parse` accepts of an input,
/// and the tree list it produces.
pub open spec fn spec_parse_schema(s: Seq<char>) -> Option<Seq<(Seq<char>, Seq<LockModel>)>> {
    spec_parse_trees(s, 0, Seq::empty())
}

pub proof fn lemma_ident_bounds(s: Seq<char>, pos: int)
    requires
        0 <= pos <= s.len(),
        spec_ident(s, pos) is Some,
    ensures
        pos < spec_ident(s, pos)->Some_0.1 <= s.len(),
{
    lemma_ident_end_bounds(s, pos + 1);
}

pub proof fn lemma_path_segs_bounds(s: Seq<char>, pos: int, acc: Seq<char>)
    requires
        0 <= pos <= s.len(),
        spec_parse_path_segs(s, pos, acc) is Some,
    ensures
        pos <= spec_parse_path_segs(s, pos, acc)->Some_0.1 <= s.len(),
    decreases s.len() - pos,
{
    let p = spec_skip_space(s, pos);
    lemma_skip_space_bounds(s, pos);
    if 0 <= p && p + 1 < s.len() && s[p] == ':' && s[p + 1] == ':' {
        let q = spec_skip_space(s, p + 2);
        lemma_skip_space_bounds(s, p + 2);
        match spec_ident(s, q) {
            Some((w, end)) => {
                lemma_ident_bounds(s, q);
                lemma_path_segs_bounds(s, end, acc + "::"@ + w);
            },
            None => {},
        }
    }
}

pub proof fn lemma_path_bounds(s: Seq<char>, pos: int)
    requires
        0 <= pos <= s.len(),
        spec_parse_path(s, pos) is Some,
    ensures
        pos <= spec_parse_path(s, pos)->Some_0.1 <= s.len(),
{
    let p = spec_skip_space(s, pos);
    lemma_skip_space_bounds(s, pos);
    let rooted = 0 <= p && p + 1 < s.len() && s[p] == ':' && s[p + 1] == ':';
    let lead: Seq<char> = if rooted {
        "::"@
    } else {
        Seq::empty()
    };
    let p2: int = if rooted {
        p + 2
    } else {
        p
    };
    let q = spec_skip_space(s, p2);
    lemma_skip_space_bounds(s, p2);
    match spec_ident(s, q) {
        Some((w, end)) => {
            lemma_ident_bounds(s, q);
            lemma_path_segs_bounds(s, end, lead + w);
        },
        None => {},
    }
}

pub proof fn lemma_angle_close_bounds(s: Seq<char>, pos: int, depth: nat)
    requires
        spec_angle_close(s, pos, depth) is Some,
    ensures
        pos <= spec_angle_close(s, pos, depth)->Some_0 < s.len(),
    decreases s.len() - pos,
{
    if pos < 0 || pos >= s.len() {
    } else if s[pos] == '-' && pos + 1 < s.len() && s[pos + 1] == '>' {
        lemma_angle_close_bounds(s, pos + 2, depth);
    } else if s[pos] == '<' {
        lemma_angle_close_bounds(s, pos + 1, depth + 1);
    } else if s[pos] == '>' {
        if depth != 0 {
            lemma_angle_close_bounds(s, pos + 1, (depth - 1) as nat);
        }
    } else {
        lemma_angle_close_bounds(s, pos + 1, depth);
    }
}

pub proof fn lemma_lock_type_bounds(s: Seq<char>, pos: int)
    requires
        0 <= pos <= s.len(),
        spec_parse_lock_type(s, pos) is Some,
    ensures
        pos <= spec_parse_lock_type(s, pos)->Some_0.1 <= s.len(),
{
    let p0 = spec_skip_space(s, pos);
    lemma_skip_space_bounds(s, pos);
    let took_async = match spec_ident(s, p0) {
        Some((w, e)) => w == "async"@,
        None => false,
    };
    let p1: int = if took_async {
        spec_skip_space(s, spec_ident(s, p0)->Some_0.1)
    } else {
        p0
    };
    if took_async {
        lemma_ident_bounds(s, p0);
        lemma_skip_space_bounds(s, spec_ident(s, p0)->Some_0.1);
    }
    match spec_parse_interface(s, p1) {
        None => {},
        Some((interface, p2)) => {
            lemma_ident_bounds(s, p1);
            let p3 = spec_skip_space(s, p2);
            lemma_skip_space_bounds(s, p2);
            if spec_expect(s, p3, '(') is Some {
                match spec_parse_path(s, p3 + 1) {
                    None => {},
                    Some((hkt, p4)) => {
                        lemma_path_bounds(s, p3 + 1);
                        let p5 = spec_skip_space(s, p4);
                        lemma_skip_space_bounds(s, p4);
                        match spec_expect(s, p5, ')') {
                            None => {},
                            Some(p6) => {
                                lemma_lock_type_tail_bounds(s, p6, interface);
                            },
                        }
                    },
                }
            } else if !took_async {
                lemma_lock_type_tail_bounds(s, p3, interface);
            }
        },
    }
}

proof fn lemma_lock_type_tail_bounds(s: Seq<char>, pos: int, interface: LockInterface)
    requires
        0 <= pos <= s.len(),
    ensures
        forall|b: bool, hkt: Seq<char>|
            #[trigger] spec_lock_type_tail(s, pos, b, interface, hkt) is Some ==> pos
                <= spec_lock_type_tail(s, pos, b, interface, hkt)->Some_0.1 <= s.len(),
{
    let p = spec_skip_space(s, pos);
    lemma_skip_space_bounds(s, pos);
    if spec_expect(s, p, '<') is Some {
        let q = p + 1;
        if spec_angle_close(s, q, 0) is Some {
            lemma_angle_close_bounds(s, q, 0);
        }
    }
}

pub proof fn lemma_lock_bounds(s: Seq<char>, pos: int)
    requires
        0 <= pos <= s.len(),
        spec_parse_lock(s, pos) is Some,
    ensures
        pos <= spec_parse_lock(s, pos)->Some_0.1 <= s.len(),
{
    let p = spec_skip_space(s, pos);
    lemma_skip_space_bounds(s, pos);
    match spec_ident(s, p) {
        None => {},
        Some((name, e)) => {
            lemma_ident_bounds(s, p);
            let q = spec_skip_space(s, e);
            lemma_skip_space_bounds(s, e);
            match spec_expect(s, q, ':') {
                None => {},
                Some(q2) => {
                    if spec_parse_lock_type(s, q2) is Some {
                        lemma_lock_type_bounds(s, q2);
                    }
                },
            }
        },
    }
}

pub proof fn lemma_lock_seq_bounds(s: Seq<char>, pos: int)
    requires
        0 <= pos <= s.len(),
        spec_parse_lock_seq(s, pos) is Some,
    ensures
        pos <= spec_parse_lock_seq(s, pos)->Some_0.1 <= s.len(),
    decreases s.len() - pos,
{
    let p = spec_skip_space(s, pos);
    lemma_skip_space_bounds(s, pos);
    if p >= s.len() || s[p] == '}' {
    } else {
        match spec_parse_lock(s, p) {
            None => {},
            Some((lk, e)) => {
                lemma_lock_bounds(s, p);
                let q = spec_skip_space(s, e);
                lemma_skip_space_bounds(s, e);
                if spec_expect(s, q, ',') is Some {
                    if pos < q + 1 <= s.len() {
                        if spec_parse_lock_seq(s, q + 1) is Some {
                            lemma_lock_seq_bounds(s, q + 1);
                        }
                    }
                }
            },
        }
    }
}

/// The parser's input and position.
pub struct Scanner {
    pub text: Vec<char>,
    pub pos: usize,
}

impl Scanner {
    pub open spec fn wf(&self) -> bool {
        self.pos <= self.text@.len() && self.text@.len() <= usize::MAX
    }

    pub fn new(input: &str) -> (r: Scanner)
        ensures
            r.wf(),
            r.text@ == input@,
            r.pos == 0,
    {
        Scanner { text: chars_of(input), pos: 0 }
    }

    /// Move past whitespace.
    pub fn skip_space(&mut self)
        requires
            old(self).wf(),
        ensures
            final(self).wf(),
            final(self).text == old(self).text,
            final(self).pos == spec_skip_space(old(self).text@, old(self).pos as int),
    {
        while self.pos < self.text.len() && exec_is_space(self.text[self.pos])
            invariant
                self.wf(),
                self.text == old(self).text,
                spec_skip_space(self.text@, self.pos as int) == spec_skip_space(
                    old(self).text@,
                    old(self).pos as int,
                ),
            decreases self.text@.len() - self.pos,
        {
            self.pos += 1;
        }
    }

    /// Take one identifier, starting at the current position.
    pub fn take_ident(&mut self) -> (r: Result<String, SchemaError>)
        requires
            old(self).wf(),
        ensures
            final(self).wf(),
            final(self).text == old(self).text,
            r is Ok <==> spec_ident(old(self).text@, old(self).pos as int) is Some,
            r matches Ok(name) ==> {
                let (m, end) = spec_ident(old(self).text@, old(self).pos as int)->Some_0;
                name@ == m && final(self).pos == end
            },
            r is Err ==> *final(self) == *old(self),
    {
        if self.pos < self.text.len() && exec_is_ident_start(self.text[self.pos]) {
            let start = self.pos;
            let mut buf: Vec<char> = Vec::new();
            while self.pos < self.text.len() && exec_is_ident_char(self.text[self.pos])
                invariant
                    self.wf(),
                    start <= self.pos,
                    self.text == old(self).text,
                    buf@ == self.text@.subrange(start as int, self.pos as int),
                    spec_ident_end(self.text@, self.pos as int) == spec_ident_end(
                        self.text@,
                        start as int,
                    ),
                decreases self.text@.len() - self.pos,
            {
                buf.push(self.text[self.pos]);
                self.pos += 1;
                proof {
                    assert(buf@ =~= self.text@.subrange(start as int, self.pos as int));
                }
            }
            Ok(string_of(&buf))
        } else {
            Err(SchemaError)
        }
    }

    /// Consume exactly the character `c`.
    pub fn expect(&mut self, c: char) -> (r: Result<(), SchemaError>)
        requires
            old(self).wf(),
        ensures
            final(self).wf(),
            final(self).text == old(self).text,
            r is Ok <==> spec_expect(old(self).text@, old(self).pos as int, c) is Some,
            r is Ok ==> final(self).pos == old(self).pos + 1,
            r is Err ==> *final(self) == *old(self),
    {
        if self.pos < self.text.len() && self.text[self.pos] == c {
            self.pos += 1;
            Ok(())
        } else {
            Err(SchemaError)
        }
    }

    /// Whether the character at the current position is `c`.
    pub fn peek_is(&self, c: char) -> (r: bool)
        requires
            self.wf(),
        ensures
            r == (self.pos < self.text@.len() && self.text@[self.pos as int] == c),
    {
        self.pos < self.text.len() && self.text[self.pos] == c
    }

    /// Whether the input is exhausted.
    pub fn at_end(&self) -> (r: bool)
        requires
            self.wf(),
        ensures
            r == (self.pos == self.text@.len()),
    {
        self.pos == self.text.len()
    }

    /// Whether a `::` separator starts at the current position.
    pub fn peek_path_sep(&self) -> (r: bool)
        requires
            self.wf(),
        ensures
            r == (self.pos + 1 < self.text@.len() && self.text@[self.pos as int] == ':'
                && self.text@[self.pos as int + 1] == ':'),
    {
        self.pos < self.text.len() && self.pos + 1 < self.text.len() && self.text[self.pos] == ':'
            && self.text[self.pos + 1] == ':'
    }

    /// The input characters between the two positions, as a string.
    pub fn substring(&self, from: usize, to: usize) -> (r: String)
        requires
            from <= to <= self.text@.len(),
        ensures
            r@ == self.text@.subrange(from as int, to as int),
    {
        let mut buf: Vec<char> = Vec::new();
        let mut i: usize = from;
        while i < to
            invariant
                from <= i <= to <= self.text@.len(),
                buf@ == self.text@.subrange(from as int, i as int),
            decreases to - i,
        {
            buf.push(self.text[i]);
            i += 1;
            proof {
                assert(buf@ =~= self.text@.subrange(from as int, i as int));
            }
        }
        string_of(&buf)
    }
}

/// A possibly-rooted `::`-separated path of identifiers, rendered with its
/// segments joined by `::`.
pub fn parse_path(sc: &mut Scanner) -> (r: Result<String, SchemaError>)
    requires
        old(sc).wf(),
    ensures
        final(sc).wf(),
        final(sc).text == old(sc).text,
        r is Ok <==> spec_parse_path(old(sc).text@, old(sc).pos as int) is Some,
        r matches Ok(path) ==> {
            let (m, end) = spec_parse_path(old(sc).text@, old(sc).pos as int)->Some_0;
            path@ == m && final(sc).pos == end
        },
{
    sc.skip_space();
    let rooted = sc.peek_path_sep();
    let mut acc = String::new();
    if rooted {
        acc.append("::");
        sc.pos = sc.pos + 2;
    }
    sc.skip_space();
    let first = match sc.take_ident() {
        Ok(w) => w,
        Err(e) => {
            return Err(e);
        },
    };
    acc.append(first.as_str());
    proof {
        let lead: Seq<char> = if rooted {
            "::"@
        } else {
            Seq::empty()
        };
        assert(acc@ =~= lead + first@);
    }
    loop
        invariant
            sc.wf(),
            sc.text == old(sc).text,
            spec_parse_path_segs(sc.text@, sc.pos as int, acc@) == spec_parse_path(
                old(sc).text@,
                old(sc).pos as int,
            ),
        decreases sc.text@.len() - sc.pos,
    {
        let save = sc.pos;
        let ghost acc0 = acc@;
        sc.skip_space();
        let ghost p = sc.pos as int;
        if !sc.peek_path_sep() {
            sc.pos = save;
            return Ok(acc);
        }
        proof {
            lemma_skip_space_bounds(sc.text@, save as int);
        }
        sc.pos = sc.pos + 2;
        sc.skip_space();
        let ghost q = sc.pos as int;
        proof {
            lemma_skip_space_bounds(sc.text@, p + 2);
        }
        let w = match sc.take_ident() {
            Ok(w) => w,
            Err(e) => {
                return Err(e);
            },
        };
        acc.append("::");
        acc.append(w.as_str());
        proof {
            lemma_ident_bounds(sc.text@, q);
            assert(acc@ =~= acc0 + "::"@ + w@);
            assert(spec_parse_path_segs(sc.text@, save as int, acc0) == spec_parse_path_segs(
                sc.text@,
                sc.pos as int,
                acc@,
            ));
        }
    }
}

/// The text up to the `>` that closes an already-opened angle-bracketed
/// region; leaves the scanner just after that `>`.
pub fn capture_angle(sc: &mut Scanner) -> (r: Result<String, SchemaError>)
    requires
        old(sc).wf(),
    ensures
        final(sc).wf(),
        final(sc).text == old(sc).text,
        r is Ok <==> spec_angle_close(old(sc).text@, old(sc).pos as int, 0) is Some,
        r matches Ok(g) ==> {
            let gend = spec_angle_close(old(sc).text@, old(sc).pos as int, 0)->Some_0;
            g@ == old(sc).text@.subrange(old(sc).pos as int, gend) && final(sc).pos == gend + 1
        },
{
    let start = sc.pos;
    let mut depth: usize = 0;
    loop
        invariant
            sc.wf(),
            sc.text == old(sc).text,
            start == old(sc).pos,
            start <= sc.pos,
            depth <= sc.pos - start,
            spec_angle_close(sc.text@, sc.pos as int, depth as nat) == spec_angle_close(
                old(sc).text@,
                old(sc).pos as int,
                0,
            ),
        decreases sc.text@.len() - sc.pos,
    {
        if sc.pos >= sc.text.len() {
            return Err(SchemaError);
        }
        let c = sc.text[sc.pos];
        if c == '-' && sc.pos + 1 < sc.text.len() && sc.text[sc.pos + 1] == '>' {
            sc.pos = sc.pos + 2;
        } else if c == '<' {
            depth = depth + 1;
            sc.pos = sc.pos + 1;
        } else if c == '>' {
            if depth == 0 {
                proof {
                    assert(spec_angle_close(sc.text@, sc.pos as int, 0) == Some(sc.pos as int));
                }
                let g = sc.substring(start, sc.pos);
                sc.pos = sc.pos + 1;
                return Ok(g);
            }
            depth = depth - 1;
            sc.pos = sc.pos + 1;
        } else {
            sc.pos = sc.pos + 1;
        }
    }
}

impl LockInterface {
    /// The interface keyword: `Mutex` or `RwLock`.
    pub fn parse(sc: &mut Scanner) -> (r: Result<LockInterface, SchemaError>)
        requires
            old(sc).wf(),
        ensures
            final(sc).wf(),
            final(sc).text == old(sc).text,
            r is Ok <==> spec_parse_interface(old(sc).text@, old(sc).pos as int) is Some,
            r matches Ok(v) ==> {
                let (m, end) = spec_parse_interface(old(sc).text@, old(sc).pos as int)->Some_0;
                v == m && final(sc).pos == end
            },
    {
        match sc.take_ident() {
            Err(e) => Err(e),
            Ok(w) => {
                if str_eq_str(w.as_str(), "Mutex") {
                    Ok(LockInterface::Mutex)
                } else if str_eq_str(w.as_str(), "RwLock") {
                    Ok(LockInterface::RwLock)
                } else {
                    Err(SchemaError)
                }
            },
        }
    }

    /// The concrete lock type a bare interface keyword stands for.
    pub fn default_concrete_type(&self) -> (r: String)
        ensures
            r@ == spec_default_concrete(*self),
    {
        match self {
            LockInterface::Mutex => String::from_str("::std::sync::Mutex"),
            LockInterface::RwLock => String::from_str("::std::sync::RwLock"),
        }
    }
}

impl LockType {
    /// A lock type: `[async] Interface[(backend_path)]<payload>`.
    pub fn parse(sc: &mut Scanner) -> (r: Result<LockType, SchemaError>)
        requires
            old(sc).wf(),
        ensures
            final(sc).wf(),
            final(sc).text == old(sc).text,
            r is Ok <==> spec_parse_lock_type(old(sc).text@, old(sc).pos as int) is Some,
            r matches Ok(t) ==> {
                let (m, end) = spec_parse_lock_type(old(sc).text@, old(sc).pos as int)->Some_0;
                t@ == m && final(sc).pos == end
            },
    {
        sc.skip_space();
        let saved = sc.pos;
        let mut is_async = false;
        match sc.take_ident() {
            Ok(w) => {
                if str_eq_str(w.as_str(), "async") {
                    is_async = true;
                    sc.skip_space();
                } else {
                    sc.pos = saved;
                }
            },
            Err(_) => {
                sc.pos = saved;
            },
        }
        let interface = match LockInterface::parse(sc) {
            Ok(i) => i,
            Err(e) => {
                return Err(e);
            },
        };
        sc.skip_space();
        let hkt: String;
        if sc.peek_is('(') {
            sc.pos = sc.pos + 1;
            hkt = match parse_path(sc) {
                Ok(h) => h,
                Err(e) => {
                    return Err(e);
                },
            };
            sc.skip_space();
            match sc.expect(')') {
                Ok(u) => u,
                Err(e) => {
                    return Err(e);
                },
            };
        } else {
            if is_async {
                return Err(SchemaError);
            }
            hkt = interface.default_concrete_type();
        }
        sc.skip_space();
        match sc.expect('<') {
            Ok(u) => u,
            Err(e) => {
                return Err(e);
            },
        };
        let generics = match capture_angle(sc) {
            Ok(g) => g,
            Err(e) => {
                return Err(e);
            },
        };
        let mut declaration = hkt;
        declaration.append("<");
        declaration.append(generics.as_str());
        declaration.append(">");
        Ok(LockType { is_async, declaration, generics, interface })
    }
}

impl Lock {
    /// A lock declaration `name: lock_type`.
    pub fn parse(sc: &mut Scanner) -> (r: Result<Lock, SchemaError>)
        requires
            old(sc).wf(),
        ensures
            final(sc).wf(),
            final(sc).text == old(sc).text,
            r is Ok <==> spec_parse_lock(old(sc).text@, old(sc).pos as int) is Some,
            r matches Ok(lk) ==> {
                let (m, end) = spec_parse_lock(old(sc).text@, old(sc).pos as int)->Some_0;
                lk@ == m && final(sc).pos == end
            },
    {
        sc.skip_space();
        let name = match sc.take_ident() {
            Ok(w) => w,
            Err(e) => {
                return Err(e);
            },
        };
        sc.skip_space();
        match sc.expect(':') {
            Ok(u) => u,
            Err(e) => {
                return Err(e);
            },
        };
        let ty = match LockType::parse(sc) {
            Ok(t) => t,
            Err(e) => {
                return Err(e);
            },
        };
        Ok(Lock { name, ty })
    }
}

/// A parse outcome with `prefix` prepended to its item sequence.
pub open spec fn with_prefix(prefix: Seq<LockModel>, r: Option<(Seq<LockModel>, int)>) -> Option<
    (Seq<LockModel>, int),
> {
    match r {
        Some((t, e)) => Some((prefix + t, e)),
        None => None,
    }
}

impl LockSequence {
    /// A comma-separated lock sequence, up to a closing `}` or the end of
    /// the input.
    pub fn parse(sc: &mut Scanner) -> (r: Result<LockSequence, SchemaError>)
        requires
            old(sc).wf(),
        ensures
            final(sc).wf(),
            final(sc).text == old(sc).text,
            r is Ok <==> spec_parse_lock_seq(old(sc).text@, old(sc).pos as int) is Some,
            r matches Ok(ls) ==> {
                let (m, end) = spec_parse_lock_seq(old(sc).text@, old(sc).pos as int)->Some_0;
                ls@ == m && final(sc).pos == end
            },
    {
        let mut locks: Vec<Lock> = Vec::new();
        proof {
            assert(locks_view(locks@) =~= Seq::<LockModel>::empty());
        }
        loop
            invariant
                sc.wf(),
                sc.text == old(sc).text,
                spec_parse_lock_seq(old(sc).text@, old(sc).pos as int) == with_prefix(
                    locks_view(locks@),
                    spec_parse_lock_seq(sc.text@, sc.pos as int),
                ),
            decreases sc.text@.len() - sc.pos,
        {
            let save = sc.pos;
            let ghost acc0 = locks_view(locks@);
            sc.skip_space();
            let ghost p = sc.pos as int;
            if sc.at_end() || sc.peek_is('}') {
                proof {
                    assert(acc0 + Seq::<LockModel>::empty() =~= acc0);
                }
                return Ok(LockSequence { seq: locks });
            }
            let lk = match Lock::parse(sc) {
                Ok(l) => l,
                Err(e) => {
                    return Err(e);
                },
            };
            let ghost e1 = sc.pos as int;
            proof {
                lemma_skip_space_bounds(sc.text@, save as int);
                lemma_lock_bounds(sc.text@, p);
            }
            sc.skip_space();
            let ghost q = sc.pos as int;
            proof {
                lemma_skip_space_bounds(sc.text@, e1);
            }
            let ghost lk_m = lk@;
            if sc.peek_is(',') {
                sc.pos = sc.pos + 1;
                locks.push(lk);
                proof {
                    assert(locks_view(locks@) =~= acc0.push(lk_m));
                    let tail = spec_parse_lock_seq(sc.text@, sc.pos as int);
                    match tail {
                        Some((rest, e2)) => {
                            assert(acc0 + (seq![lk_m] + rest) =~= acc0.push(lk_m) + rest);
                        },
                        None => {},
                    }
                }
            } else {
                locks.push(lk);
                proof {
                    assert(locks_view(locks@) =~= acc0 + seq![lk_m]);
                }
                return Ok(LockSequence { seq: locks });
            }
        }
    }
}

/// Record `name`'s sequence: a tree declared twice keeps its first place,
/// with its later sequence.
pub fn insert_tree(entries: &mut Vec<(String, LockSequence)>, name: String, locks: LockSequence)
    ensures
        entries_view(final(entries)@) == spec_insert_tree(
            entries_view(old(entries)@),
            name@,
            locks@,
        ),
{
    let ghost m0 = entries_view(old(entries)@);
    let ghost name_m = name@;
    let ghost locks_m = locks@;
    let mut i: usize = 0;
    while i < entries.len()
        invariant
            i <= entries@.len(),
            entries@ == old(entries)@,
            m0 == entries_view(old(entries)@),
            name@ == name_m,
            locks@ == locks_m,
            forall|j: int| 0 <= j < i ==> entries@[j].0@ != name@,
        decreases entries@.len() - i,
    {
        if entries[i].0 == name {
            entries.set(i, (name, locks));
            proof {
                lemma_insert_tree_prefix(m0, name_m, locks_m, i as int);
                assert(m0.subrange(0, i as int) + (seq![(name_m, locks_m)] + m0.skip(
                    i as int,
                ).drop_first()) =~= entries_view(entries@));
            }
            return ;
        }
        i += 1;
    }
    entries.push((name, locks));
    proof {
        lemma_insert_tree_prefix(m0, name_m, locks_m, m0.len() as int);
        assert(m0.skip(m0.len() as int) =~= Seq::<(Seq<char>, Seq<LockModel>)>::empty());
        assert(m0.subrange(0, m0.len() as int) + seq![(name_m, locks_m)] =~= entries_view(
            entries@,
        ));
    }
}

/// Inserting past an unmatched prefix keeps that prefix.
pub proof fn lemma_insert_tree_prefix(
    entries: Seq<(Seq<char>, Seq<LockModel>)>,
    name: Seq<char>,
    locks: Seq<LockModel>,
    k: int,
)
    requires
        0 <= k <= entries.len(),
        forall|j: int| 0 <= j < k ==> entries[j].0 != name,
    ensures
        spec_insert_tree(entries, name, locks) == entries.subrange(0, k) + spec_insert_tree(
            entries.skip(k),
            name,
            locks,
        ),
    decreases k,
{
    if k == 0 {
        assert(entries.skip(0) =~= entries);
        assert(entries.subrange(0, 0) + spec_insert_tree(entries, name, locks) =~= spec_insert_tree(
            entries,
            name,
            locks,
        ));
    } else {
        lemma_insert_tree_prefix(entries.drop_first(), name, locks, k - 1);
        assert(entries.drop_first().skip(k - 1) =~= entries.skip(k));
        assert(entries.drop_first().subrange(0, k - 1) =~= entries.subrange(1, k));
        assert(seq![entries[0]] + (entries.subrange(1, k) + spec_insert_tree(
            entries.skip(k),
            name,
            locks,
        )) =~= entries.subrange(0, k) + spec_insert_tree(entries.skip(k), name, locks));
    }
}

impl LockTree {
    /// The whole schema: tree declarations until the end of the input.
    pub fn parse(sc: &mut Scanner) -> (r: Result<LockTree, SchemaError>)
        requires
            old(sc).wf(),
        ensures
            final(sc).wf(),
            final(sc).text == old(sc).text,
            r is Ok <==> spec_parse_trees(old(sc).text@, old(sc).pos as int, Seq::empty())
                is Some,
            r matches Ok(t) ==> t@ == spec_parse_trees(
                old(sc).text@,
                old(sc).pos as int,
                Seq::empty(),
            )->Some_0,
    {
        let mut entries: Vec<(String, LockSequence)> = Vec::new();
        proof {
            assert(entries_view(entries@) =~= Seq::<(Seq<char>, Seq<LockModel>)>::empty());
        }
        loop
            invariant
                sc.wf(),
                sc.text == old(sc).text,
                spec_parse_trees(old(sc).text@, old(sc).pos as int, Seq::empty())
                    == spec_parse_trees(sc.text@, sc.pos as int, entries_view(entries@)),
            decreases sc.text@.len() - sc.pos,
        {
            let save = sc.pos;
            sc.skip_space();
            let ghost p = sc.pos as int;
            if sc.at_end() {
                return Ok(LockTree { entries });
            }
            let name = match sc.take_ident() {
                Ok(w) => w,
                Err(e) => {
                    return Err(e);
                },
            };
            let ghost e1 = sc.pos as int;
            sc.skip_space();
            let ghost q = sc.pos as int;
            match sc.expect('{') {
                Ok(u) => u,
                Err(e) => {
                    return Err(e);
                },
            };
            let ghost q2 = sc.pos as int;
            let locks = match LockSequence::parse(sc) {
                Ok(l) => l,
                Err(e) => {
                    return Err(e);
                },
            };
            let ghost e2 = sc.pos as int;
            match sc.expect('}') {
                Ok(u) => u,
                Err(e) => {
                    return Err(e);
                },
            };
            proof {
                lemma_skip_space_bounds(sc.text@, save as int);
                lemma_ident_bounds(sc.text@, p);
                lemma_skip_space_bounds(sc.text@, e1);
                lemma_lock_seq_bounds(sc.text@, q2);
            }
            insert_tree(&mut entries, name, locks);
        }
    }
}

} // verus!
