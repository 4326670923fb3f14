//! Arena store: append-only backing vectors, one per entity kind, addressed
//! by typed integer indices. An entity is referenced only by an index into
//! its arena, never by a live reference, so allocation never invalidates an
//! index that was handed out earlier.

use vstd::prelude::*;
use core::marker::PhantomData;

verus! {

/// Relies on std's `Clone` for `core::marker::PhantomData`: cloning the
/// zero-sized marker yields the marker itself. Needed so `derive(Clone)` on
/// the index types below has a specification to call.
pub assume_specification<T>[ <PhantomData<T> as Clone>::clone ](p: &PhantomData<T>) -> (r:
    PhantomData<T>) where T: core::marker::PointeeSized
    ensures
        r == *p,
;

/// Tag for indices into the input-port arena.
#[derive(Clone, Copy, Debug, PartialEq, Eq)]
pub struct InputPortIdx;
/// Tag for indices into the output-port arena.
#[derive(Clone, Copy, Debug, PartialEq, Eq)]
pub struct OutputPortIdx;
/// Tag for indices into the type arena.
#[derive(Clone, Copy, Debug, PartialEq, Eq)]
pub struct TypeIdx;
/// Tag for indices into the value arena.
#[derive(Clone, Copy, Debug, PartialEq, Eq)]
pub struct ValueIdx;
/// Tag for indices into the constant arena.
#[derive(Clone, Copy, Debug, PartialEq, Eq)]
pub struct ConstIdx;
/// Tag for indices into the node-instance arena.
#[derive(Clone, Copy, Debug, PartialEq, Eq)]
pub struct NodeInstIdx;
/// Tag for indices into the node arena.
#[derive(Clone, Copy, Debug, PartialEq, Eq)]
pub struct NodeIdx;
/// Tag for indices into the arity-wrapped type arena.
#[derive(Clone, Copy, Debug, PartialEq, Eq)]
pub struct AritiedTypeIdx;
/// Tag for indices into the node-name arena.
#[derive(Clone, Copy, Debug, PartialEq, Eq)]
pub struct NodeNameIdx;
/// Tag for indices into the signature arena.
#[derive(Clone, Copy, Debug, PartialEq, Eq)]
pub struct SignatureIdx;
/// Tag for indices into the pool of bound function references.
#[derive(Clone, Copy, Debug, PartialEq, Eq)]
pub struct FnIdx;
/// Tag for indices into the arena of per-scope graphs.
#[derive(Clone, Copy, Debug, PartialEq, Eq)]
pub struct PortAndNodeGraphIdx;
/// Tag for indices naming a stream owned by the (out-of-scope) evaluator.
#[derive(Clone, Copy, Debug, PartialEq, Eq)]
pub struct StreamIdx;
/// Tag for indices into a string arena, itself tagged by the entity kind the
/// strings belong to.
#[derive(Clone, Copy, Debug, PartialEq, Eq)]
pub struct StringIdx<T>(pub PhantomData<T>);
/// Tag for indices into a date-time arena, itself tagged by the entity kind
/// the date-times belong to.
#[derive(Clone, Copy, Debug, PartialEq, Eq)]
pub struct DateTimeIdx<T>(pub PhantomData<T>);

/// A typed index into the arena that stores entities of kind `T`.
#[derive(Clone, Copy, Debug, PartialEq, Eq)]
pub struct Idx<T>(pub usize, pub PhantomData<T>);

impl<T> Idx<T> {
    /// The position this index addresses in its backing arena.
    pub open spec fn pos(self) -> int {
        self.0 as int
    }

    /// Wrap a raw position as a typed index.
    pub fn new(pos: usize) -> (r: Idx<T>)
        ensures
            r.0 == pos,
    {
        Idx(pos, PhantomData)
    }
}

/// A contiguous, ordered run of `count` entries starting at `start` within
/// the backing arena for entities of kind `T`.
#[derive(Clone, Copy, Debug, PartialEq, Eq)]
pub struct VecIdx<T> {
    pub start: usize,
    pub count: usize,
    pub _phantom: PhantomData<T>,
}

/// A contiguous run of entries read as an unordered bag: same layout as
/// `VecIdx`, different meaning at the use site.
#[derive(Clone, Copy, Debug, PartialEq, Eq)]
pub struct SetIdx<T> {
    pub start: usize,
    pub count: usize,
    pub _phantom: PhantomData<T>,
}

/// Either an ordered run or an unordered bag of entries.
#[derive(Clone, Copy, Debug, PartialEq, Eq)]
pub enum ManyIdx<T> {
    SetIdx(SetIdx<T>),
    VecIdx(VecIdx<T>),
}

impl From<Idx<FnIdx>> for Idx<SignatureIdx> {
    fn from(idx: Idx<FnIdx>) -> (r: Self) {
        Idx(idx.0, PhantomData)
    }
}

impl vstd::std_specs::convert::FromSpecImpl<Idx<FnIdx>> for Idx<SignatureIdx> {
    open spec fn obeys_from_spec() -> bool {
        true
    }

    open spec fn from_spec(t: Idx<FnIdx>) -> Self {
        Idx(t.0, PhantomData)
    }
}

impl From<Idx<SignatureIdx>> for Idx<FnIdx> {
    fn from(idx: Idx<SignatureIdx>) -> (r: Self) {
        Idx(idx.0, PhantomData)
    }
}

impl vstd::std_specs::convert::FromSpecImpl<Idx<SignatureIdx>> for Idx<FnIdx> {
    open spec fn obeys_from_spec() -> bool {
        true
    }

    open spec fn from_spec(t: Idx<SignatureIdx>) -> Self {
        Idx(t.0, PhantomData)
    }
}

impl From<VecIdx<FnIdx>> for VecIdx<SignatureIdx> {
    fn from(run: VecIdx<FnIdx>) -> (r: Self) {
        VecIdx { start: run.start, count: run.count, _phantom: PhantomData }
    }
}

impl vstd::std_specs::convert::FromSpecImpl<VecIdx<FnIdx>> for VecIdx<SignatureIdx> {
    open spec fn obeys_from_spec() -> bool {
        true
    }

    open spec fn from_spec(t: VecIdx<FnIdx>) -> Self {
        VecIdx { start: t.start, count: t.count, _phantom: PhantomData }
    }
}

impl From<VecIdx<SignatureIdx>> for VecIdx<FnIdx> {
    fn from(run: VecIdx<SignatureIdx>) -> (r: Self) {
        VecIdx { start: run.start, count: run.count, _phantom: PhantomData }
    }
}

impl vstd::std_specs::convert::FromSpecImpl<VecIdx<SignatureIdx>> for VecIdx<FnIdx> {
    open spec fn obeys_from_spec() -> bool {
        true
    }

    open spec fn from_spec(t: VecIdx<SignatureIdx>) -> Self {
        VecIdx { start: t.start, count: t.count, _phantom: PhantomData }
    }
}

impl From<SetIdx<FnIdx>> for SetIdx<SignatureIdx> {
    fn from(run: SetIdx<FnIdx>) -> (r: Self) {
        SetIdx { start: run.start, count: run.count, _phantom: PhantomData }
    }
}

impl vstd::std_specs::convert::FromSpecImpl<SetIdx<FnIdx>> for SetIdx<SignatureIdx> {
    open spec fn obeys_from_spec() -> bool {
        true
    }

    open spec fn from_spec(t: SetIdx<FnIdx>) -> Self {
        SetIdx { start: t.start, count: t.count, _phantom: PhantomData }
    }
}

impl<T, C> From<VecIdx<T>> for SetIdx<C> {
    /// Representation-only reinterpretation of an ordered run as a bag: the
    /// run keeps its start and count. Must not be used where order matters.
    fn from(run: VecIdx<T>) -> (r: Self) {
        SetIdx { start: run.start, count: run.count, _phantom: PhantomData }
    }
}

impl<T, C> vstd::std_specs::convert::FromSpecImpl<VecIdx<T>> for SetIdx<C> {
    open spec fn obeys_from_spec() -> bool {
        true
    }

    open spec fn from_spec(t: VecIdx<T>) -> Self {
        SetIdx { start: t.start, count: t.count, _phantom: PhantomData }
    }
}

impl<T, C> From<SetIdx<T>> for VecIdx<C> {
    /// Representation-only reinterpretation of a bag as an ordered run.
    fn from(run: SetIdx<T>) -> (r: Self) {
        VecIdx { start: run.start, count: run.count, _phantom: PhantomData }
    }
}

impl<T, C> vstd::std_specs::convert::FromSpecImpl<SetIdx<T>> for VecIdx<C> {
    open spec fn obeys_from_spec() -> bool {
        true
    }

    open spec fn from_spec(t: SetIdx<T>) -> Self {
        VecIdx { start: t.start, count: t.count, _phantom: PhantomData }
    }
}

/// `post` is `pre` with zero or more entries appended: the only way an arena
/// is ever allowed to change within a session.
pub open spec fn arena_extends<T>(pre: Seq<T>, post: Seq<T>) -> bool {
    &&& pre.len() <= post.len()
    &&& post.subrange(0, pre.len() as int) == pre
}

/// Appending to an arena leaves every entry that an outstanding index can
/// address exactly as it was.
pub proof fn lemma_arena_extends_stable<T>(pre: Seq<T>, post: Seq<T>, i: int)
    requires
        arena_extends(pre, post),
        0 <= i < pre.len(),
    ensures
        post[i] == pre[i],
{
    assert(post.subrange(0, pre.len() as int)[i] == post[i]);
}

/// A sequence that keeps every old entry and is at least as long is a
/// grown arena.
pub proof fn lemma_push_extends<T>(pre: Seq<T>, post: Seq<T>)
    requires
        pre.len() <= post.len(),
        forall|i: int| 0 <= i < pre.len() ==> #[trigger] post[i] == pre[i],
    ensures
        arena_extends(pre, post),
{
    assert(post.subrange(0, pre.len() as int) =~= pre);
}

/// An arena grows from itself by appending nothing.
pub proof fn lemma_arena_extends_refl<T>(s: Seq<T>)
    ensures
        arena_extends(s, s),
{
    assert(s.subrange(0, s.len() as int) =~= s);
}

/// Growth by appending composes.
pub proof fn lemma_arena_extends_trans<T>(a: Seq<T>, b: Seq<T>, c: Seq<T>)
    requires
        arena_extends(a, b),
        arena_extends(b, c),
    ensures
        arena_extends(a, c),
{
    assert forall|i: int| 0 <= i < a.len() implies c.subrange(0, a.len() as int)[i] == a[i] by {
        assert(b.subrange(0, a.len() as int)[i] == a[i]);
        assert(c.subrange(0, b.len() as int)[i] == b[i]);
    }
    assert(c.subrange(0, a.len() as int) =~= a);
}

/// Append a value to an arena; the returned index addresses it and every
/// earlier index still addresses its original entry.
pub fn add_x<T: Copy>(s: &mut Vec<T>, item: T) -> (r: (Idx<T>, T))
    ensures
        final(s)@ == old(s)@.push(item),
        r.0.0 == old(s)@.len(),
        r.1 == item,
{
    s.push(item);
    let idx: Idx<T> = Idx(s.len() - 1, PhantomData);
    (idx, s[s.len() - 1])
}

/// Bounds-checked read: `None` exactly when the index lies outside the arena.
pub fn get_x<T: Copy>(s: &Vec<T>, idx: Idx<T>) -> (r: Option<T>)
    ensures
        r == if idx.0 < s@.len() {
            Some(s@[idx.0 as int])
        } else {
            None::<T>
        },
{
    if idx.0 < s.len() {
        Some(s[idx.0])
    } else {
        None
    }
}

/// Bounds-checked borrow: `None` exactly when the index lies outside the
/// arena.
pub fn get_ref<'a, T>(s: &'a Vec<T>, idx: Idx<T>) -> (r: Option<&'a T>)
    ensures
        match r {
            Some(v) => idx.0 < s@.len() && *v == s@[idx.0 as int],
            None => idx.0 >= s@.len(),
        },
{
    if idx.0 < s.len() {
        Some(&s[idx.0])
    } else {
        None
    }
}

/// Mutable borrow of one arena entry. The caller must know the index is in
/// bounds (for example because it was just returned by `add_x`); the arena
/// afterwards differs from the old one in that entry alone.
pub fn get_mut_x<'a, T>(s: &'a mut Vec<T>, idx: Idx<T>) -> (r: &'a mut T)
    requires
        idx.0 < old(s)@.len(),
    ensures
        *r == old(s)@[idx.0 as int],
        final(s)@ == old(s)@.update(idx.0 as int, *final(r)),
{
    &mut s[idx.0]
}

} // verus!
