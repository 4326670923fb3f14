//! Structural types with free type variables. Types live in an append-only
//! arena; a composite type stores the arena positions of its components, and
//! every component is allocated before the type that uses it, so component
//! positions are strictly below the position of the composite. That ordering
//! is the well-formedness invariant all recursion here terminates on.

use vstd::prelude::*;

verus! {

/// A structural type or a free type variable. Component fields hold
/// positions in the type arena; `Tuple` holds a contiguous run of component
/// positions as (start, count). Dimensions (`Vect`, `Covec`, `Matrix`) are
/// literal machine integers, not type variables.
#[derive(Clone, Copy, Debug, PartialEq, Eq, Structural)]
pub enum Type {
    /// A free type variable with a registry-unique identifier.
    Variable(usize),
    /// The text type.
    Str,
    /// The integer type.
    Int,
    /// The floating-point type (its values are kept as raw bit patterns;
    /// no float arithmetic belongs to this model).
    Float,
    /// The date-time type.
    DateTime,
    /// A column vector: element type position and dimension.
    Vect(usize, usize),
    /// A row vector: element type position and dimension.
    Covec(usize, usize),
    /// A matrix: element type position and both dimensions.
    Matrix(usize, usize, usize),
    /// An unbounded stream of elements.
    Stream(usize),
    /// A tuple: a contiguous run (start, count) of element type positions.
    Tuple(usize, usize),
    /// An optional payload.
    Opt(usize),
    /// One of two payloads.
    Either(usize, usize),
}

/// One type-arena entry is well formed: all its component positions lie
/// strictly below its own position.
pub open spec fn type_wf_at(types: Seq<Type>, i: int) -> bool {
    match types[i] {
        Type::Variable(_) => true,
        Type::Str => true,
        Type::Int => true,
        Type::Float => true,
        Type::DateTime => true,
        Type::Vect(e, _) => (e as int) < i,
        Type::Covec(e, _) => (e as int) < i,
        Type::Matrix(e, _, _) => (e as int) < i,
        Type::Stream(e) => (e as int) < i,
        Type::Tuple(start, count) => (start as int) + (count as int) <= i,
        Type::Opt(e) => (e as int) < i,
        Type::Either(l, r) => (l as int) < i && (r as int) < i,
    }
}

/// The whole type arena is well formed.
pub open spec fn types_wf(types: Seq<Type>) -> bool {
    forall|i: int| 0 <= i < types.len() ==> #[trigger] type_wf_at(types, i)
}

/// The type at position `t` is concrete: it contains no type variable.
pub open spec fn concrete(types: Seq<Type>, t: int) -> bool
    decreases t, 1int,
        when types_wf(types) && 0 <= t < types.len()
        via concrete_decreases
{
    match types[t] {
        Type::Variable(_) => false,
        Type::Str => true,
        Type::Int => true,
        Type::Float => true,
        Type::DateTime => true,
        Type::Vect(e, _) => concrete(types, e as int),
        Type::Covec(e, _) => concrete(types, e as int),
        Type::Matrix(e, _, _) => concrete(types, e as int),
        Type::Stream(e) => concrete(types, e as int),
        Type::Tuple(start, count) => run_concrete(types, start as int, count as int),
        Type::Opt(e) => concrete(types, e as int),
        Type::Either(l, r) => concrete(types, l as int) && concrete(types, r as int),
    }
}

/// The first `c` entries of the run starting at `s` are all concrete.
pub open spec fn run_concrete(types: Seq<Type>, s: int, c: int) -> bool
    decreases s + c, 0int,
        when types_wf(types) && 0 <= s && 0 <= c && s + c <= types.len()
{
    c == 0 || (concrete(types, s + c - 1) && run_concrete(types, s, c - 1))
}

#[via_fn]
proof fn concrete_decreases(types: Seq<Type>, t: int) {
    assert(type_wf_at(types, t));
}

/// The types at positions `a` and `b` are structurally identical: same tags,
/// equal literal dimensions, identical variables, and structurally identical
/// components.
pub open spec fn type_eq(types: Seq<Type>, a: int, b: int) -> bool
    decreases a, 1int,
        when types_wf(types) && 0 <= a < types.len() && 0 <= b < types.len()
        via type_eq_decreases
{
    match (types[a], types[b]) {
        (Type::Variable(x), Type::Variable(y)) => x == y,
        (Type::Str, Type::Str) => true,
        (Type::Int, Type::Int) => true,
        (Type::Float, Type::Float) => true,
        (Type::DateTime, Type::DateTime) => true,
        (Type::Vect(e1, n1), Type::Vect(e2, n2)) => n1 == n2 && type_eq(
            types,
            e1 as int,
            e2 as int,
        ),
        (Type::Covec(e1, n1), Type::Covec(e2, n2)) => n1 == n2 && type_eq(
            types,
            e1 as int,
            e2 as int,
        ),
        (Type::Matrix(e1, n1, m1), Type::Matrix(e2, n2, m2)) => n1 == n2 && m1 == m2 && type_eq(
            types,
            e1 as int,
            e2 as int,
        ),
        (Type::Stream(e1), Type::Stream(e2)) => type_eq(types, e1 as int, e2 as int),
        (Type::Tuple(s1, c1), Type::Tuple(s2, c2)) => c1 == c2 && run_eq(
            types,
            s1 as int,
            s2 as int,
            c1 as int,
        ),
        (Type::Opt(e1), Type::Opt(e2)) => type_eq(types, e1 as int, e2 as int),
        (Type::Either(l1, r1), Type::Either(l2, r2)) => type_eq(types, l1 as int, l2 as int)
            && type_eq(types, r1 as int, r2 as int),
        _ => false,
    }
}

/// The first `c` entries of the runs starting at `s1` and `s2` are pairwise
/// structurally identical.
pub open spec fn run_eq(types: Seq<Type>, s1: int, s2: int, c: int) -> bool
    decreases s1 + c, 0int,
        when types_wf(types) && 0 <= s1 && 0 <= s2 && 0 <= c && s1 + c <= types.len() && s2 + c
            <= types.len()
{
    c == 0 || (type_eq(types, s1 + c - 1, s2 + c - 1) && run_eq(types, s1, s2, c - 1))
}

#[via_fn]
proof fn type_eq_decreases(types: Seq<Type>, a: int, b: int) {
    assert(type_wf_at(types, a));
    assert(type_wf_at(types, b));
}

/// The type variable `x` occurs somewhere inside the type at position `t`.
pub open spec fn contains_var(types: Seq<Type>, x: usize, t: int) -> bool
    decreases t, 1int,
        when types_wf(types) && 0 <= t < types.len()
        via contains_var_decreases
{
    match types[t] {
        Type::Variable(y) => y == x,
        Type::Str => false,
        Type::Int => false,
        Type::Float => false,
        Type::DateTime => false,
        Type::Vect(e, _) => contains_var(types, x, e as int),
        Type::Covec(e, _) => contains_var(types, x, e as int),
        Type::Matrix(e, _, _) => contains_var(types, x, e as int),
        Type::Stream(e) => contains_var(types, x, e as int),
        Type::Tuple(start, count) => run_contains_var(types, x, start as int, count as int),
        Type::Opt(e) => contains_var(types, x, e as int),
        Type::Either(l, r) => contains_var(types, x, l as int) || contains_var(types, x, r as int),
    }
}

/// The variable `x` occurs inside one of the first `c` entries of the run
/// starting at `s`.
pub open spec fn run_contains_var(types: Seq<Type>, x: usize, s: int, c: int) -> bool
    decreases s + c, 0int,
        when types_wf(types) && 0 <= s && 0 <= c && s + c <= types.len()
{
    c != 0 && (contains_var(types, x, s + c - 1) || run_contains_var(types, x, s, c - 1))
}

#[via_fn]
proof fn contains_var_decreases(types: Seq<Type>, x: usize, t: int) {
    assert(type_wf_at(types, t));
}

/// Structural equality is reflexive.
pub proof fn lemma_type_eq_refl(types: Seq<Type>, a: int)
    requires
        types_wf(types),
        0 <= a < types.len(),
    ensures
        type_eq(types, a, a),
    decreases a, 1int,
{
    assert(type_wf_at(types, a));
    match types[a] {
        Type::Vect(e, _) => lemma_type_eq_refl(types, e as int),
        Type::Covec(e, _) => lemma_type_eq_refl(types, e as int),
        Type::Matrix(e, _, _) => lemma_type_eq_refl(types, e as int),
        Type::Stream(e) => lemma_type_eq_refl(types, e as int),
        Type::Tuple(start, count) => lemma_run_eq_refl(types, start as int, count as int),
        Type::Opt(e) => lemma_type_eq_refl(types, e as int),
        Type::Either(l, r) => {
            lemma_type_eq_refl(types, l as int);
            lemma_type_eq_refl(types, r as int);
        },
        _ => {},
    }
}

/// Pairwise structural equality of a run with itself.
pub proof fn lemma_run_eq_refl(types: Seq<Type>, s: int, c: int)
    requires
        types_wf(types),
        0 <= s,
        0 <= c,
        s + c <= types.len(),
    ensures
        run_eq(types, s, s, c),
    decreases s + c, 0int,
{
    if c != 0 {
        lemma_type_eq_refl(types, s + c - 1);
        lemma_run_eq_refl(types, s, c - 1);
    }
}

/// Every element of a pairwise-identical run is itself identical to its
/// partner.
pub proof fn lemma_run_eq_index(types: Seq<Type>, s1: int, s2: int, c: int, i: int)
    requires
        types_wf(types),
        0 <= s1,
        0 <= s2,
        0 <= c,
        s1 + c <= types.len(),
        s2 + c <= types.len(),
        run_eq(types, s1, s2, c),
        0 <= i < c,
    ensures
        type_eq(types, s1 + i, s2 + i),
    decreases c,
{
    if i < c - 1 {
        lemma_run_eq_index(types, s1, s2, c - 1, i);
    }
}

/// Every element of an all-concrete run is concrete.
pub proof fn lemma_run_concrete_index(types: Seq<Type>, s: int, c: int, i: int)
    requires
        types_wf(types),
        0 <= s,
        0 <= c,
        s + c <= types.len(),
        run_concrete(types, s, c),
        0 <= i < c,
    ensures
        concrete(types, s + i),
    decreases c,
{
    if i < c - 1 {
        lemma_run_concrete_index(types, s, c - 1, i);
    }
}

/// A variable found within a prefix of a run is found within the whole run.
pub proof fn lemma_run_contains_var_mono(types: Seq<Type>, x: usize, s: int, c1: int, c2: int)
    requires
        types_wf(types),
        0 <= s,
        0 <= c1 <= c2,
        s + c2 <= types.len(),
        run_contains_var(types, x, s, c1),
    ensures
        run_contains_var(types, x, s, c2),
    decreases c2,
{
    if c1 < c2 {
        lemma_run_contains_var_mono(types, x, s, c1, c2 - 1);
    }
}

/// Appending entries to a well-formed arena leaves the entries already there
/// untouched, so every structural judgement about an old entry keeps its
/// value.
pub proof fn lemma_concrete_extend(pre: Seq<Type>, post: Seq<Type>, t: int)
    requires
        types_wf(pre),
        types_wf(post),
        crate::arena::arena_extends(pre, post),
        0 <= t < pre.len(),
    ensures
        concrete(post, t) == concrete(pre, t),
    decreases t, 1int,
{
    crate::arena::lemma_arena_extends_stable(pre, post, t);
    assert(type_wf_at(pre, t));
    match pre[t] {
        Type::Vect(e, _) => lemma_concrete_extend(pre, post, e as int),
        Type::Covec(e, _) => lemma_concrete_extend(pre, post, e as int),
        Type::Matrix(e, _, _) => lemma_concrete_extend(pre, post, e as int),
        Type::Stream(e) => lemma_concrete_extend(pre, post, e as int),
        Type::Tuple(start, count) => lemma_run_concrete_extend(
            pre,
            post,
            start as int,
            count as int,
        ),
        Type::Opt(e) => lemma_concrete_extend(pre, post, e as int),
        Type::Either(l, r) => {
            lemma_concrete_extend(pre, post, l as int);
            lemma_concrete_extend(pre, post, r as int);
        },
        _ => {},
    }
}

/// As `lemma_concrete_extend`, for runs.
pub proof fn lemma_run_concrete_extend(pre: Seq<Type>, post: Seq<Type>, s: int, c: int)
    requires
        types_wf(pre),
        types_wf(post),
        crate::arena::arena_extends(pre, post),
        0 <= s,
        0 <= c,
        s + c <= pre.len(),
    ensures
        run_concrete(post, s, c) == run_concrete(pre, s, c),
    decreases s + c, 0int,
{
    if c != 0 {
        lemma_concrete_extend(pre, post, s + c - 1);
        lemma_run_concrete_extend(pre, post, s, c - 1);
    }
}

/// As `lemma_concrete_extend`, for structural equality.
pub proof fn lemma_type_eq_extend(pre: Seq<Type>, post: Seq<Type>, a: int, b: int)
    requires
        types_wf(pre),
        types_wf(post),
        crate::arena::arena_extends(pre, post),
        0 <= a < pre.len(),
        0 <= b < pre.len(),
    ensures
        type_eq(post, a, b) == type_eq(pre, a, b),
    decreases a, 1int,
{
    crate::arena::lemma_arena_extends_stable(pre, post, a);
    crate::arena::lemma_arena_extends_stable(pre, post, b);
    assert(type_wf_at(pre, a));
    assert(type_wf_at(pre, b));
    match (pre[a], pre[b]) {
        (Type::Vect(e1, _), Type::Vect(e2, _)) => lemma_type_eq_extend(
            pre,
            post,
            e1 as int,
            e2 as int,
        ),
        (Type::Covec(e1, _), Type::Covec(e2, _)) => lemma_type_eq_extend(
            pre,
            post,
            e1 as int,
            e2 as int,
        ),
        (Type::Matrix(e1, _, _), Type::Matrix(e2, _, _)) => lemma_type_eq_extend(
            pre,
            post,
            e1 as int,
            e2 as int,
        ),
        (Type::Stream(e1), Type::Stream(e2)) => lemma_type_eq_extend(
            pre,
            post,
            e1 as int,
            e2 as int,
        ),
        (Type::Tuple(s1, c1), Type::Tuple(s2, c2)) => {
            if c1 == c2 {
                lemma_run_eq_extend(pre, post, s1 as int, s2 as int, c1 as int);
            }
        },
        (Type::Opt(e1), Type::Opt(e2)) => lemma_type_eq_extend(pre, post, e1 as int, e2 as int),
        (Type::Either(l1, r1), Type::Either(l2, r2)) => {
            lemma_type_eq_extend(pre, post, l1 as int, l2 as int);
            lemma_type_eq_extend(pre, post, r1 as int, r2 as int);
        },
        _ => {},
    }
}

/// As `lemma_type_eq_extend`, for runs.
pub proof fn lemma_run_eq_extend(pre: Seq<Type>, post: Seq<Type>, s1: int, s2: int, c: int)
    requires
        types_wf(pre),
        types_wf(post),
        crate::arena::arena_extends(pre, post),
        0 <= s1,
        0 <= s2,
        0 <= c,
        s1 + c <= pre.len(),
        s2 + c <= pre.len(),
    ensures
        run_eq(post, s1, s2, c) == run_eq(pre, s1, s2, c),
    decreases s1 + c, 0int,
{
    if c != 0 {
        lemma_type_eq_extend(pre, post, s1 + c - 1, s2 + c - 1);
        lemma_run_eq_extend(pre, post, s1, s2, c - 1);
    }
}

/// As `lemma_concrete_extend`, for variable occurrence.
pub proof fn lemma_contains_var_extend(pre: Seq<Type>, post: Seq<Type>, x: usize, t: int)
    requires
        types_wf(pre),
        types_wf(post),
        crate::arena::arena_extends(pre, post),
        0 <= t < pre.len(),
    ensures
        contains_var(post, x, t) == contains_var(pre, x, t),
    decreases t, 1int,
{
    crate::arena::lemma_arena_extends_stable(pre, post, t);
    assert(type_wf_at(pre, t));
    match pre[t] {
        Type::Vect(e, _) => lemma_contains_var_extend(pre, post, x, e as int),
        Type::Covec(e, _) => lemma_contains_var_extend(pre, post, x, e as int),
        Type::Matrix(e, _, _) => lemma_contains_var_extend(pre, post, x, e as int),
        Type::Stream(e) => lemma_contains_var_extend(pre, post, x, e as int),
        Type::Tuple(start, count) => lemma_run_contains_var_extend(
            pre,
            post,
            x,
            start as int,
            count as int,
        ),
        Type::Opt(e) => lemma_contains_var_extend(pre, post, x, e as int),
        Type::Either(l, r) => {
            lemma_contains_var_extend(pre, post, x, l as int);
            lemma_contains_var_extend(pre, post, x, r as int);
        },
        _ => {},
    }
}

/// As `lemma_contains_var_extend`, for runs.
pub proof fn lemma_run_contains_var_extend(
    pre: Seq<Type>,
    post: Seq<Type>,
    x: usize,
    s: int,
    c: int,
)
    requires
        types_wf(pre),
        types_wf(post),
        crate::arena::arena_extends(pre, post),
        0 <= s,
        0 <= c,
        s + c <= pre.len(),
    ensures
        run_contains_var(post, x, s, c) == run_contains_var(pre, x, s, c),
    decreases s + c, 0int,
{
    if c != 0 {
        lemma_contains_var_extend(pre, post, x, s + c - 1);
        lemma_run_contains_var_extend(pre, post, x, s, c - 1);
    }
}

/// The entry at `t` is a type variable.
pub open spec fn is_type_var(types: Seq<Type>, t: int) -> bool {
    types[t] is Variable
}

/// The identifier of the variable at `t` (meaningful when `is_type_var`).
pub open spec fn type_var_id(types: Seq<Type>, t: int) -> usize {
    match types[t] {
        Type::Variable(x) => x,
        _ => 0,
    }
}

/// Every variable stored anywhere in the arena has an identifier strictly
/// below `limit` (the registry's fresh-variable counter).
pub open spec fn vars_below(types: Seq<Type>, limit: nat) -> bool {
    forall|i: int| 0 <= i < types.len() ==> #[trigger] var_below_at(types, i, limit)
}

/// The entry at `i`, if it is a variable, has an identifier below `limit`.
pub open spec fn var_below_at(types: Seq<Type>, i: int, limit: nat) -> bool {
    match types[i] {
        Type::Variable(x) => (x as nat) < limit,
        _ => true,
    }
}

/// A `Type` value is valid against an arena of length `len` and a variable
/// counter `limit`: its component positions are in bounds and any variable
/// identifier is below the counter.
pub open spec fn type_ok(t: Type, len: int, limit: nat) -> bool {
    match t {
        Type::Variable(x) => (x as nat) < limit,
        Type::Str => true,
        Type::Int => true,
        Type::Float => true,
        Type::DateTime => true,
        Type::Vect(e, _) => (e as int) < len,
        Type::Covec(e, _) => (e as int) < len,
        Type::Matrix(e, _, _) => (e as int) < len,
        Type::Stream(e) => (e as int) < len,
        Type::Tuple(start, count) => (start as int) + (count as int) <= len,
        Type::Opt(e) => (e as int) < len,
        Type::Either(l, r) => (l as int) < len && (r as int) < len,
    }
}

/// The type registry: the append-only type arena together with the counter
/// that makes fresh variable identifiers process-unique.
pub struct TypeRegistry {
    /// The type arena.
    pub types: Vec<Type>,
    /// All variable identifiers handed out so far lie below this counter.
    pub var_count: usize,
}

impl TypeRegistry {
    /// The registry invariant: the arena is well formed and every stored
    /// variable identifier was handed out by `fresh_variable`.
    pub open spec fn wf(self) -> bool {
        &&& types_wf(self.types@)
        &&& vars_below(self.types@, self.var_count as nat)
    }

    /// An empty registry.
    pub fn new() -> (r: TypeRegistry)
        ensures
            r.wf(),
            r.types@.len() == 0,
            r.var_count == 0,
    {
        TypeRegistry { types: Vec::new(), var_count: 0 }
    }

    /// Allocate a fresh type variable with a registry-unique identifier and
    /// return its arena position.
    pub fn fresh_variable(&mut self) -> (r: usize)
        requires
            old(self).wf(),
            old(self).var_count < usize::MAX,
        ensures
            final(self).wf(),
            final(self).types@ == old(self).types@.push(Type::Variable(old(self).var_count)),
            final(self).var_count == old(self).var_count + 1,
            r == old(self).types@.len(),
    {
        let v = self.var_count;
        self.var_count = self.var_count + 1;
        let pos = self.types.len();
        self.types.push(Type::Variable(v));
        proof {
            assert forall|i: int| 0 <= i < self.types@.len() implies #[trigger] type_wf_at(
                self.types@,
                i,
            ) by {
                if i < old(self).types@.len() {
                    assert(type_wf_at(old(self).types@, i));
                }
            }
            assert forall|i: int| 0 <= i < self.types@.len() implies #[trigger] var_below_at(
                self.types@,
                i,
                self.var_count as nat,
            ) by {
                if i < old(self).types@.len() {
                    assert(var_below_at(old(self).types@, i, old(self).var_count as nat));
                }
            }
        }
        pos
    }

    /// Append a type whose components already live in the arena; returns its
    /// position. This is the only way a type enters the registry, which is
    /// what keeps the arena well formed.
    pub fn add_type(&mut self, t: Type) -> (r: usize)
        requires
            old(self).wf(),
            type_ok(t, old(self).types@.len() as int, old(self).var_count as nat),
        ensures
            final(self).wf(),
            final(self).types@ == old(self).types@.push(t),
            final(self).var_count == old(self).var_count,
            r == old(self).types@.len(),
    {
        let pos = self.types.len();
        self.types.push(t);
        proof {
            assert forall|i: int| 0 <= i < self.types@.len() implies #[trigger] type_wf_at(
                self.types@,
                i,
            ) by {
                if i < old(self).types@.len() {
                    assert(type_wf_at(old(self).types@, i));
                }
            }
            assert forall|i: int| 0 <= i < self.types@.len() implies #[trigger] var_below_at(
                self.types@,
                i,
                self.var_count as nat,
            ) by {
                if i < old(self).types@.len() {
                    assert(var_below_at(old(self).types@, i, old(self).var_count as nat));
                }
            }
        }
        pos
    }
}

} // verus!
