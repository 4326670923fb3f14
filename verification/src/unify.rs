//! Unification of structural types. `unify` decides whether two types can
//! be made equal by binding free type variables, and returns the binding
//! list (the substitution) on success.
//!
//! A substitution is a list of (variable, type position) bindings in binding
//! order. Before a binding is stored, the current substitution is applied to
//! the bound type, so a stored type only mentions variables that are unbound
//! at its binding time; any of those bound later sit at later list
//! positions. All recursion through the substitution rides on that ordering.

use vstd::prelude::*;
use crate::arena::arena_extends;
use crate::arena::lemma_arena_extends_stable;
use crate::arena::lemma_arena_extends_trans;
use crate::types::Type;
use crate::types::TypeRegistry;
use crate::types::concrete;
use crate::types::contains_var;
use crate::types::is_type_var;
use crate::types::type_var_id;
use crate::types::lemma_run_concrete_index;
use crate::types::lemma_run_contains_var_mono;
use crate::types::lemma_run_eq_index;
use crate::types::run_contains_var;
use crate::types::run_eq;
use crate::types::type_eq;
use crate::types::type_wf_at;
use crate::types::types_wf;
use crate::types::var_below_at;

verus! {

/// Why two types cannot be made equal.
#[derive(Clone, Copy, Debug, PartialEq, Eq, Structural)]
pub enum TypeError {
    /// The tags, a literal dimension, or a tuple arity differ.
    TypeMismatch,
    /// A variable would have to contain itself.
    InfiniteType,
}

/// A substitution: bindings (variable, type position) in binding order. The
/// empty list is the identity substitution.
#[derive(Debug, PartialEq, Eq)]
pub struct Substitution {
    /// The binding list.
    pub bindings: Vec<(usize, usize)>,
}

/// The variable `x` is bound somewhere in the list.
pub open spec fn is_bound(s: Seq<(usize, usize)>, x: usize) -> bool {
    exists|j: int| 0 <= j < s.len() && (#[trigger] s[j]).0 == x
}

/// The position where `x` is bound (meaningful when the list binds each
/// variable at most once).
pub open spec fn pos_of(s: Seq<(usize, usize)>, x: usize) -> int {
    choose|j: int| 0 <= j < s.len() && (#[trigger] s[j]).0 == x
}

/// Every variable mentioned by the type at `t` is either unbound or bound at
/// position `k` or later.
pub open spec fn mentions_only_from(types: Seq<Type>, s: Seq<(usize, usize)>, t: int, k: int) -> bool
    decreases t, 1int,
        when types_wf(types) && 0 <= t < types.len()
        via mentions_only_from_decreases
{
    match types[t] {
        Type::Variable(y) => is_bound(s, y) ==> pos_of(s, y) >= k,
        Type::Str => true,
        Type::Int => true,
        Type::Float => true,
        Type::DateTime => true,
        Type::Vect(e, _) => mentions_only_from(types, s, e as int, k),
        Type::Covec(e, _) => mentions_only_from(types, s, e as int, k),
        Type::Matrix(e, _, _) => mentions_only_from(types, s, e as int, k),
        Type::Stream(e) => mentions_only_from(types, s, e as int, k),
        Type::Tuple(start, count) => run_mentions_only_from(
            types,
            s,
            start as int,
            count as int,
            k,
        ),
        Type::Opt(e) => mentions_only_from(types, s, e as int, k),
        Type::Either(l, r) => mentions_only_from(types, s, l as int, k) && mentions_only_from(
            types,
            s,
            r as int,
            k,
        ),
    }
}

/// As `mentions_only_from`, over the first `c` entries of a run.
pub open spec fn run_mentions_only_from(
    types: Seq<Type>,
    s: Seq<(usize, usize)>,
    st: int,
    c: int,
    k: int,
) -> bool
    decreases st + c, 0int,
        when types_wf(types) && 0 <= st && 0 <= c && st + c <= types.len()
{
    c == 0 || (mentions_only_from(types, s, st + c - 1, k) && run_mentions_only_from(
        types,
        s,
        st,
        c - 1,
        k,
    ))
}

#[via_fn]
proof fn mentions_only_from_decreases(types: Seq<Type>, s: Seq<(usize, usize)>, t: int, k: int) {
    assert(type_wf_at(types, t));
}

/// The binding list is well formed against a type arena and the registry's
/// variable counter: bound variables and stored positions are in range, no
/// variable is bound twice, and each stored type mentions only variables
/// bound at strictly later positions (or never).
pub open spec fn wf_subst(types: Seq<Type>, s: Seq<(usize, usize)>, limit: nat) -> bool {
    &&& forall|j: int| 0 <= j < s.len() ==> ((#[trigger] s[j]).0 as nat) < limit
    &&& forall|j: int| 0 <= j < s.len() ==> ((#[trigger] s[j]).1 as int) < types.len()
    &&& forall|j1: int, j2: int|
        0 <= j1 < j2 < s.len() ==> (#[trigger] s[j1]).0 != (#[trigger] s[j2]).0
    &&& forall|j: int|
        0 <= j < s.len() ==> mentions_only_from(types, s, ((#[trigger] s[j]).1) as int, j + 1)
}

/// `post` is `pre` with zero or more bindings appended.
pub open spec fn subst_extends(pre: Seq<(usize, usize)>, post: Seq<(usize, usize)>) -> bool {
    arena_extends(pre, post)
}

/// In a duplicate-free binding list, a binding's position is the position.
pub proof fn lemma_pos_of_unique(s: Seq<(usize, usize)>, x: usize, j: int)
    requires
        forall|j1: int, j2: int|
            0 <= j1 < j2 < s.len() ==> (#[trigger] s[j1]).0 != (#[trigger] s[j2]).0,
        0 <= j < s.len(),
        s[j].0 == x,
    ensures
        is_bound(s, x),
        pos_of(s, x) == j,
{
    assert(is_bound(s, x));
    let p = pos_of(s, x);
    assert(0 <= p < s.len() && s[p].0 == x);
    if p < j {
        assert(s[p].0 != s[j].0);
    } else if j < p {
        assert(s[j].0 != s[p].0);
    }
}

/// With no bound variable at all, every mention constraint holds.
pub proof fn lemma_mentions_empty(types: Seq<Type>, s: Seq<(usize, usize)>, t: int, k: int)
    requires
        types_wf(types),
        0 <= t < types.len(),
        s.len() == 0,
    ensures
        mentions_only_from(types, s, t, k),
    decreases t, 1int,
{
    assert(type_wf_at(types, t));
    match types[t] {
        Type::Vect(e, _) => lemma_mentions_empty(types, s, e as int, k),
        Type::Covec(e, _) => lemma_mentions_empty(types, s, e as int, k),
        Type::Matrix(e, _, _) => lemma_mentions_empty(types, s, e as int, k),
        Type::Stream(e) => lemma_mentions_empty(types, s, e as int, k),
        Type::Tuple(start, count) => lemma_run_mentions_empty(
            types,
            s,
            start as int,
            count as int,
            k,
        ),
        Type::Opt(e) => lemma_mentions_empty(types, s, e as int, k),
        Type::Either(l, r) => {
            lemma_mentions_empty(types, s, l as int, k);
            lemma_mentions_empty(types, s, r as int, k);
        },
        _ => {},
    }
}

/// As `lemma_mentions_empty`, for runs.
pub proof fn lemma_run_mentions_empty(
    types: Seq<Type>,
    s: Seq<(usize, usize)>,
    st: int,
    c: int,
    k: int,
)
    requires
        types_wf(types),
        0 <= st,
        0 <= c,
        st + c <= types.len(),
        s.len() == 0,
    ensures
        run_mentions_only_from(types, s, st, c, k),
    decreases st + c, 0int,
{
    if c != 0 {
        lemma_mentions_empty(types, s, st + c - 1, k);
        lemma_run_mentions_empty(types, s, st, c - 1, k);
    }
}

/// Position zero is a bound nothing can undercut.
pub proof fn lemma_mentions_zero(types: Seq<Type>, s: Seq<(usize, usize)>, t: int)
    requires
        types_wf(types),
        0 <= t < types.len(),
    ensures
        mentions_only_from(types, s, t, 0),
    decreases t, 1int,
{
    assert(type_wf_at(types, t));
    match types[t] {
        Type::Vect(e, _) => lemma_mentions_zero(types, s, e as int),
        Type::Covec(e, _) => lemma_mentions_zero(types, s, e as int),
        Type::Matrix(e, _, _) => lemma_mentions_zero(types, s, e as int),
        Type::Stream(e) => lemma_mentions_zero(types, s, e as int),
        Type::Tuple(start, count) => lemma_run_mentions_zero(types, s, start as int, count as int),
        Type::Opt(e) => lemma_mentions_zero(types, s, e as int),
        Type::Either(l, r) => {
            lemma_mentions_zero(types, s, l as int);
            lemma_mentions_zero(types, s, r as int);
        },
        _ => {},
    }
}

/// As `lemma_mentions_zero`, for runs.
pub proof fn lemma_run_mentions_zero(types: Seq<Type>, s: Seq<(usize, usize)>, st: int, c: int)
    requires
        types_wf(types),
        0 <= st,
        0 <= c,
        st + c <= types.len(),
    ensures
        run_mentions_only_from(types, s, st, c, 0),
    decreases st + c, 0int,
{
    if c != 0 {
        lemma_mentions_zero(types, s, st + c - 1);
        lemma_run_mentions_zero(types, s, st, c - 1);
    }
}

/// Mention constraints survive appending fresh types to the arena.
pub proof fn lemma_mentions_types_extend(
    pre: Seq<Type>,
    post: Seq<Type>,
    s: Seq<(usize, usize)>,
    t: int,
    k: int,
)
    requires
        types_wf(pre),
        types_wf(post),
        arena_extends(pre, post),
        0 <= t < pre.len(),
        mentions_only_from(pre, s, t, k),
    ensures
        mentions_only_from(post, s, t, k),
    decreases t, 1int,
{
    lemma_arena_extends_stable(pre, post, t);
    assert(type_wf_at(pre, t));
    match pre[t] {
        Type::Vect(e, _) => lemma_mentions_types_extend(pre, post, s, e as int, k),
        Type::Covec(e, _) => lemma_mentions_types_extend(pre, post, s, e as int, k),
        Type::Matrix(e, _, _) => lemma_mentions_types_extend(pre, post, s, e as int, k),
        Type::Stream(e) => lemma_mentions_types_extend(pre, post, s, e as int, k),
        Type::Tuple(start, count) => lemma_run_mentions_types_extend(
            pre,
            post,
            s,
            start as int,
            count as int,
            k,
        ),
        Type::Opt(e) => lemma_mentions_types_extend(pre, post, s, e as int, k),
        Type::Either(l, r) => {
            lemma_mentions_types_extend(pre, post, s, l as int, k);
            lemma_mentions_types_extend(pre, post, s, r as int, k);
        },
        _ => {},
    }
}

/// As `lemma_mentions_types_extend`, for runs.
pub proof fn lemma_run_mentions_types_extend(
    pre: Seq<Type>,
    post: Seq<Type>,
    s: Seq<(usize, usize)>,
    st: int,
    c: int,
    k: int,
)
    requires
        types_wf(pre),
        types_wf(post),
        arena_extends(pre, post),
        0 <= st,
        0 <= c,
        st + c <= pre.len(),
        run_mentions_only_from(pre, s, st, c, k),
    ensures
        run_mentions_only_from(post, s, st, c, k),
    decreases st + c, 0int,
{
    if c != 0 {
        lemma_mentions_types_extend(pre, post, s, st + c - 1, k);
        lemma_run_mentions_types_extend(pre, post, s, st, c - 1, k);
    }
}

/// Mention constraints with a bound no larger than the old list length
/// survive appending bindings: old bindings keep their positions, and new
/// ones sit at or beyond the old length.
pub proof fn lemma_mentions_subst_extend(
    types: Seq<Type>,
    pre: Seq<(usize, usize)>,
    post: Seq<(usize, usize)>,
    t: int,
    k: int,
)
    requires
        types_wf(types),
        0 <= t < types.len(),
        subst_extends(pre, post),
        forall|j1: int, j2: int|
            0 <= j1 < j2 < post.len() ==> (#[trigger] post[j1]).0 != (#[trigger] post[j2]).0,
        0 <= k <= pre.len(),
        mentions_only_from(types, pre, t, k),
    ensures
        mentions_only_from(types, post, t, k),
    decreases t, 1int,
{
    assert(type_wf_at(types, t));
    match types[t] {
        Type::Variable(y) => {
            if is_bound(post, y) {
                let p = pos_of(post, y);
                assert(0 <= p < post.len() && post[p].0 == y);
                if p < pre.len() {
                    assert(post.subrange(0, pre.len() as int)[p] == pre[p]);
                    assert(pre[p].0 == y);
                    assert(is_bound(pre, y));
                    let q = pos_of(pre, y);
                    assert(0 <= q < pre.len() && pre[q].0 == y);
                    assert(post.subrange(0, pre.len() as int)[q] == pre[q]);
                    assert(post[q].0 == y);
                    lemma_pos_of_unique(post, y, q);
                    assert(p == q);
                }
            }
        },
        Type::Vect(e, _) => lemma_mentions_subst_extend(types, pre, post, e as int, k),
        Type::Covec(e, _) => lemma_mentions_subst_extend(types, pre, post, e as int, k),
        Type::Matrix(e, _, _) => lemma_mentions_subst_extend(types, pre, post, e as int, k),
        Type::Stream(e) => lemma_mentions_subst_extend(types, pre, post, e as int, k),
        Type::Tuple(start, count) => lemma_run_mentions_subst_extend(
            types,
            pre,
            post,
            start as int,
            count as int,
            k,
        ),
        Type::Opt(e) => lemma_mentions_subst_extend(types, pre, post, e as int, k),
        Type::Either(l, r) => {
            lemma_mentions_subst_extend(types, pre, post, l as int, k);
            lemma_mentions_subst_extend(types, pre, post, r as int, k);
        },
        _ => {},
    }
}

/// As `lemma_mentions_subst_extend`, for runs.
pub proof fn lemma_run_mentions_subst_extend(
    types: Seq<Type>,
    pre: Seq<(usize, usize)>,
    post: Seq<(usize, usize)>,
    st: int,
    c: int,
    k: int,
)
    requires
        types_wf(types),
        0 <= st,
        0 <= c,
        st + c <= types.len(),
        subst_extends(pre, post),
        forall|j1: int, j2: int|
            0 <= j1 < j2 < post.len() ==> (#[trigger] post[j1]).0 != (#[trigger] post[j2]).0,
        0 <= k <= pre.len(),
        run_mentions_only_from(types, pre, st, c, k),
    ensures
        run_mentions_only_from(types, post, st, c, k),
    decreases st + c, 0int,
{
    if c != 0 {
        lemma_mentions_subst_extend(types, pre, post, st + c - 1, k);
        lemma_run_mentions_subst_extend(types, pre, post, st, c - 1, k);
    }
}

/// A type that mentions no bound variable and not `x` satisfies every
/// mention constraint after `x` is bound.
pub proof fn lemma_mentions_after_bind(
    types: Seq<Type>,
    s: Seq<(usize, usize)>,
    t: int,
    x: usize,
    u: usize,
    k: int,
)
    requires
        types_wf(types),
        0 <= t < types.len(),
        mentions_only_from(types, s, t, s.len() as int),
        !contains_var(types, x, t),
    ensures
        mentions_only_from(types, s.push((x, u)), t, k),
    decreases t, 1int,
{
    assert(type_wf_at(types, t));
    let s2 = s.push((x, u));
    match types[t] {
        Type::Variable(y) => {
            assert(y != x);
            if is_bound(s, y) {
                assert(pos_of(s, y) >= s.len());
                assert(0 <= pos_of(s, y) < s.len());
            }
            if is_bound(s2, y) {
                let p = pos_of(s2, y);
                assert(0 <= p < s2.len() && s2[p].0 == y);
                if p < s.len() {
                    assert(s[p].0 == y);
                    assert(is_bound(s, y));
                } else {
                    assert(s2[p] == (x, u));
                }
                assert(false);
            }
        },
        Type::Vect(e, _) => lemma_mentions_after_bind(types, s, e as int, x, u, k),
        Type::Covec(e, _) => lemma_mentions_after_bind(types, s, e as int, x, u, k),
        Type::Matrix(e, _, _) => lemma_mentions_after_bind(types, s, e as int, x, u, k),
        Type::Stream(e) => lemma_mentions_after_bind(types, s, e as int, x, u, k),
        Type::Tuple(start, count) => lemma_run_mentions_after_bind(
            types,
            s,
            start as int,
            count as int,
            x,
            u,
            k,
        ),
        Type::Opt(e) => lemma_mentions_after_bind(types, s, e as int, x, u, k),
        Type::Either(l, r) => {
            lemma_mentions_after_bind(types, s, l as int, x, u, k);
            lemma_mentions_after_bind(types, s, r as int, x, u, k);
        },
        _ => {},
    }
}

/// As `lemma_mentions_after_bind`, for runs.
pub proof fn lemma_run_mentions_after_bind(
    types: Seq<Type>,
    s: Seq<(usize, usize)>,
    st: int,
    c: int,
    x: usize,
    u: usize,
    k: int,
)
    requires
        types_wf(types),
        0 <= st,
        0 <= c,
        st + c <= types.len(),
        run_mentions_only_from(types, s, st, c, s.len() as int),
        !run_contains_var(types, x, st, c),
    ensures
        run_mentions_only_from(types, s.push((x, u)), st, c, k),
    decreases st + c, 0int,
{
    if c != 0 {
        lemma_mentions_after_bind(types, s, st + c - 1, x, u, k);
        lemma_run_mentions_after_bind(types, s, st, c - 1, x, u, k);
    }
}

/// A mention constraint on a run yields one on each element.
pub proof fn lemma_run_mentions_index(
    types: Seq<Type>,
    s: Seq<(usize, usize)>,
    st: int,
    c: int,
    k: int,
    i: int,
)
    requires
        types_wf(types),
        0 <= st,
        0 <= c,
        st + c <= types.len(),
        run_mentions_only_from(types, s, st, c, k),
        0 <= i < c,
    ensures
        mentions_only_from(types, s, st + i, k),
    decreases c,
{
    if i < c - 1 {
        lemma_run_mentions_index(types, s, st, c - 1, k, i);
    }
}

/// Elementwise mention constraints assemble into one on the run.
pub proof fn lemma_run_mentions_all(
    types: Seq<Type>,
    s: Seq<(usize, usize)>,
    st: int,
    c: int,
    k: int,
)
    requires
        types_wf(types),
        0 <= st,
        0 <= c,
        st + c <= types.len(),
        forall|i: int| 0 <= i < c ==> #[trigger] mentions_only_from(types, s, st + i, k),
    ensures
        run_mentions_only_from(types, s, st, c, k),
    decreases c,
{
    if c != 0 {
        let i = c - 1;
        assert(mentions_only_from(types, s, st + i, k));
        lemma_run_mentions_all(types, s, st, c - 1, k);
    }
}

/// Two arena entries holding the same record satisfy the same mention
/// constraints: the judgement only reads the record and its components.
pub proof fn lemma_mentions_same_entry(
    types: Seq<Type>,
    s: Seq<(usize, usize)>,
    t1: int,
    t2: int,
    k: int,
)
    requires
        types_wf(types),
        0 <= t1 < types.len(),
        0 <= t2 < types.len(),
        types[t1] == types[t2],
    ensures
        mentions_only_from(types, s, t1, k) == mentions_only_from(types, s, t2, k),
{
    assert(type_wf_at(types, t1));
    assert(type_wf_at(types, t2));
}

/// A duplicate-free list of variables below `limit` has at most `limit`
/// entries.
pub proof fn lemma_subst_len(s: Seq<(usize, usize)>, limit: nat)
    requires
        forall|j: int| 0 <= j < s.len() ==> ((#[trigger] s[j]).0 as nat) < limit,
        forall|j1: int, j2: int|
            0 <= j1 < j2 < s.len() ==> (#[trigger] s[j1]).0 != (#[trigger] s[j2]).0,
    ensures
        s.len() <= limit,
{
    let firsts = Seq::new(s.len(), |j: int| s[j].0 as int);
    assert(firsts.no_duplicates());
    firsts.unique_seq_to_set();
    let range = vstd::set_lib::set_int_range(0, limit as int);
    vstd::set_lib::lemma_int_range(0, limit as int);
    assert forall|e: int| firsts.to_set().contains(e) implies range.contains(e) by {
        let j = choose|j: int| 0 <= j < firsts.len() && firsts[j] == e;
        assert(0 <= s[j].0 < limit);
    }
    vstd::set_lib::lemma_len_subset(firsts.to_set(), range);
}

impl Substitution {
    /// The identity substitution.
    pub fn new() -> (r: Substitution)
        ensures
            r.bindings@.len() == 0,
    {
        Substitution { bindings: Vec::new() }
    }

    /// A copy of the substitution, for a search that must backtrack.
    pub fn duplicate(&self) -> (r: Substitution)
        ensures
            r.bindings@ == self.bindings@,
    {
        let mut out: Vec<(usize, usize)> = Vec::new();
        let n = self.bindings.len();
        let mut i: usize = 0;
        while i < n
            invariant
                i <= n,
                n == self.bindings@.len(),
                out@ == self.bindings@.subrange(0, i as int),
            decreases n - i,
        {
            out.push(self.bindings[i]);
            proof {
                assert(out@ =~= self.bindings@.subrange(0, i as int + 1));
            }
            i = i + 1;
        }
        proof {
            assert(out@ =~= self.bindings@);
        }
        Substitution { bindings: out }
    }

    /// Linear scan for the binding of `x`: its list position and the stored
    /// type position, or `None` when `x` is unbound.
    pub fn lookup(&self, x: usize) -> (r: Option<(usize, usize)>)
        ensures
            match r {
                Some(p) => (p.0 as int) < self.bindings@.len() && self.bindings@[p.0 as int] == (
                    x,
                    p.1,
                ),
                None => !is_bound(self.bindings@, x),
            },
    {
        let n = self.bindings.len();
        let mut i: usize = 0;
        while i < n
            invariant
                i <= n,
                n == self.bindings@.len(),
                forall|j: int| 0 <= j < i ==> (#[trigger] self.bindings@[j]).0 != x,
            decreases n - i,
        {
            if self.bindings[i].0 == x {
                return Some((i, self.bindings[i].1));
            }
            i = i + 1;
        }
        None
    }
}

/// A well-formed binding list stays well formed when fresh types are
/// appended to the arena.
pub proof fn lemma_wf_subst_types_extend(
    pre: Seq<Type>,
    post: Seq<Type>,
    s: Seq<(usize, usize)>,
    limit: nat,
)
    requires
        types_wf(pre),
        types_wf(post),
        arena_extends(pre, post),
        wf_subst(pre, s, limit),
    ensures
        wf_subst(post, s, limit),
{
    assert forall|j: int| 0 <= j < s.len() implies mentions_only_from(
        post,
        s,
        ((#[trigger] s[j]).1) as int,
        j + 1,
    ) by {
        assert(mentions_only_from(pre, s, (s[j].1) as int, j + 1));
        lemma_mentions_types_extend(pre, post, s, (s[j].1) as int, j + 1);
    }
}

/// Appending a binding of a fresh variable to a type that mentions only
/// unbound variables, none of them the variable itself, keeps the binding
/// list well formed.
pub proof fn lemma_wf_subst_bind(
    types: Seq<Type>,
    s: Seq<(usize, usize)>,
    x: usize,
    t: usize,
    limit: nat,
)
    requires
        types_wf(types),
        wf_subst(types, s, limit),
        (x as nat) < limit,
        !is_bound(s, x),
        (t as int) < types.len(),
        mentions_only_from(types, s, t as int, s.len() as int),
        !contains_var(types, x, t as int),
    ensures
        wf_subst(types, s.push((x, t)), limit),
        subst_extends(s, s.push((x, t))),
{
    let s2 = s.push((x, t));
    assert(s2.subrange(0, s.len() as int) =~= s);
    assert forall|j1: int, j2: int| 0 <= j1 < j2 < s2.len() implies (#[trigger] s2[j1]).0 != (
    #[trigger] s2[j2]).0 by {
        if j2 < s.len() {
            assert(s[j1].0 != s[j2].0);
        } else {
            assert(s2[j2] == (x, t));
            if s[j1].0 == x {
                assert(is_bound(s, x));
            }
        }
    }
    assert forall|j: int| 0 <= j < s2.len() implies mentions_only_from(
        types,
        s2,
        ((#[trigger] s2[j]).1) as int,
        j + 1,
    ) by {
        if j < s.len() {
            assert(mentions_only_from(types, s, (s[j].1) as int, j + 1));
            lemma_mentions_subst_extend(types, s, s2, (s[j].1) as int, j + 1);
        } else {
            assert(s2[j] == (x, t));
            lemma_mentions_after_bind(types, s, t as int, x, t, j + 1);
        }
    }
}

impl TypeRegistry {
    /// Whether the variable `x` occurs anywhere inside the type at `t`.
    fn occurs(&self, x: usize, t: usize) -> (r: bool)
        requires
            self.wf(),
            (t as int) < self.types@.len(),
        ensures
            r == contains_var(self.types@, x, t as int),
        decreases t,
    {
        proof {
            assert(type_wf_at(self.types@, t as int));
        }
        match self.types[t] {
            Type::Variable(y) => y == x,
            Type::Str => false,
            Type::Int => false,
            Type::Float => false,
            Type::DateTime => false,
            Type::Vect(e, _) => self.occurs(x, e),
            Type::Covec(e, _) => self.occurs(x, e),
            Type::Matrix(e, _, _) => self.occurs(x, e),
            Type::Stream(e) => self.occurs(x, e),
            Type::Tuple(start, count) => {
                let mut i: usize = 0;
                while i < count
                    invariant
                        self.wf(),
                        i <= count,
                        self.types@[t as int] == Type::Tuple(start, count),
                        (t as int) < self.types@.len(),
                        (start as int) + (count as int) <= (t as int),
                        !run_contains_var(self.types@, x, start as int, i as int),
                    decreases count - i,
                {
                    if self.occurs(x, start + i) {
                        proof {
                            assert(run_contains_var(self.types@, x, start as int, i as int + 1));
                            lemma_run_contains_var_mono(
                                self.types@,
                                x,
                                start as int,
                                i as int + 1,
                                count as int,
                            );
                        }
                        return true;
                    }
                    i = i + 1;
                }
                false
            },
            Type::Opt(e) => self.occurs(x, e),
            Type::Either(l, r) => {
                if self.occurs(x, l) {
                    true
                } else {
                    self.occurs(x, r)
                }
            },
        }
    }

    /// Apply the substitution to the type at `t`, allocating substituted
    /// copies of composite types; the result mentions no bound variable.
    /// `k` bounds the positions where variables mentioned by `t` may be
    /// bound, which is what makes following bindings terminate.
    fn subst_apply(&mut self, s: &Substitution, t: usize, k: Ghost<int>) -> (r: usize)
        requires
            old(self).wf(),
            (t as int) < old(self).types@.len(),
            wf_subst(old(self).types@, s.bindings@, old(self).var_count as nat),
            0 <= k@ <= s.bindings@.len(),
            mentions_only_from(old(self).types@, s.bindings@, t as int, k@),
        ensures
            final(self).wf(),
            final(self).var_count == old(self).var_count,
            arena_extends(old(self).types@, final(self).types@),
            (r as int) < final(self).types@.len(),
            mentions_only_from(
                final(self).types@,
                s.bindings@,
                r as int,
                s.bindings@.len() as int,
            ),
        decreases s.bindings@.len() - k@, t,
    {
        proof {
            assert(type_wf_at(self.types@, t as int));
            crate::arena::lemma_arena_extends_refl(self.types@);
        }
        let sb = Ghost(s.bindings@);
        match self.types[t] {
            Type::Variable(x) => {
                match s.lookup(x) {
                    Some(p) => {
                        proof {
                            lemma_pos_of_unique(sb@, x, p.0 as int);
                            assert(mentions_only_from(self.types@, sb@, t as int, k@));
                            assert(is_bound(sb@, x));
                            assert(pos_of(sb@, x) >= k@);
                            assert(mentions_only_from(
                                self.types@,
                                sb@,
                                (sb@[p.0 as int].1) as int,
                                p.0 as int + 1,
                            ));
                        }
                        self.subst_apply(s, p.1, Ghost(p.0 as int + 1))
                    },
                    None => {
                        proof {
                            assert(!is_bound(sb@, x));
                        }
                        t
                    },
                }
            },
            Type::Str => t,
            Type::Int => t,
            Type::Float => t,
            Type::DateTime => t,
            Type::Vect(e, n) => {
                let e2 = self.subst_apply(s, e, k);
                let ghost mid = self.types@;
                let p = self.add_type(Type::Vect(e2, n));
                proof {
                    crate::arena::lemma_push_extends(mid, self.types@);
                    lemma_arena_extends_trans(old(self).types@, mid, self.types@);
                    lemma_mentions_types_extend(mid, self.types@, sb@, e2 as int, sb@.len() as int);
                }
                p
            },
            Type::Covec(e, n) => {
                let e2 = self.subst_apply(s, e, k);
                let ghost mid = self.types@;
                let p = self.add_type(Type::Covec(e2, n));
                proof {
                    crate::arena::lemma_push_extends(mid, self.types@);
                    lemma_arena_extends_trans(old(self).types@, mid, self.types@);
                    lemma_mentions_types_extend(mid, self.types@, sb@, e2 as int, sb@.len() as int);
                }
                p
            },
            Type::Matrix(e, n, m) => {
                let e2 = self.subst_apply(s, e, k);
                let ghost mid = self.types@;
                let p = self.add_type(Type::Matrix(e2, n, m));
                proof {
                    crate::arena::lemma_push_extends(mid, self.types@);
                    lemma_arena_extends_trans(old(self).types@, mid, self.types@);
                    lemma_mentions_types_extend(mid, self.types@, sb@, e2 as int, sb@.len() as int);
                }
                p
            },
            Type::Stream(e) => {
                let e2 = self.subst_apply(s, e, k);
                let ghost mid = self.types@;
                let p = self.add_type(Type::Stream(e2));
                proof {
                    crate::arena::lemma_push_extends(mid, self.types@);
                    lemma_arena_extends_trans(old(self).types@, mid, self.types@);
                    lemma_mentions_types_extend(mid, self.types@, sb@, e2 as int, sb@.len() as int);
                }
                p
            },
            Type::Opt(e) => {
                let e2 = self.subst_apply(s, e, k);
                let ghost mid = self.types@;
                let p = self.add_type(Type::Opt(e2));
                proof {
                    crate::arena::lemma_push_extends(mid, self.types@);
                    lemma_arena_extends_trans(old(self).types@, mid, self.types@);
                    lemma_mentions_types_extend(mid, self.types@, sb@, e2 as int, sb@.len() as int);
                }
                p
            },
            Type::Either(l, rr) => {
                let l2 = self.subst_apply(s, l, k);
                let ghost mid1 = self.types@;
                proof {
                    lemma_mentions_types_extend(old(self).types@, mid1, sb@, rr as int, k@);
                    lemma_wf_subst_types_extend(
                        old(self).types@,
                        mid1,
                        sb@,
                        old(self).var_count as nat,
                    );
                }
                let r2 = self.subst_apply(s, rr, k);
                let ghost mid2 = self.types@;
                proof {
                    lemma_mentions_types_extend(mid1, mid2, sb@, l2 as int, sb@.len() as int);
                }
                let p = self.add_type(Type::Either(l2, r2));
                proof {
                    crate::arena::lemma_push_extends(mid2, self.types@);
                    lemma_arena_extends_trans(old(self).types@, mid1, mid2);
                    lemma_arena_extends_trans(old(self).types@, mid2, self.types@);
                    lemma_mentions_types_extend(mid2, self.types@, sb@, l2 as int, sb@.len() as int);
                    lemma_mentions_types_extend(mid2, self.types@, sb@, r2 as int, sb@.len() as int);
                }
                p
            },
            Type::Tuple(start, count) => {
                let ghost t0 = old(self).types@;
                let mut kids: Vec<usize> = Vec::new();
                let mut i: usize = 0;
                while i < count
                    invariant
                        self.wf(),
                        self.var_count == old(self).var_count,
                        arena_extends(t0, self.types@),
                        types_wf(t0),
                        wf_subst(t0, sb@, old(self).var_count as nat),
                        sb@ == s.bindings@,
                        0 <= k@ <= sb@.len(),
                        i <= count,
                        kids@.len() == i,
                        t0[t as int] == Type::Tuple(start, count),
                        (t as int) < t0.len(),
                        (start as int) + (count as int) <= (t as int),
                        run_mentions_only_from(t0, sb@, start as int, count as int, k@),
                        forall|j: int|
                            0 <= j < i ==> ((#[trigger] kids@[j]) as int) < self.types@.len(),
                        forall|j: int|
                            0 <= j < i ==> mentions_only_from(
                                self.types@,
                                sb@,
                                (#[trigger] kids@[j]) as int,
                                sb@.len() as int,
                            ),
                    decreases count - i,
                {
                    proof {
                        lemma_run_mentions_index(
                            t0,
                            sb@,
                            start as int,
                            count as int,
                            k@,
                            i as int,
                        );
                        lemma_mentions_types_extend(t0, self.types@, sb@, start as int + i, k@);
                        lemma_wf_subst_types_extend(
                            t0,
                            self.types@,
                            sb@,
                            old(self).var_count as nat,
                        );
                    }
                    let ghost pre = self.types@;
                    let ci = self.subst_apply(s, start + i, k);
                    proof {
                        lemma_arena_extends_trans(t0, pre, self.types@);
                        assert forall|j: int| 0 <= j < i implies mentions_only_from(
                            self.types@,
                            sb@,
                            (#[trigger] kids@[j]) as int,
                            sb@.len() as int,
                        ) by {
                            lemma_mentions_types_extend(
                                pre,
                                self.types@,
                                sb@,
                                kids@[j] as int,
                                sb@.len() as int,
                            );
                        }
                    }
                    kids.push(ci);
                    i = i + 1;
                }
                let new_start = self.types.len();
                let ghost base = self.types@;
                proof {
                    crate::arena::lemma_arena_extends_refl(base);
                }
                let mut i2: usize = 0;
                while i2 < count
                    invariant
                        self.wf(),
                        self.var_count == old(self).var_count,
                        arena_extends(t0, base),
                        arena_extends(base, self.types@),
                        types_wf(t0),
                        sb@ == s.bindings@,
                        i2 <= count,
                        kids@.len() == count,
                        new_start == base.len(),
                        self.types@.len() == new_start + i2,
                        forall|j: int| 0 <= j < count ==> ((#[trigger] kids@[j]) as int) < base.len(),
                        forall|j: int|
                            0 <= j < count ==> mentions_only_from(
                                self.types@,
                                sb@,
                                (#[trigger] kids@[j]) as int,
                                sb@.len() as int,
                            ),
                        forall|j: int|
                            0 <= j < i2 ==> #[trigger] mentions_only_from(
                                self.types@,
                                sb@,
                                new_start as int + j,
                                sb@.len() as int,
                            ),
                    decreases count - i2,
                {
                    let src = kids[i2];
                    let rec = self.types[src];
                    proof {
                        assert(type_wf_at(self.types@, src as int));
                        assert(var_below_at(self.types@, src as int, self.var_count as nat));
                    }
                    let ghost pre = self.types@;
                    let p = self.add_type(rec);
                    proof {
                        crate::arena::lemma_push_extends(pre, self.types@);
                        lemma_arena_extends_trans(base, pre, self.types@);
                        assert forall|j: int| 0 <= j < count implies mentions_only_from(
                            self.types@,
                            sb@,
                            (#[trigger] kids@[j]) as int,
                            sb@.len() as int,
                        ) by {
                            lemma_mentions_types_extend(
                                pre,
                                self.types@,
                                sb@,
                                kids@[j] as int,
                                sb@.len() as int,
                            );
                        }
                        assert forall|j: int| 0 <= j < i2 implies #[trigger] mentions_only_from(
                            self.types@,
                            sb@,
                            new_start as int + j,
                            sb@.len() as int,
                        ) by {
                            lemma_mentions_types_extend(
                                pre,
                                self.types@,
                                sb@,
                                new_start as int + j,
                                sb@.len() as int,
                            );
                        }
                        lemma_mentions_same_entry(
                            self.types@,
                            sb@,
                            p as int,
                            src as int,
                            sb@.len() as int,
                        );
                    }
                    i2 = i2 + 1;
                }
                let ghost pre = self.types@;
                let p = self.add_type(Type::Tuple(new_start, count));
                proof {
                    crate::arena::lemma_push_extends(pre, self.types@);
                    lemma_arena_extends_trans(t0, base, pre);
                    lemma_arena_extends_trans(t0, pre, self.types@);
                    assert forall|j: int| 0 <= j < count implies #[trigger] mentions_only_from(
                        self.types@,
                        sb@,
                        new_start as int + j,
                        sb@.len() as int,
                    ) by {
                        lemma_mentions_types_extend(
                            pre,
                            self.types@,
                            sb@,
                            new_start as int + j,
                            sb@.len() as int,
                        );
                    }
                    lemma_run_mentions_all(
                        self.types@,
                        sb@,
                        new_start as int,
                        count as int,
                        sb@.len() as int,
                    );
                }
                p
            },
        }
    }

    /// Bind the unbound variable `x` to the type at `t` after applying the
    /// current substitution to it, unless `x` occurs in that type, which is
    /// the infinite-type error.
    fn bind_var(&mut self, s: Substitution, x: usize, t: usize, kt: Ghost<int>) -> (r: Result<
        Substitution,
        TypeError,
    >)
        requires
            old(self).wf(),
            (t as int) < old(self).types@.len(),
            wf_subst(old(self).types@, s.bindings@, old(self).var_count as nat),
            0 <= kt@ <= s.bindings@.len(),
            mentions_only_from(old(self).types@, s.bindings@, t as int, kt@),
            (x as nat) < old(self).var_count as nat,
            !is_bound(s.bindings@, x),
        ensures
            final(self).wf(),
            final(self).var_count == old(self).var_count,
            arena_extends(old(self).types@, final(self).types@),
            (r matches Ok(s2) ==> subst_extends(s.bindings@, s2.bindings@)
                && s2.bindings@.len() == s.bindings@.len() + 1 && wf_subst(
                final(self).types@,
                s2.bindings@,
                old(self).var_count as nat,
            )),
            (r matches Err(e) ==> e == TypeError::InfiniteType),
            s.bindings@.len() == 0 ==> final(self).types@ == old(self).types@,
            (s.bindings@.len() == 0 && contains_var(old(self).types@, x, t as int)) ==> (r matches
            Err(e2) && e2 == TypeError::InfiniteType),
            (s.bindings@.len() == 0 && !contains_var(old(self).types@, x, t as int)) ==> (r matches
            Ok(s3) && s3.bindings@ == s.bindings@.push((x, t))),
    {
        proof {
            crate::arena::lemma_arena_extends_refl(self.types@);
        }
        let t_applied: usize;
        if s.bindings.len() == 0 {
            t_applied = t;
            proof {
                lemma_mentions_empty(
                    self.types@,
                    s.bindings@,
                    t as int,
                    s.bindings@.len() as int,
                );
            }
        } else {
            t_applied = self.subst_apply(&s, t, kt);
        }
        if self.occurs(x, t_applied) {
            Err(TypeError::InfiniteType)
        } else {
            proof {
                lemma_wf_subst_types_extend(
                    old(self).types@,
                    self.types@,
                    s.bindings@,
                    old(self).var_count as nat,
                );
                lemma_wf_subst_bind(
                    self.types@,
                    s.bindings@,
                    x,
                    t_applied,
                    old(self).var_count as nat,
                );
            }
            let mut s2 = s;
            s2.bindings.push((x, t_applied));
            Ok(s2)
        }
    }
}

impl TypeRegistry {
    /// Structural unification under an incoming substitution. `ka` and `kb`
    /// bound the binding positions of variables mentioned by `a` and `b`.
    #[verifier::loop_isolation(false)]
    fn unify_rec(
        &mut self,
        s: Substitution,
        a: usize,
        b: usize,
        ka: Ghost<int>,
        kb: Ghost<int>,
    ) -> (r: Result<Substitution, TypeError>)
        requires
            old(self).wf(),
            (a as int) < old(self).types@.len(),
            (b as int) < old(self).types@.len(),
            wf_subst(old(self).types@, s.bindings@, old(self).var_count as nat),
            0 <= ka@ <= s.bindings@.len(),
            0 <= kb@ <= s.bindings@.len(),
            mentions_only_from(old(self).types@, s.bindings@, a as int, ka@),
            mentions_only_from(old(self).types@, s.bindings@, b as int, kb@),
        ensures
            final(self).wf(),
            final(self).var_count == old(self).var_count,
            arena_extends(old(self).types@, final(self).types@),
            (r matches Ok(s2) ==> subst_extends(s.bindings@, s2.bindings@) && wf_subst(
                final(self).types@,
                s2.bindings@,
                old(self).var_count as nat,
            )),
            (concrete(old(self).types@, a as int) && concrete(old(self).types@, b as int)
                && type_eq(old(self).types@, a as int, b as int)) ==> (r matches Ok(s2)
                && s2.bindings@ == s.bindings@ && final(self).types@ == old(self).types@),
            (concrete(old(self).types@, a as int) && concrete(old(self).types@, b as int)
                && !type_eq(old(self).types@, a as int, b as int)) ==> (r matches Err(e) && e
                == TypeError::TypeMismatch && final(self).types@ == old(self).types@),
            (s.bindings@.len() == 0 && is_type_var(old(self).types@, a as int) && is_type_var(
                old(self).types@,
                b as int,
            ) && type_var_id(old(self).types@, b as int) == type_var_id(old(self).types@, a as int))
                ==> (r matches Ok(s2) && s2.bindings@.len() == 0 && final(self).types@ == old(
                self,
            ).types@),
            (s.bindings@.len() == 0 && is_type_var(old(self).types@, a as int) && !contains_var(
                old(self).types@,
                type_var_id(old(self).types@, a as int),
                b as int,
            )) ==> (r matches Ok(s2) && s2.bindings@.len() == 1 && s2.bindings@[0] == (
            type_var_id(old(self).types@, a as int), b)),
            (s.bindings@.len() == 0 && is_type_var(old(self).types@, a as int) && contains_var(
                old(self).types@,
                type_var_id(old(self).types@, a as int),
                b as int,
            ) && !(is_type_var(old(self).types@, b as int) && type_var_id(
                old(self).types@,
                b as int,
            ) == type_var_id(old(self).types@, a as int))) ==> (r matches Err(e) && e
                == TypeError::InfiniteType),
        decreases
                old(self).var_count - s.bindings@.len(),
                2 * s.bindings@.len() - ka@ - kb@,
                a + b,
    {
        proof {
            assert(type_wf_at(self.types@, a as int));
            assert(type_wf_at(self.types@, b as int));
            assert(var_below_at(self.types@, a as int, self.var_count as nat));
            assert(var_below_at(self.types@, b as int, self.var_count as nat));
            lemma_subst_len(s.bindings@, old(self).var_count as nat);
            crate::arena::lemma_arena_extends_refl(self.types@);
            crate::arena::lemma_arena_extends_refl(s.bindings@);
        }
        let ta = self.types[a];
        let tb = self.types[b];
        match ta {
            Type::Variable(x) => {
                match s.lookup(x) {
                    Some(p) => {
                        proof {
                            lemma_pos_of_unique(s.bindings@, x, p.0 as int);
                            assert(mentions_only_from(
                                self.types@,
                                s.bindings@,
                                (s.bindings@[p.0 as int].1) as int,
                                p.0 as int + 1,
                            ));
                        }
                        return self.unify_rec(s, p.1, b, Ghost(p.0 as int + 1), kb);
                    },
                    None => {},
                }
            },
            _ => {},
        }
        match tb {
            Type::Variable(y) => {
                match s.lookup(y) {
                    Some(p) => {
                        proof {
                            lemma_pos_of_unique(s.bindings@, y, p.0 as int);
                            assert(mentions_only_from(
                                self.types@,
                                s.bindings@,
                                (s.bindings@[p.0 as int].1) as int,
                                p.0 as int + 1,
                            ));
                        }
                        return self.unify_rec(s, a, p.1, ka, Ghost(p.0 as int + 1));
                    },
                    None => {},
                }
            },
            _ => {},
        }
        match (ta, tb) {
            (Type::Variable(x), Type::Variable(y)) => {
                if x == y {
                    Ok(s)
                } else {
                    self.bind_var(s, x, b, kb)
                }
            },
            (Type::Variable(x), _) => self.bind_var(s, x, b, kb),
            (_, Type::Variable(y)) => self.bind_var(s, y, a, ka),
            (Type::Str, Type::Str) => Ok(s),
            (Type::Int, Type::Int) => Ok(s),
            (Type::Float, Type::Float) => Ok(s),
            (Type::DateTime, Type::DateTime) => Ok(s),
            (Type::Vect(e1, n1), Type::Vect(e2, n2)) => {
                if n1 != n2 {
                    Err(TypeError::TypeMismatch)
                } else {
                    self.unify_rec(s, e1, e2, ka, kb)
                }
            },
            (Type::Covec(e1, n1), Type::Covec(e2, n2)) => {
                if n1 != n2 {
                    Err(TypeError::TypeMismatch)
                } else {
                    self.unify_rec(s, e1, e2, ka, kb)
                }
            },
            (Type::Matrix(e1, n1, m1), Type::Matrix(e2, n2, m2)) => {
                if n1 != n2 || m1 != m2 {
                    Err(TypeError::TypeMismatch)
                } else {
                    self.unify_rec(s, e1, e2, ka, kb)
                }
            },
            (Type::Stream(e1), Type::Stream(e2)) => self.unify_rec(s, e1, e2, ka, kb),
            (Type::Opt(e1), Type::Opt(e2)) => self.unify_rec(s, e1, e2, ka, kb),
            (Type::Either(l1, r1), Type::Either(l2, r2)) => {
                let ghost ts0 = self.types@;
                let ghost s0 = s.bindings@;
                match self.unify_rec(s, l1, l2, ka, kb) {
                    Err(e) => Err(e),
                    Ok(s1) => {
                        proof {
                            lemma_mentions_types_extend(ts0, self.types@, s0, r1 as int, ka@);
                            lemma_mentions_types_extend(ts0, self.types@, s0, r2 as int, kb@);
                            lemma_mentions_subst_extend(
                                self.types@,
                                s0,
                                s1.bindings@,
                                r1 as int,
                                ka@,
                            );
                            lemma_mentions_subst_extend(
                                self.types@,
                                s0,
                                s1.bindings@,
                                r2 as int,
                                kb@,
                            );
                            lemma_subst_len(s1.bindings@, old(self).var_count as nat);
                            if s1.bindings@.len() == s0.len() {
                                assert(s1.bindings@ =~= s0);
                            }
                        }
                        let ghost mid = self.types@;
                        let res = self.unify_rec(s1, r1, r2, ka, kb);
                        proof {
                            lemma_arena_extends_trans(ts0, mid, self.types@);
                        }
                        match res {
                            Err(e) => Err(e),
                            Ok(s2) => {
                                proof {
                                    lemma_arena_extends_trans(s0, s1.bindings@, s2.bindings@);
                                }
                                Ok(s2)
                            },
                        }
                    },
                }
            },
            (Type::Tuple(st1, c1), Type::Tuple(st2, c2)) => {
                if c1 != c2 {
                    return Err(TypeError::TypeMismatch);
                }
                let ghost ts0 = self.types@;
                let ghost s0 = s.bindings@;
                let mut scur = s;
                let mut i: usize = 0;
                while i < c1
                    invariant
                        self.wf(),
                        self.var_count == old(self).var_count,
                        ts0 == old(self).types@,
                        types_wf(ts0),
                        arena_extends(ts0, self.types@),
                        ts0[a as int] == Type::Tuple(st1, c1),
                        ts0[b as int] == Type::Tuple(st2, c2),
                        c1 == c2,
                        (a as int) < ts0.len(),
                        (b as int) < ts0.len(),
                        (st1 as int) + (c1 as int) <= (a as int),
                        (st2 as int) + (c1 as int) <= (b as int),
                        i <= c1,
                        wf_subst(ts0, s0, old(self).var_count as nat),
                        wf_subst(self.types@, scur.bindings@, old(self).var_count as nat),
                        subst_extends(s0, scur.bindings@),
                        0 <= ka@ <= s0.len(),
                        0 <= kb@ <= s0.len(),
                        run_mentions_only_from(ts0, s0, st1 as int, c1 as int, ka@),
                        run_mentions_only_from(ts0, s0, st2 as int, c1 as int, kb@),
                        (concrete(ts0, a as int) && concrete(ts0, b as int)) ==> (
                        scur.bindings@ == s0 && self.types@ == ts0 && run_eq(
                            ts0,
                            st1 as int,
                            st2 as int,
                            i as int,
                        )),
                    decreases c1 - i,
                {
                    proof {
                        lemma_run_mentions_index(ts0, s0, st1 as int, c1 as int, ka@, i as int);
                        lemma_run_mentions_index(ts0, s0, st2 as int, c1 as int, kb@, i as int);
                        lemma_mentions_types_extend(ts0, self.types@, s0, st1 as int + i, ka@);
                        lemma_mentions_types_extend(ts0, self.types@, s0, st2 as int + i, kb@);
                        lemma_mentions_subst_extend(
                            self.types@,
                            s0,
                            scur.bindings@,
                            st1 as int + i,
                            ka@,
                        );
                        lemma_mentions_subst_extend(
                            self.types@,
                            s0,
                            scur.bindings@,
                            st2 as int + i,
                            kb@,
                        );
                        lemma_subst_len(scur.bindings@, old(self).var_count as nat);
                        if scur.bindings@.len() == s0.len() {
                            assert(scur.bindings@ =~= s0);
                        }
                        if concrete(ts0, a as int) && concrete(ts0, b as int) {
                            lemma_run_concrete_index(ts0, st1 as int, c1 as int, i as int);
                            lemma_run_concrete_index(ts0, st2 as int, c1 as int, i as int);
                        }
                    }
                    let ghost pre_types = self.types@;
                    let ghost pre_s = scur.bindings@;
                    let r1 = self.unify_rec(scur, st1 + i, st2 + i, ka, kb);
                    match r1 {
                        Err(e) => {
                            proof {
                                lemma_arena_extends_trans(ts0, pre_types, self.types@);
                                if concrete(ts0, a as int) && concrete(ts0, b as int) {
                                    if type_eq(ts0, a as int, b as int) {
                                        lemma_run_eq_index(
                                            ts0,
                                            st1 as int,
                                            st2 as int,
                                            c1 as int,
                                            i as int,
                                        );
                                    }
                                }
                            }
                            return Err(e);
                        },
                        Ok(snext) => {
                            proof {
                                lemma_arena_extends_trans(ts0, pre_types, self.types@);
                                lemma_arena_extends_trans(s0, pre_s, snext.bindings@);
                                if concrete(ts0, a as int) && concrete(ts0, b as int) {
                                    assert(run_eq(ts0, st1 as int, st2 as int, i as int + 1));
                                }
                            }
                            scur = snext;
                            i = i + 1;
                        },
                    }
                }
                proof {
                    if concrete(ts0, a as int) && concrete(ts0, b as int) {
                        assert(run_eq(ts0, st1 as int, st2 as int, c1 as int));
                        assert(type_eq(ts0, a as int, b as int));
                    }
                }
                Ok(scur)
            },
            _ => Err(TypeError::TypeMismatch),
        }
    }


    /// As `unify`, but under an incoming substitution, so that a caller can
    /// thread one substitution through a whole signature's slots.
    pub fn unify_under(&mut self, s: Substitution, a: usize, b: usize) -> (r: Result<
        Substitution,
        TypeError,
    >)
        requires
            old(self).wf(),
            (a as int) < old(self).types@.len(),
            (b as int) < old(self).types@.len(),
            wf_subst(old(self).types@, s.bindings@, old(self).var_count as nat),
        ensures
            final(self).wf(),
            final(self).var_count == old(self).var_count,
            arena_extends(old(self).types@, final(self).types@),
            (r matches Ok(s2) ==> subst_extends(s.bindings@, s2.bindings@) && wf_subst(
                final(self).types@,
                s2.bindings@,
                old(self).var_count as nat,
            )),
            (concrete(old(self).types@, a as int) && concrete(old(self).types@, b as int)
                && type_eq(old(self).types@, a as int, b as int)) ==> (r matches Ok(s2)
                && s2.bindings@ == s.bindings@ && final(self).types@ == old(self).types@),
            (concrete(old(self).types@, a as int) && concrete(old(self).types@, b as int)
                && !type_eq(old(self).types@, a as int, b as int)) ==> (r matches Err(e) && e
                == TypeError::TypeMismatch && final(self).types@ == old(self).types@),
    {
        proof {
            lemma_mentions_zero(self.types@, s.bindings@, a as int);
            lemma_mentions_zero(self.types@, s.bindings@, b as int);
        }
        self.unify_rec(s, a, b, Ghost(0), Ghost(0))
    }

    /// Decide whether the types at `a` and `b` can be made structurally
    /// identical by binding free type variables; on success the returned
    /// substitution holds the bindings (empty means the types were already
    /// identical). Structurally equal concrete types unify with the identity
    /// substitution; concrete types that differ fail with `TypeMismatch`; a
    /// variable unifies with any type that does not contain it and fails
    /// with `InfiniteType` against a type that does.
    pub fn unify(&mut self, a: usize, b: usize) -> (r: Result<Substitution, TypeError>)
        requires
            old(self).wf(),
            (a as int) < old(self).types@.len(),
            (b as int) < old(self).types@.len(),
        ensures
            final(self).wf(),
            final(self).var_count == old(self).var_count,
            arena_extends(old(self).types@, final(self).types@),
            (r matches Ok(s) ==> wf_subst(
                final(self).types@,
                s.bindings@,
                old(self).var_count as nat,
            )),
            (concrete(old(self).types@, a as int) && concrete(old(self).types@, b as int)
                && type_eq(old(self).types@, a as int, b as int)) ==> (r matches Ok(s)
                && s.bindings@.len() == 0 && final(self).types@ == old(self).types@),
            (concrete(old(self).types@, a as int) && concrete(old(self).types@, b as int)
                && !type_eq(old(self).types@, a as int, b as int)) ==> (r matches Err(e) && e
                == TypeError::TypeMismatch && final(self).types@ == old(self).types@),
            (is_type_var(old(self).types@, a as int) && is_type_var(old(self).types@, b as int)
                && type_var_id(old(self).types@, b as int) == type_var_id(
                old(self).types@,
                a as int,
            )) ==> (r matches Ok(s) && s.bindings@.len() == 0),
            (is_type_var(old(self).types@, a as int) && !contains_var(
                old(self).types@,
                type_var_id(old(self).types@, a as int),
                b as int,
            )) ==> (r matches Ok(s) && s.bindings@.len() == 1 && s.bindings@[0] == (
            type_var_id(old(self).types@, a as int), b)),
            (is_type_var(old(self).types@, a as int) && contains_var(
                old(self).types@,
                type_var_id(old(self).types@, a as int),
                b as int,
            ) && !(is_type_var(old(self).types@, b as int) && type_var_id(
                old(self).types@,
                b as int,
            ) == type_var_id(old(self).types@, a as int))) ==> (r matches Err(e) && e
                == TypeError::InfiniteType),
    {
        let sub = Substitution::new();
        proof {
            lemma_mentions_zero(self.types@, sub.bindings@, a as int);
            lemma_mentions_zero(self.types@, sub.bindings@, b as int);
        }
        self.unify_rec(sub, a, b, Ghost(0), Ghost(0))
    }
}

} // verus!
