//! Arity-wrapped types, signatures, and overload resolution. A signature
//! declares its inputs as an ordered run or an unordered bag of
//! arity-wrapped types; resolution decides which candidate signature of a
//! node is satisfied by the connected input ports, where a `Single` slot
//! consumes exactly one port, a `Many` slot consumes zero or more ports of
//! one unifiable type, every port must be consumed exactly once, and more
//! than one satisfied candidate is an ambiguity error, never a silent pick.
//!
//! The matching contracts are exact when every slot and port type is
//! concrete; slots with free type variables are matched by threading one
//! substitution through the signature.

use vstd::prelude::*;
use crate::arena::AritiedTypeIdx;
use crate::arena::ManyIdx;
use crate::arena::SetIdx;
use crate::arena::SignatureIdx;
use crate::arena::TypeIdx;
use crate::arena::VecIdx;
use crate::types::Type;
use crate::types::TypeRegistry;
use crate::types::concrete;
use crate::types::type_eq;
use crate::unify::Substitution;
use crate::unify::wf_subst;

verus! {

/// A type wrapped with its cardinality: exactly one value, or zero or more
/// same-typed values. The payload is the type's arena position.
#[derive(Clone, Copy, Debug, PartialEq, Eq, Structural)]
pub enum AritiedType {
    /// Exactly one value of the type at this position.
    Single(usize),
    /// Zero or more values of the type at this position.
    Many(usize),
}

/// The type position an arity wrapper carries.
pub open spec fn at_type(at: AritiedType) -> usize {
    match at {
        AritiedType::Single(t) => t,
        AritiedType::Many(t) => t,
    }
}

/// One overload of an operation: input slots as an ordered run or an
/// unordered bag in the arity-type arena, output types as an ordered run in
/// the type arena.
#[derive(Clone, Copy, Debug)]
pub struct Signature {
    /// The input slots.
    pub input: ManyIdx<AritiedTypeIdx>,
    /// The output types.
    pub output: VecIdx<TypeIdx>,
}

/// Why no signature was resolved for a node.
#[derive(Clone, Copy, Debug, PartialEq, Eq, Structural)]
pub enum ArityError {
    /// No candidate signature is satisfied by the connected inputs.
    NoMatchingSignature,
    /// More than one candidate signature is satisfied.
    AmbiguousOverload,
}

/// Every slot in the run names a type position below `tlen`.
pub open spec fn ats_in_bounds(ats: Seq<AritiedType>, start: int, count: int, tlen: int) -> bool {
    &&& 0 <= start
    &&& 0 <= count
    &&& start + count <= ats.len()
    &&& forall|i: int| start <= i < start + count ==> (at_type(#[trigger] ats[i]) as int) < tlen
}

/// Every port names a type position below `tlen`.
pub open spec fn ports_in_bounds(ports: Seq<usize>, tlen: int) -> bool {
    forall|i: int| 0 <= i < ports.len() ==> ((#[trigger] ports[i]) as int) < tlen
}

/// Every slot type in the run is concrete.
pub open spec fn slots_concrete(types: Seq<Type>, ats: Seq<AritiedType>, start: int, count: int) -> bool {
    forall|i: int| start <= i < start + count ==> concrete(types, at_type(#[trigger] ats[i]) as int)
}

/// Every port type is concrete.
pub open spec fn ports_concrete(types: Seq<Type>, ports: Seq<usize>) -> bool {
    forall|i: int| 0 <= i < ports.len() ==> concrete(types, (#[trigger] ports[i]) as int)
}

/// Ordered matching on structurally identical types: slots `si..count` of
/// the run against ports `pj..`. A `Single` slot takes the next port; a
/// `Many` slot takes zero or more next ports of its type; every port must be
/// taken.
pub open spec fn spec_match_ordered(
    types: Seq<Type>,
    ats: Seq<AritiedType>,
    start: int,
    count: int,
    si: int,
    ports: Seq<usize>,
    pj: int,
) -> bool
    decreases count - si, ports.len() - pj,
        when 0 <= si <= count && 0 <= pj <= ports.len() && 0 <= start && start + count <= ats.len()
{
    if si == count {
        pj == ports.len()
    } else {
        match ats[start + si] {
            AritiedType::Single(t) => pj < ports.len() && type_eq(
                types,
                t as int,
                ports[pj] as int,
            ) && spec_match_ordered(types, ats, start, count, si + 1, ports, pj + 1),
            AritiedType::Many(t) => spec_match_ordered(types, ats, start, count, si + 1, ports, pj)
                || (pj < ports.len() && type_eq(types, t as int, ports[pj] as int)
                && spec_match_ordered(types, ats, start, count, si, ports, pj + 1)),
        }
    }
}

/// Unordered matching on structurally identical types: slots `si..count`
/// against the bag `rem` of remaining ports. A `Single` slot takes any one
/// port of its type; a `Many` slot takes any sub-bag of its type; every port
/// must be taken.
pub open spec fn spec_match_unordered(
    types: Seq<Type>,
    ats: Seq<AritiedType>,
    start: int,
    count: int,
    si: int,
    rem: Seq<usize>,
) -> bool
    decreases count - si, rem.len(),
        when 0 <= si <= count && 0 <= start && start + count <= ats.len()
{
    if si == count {
        rem.len() == 0
    } else {
        match ats[start + si] {
            AritiedType::Single(t) => exists|q: int|
                0 <= q < rem.len() && type_eq(types, t as int, (#[trigger] rem[q]) as int)
                    && spec_match_unordered(types, ats, start, count, si + 1, rem.remove(q)),
            AritiedType::Many(t) => spec_match_unordered(types, ats, start, count, si + 1, rem)
                || (exists|q: int|
                0 <= q < rem.len() && type_eq(types, t as int, (#[trigger] rem[q]) as int)
                    && spec_match_unordered(types, ats, start, count, si, rem.remove(q))),
        }
    }
}

/// The candidate at `i` is satisfied by the ports (on structurally
/// identical, concrete types).
pub open spec fn spec_sig_matches(
    types: Seq<Type>,
    ats: Seq<AritiedType>,
    sigs: Seq<Signature>,
    i: int,
    ports: Seq<usize>,
) -> bool {
    match sigs[i].input {
        ManyIdx::VecIdx(run) => spec_match_ordered(
            types,
            ats,
            run.start as int,
            run.count as int,
            0,
            ports,
            0,
        ),
        ManyIdx::SetIdx(run) => spec_match_unordered(
            types,
            ats,
            run.start as int,
            run.count as int,
            0,
            ports,
        ),
    }
}

/// A copy of a port list, for the backtracking search.
fn copy_ports(v: &Vec<usize>) -> (r: Vec<usize>)
    ensures
        r@ == v@,
{
    let mut out: Vec<usize> = Vec::new();
    let n = v.len();
    let mut i: usize = 0;
    while i < n
        invariant
            i <= n,
            n == v@.len(),
            out@ == v@.subrange(0, i as int),
        decreases n - i,
    {
        out.push(v[i]);
        proof {
            assert(out@ =~= v@.subrange(0, i as int + 1));
        }
        i = i + 1;
    }
    proof {
        assert(out@ =~= v@);
    }
    out
}

/// Ordered matching, threading the substitution through the slots.
fn match_ordered(
    reg: &mut TypeRegistry,
    ats: &Vec<AritiedType>,
    start: usize,
    count: usize,
    si: usize,
    ports: &Vec<usize>,
    pj: usize,
    s: Substitution,
) -> (r: Option<Substitution>)
    requires
        old(reg).wf(),
        ats_in_bounds(ats@, start as int, count as int, old(reg).types@.len() as int),
        ports_in_bounds(ports@, old(reg).types@.len() as int),
        si <= count,
        pj <= ports@.len(),
        wf_subst(old(reg).types@, s.bindings@, old(reg).var_count as nat),
    ensures
        final(reg).wf(),
        final(reg).var_count == old(reg).var_count,
        crate::arena::arena_extends(old(reg).types@, final(reg).types@),
        (slots_concrete(old(reg).types@, ats@, start as int, count as int) && ports_concrete(
            old(reg).types@,
            ports@,
        )) ==> (final(reg).types@ == old(reg).types@ && (r is Some <==> spec_match_ordered(
            old(reg).types@,
            ats@,
            start as int,
            count as int,
            si as int,
            ports@,
            pj as int,
        ))),
    decreases count - si, ports@.len() - pj,
{
    proof {
        crate::arena::lemma_arena_extends_refl(reg.types@);
    }
    if si == count {
        if pj == ports.len() {
            Some(s)
        } else {
            None
        }
    } else {
        let alen = ats.len();
        proof {
            assert(start as int + si < alen as int);
        }
        match ats[start + si] {
            AritiedType::Single(t) => {
                if pj < ports.len() {
                    match reg.unify_under(s, t, ports[pj]) {
                        Ok(s2) => {
                            let ghost mid = reg.types@;
                            let res = match_ordered(
                                reg,
                                ats,
                                start,
                                count,
                                si + 1,
                                ports,
                                pj + 1,
                                s2,
                            );
                            proof {
                                crate::arena::lemma_arena_extends_trans(
                                    old(reg).types@,
                                    mid,
                                    reg.types@,
                                );
                            }
                            res
                        },
                        Err(_) => None,
                    }
                } else {
                    None
                }
            },
            AritiedType::Many(t) => {
                let keep = s.duplicate();
                let skip = match_ordered(reg, ats, start, count, si + 1, ports, pj, s);
                if skip.is_some() {
                    skip
                } else if pj < ports.len() {
                    let ghost mid = reg.types@;
                    proof {
                        crate::unify::lemma_wf_subst_types_extend(
                            old(reg).types@,
                            mid,
                            keep.bindings@,
                            old(reg).var_count as nat,
                        );
                    }
                    match reg.unify_under(keep, t, ports[pj]) {
                        Ok(s2) => {
                            let ghost mid2 = reg.types@;
                            let res = match_ordered(reg, ats, start, count, si, ports, pj + 1, s2);
                            proof {
                                crate::arena::lemma_arena_extends_trans(
                                    old(reg).types@,
                                    mid,
                                    mid2,
                                );
                                crate::arena::lemma_arena_extends_trans(
                                    old(reg).types@,
                                    mid2,
                                    reg.types@,
                                );
                            }
                            res
                        },
                        Err(_) => {
                            proof {
                                crate::arena::lemma_arena_extends_trans(
                                    old(reg).types@,
                                    mid,
                                    reg.types@,
                                );
                            }
                            None
                        },
                    }
                } else {
                    None
                }
            },
        }
    }
}

/// Unordered matching: a backtracking search over which remaining port each
/// slot takes.
fn match_unordered(
    reg: &mut TypeRegistry,
    ats: &Vec<AritiedType>,
    start: usize,
    count: usize,
    si: usize,
    rem: Vec<usize>,
    s: Substitution,
) -> (r: Option<Substitution>)
    requires
        old(reg).wf(),
        ats_in_bounds(ats@, start as int, count as int, old(reg).types@.len() as int),
        ports_in_bounds(rem@, old(reg).types@.len() as int),
        si <= count,
        wf_subst(old(reg).types@, s.bindings@, old(reg).var_count as nat),
    ensures
        final(reg).wf(),
        final(reg).var_count == old(reg).var_count,
        crate::arena::arena_extends(old(reg).types@, final(reg).types@),
        (slots_concrete(old(reg).types@, ats@, start as int, count as int) && ports_concrete(
            old(reg).types@,
            rem@,
        )) ==> (final(reg).types@ == old(reg).types@ && (r is Some <==> spec_match_unordered(
            old(reg).types@,
            ats@,
            start as int,
            count as int,
            si as int,
            rem@,
        ))),
    decreases count - si, rem@.len(), 1int,
{
    proof {
        crate::arena::lemma_arena_extends_refl(reg.types@);
    }
    if si == count {
        if rem.len() == 0 {
            Some(s)
        } else {
            None
        }
    } else {
        let alen = ats.len();
        proof {
            assert(start as int + si < alen as int);
        }
        match ats[start + si] {
            AritiedType::Single(t) => match_unordered_pick(
                reg,
                ats,
                start,
                count,
                si,
                rem,
                s,
                true,
            ),
            AritiedType::Many(t) => {
                let keep = s.duplicate();
                let rem2 = copy_ports(&rem);
                let skip = match_unordered(reg, ats, start, count, si + 1, rem2, s);
                if skip.is_some() {
                    skip
                } else {
                    let ghost mid = reg.types@;
                    proof {
                        crate::unify::lemma_wf_subst_types_extend(
                            old(reg).types@,
                            mid,
                            keep.bindings@,
                            old(reg).var_count as nat,
                        );
                    }
                    let res = match_unordered_pick(reg, ats, start, count, si, rem, keep, false);
                    proof {
                        crate::arena::lemma_arena_extends_trans(old(reg).types@, mid, reg.types@);
                    }
                    res
                }
            },
        }
    }
}

/// Try each remaining port for the slot at `si`: on a `Single` slot
/// (`advance` true) matching moves to the next slot, on a `Many` slot it
/// stays to take more ports.
#[verifier::loop_isolation(false)]
fn match_unordered_pick(
    reg: &mut TypeRegistry,
    ats: &Vec<AritiedType>,
    start: usize,
    count: usize,
    si: usize,
    rem: Vec<usize>,
    s: Substitution,
    advance: bool,
) -> (r: Option<Substitution>)
    requires
        old(reg).wf(),
        ats_in_bounds(ats@, start as int, count as int, old(reg).types@.len() as int),
        ports_in_bounds(rem@, old(reg).types@.len() as int),
        si < count,
        wf_subst(old(reg).types@, s.bindings@, old(reg).var_count as nat),
        advance == (ats@[start as int + si] is Single),
    ensures
        final(reg).wf(),
        final(reg).var_count == old(reg).var_count,
        crate::arena::arena_extends(old(reg).types@, final(reg).types@),
        (slots_concrete(old(reg).types@, ats@, start as int, count as int) && ports_concrete(
            old(reg).types@,
            rem@,
        )) ==> (final(reg).types@ == old(reg).types@ && (r is Some <==> exists|q: int|
            0 <= q < rem@.len() && type_eq(
                old(reg).types@,
                at_type(ats@[start as int + si]) as int,
                (#[trigger] rem@[q]) as int,
            ) && spec_match_unordered(
                old(reg).types@,
                ats@,
                start as int,
                count as int,
                si as int + (if advance {
                    1int
                } else {
                    0int
                }),
                rem@.remove(q),
            ))),
    decreases count - si, rem@.len(), 0int,
{
    proof {
        crate::arena::lemma_arena_extends_refl(reg.types@);
    }
    let alen = ats.len();
    proof {
        assert(start as int + si < alen as int);
    }
    let t = match ats[start + si] {
        AritiedType::Single(tt) => tt,
        AritiedType::Many(tt) => tt,
    };
    let n = rem.len();
    let mut q: usize = 0;
    while q < n
        invariant
            reg.wf(),
            reg.var_count == old(reg).var_count,
            crate::arena::arena_extends(old(reg).types@, reg.types@),
            q <= n,
            n == rem@.len(),
            (slots_concrete(old(reg).types@, ats@, start as int, count as int) && ports_concrete(
                old(reg).types@,
                rem@,
            )) ==> (reg.types@ == old(reg).types@ && forall|q2: int|
                0 <= q2 < q ==> !(type_eq(
                    old(reg).types@,
                    at_type(ats@[start as int + si]) as int,
                    (#[trigger] rem@[q2]) as int,
                ) && spec_match_unordered(
                    old(reg).types@,
                    ats@,
                    start as int,
                    count as int,
                    si as int + (if advance {
                        1int
                    } else {
                        0int
                    }),
                    rem@.remove(q2),
                ))),
        decreases n - q,
    {
        let mut rem2 = copy_ports(&rem);
        rem2.remove(q);
        let ghost goal_si = si as int + (if advance { 1int } else { 0int });
        proof {
            assert(rem2@ == rem@.remove(q as int));
            assert forall|i: int| 0 <= i < rem2@.len() implies ((#[trigger] rem2@[i]) as int)
                < reg.types@.len() by {
                if i < q {
                    assert(rem2@[i] == rem@[i]);
                } else {
                    assert(rem2@[i] == rem@[i + 1]);
                }
            }
            if ports_concrete(old(reg).types@, rem@) {
                assert forall|i: int| 0 <= i < rem2@.len() implies concrete(
                    old(reg).types@,
                    (#[trigger] rem2@[i]) as int,
                ) by {
                    if i < q {
                        assert(rem2@[i] == rem@[i]);
                    } else {
                        assert(rem2@[i] == rem@[i + 1]);
                    }
                }
            }
        }
        let s2 = s.duplicate();
        let ghost pre = reg.types@;
        proof {
            crate::unify::lemma_wf_subst_types_extend(
                old(reg).types@,
                pre,
                s.bindings@,
                old(reg).var_count as nat,
            );
        }
        match reg.unify_under(s2, t, rem[q]) {
            Ok(s3) => {
                let ghost mid = reg.types@;
                let next_si = if advance {
                    si + 1
                } else {
                    si
                };
                let res = match_unordered(reg, ats, start, count, next_si, rem2, s3);
                proof {
                    crate::arena::lemma_arena_extends_trans(old(reg).types@, pre, mid);
                    crate::arena::lemma_arena_extends_trans(old(reg).types@, mid, reg.types@);
                }
                if res.is_some() {
                    proof {
                        if slots_concrete(old(reg).types@, ats@, start as int, count as int)
                            && ports_concrete(old(reg).types@, rem@) {
                            assert(type_eq(
                                old(reg).types@,
                                at_type(ats@[start as int + si]) as int,
                                (rem@[q as int]) as int,
                            ));
                            assert(spec_match_unordered(
                                old(reg).types@,
                                ats@,
                                start as int,
                                count as int,
                                goal_si,
                                rem@.remove(q as int),
                            ));
                        }
                    }
                    return res;
                }
            },
            Err(_) => {
                proof {
                    crate::arena::lemma_arena_extends_trans(old(reg).types@, pre, reg.types@);
                }
            },
        }
        proof {
            if slots_concrete(old(reg).types@, ats@, start as int, count as int)
                && ports_concrete(old(reg).types@, rem@) {
                assert(!(type_eq(
                    old(reg).types@,
                    at_type(ats@[start as int + si]) as int,
                    (rem@[q as int]) as int,
                ) && spec_match_unordered(
                    old(reg).types@,
                    ats@,
                    start as int,
                    count as int,
                    goal_si,
                    rem@.remove(q as int),
                )));
            }
        }
        q = q + 1;
    }
    None
}

/// The input run (start, count) of the candidate at `i`.
pub open spec fn sig_run(sigs: Seq<Signature>, i: int) -> (int, int) {
    match sigs[i].input {
        ManyIdx::VecIdx(run) => (run.start as int, run.count as int),
        ManyIdx::SetIdx(run) => (run.start as int, run.count as int),
    }
}

/// Every candidate's input run lies inside the arity-type arena and names
/// type positions below `tlen`.
pub open spec fn candidates_in_bounds(
    sigs: Seq<Signature>,
    cands: SetIdx<SignatureIdx>,
    ats: Seq<AritiedType>,
    tlen: int,
) -> bool {
    &&& (cands.start as int) + (cands.count as int) <= sigs.len()
    &&& forall|i: int|
        cands.start <= i < cands.start + cands.count ==> ats_in_bounds(
            ats,
            (#[trigger] sig_run(sigs, i)).0,
            sig_run(sigs, i).1,
            tlen,
        )
}

/// Every candidate's slot types are concrete.
pub open spec fn candidates_concrete(
    types: Seq<Type>,
    sigs: Seq<Signature>,
    cands: SetIdx<SignatureIdx>,
    ats: Seq<AritiedType>,
) -> bool {
    forall|i: int|
        cands.start <= i < cands.start + cands.count ==> slots_concrete(
            types,
            ats,
            (#[trigger] sig_run(sigs, i)).0,
            sig_run(sigs, i).1,
        )
}

/// Whether one candidate signature is satisfied by the connected ports.
fn sig_matches_exec(
    reg: &mut TypeRegistry,
    ats: &Vec<AritiedType>,
    sig: &Signature,
    ports: &Vec<usize>,
) -> (r: bool)
    requires
        old(reg).wf(),
        (match sig.input {
            ManyIdx::VecIdx(run) => ats_in_bounds(
                ats@,
                run.start as int,
                run.count as int,
                old(reg).types@.len() as int,
            ),
            ManyIdx::SetIdx(run) => ats_in_bounds(
                ats@,
                run.start as int,
                run.count as int,
                old(reg).types@.len() as int,
            ),
        }),
        ports_in_bounds(ports@, old(reg).types@.len() as int),
    ensures
        final(reg).wf(),
        final(reg).var_count == old(reg).var_count,
        crate::arena::arena_extends(old(reg).types@, final(reg).types@),
        ((match sig.input {
            ManyIdx::VecIdx(run) => slots_concrete(
                old(reg).types@,
                ats@,
                run.start as int,
                run.count as int,
            ),
            ManyIdx::SetIdx(run) => slots_concrete(
                old(reg).types@,
                ats@,
                run.start as int,
                run.count as int,
            ),
        }) && ports_concrete(old(reg).types@, ports@)) ==> (final(reg).types@ == old(reg).types@
            && (r <==> (match sig.input {
            ManyIdx::VecIdx(run) => spec_match_ordered(
                old(reg).types@,
                ats@,
                run.start as int,
                run.count as int,
                0,
                ports@,
                0,
            ),
            ManyIdx::SetIdx(run) => spec_match_unordered(
                old(reg).types@,
                ats@,
                run.start as int,
                run.count as int,
                0,
                ports@,
            ),
        }))),
{
    match sig.input {
        ManyIdx::VecIdx(run) => {
            let m = match_ordered(
                reg,
                ats,
                run.start,
                run.count,
                0,
                ports,
                0,
                Substitution::new(),
            );
            m.is_some()
        },
        ManyIdx::SetIdx(run) => {
            let rem = copy_ports(ports);
            let m = match_unordered(reg, ats, run.start, run.count, 0, rem, Substitution::new());
            m.is_some()
        },
    }
}

/// Pick the candidate signature satisfied by the connected input ports.
/// Exactly one satisfied candidate resolves; none is `NoMatchingSignature`;
/// two or more is `AmbiguousOverload`, reported rather than settled by any
/// priority. The contract is exact when every candidate slot type and every
/// port type is concrete.
#[verifier::loop_isolation(false)]
pub fn resolve_signature(
    reg: &mut TypeRegistry,
    ats: &Vec<AritiedType>,
    sigs: &Vec<Signature>,
    cands: SetIdx<SignatureIdx>,
    ports: &Vec<usize>,
) -> (r: Result<usize, ArityError>)
    requires
        old(reg).wf(),
        candidates_in_bounds(sigs@, cands, ats@, old(reg).types@.len() as int),
        ports_in_bounds(ports@, old(reg).types@.len() as int),
    ensures
        final(reg).wf(),
        final(reg).var_count == old(reg).var_count,
        crate::arena::arena_extends(old(reg).types@, final(reg).types@),
        (r matches Ok(i) ==> cands.start <= i && (i as int) < cands.start as int
            + cands.count as int),
        (candidates_concrete(old(reg).types@, sigs@, cands, ats@) && ports_concrete(
            old(reg).types@,
            ports@,
        )) ==> ({
            &&& final(reg).types@ == old(reg).types@
            &&& (r matches Ok(i) ==> cands.start <= i < cands.start as int + cands.count
                && spec_sig_matches(old(reg).types@, ats@, sigs@, i as int, ports@) && (forall|
                j: int,
            |
                cands.start <= j < cands.start + cands.count && j != i
                    ==> !spec_sig_matches(old(reg).types@, ats@, sigs@, j, ports@)))
            &&& (r == Err::<usize, ArityError>(ArityError::NoMatchingSignature) ==> forall|j: int|
                cands.start <= j < cands.start + cands.count ==> !spec_sig_matches(
                    old(reg).types@,
                    ats@,
                    sigs@,
                    j,
                    ports@,
                ))
            &&& (r == Err::<usize, ArityError>(ArityError::AmbiguousOverload) ==> exists|
                j1: int,
                j2: int,
            |
                cands.start <= j1 < j2 < cands.start + cands.count && spec_sig_matches(
                    old(reg).types@,
                    ats@,
                    sigs@,
                    j1,
                    ports@,
                ) && spec_sig_matches(old(reg).types@, ats@, sigs@, j2, ports@))
        }),
{
    proof {
        crate::arena::lemma_arena_extends_refl(reg.types@);
    }
    let slen = sigs.len();
    let mut found: Option<usize> = None;
    let mut i: usize = 0;
    while i < cands.count
        invariant
            reg.wf(),
            reg.var_count == old(reg).var_count,
            crate::arena::arena_extends(old(reg).types@, reg.types@),
            i <= cands.count,
            found matches Some(w) ==> cands.start <= w < cands.start as int + i,
            (candidates_concrete(old(reg).types@, sigs@, cands, ats@) && ports_concrete(
                old(reg).types@,
                ports@,
            )) ==> ({
                &&& reg.types@ == old(reg).types@
                &&& (found is None ==> forall|j: int|
                    cands.start <= j < cands.start + i ==> !spec_sig_matches(
                        old(reg).types@,
                        ats@,
                        sigs@,
                        j,
                        ports@,
                    ))
                &&& (found matches Some(w) ==> spec_sig_matches(
                    old(reg).types@,
                    ats@,
                    sigs@,
                    w as int,
                    ports@,
                ) && (forall|j: int|
                    cands.start <= j < cands.start + i && j != w ==> !spec_sig_matches(
                        old(reg).types@,
                        ats@,
                        sigs@,
                        j,
                        ports@,
                    )))
            }),
        decreases cands.count - i,
    {
        let idx = cands.start + i;
        let sig = sigs[idx];
        let ghost pre = reg.types@;
        proof {
            assert(ats_in_bounds(
                ats@,
                sig_run(sigs@, idx as int).0,
                sig_run(sigs@, idx as int).1,
                old(reg).types@.len() as int,
            ));
        }
        let m = sig_matches_exec(reg, ats, &sig, ports);
        proof {
            crate::arena::lemma_arena_extends_trans(old(reg).types@, pre, reg.types@);
        }
        if m {
            match found {
                Some(w) => {
                    proof {
                        if candidates_concrete(old(reg).types@, sigs@, cands, ats@)
                            && ports_concrete(old(reg).types@, ports@) {
                            assert(spec_sig_matches(
                                old(reg).types@,
                                ats@,
                                sigs@,
                                w as int,
                                ports@,
                            ));
                            assert(spec_sig_matches(
                                old(reg).types@,
                                ats@,
                                sigs@,
                                idx as int,
                                ports@,
                            ));
                        }
                    }
                    return Err(ArityError::AmbiguousOverload);
                },
                None => {
                    found = Some(idx);
                },
            }
        }
        i = i + 1;
    }
    match found {
        Some(w) => Ok(w),
        None => Err(ArityError::NoMatchingSignature),
    }
}

} // verus!
