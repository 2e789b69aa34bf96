//! When unification succeeds, and that it solves no more than it has to.

use vstd::prelude::*;

use crate::apply::{acyclic, apply, apply_params, apply_tys, height, lemma_apply_fixpoint};
use crate::apply::{lemma_params_height, lemma_solved_height, lemma_tys_height, rank, SubstMap};
use crate::subst::{bind, lemma_empty_acyclic, SubstV};
use crate::ty::{ParamV, ReturnV, TyV, TyVar};
use crate::unify::{depth, lemma_apply_resolved, lemma_resolved_parts, pair_below, pair_depth};
use crate::unify::{params_depth, tys_depth, unify_args, unify_elements, unify_params};
use crate::unify::{unify_types, unsolved};
use crate::unify_laws::{continues, law_unify_sound, simple, simple_params, simple_tys};
use crate::vars::{occurs, occurs_in_params, occurs_in_tys};

verus! {

// ---------------------------------------------------------------------------
// Assignments
// ---------------------------------------------------------------------------

/// What each variable stands for, all at once.
pub type Assignment = spec_fn(TyVar) -> TyV;

/// Neither records nor constraints stand in `t`.
pub open spec fn plain(t: TyV) -> bool
    decreases t,
{
    match t {
        TyV::Qualified(..) | TyV::Record(_) => false,
        TyV::Tuple(ts) => plain_tys(ts),
        TyV::Func(ps, ret) => plain_params(ps) && plain(*ret.ty),
        TyV::App(con, args) => plain(*con) && plain_tys(args),
        _ => true,
    }
}

pub open spec fn plain_tys(ts: Seq<TyV>) -> bool
    decreases ts,
{
    forall|i: int| 0 <= i < ts.len() ==> plain(#[trigger] ts[i])
}

pub open spec fn plain_params(ps: Seq<ParamV>) -> bool
    decreases ps,
{
    forall|i: int| 0 <= i < ps.len() ==> plain((#[trigger] ps[i]).ty)
}

/// All that is solved is plain.
pub open spec fn plain_map(m: SubstMap) -> bool {
    forall|v: TyVar| #[trigger] m.dom().contains(v) ==> plain(m[v])
}

/// `t` with each variable replaced by what it stands for, in a type without records.
pub open spec fn assigned(th: Assignment, t: TyV) -> TyV
    decreases t,
{
    match t {
        TyV::Var(v) => th(v),
        TyV::Tuple(ts) => TyV::Tuple(assigned_tys(th, ts)),
        TyV::Func(ps, ret) => TyV::Func(
            assigned_params(th, ps),
            ReturnV { ty: Box::new(assigned(th, *ret.ty)), capability: ret.capability },
        ),
        TyV::App(con, args) => TyV::App(Box::new(assigned(th, *con)), assigned_tys(th, args)),
        _ => t,
    }
}

pub open spec fn assigned_tys(th: Assignment, ts: Seq<TyV>) -> Seq<TyV>
    decreases ts,
{
    Seq::new(
        ts.len(),
        |i: int|
            if 0 <= i < ts.len() {
                assigned(th, ts[i])
            } else {
                arbitrary()
            },
    )
}

pub open spec fn assigned_params(th: Assignment, ps: Seq<ParamV>) -> Seq<ParamV>
    decreases ps,
{
    Seq::new(
        ps.len(),
        |i: int|
            if 0 <= i < ps.len() {
                ParamV { ty: assigned(th, ps[i].ty), capability: ps[i].capability }
            } else {
                arbitrary()
            },
    )
}

/// The assignment makes the two types one, capabilities and all.
pub open spec fn unifies(th: Assignment, t1: TyV, t2: TyV) -> bool {
    assigned(th, t1) == assigned(th, t2)
}

/// The assignment agrees with all that is solved.
pub open spec fn agrees_with(th: Assignment, m: SubstMap) -> bool {
    forall|v: TyVar| #[trigger] m.dom().contains(v) ==> th(v) == assigned(th, m[v])
}

/// What a substitution makes of each variable.
pub open spec fn assignment_of(m: SubstMap) -> Assignment {
    |v: TyVar| apply(m, TyV::Var(v))
}

// ---------------------------------------------------------------------------
// Substitutions and assignments
// ---------------------------------------------------------------------------

proof fn lemma_apply_plain(m: SubstMap, t: TyV)
    requires
        acyclic(m),
        plain_map(m),
        plain(t),
    ensures
        plain(apply(m, t)),
    decreases height(rank(m), m.dom(), t), t,
{
    match t {
        TyV::Var(v) => {
            if m.dom().contains(v) {
                lemma_solved_height(m, v);
                lemma_apply_plain(m, m[v]);
            }
        },
        TyV::Tuple(ts) => {
            assert(plain_tys(ts));
            lemma_tys_height(rank(m), m.dom(), ts);
            assert forall|i: int| 0 <= i < ts.len() implies plain(#[trigger] apply_tys(m, ts)[i]) by {
                lemma_apply_plain(m, ts[i]);
            }
            assert(plain_tys(apply_tys(m, ts)));
        },
        TyV::Func(ps, ret) => {
            assert(plain_params(ps));
            lemma_apply_plain(m, *ret.ty);
            lemma_params_height(rank(m), m.dom(), ps);
            assert forall|i: int| 0 <= i < ps.len() implies plain(
                (#[trigger] apply_params(m, ps)[i]).ty,
            ) by {
                lemma_apply_plain(m, ps[i].ty);
            }
            assert(plain_params(apply_params(m, ps)));
        },
        TyV::App(con, args) => {
            assert(plain_tys(args));
            lemma_apply_plain(m, *con);
            lemma_tys_height(rank(m), m.dom(), args);
            assert forall|i: int| 0 <= i < args.len() implies plain(
                #[trigger] apply_tys(m, args)[i],
            ) by {
                lemma_apply_plain(m, args[i]);
            }
            assert(plain_tys(apply_tys(m, args)));
        },
        _ => {},
    }
}

/// Resolving by what is solved makes no difference to an assignment that agrees with it.
proof fn lemma_assigned_resolved(th: Assignment, m: SubstMap, t: TyV)
    requires
        acyclic(m),
        plain_map(m),
        plain(t),
        agrees_with(th, m),
    ensures
        assigned(th, apply(m, t)) == assigned(th, t),
    decreases height(rank(m), m.dom(), t), t,
{
    match t {
        TyV::Var(v) => {
            if m.dom().contains(v) {
                lemma_solved_height(m, v);
                lemma_assigned_resolved(th, m, m[v]);
            }
        },
        TyV::Tuple(ts) => {
            assert(plain_tys(ts));
            lemma_tys_height(rank(m), m.dom(), ts);
            assert forall|i: int| 0 <= i < ts.len() implies assigned_tys(th, apply_tys(m, ts))[i]
                == assigned_tys(th, ts)[i] by {
                lemma_assigned_resolved(th, m, ts[i]);
            }
            assert(assigned_tys(th, apply_tys(m, ts)) =~= assigned_tys(th, ts));
        },
        TyV::Func(ps, ret) => {
            assert(plain_params(ps));
            lemma_assigned_resolved(th, m, *ret.ty);
            lemma_params_height(rank(m), m.dom(), ps);
            assert forall|i: int| 0 <= i < ps.len() implies assigned_params(
                th,
                apply_params(m, ps),
            )[i] == assigned_params(th, ps)[i] by {
                lemma_assigned_resolved(th, m, ps[i].ty);
            }
            assert(assigned_params(th, apply_params(m, ps)) =~= assigned_params(th, ps));
        },
        TyV::App(con, args) => {
            assert(plain_tys(args));
            lemma_assigned_resolved(th, m, *con);
            lemma_tys_height(rank(m), m.dom(), args);
            assert forall|i: int| 0 <= i < args.len() implies assigned_tys(
                th,
                apply_tys(m, args),
            )[i] == assigned_tys(th, args)[i] by {
                lemma_assigned_resolved(th, m, args[i]);
            }
            assert(assigned_tys(th, apply_tys(m, args)) =~= assigned_tys(th, args));
        },
        _ => {},
    }
}

/// A substitution is an assignment.
proof fn lemma_assignment_of(m: SubstMap, t: TyV)
    requires
        acyclic(m),
        plain(t),
    ensures
        assigned(assignment_of(m), t) == apply(m, t),
    decreases t,
{
    let th = assignment_of(m);
    match t {
        TyV::Tuple(ts) => {
            assert(plain_tys(ts));
            assert forall|i: int| 0 <= i < ts.len() implies assigned_tys(th, ts)[i] == apply_tys(
                m,
                ts,
            )[i] by {
                lemma_assignment_of(m, ts[i]);
            }
            assert(assigned_tys(th, ts) =~= apply_tys(m, ts));
        },
        TyV::Func(ps, ret) => {
            assert(plain_params(ps));
            lemma_assignment_of(m, *ret.ty);
            assert forall|i: int| 0 <= i < ps.len() implies assigned_params(th, ps)[i]
                == apply_params(m, ps)[i] by {
                lemma_assignment_of(m, ps[i].ty);
            }
            assert(assigned_params(th, ps) =~= apply_params(m, ps));
        },
        TyV::App(con, args) => {
            assert(plain_tys(args));
            lemma_assignment_of(m, *con);
            assert forall|i: int| 0 <= i < args.len() implies assigned_tys(th, args)[i]
                == apply_tys(m, args)[i] by {
                lemma_assignment_of(m, args[i]);
            }
            assert(assigned_tys(th, args) =~= apply_tys(m, args));
        },
        _ => {},
    }
}

proof fn lemma_plain_simple(t: TyV)
    requires
        plain(t),
    ensures
        simple(t),
    decreases t,
{
    match t {
        TyV::Tuple(ts) => {
            assert(plain_tys(ts));
            assert forall|i: int| 0 <= i < ts.len() implies simple(#[trigger] ts[i]) by {
                lemma_plain_simple(ts[i]);
            }
            assert(simple_tys(ts));
        },
        TyV::Func(ps, ret) => {
            assert(plain_params(ps));
            lemma_plain_simple(*ret.ty);
            assert forall|i: int| 0 <= i < ps.len() implies simple((#[trigger] ps[i]).ty) by {
                lemma_plain_simple(ps[i].ty);
            }
            assert(simple_params(ps));
        },
        TyV::App(con, args) => {
            assert(plain_tys(args));
            lemma_plain_simple(*con);
            assert forall|i: int| 0 <= i < args.len() implies simple(#[trigger] args[i]) by {
                lemma_plain_simple(args[i]);
            }
            assert(simple_tys(args));
        },
        _ => {},
    }
}

// ---------------------------------------------------------------------------
// No type contains itself
// ---------------------------------------------------------------------------

proof fn lemma_tys_depth_bounds(ts: Seq<TyV>, i: int)
    requires
        0 <= i < ts.len(),
    ensures
        depth(ts[i]) <= tys_depth(ts),
    decreases ts.len(),
{
    if i < ts.len() - 1 {
        lemma_tys_depth_bounds(ts.drop_last(), i);
        assert(ts.drop_last()[i] == ts[i]);
    }
}

proof fn lemma_params_depth_bounds(ps: Seq<ParamV>, i: int)
    requires
        0 <= i < ps.len(),
    ensures
        depth(ps[i].ty) <= params_depth(ps),
    decreases ps.len(),
{
    if i < ps.len() - 1 {
        lemma_params_depth_bounds(ps.drop_last(), i);
        assert(ps.drop_last()[i] == ps[i]);
    }
}

/// What a variable stands for is nested no deeper than a type in which it occurs, and less
/// deeply if that is more than the variable.
proof fn lemma_occurs_deeper(th: Assignment, v: TyVar, t: TyV)
    requires
        plain(t),
        occurs(v, t),
    ensures
        depth(th(v)) <= depth(assigned(th, t)),
        t != TyV::Var(v) ==> depth(th(v)) < depth(assigned(th, t)),
    decreases t,
{
    match t {
        TyV::Tuple(ts) => {
            assert(plain_tys(ts));
            lemma_occurs_deeper_tys(th, v, ts);
        },
        TyV::Func(ps, ret) => {
            assert(plain_params(ps));
            if occurs(v, *ret.ty) {
                lemma_occurs_deeper(th, v, *ret.ty);
            } else {
                assert(occurs_in_params(v, ps));
                let i = choose|i: int| 0 <= i < ps.len() && occurs(v, (#[trigger] ps[i]).ty);
                lemma_occurs_deeper(th, v, ps[i].ty);
                lemma_params_depth_bounds(assigned_params(th, ps), i);
            }
        },
        TyV::App(con, args) => {
            assert(plain_tys(args));
            if occurs(v, *con) {
                lemma_occurs_deeper(th, v, *con);
            } else {
                lemma_occurs_deeper_tys(th, v, args);
            }
        },
        _ => {},
    }
}

proof fn lemma_occurs_deeper_tys(th: Assignment, v: TyVar, ts: Seq<TyV>)
    requires
        plain_tys(ts),
        occurs_in_tys(v, ts),
    ensures
        depth(th(v)) <= tys_depth(assigned_tys(th, ts)),
    decreases ts,
{
    let i = choose|i: int| 0 <= i < ts.len() && occurs(v, #[trigger] ts[i]);
    lemma_occurs_deeper(th, v, ts[i]);
    lemma_tys_depth_bounds(assigned_tys(th, ts), i);
}

// ---------------------------------------------------------------------------
// Completeness
// ---------------------------------------------------------------------------

proof fn lemma_bind_complete(s: SubstV, v: TyVar, t: TyV, th: Assignment)
    requires
        acyclic(s.map),
        plain_map(s.map),
        plain(t),
        apply(s.map, t) == t,
        agrees_with(th, s.map),
        th(v) == assigned(th, t),
    ensures
        bind(s, v, t).1 is None,
        agrees_with(th, bind(s, v, t).0.map),
        plain_map(bind(s, v, t).0.map),
{
    if t != TyV::Var(v) && occurs(v, t) {
        lemma_occurs_deeper(th, v, t);
    }
}

/// Unification succeeds if some assignment makes the two types one and agrees with what is
/// solved, and every such assignment agrees with all that is solved afterwards: nothing is
/// solved that need not be.
pub proof fn law_unify_complete(s: SubstV, t1: TyV, t2: TyV, th: Assignment)
    requires
        acyclic(s.map),
        s.map.dom().finite(),
        plain_map(s.map),
        plain(t1),
        plain(t2),
        agrees_with(th, s.map),
        unifies(th, t1, t2),
    ensures
        unify_types(s, t1, t2).1 is None,
        agrees_with(th, unify_types(s, t1, t2).0.map),
        plain_map(unify_types(s, t1, t2).0.map),
    decreases unsolved(s.map), pair_depth(s.map, t1, t2), 3nat, 1nat, 0nat,
{
    let m = s.map;
    let u = unsolved(m);
    let d = pair_depth(m, t1, t2);
    let a = apply(m, t1);
    let b = apply(m, t2);
    lemma_apply_plain(m, t1);
    lemma_apply_plain(m, t2);
    lemma_assigned_resolved(th, m, t1);
    lemma_assigned_resolved(th, m, t2);
    lemma_apply_resolved(m, t1);
    lemma_apply_resolved(m, t2);
    lemma_resolved_parts(m, a);
    lemma_resolved_parts(m, b);
    lemma_apply_fixpoint(m, a);
    lemma_apply_fixpoint(m, b);
    assert(assigned(th, a) == assigned(th, b));
    match (a, b) {
        (TyV::Var(v), _) => {
            lemma_bind_complete(s, v, b, th);
        },
        (_, TyV::Var(v)) => {
            lemma_bind_complete(s, v, a, th);
        },
        (TyV::Func(p1, r1), TyV::Func(p2, r2)) => {
            assert(plain_params(p1) && plain_params(p2));
            let q1 = assigned_params(th, p1);
            let q2 = assigned_params(th, p2);
            assert(q1 == q2);
            assert(p1.len() == q1.len() && p2.len() == q2.len());
            assert forall|i: int| 0 <= i < p1.len() implies unifies(
                th,
                (#[trigger] p1[i]).ty,
                p2[i].ty,
            ) && p1[i].capability == p2[i].capability by {
                assert(q1[i] == q2[i]);
            }
            lemma_params_complete(s, p1, p2, p1.len(), m, u, d, th);
            let o1 = unify_params(s, p1, p2, p1.len(), u, d);
            assert(pair_below(o1.0.map, *r1.ty, *r2.ty, u, d));
            law_unify_complete(o1.0, *r1.ty, *r2.ty, th);
        },
        (TyV::Tuple(ts1), TyV::Tuple(ts2)) => {
            assert(plain_tys(ts1) && plain_tys(ts2));
            lemma_tys_unified(th, ts1, ts2);
            lemma_elements_complete(s, ts1, ts2, ts1.len(), m, u, d, th);
        },
        (TyV::App(c1, a1), TyV::App(c2, a2)) => {
            assert(plain_tys(a1) && plain_tys(a2));
            assert(pair_below(m, *c1, *c2, u, d));
            law_unify_complete(s, *c1, *c2, th);
            let o1 = unify_types(s, *c1, *c2);
            law_unify_sound(s, *c1, *c2);
            lemma_tys_unified(th, a1, a2);
            lemma_args_complete(o1.0, a1, a2, a1.len(), m, u, d, th);
        },
        _ => {},
    }
}

proof fn lemma_tys_unified(th: Assignment, ts1: Seq<TyV>, ts2: Seq<TyV>)
    requires
        assigned_tys(th, ts1) == assigned_tys(th, ts2),
    ensures
        ts1.len() == ts2.len(),
        forall|i: int| 0 <= i < ts1.len() ==> unifies(th, #[trigger] ts1[i], ts2[i]),
{
    let q1 = assigned_tys(th, ts1);
    let q2 = assigned_tys(th, ts2);
    assert(ts1.len() == q1.len() && ts2.len() == q2.len());
    assert forall|i: int| 0 <= i < ts1.len() implies unifies(th, #[trigger] ts1[i], ts2[i]) by {
        assert(q1[i] == q2[i]);
    }
}

proof fn lemma_params_complete(
    s: SubstV,
    v1: Seq<ParamV>,
    v2: Seq<ParamV>,
    n: nat,
    m: SubstMap,
    u: nat,
    d: nat,
    th: Assignment,
)
    requires
        acyclic(s.map),
        s.map.dom().finite(),
        plain_map(s.map),
        agrees_with(th, s.map),
        n <= v1.len(),
        v1.len() == v2.len(),
        plain_params(v1),
        plain_params(v2),
        unsolved(m) == u,
        s.map == m || unsolved(s.map) < u,
        forall|i: int| 0 <= i < v1.len() ==> pair_depth(m, (#[trigger] v1[i]).ty, v2[i].ty) < d,
        forall|i: int| 0 <= i < v1.len() ==> unifies(th, (#[trigger] v1[i]).ty, v2[i].ty) && v1[i].capability == v2[i].capability,
    ensures
        unify_params(s, v1, v2, n, u, d).1 is None,
        continues(s, unify_params(s, v1, v2, n, u, d).0),
        agrees_with(th, unify_params(s, v1, v2, n, u, d).0.map),
        plain_map(unify_params(s, v1, v2, n, u, d).0.map),
    decreases u, d, 3nat, 0nat, n,
{
    if n > 0 {
        let k = n - 1;
        let o = unify_params(s, v1, v2, (n - 1) as nat, u, d);
        lemma_params_complete(s, v1, v2, (n - 1) as nat, m, u, d, th);
        assert(pair_depth(m, v1[k].ty, v2[k].ty) < d);
        assert(unifies(th, v1[k].ty, v2[k].ty));
        assert(pair_below(o.0.map, v1[k].ty, v2[k].ty, u, d));
        law_unify_complete(o.0, v1[k].ty, v2[k].ty, th);
        law_unify_sound(o.0, v1[k].ty, v2[k].ty);
    }
}

proof fn lemma_elements_complete(
    s: SubstV,
    v1: Seq<TyV>,
    v2: Seq<TyV>,
    n: nat,
    m: SubstMap,
    u: nat,
    d: nat,
    th: Assignment,
)
    requires
        acyclic(s.map),
        s.map.dom().finite(),
        plain_map(s.map),
        agrees_with(th, s.map),
        n <= v1.len(),
        v1.len() == v2.len(),
        plain_tys(v1),
        plain_tys(v2),
        unsolved(m) == u,
        s.map == m || unsolved(s.map) < u,
        forall|i: int| 0 <= i < v1.len() ==> pair_depth(m, (#[trigger] v1[i]), v2[i]) < d,
        forall|i: int| 0 <= i < v1.len() ==> unifies(th, (#[trigger] v1[i]), v2[i]),
    ensures
        unify_elements(s, v1, v2, n, u, d).1 is None,
        continues(s, unify_elements(s, v1, v2, n, u, d).0),
        agrees_with(th, unify_elements(s, v1, v2, n, u, d).0.map),
        plain_map(unify_elements(s, v1, v2, n, u, d).0.map),
    decreases u, d, 3nat, 0nat, n,
{
    if n > 0 {
        let k = n - 1;
        let o = unify_elements(s, v1, v2, (n - 1) as nat, u, d);
        lemma_elements_complete(s, v1, v2, (n - 1) as nat, m, u, d, th);
        assert(pair_depth(m, v1[k], v2[k]) < d);
        assert(unifies(th, v1[k], v2[k]));
        assert(pair_below(o.0.map, v1[k], v2[k], u, d));
        law_unify_complete(o.0, v1[k], v2[k], th);
        law_unify_sound(o.0, v1[k], v2[k]);
    }
}

proof fn lemma_args_complete(
    s: SubstV,
    v1: Seq<TyV>,
    v2: Seq<TyV>,
    n: nat,
    m: SubstMap,
    u: nat,
    d: nat,
    th: Assignment,
)
    requires
        acyclic(s.map),
        s.map.dom().finite(),
        plain_map(s.map),
        agrees_with(th, s.map),
        n <= v1.len(),
        v1.len() == v2.len(),
        plain_tys(v1),
        plain_tys(v2),
        unsolved(m) == u,
        s.map == m || unsolved(s.map) < u,
        forall|i: int| 0 <= i < v1.len() ==> pair_depth(m, (#[trigger] v1[i]), v2[i]) < d,
        forall|i: int| 0 <= i < v1.len() ==> unifies(th, (#[trigger] v1[i]), v2[i]),
    ensures
        unify_args(s, v1, v2, n, u, d).1 is None,
        continues(s, unify_args(s, v1, v2, n, u, d).0),
        agrees_with(th, unify_args(s, v1, v2, n, u, d).0.map),
        plain_map(unify_args(s, v1, v2, n, u, d).0.map),
    decreases u, d, 3nat, 0nat, n,
{
    if n > 0 {
        let k = n - 1;
        let o = unify_args(s, v1, v2, (n - 1) as nat, u, d);
        lemma_args_complete(s, v1, v2, (n - 1) as nat, m, u, d, th);
        assert(pair_depth(m, v1[k], v2[k]) < d);
        assert(unifies(th, v1[k], v2[k]));
        assert(pair_below(o.0.map, v1[k], v2[k], u, d));
        law_unify_complete(o.0, v1[k], v2[k], th);
        law_unify_sound(o.0, v1[k], v2[k]);
    }
}

/// Without records nothing but plain types is solved.
proof fn lemma_unified_plain(s: SubstV, t1: TyV, t2: TyV)
    requires
        acyclic(s.map),
        s.map.dom().finite(),
        plain_map(s.map),
        plain(t1),
        plain(t2),
        unify_types(s, t1, t2).1 is None,
    ensures
        plain_map(unify_types(s, t1, t2).0.map),
    decreases unsolved(s.map), pair_depth(s.map, t1, t2), 3nat, 1nat, 0nat,
{
    let m = s.map;
    let u = unsolved(m);
    let d = pair_depth(m, t1, t2);
    let a = apply(m, t1);
    let b = apply(m, t2);
    lemma_apply_plain(m, t1);
    lemma_apply_plain(m, t2);
    lemma_apply_resolved(m, t1);
    lemma_apply_resolved(m, t2);
    lemma_resolved_parts(m, a);
    lemma_resolved_parts(m, b);
    lemma_apply_fixpoint(m, a);
    lemma_apply_fixpoint(m, b);
    match (a, b) {
        (TyV::Func(p1, r1), TyV::Func(p2, r2)) => {
            assert(plain_params(p1) && plain_params(p2));
            let o1 = unify_params(s, p1, p2, p1.len(), u, d);
            lemma_params_plain(s, p1, p2, p1.len(), m, u, d);
            assert(pair_below(o1.0.map, *r1.ty, *r2.ty, u, d));
            lemma_unified_plain(o1.0, *r1.ty, *r2.ty);
        },
        (TyV::Tuple(ts1), TyV::Tuple(ts2)) => {
            assert(plain_tys(ts1) && plain_tys(ts2));
            lemma_elements_plain(s, ts1, ts2, ts1.len(), m, u, d);
        },
        (TyV::App(c1, a1), TyV::App(c2, a2)) => {
            assert(plain_tys(a1) && plain_tys(a2));
            assert(pair_below(m, *c1, *c2, u, d));
            lemma_unified_plain(s, *c1, *c2);
            law_unify_sound(s, *c1, *c2);
            let o1 = unify_types(s, *c1, *c2);
            lemma_args_plain(o1.0, a1, a2, a1.len(), m, u, d);
        },
        _ => {},
    }
}

proof fn lemma_params_plain(
    s: SubstV,
    v1: Seq<ParamV>,
    v2: Seq<ParamV>,
    n: nat,
    m: SubstMap,
    u: nat,
    d: nat,
)
    requires
        acyclic(s.map),
        s.map.dom().finite(),
        plain_map(s.map),
        n <= v1.len(),
        v1.len() == v2.len(),
        plain_params(v1),
        plain_params(v2),
        unsolved(m) == u,
        s.map == m || unsolved(s.map) < u,
        forall|i: int| 0 <= i < v1.len() ==> pair_depth(m, (#[trigger] v1[i]).ty, v2[i].ty) < d,
        unify_params(s, v1, v2, n, u, d).1 is None,
    ensures
        continues(s, unify_params(s, v1, v2, n, u, d).0),
        plain_map(unify_params(s, v1, v2, n, u, d).0.map),
    decreases u, d, 3nat, 0nat, n,
{
    if n > 0 {
        let k = n - 1;
        let o = unify_params(s, v1, v2, (n - 1) as nat, u, d);
        lemma_params_plain(s, v1, v2, (n - 1) as nat, m, u, d);
        assert(pair_depth(m, v1[k].ty, v2[k].ty) < d);
        assert(pair_below(o.0.map, v1[k].ty, v2[k].ty, u, d));
        lemma_unified_plain(o.0, v1[k].ty, v2[k].ty);
        law_unify_sound(o.0, v1[k].ty, v2[k].ty);
    }
}

proof fn lemma_elements_plain(
    s: SubstV,
    v1: Seq<TyV>,
    v2: Seq<TyV>,
    n: nat,
    m: SubstMap,
    u: nat,
    d: nat,
)
    requires
        acyclic(s.map),
        s.map.dom().finite(),
        plain_map(s.map),
        n <= v1.len(),
        v1.len() == v2.len(),
        plain_tys(v1),
        plain_tys(v2),
        unsolved(m) == u,
        s.map == m || unsolved(s.map) < u,
        forall|i: int| 0 <= i < v1.len() ==> pair_depth(m, (#[trigger] v1[i]), v2[i]) < d,
        unify_elements(s, v1, v2, n, u, d).1 is None,
    ensures
        continues(s, unify_elements(s, v1, v2, n, u, d).0),
        plain_map(unify_elements(s, v1, v2, n, u, d).0.map),
    decreases u, d, 3nat, 0nat, n,
{
    if n > 0 {
        let k = n - 1;
        let o = unify_elements(s, v1, v2, (n - 1) as nat, u, d);
        lemma_elements_plain(s, v1, v2, (n - 1) as nat, m, u, d);
        assert(pair_depth(m, v1[k], v2[k]) < d);
        assert(pair_below(o.0.map, v1[k], v2[k], u, d));
        lemma_unified_plain(o.0, v1[k], v2[k]);
        law_unify_sound(o.0, v1[k], v2[k]);
    }
}

proof fn lemma_args_plain(
    s: SubstV,
    v1: Seq<TyV>,
    v2: Seq<TyV>,
    n: nat,
    m: SubstMap,
    u: nat,
    d: nat,
)
    requires
        acyclic(s.map),
        s.map.dom().finite(),
        plain_map(s.map),
        n <= v1.len(),
        v1.len() == v2.len(),
        plain_tys(v1),
        plain_tys(v2),
        unsolved(m) == u,
        s.map == m || unsolved(s.map) < u,
        forall|i: int| 0 <= i < v1.len() ==> pair_depth(m, (#[trigger] v1[i]), v2[i]) < d,
        unify_args(s, v1, v2, n, u, d).1 is None,
    ensures
        continues(s, unify_args(s, v1, v2, n, u, d).0),
        plain_map(unify_args(s, v1, v2, n, u, d).0.map),
    decreases u, d, 3nat, 0nat, n,
{
    if n > 0 {
        let k = n - 1;
        let o = unify_args(s, v1, v2, (n - 1) as nat, u, d);
        lemma_args_plain(s, v1, v2, (n - 1) as nat, m, u, d);
        assert(pair_depth(m, v1[k], v2[k]) < d);
        assert(pair_below(o.0.map, v1[k], v2[k], u, d));
        lemma_unified_plain(o.0, v1[k], v2[k]);
        law_unify_sound(o.0, v1[k], v2[k]);
    }
}

/// From nothing solved, unification of two types without records succeeds if and only if
/// some assignment makes them one.
pub proof fn law_unify_decides(s: SubstV, t1: TyV, t2: TyV)
    requires
        s.map == Map::<TyVar, TyV>::empty(),
        plain(t1),
        plain(t2),
    ensures
        unify_types(s, t1, t2).1 is None <==> exists|th: Assignment| unifies(th, t1, t2),
{
    lemma_empty_acyclic();
    assert(s.map.dom() =~= Set::empty());
    if unify_types(s, t1, t2).1 is None {
        law_unify_sound(s, t1, t2);
        let m = unify_types(s, t1, t2).0.map;
        lemma_unified_plain(s, t1, t2);
        lemma_apply_plain(m, t1);
        lemma_apply_plain(m, t2);
        lemma_plain_simple(apply(m, t1));
        lemma_plain_simple(apply(m, t2));
        lemma_assignment_of(m, t1);
        lemma_assignment_of(m, t2);
        assert(unifies(assignment_of(m), t1, t2));
    }
    if exists|th: Assignment| unifies(th, t1, t2) {
        let th = choose|th: Assignment| unifies(th, t1, t2);
        law_unify_complete(s, t1, t2, th);
    }
}

/// What unification solves is most general: to resolve by it first makes no difference to
/// any assignment that makes the two types one.
pub proof fn law_unify_most_general(s: SubstV, t1: TyV, t2: TyV, th: Assignment, t: TyV)
    requires
        s.map == Map::<TyVar, TyV>::empty(),
        plain(t1),
        plain(t2),
        plain(t),
        unifies(th, t1, t2),
    ensures
        assigned(th, apply(unify_types(s, t1, t2).0.map, t)) == assigned(th, t),
{
    lemma_empty_acyclic();
    assert(s.map.dom() =~= Set::empty());
    law_unify_complete(s, t1, t2, th);
    law_unify_sound(s, t1, t2);
    lemma_assigned_resolved(th, unify_types(s, t1, t2).0.map, t);
}

} // verus!
