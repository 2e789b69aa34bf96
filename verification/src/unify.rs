//! Unification: solving type variables so that two types become one.

use vstd::prelude::*;

use crate::apply::{acyclic, apply, apply_fields, flat_record, law_apply_eliminates, law_apply_normal};
use crate::apply::{lemma_apply_fields_fixpoint, lemma_apply_fixpoint, max2, normal, normal_fields};
use crate::apply::{normal_params, normal_tys, SubstMap};
use crate::error::{in_context, ContextV, TypeError, TypeErrorV, TypeMismatchContext};
use crate::rows::{lemma_sort_fields_contains, sort_fields, sort_record_fields, FieldV};
use crate::subst::{after_fresh, bind, level_in, Subst, SubstV};
use crate::text::{lemma_lex_total, lex_less, str_eq, str_less};
use crate::ty::{field_view, fields_view, params_view, ty_view, tys_view};
use crate::ty::{FuncParam, ParamV, Row, RowV, Ty, TyV, TyVar};
use crate::vars::{occurs, occurs_in_fields, occurs_in_params, occurs_in_tys};

verus! {

/// The substitution after an attempt to unify, and what went wrong.
pub type Outcome = (SubstV, Option<TypeErrorV>);

// ---------------------------------------------------------------------------
// What unification makes smaller
// ---------------------------------------------------------------------------

/// How many type variables are still unsolved.
pub open spec fn unsolved(m: SubstMap) -> nat {
    (0x1_0000_0000 - m.dom().len()) as nat
}

/// How deeply a type is nested, as far as unification descends into it.
pub open spec fn depth(t: TyV) -> nat
    decreases t,
{
    match t {
        TyV::Tuple(ts) => 1 + tys_depth(ts),
        TyV::Func(ps, ret) => 1 + max2(params_depth(ps), depth(*ret.ty)),
        TyV::App(con, args) => 1 + max2(depth(*con), tys_depth(args)),
        TyV::Record(row) => 1 + max2(fields_depth(row.fields), depth(*row.tail)),
        _ => 0,
    }
}

pub open spec fn tys_depth(ts: Seq<TyV>) -> nat
    decreases ts,
{
    if ts.len() == 0 {
        0
    } else {
        max2(tys_depth(ts.drop_last()), depth(ts.last()))
    }
}

pub open spec fn params_depth(ps: Seq<ParamV>) -> nat
    decreases ps,
{
    if ps.len() == 0 {
        0
    } else {
        max2(params_depth(ps.drop_last()), depth(ps.last().ty))
    }
}

pub open spec fn fields_depth(fs: Seq<FieldV>) -> nat
    decreases fs,
{
    if fs.len() == 0 {
        0
    } else {
        max2(fields_depth(fs.drop_last()), depth(fs.last().1))
    }
}

/// How deeply two types are nested once resolved.
pub open spec fn pair_depth(m: SubstMap, a: TyV, b: TyV) -> nat {
    depth(apply(m, a)) + depth(apply(m, b))
}

pub open spec fn is_record(t: TyV) -> bool {
    t is Record
}

/// How many of the two rows have a record for their remaining fields.
pub open spec fn record_tails(m: SubstMap, r1: RowV, r2: RowV) -> nat {
    let k1: nat = if is_record(apply(m, *r1.tail)) {
        1
    } else {
        0
    };
    let k2: nat = if is_record(apply(m, *r2.tail)) {
        1
    } else {
        0
    };
    k1 + k2
}

/// Fewer unsolved variables than `u`, or as many and less nesting than `d`.
pub open spec fn pair_below(m: SubstMap, a: TyV, b: TyV, u: nat, d: nat) -> bool {
    unsolved(m) < u || (unsolved(m) == u && pair_depth(m, a, b) < d)
}

/// The same for two rows, where with equal nesting the number of records
/// among the remaining fields decides.
pub open spec fn rows_below(m: SubstMap, r1: RowV, r2: RowV, u: nat, d: nat, k: nat) -> bool {
    let rd = pair_depth(m, TyV::Record(r1), TyV::Record(r2));
    unsolved(m) < u || (unsolved(m) == u && (rd < d || (rd == d && record_tails(m, r1, r2) < k)))
}

// ---------------------------------------------------------------------------
// Unification
// ---------------------------------------------------------------------------

/// `o`, with a mismatch reported as one in `context`.
pub open spec fn outcome_in(o: Outcome, context: ContextV) -> Outcome {
    match o.1 {
        Some(e) => (o.0, Some(in_context(e, context))),
        None => o,
    }
}

/// Unifying two types: both are resolved first, a variable is bound to the
/// other type, and types of one shape are unified part by part. The first
/// error ends the attempt. (Each descent is guarded by a measure that shrinks
/// from call to call; the guards never fail.)
pub open spec fn unify_types(s: SubstV, t1: TyV, t2: TyV) -> Outcome
    decreases unsolved(s.map), pair_depth(s.map, t1, t2), 3nat, 1nat, 0nat,
{
    let u = unsolved(s.map);
    let d = pair_depth(s.map, t1, t2);
    let a = apply(s.map, t1);
    let b = apply(s.map, t2);
    match (a, b) {
        (TyV::Int, TyV::Int) => (s, None),
        (TyV::Float, TyV::Float) => (s, None),
        (TyV::Unit, TyV::Unit) => (s, None),
        (TyV::Never, TyV::Never) => (s, None),
        (TyV::Var(v), _) => bind(s, v, b),
        (_, TyV::Var(v)) => bind(s, v, a),
        (TyV::Con(n1), TyV::Con(n2)) => if n1 == n2 {
            (s, None)
        } else {
            (s, Some(TypeErrorV::Mismatch(b, a)))
        },
        (TyV::Func(p1, r1), TyV::Func(p2, r2)) => {
            if p1.len() != p2.len() {
                (
                    s,
                    Some(
                        TypeErrorV::ArityMismatch {
                            expected: p1.len() as usize,
                            got: p2.len() as usize,
                        },
                    ),
                )
            } else {
                let o = unify_params(s, p1, p2, p1.len(), u, d);
                if o.1 is Some {
                    o
                } else if r1.capability != r2.capability {
                    (o.0, Some(TypeErrorV::MutableFunctionCapabilityMismatch))
                } else if pair_below(o.0.map, *r1.ty, *r2.ty, u, d) {
                    outcome_in(unify_types(o.0, *r1.ty, *r2.ty), ContextV::FunctionReturn)
                } else {
                    o
                }
            }
        },
        (TyV::Tuple(ts1), TyV::Tuple(ts2)) => {
            if ts1.len() != ts2.len() {
                (s, Some(TypeErrorV::Mismatch(a, b)))
            } else {
                unify_elements(s, ts1, ts2, ts1.len(), u, d)
            }
        },
        (TyV::App(c1, a1), TyV::App(c2, a2)) => {
            if pair_below(s.map, *c1, *c2, u, d) {
                let o = unify_types(s, *c1, *c2);
                if o.1 is Some {
                    o
                } else if a1.len() != a2.len() {
                    (o.0, Some(TypeErrorV::Mismatch(a, b)))
                } else {
                    unify_args(o.0, a1, a2, a1.len(), u, d)
                }
            } else {
                (s, None)
            }
        },
        (TyV::Record(r1), TyV::Record(r2)) => {
            if rows_below(s.map, r1, r2, u, d, 3) {
                unify_rows(s, r1, r2)
            } else {
                (s, None)
            }
        },
        _ => (s, Some(TypeErrorV::Mismatch(b, a))),
    }
}

/// Unifying the first `n` parameters, one after the other.
pub open spec fn unify_params(
    s: SubstV,
    p1: Seq<ParamV>,
    p2: Seq<ParamV>,
    n: nat,
    u: nat,
    d: nat,
) -> Outcome
    decreases u, d, 3nat, 0nat, n,
{
    if n == 0 {
        (s, None)
    } else {
        let o = unify_params(s, p1, p2, (n - 1) as nat, u, d);
        let i = n - 1;
        if o.1 is Some {
            o
        } else if p1[i].capability != p2[i].capability {
            (o.0, Some(TypeErrorV::MutableFunctionCapabilityMismatch))
        } else if pair_below(o.0.map, p1[i].ty, p2[i].ty, u, d) {
            outcome_in(
                unify_types(o.0, p1[i].ty, p2[i].ty),
                ContextV::FunctionParam(i as usize),
            )
        } else {
            o
        }
    }
}

/// Unifying the first `n` elements of two tuples.
pub open spec fn unify_elements(
    s: SubstV,
    ts1: Seq<TyV>,
    ts2: Seq<TyV>,
    n: nat,
    u: nat,
    d: nat,
) -> Outcome
    decreases u, d, 3nat, 0nat, n,
{
    if n == 0 {
        (s, None)
    } else {
        let o = unify_elements(s, ts1, ts2, (n - 1) as nat, u, d);
        let i = n - 1;
        if o.1 is Some {
            o
        } else if pair_below(o.0.map, ts1[i], ts2[i], u, d) {
            outcome_in(unify_types(o.0, ts1[i], ts2[i]), ContextV::TupleElement(i as usize))
        } else {
            o
        }
    }
}

/// Unifying the first `n` arguments of two type applications.
pub open spec fn unify_args(
    s: SubstV,
    ts1: Seq<TyV>,
    ts2: Seq<TyV>,
    n: nat,
    u: nat,
    d: nat,
) -> Outcome
    decreases u, d, 3nat, 0nat, n,
{
    if n == 0 {
        (s, None)
    } else {
        let o = unify_args(s, ts1, ts2, (n - 1) as nat, u, d);
        let i = n - 1;
        if o.1 is Some {
            o
        } else if pair_below(o.0.map, ts1[i], ts2[i], u, d) {
            outcome_in(unify_types(o.0, ts1[i], ts2[i]), ContextV::TypeArgument(i as usize))
        } else {
            o
        }
    }
}

/// A field that two records share: its name and its type in each.
pub type CommonV = (Seq<char>, TyV, TyV);

/// The fields of two records in name order, told apart: those of both, those
/// of the first only and those of the second only.
pub struct SplitV {
    pub common: Seq<CommonV>,
    pub extras1: Seq<FieldV>,
    pub extras2: Seq<FieldV>,
}

pub open spec fn split_fields(f1: Seq<FieldV>, f2: Seq<FieldV>) -> SplitV
    decreases f1.len() + f2.len(),
{
    if f1.len() == 0 {
        SplitV { common: Seq::empty(), extras1: Seq::empty(), extras2: f2 }
    } else if f2.len() == 0 {
        SplitV { common: Seq::empty(), extras1: f1, extras2: Seq::empty() }
    } else if f1[0].0 == f2[0].0 {
        let rest = split_fields(f1.skip(1), f2.skip(1));
        SplitV { common: seq![(f1[0].0, f1[0].1, f2[0].1)] + rest.common, ..rest }
    } else if lex_less(f1[0].0, f2[0].0) {
        let rest = split_fields(f1.skip(1), f2);
        SplitV { extras1: seq![f1[0]] + rest.extras1, ..rest }
    } else {
        let rest = split_fields(f1, f2.skip(1));
        SplitV { extras2: seq![f2[0]] + rest.extras2, ..rest }
    }
}

/// Unifying the types of the first `n` shared fields.
pub open spec fn unify_common(
    s: SubstV,
    common: Seq<CommonV>,
    n: nat,
    u: nat,
    d: nat,
    k: nat,
) -> Outcome
    decreases u, d, k, 0nat, n,
{
    if n == 0 {
        (s, None)
    } else {
        let o = unify_common(s, common, (n - 1) as nat, u, d, k);
        let i = n - 1;
        if o.1 is Some {
            o
        } else if pair_below(o.0.map, common[i].1, common[i].2, u, d) {
            outcome_in(
                unify_types(o.0, common[i].1, common[i].2),
                ContextV::RecordField(common[i].0),
            )
        } else {
            o
        }
    }
}

/// A record of exactly `fields`.
pub open spec fn closed_record(fields: Seq<FieldV>) -> TyV {
    TyV::Record(RowV { fields, tail: Box::new(TyV::Unit) })
}

/// Unifying two rows: shared fields are unified, and each side's remaining
/// fields take up what only the other side names.
pub open spec fn unify_rows(s: SubstV, r1: RowV, r2: RowV) -> Outcome
    decreases
        unsolved(s.map),
        pair_depth(s.map, TyV::Record(r1), TyV::Record(r2)),
        record_tails(s.map, r1, r2),
        1nat,
        0nat,
{
    let u = unsolved(s.map);
    let d = pair_depth(s.map, TyV::Record(r1), TyV::Record(r2));
    let k = record_tails(s.map, r1, r2);
    let split = split_fields(r1.fields, r2.fields);
    let o = unify_common(s, split.common, split.common.len(), u, d, k);
    if o.1 is Some {
        o
    } else {
        let tail1 = apply(o.0.map, *r1.tail);
        let tail2 = apply(o.0.map, *r2.tail);
        match (tail1, tail2) {
            (TyV::Record(row1), _) => {
                let n1 = RowV { fields: sort_fields(row1.fields + split.extras1), tail: row1.tail };
                let n2 = RowV { fields: split.extras2, tail: Box::new(tail2) };
                if rows_below(o.0.map, n1, n2, u, d, k) {
                    unify_rows(o.0, n1, n2)
                } else {
                    o
                }
            },
            (_, TyV::Record(row2)) => {
                let n1 = RowV { fields: split.extras1, tail: Box::new(tail1) };
                let n2 = RowV { fields: sort_fields(row2.fields + split.extras2), tail: row2.tail };
                if rows_below(o.0.map, n1, n2, u, d, k) {
                    unify_rows(o.0, n1, n2)
                } else {
                    o
                }
            },
            _ => unify_tails(o.0, split.extras1, tail1, split.extras2, tail2),
        }
    }
}

/// Unifying the remaining fields of two rows, neither of them a record, when
/// `extras1` is named by the first row only and `extras2` by the second only.
pub open spec fn unify_tails(
    s: SubstV,
    extras1: Seq<FieldV>,
    tail1: TyV,
    extras2: Seq<FieldV>,
    tail2: TyV,
) -> Outcome {
    match (tail1, tail2) {
        (TyV::Unit, TyV::Unit) => {
            if extras1.len() == 0 && extras2.len() == 0 {
                (s, None)
            } else {
                (s, Some(TypeErrorV::Mismatch(closed_record(extras1), closed_record(extras2))))
            }
        },
        (TyV::Var(v), TyV::Unit) => {
            if extras1.len() > 0 {
                (s, Some(TypeErrorV::Mismatch(closed_record(extras1), TyV::Unit)))
            } else {
                bind(s, v, closed_record(extras2))
            }
        },
        (TyV::Unit, TyV::Var(v)) => {
            if extras2.len() > 0 {
                (s, Some(TypeErrorV::Mismatch(TyV::Unit, closed_record(extras2))))
            } else {
                bind(s, v, closed_record(extras1))
            }
        },
        (TyV::Var(v1), TyV::Var(v2)) => {
            if v1 == v2 {
                if extras1.len() == 0 && extras2.len() == 0 {
                    (s, None)
                } else {
                    (s, Some(TypeErrorV::OccursCheck(v1)))
                }
            } else {
                let shared = Box::new(TyV::Var(s.next_var));
                let s1 = after_fresh(s, level_in(s.levels, v1));
                let o = bind(s1, v1, TyV::Record(RowV { fields: extras2, tail: shared }));
                if o.1 is Some {
                    o
                } else {
                    bind(o.0, v2, TyV::Record(RowV { fields: extras1, tail: shared }))
                }
            }
        },
        _ => (s, Some(TypeErrorV::Mismatch(tail1, tail2))),
    }
}

// ---------------------------------------------------------------------------
// Why the measure shrinks
// ---------------------------------------------------------------------------

/// There are no more solved variables than there are variables.
pub proof fn lemma_solved_count(dom: Set<TyVar>)
    requires
        dom.finite(),
    ensures
        dom.len() <= 0x1_0000_0000,
{
    let f = |v: TyVar| v as int;
    let image = dom.map(f);
    vstd::set_lib::lemma_map_size(dom, image, f);
    vstd::set_lib::lemma_int_range(0, 0x1_0000_0000);
    vstd::set_lib::lemma_len_subset(image, vstd::set_lib::set_int_range(0, 0x1_0000_0000));
}

/// The substitution is as it was, or has solved more variables.
pub open spec fn advanced(s: SubstV, s2: SubstV) -> bool {
    s2 == s || unsolved(s2.map) < unsolved(s.map)
}

/// Binding an unsolved variable changes nothing or solves it.
pub proof fn lemma_bind_advances(s: SubstV, v: TyVar, t: TyV)
    requires
        s.map.dom().finite(),
        !s.map.dom().contains(v),
    ensures
        bind(s, v, t).1 is None ==> bind(s, v, t).0 == s || (unsolved(bind(s, v, t).0.map)
            < unsolved(s.map)),
        bind(s, v, t).0.map.dom().finite(),
{
    let m2 = bind(s, v, t).0.map;
    if m2 != s.map {
        assert(m2.dom() =~= s.map.dom().insert(v));
        lemma_solved_count(m2.dom());
    }
}

/// A normal type in which no variable is solved.
pub open spec fn resolved(m: SubstMap, t: TyV) -> bool {
    normal(t) && forall|v: TyVar| #[trigger] occurs(v, t) ==> !m.dom().contains(v)
}

pub proof fn lemma_apply_resolved(m: SubstMap, t: TyV)
    requires
        acyclic(m),
    ensures
        resolved(m, apply(m, t)),
{
    law_apply_normal(m, t);
    assert forall|v: TyVar| #[trigger] occurs(v, apply(m, t)) implies !m.dom().contains(v) by {
        if m.dom().contains(v) {
            law_apply_eliminates(m, t, v);
        }
    }
}

proof fn lemma_resolved_tys(m: SubstMap, ts: Seq<TyV>)
    requires
        acyclic(m),
        normal_tys(ts),
        forall|v: TyVar| #[trigger] occurs_in_tys(v, ts) ==> !m.dom().contains(v),
    ensures
        forall|i: int|
            0 <= i < ts.len() ==> resolved(m, #[trigger] ts[i]) && apply(m, ts[i]) == ts[i]
                && depth(ts[i]) <= tys_depth(ts),
{
    assert forall|i: int| 0 <= i < ts.len() implies resolved(m, #[trigger] ts[i]) && apply(
        m,
        ts[i],
    ) == ts[i] && depth(ts[i]) <= tys_depth(ts) by {
        assert forall|v: TyVar| #[trigger] occurs(v, ts[i]) implies !m.dom().contains(v) by {
            assert(occurs_in_tys(v, ts));
        }
        lemma_apply_fixpoint(m, ts[i]);
        lemma_tys_depth(ts, i);
    }
}

proof fn lemma_tys_depth(ts: Seq<TyV>, i: int)
    requires
        0 <= i < ts.len(),
    ensures
        depth(ts[i]) <= tys_depth(ts),
    decreases ts.len(),
{
    if i < ts.len() - 1 {
        lemma_tys_depth(ts.drop_last(), i);
    }
}

proof fn lemma_params_depth(ps: Seq<ParamV>, i: int)
    requires
        0 <= i < ps.len(),
    ensures
        depth(ps[i].ty) <= params_depth(ps),
    decreases ps.len(),
{
    if i < ps.len() - 1 {
        lemma_params_depth(ps.drop_last(), i);
    }
}

proof fn lemma_fields_depth(fs: Seq<FieldV>, i: int)
    requires
        0 <= i < fs.len(),
    ensures
        depth(fs[i].1) <= fields_depth(fs),
    decreases fs.len(),
{
    if i < fs.len() - 1 {
        lemma_fields_depth(fs.drop_last(), i);
    }
}

proof fn lemma_fields_depth_bound(fs: Seq<FieldV>, n: nat)
    requires
        forall|i: int| 0 <= i < fs.len() ==> depth((#[trigger] fs[i]).1) <= n,
    ensures
        fields_depth(fs) <= n,
    decreases fs.len(),
{
    if fs.len() > 0 {
        let d = fs.drop_last();
        assert forall|i: int| 0 <= i < d.len() implies depth((#[trigger] d[i]).1) <= n by {
            assert(d[i] == fs[i]);
        }
        lemma_fields_depth_bound(d, n);
        assert(fs[fs.len() - 1] == fs.last());
    }
}

/// The parts of a resolved type are resolved and less deeply nested.
pub proof fn lemma_resolved_parts(m: SubstMap, t: TyV)
    requires
        acyclic(m),
        resolved(m, t),
    ensures
        match t {
            TyV::Tuple(ts) => forall|i: int|
                0 <= i < ts.len() ==> apply(m, #[trigger] ts[i]) == ts[i] && depth(ts[i]) < depth(
                    t,
                ),
            TyV::Func(ps, ret) => apply(m, *ret.ty) == *ret.ty && depth(*ret.ty) < depth(t) && (
            forall|i: int|
                0 <= i < ps.len() ==> apply(m, (#[trigger] ps[i]).ty) == ps[i].ty && depth(
                    ps[i].ty,
                ) < depth(t)),
            TyV::App(con, args) => apply(m, *con) == *con && depth(*con) < depth(t) && (forall|
                i: int,
            |
                0 <= i < args.len() ==> apply(m, #[trigger] args[i]) == args[i] && depth(args[i])
                    < depth(t)),
            _ => true,
        },
{
    match t {
        TyV::Tuple(ts) => {
            assert forall|v: TyVar| #[trigger] occurs_in_tys(v, ts) implies !m.dom().contains(
                v,
            ) by {
                assert(occurs(v, t));
            }
            lemma_resolved_tys(m, ts);
        },
        TyV::Func(ps, ret) => {
            assert forall|v: TyVar| #[trigger] occurs(v, *ret.ty) implies !m.dom().contains(v) by {
                assert(occurs(v, t));
            }
            lemma_apply_fixpoint(m, *ret.ty);
            assert(normal_params(ps));
            assert forall|i: int| 0 <= i < ps.len() implies apply(m, (#[trigger] ps[i]).ty)
                == ps[i].ty && depth(ps[i].ty) < depth(t) by {
                assert forall|v: TyVar| #[trigger] occurs(v, ps[i].ty) implies !m.dom().contains(
                    v,
                ) by {
                    assert(occurs_in_params(v, ps));
                    assert(occurs(v, t));
                }
                lemma_apply_fixpoint(m, ps[i].ty);
                lemma_params_depth(ps, i);
            }
        },
        TyV::App(con, args) => {
            assert forall|v: TyVar| #[trigger] occurs(v, *con) implies !m.dom().contains(v) by {
                assert(occurs(v, t));
            }
            lemma_apply_fixpoint(m, *con);
            assert forall|v: TyVar| #[trigger] occurs_in_tys(v, args) implies !m.dom().contains(
                v,
            ) by {
                assert(occurs(v, t));
            }
            lemma_resolved_tys(m, args);
        },
        _ => {},
    }
}

/// The remaining fields and the fields of a resolved record are resolved.
pub proof fn lemma_resolved_record(m: SubstMap, row: RowV)
    requires
        acyclic(m),
        resolved(m, TyV::Record(row)),
    ensures
        apply(m, *row.tail) == *row.tail,
        apply_fields(m, row.fields) == row.fields,
        !is_record(*row.tail),
        resolved(m, *row.tail),
{
    let t = TyV::Record(row);
    assert(normal(t));
    assert forall|v: TyVar| #[trigger] occurs(v, *row.tail) implies !m.dom().contains(v) by {
        assert(occurs(v, t));
    }
    lemma_apply_fixpoint(m, *row.tail);
    assert forall|v: TyVar| #[trigger] occurs_in_fields(v, row.fields) implies !m.dom().contains(
        v,
    ) by {
        assert(occurs(v, t));
    }
    lemma_apply_fields_fixpoint(m, row.fields);
}

/// Every field of `a` is one of `b`.
pub open spec fn fields_within(a: Seq<FieldV>, b: Seq<FieldV>) -> bool {
    forall|i: int| 0 <= i < a.len() ==> b.contains(#[trigger] a[i])
}

proof fn lemma_flat_depth(a: Seq<FieldV>, b: Seq<FieldV>, tail: TyV)
    requires
        fields_within(a, b),
        !is_record(tail),
    ensures
        depth(flat_record(a, tail)) <= depth(flat_record(b, tail)),
{
    let sa = sort_fields(a);
    let sb = sort_fields(b);
    assert forall|i: int| 0 <= i < sa.len() implies depth((#[trigger] sa[i]).1) <= fields_depth(
        sb,
    ) by {
        assert(sa.contains(sa[i]));
        lemma_sort_fields_contains(a, sa[i]);
        let j = choose|j: int| 0 <= j < a.len() && a[j] == sa[i];
        assert(b.contains(a[j]));
        lemma_sort_fields_contains(b, sa[i]);
        let k = choose|k: int| 0 <= k < sb.len() && sb[k] == sa[i];
        lemma_fields_depth(sb, k);
    }
    lemma_fields_depth_bound(sa, fields_depth(sb));
}

/// Taking over the fields of a record tail one by one, or all at once.
proof fn lemma_flat_tail(fields: Seq<FieldV>, row: RowV)
    requires
        !is_record(*row.tail),
    ensures
        flat_record(fields, TyV::Record(row)) == flat_record(fields + row.fields, *row.tail),
{
}

/// A field is less deeply nested than its record.
proof fn lemma_field_below(m: SubstMap, row: RowV, i: int)
    requires
        acyclic(m),
        0 <= i < row.fields.len(),
    ensures
        depth(apply(m, row.fields[i].1)) < depth(apply(m, TyV::Record(row))),
{
    let fs = apply_fields(m, row.fields);
    let tail = apply(m, *row.tail);
    let all = match tail {
        TyV::Record(inner) => fs + inner.fields,
        _ => fs,
    };
    let f = fs[i];
    assert(f == (row.fields[i].0, apply(m, row.fields[i].1)));
    assert(all[i] == f);
    lemma_sort_fields_contains(all, f);
    assert(all.contains(f));
    let sorted = sort_fields(all);
    let k = choose|k: int| 0 <= k < sorted.len() && sorted[k] == f;
    lemma_fields_depth(sorted, k);
}

/// What the two sides of a split hold comes from the two records.
pub proof fn lemma_split(f1: Seq<FieldV>, f2: Seq<FieldV>)
    ensures
        fields_within(split_fields(f1, f2).extras1, f1),
        fields_within(split_fields(f1, f2).extras2, f2),
        forall|i: int|
            0 <= i < split_fields(f1, f2).common.len() ==> f1.contains(
                ((#[trigger] split_fields(f1, f2).common[i]).0, split_fields(f1, f2).common[i].1),
            ) && f2.contains(
                (split_fields(f1, f2).common[i].0, split_fields(f1, f2).common[i].2),
            ),
    decreases f1.len() + f2.len(),
{
    let r = split_fields(f1, f2);
    if f1.len() > 0 && f2.len() > 0 {
        let g1 = f1.skip(1);
        let g2 = f2.skip(1);
        assert forall|x: FieldV| #[trigger] g1.contains(x) implies f1.contains(x) by {
            let k = choose|k: int| 0 <= k < g1.len() && g1[k] == x;
            assert(f1[k + 1] == x);
        }
        assert forall|x: FieldV| #[trigger] g2.contains(x) implies f2.contains(x) by {
            let k = choose|k: int| 0 <= k < g2.len() && g2[k] == x;
            assert(f2[k + 1] == x);
        }
        assert(f1.contains(f1[0]));
        assert(f2.contains(f2[0]));
        if f1[0].0 == f2[0].0 {
            lemma_split(g1, g2);
            let rest = split_fields(g1, g2);
            assert forall|i: int| 0 <= i < r.common.len() implies f1.contains(
                ((#[trigger] r.common[i]).0, r.common[i].1),
            ) && f2.contains((r.common[i].0, r.common[i].2)) by {
                if i > 0 {
                    assert(r.common[i] == rest.common[i - 1]);
                }
            }
        } else if lex_less(f1[0].0, f2[0].0) {
            lemma_split(g1, f2);
            let rest = split_fields(g1, f2);
            assert forall|i: int| 0 <= i < r.extras1.len() implies f1.contains(
                #[trigger] r.extras1[i],
            ) by {
                if i > 0 {
                    assert(r.extras1[i] == rest.extras1[i - 1]);
                }
            }
        } else {
            lemma_split(f1, g2);
            let rest = split_fields(f1, g2);
            assert forall|i: int| 0 <= i < r.extras2.len() implies f2.contains(
                #[trigger] r.extras2[i],
            ) by {
                if i > 0 {
                    assert(r.extras2[i] == rest.extras2[i - 1]);
                }
            }
        }
    }
}

/// Shared fields are less deeply nested than the two records.
pub proof fn lemma_common_below(m: SubstMap, r1: RowV, r2: RowV)
    requires
        acyclic(m),
    ensures
        forall|i: int|
            0 <= i < split_fields(r1.fields, r2.fields).common.len() ==> pair_depth(
                m,
                (#[trigger] split_fields(r1.fields, r2.fields).common[i]).1,
                split_fields(r1.fields, r2.fields).common[i].2,
            ) < pair_depth(m, TyV::Record(r1), TyV::Record(r2)),
{
    lemma_split(r1.fields, r2.fields);
    let common = split_fields(r1.fields, r2.fields).common;
    assert forall|i: int| 0 <= i < common.len() implies pair_depth(
        m,
        (#[trigger] common[i]).1,
        common[i].2,
    ) < pair_depth(m, TyV::Record(r1), TyV::Record(r2)) by {
        let x1 = (common[i].0, common[i].1);
        let x2 = (common[i].0, common[i].2);
        let k1 = choose|k: int| 0 <= k < r1.fields.len() && r1.fields[k] == x1;
        let k2 = choose|k: int| 0 <= k < r2.fields.len() && r2.fields[k] == x2;
        lemma_field_below(m, r1, k1);
        lemma_field_below(m, r2, k2);
    }
}

proof fn lemma_apply_within(m: SubstMap, a: Seq<FieldV>, b: Seq<FieldV>)
    requires
        acyclic(m),
        fields_within(a, b),
    ensures
        fields_within(apply_fields(m, a), apply_fields(m, b)),
{
    let pa = apply_fields(m, a);
    let pb = apply_fields(m, b);
    assert forall|i: int| 0 <= i < pa.len() implies pb.contains(#[trigger] pa[i]) by {
        assert(b.contains(a[i]));
        let k = choose|k: int| 0 <= k < b.len() && b[k] == a[i];
        assert(pb[k] == pa[i]);
    }
}

/// Moving the fields of a record tail into the row itself: no deeper, and one
/// record tail less. The other row keeps its tail and some of its fields.
pub proof fn lemma_rows_step(m: SubstMap, r: RowV, row: RowV, extras: Seq<FieldV>, n: RowV)
    requires
        acyclic(m),
        apply(m, *r.tail) == TyV::Record(row),
        fields_within(extras, r.fields),
        n == (RowV { fields: sort_fields(row.fields + extras), tail: row.tail }),
    ensures
        depth(apply(m, TyV::Record(n))) <= depth(apply(m, TyV::Record(r))),
        !is_record(apply(m, *n.tail)),
{
    lemma_apply_resolved(m, *r.tail);
    lemma_resolved_record(m, row);
    let old_fields = apply_fields(m, r.fields);
    let all = old_fields + row.fields;
    lemma_flat_tail(old_fields, row);
    let new_fields = apply_fields(m, n.fields);
    assert(fields_within(new_fields, all)) by {
        assert forall|i: int| 0 <= i < new_fields.len() implies all.contains(
            #[trigger] new_fields[i],
        ) by {
            let g = n.fields[i];
            assert(n.fields.contains(g));
            lemma_sort_fields_contains(row.fields + extras, g);
            let k = choose|k: int|
                0 <= k < (row.fields + extras).len() && (row.fields + extras)[k] == g;
            if k < row.fields.len() {
                assert(row.fields[k] == g);
                assert(apply_fields(m, row.fields)[k] == new_fields[i]);
                assert(all[old_fields.len() + k] == new_fields[i]);
            } else {
                assert(extras[k - row.fields.len()] == g);
                assert(r.fields.contains(g));
                let j = choose|j: int| 0 <= j < r.fields.len() && r.fields[j] == g;
                assert(old_fields[j] == new_fields[i]);
                assert(all[j] == new_fields[i]);
            }
        }
    }
    lemma_flat_depth(new_fields, all, *row.tail);
}

pub proof fn lemma_rows_keep(m: SubstMap, r: RowV, extras: Seq<FieldV>, n: RowV)
    requires
        acyclic(m),
        fields_within(extras, r.fields),
        n == (RowV { fields: extras, tail: Box::new(apply(m, *r.tail)) }),
    ensures
        depth(apply(m, TyV::Record(n))) <= depth(apply(m, TyV::Record(r))),
        apply(m, *n.tail) == apply(m, *r.tail),
{
    let tail = apply(m, *r.tail);
    lemma_apply_resolved(m, *r.tail);
    lemma_apply_fixpoint(m, tail);
    lemma_apply_within(m, extras, r.fields);
    let a = apply_fields(m, extras);
    let b = apply_fields(m, r.fields);
    match tail {
        TyV::Record(row) => {
            lemma_resolved_record(m, row);
            lemma_flat_tail(a, row);
            lemma_flat_tail(b, row);
            let a2 = a + row.fields;
            let b2 = b + row.fields;
            assert forall|i: int| 0 <= i < a2.len() implies b2.contains(#[trigger] a2[i]) by {
                if i < a.len() {
                    assert(b.contains(a[i]));
                    let k = choose|k: int| 0 <= k < b.len() && b[k] == a[i];
                    assert(b2[k] == a2[i]);
                } else {
                    assert(b2[b.len() + i - a.len()] == a2[i]);
                }
            }
            lemma_flat_depth(a2, b2, *row.tail);
        },
        _ => {
            lemma_flat_depth(a, b, tail);
        },
    }
}

// ---------------------------------------------------------------------------
// The executable unifier
// ---------------------------------------------------------------------------

/// The error of a result, if there is one.
pub open spec fn error_of(r: Result<(), TypeError>) -> Option<TypeErrorV> {
    match r {
        Ok(_) => None,
        Err(e) => Some(e@),
    }
}

/// Solves type variables so that `t1` and `t2` become the same type.
pub fn unify(s: &mut Subst, t1: Ty, t2: Ty) -> (r: Result<(), TypeError>)
    requires
        old(s).wf(),
    ensures
        final(s).wf(),
        (final(s)@, error_of(r)) == unify_types(old(s)@, t1@, t2@),
        r is Ok ==> advanced(old(s)@, final(s)@),
{
    unify_ref(s, &t1, &t2)
}

fn in_context_result(r: Result<(), TypeError>, context: TypeMismatchContext) -> (r2: Result<
    (),
    TypeError,
>)
    ensures
        r2 is Ok <==> r is Ok,
        r matches Err(e) ==> error_of(r2) == Some(in_context(e@, context@)),
{
    match r {
        Ok(_) => Ok(()),
        Err(e) => Err(e.with_mismatch_context(context)),
    }
}

fn unify_ref(s: &mut Subst, t1: &Ty, t2: &Ty) -> (r: Result<(), TypeError>)
    requires
        old(s).wf(),
    ensures
        final(s).wf(),
        (final(s)@, error_of(r)) == unify_types(old(s)@, t1@, t2@),
        r is Ok ==> advanced(old(s)@, final(s)@),
    decreases unsolved(old(s)@.map), pair_depth(old(s)@.map, t1@, t2@), 3nat, 1nat, 0nat,
{
    let a = s.apply(t1);
    let b = s.apply(t2);
    let ghost m = s@.map;
    let ghost u = unsolved(m);
    let ghost d = pair_depth(m, t1@, t2@);
    proof {
        lemma_apply_resolved(m, t1@);
        lemma_apply_resolved(m, t2@);
        lemma_resolved_parts(m, a@);
        lemma_resolved_parts(m, b@);
        lemma_apply_fixpoint(m, a@);
        lemma_apply_fixpoint(m, b@);
    }
    match (&a, &b) {
        (Ty::Int, Ty::Int) => Ok(()),
        (Ty::Float, Ty::Float) => Ok(()),
        (Ty::Unit, Ty::Unit) => Ok(()),
        (Ty::Never, Ty::Never) => Ok(()),
        (Ty::Var(v), _) => {
            proof {
                assert(occurs(*v, a@));
                lemma_bind_advances(s@, *v, b@);
            }
            s.bind_ty(*v, b)
        },
        (_, Ty::Var(v)) => {
            proof {
                assert(occurs(*v, b@));
                lemma_bind_advances(s@, *v, a@);
            }
            s.bind_ty(*v, a)
        },
        (Ty::Con(n1), Ty::Con(n2)) => {
            if str_eq(n1.as_str(), n2.as_str()) {
                Ok(())
            } else {
                Err(TypeError::Mismatch(b, a))
            }
        },
        (Ty::Func(p1, r1), Ty::Func(p2, r2)) => {
            assert(params_view(p1@).len() == p1@.len() && params_view(p2@).len() == p2@.len());
            if p1.len() != p2.len() {
                return Err(TypeError::ArityMismatch { expected: p1.len(), got: p2.len() });
            }
            let r = unify_param_lists(s, p1, p2, Ghost(m), Ghost(u), Ghost(d));
            if r.is_err() {
                return r;
            }
            if r1.capability != r2.capability {
                return Err(TypeError::MutableFunctionCapabilityMismatch);
            }
            let r = unify_ref(s, &r1.ty, &r2.ty);
            in_context_result(r, TypeMismatchContext::FunctionReturn)
        },
        (Ty::Tuple(ts1), Ty::Tuple(ts2)) => {
            assert(tys_view(ts1@).len() == ts1@.len() && tys_view(ts2@).len() == ts2@.len());
            if ts1.len() != ts2.len() {
                return Err(TypeError::Mismatch(a, b));
            }
            unify_element_lists(s, ts1, ts2, Ghost(m), Ghost(u), Ghost(d))
        },
        (Ty::App(c1, a1), Ty::App(c2, a2)) => {
            assert(tys_view(a1@).len() == a1@.len() && tys_view(a2@).len() == a2@.len());
            let r = unify_ref(s, c1, c2);
            if r.is_err() {
                return r;
            }
            if a1.len() != a2.len() {
                return Err(TypeError::Mismatch(a, b));
            }
            unify_arg_lists(s, a1, a2, Ghost(m), Ghost(u), Ghost(d))
        },
        (Ty::Record(r1), Ty::Record(r2)) => {
            assert(rows_below(m, r1@, r2@, u, d, 3));
            unify_row_pair(s, r1, r2)
        },
        _ => Err(TypeError::Mismatch(b, a)),
    }
}

fn unify_param_lists(
    s: &mut Subst,
    p1: &Vec<FuncParam>,
    p2: &Vec<FuncParam>,
    Ghost(m): Ghost<SubstMap>,
    Ghost(u): Ghost<nat>,
    Ghost(d): Ghost<nat>,
) -> (r: Result<(), TypeError>)
    requires
        old(s).wf(),
        p1@.len() == p2@.len(),
        unsolved(m) == u,
        old(s)@.map == m || unsolved(old(s)@.map) < u,
        forall|i: int|
            0 <= i < p1@.len() ==> pair_depth(
                m,
                (#[trigger] params_view(p1@)[i]).ty,
                params_view(p2@)[i].ty,
            ) < d,
    ensures
        final(s).wf(),
        (final(s)@, error_of(r)) == unify_params(
            old(s)@,
            params_view(p1@),
            params_view(p2@),
            p1@.len(),
            u,
            d,
        ),
        r is Ok ==> advanced(old(s)@, final(s)@),
    decreases u, d, 3nat, 0nat, 0nat,
{
    let ghost v1 = params_view(p1@);
    let ghost v2 = params_view(p2@);
    let mut i: usize = 0;
    while i < p1.len()
        invariant
            i <= p1.len(),
            p1@.len() == p2@.len(),
            v1 == params_view(p1@),
            v2 == params_view(p2@),
            s.wf(),
            unsolved(m) == u,
            old(s)@.map == m || unsolved(old(s)@.map) < u,
            forall|i: int|
                0 <= i < v1.len() ==> pair_depth(m, (#[trigger] v1[i]).ty, v2[i].ty) < d,
            (s@, None::<TypeErrorV>) == unify_params(old(s)@, v1, v2, i as nat, u, d),
            advanced(old(s)@, s@),
        decreases p1.len() - i,
    {
        assert(v1[i as int].ty == ty_view(p1@[i as int].ty));
        assert(v2[i as int].ty == ty_view(p2@[i as int].ty));
        if p1[i].capability != p2[i].capability {
            assert(unify_params(old(s)@, v1, v2, (i + 1) as nat, u, d).1 is Some);
            proof {
                lemma_unify_params_stop(old(s)@, v1, v2, (i + 1) as nat, v1.len(), u, d);
            }
            return Err(TypeError::MutableFunctionCapabilityMismatch);
        }
        assert(pair_below(s@.map, v1[i as int].ty, v2[i as int].ty, u, d));
        let r = unify_ref(s, &p1[i].ty, &p2[i].ty);
        if r.is_err() {
            proof {
                lemma_unify_params_stop(old(s)@, v1, v2, (i + 1) as nat, v1.len(), u, d);
            }
            return in_context_result(r, TypeMismatchContext::FunctionParam(i));
        }
        i = i + 1;
    }
    Ok(())
}

/// Once unifying has failed, nothing more is tried.
proof fn lemma_unify_params_stop(
    s: SubstV,
    v1: Seq<ParamV>,
    v2: Seq<ParamV>,
    i: nat,
    n: nat,
    u: nat,
    d: nat,
)
    requires
        i <= n,
        unify_params(s, v1, v2, i, u, d).1 is Some,
    ensures
        unify_params(s, v1, v2, n, u, d) == unify_params(s, v1, v2, i, u, d),
    decreases n - i,
{
    if i < n {
        lemma_unify_params_stop(s, v1, v2, i, (n - 1) as nat, u, d);
    }
}

fn unify_element_lists(
    s: &mut Subst,
    ts1: &Vec<Ty>,
    ts2: &Vec<Ty>,
    Ghost(m): Ghost<SubstMap>,
    Ghost(u): Ghost<nat>,
    Ghost(d): Ghost<nat>,
) -> (r: Result<(), TypeError>)
    requires
        old(s).wf(),
        ts1@.len() == ts2@.len(),
        unsolved(m) == u,
        old(s)@.map == m || unsolved(old(s)@.map) < u,
        forall|i: int|
            0 <= i < ts1@.len() ==> pair_depth(
                m,
                (#[trigger] tys_view(ts1@)[i]),
                tys_view(ts2@)[i],
            ) < d,
    ensures
        final(s).wf(),
        (final(s)@, error_of(r)) == unify_elements(
            old(s)@,
            tys_view(ts1@),
            tys_view(ts2@),
            ts1@.len(),
            u,
            d,
        ),
        r is Ok ==> advanced(old(s)@, final(s)@),
    decreases u, d, 3nat, 0nat, 0nat,
{
    let ghost v1 = tys_view(ts1@);
    let ghost v2 = tys_view(ts2@);
    let mut i: usize = 0;
    while i < ts1.len()
        invariant
            i <= ts1.len(),
            ts1@.len() == ts2@.len(),
            v1 == tys_view(ts1@),
            v2 == tys_view(ts2@),
            s.wf(),
            unsolved(m) == u,
            old(s)@.map == m || unsolved(old(s)@.map) < u,
            forall|i: int|
                0 <= i < v1.len() ==> pair_depth(m, (#[trigger] v1[i]), v2[i]) < d,
            (s@, None::<TypeErrorV>) == unify_elements(old(s)@, v1, v2, i as nat, u, d),
            advanced(old(s)@, s@),
        decreases ts1.len() - i,
    {
        assert(v1[i as int] == ty_view(ts1@[i as int]));
        assert(v2[i as int] == ty_view(ts2@[i as int]));
        assert(pair_below(s@.map, v1[i as int], v2[i as int], u, d));
        let r = unify_ref(s, &ts1[i], &ts2[i]);
        if r.is_err() {
            proof {
                lemma_unify_elements_stop(old(s)@, v1, v2, (i + 1) as nat, v1.len(), u, d);
            }
            return in_context_result(r, TypeMismatchContext::TupleElement(i));
        }
        i = i + 1;
    }
    Ok(())
}

/// Once unifying has failed, nothing more is tried.
proof fn lemma_unify_elements_stop(
    s: SubstV,
    v1: Seq<TyV>,
    v2: Seq<TyV>,
    i: nat,
    n: nat,
    u: nat,
    d: nat,
)
    requires
        i <= n,
        unify_elements(s, v1, v2, i, u, d).1 is Some,
    ensures
        unify_elements(s, v1, v2, n, u, d) == unify_elements(s, v1, v2, i, u, d),
    decreases n - i,
{
    if i < n {
        lemma_unify_elements_stop(s, v1, v2, i, (n - 1) as nat, u, d);
    }
}

fn unify_arg_lists(
    s: &mut Subst,
    ts1: &Vec<Ty>,
    ts2: &Vec<Ty>,
    Ghost(m): Ghost<SubstMap>,
    Ghost(u): Ghost<nat>,
    Ghost(d): Ghost<nat>,
) -> (r: Result<(), TypeError>)
    requires
        old(s).wf(),
        ts1@.len() == ts2@.len(),
        unsolved(m) == u,
        old(s)@.map == m || unsolved(old(s)@.map) < u,
        forall|i: int|
            0 <= i < ts1@.len() ==> pair_depth(
                m,
                (#[trigger] tys_view(ts1@)[i]),
                tys_view(ts2@)[i],
            ) < d,
    ensures
        final(s).wf(),
        (final(s)@, error_of(r)) == unify_args(
            old(s)@,
            tys_view(ts1@),
            tys_view(ts2@),
            ts1@.len(),
            u,
            d,
        ),
        r is Ok ==> advanced(old(s)@, final(s)@),
    decreases u, d, 3nat, 0nat, 0nat,
{
    let ghost v1 = tys_view(ts1@);
    let ghost v2 = tys_view(ts2@);
    let mut i: usize = 0;
    while i < ts1.len()
        invariant
            i <= ts1.len(),
            ts1@.len() == ts2@.len(),
            v1 == tys_view(ts1@),
            v2 == tys_view(ts2@),
            s.wf(),
            unsolved(m) == u,
            old(s)@.map == m || unsolved(old(s)@.map) < u,
            forall|i: int|
                0 <= i < v1.len() ==> pair_depth(m, (#[trigger] v1[i]), v2[i]) < d,
            (s@, None::<TypeErrorV>) == unify_args(old(s)@, v1, v2, i as nat, u, d),
            advanced(old(s)@, s@),
        decreases ts1.len() - i,
    {
        assert(v1[i as int] == ty_view(ts1@[i as int]));
        assert(v2[i as int] == ty_view(ts2@[i as int]));
        assert(pair_below(s@.map, v1[i as int], v2[i as int], u, d));
        let r = unify_ref(s, &ts1[i], &ts2[i]);
        if r.is_err() {
            proof {
                lemma_unify_args_stop(old(s)@, v1, v2, (i + 1) as nat, v1.len(), u, d);
            }
            return in_context_result(r, TypeMismatchContext::TypeArgument(i));
        }
        i = i + 1;
    }
    Ok(())
}

/// Once unifying has failed, nothing more is tried.
proof fn lemma_unify_args_stop(
    s: SubstV,
    v1: Seq<TyV>,
    v2: Seq<TyV>,
    i: nat,
    n: nat,
    u: nat,
    d: nat,
)
    requires
        i <= n,
        unify_args(s, v1, v2, i, u, d).1 is Some,
    ensures
        unify_args(s, v1, v2, n, u, d) == unify_args(s, v1, v2, i, u, d),
    decreases n - i,
{
    if i < n {
        lemma_unify_args_stop(s, v1, v2, i, (n - 1) as nat, u, d);
    }
}


/// The fields of two records told apart.
struct Split {
    common: Vec<(String, Ty, Ty)>,
    extras1: Vec<(String, Ty)>,
    extras2: Vec<(String, Ty)>,
}

spec fn common_view(s: Seq<(String, Ty, Ty)>) -> Seq<CommonV> {
    Seq::new(s.len(), |i: int| (s[i].0@, s[i].1@, s[i].2@))
}

spec fn split_view(s: Split) -> SplitV {
    SplitV {
        common: common_view(s.common@),
        extras1: fields_view(s.extras1@),
        extras2: fields_view(s.extras2@),
    }
}

/// What is already told apart, followed by the rest.
spec fn split_append(a: SplitV, b: SplitV) -> SplitV {
    SplitV {
        common: a.common + b.common,
        extras1: a.extras1 + b.extras1,
        extras2: a.extras2 + b.extras2,
    }
}

fn split_field_lists(f1: &Vec<(String, Ty)>, f2: &Vec<(String, Ty)>) -> (r: Split)
    ensures
        split_view(r) == split_fields(fields_view(f1@), fields_view(f2@)),
{
    let ghost v1 = fields_view(f1@);
    let ghost v2 = fields_view(f2@);
    let mut out = Split { common: Vec::new(), extras1: Vec::new(), extras2: Vec::new() };
    let mut i: usize = 0;
    let mut j: usize = 0;
    proof {
        assert(v1.skip(0) =~= v1);
        assert(v2.skip(0) =~= v2);
        let all = split_fields(v1, v2);
        assert(split_append(split_view(out), all).common =~= all.common);
        assert(split_append(split_view(out), all).extras1 =~= all.extras1);
        assert(split_append(split_view(out), all).extras2 =~= all.extras2);
    }
    while i < f1.len() && j < f2.len()
        invariant
            i <= f1.len(),
            j <= f2.len(),
            v1 == fields_view(f1@),
            v2 == fields_view(f2@),
            split_append(split_view(out), split_fields(v1.skip(i as int), v2.skip(j as int)))
                == split_fields(v1, v2),
        decreases f1.len() - i + f2.len() - j,
    {
        let ghost before = split_view(out);
        let ghost rest = split_fields(v1.skip(i as int), v2.skip(j as int));
        let a = &f1[i];
        let b = &f2[j];
        proof {
            assert(v1.skip(i as int)[0] == field_view(*a));
            assert(v2.skip(j as int)[0] == field_view(*b));
            assert(v1.skip(i as int).skip(1) =~= v1.skip(i + 1));
            assert(v2.skip(j as int).skip(1) =~= v2.skip(j + 1));
        }
        if str_eq(a.0.as_str(), b.0.as_str()) {
            out.common.push((a.0.clone(), a.1.clone(), b.1.clone()));
            i = i + 1;
            j = j + 1;
            proof {
                let next = split_fields(v1.skip(i as int), v2.skip(j as int));
                let now = split_view(out);
                assert(now.common =~= before.common.push((a.0@, a.1@, b.1@)));
                assert(now.common + next.common =~= before.common + rest.common);
            }
        } else if str_less(a.0.as_str(), b.0.as_str()) {
            out.extras1.push((a.0.clone(), a.1.clone()));
            i = i + 1;
            proof {
                let next = split_fields(v1.skip(i as int), v2.skip(j as int));
                let now = split_view(out);
                assert(now.extras1 =~= before.extras1.push(field_view(*a)));
                assert(now.extras1 + next.extras1 =~= before.extras1 + rest.extras1);
            }
        } else {
            out.extras2.push((b.0.clone(), b.1.clone()));
            j = j + 1;
            proof {
                let next = split_fields(v1.skip(i as int), v2.skip(j as int));
                let now = split_view(out);
                assert(now.extras2 =~= before.extras2.push(field_view(*b)));
                assert(now.extras2 + next.extras2 =~= before.extras2 + rest.extras2);
            }
        }
    }
    let ghost before = split_view(out);
    let ghost rest = split_fields(v1.skip(i as int), v2.skip(j as int));
    let ghost i0 = i as int;
    let ghost j0 = j as int;
    push_fields_from(&mut out.extras1, f1, i);
    push_fields_from(&mut out.extras2, f2, j);
    proof {
        let now = split_view(out);
        assert(now.common =~= before.common + rest.common);
        assert(now.extras1 =~= before.extras1 + rest.extras1);
        assert(now.extras2 =~= before.extras2 + rest.extras2);
    }
    out
}

/// Appends the fields of `fs` from position `from` on.
fn push_fields_from(out: &mut Vec<(String, Ty)>, fs: &Vec<(String, Ty)>, from: usize)
    requires
        from <= fs@.len(),
    ensures
        fields_view(final(out)@) == fields_view(old(out)@) + fields_view(fs@).skip(from as int),
{
    let ghost start = fields_view(out@);
    let ghost all = fields_view(fs@);
    let mut i: usize = from;
    assert(fields_view(out@) =~= start + all.subrange(from as int, i as int));
    while i < fs.len()
        invariant
            from <= i <= fs.len(),
            all == fields_view(fs@),
            fields_view(out@) == start + all.subrange(from as int, i as int),
        decreases fs.len() - i,
    {
        let ghost before = fields_view(out@);
        out.push((fs[i].0.clone(), fs[i].1.clone()));
        proof {
            assert(fields_view(out@) =~= before.push(all[i as int]));
            assert(all.subrange(from as int, i + 1) =~= all.subrange(from as int, i as int).push(
                all[i as int],
            ));
            assert(fields_view(out@) =~= start + all.subrange(from as int, i + 1));
        }
        i = i + 1;
    }
    assert(all.subrange(from as int, i as int) =~= all.skip(from as int));
}

fn unify_row_pair(s: &mut Subst, r1: &Row, r2: &Row) -> (r: Result<(), TypeError>)
    requires
        old(s).wf(),
    ensures
        final(s).wf(),
        (final(s)@, error_of(r)) == unify_rows(old(s)@, r1@, r2@),
        r is Ok ==> advanced(old(s)@, final(s)@),
    decreases
        unsolved(old(s)@.map),
        pair_depth(old(s)@.map, TyV::Record(r1@), TyV::Record(r2@)),
        record_tails(old(s)@.map, r1@, r2@),
        1nat,
        0nat,
{
    let ghost s0 = s@;
    let ghost m = s@.map;
    let ghost u = unsolved(m);
    let ghost d = pair_depth(m, TyV::Record(r1@), TyV::Record(r2@));
    let ghost k = record_tails(m, r1@, r2@);
    let split = split_field_lists(&r1.fields, &r2.fields);
    let ghost sv = split_fields(r1@.fields, r2@.fields);
    proof {
        lemma_common_below(m, r1@, r2@);
        lemma_split(r1@.fields, r2@.fields);
    }
    let r = unify_common_fields(s, &split.common, Ghost(u), Ghost(d), Ghost(k));
    if r.is_err() {
        return r;
    }
    let tail1 = s.apply(&r1.tail);
    let tail2 = s.apply(&r2.tail);
    let ghost m1 = s@.map;
    let extras1 = split.extras1;
    let extras2 = split.extras2;
    proof {
        lemma_apply_resolved(m1, *r1@.tail);
        lemma_apply_resolved(m1, *r2@.tail);
    }
    match (tail1, tail2) {
        (Ty::Record(row1), tail2) => {
            let mut fields = row1.fields;
            let mut more = extras1;
            fields.append(&mut more);
            assert(fields_view(fields@) =~= fields_view(row1.fields@) + sv.extras1);
            let n1 = Row { fields: sort_record_fields(fields), tail: row1.tail };
            let n2 = Row { fields: extras2, tail: Box::new(tail2) };
            proof {
                if s@ == s0 {
                    lemma_rows_step(m, r1@, row1@, sv.extras1, n1@);
                    lemma_rows_keep(m, r2@, sv.extras2, n2@);
                }
                assert(rows_below(m1, n1@, n2@, u, d, k));
            }
            unify_row_pair(s, &n1, &n2)
        },
        (tail1, Ty::Record(row2)) => {
            let mut fields = row2.fields;
            let mut more = extras2;
            fields.append(&mut more);
            assert(fields_view(fields@) =~= fields_view(row2.fields@) + sv.extras2);
            let n1 = Row { fields: extras1, tail: Box::new(tail1) };
            let n2 = Row { fields: sort_record_fields(fields), tail: row2.tail };
            proof {
                if s@ == s0 {
                    lemma_rows_keep(m, r1@, sv.extras1, n1@);
                    lemma_rows_step(m, r2@, row2@, sv.extras2, n2@);
                }
                assert(rows_below(m1, n1@, n2@, u, d, k));
            }
            unify_row_pair(s, &n1, &n2)
        },
        (tail1, tail2) => unify_row_tails(s, extras1, tail1, extras2, tail2),
    }
}

fn unify_common_fields(
    s: &mut Subst,
    common: &Vec<(String, Ty, Ty)>,
    Ghost(u): Ghost<nat>,
    Ghost(d): Ghost<nat>,
    Ghost(k): Ghost<nat>,
) -> (r: Result<(), TypeError>)
    requires
        old(s).wf(),
        unsolved(old(s)@.map) == u,
        forall|i: int|
            0 <= i < common@.len() ==> pair_depth(
                old(s)@.map,
                (#[trigger] common_view(common@)[i]).1,
                common_view(common@)[i].2,
            ) < d,
    ensures
        final(s).wf(),
        (final(s)@, error_of(r)) == unify_common(
            old(s)@,
            common_view(common@),
            common@.len(),
            u,
            d,
            k,
        ),
        r is Ok ==> advanced(old(s)@, final(s)@),
    decreases u, d, k, 0nat, 0nat,
{
    let ghost v = common_view(common@);
    let mut i: usize = 0;
    while i < common.len()
        invariant
            i <= common.len(),
            v == common_view(common@),
            s.wf(),
            unsolved(old(s)@.map) == u,
            forall|i: int|
                0 <= i < v.len() ==> pair_depth(old(s)@.map, (#[trigger] v[i]).1, v[i].2) < d,
            (s@, None::<TypeErrorV>) == unify_common(old(s)@, v, i as nat, u, d, k),
            advanced(old(s)@, s@),
        decreases common.len() - i,
    {
        assert(v[i as int] == (common@[i as int].0@, common@[i as int].1@, common@[i as int].2@));
        assert(pair_below(s@.map, v[i as int].1, v[i as int].2, u, d));
        let item = &common[i];
        let r = unify_ref(s, &item.1, &item.2);
        if r.is_err() {
            proof {
                lemma_unify_common_stop(old(s)@, v, (i + 1) as nat, v.len(), u, d, k);
            }
            return in_context_result(r, TypeMismatchContext::RecordField(item.0.clone()));
        }
        i = i + 1;
    }
    Ok(())
}

/// Once unifying has failed, nothing more is tried.
proof fn lemma_unify_common_stop(
    s: SubstV,
    v: Seq<CommonV>,
    i: nat,
    n: nat,
    u: nat,
    d: nat,
    k: nat,
)
    requires
        i <= n,
        unify_common(s, v, i, u, d, k).1 is Some,
    ensures
        unify_common(s, v, n, u, d, k) == unify_common(s, v, i, u, d, k),
    decreases n - i,
{
    if i < n {
        lemma_unify_common_stop(s, v, i, (n - 1) as nat, u, d, k);
    }
}

fn unify_row_tails(
    s: &mut Subst,
    extras1: Vec<(String, Ty)>,
    tail1: Ty,
    extras2: Vec<(String, Ty)>,
    tail2: Ty,
) -> (r: Result<(), TypeError>)
    requires
        old(s).wf(),
        resolved(old(s)@.map, tail1@),
        resolved(old(s)@.map, tail2@),
    ensures
        final(s).wf(),
        (final(s)@, error_of(r)) == unify_tails(
            old(s)@,
            fields_view(extras1@),
            tail1@,
            fields_view(extras2@),
            tail2@,
        ),
        r is Ok ==> advanced(old(s)@, final(s)@),
{
    let ghost e1 = fields_view(extras1@);
    let ghost e2 = fields_view(extras2@);
    assert(ty_view(Ty::Unit) == TyV::Unit);
    assert(e1.len() == extras1@.len() && e2.len() == extras2@.len());
    match (&tail1, &tail2) {
        (Ty::Unit, Ty::Unit) => {
            if extras1.len() == 0 && extras2.len() == 0 {
                Ok(())
            } else {
                let left = Ty::Record(Row { fields: extras1, tail: Box::new(Ty::Unit) });
                let right = Ty::Record(Row { fields: extras2, tail: Box::new(Ty::Unit) });
                Err(TypeError::Mismatch(left, right))
            }
        },
        (Ty::Var(v), Ty::Unit) => {
            if extras1.len() > 0 {
                let extra = Ty::Record(Row { fields: extras1, tail: Box::new(Ty::Unit) });
                return Err(TypeError::Mismatch(extra, Ty::Unit));
            }
            proof {
                assert(occurs(*v, tail1@));
                lemma_bind_advances(s@, *v, closed_record(e2));
            }
            s.bind_ty(*v, Ty::Record(Row { fields: extras2, tail: Box::new(Ty::Unit) }))
        },
        (Ty::Unit, Ty::Var(v)) => {
            if extras2.len() > 0 {
                let extra = Ty::Record(Row { fields: extras2, tail: Box::new(Ty::Unit) });
                return Err(TypeError::Mismatch(Ty::Unit, extra));
            }
            proof {
                assert(occurs(*v, tail2@));
                lemma_bind_advances(s@, *v, closed_record(e1));
            }
            s.bind_ty(*v, Ty::Record(Row { fields: extras1, tail: Box::new(Ty::Unit) }))
        },
        (Ty::Var(v1), Ty::Var(v2)) => {
            if *v1 == *v2 {
                if extras1.len() == 0 && extras2.len() == 0 {
                    Ok(())
                } else {
                    Err(TypeError::OccursCheck(*v1))
                }
            } else {
                let ghost s0 = s@;
                let level = s.level_of(*v1);
                let shared = s.fresh_tyvar_at(level);
                let ghost s1 = s@;
                assert(ty_view(Ty::Var(shared)) == TyV::Var(shared));
                let ghost t1 = TyV::Record(RowV { fields: e2, tail: Box::new(TyV::Var(shared)) });
                let ghost t2 = TyV::Record(RowV { fields: e1, tail: Box::new(TyV::Var(shared)) });
                proof {
                    assert(occurs(*v1, tail1@));
                    assert(occurs(*v2, tail2@));
                    lemma_bind_advances(s1, *v1, t1);
                    lemma_bind_record_advances(s1, *v1, t1);
                }
                let r = s.bind_ty(
                    *v1,
                    Ty::Record(Row { fields: extras2, tail: Box::new(Ty::Var(shared)) }),
                );
                if r.is_err() {
                    return r;
                }
                proof {
                    lemma_bind_advances(s@, *v2, t2);
                }
                s.bind_ty(*v2, Ty::Record(Row { fields: extras1, tail: Box::new(Ty::Var(shared)) }))
            }
        },
        _ => Err(TypeError::Mismatch(tail1, tail2)),
    }
}

/// Binding a variable to a record solves it.
pub proof fn lemma_bind_record_advances(s: SubstV, v: TyVar, t: TyV)
    requires
        acyclic(s.map),
        s.map.dom().finite(),
        !s.map.dom().contains(v),
        is_record(t),
    ensures
        bind(s, v, t).1 is None ==> unsolved(bind(s, v, t).0.map) < unsolved(s.map),
        bind(s, v, t).1 is None ==> bind(s, v, t).0.map.dom() == s.map.dom().insert(v),
{
    assert(is_record(apply(s.map, t)));
    let m2 = bind(s, v, t).0.map;
    if bind(s, v, t).1 is None {
        assert(m2.dom() =~= s.map.dom().insert(v));
        lemma_solved_count(m2.dom());
    }
}

} // verus!
