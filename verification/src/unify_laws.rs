//! What unification achieves: the two types become one.

use vstd::prelude::*;

use crate::apply::{acyclic, apply, apply_fields, apply_params, apply_tys, extends, flat_record};
use crate::apply::{lemma_apply_fields_concat, lemma_apply_fixpoint, lemma_apply_sort};
use crate::apply::{lemma_extend_absorbs, lemma_flat_flat, lemma_flat_sorted, SubstMap};
use crate::rows::{distinct_names, fields_named, law_sort_fields_stable, sort_fields, FieldV};
use crate::rows::{lemma_fields_named_concat, lemma_sort_fields_contains, lemma_sort_same_fields};
use crate::subst::{after_fresh, bind, law_bind_keeps_acyclic, level_in, SubstV};
use crate::text::lex_less;
use crate::ty::{ParamV, RowV, TyV, TyVar};
use crate::unify::{advanced, closed_record, is_record, lemma_apply_resolved, lemma_bind_advances};
use crate::unify::{lemma_bind_record_advances, lemma_common_below, lemma_resolved_parts};
use crate::unify::{lemma_resolved_record, lemma_rows_keep, lemma_rows_step, lemma_split};
use crate::unify::{pair_below, pair_depth, record_tails, resolved, rows_below, split_fields};
use crate::unify::{unify_args, unify_common, unify_elements, unify_params, unify_rows};
use crate::unify::{unify_tails, unify_types, unsolved, CommonV};
use crate::vars::occurs;

verus! {

// ---------------------------------------------------------------------------
// Types whose records repeat no name
// ---------------------------------------------------------------------------

/// No record in `t` has two fields of one name. (What constraints mention is
/// not looked at.)
pub open spec fn simple(t: TyV) -> bool
    decreases t,
{
    match t {
        TyV::Qualified(_, inner) => simple(*inner),
        TyV::Tuple(ts) => simple_tys(ts),
        TyV::Func(ps, ret) => simple_params(ps) && simple(*ret.ty),
        TyV::App(con, args) => simple(*con) && simple_tys(args),
        TyV::Record(row) => distinct_names(row.fields) && simple_fields(row.fields) && simple(
            *row.tail,
        ),
        _ => true,
    }
}

pub open spec fn simple_tys(ts: Seq<TyV>) -> bool
    decreases ts,
{
    forall|i: int| 0 <= i < ts.len() ==> simple(#[trigger] ts[i])
}

pub open spec fn simple_params(ps: Seq<ParamV>) -> bool
    decreases ps,
{
    forall|i: int| 0 <= i < ps.len() ==> simple((#[trigger] ps[i]).ty)
}

pub open spec fn simple_fields(fs: Seq<FieldV>) -> bool
    decreases fs,
{
    forall|i: int| 0 <= i < fs.len() ==> simple((#[trigger] fs[i]).1)
}

/// The fields that a record takes over from its tail.
pub open spec fn fields_of(tail: TyV) -> Seq<FieldV> {
    match tail {
        TyV::Record(inner) => inner.fields,
        _ => Seq::empty(),
    }
}

/// What is left of a tail whose fields were taken over.
pub open spec fn tail_of(tail: TyV) -> TyV {
    match tail {
        TyV::Record(inner) => *inner.tail,
        _ => tail,
    }
}

proof fn lemma_flat_shape(a: Seq<FieldV>, tail: TyV)
    ensures
        flat_record(a, tail) == TyV::Record(
            RowV { fields: sort_fields(a + fields_of(tail)), tail: Box::new(tail_of(tail)) },
        ),
{
    if !is_record(tail) {
        assert(a + fields_of(tail) =~= a);
    }
}

proof fn lemma_distinct_sort(s: Seq<FieldV>)
    ensures
        distinct_names(sort_fields(s)) == distinct_names(s),
{
    assert forall|n: Seq<char>| fields_named(sort_fields(s), n) == fields_named(s, n) by {
        law_sort_fields_stable(s, n);
    }
    if distinct_names(sort_fields(s)) {
        assert forall|n: Seq<char>| (#[trigger] fields_named(s, n)).len() <= 1 by {
            assert(fields_named(sort_fields(s), n).len() <= 1);
        }
    }
    if distinct_names(s) {
        assert forall|n: Seq<char>| (#[trigger] fields_named(sort_fields(s), n)).len() <= 1 by {
            assert(fields_named(s, n).len() <= 1);
        }
    }
}

proof fn lemma_distinct_prefix(a: Seq<FieldV>, b: Seq<FieldV>)
    requires
        distinct_names(a + b),
    ensures
        distinct_names(a),
{
    assert forall|n: Seq<char>| (#[trigger] fields_named(a, n)).len() <= 1 by {
        lemma_fields_named_concat(a, b, n);
        assert(fields_named(a + b, n).len() <= 1);
    }
}

proof fn lemma_named_apply(m: SubstMap, fs: Seq<FieldV>, n: Seq<char>)
    requires
        acyclic(m),
    ensures
        fields_named(apply_fields(m, fs), n).len() == fields_named(fs, n).len(),
    decreases fs.len(),
{
    if fs.len() > 0 {
        let p = apply_fields(m, fs);
        assert(p.drop_last() =~= apply_fields(m, fs.drop_last()));
        assert(p.last().0 == fs.last().0);
        lemma_named_apply(m, fs.drop_last(), n);
    }
}

/// A flattened record is simple when its parts are and no name repeats.
proof fn lemma_simple_flat(a: Seq<FieldV>, tail: TyV)
    ensures
        simple(flat_record(a, tail)) <==> distinct_names(a + fields_of(tail)) && simple_fields(
            a + fields_of(tail),
        ) && simple(tail_of(tail)),
{
    let all = a + fields_of(tail);
    let sorted = sort_fields(all);
    lemma_flat_shape(a, tail);
    lemma_distinct_sort(all);
    if simple_fields(sorted) {
        assert forall|i: int| 0 <= i < all.len() implies simple((#[trigger] all[i]).1) by {
            assert(all.contains(all[i]));
            lemma_sort_fields_contains(all, all[i]);
            let j = choose|j: int| 0 <= j < sorted.len() && sorted[j] == all[i];
            assert(simple(sorted[j].1));
        }
    }
    if simple_fields(all) {
        assert forall|i: int| 0 <= i < sorted.len() implies simple((#[trigger] sorted[i]).1) by {
            assert(sorted.contains(sorted[i]));
            lemma_sort_fields_contains(all, sorted[i]);
            let j = choose|j: int| 0 <= j < all.len() && all[j] == sorted[i];
            assert(simple(all[j].1));
        }
    }
}

/// What resolves to a simple type was simple before.
pub proof fn lemma_simple_before(m: SubstMap, t: TyV)
    requires
        acyclic(m),
        simple(apply(m, t)),
    ensures
        simple(t),
    decreases t,
{
    match t {
        TyV::Qualified(_, inner) => {
            lemma_simple_before(m, *inner);
        },
        TyV::Tuple(ts) => {
            lemma_simple_tys_before(m, ts);
        },
        TyV::Func(ps, ret) => {
            lemma_simple_before(m, *ret.ty);
            let r = apply_params(m, ps);
            assert(simple_params(r));
            assert forall|i: int| 0 <= i < ps.len() implies simple((#[trigger] ps[i]).ty) by {
                assert(simple(r[i].ty));
                lemma_simple_before(m, ps[i].ty);
            }
            assert(simple_params(ps));
        },
        TyV::App(con, args) => {
            lemma_simple_before(m, *con);
            lemma_simple_tys_before(m, args);
        },
        TyV::Record(row) => {
            let fs = row.fields;
            let r = apply_fields(m, fs);
            let tail = apply(m, *row.tail);
            lemma_simple_flat(r, tail);
            lemma_distinct_prefix(r, fields_of(tail));
            assert(distinct_names(fs)) by {
                assert forall|n: Seq<char>| (#[trigger] fields_named(fs, n)).len() <= 1 by {
                    lemma_named_apply(m, fs, n);
                    assert(fields_named(r, n).len() <= 1);
                }
            }
            let all = r + fields_of(tail);
            assert forall|i: int| 0 <= i < fs.len() implies simple((#[trigger] fs[i]).1) by {
                assert(all[i] == r[i]);
                assert(simple(all[i].1));
                assert(decreases_to!(fs => fs[i]));
                lemma_simple_before(m, fs[i].1);
            }
            assert(simple_fields(fs));
            match tail {
                TyV::Record(inner) => {
                    lemma_distinct_suffix(r, inner.fields);
                    assert forall|i: int| 0 <= i < inner.fields.len() implies simple(
                        (#[trigger] inner.fields[i]).1,
                    ) by {
                        assert(all[r.len() + i] == inner.fields[i]);
                    }
                    assert(simple_fields(inner.fields));
                    assert(simple(tail));
                },
                _ => {},
            }
            lemma_simple_before(m, *row.tail);
        },
        _ => {},
    }
}

proof fn lemma_distinct_suffix(a: Seq<FieldV>, b: Seq<FieldV>)
    requires
        distinct_names(a + b),
    ensures
        distinct_names(b),
{
    assert forall|n: Seq<char>| (#[trigger] fields_named(b, n)).len() <= 1 by {
        lemma_fields_named_concat(a, b, n);
        assert(fields_named(a + b, n).len() <= 1);
    }
}

proof fn lemma_simple_tys_before(m: SubstMap, ts: Seq<TyV>)
    requires
        acyclic(m),
        simple_tys(apply_tys(m, ts)),
    ensures
        simple_tys(ts),
    decreases ts,
{
    let r = apply_tys(m, ts);
    assert forall|i: int| 0 <= i < ts.len() implies simple(#[trigger] ts[i]) by {
        assert(simple(r[i]));
        lemma_simple_before(m, ts[i]);
    }
}

// ---------------------------------------------------------------------------
// Progress
// ---------------------------------------------------------------------------

/// `s2` keeps what `s` has solved, stays free of cycles, and is `s` itself or
/// has solved more.
pub open spec fn continues(s: SubstV, s2: SubstV) -> bool {
    acyclic(s2.map) && s2.map.dom().finite() && extends(s.map, s2.map) && advanced(s, s2)
}

/// The two types resolve alike, unless one of them repeats a name in a record.
pub open spec fn made_equal(m: SubstMap, a: TyV, b: TyV) -> bool {
    simple(apply(m, a)) && simple(apply(m, b)) ==> apply(m, a) == apply(m, b)
}

/// What was made equal stays so.
pub proof fn lemma_made_equal_later(m: SubstMap, m2: SubstMap, a: TyV, b: TyV)
    requires
        acyclic(m),
        acyclic(m2),
        extends(m, m2),
        made_equal(m, a, b),
    ensures
        made_equal(m2, a, b),
{
    lemma_extend_absorbs(m, m2, a);
    lemma_extend_absorbs(m, m2, b);
    if simple(apply(m2, a)) && simple(apply(m2, b)) {
        lemma_simple_before(m2, apply(m, a));
        lemma_simple_before(m2, apply(m, b));
    }
}

/// Binding an unsolved variable makes it resolve like what it was bound to.
pub(crate) proof fn lemma_bind_sound(s: SubstV, v: TyVar, t: TyV)
    requires
        acyclic(s.map),
        s.map.dom().finite(),
        !s.map.dom().contains(v),
        bind(s, v, t).1 is None,
    ensures
        continues(s, bind(s, v, t).0),
        apply(bind(s, v, t).0.map, TyV::Var(v)) == apply(bind(s, v, t).0.map, t),
{
    let r = apply(s.map, t);
    let m2 = bind(s, v, t).0.map;
    lemma_bind_advances(s, v, t);
    if r != TyV::Var(v) {
        law_bind_keeps_acyclic(s.map, v, t);
        assert(m2 == s.map.insert(v, r));
        lemma_extend_absorbs(s.map, m2, t);
        assert(apply(m2, TyV::Var(v)) == apply(m2, r));
    } else {
        lemma_extend_absorbs(s.map, m2, t);
    }
}

// ---------------------------------------------------------------------------
// Soundness
// ---------------------------------------------------------------------------

/// Unification that succeeds makes the two types equal: under the
/// substitution that it leaves behind, both resolve to the same type, unless
/// a record among them repeats a name. It takes nothing back that was solved
/// before.
pub proof fn law_unify_sound(s: SubstV, t1: TyV, t2: TyV)
    requires
        acyclic(s.map),
        s.map.dom().finite(),
        unify_types(s, t1, t2).1 is None,
    ensures
        continues(s, unify_types(s, t1, t2).0),
        made_equal(unify_types(s, t1, t2).0.map, t1, t2),
    decreases unsolved(s.map), pair_depth(s.map, t1, t2), 3nat, 1nat, 0nat,
{
    let m = s.map;
    let u = unsolved(m);
    let d = pair_depth(m, t1, t2);
    let a = apply(m, t1);
    let b = apply(m, t2);
    let o = unify_types(s, t1, t2);
    lemma_apply_resolved(m, t1);
    lemma_apply_resolved(m, t2);
    lemma_resolved_parts(m, a);
    lemma_resolved_parts(m, b);
    lemma_apply_fixpoint(m, a);
    lemma_apply_fixpoint(m, b);
    match (a, b) {
        (TyV::Var(v), _) => {
            assert(occurs(v, a));
            lemma_bind_sound(s, v, b);
        },
        (_, TyV::Var(v)) => {
            assert(occurs(v, b));
            lemma_bind_sound(s, v, a);
        },
        (TyV::Func(p1, r1), TyV::Func(p2, r2)) => {
            let o1 = unify_params(s, p1, p2, p1.len(), u, d);
            lemma_params_sound(s, p1, p2, p1.len(), m, u, d);
            assert(pair_below(o1.0.map, *r1.ty, *r2.ty, u, d));
            law_unify_sound(o1.0, *r1.ty, *r2.ty);
            let m2 = o.0.map;
            lemma_func_equal(m, o1.0.map, m2, a, b);
        },
        (TyV::Tuple(ts1), TyV::Tuple(ts2)) => {
            lemma_elements_sound(s, ts1, ts2, ts1.len(), m, u, d);
            lemma_tys_equal(o.0.map, ts1, ts2);
        },
        (TyV::App(c1, a1), TyV::App(c2, a2)) => {
            assert(pair_below(m, *c1, *c2, u, d));
            let o1 = unify_types(s, *c1, *c2);
            law_unify_sound(s, *c1, *c2);
            lemma_args_sound(o1.0, a1, a2, a1.len(), m, u, d);
            lemma_made_equal_later(o1.0.map, o.0.map, *c1, *c2);
            lemma_tys_equal(o.0.map, a1, a2);
        },
        (TyV::Record(r1), TyV::Record(r2)) => {
            assert(rows_below(m, r1, r2, u, d, 3));
            lemma_rows_sound(s, r1, r2);
        },
        _ => {},
    }
    let m2 = o.0.map;
    lemma_extend_absorbs(m, m2, t1);
    lemma_extend_absorbs(m, m2, t2);
}

proof fn lemma_tys_equal(m: SubstMap, ts1: Seq<TyV>, ts2: Seq<TyV>)
    requires
        acyclic(m),
        ts1.len() == ts2.len(),
        forall|i: int| 0 <= i < ts1.len() ==> made_equal(m, #[trigger] ts1[i], ts2[i]),
    ensures
        simple_tys(apply_tys(m, ts1)) && simple_tys(apply_tys(m, ts2)) ==> apply_tys(m, ts1)
            == apply_tys(m, ts2),
{
    let x = apply_tys(m, ts1);
    let y = apply_tys(m, ts2);
    if simple_tys(x) && simple_tys(y) {
        assert forall|i: int| 0 <= i < x.len() implies x[i] == y[i] by {
            assert(made_equal(m, ts1[i], ts2[i]));
            assert(simple(x[i]) && simple(y[i]));
        }
        assert(x =~= y);
    }
}

proof fn lemma_func_equal(m: SubstMap, m1: SubstMap, m2: SubstMap, a: TyV, b: TyV)
    requires
        acyclic(m1),
        acyclic(m2),
        extends(m1, m2),
        a is Func,
        b is Func,
        a->Func_0.len() == b->Func_0.len(),
        forall|i: int|
            0 <= i < a->Func_0.len() ==> made_equal(
                m1,
                (#[trigger] a->Func_0[i]).ty,
                b->Func_0[i].ty,
            ) && a->Func_0[i].capability == b->Func_0[i].capability,
        made_equal(m2, *a->Func_1.ty, *b->Func_1.ty),
        a->Func_1.capability == b->Func_1.capability,
    ensures
        made_equal(m2, a, b),
{
    let p1 = a->Func_0;
    let p2 = b->Func_0;
    let x = apply_params(m2, p1);
    let y = apply_params(m2, p2);
    if simple(apply(m2, a)) && simple(apply(m2, b)) {
        assert(simple_params(x) && simple_params(y));
        assert forall|i: int| 0 <= i < x.len() implies x[i] == y[i] by {
            assert(made_equal(m1, p1[i].ty, p2[i].ty));
            lemma_made_equal_later(m1, m2, p1[i].ty, p2[i].ty);
            assert(simple(x[i].ty) && simple(y[i].ty));
        }
        assert(x =~= y);
    }
}

proof fn lemma_params_sound(
    s: SubstV,
    v1: Seq<ParamV>,
    v2: Seq<ParamV>,
    n: nat,
    m: SubstMap,
    u: nat,
    d: nat,
)
    requires
        acyclic(s.map),
        s.map.dom().finite(),
        n <= v1.len(),
        v1.len() == v2.len(),
        unsolved(m) == u,
        s.map == m || unsolved(s.map) < u,
        forall|i: int|
            0 <= i < v1.len() ==> pair_depth(m, (#[trigger] v1[i]).ty, v2[i].ty) < d,
        unify_params(s, v1, v2, n, u, d).1 is None,
    ensures
        continues(s, unify_params(s, v1, v2, n, u, d).0),
        forall|i: int|
            0 <= i < n ==> made_equal(
                unify_params(s, v1, v2, n, u, d).0.map,
                (#[trigger] v1[i]).ty,
                v2[i].ty,
            ) && v1[i].capability == v2[i].capability,
    decreases u, d, 3nat, 0nat, n,
{
    if n > 0 {
        let k = n - 1;
        let o = unify_params(s, v1, v2, (n - 1) as nat, u, d);
        lemma_params_sound(s, v1, v2, (n - 1) as nat, m, u, d);
        assert(pair_depth(m, v1[k].ty, v2[k].ty) < d);
        assert(pair_below(o.0.map, v1[k].ty, v2[k].ty, u, d));
        law_unify_sound(o.0, v1[k].ty, v2[k].ty);
        let o2 = unify_params(s, v1, v2, n, u, d);
        assert forall|i: int| 0 <= i < n implies made_equal(
            o2.0.map,
            (#[trigger] v1[i]).ty,
            v2[i].ty,
        ) && v1[i].capability == v2[i].capability by {
            if i < k {
                lemma_made_equal_later(o.0.map, o2.0.map, v1[i].ty, v2[i].ty);
            }
        }
    }
}

pub(crate) proof fn lemma_elements_sound(
    s: SubstV,
    v1: Seq<TyV>,
    v2: Seq<TyV>,
    n: nat,
    m: SubstMap,
    u: nat,
    d: nat,
)
    requires
        acyclic(s.map),
        s.map.dom().finite(),
        n <= v1.len(),
        v1.len() == v2.len(),
        unsolved(m) == u,
        s.map == m || unsolved(s.map) < u,
        forall|i: int|
            0 <= i < v1.len() ==> pair_depth(m, (#[trigger] v1[i]), v2[i]) < d,
        unify_elements(s, v1, v2, n, u, d).1 is None,
    ensures
        continues(s, unify_elements(s, v1, v2, n, u, d).0),
        forall|i: int|
            0 <= i < n ==> made_equal(
                unify_elements(s, v1, v2, n, u, d).0.map,
                (#[trigger] v1[i]),
                v2[i],
            ),
    decreases u, d, 3nat, 0nat, n,
{
    if n > 0 {
        let k = n - 1;
        let o = unify_elements(s, v1, v2, (n - 1) as nat, u, d);
        lemma_elements_sound(s, v1, v2, (n - 1) as nat, m, u, d);
        assert(pair_depth(m, v1[k], v2[k]) < d);
        assert(pair_below(o.0.map, v1[k], v2[k], u, d));
        law_unify_sound(o.0, v1[k], v2[k]);
        let o2 = unify_elements(s, v1, v2, n, u, d);
        assert forall|i: int| 0 <= i < n implies made_equal(
            o2.0.map,
            (#[trigger] v1[i]),
            v2[i],
        ) by {
            if i < k {
                lemma_made_equal_later(o.0.map, o2.0.map, v1[i], v2[i]);
            }
        }
    }
}

pub(crate) proof fn lemma_args_sound(
    s: SubstV,
    v1: Seq<TyV>,
    v2: Seq<TyV>,
    n: nat,
    m: SubstMap,
    u: nat,
    d: nat,
)
    requires
        acyclic(s.map),
        s.map.dom().finite(),
        n <= v1.len(),
        v1.len() == v2.len(),
        unsolved(m) == u,
        s.map == m || unsolved(s.map) < u,
        forall|i: int|
            0 <= i < v1.len() ==> pair_depth(m, (#[trigger] v1[i]), v2[i]) < d,
        unify_args(s, v1, v2, n, u, d).1 is None,
    ensures
        continues(s, unify_args(s, v1, v2, n, u, d).0),
        forall|i: int|
            0 <= i < n ==> made_equal(
                unify_args(s, v1, v2, n, u, d).0.map,
                (#[trigger] v1[i]),
                v2[i],
            ),
    decreases u, d, 3nat, 0nat, n,
{
    if n > 0 {
        let k = n - 1;
        let o = unify_args(s, v1, v2, (n - 1) as nat, u, d);
        lemma_args_sound(s, v1, v2, (n - 1) as nat, m, u, d);
        assert(pair_depth(m, v1[k], v2[k]) < d);
        assert(pair_below(o.0.map, v1[k], v2[k], u, d));
        law_unify_sound(o.0, v1[k], v2[k]);
        let o2 = unify_args(s, v1, v2, n, u, d);
        assert forall|i: int| 0 <= i < n implies made_equal(
            o2.0.map,
            (#[trigger] v1[i]),
            v2[i],
        ) by {
            if i < k {
                lemma_made_equal_later(o.0.map, o2.0.map, v1[i], v2[i]);
            }
        }
    }
}

proof fn lemma_common_sound(s: SubstV, v: Seq<CommonV>, n: nat, u: nat, d: nat, k: nat)
    requires
        acyclic(s.map),
        s.map.dom().finite(),
        n <= v.len(),
        unsolved(s.map) == u,
        forall|i: int| 0 <= i < v.len() ==> pair_depth(s.map, (#[trigger] v[i]).1, v[i].2) < d,
        unify_common(s, v, n, u, d, k).1 is None,
    ensures
        continues(s, unify_common(s, v, n, u, d, k).0),
        forall|i: int|
            0 <= i < n ==> made_equal(
                unify_common(s, v, n, u, d, k).0.map,
                (#[trigger] v[i]).1,
                v[i].2,
            ),
    decreases u, d, k, 0nat, n,
{
    if n > 0 {
        let j = n - 1;
        let o = unify_common(s, v, (n - 1) as nat, u, d, k);
        lemma_common_sound(s, v, (n - 1) as nat, u, d, k);
        assert(pair_depth(s.map, v[j].1, v[j].2) < d);
        assert(pair_below(o.0.map, v[j].1, v[j].2, u, d));
        law_unify_sound(o.0, v[j].1, v[j].2);
        let o2 = unify_common(s, v, n, u, d, k);
        assert forall|i: int| 0 <= i < n implies made_equal(
            o2.0.map,
            (#[trigger] v[i]).1,
            v[i].2,
        ) by {
            if i < j {
                lemma_made_equal_later(o.0.map, o2.0.map, v[i].1, v[i].2);
            }
        }
    }
}

// ---------------------------------------------------------------------------
// Rows
// ---------------------------------------------------------------------------

/// `f` is the first list's side of a shared field.
spec fn first_side(common: Seq<CommonV>, f: FieldV) -> bool {
    exists|i: int| 0 <= i < common.len() && ((#[trigger] common[i]).0, common[i].1) == f
}

/// `f` is the second list's side of a shared field.
spec fn second_side(common: Seq<CommonV>, f: FieldV) -> bool {
    exists|i: int| 0 <= i < common.len() && ((#[trigger] common[i]).0, common[i].2) == f
}

/// Every field of a list is shared or extra.
proof fn lemma_split_covers(f1: Seq<FieldV>, f2: Seq<FieldV>, f: FieldV)
    ensures
        f1.contains(f) ==> split_fields(f1, f2).extras1.contains(f) || first_side(
            split_fields(f1, f2).common,
            f,
        ),
        f2.contains(f) ==> split_fields(f1, f2).extras2.contains(f) || second_side(
            split_fields(f1, f2).common,
            f,
        ),
    decreases f1.len() + f2.len(),
{
    let r = split_fields(f1, f2);
    if f1.len() > 0 && f2.len() > 0 {
        let g1 = f1.skip(1);
        let g2 = f2.skip(1);
        if f1.contains(f) && f1[0] != f {
            let k = choose|k: int| 0 <= k < f1.len() && f1[k] == f;
            assert(g1[k - 1] == f);
        }
        if f2.contains(f) && f2[0] != f {
            let k = choose|k: int| 0 <= k < f2.len() && f2[k] == f;
            assert(g2[k - 1] == f);
        }
        if f1[0].0 == f2[0].0 {
            let rest = split_fields(g1, g2);
            lemma_split_covers(g1, g2, f);
            assert(r.common[0] == (f1[0].0, f1[0].1, f2[0].1));
            if first_side(rest.common, f) {
                let i = choose|i: int|
                    0 <= i < rest.common.len() && ((#[trigger] rest.common[i]).0, rest.common[i].1)
                        == f;
                assert(r.common[i + 1] == rest.common[i]);
            }
            if second_side(rest.common, f) {
                let i = choose|i: int|
                    0 <= i < rest.common.len() && ((#[trigger] rest.common[i]).0, rest.common[i].2)
                        == f;
                assert(r.common[i + 1] == rest.common[i]);
            }
        } else if lex_less(f1[0].0, f2[0].0) {
            let rest = split_fields(g1, f2);
            lemma_split_covers(g1, f2, f);
            assert(r.extras1[0] == f1[0]);
            if rest.extras1.contains(f) {
                let j = choose|j: int| 0 <= j < rest.extras1.len() && rest.extras1[j] == f;
                assert(r.extras1[j + 1] == f);
            }
        } else {
            let rest = split_fields(f1, g2);
            lemma_split_covers(f1, g2, f);
            assert(r.extras2[0] == f2[0]);
            if rest.extras2.contains(f) {
                let j = choose|j: int| 0 <= j < rest.extras2.len() && rest.extras2[j] == f;
                assert(r.extras2[j + 1] == f);
            }
        }
    }
}

proof fn lemma_named_skip(s: Seq<FieldV>, n: Seq<char>)
    requires
        s.len() > 0,
    ensures
        fields_named(s, n).len() == fields_named(s.skip(1), n).len() + (if s[0].0 == n {
            1nat
        } else {
            0nat
        }),
{
    let head = seq![s[0]];
    lemma_fields_named_concat(head, s.skip(1), n);
    assert(s =~= head + s.skip(1));
    assert(head.drop_last() =~= Seq::<FieldV>::empty());
    assert(fields_named(head, n).len() == (if s[0].0 == n {
        1nat
    } else {
        0nat
    })) by {
        assert(fields_named(Seq::<FieldV>::empty(), n).len() == 0);
    }
}

proof fn lemma_split_named(f1: Seq<FieldV>, f2: Seq<FieldV>, n: Seq<char>)
    ensures
        fields_named(split_fields(f1, f2).extras1, n).len() <= fields_named(f1, n).len(),
        fields_named(split_fields(f1, f2).extras2, n).len() <= fields_named(f2, n).len(),
    decreases f1.len() + f2.len(),
{
    let r = split_fields(f1, f2);
    if f1.len() == 0 {
        assert(fields_named(r.extras1, n).len() == 0);
    } else if f2.len() == 0 {
        assert(fields_named(r.extras2, n).len() == 0);
    } else {
        lemma_named_skip(f1, n);
        lemma_named_skip(f2, n);
        if f1[0].0 == f2[0].0 {
            lemma_split_named(f1.skip(1), f2.skip(1), n);
        } else if lex_less(f1[0].0, f2[0].0) {
            lemma_split_named(f1.skip(1), f2, n);
            lemma_named_skip(r.extras1, n);
            assert(r.extras1.skip(1) =~= split_fields(f1.skip(1), f2).extras1);
        } else {
            lemma_split_named(f1, f2.skip(1), n);
            lemma_named_skip(r.extras2, n);
            assert(r.extras2.skip(1) =~= split_fields(f1, f2.skip(1)).extras2);
        }
    }
}

/// A resolved field of a list is a field of the resolved list.
proof fn lemma_apply_member(m: SubstMap, fs: Seq<FieldV>, f: FieldV)
    requires
        acyclic(m),
        fs.contains(f),
    ensures
        apply_fields(m, fs).contains((f.0, apply(m, f.1))),
{
    let k = choose|k: int| 0 <= k < fs.len() && fs[k] == f;
    assert(apply_fields(m, fs)[k] == (f.0, apply(m, f.1)));
}

proof fn lemma_contains_concat(a: Seq<FieldV>, b: Seq<FieldV>, f: FieldV)
    ensures
        (a + b).contains(f) <==> a.contains(f) || b.contains(f),
{
    let ab = a + b;
    if a.contains(f) {
        let k = choose|k: int| 0 <= k < a.len() && a[k] == f;
        assert(ab[k] == f);
    }
    if b.contains(f) {
        let k = choose|k: int| 0 <= k < b.len() && b[k] == f;
        assert(ab[a.len() + k] == f);
    }
    if ab.contains(f) {
        let k = choose|k: int| 0 <= k < ab.len() && ab[k] == f;
        if k < a.len() {
            assert(a[k] == f);
        } else {
            assert(b[k - a.len()] == f);
        }
    }
}

/// The resolved fields of the first row are the resolved shared fields and
/// the resolved extras; the shared ones are fields of the second row too.
proof fn lemma_side_fields(m: SubstMap, r1: RowV, r2: RowV, f: FieldV)
    requires
        acyclic(m),
        simple(apply(m, TyV::Record(r1))),
        simple(apply(m, TyV::Record(r2))),
        forall|i: int|
            0 <= i < split_fields(r1.fields, r2.fields).common.len() ==> made_equal(
                m,
                (#[trigger] split_fields(r1.fields, r2.fields).common[i]).1,
                split_fields(r1.fields, r2.fields).common[i].2,
            ),
    ensures
        apply_fields(m, r1.fields).contains(f) ==> apply_fields(m, r2.fields).contains(f)
            || apply_fields(m, split_fields(r1.fields, r2.fields).extras1).contains(f),
        apply_fields(m, r2.fields).contains(f) ==> apply_fields(m, r1.fields).contains(f)
            || apply_fields(m, split_fields(r1.fields, r2.fields).extras2).contains(f),
        apply_fields(m, split_fields(r1.fields, r2.fields).extras1).contains(f) ==> apply_fields(
            m,
            r1.fields,
        ).contains(f),
        apply_fields(m, split_fields(r1.fields, r2.fields).extras2).contains(f) ==> apply_fields(
            m,
            r2.fields,
        ).contains(f),
{
    let sp = split_fields(r1.fields, r2.fields);
    let p1 = apply_fields(m, r1.fields);
    let p2 = apply_fields(m, r2.fields);
    let e1 = apply_fields(m, sp.extras1);
    let e2 = apply_fields(m, sp.extras2);
    lemma_split(r1.fields, r2.fields);
    lemma_simple_flat(p1, apply(m, *r1.tail));
    lemma_simple_flat(p2, apply(m, *r2.tail));
    let all1 = p1 + fields_of(apply(m, *r1.tail));
    let all2 = p2 + fields_of(apply(m, *r2.tail));
    if p1.contains(f) {
        let k = choose|k: int| 0 <= k < p1.len() && p1[k] == f;
        let g = r1.fields[k];
        assert(r1.fields.contains(g));
        lemma_split_covers(r1.fields, r2.fields, g);
        if sp.extras1.contains(g) {
            lemma_apply_member(m, sp.extras1, g);
        } else {
            let i = choose|i: int|
                0 <= i < sp.common.len() && ((#[trigger] sp.common[i]).0, sp.common[i].1) == g;
            let h = (sp.common[i].0, sp.common[i].2);
            assert(r2.fields.contains(h));
            lemma_apply_member(m, r2.fields, h);
            let j = choose|j: int|
                0 <= j < p2.len() && p2[j] == (h.0, apply(m, h.1));
            assert(all1[k] == f);
            assert(all2[j] == p2[j]);
            assert(simple(all1[k].1));
            assert(simple(all2[j].1));
            assert(made_equal(m, sp.common[i].1, sp.common[i].2));
        }
    }
    if p2.contains(f) {
        let k = choose|k: int| 0 <= k < p2.len() && p2[k] == f;
        let g = r2.fields[k];
        assert(r2.fields.contains(g));
        lemma_split_covers(r1.fields, r2.fields, g);
        if sp.extras2.contains(g) {
            lemma_apply_member(m, sp.extras2, g);
        } else {
            let i = choose|i: int|
                0 <= i < sp.common.len() && ((#[trigger] sp.common[i]).0, sp.common[i].2) == g;
            let h = (sp.common[i].0, sp.common[i].1);
            assert(r1.fields.contains(h));
            lemma_apply_member(m, r1.fields, h);
            let j = choose|j: int|
                0 <= j < p1.len() && p1[j] == (h.0, apply(m, h.1));
            assert(all2[k] == f);
            assert(all1[j] == p1[j]);
            assert(simple(all2[k].1));
            assert(simple(all1[j].1));
            assert(made_equal(m, sp.common[i].1, sp.common[i].2));
        }
    }
    if e1.contains(f) {
        let k = choose|k: int| 0 <= k < e1.len() && e1[k] == f;
        assert(r1.fields.contains(sp.extras1[k]));
        lemma_apply_member(m, r1.fields, sp.extras1[k]);
    }
    if e2.contains(f) {
        let k = choose|k: int| 0 <= k < e2.len() && e2[k] == f;
        assert(r2.fields.contains(sp.extras2[k]));
        lemma_apply_member(m, r2.fields, sp.extras2[k]);
    }
}

/// Two flattened records with the same fields and the same rest are equal, if
/// no name repeats.
proof fn lemma_flat_equal(a: Seq<FieldV>, ta: TyV, b: Seq<FieldV>, tb: TyV)
    requires
        simple(flat_record(a, ta)),
        simple(flat_record(b, tb)),
        tail_of(ta) == tail_of(tb),
        forall|f: FieldV| #[trigger]
            (a + fields_of(ta)).contains(f) <==> (b + fields_of(tb)).contains(f),
    ensures
        flat_record(a, ta) == flat_record(b, tb),
{
    lemma_flat_shape(a, ta);
    lemma_flat_shape(b, tb);
    lemma_simple_flat(a, ta);
    lemma_simple_flat(b, tb);
    lemma_sort_same_fields(a + fields_of(ta), b + fields_of(tb));
}

proof fn lemma_rows_sound(s: SubstV, r1: RowV, r2: RowV)
    requires
        acyclic(s.map),
        s.map.dom().finite(),
        unify_rows(s, r1, r2).1 is None,
    ensures
        continues(s, unify_rows(s, r1, r2).0),
        made_equal(unify_rows(s, r1, r2).0.map, TyV::Record(r1), TyV::Record(r2)),
    decreases
        unsolved(s.map),
        pair_depth(s.map, TyV::Record(r1), TyV::Record(r2)),
        record_tails(s.map, r1, r2),
        1nat,
        0nat,
{
    let m = s.map;
    let u = unsolved(m);
    let d = pair_depth(m, TyV::Record(r1), TyV::Record(r2));
    let k = record_tails(m, r1, r2);
    let sp = split_fields(r1.fields, r2.fields);
    lemma_common_below(m, r1, r2);
    lemma_split(r1.fields, r2.fields);
    let o = unify_common(s, sp.common, sp.common.len(), u, d, k);
    lemma_common_sound(s, sp.common, sp.common.len(), u, d, k);
    let m1 = o.0.map;
    let tail1 = apply(m1, *r1.tail);
    let tail2 = apply(m1, *r2.tail);
    lemma_apply_resolved(m1, *r1.tail);
    lemma_apply_resolved(m1, *r2.tail);
    let fin = unify_rows(s, r1, r2).0;
    let m2 = fin.map;
    match (tail1, tail2) {
        (TyV::Record(row1), _) => {
            let n1 = RowV { fields: sort_fields(row1.fields + sp.extras1), tail: row1.tail };
            let n2 = RowV { fields: sp.extras2, tail: Box::new(tail2) };
            if o.0 == s {
                lemma_rows_step(m, r1, row1, sp.extras1, n1);
                lemma_rows_keep(m, r2, sp.extras2, n2);
            }
            assert(rows_below(m1, n1, n2, u, d, k));
            lemma_rows_sound(o.0, n1, n2);
            lemma_common_later(m1, m2, sp.common);
            lemma_extend_absorbs(m1, m2, *r1.tail);
            lemma_extend_absorbs(m1, m2, *r2.tail);
            lemma_moved_fields(m2, r1, r2, row1, sp.extras1, sp.extras2, tail2);
        },
        (_, TyV::Record(row2)) => {
            let n1 = RowV { fields: sp.extras1, tail: Box::new(tail1) };
            let n2 = RowV { fields: sort_fields(row2.fields + sp.extras2), tail: row2.tail };
            if o.0 == s {
                lemma_rows_keep(m, r1, sp.extras1, n1);
                lemma_rows_step(m, r2, row2, sp.extras2, n2);
            }
            assert(rows_below(m1, n1, n2, u, d, k));
            lemma_rows_sound(o.0, n1, n2);
            lemma_common_later(m1, m2, sp.common);
            lemma_extend_absorbs(m1, m2, *r1.tail);
            lemma_extend_absorbs(m1, m2, *r2.tail);
            lemma_moved_fields_right(m2, r1, r2, row2, sp.extras1, sp.extras2, tail1);
        },
        _ => {
            lemma_tails_sound(o.0, r1, r2, tail1, tail2);
        },
    }
}

proof fn lemma_common_later(m1: SubstMap, m2: SubstMap, common: Seq<CommonV>)
    requires
        acyclic(m1),
        acyclic(m2),
        extends(m1, m2),
        forall|i: int| 0 <= i < common.len() ==> made_equal(
            m1,
            (#[trigger] common[i]).1,
            common[i].2,
        ),
    ensures
        forall|i: int| 0 <= i < common.len() ==> made_equal(
            m2,
            (#[trigger] common[i]).1,
            common[i].2,
        ),
{
    assert forall|i: int| 0 <= i < common.len() implies made_equal(
        m2,
        (#[trigger] common[i]).1,
        common[i].2,
    ) by {
        lemma_made_equal_later(m1, m2, common[i].1, common[i].2);
    }
}

/// The first row's tail is a record: unifying the rows with its fields moved
/// into the row makes the rows themselves equal.
proof fn lemma_moved_fields(
    m: SubstMap,
    r1: RowV,
    r2: RowV,
    row: RowV,
    extras1: Seq<FieldV>,
    extras2: Seq<FieldV>,
    other: TyV,
)
    requires
        acyclic(m),
        extras1 == split_fields(r1.fields, r2.fields).extras1,
        extras2 == split_fields(r1.fields, r2.fields).extras2,
        apply(m, *r1.tail) == apply(m, TyV::Record(row)),
        apply(m, *r2.tail) == apply(m, other),
        forall|i: int|
            0 <= i < split_fields(r1.fields, r2.fields).common.len() ==> made_equal(
                m,
                (#[trigger] split_fields(r1.fields, r2.fields).common[i]).1,
                split_fields(r1.fields, r2.fields).common[i].2,
            ),
        made_equal(
            m,
            TyV::Record(RowV { fields: sort_fields(row.fields + extras1), tail: row.tail }),
            TyV::Record(RowV { fields: extras2, tail: Box::new(other) }),
        ),
    ensures
        made_equal(m, TyV::Record(r1), TyV::Record(r2)),
{
    let ra = r1;
    let rb = r2;
    let fa = apply_fields(m, ra.fields);
    let fb = apply_fields(m, rb.fields);
    let ea = apply_fields(m, extras1);
    let eb = apply_fields(m, extras2);
    let r = apply_fields(m, row.fields);
    let x = apply(m, *row.tail);
    let tb = apply(m, other);
    if simple(apply(m, TyV::Record(r1))) && simple(apply(m, TyV::Record(r2))) {
        // the resolved rows
        lemma_flat_flat(fa, r, x);
        assert(apply(m, TyV::Record(ra)) == flat_record(fa + r, x));
        assert(apply(m, TyV::Record(rb)) == flat_record(fb, tb));
        // the resolved rows with the fields moved
        let moved = row.fields + extras1;
        lemma_apply_sort(m, moved);
        lemma_apply_fields_concat(m, row.fields, extras1);
        lemma_flat_sorted(r + ea, x);
        let left = flat_record(r + ea, x);
        let right = flat_record(eb, tb);
        // both are simple
        lemma_simple_flat(fa + r, x);
        lemma_simple_flat(fb, tb);
        lemma_simple_flat(r + ea, x);
        lemma_simple_flat(eb, tb);
        let all_a = (fa + r) + fields_of(x);
        let all_b = fb + fields_of(tb);
        let left_all = (r + ea) + fields_of(x);
        let right_all = eb + fields_of(tb);
        assert(distinct_names(left_all)) by {
            assert forall|n: Seq<char>| (#[trigger] fields_named(left_all, n)).len() <= 1 by {
                lemma_fields_named_concat(r + ea, fields_of(x), n);
                lemma_fields_named_concat(r, ea, n);
                lemma_fields_named_concat(fa + r, fields_of(x), n);
                lemma_fields_named_concat(fa, r, n);
                lemma_split_named(r1.fields, r2.fields, n);
                lemma_named_apply(m, ra.fields, n);
                lemma_named_apply(m, extras1, n);
                assert(fields_named(all_a, n).len() <= 1);
            }
        }
        assert(distinct_names(right_all)) by {
            assert forall|n: Seq<char>| (#[trigger] fields_named(right_all, n)).len() <= 1 by {
                lemma_fields_named_concat(eb, fields_of(tb), n);
                lemma_fields_named_concat(fb, fields_of(tb), n);
                lemma_split_named(r1.fields, r2.fields, n);
                lemma_named_apply(m, rb.fields, n);
                lemma_named_apply(m, extras2, n);
                assert(fields_named(all_b, n).len() <= 1);
            }
        }
        assert forall|f: FieldV| left_all.contains(f) implies #[trigger] all_a.contains(f) by {
            lemma_side_fields(m, r1, r2, f);
            lemma_contains_concat(r + ea, fields_of(x), f);
            lemma_contains_concat(r, ea, f);
            lemma_contains_concat(fa + r, fields_of(x), f);
            lemma_contains_concat(fa, r, f);
        }
        assert forall|f: FieldV| right_all.contains(f) implies #[trigger] all_b.contains(f) by {
            lemma_side_fields(m, r1, r2, f);
            lemma_contains_concat(eb, fields_of(tb), f);
            lemma_contains_concat(fb, fields_of(tb), f);
        }
        assert(simple_fields(left_all)) by {
            assert forall|i: int| 0 <= i < left_all.len() implies simple(
                (#[trigger] left_all[i]).1,
            ) by {
                assert(left_all.contains(left_all[i]));
                assert(all_a.contains(left_all[i]));
                let j = choose|j: int| 0 <= j < all_a.len() && all_a[j] == left_all[i];
                assert(simple(all_a[j].1));
            }
        }
        assert(simple_fields(right_all)) by {
            assert forall|i: int| 0 <= i < right_all.len() implies simple(
                (#[trigger] right_all[i]).1,
            ) by {
                assert(right_all.contains(right_all[i]));
                assert(all_b.contains(right_all[i]));
                let j = choose|j: int| 0 <= j < all_b.len() && all_b[j] == right_all[i];
                assert(simple(all_b[j].1));
            }
        }
        assert(left == right);
        lemma_flat_shape(r + ea, x);
        lemma_flat_shape(eb, tb);
        assert(tail_of(x) == tail_of(tb));
        assert forall|f: FieldV| #[trigger] all_a.contains(f) <==> all_b.contains(f) by {
            lemma_side_fields(m, r1, r2, f);
            lemma_contains_concat(r + ea, fields_of(x), f);
            lemma_contains_concat(r, ea, f);
            lemma_contains_concat(fa + r, fields_of(x), f);
            lemma_contains_concat(fa, r, f);
            lemma_contains_concat(eb, fields_of(tb), f);
            lemma_contains_concat(fb, fields_of(tb), f);
            lemma_sort_fields_contains(left_all, f);
            lemma_sort_fields_contains(right_all, f);
        }
        lemma_flat_equal(fa + r, x, fb, tb);
    }
}

/// The second row's tail is a record: unifying the rows with its fields moved
/// into the row makes the rows themselves equal.
proof fn lemma_moved_fields_right(
    m: SubstMap,
    r1: RowV,
    r2: RowV,
    row: RowV,
    extras1: Seq<FieldV>,
    extras2: Seq<FieldV>,
    other: TyV,
)
    requires
        acyclic(m),
        extras1 == split_fields(r1.fields, r2.fields).extras1,
        extras2 == split_fields(r1.fields, r2.fields).extras2,
        apply(m, *r2.tail) == apply(m, TyV::Record(row)),
        apply(m, *r1.tail) == apply(m, other),
        forall|i: int|
            0 <= i < split_fields(r1.fields, r2.fields).common.len() ==> made_equal(
                m,
                (#[trigger] split_fields(r1.fields, r2.fields).common[i]).1,
                split_fields(r1.fields, r2.fields).common[i].2,
            ),
        made_equal(
            m,
            TyV::Record(RowV { fields: sort_fields(row.fields + extras2), tail: row.tail }),
            TyV::Record(RowV { fields: extras1, tail: Box::new(other) }),
        ),
    ensures
        made_equal(m, TyV::Record(r1), TyV::Record(r2)),
{
    let ra = r2;
    let rb = r1;
    let fa = apply_fields(m, ra.fields);
    let fb = apply_fields(m, rb.fields);
    let ea = apply_fields(m, extras2);
    let eb = apply_fields(m, extras1);
    let r = apply_fields(m, row.fields);
    let x = apply(m, *row.tail);
    let tb = apply(m, other);
    if simple(apply(m, TyV::Record(r1))) && simple(apply(m, TyV::Record(r2))) {
        // the resolved rows
        lemma_flat_flat(fa, r, x);
        assert(apply(m, TyV::Record(ra)) == flat_record(fa + r, x));
        assert(apply(m, TyV::Record(rb)) == flat_record(fb, tb));
        // the resolved rows with the fields moved
        let moved = row.fields + extras2;
        lemma_apply_sort(m, moved);
        lemma_apply_fields_concat(m, row.fields, extras2);
        lemma_flat_sorted(r + ea, x);
        let left = flat_record(r + ea, x);
        let right = flat_record(eb, tb);
        // both are simple
        lemma_simple_flat(fa + r, x);
        lemma_simple_flat(fb, tb);
        lemma_simple_flat(r + ea, x);
        lemma_simple_flat(eb, tb);
        let all_a = (fa + r) + fields_of(x);
        let all_b = fb + fields_of(tb);
        let left_all = (r + ea) + fields_of(x);
        let right_all = eb + fields_of(tb);
        assert(distinct_names(left_all)) by {
            assert forall|n: Seq<char>| (#[trigger] fields_named(left_all, n)).len() <= 1 by {
                lemma_fields_named_concat(r + ea, fields_of(x), n);
                lemma_fields_named_concat(r, ea, n);
                lemma_fields_named_concat(fa + r, fields_of(x), n);
                lemma_fields_named_concat(fa, r, n);
                lemma_split_named(r1.fields, r2.fields, n);
                lemma_named_apply(m, ra.fields, n);
                lemma_named_apply(m, extras2, n);
                assert(fields_named(all_a, n).len() <= 1);
            }
        }
        assert(distinct_names(right_all)) by {
            assert forall|n: Seq<char>| (#[trigger] fields_named(right_all, n)).len() <= 1 by {
                lemma_fields_named_concat(eb, fields_of(tb), n);
                lemma_fields_named_concat(fb, fields_of(tb), n);
                lemma_split_named(r1.fields, r2.fields, n);
                lemma_named_apply(m, rb.fields, n);
                lemma_named_apply(m, extras1, n);
                assert(fields_named(all_b, n).len() <= 1);
            }
        }
        assert forall|f: FieldV| left_all.contains(f) implies #[trigger] all_a.contains(f) by {
            lemma_side_fields(m, r1, r2, f);
            lemma_contains_concat(r + ea, fields_of(x), f);
            lemma_contains_concat(r, ea, f);
            lemma_contains_concat(fa + r, fields_of(x), f);
            lemma_contains_concat(fa, r, f);
        }
        assert forall|f: FieldV| right_all.contains(f) implies #[trigger] all_b.contains(f) by {
            lemma_side_fields(m, r1, r2, f);
            lemma_contains_concat(eb, fields_of(tb), f);
            lemma_contains_concat(fb, fields_of(tb), f);
        }
        assert(simple_fields(left_all)) by {
            assert forall|i: int| 0 <= i < left_all.len() implies simple(
                (#[trigger] left_all[i]).1,
            ) by {
                assert(left_all.contains(left_all[i]));
                assert(all_a.contains(left_all[i]));
                let j = choose|j: int| 0 <= j < all_a.len() && all_a[j] == left_all[i];
                assert(simple(all_a[j].1));
            }
        }
        assert(simple_fields(right_all)) by {
            assert forall|i: int| 0 <= i < right_all.len() implies simple(
                (#[trigger] right_all[i]).1,
            ) by {
                assert(right_all.contains(right_all[i]));
                assert(all_b.contains(right_all[i]));
                let j = choose|j: int| 0 <= j < all_b.len() && all_b[j] == right_all[i];
                assert(simple(all_b[j].1));
            }
        }
        assert(left == right);
        lemma_flat_shape(r + ea, x);
        lemma_flat_shape(eb, tb);
        assert(tail_of(x) == tail_of(tb));
        assert forall|f: FieldV| #[trigger] all_a.contains(f) <==> all_b.contains(f) by {
            lemma_side_fields(m, r1, r2, f);
            lemma_contains_concat(r + ea, fields_of(x), f);
            lemma_contains_concat(r, ea, f);
            lemma_contains_concat(fa + r, fields_of(x), f);
            lemma_contains_concat(fa, r, f);
            lemma_contains_concat(eb, fields_of(tb), f);
            lemma_contains_concat(fb, fields_of(tb), f);
            lemma_sort_fields_contains(left_all, f);
            lemma_sort_fields_contains(right_all, f);
        }
        lemma_flat_equal(fa + r, x, fb, tb);
    }
}

/// The remaining fields of two rows, neither of them a record.
proof fn lemma_tails_sound(s: SubstV, r1: RowV, r2: RowV, tail1: TyV, tail2: TyV)
    requires
        acyclic(s.map),
        s.map.dom().finite(),
        tail1 == apply(s.map, *r1.tail),
        tail2 == apply(s.map, *r2.tail),
        !is_record(tail1),
        !is_record(tail2),
        forall|i: int|
            0 <= i < split_fields(r1.fields, r2.fields).common.len() ==> made_equal(
                s.map,
                (#[trigger] split_fields(r1.fields, r2.fields).common[i]).1,
                split_fields(r1.fields, r2.fields).common[i].2,
            ),
        unify_tails(
            s,
            split_fields(r1.fields, r2.fields).extras1,
            tail1,
            split_fields(r1.fields, r2.fields).extras2,
            tail2,
        ).1 is None,
    ensures
        continues(
            s,
            unify_tails(
                s,
                split_fields(r1.fields, r2.fields).extras1,
                tail1,
                split_fields(r1.fields, r2.fields).extras2,
                tail2,
            ).0,
        ),
        made_equal(
            unify_tails(
                s,
                split_fields(r1.fields, r2.fields).extras1,
                tail1,
                split_fields(r1.fields, r2.fields).extras2,
                tail2,
            ).0.map,
            TyV::Record(r1),
            TyV::Record(r2),
        ),
{
    let sp = split_fields(r1.fields, r2.fields);
    let x1 = sp.extras1;
    let x2 = sp.extras2;
    let m = s.map;
    lemma_apply_resolved(m, *r1.tail);
    lemma_apply_resolved(m, *r2.tail);
    let fin = unify_tails(s, x1, tail1, x2, tail2).0;
    let m2 = fin.map;
    // what each tail resolves to in the end: the other side's extras, then a shared rest
    let rest = match (tail1, tail2) {
        (TyV::Var(v1), TyV::Var(v2)) => {
            assert(occurs(v1, tail1));
            assert(occurs(v2, tail2));
            if v1 == v2 {
                tail1
            } else {
                let shared = TyV::Var(s.next_var);
                let s1 = after_fresh(s, level_in(s.levels, v1));
                let t1 = TyV::Record(RowV { fields: x2, tail: Box::new(shared) });
                let t2 = TyV::Record(RowV { fields: x1, tail: Box::new(shared) });
                let o = bind(s1, v1, t1);
                lemma_bind_sound(s1, v1, t1);
                lemma_bind_record_advances(s1, v1, t1);
                lemma_bind_sound(o.0, v2, t2);
                lemma_extend_absorbs(o.0.map, m2, TyV::Var(v1));
                lemma_extend_absorbs(o.0.map, m2, t1);
                shared
            }
        },
        (TyV::Var(v), _) => {
            assert(occurs(v, tail1));
            lemma_bind_sound(s, v, closed_record(x2));
            TyV::Unit
        },
        (_, TyV::Var(v)) => {
            assert(occurs(v, tail2));
            lemma_bind_sound(s, v, closed_record(x1));
            TyV::Unit
        },
        _ => TyV::Unit,
    };
    let w = apply(m2, rest);
    let e1 = apply_fields(m2, x1);
    let e2 = apply_fields(m2, x2);
    let f1 = apply_fields(m2, r1.fields);
    let f2 = apply_fields(m2, r2.fields);
    lemma_extend_absorbs(m, m2, *r1.tail);
    lemma_extend_absorbs(m, m2, *r2.tail);
    lemma_common_later(m, m2, sp.common);
    if simple(apply(m2, TyV::Record(r1))) && simple(apply(m2, TyV::Record(r2))) {
        assert(flat_record(f1, apply(m2, *r1.tail)) == flat_record(f1 + e2, w)) by {
            lemma_flat_flat(f1, e2, w);
            assert(x2.len() == 0 ==> f1 + e2 =~= f1);
        }
        assert(flat_record(f2, apply(m2, *r2.tail)) == flat_record(f2 + e1, w)) by {
            lemma_flat_flat(f2, e1, w);
            assert(x1.len() == 0 ==> f2 + e1 =~= f2);
        }
        let all1 = (f1 + e2) + fields_of(w);
        let all2 = (f2 + e1) + fields_of(w);
        assert forall|f: FieldV| #[trigger] all1.contains(f) <==> all2.contains(f) by {
            lemma_side_fields(m2, r1, r2, f);
            lemma_contains_concat(f1 + e2, fields_of(w), f);
            lemma_contains_concat(f1, e2, f);
            lemma_contains_concat(f2 + e1, fields_of(w), f);
            lemma_contains_concat(f2, e1, f);
        }
        lemma_flat_equal(f1 + e2, w, f2 + e1, w);
    }
}

} // verus!
