//! What a substitution does to a type.
//!
//! A substitution maps variables to types that may mention further mapped
//! variables. Applying it chases those chains to their ends, so it is defined
//! for substitutions without cycles.

use vstd::prelude::*;

use crate::rows::{fields_sorted, law_sort_fields_idempotent, law_sort_fields_sorted};
use crate::rows::{insert_field, lemma_sort_back, lemma_sort_front};
use crate::rows::{lemma_sort_fields_contains, lemma_sort_fields_multiset, sort_fields, FieldV};
use crate::ty::{ConstraintV, ParamV, ReturnV, RowV, TyV, TyVar};
use crate::vars::{occurs, occurs_in_constraints, occurs_in_fields, occurs_in_params, occurs_in_tys};

verus! {

/// A substitution: the type that each solved variable stands for.
pub type SubstMap = Map<TyVar, TyV>;

/// `r` numbers the solved variables so that each one's type mentions only
/// solved variables with smaller numbers.
pub open spec fn ranks(m: SubstMap, r: spec_fn(TyVar) -> nat) -> bool {
    forall|v: TyVar, w: TyVar|
        m.dom().contains(v) && m.dom().contains(w) && #[trigger] occurs(w, m[v]) ==> r(w) < r(v)
}

/// No chain of solved variables leads back to where it started.
pub open spec fn acyclic(m: SubstMap) -> bool {
    exists|r: spec_fn(TyVar) -> nat| ranks(m, r)
}

/// A numbering that shows `m` to be free of cycles.
pub open spec fn rank(m: SubstMap) -> spec_fn(TyVar) -> nat {
    choose|r: spec_fn(TyVar) -> nat| ranks(m, r)
}

// ---------------------------------------------------------------------------
// How far applying a substitution reaches
// ---------------------------------------------------------------------------

/// The larger of two numbers.
pub open spec fn max2(a: nat, b: nat) -> nat {
    if a >= b {
        a
    } else {
        b
    }
}

pub open spec fn var_height(r: spec_fn(TyVar) -> nat, dom: Set<TyVar>, v: TyVar) -> nat {
    if dom.contains(v) {
        r(v) + 1
    } else {
        0
    }
}

/// One more than the largest rank of a solved variable in `t`, or zero.
pub open spec fn height(r: spec_fn(TyVar) -> nat, dom: Set<TyVar>, t: TyV) -> nat
    decreases t,
{
    match t {
        TyV::Var(v) => var_height(r, dom, v),
        TyV::Qualified(cs, inner) => max2(height(r, dom, *inner), constraints_height(r, dom, cs)),
        TyV::Tuple(ts) => tys_height(r, dom, ts),
        TyV::Func(ps, ret) => max2(height(r, dom, *ret.ty), params_height(r, dom, ps)),
        TyV::App(con, args) => max2(height(r, dom, *con), tys_height(r, dom, args)),
        TyV::Record(row) => max2(height(r, dom, *row.tail), fields_height(r, dom, row.fields)),
        _ => 0,
    }
}

pub open spec fn tys_height(r: spec_fn(TyVar) -> nat, dom: Set<TyVar>, ts: Seq<TyV>) -> nat
    decreases ts,
{
    if ts.len() == 0 {
        0
    } else {
        max2(tys_height(r, dom, ts.drop_last()), height(r, dom, ts.last()))
    }
}

pub open spec fn params_height(r: spec_fn(TyVar) -> nat, dom: Set<TyVar>, ps: Seq<ParamV>) -> nat
    decreases ps,
{
    if ps.len() == 0 {
        0
    } else {
        max2(params_height(r, dom, ps.drop_last()), height(r, dom, ps.last().ty))
    }
}

pub open spec fn fields_height(r: spec_fn(TyVar) -> nat, dom: Set<TyVar>, fs: Seq<FieldV>) -> nat
    decreases fs,
{
    if fs.len() == 0 {
        0
    } else {
        max2(fields_height(r, dom, fs.drop_last()), height(r, dom, fs.last().1))
    }
}

pub open spec fn constraints_height(
    r: spec_fn(TyVar) -> nat,
    dom: Set<TyVar>,
    cs: Seq<ConstraintV>,
) -> nat
    decreases cs,
{
    if cs.len() == 0 {
        0
    } else {
        max2(
            constraints_height(r, dom, cs.drop_last()),
            max2(var_height(r, dom, cs.last().var), tys_height(r, dom, cs.last().args)),
        )
    }
}

pub proof fn lemma_tys_height(r: spec_fn(TyVar) -> nat, dom: Set<TyVar>, ts: Seq<TyV>)
    ensures
        forall|i: int|
            0 <= i < ts.len() ==> height(r, dom, #[trigger] ts[i]) <= tys_height(r, dom, ts),
    decreases ts.len(),
{
    if ts.len() > 0 {
        let d = ts.drop_last();
        lemma_tys_height(r, dom, d);
        assert forall|i: int| 0 <= i < ts.len() implies height(r, dom, #[trigger] ts[i]) <= tys_height(r, dom, ts) by {
            if i < d.len() {
                assert(d[i] == ts[i]);
            }
        }
    }
}

pub proof fn lemma_params_height(r: spec_fn(TyVar) -> nat, dom: Set<TyVar>, ps: Seq<ParamV>)
    ensures
        forall|i: int|
            0 <= i < ps.len() ==> height(r, dom, (#[trigger] ps[i]).ty) <= params_height(r, dom, ps),
    decreases ps.len(),
{
    if ps.len() > 0 {
        let d = ps.drop_last();
        lemma_params_height(r, dom, d);
        assert forall|i: int| 0 <= i < ps.len() implies height(r, dom, (#[trigger] ps[i]).ty) <= params_height(r, dom, ps) by {
            if i < d.len() {
                assert(d[i] == ps[i]);
            }
        }
    }
}

pub proof fn lemma_fields_height(r: spec_fn(TyVar) -> nat, dom: Set<TyVar>, fs: Seq<FieldV>)
    ensures
        forall|i: int|
            0 <= i < fs.len() ==> height(r, dom, (#[trigger] fs[i]).1) <= fields_height(r, dom, fs),
    decreases fs.len(),
{
    if fs.len() > 0 {
        let d = fs.drop_last();
        lemma_fields_height(r, dom, d);
        assert forall|i: int| 0 <= i < fs.len() implies height(r, dom, (#[trigger] fs[i]).1) <= fields_height(r, dom, fs) by {
            if i < d.len() {
                assert(d[i] == fs[i]);
            }
        }
    }
}

pub proof fn lemma_constraints_height(r: spec_fn(TyVar) -> nat, dom: Set<TyVar>, cs: Seq<ConstraintV>)
    ensures
        forall|i: int|
            0 <= i < cs.len() ==> var_height(r, dom, (#[trigger] cs[i]).var)
                <= constraints_height(r, dom, cs) && tys_height(r, dom, cs[i].args)
                <= constraints_height(r, dom, cs),
    decreases cs.len(),
{
    if cs.len() > 0 {
        let d = cs.drop_last();
        lemma_constraints_height(r, dom, d);
        assert forall|i: int| 0 <= i < cs.len() implies var_height(r, dom, (#[trigger] cs[i]).var)
            <= constraints_height(r, dom, cs) && tys_height(r, dom, cs[i].args)
            <= constraints_height(r, dom, cs) by {
            if i < d.len() {
                assert(d[i] == cs[i]);
            }
        }
    }
}

/// If every solved variable of `t` has a rank below `n`, so has `t` a height
/// of at most `n`.
proof fn lemma_height_bound(r: spec_fn(TyVar) -> nat, dom: Set<TyVar>, t: TyV, n: nat)
    requires
        forall|w: TyVar| dom.contains(w) && #[trigger] occurs(w, t) ==> r(w) < n,
    ensures
        height(r, dom, t) <= n,
    decreases t,
{
    match t {
        TyV::Var(v) => {
            assert(occurs(v, t));
        },
        TyV::Qualified(cs, inner) => {
            assert forall|w: TyVar| dom.contains(w) && #[trigger] occurs(w, *inner) implies r(w)
                < n by {
                assert(occurs(w, t));
            }
            assert forall|w: TyVar|
                dom.contains(w) && #[trigger] occurs_in_constraints(w, cs) implies r(w) < n by {
                assert(occurs(w, t));
            }
            lemma_height_bound(r, dom, *inner, n);
            lemma_constraints_height_bound(r, dom, cs, n);
        },
        TyV::Tuple(ts) => {
            assert forall|w: TyVar| dom.contains(w) && #[trigger] occurs_in_tys(w, ts) implies r(w)
                < n by {
                assert(occurs(w, t));
            }
            lemma_tys_height_bound(r, dom, ts, n);
        },
        TyV::Func(ps, ret) => {
            assert forall|w: TyVar| dom.contains(w) && #[trigger] occurs(w, *ret.ty) implies r(w)
                < n by {
                assert(occurs(w, t));
            }
            assert forall|w: TyVar|
                dom.contains(w) && #[trigger] occurs_in_params(w, ps) implies r(w) < n by {
                assert(occurs(w, t));
            }
            lemma_height_bound(r, dom, *ret.ty, n);
            lemma_params_height_bound(r, dom, ps, n);
        },
        TyV::App(con, args) => {
            assert forall|w: TyVar| dom.contains(w) && #[trigger] occurs(w, *con) implies r(w)
                < n by {
                assert(occurs(w, t));
            }
            assert forall|w: TyVar|
                dom.contains(w) && #[trigger] occurs_in_tys(w, args) implies r(w) < n by {
                assert(occurs(w, t));
            }
            lemma_height_bound(r, dom, *con, n);
            lemma_tys_height_bound(r, dom, args, n);
        },
        TyV::Record(row) => {
            assert forall|w: TyVar| dom.contains(w) && #[trigger] occurs(w, *row.tail) implies r(w)
                < n by {
                assert(occurs(w, t));
            }
            assert forall|w: TyVar|
                dom.contains(w) && #[trigger] occurs_in_fields(w, row.fields) implies r(w) < n by {
                assert(occurs(w, t));
            }
            lemma_height_bound(r, dom, *row.tail, n);
            lemma_fields_height_bound(r, dom, row.fields, n);
        },
        _ => {},
    }
}

proof fn lemma_tys_height_bound(r: spec_fn(TyVar) -> nat, dom: Set<TyVar>, ts: Seq<TyV>, n: nat)
    requires
        forall|w: TyVar| dom.contains(w) && #[trigger] occurs_in_tys(w, ts) ==> r(w) < n,
    ensures
        tys_height(r, dom, ts) <= n,
    decreases ts,
{
    if ts.len() > 0 {
        let d = ts.drop_last();
        let last = ts.last();
        assert forall|w: TyVar| dom.contains(w) && #[trigger] occurs_in_tys(w, d) implies r(w) < n by {
            let k = choose|k: int| 0 <= k < d.len() && occurs(w, #[trigger] d[k]);
            assert(ts[k] == d[k]);
            assert(occurs_in_tys(w, ts));
        }
        lemma_tys_height_bound(r, dom, d, n);
        assert forall|w: TyVar| dom.contains(w) && #[trigger] occurs(w, last) implies r(w) < n by {
            assert(ts[ts.len() - 1] == ts.last());
            assert(occurs_in_tys(w, ts));
        }
        lemma_height_bound(r, dom, last, n);
    }
}

proof fn lemma_params_height_bound(r: spec_fn(TyVar) -> nat, dom: Set<TyVar>, ps: Seq<ParamV>, n: nat)
    requires
        forall|w: TyVar| dom.contains(w) && #[trigger] occurs_in_params(w, ps) ==> r(w) < n,
    ensures
        params_height(r, dom, ps) <= n,
    decreases ps,
{
    if ps.len() > 0 {
        let d = ps.drop_last();
        let last = ps.last().ty;
        assert forall|w: TyVar| dom.contains(w) && #[trigger] occurs_in_params(w, d) implies r(w) < n by {
            let k = choose|k: int| 0 <= k < d.len() && occurs(w, (#[trigger] d[k]).ty);
            assert(ps[k] == d[k]);
            assert(occurs_in_params(w, ps));
        }
        lemma_params_height_bound(r, dom, d, n);
        assert forall|w: TyVar| dom.contains(w) && #[trigger] occurs(w, last) implies r(w) < n by {
            assert(ps[ps.len() - 1] == ps.last());
            assert(occurs_in_params(w, ps));
        }
        lemma_height_bound(r, dom, last, n);
    }
}

proof fn lemma_fields_height_bound(r: spec_fn(TyVar) -> nat, dom: Set<TyVar>, fs: Seq<FieldV>, n: nat)
    requires
        forall|w: TyVar| dom.contains(w) && #[trigger] occurs_in_fields(w, fs) ==> r(w) < n,
    ensures
        fields_height(r, dom, fs) <= n,
    decreases fs,
{
    if fs.len() > 0 {
        let d = fs.drop_last();
        let last = fs.last().1;
        assert forall|w: TyVar| dom.contains(w) && #[trigger] occurs_in_fields(w, d) implies r(w) < n by {
            let k = choose|k: int| 0 <= k < d.len() && occurs(w, (#[trigger] d[k]).1);
            assert(fs[k] == d[k]);
            assert(occurs_in_fields(w, fs));
        }
        lemma_fields_height_bound(r, dom, d, n);
        assert forall|w: TyVar| dom.contains(w) && #[trigger] occurs(w, last) implies r(w) < n by {
            assert(fs[fs.len() - 1] == fs.last());
            assert(occurs_in_fields(w, fs));
        }
        lemma_height_bound(r, dom, last, n);
    }
}

proof fn lemma_constraints_height_bound(
    r: spec_fn(TyVar) -> nat,
    dom: Set<TyVar>,
    cs: Seq<ConstraintV>,
    n: nat,
)
    requires
        forall|w: TyVar| dom.contains(w) && #[trigger] occurs_in_constraints(w, cs) ==> r(w) < n,
    ensures
        constraints_height(r, dom, cs) <= n,
    decreases cs,
{
    if cs.len() > 0 {
        let d = cs.drop_last();
        let c = cs.last();
        assert(cs[cs.len() - 1] == c);
        assert forall|w: TyVar| dom.contains(w) && #[trigger] occurs_in_constraints(
            w,
            d,
        ) implies r(w) < n by {
            let k = choose|k: int|
                0 <= k < d.len() && ((#[trigger] d[k]).var == w || occurs_in_tys(w, d[k].args));
            assert(cs[k] == d[k]);
            assert(occurs_in_constraints(w, cs));
        }
        lemma_constraints_height_bound(r, dom, d, n);
        assert(occurs_in_constraints(c.var, cs));
        assert forall|w: TyVar| dom.contains(w) && #[trigger] occurs_in_tys(w, c.args) implies r(w)
            < n by {
            assert(occurs_in_constraints(w, cs));
        }
        lemma_tys_height_bound(r, dom, c.args, n);
    }
}

pub proof fn lemma_solved_height(m: SubstMap, v: TyVar)
    requires
        acyclic(m),
        m.dom().contains(v),
    ensures
        height(rank(m), m.dom(), m[v]) < var_height(rank(m), m.dom(), v),
{
    let r = rank(m);
    assert(ranks(m, r));
    lemma_height_bound(r, m.dom(), m[v], r(v));
}

// ---------------------------------------------------------------------------
// Application
// ---------------------------------------------------------------------------

/// `t` with every solved variable replaced by what it stands for, through to
/// the end. A record whose remaining fields turn out to be a record takes
/// them over, and records come out with their fields in name order. A
/// constraint whose variable has become anything but a variable is dropped.
pub open spec fn apply(m: SubstMap, t: TyV) -> TyV
    decreases height(rank(m), m.dom(), t), t,
    when acyclic(m)
{
    match t {
        TyV::Var(v) => {
            if m.dom().contains(v) {
                proof {
                    lemma_solved_height(m, v);
                }
                apply(m, m[v])
            } else {
                t
            }
        },
        TyV::Qualified(cs, inner) => TyV::Qualified(
            apply_constraints(m, cs),
            Box::new(apply(m, *inner)),
        ),
        TyV::Tuple(ts) => TyV::Tuple(apply_tys(m, ts)),
        TyV::Func(ps, ret) => TyV::Func(
            apply_params(m, ps),
            ReturnV { ty: Box::new(apply(m, *ret.ty)), capability: ret.capability },
        ),
        TyV::App(con, args) => TyV::App(Box::new(apply(m, *con)), apply_tys(m, args)),
        TyV::Record(row) => flat_record(apply_fields(m, row.fields), apply(m, *row.tail)),
        _ => t,
    }
}

/// The record of `fields` and of whatever `tail` adds to them.
pub open spec fn flat_record(fields: Seq<FieldV>, tail: TyV) -> TyV {
    match tail {
        TyV::Record(inner) => TyV::Record(
            RowV { fields: sort_fields(fields + inner.fields), tail: inner.tail },
        ),
        _ => TyV::Record(RowV { fields: sort_fields(fields), tail: Box::new(tail) }),
    }
}

pub open spec fn apply_tys(m: SubstMap, ts: Seq<TyV>) -> Seq<TyV>
    decreases tys_height(rank(m), m.dom(), ts), ts,
    when acyclic(m)
{
    proof {
        lemma_tys_height(rank(m), m.dom(), ts);
    }
    Seq::new(
        ts.len(),
        |i: int|
            if 0 <= i < ts.len() {
                apply(m, ts[i])
            } else {
                arbitrary()
            },
    )
}

pub open spec fn apply_params(m: SubstMap, ps: Seq<ParamV>) -> Seq<ParamV>
    decreases params_height(rank(m), m.dom(), ps), ps,
    when acyclic(m)
{
    proof {
        lemma_params_height(rank(m), m.dom(), ps);
    }
    Seq::new(
        ps.len(),
        |i: int|
            if 0 <= i < ps.len() {
                ParamV { ty: apply(m, ps[i].ty), capability: ps[i].capability }
            } else {
                arbitrary()
            },
    )
}

pub open spec fn apply_fields(m: SubstMap, fs: Seq<FieldV>) -> Seq<FieldV>
    decreases fields_height(rank(m), m.dom(), fs), fs,
    when acyclic(m)
{
    proof {
        lemma_fields_height(rank(m), m.dom(), fs);
    }
    Seq::new(
        fs.len(),
        |i: int|
            if 0 <= i < fs.len() {
                (fs[i].0, apply(m, fs[i].1))
            } else {
                arbitrary()
            },
    )
}

pub open spec fn apply_constraints(m: SubstMap, cs: Seq<ConstraintV>) -> Seq<ConstraintV>
    decreases constraints_height(rank(m), m.dom(), cs), cs,
    when acyclic(m)
{
    if cs.len() == 0 {
        Seq::empty()
    } else {
        proof {
            if m.dom().contains(cs.last().var) {
                lemma_solved_height(m, cs.last().var);
            }
        }
        let c = cs.last();
        let rest = apply_constraints(m, cs.drop_last());
        let resolved = if m.dom().contains(c.var) {
            apply(m, m[c.var])
        } else {
            TyV::Var(c.var)
        };
        match resolved {
            TyV::Var(w) => rest.push(
                ConstraintV { var: w, args: apply_tys(m, c.args), ..c },
            ),
            _ => rest,
        }
    }
}

// ---------------------------------------------------------------------------
// Nothing solved is left
// ---------------------------------------------------------------------------

/// Sorting fields neither adds nor loses a variable.
pub proof fn lemma_occurs_sort(v: TyVar, fs: Seq<FieldV>)
    ensures
        occurs_in_fields(v, sort_fields(fs)) == occurs_in_fields(v, fs),
{
    let sorted = sort_fields(fs);
    if occurs_in_fields(v, fs) {
        let k = choose|k: int| 0 <= k < fs.len() && occurs(v, (#[trigger] fs[k]).1);
        lemma_sort_fields_contains(fs, fs[k]);
        assert(fs.contains(fs[k]));
        let j = choose|j: int| 0 <= j < sorted.len() && sorted[j] == fs[k];
        assert(occurs(v, sorted[j].1));
    }
    if occurs_in_fields(v, sorted) {
        let k = choose|k: int| 0 <= k < sorted.len() && occurs(v, (#[trigger] sorted[k]).1);
        lemma_sort_fields_contains(fs, sorted[k]);
        assert(sorted.contains(sorted[k]));
        let j = choose|j: int| 0 <= j < fs.len() && fs[j] == sorted[k];
        assert(occurs(v, fs[j].1));
    }
}

/// The variables of concatenated fields.
pub proof fn lemma_occurs_concat(v: TyVar, a: Seq<FieldV>, b: Seq<FieldV>)
    ensures
        occurs_in_fields(v, a + b) == (occurs_in_fields(v, a) || occurs_in_fields(v, b)),
{
    let ab = a + b;
    if occurs_in_fields(v, ab) {
        let k = choose|k: int| 0 <= k < ab.len() && occurs(v, (#[trigger] ab[k]).1);
        if k < a.len() {
            assert(a[k] == ab[k]);
        } else {
            assert(b[k - a.len()] == ab[k]);
        }
    }
    if occurs_in_fields(v, a) {
        let k = choose|k: int| 0 <= k < a.len() && occurs(v, (#[trigger] a[k]).1);
        assert(ab[k] == a[k]);
    }
    if occurs_in_fields(v, b) {
        let k = choose|k: int| 0 <= k < b.len() && occurs(v, (#[trigger] b[k]).1);
        assert(ab[k + a.len()] == b[k]);
    }
}

/// The variables of a flattened record are those of its parts.
pub proof fn lemma_occurs_flat(v: TyVar, fields: Seq<FieldV>, tail: TyV)
    ensures
        occurs(v, flat_record(fields, tail)) == (occurs_in_fields(v, fields) || occurs(v, tail)),
{
    match tail {
        TyV::Record(inner) => {
            lemma_occurs_concat(v, fields, inner.fields);
            lemma_occurs_sort(v, fields + inner.fields);
        },
        _ => {
            lemma_occurs_sort(v, fields);
        },
    }
}

/// Applying a substitution leaves no solved variable behind.
pub proof fn law_apply_eliminates(m: SubstMap, t: TyV, v: TyVar)
    requires
        acyclic(m),
        m.dom().contains(v),
    ensures
        !occurs(v, apply(m, t)),
    decreases height(rank(m), m.dom(), t), t,
{
    match t {
        TyV::Var(w) => {
            if m.dom().contains(w) {
                lemma_solved_height(m, w);
                law_apply_eliminates(m, m[w], v);
            }
        },
        TyV::Qualified(cs, inner) => {
            lemma_constraints_eliminated(m, cs, v);
            law_apply_eliminates(m, *inner, v);
        },
        TyV::Tuple(ts) => {
            lemma_tys_eliminated(m, ts, v);
        },
        TyV::Func(ps, ret) => {
            law_apply_eliminates(m, *ret.ty, v);
            lemma_params_height(rank(m), m.dom(), ps);
            let r = apply_params(m, ps);
            assert forall|i: int| 0 <= i < r.len() implies !occurs(v, (#[trigger] r[i]).ty) by {
                law_apply_eliminates(m, ps[i].ty, v);
            }
            assert(!occurs_in_params(v, r));
        },
        TyV::App(con, args) => {
            law_apply_eliminates(m, *con, v);
            lemma_tys_eliminated(m, args, v);
        },
        TyV::Record(row) => {
            law_apply_eliminates(m, *row.tail, v);
            let fs = row.fields;
            lemma_fields_height(rank(m), m.dom(), fs);
            let r = apply_fields(m, fs);
            assert forall|i: int| 0 <= i < r.len() implies !occurs(v, (#[trigger] r[i]).1) by {
                law_apply_eliminates(m, fs[i].1, v);
            }
            assert(!occurs_in_fields(v, r));
            lemma_occurs_flat(v, r, apply(m, *row.tail));
        },
        _ => {},
    }
}

proof fn lemma_tys_eliminated(m: SubstMap, ts: Seq<TyV>, v: TyVar)
    requires
        acyclic(m),
        m.dom().contains(v),
    ensures
        !occurs_in_tys(v, apply_tys(m, ts)),
    decreases tys_height(rank(m), m.dom(), ts), ts,
{
    lemma_tys_height(rank(m), m.dom(), ts);
    let r = apply_tys(m, ts);
    assert forall|i: int| 0 <= i < r.len() implies !occurs(v, #[trigger] r[i]) by {
        law_apply_eliminates(m, ts[i], v);
    }
}

proof fn lemma_constraints_eliminated(m: SubstMap, cs: Seq<ConstraintV>, v: TyVar)
    requires
        acyclic(m),
        m.dom().contains(v),
    ensures
        !occurs_in_constraints(v, apply_constraints(m, cs)),
    decreases constraints_height(rank(m), m.dom(), cs), cs,
{
    if cs.len() > 0 {
        let c = cs.last();
        let rest = apply_constraints(m, cs.drop_last());
        lemma_constraints_eliminated(m, cs.drop_last(), v);
        lemma_tys_eliminated(m, c.args, v);
        if m.dom().contains(c.var) {
            lemma_solved_height(m, c.var);
            law_apply_eliminates(m, m[c.var], v);
        }
        let r = apply_constraints(m, cs);
        if occurs_in_constraints(v, r) {
            let k = choose|k: int|
                0 <= k < r.len() && ((#[trigger] r[k]).var == v || occurs_in_tys(v, r[k].args));
            if k < rest.len() {
                assert(rest[k] == r[k]);
            }
        }
    }
}

// ---------------------------------------------------------------------------
// Applying twice
// ---------------------------------------------------------------------------

/// Every record in `t` has its fields in name order, and none has a record
/// for its remaining fields.
pub open spec fn normal(t: TyV) -> bool
    decreases t,
{
    match t {
        TyV::Qualified(cs, inner) => normal_constraints(cs) && normal(*inner),
        TyV::Tuple(ts) => normal_tys(ts),
        TyV::Func(ps, ret) => normal_params(ps) && normal(*ret.ty),
        TyV::App(con, args) => normal(*con) && normal_tys(args),
        TyV::Record(row) => fields_sorted(row.fields) && normal_fields(row.fields) && normal(
            *row.tail,
        ) && !(*row.tail is Record),
        _ => true,
    }
}

pub open spec fn normal_tys(ts: Seq<TyV>) -> bool
    decreases ts,
{
    forall|i: int| 0 <= i < ts.len() ==> normal(#[trigger] ts[i])
}

pub open spec fn normal_params(ps: Seq<ParamV>) -> bool
    decreases ps,
{
    forall|i: int| 0 <= i < ps.len() ==> normal((#[trigger] ps[i]).ty)
}

pub open spec fn normal_fields(fs: Seq<FieldV>) -> bool
    decreases fs,
{
    forall|i: int| 0 <= i < fs.len() ==> normal((#[trigger] fs[i]).1)
}

pub open spec fn normal_constraints(cs: Seq<ConstraintV>) -> bool
    decreases cs,
{
    forall|i: int| 0 <= i < cs.len() ==> normal_tys((#[trigger] cs[i]).args)
}

/// Sorting keeps fields normal.
pub proof fn lemma_normal_sort(fs: Seq<FieldV>)
    requires
        normal_fields(fs),
    ensures
        normal_fields(sort_fields(fs)),
        fields_sorted(sort_fields(fs)),
{
    law_sort_fields_sorted(fs);
    let sorted = sort_fields(fs);
    assert forall|i: int| 0 <= i < sorted.len() implies normal((#[trigger] sorted[i]).1) by {
        assert(sorted.contains(sorted[i]));
        lemma_sort_fields_contains(fs, sorted[i]);
        let j = choose|j: int| 0 <= j < fs.len() && fs[j] == sorted[i];
        assert(normal(fs[j].1));
    }
}

/// Flattening makes a record normal.
pub proof fn lemma_normal_flat(fields: Seq<FieldV>, tail: TyV)
    requires
        normal_fields(fields),
        normal(tail),
    ensures
        normal(flat_record(fields, tail)),
{
    match tail {
        TyV::Record(inner) => {
            let all = fields + inner.fields;
            assert forall|i: int| 0 <= i < all.len() implies normal((#[trigger] all[i]).1) by {
                if i < fields.len() {
                    assert(all[i] == fields[i]);
                } else {
                    assert(normal_fields(inner.fields));
                    assert(all[i] == inner.fields[i - fields.len()]);
                }
            }
            assert(normal_fields(all));
            lemma_normal_sort(all);
        },
        _ => {
            lemma_normal_sort(fields);
        },
    }
}

/// Applying a substitution gives a normal type.
pub proof fn law_apply_normal(m: SubstMap, t: TyV)
    requires
        acyclic(m),
    ensures
        normal(apply(m, t)),
    decreases height(rank(m), m.dom(), t), t,
{
    match t {
        TyV::Var(w) => {
            if m.dom().contains(w) {
                lemma_solved_height(m, w);
                law_apply_normal(m, m[w]);
            }
        },
        TyV::Qualified(cs, inner) => {
            lemma_apply_constraints_normal(m, cs);
            law_apply_normal(m, *inner);
        },
        TyV::Tuple(ts) => {
            lemma_apply_tys_normal(m, ts);
        },
        TyV::Func(ps, ret) => {
            law_apply_normal(m, *ret.ty);
            lemma_params_height(rank(m), m.dom(), ps);
            let r = apply_params(m, ps);
            assert forall|i: int| 0 <= i < r.len() implies normal((#[trigger] r[i]).ty) by {
                law_apply_normal(m, ps[i].ty);
            }
            assert(normal_params(r));
        },
        TyV::App(con, args) => {
            law_apply_normal(m, *con);
            lemma_apply_tys_normal(m, args);
        },
        TyV::Record(row) => {
            law_apply_normal(m, *row.tail);
            let fs = row.fields;
            lemma_fields_height(rank(m), m.dom(), fs);
            let r = apply_fields(m, fs);
            assert forall|i: int| 0 <= i < r.len() implies normal((#[trigger] r[i]).1) by {
                law_apply_normal(m, fs[i].1);
            }
            assert(normal_fields(r));
            lemma_normal_flat(r, apply(m, *row.tail));
        },
        _ => {},
    }
}

proof fn lemma_apply_tys_normal(m: SubstMap, ts: Seq<TyV>)
    requires
        acyclic(m),
    ensures
        normal_tys(apply_tys(m, ts)),
    decreases tys_height(rank(m), m.dom(), ts), ts,
{
    lemma_tys_height(rank(m), m.dom(), ts);
    let r = apply_tys(m, ts);
    assert forall|i: int| 0 <= i < r.len() implies normal(#[trigger] r[i]) by {
        law_apply_normal(m, ts[i]);
    }
}

proof fn lemma_apply_constraints_normal(m: SubstMap, cs: Seq<ConstraintV>)
    requires
        acyclic(m),
    ensures
        normal_constraints(apply_constraints(m, cs)),
    decreases constraints_height(rank(m), m.dom(), cs), cs,
{
    if cs.len() > 0 {
        let rest = apply_constraints(m, cs.drop_last());
        lemma_apply_constraints_normal(m, cs.drop_last());
        lemma_apply_tys_normal(m, cs.last().args);
        let r = apply_constraints(m, cs);
        assert forall|i: int| 0 <= i < r.len() implies normal_tys((#[trigger] r[i]).args) by {
            if i < rest.len() {
                assert(rest[i] == r[i]);
            }
        }
    }
}

/// A normal type without solved variables is left as it is.
pub proof fn lemma_apply_fixpoint(m: SubstMap, t: TyV)
    requires
        acyclic(m),
        normal(t),
        forall|v: TyVar| #[trigger] occurs(v, t) ==> !m.dom().contains(v),
    ensures
        apply(m, t) == t,
    decreases t,
{
    match t {
        TyV::Var(w) => {
            assert(occurs(w, t));
        },
        TyV::Qualified(cs, inner) => {
            assert forall|v: TyVar| #[trigger] occurs(v, *inner) implies !m.dom().contains(v) by {
                assert(occurs(v, t));
            }
            assert forall|v: TyVar| #[trigger] occurs_in_constraints(
                v,
                cs,
            ) implies !m.dom().contains(v) by {
                assert(occurs(v, t));
            }
            lemma_apply_fixpoint(m, *inner);
            lemma_apply_constraints_fixpoint(m, cs);
        },
        TyV::Tuple(ts) => {
            assert forall|v: TyVar| #[trigger] occurs_in_tys(v, ts) implies !m.dom().contains(
                v,
            ) by {
                assert(occurs(v, t));
            }
            lemma_apply_tys_fixpoint(m, ts);
        },
        TyV::Func(ps, ret) => {
            assert forall|v: TyVar| #[trigger] occurs(v, *ret.ty) implies !m.dom().contains(v) by {
                assert(occurs(v, t));
            }
            lemma_apply_fixpoint(m, *ret.ty);
            let r = apply_params(m, ps);
            assert(normal_params(ps));
            assert forall|i: int| 0 <= i < ps.len() implies #[trigger] r[i] == ps[i] by {
                assert(normal(ps[i].ty));
                assert forall|v: TyVar| #[trigger] occurs(v, ps[i].ty) implies !m.dom().contains(
                    v,
                ) by {
                    assert(occurs_in_params(v, ps));
                    assert(occurs(v, t));
                }
                lemma_apply_fixpoint(m, ps[i].ty);
            }
            assert(r =~= ps);
        },
        TyV::App(con, args) => {
            assert forall|v: TyVar| #[trigger] occurs(v, *con) implies !m.dom().contains(v) by {
                assert(occurs(v, t));
            }
            assert forall|v: TyVar| #[trigger] occurs_in_tys(v, args) implies !m.dom().contains(
                v,
            ) by {
                assert(occurs(v, t));
            }
            lemma_apply_fixpoint(m, *con);
            lemma_apply_tys_fixpoint(m, args);
        },
        TyV::Record(row) => {
            let fs = row.fields;
            assert forall|v: TyVar| #[trigger] occurs(v, *row.tail) implies !m.dom().contains(
                v,
            ) by {
                assert(occurs(v, t));
            }
            lemma_apply_fixpoint(m, *row.tail);
            assert forall|v: TyVar| #[trigger] occurs_in_fields(v, fs) implies !m.dom().contains(
                v,
            ) by {
                assert(occurs(v, t));
            }
            lemma_apply_fields_fixpoint(m, fs);
            law_sort_fields_idempotent(fs);
        },
        _ => {},
    }
}

proof fn lemma_apply_tys_fixpoint(m: SubstMap, ts: Seq<TyV>)
    requires
        acyclic(m),
        normal_tys(ts),
        forall|v: TyVar| #[trigger] occurs_in_tys(v, ts) ==> !m.dom().contains(v),
    ensures
        apply_tys(m, ts) == ts,
    decreases ts,
{
    let r = apply_tys(m, ts);
    assert forall|i: int| 0 <= i < ts.len() implies #[trigger] r[i] == ts[i] by {
        assert(normal(ts[i]));
        assert forall|v: TyVar| #[trigger] occurs(v, ts[i]) implies !m.dom().contains(v) by {
            assert(occurs_in_tys(v, ts));
        }
        lemma_apply_fixpoint(m, ts[i]);
    }
    assert(r =~= ts);
}

/// Normal fields without solved variables are left as they are.
pub proof fn lemma_apply_fields_fixpoint(m: SubstMap, fs: Seq<FieldV>)
    requires
        acyclic(m),
        normal_fields(fs),
        forall|v: TyVar| #[trigger] occurs_in_fields(v, fs) ==> !m.dom().contains(v),
    ensures
        apply_fields(m, fs) == fs,
    decreases fs,
{
    let r = apply_fields(m, fs);
    assert forall|i: int| 0 <= i < fs.len() implies #[trigger] r[i] == fs[i] by {
        assert(normal(fs[i].1));
        assert forall|v: TyVar| #[trigger] occurs(v, fs[i].1) implies !m.dom().contains(v) by {
            assert(occurs_in_fields(v, fs));
        }
        assert(decreases_to!(fs => fs[i]));
        lemma_apply_fixpoint(m, fs[i].1);
    }
    assert(r =~= fs);
}

proof fn lemma_apply_constraints_fixpoint(m: SubstMap, cs: Seq<ConstraintV>)
    requires
        acyclic(m),
        normal_constraints(cs),
        forall|v: TyVar| #[trigger] occurs_in_constraints(v, cs) ==> !m.dom().contains(v),
    ensures
        apply_constraints(m, cs) == cs,
    decreases cs,
{
    if cs.len() > 0 {
        let d = cs.drop_last();
        let c = cs.last();
        assert(cs[cs.len() - 1] == c);
        assert forall|v: TyVar| #[trigger] occurs_in_constraints(v, d) implies !m.dom().contains(
            v,
        ) by {
            let k = choose|k: int|
                0 <= k < d.len() && ((#[trigger] d[k]).var == v || occurs_in_tys(v, d[k].args));
            assert(cs[k] == d[k]);
            assert(occurs_in_constraints(v, cs));
        }
        assert forall|i: int| 0 <= i < d.len() implies normal_tys((#[trigger] d[i]).args) by {
            assert(cs[i] == d[i]);
        }
        lemma_apply_constraints_fixpoint(m, d);
        assert(occurs_in_constraints(c.var, cs));
        assert forall|v: TyVar| #[trigger] occurs_in_tys(v, c.args) implies !m.dom().contains(
            v,
        ) by {
            assert(occurs_in_constraints(v, cs));
        }
        lemma_apply_tys_fixpoint(m, c.args);
        assert(cs =~= d.push(c));
    } else {
        assert(apply_constraints(m, cs) =~= cs);
    }
}

/// Applying a substitution a second time changes nothing.
pub proof fn law_apply_idempotent(m: SubstMap, t: TyV)
    requires
        acyclic(m),
    ensures
        apply(m, apply(m, t)) == apply(m, t),
{
    let r = apply(m, t);
    law_apply_normal(m, t);
    assert forall|v: TyVar| #[trigger] occurs(v, r) implies !m.dom().contains(v) by {
        if m.dom().contains(v) {
            law_apply_eliminates(m, t, v);
        }
    }
    lemma_apply_fixpoint(m, r);
}

// ---------------------------------------------------------------------------
// Applying a substitution and then one that extends it
// ---------------------------------------------------------------------------

/// `m2` says what `m` says and may say more: resolving by `m` first makes no
/// difference to what `m2` gives.
pub open spec fn refines(m: SubstMap, m2: SubstMap) -> bool {
    forall|t: TyV| apply(m2, #[trigger] apply(m, t)) == apply(m2, t)
}

proof fn lemma_apply_fields_push(m: SubstMap, fs: Seq<FieldV>, f: FieldV)
    requires
        acyclic(m),
    ensures
        apply_fields(m, fs.push(f)) == apply_fields(m, fs).push((f.0, apply(m, f.1))),
{
    assert(apply_fields(m, fs.push(f)) =~= apply_fields(m, fs).push((f.0, apply(m, f.1))));
}

/// Resolving fields and then listing them together, or the other way round.
pub proof fn lemma_apply_fields_concat(m: SubstMap, a: Seq<FieldV>, b: Seq<FieldV>)
    requires
        acyclic(m),
    ensures
        apply_fields(m, a + b) == apply_fields(m, a) + apply_fields(m, b),
{
    assert(apply_fields(m, a + b) =~= apply_fields(m, a) + apply_fields(m, b));
}

proof fn lemma_apply_insert(m: SubstMap, s: Seq<FieldV>, f: FieldV)
    requires
        acyclic(m),
    ensures
        apply_fields(m, insert_field(s, f)) == insert_field(
            apply_fields(m, s),
            (f.0, apply(m, f.1)),
        ),
    decreases s.len(),
{
    let g = (f.0, apply(m, f.1));
    let ps = apply_fields(m, s);
    if s.len() == 0 {
        assert(apply_fields(m, seq![f]) =~= seq![g]);
    } else {
        assert(ps.last() == (s.last().0, apply(m, s.last().1)));
        assert(ps.drop_last() =~= apply_fields(m, s.drop_last()));
        if crate::text::lex_less(f.0, s.last().0) {
            lemma_apply_insert(m, s.drop_last(), f);
            lemma_apply_fields_push(m, insert_field(s.drop_last(), f), s.last());
        } else {
            lemma_apply_fields_push(m, s, f);
        }
    }
}

/// Resolving fields does not change their order.
pub proof fn lemma_apply_sort(m: SubstMap, s: Seq<FieldV>)
    requires
        acyclic(m),
    ensures
        apply_fields(m, sort_fields(s)) == sort_fields(apply_fields(m, s)),
    decreases s.len(),
{
    let ps = apply_fields(m, s);
    if s.len() == 0 {
        assert(ps =~= s);
    } else {
        assert(ps.drop_last() =~= apply_fields(m, s.drop_last()));
        assert(ps.last() == (s.last().0, apply(m, s.last().1)));
        lemma_apply_sort(m, s.drop_last());
        lemma_apply_insert(m, sort_fields(s.drop_last()), s.last());
    }
}

/// Flattening resolved parts gives what resolving the flattened record gives.
pub proof fn lemma_apply_flat(m: SubstMap, fields: Seq<FieldV>, tail: TyV)
    requires
        acyclic(m),
    ensures
        apply(m, flat_record(fields, tail)) == flat_record(apply_fields(m, fields), apply(m, tail)),
{
    let g = apply_fields(m, fields);
    let w = apply(m, tail);
    match tail {
        TyV::Record(inner) => {
            let h = apply_fields(m, inner.fields);
            let x = apply(m, *inner.tail);
            lemma_apply_fields_concat(m, fields, inner.fields);
            lemma_apply_sort(m, fields + inner.fields);
            assert(w == flat_record(h, x));
            lemma_flat_sorted(g + h, x);
            lemma_flat_flat(g, h, x);
        },
        _ => {
            lemma_apply_sort(m, fields);
            lemma_flat_sorted(g, w);
        },
    }
}

/// Sorting before flattening makes no difference.
pub proof fn lemma_flat_sorted(fields: Seq<FieldV>, tail: TyV)
    ensures
        flat_record(sort_fields(fields), tail) == flat_record(fields, tail),
{
    match tail {
        TyV::Record(inner) => {
            lemma_sort_front(fields, inner.fields);
        },
        _ => {
            law_sort_fields_sorted(fields);
            law_sort_fields_idempotent(sort_fields(fields));
        },
    }
}

/// Flattening in two steps, or in one.
pub proof fn lemma_flat_flat(a: Seq<FieldV>, b: Seq<FieldV>, tail: TyV)
    ensures
        flat_record(a, flat_record(b, tail)) == flat_record(a + b, tail),
{
    match tail {
        TyV::Record(inner) => {
            lemma_sort_back(a, b + inner.fields);
            assert(a + (b + inner.fields) =~= (a + b) + inner.fields);
        },
        _ => {
            lemma_sort_back(a, b);
        },
    }
}

/// Solving one more variable refines a substitution.
pub proof fn law_bind_refines(m: SubstMap, v: TyVar, r: TyV)
    requires
        acyclic(m),
        acyclic(m.insert(v, r)),
        !m.dom().contains(v),
    ensures
        refines(m, m.insert(v, r)),
{
    assert forall|t: TyV| apply(m.insert(v, r), #[trigger] apply(m, t)) == apply(
        m.insert(v, r),
        t,
    ) by {
        lemma_extend_absorbs(m, m.insert(v, r), t);
    }
}

/// `m2` keeps all that `m` has solved.
pub open spec fn extends(m: SubstMap, m2: SubstMap) -> bool {
    forall|v: TyVar| #[trigger] m.dom().contains(v) ==> m2.dom().contains(v) && m2[v] == m[v]
}

/// What a substitution resolves, one that keeps all of it resolves alike.
pub proof fn lemma_extend_absorbs(m: SubstMap, m2: SubstMap, t: TyV)
    requires
        acyclic(m),
        acyclic(m2),
        extends(m, m2),
    ensures
        apply(m2, apply(m, t)) == apply(m2, t),
    decreases height(rank(m), m.dom(), t), t,
{
    match t {
        TyV::Var(w) => {
            if m.dom().contains(w) {
                lemma_solved_height(m, w);
                lemma_extend_absorbs(m, m2, m[w]);
            }
        },
        TyV::Qualified(cs, inner) => {
            lemma_extend_constraints(m, m2, cs);
            lemma_extend_absorbs(m, m2, *inner);
        },
        TyV::Tuple(ts) => {
            lemma_extend_tys(m, m2, ts);
        },
        TyV::Func(ps, ret) => {
            lemma_extend_absorbs(m, m2, *ret.ty);
            lemma_params_height(rank(m), m.dom(), ps);
            let a = apply_params(m2, apply_params(m, ps));
            let b = apply_params(m2, ps);
            assert forall|i: int| 0 <= i < ps.len() implies #[trigger] a[i] == b[i] by {
                lemma_extend_absorbs(m, m2, ps[i].ty);
            }
            assert(a =~= b);
        },
        TyV::App(con, args) => {
            lemma_extend_absorbs(m, m2, *con);
            lemma_extend_tys(m, m2, args);
        },
        TyV::Record(row) => {
            lemma_extend_absorbs(m, m2, *row.tail);
            let fs = row.fields;
            lemma_fields_height(rank(m), m.dom(), fs);
            let a = apply_fields(m2, apply_fields(m, fs));
            let b = apply_fields(m2, fs);
            assert forall|i: int| 0 <= i < fs.len() implies #[trigger] a[i] == b[i] by {
                lemma_extend_absorbs(m, m2, fs[i].1);
            }
            assert(a =~= b);
            lemma_apply_flat(m2, apply_fields(m, fs), apply(m, *row.tail));
        },
        _ => {},
    }
}

proof fn lemma_extend_tys(m: SubstMap, m2: SubstMap, ts: Seq<TyV>)
    requires
        acyclic(m),
        acyclic(m2),
        extends(m, m2),
    ensures
        apply_tys(m2, apply_tys(m, ts)) == apply_tys(m2, ts),
    decreases tys_height(rank(m), m.dom(), ts), ts,
{
    lemma_tys_height(rank(m), m.dom(), ts);
    let a = apply_tys(m2, apply_tys(m, ts));
    let b = apply_tys(m2, ts);
    assert forall|i: int| 0 <= i < ts.len() implies #[trigger] a[i] == b[i] by {
        lemma_extend_absorbs(m, m2, ts[i]);
    }
    assert(a =~= b);
}

proof fn lemma_extend_constraints(m: SubstMap, m2: SubstMap, cs: Seq<ConstraintV>)
    requires
        acyclic(m),
        acyclic(m2),
        extends(m, m2),
    ensures
        apply_constraints(m2, apply_constraints(m, cs)) == apply_constraints(m2, cs),
    decreases constraints_height(rank(m), m.dom(), cs), cs,
{
    if cs.len() > 0 {
        let c = cs.last();
        let rest = apply_constraints(m, cs.drop_last());
        lemma_extend_constraints(m, m2, cs.drop_last());
        lemma_extend_tys(m, m2, c.args);
        let once = if m.dom().contains(c.var) {
            apply(m, m[c.var])
        } else {
            TyV::Var(c.var)
        };
        if m.dom().contains(c.var) {
            lemma_solved_height(m, c.var);
            lemma_extend_absorbs(m, m2, m[c.var]);
        }
        match once {
            TyV::Var(w) => {
                let all = apply_constraints(m, cs);
                assert(all.drop_last() =~= rest);
                assert(all.last() == ConstraintV { var: w, args: apply_tys(m, c.args), ..c });
            },
            _ => {},
        }
    }
}

} // verus!
