//! That nothing which has been solved is ever lost: what solving more keeps.

use vstd::prelude::*;

use crate::apply::{acyclic, apply, extends, SubstMap};
use crate::rows::{sort_fields, FieldV};
use crate::subst::{after_fresh, bind, law_bind_keeps_acyclic, level_in, SubstV};
use crate::ty::{ParamV, RowV, TyV, TyVar};
use crate::unify::{closed_record, lemma_apply_resolved, pair_below, pair_depth, record_tails};
use crate::unify::{rows_below, split_fields, unify_args, unify_common, unify_elements};
use crate::unify::{unify_params, unify_rows, unify_tails, unify_types, unsolved, CommonV};
use crate::unify_laws::law_unify_sound;
use crate::vars::occurs;

verus! {

/// The solved variables do not go round in circles, and there are finitely many.
pub open spec fn solvable(m: SubstMap) -> bool {
    acyclic(m) && m.dom().finite()
}

/// Whatever `m` has solved, `m2` has solved alike.
#[verifier::opaque]
pub open spec fn grows(m: SubstMap, m2: SubstMap) -> bool {
    solvable(m) ==> solvable(m2) && extends(m, m2)
}

/// A substitution has solved what it has solved.
pub broadcast proof fn lemma_grows_reflexive(m: SubstMap)
    ensures
        #[trigger] grows(m, m),
{
    reveal(grows);
}

/// What is kept twice is kept.
pub broadcast proof fn lemma_grows_transitive(a: SubstMap, b: SubstMap, c: SubstMap)
    requires
        #[trigger] grows(a, b),
        #[trigger] grows(b, c),
    ensures
        grows(a, c),
{
    reveal(grows);
}

proof fn lemma_bind_keeps(s: SubstV, v: TyVar, t: TyV)
    requires
        solvable(s.map),
        !s.map.dom().contains(v),
    ensures
        solvable(bind(s, v, t).0.map),
        extends(s.map, bind(s, v, t).0.map),
        forall|w: TyVar|
            bind(s, v, t).0.map.dom().contains(w) ==> w == v || s.map.dom().contains(w),
{
    let m2 = bind(s, v, t).0.map;
    if m2 != s.map {
        law_bind_keeps_acyclic(s.map, v, t);
        assert(m2.dom() =~= s.map.dom().insert(v));
    }
}

proof fn lemma_tails_keep(
    s: SubstV,
    extras1: Seq<FieldV>,
    tail1: TyV,
    extras2: Seq<FieldV>,
    tail2: TyV,
)
    requires
        solvable(s.map),
        forall|v: TyVar| #[trigger] occurs(v, tail1) ==> !s.map.dom().contains(v),
        forall|v: TyVar| #[trigger] occurs(v, tail2) ==> !s.map.dom().contains(v),
    ensures
        solvable(unify_tails(s, extras1, tail1, extras2, tail2).0.map),
        extends(s.map, unify_tails(s, extras1, tail1, extras2, tail2).0.map),
{
    match (tail1, tail2) {
        (TyV::Var(v), TyV::Unit) => {
            assert(occurs(v, tail1));
            lemma_bind_keeps(s, v, closed_record(extras2));
        },
        (TyV::Unit, TyV::Var(v)) => {
            assert(occurs(v, tail2));
            lemma_bind_keeps(s, v, closed_record(extras1));
        },
        (TyV::Var(v1), TyV::Var(v2)) => {
            if v1 != v2 {
                let shared = Box::new(TyV::Var(s.next_var));
                let s1 = after_fresh(s, level_in(s.levels, v1));
                let r1 = TyV::Record(RowV { fields: extras2, tail: shared });
                let r2 = TyV::Record(RowV { fields: extras1, tail: shared });
                let o = bind(s1, v1, r1);
                assert(occurs(v1, tail1));
                assert(occurs(v2, tail2));
                lemma_bind_keeps(s1, v1, r1);
                if o.1 is None {
                    lemma_bind_keeps(o.0, v2, r2);
                }
            }
        },
        _ => {},
    }
}

/// Unification loses nothing that was solved, whether it succeeds or not.
pub proof fn law_unify_keeps(s: SubstV, t1: TyV, t2: TyV)
    requires
        solvable(s.map),
    ensures
        solvable(unify_types(s, t1, t2).0.map),
        extends(s.map, unify_types(s, t1, t2).0.map),
    decreases unsolved(s.map), pair_depth(s.map, t1, t2), 3nat, 1nat, 0nat,
{
    let u = unsolved(s.map);
    let d = pair_depth(s.map, t1, t2);
    let a = apply(s.map, t1);
    let b = apply(s.map, t2);
    lemma_apply_resolved(s.map, t1);
    lemma_apply_resolved(s.map, t2);
    match (a, b) {
        (TyV::Var(v), _) => {
            assert(occurs(v, a));
            lemma_bind_keeps(s, v, b);
        },
        (_, TyV::Var(v)) => {
            assert(occurs(v, b));
            lemma_bind_keeps(s, v, a);
        },
        (TyV::Func(p1, r1), TyV::Func(p2, r2)) => {
            if p1.len() == p2.len() {
                lemma_params_keep(s, p1, p2, p1.len(), u, d);
                let o = unify_params(s, p1, p2, p1.len(), u, d);
                if o.1 is None && pair_below(o.0.map, *r1.ty, *r2.ty, u, d) {
                    law_unify_keeps(o.0, *r1.ty, *r2.ty);
                }
            }
        },
        (TyV::Tuple(ts1), TyV::Tuple(ts2)) => {
            if ts1.len() == ts2.len() {
                lemma_elements_keep(s, ts1, ts2, ts1.len(), u, d);
            }
        },
        (TyV::App(c1, a1), TyV::App(c2, a2)) => {
            if pair_below(s.map, *c1, *c2, u, d) {
                law_unify_keeps(s, *c1, *c2);
                let o = unify_types(s, *c1, *c2);
                if o.1 is None && a1.len() == a2.len() {
                    law_unify_sound(s, *c1, *c2);
                    lemma_args_keep(o.0, a1, a2, a1.len(), u, d);
                }
            }
        },
        (TyV::Record(r1), TyV::Record(r2)) => {
            if rows_below(s.map, r1, r2, u, d, 3) {
                lemma_rows_keep_solved(s, r1, r2);
            }
        },
        _ => {},
    }
}

proof fn lemma_params_keep(s: SubstV, v1: Seq<ParamV>, v2: Seq<ParamV>, n: nat, u: nat, d: nat)
    requires
        solvable(s.map),
    ensures
        solvable(unify_params(s, v1, v2, n, u, d).0.map),
        extends(s.map, unify_params(s, v1, v2, n, u, d).0.map),
    decreases u, d, 3nat, 0nat, n,
{
    if n > 0 {
        let i = n - 1;
        lemma_params_keep(s, v1, v2, (n - 1) as nat, u, d);
        let o = unify_params(s, v1, v2, (n - 1) as nat, u, d);
        if o.1 is None && pair_below(o.0.map, v1[i].ty, v2[i].ty, u, d) {
            law_unify_keeps(o.0, v1[i].ty, v2[i].ty);
        }
    }
}

proof fn lemma_elements_keep(s: SubstV, v1: Seq<TyV>, v2: Seq<TyV>, n: nat, u: nat, d: nat)
    requires
        solvable(s.map),
    ensures
        solvable(unify_elements(s, v1, v2, n, u, d).0.map),
        extends(s.map, unify_elements(s, v1, v2, n, u, d).0.map),
    decreases u, d, 3nat, 0nat, n,
{
    if n > 0 {
        let i = n - 1;
        lemma_elements_keep(s, v1, v2, (n - 1) as nat, u, d);
        let o = unify_elements(s, v1, v2, (n - 1) as nat, u, d);
        if o.1 is None && pair_below(o.0.map, v1[i], v2[i], u, d) {
            law_unify_keeps(o.0, v1[i], v2[i]);
        }
    }
}

proof fn lemma_args_keep(s: SubstV, v1: Seq<TyV>, v2: Seq<TyV>, n: nat, u: nat, d: nat)
    requires
        solvable(s.map),
    ensures
        solvable(unify_args(s, v1, v2, n, u, d).0.map),
        extends(s.map, unify_args(s, v1, v2, n, u, d).0.map),
    decreases u, d, 3nat, 0nat, n,
{
    if n > 0 {
        let i = n - 1;
        lemma_args_keep(s, v1, v2, (n - 1) as nat, u, d);
        let o = unify_args(s, v1, v2, (n - 1) as nat, u, d);
        if o.1 is None && pair_below(o.0.map, v1[i], v2[i], u, d) {
            law_unify_keeps(o.0, v1[i], v2[i]);
        }
    }
}

proof fn lemma_common_keep(s: SubstV, v: Seq<CommonV>, n: nat, u: nat, d: nat, k: nat)
    requires
        solvable(s.map),
    ensures
        solvable(unify_common(s, v, n, u, d, k).0.map),
        extends(s.map, unify_common(s, v, n, u, d, k).0.map),
    decreases u, d, k, 0nat, n,
{
    if n > 0 {
        let i = n - 1;
        lemma_common_keep(s, v, (n - 1) as nat, u, d, k);
        let o = unify_common(s, v, (n - 1) as nat, u, d, k);
        if o.1 is None && pair_below(o.0.map, v[i].1, v[i].2, u, d) {
            law_unify_keeps(o.0, v[i].1, v[i].2);
        }
    }
}

proof fn lemma_rows_keep_solved(s: SubstV, r1: RowV, r2: RowV)
    requires
        solvable(s.map),
    ensures
        solvable(unify_rows(s, r1, r2).0.map),
        extends(s.map, unify_rows(s, r1, r2).0.map),
    decreases
        unsolved(s.map),
        pair_depth(s.map, TyV::Record(r1), TyV::Record(r2)),
        record_tails(s.map, r1, r2),
        1nat,
        0nat,
{
    let u = unsolved(s.map);
    let d = pair_depth(s.map, TyV::Record(r1), TyV::Record(r2));
    let k = record_tails(s.map, r1, r2);
    let split = split_fields(r1.fields, r2.fields);
    lemma_common_keep(s, split.common, split.common.len(), u, d, k);
    let o = unify_common(s, split.common, split.common.len(), u, d, k);
    if o.1 is None {
        let tail1 = apply(o.0.map, *r1.tail);
        let tail2 = apply(o.0.map, *r2.tail);
        match (tail1, tail2) {
            (TyV::Record(row1), _) => {
                let n1 = RowV { fields: sort_fields(row1.fields + split.extras1), tail: row1.tail };
                let n2 = RowV { fields: split.extras2, tail: Box::new(tail2) };
                if rows_below(o.0.map, n1, n2, u, d, k) {
                    lemma_rows_keep_solved(o.0, n1, n2);
                }
            },
            (_, TyV::Record(row2)) => {
                let n1 = RowV { fields: split.extras1, tail: Box::new(tail1) };
                let n2 = RowV { fields: sort_fields(row2.fields + split.extras2), tail: row2.tail };
                if rows_below(o.0.map, n1, n2, u, d, k) {
                    lemma_rows_keep_solved(o.0, n1, n2);
                }
            },
            _ => {
                lemma_apply_resolved(o.0.map, *r1.tail);
                lemma_apply_resolved(o.0.map, *r2.tail);
                lemma_tails_keep(o.0, split.extras1, tail1, split.extras2, tail2);
            },
        }
    }
}

/// Unification keeps what is solved.
pub proof fn lemma_unify_grows(s: SubstV, t1: TyV, t2: TyV)
    ensures
        grows(s.map, unify_types(s, t1, t2).0.map),
{
    reveal(grows);
    if solvable(s.map) {
        law_unify_keeps(s, t1, t2);
    }
}

} // verus!
