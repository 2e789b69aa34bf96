//! That the counter of variables only grows.

use vstd::prelude::*;

use crate::apply::{acyclic, apply};
use crate::rows::{sort_fields, FieldV};
use crate::subst::{after_fresh, bind, level_in, SubstV};
use crate::subst::TypeLevel;
use crate::ty::{ParamV, RowV, TyV, TyVar};
use crate::unify::{lemma_apply_resolved, lemma_bind_record_advances, pair_below, pair_depth};
use crate::unify::{record_tails, rows_below, split_fields, unify_args, unify_common};
use crate::unify::{unify_elements, unify_params, unify_rows, unify_tails, unify_types};
use crate::unify::{unsolved, CommonV};
use crate::unify_laws::{continues, law_unify_sound};
use crate::vars::occurs;

verus! {

/// How many variables lie between two states of the counter, which starts over after the
/// last of them.
pub open spec fn taken(s: SubstV, s2: SubstV) -> int {
    if s2.next_var >= s.next_var {
        s2.next_var - s.next_var
    } else {
        s2.next_var - s.next_var + 0x1_0000_0000
    }
}

/// From `s` to `s2` no more variables were taken than were solved, and `extra`.
pub open spec fn grown(s: SubstV, s2: SubstV, extra: nat) -> bool {
    taken(s, s2) + s.map.dom().len() <= s2.map.dom().len() + extra
}

/// A fresh variable is the next one, unless that was the last there is.
pub proof fn law_fresh_grows(s: SubstV, level: TypeLevel)
    requires
        s.next_var < u32::MAX,
    ensures
        after_fresh(s, level).next_var == s.next_var + 1,
        after_fresh(s, level).map == s.map,
{
}

/// Binding a variable takes none.
pub proof fn law_bind_keeps_counter(s: SubstV, v: TyVar, t: TyV)
    ensures
        bind(s, v, t).0.next_var == s.next_var,
{
}

proof fn lemma_bind_grows(s: SubstV, v: TyVar, t: TyV)
    requires
        s.map.dom().finite(),
    ensures
        grown(s, bind(s, v, t).0, 0),
{
    let m2 = bind(s, v, t).0.map;
    if m2 != s.map {
        assert(m2.dom() =~= s.map.dom().insert(v));
    }
}

proof fn lemma_tails_grow(
    s: SubstV,
    extras1: Seq<FieldV>,
    tail1: TyV,
    extras2: Seq<FieldV>,
    tail2: TyV,
)
    requires
        acyclic(s.map),
        s.map.dom().finite(),
        forall|v: TyVar| #[trigger] occurs(v, tail1) ==> !s.map.dom().contains(v),
    ensures
        grown(s, unify_tails(s, extras1, tail1, extras2, tail2).0, 1),
        unify_tails(s, extras1, tail1, extras2, tail2).1 is None ==> grown(
            s,
            unify_tails(s, extras1, tail1, extras2, tail2).0,
            0,
        ),
{
    match (tail1, tail2) {
        (TyV::Var(v), TyV::Unit) => {
            lemma_bind_grows(s, v, crate::unify::closed_record(extras2));
        },
        (TyV::Unit, TyV::Var(v)) => {
            lemma_bind_grows(s, v, crate::unify::closed_record(extras1));
        },
        (TyV::Var(v1), TyV::Var(v2)) => {
            if v1 != v2 {
                let shared = Box::new(TyV::Var(s.next_var));
                let s1 = after_fresh(s, level_in(s.levels, v1));
                let r1 = TyV::Record(RowV { fields: extras2, tail: shared });
                let r2 = TyV::Record(RowV { fields: extras1, tail: shared });
                let o = bind(s1, v1, r1);
                assert(taken(s, s1) == 1);
                assert(occurs(v1, tail1));
                lemma_bind_grows(s1, v1, r1);
                lemma_bind_record_advances(s1, v1, r1);
                if o.1 is None {
                    assert(o.0.map.dom().finite());
                    lemma_bind_grows(o.0, v2, r2);
                }
            }
        },
        _ => {},
    }
}

/// Unification takes no more variables than it solves, and one more at most where it
/// fails. So the counter does not go back, unless it starts over after the last variable.
pub proof fn law_unify_grows(s: SubstV, t1: TyV, t2: TyV)
    requires
        acyclic(s.map),
        s.map.dom().finite(),
    ensures
        grown(s, unify_types(s, t1, t2).0, 1),
        unify_types(s, t1, t2).1 is None ==> grown(s, unify_types(s, t1, t2).0, 0),
    decreases unsolved(s.map), pair_depth(s.map, t1, t2), 3nat, 1nat, 0nat,
{
    let u = unsolved(s.map);
    let d = pair_depth(s.map, t1, t2);
    let a = apply(s.map, t1);
    let b = apply(s.map, t2);
    match (a, b) {
        (TyV::Var(v), _) => {
            lemma_bind_grows(s, v, b);
        },
        (_, TyV::Var(v)) => {
            lemma_bind_grows(s, v, a);
        },
        (TyV::Func(p1, r1), TyV::Func(p2, r2)) => {
            if p1.len() == p2.len() {
                lemma_params_grow(s, p1, p2, p1.len(), u, d);
                let o = unify_params(s, p1, p2, p1.len(), u, d);
                if o.1 is None && pair_below(o.0.map, *r1.ty, *r2.ty, u, d) {
                    law_unify_grows(o.0, *r1.ty, *r2.ty);
                }
            }
        },
        (TyV::Tuple(ts1), TyV::Tuple(ts2)) => {
            if ts1.len() == ts2.len() {
                lemma_elements_grow(s, ts1, ts2, ts1.len(), u, d);
            }
        },
        (TyV::App(c1, a1), TyV::App(c2, a2)) => {
            if pair_below(s.map, *c1, *c2, u, d) {
                law_unify_grows(s, *c1, *c2);
                let o = unify_types(s, *c1, *c2);
                if o.1 is None && a1.len() == a2.len() {
                    law_unify_sound(s, *c1, *c2);
                    lemma_args_grow(o.0, a1, a2, a1.len(), u, d);
                }
            }
        },
        (TyV::Record(r1), TyV::Record(r2)) => {
            if rows_below(s.map, r1, r2, u, d, 3) {
                lemma_rows_grow(s, r1, r2);
            }
        },
        _ => {},
    }
}

proof fn lemma_params_grow(s: SubstV, v1: Seq<ParamV>, v2: Seq<ParamV>, n: nat, u: nat, d: nat)
    requires
        acyclic(s.map),
        s.map.dom().finite(),
    ensures
        unify_params(s, v1, v2, n, u, d).1 is None ==> continues(s, unify_params(s, v1, v2, n, u, d).0) && grown(s, unify_params(s, v1, v2, n, u, d).0, 0),
        grown(s, unify_params(s, v1, v2, n, u, d).0, 1),
    decreases u, d, 3nat, 0nat, n,
{
    if n > 0 {
        let i = n - 1;
        lemma_params_grow(s, v1, v2, (n - 1) as nat, u, d);
        let o = unify_params(s, v1, v2, (n - 1) as nat, u, d);
        if o.1 is None && pair_below(o.0.map, v1[i].ty, v2[i].ty, u, d) {
            law_unify_grows(o.0, v1[i].ty, v2[i].ty);
            if unify_types(o.0, v1[i].ty, v2[i].ty).1 is None {
                law_unify_sound(o.0, v1[i].ty, v2[i].ty);
            }
        }
    }
}

proof fn lemma_elements_grow(s: SubstV, v1: Seq<TyV>, v2: Seq<TyV>, n: nat, u: nat, d: nat)
    requires
        acyclic(s.map),
        s.map.dom().finite(),
    ensures
        unify_elements(s, v1, v2, n, u, d).1 is None ==> continues(s, unify_elements(s, v1, v2, n, u, d).0) && grown(s, unify_elements(s, v1, v2, n, u, d).0, 0),
        grown(s, unify_elements(s, v1, v2, n, u, d).0, 1),
    decreases u, d, 3nat, 0nat, n,
{
    if n > 0 {
        let i = n - 1;
        lemma_elements_grow(s, v1, v2, (n - 1) as nat, u, d);
        let o = unify_elements(s, v1, v2, (n - 1) as nat, u, d);
        if o.1 is None && pair_below(o.0.map, v1[i], v2[i], u, d) {
            law_unify_grows(o.0, v1[i], v2[i]);
            if unify_types(o.0, v1[i], v2[i]).1 is None {
                law_unify_sound(o.0, v1[i], v2[i]);
            }
        }
    }
}

proof fn lemma_args_grow(s: SubstV, v1: Seq<TyV>, v2: Seq<TyV>, n: nat, u: nat, d: nat)
    requires
        acyclic(s.map),
        s.map.dom().finite(),
    ensures
        unify_args(s, v1, v2, n, u, d).1 is None ==> continues(s, unify_args(s, v1, v2, n, u, d).0) && grown(s, unify_args(s, v1, v2, n, u, d).0, 0),
        grown(s, unify_args(s, v1, v2, n, u, d).0, 1),
    decreases u, d, 3nat, 0nat, n,
{
    if n > 0 {
        let i = n - 1;
        lemma_args_grow(s, v1, v2, (n - 1) as nat, u, d);
        let o = unify_args(s, v1, v2, (n - 1) as nat, u, d);
        if o.1 is None && pair_below(o.0.map, v1[i], v2[i], u, d) {
            law_unify_grows(o.0, v1[i], v2[i]);
            if unify_types(o.0, v1[i], v2[i]).1 is None {
                law_unify_sound(o.0, v1[i], v2[i]);
            }
        }
    }
}

proof fn lemma_common_grow(s: SubstV, v: Seq<CommonV>, n: nat, u: nat, d: nat, k: nat)
    requires
        acyclic(s.map),
        s.map.dom().finite(),
    ensures
        unify_common(s, v, n, u, d, k).1 is None ==> continues(s, unify_common(s, v, n, u, d, k).0) && grown(s, unify_common(s, v, n, u, d, k).0, 0),
        grown(s, unify_common(s, v, n, u, d, k).0, 1),
    decreases u, d, k, 0nat, n,
{
    if n > 0 {
        let i = n - 1;
        lemma_common_grow(s, v, (n - 1) as nat, u, d, k);
        let o = unify_common(s, v, (n - 1) as nat, u, d, k);
        if o.1 is None && pair_below(o.0.map, v[i].1, v[i].2, u, d) {
            law_unify_grows(o.0, v[i].1, v[i].2);
            if unify_types(o.0, v[i].1, v[i].2).1 is None {
                law_unify_sound(o.0, v[i].1, v[i].2);
            }
        }
    }
}

proof fn lemma_rows_grow(s: SubstV, r1: RowV, r2: RowV)
    requires
        acyclic(s.map),
        s.map.dom().finite(),
    ensures
        grown(s, unify_rows(s, r1, r2).0, 1),
        unify_rows(s, r1, r2).1 is None ==> grown(s, unify_rows(s, r1, r2).0, 0),
    decreases
        unsolved(s.map),
        pair_depth(s.map, TyV::Record(r1), TyV::Record(r2)),
        record_tails(s.map, r1, r2),
        1nat,
        0nat,
{
    let u = unsolved(s.map);
    let d = pair_depth(s.map, TyV::Record(r1), TyV::Record(r2));
    let k = record_tails(s.map, r1, r2);
    let split = split_fields(r1.fields, r2.fields);
    lemma_common_grow(s, split.common, split.common.len(), u, d, k);
    let o = unify_common(s, split.common, split.common.len(), u, d, k);
    if o.1 is None {
        let tail1 = apply(o.0.map, *r1.tail);
        let tail2 = apply(o.0.map, *r2.tail);
        match (tail1, tail2) {
            (TyV::Record(row1), _) => {
                let n1 = RowV { fields: sort_fields(row1.fields + split.extras1), tail: row1.tail };
                let n2 = RowV { fields: split.extras2, tail: Box::new(tail2) };
                if rows_below(o.0.map, n1, n2, u, d, k) {
                    lemma_rows_grow(o.0, n1, n2);
                }
            },
            (_, TyV::Record(row2)) => {
                let n1 = RowV { fields: split.extras1, tail: Box::new(tail1) };
                let n2 = RowV { fields: sort_fields(row2.fields + split.extras2), tail: row2.tail };
                if rows_below(o.0.map, n1, n2, u, d, k) {
                    lemma_rows_grow(o.0, n1, n2);
                }
            },
            _ => {
                lemma_apply_resolved(o.0.map, *r1.tail);
                lemma_tails_grow(o.0, split.extras1, tail1, split.extras2, tail2);
            },
        }
    }
}

/// As long as the variables last, unification does not lower the counter.
pub proof fn law_unify_never_lowers_counter(s: SubstV, t1: TyV, t2: TyV)
    requires
        acyclic(s.map),
        s.map.dom().finite(),
        s.next_var + unify_types(s, t1, t2).0.map.dom().len() - s.map.dom().len() < u32::MAX,
    ensures
        s.next_var <= unify_types(s, t1, t2).0.next_var,
{
    law_unify_grows(s, t1, t2);
}

/// Going back to what was solved at some earlier state resolves every type as it was
/// resolved then, while the counter stays where it is: the variables that were handed out
/// since are not handed out again.
pub proof fn law_restored_keeps_counter(s: SubstV, now: SubstV, t: TyV)
    ensures
        apply((SubstV { map: s.map, ..now }).map, t) == apply(s.map, t),
        (SubstV { map: s.map, ..now }).next_var == now.next_var,
{
}

} // verus!
