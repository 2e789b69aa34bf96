//! Which form types have that were made equal.

use vstd::prelude::*;

use crate::apply::{acyclic, apply, apply_tys, extends, lemma_apply_fixpoint};
use crate::apply::{lemma_extend_absorbs, SubstMap};
use crate::subst::SubstV;
use crate::ty::TyV;
use crate::unify::{lemma_apply_resolved, lemma_resolved_parts, pair_below, pair_depth};
use crate::unify::{unify_args, unify_elements, unify_types, unsolved};
use crate::unify_laws::{law_unify_sound, lemma_args_sound, lemma_bind_sound};
use crate::unify_laws::lemma_elements_sound;
use crate::vars::occurs;

verus! {

/// Whether two types have the same form: they are equal but for what is inside of functions
/// and records.
pub open spec fn alike(a: TyV, b: TyV) -> bool
    decreases a,
{
    match (a, b) {
        (TyV::Tuple(x), TyV::Tuple(y)) => x.len() == y.len() && forall|i: int|
            0 <= i < x.len() ==> alike(#[trigger] x[i], y[i]),
        (TyV::App(c, x), TyV::App(d, y)) => alike(*c, *d) && x.len() == y.len() && forall|i: int|
            0 <= i < x.len() ==> alike(#[trigger] x[i], y[i]),
        (TyV::Func(_, _), TyV::Func(_, _)) => true,
        (TyV::Record(_), TyV::Record(_)) => true,
        _ => a == b,
    }
}

/// A type has its own form.
pub proof fn lemma_alike_reflexive(a: TyV)
    ensures
        alike(a, a),
    decreases a,
{
    match a {
        TyV::Tuple(x) => {
            assert forall|i: int| 0 <= i < x.len() implies alike(#[trigger] x[i], x[i]) by {
                lemma_alike_reflexive(x[i]);
            }
        },
        TyV::App(c, x) => {
            lemma_alike_reflexive(*c);
            assert forall|i: int| 0 <= i < x.len() implies alike(#[trigger] x[i], x[i]) by {
                lemma_alike_reflexive(x[i]);
            }
        },
        _ => {},
    }
}

/// That two types have the same form does not hang on their order.
pub proof fn lemma_alike_symmetric(a: TyV, b: TyV)
    requires
        alike(a, b),
    ensures
        alike(b, a),
    decreases a,
{
    match (a, b) {
        (TyV::Tuple(x), TyV::Tuple(y)) => {
            assert forall|i: int| 0 <= i < y.len() implies alike(#[trigger] y[i], x[i]) by {
                lemma_alike_symmetric(x[i], y[i]);
            }
        },
        (TyV::App(c, x), TyV::App(d, y)) => {
            lemma_alike_symmetric(*c, *d);
            assert forall|i: int| 0 <= i < y.len() implies alike(#[trigger] y[i], x[i]) by {
                lemma_alike_symmetric(x[i], y[i]);
            }
        },
        _ => {},
    }
}

/// Types of one form keep it when more is solved.
pub proof fn lemma_alike_applied(m: SubstMap, a: TyV, b: TyV)
    requires
        acyclic(m),
        alike(a, b),
    ensures
        alike(apply(m, a), apply(m, b)),
    decreases a,
{
    match (a, b) {
        (TyV::Tuple(x), TyV::Tuple(y)) => {
            let (p, q) = (apply_tys(m, x), apply_tys(m, y));
            assert forall|i: int| 0 <= i < p.len() implies alike(#[trigger] p[i], q[i]) by {
                lemma_alike_applied(m, x[i], y[i]);
            }
        },
        (TyV::App(c, x), TyV::App(d, y)) => {
            lemma_alike_applied(m, *c, *d);
            let (p, q) = (apply_tys(m, x), apply_tys(m, y));
            assert forall|i: int| 0 <= i < p.len() implies alike(#[trigger] p[i], q[i]) by {
                lemma_alike_applied(m, x[i], y[i]);
            }
        },
        (TyV::Func(_, _), TyV::Func(_, _)) => {},
        (TyV::Record(_), TyV::Record(_)) => {},
        _ => {
            lemma_alike_reflexive(apply(m, a));
        },
    }
}

/// Types that have one form as far as they are solved keep it.
pub proof fn lemma_alike_later(m: SubstMap, m2: SubstMap, a: TyV, b: TyV)
    requires
        acyclic(m),
        acyclic(m2),
        extends(m, m2),
        alike(apply(m, a), apply(m, b)),
    ensures
        alike(apply(m2, a), apply(m2, b)),
{
    lemma_alike_applied(m2, apply(m, a), apply(m, b));
    lemma_extend_absorbs(m, m2, a);
    lemma_extend_absorbs(m, m2, b);
}

/// Unification that succeeds gives the two types one form, whatever records they hold.
pub proof fn law_unify_makes_alike(s: SubstV, t1: TyV, t2: TyV)
    requires
        acyclic(s.map),
        s.map.dom().finite(),
        unify_types(s, t1, t2).1 is None,
    ensures
        alike(apply(unify_types(s, t1, t2).0.map, t1), apply(unify_types(s, t1, t2).0.map, t2)),
    decreases unsolved(s.map), pair_depth(s.map, t1, t2), 3nat, 1nat, 0nat,
{
    let m = s.map;
    let u = unsolved(m);
    let d = pair_depth(m, t1, t2);
    let a = apply(m, t1);
    let b = apply(m, t2);
    let o = unify_types(s, t1, t2);
    let m2 = o.0.map;
    law_unify_sound(s, t1, t2);
    lemma_apply_resolved(m, t1);
    lemma_apply_resolved(m, t2);
    lemma_resolved_parts(m, a);
    lemma_resolved_parts(m, b);
    lemma_apply_fixpoint(m, a);
    lemma_apply_fixpoint(m, b);
    match (a, b) {
        (TyV::Var(v), _) => {
            assert(occurs(v, a));
            lemma_bind_sound(s, v, b);
            lemma_alike_reflexive(apply(m2, b));
        },
        (_, TyV::Var(v)) => {
            assert(occurs(v, b));
            lemma_bind_sound(s, v, a);
            lemma_alike_reflexive(apply(m2, a));
        },
        (TyV::Tuple(x), TyV::Tuple(y)) => {
            lemma_elements_alike(s, x, y, x.len(), m, u, d);
            let (p, q) = (apply_tys(m2, x), apply_tys(m2, y));
            assert forall|i: int| 0 <= i < p.len() implies alike(#[trigger] p[i], q[i]) by {
                assert(alike(apply(m2, x[i]), apply(m2, y[i])));
            }
        },
        (TyV::App(c, x), TyV::App(e, y)) => {
            assert(pair_below(m, *c, *e, u, d));
            let o1 = unify_types(s, *c, *e);
            law_unify_makes_alike(s, *c, *e);
            law_unify_sound(s, *c, *e);
            lemma_args_sound(o1.0, x, y, x.len(), m, u, d);
            lemma_args_alike(o1.0, x, y, x.len(), m, u, d);
            lemma_alike_later(o1.0.map, m2, *c, *e);
            let (p, q) = (apply_tys(m2, x), apply_tys(m2, y));
            assert forall|i: int| 0 <= i < p.len() implies alike(#[trigger] p[i], q[i]) by {
                assert(alike(apply(m2, x[i]), apply(m2, y[i])));
            }
        },
        _ => {
            lemma_alike_applied(m2, a, b);
        },
    }
    lemma_extend_absorbs(m, m2, t1);
    lemma_extend_absorbs(m, m2, t2);
}

proof fn lemma_elements_alike(
    s: SubstV,
    v1: Seq<TyV>,
    v2: Seq<TyV>,
    n: nat,
    m: SubstMap,
    u: nat,
    d: nat,
)
    requires
        acyclic(s.map),
        s.map.dom().finite(),
        n <= v1.len(),
        v1.len() == v2.len(),
        unsolved(m) == u,
        s.map == m || unsolved(s.map) < u,
        forall|i: int| 0 <= i < v1.len() ==> pair_depth(m, (#[trigger] v1[i]), v2[i]) < d,
        unify_elements(s, v1, v2, n, u, d).1 is None,
    ensures
        forall|i: int|
            0 <= i < n ==> alike(
                apply(unify_elements(s, v1, v2, n, u, d).0.map, #[trigger] v1[i]),
                apply(unify_elements(s, v1, v2, n, u, d).0.map, v2[i]),
            ),
    decreases u, d, 3nat, 0nat, n,
{
    if n > 0 {
        let k = n - 1;
        let o = unify_elements(s, v1, v2, (n - 1) as nat, u, d);
        lemma_elements_sound(s, v1, v2, (n - 1) as nat, m, u, d);
        lemma_elements_alike(s, v1, v2, (n - 1) as nat, m, u, d);
        assert(pair_depth(m, v1[k], v2[k]) < d);
        assert(pair_below(o.0.map, v1[k], v2[k], u, d));
        law_unify_sound(o.0, v1[k], v2[k]);
        law_unify_makes_alike(o.0, v1[k], v2[k]);
        let m2 = unify_elements(s, v1, v2, n, u, d).0.map;
        assert forall|i: int| 0 <= i < n implies alike(
            apply(m2, #[trigger] v1[i]),
            apply(m2, v2[i]),
        ) by {
            if i < k {
                lemma_alike_later(o.0.map, m2, v1[i], v2[i]);
            }
        }
    }
}

proof fn lemma_args_alike(
    s: SubstV,
    v1: Seq<TyV>,
    v2: Seq<TyV>,
    n: nat,
    m: SubstMap,
    u: nat,
    d: nat,
)
    requires
        acyclic(s.map),
        s.map.dom().finite(),
        n <= v1.len(),
        v1.len() == v2.len(),
        unsolved(m) == u,
        s.map == m || unsolved(s.map) < u,
        forall|i: int| 0 <= i < v1.len() ==> pair_depth(m, (#[trigger] v1[i]), v2[i]) < d,
        unify_args(s, v1, v2, n, u, d).1 is None,
    ensures
        forall|i: int|
            0 <= i < n ==> alike(
                apply(unify_args(s, v1, v2, n, u, d).0.map, #[trigger] v1[i]),
                apply(unify_args(s, v1, v2, n, u, d).0.map, v2[i]),
            ),
    decreases u, d, 3nat, 0nat, n,
{
    if n > 0 {
        let k = n - 1;
        let o = unify_args(s, v1, v2, (n - 1) as nat, u, d);
        lemma_args_sound(s, v1, v2, (n - 1) as nat, m, u, d);
        lemma_args_alike(s, v1, v2, (n - 1) as nat, m, u, d);
        assert(pair_depth(m, v1[k], v2[k]) < d);
        assert(pair_below(o.0.map, v1[k], v2[k], u, d));
        law_unify_sound(o.0, v1[k], v2[k]);
        law_unify_makes_alike(o.0, v1[k], v2[k]);
        let m2 = unify_args(s, v1, v2, n, u, d).0.map;
        assert forall|i: int| 0 <= i < n implies alike(
            apply(m2, #[trigger] v1[i]),
            apply(m2, v2[i]),
        ) by {
            if i < k {
                lemma_alike_later(o.0.map, m2, v1[i], v2[i]);
            }
        }
    }
}

} // verus!
