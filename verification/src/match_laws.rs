//! Which types the arms of a match have that is accepted.

use vstd::prelude::*;

use crate::alike_laws::{alike, law_unify_makes_alike, lemma_alike_later};
use crate::alike_laws::{lemma_alike_reflexive, lemma_alike_symmetric};
use crate::apply::{apply, lemma_extend_absorbs, SubstMap};
use crate::ast_size::expr_size;
use crate::ast_view::{ExprV, MatchArmV};
use crate::checker::{arm_run, arms_run, below, checked, infer_kind, match_run, Within};
use crate::env::EnvV;
use crate::error::SpannedV;
use crate::keeps_checker::{keeps_arm_run, law_checking_keeps_what_is_solved, steady};
use crate::keeps_ty_helpers::keeps_combine;
use crate::pattern_infer::match_pattern;
use crate::rule_laws::{lemma_equal_later, lemma_equated, lemma_kind, lemma_solvable_later};
use crate::solutions::{grows, lemma_grows_reflexive, lemma_grows_transitive, solvable};
use crate::state::InferV;
use crate::steps::{equate, resolved};
use crate::ty::TyV;
use crate::ty_helpers::combine;
use crate::typing::same;
use crate::unify_laws::made_equal;

verus! {

broadcast use {lemma_grows_reflexive, lemma_grows_transitive};

/// Whether a value of the type `t` may stand for one of the type `want`: it is never there,
/// or the two are one type and have one form.
pub open spec fn joins_into(m: SubstMap, t: TyV, want: TyV) -> bool {
    apply(m, t) == TyV::Never || (made_equal(m, t, want) && alike(apply(m, t), apply(m, want)))
}

/// Whether an arm is accepted for what is matched: its pattern is one for the type, and its
/// body, with what the pattern binds, has the type `t`.
pub open spec fn arm_gives(
    within: Within,
    to: SubstMap,
    env: EnvV,
    arm: MatchArmV,
    s_ty: TyV,
    expected: Option<TyV>,
    t: TyV,
) -> bool {
    exists|st: InferV, ty: TyV|
        #![trigger match_pattern(st, env, arm.pattern, ty, false)]
        same(to, ty, s_ty) && ({
            let p = match_pattern(st, env, arm.pattern, ty, false);
            p.err is None && within(p.st, p.env, arm.body, expected).res == Ok::<TyV, SpannedV>(t)
        })
}

/// Whether an arm is accepted for what is matched, and may stand where `want` is asked for.
pub open spec fn arm_typed(
    within: Within,
    to: SubstMap,
    env: EnvV,
    arm: MatchArmV,
    s_ty: TyV,
    expected: Option<TyV>,
    want: TyV,
) -> bool {
    exists|t: TyV|
        #![trigger arm_gives(within, to, env, arm, s_ty, expected, t)]
        arm_gives(within, to, env, arm, s_ty, expected, t) && joins_into(to, t, want)
}

proof fn lemma_joins_later(m: SubstMap, m2: SubstMap, t: TyV, want: TyV)
    requires
        solvable(m),
        grows(m, m2),
        joins_into(m, t, want),
    ensures
        joins_into(m2, t, want),
{
    reveal(grows);
    lemma_extend_absorbs(m, m2, t);
    if apply(m, t) != TyV::Never {
        lemma_equal_later(m, m2, t, want);
        lemma_alike_later(m, m2, t, want);
    }
}

proof fn lemma_gives_later(
    within: Within,
    m: SubstMap,
    m2: SubstMap,
    env: EnvV,
    arm: MatchArmV,
    s_ty: TyV,
    expected: Option<TyV>,
    t: TyV,
)
    requires
        solvable(m),
        grows(m, m2),
        arm_gives(within, m, env, arm, s_ty, expected, t),
    ensures
        arm_gives(within, m2, env, arm, s_ty, expected, t),
{
    let (st, ty) = choose|st: InferV, ty: TyV|
        #![trigger match_pattern(st, env, arm.pattern, ty, false)]
        same(m, ty, s_ty) && ({
            let p = match_pattern(st, env, arm.pattern, ty, false);
            p.err is None && within(p.st, p.env, arm.body, expected).res == Ok::<TyV, SpannedV>(t)
        });
    reveal(grows);
    lemma_extend_absorbs(m, m2, ty);
    lemma_extend_absorbs(m, m2, s_ty);
    assert(match_pattern(st, env, arm.pattern, ty, false).err is None);
}

proof fn lemma_arm_later(
    within: Within,
    m: SubstMap,
    m2: SubstMap,
    env: EnvV,
    arm: MatchArmV,
    s_ty: TyV,
    expected: Option<TyV>,
    want: TyV,
)
    requires
        solvable(m),
        grows(m, m2),
        arm_typed(within, m, env, arm, s_ty, expected, want),
    ensures
        arm_typed(within, m2, env, arm, s_ty, expected, want),
{
    let t = choose|t: TyV|
        #![trigger arm_gives(within, m, env, arm, s_ty, expected, t)]
        arm_gives(within, m, env, arm, s_ty, expected, t) && joins_into(m, t, want);
    lemma_joins_later(m, m2, t, want);
    lemma_gives_later(within, m, m2, env, arm, s_ty, expected, t);
}

/// An arm of the type of what two have in common is one of the first, once they are joined.
proof fn lemma_arm_joined(
    within: Within,
    st: InferV,
    before: TyV,
    ty: TyV,
    env: EnvV,
    arm: MatchArmV,
    s_ty: TyV,
    expected: Option<TyV>,
)
    requires
        solvable(st.subst.map),
        combine(st, before, ty).1 is Ok,
        arm_typed(within, st.subst.map, env, arm, s_ty, expected, before),
    ensures
        arm_typed(
            within,
            combine(st, before, ty).0.subst.map,
            env,
            arm,
            s_ty,
            expected,
            combine(st, before, ty).1->Ok_0,
        ),
{
    let m = st.subst.map;
    let c = combine(st, before, ty);
    let m2 = c.0.subst.map;
    let both = c.1->Ok_0;
    lemma_combined(st, before, ty);
    keeps_combine(st, before, ty);
    lemma_arm_later(within, m, m2, env, arm, s_ty, expected, before);
    let t = choose|t: TyV|
        #![trigger arm_gives(within, m2, env, arm, s_ty, expected, t)]
        arm_gives(within, m2, env, arm, s_ty, expected, t) && joins_into(m2, t, before);
    assert(joins_into(m2, t, both));
}

/// What two types have in common takes both of them.
proof fn lemma_combined(st: InferV, a: TyV, b: TyV)
    requires
        solvable(st.subst.map),
        combine(st, a, b).1 is Ok,
    ensures
        ({
            let m = combine(st, a, b).0.subst.map;
            let both = combine(st, a, b).1->Ok_0;
            &&& solvable(m)
            &&& apply(m, a) == TyV::Never || same(m, a, both)
            &&& joins_into(m, b, both)
        }),
{
    reveal(resolved);
    reveal(grows);
    keeps_combine(st, a, b);
    let m = st.subst.map;
    let x = apply(m, a);
    let y = apply(m, b);
    lemma_extend_absorbs(m, m, a);
    lemma_extend_absorbs(m, m, b);
    lemma_alike_reflexive(y);
    if x != TyV::Never && y != TyV::Never {
        lemma_equated(st, x, y);
        let m2 = equate(st, x, y).0.subst.map;
        reveal(equate);
        law_unify_makes_alike(st.subst, x, y);
        lemma_extend_absorbs(m, m2, a);
        lemma_extend_absorbs(m, m2, b);
        lemma_extend_absorbs(m2, m2, x);
        lemma_alike_symmetric(apply(m2, x), apply(m2, y));
    }
}

proof fn lemma_arm(
    within: Within,
    st: InferV,
    env: EnvV,
    arm: MatchArmV,
    s_ty: TyV,
    first: TyV,
    expected: Option<TyV>,
)
    requires
        steady(within),
        solvable(st.subst.map),
        arm_run(within, st, env, arm.body, arm.pattern, s_ty, first, expected).res is Ok,
    ensures
        ({
            let r = arm_run(within, st, env, arm.body, arm.pattern, s_ty, first, expected);
            let m = r.st.subst.map;
            &&& solvable(m)
            &&& arm_gives(within, m, env, arm, s_ty, expected, r.res->Ok_0)
            &&& arm_typed(within, m, env, arm, s_ty, expected, r.res->Ok_0)
        }),
{
    reveal(arm_run);
    reveal(resolved);
    let r = arm_run(within, st, env, arm.body, arm.pattern, s_ty, first, expected);
    let m = r.st.subst.map;
    keeps_arm_run(within, st, env, arm.body, arm.pattern, s_ty, first, expected);
    lemma_solvable_later(st.subst.map, m);
    let ty = resolved(st, s_ty);
    reveal(grows);
    lemma_extend_absorbs(st.subst.map, m, s_ty);
    let t = r.res->Ok_0;
    lemma_alike_reflexive(apply(m, t));
    assert(joins_into(m, t, t));
    assert(match_pattern(st, env, arm.pattern, ty, false).err is None);
    assert(arm_gives(within, m, env, arm, s_ty, expected, t));
}

proof fn lemma_arms(
    within: Within,
    st: InferV,
    env: EnvV,
    arms: Seq<MatchArmV>,
    s_ty: TyV,
    first: TyV,
    expected: Option<TyV>,
    i: nat,
    found: Option<TyV>,
    source: Seq<MatchArmV>,
)
    requires
        steady(within),
        solvable(st.subst.map),
        i <= arms.len(),
        source.len() == arms.len(),
        forall|k: int| i <= k < arms.len() ==> arms[k] == #[trigger] source[k],
        i == 0 <==> found is None,
        forall|k: int|
            0 <= k < i ==> arm_typed(
                within,
                st.subst.map,
                env,
                #[trigger] source[k],
                s_ty,
                expected,
                found->0,
            ),
        arms_run(within, st, env, arms, s_ty, first, expected, i, found).res is Ok,
    ensures
        ({
            let r = arms_run(within, st, env, arms, s_ty, first, expected, i, found);
            let m = r.st.subst.map;
            &&& arms.len() == 0 <==> r.res->Ok_0 is None
            &&& forall|k: int|
                0 <= k < arms.len() ==> arm_typed(
                    within,
                    m,
                    env,
                    #[trigger] source[k],
                    s_ty,
                    expected,
                    r.res->Ok_0->0,
                )
        }),
    decreases arms.len() - i,
{
    reveal_with_fuel(arms_run, 1);
    if i < arms.len() {
        let arm = arms[i as int];
        assert(arm == source[i as int]);
        let r = arm_run(within, st, env, arm.body, arm.pattern, s_ty, first, expected);
        let next = arms.update(i as int, MatchArmV { body: r.node, ..arm });
        keeps_arm_run(within, st, env, arm.body, arm.pattern, s_ty, first, expected);
        lemma_arm(within, st, env, arm, s_ty, first, expected);
        let ty = r.res->Ok_0;
        match found {
            None => {
                lemma_arms(
                    within,
                    r.st,
                    env,
                    next,
                    s_ty,
                    first,
                    expected,
                    i + 1,
                    Some(ty),
                    source,
                );
            },
            Some(before) => {
                let c = combine(r.st, before, ty);
                let both = c.1->Ok_0;
                let m = c.0.subst.map;
                keeps_combine(r.st, before, ty);
                lemma_combined(r.st, before, ty);
                assert forall|k: int| 0 <= k < i + 1 implies arm_typed(
                    within,
                    m,
                    env,
                    #[trigger] source[k],
                    s_ty,
                    expected,
                    both,
                ) by {
                    if k < i {
                        lemma_arm_later(
                            within,
                            st.subst.map,
                            r.st.subst.map,
                            env,
                            source[k],
                            s_ty,
                            expected,
                            before,
                        );
                        lemma_arm_joined(
                            within,
                            r.st,
                            before,
                            ty,
                            env,
                            source[k],
                            s_ty,
                            expected,
                        );
                    } else {
                        lemma_last_joined(within, r.st, before, ty, env, arm, s_ty, expected);
                    }
                }
                lemma_arms(
                    within,
                    c.0,
                    env,
                    next,
                    s_ty,
                    first,
                    expected,
                    i + 1,
                    Some(both),
                    source,
                );
            },
        }
    }
}

proof fn lemma_last_joined(
    within: Within,
    st: InferV,
    before: TyV,
    ty: TyV,
    env: EnvV,
    arm: MatchArmV,
    s_ty: TyV,
    expected: Option<TyV>,
)
    requires
        solvable(st.subst.map),
        combine(st, before, ty).1 is Ok,
        arm_gives(within, st.subst.map, env, arm, s_ty, expected, ty),
    ensures
        arm_typed(
            within,
            combine(st, before, ty).0.subst.map,
            env,
            arm,
            s_ty,
            expected,
            combine(st, before, ty).1->Ok_0,
        ),
{
    let m = st.subst.map;
    let c = combine(st, before, ty);
    let m2 = c.0.subst.map;
    let both = c.1->Ok_0;
    lemma_combined(st, before, ty);
    keeps_combine(st, before, ty);
    lemma_gives_later(within, m, m2, env, arm, s_ty, expected, ty);
    assert(joins_into(m2, ty, both));
}

/// In a match that is accepted each arm has a pattern for the type of what is matched, and a
/// body that may stand where the type of the match is asked for.
pub proof fn law_match_is_typed(st: InferV, env: EnvV, e: ExprV)
    requires
        solvable(st.subst.map),
        e.kind is Match,
        checked(st, env, e, None).res is Ok,
    ensures
        ({
            let done = checked(st, env, e, None);
            let s = checked(st, env, *e.kind->Match_scrutinee, None);
            let arms = e.kind->Match_arms;
            &&& s.res is Ok
            &&& arms.len() == 0 ==> done.res == Ok::<TyV, SpannedV>(TyV::Never)
            &&& forall|k: int|
                0 <= k < arms.len() ==> arm_typed(
                    below(expr_size(e)),
                    done.st.subst.map,
                    env,
                    #[trigger] arms[k],
                    s.res->Ok_0,
                    None,
                    done.res->Ok_0,
                )
        }),
{
    lemma_kind(st, env, e);
    reveal(infer_kind);
    reveal(match_run);
    reveal(resolved);
    let within = below(expr_size(e));
    let scrutinee = *e.kind->Match_scrutinee;
    let arms = e.kind->Match_arms;
    let s = checked(st, env, scrutinee, None);
    assert(within(st, env, scrutinee, None) == s);
    law_checking_keeps_what_is_solved(st, env, scrutinee, None);
    lemma_solvable_later(st.subst.map, s.st.subst.map);
    let s_ty = s.res->Ok_0;
    let first = resolved(s.st, s_ty);
    lemma_arms(within, s.st, env, arms, s_ty, first, None, 0, None, arms);
}

} // verus!
