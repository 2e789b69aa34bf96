//! What holds of an expression that is accepted.

use vstd::prelude::*;

use crate::apply::{apply, SubstMap};
use crate::ast_size::{expr_kind_size, expr_size};
use crate::ast_view::{ExprKindV, ExprV, MatchArmV};
use crate::checker::{agrees, arm_run, arms_run, assign_run, below, bool_ty, branches_run};
use crate::checker::{break_run, checked, expected_kind, expected_step, infer_kind, infer_step};
use crate::checker::{lemma_below_agrees, match_run, meets, not_run, return_run, target_run};
use crate::checker::{uses_expected, Within};
use crate::env::EnvV;
use crate::error::SpannedV;
use crate::exhaust_laws::{fits, inhabits, law_accepted_match_covers, ValueV};
use crate::keeps_checker::{keeps_arm_run, keeps_arms_run, keeps_meets, keeps_target_run};
use crate::keeps_checker::{law_checking_keeps_what_is_solved, lemma_below_steady, steady};
use crate::keeps_pattern_infer::keeps_match_pattern;
use crate::keeps_steps::{keeps_equate, keeps_equate_result};
use crate::keeps_ty_helpers::keeps_combine;
use crate::pattern_infer::{arm_patterns, left_out, match_pattern};
use crate::pattern_laws::law_pattern_fits;
use crate::schemes::{fresh_names, instance, rename};
use crate::solutions::{grows, lemma_grows_reflexive, lemma_grows_transitive, solvable};
use crate::state::{known_of, InferV};
use crate::steps::{equate, equate_result, resolved};
use crate::ty::{TyV, TyVar};
use crate::ty_helpers::combine;
use crate::typing::{joins, same};
use crate::unify_laws::{law_unify_sound, lemma_made_equal_later, made_equal};
use crate::walkers::assignment_base;

verus! {

broadcast use {lemma_grows_reflexive, lemma_grows_transitive};

// ---------------------------------------------------------------------------
// What checking a part gave
// ---------------------------------------------------------------------------

/// Whether somewhere between the solutions `from` and `to` an expression was checked in
/// `env` and given the type `t`.
pub open spec fn gives(from: SubstMap, to: SubstMap, env: EnvV, e: ExprV, t: TyV) -> bool {
    exists|st: InferV, want: Option<TyV>|
        #![trigger checked(st, env, e, want)]
        grows(from, st.subst.map) && checked(st, env, e, want).res == Ok::<TyV, SpannedV>(t)
            && grows(checked(st, env, e, want).st.subst.map, to)
}

/// Whether a value of the type `t` may stand where one of the type `want` is asked for: it
/// is never there, or the two are one type.
pub open spec fn meets_type(m: SubstMap, t: TyV, want: TyV) -> bool {
    apply(m, t) == TyV::Never || made_equal(m, t, want)
}

pub(crate) proof fn lemma_gives(
    st: InferV,
    want: Option<TyV>,
    from: SubstMap,
    to: SubstMap,
    env: EnvV,
    e: ExprV,
    t: TyV,
)
    requires
        grows(from, st.subst.map),
        checked(st, env, e, want).res == Ok::<TyV, SpannedV>(t),
        grows(checked(st, env, e, want).st.subst.map, to),
    ensures
        gives(from, to, env, e, t),
{
}

pub(crate) proof fn lemma_equal_later(m: SubstMap, m2: SubstMap, a: TyV, b: TyV)
    requires
        solvable(m),
        grows(m, m2),
        made_equal(m, a, b),
    ensures
        made_equal(m2, a, b),
        solvable(m2),
{
    reveal(grows);
    lemma_made_equal_later(m, m2, a, b);
}

pub(crate) proof fn lemma_solvable_later(m: SubstMap, m2: SubstMap)
    requires
        solvable(m),
        grows(m, m2),
    ensures
        solvable(m2),
{
    reveal(grows);
}

pub(crate) proof fn lemma_meets_later(m: SubstMap, m2: SubstMap, t: TyV, want: TyV)
    requires
        solvable(m),
        grows(m, m2),
        meets_type(m, t, want),
    ensures
        meets_type(m2, t, want),
{
    reveal(grows);
    if apply(m, t) == TyV::Never {
        crate::apply::lemma_extend_absorbs(m, m2, t);
    } else {
        lemma_made_equal_later(m, m2, t, want);
    }
}

pub(crate) proof fn lemma_equated(st: InferV, a: TyV, b: TyV)
    requires
        solvable(st.subst.map),
        equate(st, a, b).1 is None,
    ensures
        grows(st.subst.map, equate(st, a, b).0.subst.map),
        solvable(equate(st, a, b).0.subst.map),
        made_equal(equate(st, a, b).0.subst.map, a, b),
{
    keeps_equate(st, a, b);
    reveal(grows);
    reveal(equate);
    law_unify_sound(st.subst, a, b);
}

pub(crate) proof fn lemma_result_equated(st: InferV, actual: TyV, want: TyV)
    requires
        solvable(st.subst.map),
        equate_result(st, actual, want).1 is None,
    ensures
        grows(st.subst.map, equate_result(st, actual, want).0.subst.map),
        solvable(equate_result(st, actual, want).0.subst.map),
        meets_type(equate_result(st, actual, want).0.subst.map, actual, want),
{
    keeps_equate_result(st, actual, want);
    reveal(grows);
    reveal(equate_result);
    reveal(resolved);
    if apply(st.subst.map, actual) != TyV::Never {
        lemma_equated(st, actual, want);
    }
}

/// What is accepted is accepted by the rule for its kind.
pub(crate) proof fn lemma_kind(st: InferV, env: EnvV, e: ExprV)
    ensures
        ({
            let within = below(expr_size(e));
            let r = infer_kind(within, st, env, e.kind, e.id, e.span);
            let done = checked(st, env, e, None);
            &&& steady(within)
            &&& agrees(within, expr_kind_size(e.kind))
            &&& done.st.subst == r.st.subst
            &&& done.st.variants == r.st.variants
            &&& known_of(done.st, env) == known_of(r.st, env)
            &&& done.node.kind == r.kind
            &&& done.res is Ok <==> r.res is Ok
            &&& done.res is Ok ==> done.res == r.res
        }),
{
    reveal(checked);
    reveal(below);
    reveal(infer_step);
    let within = below(expr_size(e));
    lemma_below_steady(expr_size(e));
    lemma_below_agrees(expr_size(e), expr_kind_size(e.kind));
    assert(checked(st, env, e, None) == infer_step(within, st, env, e));
}

// ---------------------------------------------------------------------------
// Assignments
// ---------------------------------------------------------------------------

/// Whether `t` is the type of what is assigned to: that of a variable which may change, or
/// of a field of a place that may.
pub open spec fn is_target(from: SubstMap, to: SubstMap, env: EnvV, target: ExprV, t: TyV) -> bool {
    match target.kind {
        ExprKindV::Ident(name) => env.dom().contains(name) && env[name].binding_mutable && exists|
            names: Map<TyVar, TyVar>,
        | t == #[trigger] rename(env[name].scheme.ty, names),
        ExprKindV::FieldAccess { .. } => match assignment_base(target) {
            Some(name) => env.dom().contains(name) && env[name].place_mutable && gives(
                from,
                to,
                env,
                target,
                t,
            ),
            None => false,
        },
        _ => false,
    }
}

/// An assignment that is accepted assigns to something that may change, and the type of
/// what is assigned to and that of the value are one.
pub proof fn law_assignment_agrees(st: InferV, env: EnvV, e: ExprV)
    requires
        solvable(st.subst.map),
        e.kind is Assign,
        checked(st, env, e, None).res is Ok,
    ensures
        ({
            let m = checked(st, env, e, None).st.subst.map;
            &&& checked(st, env, e, None).res == Ok::<TyV, SpannedV>(TyV::Unit)
            &&& exists|a: TyV, b: TyV|
                #![trigger is_target(st.subst.map, m, env, *e.kind->Assign_target, a), gives(st.subst.map, m, env, *e.kind->Assign_value, b)]
                is_target(st.subst.map, m, env, *e.kind->Assign_target, a) && gives(
                    st.subst.map,
                    m,
                    env,
                    *e.kind->Assign_value,
                    b,
                ) && made_equal(m, a, b)
        }),
{
    lemma_kind(st, env, e);
    reveal(infer_kind);
    reveal(assign_run);
    let within = below(expr_size(e));
    let target = *e.kind->Assign_target;
    let value = *e.kind->Assign_value;
    let m = checked(st, env, e, None).st.subst.map;
    let r0 = target_run(within, st, env, target);
    keeps_target_run(within, st, env, target);
    lemma_solvable_later(st.subst.map, r0.st.subst.map);
    let a = r0.res->Ok_0;
    let r1 = checked(r0.st, env, value, None);
    assert(within(r0.st, env, value, None) == r1);
    law_checking_keeps_what_is_solved(r0.st, env, value, None);
    lemma_solvable_later(r0.st.subst.map, r1.st.subst.map);
    let b = r1.res->Ok_0;
    lemma_equated(r1.st, a, b);
    assert(m == equate(r1.st, a, b).0.subst.map);
    lemma_gives(r0.st, None, st.subst.map, m, env, value, b);
    lemma_target(within, st, env, target, st.subst.map, m);
    assert(is_target(st.subst.map, m, env, target, a) && gives(st.subst.map, m, env, value, b)
        && made_equal(m, a, b));
}

proof fn lemma_target(
    within: Within,
    st: InferV,
    env: EnvV,
    target: ExprV,
    from: SubstMap,
    to: SubstMap,
)
    requires
        target_run(within, st, env, target).res is Ok,
        agrees(within, expr_size(target)),
        grows(from, st.subst.map),
        grows(target_run(within, st, env, target).st.subst.map, to),
    ensures
        is_target(from, to, env, target, target_run(within, st, env, target).res->Ok_0),
{
    reveal(target_run);
    let a = target_run(within, st, env, target).res->Ok_0;
    match target.kind {
        ExprKindV::Ident(name) => {
            reveal(instance);
            let s = env[name].scheme;
            let names = fresh_names(st, s.vars, 0, Map::empty()).1;
            assert(a == rename(s.ty, names));
        },
        ExprKindV::FieldAccess { .. } => {
            assert(within(st, env, target, None) == checked(st, env, target, None));
            lemma_gives(st, None, from, to, env, target, a);
        },
        _ => {},
    }
}

// ---------------------------------------------------------------------------
// Leaving functions and loops
// ---------------------------------------------------------------------------

/// A `return` that is accepted stands in a function, and what it returns may stand where
/// the result of the innermost function is asked for. It has no value of its own.
pub proof fn law_return_meets_function(st: InferV, env: EnvV, e: ExprV)
    requires
        solvable(st.subst.map),
        e.kind is Return,
        checked(st, env, e, None).res is Ok,
    ensures
        ({
            let m = checked(st, env, e, None).st.subst.map;
            let ret = *st.return_tys.last().ty;
            &&& st.return_tys.len() > 0
            &&& checked(st, env, e, None).res == Ok::<TyV, SpannedV>(TyV::Never)
            &&& match e.kind->Return_0 {
                Some(v) => checked(st, env, *v, None).res is Ok && meets_type(
                    m,
                    checked(st, env, *v, None).res->Ok_0,
                    ret,
                ),
                None => made_equal(m, ret, TyV::Unit),
            }
        }),
{
    lemma_kind(st, env, e);
    reveal(infer_kind);
    reveal(return_run);
    let within = below(expr_size(e));
    let ret = *st.return_tys.last().ty;
    match e.kind->Return_0 {
        Some(v) => {
            let r = checked(st, env, *v, None);
            assert(within(st, env, *v, None) == r);
            law_checking_keeps_what_is_solved(st, env, *v, None);
            lemma_solvable_later(st.subst.map, r.st.subst.map);
            lemma_result_equated(r.st, r.res->Ok_0, ret);
        },
        None => {
            lemma_equated(st, ret, TyV::Unit);
        },
    }
}

/// A `break` that is accepted stands in a loop, and what it leaves the loop with may stand
/// where the value of the innermost loop is asked for. It has no value of its own.
pub proof fn law_break_meets_loop(st: InferV, env: EnvV, e: ExprV)
    requires
        solvable(st.subst.map),
        e.kind is Break,
        checked(st, env, e, None).res is Ok,
    ensures
        ({
            let m = checked(st, env, e, None).st.subst.map;
            let ty = st.break_tys.last();
            &&& st.break_tys.len() > 0
            &&& checked(st, env, e, None).res == Ok::<TyV, SpannedV>(TyV::Never)
            &&& match e.kind->Break_0 {
                Some(v) => checked(st, env, *v, None).res is Ok && meets_type(
                    m,
                    checked(st, env, *v, None).res->Ok_0,
                    ty,
                ),
                None => made_equal(m, ty, TyV::Unit),
            }
        }),
{
    lemma_kind(st, env, e);
    reveal(infer_kind);
    reveal(break_run);
    let within = below(expr_size(e));
    let ty = st.break_tys.last();
    match e.kind->Break_0 {
        Some(v) => {
            let r = checked(st, env, *v, None);
            assert(within(st, env, *v, None) == r);
            law_checking_keeps_what_is_solved(st, env, *v, None);
            lemma_solvable_later(st.subst.map, r.st.subst.map);
            lemma_result_equated(r.st, r.res->Ok_0, ty);
        },
        None => {
            lemma_equated(st, ty, TyV::Unit);
        },
    }
}

// ---------------------------------------------------------------------------
// Matches
// ---------------------------------------------------------------------------

proof fn lemma_arms_keep_patterns(
    within: Within,
    st: InferV,
    env: EnvV,
    arms: Seq<MatchArmV>,
    s_ty: TyV,
    first: TyV,
    expected: Option<TyV>,
    i: nat,
    found: Option<TyV>,
)
    ensures
        arm_patterns(arms_run(within, st, env, arms, s_ty, first, expected, i, found).node)
            == arm_patterns(arms),
    decreases arms.len() - i,
{
    reveal_with_fuel(arms_run, 1);
    if i < arms.len() {
        let arm = arms[i as int];
        let r = arm_run(within, st, env, arm.body, arm.pattern, s_ty, first, expected);
        let next = arms.update(i as int, MatchArmV { body: r.node, ..arm });
        assert(arm_patterns(next) =~= arm_patterns(arms));
        if let Ok(ty) = r.res {
            match found {
                None => {
                    lemma_arms_keep_patterns(
                        within,
                        r.st,
                        env,
                        next,
                        s_ty,
                        first,
                        expected,
                        i + 1,
                        Some(ty),
                    );
                },
                Some(before) => {
                    let c = combine(r.st, before, ty);
                    if let Ok(both) = c.1 {
                        lemma_arms_keep_patterns(
                            within,
                            c.0,
                            env,
                            next,
                            s_ty,
                            first,
                            expected,
                            i + 1,
                            Some(both),
                        );
                    }
                },
            }
        }
    }
}

/// Whether every value of the type is matched by one of the arms.
pub open spec fn arms_cover(
    arms: Seq<MatchArmV>,
    ty: TyV,
    variants: crate::env::VariantsV,
) -> bool {
    forall|v: ValueV|
        inhabits(v, ty, variants) ==> exists|i: int|
            0 <= i < arms.len() && crate::exhaust_laws::pattern_matches(
                (#[trigger] arms[i]).pattern,
                v,
            )
}

/// The pattern of an arm has the form of what is matched.
proof fn lemma_arm_fits(
    within: Within,
    st: InferV,
    env: EnvV,
    arm: MatchArmV,
    s_ty: TyV,
    first: TyV,
    expected: Option<TyV>,
    m: SubstMap,
)
    requires
        steady(within),
        solvable(st.subst.map),
        arm_run(within, st, env, arm.body, arm.pattern, s_ty, first, expected).res is Ok,
        grows(
            arm_run(within, st, env, arm.body, arm.pattern, s_ty, first, expected).st.subst.map,
            m,
        ),
    ensures
        fits(arm.pattern, apply(m, s_ty)),
        solvable(m),
{
    reveal(arm_run);
    reveal(match_pattern);
    reveal(resolved);
    let ty = resolved(st, s_ty);
    let p = match_pattern(st, env, arm.pattern, ty, false);
    keeps_match_pattern(st, env, arm.pattern, ty, false);
    let r = within(p.st, p.env, arm.body, expected);
    assert(grows(p.st.subst.map, r.st.subst.map));
    law_pattern_fits(st, env, arm.pattern, ty, false, m);
    lemma_solvable_later(st.subst.map, m);
    reveal(grows);
    assert(grows(st.subst.map, m));
    crate::apply::lemma_extend_absorbs(st.subst.map, m, s_ty);
}

proof fn lemma_arms_fit(
    within: Within,
    st: InferV,
    env: EnvV,
    arms: Seq<MatchArmV>,
    s_ty: TyV,
    first: TyV,
    expected: Option<TyV>,
    i: nat,
    found: Option<TyV>,
    m: SubstMap,
)
    requires
        steady(within),
        solvable(st.subst.map),
        arms_run(within, st, env, arms, s_ty, first, expected, i, found).res is Ok,
        grows(arms_run(within, st, env, arms, s_ty, first, expected, i, found).st.subst.map, m),
    ensures
        forall|k: int|
            i <= k < arms.len() ==> fits((#[trigger] arms[k]).pattern, apply(m, s_ty)),
    decreases arms.len() - i,
{
    reveal_with_fuel(arms_run, 1);
    if i < arms.len() {
        let arm = arms[i as int];
        let r = arm_run(within, st, env, arm.body, arm.pattern, s_ty, first, expected);
        let next = arms.update(i as int, MatchArmV { body: r.node, ..arm });
        keeps_arm_run(within, st, env, arm.body, arm.pattern, s_ty, first, expected);
        lemma_solvable_later(st.subst.map, r.st.subst.map);
        let ty = r.res->Ok_0;
        match found {
            None => {
                let some = Some(ty);
                keeps_arms_run(within, r.st, env, next, s_ty, first, expected, i + 1, some);
                lemma_arms_fit(within, r.st, env, next, s_ty, first, expected, i + 1, some, m);
            },
            Some(before) => {
                let c = combine(r.st, before, ty);
                keeps_combine(r.st, before, ty);
                lemma_solvable_later(r.st.subst.map, c.0.subst.map);
                let some = Some(c.1->Ok_0);
                keeps_arms_run(within, c.0, env, next, s_ty, first, expected, i + 1, some);
                lemma_arms_fit(within, c.0, env, next, s_ty, first, expected, i + 1, some, m);
            },
        }
        lemma_arm_fits(within, st, env, arm, s_ty, first, expected, m);
        assert forall|k: int| i <= k < arms.len() implies fits(
            (#[trigger] arms[k]).pattern,
            apply(m, s_ty),
        ) by {
            if k > i {
                assert(next[k] == arms[k]);
            }
        }
    }
}

proof fn lemma_match(
    within: Within,
    st: InferV,
    env: EnvV,
    scrutinee: ExprV,
    arms: Seq<MatchArmV>,
    expected: Option<TyV>,
)
    requires
        steady(within),
        solvable(st.subst.map),
        match_run(within, st, env, scrutinee, arms, expected).res is Ok,
    ensures
        within(st, env, scrutinee, None).res is Ok,
        ({
            let r = match_run(within, st, env, scrutinee, arms, expected);
            let s = within(st, env, scrutinee, None);
            &&& grows(s.st.subst.map, r.st.subst.map)
            &&& arms_cover(arms, apply(r.st.subst.map, s.res->Ok_0), r.st.variants)
        }),
{
    reveal(match_run);
    reveal(left_out);
    reveal(resolved);
    let s = within(st, env, scrutinee, None);
    let s_ty = s.res->Ok_0;
    let first = resolved(s.st, s_ty);
    lemma_solvable_later(st.subst.map, s.st.subst.map);
    let r = arms_run(within, s.st, env, arms, s_ty, first, expected, 0, None);
    keeps_arms_run(within, s.st, env, arms, s_ty, first, expected, 0, None);
    lemma_arms_keep_patterns(within, s.st, env, arms, s_ty, first, expected, 0, None);
    lemma_arms_fit(
        within,
        s.st,
        env,
        arms,
        s_ty,
        first,
        expected,
        0,
        None,
        r.st.subst.map,
    );
    let ty = apply(r.st.subst.map, s_ty);
    let ps = arm_patterns(arms);
    assert forall|i: int| 0 <= i < ps.len() implies fits(#[trigger] ps[i], ty) by {
        assert(fits(arms[i].pattern, ty));
    }
    assert forall|v: ValueV| inhabits(v, ty, r.st.variants) implies exists|i: int|
        0 <= i < arms.len() && crate::exhaust_laws::pattern_matches(
            (#[trigger] arms[i]).pattern,
            v,
        ) by {
        law_accepted_match_covers(ps, ty, r.st.variants, v);
        let i = choose|i: int|
            0 <= i < ps.len() && crate::exhaust_laws::pattern_matches(#[trigger] ps[i], v);
        assert(crate::exhaust_laws::pattern_matches(arms[i].pattern, v));
    }
}

/// A match that is accepted leaves nothing out: once its arms are checked, every value of
/// what the scrutinee's type has become is matched by the pattern of some arm.
pub proof fn law_match_covers(st: InferV, env: EnvV, e: ExprV, want: Option<TyV>)
    requires
        solvable(st.subst.map),
        e.kind is Match,
        checked(st, env, e, want).res is Ok,
    ensures
        ({
            let m = checked(st, env, e, want).st.subst.map;
            let s = checked(st, env, *e.kind->Match_scrutinee, None);
            &&& s.res is Ok
            &&& exists|m1: SubstMap|
                #![trigger grows(m1, m)]
                grows(s.st.subst.map, m1) && grows(m1, m) && arms_cover(
                    e.kind->Match_arms,
                    apply(m1, s.res->Ok_0),
                    checked(st, env, e, want).st.variants,
                )
            &&& want is None ==> arms_cover(
                e.kind->Match_arms,
                apply(m, s.res->Ok_0),
                checked(st, env, e, want).st.variants,
            )
        }),
{
    let within = below(expr_size(e));
    let scrutinee = *e.kind->Match_scrutinee;
    let arms = e.kind->Match_arms;
    lemma_kind(st, env, e);
    assert(within(st, env, scrutinee, None) == checked(st, env, scrutinee, None));
    match want {
        None => {
            reveal(infer_kind);
            lemma_match(within, st, env, scrutinee, arms, None);
            let r = match_run(within, st, env, scrutinee, arms, None);
            assert(grows(r.st.subst.map, checked(st, env, e, want).st.subst.map));
        },
        Some(ty) => {
            reveal(checked);
            reveal(below);
            reveal(expected_step);
            reveal(expected_kind);
            assert(checked(st, env, e, want) == expected_step(within, st, env, e, ty));
            let aim = resolved(st, ty);
            assert(uses_expected(e.kind, aim));
            lemma_match(within, st, env, scrutinee, arms, Some(aim));
            let r = match_run(within, st, env, scrutinee, arms, Some(aim));
            if let Ok(Some(found)) = r.res {
                keeps_meets(r.st, found, aim, e.span);
                reveal(equate);
                assert(meets(r.st, found, aim, e.span).0.variants == r.st.variants);
            }
            assert(grows(r.st.subst.map, checked(st, env, e, want).st.subst.map));
        },
    }
}

// ---------------------------------------------------------------------------
// Negation and conditions
// ---------------------------------------------------------------------------

/// A negation that is accepted negates a condition and is one.
pub proof fn law_negation_is_a_condition(st: InferV, env: EnvV, e: ExprV)
    requires
        solvable(st.subst.map),
        e.kind is Not,
        checked(st, env, e, None).res is Ok,
    ensures
        ({
            let m = checked(st, env, e, None).st.subst.map;
            let inner = checked(st, env, *e.kind->Not_0, None);
            &&& checked(st, env, e, None).res == Ok::<TyV, SpannedV>(TyV::Con("bool"@))
            &&& inner.res is Ok
            &&& made_equal(m, inner.res->Ok_0, TyV::Con("bool"@))
        }),
{
    lemma_kind(st, env, e);
    reveal(infer_kind);
    reveal(not_run);
    let within = below(expr_size(e));
    let operand = *e.kind->Not_0;
    let r = checked(st, env, operand, None);
    assert(within(st, env, operand, None) == r);
    law_checking_keeps_what_is_solved(st, env, operand, None);
    lemma_solvable_later(st.subst.map, r.st.subst.map);
    lemma_equated(r.st, r.res->Ok_0, bool_ty());
}

/// A condition that is accepted tests a condition, and its branches have a type in common,
/// which is its own.
pub proof fn law_branches_join(st: InferV, env: EnvV, e: ExprV)
    requires
        solvable(st.subst.map),
        e.kind is If,
        checked(st, env, e, None).res is Ok,
    ensures
        ({
            let m = checked(st, env, e, None).st.subst.map;
            let c = checked(st, env, *e.kind->If_cond, None);
            &&& c.res is Ok
            &&& made_equal(m, c.res->Ok_0, TyV::Con("bool"@))
            &&& exists|a: TyV, b: TyV|
                #![trigger gives(c.st.subst.map, m, env, *e.kind->If_then_branch, a), gives(c.st.subst.map, m, env, *e.kind->If_else_branch, b)]
                gives(c.st.subst.map, m, env, *e.kind->If_then_branch, a) && gives(
                    c.st.subst.map,
                    m,
                    env,
                    *e.kind->If_else_branch,
                    b,
                ) && joins(m, a, b, checked(st, env, e, None).res->Ok_0)
        }),
{
    lemma_kind(st, env, e);
    reveal(infer_kind);
    reveal(branches_run);
    let within = below(expr_size(e));
    let cond = *e.kind->If_cond;
    let x = *e.kind->If_then_branch;
    let y = *e.kind->If_else_branch;
    let m = checked(st, env, e, None).st.subst.map;
    let r0 = checked(st, env, cond, None);
    assert(within(st, env, cond, None) == r0);
    law_checking_keeps_what_is_solved(st, env, cond, None);
    lemma_solvable_later(st.subst.map, r0.st.subst.map);
    let c = r0.res->Ok_0;
    lemma_equated(r0.st, c, bool_ty());
    let st1 = equate(r0.st, c, bool_ty()).0;
    let r1 = checked(st1, env, x, None);
    assert(within(st1, env, x, None) == r1);
    law_checking_keeps_what_is_solved(st1, env, x, None);
    let a = r1.res->Ok_0;
    let r2 = checked(r1.st, env, y, None);
    assert(within(r1.st, env, y, None) == r2);
    law_checking_keeps_what_is_solved(r1.st, env, y, None);
    let b = r2.res->Ok_0;
    keeps_combine(r2.st, a, b);
    assert(m == combine(r2.st, a, b).0.subst.map);
    lemma_solvable_later(st1.subst.map, r2.st.subst.map);
    lemma_equal_later(st1.subst.map, m, c, bool_ty());
    lemma_joined(r2.st, a, b);
    lemma_gives(st1, None, r0.st.subst.map, m, env, x, a);
    lemma_gives(r1.st, None, r0.st.subst.map, m, env, y, b);
    assert(gives(r0.st.subst.map, m, env, x, a) && gives(r0.st.subst.map, m, env, y, b));
}

pub(crate) proof fn lemma_joined(st: InferV, a: TyV, b: TyV)
    requires
        solvable(st.subst.map),
        combine(st, a, b).1 is Ok,
    ensures
        joins(combine(st, a, b).0.subst.map, a, b, combine(st, a, b).1->Ok_0),
{
    reveal(resolved);
    let m = st.subst.map;
    let x = apply(m, a);
    let y = apply(m, b);
    crate::apply::lemma_extend_absorbs(m, m, a);
    crate::apply::lemma_extend_absorbs(m, m, b);
    if x != TyV::Never && y != TyV::Never {
        lemma_equated(st, x, y);
        let m2 = equate(st, x, y).0.subst.map;
        reveal(grows);
        crate::apply::lemma_extend_absorbs(m, m2, a);
        crate::apply::lemma_extend_absorbs(m, m2, b);
        crate::apply::lemma_extend_absorbs(m2, m2, x);
    }
}

// ---------------------------------------------------------------------------
// Expected types
// ---------------------------------------------------------------------------

/// An expression of a kind that takes no hint from the type expected of it, and is accepted
/// where a type is expected, is accepted without it too, and its type may stand there.
pub proof fn law_expected_type_is_met(st: InferV, env: EnvV, e: ExprV, want: TyV)
    requires
        solvable(st.subst.map),
        !uses_expected(e.kind, apply(st.subst.map, want)),
        checked(st, env, e, Some(want)).res is Ok,
    ensures
        ({
            let m = checked(st, env, e, Some(want)).st.subst.map;
            let plain = checked(st, env, e, None);
            &&& plain.res is Ok
            &&& meets_type(m, plain.res->Ok_0, want)
            &&& same(m, checked(st, env, e, Some(want)).res->Ok_0, want)
        }),
{
    reveal(checked);
    reveal(below);
    reveal(expected_step);
    reveal(resolved);
    let within = below(expr_size(e));
    assert(checked(st, env, e, Some(want)) == expected_step(within, st, env, e, want));
    assert(checked(st, env, e, None) == infer_step(within, st, env, e));
    let plain = checked(st, env, e, None);
    let aim = apply(st.subst.map, want);
    law_checking_keeps_what_is_solved(st, env, e, None);
    lemma_solvable_later(st.subst.map, plain.st.subst.map);
    lemma_result_equated(plain.st, plain.res->Ok_0, aim);
    let m = checked(st, env, e, Some(want)).st.subst.map;
    assert(m == equate_result(plain.st, plain.res->Ok_0, aim).0.subst.map);
    reveal(grows);
    crate::apply::lemma_extend_absorbs(st.subst.map, m, want);
    crate::apply::lemma_extend_absorbs(m, m, aim);
}

} // verus!
