//! When an expression has a type, for the forms that need neither traits nor places, and
//! that the checker gives such a type.

use vstd::prelude::*;

use crate::apply::{acyclic, apply, extends, lemma_extend_absorbs, SubstMap};
use crate::ast_size::{expr_kind_size, expr_size, lemma_exprs_size};
use crate::ast_view::{ExprKindV, ExprV};
use crate::checker::{agrees, below, bool_ty, branches_run, checked, each_run, infer_kind};
use crate::checker::{infer_step, lemma_below_agrees, not_run, number_type, string_ty, Within};
use crate::env::EnvV;
use crate::finish::ident_use;
use crate::schemes::{fresh_names, instance, rename, rename_constraints, value_of, InstanceV};
use crate::state::InferV;
use crate::steps::{equate, resolved};
use crate::ty::{SchemeV, TyV, TyVar};
use crate::ty_helpers::combine;
use crate::unify_laws::{law_unify_sound, lemma_made_equal_later, made_equal};

verus! {

// ---------------------------------------------------------------------------
// Typing
// ---------------------------------------------------------------------------

/// The two types resolve to the same type.
pub open spec fn same(m: SubstMap, a: TyV, b: TyV) -> bool {
    apply(m, a) == apply(m, b)
}

/// What a scheme stands for once its variables are renamed.
pub open spec fn scheme_instance(s: SchemeV, names: Map<TyVar, TyVar>) -> TyV {
    value_of(
        InstanceV { ty: rename(s.ty, names), constraints: rename_constraints(s.constraints, names) },
    )
}

/// `t` is what two branches of the types `a` and `b` have in common. One that is never left
/// leaves the choice to the other.
pub open spec fn joins(m: SubstMap, a: TyV, b: TyV, t: TyV) -> bool {
    ||| apply(m, a) == TyV::Never && same(m, t, b)
    ||| apply(m, b) == TyV::Never && same(m, t, a)
    ||| made_equal(m, a, b) && same(m, t, a)
}

/// Whether an expression is made of literals, names, brackets, negation, tuples and
/// conditions.
pub open spec fn is_core(e: ExprV) -> bool
    decreases e,
{
    match e.kind {
        ExprKindV::Number(_) | ExprKindV::StringLit(_) | ExprKindV::Bool(_) => true,
        ExprKindV::Unit | ExprKindV::Ident(_) => true,
        ExprKindV::Grouped(inner) => is_core(*inner),
        ExprKindV::Not(operand) => is_core(*operand),
        ExprKindV::Tuple(items) => forall|i: int| 0 <= i < items.len() ==> is_core(#[trigger] items[i]),
        ExprKindV::If { cond, then_branch, else_branch } => is_core(*cond) && is_core(*then_branch)
            && is_core(*else_branch),
        _ => false,
    }
}

/// Why an expression has a type: the types of its parts, and why they have those.
pub enum Typing {
    Literal,
    /// The names that the variables of a scheme are given.
    Name(Map<TyVar, TyVar>),
    Grouped(Box<Typing>),
    Not(TyV, Box<Typing>),
    Tuple(Seq<TyV>, Seq<Typing>),
    If { cond: TyV, yes: TyV, no: TyV, why: Seq<Typing> },
}

/// Whether `why` shows that an expression has the type `t`, given what each name stands for
/// and what the variables are solved to. Types that are to be equal are so unless a record
/// among them repeats a name.
pub open spec fn typed_by(m: SubstMap, env: EnvV, e: ExprV, t: TyV, why: Typing) -> bool
    decreases e,
{
    match e.kind {
        ExprKindV::Number(n) => same(m, t, number_type(n)),
        ExprKindV::StringLit(_) => same(m, t, string_ty()),
        ExprKindV::Bool(_) => same(m, t, bool_ty()),
        ExprKindV::Unit => same(m, t, TyV::Unit),
        ExprKindV::Ident(name) => match why {
            Typing::Name(names) => env.dom().contains(name) && same(
                m,
                t,
                scheme_instance(env[name].scheme, names),
            ),
            _ => false,
        },
        ExprKindV::Grouped(inner) => match why {
            Typing::Grouped(d) => typed_by(m, env, *inner, t, *d),
            _ => false,
        },
        ExprKindV::Not(operand) => match why {
            Typing::Not(u, d) => same(m, t, bool_ty()) && typed_by(m, env, *operand, u, *d)
                && made_equal(m, u, bool_ty()),
            _ => false,
        },
        ExprKindV::Tuple(items) => match why {
            Typing::Tuple(ts, ds) => same(m, t, TyV::Tuple(ts)) && ts.len() == items.len()
                && ds.len() == items.len() && forall|i: int|
                0 <= i < items.len() ==> typed_by(m, env, #[trigger] items[i], ts[i], ds[i]),
            _ => false,
        },
        ExprKindV::If { cond, then_branch, else_branch } => match why {
            Typing::If { cond: c, yes, no, why: ds } => ds.len() == 3 && typed_by(
                m,
                env,
                *cond,
                c,
                ds[0],
            ) && made_equal(m, c, bool_ty()) && typed_by(m, env, *then_branch, yes, ds[1])
                && typed_by(m, env, *else_branch, no, ds[2]) && joins(m, yes, no, t),
            _ => false,
        },
        _ => false,
    }
}

/// Whether an expression has the type `t`.
pub open spec fn has_type(m: SubstMap, env: EnvV, e: ExprV, t: TyV) -> bool {
    exists|why: Typing| typed_by(m, env, e, t, why)
}

// ---------------------------------------------------------------------------
// Solving more
// ---------------------------------------------------------------------------

proof fn lemma_same_later(m: SubstMap, m2: SubstMap, a: TyV, b: TyV)
    requires
        acyclic(m),
        acyclic(m2),
        extends(m, m2),
        same(m, a, b),
    ensures
        same(m2, a, b),
{
    lemma_extend_absorbs(m, m2, a);
    lemma_extend_absorbs(m, m2, b);
}

proof fn lemma_joins_later(m: SubstMap, m2: SubstMap, a: TyV, b: TyV, t: TyV)
    requires
        acyclic(m),
        acyclic(m2),
        extends(m, m2),
        joins(m, a, b, t),
    ensures
        joins(m2, a, b, t),
{
    lemma_extend_absorbs(m, m2, a);
    lemma_extend_absorbs(m, m2, b);
    lemma_extend_absorbs(m, m2, t);
    if made_equal(m, a, b) {
        lemma_made_equal_later(m, m2, a, b);
    }
}

proof fn lemma_typed_later(m: SubstMap, m2: SubstMap, env: EnvV, e: ExprV, t: TyV, why: Typing)
    requires
        acyclic(m),
        acyclic(m2),
        extends(m, m2),
        typed_by(m, env, e, t, why),
    ensures
        typed_by(m2, env, e, t, why),
    decreases e,
{
    match e.kind {
        ExprKindV::Number(n) => {
            lemma_same_later(m, m2, t, number_type(n));
        },
        ExprKindV::StringLit(_) => {
            lemma_same_later(m, m2, t, string_ty());
        },
        ExprKindV::Bool(_) => {
            lemma_same_later(m, m2, t, bool_ty());
        },
        ExprKindV::Unit => {
            lemma_same_later(m, m2, t, TyV::Unit);
        },
        ExprKindV::Ident(name) => {
            lemma_same_later(m, m2, t, scheme_instance(env[name].scheme, why->Name_0));
        },
        ExprKindV::Grouped(inner) => {
            lemma_typed_later(m, m2, env, *inner, t, *why->Grouped_0);
        },
        ExprKindV::Not(operand) => {
            lemma_typed_later(m, m2, env, *operand, why->Not_0, *why->Not_1);
            lemma_made_equal_later(m, m2, why->Not_0, bool_ty());
            lemma_same_later(m, m2, t, bool_ty());
        },
        ExprKindV::Tuple(items) => {
            let ts = why->Tuple_0;
            let ds = why->Tuple_1;
            lemma_same_later(m, m2, t, TyV::Tuple(ts));
            assert forall|i: int| 0 <= i < items.len() implies typed_by(
                m2,
                env,
                #[trigger] items[i],
                ts[i],
                ds[i],
            ) by {
                lemma_typed_later(m, m2, env, items[i], ts[i], ds[i]);
            }
        },
        ExprKindV::If { cond, then_branch, else_branch } => {
            let ds = why->If_why;
            lemma_typed_later(m, m2, env, *cond, why->If_cond, ds[0]);
            lemma_typed_later(m, m2, env, *then_branch, why->yes, ds[1]);
            lemma_typed_later(m, m2, env, *else_branch, why->no, ds[2]);
            lemma_made_equal_later(m, m2, why->If_cond, bool_ty());
            lemma_joins_later(m, m2, why->yes, why->no, t);
        },
        _ => {},
    }
}

/// What has a type keeps it when more variables are solved.
pub proof fn law_typing_is_stable(m: SubstMap, m2: SubstMap, env: EnvV, e: ExprV, t: TyV)
    requires
        acyclic(m),
        acyclic(m2),
        extends(m, m2),
        has_type(m, env, e, t),
    ensures
        has_type(m2, env, e, t),
{
    let why = choose|why: Typing| typed_by(m, env, e, t, why);
    lemma_typed_later(m, m2, env, e, t, why);
}

// ---------------------------------------------------------------------------
// The checker
// ---------------------------------------------------------------------------

/// What is solved does not go round in circles.
pub open spec fn solved_well(st: InferV) -> bool {
    acyclic(st.subst.map) && st.subst.map.dom().finite()
}

/// A state that has solved at least as much as another.
pub open spec fn follows(st: InferV, st2: InferV) -> bool {
    solved_well(st2) && extends(st.subst.map, st2.subst.map)
}

proof fn lemma_equate(st: InferV, a: TyV, b: TyV)
    requires
        solved_well(st),
        equate(st, a, b).1 is None,
    ensures
        follows(st, equate(st, a, b).0),
        made_equal(equate(st, a, b).0.subst.map, a, b),
{
    reveal(equate);
    law_unify_sound(st.subst, a, b);
}

proof fn lemma_fresh_names(st: InferV, vars: Seq<TyVar>, i: nat, m: Map<TyVar, TyVar>)
    ensures
        fresh_names(st, vars, i, m).0.subst.map == st.subst.map,
    decreases vars.len() - i,
{
    if i < vars.len() {
        reveal_with_fuel(fresh_names, 2);
        let next = crate::state::fresh(st);
        lemma_fresh_names(
            next,
            vars,
            i + 1,
            m.insert(vars[i as int], crate::state::next_var(st)),
        );
    }
}

proof fn lemma_ident(st: InferV, env: EnvV, e: ExprV, name: Seq<char>)
    requires
        e.kind == ExprKindV::Ident(name),
        ident_use(st, env, name, e.id, e.span).1 is Ok,
    ensures
        ident_use(st, env, name, e.id, e.span).0.subst.map == st.subst.map,
        has_type(st.subst.map, env, e, ident_use(st, env, name, e.id, e.span).1->Ok_0),
{
    reveal(ident_use);
    reveal(instance);
    let s = env[name].scheme;
    lemma_fresh_names(st, s.vars, 0, Map::empty());
    let names = fresh_names(st, s.vars, 0, Map::empty()).1;
    let t = ident_use(st, env, name, e.id, e.span).1->Ok_0;
    assert(t == scheme_instance(s, names));
    assert(typed_by(st.subst.map, env, e, t, Typing::Name(names)));
}

/// What the checker gives for an expression of these forms is a type that the expression
/// has, by what is solved when it is done, and nothing that was solved before is lost.
pub proof fn law_infer_gives_a_type(st: InferV, env: EnvV, e: ExprV)
    requires
        solved_well(st),
        is_core(e),
        checked(st, env, e, None).res is Ok,
    ensures
        follows(st, checked(st, env, e, None).st),
        has_type(
            checked(st, env, e, None).st.subst.map,
            env,
            e,
            checked(st, env, e, None).res->Ok_0,
        ),
    decreases expr_size(e), 1nat, 0nat,
{
    reveal(checked);
    reveal(infer_step);
    reveal(infer_kind);
    reveal_with_fuel(is_core, 2);
    let within = below(expr_size(e));
    lemma_below_agrees(expr_size(e), expr_kind_size(e.kind));
    match e.kind {
        ExprKindV::Ident(name) => {
            lemma_ident(st, env, e, name);
        },
        ExprKindV::Grouped(inner) => {
            assert(within(st, env, *inner, None) == checked(st, env, *inner, None));
            law_infer_gives_a_type(st, env, *inner);
            let r = checked(st, env, *inner, None);
            let m2 = r.st.subst.map;
            let u = r.res->Ok_0;
            let d = choose|d: Typing| typed_by(m2, env, *inner, u, d);
            assert(typed_by(m2, env, e, u, Typing::Grouped(Box::new(d))));
        },
        ExprKindV::Not(operand) => {
            reveal(not_run);
            assert(within(st, env, *operand, None) == checked(st, env, *operand, None));
            law_infer_gives_a_type(st, env, *operand);
            let r = checked(st, env, *operand, None);
            let u = r.res->Ok_0;
            lemma_equate(r.st, u, bool_ty());
            let m2 = equate(r.st, u, bool_ty()).0.subst.map;
            law_typing_is_stable(r.st.subst.map, m2, env, *operand, u);
            let d = choose|d: Typing| typed_by(m2, env, *operand, u, d);
            assert(typed_by(m2, env, e, bool_ty(), Typing::Not(u, Box::new(d))));
        },
        ExprKindV::Tuple(items) => {
            assert forall|k: int| 0 <= k < items.len() implies is_core(#[trigger] items[k])
                && expr_size(items[k]) < expr_size(e) by {
                lemma_exprs_size(items, k);
            }
            lemma_each(within, st, env, items, 0, Seq::empty(), expr_size(e));
            let r = each_run(within, st, env, items, 0, Seq::empty());
            let ts = r.res->Ok_0;
            let m2 = r.st.subst.map;
            let ds = Seq::new(
                items.len(),
                |k: int| choose|d: Typing| typed_by(m2, env, items[k], ts[k], d),
            );
            assert forall|k: int| 0 <= k < items.len() implies typed_by(
                m2,
                env,
                #[trigger] items[k],
                ts[k],
                ds[k],
            ) by {
                assert(has_type(m2, env, items[k], ts[k]));
            }
            assert(typed_by(m2, env, e, TyV::Tuple(ts), Typing::Tuple(ts, ds)));
        },
        ExprKindV::If { cond, then_branch, else_branch } => {
            lemma_branches(within, st, env, e);
        },
        _ => {
            let r = checked(st, env, e, None);
            assert(typed_by(r.st.subst.map, env, e, r.res->Ok_0, Typing::Literal));
        },
    }
}

proof fn lemma_branches(within: Within, st: InferV, env: EnvV, e: ExprV)
    requires
        solved_well(st),
        is_core(e),
        e.kind is If,
        within == below(expr_size(e)),
        infer_kind(within, st, env, e.kind, e.id, e.span).res is Ok,
    ensures
        follows(st, infer_kind(within, st, env, e.kind, e.id, e.span).st),
        has_type(
            infer_kind(within, st, env, e.kind, e.id, e.span).st.subst.map,
            env,
            e,
            infer_kind(within, st, env, e.kind, e.id, e.span).res->Ok_0,
        ),
    decreases expr_size(e), 0nat, 0nat,
{
    reveal(infer_kind);
    reveal(branches_run);
    reveal_with_fuel(is_core, 2);
    lemma_below_agrees(expr_size(e), expr_kind_size(e.kind));
    let cond = *e.kind->If_cond;
    let x = *e.kind->If_then_branch;
    let y = *e.kind->If_else_branch;
    assert(within(st, env, cond, None) == checked(st, env, cond, None));
    let r0 = checked(st, env, cond, None);
    law_infer_gives_a_type(st, env, cond);
    let c = r0.res->Ok_0;
    lemma_equate(r0.st, c, bool_ty());
    let st1 = equate(r0.st, c, bool_ty()).0;
    assert(within(st1, env, x, None) == checked(st1, env, x, None));
    law_infer_gives_a_type(st1, env, x);
    let r1 = checked(st1, env, x, None);
    let a = r1.res->Ok_0;
    assert(within(r1.st, env, y, None) == checked(r1.st, env, y, None));
    law_infer_gives_a_type(r1.st, env, y);
    let r2 = checked(r1.st, env, y, None);
    let b = r2.res->Ok_0;
    let j = combine(r2.st, a, b);
    let m2 = r2.st.subst.map;
    let t = j.1->Ok_0;
    lemma_combined(r2.st, a, b);
    let m3 = j.0.subst.map;
    law_typing_is_stable(r0.st.subst.map, m3, env, cond, c);
    lemma_made_equal_later(st1.subst.map, m3, c, bool_ty());
    law_typing_is_stable(r1.st.subst.map, m3, env, x, a);
    law_typing_is_stable(m2, m3, env, y, b);
    let d0 = choose|d: Typing| typed_by(m3, env, cond, c, d);
    let d1 = choose|d: Typing| typed_by(m3, env, x, a, d);
    let d2 = choose|d: Typing| typed_by(m3, env, y, b, d);
    let why = Typing::If { cond: c, yes: a, no: b, why: seq![d0, d1, d2] };
    assert(typed_by(m3, env, e, t, why));
}

proof fn lemma_combined(st: InferV, a: TyV, b: TyV)
    requires
        solved_well(st),
        combine(st, a, b).1 is Ok,
    ensures
        follows(st, combine(st, a, b).0),
        joins(combine(st, a, b).0.subst.map, a, b, combine(st, a, b).1->Ok_0),
{
    reveal(resolved);
    let m = st.subst.map;
    let x = apply(m, a);
    let y = apply(m, b);
    lemma_extend_absorbs(m, m, a);
    lemma_extend_absorbs(m, m, b);
    if x != TyV::Never && y != TyV::Never {
        lemma_equate(st, x, y);
        let m2 = equate(st, x, y).0.subst.map;
        lemma_extend_absorbs(m, m2, a);
        lemma_extend_absorbs(m, m2, b);
        lemma_extend_absorbs(m2, m2, x);
    }
}

proof fn lemma_each(
    within: Within,
    st: InferV,
    env: EnvV,
    s: Seq<ExprV>,
    i: nat,
    tys: Seq<TyV>,
    n: nat,
)
    requires
        solved_well(st),
        i <= s.len(),
        tys.len() == i,
        n > 0,
        agrees(within, (n - 1) as nat),
        forall|k: int| i <= k < s.len() ==> is_core(#[trigger] s[k]) && expr_size(s[k]) < n,
        each_run(within, st, env, s, i, tys).res is Ok,
    ensures
        follows(st, each_run(within, st, env, s, i, tys).st),
        each_run(within, st, env, s, i, tys).res->Ok_0.len() == s.len(),
        forall|k: int| 0 <= k < i ==> each_run(within, st, env, s, i, tys).res->Ok_0[k] == tys[k],
        forall|k: int|
            i <= k < s.len() ==> has_type(
                each_run(within, st, env, s, i, tys).st.subst.map,
                env,
                #[trigger] s[k],
                each_run(within, st, env, s, i, tys).res->Ok_0[k],
            ),
    decreases n, 0nat, s.len() - i,
{
    reveal_with_fuel(each_run, 2);
    if i < s.len() {
        let x = s[i as int];
        assert(is_core(x));
        assert(within(st, env, x, None) == checked(st, env, x, None));
        law_infer_gives_a_type(st, env, x);
        let r = checked(st, env, x, None);
        let ty = r.res->Ok_0;
        let s2 = s.update(i as int, r.node);
        assert forall|k: int| i + 1 <= k < s2.len() implies is_core(#[trigger] s2[k]) && expr_size(
            s2[k],
        ) < n by {
            assert(s2[k] == s[k]);
        }
        lemma_each(within, r.st, env, s2, i + 1, tys.push(ty), n);
        let all = each_run(within, st, env, s, i, tys);
        law_typing_is_stable(r.st.subst.map, all.st.subst.map, env, x, ty);
        assert(all.res->Ok_0[i as int] == tys.push(ty)[i as int]);
        assert forall|k: int| i <= k < s.len() implies has_type(
            all.st.subst.map,
            env,
            #[trigger] s[k],
            all.res->Ok_0[k],
        ) by {
            if k > i {
                assert(s2[k] == s[k]);
            }
        }
        assert forall|k: int| 0 <= k < i implies all.res->Ok_0[k] == tys[k] by {
            assert(all.res->Ok_0[k] == tys.push(ty)[k]);
        }
    }
}

} // verus!
