//! What holds of operators that are accepted.

use vstd::prelude::*;

use crate::apply::{apply, lemma_extend_absorbs, SubstMap};
use crate::ast_size::expr_size;
use crate::ast_view::{DictRefV, ExprV, ResolvedCalleeV, TraitDefV, TraitMethodV};
use crate::checker::{below, binary_run, checked, custom_run, for_run, infer_kind, neg_run};
use crate::checker::{pipe_run, trait_op_run};
use crate::convert::{MAX_ALIAS_DEPTH, VarNames};
use crate::dict_laws::{is_named_for, law_dict_serves, lemma_first_dict, serves};
use crate::dict_names::param_name;
use crate::dicts::{KnownV, MAX_DICT_DEPTH};
use crate::dispatch::{choose_dict, choose_iterable, eq_dict, eq_items, method_named};
use crate::ends::{chosen, function_operator, iter_types, named_scheme, operator_end};
use crate::ends::{operator_start, pipe_end, plain_apply, scheme_apply, ArgsV, OpV};
use crate::env::EnvV;
use crate::error::SpannedV;
use crate::finish::{constrained_apply, element_of_iterator, operator_method, operator_types};
use crate::form_laws::{all_given, law_call_finishes, takes};
use crate::keeps_checker::law_checking_keeps_what_is_solved;
use crate::keeps_ends::keeps_iter_types;
use crate::keeps_finish::{keeps_multi_operator, keeps_operator_types};
use crate::keeps_pattern_infer::keeps_match_pattern;
use crate::keeps_schemes::keeps_instance;
use crate::pattern_infer::match_pattern;
use crate::rule_laws::{gives, lemma_equal_later, lemma_equated, lemma_gives, lemma_kind};
use crate::rule_laws::lemma_solvable_later;
use crate::schemes::instance;
use crate::scopes::in_loop;
use crate::solutions::{grows, lemma_grows_reflexive, lemma_grows_transitive, solvable};
use crate::state::{fresh, known_of, next_var, InferV};
use crate::steps::{concrete_dict, equate, resolved, written};
use crate::ty::{unary_constraint, SchemeV, TyV, TyVar};
use crate::ty_helpers::plain_func;
use crate::type_syntax::target_keys;
use crate::typing::same;
use crate::unify_laws::made_equal;
use crate::written_laws::{law_operator_is_read, lemma_more_names, lemma_names_kept};
use crate::written_laws::{lemma_written, method_typed, names_of, stands_for, NamesV};

verus! {

broadcast use {lemma_grows_reflexive, lemma_grows_transitive};

/// Whether a dictionary compares values of a type: that of a tuple is made of those of its
/// components, and a type that is open has the one that is passed for it.
pub open spec fn compares(k: KnownV, ty: TyV, d: DictRefV) -> bool
    decreases ty,
{
    match ty {
        TyV::Tuple(items) => d matches DictRefV::Composed(s) && s.trait_name == "Eq"@
            && s.args.len() == items.len() && forall|i: int|
            0 <= i < items.len() ==> compares(k, #[trigger] items[i], s.args[i]),
        TyV::Var(v) => d matches DictRefV::Param(name) && name == param_name(
            unary_constraint(v, "Eq"@),
        ),
        _ => serves(k, "Eq"@, ty, d),
    }
}

proof fn lemma_eq_dict(st: InferV, env: EnvV, ty: TyV)
    requires
        eq_dict(st, env, ty).1 is Ok,
    ensures
        known_of(eq_dict(st, env, ty).0, env) == known_of(st, env),
        eq_dict(st, env, ty).0.subst == st.subst,
        compares(known_of(st, env), ty, eq_dict(st, env, ty).1->Ok_0),
    decreases ty, 0nat,
{
    reveal(concrete_dict);
    match ty {
        TyV::Tuple(items) => {
            lemma_eq_items(st, env, items, 0, Seq::empty());
            let d = eq_dict(st, env, ty).1->Ok_0;
            assert(d is Composed);
            let args = d->Composed_0.args;
            assert(args == eq_items(st, env, items, 0, Seq::empty()).1->Ok_0);
            assert forall|i: int| 0 <= i < items.len() implies compares(
                known_of(st, env),
                #[trigger] items[i],
                args[i],
            ) by {}
        },
        TyV::Var(_) => {},
        _ => {
            law_dict_serves(known_of(st, env), "Eq"@, ty, MAX_DICT_DEPTH as nat);
        },
    }
}

proof fn lemma_eq_items(st: InferV, env: EnvV, items: Seq<TyV>, i: nat, done: Seq<DictRefV>)
    requires
        i <= items.len(),
        done.len() == i,
        eq_items(st, env, items, i, done).1 is Ok,
    ensures
        known_of(eq_items(st, env, items, i, done).0, env) == known_of(st, env),
        eq_items(st, env, items, i, done).0.subst == st.subst,
        eq_items(st, env, items, i, done).1->Ok_0.len() == items.len(),
        done.is_prefix_of(eq_items(st, env, items, i, done).1->Ok_0),
        forall|k: int|
            i <= k < items.len() ==> compares(
                known_of(st, env),
                #[trigger] items[k],
                eq_items(st, env, items, i, done).1->Ok_0[k],
            ),
    decreases items, items.len() - i,
{
    if i < items.len() {
        let d = eq_dict(st, env, items[i as int]);
        lemma_eq_dict(st, env, items[i as int]);
        let more = done.push(d.1->Ok_0);
        lemma_eq_items(d.0, env, items, i + 1, more);
        let all = eq_items(st, env, items, i, done).1->Ok_0;
        assert(all[i as int] == more[i as int]);
        assert(more.take(i as int) =~= done);
        assert(done =~= all.take(i as int));
    }
}

/// Whether a use of the method of a trait is given what it needs at the type `target`: while
/// that is open it is noted as pending, and else the method is that of a dictionary of the
/// trait for it.
pub open spec fn is_chosen(
    k: KnownV,
    m: SubstMap,
    trait_name: Seq<char>,
    method: Seq<char>,
    target: TyV,
    before: OpV,
    after: OpV,
) -> bool {
    match apply(m, target) {
        TyV::Var(v) => {
            &&& after.resolved == before.resolved
            &&& after.pending matches Some(p) && p.var == v && p.trait_name == trait_name && p.args
                == seq![TyV::Var(v)]
        },
        ty => {
            &&& after.pending == before.pending
            &&& after.resolved matches Some(
                ResolvedCalleeV::DictMethod { dict, method: called },
            ) && called == method && if trait_name == "Eq"@ && ty is Tuple {
                compares(k, ty, dict)
            } else {
                serves(k, trait_name, ty, dict)
            }
        },
    }
}

proof fn lemma_choose_dict(
    st: InferV,
    env: EnvV,
    trait_name: Seq<char>,
    method: Seq<char>,
    target: TyV,
    before: OpV,
)
    requires
        solvable(st.subst.map),
        choose_dict(st, env, trait_name, resolved(st, target)).1 is Ok,
    ensures
        ({
            let c = choose_dict(st, env, trait_name, resolved(st, target));
            &&& c.0.subst == st.subst
            &&& is_chosen(
                known_of(c.0, env),
                c.0.subst.map,
                trait_name,
                method,
                target,
                before,
                chosen(before, c.1->Ok_0, method),
            )
        }),
{
    reveal(choose_dict);
    reveal(resolved);
    reveal(concrete_dict);
    let m = st.subst.map;
    lemma_applied(m, target);
    let ty = apply(m, target);
    if ty is Var {
    } else if trait_name == "Eq"@ && ty is Tuple {
        lemma_eq_dict(st, env, ty);
    } else {
        law_dict_serves(known_of(st, env), trait_name, ty, MAX_DICT_DEPTH as nat);
    }
}

/// What is solved once is solved.
pub(crate) proof fn lemma_applied(m: SubstMap, t: TyV)
    requires
        solvable(m),
    ensures
        apply(m, apply(m, t)) == apply(m, t),
{
    reveal(grows);
    assert(grows(m, m));
    lemma_extend_absorbs(m, m, t);
}

proof fn lemma_method_named(ms: Seq<TraitMethodV>, name: Seq<char>, i: nat)
    requires
        method_named(ms, name, i) is Some,
    ensures
        ms.contains(method_named(ms, name, i)->0),
        (method_named(ms, name, i)->0).name == name,
    decreases ms.len() - i,
{
    if ms[i as int].name != name {
        lemma_method_named(ms, name, i + 1);
    }
}

/// A negated value that is accepted is of the type that the method `-` of the trait `Neg`
/// takes, the result is of the one that it gives, and the method is that of a dictionary of
/// the trait (or noted as pending while its type is open).
pub proof fn law_negated_value_is_typed(st: InferV, env: EnvV, e: ExprV)
    requires
        solvable(st.subst.map),
        e.kind is Neg,
        checked(st, env, e, None).res is Ok,
    ensures
        ({
            let done = checked(st, env, e, None);
            let m = done.st.subst.map;
            let def = st.traits["Neg"@];
            &&& st.traits.dom().contains("Neg"@)
            &&& def.params.len() == 1
            &&& done.node.kind is Neg
            &&& exists|method: TraitMethodV, args: Seq<TyV>, params: Seq<TyV>, ret: TyV, t: TyV|
                #![trigger method_typed(names_of(st), def, method, args, params, ret), gives(st.subst.map, m, env, *e.kind->Neg_operand, t)]
                def.methods.contains(method) && method.name == "-"@ && params.len() == 1
                    && method_typed(names_of(st), def, method, args, params, ret) && gives(
                    st.subst.map,
                    m,
                    env,
                    *e.kind->Neg_operand,
                    t,
                ) && made_equal(m, t, params[0]) && same(m, done.res->Ok_0, ret) && is_chosen(
                    known_of(done.st, env),
                    m,
                    "Neg"@,
                    "-"@,
                    args[0],
                    (OpV { resolved: e.kind->Neg_resolved_op, pending: e.kind->Neg_pending_op }),
                    (OpV {
                        resolved: done.node.kind->Neg_resolved_op,
                        pending: done.node.kind->Neg_pending_op,
                    }),
                )
        }),
{
    lemma_kind(st, env, e);
    reveal(infer_kind);
    reveal(neg_run);
    reveal(operator_method);
    let within = below(expr_size(e));
    let operand = *e.kind->Neg_operand;
    let op = operator_method(st, "Neg"@, "-"@, 1)->Ok_0;
    lemma_method_named(op.def.methods, "-"@, 0);
    let t = operator_types(st, op);
    law_operator_is_read(st, op);
    keeps_operator_types(st, op);
    lemma_solvable_later(st.subst.map, t.st.subst.map);
    let want = Some(t.params[0]);
    let r = checked(t.st, env, operand, want);
    assert(within(t.st, env, operand, want) == r);
    law_checking_keeps_what_is_solved(t.st, env, operand, want);
    lemma_solvable_later(t.st.subst.map, r.st.subst.map);
    let ty = r.res->Ok_0;
    let u = equate(r.st, ty, t.params[0]);
    lemma_equated(r.st, ty, t.params[0]);
    let before = OpV { resolved: e.kind->Neg_resolved_op, pending: e.kind->Neg_pending_op };
    lemma_choose_dict(u.0, env, "Neg"@, "-"@, t.args[0], before);
    let done = checked(st, env, e, None);
    let m = done.st.subst.map;
    assert(m == u.0.subst.map);
    reveal(resolved);
    lemma_applied(m, t.ret);
    lemma_gives(t.st, want, st.subst.map, m, env, operand, ty);
    assert(method_typed(names_of(st), op.def, op.method, t.args, t.params, t.ret));
}

/// An operator of a trait that is accepted has operands of the types that the trait's method
/// of its name takes. If the trait has one parameter, the result is of the type that
/// the method gives, and the method is that of a dictionary of the trait (or noted as
/// pending while the type is open).
pub proof fn law_trait_operator_is_typed(st: InferV, env: EnvV, e: ExprV)
    requires
        solvable(st.subst.map),
        e.kind is Binary,
        e.kind->Binary_op is Custom,
        checked(st, env, *e.kind->Binary_lhs, None).st.op_traits.dom().contains(
            e.kind->Binary_op->Custom_0,
        ),
        checked(st, env, e, None).res is Ok,
    ensures
        ({
            let done = checked(st, env, e, None);
            let m = done.st.subst.map;
            let left = checked(st, env, *e.kind->Binary_lhs, None);
            let name = e.kind->Binary_op->Custom_0;
            let trait_name = left.st.op_traits[name];
            let def = left.st.traits[trait_name];
            &&& left.res is Ok
            &&& left.st.traits.dom().contains(trait_name)
            &&& done.node.kind is Binary
            &&& exists|method: TraitMethodV, args: Seq<TyV>, params: Seq<TyV>, ret: TyV, t: TyV|
                #![trigger method_typed(names_of(left.st), def, method, args, params, ret), gives(left.st.subst.map, m, env, *e.kind->Binary_rhs, t)]
                def.methods.contains(method) && method.name == name && params.len() == 2
                    && method_typed(names_of(left.st), def, method, args, params, ret) && gives(
                    left.st.subst.map,
                    m,
                    env,
                    *e.kind->Binary_rhs,
                    t,
                ) && made_equal(m, left.res->Ok_0, params[0]) && made_equal(m, t, params[1]) && (
                def.params.len() == 1 ==> same(m, done.res->Ok_0, ret) && is_chosen(
                    known_of(done.st, env),
                    m,
                    trait_name,
                    name,
                    args[0],
                    (OpV {
                        resolved: e.kind->Binary_resolved_op,
                        pending: e.kind->Binary_pending_op,
                    }),
                    (OpV {
                        resolved: done.node.kind->Binary_resolved_op,
                        pending: done.node.kind->Binary_pending_op,
                    }),
                ))
        }),
{
    lemma_kind(st, env, e);
    reveal(infer_kind);
    reveal(binary_run);
    reveal(custom_run);
    reveal(trait_op_run);
    reveal(operator_start);
    reveal(operator_end);
    reveal(operator_method);
    reveal(resolved);
    let within = below(expr_size(e));
    let lhs = *e.kind->Binary_lhs;
    let rhs = *e.kind->Binary_rhs;
    let name = e.kind->Binary_op->Custom_0;
    let left = checked(st, env, lhs, None);
    assert(within(st, env, lhs, None) == left);
    law_checking_keeps_what_is_solved(st, env, lhs, None);
    lemma_solvable_later(st.subst.map, left.st.subst.map);
    let l_ty = left.res->Ok_0;
    let trait_name = left.st.op_traits[name];
    let op = operator_method(left.st, trait_name, name, 2)->Ok_0;
    lemma_method_named(op.def.methods, name, 0);
    let t = operator_types(left.st, op);
    let o = operator_start(left.st, trait_name, name, l_ty);
    law_operator_is_read(left.st, op);
    keeps_operator_types(left.st, op);
    lemma_solvable_later(left.st.subst.map, t.st.subst.map);
    lemma_equated(t.st, l_ty, t.params[0]);
    let want = Some(o.right);
    let r = checked(o.st, env, rhs, want);
    assert(within(o.st, env, rhs, want) == r);
    law_checking_keeps_what_is_solved(o.st, env, rhs, want);
    lemma_solvable_later(o.st.subst.map, r.st.subst.map);
    let r_ty = r.res->Ok_0;
    let u = equate(r.st, r_ty, o.right);
    lemma_equated(r.st, r_ty, o.right);
    let before = OpV { resolved: e.kind->Binary_resolved_op, pending: e.kind->Binary_pending_op };
    let done = checked(st, env, e, None);
    let m = done.st.subst.map;
    if op.def.params.len() == 1 {
        lemma_choose_dict(u.0, env, trait_name, name, t.args[0], before);
        lemma_applied(m, t.ret);
    } else {
        keeps_multi_operator(u.0, env, op.def, trait_name, name, o.args, l_ty, o.right, o.ret);
    }
    lemma_solvable_later(u.0.subst.map, m);
    lemma_equal_later(o.st.subst.map, m, l_ty, t.params[0]);
    lemma_equal_later(u.0.subst.map, m, r_ty, o.right);
    lemma_unresolved(o.st.subst.map, m, r_ty, t.params[1]);
    lemma_gives(o.st, want, left.st.subst.map, m, env, rhs, r_ty);
    assert(method_typed(names_of(left.st), op.def, op.method, t.args, t.params, t.ret));
}

/// What is equal to a type as it was solved before is equal to the type.
pub(crate) proof fn lemma_unresolved(m: SubstMap, m2: SubstMap, a: TyV, b: TyV)
    requires
        solvable(m),
        grows(m, m2),
        made_equal(m2, a, apply(m, b)),
    ensures
        made_equal(m2, a, b),
{
    reveal(grows);
    lemma_extend_absorbs(m, m2, b);
}

// ---------------------------------------------------------------------------
// Operators that are functions, and pipes
// ---------------------------------------------------------------------------

/// Whether `ty` is the type of a use of a scheme.
pub open spec fn is_instance(scheme: SchemeV, ty: TyV) -> bool {
    exists|st: InferV| (#[trigger] instance(st, scheme)).1.ty == ty
}

proof fn lemma_plain_apply(st: InferV, callee: TyV, args: Seq<TyV>)
    requires
        solvable(st.subst.map),
        plain_apply(st, callee, args).1 is Ok,
    ensures
        ({
            let p = plain_apply(st, callee, args);
            takes(p.0.subst.map, callee, args, p.1->Ok_0)
        }),
{
    reveal(resolved);
    let ret = TyV::Var(next_var(st));
    let want = plain_func(args, ret);
    lemma_equated(fresh(st), callee, want);
    let m = plain_apply(st, callee, args).0.subst.map;
    lemma_applied(m, ret);
    let (ps, r) = (want->Func_0, want->Func_1);
    assert(made_equal(m, callee, TyV::Func(ps, r)));
    assert forall|i: int| 0 <= i < args.len() implies (#[trigger] ps[i]).ty == args[i] by {}
    assert(same(m, plain_apply(st, callee, args).1->Ok_0, *r.ty));
}

proof fn lemma_scheme_apply(
    st: InferV,
    env: EnvV,
    scheme: SchemeV,
    args: Seq<TyV>,
    given: ArgsV,
)
    requires
        solvable(st.subst.map),
        scheme_apply(st, env, scheme, args, given).res is Ok,
    ensures
        ({
            let u = scheme_apply(st, env, scheme, args, given);
            &&& takes(u.st.subst.map, instance(st, scheme).1.ty, args, u.res->Ok_0)
            &&& all_given(
                given.dicts,
                given.pending,
                u.args.dicts,
                u.args.pending,
                scheme.constraints.len(),
            )
        }),
{
    reveal(constrained_apply);
    keeps_instance(st, scheme);
    let inst = instance(st, scheme);
    lemma_solvable_later(st.subst.map, inst.0.subst.map);
    assert(inst.1.constraints.len() == scheme.constraints.len()) by {
        reveal(instance);
    }
    law_call_finishes(
        inst.0,
        env,
        Seq::empty(),
        args,
        inst.1.ty,
        inst.1.constraints,
        Seq::empty(),
        None,
        None,
        given.dicts,
        given.pending,
    );
}

/// A value that is passed on by a pipe, and accepted, is passed to something that takes it,
/// and what comes of it has the type that this gives. Where a name with constraints is
/// used it is given a dictionary, or one to come, for each.
pub proof fn law_pipe_is_typed(st: InferV, env: EnvV, e: ExprV)
    requires
        solvable(st.subst.map),
        e.kind is Binary,
        e.kind->Binary_op is Pipe,
        checked(st, env, e, None).res is Ok,
    ensures
        ({
            let done = checked(st, env, e, None);
            let m = done.st.subst.map;
            let left = checked(st, env, *e.kind->Binary_lhs, None);
            let right = checked(left.st, env, *e.kind->Binary_rhs, None);
            let scheme = named_scheme(env, right.node);
            &&& left.res is Ok
            &&& right.res is Ok
            &&& done.node.kind is Binary
            &&& if scheme is Some && scheme->0.constraints.len() > 0 {
                &&& all_given(
                    e.kind->Binary_dict_args,
                    e.kind->Binary_pending_dict_args,
                    done.node.kind->Binary_dict_args,
                    done.node.kind->Binary_pending_dict_args,
                    scheme->0.constraints.len(),
                )
                &&& exists|c: TyV|
                    #![trigger is_instance(scheme->0, c)]
                    is_instance(scheme->0, c) && takes(
                        m,
                        c,
                        seq![left.res->Ok_0],
                        done.res->Ok_0,
                    )
            } else {
                takes(m, right.res->Ok_0, seq![left.res->Ok_0], done.res->Ok_0)
            }
        }),
{
    lemma_kind(st, env, e);
    reveal(infer_kind);
    reveal(binary_run);
    reveal(pipe_run);
    reveal(pipe_end);
    let within = below(expr_size(e));
    let lhs = *e.kind->Binary_lhs;
    let rhs = *e.kind->Binary_rhs;
    let left = checked(st, env, lhs, None);
    assert(within(st, env, lhs, None) == left);
    law_checking_keeps_what_is_solved(st, env, lhs, None);
    lemma_solvable_later(st.subst.map, left.st.subst.map);
    let right = checked(left.st, env, rhs, None);
    assert(within(left.st, env, rhs, None) == right);
    law_checking_keeps_what_is_solved(left.st, env, rhs, None);
    lemma_solvable_later(left.st.subst.map, right.st.subst.map);
    let args = seq![left.res->Ok_0];
    let given = ArgsV {
        dicts: e.kind->Binary_dict_args,
        pending: e.kind->Binary_pending_dict_args,
    };
    match named_scheme(env, right.node) {
        Some(scheme) if scheme.constraints.len() > 0 => {
            lemma_scheme_apply(right.st, env, scheme, args, given);
            assert(is_instance(scheme, instance(right.st, scheme).1.ty));
        },
        _ => {
            lemma_plain_apply(right.st, right.res->Ok_0, args);
        },
    }
}

/// An operator that is no method of a trait, and accepted, is a function that takes both
/// operands, and what comes of it has the type that this gives. If it has constraints, it
/// is given a dictionary, or one to come, for each.
pub proof fn law_function_operator_is_typed(st: InferV, env: EnvV, e: ExprV)
    requires
        solvable(st.subst.map),
        e.kind is Binary,
        e.kind->Binary_op is Custom,
        !checked(st, env, *e.kind->Binary_lhs, None).st.op_traits.dom().contains(
            e.kind->Binary_op->Custom_0,
        ),
        checked(st, env, e, None).res is Ok,
    ensures
        ({
            let done = checked(st, env, e, None);
            let m = done.st.subst.map;
            let left = checked(st, env, *e.kind->Binary_lhs, None);
            let right = checked(left.st, env, *e.kind->Binary_rhs, None);
            let name = e.kind->Binary_op->Custom_0;
            let scheme = env[name].scheme;
            &&& left.res is Ok
            &&& right.res is Ok
            &&& done.node.kind is Binary
            &&& env.dom().contains(name)
            &&& scheme.constraints.len() > 0 ==> all_given(
                e.kind->Binary_dict_args,
                e.kind->Binary_pending_dict_args,
                done.node.kind->Binary_dict_args,
                done.node.kind->Binary_pending_dict_args,
                scheme.constraints.len(),
            ) && done.node.kind->Binary_resolved_op == Some(ResolvedCalleeV::Function(name))
            &&& exists|c: TyV|
                #![trigger is_instance(scheme, c)]
                is_instance(scheme, c) && takes(
                    m,
                    c,
                    seq![left.res->Ok_0, right.res->Ok_0],
                    done.res->Ok_0,
                )
        }),
{
    lemma_kind(st, env, e);
    reveal(infer_kind);
    reveal(binary_run);
    reveal(custom_run);
    reveal(function_operator);
    let within = below(expr_size(e));
    let lhs = *e.kind->Binary_lhs;
    let rhs = *e.kind->Binary_rhs;
    let left = checked(st, env, lhs, None);
    assert(within(st, env, lhs, None) == left);
    law_checking_keeps_what_is_solved(st, env, lhs, None);
    lemma_solvable_later(st.subst.map, left.st.subst.map);
    let right = checked(left.st, env, rhs, None);
    assert(within(left.st, env, rhs, None) == right);
    law_checking_keeps_what_is_solved(left.st, env, rhs, None);
    lemma_solvable_later(left.st.subst.map, right.st.subst.map);
    let args = seq![left.res->Ok_0, right.res->Ok_0];
    let given = ArgsV {
        dicts: e.kind->Binary_dict_args,
        pending: e.kind->Binary_pending_dict_args,
    };
    let scheme = env[e.kind->Binary_op->Custom_0].scheme;
    let inst = instance(right.st, scheme);
    assert(is_instance(scheme, inst.1.ty));
    if scheme.constraints.len() > 0 {
        lemma_scheme_apply(right.st, env, scheme, args, given);
    } else {
        keeps_instance(right.st, scheme);
        lemma_solvable_later(right.st.subst.map, inst.0.subst.map);
        lemma_plain_apply(inst.0, inst.1.ty, args);
    }
}

// ---------------------------------------------------------------------------
// Loops over something
// ---------------------------------------------------------------------------

/// Whether what is gone through has these types: `own` is what the method `iter` takes,
/// where the trait's parameter is `target`, and `ret` is what it gives.
pub open spec fn iterates_by(
    n: NamesV,
    def: TraitDefV,
    method: TraitMethodV,
    target: TyV,
    own: TyV,
    ret: TyV,
    vars: VarNames,
) -> bool {
    &&& def.params.len() > 0
    &&& method.params.len() > 0
    &&& vars.dom().contains(def.params[0])
    &&& target == TyV::Var(vars[def.params[0]])
    &&& stands_for(n, vars, method.params[0].ty, own, MAX_ALIAS_DEPTH as nat)
    &&& stands_for(n, vars, method.ret_type, ret, MAX_ALIAS_DEPTH as nat)
}

proof fn lemma_iter_types(st: InferV, env: EnvV)
    requires
        iter_types(st).err is None,
    ensures
        known_of(iter_types(st).st, env) == known_of(st, env),
        st.traits.dom().contains("Iterable"@),
        ({
            let t = iter_types(st);
            let def = st.traits["Iterable"@];
            exists|method: TraitMethodV, vars: VarNames|
                #![trigger iterates_by(names_of(st), def, method, t.target, t.self_ty, t.ret, vars)]
                def.methods.contains(method) && method.name == "iter"@ && iterates_by(
                    names_of(st),
                    def,
                    method,
                    t.target,
                    t.self_ty,
                    t.ret,
                    vars,
                )
        }),
{
    reveal(iter_types);
    let t = iter_types(st);
    let n = names_of(st);
    let def = st.traits["Iterable"@];
    let method = method_named(def.methods, "iter"@, 0)->0;
    lemma_method_named(def.methods, "iter"@, 0);
    let target = next_var(st);
    let vars = Map::<Seq<char>, TyVar>::empty().insert(def.params[0], target);
    let a = written(fresh(st), vars, method.params[0].ty);
    lemma_written(fresh(st), vars, method.params[0].ty);
    let b = written(a.st, a.vars, method.ret_type);
    lemma_written(a.st, a.vars, method.ret_type);
    let k = def.params[0];
    assert(vars.dom().contains(k) && vars[k] == target);
    lemma_names_kept(vars, a.vars, k);
    lemma_names_kept(a.vars, b.vars, k);
    lemma_more_names(
        n,
        a.vars,
        b.vars,
        method.params[0].ty,
        t.self_ty,
        MAX_ALIAS_DEPTH as nat,
    );
    assert(iterates_by(n, def, method, t.target, t.self_ty, t.ret, b.vars));
}

/// Whether a loop is given what it goes through its values by: while their type is open it is
/// noted as pending, and else it is the method of the dictionary of `Iterable` for the
/// type.
pub open spec fn iter_chosen(k: KnownV, ty: TyV, before: OpV, after: OpV) -> bool {
    if target_keys(ty).len() == 0 {
        &&& after.resolved == before.resolved
        &&& after.pending matches Some(p) && ty == TyV::Var(p.var) && p.trait_name == "Iterable"@
    } else {
        &&& after.pending == before.pending
        &&& after.resolved matches Some(
            ResolvedCalleeV::DictMethod { dict: DictRefV::Concrete(name), method },
        ) && method == "iter"@ && is_named_for(k, "Iterable"@, ty, name)
    }
}

/// A loop over something that is accepted goes through a value of the type that the method
/// `iter` of the trait `Iterable` takes, by the dictionary of the trait for it. Its
/// pattern is accepted for the type of what the iterator gives, its body is checked with
/// what the pattern binds, and it has no value.
pub proof fn law_iteration_is_typed(st: InferV, env: EnvV, e: ExprV)
    requires
        solvable(st.subst.map),
        e.kind is For,
        checked(st, env, e, None).res is Ok,
    ensures
        ({
            let done = checked(st, env, e, None);
            let m = done.st.subst.map;
            let source = checked(st, env, *e.kind->For_iterable, None);
            let def = source.st.traits["Iterable"@];
            &&& done.res == Ok::<TyV, SpannedV>(TyV::Unit)
            &&& source.res is Ok
            &&& done.node.kind is For
            &&& source.st.traits.dom().contains("Iterable"@)
            &&& exists|
                method: TraitMethodV,
                target: TyV,
                own: TyV,
                ret: TyV,
                vars: VarNames,
                mid: InferV,
            |
                #![trigger iterates_by(names_of(source.st), def, method, target, own, ret, vars), grows(mid.subst.map, m)]
                def.methods.contains(method) && method.name == "iter"@ && iterates_by(
                    names_of(source.st),
                    def,
                    method,
                    target,
                    own,
                    ret,
                    vars,
                ) && made_equal(m, source.res->Ok_0, own) && grows(source.st.subst.map, mid.subst.map)
                    && grows(mid.subst.map, m) && iter_chosen(
                    known_of(source.st, env),
                    apply(mid.subst.map, target),
                    (OpV { resolved: e.kind->For_resolved_iter, pending: e.kind->For_pending_iter }),
                    (OpV {
                        resolved: done.node.kind->For_resolved_iter,
                        pending: done.node.kind->For_pending_iter,
                    }),
                ) && loop_body_checked(mid, m, env, e, ret)
        }),
{
    lemma_kind(st, env, e);
    reveal(infer_kind);
    reveal(for_run);
    reveal(choose_iterable);
    reveal(resolved);
    let within = below(expr_size(e));
    let iterable = *e.kind->For_iterable;
    let body = *e.kind->For_body;
    let source = checked(st, env, iterable, None);
    assert(within(st, env, iterable, None) == source);
    law_checking_keeps_what_is_solved(st, env, iterable, None);
    lemma_solvable_later(st.subst.map, source.st.subst.map);
    let t = iter_types(source.st);
    lemma_iter_types(source.st, env);
    keeps_iter_types(source.st);
    lemma_solvable_later(source.st.subst.map, t.st.subst.map);
    let def = source.st.traits["Iterable"@];
    let (method, vars) = choose|method: TraitMethodV, vars: VarNames|
        #![trigger iterates_by(names_of(source.st), def, method, t.target, t.self_ty, t.ret, vars)]
        def.methods.contains(method) && method.name == "iter"@ && iterates_by(
            names_of(source.st),
            def,
            method,
            t.target,
            t.self_ty,
            t.ret,
            vars,
        );
    let u = equate(t.st, source.res->Ok_0, t.self_ty);
    lemma_equated(t.st, source.res->Ok_0, t.self_ty);
    let target = resolved(u.0, t.target);
    let c = choose_iterable(u.0, env, target);
    let mid = c.0;
    if target_keys(target).len() > 0 {
        assert(known_of(u.0, env) == known_of(source.st, env)) by {
            reveal(equate);
        }
        lemma_first_dict(known_of(u.0, env), "Iterable"@, target, 0);
    }
    let element = resolved(mid, element_of_iterator(resolved(mid, t.ret)));
    lemma_applied(mid.subst.map, element_of_iterator(resolved(mid, t.ret)));
    let p = match_pattern(mid, env, e.kind->For_pat, element, false);
    keeps_match_pattern(mid, env, e.kind->For_pat, element, false);
    let inside = in_loop(p.st, TyV::Unit);
    let r = checked(inside, p.env, body, None);
    assert(within(inside, p.env, body, None) == r);
    law_checking_keeps_what_is_solved(inside, p.env, body, None);
    let m = checked(st, env, e, None).st.subst.map;
    assert(grows(mid.subst.map, m));
    lemma_equal_later(u.0.subst.map, m, source.res->Ok_0, t.self_ty);
    assert(match_pattern(mid, env, e.kind->For_pat, element, false).err is None);
    lemma_gives(inside, None, mid.subst.map, m, p.env, body, r.res->Ok_0);
    assert(loop_body_checked(mid, m, env, e, t.ret));
    assert(iterates_by(names_of(source.st), def, method, t.target, t.self_ty, t.ret, vars));
}

/// Whether the pattern of a loop is accepted for what an iterator of the type `ret` gives, and
/// the body is checked with what the pattern binds.
pub open spec fn loop_body_checked(mid: InferV, m: SubstMap, env: EnvV, e: ExprV, ret: TyV) -> bool {
    exists|element: TyV, t: TyV|
        #![trigger gives(mid.subst.map, m, match_pattern(mid, env, e.kind->For_pat, element, false).env, *e.kind->For_body, t)]
        match_pattern(mid, env, e.kind->For_pat, element, false).err is None && gives(
            mid.subst.map,
            m,
            match_pattern(mid, env, e.kind->For_pat, element, false).env,
            *e.kind->For_body,
            t,
        ) && (apply(mid.subst.map, ret) matches TyV::App(_, args) ==> args.len() == 1 ==> same(
            mid.subst.map,
            element,
            args[0],
        ))
}

} // verus!
