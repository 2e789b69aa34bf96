//! That nothing solved is lost.

use vstd::prelude::*;

use crate::associated::{inherent_member, inherent_use, key_with_method, method_in};
use crate::associated::{trait_member, trait_use, under};
use crate::ast::{NO_NODE_ID, NodeId, SourceSpan};
use crate::ast_rest::{lemma_stmts_rest, lemma_stmts_whole};
use crate::ast_size::{expr_size, stmt_size, stmts_size};
use crate::ast_view::{ArgWrapperV, ArrayEntryV, BinOpV, DictRefV, ExprKindV, ExprV, FnDefV};
use crate::ast_view::{ImplDefV, ImplMethodV, InherentImplDefV, InherentMethodV, MacroDefV};
use crate::ast_view::{MatchArmV, ParamV, PatternV, PendingDictArgV, PendingMethodV};
use crate::ast_view::{RecordEntryV, ResolvedCalleeV, StmtV, TraitDefV, TraitMethodV};
use crate::ast_view::{TypeBoundV, TypeV};
use crate::call_parts::{arg_expects, form_of, known_caps, lead_span, lead_tys, misuse_of};
use crate::call_parts::{param_at, pick, probed, receiver_noted, FormV};
use crate::checker::{all_args, apply_run, apply_scheme_run, arg_run, args_run, arm_run};
use crate::checker::{arms_run, array_method_run, array_run, assign_run, associated_call_run};
use crate::checker::{below, binary_run, block_run, body_run, bool_ty, bound_run, branches_run};
use crate::checker::{break_run, call_run, checked, checked_args, checker};
use crate::checker::{constrained_call_run, custom_run, dot_call_run, each_run, entries_run};
use crate::checker::{entry_run, expected_kind, expected_method_run, expected_step};
use crate::checker::{explicit_call_run, field_call_run, field_entry_run, field_run};
use crate::checker::{field_value_run, fields_run, final_run, fn_run, for_run, impl_body_run};
use crate::checker::{impl_run, index_run, infer_kind, infer_step, inherent_call_run};
use crate::checker::{inherent_run, item_run, lambda_run, let_run, let_value_run, loop_run};
use crate::checker::{macro_body_run, macro_run, match_run, meets, method_def_run};
use crate::checker::{method_defs_run, method_run, neg_run, not_run, one_field, own_method_run};
use crate::checker::{own_methods_run, pipe_run, plain_call_run, probe_run, range_run};
use crate::checker::{rec_bodies_run, rec_body_run, rec_run, receiver_run, receiver_trait_run};
use crate::checker::{record_run, return_run, row_call_run, scheme_method_run, scoped_run};
use crate::checker::{spread_run, stmt_kind_run, stmt_run, stmts_run, target_run, tests_run};
use crate::checker::{trait_method_run, trait_op_run, trait_use_run, trial_run, uses_expected};
use crate::checker::Within;
use crate::convert::VarNames;
use crate::definitions::{child_level, lambda_head, return_type, RecInfoV};
use crate::dict_names::dict_params;
use crate::dispatch::choose_iterable;
use crate::ends::{iter_types, operator_start, ArgsV, OpV};
use crate::env::EnvV;
use crate::error::{ContextV, TypeErrorV};
use crate::finish::{element_of_iterator, lead_arg, noted_symbol, operator_method};
use crate::finish::{operator_types, params_of};
use crate::impl_parts::{bodies_of, impl_start, method_head, own_head};
use crate::items::test_shape;
use crate::keeps_associated::{keeps_inherent_use, keeps_trait_use};
use crate::keeps_call_parts::{keeps_arg_after, keeps_args_after, keeps_array_after};
use crate::keeps_call_parts::{keeps_probed, keeps_receiver_noted, keeps_trait_finish};
use crate::keeps_call_parts::keeps_trial_after;
use crate::keeps_definitions::{keeps_end_def, keeps_lambda_head};
use crate::keeps_dispatch::{keeps_choose_dict, keeps_choose_iterable};
use crate::keeps_ends::{keeps_function_operator, keeps_iter_types, keeps_operator_end};
use crate::keeps_ends::{keeps_operator_start, keeps_pipe_end};
use crate::keeps_finish::{keeps_associated_access, keeps_finish_call, keeps_ident_use};
use crate::keeps_finish::{keeps_imported_use, keeps_index_use, keeps_lead_arg};
use crate::keeps_finish::{keeps_operator_types, keeps_spread_into};
use crate::keeps_impl_parts::{keeps_impl_finish, keeps_impl_start, keeps_inherent_after};
use crate::keeps_impl_parts::{keeps_method_after, keeps_method_head, keeps_own_after};
use crate::keeps_impl_parts::keeps_own_head;
use crate::keeps_macro_phase::{keeps_macro_after, keeps_macro_head};
use crate::keeps_pattern_infer::keeps_match_pattern;
use crate::keeps_rec_parts::{keeps_group_head, keeps_rec_after, keeps_rec_start};
use crate::keeps_receiver::{keeps_array_method_for, keeps_receiver_use};
use crate::keeps_schemes::keeps_instance;
use crate::keeps_steps::{keeps_equate, keeps_equate_result, keeps_give_dicts, keeps_written};
use crate::keeps_stmt_parts::{keeps_fn_after, keeps_fn_head, keeps_let_after};
use crate::keeps_stmt_parts::{keeps_stmt_after, keeps_value_after};
use crate::keeps_ty_helpers::keeps_combine;
use crate::macro_phase::macro_head;
use crate::places::imported_scheme;
use crate::rec_parts::{def_bodies, defs_of, group_head, rec_start};
use crate::receiver::{array_method_for, trait_candidates, ArrayMethodV, CandidateV};
use crate::rows::FieldV;
use crate::schemes::{instance, lists, value_of};
use crate::scopes::{at_level, in_function, out_of_function, pending_on};
use crate::self_types::self_method;
use crate::solutions::{grows, lemma_grows_reflexive, lemma_grows_transitive};
use crate::state::{fresh, next_var, InferV};
use crate::steps::{equate, exits, give_dicts, resolved, written};
use crate::stmt_parts::{error_place, fn_head, let_of};
use crate::subst::TypeLevel;
use crate::ty::{ConstraintV, ParamCapability, ReturnV, SchemeV, TyV};
use crate::ty_helpers::{array_element, array_of, combine, constraints_on, open_array, ty_caps};
use crate::ty_helpers::without_constraints;
use crate::type_syntax::{field_ty, inherent_key, target_keys};
use crate::walkers::leaves;

verus! {

broadcast use {lemma_grows_reflexive, lemma_grows_transitive};

/// A way to check expressions that never loses anything solved.
pub open spec fn steady(within: Within) -> bool {
    forall|st: InferV, env: EnvV, e: ExprV, want: Option<TyV>|
        grows(st.subst.map, (#[trigger] within(st, env, e, want)).st.subst.map)
}

pub proof fn keeps_infer_step(within: Within, st: InferV, env: EnvV, e: ExprV)
    requires
        steady(within),
    ensures
        grows(st.subst.map, infer_step(within, st, env, e).st.subst.map),
{
    reveal(infer_step);
    keeps_infer_kind(within, st, env, e.kind, e.id, e.span);
}

pub proof fn keeps_expected_step(
    within: Within,
    st: InferV,
    env: EnvV,
    e: ExprV,
    expected: TyV,
)
    requires
        steady(within),
    ensures
        grows(st.subst.map, expected_step(within, st, env, e, expected).st.subst.map),
{
    reveal(expected_step);
    let want = resolved(st, expected);
    if uses_expected(e.kind, want) {
        keeps_expected_kind(within, st, env, e.kind, e.id, e.span, want);
    } else {
        keeps_infer_step(within, st, env, e);
        let r = infer_step(within, st, env, e);
        match r.res {
            Err(error) => {},
            Ok(actual) => {
                keeps_equate_result(r.st, actual, want);
            },
        }
    }
}

pub proof fn keeps_meets(st: InferV, ty: TyV, want: TyV, span: SourceSpan)
    ensures
        grows(st.subst.map, meets(st, ty, want, span).0.subst.map),
{
    keeps_equate(st, ty, want);
}

pub proof fn keeps_expected_kind(
    within: Within,
    st: InferV,
    env: EnvV,
    k: ExprKindV,
    id: NodeId,
    span: SourceSpan,
    want: TyV,
)
    requires
        steady(within),
    ensures
        grows(st.subst.map, expected_kind(within, st, env, k, id, span, want).st.subst.map),
{
    reveal(expected_kind);
    match k {
        ExprKindV::Grouped(inner) => {},
        ExprKindV::Array(entries) => {
            keeps_array_run(within, st, env, entries, Some(want), span);
        },
        ExprKindV::If { cond, then_branch, else_branch } => {
            keeps_branches_run(within, st, env, *cond, *then_branch, *else_branch, Some(want));
            let r = branches_run(within, st, env, *cond, *then_branch, *else_branch, Some(want));
            match r.res {
                Err(e) => {},
                Ok(tys) => {
                    keeps_combine(r.st, tys.0, tys.1);
                    let c = combine(r.st, tys.0, tys.1);
                    match c.1 {
                        Err(e) => {},
                        Ok(ty) => {
                            keeps_meets(c.0, ty, want, span);
                        },
                    }
                },
            }
        },
        ExprKindV::Match { scrutinee, arms } => {
            keeps_match_run(within, st, env, *scrutinee, arms, Some(want));
            let r = match_run(within, st, env, *scrutinee, arms, Some(want));
            match r.res {
                Err(e) => {},
                Ok(None) => {},
                Ok(Some(ty)) => {
                    keeps_meets(r.st, ty, want, span);
                },
            }
        },
        ExprKindV::Lambda { params, return_type, body, dict_params } => {
            match want {
                TyV::Func(ps, ret) => {
                    keeps_lambda_run(within, st, env, *body, dict_params, id, params, return_type, Some((ps, ret)),);
                },
                _ => {},
            }
        },
        ExprKindV::Call { callee, args, is_method_call, arg_wrappers, resolved_callee, pending_trait_method, dict_args, pending_dict_args, } => {
            keeps_dot_call_run(within, st, env, *callee, args, is_method_call, arg_wrappers, resolved_callee, pending_trait_method, dict_args, pending_dict_args, id, Some(want),);
        },
        _ => {},
    }
}

pub proof fn keeps_infer_kind(
    within: Within,
    st: InferV,
    env: EnvV,
    k: ExprKindV,
    id: NodeId,
    span: SourceSpan,
)
    requires
        steady(within),
    ensures
        grows(st.subst.map, infer_kind(within, st, env, k, id, span).st.subst.map),
{
    reveal(infer_kind);
    match k {
        ExprKindV::Grouped(inner) => {},
        ExprKindV::Number(n) => {},
        ExprKindV::StringLit(_) => {},
        ExprKindV::Bool(_) => {},
        ExprKindV::Unit => {},
        ExprKindV::Import(path) => {},
        ExprKindV::Ident(name) => {
            keeps_ident_use(st, env, name, id, span);
        },
        ExprKindV::Not(operand) => {
            keeps_not_run(within, st, env, *operand);
        },
        ExprKindV::Neg { operand, resolved_op, pending_op } => {
            keeps_neg_run(within, st, env, *operand, resolved_op, pending_op);
        },
        ExprKindV::Assign { target, value } => {
            keeps_assign_run(within, st, env, *target, *value);
        },
        ExprKindV::Binary { lhs, op, rhs, resolved_op, pending_op, dict_args, pending_dict_args } => {
            keeps_binary_run(within, st, env, *lhs, *rhs, resolved_op, pending_op, dict_args, pending_dict_args, op,);
        },
        ExprKindV::Range { start, end, inclusive } => {
            keeps_range_run(within, st, env, start, end, inclusive);
        },
        ExprKindV::AssociatedAccess { target, target_span, member, member_span, resolution } => {
            keeps_associated_access(st, env, id, target, target_span, member, member_span, resolution,);
        },
        ExprKindV::If { cond, then_branch, else_branch } => {
            keeps_branches_run(within, st, env, *cond, *then_branch, *else_branch, None);
            let r = branches_run(within, st, env, *cond, *then_branch, *else_branch, None);
            match r.res {
                Err(e) => {},
                Ok(tys) => {
                    keeps_combine(r.st, tys.0, tys.1);
                },
            }
        },
        ExprKindV::Match { scrutinee, arms } => {
            keeps_match_run(within, st, env, *scrutinee, arms, None);
        },
        ExprKindV::Loop(body) => {
            keeps_loop_run(within, st, env, *body);
        },
        ExprKindV::Break(val) => {
            keeps_break_run(within, st, env, val);
        },
        ExprKindV::Return(val) => {
            keeps_return_run(within, st, env, val);
        },
        ExprKindV::Continue => {},
        ExprKindV::Block { stmts, final_expr } => {
            keeps_block_run(within, st, env, stmts, final_expr);
        },
        ExprKindV::Tuple(items) => {
            keeps_each_run(within, st, env, items, 0, Seq::empty());
        },
        ExprKindV::Array(entries) => {
            keeps_array_run(within, st, env, entries, None, span);
        },
        ExprKindV::Record(entries) => {
            keeps_record_run(within, st, env, entries);
        },
        ExprKindV::FieldAccess { expr, field } => {
            keeps_field_run(within, st, env, *expr, field, id);
        },
        ExprKindV::Index { receiver, key, resolved_callee, pending_trait_method, dict_args, pending_dict_args, } => {
            keeps_index_run(within, st, env, *receiver, *key, resolved_callee, pending_trait_method);
        },
        ExprKindV::Lambda { params, return_type, body, dict_params } => {
            keeps_lambda_run(within, st, env, *body, dict_params, id, params, return_type, None);
        },
        ExprKindV::For { pat, iterable, body, resolved_iter, pending_iter } => {
            keeps_for_run(within, st, env, *iterable, *body, resolved_iter, pending_iter, pat);
        },
        ExprKindV::Call { callee, args, is_method_call, arg_wrappers, resolved_callee, pending_trait_method, dict_args, pending_dict_args, } => {
            keeps_call_run(within, st, env, *callee, args, is_method_call, arg_wrappers, resolved_callee, pending_trait_method, dict_args, pending_dict_args, id, span,);
        },
    }
}

pub proof fn keeps_probe_run(
    within: Within,
    st: InferV,
    env: EnvV,
    args: Seq<ExprV>,
    all: Seq<CandidateV>,
    receiver_ty: TyV,
    i: nat,
    found: Seq<CandidateV>,
    fits: Seq<CandidateV>,
)
    requires
        steady(within),
    ensures
        grows(st.subst.map, probe_run(within, st, env, args, all, receiver_ty, i, found, fits).st.subst.map),
    decreases all.len() - i,
{
    reveal_with_fuel(probe_run, 1);
    if i >= all.len() {
    } else {
        keeps_trial_run(within, st, env, args, all[i as int], receiver_ty);
        let t = trial_run(within, st, env, args, all[i as int], receiver_ty);
        keeps_probed(st, t, env, receiver_ty, all[i as int], found, fits);
        let p = probed(st, t, env, receiver_ty, all[i as int], found, fits);
        keeps_probe_run(within, p.st, env, args, all, receiver_ty, i + 1, p.found, p.fits);
    }
}

pub proof fn keeps_trial_run(
    within: Within,
    st: InferV,
    env: EnvV,
    args: Seq<ExprV>,
    c: CandidateV,
    receiver_ty: TyV,
)
    requires
        steady(within),
    ensures
        grows(st.subst.map, trial_run(within, st, env, args, c, receiver_ty).st.subst.map),
{
    reveal(trial_run);
    keeps_all_args(within, st, env, args, Seq::empty(), Seq::empty(), 0);
    keeps_trial_after(all_args(within, st, env, args, Seq::empty(), Seq::empty(), 0), env, receiver_ty, c,);
}

pub proof fn keeps_not_run(within: Within, st: InferV, env: EnvV, operand: ExprV)
    requires
        steady(within),
    ensures
        grows(st.subst.map, not_run(within, st, env, operand).st.subst.map),
{
    reveal(not_run);
    let r = within(st, env, operand, None);
    let st = r.st;
    match r.res {
        Err(error) => {},
        Ok(ty) => {
            keeps_equate(st, ty, bool_ty());
        },
    }
}

pub proof fn keeps_neg_run(
    within: Within,
    st: InferV,
    env: EnvV,
    operand: ExprV,
    resolved_op: Option<ResolvedCalleeV>,
    pending_op: Option<PendingDictArgV>,
)
    requires
        steady(within),
    ensures
        grows(st.subst.map, neg_run(within, st, env, operand, resolved_op, pending_op).st.subst.map),
{
    reveal(neg_run);
    match operator_method(st, "Neg"@, "-"@, 1) {
        Err(e) => {},
        Ok(op) => {
            keeps_operator_types(st, op);
            let t = operator_types(st, op);
            let st = t.st;
            match t.err {
                Some(e) => {},
                None => {
                    if op.def.params.len() != 1 {
                    } else {
                        let r = within(st, env, operand, Some(t.params[0]));
                        let st = r.st;
                        match r.res {
                            Err(error) => {},
                            Ok(ty) => {
                                keeps_equate(st, ty, t.params[0]);
                                let u = equate(st, ty, t.params[0]);
                                let st = u.0;
                                match u.1 {
                                    Some(error) => {},
                                    None => {
                                        keeps_choose_dict(st, env, "Neg"@, resolved(st, t.args[0]));
                                    },
                                }
                            },
                        }
                    }
                },
            }
        },
    }
}

pub proof fn keeps_target_run(within: Within, st: InferV, env: EnvV, target: ExprV)
    requires
        steady(within),
    ensures
        grows(st.subst.map, target_run(within, st, env, target).st.subst.map),
{
    reveal(target_run);
    match target.kind {
        ExprKindV::Ident(name) => {
            if !env.dom().contains(name) {
            } else {
                if !env[name].binding_mutable {
                } else {
                    keeps_instance(st, env[name].scheme);
                }
            }
        },
        ExprKindV::FieldAccess { .. } => {},
        _ => {},
    }
}

pub proof fn keeps_assign_run(
    within: Within,
    st: InferV,
    env: EnvV,
    target: ExprV,
    value: ExprV,
)
    requires
        steady(within),
    ensures
        grows(st.subst.map, assign_run(within, st, env, target, value).st.subst.map),
{
    reveal(assign_run);
    keeps_target_run(within, st, env, target);
    let r = target_run(within, st, env, target);
    let st = r.st;
    match r.res {
        Err(error) => {},
        Ok(target_ty) => {
            let r = within(st, env, value, None);
            let st = r.st;
            match r.res {
                Err(error) => {},
                Ok(value_ty) => {
                    keeps_equate(st, target_ty, value_ty);
                },
            }
        },
    }
}

pub proof fn keeps_pipe_run(
    within: Within,
    st: InferV,
    env: EnvV,
    lhs: ExprV,
    rhs: ExprV,
    dict_args: Seq<DictRefV>,
    pending_dict_args: Seq<PendingDictArgV>,
    l_ty: TyV,
)
    requires
        steady(within),
    ensures
        grows(st.subst.map, pipe_run(
            within,
            st,
            env,
            lhs,
            rhs,
            dict_args,
            pending_dict_args,
            l_ty,
        ).st.subst.map),
{
    reveal(pipe_run);
    let r = within(st, env, rhs, None);
    let st = r.st;
    let rhs = r.node;
    match r.res {
        Err(error) => {},
        Ok(r_ty) => {
            keeps_pipe_end(st, env, lhs, rhs, l_ty, r_ty, ArgsV { dicts: dict_args, pending: pending_dict_args },);
        },
    }
}

pub proof fn keeps_trait_op_run(
    within: Within,
    st: InferV,
    env: EnvV,
    rhs: ExprV,
    resolved_op: Option<ResolvedCalleeV>,
    pending_op: Option<PendingDictArgV>,
    op: Seq<char>,
    trait_name: Seq<char>,
    l_ty: TyV,
)
    requires
        steady(within),
    ensures
        grows(st.subst.map, trait_op_run(
            within,
            st,
            env,
            rhs,
            resolved_op,
            pending_op,
            op,
            trait_name,
            l_ty,
        ).st.subst.map),
{
    reveal(trait_op_run);
    keeps_operator_start(st, trait_name, op, l_ty);
    let o = operator_start(st, trait_name, op, l_ty);
    let st = o.st;
    match o.err {
        Some(e) => {},
        None => {
            let r = within(st, env, rhs, Some(o.right));
            let st = r.st;
            match r.res {
                Err(error) => {},
                Ok(r_ty) => {
                    keeps_operator_end(st, env, o.def, o.args, o.right, o.ret, trait_name, op, l_ty, r_ty, OpV { resolved: resolved_op, pending: pending_op },);
                },
            }
        },
    }
}

pub proof fn keeps_custom_run(
    within: Within,
    st: InferV,
    env: EnvV,
    rhs: ExprV,
    resolved_op: Option<ResolvedCalleeV>,
    pending_op: Option<PendingDictArgV>,
    dict_args: Seq<DictRefV>,
    pending_dict_args: Seq<PendingDictArgV>,
    op: Seq<char>,
    l_ty: TyV,
)
    requires
        steady(within),
    ensures
        grows(st.subst.map, custom_run(
            within,
            st,
            env,
            rhs,
            resolved_op,
            pending_op,
            dict_args,
            pending_dict_args,
            op,
            l_ty,
        ).st.subst.map),
{
    reveal(custom_run);
    if st.op_traits.dom().contains(op) {
        let trait_name = st.op_traits[op];
        keeps_trait_op_run(within, st, env, rhs, resolved_op, pending_op, op, trait_name, l_ty);
    } else {
        let r = within(st, env, rhs, None);
        let st = r.st;
        match r.res {
            Err(error) => {},
            Ok(r_ty) => {
                keeps_function_operator(st, env, op, l_ty, r_ty, resolved_op, ArgsV { dicts: dict_args, pending: pending_dict_args },);
            },
        }
    }
}

pub proof fn keeps_binary_run(
    within: Within,
    st: InferV,
    env: EnvV,
    lhs: ExprV,
    rhs: ExprV,
    resolved_op: Option<ResolvedCalleeV>,
    pending_op: Option<PendingDictArgV>,
    dict_args: Seq<DictRefV>,
    pending_dict_args: Seq<PendingDictArgV>,
    op: BinOpV,
)
    requires
        steady(within),
    ensures
        grows(st.subst.map, binary_run(
            within,
            st,
            env,
            lhs,
            rhs,
            resolved_op,
            pending_op,
            dict_args,
            pending_dict_args,
            op,
        ).st.subst.map),
{
    reveal(binary_run);
    let r = within(st, env, lhs, None);
    let st = r.st;
    let lhs = r.node;
    match r.res {
        Err(error) => {},
        Ok(l_ty) => {
            match op {
                BinOpV::Pipe => {
                    keeps_pipe_run(within, st, env, lhs, rhs, dict_args, pending_dict_args, l_ty);
                },
                BinOpV::Custom(name) => {
                    keeps_custom_run(within, st, env, rhs, resolved_op, pending_op, dict_args, pending_dict_args, name, l_ty,);
                },
            }
        },
    }
}

pub proof fn keeps_bound_run(
    within: Within,
    st: InferV,
    env: EnvV,
    bound: Option<Box<ExprV>>,
    context: ContextV,
)
    requires
        steady(within),
    ensures
        grows(st.subst.map, bound_run(within, st, env, bound, context).st.subst.map),
{
    reveal(bound_run);
    match bound {
        Some(e) => {
            let r = within(st, env, *e, None);
            let st = r.st;
            match r.res {
                Err(e) => {},
                Ok(ty) => {
                    keeps_equate(st, ty, TyV::Int);
                },
            }
        },
        None => {},
    }
}

pub proof fn keeps_range_run(
    within: Within,
    st: InferV,
    env: EnvV,
    start: Option<Box<ExprV>>,
    end: Option<Box<ExprV>>,
    inclusive: bool,
)
    requires
        steady(within),
    ensures
        grows(st.subst.map, range_run(within, st, env, start, end, inclusive).st.subst.map),
{
    reveal(range_run);
    keeps_bound_run(within, st, env, start, ContextV::RangeStart);
    let r = bound_run(within, st, env, start, ContextV::RangeStart);
    let st = r.st;
    match r.res {
        Err(error) => {},
        Ok(_) => {
            keeps_bound_run(within, st, env, end, ContextV::RangeEnd);
        },
    }
}

pub proof fn keeps_branches_run(
    within: Within,
    st: InferV,
    env: EnvV,
    cond: ExprV,
    then_branch: ExprV,
    else_branch: ExprV,
    expected: Option<TyV>,
)
    requires
        steady(within),
    ensures
        grows(st.subst.map, branches_run(within, st, env, cond, then_branch, else_branch, expected).st.subst.map),
{
    reveal(branches_run);
    let r = within(st, env, cond, None);
    let st = r.st;
    match r.res {
        Err(error) => {},
        Ok(ty) => {
            keeps_equate(st, ty, bool_ty());
        },
    }
}

pub proof fn keeps_arm_run(
    within: Within,
    st: InferV,
    env: EnvV,
    body: ExprV,
    pattern: PatternV,
    s_ty: TyV,
    first: TyV,
    expected: Option<TyV>,
)
    requires
        steady(within),
    ensures
        grows(st.subst.map, arm_run(within, st, env, body, pattern, s_ty, first, expected).st.subst.map),
{
    reveal(arm_run);
    keeps_match_pattern(st, env, pattern, resolved(st, s_ty), false);
}

pub proof fn keeps_arms_run(
    within: Within,
    st: InferV,
    env: EnvV,
    arms: Seq<MatchArmV>,
    s_ty: TyV,
    first: TyV,
    expected: Option<TyV>,
    i: nat,
    found: Option<TyV>,
)
    requires
        steady(within),
    ensures
        grows(st.subst.map, arms_run(within, st, env, arms, s_ty, first, expected, i, found).st.subst.map),
    decreases arms.len() - i,
{
    reveal_with_fuel(arms_run, 1);
    if i >= arms.len() {
    } else {
        let arm = arms[i as int];
        keeps_arm_run(within, st, env, arm.body, arm.pattern, s_ty, first, expected);
        let r = arm_run(within, st, env, arm.body, arm.pattern, s_ty, first, expected);
        let st = r.st;
        let arms = arms.update(i as int, MatchArmV { body: r.node, ..arm });
        match r.res {
            Err(e) => {},
            Ok(ty) => {
                match found {
                    None => {
                        keeps_arms_run(within, st, env, arms, s_ty, first, expected, i + 1, Some(ty));
                    },
                    Some(before) => {
                        keeps_combine(st, before, ty);
                        let c = combine(st, before, ty);
                        let st = c.0;
                        match c.1 {
                            Err(e) => {},
                            Ok(both) => {
                                keeps_arms_run(within, st, env, arms, s_ty, first, expected, i + 1, Some(both));
                            },
                        }
                    },
                }
            },
        }
    }
}

pub proof fn keeps_match_run(
    within: Within,
    st: InferV,
    env: EnvV,
    scrutinee: ExprV,
    arms: Seq<MatchArmV>,
    expected: Option<TyV>,
)
    requires
        steady(within),
    ensures
        grows(st.subst.map, match_run(within, st, env, scrutinee, arms, expected).st.subst.map),
{
    reveal(match_run);
    let r = within(st, env, scrutinee, None);
    let st = r.st;
    match r.res {
        Err(error) => {},
        Ok(s_ty) => {
            let first = resolved(st, s_ty);
            keeps_arms_run(within, st, env, arms, s_ty, first, expected, 0, None);
        },
    }
}

pub proof fn keeps_loop_run(within: Within, st: InferV, env: EnvV, body: ExprV)
    requires
        steady(within),
    ensures
        grows(st.subst.map, loop_run(within, st, env, body).st.subst.map),
{
    reveal(loop_run);
}

pub proof fn keeps_break_run(
    within: Within,
    st: InferV,
    env: EnvV,
    val: Option<Box<ExprV>>,
)
    requires
        steady(within),
    ensures
        grows(st.subst.map, break_run(within, st, env, val).st.subst.map),
{
    reveal(break_run);
    if st.break_tys.len() == 0 {
    } else {
        let ty = st.break_tys.last();
        match val {
            Some(e) => {
                let r = within(st, env, *e, None);
                let st = r.st;
                match r.res {
                    Err(e) => {},
                    Ok(found) => {
                        keeps_equate_result(st, found, ty);
                    },
                }
            },
            None => {
                keeps_equate(st, ty, TyV::Unit);
            },
        }
    }
}

pub proof fn keeps_return_run(
    within: Within,
    st: InferV,
    env: EnvV,
    val: Option<Box<ExprV>>,
)
    requires
        steady(within),
    ensures
        grows(st.subst.map, return_run(within, st, env, val).st.subst.map),
{
    reveal(return_run);
    if st.return_tys.len() == 0 {
    } else {
        let ret = st.return_tys.last();
        match val {
            Some(e) => {
                let r = within(st, env, *e, None);
                let st = r.st;
                match r.res {
                    Err(e) => {},
                    Ok(found) => {
                        keeps_equate_result(st, found, *ret.ty);
                    },
                }
            },
            None => {
                keeps_equate(st, *ret.ty, TyV::Unit);
            },
        }
    }
}

pub proof fn keeps_each_run(
    within: Within,
    st: InferV,
    env: EnvV,
    s: Seq<ExprV>,
    i: nat,
    tys: Seq<TyV>,
)
    requires
        steady(within),
    ensures
        grows(st.subst.map, each_run(within, st, env, s, i, tys).st.subst.map),
    decreases s.len() - i,
{
    reveal_with_fuel(each_run, 1);
    if i >= s.len() {
    } else {
        let r = within(st, env, s[i as int], None);
        let st = r.st;
        let s = s.update(i as int, r.node);
        match r.res {
            Err(e) => {},
            Ok(ty) => {
                keeps_each_run(within, st, env, s, i + 1, tys.push(ty));
            },
        }
    }
}

pub proof fn keeps_item_run(
    within: Within,
    st: InferV,
    env: EnvV,
    e: ExprV,
    want: TyV,
    is_expected: bool,
    is_spread: bool,
)
    requires
        steady(within),
    ensures
        grows(st.subst.map, item_run(within, st, env, e, want, is_expected, is_spread).st.subst.map),
{
    reveal(item_run);
    let expected = if is_expected { Some(want) } else { None };
    let r = within(st, env, e, expected);
    let st = r.st;
    match r.res {
        Err(error) => {},
        Ok(ty) => {
            if is_spread {
                keeps_equate(st, ty, want);
            } else {
                keeps_equate(st, want, ty);
            }
        },
    }
}

pub proof fn keeps_entry_run(
    within: Within,
    st: InferV,
    env: EnvV,
    entry: ArrayEntryV,
    elt: TyV,
    is_expected: bool,
)
    requires
        steady(within),
    ensures
        grows(st.subst.map, entry_run(within, st, env, entry, elt, is_expected).st.subst.map),
{
    reveal(entry_run);
    match entry {
        ArrayEntryV::Elem(e) => {
            keeps_item_run(within, st, env, e, elt, is_expected, false);
        },
        ArrayEntryV::Spread(e) => {
            keeps_item_run(within, st, env, e, array_of(elt), is_expected, true);
        },
    }
}

pub proof fn keeps_entries_run(
    within: Within,
    st: InferV,
    env: EnvV,
    s: Seq<ArrayEntryV>,
    elt: TyV,
    is_expected: bool,
    i: nat,
)
    requires
        steady(within),
    ensures
        grows(st.subst.map, entries_run(within, st, env, s, elt, is_expected, i).st.subst.map),
    decreases s.len() - i,
{
    reveal_with_fuel(entries_run, 1);
    if i >= s.len() {
    } else {
        keeps_entry_run(within, st, env, s[i as int], elt, is_expected);
        let r = entry_run(within, st, env, s[i as int], elt, is_expected);
        let st = r.st;
        let s = s.update(i as int, r.node);
        match r.res {
            Err(e) => {},
            Ok(_) => {
                keeps_entries_run(within, st, env, s, elt, is_expected, i + 1);
            },
        }
    }
}

pub proof fn keeps_array_run(
    within: Within,
    st: InferV,
    env: EnvV,
    entries: Seq<ArrayEntryV>,
    expected: Option<TyV>,
    span: SourceSpan,
)
    requires
        steady(within),
    ensures
        grows(st.subst.map, array_run(within, st, env, entries, expected, span).st.subst.map),
{
    reveal(array_run);
    let known = match expected { Some(ty) => array_element(ty), None => None, };
    let elt = match known { Some(ty) => ty, None => TyV::Var(next_var(st)), };
    let st = match known { Some(_) => st, None => fresh(st), };
    keeps_entries_run(within, st, env, entries, elt, known is Some, 0);
    let r = entries_run(within, st, env, entries, elt, known is Some, 0);
    let st = r.st;
    match r.res {
        Err(error) => {},
        Ok(_) => {
            let ty = array_of(elt);
            match expected {
                Some(whole) => {
                    keeps_equate(st, ty, whole);
                },
                None => {},
            }
        },
    }
}

pub proof fn keeps_field_value_run(
    within: Within,
    st: InferV,
    env: EnvV,
    e: ExprV,
    fields: Seq<FieldV>,
    name: Seq<char>,
)
    requires
        steady(within),
    ensures
        grows(st.subst.map, field_value_run(within, st, env, e, fields, name).st.subst.map),
{
    reveal(field_value_run);
}

pub proof fn keeps_spread_run(
    within: Within,
    st: InferV,
    env: EnvV,
    e: ExprV,
    fields: Seq<FieldV>,
    tail: TyV,
)
    requires
        steady(within),
    ensures
        grows(st.subst.map, spread_run(within, st, env, e, fields, tail).st.subst.map),
{
    reveal(spread_run);
    let r = within(st, env, e, None);
    let st = r.st;
    let e = r.node;
    match r.res {
        Err(error) => {},
        Ok(ty) => {
            keeps_spread_into(st, fields, tail, ty, e.span);
        },
    }
}

pub proof fn keeps_field_entry_run(
    within: Within,
    st: InferV,
    env: EnvV,
    entry: RecordEntryV,
    fields: Seq<FieldV>,
    tail: TyV,
)
    requires
        steady(within),
    ensures
        grows(st.subst.map, field_entry_run(within, st, env, entry, fields, tail).st.subst.map),
{
    reveal(field_entry_run);
    match entry {
        RecordEntryV::Field(name, e) => {
            keeps_field_value_run(within, st, env, e, fields, name);
        },
        RecordEntryV::Spread(e) => {
            keeps_spread_run(within, st, env, e, fields, tail);
        },
    }
}

pub proof fn keeps_fields_run(
    within: Within,
    st: InferV,
    env: EnvV,
    s: Seq<RecordEntryV>,
    i: nat,
    fields: Seq<FieldV>,
    tail: TyV,
)
    requires
        steady(within),
    ensures
        grows(st.subst.map, fields_run(within, st, env, s, i, fields, tail).st.subst.map),
    decreases s.len() - i,
{
    reveal_with_fuel(fields_run, 1);
    if i >= s.len() {
    } else {
        keeps_field_entry_run(within, st, env, s[i as int], fields, tail);
        let r = field_entry_run(within, st, env, s[i as int], fields, tail);
        let st = r.st;
        let s = s.update(i as int, r.node);
        match r.res {
            Err(e) => {},
            Ok(more) => {
                keeps_fields_run(within, st, env, s, i + 1, more.0, more.1);
            },
        }
    }
}

pub proof fn keeps_record_run(
    within: Within,
    st: InferV,
    env: EnvV,
    entries: Seq<RecordEntryV>,
)
    requires
        steady(within),
    ensures
        grows(st.subst.map, record_run(within, st, env, entries).st.subst.map),
{
    reveal(record_run);
    keeps_fields_run(within, st, env, entries, 0, Seq::empty(), TyV::Unit);
}

pub proof fn keeps_field_run(
    within: Within,
    st: InferV,
    env: EnvV,
    base: ExprV,
    field: Seq<char>,
    id: NodeId,
)
    requires
        steady(within),
    ensures
        grows(st.subst.map, field_run(within, st, env, base, field, id).st.subst.map),
{
    reveal(field_run);
    let imported = imported_scheme(st, base, field);
    let r = within(st, env, base, None);
    let st = r.st;
    match r.res {
        Err(error) => {},
        Ok(ty) => {
            match imported {
                Some(scheme) => {
                    keeps_imported_use(st, id, scheme);
                },
                None => {
                    let field_ty = TyV::Var(next_var(st));
                    let st = fresh(st);
                    let tail = TyV::Var(next_var(st));
                    let st = fresh(st);
                    keeps_equate(st, ty, one_field(field, field_ty, tail));
                },
            }
        },
    }
}

pub proof fn keeps_index_run(
    within: Within,
    st: InferV,
    env: EnvV,
    receiver: ExprV,
    key: ExprV,
    resolved_callee: Option<ResolvedCalleeV>,
    pending_trait_method: Option<PendingMethodV>,
)
    requires
        steady(within),
    ensures
        grows(st.subst.map, index_run(
            within,
            st,
            env,
            receiver,
            key,
            resolved_callee,
            pending_trait_method,
        ).st.subst.map),
{
    reveal(index_run);
    if !st.traits.dom().contains("Index"@) {
    } else {
        let def = st.traits["Index"@];
        if def.params.len() != 3 {
        } else {
            let r = within(st, env, receiver, None);
            let st = r.st;
            match r.res {
                Err(error) => {},
                Ok(receiver_ty) => {
                    let r = within(st, env, key, None);
                    let st = r.st;
                    match r.res {
                        Err(error) => {},
                        Ok(key_ty) => {
                            keeps_index_use(st, env, def, receiver_ty, key_ty);
                        },
                    }
                },
            }
        }
    }
}

pub proof fn keeps_for_run(
    within: Within,
    st: InferV,
    env: EnvV,
    iterable: ExprV,
    body: ExprV,
    resolved_iter: Option<ResolvedCalleeV>,
    pending_iter: Option<PendingDictArgV>,
    pat: PatternV,
)
    requires
        steady(within),
    ensures
        grows(st.subst.map, for_run(
            within,
            st,
            env,
            iterable,
            body,
            resolved_iter,
            pending_iter,
            pat,
        ).st.subst.map),
{
    reveal(for_run);
    let r = within(st, env, iterable, None);
    let st = r.st;
    match r.res {
        Err(error) => {},
        Ok(ty) => {
            keeps_iter_types(st);
            let t = iter_types(st);
            let st = t.st;
            match t.err {
                Some(e) => {},
                None => {
                    keeps_equate(st, ty, t.self_ty);
                    let u = equate(st, ty, t.self_ty);
                    let st = u.0;
                    match u.1 {
                        Some(error) => {},
                        None => {
                            keeps_choose_iterable(st, env, resolved(st, t.target));
                            let c = choose_iterable(st, env, resolved(st, t.target));
                            let st = c.0;
                            match c.1 {
                                Err(e) => {},
                                Ok(choice) => {
                                    let element = resolved(st, element_of_iterator(resolved(st, t.ret)));
                                    keeps_match_pattern(st, env, pat, element, false);
                                },
                            }
                        },
                    }
                },
            }
        },
    }
}

pub proof fn keeps_body_run(
    within: Within,
    st: InferV,
    env: EnvV,
    body: ExprV,
    ret: ReturnV,
    is_expected: bool,
    is_placed: bool,
)
    requires
        steady(within),
    ensures
        grows(st.subst.map, body_run(within, st, env, body, ret, is_expected, is_placed).st.subst.map),
{
    reveal(body_run);
    let r = within( in_function(st, ret), env, body, if is_expected { Some(*ret.ty) } else { None }, );
    let st = out_of_function(r.st);
    match r.res {
        Err(e) => {},
        Ok(ty) => {
            keeps_equate_result(st, ty, *ret.ty);
        },
    }
}

pub proof fn keeps_scoped_run(
    within: Within,
    st: InferV,
    env: EnvV,
    body: ExprV,
    initial: Seq<ConstraintV>,
    ret: ReturnV,
    is_expected: bool,
    is_placed: bool,
)
    requires
        steady(within),
    ensures
        grows(st.subst.map, scoped_run(within, st, env, body, initial, ret, is_expected, is_placed).st.subst.map),
{
    reveal(scoped_run);
    keeps_body_run(within, pending_on(st, initial), env, body, ret, is_expected, is_placed);
}

pub proof fn keeps_lambda_run(
    within: Within,
    st: InferV,
    env: EnvV,
    body: ExprV,
    dict_params: Seq<Seq<char>>,
    id: NodeId,
    params: Seq<ParamV>,
    annotation: Option<TypeV>,
    expected: Option<(Seq<crate::ty::ParamV>, ReturnV)>,
)
    requires
        steady(within),
    ensures
        grows(st.subst.map, lambda_run(
            within,
            st,
            env,
            body,
            dict_params,
            id,
            params,
            annotation,
            expected,
        ).st.subst.map),
{
    reveal(lambda_run);
    let ambient = st.level;
    keeps_lambda_head(at_level(st, child_level(ambient)), env, params, annotation, body.span, expected,);
    let h = lambda_head( at_level(st, child_level(ambient)), env, params, annotation, body.span, expected, );
    let st = h.st;
    match h.err {
        Some(e) => {},
        None => {
            keeps_scoped_run(within, st, h.env, body, h.initial, h.ret, expected is Some, false);
            let r = scoped_run(within, st, h.env, body, h.initial, h.ret, expected is Some, false);
            let st = at_level(r.st, ambient);
            let body = r.node;
            match r.res {
                Err(e) => {},
                Ok(left) => {
                    keeps_end_def(st, env, h.fn_ty, left, ambient, body, None, false);
                },
            }
        },
    }
}

pub proof fn keeps_arg_run(
    within: Within,
    st: InferV,
    env: EnvV,
    e: ExprV,
    expected: Option<TyV>,
)
    requires
        steady(within),
    ensures
        grows(st.subst.map, arg_run(within, st, env, e, expected).st.subst.map),
{
    reveal(arg_run);
    keeps_arg_after(within(st, env, e, arg_expects(e, expected)), env);
}

pub proof fn keeps_args_run(
    within: Within,
    st: InferV,
    env: EnvV,
    args: Seq<ExprV>,
    arg_wrappers: Seq<Option<ArgWrapperV>>,
    params: Seq<crate::ty::ParamV>,
    offset: nat,
    i: nat,
    tys: Seq<TyV>,
)
    requires
        steady(within),
    ensures
        grows(st.subst.map, args_run(within, st, env, args, arg_wrappers, params, offset, i, tys).st.subst.map),
    decreases args.len() - i,
{
    reveal_with_fuel(args_run, 1);
    if i >= args.len() {
    } else {
        keeps_arg_run(within, st, env, args[i as int], param_at(params, (offset + i) as int));
        let r = arg_run(within, st, env, args[i as int], param_at(params, (offset + i) as int));
        let st = r.st;
        let args = args.update(i as int, r.node);
        match r.res {
            Err(error) => {},
            Ok(found) => {
                keeps_args_run(within, st, env, args, arg_wrappers.push(found.wrapper), params, offset, i + 1, tys.push(found.ty),);
            },
        }
    }
}

pub proof fn keeps_all_args(
    within: Within,
    st: InferV,
    env: EnvV,
    args: Seq<ExprV>,
    arg_wrappers: Seq<Option<ArgWrapperV>>,
    params: Seq<crate::ty::ParamV>,
    offset: nat,
)
    requires
        steady(within),
    ensures
        grows(st.subst.map, all_args(within, st, env, args, arg_wrappers, params, offset).st.subst.map),
{
    reveal(all_args);
    keeps_args_run(within, st, env, args, Seq::empty(), params, offset, 0, Seq::empty());
}

pub proof fn keeps_checked_args(
    within: Within,
    st: InferV,
    env: EnvV,
    args: Seq<ExprV>,
    arg_wrappers: Seq<Option<ArgWrapperV>>,
    params: Seq<crate::ty::ParamV>,
    offset: nat,
)
    requires
        steady(within),
    ensures
        grows(st.subst.map, checked_args(within, st, env, args, arg_wrappers, params, offset).st.subst.map),
{
    reveal(checked_args);
    keeps_all_args(within, st, env, args, arg_wrappers, params, offset);
    keeps_args_after(all_args(within, st, env, args, arg_wrappers, params, offset), env, params, offset);
}

pub proof fn keeps_apply_run(
    within: Within,
    st: InferV,
    env: EnvV,
    args: Seq<ExprV>,
    arg_wrappers: Seq<Option<ArgWrapperV>>,
    dict_args: Seq<DictRefV>,
    pending_dict_args: Seq<PendingDictArgV>,
    callable: TyV,
    constraints: Seq<ConstraintV>,
    caps: Seq<ParamCapability>,
    lead: Seq<TyV>,
    first: Option<SourceSpan>,
    offset: nat,
    dict_span: Option<SourceSpan>,
)
    requires
        steady(within),
    ensures
        grows(st.subst.map, apply_run(
            within,
            st,
            env,
            args,
            arg_wrappers,
            dict_args,
            pending_dict_args,
            callable,
            constraints,
            caps,
            lead,
            first,
            offset,
            dict_span,
        ).st.subst.map),
{
    reveal(apply_run);
    keeps_checked_args(within, st, env, args, arg_wrappers, params_of(callable), offset);
    let r = checked_args(within, st, env, args, arg_wrappers, params_of(callable), offset);
    let st = r.st;
    let args = r.node.0;
    match r.res {
        Err(error) => {},
        Ok(tys) => {
            let span = if args.len() > 0 { Some(args[0].span) } else { first };
            keeps_finish_call(st, env, args, lead + tys, callable, constraints, caps, span, dict_span, dict_args, pending_dict_args,);
        },
    }
}

pub proof fn keeps_apply_scheme_run(
    within: Within,
    st: InferV,
    env: EnvV,
    args: Seq<ExprV>,
    arg_wrappers: Seq<Option<ArgWrapperV>>,
    dict_args: Seq<DictRefV>,
    pending_dict_args: Seq<PendingDictArgV>,
    scheme: SchemeV,
    lead: Option<(TyV, SourceSpan)>,
)
    requires
        steady(within),
    ensures
        grows(st.subst.map, apply_scheme_run(
            within,
            st,
            env,
            args,
            arg_wrappers,
            dict_args,
            pending_dict_args,
            scheme,
            lead,
        ).st.subst.map),
{
    reveal(apply_scheme_run);
    keeps_instance(st, scheme);
    let i = instance(st, scheme);
    let st = i.0;
    match lead {
        Some(a) => {
            keeps_lead_arg(st, i.1.ty, a.0, a.1);
        },
        None => {},
    }
    let l = match lead { Some(a) => lead_arg(st, i.1.ty, a.0, a.1), None => (st, None), };
    let st = l.0;
    match l.1 {
        Some(error) => {},
        None => {
            keeps_apply_run(within, st, env, args, arg_wrappers, dict_args, pending_dict_args, i.1.ty, i.1.constraints, Seq::empty(), lead_tys(lead), lead_span(lead), if lead is Some { 1 } else { 0 }, None,);
        },
    }
}

pub proof fn keeps_trait_method_run(
    within: Within,
    st: InferV,
    env: EnvV,
    args: Seq<ExprV>,
    arg_wrappers: Seq<Option<ArgWrapperV>>,
    resolved_callee: Option<ResolvedCalleeV>,
    pending_trait_method: Option<PendingMethodV>,
    def: TraitDefV,
    method: TraitMethodV,
)
    requires
        steady(within),
    ensures
        grows(st.subst.map, trait_method_run(
            within,
            st,
            env,
            args,
            arg_wrappers,
            resolved_callee,
            pending_trait_method,
            def,
            method,
        ).st.subst.map),
{
    reveal(trait_method_run);
    keeps_all_args(within, st, env, args, arg_wrappers, Seq::empty(), 0);
    let r = all_args(within, st, env, args, arg_wrappers, Seq::empty(), 0);
    let st = r.st;
    match r.res {
        Err(error) => {},
        Ok(tys) => {
            keeps_trait_finish(st, env, def, method, tys, resolved_callee, pending_trait_method,);
        },
    }
}

pub proof fn keeps_inherent_call_run(
    within: Within,
    st: InferV,
    env: EnvV,
    args: Seq<ExprV>,
    arg_wrappers: Seq<Option<ArgWrapperV>>,
    resolved_callee: Option<ResolvedCalleeV>,
    dict_args: Seq<DictRefV>,
    pending_dict_args: Seq<PendingDictArgV>,
    id: NodeId,
    callee_id: NodeId,
    target: TypeV,
    target_span: SourceSpan,
    member: Seq<char>,
    member_span: SourceSpan,
)
    requires
        steady(within),
    ensures
        grows(st.subst.map, inherent_call_run(
            within,
            st,
            env,
            args,
            arg_wrappers,
            resolved_callee,
            dict_args,
            pending_dict_args,
            id,
            callee_id,
            target,
            target_span,
            member,
            member_span,
        ).st.subst.map),
{
    reveal(inherent_call_run);
    match inherent_member(st, target, target_span, member, member_span) {
        Err(error) => {},
        Ok(info) => {
            keeps_inherent_use(st, target, target_span, info);
            let u = inherent_use(st, target, target_span, info);
            let st = u.0;
            match u.1 {
                Err(error) => {},
                Ok(inst) => {
                    let st = noted_symbol(st, callee_id, under(inst.constraints, inst.callable));
                    keeps_apply_run(within, st, env, args, arg_wrappers, dict_args, pending_dict_args, inst.callable, inst.constraints, ty_caps(inst.callable), Seq::empty(), None, 0, Some(member_span));
                },
            }
        },
    }
}

pub proof fn keeps_explicit_call_run(
    within: Within,
    st: InferV,
    env: EnvV,
    args: Seq<ExprV>,
    arg_wrappers: Seq<Option<ArgWrapperV>>,
    resolved_callee: Option<ResolvedCalleeV>,
    dict_args: Seq<DictRefV>,
    pending_dict_args: Seq<PendingDictArgV>,
    id: NodeId,
    callee_id: NodeId,
    def: TraitDefV,
    method: TraitMethodV,
    explicit: Option<Seq<TypeV>>,
    target_span: SourceSpan,
    member_span: SourceSpan,
)
    requires
        steady(within),
    ensures
        grows(st.subst.map, explicit_call_run(
            within,
            st,
            env,
            args,
            arg_wrappers,
            resolved_callee,
            dict_args,
            pending_dict_args,
            id,
            callee_id,
            def,
            method,
            explicit,
            target_span,
            member_span,
        ).st.subst.map),
{
    reveal(explicit_call_run);
    keeps_trait_use(st, env, def, method, explicit, target_span);
    let u = trait_use(st, env, def, method, explicit, target_span);
    let st = u.0;
    match u.1 {
        Err(error) => {},
        Ok(inst) => {
            keeps_apply_run(within, st, env, args, arg_wrappers, dict_args, pending_dict_args, inst.callable, inst.constraints, ty_caps(inst.callable), Seq::empty(), None, 0, Some(member_span));
        },
    }
}

pub proof fn keeps_associated_call_run(
    within: Within,
    st: InferV,
    env: EnvV,
    callee: ExprV,
    args: Seq<ExprV>,
    is_method_call: bool,
    arg_wrappers: Seq<Option<ArgWrapperV>>,
    resolved_callee: Option<ResolvedCalleeV>,
    pending_trait_method: Option<PendingMethodV>,
    dict_args: Seq<DictRefV>,
    pending_dict_args: Seq<PendingDictArgV>,
    id: NodeId,
    target: TypeV,
    target_span: SourceSpan,
    member: Seq<char>,
    member_span: SourceSpan,
)
    requires
        steady(within),
    ensures
        grows(st.subst.map, associated_call_run(
            within,
            st,
            env,
            callee,
            args,
            is_method_call,
            arg_wrappers,
            resolved_callee,
            pending_trait_method,
            dict_args,
            pending_dict_args,
            id,
            target,
            target_span,
            member,
            member_span,
        ).st.subst.map),
{
    reveal(associated_call_run);
    match trait_member(st, target, member, member_span) {
        Ok(Some(l)) => {
            match l.explicit {
                None => {
                    keeps_trait_method_run(within, st, env, args, arg_wrappers, resolved_callee, pending_trait_method, l.def, l.method,);
                },
                Some(_) => {
                    keeps_explicit_call_run(within, st, env, args, arg_wrappers, resolved_callee, dict_args, pending_dict_args, id, callee.id, l.def, l.method, l.explicit, target_span, member_span,);
                },
            }
        },
        Ok(None) => {
            keeps_inherent_call_run(within, st, env, args, arg_wrappers, resolved_callee, dict_args, pending_dict_args, id, callee.id, target, target_span, member, member_span,);
        },
        Err(error) => {
            if error.error is UnknownTraitMethod {
                keeps_inherent_call_run(within, st, env, args, arg_wrappers, resolved_callee, dict_args, pending_dict_args, id, callee.id, target, target_span, member, member_span,);
            }
        },
    }
}

pub proof fn keeps_constrained_call_run(
    within: Within,
    st: InferV,
    env: EnvV,
    callee: ExprV,
    args: Seq<ExprV>,
    is_method_call: bool,
    arg_wrappers: Seq<Option<ArgWrapperV>>,
    resolved_callee: Option<ResolvedCalleeV>,
    pending_trait_method: Option<PendingMethodV>,
    dict_args: Seq<DictRefV>,
    pending_dict_args: Seq<PendingDictArgV>,
    scheme: SchemeV,
    id: NodeId,
)
    requires
        steady(within),
    ensures
        grows(st.subst.map, constrained_call_run(
            within,
            st,
            env,
            callee,
            args,
            is_method_call,
            arg_wrappers,
            resolved_callee,
            pending_trait_method,
            dict_args,
            pending_dict_args,
            scheme,
            id,
        ).st.subst.map),
{
    reveal(constrained_call_run);
    let callee_id = callee.id;
    keeps_instance(st, scheme);
    let i = instance(st, scheme);
    let st = if callee_id != NO_NODE_ID { noted_symbol(i.0, callee_id, value_of(i.1)) } else { st };
    keeps_apply_scheme_run(within, st, env, args, arg_wrappers, dict_args, pending_dict_args, scheme, None);
}

pub proof fn keeps_plain_call_run(
    within: Within,
    st: InferV,
    env: EnvV,
    callee: ExprV,
    args: Seq<ExprV>,
    is_method_call: bool,
    arg_wrappers: Seq<Option<ArgWrapperV>>,
    resolved_callee: Option<ResolvedCalleeV>,
    pending_trait_method: Option<PendingMethodV>,
    dict_args: Seq<DictRefV>,
    pending_dict_args: Seq<PendingDictArgV>,
    id: NodeId,
    span: SourceSpan,
)
    requires
        steady(within),
    ensures
        grows(st.subst.map, plain_call_run(
            within,
            st,
            env,
            callee,
            args,
            is_method_call,
            arg_wrappers,
            resolved_callee,
            pending_trait_method,
            dict_args,
            pending_dict_args,
            id,
            span,
        ).st.subst.map),
{
    reveal(plain_call_run);
    let r = within(st, env, callee, None);
    let st = r.st;
    let callee = r.node;
    match r.res {
        Err(error) => {},
        Ok(value) => {
            let whole = resolved(st, value);
            let callable = without_constraints(whole);
            let caps = known_caps(st, callable, callee.id);
            keeps_apply_run(within, st, env, args, arg_wrappers, dict_args, pending_dict_args, callable, constraints_on(whole), caps, Seq::empty(), None, 0, Some(span));
        },
    }
}

pub proof fn keeps_field_call_run(
    within: Within,
    st: InferV,
    env: EnvV,
    args: Seq<ExprV>,
    arg_wrappers: Seq<Option<ArgWrapperV>>,
    dict_args: Seq<DictRefV>,
    pending_dict_args: Seq<PendingDictArgV>,
    callable: TyV,
    constraints: Seq<ConstraintV>,
    span: SourceSpan,
    id: NodeId,
    callee_id: NodeId,
)
    requires
        steady(within),
    ensures
        grows(st.subst.map, field_call_run(
            within,
            st,
            env,
            args,
            arg_wrappers,
            dict_args,
            pending_dict_args,
            callable,
            constraints,
            span,
            id,
            callee_id,
        ).st.subst.map),
{
    reveal(field_call_run);
    keeps_give_dicts(st, env, dict_args, pending_dict_args, constraints);
    let g = give_dicts(st, env, dict_args, pending_dict_args, constraints);
    let st = g.st;
    let dict_args = g.dicts;
    let pending_dict_args = g.pending;
    match g.err {
        Some(error) => {},
        None => {
            let st = noted_symbol(st, callee_id, callable);
            let caps = known_caps(st, callable, callee_id);
            keeps_apply_run(within, st, env, args, arg_wrappers, dict_args, pending_dict_args, callable, Seq::empty(), caps, Seq::empty(), None, 0, Some(span));
        },
    }
}

pub proof fn keeps_row_call_run(
    within: Within,
    st: InferV,
    env: EnvV,
    args: Seq<ExprV>,
    arg_wrappers: Seq<Option<ArgWrapperV>>,
    dict_args: Seq<DictRefV>,
    pending_dict_args: Seq<PendingDictArgV>,
    receiver_ty: TyV,
    method: Seq<char>,
    span: SourceSpan,
    callee_id: NodeId,
)
    requires
        steady(within),
    ensures
        grows(st.subst.map, row_call_run(
            within,
            st,
            env,
            args,
            arg_wrappers,
            dict_args,
            pending_dict_args,
            receiver_ty,
            method,
            span,
            callee_id,
        ).st.subst.map),
{
    reveal(row_call_run);
    let field_ty = TyV::Var(next_var(st));
    let st = fresh(st);
    let tail = TyV::Var(next_var(st));
    let st = fresh(st);
    keeps_equate(st, receiver_ty, one_field(method, field_ty, tail));
    let u = equate(st, receiver_ty, one_field(method, field_ty, tail));
    let st = u.0;
    match u.1 {
        Some(error) => {},
        None => {
            keeps_apply_run(within, st, env, args, arg_wrappers, dict_args, pending_dict_args, field_ty, Seq::empty(), Seq::empty(), Seq::empty(), None, 0, Some(span));
        },
    }
}

pub proof fn keeps_scheme_method_run(
    within: Within,
    st: InferV,
    env: EnvV,
    args: Seq<ExprV>,
    is_method_call: bool,
    arg_wrappers: Seq<Option<ArgWrapperV>>,
    resolved_callee: Option<ResolvedCalleeV>,
    dict_args: Seq<DictRefV>,
    pending_dict_args: Seq<PendingDictArgV>,
    receiver: ExprV,
    receiver_ty: TyV,
    scheme: SchemeV,
    callee: ResolvedCalleeV,
    misuse: Option<TypeErrorV>,
    callee_id: NodeId,
)
    requires
        steady(within),
    ensures
        grows(st.subst.map, scheme_method_run(
            within,
            st,
            env,
            args,
            is_method_call,
            arg_wrappers,
            resolved_callee,
            dict_args,
            pending_dict_args,
            receiver,
            receiver_ty,
            scheme,
            callee,
            misuse,
            callee_id,
        ).st.subst.map),
{
    reveal(scheme_method_run);
    keeps_instance(st, scheme);
    let i = instance(st, scheme);
    let st = noted_symbol(i.0, callee_id, value_of(i.1));
    match misuse {
        Some(error) => {},
        None => {
            keeps_apply_scheme_run(within, st, env, args, arg_wrappers, dict_args, pending_dict_args, scheme, Some((receiver_ty, receiver.span)),);
        },
    }
}

pub proof fn keeps_trait_use_run(
    within: Within,
    st: InferV,
    env: EnvV,
    args: Seq<ExprV>,
    is_method_call: bool,
    arg_wrappers: Seq<Option<ArgWrapperV>>,
    resolved_callee: Option<ResolvedCalleeV>,
    c: CandidateV,
    receiver_ty: TyV,
    callee_id: NodeId,
)
    requires
        steady(within),
    ensures
        grows(st.subst.map, trait_use_run(
            within,
            st,
            env,
            args,
            is_method_call,
            arg_wrappers,
            resolved_callee,
            c,
            receiver_ty,
            callee_id,
        ).st.subst.map),
{
    reveal(trait_use_run);
    keeps_all_args(within, st, env, args, arg_wrappers, Seq::empty(), 0);
    let r = all_args(within, st, env, args, arg_wrappers, Seq::empty(), 0);
    let st = r.st;
    match r.res {
        Err(error) => {},
        Ok(tys) => {
            keeps_receiver_use(st, env, receiver_ty, tys, c);
        },
    }
}

pub proof fn keeps_receiver_trait_run(
    within: Within,
    st: InferV,
    env: EnvV,
    args: Seq<ExprV>,
    is_method_call: bool,
    arg_wrappers: Seq<Option<ArgWrapperV>>,
    resolved_callee: Option<ResolvedCalleeV>,
    receiver_ty: TyV,
    method: Seq<char>,
    callee_id: NodeId,
)
    requires
        steady(within),
    ensures
        grows(st.subst.map, receiver_trait_run(
            within,
            st,
            env,
            args,
            is_method_call,
            arg_wrappers,
            resolved_callee,
            receiver_ty,
            method,
            callee_id,
        ).st.subst.map),
{
    reveal(receiver_trait_run);
    let all = trait_candidates(st, method);
    keeps_probe_run(within, st, env, args, all, receiver_ty, 0, Seq::empty(), Seq::empty());
    let p = probe_run(within, st, env, args, all, receiver_ty, 0, Seq::empty(), Seq::empty());
    let st = p.st;
    match pick(p.found, p.fits, method, args.len()) {
        Err(error) => {},
        Ok(None) => {},
        Ok(Some(c)) => {
            keeps_trait_use_run(within, st, env, args, is_method_call, arg_wrappers, resolved_callee, c, receiver_ty, callee_id,);
        },
    }
}

pub proof fn keeps_method_run(
    within: Within,
    st: InferV,
    env: EnvV,
    args: Seq<ExprV>,
    is_method_call: bool,
    arg_wrappers: Seq<Option<ArgWrapperV>>,
    resolved_callee: Option<ResolvedCalleeV>,
    dict_args: Seq<DictRefV>,
    pending_dict_args: Seq<PendingDictArgV>,
    receiver: ExprV,
    receiver_ty: TyV,
    method: Seq<char>,
    callee_id: NodeId,
    expected: Option<TyV>,
)
    requires
        steady(within),
    ensures
        grows(st.subst.map, method_run(
            within,
            st,
            env,
            args,
            is_method_call,
            arg_wrappers,
            resolved_callee,
            dict_args,
            pending_dict_args,
            receiver,
            receiver_ty,
            method,
            callee_id,
            expected,
        ).st.subst.map),
{
    reveal(method_run);
    let keys = target_keys(receiver_ty);
    match key_with_method(st, keys, method, 0) {
        Some(i) => {
            let info = method_in(st, keys[i as int], method)->Some_0;
            keeps_scheme_method_run(within, st, env, args, is_method_call, arg_wrappers, resolved_callee, dict_args, pending_dict_args, receiver, receiver_ty, info.scheme, info.resolved_callee, misuse_of(info, keys[i as int], method), callee_id,);
        },
        None => {
            keeps_receiver_trait_run(within, st, env, args, is_method_call, arg_wrappers, resolved_callee, receiver_ty, method, callee_id,);
            let r = receiver_trait_run( within, st, env, args, is_method_call, arg_wrappers, resolved_callee, receiver_ty, method, callee_id, );
            let st = r.st;
            match r.res {
                Err(error) => {},
                Ok(Some(ty)) => {},
                Ok(None) => {
                    keeps_expected_method_run(within, st, env, args, is_method_call, arg_wrappers, resolved_callee, dict_args, pending_dict_args, receiver, receiver_ty, method, callee_id, expected,);
                },
            }
        },
    }
}

pub proof fn keeps_expected_method_run(
    within: Within,
    st: InferV,
    env: EnvV,
    args: Seq<ExprV>,
    is_method_call: bool,
    arg_wrappers: Seq<Option<ArgWrapperV>>,
    resolved_callee: Option<ResolvedCalleeV>,
    dict_args: Seq<DictRefV>,
    pending_dict_args: Seq<PendingDictArgV>,
    receiver: ExprV,
    receiver_ty: TyV,
    method: Seq<char>,
    callee_id: NodeId,
    expected: Option<TyV>,
)
    requires
        steady(within),
    ensures
        grows(st.subst.map, expected_method_run(
            within,
            st,
            env,
            args,
            is_method_call,
            arg_wrappers,
            resolved_callee,
            dict_args,
            pending_dict_args,
            receiver,
            receiver_ty,
            method,
            callee_id,
            expected,
        ).st.subst.map),
{
    reveal(expected_method_run);
    if env.dom().contains(method) {
        keeps_scheme_method_run(within, st, env, args, is_method_call, arg_wrappers, resolved_callee, dict_args, pending_dict_args, receiver, receiver_ty, env[method].scheme, ResolvedCalleeV::Function(method), None, callee_id,);
    } else {
        if expected is Some && args.len() == 0 && open_array(receiver_ty) {
            keeps_array_method_for(st, method, expected->Some_0);
            let a = array_method_for(st, method, expected->Some_0);
            match a.1 {
                Some(m) => {
                    keeps_array_method_run(within, a.0, env, args, is_method_call, arg_wrappers, resolved_callee, dict_args, pending_dict_args, receiver, receiver_ty, method, m, expected->Some_0, callee_id,);
                },
                None => {},
            }
        }
    }
}

pub proof fn keeps_array_method_run(
    within: Within,
    st: InferV,
    env: EnvV,
    args: Seq<ExprV>,
    is_method_call: bool,
    arg_wrappers: Seq<Option<ArgWrapperV>>,
    resolved_callee: Option<ResolvedCalleeV>,
    dict_args: Seq<DictRefV>,
    pending_dict_args: Seq<PendingDictArgV>,
    receiver: ExprV,
    receiver_ty: TyV,
    method: Seq<char>,
    m: ArrayMethodV,
    expected: TyV,
    callee_id: NodeId,
)
    requires
        steady(within),
    ensures
        grows(st.subst.map, array_method_run(
            within,
            st,
            env,
            args,
            is_method_call,
            arg_wrappers,
            resolved_callee,
            dict_args,
            pending_dict_args,
            receiver,
            receiver_ty,
            method,
            m,
            expected,
            callee_id,
        ).st.subst.map),
{
    reveal(array_method_run);
    keeps_equate(st, receiver_ty, m.receiver);
    let u = equate(st, receiver_ty, m.receiver);
    let st = u.0;
    match u.1 {
        Some(error) => {},
        None => {
            keeps_scheme_method_run(within, st, env, args, is_method_call, arg_wrappers, resolved_callee, dict_args, pending_dict_args, receiver, m.receiver, m.info.scheme, m.info.resolved_callee, misuse_of(m.info, m.target, method), callee_id,);
            keeps_array_after(scheme_method_run( within, st, env, args, is_method_call, arg_wrappers, resolved_callee, dict_args, pending_dict_args, receiver, m.receiver, m.info.scheme, m.info.resolved_callee, misuse_of(m.info, m.target, method), callee_id, ), expected);
        },
    }
}

pub proof fn keeps_receiver_run(
    within: Within,
    st: InferV,
    env: EnvV,
    receiver: ExprV,
    args: Seq<ExprV>,
    is_method_call: bool,
    arg_wrappers: Seq<Option<ArgWrapperV>>,
    resolved_callee: Option<ResolvedCalleeV>,
    dict_args: Seq<DictRefV>,
    pending_dict_args: Seq<PendingDictArgV>,
    method: Seq<char>,
    id: NodeId,
    callee_id: NodeId,
    expected: Option<TyV>,
)
    requires
        steady(within),
    ensures
        grows(st.subst.map, receiver_run(
            within,
            st,
            env,
            receiver,
            args,
            is_method_call,
            arg_wrappers,
            resolved_callee,
            dict_args,
            pending_dict_args,
            method,
            id,
            callee_id,
            expected,
        ).st.subst.map),
{
    reveal(receiver_run);
    let r = within(st, env, receiver, None);
    let st = r.st;
    let receiver = r.node;
    match r.res {
        Err(error) => {},
        Ok(value) => {
            let receiver_ty = resolved(st, value);
            let imported = imported_scheme(st, receiver, method);
            keeps_receiver_noted(st, receiver, method, callee_id);
            let st = receiver_noted(st, receiver, method, callee_id);
            match imported {
                Some(scheme) => {
                    keeps_instance(st, scheme);
                    let i = instance(st, scheme);
                    let st = i.0;
                    keeps_field_call_run(within, st, env, args, arg_wrappers, dict_args, pending_dict_args, without_constraints(i.1.ty), i.1.constraints + constraints_on(i.1.ty), receiver.span, id, callee_id,);
                },
                None => {
                    match field_ty(receiver_ty, method) {
                        Some(ty) => {
                            keeps_field_call_run(within, st, env, args, arg_wrappers, dict_args, pending_dict_args, without_constraints(ty), constraints_on(ty), receiver.span, id, callee_id,);
                        },
                        None => {
                            if receiver_ty is Var {
                                keeps_row_call_run(within, st, env, args, arg_wrappers, dict_args, pending_dict_args, receiver_ty, method, receiver.span, callee_id,);
                            } else {
                                keeps_method_run(within, st, env, args, is_method_call, arg_wrappers, resolved_callee, dict_args, pending_dict_args, receiver, receiver_ty, method, callee_id, expected,);
                            }
                        },
                    }
                },
            }
        },
    }
}

pub proof fn keeps_dot_call_run(
    within: Within,
    st: InferV,
    env: EnvV,
    callee: ExprV,
    args: Seq<ExprV>,
    is_method_call: bool,
    arg_wrappers: Seq<Option<ArgWrapperV>>,
    resolved_callee: Option<ResolvedCalleeV>,
    pending_trait_method: Option<PendingMethodV>,
    dict_args: Seq<DictRefV>,
    pending_dict_args: Seq<PendingDictArgV>,
    id: NodeId,
    expected: Option<TyV>,
)
    requires
        steady(within),
    ensures
        grows(st.subst.map, dot_call_run(
            within,
            st,
            env,
            callee,
            args,
            is_method_call,
            arg_wrappers,
            resolved_callee,
            pending_trait_method,
            dict_args,
            pending_dict_args,
            id,
            expected,
        ).st.subst.map),
{
    reveal(dot_call_run);
    match callee.kind {
        ExprKindV::FieldAccess { expr, field } => {
            keeps_receiver_run(within, st, env, *expr, args, is_method_call, arg_wrappers, resolved_callee, dict_args, pending_dict_args, field, id, callee.id, expected,);
        },
        _ => {},
    }
}

pub proof fn keeps_call_run(
    within: Within,
    st: InferV,
    env: EnvV,
    callee: ExprV,
    args: Seq<ExprV>,
    is_method_call: bool,
    arg_wrappers: Seq<Option<ArgWrapperV>>,
    resolved_callee: Option<ResolvedCalleeV>,
    pending_trait_method: Option<PendingMethodV>,
    dict_args: Seq<DictRefV>,
    pending_dict_args: Seq<PendingDictArgV>,
    id: NodeId,
    span: SourceSpan,
)
    requires
        steady(within),
    ensures
        grows(st.subst.map, call_run(
            within,
            st,
            env,
            callee,
            args,
            is_method_call,
            arg_wrappers,
            resolved_callee,
            pending_trait_method,
            dict_args,
            pending_dict_args,
            id,
            span,
        ).st.subst.map),
{
    reveal(call_run);
    match form_of(env, callee) {
        FormV::Associated(m) => {
            keeps_associated_call_run(within, st, env, callee, args, is_method_call, arg_wrappers, resolved_callee, pending_trait_method, dict_args, pending_dict_args, id, m.target, m.target_span, m.member, m.member_span,);
        },
        FormV::Dot => {
            keeps_dot_call_run(within, st, env, callee, args, is_method_call, arg_wrappers, resolved_callee, pending_trait_method, dict_args, pending_dict_args, id, None,);
        },
        FormV::Constrained(scheme) => {
            keeps_constrained_call_run(within, st, env, callee, args, is_method_call, arg_wrappers, resolved_callee, pending_trait_method, dict_args, pending_dict_args, scheme, id,);
        },
        FormV::Plain => {
            keeps_plain_call_run(within, st, env, callee, args, is_method_call, arg_wrappers, resolved_callee, pending_trait_method, dict_args, pending_dict_args, id, span,);
        },
    }
}

pub proof fn keeps_let_value_run(
    within: Within,
    st: InferV,
    env: EnvV,
    value: ExprV,
    ty: Option<TypeV>,
)
    requires
        steady(within),
    ensures
        grows(st.subst.map, let_value_run(within, st, env, value, ty).st.subst.map),
{
    reveal(let_value_run);
    match ty {
        None => {},
        Some(t) => {
            keeps_written(st, Map::empty(), t);
            let w = written(st, Map::empty(), t);
            let st = w.st;
            match w.res {
                Err(error) => {},
                Ok(want) => {
                    keeps_value_after(within(st, env, value, Some(want)), want);
                },
            }
        },
    }
}

pub proof fn keeps_let_run(
    within: Within,
    st: InferV,
    env: EnvV,
    value: ExprV,
    pat: PatternV,
    is_mutable: bool,
    ty: Option<TypeV>,
)
    requires
        steady(within),
    ensures
        grows(st.subst.map, let_run(within, st, env, value, pat, is_mutable, ty).st.subst.map),
{
    reveal(let_run);
    let l = let_of(st, env, pat, is_mutable, ty is Some, value);
    let inside = if l.general { at_level(st, child_level(l.ambient)) } else { st };
    keeps_let_value_run(within, inside, env, value, ty);
    keeps_let_after(let_value_run(within, inside, env, value, ty), env, l);
}

pub proof fn keeps_fn_run(
    within: Within,
    st: InferV,
    env: EnvV,
    def: FnDefV,
    knows_itself: bool,
)
    requires
        steady(within),
    ensures
        grows(st.subst.map, fn_run(within, st, env, def, knows_itself).st.subst.map),
{
    reveal(fn_run);
    let ambient = st.level;
    keeps_fn_head(st, env, def, knows_itself);
    let h = fn_head(st, env, def, knows_itself);
    match h.err {
        Some(error) => {},
        None => {
            keeps_scoped_run(within, h.st, h.env, def.body, h.initial, h.ret, def.ret_type is Some, true,);
            let r = scoped_run( within, h.st, h.env, def.body, h.initial, h.ret, def.ret_type is Some, true, );
            keeps_fn_after(r.st, env, FnDefV { body: r.node, ..def }, r.res, knows_itself, h.fn_ty, ambient,);
        },
    }
}

pub proof fn keeps_stmts_run(
    within: Within,
    st: InferV,
    env: EnvV,
    s: Seq<StmtV>,
    i: nat,
)
    requires
        steady(within),
    ensures
        grows(st.subst.map, stmts_run(within, st, env, s, i).st.subst.map),
    decreases s.len() - i,
{
    reveal_with_fuel(stmts_run, 1);
    if i >= s.len() {
    } else {
        keeps_stmt_run(within, st, env, s[i as int]);
        let r = stmt_run(within, st, env, s[i as int]);
        let st = r.st;
        let env = r.node.0;
        let s = s.update(i as int, r.node.1);
        match r.res {
            Err(error) => {},
            Ok(_) => {
                if exits(r.node.1) {
                } else {
                    keeps_stmts_run(within, st, env, s, i + 1);
                }
            },
        }
    }
}

pub proof fn keeps_tests_run(
    within: Within,
    st: InferV,
    env: EnvV,
    s: Seq<StmtV>,
    i: nat,
)
    requires
        steady(within),
    ensures
        grows(st.subst.map, tests_run(within, st, env, s, i).st.subst.map),
    decreases stmts_size(s.skip(i as int)), 3nat, 0nat,
{
    if i >= s.len() {
    } else {
        lemma_stmts_rest(s, i as int);
        keeps_stmt_run(within, st, env, s[i as int]);
        let r = stmt_run(within, st, env, s[i as int]);
        let st = r.st;
        let env = r.node.0;
        let s = s.update(i as int, r.node.1);
        match r.res {
            Err(error) => {},
            Ok(_) => {
                match test_shape(env, r.node.1) {
                    Some(error) => {},
                    None => {
                        keeps_tests_run(within, st, env, s, i + 1);
                    },
                }
            },
        }
    }
}

pub proof fn keeps_final_run(
    within: Within,
    st: InferV,
    env: EnvV,
    final_expr: Option<Box<ExprV>>,
)
    requires
        steady(within),
    ensures
        grows(st.subst.map, final_run(within, st, env, final_expr).st.subst.map),
{
    reveal(final_run);
}

pub proof fn keeps_block_run(
    within: Within,
    st: InferV,
    env: EnvV,
    stmts: Seq<StmtV>,
    final_expr: Option<Box<ExprV>>,
)
    requires
        steady(within),
    ensures
        grows(st.subst.map, block_run(within, st, env, stmts, final_expr).st.subst.map),
{
    reveal(block_run);
    keeps_stmts_run(within, st, env, stmts, 0);
    let r = stmts_run(within, st, env, stmts, 0);
    let st = r.st;
    match r.res {
        Err(error) => {},
        Ok(leaves) => {
            if leaves {
            } else {
                keeps_final_run(within, st, r.node.0, final_expr);
            }
        },
    }
}

pub proof fn keeps_method_def_run(
    within: Within,
    st: InferV,
    env: EnvV,
    body: ExprV,
    m: ImplMethodV,
    def: TraitDefV,
    trait_args: Seq<TypeV>,
    vars: VarNames,
)
    requires
        steady(within),
    ensures
        grows(st.subst.map, method_def_run(within, st, env, body, m, def, trait_args, vars).st.subst.map),
{
    reveal(method_def_run);
    keeps_method_head(st, env, m, def, trait_args, vars);
    let h = method_head(st, env, m, def, trait_args, vars);
    match h.err {
        Some(error) => {},
        None => {
            keeps_body_run(within, h.st, h.env, body, h.ret, false, true);
            keeps_method_after(body_run(within, h.st, h.env, body, h.ret, false, true), m.name_span, h.fn_ty,);
        },
    }
}

pub proof fn keeps_method_defs_run(
    within: Within,
    st: InferV,
    env: EnvV,
    bodies: Seq<ExprV>,
    ms: Seq<ImplMethodV>,
    def: TraitDefV,
    trait_args: Seq<TypeV>,
    vars: VarNames,
    i: nat,
    fields: Seq<FieldV>,
)
    requires
        steady(within),
    ensures
        grows(st.subst.map, method_defs_run(
            within,
            st,
            env,
            bodies,
            ms,
            def,
            trait_args,
            vars,
            i,
            fields,
        ).st.subst.map),
    decreases bodies.len() - i,
{
    reveal_with_fuel(method_defs_run, 1);
    if i >= bodies.len() {
    } else {
        keeps_method_def_run(within, st, env, bodies[i as int], ms[i as int], def, trait_args, vars);
        let r = method_def_run(within, st, env, bodies[i as int], ms[i as int], def, trait_args, vars);
        let st = r.st;
        let bodies = bodies.update(i as int, r.node);
        match r.res {
            Err(error) => {},
            Ok(ty) => {
                keeps_method_defs_run(within, st, env, bodies, ms, def, trait_args, vars, i + 1, fields.push((ms[i as int].name, ty)),);
            },
        }
    }
}

pub proof fn keeps_impl_body_run(
    within: Within,
    st: InferV,
    env: EnvV,
    id: ImplDefV,
    def: TraitDefV,
    vars: VarNames,
    initial: Seq<ConstraintV>,
    ambient: TypeLevel,
)
    requires
        steady(within),
    ensures
        grows(st.subst.map, impl_body_run(within, st, env, id, def, vars, initial, ambient).st.subst.map),
{
    reveal(impl_body_run);
    keeps_method_defs_run(within, pending_on(st, initial), env, bodies_of(id.methods), id.methods, def, id.trait_args, vars, 0, Seq::empty(),);
    keeps_impl_finish(method_defs_run( within, pending_on(st, initial), env, bodies_of(id.methods), id.methods, def, id.trait_args, vars, 0, Seq::empty(), ), env, id, def, ambient, st.pending,);
}

pub proof fn keeps_impl_run(within: Within, st: InferV, env: EnvV, id: ImplDefV)
    requires
        steady(within),
    ensures
        grows(st.subst.map, impl_run(within, st, env, id).st.subst.map),
{
    reveal(impl_run);
    let ambient = st.level;
    keeps_impl_start(st, id);
    let s = impl_start(st, id);
    match s.err {
        Some(error) => {},
        None => {
            keeps_impl_body_run(within, s.st, env, s.id, s.def, s.vars, s.initial, ambient);
        },
    }
}

pub proof fn keeps_own_method_run(
    within: Within,
    st: InferV,
    env: EnvV,
    m: InherentMethodV,
    target: TypeV,
    bounds: Seq<TypeBoundV>,
    key: Seq<char>,
)
    requires
        steady(within),
    ensures
        grows(st.subst.map, own_method_run(within, st, env, m, target, bounds, key).st.subst.map),
{
    reveal(own_method_run);
    let ambient = st.level;
    let m = self_method(m, target);
    keeps_own_head(st, env, m, target, bounds, key);
    let h = own_head(st, env, m, target, bounds, key);
    match h.err {
        Some(error) => {},
        None => {
            keeps_scoped_run(within, h.st, h.env, m.body, h.initial, h.ret, false, true);
            let r = scoped_run(within, h.st, h.env, m.body, h.initial, h.ret, false, true);
            keeps_own_after(r.st, env, InherentMethodV { body: r.node, ..m }, r.res, h.fn_ty, ambient, key,);
        },
    }
}

pub proof fn keeps_own_methods_run(
    within: Within,
    st: InferV,
    env: EnvV,
    ms: Seq<InherentMethodV>,
    target: TypeV,
    bounds: Seq<TypeBoundV>,
    key: Seq<char>,
    i: nat,
    fields: Seq<FieldV>,
)
    requires
        steady(within),
    ensures
        grows(st.subst.map, own_methods_run(within, st, env, ms, target, bounds, key, i, fields).st.subst.map),
    decreases ms.len() - i,
{
    reveal_with_fuel(own_methods_run, 1);
    if i >= ms.len() {
    } else {
        keeps_own_method_run(within, st, env, ms[i as int], target, bounds, key);
        let r = own_method_run(within, st, env, ms[i as int], target, bounds, key);
        let st = r.st;
        let ms = ms.update(i as int, r.node);
        match r.res {
            Err(error) => {},
            Ok(ty) => {
                keeps_own_methods_run(within, st, env, ms, target, bounds, key, i + 1, fields.push((r.node.name, ty)),);
            },
        }
    }
}

pub proof fn keeps_inherent_run(within: Within, st: InferV, env: EnvV, id: InherentImplDefV)
    requires
        steady(within),
    ensures
        grows(st.subst.map, inherent_run(within, st, env, id).st.subst.map),
{
    reveal(inherent_run);
    match inherent_key(id.target, st.declared) {
        Err(error) => {},
        Ok(key) => {
            keeps_own_methods_run(within, st, env, id.methods, id.target, id.type_bounds, key, 0, Seq::empty(),);
            let r = own_methods_run( within, st, env, id.methods, id.target, id.type_bounds, key, 0, Seq::empty(), );
            keeps_inherent_after(r.st, env, id, r.node, r.res, st.level, key);
        },
    }
}

pub proof fn keeps_rec_body_run(
    within: Within,
    st: InferV,
    env: EnvV,
    body: ExprV,
    def: FnDefV,
    info: RecInfoV,
)
    requires
        steady(within),
    ensures
        grows(st.subst.map, rec_body_run(within, st, env, body, def, info).st.subst.map),
{
    reveal(rec_body_run);
    keeps_group_head(st, env, def, info);
    let h = group_head(st, env, def, info);
    match h.err {
        Some(error) => {},
        None => {
            keeps_scoped_run(within, h.st, h.env, body, h.initial, h.ret, info.explicit, true);
        },
    }
}

pub proof fn keeps_rec_bodies_run(
    within: Within,
    st: InferV,
    env: EnvV,
    bodies: Seq<ExprV>,
    defs: Seq<FnDefV>,
    infos: Seq<RecInfoV>,
    i: nat,
    lists: Seq<Seq<ConstraintV>>,
)
    requires
        steady(within),
    ensures
        grows(st.subst.map, rec_bodies_run(within, st, env, bodies, defs, infos, i, lists).st.subst.map),
    decreases bodies.len() - i,
{
    reveal_with_fuel(rec_bodies_run, 1);
    if i >= bodies.len() {
    } else {
        keeps_rec_body_run(within, st, env, bodies[i as int], defs[i as int], infos[i as int]);
        let r = rec_body_run(within, st, env, bodies[i as int], defs[i as int], infos[i as int]);
        let st = r.st;
        let bodies = bodies.update(i as int, r.node);
        match r.res {
            Err(error) => {},
            Ok(left) => {
                keeps_rec_bodies_run(within, st, env, bodies, defs, infos, i + 1, lists.push(left));
            },
        }
    }
}

pub proof fn keeps_rec_run(within: Within, st: InferV, env: EnvV, s: Seq<StmtV>)
    requires
        steady(within),
    ensures
        grows(st.subst.map, rec_run(within, st, env, s).st.subst.map),
{
    reveal(rec_run);
    let ambient = st.level;
    keeps_rec_start(st, env, s);
    let start = rec_start(st, env, s);
    match start.err {
        Some(error) => {},
        None => {
            keeps_rec_bodies_run(within, start.st, start.env, def_bodies(defs_of(s)), defs_of(s), start.infos, 0, Seq::empty(),);
            keeps_rec_after(rec_bodies_run( within, start.st, start.env, def_bodies(defs_of(s)), defs_of(s), start.infos, 0, Seq::empty(), ), env, s, start.infos, ambient,);
        },
    }
}

pub proof fn keeps_macro_body_run(within: Within, st: InferV, env: EnvV, def: MacroDefV)
    requires
        steady(within),
    ensures
        grows(st.subst.map, macro_body_run(within, st, env, def).st.subst.map),
{
    reveal(macro_body_run);
    let r = within(st, env, def.body, None);
    keeps_macro_after(r.st, MacroDefV { body: r.node, ..def }, r.res);
}

pub proof fn keeps_macro_run(within: Within, st: InferV, env: EnvV, def: MacroDefV)
    requires
        steady(within),
    ensures
        grows(st.subst.map, macro_run(within, st, env, def).st.subst.map),
{
    reveal(macro_run);
    keeps_macro_head(st, env, def);
    let h = macro_head(st, env, def);
    match h.err {
        Some(error) => {},
        None => {
            keeps_macro_body_run(within, h.st, h.env, def);
        },
    }
}

pub proof fn keeps_stmt_kind_run(within: Within, st: InferV, env: EnvV, s: StmtV)
    requires
        steady(within),
    ensures
        grows(st.subst.map, stmt_kind_run(within, st, env, s).st.subst.map),
    decreases stmt_size(s), 0nat, 0nat,
{
    match s {
        StmtV::Let { pat, is_mutable, ty, value, span } => {
            keeps_let_run(within, st, env, value, pat, is_mutable, ty);
        },
        StmtV::Fn(def) => {
            keeps_fn_run(within, st, env, def, true);
        },
        StmtV::Op(def) => {
            keeps_fn_run(within, st, env, def, false);
        },
        StmtV::TestBlock { stmts, span } => {
            lemma_stmts_whole(stmts);
            keeps_tests_run(within, st, env, stmts, 0);
        },
        StmtV::Expr(e) => {},
        StmtV::Impl(id) => {
            keeps_impl_run(within, st, env, id);
        },
        StmtV::InherentImpl(id) => {
            keeps_inherent_run(within, st, env, id);
        },
        StmtV::RecBlock { stmts, span } => {
            keeps_rec_run(within, st, env, stmts);
        },
        StmtV::Macro(def) => {
            keeps_macro_run(within, st, env, def);
        },
        StmtV::Trait(_) | StmtV::Type(_) | StmtV::TypeAlias { .. } | StmtV::Extern { .. } => {},
    }
}

pub proof fn keeps_stmt_run(within: Within, st: InferV, env: EnvV, s: StmtV)
    requires
        steady(within),
    ensures
        grows(st.subst.map, stmt_run(within, st, env, s).st.subst.map),
    decreases stmt_size(s), 1nat, 0nat,
{
    keeps_stmt_kind_run(within, st, env, s);
    keeps_stmt_after(stmt_kind_run(within, st, env, s), error_place(s));
}

/// Checking an expression loses nothing that was solved, whatever comes of it.
pub proof fn law_checking_keeps_what_is_solved(st: InferV, env: EnvV, e: ExprV, want: Option<TyV>)
    ensures
        grows(st.subst.map, checked(st, env, e, want).st.subst.map),
    decreases expr_size(e), 1nat,
{
    reveal(checked);
    reveal(below);
    let within = below(expr_size(e));
    lemma_below_steady(expr_size(e));
    match want {
        None => {
            keeps_infer_step(within, st, env, e);
            assert(checked(st, env, e, want) == infer_step(within, st, env, e));
        },
        Some(ty) => {
            keeps_expected_step(within, st, env, e, ty);
            assert(checked(st, env, e, want) == expected_step(within, st, env, e, ty));
        },
    }
}

/// Checking expressions below a size loses nothing that was solved.
pub proof fn lemma_below_steady(n: nat)
    ensures
        steady(below(n)),
    decreases n, 0nat,
{
    reveal(below);
    reveal(checked);
    assert forall|st: InferV, env: EnvV, e: ExprV, want: Option<TyV>|
        grows(st.subst.map, (#[trigger] below(n)(st, env, e, want)).st.subst.map) by {
        if expr_size(e) < n {
            law_checking_keeps_what_is_solved(st, env, e, want);
            assert(below(n)(st, env, e, want) == checked(st, env, e, want));
        } else {
            assert(below(n)(st, env, e, want).st == st);
        }
    }
}

/// Checking any expression loses nothing that was solved.
pub proof fn lemma_checker_steady()
    ensures
        steady(checker()),
{
    assert forall|st: InferV, env: EnvV, e: ExprV, want: Option<TyV>|
        grows(st.subst.map, (#[trigger] checker()(st, env, e, want)).st.subst.map) by {
        law_checking_keeps_what_is_solved(st, env, e, want);
    }
}

} // verus!
