//! What checking an expression, a statement or a call leads to.

use vstd::prelude::*;

use crate::associated::{inherent_member, inherent_use, key_with_method, method_in};
use crate::associated::{trait_member, trait_use, under};
use crate::ast::{ExprKind, NO_NODE_ID, NodeId, NumberLiteral, SourceSpan};
use crate::ast_rest::{lemma_stmts_rest, lemma_stmts_whole};
use crate::ast_size::{expr_size, stmt_size, stmts_size};
use crate::ast_view::{ArgWrapperV, ArrayEntryV, BinOpV, DictRefV, ExprKindV, ExprV, FnDefV};
use crate::ast_view::{ImplDefV, ImplMethodV, InherentImplDefV, InherentMethodV, MacroDefV};
use crate::ast_view::{MatchArmV, NumberLiteralV, ParamV, PatternV, PendingDictArgV};
use crate::ast_view::{PendingMethodV, RecordEntryV, ResolvedCalleeV, StmtV, TraitDefV};
use crate::ast_view::{TraitMethodV, TypeBoundV, TypeV, expr_kind_view, expr_view};
use crate::call_parts::{ArgV, FormV, Probed, Trial, arg_after, arg_expects, args_after};
use crate::call_parts::{array_after, form_of, is_unknown_member, known_caps, lead_span};
use crate::call_parts::{lead_tys, misuse_of, param_at, pick, probed, receiver_noted};
use crate::call_parts::{some_after, trait_finish, trial_after};
use crate::convert::VarNames;
use crate::definitions::{RecInfoV, child_level, end_def, lambda_head, return_type};
use crate::dict_names::{dict_params, param_names};
use crate::dict_uses::settle;
use crate::dispatch::{DispatchV, choose_dict, choose_iterable};
use crate::ends::{ArgsV, OpV, chosen, function_operator, iter_types, no_method, operator_end};
use crate::ends::{operator_start, pipe_end};
use crate::env::EnvV;
use crate::error::{ContextV, SpannedTypeError, SpannedV, TypeErrorV, in_context};
use crate::error::span_if_absent;
use crate::finish::{AppliedV, associated_access, element_of_iterator, finish_call, ident_use};
use crate::finish::{imported_use, index_use, lead_arg, noted_caps, noted_fresh, noted_symbol};
use crate::finish::{noted_type, operator_method, operator_types, params_of, refined_error};
use crate::finish::spread_into;
use crate::impl_parts::{bodies_of, impl_finish, impl_start, inherent_after, method_after};
use crate::impl_parts::{method_head, own_after, own_head};
use crate::items::test_shape;
use crate::macro_phase::{macro_after, macro_head};
use crate::pattern_infer::{left_out, match_pattern};
use crate::places::{declared_caps, field_caps, imported_scheme, place_error, return_error};
use crate::rec_parts::{def_bodies, defs_of, group_head, rec_after, rec_start};
use crate::receiver::{ArrayMethodV, CandidateV, array_method_for, receiver_use};
use crate::receiver::trait_candidates;
use crate::rows::{FieldV, sort_fields, sort_record_fields};
use crate::schemes::{instance, lists, value_of};
use crate::scopes::{at_level, in_function, in_loop, out_of_function, out_of_loop, pending_on};
use crate::self_types::self_method;
use crate::state::{InferV, fresh, next_var};
use crate::steps::{Run, equate, equate_result, exits, failed, failed_at, give_dicts, resolved};
use crate::steps::written;
use crate::stmt_parts::{error_place, fn_after, fn_head, let_after, let_of, placed, stmt_after};
use crate::stmt_parts::{unit_ty, value_after};
use crate::subst::TypeLevel;
use crate::text::join;
use crate::ty::{ConstraintV, ParamCapability, ReturnV, Row, RowV, SchemeV, TraitConstraint};
use crate::ty::{Ty, TyV, constraints_view, fields_view, row_view, ty_view};
use crate::ty_helpers::{array_element, array_of, combine, constraints_on, merge_field};
use crate::ty_helpers::{open_array, opt_ty, plain_func, range_of, range_ty, ty_caps};
use crate::ty_helpers::{wants_place, without_constraints};
use crate::type_syntax::{field_ty, inherent_key, target_keys};
use crate::walkers::{assignment_base, leaves};

verus! {

/// What checking an expression of some kind leads to.
pub struct KindRun {
    pub st: InferV,
    pub kind: ExprKindV,
    pub res: Result<TyV, SpannedV>,
    /// Whether the result is final: it is not noted, and an error gets no place.
    pub out: bool,
}

/// What checking leads to, with a result that may be final.
pub struct OutRun<N> {
    pub st: InferV,
    pub node: N,
    pub res: Result<TyV, SpannedV>,
    pub out: bool,
}

/// The type of conditions.
pub open spec fn bool_ty() -> TyV {
    TyV::Con("bool"@)
}

/// The type of texts.
pub open spec fn string_ty() -> TyV {
    TyV::Con("string"@)
}

/// The type of a number.
pub open spec fn number_type(n: NumberLiteralV) -> TyV {
    match n {
        NumberLiteralV::Int(_) => TyV::Int,
        NumberLiteralV::Float(_) => TyV::Float,
    }
}

/// The type of a range that has these bounds.
pub open spec fn range_type(from: bool, to: bool, inclusive: bool) -> TyV {
    if from && to && !inclusive {
        range_of("Range"@)
    } else if from && to {
        range_of("RangeInclusive"@)
    } else if from {
        range_of("RangeFrom"@)
    } else if to && !inclusive {
        range_of("RangeTo"@)
    } else if to {
        range_of("RangeToInclusive"@)
    } else {
        TyV::Con("RangeFull"@)
    }
}

/// A record with one known field.
pub open spec fn one_field(name: Seq<char>, ty: TyV, tail: TyV) -> TyV {
    TyV::Record(RowV { fields: seq![(name, ty)], tail: Box::new(tail) })
}

/// Whether an expected type changes how an expression of this kind is checked.
pub open spec fn uses_expected(k: ExprKindV, want: TyV) -> bool {
    match k {
        ExprKindV::Grouped(_) | ExprKindV::Array(_) => true,
        ExprKindV::If { .. } | ExprKindV::Match { .. } => true,
        ExprKindV::Lambda { .. } => want is Func,
        ExprKindV::Call { callee, .. } => callee.kind is FieldAccess,
        _ => false,
    }
}

pub fn bool_type() -> (r: Ty)
    ensures
        r@ == bool_ty(),
{
    Ty::Con("bool".to_owned())
}

pub fn string_type() -> (r: Ty)
    ensures
        r@ == string_ty(),
{
    Ty::Con("string".to_owned())
}

pub fn number_type_of(n: &NumberLiteral) -> (r: Ty)
    ensures
        r@ == number_type(n@),
{
    match n {
        NumberLiteral::Int(_) => Ty::Int,
        NumberLiteral::Float(_) => Ty::Float,
    }
}

pub fn range_type_of(from: bool, to: bool, inclusive: bool) -> (r: Ty)
    ensures
        r@ == range_type(from, to, inclusive),
{
    if from && to && !inclusive {
        range_ty("Range")
    } else if from && to {
        range_ty("RangeInclusive")
    } else if from {
        range_ty("RangeFrom")
    } else if to && !inclusive {
        range_ty("RangeTo")
    } else if to {
        range_ty("RangeToInclusive")
    } else {
        Ty::Con("RangeFull".to_owned())
    }
}

pub fn one_field_record(name: &String, ty: &Ty, tail: Ty) -> (r: Ty)
    ensures
        r@ == one_field(name@, ty@, tail@),
{
    let mut fields: Vec<(String, Ty)> = Vec::new();
    fields.push((name.clone(), ty.clone()));
    assert(fields_view(fields@) =~= seq![(name@, ty@)]);
    let row = Row { fields, tail: Box::new(tail) };
    assert(row_view(row).tail == Box::new(ty_view(*row.tail)));
    Ty::Record(row)
}

/// A record of these fields, in order, and the rest.
pub fn record_of(fields: Vec<(String, Ty)>, tail: Ty) -> (r: Ty)
    ensures
        r@ == TyV::Record(
            RowV { fields: sort_fields(fields_view(fields@)), tail: Box::new(tail@) },
        ),
{
    let row = Row { fields: sort_record_fields(fields), tail: Box::new(tail) };
    assert(row_view(row).tail == Box::new(ty_view(*row.tail)));
    Ty::Record(row)
}

pub fn is_never_type(ty: &Ty) -> (r: bool)
    ensures
        r == (ty@ == TyV::Never),
{
    match ty {
        Ty::Never => true,
        _ => false,
    }
}

/// The view of a result that may be no type.
pub open spec fn oty_res(r: Result<Option<Ty>, SpannedTypeError>) -> Result<
    Option<TyV>,
    SpannedV,
> {
    match r {
        Ok(t) => Ok(opt_ty(t)),
        Err(e) => Err(e@),
    }
}

/// The view of a result of two types.
pub open spec fn pair_res(r: Result<(Ty, Ty), SpannedTypeError>) -> Result<(TyV, TyV), SpannedV> {
    match r {
        Ok(t) => Ok((t.0@, t.1@)),
        Err(e) => Err(e@),
    }
}

/// The view of a yes or no.
pub open spec fn bool_res(r: Result<bool, SpannedTypeError>) -> Result<bool, SpannedV> {
    match r {
        Ok(b) => Ok(b),
        Err(e) => Err(e@),
    }
}

/// The view of a result of constraints.
pub open spec fn constraints_res(r: Result<Vec<TraitConstraint>, SpannedTypeError>) -> Result<
    Seq<ConstraintV>,
    SpannedV,
> {
    match r {
        Ok(cs) => Ok(constraints_view(cs@)),
        Err(e) => Err(e@),
    }
}

/// The view of a result of fields and the rest of a record.
pub open spec fn lit_res(r: Result<(Vec<(String, Ty)>, Ty), SpannedTypeError>) -> Result<
    (Seq<FieldV>, TyV),
    SpannedV,
> {
    match r {
        Ok(l) => Ok((fields_view(l.0@), l.1@)),
        Err(e) => Err(e@),
    }
}

/// The view of a result of fields.
pub open spec fn fields_res(r: Result<Vec<(String, Ty)>, SpannedTypeError>) -> Result<
    Seq<FieldV>,
    SpannedV,
> {
    match r {
        Ok(fs) => Ok(fields_view(fs@)),
        Err(e) => Err(e@),
    }
}

fn is_field_access(k: &ExprKind) -> (r: bool)
    ensures
        r == (expr_kind_view(*k) is FieldAccess),
{
    match k {
        ExprKind::FieldAccess { .. } => true,
        _ => false,
    }
}

pub fn kind_uses_expected(k: &ExprKind, want: &Ty) -> (r: bool)
    ensures
        r == uses_expected(expr_kind_view(*k), want@),
{
    match k {
        ExprKind::Grouped(_) | ExprKind::Array(_) => true,
        ExprKind::If { .. } | ExprKind::Match { .. } => true,
        ExprKind::Lambda { .. } => match want {
            Ty::Func(_, _) => true,
            _ => false,
        },
        ExprKind::Call { callee, .. } => {
            assert(expr_view(**callee).kind == expr_kind_view(callee.kind)) by {
                reveal_with_fuel(expr_view, 2);
            }
            is_field_access(&callee.kind)
        },
        _ => false,
    }
}

/// How the expressions inside something are checked, against a type where one is expected.
pub type Within = spec_fn(InferV, EnvV, ExprV, Option<TyV>) -> Run<ExprV, TyV>;

/// An expression, checked against a type if one is expected: by its step, inside which
/// smaller expressions are checked the same way.
#[verifier::opaque]
pub open spec fn checked(st: InferV, env: EnvV, e: ExprV, want: Option<TyV>) -> Run<ExprV, TyV>
    decreases expr_size(e), 1nat,
{
    match want {
        None => infer_step(below(expr_size(e)), st, env, e),
        Some(ty) => expected_step(below(expr_size(e)), st, env, e, ty),
    }
}

/// How expressions of a size below `n` are checked.
#[verifier::opaque]
pub open spec fn below(n: nat) -> Within
    decreases n, 0nat,
{
    |st: InferV, env: EnvV, e: ExprV, want: Option<TyV>|
        if expr_size(e) < n {
            checked(st, env, e, want)
        } else {
            Run { st, node: e, res: Ok(TyV::Never) }
        }
}

/// How all expressions are checked.
pub open spec fn checker() -> Within {
    |st: InferV, env: EnvV, e: ExprV, want: Option<TyV>| checked(st, env, e, want)
}

/// Checks an expression.
pub open spec fn infer(st: InferV, env: EnvV, e: ExprV) -> Run<ExprV, TyV> {
    checked(st, env, e, None)
}

/// Checks an expression against a type.
pub open spec fn infer_expected(st: InferV, env: EnvV, e: ExprV, expected: TyV) -> Run<ExprV, TyV> {
    checked(st, env, e, Some(expected))
}

/// Whether expressions up to a size are checked as they all are.
pub open spec fn agrees(within: Within, n: nat) -> bool {
    forall|st: InferV, env: EnvV, e: ExprV, want: Option<TyV>|
        expr_size(e) <= n ==> #[trigger] within(st, env, e, want) == checked(st, env, e, want)
}

/// Below a size, expressions are checked as they all are.
pub proof fn lemma_below_agrees(n: nat, m: nat)
    requires
        m < n,
    ensures
        agrees(below(n), m),
{
    reveal(below);
    reveal(checked);
    assert forall|st: InferV, env: EnvV, e: ExprV, want: Option<TyV>| expr_size(e) <= m implies #[trigger] below(n)(
        st,
        env,
        e,
        want,
    ) == checked(st, env, e, want) by {
        assert(expr_size(e) < n);
    }
}

/// The checker agrees with itself.
pub proof fn lemma_checker_agrees(n: nat)
    ensures
        agrees(checker(), n),
{
}

/// Checks an expression: notes its type, and gives an error the place of the expression
/// if it has none.
#[verifier::opaque]
pub open spec fn infer_step(within: Within, st: InferV, env: EnvV, e: ExprV) -> Run<ExprV, TyV>
{
    let r = infer_kind(within, st, env, e.kind, e.id, e.span);
    let node = ExprV { kind: r.kind, ..e };
    if r.out {
        Run { st: r.st, node, res: r.res }
    } else {
        match r.res {
            Ok(ty) => Run { st: noted_type(r.st, e.id, ty), node, res: Ok(ty) },
            Err(error) => Run { st: r.st, node, res: Err(span_if_absent(error, e.span)) },
        }
    }
}

/// Checks an expression against a type.
#[verifier::opaque]
pub open spec fn expected_step(within: Within, st: InferV, env: EnvV, e: ExprV, expected: TyV) -> Run<ExprV, TyV>
{
    let want = resolved(st, expected);
    if uses_expected(e.kind, want) {
        let r = expected_kind(within, st, env, e.kind, e.id, e.span, want);
        let node = ExprV { kind: r.kind, ..e };
        match r.res {
            Ok(ty) => Run { st: noted_type(r.st, e.id, ty), node, res: Ok(ty) },
            Err(error) => Run { st: r.st, node, res: Err(error) },
        }
    } else {
        let r = infer_step(within, st, env, e);
        match r.res {
            Err(error) => Run { st: r.st, node: r.node, res: Err(error) },
            Ok(actual) => {
                let u = equate_result(r.st, actual, want);
                match u.1 {
                    Some(error) => Run {
                        st: u.0,
                        node: r.node,
                        res: failed_at(error, e.span),
                    },
                    None => {
                        let ty = resolved(u.0, want);
                        Run { st: noted_type(u.0, e.id, ty), node: r.node, res: Ok(ty) }
                    },
                }
            },
        }
    }
}

/// The end of checking an expression against a type: the types are the same.
pub open spec fn meets(st: InferV, ty: TyV, want: TyV, span: SourceSpan) -> (
    InferV,
    Result<TyV, SpannedV>,
) {
    let u = equate(st, ty, want);
    match u.1 {
        Some(e) => (u.0, failed_at(e, span)),
        None => (u.0, Ok(resolved(u.0, want))),
    }
}

/// Checks an expression of some kind against a type.
#[verifier::opaque]
pub open spec fn expected_kind(
    within: Within,
    st: InferV,
    env: EnvV,
    k: ExprKindV,
    id: NodeId,
    span: SourceSpan,
    want: TyV,
) -> KindRun
{
    match k {
        ExprKindV::Grouped(inner) => {
            let r = within(st, env, *inner, Some(want));
            KindRun {
                st: r.st,
                kind: ExprKindV::Grouped(Box::new(r.node)),
                res: r.res,
                out: false,
            }
        },
        ExprKindV::Array(entries) => {
            let r = array_run(within, st, env, entries, Some(want), span);
            KindRun { st: r.st, kind: ExprKindV::Array(r.node), res: r.res, out: false }
        },
        ExprKindV::If { cond, then_branch, else_branch } => {
            let r = branches_run(within, st, env, *cond, *then_branch, *else_branch, Some(want));
            let kind = ExprKindV::If {
                cond: Box::new(r.node.0),
                then_branch: Box::new(r.node.1),
                else_branch: Box::new(r.node.2),
            };
            match r.res {
                Err(e) => KindRun { st: r.st, kind, res: Err(e), out: false },
                Ok(tys) => {
                    let c = combine(r.st, tys.0, tys.1);
                    match c.1 {
                        Err(e) => KindRun { st: c.0, kind, res: failed(e), out: false },
                        Ok(ty) => {
                            let m = meets(c.0, ty, want, span);
                            KindRun { st: m.0, kind, res: m.1, out: false }
                        },
                    }
                },
            }
        },
        ExprKindV::Match { scrutinee, arms } => {
            let r = match_run(within, st, env, *scrutinee, arms, Some(want));
            let kind = ExprKindV::Match { scrutinee: Box::new(r.node.0), arms: r.node.1 };
            match r.res {
                Err(e) => KindRun { st: r.st, kind, res: Err(e), out: false },
                Ok(None) => KindRun { st: r.st, kind, res: Ok(resolved(r.st, want)), out: false },
                Ok(Some(ty)) => {
                    let m = meets(r.st, ty, want, span);
                    KindRun { st: m.0, kind, res: m.1, out: false }
                },
            }
        },
        ExprKindV::Lambda { params, return_type, body, dict_params } => match want {
            TyV::Func(ps, ret) => {
                let r = lambda_run(
                    within,
                    st,
                    env,
                    *body,
                    dict_params,
                    id,
                    params,
                    return_type,
                    Some((ps, ret)),
                );
                KindRun {
                    st: r.st,
                    kind: ExprKindV::Lambda {
                        params,
                        return_type,
                        body: Box::new(r.node.0),
                        dict_params: r.node.1,
                    },
                    res: r.res,
                    out: false,
                }
            },
            _ => KindRun { st, kind: k, res: Ok(want), out: false },
        },
        ExprKindV::Call {
            callee,
            args,
            is_method_call,
            arg_wrappers,
            resolved_callee,
            pending_trait_method,
            dict_args,
            pending_dict_args,
        } => {
            let r = dot_call_run(
                within,
                st,
                env,
                *callee,
                args,
                is_method_call,
                arg_wrappers,
                resolved_callee,
                pending_trait_method,
                dict_args,
                pending_dict_args,
                id,
                Some(want),
            );
            KindRun {
                st: r.st,
                kind: ExprKindV::Call {
                    callee: Box::new(r.node.0),
                    args: r.node.1,
                    is_method_call: r.node.2,
                    arg_wrappers: r.node.3,
                    resolved_callee: r.node.4,
                    pending_trait_method: r.node.5,
                    dict_args: r.node.6,
                    pending_dict_args: r.node.7,
                },
                res: r.res,
                out: false,
            }
        },
        _ => KindRun { st, kind: k, res: Ok(want), out: false },
    }
}

/// What kind of expression this is decides how it is checked.
#[verifier::opaque]
pub open spec fn infer_kind(
    within: Within,
    st: InferV,
    env: EnvV,
    k: ExprKindV,
    id: NodeId,
    span: SourceSpan,
) -> KindRun
{
    match k {
        ExprKindV::Grouped(inner) => {
            let r = within(st, env, *inner, None);
            KindRun { st: r.st, kind: ExprKindV::Grouped(Box::new(r.node)), res: r.res, out: false }
        },
        ExprKindV::Number(n) => {
            KindRun { st, kind: k, res: Ok(number_type(n)), out: false }
        },
        ExprKindV::StringLit(_) => {
            KindRun { st, kind: k, res: Ok(string_ty()), out: false }
        },
        ExprKindV::Bool(_) => {
            KindRun { st, kind: k, res: Ok(bool_ty()), out: false }
        },
        ExprKindV::Unit => {
            KindRun { st, kind: k, res: Ok(TyV::Unit), out: false }
        },
        ExprKindV::Import(path) => {
            KindRun { st, kind: k, res: if st.import_types.dom().contains(path) {
                    Ok(st.import_types[path])
                } else {
                    failed(TypeErrorV::UnknownImport(path))
                }, out: false }
        },
        ExprKindV::Ident(name) => {
            let u = ident_use(st, env, name, id, span);
            KindRun { st: u.0, kind: k, res: u.1, out: false }
        },
        ExprKindV::Not(operand) => {
            let r = not_run(within, st, env, *operand);
            KindRun { st: r.st, kind: ExprKindV::Not(Box::new(r.node)), res: r.res, out: r.res is Err }
        },
        ExprKindV::Neg { operand, resolved_op, pending_op } => {
            let r = neg_run(within, st, env, *operand, resolved_op, pending_op);
            KindRun { st: r.st, kind: ExprKindV::Neg {
                    operand: Box::new(r.node.0),
                    resolved_op: r.node.1,
                    pending_op: r.node.2,
                }, res: r.res, out: false }
        },
        ExprKindV::Assign { target, value } => {
            let r = assign_run(within, st, env, *target, *value);
            KindRun { st: r.st, kind: ExprKindV::Assign {
                    target: Box::new(r.node.0),
                    value: Box::new(r.node.1),
                }, res: r.res, out: r.res is Err }
        },
        ExprKindV::Binary { lhs, op, rhs, resolved_op, pending_op, dict_args, pending_dict_args } => {
            let r = binary_run(
                within,
                st,
                env,
                *lhs,
                *rhs,
                resolved_op,
                pending_op,
                dict_args,
                pending_dict_args,
                op,
            );
            KindRun {
                st: r.st,
                kind: ExprKindV::Binary {
                    lhs: Box::new(r.node.0),
                    op,
                    rhs: Box::new(r.node.1),
                    resolved_op: r.node.2,
                    pending_op: r.node.3,
                    dict_args: r.node.4,
                    pending_dict_args: r.node.5,
                },
                res: r.res,
                out: false,
            }
        },
        ExprKindV::Range { start, end, inclusive } => {
            let r = range_run(within, st, env, start, end, inclusive);
            KindRun { st: r.st, kind: ExprKindV::Range { start: r.node.0, end: r.node.1, inclusive }, res: r.res, out: false }
        },
        ExprKindV::AssociatedAccess { target, target_span, member, member_span, resolution } => {
            let r = associated_access(
                st,
                env,
                id,
                target,
                target_span,
                member,
                member_span,
                resolution,
            );
            KindRun {
                st: r.st,
                kind: ExprKindV::AssociatedAccess {
                    target,
                    target_span,
                    member,
                    member_span,
                    resolution: r.resolution,
                },
                res: r.res,
                out: r.out,
            }
        },
        ExprKindV::If { cond, then_branch, else_branch } => {
            let r = branches_run(within, st, env, *cond, *then_branch, *else_branch, None);
            let kind = ExprKindV::If {
                cond: Box::new(r.node.0),
                then_branch: Box::new(r.node.1),
                else_branch: Box::new(r.node.2),
            };
            match r.res {
                Err(e) => KindRun { st: r.st, kind, res: Err(e), out: true },
                Ok(tys) => {
                    let c = combine(r.st, tys.0, tys.1);
                    KindRun {
                        st: c.0,
                        kind,
                        res: match c.1 {
                            Err(e) => failed(e),
                            Ok(ty) => Ok(ty),
                        },
                        out: false,
                    }
                },
            }
        },
        ExprKindV::Match { scrutinee, arms } => {
            let r = match_run(within, st, env, *scrutinee, arms, None);
            KindRun {
                st: r.st,
                kind: ExprKindV::Match { scrutinee: Box::new(r.node.0), arms: r.node.1 },
                res: match r.res {
                    Err(e) => Err(e),
                    Ok(None) => Ok(TyV::Never),
                    Ok(Some(ty)) => Ok(ty),
                },
                out: r.res is Err,
            }
        },
        ExprKindV::Loop(body) => {
            let r = loop_run(within, st, env, *body);
            KindRun { st: r.st, kind: ExprKindV::Loop(Box::new(r.node)), res: r.res, out: r.res is Err }
        },
        ExprKindV::Break(val) => {
            let r = break_run(within, st, env, val);
            KindRun { st: r.st, kind: ExprKindV::Break(r.node), res: r.res, out: r.res is Err }
        },
        ExprKindV::Return(val) => {
            let r = return_run(within, st, env, val);
            KindRun { st: r.st, kind: ExprKindV::Return(r.node), res: r.res, out: r.res is Err }
        },
        ExprKindV::Continue => {
            KindRun { st, kind: k, res: if st.break_tys.len() == 0 {
                    failed(TypeErrorV::ContinueOutsideLoop)
                } else {
                    Ok(TyV::Never)
                }, out: false }
        },
        ExprKindV::Block { stmts, final_expr } => {
            let r = block_run(within, st, env, stmts, final_expr);
            KindRun { st: r.st, kind: ExprKindV::Block { stmts: r.node.0, final_expr: r.node.1 }, res: r.res, out: r.out }
        },
        ExprKindV::Tuple(items) => {
            let r = each_run(within, st, env, items, 0, Seq::empty());
            KindRun {
                st: r.st,
                kind: ExprKindV::Tuple(r.node),
                res: match r.res {
                    Err(e) => Err(e),
                    Ok(tys) => Ok(TyV::Tuple(tys)),
                },
                out: r.res is Err,
            }
        },
        ExprKindV::Array(entries) => {
            let r = array_run(within, st, env, entries, None, span);
            KindRun { st: r.st, kind: ExprKindV::Array(r.node), res: r.res, out: false }
        },
        ExprKindV::Record(entries) => {
            let r = record_run(within, st, env, entries);
            KindRun { st: r.st, kind: ExprKindV::Record(r.node), res: r.res, out: false }
        },
        ExprKindV::FieldAccess { expr, field } => {
            let r = field_run(within, st, env, *expr, field, id);
            KindRun { st: r.st, kind: ExprKindV::FieldAccess { expr: Box::new(r.node), field }, res: r.res, out: r.out }
        },
        ExprKindV::Index {
            receiver,
            key,
            resolved_callee,
            pending_trait_method,
            dict_args,
            pending_dict_args,
        } => {
            let r = index_run(within, st, env, *receiver, *key, resolved_callee, pending_trait_method);
            KindRun { st: r.st, kind: ExprKindV::Index {
                    receiver: Box::new(r.node.0),
                    key: Box::new(r.node.1),
                    resolved_callee: r.node.2,
                    pending_trait_method: r.node.3,
                    dict_args,
                    pending_dict_args,
                }, res: r.res, out: false }
        },
        ExprKindV::Lambda { params, return_type, body, dict_params } => {
            let r = lambda_run(within, st, env, *body, dict_params, id, params, return_type, None);
            KindRun { st: r.st, kind: ExprKindV::Lambda {
                    params,
                    return_type,
                    body: Box::new(r.node.0),
                    dict_params: r.node.1,
                }, res: r.res, out: false }
        },
        ExprKindV::For { pat, iterable, body, resolved_iter, pending_iter } => {
            let r = for_run(within, st, env, *iterable, *body, resolved_iter, pending_iter, pat);
            KindRun { st: r.st, kind: ExprKindV::For {
                    pat,
                    iterable: Box::new(r.node.0),
                    body: Box::new(r.node.1),
                    resolved_iter: r.node.2,
                    pending_iter: r.node.3,
                }, res: r.res, out: false }
        },
        ExprKindV::Call {
            callee,
            args,
            is_method_call,
            arg_wrappers,
            resolved_callee,
            pending_trait_method,
            dict_args,
            pending_dict_args,
        } => {
            let r = call_run(
                within,
                st,
                env,
                *callee,
                args,
                is_method_call,
                arg_wrappers,
                resolved_callee,
                pending_trait_method,
                dict_args,
                pending_dict_args,
                id,
                span,
            );
            KindRun {
                st: r.st,
                kind: ExprKindV::Call {
                    callee: Box::new(r.node.0),
                    args: r.node.1,
                    is_method_call: r.node.2,
                    arg_wrappers: r.node.3,
                    resolved_callee: r.node.4,
                    pending_trait_method: r.node.5,
                    dict_args: r.node.6,
                    pending_dict_args: r.node.7,
                },
                res: r.res,
                out: false,
            }
        },
    }
}

/// Tries the methods of traits from the one at `i` on. What a trial solves is forgotten.
#[verifier::opaque]
pub open spec fn probe_run(
    within: Within,
    st: InferV,
    env: EnvV,
    args: Seq<ExprV>,
    all: Seq<CandidateV>,
    receiver_ty: TyV,
    i: nat,
    found: Seq<CandidateV>,
    fits: Seq<CandidateV>,
) -> Probed
    decreases all.len() - i,
{
    if i >= all.len() {
        Probed { st, found, fits }
    } else {
        let t = trial_run(within, st, env, args, all[i as int], receiver_ty);
        let p = probed(st, t, env, receiver_ty, all[i as int], found, fits);
        probe_run(within, p.st, env, args, all, receiver_ty, i + 1, p.found, p.fits)
    }
}

/// Tries a method of a trait.
#[verifier::opaque]
pub open spec fn trial_run(
    within: Within,
    st: InferV,
    env: EnvV,
    args: Seq<ExprV>,
    c: CandidateV,
    receiver_ty: TyV,
) -> Trial
{
    trial_after(
        all_args(within, st, env, args, Seq::empty(), Seq::empty(), 0),
        env,
        receiver_ty,
        c,
    )
}


/// A negated condition.
#[verifier::opaque]
pub open spec fn not_run(
    within: Within,
    st: InferV,
    env: EnvV,
    operand: ExprV,
) -> Run<ExprV, TyV>
{
    let r = within(st, env, operand, None);
    let st = r.st;
    let operand = r.node;
    match r.res {
        Err(error) => Run { st, node: operand, res: Err(error) },
        Ok(ty) => {
            let u = equate(st, ty, bool_ty());
            let st = u.0;
            match u.1 {
                Some(error) => Run { st, node: operand, res: failed(error) },
                None => {
                    Run { st, node: operand, res: Ok(bool_ty()) }
    }}}}
}

/// A negated number: the method `-` of the trait `Neg`.
#[verifier::opaque]
pub open spec fn neg_run(
    within: Within,
    st: InferV,
    env: EnvV,
    operand: ExprV,
    resolved_op: Option<ResolvedCalleeV>,
    pending_op: Option<PendingDictArgV>,
) -> Run<(ExprV, Option<ResolvedCalleeV>, Option<PendingDictArgV>), TyV>
{
    match operator_method(st, "Neg"@, "-"@, 1) {
        Err(e) => Run { st, node: (operand, resolved_op, pending_op), res: failed(e) },
        Ok(op) => {
            let t = operator_types(st, op);
            let st = t.st;
            match t.err {
                Some(e) => Run { st, node: (operand, resolved_op, pending_op), res: failed(e) },
                None => {
                    if op.def.params.len() != 1 {
                        Run { st, node: (operand, resolved_op, pending_op), res: failed(TypeErrorV::TraitArityMismatch {
                                    trait_name: "Neg"@,
                                    expected: 1,
                                    got: op.def.params.len() as usize,
                            }) }
                    } else {
                        let r = within(st, env, operand, Some(t.params[0]));
                        let st = r.st;
                        let operand = r.node;
                        match r.res {
                            Err(error) => Run { st, node: (operand, resolved_op, pending_op), res: Err(error) },
                            Ok(ty) => {
                                let u = equate(st, ty, t.params[0]);
                                let st = u.0;
                                match u.1 {
                                    Some(error) => Run { st, node: (operand, resolved_op, pending_op), res: failed(error) },
                                    None => {
                                        let u = choose_dict(st, env, "Neg"@, resolved(st, t.args[0]));
                                        let st = u.0;
                                        match u.1 {
                                            Err(error) => Run { st, node: (operand, resolved_op, pending_op), res: failed(error) },
                                            Ok(choice) => {
                                                let o = chosen(OpV { resolved: resolved_op, pending: pending_op }, choice, "-"@);
                                                let resolved_op = o.resolved;
                                                let pending_op = o.pending;
                                                Run { st, node: (operand, resolved_op, pending_op), res: Ok(resolved(st, t.ret)) }
                        }}}}}}
                    }
    }}}}
}

/// What is assigned to: a variable that may change, or a field of a place that may.
#[verifier::opaque]
pub open spec fn target_run(
    within: Within,
    st: InferV,
    env: EnvV,
    target: ExprV,
) -> Run<ExprV, TyV>
{
    match target.kind {
        ExprKindV::Ident(name) => {
            if !env.dom().contains(name) {
                Run { st, node: target, res: failed(TypeErrorV::UnboundVariable(name)) }
            } else {
                if !env[name].binding_mutable {
                    Run { st, node: target, res: failed(TypeErrorV::ImmutableAssignment(name)) }
                } else {
                    let i = instance(st, env[name].scheme);
                    let st = noted_symbol(i.0, target.id, i.1.ty);
                    Run { st, node: target, res: Ok(i.1.ty) }
                }
            }
        },
        ExprKindV::FieldAccess { .. } => {
            match assignment_base(target) {
                None => {
                    Run { st, node: target, res: failed(TypeErrorV::InvalidAssignmentTarget) }
                },
                Some(name) => {
                    if !env.dom().contains(name) {
                        Run { st, node: target, res: failed(TypeErrorV::UnboundVariable(name)) }
                    } else {
                        if !env[name].place_mutable {
                            Run { st, node: target, res: failed(TypeErrorV::ImmutablePlace(name)) }
                        } else {
                            within(st, env, target, None)
                        }
                    }
                },
            }
        },
        _ => {
            Run { st, node: target, res: failed(TypeErrorV::InvalidAssignmentTarget) }
        },
    }
}

/// An assignment.
#[verifier::opaque]
pub open spec fn assign_run(
    within: Within,
    st: InferV,
    env: EnvV,
    target: ExprV,
    value: ExprV,
) -> Run<(ExprV, ExprV), TyV>
{
    let r = target_run(within, st, env, target);
    let st = r.st;
    let target = r.node;
    match r.res {
        Err(error) => Run { st, node: (target, value), res: Err(error) },
        Ok(target_ty) => {
            let r = within(st, env, value, None);
            let st = r.st;
            let value = r.node;
            match r.res {
                Err(error) => Run { st, node: (target, value), res: Err(error) },
                Ok(value_ty) => {
                    let u = equate(st, target_ty, value_ty);
                    let st = u.0;
                    match u.1 {
                        Some(error) => Run { st, node: (target, value), res: failed(error) },
                        None => {
                            Run { st, node: (target, value), res: Ok(TyV::Unit) }
    }}}}}}
}

/// A value that is piped into a function. The value has this type.
#[verifier::opaque]
pub open spec fn pipe_run(
    within: Within,
    st: InferV,
    env: EnvV,
    lhs: ExprV,
    rhs: ExprV,
    dict_args: Seq<DictRefV>,
    pending_dict_args: Seq<PendingDictArgV>,
    l_ty: TyV,
) -> Run<(ExprV, ExprV, Seq<DictRefV>, Seq<PendingDictArgV>), TyV>
{
    let r = within(st, env, rhs, None);
    let st = r.st;
    let rhs = r.node;
    match r.res {
        Err(error) => Run { st, node: (lhs, rhs, dict_args, pending_dict_args), res: Err(error) },
        Ok(r_ty) => {
            let u = pipe_end(
                st,
                env,
                lhs,
                rhs,
                l_ty,
                r_ty,
                ArgsV { dicts: dict_args, pending: pending_dict_args },
            );
            Run { st: u.st, node: (lhs, rhs, u.args.dicts, u.args.pending), res: u.res }
    }}
}

/// An operator that is a method of a trait. The left operand has this type.
#[verifier::opaque]
pub open spec fn trait_op_run(
    within: Within,
    st: InferV,
    env: EnvV,
    rhs: ExprV,
    resolved_op: Option<ResolvedCalleeV>,
    pending_op: Option<PendingDictArgV>,
    op: Seq<char>,
    trait_name: Seq<char>,
    l_ty: TyV,
) -> Run<(ExprV, Option<ResolvedCalleeV>, Option<PendingDictArgV>), TyV>
{
    let o = operator_start(st, trait_name, op, l_ty);
    let st = o.st;
    match o.err {
        Some(e) => Run { st, node: (rhs, resolved_op, pending_op), res: failed(e) },
        None => {
            let r = within(st, env, rhs, Some(o.right));
            let st = r.st;
            let rhs = r.node;
            match r.res {
                Err(error) => Run { st, node: (rhs, resolved_op, pending_op), res: Err(error) },
                Ok(r_ty) => {
                    let c = operator_end(
                        st,
                        env,
                        o.def,
                        o.args,
                        o.right,
                        o.ret,
                        trait_name,
                        op,
                        l_ty,
                        r_ty,
                        OpV { resolved: resolved_op, pending: pending_op },
                    );
                    Run { st: c.st, node: (rhs, c.op.resolved, c.op.pending), res: c.res }
    }}}}
}

/// A named operator. The left operand has this type.
#[verifier::opaque]
pub open spec fn custom_run(
    within: Within,
    st: InferV,
    env: EnvV,
    rhs: ExprV,
    resolved_op: Option<ResolvedCalleeV>,
    pending_op: Option<PendingDictArgV>,
    dict_args: Seq<DictRefV>,
    pending_dict_args: Seq<PendingDictArgV>,
    op: Seq<char>,
    l_ty: TyV,
) -> Run<(ExprV, Option<ResolvedCalleeV>, Option<PendingDictArgV>, Seq<DictRefV>, Seq<PendingDictArgV>), TyV>
{
    if st.op_traits.dom().contains(op) {
        let trait_name = st.op_traits[op];
        let r = trait_op_run(within, st, env, rhs, resolved_op, pending_op, op, trait_name, l_ty);
        Run {
            st: r.st,
            node: (r.node.0, r.node.1, r.node.2, dict_args, pending_dict_args),
            res: r.res,
        }
    } else {
        let r = within(st, env, rhs, None);
        let st = r.st;
        let rhs = r.node;
        match r.res {
            Err(error) => Run { st, node: (rhs, resolved_op, pending_op, dict_args, pending_dict_args), res: Err(error) },
            Ok(r_ty) => {
                let u = function_operator(
                    st,
                    env,
                    op,
                    l_ty,
                    r_ty,
                    resolved_op,
                    ArgsV { dicts: dict_args, pending: pending_dict_args },
                );
                Run {
                    st: u.st,
                    node: (rhs, u.resolved, pending_op, u.args.dicts, u.args.pending),
                    res: u.res,
                }
        }}
    }
}

/// A binary operator.
#[verifier::opaque]
pub open spec fn binary_run(
    within: Within,
    st: InferV,
    env: EnvV,
    lhs: ExprV,
    rhs: ExprV,
    resolved_op: Option<ResolvedCalleeV>,
    pending_op: Option<PendingDictArgV>,
    dict_args: Seq<DictRefV>,
    pending_dict_args: Seq<PendingDictArgV>,
    op: BinOpV,
) -> Run<(ExprV, ExprV, Option<ResolvedCalleeV>, Option<PendingDictArgV>, Seq<DictRefV>, Seq<PendingDictArgV>), TyV>
{
    let r = within(st, env, lhs, None);
    let st = r.st;
    let lhs = r.node;
    match r.res {
        Err(error) => Run { st, node: (lhs, rhs, resolved_op, pending_op, dict_args, pending_dict_args), res: Err(error) },
        Ok(l_ty) => {
            match op {
                BinOpV::Pipe => {
                    let r = pipe_run(within, st, env, lhs, rhs, dict_args, pending_dict_args, l_ty);
                    Run {
                        st: r.st,
                        node: (r.node.0, r.node.1, resolved_op, pending_op, r.node.2, r.node.3),
                        res: r.res,
                    }
                },
                BinOpV::Custom(name) => {
                    let r = custom_run(
                        within,
                        st,
                        env,
                        rhs,
                        resolved_op,
                        pending_op,
                        dict_args,
                        pending_dict_args,
                        name,
                        l_ty,
                    );
                    Run {
                        st: r.st,
                        node: (lhs, r.node.0, r.node.1, r.node.2, r.node.3, r.node.4),
                        res: r.res,
                    }
                },
            }
    }}
}

/// A bound of a range, if there is one: a whole number.
#[verifier::opaque]
pub open spec fn bound_run(
    within: Within,
    st: InferV,
    env: EnvV,
    bound: Option<Box<ExprV>>,
    context: ContextV,
) -> Run<Option<Box<ExprV>>, ()>
{
    match bound {
        Some(e) => {
            let r = within(st, env, *e, None);
            let st = r.st;
            let bound = Some(Box::new(r.node));
            match r.res {
                Err(e) => Run { st, node: bound, res: Err(e) },
                Ok(ty) => {
                    let u = equate(st, ty, TyV::Int);
                    let st = u.0;
                    match u.1 {
                        Some(e) => Run { st, node: bound, res: failed_at(in_context(e, context), r.node.span) },
                        None => {
                            Run { st, node: bound, res: Ok(()) }
            }}}}
        },
        None => {
            Run { st, node: bound, res: Ok(()) }
        },
    }
}

/// A range between bounds.
#[verifier::opaque]
pub open spec fn range_run(
    within: Within,
    st: InferV,
    env: EnvV,
    start: Option<Box<ExprV>>,
    end: Option<Box<ExprV>>,
    inclusive: bool,
) -> Run<(Option<Box<ExprV>>, Option<Box<ExprV>>), TyV>
{
    let r = bound_run(within, st, env, start, ContextV::RangeStart);
    let st = r.st;
    let start = r.node;
    match r.res {
        Err(error) => Run { st, node: (start, end), res: Err(error) },
        Ok(_) => {
            let r = bound_run(within, st, env, end, ContextV::RangeEnd);
            let st = r.st;
            let end = r.node;
            match r.res {
                Err(error) => Run { st, node: (start, end), res: Err(error) },
                Ok(_) => {
                    Run { st, node: (start, end), res: Ok(range_type(start is Some, end is Some, inclusive)) }
    }}}}
}

/// The types of the branches of a condition.
#[verifier::opaque]
pub open spec fn branches_run(
    within: Within,
    st: InferV,
    env: EnvV,
    cond: ExprV,
    then_branch: ExprV,
    else_branch: ExprV,
    expected: Option<TyV>,
) -> Run<(ExprV, ExprV, ExprV), (TyV, TyV)>
{
    let r = within(st, env, cond, None);
    let st = r.st;
    let cond = r.node;
    match r.res {
        Err(error) => Run { st, node: (cond, then_branch, else_branch), res: Err(error) },
        Ok(ty) => {
            let u = equate(st, ty, bool_ty());
            let st = u.0;
            match u.1 {
                Some(error) => Run { st, node: (cond, then_branch, else_branch), res: failed(error) },
                None => {
                    let r = within(st, env, then_branch, expected);
                    let st = r.st;
                    let then_branch = r.node;
                    match r.res {
                        Err(error) => Run { st, node: (cond, then_branch, else_branch), res: Err(error) },
                        Ok(then_ty) => {
                            let r = within(st, env, else_branch, expected);
                            let st = r.st;
                            let else_branch = r.node;
                            match r.res {
                                Err(error) => Run { st, node: (cond, then_branch, else_branch), res: Err(error) },
                                Ok(else_ty) => {
                                    Run { st, node: (cond, then_branch, else_branch), res: Ok((then_ty, else_ty)) }
    }}}}}}}}
}

/// An arm of a match on a value of type `s_ty`, which was `first` before all arms.
#[verifier::opaque]
pub open spec fn arm_run(
    within: Within,
    st: InferV,
    env: EnvV,
    body: ExprV,
    pattern: PatternV,
    s_ty: TyV,
    first: TyV,
    expected: Option<TyV>,
) -> Run<ExprV, TyV>
{
    let m = match_pattern(st, env, pattern, resolved(st, s_ty), false);
    let st = m.st;
    match m.err {
        Some(e) => Run { st, node: body, res: failed(e) },
        None => {
            let after = resolved(st, s_ty);
            let r = within(st, m.env, body, expected);
            let st = r.st;
            let body = r.node;
            match r.res {
                Err(error) => Run { st, node: body, res: Err(refined_error(pattern, first, after, error, body.span)) },
                Ok(ty) => {
                    Run { st, node: body, res: Ok(ty) }
    }}}}
}

/// The arms of a match from the one at `i` on. Those before have the type `found`.
#[verifier::opaque]
pub open spec fn arms_run(
    within: Within,
    st: InferV,
    env: EnvV,
    arms: Seq<MatchArmV>,
    s_ty: TyV,
    first: TyV,
    expected: Option<TyV>,
    i: nat,
    found: Option<TyV>,
) -> Run<Seq<MatchArmV>, Option<TyV>>
    decreases arms.len() - i,
{
    if i >= arms.len() {
        Run { st, node: arms, res: Ok(found) }
    } else {
        let arm = arms[i as int];
        let r = arm_run(within, st, env, arm.body, arm.pattern, s_ty, first, expected);
        let st = r.st;
        let arms = arms.update(i as int, MatchArmV { body: r.node, ..arm });
        match r.res {
            Err(e) => Run { st, node: arms, res: Err(e) },
            Ok(ty) => match found {
                None => arms_run(within, st, env, arms, s_ty, first, expected, i + 1, Some(ty)),
                Some(before) => {
                    let c = combine(st, before, ty);
                    let st = c.0;
                    match c.1 {
                        Err(e) => Run { st, node: arms, res: failed(e) },
                        Ok(both) => arms_run(within, st, env, arms, s_ty, first, expected, i + 1, Some(both)),
                    }
                },
            },
        }
    }
}

/// A match. It has no type if it has no arms.
#[verifier::opaque]
pub open spec fn match_run(
    within: Within,
    st: InferV,
    env: EnvV,
    scrutinee: ExprV,
    arms: Seq<MatchArmV>,
    expected: Option<TyV>,
) -> Run<(ExprV, Seq<MatchArmV>), Option<TyV>>
{
    let r = within(st, env, scrutinee, None);
    let st = r.st;
    let scrutinee = r.node;
    match r.res {
        Err(error) => Run { st, node: (scrutinee, arms), res: Err(error) },
        Ok(s_ty) => {
            let first = resolved(st, s_ty);
            let r = arms_run(within, st, env, arms, s_ty, first, expected, 0, None);
            let st = r.st;
            let arms = r.node;
            match r.res {
                Err(error) => Run { st, node: (scrutinee, arms), res: Err(error) },
                Ok(found) => {
                    match left_out(st, arms, resolved(st, s_ty)) {
                        Some(e) => Run { st, node: (scrutinee, arms), res: failed(e) },
                        None => {
                            Run { st, node: (scrutinee, arms), res: Ok(found) }
    }}}}}}
}

/// A loop. Its type is that of its breaks.
#[verifier::opaque]
pub open spec fn loop_run(
    within: Within,
    st: InferV,
    env: EnvV,
    body: ExprV,
) -> Run<ExprV, TyV>
{
    let ty = TyV::Var(next_var(st));
    let st = in_loop(fresh(st), ty);
    let r = within(st, env, body, None);
    let st = out_of_loop(r.st);
    let body = r.node;
    match r.res {
        Err(e) => Run { st, node: body, res: Err(e) },
        Ok(_) => {
            Run { st, node: body, res: Ok(ty) }
    }}
}

/// Leaves the innermost loop.
#[verifier::opaque]
pub open spec fn break_run(
    within: Within,
    st: InferV,
    env: EnvV,
    val: Option<Box<ExprV>>,
) -> Run<Option<Box<ExprV>>, TyV>
{
    if st.break_tys.len() == 0 {
        Run { st, node: val, res: failed(TypeErrorV::BreakOutsideLoop) }
    } else {
        let ty = st.break_tys.last();
        match val {
            Some(e) => {
                let r = within(st, env, *e, None);
                let st = r.st;
                let val = Some(Box::new(r.node));
                match r.res {
                    Err(e) => Run { st, node: val, res: Err(e) },
                    Ok(found) => {
                        let u = equate_result(st, found, ty);
                        let st = u.0;
                        match u.1 {
                            Some(error) => Run { st, node: val, res: failed(error) },
                            None => {
                                Run { st, node: val, res: Ok(TyV::Never) }
                }}}}
            },
            None => {
                let u = equate(st, ty, TyV::Unit);
                let st = u.0;
                match u.1 {
                    Some(error) => Run { st, node: val, res: failed(error) },
                    None => {
                        Run { st, node: val, res: Ok(TyV::Never) }
                }}
            },
        }
    }
}

/// Leaves the innermost function.
#[verifier::opaque]
pub open spec fn return_run(
    within: Within,
    st: InferV,
    env: EnvV,
    val: Option<Box<ExprV>>,
) -> Run<Option<Box<ExprV>>, TyV>
{
    if st.return_tys.len() == 0 {
        Run { st, node: val, res: failed(TypeErrorV::ReturnOutsideFunction) }
    } else {
        let ret = st.return_tys.last();
        match val {
            Some(e) => {
                let r = within(st, env, *e, None);
                let st = r.st;
                let val = Some(Box::new(r.node));
                match r.res {
                    Err(e) => Run { st, node: val, res: Err(e) },
                    Ok(found) => {
                        let u = equate_result(st, found, *ret.ty);
                        let st = u.0;
                        match u.1 {
                            Some(error) => Run { st, node: val, res: failed(error) },
                            None => {
                                match return_error(st, r.node, ret) {
                                    Some(error) => Run { st, node: val, res: Err(error) },
                                    None => {
                                        Run { st, node: val, res: Ok(TyV::Never) }
                }}}}}}
            },
            None => {
                let u = equate(st, *ret.ty, TyV::Unit);
                let st = u.0;
                match u.1 {
                    Some(error) => Run { st, node: val, res: failed(error) },
                    None => {
                        Run { st, node: val, res: Ok(TyV::Never) }
                }}
            },
        }
    }
}

/// Expressions from the one at `i` on. Those before have the types `tys`.
#[verifier::opaque]
pub open spec fn each_run(
    within: Within,
    st: InferV,
    env: EnvV,
    s: Seq<ExprV>,
    i: nat,
    tys: Seq<TyV>,
) -> Run<Seq<ExprV>, Seq<TyV>>
    decreases s.len() - i,
{
    if i >= s.len() {
        Run { st, node: s, res: Ok(tys) }
    } else {
        let r = within(st, env, s[i as int], None);
        let st = r.st;
        let s = s.update(i as int, r.node);
        match r.res {
            Err(e) => Run { st, node: s, res: Err(e) },
            Ok(ty) => each_run(within, st, env, s, i + 1, tys.push(ty)),
        }
    }
}

/// What an entry of an array holds, which has this type.
#[verifier::opaque]
pub open spec fn item_run(
    within: Within,
    st: InferV,
    env: EnvV,
    e: ExprV,
    want: TyV,
    is_expected: bool,
    is_spread: bool,
) -> Run<ExprV, ()>
{
    let expected = if is_expected {
        Some(want)
    } else {
        None
    };
    let r = within(st, env, e, expected);
    let st = r.st;
    let e = r.node;
    match r.res {
        Err(error) => Run { st, node: e, res: Err(error) },
        Ok(ty) => {
            let u = if is_spread {
                equate(st, ty, want)
            } else {
                equate(st, want, ty)
            };
            let st = u.0;
            match u.1 {
                Some(error) => Run { st, node: e, res: failed_at(error, e.span) },
                None => {
                    Run { st, node: e, res: Ok(()) }
    }}}}
}

/// An entry of an array of such elements.
#[verifier::opaque]
pub open spec fn entry_run(
    within: Within,
    st: InferV,
    env: EnvV,
    entry: ArrayEntryV,
    elt: TyV,
    is_expected: bool,
) -> Run<ArrayEntryV, ()>
{
    match entry {
        ArrayEntryV::Elem(e) => {
            let r = item_run(within, st, env, e, elt, is_expected, false);
            Run { st: r.st, node: ArrayEntryV::Elem(r.node), res: r.res }
        },
        ArrayEntryV::Spread(e) => {
            let r = item_run(within, st, env, e, array_of(elt), is_expected, true);
            Run { st: r.st, node: ArrayEntryV::Spread(r.node), res: r.res }
        },
    }
}

/// Entries of an array from the one at `i` on.
#[verifier::opaque]
pub open spec fn entries_run(
    within: Within,
    st: InferV,
    env: EnvV,
    s: Seq<ArrayEntryV>,
    elt: TyV,
    is_expected: bool,
    i: nat,
) -> Run<Seq<ArrayEntryV>, ()>
    decreases s.len() - i,
{
    if i >= s.len() {
        Run { st, node: s, res: Ok(()) }
    } else {
        let r = entry_run(within, st, env, s[i as int], elt, is_expected);
        let st = r.st;
        let s = s.update(i as int, r.node);
        match r.res {
            Err(e) => Run { st, node: s, res: Err(e) },
            Ok(_) => entries_run(within, st, env, s, elt, is_expected, i + 1),
        }
    }
}

/// An array.
#[verifier::opaque]
pub open spec fn array_run(
    within: Within,
    st: InferV,
    env: EnvV,
    entries: Seq<ArrayEntryV>,
    expected: Option<TyV>,
    span: SourceSpan,
) -> Run<Seq<ArrayEntryV>, TyV>
{
    let known = match expected {
        Some(ty) => array_element(ty),
        None => None,
    };
    let elt = match known {
        Some(ty) => ty,
        None => TyV::Var(next_var(st)),
    };
    let st = match known {
        Some(_) => st,
        None => fresh(st),
    };
    let r = entries_run(within, st, env, entries, elt, known is Some, 0);
    let st = r.st;
    let entries = r.node;
    match r.res {
        Err(error) => Run { st, node: entries, res: Err(error) },
        Ok(_) => {
            let ty = array_of(elt);
            match expected {
                Some(whole) => {
                    let u = equate(st, ty, whole);
                    let st = u.0;
                    match u.1 {
                        Some(error) => Run { st, node: entries, res: failed_at(error, span) },
                        None => {
                            Run { st, node: entries, res: Ok(resolved(st, ty)) }
                    }}
                },
                None => {
                    Run { st, node: entries, res: Ok(resolved(st, ty)) }
                },
            }
    }}
}

/// The value of a field of a record, whose fields so far are these.
#[verifier::opaque]
pub open spec fn field_value_run(
    within: Within,
    st: InferV,
    env: EnvV,
    e: ExprV,
    fields: Seq<FieldV>,
    name: Seq<char>,
) -> Run<ExprV, Seq<FieldV>>
{
    let r = within(st, env, e, None);
    let st = r.st;
    let e = r.node;
    match r.res {
        Err(error) => Run { st, node: e, res: Err(error) },
        Ok(ty) => {
            match merge_field(fields, name, ty) {
                Err(error) => Run { st, node: e, res: failed_at(error, e.span) },
                Ok(more) => Run { st, node: e, res: Ok(more) },
            }

    }}
}

/// A record whose fields join those of another.
#[verifier::opaque]
pub open spec fn spread_run(
    within: Within,
    st: InferV,
    env: EnvV,
    e: ExprV,
    fields: Seq<FieldV>,
    tail: TyV,
) -> Run<ExprV, (Seq<FieldV>, TyV)>
{
    let r = within(st, env, e, None);
    let st = r.st;
    let e = r.node;
    match r.res {
        Err(error) => Run { st, node: e, res: Err(error) },
        Ok(ty) => {
            let l = spread_into(st, fields, tail, ty, e.span);
            let st = l.st;
            match l.err {
                Some(error) => Run { st, node: e, res: Err(error) },
                None => Run { st, node: e, res: Ok((l.fields, l.tail)) },
            }
    }}
}

/// An entry of a record. Gives the fields and the rest of the record.
#[verifier::opaque]
pub open spec fn field_entry_run(
    within: Within,
    st: InferV,
    env: EnvV,
    entry: RecordEntryV,
    fields: Seq<FieldV>,
    tail: TyV,
) -> Run<RecordEntryV, (Seq<FieldV>, TyV)>
{
    match entry {
        RecordEntryV::Field(name, e) => {
            let r = field_value_run(within, st, env, e, fields, name);
            Run {
                st: r.st,
                node: RecordEntryV::Field(name, r.node),
                res: match r.res {
                    Err(error) => Err(error),
                    Ok(more) => Ok((more, tail)),
                },
            }
        },
        RecordEntryV::Spread(e) => {
            let r = spread_run(within, st, env, e, fields, tail);
            Run { st: r.st, node: RecordEntryV::Spread(r.node), res: r.res }
        },
    }
}

/// Entries of a record from the one at `i` on. Those before gave these fields and this rest.
#[verifier::opaque]
pub open spec fn fields_run(
    within: Within,
    st: InferV,
    env: EnvV,
    s: Seq<RecordEntryV>,
    i: nat,
    fields: Seq<FieldV>,
    tail: TyV,
) -> Run<Seq<RecordEntryV>, (Seq<FieldV>, TyV)>
    decreases s.len() - i,
{
    if i >= s.len() {
        Run { st, node: s, res: Ok((fields, tail)) }
    } else {
        let r = field_entry_run(within, st, env, s[i as int], fields, tail);
        let st = r.st;
        let s = s.update(i as int, r.node);
        match r.res {
            Err(e) => Run { st, node: s, res: Err(e) },
            Ok(more) => fields_run(within, st, env, s, i + 1, more.0, more.1),
        }
    }
}

/// A record.
#[verifier::opaque]
pub open spec fn record_run(
    within: Within,
    st: InferV,
    env: EnvV,
    entries: Seq<RecordEntryV>,
) -> Run<Seq<RecordEntryV>, TyV>
{
    let r = fields_run(within, st, env, entries, 0, Seq::empty(), TyV::Unit);
    let st = r.st;
    let entries = r.node;
    match r.res {
        Err(e) => Run { st, node: entries, res: Err(e) },
        Ok(l) => {
            Run { st, node: entries, res: Ok(TyV::Record(RowV { fields: sort_fields(l.0), tail: Box::new(l.1) })) }
    }}
}

/// The field of a record.
#[verifier::opaque]
pub open spec fn field_run(
    within: Within,
    st: InferV,
    env: EnvV,
    base: ExprV,
    field: Seq<char>,
    id: NodeId,
) -> OutRun<ExprV>
{
    let imported = imported_scheme(st, base, field);
    let local = field_caps(st, base, field);
    let r = within(st, env, base, None);
    let st = r.st;
    let base = r.node;
    match r.res {
        Err(error) => OutRun { st, node: base, res: Err(error), out: true },
        Ok(ty) => {
            match imported {
                Some(scheme) => {
                    let u = imported_use(st, id, scheme);
                    let st = u.0;
                    OutRun { st, node: base, res: Ok(u.1), out: true }
                },
                None => {
                    let field_ty = TyV::Var(next_var(st));
                    let st = fresh(st);
                    let tail = TyV::Var(next_var(st));
                    let st = fresh(st);
                    let u = equate(st, ty, one_field(field, field_ty, tail));
                    let st = u.0;
                    match u.1 {
                        Some(error) => OutRun { st, node: base, res: failed(error), out: true },
                        None => {
                            match local {
                                Some(caps) => {
                                    let st = noted_caps(st, id, caps);
                                    OutRun { st, node: base, res: Ok(field_ty), out: false }
                                },
                                None => {
                                    OutRun { st, node: base, res: Ok(field_ty), out: false }
                                },
                            }
                    }}
                },
            }
    }}
}

/// What stands at a key: the method `index` of the trait `Index`.
#[verifier::opaque]
pub open spec fn index_run(
    within: Within,
    st: InferV,
    env: EnvV,
    receiver: ExprV,
    key: ExprV,
    resolved_callee: Option<ResolvedCalleeV>,
    pending_trait_method: Option<PendingMethodV>,
) -> Run<(ExprV, ExprV, Option<ResolvedCalleeV>, Option<PendingMethodV>), TyV>
{
    if !st.traits.dom().contains("Index"@) {
        Run { st, node: (receiver, key, resolved_callee, pending_trait_method), res: failed(TypeErrorV::UnknownTrait("Index"@)) }
    } else {
        let def = st.traits["Index"@];
        if def.params.len() != 3 {
            Run { st, node: (receiver, key, resolved_callee, pending_trait_method), res: failed(TypeErrorV::TraitArityMismatch {
                        trait_name: "Index"@,
                        expected: 3,
                        got: def.params.len() as usize,
                }) }
        } else {
            let r = within(st, env, receiver, None);
            let st = r.st;
            let receiver = r.node;
            match r.res {
                Err(error) => Run { st, node: (receiver, key, resolved_callee, pending_trait_method), res: Err(error) },
                Ok(receiver_ty) => {
                    let r = within(st, env, key, None);
                    let st = r.st;
                    let key = r.node;
                    match r.res {
                        Err(error) => Run { st, node: (receiver, key, resolved_callee, pending_trait_method), res: Err(error) },
                        Ok(key_ty) => {
                            let u = index_use(st, env, def, receiver_ty, key_ty);
                            let st = u.0;
                            match u.1 {
                                Err(error) => Run { st, node: (receiver, key, resolved_callee, pending_trait_method), res: Err(error) },
                                Ok(dispatch) => {
                                    match dispatch {
                                        DispatchV::Resolved(ty, callee) => {
                                            let resolved_callee = Some(callee);
                                            Run { st, node: (receiver, key, resolved_callee, pending_trait_method), res: Ok(ty) }
                                        },
                                        DispatchV::Pending(ty, pending) => {
                                            let pending_trait_method = Some(pending);
                                            Run { st, node: (receiver, key, resolved_callee, pending_trait_method), res: Ok(ty) }
                                        },
                                        DispatchV::Unknown => {
                                            Run { st, node: (receiver, key, resolved_callee, pending_trait_method), res: Ok(TyV::Unit) }
                                        },
                                    }
            }}}}}}
        }
    }
}

/// A loop over what the method `iter` of the trait `Iterable` gives.
#[verifier::opaque]
pub open spec fn for_run(
    within: Within,
    st: InferV,
    env: EnvV,
    iterable: ExprV,
    body: ExprV,
    resolved_iter: Option<ResolvedCalleeV>,
    pending_iter: Option<PendingDictArgV>,
    pat: PatternV,
) -> Run<(ExprV, ExprV, Option<ResolvedCalleeV>, Option<PendingDictArgV>), TyV>
{
    let r = within(st, env, iterable, None);
    let st = r.st;
    let iterable = r.node;
    match r.res {
        Err(error) => Run { st, node: (iterable, body, resolved_iter, pending_iter), res: Err(error) },
        Ok(ty) => {
            let t = iter_types(st);
            let st = t.st;
            match t.err {
                Some(e) => Run { st, node: (iterable, body, resolved_iter, pending_iter), res: failed(e) },
                None => {
                    let u = equate(st, ty, t.self_ty);
                    let st = u.0;
                    match u.1 {
                        Some(error) => Run { st, node: (iterable, body, resolved_iter, pending_iter), res: failed(error) },
                        None => {
                            let c = choose_iterable(st, env, resolved(st, t.target));
                            let st = c.0;
                            match c.1 {
                                Err(e) => Run { st, node: (iterable, body, resolved_iter, pending_iter), res: failed_at(e, iterable.span) },
                                Ok(choice) => {
                                    let o = chosen(OpV { resolved: resolved_iter, pending: pending_iter }, choice, "iter"@);
                                    let resolved_iter = o.resolved;
                                    let pending_iter = o.pending;
                                    let element = resolved(st, element_of_iterator(resolved(st, t.ret)));
                                    let m = match_pattern(st, env, pat, element, false);
                                    let st = m.st;
                                    match m.err {
                                        Some(e) => Run { st, node: (iterable, body, resolved_iter, pending_iter), res: failed(e) },
                                        None => {
                                            let st = in_loop(st, TyV::Unit);
                                            let r = within(st, m.env, body, None);
                                            let st = r.st;
                                            let body = r.node;
                                            match r.res {
                                                Err(error) => Run { st, node: (iterable, body, resolved_iter, pending_iter), res: Err(error) },
                                                Ok(_) => {
                                                    let st = out_of_loop(st);
                                                    Run { st, node: (iterable, body, resolved_iter, pending_iter), res: Ok(TyV::Unit) }
    }}}}}}}}}}}}
}

/// The body of a function that returns this. A mismatch of its type is at the body if it
/// is placed.
#[verifier::opaque]
pub open spec fn body_run(
    within: Within,
    st: InferV,
    env: EnvV,
    body: ExprV,
    ret: ReturnV,
    is_expected: bool,
    is_placed: bool,
) -> Run<ExprV, ()>
{
    let r = within(
            in_function(st, ret),
            env,
            body,
            if is_expected {
            Some(*ret.ty)
        } else {
            None
    },
        );
    let st = out_of_function(r.st);
    let body = r.node;
    match r.res {
        Err(e) => Run { st, node: body, res: Err(e) },
        Ok(ty) => {
            let u = equate_result(st, ty, *ret.ty);
            let st = u.0;
            match u.1 {
                Some(e) => Run { st, node: body, res: if is_placed {
                        failed_at(e, body.span)
                    } else {
                        failed(e)
                    } },
                None => {
                    if resolved(st, ty) == TyV::Never {
                        Run { st, node: body, res: Ok(()) }
                    } else {
                        match return_error(st, body, ret) {
                            Some(error) => Run { st, node: body, res: Err(error) },
                            None => {
                                Run { st, node: body, res: Ok(()) }
                        }}
                    }
    }}}}
}

/// The body of a function, and the constraints that it leaves to settle beside the ones
/// it starts with.
#[verifier::opaque]
pub open spec fn scoped_run(
    within: Within,
    st: InferV,
    env: EnvV,
    body: ExprV,
    initial: Seq<ConstraintV>,
    ret: ReturnV,
    is_expected: bool,
    is_placed: bool,
) -> Run<ExprV, Seq<ConstraintV>>
{
    let r = body_run(within, pending_on(st, initial), env, body, ret, is_expected, is_placed);
    let left = r.st.pending;
    let st = pending_on(r.st, st.pending);
    let body = r.node;
    match r.res {
        Err(e) => Run { st, node: body, res: Err(e) },
        Ok(_) => {
            Run { st, node: body, res: Ok(left) }
    }}
}

/// A function without a name.
#[verifier::opaque]
pub open spec fn lambda_run(
    within: Within,
    st: InferV,
    env: EnvV,
    body: ExprV,
    dict_params: Seq<Seq<char>>,
    id: NodeId,
    params: Seq<ParamV>,
    annotation: Option<TypeV>,
    expected: Option<(Seq<crate::ty::ParamV>, ReturnV)>,
) -> Run<(ExprV, Seq<Seq<char>>), TyV>
{
    let ambient = st.level;
    let h = lambda_head(
        at_level(st, child_level(ambient)),
        env,
        params,
        annotation,
        body.span,
        expected,
    );
    let st = h.st;
    match h.err {
        Some(e) => {
            let st = at_level(st, ambient);
            Run { st, node: (body, dict_params), res: Err(e) }
        },
        None => {
            let r = scoped_run(within, st, h.env, body, h.initial, h.ret, expected is Some, false);
            let st = at_level(r.st, ambient);
            let body = r.node;
            match r.res {
                Err(e) => Run { st, node: (body, dict_params), res: Err(e) },
                Ok(left) => {
                    let d = end_def(st, env, h.fn_ty, left, ambient, body, None, false);
                    let st = d.st;
                    let body = d.body;
                    let dict_params = param_names(d.owned);
                    match d.err {
                        Some(e) => Run { st, node: (body, dict_params), res: failed(e) },
                        None => {
                            let st = noted_caps(st, id, declared_caps(params));
                            Run { st, node: (body, dict_params), res: Ok(under(d.owned, d.scheme.ty)) }
    }}}}}}
}

/// An argument. A function without a name is checked against the type of the parameter.
#[verifier::opaque]
pub open spec fn arg_run(
    within: Within,
    st: InferV,
    env: EnvV,
    e: ExprV,
    expected: Option<TyV>,
) -> Run<ExprV, ArgV>
{
    arg_after(within(st, env, e, arg_expects(e, expected)), env)
}

/// Arguments from the one at `i` on. Those before have the types `tys`.
#[verifier::opaque]
pub open spec fn args_run(
    within: Within,
    st: InferV,
    env: EnvV,
    args: Seq<ExprV>,
    arg_wrappers: Seq<Option<ArgWrapperV>>,
    params: Seq<crate::ty::ParamV>,
    offset: nat,
    i: nat,
    tys: Seq<TyV>,
) -> Run<(Seq<ExprV>, Seq<Option<ArgWrapperV>>), Seq<TyV>>
    decreases args.len() - i,
{
    if i >= args.len() {
        Run { st, node: (args, arg_wrappers), res: Ok(tys) }
    } else {
        let r = arg_run(within, st, env, args[i as int], param_at(params, (offset + i) as int));
        let st = r.st;
        let args = args.update(i as int, r.node);
        match r.res {
            Err(error) => Run { st, node: (args, arg_wrappers), res: Err(error) },
            Ok(found) => args_run(
                within,
                st,
                env,
                args,
                arg_wrappers.push(found.wrapper),
                params,
                offset,
                i + 1,
                tys.push(found.ty),
            ),
        }
    }
}

/// All arguments of a call.
#[verifier::opaque]
pub open spec fn all_args(
    within: Within,
    st: InferV,
    env: EnvV,
    args: Seq<ExprV>,
    arg_wrappers: Seq<Option<ArgWrapperV>>,
    params: Seq<crate::ty::ParamV>,
    offset: nat,
) -> Run<(Seq<ExprV>, Seq<Option<ArgWrapperV>>), Seq<TyV>>
{
    args_run(within, st, env, args, Seq::empty(), params, offset, 0, Seq::empty())
}

/// All arguments of a call, with mutable places where they are asked for.
#[verifier::opaque]
pub open spec fn checked_args(
    within: Within,
    st: InferV,
    env: EnvV,
    args: Seq<ExprV>,
    arg_wrappers: Seq<Option<ArgWrapperV>>,
    params: Seq<crate::ty::ParamV>,
    offset: nat,
) -> Run<(Seq<ExprV>, Seq<Option<ArgWrapperV>>), Seq<TyV>>
{
    args_after(all_args(within, st, env, args, arg_wrappers, params, offset), env, params, offset)
}

/// A callable is applied to arguments. `lead` stand before the written ones, at `first`.
#[verifier::opaque]
pub open spec fn apply_run(
    within: Within,
    st: InferV,
    env: EnvV,
    args: Seq<ExprV>,
    arg_wrappers: Seq<Option<ArgWrapperV>>,
    dict_args: Seq<DictRefV>,
    pending_dict_args: Seq<PendingDictArgV>,
    callable: TyV,
    constraints: Seq<ConstraintV>,
    caps: Seq<ParamCapability>,
    lead: Seq<TyV>,
    first: Option<SourceSpan>,
    offset: nat,
    dict_span: Option<SourceSpan>,
) -> Run<(Seq<ExprV>, Seq<Option<ArgWrapperV>>, Seq<DictRefV>, Seq<PendingDictArgV>), AppliedV>
{
    let r = checked_args(within, st, env, args, arg_wrappers, params_of(callable), offset);
    let st = r.st;
    let args = r.node.0;
    let arg_wrappers = r.node.1;
    match r.res {
        Err(error) => Run { st, node: (args, arg_wrappers, dict_args, pending_dict_args), res: Err(error) },
        Ok(tys) => {
            let span = if args.len() > 0 {
                Some(args[0].span)
            } else {
                first
            };
            let a = finish_call(
                st,
                env,
                args,
                lead + tys,
                callable,
                constraints,
                caps,
                span,
                dict_span,
                dict_args,
                pending_dict_args,
            );
            Run { st: a.st, node: (args, arg_wrappers, a.dicts, a.pending), res: a.res }
    }}
}

/// What a scheme stands for is applied to arguments.
#[verifier::opaque]
pub open spec fn apply_scheme_run(
    within: Within,
    st: InferV,
    env: EnvV,
    args: Seq<ExprV>,
    arg_wrappers: Seq<Option<ArgWrapperV>>,
    dict_args: Seq<DictRefV>,
    pending_dict_args: Seq<PendingDictArgV>,
    scheme: SchemeV,
    lead: Option<(TyV, SourceSpan)>,
) -> Run<(Seq<ExprV>, Seq<Option<ArgWrapperV>>, Seq<DictRefV>, Seq<PendingDictArgV>), AppliedV>
{
    let i = instance(st, scheme);
    let st = i.0;
    let l = match lead {
        Some(a) => lead_arg(st, i.1.ty, a.0, a.1),
        None => (st, None),
    };
    let st = l.0;
    match l.1 {
        Some(error) => Run { st, node: (args, arg_wrappers, dict_args, pending_dict_args), res: Err(error) },
        None => {
            apply_run(
                within,
                st,
                env,
                args,
                arg_wrappers,
                dict_args,
                pending_dict_args,
                i.1.ty,
                i.1.constraints,
                Seq::empty(),
                lead_tys(lead),
                lead_span(lead),
                if lead is Some {
                    1
                } else {
                    0
                },
                None,
            )
    }}
}

/// A call of a method of a trait.
#[verifier::opaque]
pub open spec fn trait_method_run(
    within: Within,
    st: InferV,
    env: EnvV,
    args: Seq<ExprV>,
    arg_wrappers: Seq<Option<ArgWrapperV>>,
    resolved_callee: Option<ResolvedCalleeV>,
    pending_trait_method: Option<PendingMethodV>,
    def: TraitDefV,
    method: TraitMethodV,
) -> Run<(Seq<ExprV>, Seq<Option<ArgWrapperV>>, Option<ResolvedCalleeV>, Option<PendingMethodV>), TyV>
{
    let r = all_args(within, st, env, args, arg_wrappers, Seq::empty(), 0);
    let st = r.st;
    let args = r.node.0;
    let arg_wrappers = r.node.1;
    match r.res {
        Err(error) => Run { st, node: (args, arg_wrappers, resolved_callee, pending_trait_method), res: Err(error) },
        Ok(tys) => {
            let t = trait_finish(
                st,
                env,
                def,
                method,
                tys,
                resolved_callee,
                pending_trait_method,
            );
            Run { st: t.st, node: (args, arg_wrappers, t.resolved, t.pending), res: t.res }
    }}
}

/// A call of what is defined for a type itself.
#[verifier::opaque]
pub open spec fn inherent_call_run(
    within: Within,
    st: InferV,
    env: EnvV,
    args: Seq<ExprV>,
    arg_wrappers: Seq<Option<ArgWrapperV>>,
    resolved_callee: Option<ResolvedCalleeV>,
    dict_args: Seq<DictRefV>,
    pending_dict_args: Seq<PendingDictArgV>,
    id: NodeId,
    callee_id: NodeId,
    target: TypeV,
    target_span: SourceSpan,
    member: Seq<char>,
    member_span: SourceSpan,
) -> Run<(Seq<ExprV>, Seq<Option<ArgWrapperV>>, Option<ResolvedCalleeV>, Seq<DictRefV>, Seq<PendingDictArgV>), TyV>
{
    match inherent_member(st, target, target_span, member, member_span) {
        Err(error) => Run { st, node: (args, arg_wrappers, resolved_callee, dict_args, pending_dict_args), res: Err(error) },
        Ok(info) => {
            let u = inherent_use(st, target, target_span, info);
            let st = u.0;
            match u.1 {
                Err(error) => Run { st, node: (args, arg_wrappers, resolved_callee, dict_args, pending_dict_args), res: Err(error) },
                Ok(inst) => {
                    let st = noted_symbol(st, callee_id, under(inst.constraints, inst.callable));
                    let r = apply_run(within, st, env, args, arg_wrappers, dict_args, pending_dict_args, inst.callable, inst.constraints, ty_caps(inst.callable), Seq::empty(), None, 0, Some(member_span));
                    let st = r.st;
                    let args = r.node.0;
                    let arg_wrappers = r.node.1;
                    let dict_args = r.node.2;
                    let pending_dict_args = r.node.3;
                    match r.res {
                        Err(error) => Run { st, node: (args, arg_wrappers, resolved_callee, dict_args, pending_dict_args), res: Err(error) },
                        Ok(applied) => {
                            let st = noted_fresh(noted_symbol(st, callee_id, applied.call_ty), id, applied.is_fresh);
                            let resolved_callee = Some(info.resolved_callee);
                            Run { st, node: (args, arg_wrappers, resolved_callee, dict_args, pending_dict_args), res: Ok(applied.ret) }
    }}}}}}
}

/// A call of a method of a trait with written arguments.
#[verifier::opaque]
pub open spec fn explicit_call_run(
    within: Within,
    st: InferV,
    env: EnvV,
    args: Seq<ExprV>,
    arg_wrappers: Seq<Option<ArgWrapperV>>,
    resolved_callee: Option<ResolvedCalleeV>,
    dict_args: Seq<DictRefV>,
    pending_dict_args: Seq<PendingDictArgV>,
    id: NodeId,
    callee_id: NodeId,
    def: TraitDefV,
    method: TraitMethodV,
    explicit: Option<Seq<TypeV>>,
    target_span: SourceSpan,
    member_span: SourceSpan,
) -> Run<(Seq<ExprV>, Seq<Option<ArgWrapperV>>, Option<ResolvedCalleeV>, Seq<DictRefV>, Seq<PendingDictArgV>), TyV>
{
    let u = trait_use(st, env, def, method, explicit, target_span);
    let st = u.0;
    match u.1 {
        Err(error) => Run { st, node: (args, arg_wrappers, resolved_callee, dict_args, pending_dict_args), res: Err(error) },
        Ok(inst) => {
            let r = apply_run(within, st, env, args, arg_wrappers, dict_args, pending_dict_args, inst.callable, inst.constraints, ty_caps(inst.callable), Seq::empty(), None, 0, Some(member_span));
            let st = r.st;
            let args = r.node.0;
            let arg_wrappers = r.node.1;
            let dict_args = r.node.2;
            let pending_dict_args = r.node.3;
            match r.res {
                Err(error) => Run { st, node: (args, arg_wrappers, resolved_callee, dict_args, pending_dict_args), res: Err(error) },
                Ok(applied) => {
                    let st = noted_fresh(noted_symbol(st, callee_id, applied.call_ty), id, applied.is_fresh);
                    let resolved_callee = match inst.dict {
                        Some(dict) => Some(ResolvedCalleeV::DictMethod { dict, method: method.name }),
                        None => resolved_callee,
                    };
                    Run { st, node: (args, arg_wrappers, resolved_callee, dict_args, pending_dict_args), res: Ok(applied.ret) }
    }}}}
}

/// A call of a member of a type or a trait.
#[verifier::opaque]
pub open spec fn associated_call_run(
    within: Within,
    st: InferV,
    env: EnvV,
    callee: ExprV,
    args: Seq<ExprV>,
    is_method_call: bool,
    arg_wrappers: Seq<Option<ArgWrapperV>>,
    resolved_callee: Option<ResolvedCalleeV>,
    pending_trait_method: Option<PendingMethodV>,
    dict_args: Seq<DictRefV>,
    pending_dict_args: Seq<PendingDictArgV>,
    id: NodeId,
    target: TypeV,
    target_span: SourceSpan,
    member: Seq<char>,
    member_span: SourceSpan,
) -> Run<(ExprV, Seq<ExprV>, bool, Seq<Option<ArgWrapperV>>, Option<ResolvedCalleeV>, Option<PendingMethodV>, Seq<DictRefV>, Seq<PendingDictArgV>), TyV>
{
    match trait_member(st, target, member, member_span) {
        Ok(Some(l)) => {
            match l.explicit {
                None => {
                    let r = trait_method_run(
                        within,
                        st,
                        env,
                        args,
                        arg_wrappers,
                        resolved_callee,
                        pending_trait_method,
                        l.def,
                        l.method,
                    );
                    Run {
                        st: r.st,
                        node: (
                            callee,
                            r.node.0,
                            is_method_call,
                            r.node.1,
                            r.node.2,
                            r.node.3,
                            dict_args,
                            pending_dict_args,
                        ),
                        res: r.res,
                    }
                },
                Some(_) => {
                    let r = explicit_call_run(
                        within,
                        st,
                        env,
                        args,
                        arg_wrappers,
                        resolved_callee,
                        dict_args,
                        pending_dict_args,
                        id,
                        callee.id,
                        l.def,
                        l.method,
                        l.explicit,
                        target_span,
                        member_span,
                    );
                    Run { st: r.st, node: (
                            callee,
                            r.node.0,
                            is_method_call,
                            r.node.1,
                            r.node.2,
                            pending_trait_method,
                            r.node.3,
                            r.node.4,
                        ), res: r.res }
                },
            }
        },
        Ok(None) => {
            let r = inherent_call_run(
                within,
                st,
                env,
                args,
                arg_wrappers,
                resolved_callee,
                dict_args,
                pending_dict_args,
                id,
                callee.id,
                target,
                target_span,
                member,
                member_span,
            );
            Run { st: r.st, node: (
                    callee,
                    r.node.0,
                    is_method_call,
                    r.node.1,
                    r.node.2,
                    pending_trait_method,
                    r.node.3,
                    r.node.4,
                ), res: r.res }
        },
        Err(error) => {
            if error.error is UnknownTraitMethod {
                let r = inherent_call_run(
                    within,
                    st,
                    env,
                    args,
                    arg_wrappers,
                    resolved_callee,
                    dict_args,
                    pending_dict_args,
                    id,
                    callee.id,
                    target,
                    target_span,
                    member,
                    member_span,
                );
                let res = match r.res {
                    Err(other) => if is_unknown_member(other.error) {
                        Err(error)
                    } else {
                        Err(other)
                    },
                    Ok(ty) => Ok(ty),
                };
                Run { st: r.st, node: (
                        callee,
                        r.node.0,
                        is_method_call,
                        r.node.1,
                        r.node.2,
                        pending_trait_method,
                        r.node.3,
                        r.node.4,
                    ), res }
            } else {
                Run { st, node: (callee, args, is_method_call, arg_wrappers, resolved_callee, pending_trait_method, dict_args, pending_dict_args), res: Err(error) }
            }
        },
    }
}

/// A call of a name whose scheme has constraints.
#[verifier::opaque]
pub open spec fn constrained_call_run(
    within: Within,
    st: InferV,
    env: EnvV,
    callee: ExprV,
    args: Seq<ExprV>,
    is_method_call: bool,
    arg_wrappers: Seq<Option<ArgWrapperV>>,
    resolved_callee: Option<ResolvedCalleeV>,
    pending_trait_method: Option<PendingMethodV>,
    dict_args: Seq<DictRefV>,
    pending_dict_args: Seq<PendingDictArgV>,
    scheme: SchemeV,
    id: NodeId,
) -> Run<(ExprV, Seq<ExprV>, bool, Seq<Option<ArgWrapperV>>, Option<ResolvedCalleeV>, Option<PendingMethodV>, Seq<DictRefV>, Seq<PendingDictArgV>), TyV>
{
    let callee_id = callee.id;
    let i = instance(st, scheme);
    let st = if callee_id != NO_NODE_ID {
        noted_symbol(i.0, callee_id, value_of(i.1))
    } else {
        st
    };
    let r = apply_scheme_run(within, st, env, args, arg_wrappers, dict_args, pending_dict_args, scheme, None);
    let st = r.st;
    let args = r.node.0;
    let arg_wrappers = r.node.1;
    let dict_args = r.node.2;
    let pending_dict_args = r.node.3;
    match r.res {
        Err(error) => Run { st, node: (callee, args, is_method_call, arg_wrappers, resolved_callee, pending_trait_method, dict_args, pending_dict_args), res: Err(error) },
        Ok(applied) => {
            let st = noted_fresh(st, id, applied.is_fresh);
            Run { st, node: (callee, args, is_method_call, arg_wrappers, resolved_callee, pending_trait_method, dict_args, pending_dict_args), res: Ok(applied.ret) }
    }}
}

/// A call of any value.
#[verifier::opaque]
pub open spec fn plain_call_run(
    within: Within,
    st: InferV,
    env: EnvV,
    callee: ExprV,
    args: Seq<ExprV>,
    is_method_call: bool,
    arg_wrappers: Seq<Option<ArgWrapperV>>,
    resolved_callee: Option<ResolvedCalleeV>,
    pending_trait_method: Option<PendingMethodV>,
    dict_args: Seq<DictRefV>,
    pending_dict_args: Seq<PendingDictArgV>,
    id: NodeId,
    span: SourceSpan,
) -> Run<(ExprV, Seq<ExprV>, bool, Seq<Option<ArgWrapperV>>, Option<ResolvedCalleeV>, Option<PendingMethodV>, Seq<DictRefV>, Seq<PendingDictArgV>), TyV>
{
    let r = within(st, env, callee, None);
    let st = r.st;
    let callee = r.node;
    match r.res {
        Err(error) => Run { st, node: (callee, args, is_method_call, arg_wrappers, resolved_callee, pending_trait_method, dict_args, pending_dict_args), res: Err(error) },
        Ok(value) => {
            let whole = resolved(st, value);
            let callable = without_constraints(whole);
            let caps = known_caps(st, callable, callee.id);
            let r = apply_run(within, st, env, args, arg_wrappers, dict_args, pending_dict_args, callable, constraints_on(whole), caps, Seq::empty(), None, 0, Some(span));
            let st = r.st;
            let args = r.node.0;
            let arg_wrappers = r.node.1;
            let dict_args = r.node.2;
            let pending_dict_args = r.node.3;
            match r.res {
                Err(error) => Run { st, node: (callee, args, is_method_call, arg_wrappers, resolved_callee, pending_trait_method, dict_args, pending_dict_args), res: Err(error) },
                Ok(applied) => {
                    let st = noted_fresh(st, id, applied.is_fresh);
                    Run { st, node: (callee, args, is_method_call, arg_wrappers, resolved_callee, pending_trait_method, dict_args, pending_dict_args), res: Ok(applied.ret) }
    }}}}
}

/// A call of a field of a record or a module. Its constraints are given dictionaries first.
#[verifier::opaque]
pub open spec fn field_call_run(
    within: Within,
    st: InferV,
    env: EnvV,
    args: Seq<ExprV>,
    arg_wrappers: Seq<Option<ArgWrapperV>>,
    dict_args: Seq<DictRefV>,
    pending_dict_args: Seq<PendingDictArgV>,
    callable: TyV,
    constraints: Seq<ConstraintV>,
    span: SourceSpan,
    id: NodeId,
    callee_id: NodeId,
) -> Run<(Seq<ExprV>, Seq<Option<ArgWrapperV>>, Seq<DictRefV>, Seq<PendingDictArgV>), TyV>
{
    let g = give_dicts(st, env, dict_args, pending_dict_args, constraints);
    let st = g.st;
    let dict_args = g.dicts;
    let pending_dict_args = g.pending;
    match g.err {
        Some(error) => Run { st, node: (args, arg_wrappers, dict_args, pending_dict_args), res: failed_at(error, span) },
        None => {
            let st = noted_symbol(st, callee_id, callable);
            let caps = known_caps(st, callable, callee_id);
            let r = apply_run(within, st, env, args, arg_wrappers, dict_args, pending_dict_args, callable, Seq::empty(), caps, Seq::empty(), None, 0, Some(span));
            let st = r.st;
            let args = r.node.0;
            let arg_wrappers = r.node.1;
            let dict_args = r.node.2;
            let pending_dict_args = r.node.3;
            match r.res {
                Err(error) => Run { st, node: (args, arg_wrappers, dict_args, pending_dict_args), res: Err(error) },
                Ok(applied) => {
                    let st = noted_fresh(noted_symbol(st, callee_id, applied.call_ty), id, applied.is_fresh);
                    Run { st, node: (args, arg_wrappers, dict_args, pending_dict_args), res: Ok(applied.ret) }
    }}}}
}

/// A call of a field of a value of which nothing is known: a record with that field.
#[verifier::opaque]
pub open spec fn row_call_run(
    within: Within,
    st: InferV,
    env: EnvV,
    args: Seq<ExprV>,
    arg_wrappers: Seq<Option<ArgWrapperV>>,
    dict_args: Seq<DictRefV>,
    pending_dict_args: Seq<PendingDictArgV>,
    receiver_ty: TyV,
    method: Seq<char>,
    span: SourceSpan,
    callee_id: NodeId,
) -> Run<(Seq<ExprV>, Seq<Option<ArgWrapperV>>, Seq<DictRefV>, Seq<PendingDictArgV>), TyV>
{
    let field_ty = TyV::Var(next_var(st));
    let st = fresh(st);
    let tail = TyV::Var(next_var(st));
    let st = fresh(st);
    let u = equate(st, receiver_ty, one_field(method, field_ty, tail));
    let st = u.0;
    match u.1 {
        Some(error) => Run { st, node: (args, arg_wrappers, dict_args, pending_dict_args), res: failed(error) },
        None => {
            let r = apply_run(within, st, env, args, arg_wrappers, dict_args, pending_dict_args, field_ty, Seq::empty(), Seq::empty(), Seq::empty(), None, 0, Some(span));
            let st = r.st;
            let args = r.node.0;
            let arg_wrappers = r.node.1;
            let dict_args = r.node.2;
            let pending_dict_args = r.node.3;
            match r.res {
                Err(error) => Run { st, node: (args, arg_wrappers, dict_args, pending_dict_args), res: Err(error) },
                Ok(applied) => {
                    let st = noted_symbol(st, callee_id, applied.call_ty);
                    Run { st, node: (args, arg_wrappers, dict_args, pending_dict_args), res: Ok(applied.ret) }
    }}}}
}

/// A call of a known method. It may be no method at all.
#[verifier::opaque]
pub open spec fn scheme_method_run(
    within: Within,
    st: InferV,
    env: EnvV,
    args: Seq<ExprV>,
    is_method_call: bool,
    arg_wrappers: Seq<Option<ArgWrapperV>>,
    resolved_callee: Option<ResolvedCalleeV>,
    dict_args: Seq<DictRefV>,
    pending_dict_args: Seq<PendingDictArgV>,
    receiver: ExprV,
    receiver_ty: TyV,
    scheme: SchemeV,
    callee: ResolvedCalleeV,
    misuse: Option<TypeErrorV>,
    callee_id: NodeId,
) -> Run<(Seq<ExprV>, bool, Seq<Option<ArgWrapperV>>, Option<ResolvedCalleeV>, Seq<DictRefV>, Seq<PendingDictArgV>), TyV>
{
    let i = instance(st, scheme);
    let st = noted_symbol(i.0, callee_id, value_of(i.1));
    match misuse {
        Some(error) => Run { st, node: (args, is_method_call, arg_wrappers, resolved_callee, dict_args, pending_dict_args), res: failed(error) },
        None => {
            match if wants_place(scheme, 0) {
                place_error(st, env, receiver, 0)
            } else {
                None
            } {
                Some(error) => Run { st, node: (args, is_method_call, arg_wrappers, resolved_callee, dict_args, pending_dict_args), res: Err(error) },
                None => {
                    let r = apply_scheme_run(
                        within,
                        st,
                        env,
                        args,
                        arg_wrappers,
                        dict_args,
                        pending_dict_args,
                        scheme,
                        Some((receiver_ty, receiver.span)),
                    );
                    let st = r.st;
                    let args = r.node.0;
                    let arg_wrappers = r.node.1;
                    let dict_args = r.node.2;
                    let pending_dict_args = r.node.3;
                    match r.res {
                        Err(error) => Run { st, node: (args, is_method_call, arg_wrappers, resolved_callee, dict_args, pending_dict_args), res: Err(error) },
                        Ok(applied) => {
                            let st = noted_symbol(st, callee_id, plain_func(applied.args, applied.ret));
                            let is_method_call = true;
                            let resolved_callee = Some(callee);
                            Run { st, node: (args, is_method_call, arg_wrappers, resolved_callee, dict_args, pending_dict_args), res: Ok(applied.ret) }
    }}}}}}
}

/// A call of a method of a trait with a receiver.
#[verifier::opaque]
pub open spec fn trait_use_run(
    within: Within,
    st: InferV,
    env: EnvV,
    args: Seq<ExprV>,
    is_method_call: bool,
    arg_wrappers: Seq<Option<ArgWrapperV>>,
    resolved_callee: Option<ResolvedCalleeV>,
    c: CandidateV,
    receiver_ty: TyV,
    callee_id: NodeId,
) -> Run<(Seq<ExprV>, bool, Seq<Option<ArgWrapperV>>, Option<ResolvedCalleeV>), TyV>
{
    let r = all_args(within, st, env, args, arg_wrappers, Seq::empty(), 0);
    let st = r.st;
    let args = r.node.0;
    let arg_wrappers = r.node.1;
    match r.res {
        Err(error) => Run { st, node: (args, is_method_call, arg_wrappers, resolved_callee), res: Err(error) },
        Ok(tys) => {
            let u = receiver_use(st, env, receiver_ty, tys, c);
            let st = u.0;
            match u.1 {
                Err(error) => Run { st, node: (args, is_method_call, arg_wrappers, resolved_callee), res: Err(error) },
                Ok(found) => {
                    let st = noted_symbol(st, callee_id, plain_func(tys, found.ret));
                    let is_method_call = true;
                    let resolved_callee = Some(found.callee);
                    Run { st, node: (args, is_method_call, arg_wrappers, resolved_callee), res: Ok(found.ret) }
    }}}}
}

/// A call of the only method of a trait of this name that fits, if there is one.
#[verifier::opaque]
pub open spec fn receiver_trait_run(
    within: Within,
    st: InferV,
    env: EnvV,
    args: Seq<ExprV>,
    is_method_call: bool,
    arg_wrappers: Seq<Option<ArgWrapperV>>,
    resolved_callee: Option<ResolvedCalleeV>,
    receiver_ty: TyV,
    method: Seq<char>,
    callee_id: NodeId,
) -> Run<(Seq<ExprV>, bool, Seq<Option<ArgWrapperV>>, Option<ResolvedCalleeV>), Option<TyV>>
{
    let all = trait_candidates(st, method);
    let p = probe_run(within, st, env, args, all, receiver_ty, 0, Seq::empty(), Seq::empty());
    let st = p.st;
    match pick(p.found, p.fits, method, args.len()) {
        Err(error) => {
            Run { st, node: (args, is_method_call, arg_wrappers, resolved_callee), res: failed(error) }
        },
        Ok(None) => {
            Run { st, node: (args, is_method_call, arg_wrappers, resolved_callee), res: Ok(None) }
        },
        Ok(Some(c)) => {
            some_after(
                trait_use_run(
                    within,
                    st,
                    env,
                    args,
                    is_method_call,
                    arg_wrappers,
                    resolved_callee,
                    c,
                    receiver_ty,
                    callee_id,
                ),
            )
        },
    }
}

/// A call of a method: one of the type itself, one of a trait, or a function of that name
/// which is given the receiver first.
#[verifier::opaque]
pub open spec fn method_run(
    within: Within,
    st: InferV,
    env: EnvV,
    args: Seq<ExprV>,
    is_method_call: bool,
    arg_wrappers: Seq<Option<ArgWrapperV>>,
    resolved_callee: Option<ResolvedCalleeV>,
    dict_args: Seq<DictRefV>,
    pending_dict_args: Seq<PendingDictArgV>,
    receiver: ExprV,
    receiver_ty: TyV,
    method: Seq<char>,
    callee_id: NodeId,
    expected: Option<TyV>,
) -> Run<(Seq<ExprV>, bool, Seq<Option<ArgWrapperV>>, Option<ResolvedCalleeV>, Seq<DictRefV>, Seq<PendingDictArgV>), TyV>
{
    let keys = target_keys(receiver_ty);
    match key_with_method(st, keys, method, 0) {
        Some(i) => {
            let info = method_in(st, keys[i as int], method)->Some_0;
            scheme_method_run(
                within,
                st,
                env,
                args,
                is_method_call,
                arg_wrappers,
                resolved_callee,
                dict_args,
                pending_dict_args,
                receiver,
                receiver_ty,
                info.scheme,
                info.resolved_callee,
                misuse_of(info, keys[i as int], method),
                callee_id,
            )
        },
        None => {
            let r = receiver_trait_run(
                within,
                st,
                env,
                args,
                is_method_call,
                arg_wrappers,
                resolved_callee,
                receiver_ty,
                method,
                callee_id,
            );
            let st = r.st;
            match r.res {
                Err(error) => Run {
                    st,
                    node: (r.node.0, r.node.1, r.node.2, r.node.3, dict_args, pending_dict_args),
                    res: Err(error),
                },
                Ok(Some(ty)) => Run {
                    st,
                    node: (r.node.0, r.node.1, r.node.2, r.node.3, dict_args, pending_dict_args),
                    res: Ok(ty),
                },
                Ok(None) => {
                    expected_method_run(
                        within,
                        st,
                        env,
                        args,
                        is_method_call,
                        arg_wrappers,
                        resolved_callee,
                        dict_args,
                        pending_dict_args,
                        receiver,
                        receiver_ty,
                        method,
                        callee_id,
                        expected,
                    )
    }}}}
}

/// A call of a function that is given the receiver first, or of the method of an array
/// whose elements the expected type tells.
#[verifier::opaque]
pub open spec fn expected_method_run(
    within: Within,
    st: InferV,
    env: EnvV,
    args: Seq<ExprV>,
    is_method_call: bool,
    arg_wrappers: Seq<Option<ArgWrapperV>>,
    resolved_callee: Option<ResolvedCalleeV>,
    dict_args: Seq<DictRefV>,
    pending_dict_args: Seq<PendingDictArgV>,
    receiver: ExprV,
    receiver_ty: TyV,
    method: Seq<char>,
    callee_id: NodeId,
    expected: Option<TyV>,
) -> Run<(Seq<ExprV>, bool, Seq<Option<ArgWrapperV>>, Option<ResolvedCalleeV>, Seq<DictRefV>, Seq<PendingDictArgV>), TyV>
{
    if env.dom().contains(method) {
        scheme_method_run(
            within,
            st,
            env,
            args,
            is_method_call,
            arg_wrappers,
            resolved_callee,
            dict_args,
            pending_dict_args,
            receiver,
            receiver_ty,
            env[method].scheme,
            ResolvedCalleeV::Function(method),
            None,
            callee_id,
        )
    } else {
        if expected is Some && args.len() == 0 && open_array(receiver_ty) {
            let a = array_method_for(st, method, expected->Some_0);
            match a.1 {
                Some(m) => array_method_run(
                    within,
                    a.0,
                    env,
                    args,
                    is_method_call,
                    arg_wrappers,
                    resolved_callee,
                    dict_args,
                    pending_dict_args,
                    receiver,
                    receiver_ty,
                    method,
                    m,
                    expected->Some_0,
                    callee_id,
                ),
                None => Run {
                    st: a.0,
                    node: (args, is_method_call, arg_wrappers, resolved_callee, dict_args, pending_dict_args),
                    res: failed(no_method(a.0, receiver_ty, method)),
                },
            }
        } else {
            Run { st, node: (args, is_method_call, arg_wrappers, resolved_callee, dict_args, pending_dict_args), res: failed(no_method(st, receiver_ty, method)) }
        }
    }
}

/// A call of the method of an array whose elements the expected type tells.
#[verifier::opaque]
pub open spec fn array_method_run(
    within: Within,
    st: InferV,
    env: EnvV,
    args: Seq<ExprV>,
    is_method_call: bool,
    arg_wrappers: Seq<Option<ArgWrapperV>>,
    resolved_callee: Option<ResolvedCalleeV>,
    dict_args: Seq<DictRefV>,
    pending_dict_args: Seq<PendingDictArgV>,
    receiver: ExprV,
    receiver_ty: TyV,
    method: Seq<char>,
    m: ArrayMethodV,
    expected: TyV,
    callee_id: NodeId,
) -> Run<(Seq<ExprV>, bool, Seq<Option<ArgWrapperV>>, Option<ResolvedCalleeV>, Seq<DictRefV>, Seq<PendingDictArgV>), TyV>
{
    let u = equate(st, receiver_ty, m.receiver);
    let st = u.0;
    match u.1 {
        Some(error) => Run { st, node: (args, is_method_call, arg_wrappers, resolved_callee, dict_args, pending_dict_args), res: failed(error) },
        None => {
            array_after(scheme_method_run(
                    within,
                    st,
                    env,
                    args,
                    is_method_call,
                    arg_wrappers,
                    resolved_callee,
                    dict_args,
                    pending_dict_args,
                    receiver,
                    m.receiver,
                    m.info.scheme,
                    m.info.resolved_callee,
                    misuse_of(m.info, m.target, method),
                    callee_id,
                ), expected)
    }}
}

/// A call of something that follows a dot: a member of a module, a field of a record, or a
/// method.
#[verifier::opaque]
pub open spec fn receiver_run(
    within: Within,
    st: InferV,
    env: EnvV,
    receiver: ExprV,
    args: Seq<ExprV>,
    is_method_call: bool,
    arg_wrappers: Seq<Option<ArgWrapperV>>,
    resolved_callee: Option<ResolvedCalleeV>,
    dict_args: Seq<DictRefV>,
    pending_dict_args: Seq<PendingDictArgV>,
    method: Seq<char>,
    id: NodeId,
    callee_id: NodeId,
    expected: Option<TyV>,
) -> Run<(ExprV, Seq<ExprV>, bool, Seq<Option<ArgWrapperV>>, Option<ResolvedCalleeV>, Seq<DictRefV>, Seq<PendingDictArgV>), TyV>
{
    let r = within(st, env, receiver, None);
    let st = r.st;
    let receiver = r.node;
    match r.res {
        Err(error) => Run { st, node: (receiver, args, is_method_call, arg_wrappers, resolved_callee, dict_args, pending_dict_args), res: Err(error) },
        Ok(value) => {
            let receiver_ty = resolved(st, value);
            let imported = imported_scheme(st, receiver, method);
            let st = receiver_noted(st, receiver, method, callee_id);
            match imported {
                Some(scheme) => {
                    let i = instance(st, scheme);
                    let st = i.0;
                    let r = field_call_run(
                        within,
                        st,
                        env,
                        args,
                        arg_wrappers,
                        dict_args,
                        pending_dict_args,
                        without_constraints(i.1.ty),
                        i.1.constraints + constraints_on(i.1.ty),
                        receiver.span,
                        id,
                        callee_id,
                    );
                    Run {
                        st: r.st,
                        node: (receiver, r.node.0, is_method_call, r.node.1, resolved_callee, r.node.2, r.node.3),
                        res: r.res,
                    }
                },
                None => {
                    match field_ty(receiver_ty, method) {
                        Some(ty) => {
                            let r = field_call_run(
                                within,
                                st,
                                env,
                                args,
                                arg_wrappers,
                                dict_args,
                                pending_dict_args,
                                without_constraints(ty),
                                constraints_on(ty),
                                receiver.span,
                                id,
                                callee_id,
                            );
                            Run {
                                st: r.st,
                                node: (receiver, r.node.0, is_method_call, r.node.1, resolved_callee, r.node.2, r.node.3),
                                res: r.res,
                            }
                        },
                        None => {
                            if receiver_ty is Var {
                                let r = row_call_run(
                                    within,
                                    st,
                                    env,
                                    args,
                                    arg_wrappers,
                                    dict_args,
                                    pending_dict_args,
                                    receiver_ty,
                                    method,
                                    receiver.span,
                                    callee_id,
                                );
                                Run {
                                    st: r.st,
                                    node: (receiver, r.node.0, is_method_call, r.node.1, resolved_callee, r.node.2, r.node.3),
                                    res: r.res,
                                }
                            } else {
                                let r = method_run(
                                    within,
                                    st,
                                    env,
                                    args,
                                    is_method_call,
                                    arg_wrappers,
                                    resolved_callee,
                                    dict_args,
                                    pending_dict_args,
                                    receiver,
                                    receiver_ty,
                                    method,
                                    callee_id,
                                    expected,
                                );
                                Run {
                                    st: r.st,
                                    node: (receiver, r.node.0, r.node.1, r.node.2, r.node.3, r.node.4, r.node.5),
                                    res: r.res,
                                }
                            }
                        },
                    }
                },
            }
    }}
}

/// A call of something that follows a dot.
#[verifier::opaque]
pub open spec fn dot_call_run(
    within: Within,
    st: InferV,
    env: EnvV,
    callee: ExprV,
    args: Seq<ExprV>,
    is_method_call: bool,
    arg_wrappers: Seq<Option<ArgWrapperV>>,
    resolved_callee: Option<ResolvedCalleeV>,
    pending_trait_method: Option<PendingMethodV>,
    dict_args: Seq<DictRefV>,
    pending_dict_args: Seq<PendingDictArgV>,
    id: NodeId,
    expected: Option<TyV>,
) -> Run<(ExprV, Seq<ExprV>, bool, Seq<Option<ArgWrapperV>>, Option<ResolvedCalleeV>, Option<PendingMethodV>, Seq<DictRefV>, Seq<PendingDictArgV>), TyV>
{
    match callee.kind {
        ExprKindV::FieldAccess { expr, field } => {
            let r = receiver_run(
                within,
                st,
                env,
                *expr,
                args,
                is_method_call,
                arg_wrappers,
                resolved_callee,
                dict_args,
                pending_dict_args,
                field,
                id,
                callee.id,
                expected,
            );
            let kind = ExprKindV::FieldAccess { expr: Box::new(r.node.0), field };
            Run {
                st: r.st,
                node: (
                    ExprV { kind, ..callee },
                    r.node.1,
                    r.node.2,
                    r.node.3,
                    r.node.4,
                    pending_trait_method,
                    r.node.5,
                    r.node.6,
                ),
                res: r.res,
            }
        },
        _ => {
            Run { st, node: (callee, args, is_method_call, arg_wrappers, resolved_callee, pending_trait_method, dict_args, pending_dict_args), res: Ok(TyV::Unit) }
        },
    }
}

/// A call.
#[verifier::opaque]
pub open spec fn call_run(
    within: Within,
    st: InferV,
    env: EnvV,
    callee: ExprV,
    args: Seq<ExprV>,
    is_method_call: bool,
    arg_wrappers: Seq<Option<ArgWrapperV>>,
    resolved_callee: Option<ResolvedCalleeV>,
    pending_trait_method: Option<PendingMethodV>,
    dict_args: Seq<DictRefV>,
    pending_dict_args: Seq<PendingDictArgV>,
    id: NodeId,
    span: SourceSpan,
) -> Run<(ExprV, Seq<ExprV>, bool, Seq<Option<ArgWrapperV>>, Option<ResolvedCalleeV>, Option<PendingMethodV>, Seq<DictRefV>, Seq<PendingDictArgV>), TyV>
{
    match form_of(env, callee) {
        FormV::Associated(m) => {
            associated_call_run(
                within,
                st,
                env,
                callee,
                args,
                is_method_call,
                arg_wrappers,
                resolved_callee,
                pending_trait_method,
                dict_args,
                pending_dict_args,
                id,
                m.target,
                m.target_span,
                m.member,
                m.member_span,
            )
        },
        FormV::Dot => {
            dot_call_run(
                within,
                st,
                env,
                callee,
                args,
                is_method_call,
                arg_wrappers,
                resolved_callee,
                pending_trait_method,
                dict_args,
                pending_dict_args,
                id,
                None,
            )
        },
        FormV::Constrained(scheme) => {
            constrained_call_run(
                within,
                st,
                env,
                callee,
                args,
                is_method_call,
                arg_wrappers,
                resolved_callee,
                pending_trait_method,
                dict_args,
                pending_dict_args,
                scheme,
                id,
            )
        },
        FormV::Plain => {
            plain_call_run(
                within,
                st,
                env,
                callee,
                args,
                is_method_call,
                arg_wrappers,
                resolved_callee,
                pending_trait_method,
                dict_args,
                pending_dict_args,
                id,
                span,
            )
        },
    }
}

/// The value of a let, checked against the written type if there is one.
#[verifier::opaque]
pub open spec fn let_value_run(
    within: Within,
    st: InferV,
    env: EnvV,
    value: ExprV,
    ty: Option<TypeV>,
) -> Run<ExprV, TyV>
{
    match ty {
        None => {
            within(st, env, value, None)
        },
        Some(t) => {
            let w = written(st, Map::empty(), t);
            let st = w.st;
            match w.res {
                Err(error) => Run { st, node: value, res: failed(error) },
                Ok(want) => {
                    value_after(within(st, env, value, Some(want)), want)
            }}
        },
    }
}

/// A let.
#[verifier::opaque]
pub open spec fn let_run(
    within: Within,
    st: InferV,
    env: EnvV,
    value: ExprV,
    pat: PatternV,
    is_mutable: bool,
    ty: Option<TypeV>,
) -> Run<(EnvV, ExprV), ()>
{
    let l = let_of(st, env, pat, is_mutable, ty is Some, value);
    let inside = if l.general {
        at_level(st, child_level(l.ambient))
    } else {
        st
    };
    let_after(let_value_run(within, inside, env, value, ty), env, l)
}

/// A function or an operator.
#[verifier::opaque]
pub open spec fn fn_run(
    within: Within,
    st: InferV,
    env: EnvV,
    def: FnDefV,
    knows_itself: bool,
) -> Run<(EnvV, FnDefV), ()>
{
    let ambient = st.level;
    let h = fn_head(st, env, def, knows_itself);
    match h.err {
        Some(error) => Run { st: at_level(h.st, ambient), node: (env, def), res: Err(error) },
        None => {
            let r = scoped_run(
                within,
                h.st,
                h.env,
                def.body,
                h.initial,
                h.ret,
                def.ret_type is Some,
                true,
            );
            fn_after(
                r.st,
                env,
                FnDefV { body: r.node, ..def },
                r.res,
                knows_itself,
                h.fn_ty,
                ambient,
            )
    }}
}

/// Statements from the one at `i` on, up to one that always leaves. Tells whether one does.
#[verifier::opaque]
pub open spec fn stmts_run(
    within: Within,
    st: InferV,
    env: EnvV,
    s: Seq<StmtV>,
    i: nat,
) -> Run<(EnvV, Seq<StmtV>), bool>
    decreases s.len() - i,
{
    if i >= s.len() {
        Run { st, node: (env, s), res: Ok(false) }
    } else {
        let r = stmt_run(within, st, env, s[i as int]);
        let st = r.st;
        let env = r.node.0;
        let s = s.update(i as int, r.node.1);
        match r.res {
            Err(error) => Run { st, node: (env, s), res: Err(error) },
            Ok(_) => if exits(r.node.1) {
                Run { st, node: (env, s), res: Ok(true) }
            } else {
                stmts_run(within, st, env, s, i + 1)
            },
        }
    }
}

/// The statements of a test block from the one at `i` on.
pub open spec fn tests_run(
    within: Within,
    st: InferV,
    env: EnvV,
    s: Seq<StmtV>,
    i: nat,
) -> Run<(EnvV, Seq<StmtV>), ()>
    decreases stmts_size(s.skip(i as int)), 3nat, 0nat,
{
    if i >= s.len() {
        Run { st, node: (env, s), res: Ok(()) }
    } else {
        proof {
            lemma_stmts_rest(s, i as int);
        }
        let r = stmt_run(within, st, env, s[i as int]);
        let st = r.st;
        let env = r.node.0;
        let s = s.update(i as int, r.node.1);
        match r.res {
            Err(error) => Run { st, node: (env, s), res: Err(error) },
            Ok(_) => match test_shape(env, r.node.1) {
                Some(error) => Run { st, node: (env, s), res: Err(error) },
                None => tests_run(within, st, env, s, i + 1),
            },
        }
    }
}

/// The last expression of a block, if there is one.
#[verifier::opaque]
pub open spec fn final_run(
    within: Within,
    st: InferV,
    env: EnvV,
    final_expr: Option<Box<ExprV>>,
) -> Run<Option<Box<ExprV>>, TyV>
{
    match final_expr {
        Some(e) => {
            let r = within(st, env, *e, None);
            Run { st: r.st, node: Some(Box::new(r.node)), res: r.res }
        },
        None => {
            Run { st, node: final_expr, res: Ok(TyV::Unit) }
        },
    }
}

/// A block. What follows a statement that always leaves is not looked at.
#[verifier::opaque]
pub open spec fn block_run(
    within: Within,
    st: InferV,
    env: EnvV,
    stmts: Seq<StmtV>,
    final_expr: Option<Box<ExprV>>,
) -> OutRun<(Seq<StmtV>, Option<Box<ExprV>>)>
{
    let r = stmts_run(within, st, env, stmts, 0);
    let st = r.st;
    let stmts = r.node.1;
    match r.res {
        Err(error) => OutRun { st, node: (stmts, final_expr), res: Err(error), out: true },
        Ok(leaves) => {
            if leaves {
                let ty = TyV::Var(next_var(st));
                let st = fresh(st);
                OutRun { st, node: (stmts, final_expr), res: Ok(ty), out: true }
            } else {
                let last = final_run(within, st, r.node.0, final_expr);
                OutRun { st: last.st, node: (stmts, last.node), res: last.res, out: false }
            }
    }}
}

/// The body of a method of an implementation. Gives the type of the method.
#[verifier::opaque]
pub open spec fn method_def_run(
    within: Within,
    st: InferV,
    env: EnvV,
    body: ExprV,
    m: ImplMethodV,
    def: TraitDefV,
    trait_args: Seq<TypeV>,
    vars: VarNames,
) -> Run<ExprV, TyV>
{
    let h = method_head(st, env, m, def, trait_args, vars);
    match h.err {
        Some(error) => Run { st: h.st, node: body, res: Err(error) },
        None => method_after(
            body_run(within, h.st, h.env, body, h.ret, false, true),
            m.name_span,
            h.fn_ty,
        ),
    }
}

/// The bodies of the methods of an implementation from the one at `i` on. Gives the fields
/// of its dictionary.
#[verifier::opaque]
pub open spec fn method_defs_run(
    within: Within,
    st: InferV,
    env: EnvV,
    bodies: Seq<ExprV>,
    ms: Seq<ImplMethodV>,
    def: TraitDefV,
    trait_args: Seq<TypeV>,
    vars: VarNames,
    i: nat,
    fields: Seq<FieldV>,
) -> Run<Seq<ExprV>, Seq<FieldV>>
    decreases bodies.len() - i,
{
    if i >= bodies.len() {
        Run { st, node: bodies, res: Ok(fields) }
    } else {
        let r = method_def_run(within, st, env, bodies[i as int], ms[i as int], def, trait_args, vars);
        let st = r.st;
        let bodies = bodies.update(i as int, r.node);
        match r.res {
            Err(error) => Run { st, node: bodies, res: Err(error) },
            Ok(ty) => method_defs_run(
                within,
                st,
                env,
                bodies,
                ms,
                def,
                trait_args,
                vars,
                i + 1,
                fields.push((ms[i as int].name, ty)),
            ),
        }
    }
}

/// The methods of an implementation of a trait, and the dictionary that they make.
#[verifier::opaque]
pub open spec fn impl_body_run(
    within: Within,
    st: InferV,
    env: EnvV,
    id: ImplDefV,
    def: TraitDefV,
    vars: VarNames,
    initial: Seq<ConstraintV>,
    ambient: TypeLevel,
) -> Run<(EnvV, ImplDefV), ()>
{
    impl_finish(
        method_defs_run(
            within,
            pending_on(st, initial),
            env,
            bodies_of(id.methods),
            id.methods,
            def,
            id.trait_args,
            vars,
            0,
            Seq::empty(),
        ),
        env,
        id,
        def,
        ambient,
        st.pending,
    )
}

/// An implementation of a trait.
#[verifier::opaque]
pub open spec fn impl_run(
    within: Within,
    st: InferV,
    env: EnvV,
    id: ImplDefV,
) -> Run<(EnvV, ImplDefV), ()>
{
    let ambient = st.level;
    let s = impl_start(st, id);
    match s.err {
        Some(error) => Run { st: at_level(s.st, ambient), node: (env, s.id), res: Err(error) },
        None => impl_body_run(within, s.st, env, s.id, s.def, s.vars, s.initial, ambient),
    }
}

/// A method of a type. Gives its type.
#[verifier::opaque]
pub open spec fn own_method_run(
    within: Within,
    st: InferV,
    env: EnvV,
    m: InherentMethodV,
    target: TypeV,
    bounds: Seq<TypeBoundV>,
    key: Seq<char>,
) -> Run<InherentMethodV, TyV>
{
    let ambient = st.level;
    let m = self_method(m, target);
    let h = own_head(st, env, m, target, bounds, key);
    match h.err {
        Some(error) => Run { st: at_level(h.st, ambient), node: m, res: Err(error) },
        None => {
            let r = scoped_run(within, h.st, h.env, m.body, h.initial, h.ret, false, true);
            own_after(
                r.st,
                env,
                InherentMethodV { body: r.node, ..m },
                r.res,
                h.fn_ty,
                ambient,
                key,
            )
        },
    }
}

/// The methods of a type from the one at `i` on. Gives the fields of its dictionary.
#[verifier::opaque]
pub open spec fn own_methods_run(
    within: Within,
    st: InferV,
    env: EnvV,
    ms: Seq<InherentMethodV>,
    target: TypeV,
    bounds: Seq<TypeBoundV>,
    key: Seq<char>,
    i: nat,
    fields: Seq<FieldV>,
) -> Run<Seq<InherentMethodV>, Seq<FieldV>>
    decreases ms.len() - i,
{
    if i >= ms.len() {
        Run { st, node: ms, res: Ok(fields) }
    } else {
        let r = own_method_run(within, st, env, ms[i as int], target, bounds, key);
        let st = r.st;
        let ms = ms.update(i as int, r.node);
        match r.res {
            Err(error) => Run { st, node: ms, res: Err(error) },
            Ok(ty) => own_methods_run(
                within,
                st,
                env,
                ms,
                target,
                bounds,
                key,
                i + 1,
                fields.push((r.node.name, ty)),
            ),
        }
    }
}

/// An implementation of methods for a type.
#[verifier::opaque]
pub open spec fn inherent_run(
    within: Within,
    st: InferV,
    env: EnvV,
    id: InherentImplDefV,
) -> Run<(EnvV, InherentImplDefV), ()>
{
    match inherent_key(id.target, st.declared) {
        Err(error) => Run { st, node: (env, id), res: failed_at(error, id.span) },
        Ok(key) => {
            let r = own_methods_run(
                within,
                st,
                env,
                id.methods,
                id.target,
                id.type_bounds,
                key,
                0,
                Seq::empty(),
            );
            inherent_after(r.st, env, id, r.node, r.res, st.level, key)
        },
    }
}

/// The body of a function of a recursive group. Gives the constraints that are left.
#[verifier::opaque]
pub open spec fn rec_body_run(
    within: Within,
    st: InferV,
    env: EnvV,
    body: ExprV,
    def: FnDefV,
    info: RecInfoV,
) -> Run<ExprV, Seq<ConstraintV>>
{
    let h = group_head(st, env, def, info);
    match h.err {
        Some(error) => Run { st: h.st, node: body, res: Err(error) },
        None => scoped_run(within, h.st, h.env, body, h.initial, h.ret, info.explicit, true),
    }
}

/// The bodies of the functions of a recursive group from the one at `i` on.
#[verifier::opaque]
pub open spec fn rec_bodies_run(
    within: Within,
    st: InferV,
    env: EnvV,
    bodies: Seq<ExprV>,
    defs: Seq<FnDefV>,
    infos: Seq<RecInfoV>,
    i: nat,
    lists: Seq<Seq<ConstraintV>>,
) -> Run<Seq<ExprV>, Seq<Seq<ConstraintV>>>
    decreases bodies.len() - i,
{
    if i >= bodies.len() {
        Run { st, node: bodies, res: Ok(lists) }
    } else {
        let r = rec_body_run(within, st, env, bodies[i as int], defs[i as int], infos[i as int]);
        let st = r.st;
        let bodies = bodies.update(i as int, r.node);
        match r.res {
            Err(error) => Run { st, node: bodies, res: Err(error) },
            Ok(left) => rec_bodies_run(within, st, env, bodies, defs, infos, i + 1, lists.push(left)),
        }
    }
}

/// A recursive group of functions.
#[verifier::opaque]
pub open spec fn rec_run(
    within: Within,
    st: InferV,
    env: EnvV,
    s: Seq<StmtV>,
) -> Run<(EnvV, Seq<StmtV>), ()>
{
    let ambient = st.level;
    let start = rec_start(st, env, s);
    match start.err {
        Some(error) => Run { st: at_level(start.st, ambient), node: (env, s), res: Err(error) },
        None => rec_after(
            rec_bodies_run(
                within,
                start.st,
                start.env,
                def_bodies(defs_of(s)),
                defs_of(s),
                start.infos,
                0,
                Seq::empty(),
            ),
            env,
            s,
            start.infos,
            ambient,
        ),
    }
}

/// The body of a macro.
#[verifier::opaque]
pub open spec fn macro_body_run(
    within: Within,
    st: InferV,
    env: EnvV,
    def: MacroDefV,
) -> Run<MacroDefV, ()>
{
    let r = within(st, env, def.body, None);
    macro_after(r.st, MacroDefV { body: r.node, ..def }, r.res)
}

/// A macro.
#[verifier::opaque]
pub open spec fn macro_run(
    within: Within,
    st: InferV,
    env: EnvV,
    def: MacroDefV,
) -> Run<MacroDefV, ()>
{
    let h = macro_head(st, env, def);
    match h.err {
        Some(error) => Run { st: h.st, node: def, res: Err(error) },
        None => macro_body_run(within, h.st, h.env, def),
    }
}

/// What kind of statement this is decides how it is checked. Declarations have been read
/// before.
pub open spec fn stmt_kind_run(
    within: Within,
    st: InferV,
    env: EnvV,
    s: StmtV,
) -> Run<(EnvV, StmtV), TyV>
    decreases stmt_size(s), 0nat, 0nat,
{
    match s {
        StmtV::Let { pat, is_mutable, ty, value, span } => {
            let r = let_run(within, st, env, value, pat, is_mutable, ty);
            Run {
                st: r.st,
                node: (r.node.0, StmtV::Let { pat, is_mutable, ty, value: r.node.1, span }),
                res: unit_ty(r.res),
            }
        },
        StmtV::Fn(def) => {
            let r = fn_run(within, st, env, def, true);
            Run { st: r.st, node: (r.node.0, StmtV::Fn(r.node.1)), res: unit_ty(r.res) }
        },
        StmtV::Op(def) => {
            let r = fn_run(within, st, env, def, false);
            Run { st: r.st, node: (r.node.0, StmtV::Op(r.node.1)), res: unit_ty(r.res) }
        },
        StmtV::TestBlock { stmts, span } => {
            proof {
                lemma_stmts_whole(stmts);
            }
            let r = tests_run(within, st, env, stmts, 0);
            Run {
                st: r.st,
                node: (env, StmtV::TestBlock { stmts: r.node.1, span }),
                res: unit_ty(r.res),
            }
        },
        StmtV::Expr(e) => {
            let r = within(st, env, e, None);
            Run { st: r.st, node: (env, StmtV::Expr(r.node)), res: r.res }
        },
        StmtV::Impl(id) => {
            let r = impl_run(within, st, env, id);
            Run { st: r.st, node: (r.node.0, StmtV::Impl(r.node.1)), res: unit_ty(r.res) }
        },
        StmtV::InherentImpl(id) => {
            let r = inherent_run(within, st, env, id);
            Run { st: r.st, node: (r.node.0, StmtV::InherentImpl(r.node.1)), res: unit_ty(r.res) }
        },
        StmtV::RecBlock { stmts, span } => {
            let r = rec_run(within, st, env, stmts);
            Run {
                st: r.st,
                node: (r.node.0, StmtV::RecBlock { stmts: r.node.1, span }),
                res: unit_ty(r.res),
            }
        },
        StmtV::Macro(def) => {
            let r = macro_run(within, st, env, def);
            Run { st: r.st, node: (env, StmtV::Macro(r.node)), res: unit_ty(r.res) }
        },
        StmtV::Trait(_) | StmtV::Type(_) | StmtV::TypeAlias { .. } | StmtV::Extern { .. } => Run { st, node: (env, s), res: Ok(TyV::Unit) },
    }
}

/// A statement. An error without a place gets that of the statement.
pub open spec fn stmt_run(
    within: Within,
    st: InferV,
    env: EnvV,
    s: StmtV,
) -> Run<(EnvV, StmtV), TyV>
    decreases stmt_size(s), 1nat, 0nat,
{
    stmt_after(stmt_kind_run(within, st, env, s), error_place(s))
}

} // verus!
