//! Filling in `Self` in the methods of an implementation.

use vstd::prelude::*;

use crate::ast::{ArrayEntry, Expr, ExprKind, FnDef, InherentMethod, MatchArm, NamedType, Param};
use crate::ast::{RecordEntry, Stmt, Type, TypeParam};
use crate::ast_size::{array_entries_size, array_entry_size, expr_kind_size, expr_size};
use crate::ast_size::{exprs_size, fn_def_size, match_arm_size, match_arms_size, optional_size};
use crate::ast_size::{record_entries_size, record_entry_size, stmt_size, stmts_size};
use crate::ast_view::{array_entries_view, array_entry_view, expr_kind_view, expr_view, exprs_view};
use crate::ast_view::{fn_def_view, inherent_method_view, match_arm_view, match_arms_view};
use crate::ast_view::{named_type_view, named_types_view, param_view, params_view};
use crate::ast_view::{record_entries_view, record_entry_view, some_type_return_view};
use crate::ast_view::{some_type_view, stmt_view, stmts_view, type_param_view, type_params_view};
use crate::ast_view::{type_return_view, type_view, types_view, ArrayEntryV, ExprKindV, ExprV};
use crate::ast_view::{boxed_expr_view, FnDefV, InherentMethodV, MatchArmV, NamedTypeV, ParamV};
use crate::ast_view::{RecordEntryV, StmtV, TypeParamV, TypeReturnV, TypeV};
use crate::text::str_eq;

verus! {

/// `ty` with `target` in place of `Self`.
pub open spec fn self_type(ty: TypeV, target: TypeV) -> TypeV
    decreases ty,
{
    match ty {
        TypeV::Ident(name) => if name == "Self"@ {
            target
        } else {
            ty
        },
        TypeV::App(con, args) => TypeV::App(
            Box::new(self_type(*con, target)),
            self_types(args, target),
        ),
        TypeV::Func(params, ret) => TypeV::Func(
            self_type_params(params, target),
            TypeReturnV { ty: Box::new(self_type(*ret.ty, target)), mut_place: ret.mut_place },
        ),
        TypeV::Tuple(items) => TypeV::Tuple(self_types(items, target)),
        TypeV::Record(fields, open) => TypeV::Record(self_named(fields, target), open),
        _ => ty,
    }
}

pub open spec fn self_types(s: Seq<TypeV>, target: TypeV) -> Seq<TypeV>
    decreases s,
{
    Seq::new(
        s.len(),
        |i: int|
            if 0 <= i < s.len() {
                self_type(s[i], target)
            } else {
                arbitrary()
            },
    )
}

pub open spec fn self_type_params(s: Seq<TypeParamV>, target: TypeV) -> Seq<TypeParamV>
    decreases s,
{
    Seq::new(
        s.len(),
        |i: int|
            if 0 <= i < s.len() {
                TypeParamV { ty: self_type(s[i].ty, target), mut_place: s[i].mut_place }
            } else {
                arbitrary()
            },
    )
}

pub open spec fn self_named(s: Seq<NamedTypeV>, target: TypeV) -> Seq<NamedTypeV>
    decreases s,
{
    Seq::new(
        s.len(),
        |i: int|
            if 0 <= i < s.len() {
                NamedTypeV { name: s[i].name, ty: self_type(s[i].ty, target) }
            } else {
                arbitrary()
            },
    )
}

/// An optional annotation with `target` in place of `Self`.
pub open spec fn self_annotation(ty: Option<TypeV>, target: TypeV) -> Option<TypeV> {
    match ty {
        Some(t) => Some(self_type(t, target)),
        None => None,
    }
}

/// An optional result annotation with `target` in place of `Self`.
pub open spec fn self_return(ty: Option<TypeReturnV>, target: TypeV) -> Option<TypeReturnV> {
    match ty {
        Some(r) => Some(
            TypeReturnV { ty: Box::new(self_type(*r.ty, target)), mut_place: r.mut_place },
        ),
        None => None,
    }
}

/// A parameter with `target` in place of `Self` in its annotation.
pub open spec fn self_param_type(p: ParamV, target: TypeV) -> ParamV {
    ParamV { ty: self_annotation(p.ty, target), ..p }
}

pub open spec fn self_params(s: Seq<ParamV>, target: TypeV) -> Seq<ParamV>
    decreases s,
{
    Seq::new(
        s.len(),
        |i: int|
            if 0 <= i < s.len() {
                self_param_type(s[i], target)
            } else {
                arbitrary()
            },
    )
}

/// An expression with `target` in place of `Self` in the types written in it.
pub open spec fn self_expr(e: ExprV, target: TypeV) -> ExprV
    decreases e,
{
    ExprV { id: e.id, span: e.span, kind: self_kind(e.kind, target) }
}

pub open spec fn self_kind(k: ExprKindV, target: TypeV) -> ExprKindV
    decreases k,
{
    match k {
        ExprKindV::AssociatedAccess { target: access, target_span, member, member_span, resolution } => {
            ExprKindV::AssociatedAccess {
                target: self_type(access, target),
                target_span,
                member,
                member_span,
                resolution,
            }
        },
        ExprKindV::Grouped(e) => ExprKindV::Grouped(Box::new(self_expr(*e, target))),
        ExprKindV::Not(e) => ExprKindV::Not(Box::new(self_expr(*e, target))),
        ExprKindV::Loop(e) => ExprKindV::Loop(Box::new(self_expr(*e, target))),
        ExprKindV::Break(e) => ExprKindV::Break(self_optional(e, target)),
        ExprKindV::Return(e) => ExprKindV::Return(self_optional(e, target)),
        ExprKindV::FieldAccess { expr, field } => ExprKindV::FieldAccess {
            expr: Box::new(self_expr(*expr, target)),
            field,
        },
        ExprKindV::Neg { operand, resolved_op, pending_op } => ExprKindV::Neg {
            operand: Box::new(self_expr(*operand, target)),
            resolved_op,
            pending_op,
        },
        ExprKindV::Assign { target: lhs, value } => ExprKindV::Assign {
            target: Box::new(self_expr(*lhs, target)),
            value: Box::new(self_expr(*value, target)),
        },
        ExprKindV::Binary { lhs, op, rhs, resolved_op, pending_op, dict_args, pending_dict_args } => {
            ExprKindV::Binary {
                lhs: Box::new(self_expr(*lhs, target)),
                op,
                rhs: Box::new(self_expr(*rhs, target)),
                resolved_op,
                pending_op,
                dict_args,
                pending_dict_args,
            }
        },
        ExprKindV::Range { start, end, inclusive } => ExprKindV::Range {
            start: self_optional(start, target),
            end: self_optional(end, target),
            inclusive,
        },
        ExprKindV::Call {
            callee,
            args,
            is_method_call,
            arg_wrappers,
            resolved_callee,
            pending_trait_method,
            dict_args,
            pending_dict_args,
        } => ExprKindV::Call {
            callee: Box::new(self_expr(*callee, target)),
            args: self_exprs(args, target),
            is_method_call,
            arg_wrappers,
            resolved_callee,
            pending_trait_method,
            dict_args,
            pending_dict_args,
        },
        ExprKindV::If { cond, then_branch, else_branch } => ExprKindV::If {
            cond: Box::new(self_expr(*cond, target)),
            then_branch: Box::new(self_expr(*then_branch, target)),
            else_branch: Box::new(self_expr(*else_branch, target)),
        },
        ExprKindV::Match { scrutinee, arms } => ExprKindV::Match {
            scrutinee: Box::new(self_expr(*scrutinee, target)),
            arms: self_arms(arms, target),
        },
        ExprKindV::Block { stmts, final_expr } => ExprKindV::Block {
            stmts: self_stmts(stmts, target),
            final_expr: self_optional(final_expr, target),
        },
        ExprKindV::Tuple(items) => ExprKindV::Tuple(self_exprs(items, target)),
        ExprKindV::Array(entries) => ExprKindV::Array(self_array_entries(entries, target)),
        ExprKindV::Record(entries) => ExprKindV::Record(self_record_entries(entries, target)),
        ExprKindV::Index {
            receiver,
            key,
            resolved_callee,
            pending_trait_method,
            dict_args,
            pending_dict_args,
        } => ExprKindV::Index {
            receiver: Box::new(self_expr(*receiver, target)),
            key: Box::new(self_expr(*key, target)),
            resolved_callee,
            pending_trait_method,
            dict_args,
            pending_dict_args,
        },
        ExprKindV::Lambda { params, return_type, body, dict_params } => ExprKindV::Lambda {
            params: self_params(params, target),
            return_type,
            body: Box::new(self_expr(*body, target)),
            dict_params,
        },
        ExprKindV::For { pat, iterable, body, resolved_iter, pending_iter } => ExprKindV::For {
            pat,
            iterable: Box::new(self_expr(*iterable, target)),
            body: Box::new(self_expr(*body, target)),
            resolved_iter,
            pending_iter,
        },
        _ => k,
    }
}

pub open spec fn self_optional(e: Option<Box<ExprV>>, target: TypeV) -> Option<Box<ExprV>>
    decreases e,
{
    match e {
        Some(e) => Some(Box::new(self_expr(*e, target))),
        None => None,
    }
}

pub open spec fn self_exprs(s: Seq<ExprV>, target: TypeV) -> Seq<ExprV>
    decreases s,
{
    Seq::new(
        s.len(),
        |i: int|
            if 0 <= i < s.len() {
                self_expr(s[i], target)
            } else {
                arbitrary()
            },
    )
}

pub open spec fn self_arms(s: Seq<MatchArmV>, target: TypeV) -> Seq<MatchArmV>
    decreases s,
{
    Seq::new(
        s.len(),
        |i: int|
            if 0 <= i < s.len() {
                MatchArmV { pattern: s[i].pattern, body: self_expr(s[i].body, target) }
            } else {
                arbitrary()
            },
    )
}

pub open spec fn self_array_entry(e: ArrayEntryV, target: TypeV) -> ArrayEntryV
    decreases e,
{
    match e {
        ArrayEntryV::Elem(x) => ArrayEntryV::Elem(self_expr(x, target)),
        ArrayEntryV::Spread(x) => ArrayEntryV::Spread(self_expr(x, target)),
    }
}

pub open spec fn self_record_entry(e: RecordEntryV, target: TypeV) -> RecordEntryV
    decreases e,
{
    match e {
        RecordEntryV::Field(name, x) => RecordEntryV::Field(name, self_expr(x, target)),
        RecordEntryV::Spread(x) => RecordEntryV::Spread(self_expr(x, target)),
    }
}

pub open spec fn self_array_entries(s: Seq<ArrayEntryV>, target: TypeV) -> Seq<ArrayEntryV>
    decreases s,
{
    Seq::new(
        s.len(),
        |i: int|
            if 0 <= i < s.len() {
                self_array_entry(s[i], target)
            } else {
                arbitrary()
            },
    )
}

pub open spec fn self_record_entries(s: Seq<RecordEntryV>, target: TypeV) -> Seq<RecordEntryV>
    decreases s,
{
    Seq::new(
        s.len(),
        |i: int|
            if 0 <= i < s.len() {
                self_record_entry(s[i], target)
            } else {
                arbitrary()
            },
    )
}

/// A statement with `target` in place of `Self`. Declarations that open a type
/// scope of their own are left alone.
pub open spec fn self_stmt(s: StmtV, target: TypeV) -> StmtV
    decreases s,
{
    match s {
        StmtV::Let { pat, is_mutable, ty, value, span } => StmtV::Let {
            pat,
            is_mutable,
            ty: self_annotation(ty, target),
            value: self_expr(value, target),
            span,
        },
        StmtV::Fn(def) => StmtV::Fn(self_fn(def, target)),
        StmtV::Op(def) => StmtV::Op(self_fn(def, target)),
        StmtV::TestBlock { stmts, span } => StmtV::TestBlock {
            stmts: self_stmts(stmts, target),
            span,
        },
        StmtV::RecBlock { stmts, span } => StmtV::RecBlock {
            stmts: self_stmts(stmts, target),
            span,
        },
        StmtV::Expr(e) => StmtV::Expr(self_expr(e, target)),
        _ => s,
    }
}

pub open spec fn self_fn(def: FnDefV, target: TypeV) -> FnDefV
    decreases def,
{
    FnDefV {
        params: self_params(def.params, target),
        ret_type: self_return(def.ret_type, target),
        body: self_expr(def.body, target),
        ..def
    }
}

pub open spec fn self_stmts(s: Seq<StmtV>, target: TypeV) -> Seq<StmtV>
    decreases s,
{
    Seq::new(
        s.len(),
        |i: int|
            if 0 <= i < s.len() {
                self_stmt(s[i], target)
            } else {
                arbitrary()
            },
    )
}

/// A method with `target` in place of `Self`.
pub open spec fn self_method(m: InherentMethodV, target: TypeV) -> InherentMethodV {
    InherentMethodV {
        params: self_params(m.params, target),
        ret_type: self_return(m.ret_type, target),
        body: self_expr(m.body, target),
        ..m
    }
}

// ---------------------------------------------------------------------------
// Filling in `Self` keeps the size
// ---------------------------------------------------------------------------

/// Filling in `Self` adds no expressions and no statements.
pub proof fn lemma_self_expr_size(e: ExprV, target: TypeV)
    ensures
        expr_size(self_expr(e, target)) == expr_size(e),
    decreases e,
{
    lemma_self_kind_size(e.kind, target);
}

proof fn lemma_self_kind_size(k: ExprKindV, target: TypeV)
    ensures
        expr_kind_size(self_kind(k, target)) == expr_kind_size(k),
    decreases k,
{
    match k {
        ExprKindV::Grouped(e) | ExprKindV::Not(e) | ExprKindV::Loop(e) => {
            lemma_self_expr_size(*e, target);
        },
        ExprKindV::Break(e) | ExprKindV::Return(e) => lemma_self_optional_size(e, target),
        ExprKindV::FieldAccess { expr, .. } => lemma_self_expr_size(*expr, target),
        ExprKindV::Neg { operand, .. } => lemma_self_expr_size(*operand, target),
        ExprKindV::Assign { target: lhs, value } => {
            lemma_self_expr_size(*lhs, target);
            lemma_self_expr_size(*value, target);
        },
        ExprKindV::Binary { lhs, rhs, .. } => {
            lemma_self_expr_size(*lhs, target);
            lemma_self_expr_size(*rhs, target);
        },
        ExprKindV::Range { start, end, .. } => {
            lemma_self_optional_size(start, target);
            lemma_self_optional_size(end, target);
        },
        ExprKindV::Call { callee, args, .. } => {
            lemma_self_expr_size(*callee, target);
            lemma_self_exprs_size(args, target);
        },
        ExprKindV::If { cond, then_branch, else_branch } => {
            lemma_self_expr_size(*cond, target);
            lemma_self_expr_size(*then_branch, target);
            lemma_self_expr_size(*else_branch, target);
        },
        ExprKindV::Match { scrutinee, arms } => {
            lemma_self_expr_size(*scrutinee, target);
            lemma_self_arms_size(arms, target);
        },
        ExprKindV::Block { stmts, final_expr } => {
            lemma_self_stmts_size(stmts, target);
            lemma_self_optional_size(final_expr, target);
        },
        ExprKindV::Tuple(items) => lemma_self_exprs_size(items, target),
        ExprKindV::Array(entries) => lemma_self_array_entries_size(entries, target),
        ExprKindV::Record(entries) => lemma_self_record_entries_size(entries, target),
        ExprKindV::Index { receiver, key, .. } => {
            lemma_self_expr_size(*receiver, target);
            lemma_self_expr_size(*key, target);
        },
        ExprKindV::Lambda { body, .. } => lemma_self_expr_size(*body, target),
        ExprKindV::For { iterable, body, .. } => {
            lemma_self_expr_size(*iterable, target);
            lemma_self_expr_size(*body, target);
        },
        _ => {},
    }
}

proof fn lemma_self_optional_size(e: Option<Box<ExprV>>, target: TypeV)
    ensures
        optional_size(self_optional(e, target)) == optional_size(e),
    decreases e,
{
    if let Some(x) = e {
        lemma_self_expr_size(*x, target);
    }
}

proof fn lemma_self_exprs_size(s: Seq<ExprV>, target: TypeV)
    ensures
        exprs_size(self_exprs(s, target)) == exprs_size(s),
    decreases s,
{
    if s.len() > 0 {
        lemma_self_expr_size(s.last(), target);
        lemma_self_exprs_size(s.drop_last(), target);
        assert(self_exprs(s, target).drop_last() =~= self_exprs(s.drop_last(), target));
        assert(expr_size(self_exprs(s, target).last()) == expr_size(s.last()));
    }
}

proof fn lemma_self_arms_size(s: Seq<MatchArmV>, target: TypeV)
    ensures
        match_arms_size(self_arms(s, target)) == match_arms_size(s),
    decreases s,
{
    if s.len() > 0 {
        lemma_self_expr_size(s.last().body, target);
        lemma_self_arms_size(s.drop_last(), target);
        assert(self_arms(s, target).drop_last() =~= self_arms(s.drop_last(), target));
        assert(match_arm_size(self_arms(s, target).last()) == match_arm_size(s.last()));
    }
}

proof fn lemma_self_array_entries_size(s: Seq<ArrayEntryV>, target: TypeV)
    ensures
        array_entries_size(self_array_entries(s, target)) == array_entries_size(s),
    decreases s,
{
    if s.len() > 0 {
        match s.last() {
            ArrayEntryV::Elem(x) => lemma_self_expr_size(x, target),
            ArrayEntryV::Spread(x) => lemma_self_expr_size(x, target),
        }
        lemma_self_array_entries_size(s.drop_last(), target);
        assert(self_array_entries(s, target).drop_last() =~= self_array_entries(s.drop_last(), target));
        assert(array_entry_size(self_array_entries(s, target).last()) == array_entry_size(s.last()));
    }
}

proof fn lemma_self_record_entries_size(s: Seq<RecordEntryV>, target: TypeV)
    ensures
        record_entries_size(self_record_entries(s, target)) == record_entries_size(s),
    decreases s,
{
    if s.len() > 0 {
        match s.last() {
            RecordEntryV::Field(_, x) => lemma_self_expr_size(x, target),
            RecordEntryV::Spread(x) => lemma_self_expr_size(x, target),
        }
        lemma_self_record_entries_size(s.drop_last(), target);
        assert(self_record_entries(s, target).drop_last() =~= self_record_entries(s.drop_last(), target));
        assert(record_entry_size(self_record_entries(s, target).last()) == record_entry_size(s.last()));
    }
}

proof fn lemma_self_stmts_size(s: Seq<StmtV>, target: TypeV)
    ensures
        stmts_size(self_stmts(s, target)) == stmts_size(s),
    decreases s,
{
    if s.len() > 0 {
        lemma_self_stmt_size(s.last(), target);
        lemma_self_stmts_size(s.drop_last(), target);
        assert(self_stmts(s, target).drop_last() =~= self_stmts(s.drop_last(), target));
        assert(stmt_size(self_stmts(s, target).last()) == stmt_size(s.last()));
    }
}

proof fn lemma_self_stmt_size(s: StmtV, target: TypeV)
    ensures
        stmt_size(self_stmt(s, target)) == stmt_size(s),
    decreases s,
{
    match s {
        StmtV::Let { value, .. } => lemma_self_expr_size(value, target),
        StmtV::Fn(def) | StmtV::Op(def) => {
            lemma_self_expr_size(def.body, target);
            assert(fn_def_size(self_fn(def, target)) == fn_def_size(def));
        },
        StmtV::TestBlock { stmts, .. } => lemma_self_stmts_size(stmts, target),
        StmtV::RecBlock { stmts, .. } => lemma_self_stmts_size(stmts, target),
        StmtV::Expr(e) => lemma_self_expr_size(e, target),
        _ => {},
    }
}

// ---------------------------------------------------------------------------
// Executable counterparts
// ---------------------------------------------------------------------------

fn substitute_self_in_type(ty: &mut Type, target: &Type)
    ensures
        final(ty)@ == self_type(old(ty)@, target@),
    decreases *old(ty),
{
    if let Type::Ident(name) = &*ty {
        if str_eq(name.as_str(), "Self") {
            *ty = target.clone();
        }
        return;
    }
    match ty {
        Type::App(con, args) => {
            substitute_self_in_type(con, target);
            substitute_self_in_types(args, target);
        },
        Type::Func(params, ret) => {
            let ghost old_ret = *ret;
            substitute_self_in_type_params(params, target);
            substitute_self_in_type(&mut ret.ty, target);
            assert(type_return_view(old_ret) == TypeReturnV {
                ty: Box::new(type_view(*old_ret.ty)),
                mut_place: old_ret.mut_place,
            });
            assert(type_return_view(*ret) == TypeReturnV {
                ty: Box::new(type_view(*ret.ty)),
                mut_place: ret.mut_place,
            });
        },
        Type::Tuple(items) => {
            substitute_self_in_types(items, target);
        },
        Type::Record(fields, _) => {
            substitute_self_in_named(fields, target);
        },
        _ => {},
    }
}

fn substitute_self_in_types(s: &mut Vec<Type>, target: &Type)
    ensures
        types_view(final(s)@) == self_types(types_view(old(s)@), target@),
        final(s)@.len() == old(s)@.len(),
    decreases old(s)@,
{
    let ghost start = s@;
    let ghost all = types_view(start);
    let ghost want = self_types(all, target@);
    let mut i: usize = 0;
    while i < s.len()
        invariant
            i <= s.len(),
            s.len() == start.len(),
            start == old(s)@,
            all == types_view(start),
            want == self_types(all, target@),
            forall|j: int| 0 <= j < i ==> type_view(#[trigger] s@[j]) == want[j],
            forall|j: int| i <= j < start.len() ==> #[trigger] s@[j] == start[j],
        decreases s.len() - i,
    {
        assert(all[i as int] == type_view(start[i as int]));
        assert(decreases_to!(start => start[i as int]));
        substitute_self_in_type(&mut s[i], target);
        i = i + 1;
    }
    assert(types_view(s@) =~= want);
}

fn substitute_self_in_type_params(s: &mut Vec<TypeParam>, target: &Type)
    ensures
        type_params_view(final(s)@) == self_type_params(type_params_view(old(s)@), target@),
        final(s)@.len() == old(s)@.len(),
    decreases old(s)@,
{
    let ghost start = s@;
    let ghost all = type_params_view(start);
    let ghost want = self_type_params(all, target@);
    let mut i: usize = 0;
    while i < s.len()
        invariant
            i <= s.len(),
            s.len() == start.len(),
            start == old(s)@,
            all == type_params_view(start),
            want == self_type_params(all, target@),
            forall|j: int| 0 <= j < i ==> type_param_view(#[trigger] s@[j]) == want[j],
            forall|j: int| i <= j < start.len() ==> #[trigger] s@[j] == start[j],
        decreases s.len() - i,
    {
        assert(all[i as int] == type_param_view(start[i as int]));
        assert(decreases_to!(start => start[i as int]));
        assert(decreases_to!(start[i as int] => start[i as int].ty));
        substitute_self_in_type(&mut s[i].ty, target);
        i = i + 1;
    }
    assert(type_params_view(s@) =~= want);
}

fn substitute_self_in_named(s: &mut Vec<NamedType>, target: &Type)
    ensures
        named_types_view(final(s)@) == self_named(named_types_view(old(s)@), target@),
        final(s)@.len() == old(s)@.len(),
    decreases old(s)@,
{
    let ghost start = s@;
    let ghost all = named_types_view(start);
    let ghost want = self_named(all, target@);
    let mut i: usize = 0;
    while i < s.len()
        invariant
            i <= s.len(),
            s.len() == start.len(),
            start == old(s)@,
            all == named_types_view(start),
            want == self_named(all, target@),
            forall|j: int| 0 <= j < i ==> named_type_view(#[trigger] s@[j]) == want[j],
            forall|j: int| i <= j < start.len() ==> #[trigger] s@[j] == start[j],
        decreases s.len() - i,
    {
        assert(all[i as int] == named_type_view(start[i as int]));
        assert(decreases_to!(start => start[i as int]));
        assert(decreases_to!(start[i as int] => start[i as int].ty));
        substitute_self_in_type(&mut s[i].ty, target);
        i = i + 1;
    }
    assert(named_types_view(s@) =~= want);
}

fn substitute_self_in_annotation(ty: &mut Option<Type>, target: &Type)
    ensures
        some_type_view(*final(ty)) == self_annotation(some_type_view(*old(ty)), target@),
{
    if let Some(t) = ty {
        substitute_self_in_type(t, target);
    }
}

fn substitute_self_in_return(ty: &mut Option<crate::ast::TypeReturn>, target: &Type)
    ensures
        some_type_return_view(*final(ty)) == self_return(some_type_return_view(*old(ty)), target@),
{
    if let Some(ret) = ty {
        let ghost old_ret = *ret;
        substitute_self_in_type(&mut ret.ty, target);
        assert(type_return_view(old_ret) == TypeReturnV {
            ty: Box::new(type_view(*old_ret.ty)),
            mut_place: old_ret.mut_place,
        });
        assert(type_return_view(*ret) == TypeReturnV {
            ty: Box::new(type_view(*ret.ty)),
            mut_place: ret.mut_place,
        });
    }
}

fn substitute_self_in_params(s: &mut Vec<Param>, target: &Type)
    ensures
        params_view(final(s)@) == self_params(params_view(old(s)@), target@),
        final(s)@.len() == old(s)@.len(),
    decreases old(s)@,
{
    let ghost start = s@;
    let ghost all = params_view(start);
    let ghost want = self_params(all, target@);
    let mut i: usize = 0;
    while i < s.len()
        invariant
            i <= s.len(),
            s.len() == start.len(),
            start == old(s)@,
            all == params_view(start),
            want == self_params(all, target@),
            forall|j: int| 0 <= j < i ==> param_view(#[trigger] s@[j]) == want[j],
            forall|j: int| i <= j < start.len() ==> #[trigger] s@[j] == start[j],
        decreases s.len() - i,
    {
        assert(all[i as int] == param_view(start[i as int]));
        assert(decreases_to!(start => start[i as int]));
        substitute_self_in_annotation(&mut s[i].ty, target);
        i = i + 1;
    }
    assert(params_view(s@) =~= want);
}

#[verifier::spinoff_prover]
#[verifier::rlimit(60)]
fn substitute_self_in_expr_types(expr: &mut Expr, target: &Type)
    ensures
        final(expr)@ == self_expr(old(expr)@, target@),
    decreases *old(expr),
{
    match &mut expr.kind {
        ExprKind::AssociatedAccess { target: access, .. } => {
            substitute_self_in_type(access, target);
        },
        ExprKind::Grouped(e) => {
            substitute_self_in_expr_types(e, target);
        },
        ExprKind::Not(e) => {
            substitute_self_in_expr_types(e, target);
        },
        ExprKind::Loop(e) => {
            substitute_self_in_expr_types(e, target);
        },
        ExprKind::Break(e) => {
            substitute_self_in_optional(e, target);
        },
        ExprKind::Return(e) => {
            substitute_self_in_optional(e, target);
        },
        ExprKind::FieldAccess { expr: e, .. } => {
            substitute_self_in_expr_types(e, target);
        },
        ExprKind::Neg { operand, .. } => {
            substitute_self_in_expr_types(operand, target);
        },
        ExprKind::Assign { target: lhs, value } => {
            substitute_self_in_expr_types(lhs, target);
            substitute_self_in_expr_types(value, target);
        },
        ExprKind::Binary { lhs, rhs, .. } => {
            substitute_self_in_expr_types(lhs, target);
            substitute_self_in_expr_types(rhs, target);
        },
        ExprKind::Range { start, end, .. } => {
            substitute_self_in_optional(start, target);
            substitute_self_in_optional(end, target);
        },
        ExprKind::Call { callee, args, .. } => {
            substitute_self_in_expr_types(callee, target);
            substitute_self_in_exprs(args, target);
        },
        ExprKind::If { cond, then_branch, else_branch } => {
            substitute_self_in_expr_types(cond, target);
            substitute_self_in_expr_types(then_branch, target);
            substitute_self_in_expr_types(else_branch, target);
        },
        ExprKind::Match { scrutinee, arms } => {
            substitute_self_in_expr_types(scrutinee, target);
            substitute_self_in_arms(arms, target);
        },
        ExprKind::Block { stmts, final_expr } => {
            substitute_self_in_stmts(stmts, target);
            substitute_self_in_optional(final_expr, target);
        },
        ExprKind::Tuple(items) => {
            substitute_self_in_exprs(items, target);
        },
        ExprKind::Array(entries) => {
            substitute_self_in_array_entries(entries, target);
        },
        ExprKind::Record(entries) => {
            substitute_self_in_record_entries(entries, target);
        },
        ExprKind::Index { receiver, key, .. } => {
            substitute_self_in_expr_types(receiver, target);
            substitute_self_in_expr_types(key, target);
        },
        ExprKind::Lambda { params, body, .. } => {
            substitute_self_in_params(params, target);
            substitute_self_in_expr_types(body, target);
        },
        ExprKind::For { iterable, body, .. } => {
            substitute_self_in_expr_types(iterable, target);
            substitute_self_in_expr_types(body, target);
        },
        _ => {},
    }
}

fn substitute_self_in_optional(e: &mut Option<Box<Expr>>, target: &Type)
    ensures
        boxed_expr_view(*final(e)) == self_optional(boxed_expr_view(*old(e)), target@),
    decreases *old(e),
{
    if let Some(x) = e {
        substitute_self_in_expr_types(x, target);
    }
}

fn substitute_self_in_exprs(s: &mut Vec<Expr>, target: &Type)
    ensures
        exprs_view(final(s)@) == self_exprs(exprs_view(old(s)@), target@),
        final(s)@.len() == old(s)@.len(),
    decreases old(s)@,
{
    let ghost start = s@;
    let ghost all = exprs_view(start);
    let ghost want = self_exprs(all, target@);
    let mut i: usize = 0;
    while i < s.len()
        invariant
            i <= s.len(),
            s.len() == start.len(),
            start == old(s)@,
            all == exprs_view(start),
            want == self_exprs(all, target@),
            forall|j: int| 0 <= j < i ==> expr_view(#[trigger] s@[j]) == want[j],
            forall|j: int| i <= j < start.len() ==> #[trigger] s@[j] == start[j],
        decreases s.len() - i,
    {
        assert(all[i as int] == expr_view(start[i as int]));
        assert(decreases_to!(start => start[i as int]));
        substitute_self_in_expr_types(&mut s[i], target);
        i = i + 1;
    }
    assert(exprs_view(s@) =~= want);
}

fn substitute_self_in_arms(s: &mut Vec<MatchArm>, target: &Type)
    ensures
        match_arms_view(final(s)@) == self_arms(match_arms_view(old(s)@), target@),
        final(s)@.len() == old(s)@.len(),
    decreases old(s)@,
{
    let ghost start = s@;
    let ghost all = match_arms_view(start);
    let ghost want = self_arms(all, target@);
    let mut i: usize = 0;
    while i < s.len()
        invariant
            i <= s.len(),
            s.len() == start.len(),
            start == old(s)@,
            all == match_arms_view(start),
            want == self_arms(all, target@),
            forall|j: int| 0 <= j < i ==> match_arm_view(#[trigger] s@[j]) == want[j],
            forall|j: int| i <= j < start.len() ==> #[trigger] s@[j] == start[j],
        decreases s.len() - i,
    {
        assert(all[i as int] == match_arm_view(start[i as int]));
        assert(decreases_to!(start => start[i as int]));
        assert(decreases_to!(start[i as int] => start[i as int].body));
        substitute_self_in_expr_types(&mut s[i].body, target);
        i = i + 1;
    }
    assert(match_arms_view(s@) =~= want);
}

fn substitute_self_in_array_entry(e: &mut ArrayEntry, target: &Type)
    ensures
        array_entry_view(*final(e)) == self_array_entry(array_entry_view(*old(e)), target@),
    decreases *old(e),
{
    match e {
        ArrayEntry::Elem(x) => {
            substitute_self_in_expr_types(x, target);
        },
        ArrayEntry::Spread(x) => {
            substitute_self_in_expr_types(x, target);
        },
    }
}

fn substitute_self_in_record_entry(e: &mut RecordEntry, target: &Type)
    ensures
        record_entry_view(*final(e)) == self_record_entry(record_entry_view(*old(e)), target@),
    decreases *old(e),
{
    match e {
        RecordEntry::Field(_, x) => {
            substitute_self_in_expr_types(x, target);
        },
        RecordEntry::Spread(x) => {
            substitute_self_in_expr_types(x, target);
        },
    }
}

fn substitute_self_in_array_entries(s: &mut Vec<ArrayEntry>, target: &Type)
    ensures
        array_entries_view(final(s)@) == self_array_entries(array_entries_view(old(s)@), target@),
        final(s)@.len() == old(s)@.len(),
    decreases old(s)@,
{
    let ghost start = s@;
    let ghost all = array_entries_view(start);
    let ghost want = self_array_entries(all, target@);
    let mut i: usize = 0;
    while i < s.len()
        invariant
            i <= s.len(),
            s.len() == start.len(),
            start == old(s)@,
            all == array_entries_view(start),
            want == self_array_entries(all, target@),
            forall|j: int| 0 <= j < i ==> array_entry_view(#[trigger] s@[j]) == want[j],
            forall|j: int| i <= j < start.len() ==> #[trigger] s@[j] == start[j],
        decreases s.len() - i,
    {
        assert(all[i as int] == array_entry_view(start[i as int]));
        assert(decreases_to!(start => start[i as int]));
        substitute_self_in_array_entry(&mut s[i], target);
        i = i + 1;
    }
    assert(array_entries_view(s@) =~= want);
}

fn substitute_self_in_record_entries(s: &mut Vec<RecordEntry>, target: &Type)
    ensures
        record_entries_view(final(s)@) == self_record_entries(record_entries_view(old(s)@), target@),
        final(s)@.len() == old(s)@.len(),
    decreases old(s)@,
{
    let ghost start = s@;
    let ghost all = record_entries_view(start);
    let ghost want = self_record_entries(all, target@);
    let mut i: usize = 0;
    while i < s.len()
        invariant
            i <= s.len(),
            s.len() == start.len(),
            start == old(s)@,
            all == record_entries_view(start),
            want == self_record_entries(all, target@),
            forall|j: int| 0 <= j < i ==> record_entry_view(#[trigger] s@[j]) == want[j],
            forall|j: int| i <= j < start.len() ==> #[trigger] s@[j] == start[j],
        decreases s.len() - i,
    {
        assert(all[i as int] == record_entry_view(start[i as int]));
        assert(decreases_to!(start => start[i as int]));
        substitute_self_in_record_entry(&mut s[i], target);
        i = i + 1;
    }
    assert(record_entries_view(s@) =~= want);
}

fn substitute_self_in_stmt_types(stmt: &mut Stmt, target: &Type)
    ensures
        stmt_view(*final(stmt)) == self_stmt(stmt_view(*old(stmt)), target@),
    decreases *old(stmt),
{
    match stmt {
        Stmt::Let { ty, value, .. } => {
            substitute_self_in_annotation(ty, target);
            substitute_self_in_expr_types(value, target);
        },
        Stmt::Fn(def) => {
            substitute_self_in_fn(def, target);
        },
        Stmt::Op(def) => {
            substitute_self_in_fn(def, target);
        },
        Stmt::TestBlock { stmts, .. } => {
            substitute_self_in_stmts(stmts, target);
        },
        Stmt::RecBlock { stmts, .. } => {
            substitute_self_in_stmts(stmts, target);
        },
        Stmt::Expr(e) => {
            substitute_self_in_expr_types(e, target);
        },
        // Nested item declarations own their own type scope. In particular, a nested
        // impl's `Self` is not the outer inherent impl's `Self`.
        _ => {},
    }
}

fn substitute_self_in_fn(def: &mut FnDef, target: &Type)
    ensures
        fn_def_view(*final(def)) == self_fn(fn_def_view(*old(def)), target@),
    decreases *old(def),
{
    substitute_self_in_params(&mut def.params, target);
    substitute_self_in_return(&mut def.ret_type, target);
    substitute_self_in_expr_types(&mut def.body, target);
}

fn substitute_self_in_stmts(s: &mut Vec<Stmt>, target: &Type)
    ensures
        stmts_view(final(s)@) == self_stmts(stmts_view(old(s)@), target@),
        final(s)@.len() == old(s)@.len(),
    decreases old(s)@,
{
    let ghost start = s@;
    let ghost all = stmts_view(start);
    let ghost want = self_stmts(all, target@);
    let mut i: usize = 0;
    while i < s.len()
        invariant
            i <= s.len(),
            s.len() == start.len(),
            start == old(s)@,
            all == stmts_view(start),
            want == self_stmts(all, target@),
            forall|j: int| 0 <= j < i ==> stmt_view(#[trigger] s@[j]) == want[j],
            forall|j: int| i <= j < start.len() ==> #[trigger] s@[j] == start[j],
        decreases s.len() - i,
    {
        assert(all[i as int] == stmt_view(start[i as int]));
        assert(decreases_to!(start => start[i as int]));
        substitute_self_in_stmt_types(&mut s[i], target);
        i = i + 1;
    }
    assert(stmts_view(s@) =~= want);
}

/// Fills in `Self` in the annotations and the body of a method.
pub fn substitute_self_in_inherent_method(method: &mut InherentMethod, target: &Type)
    ensures
        final(method)@ == self_method(old(method)@, target@),
{
    substitute_self_in_params(&mut method.params, target);
    substitute_self_in_return(&mut method.ret_type, target);
    substitute_self_in_expr_types(&mut method.body, target);
}

} // verus!
