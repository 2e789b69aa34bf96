//! How large syntax trees are: the measure that walks over them go down by.

use vstd::prelude::*;

use crate::ast_view::{ArrayEntryV, ExprV, ExprKindV, FnDefV, ImplDefV, ImplMethodV};
use crate::ast_view::{InherentImplDefV, InherentMethodV, MacroDefV, MatchArmV, RecordEntryV};
use crate::ast_view::StmtV;

verus! {

/// How many expressions and statements there are in [`ArrayEntry`].
pub open spec fn array_entry_size(x: ArrayEntryV) -> nat
    decreases x,
{
    match x {
        ArrayEntryV::Elem(a) => 1 + expr_size(a),
        ArrayEntryV::Spread(a) => 1 + expr_size(a),
    }
}

/// How many expressions and statements there are in [`RecordEntry`].
pub open spec fn record_entry_size(x: RecordEntryV) -> nat
    decreases x,
{
    match x {
        RecordEntryV::Field(_, b) => 1 + expr_size(b),
        RecordEntryV::Spread(a) => 1 + expr_size(a),
    }
}

/// How many expressions and statements there are in [`MatchArm`].
pub open spec fn match_arm_size(x: MatchArmV) -> nat
    decreases x,
{
    1 + expr_size(x.body)
}

/// How many expressions and statements there are in [`Expr`].
pub open spec fn expr_size(x: ExprV) -> nat
    decreases x,
{
    1 + expr_kind_size(x.kind)
}

/// How many expressions and statements there are in [`ExprKind`].
pub open spec fn expr_kind_size(x: ExprKindV) -> nat
    decreases x,
{
    match x {
        ExprKindV::Grouped(a) => 1 + expr_size(*a),
        ExprKindV::Not(a) => 1 + expr_size(*a),
        ExprKindV::Neg { operand, .. } => 1 + expr_size(*operand),
        ExprKindV::Assign { target, value, .. } => 1 + expr_size(*target) + expr_size(*value),
        ExprKindV::Binary { lhs, rhs, .. } => 1 + expr_size(*lhs) + expr_size(*rhs),
        ExprKindV::Range { start, end, .. } => 1 + optional_size(start) + optional_size(end),
        ExprKindV::Call { callee, args, .. } => 1 + expr_size(*callee) + exprs_size(args),
        ExprKindV::If { cond, then_branch, else_branch, .. } => 1 + expr_size(*cond) + expr_size(*then_branch) + expr_size(*else_branch),
        ExprKindV::Match { scrutinee, arms, .. } => 1 + expr_size(*scrutinee) + match_arms_size(arms),
        ExprKindV::Loop(a) => 1 + expr_size(*a),
        ExprKindV::Break(a) => 1 + optional_size(a),
        ExprKindV::Return(a) => 1 + optional_size(a),
        ExprKindV::Block { stmts, final_expr, .. } => 1 + stmts_size(stmts) + optional_size(final_expr),
        ExprKindV::Tuple(a) => 1 + exprs_size(a),
        ExprKindV::Array(a) => 1 + array_entries_size(a),
        ExprKindV::Record(a) => 1 + record_entries_size(a),
        ExprKindV::FieldAccess { expr, .. } => 1 + expr_size(*expr),
        ExprKindV::Index { receiver, key, .. } => 1 + expr_size(*receiver) + expr_size(*key),
        ExprKindV::Lambda { body, .. } => 1 + expr_size(*body),
        ExprKindV::For { iterable, body, .. } => 1 + expr_size(*iterable) + expr_size(*body),
        _ => 1,
    }
}

/// How many expressions and statements there are in [`FnDef`].
pub open spec fn fn_def_size(x: FnDefV) -> nat
    decreases x,
{
    1 + expr_size(x.body)
}

/// How many expressions and statements there are in [`ImplMethod`].
pub open spec fn impl_method_size(x: ImplMethodV) -> nat
    decreases x,
{
    1 + expr_size(x.body)
}

/// How many expressions and statements there are in [`ImplDef`].
pub open spec fn impl_def_size(x: ImplDefV) -> nat
    decreases x,
{
    1 + impl_methods_size(x.methods)
}

/// How many expressions and statements there are in [`InherentMethod`].
pub open spec fn inherent_method_size(x: InherentMethodV) -> nat
    decreases x,
{
    1 + expr_size(x.body)
}

/// How many expressions and statements there are in [`InherentImplDef`].
pub open spec fn inherent_impl_def_size(x: InherentImplDefV) -> nat
    decreases x,
{
    1 + inherent_methods_size(x.methods)
}

/// How many expressions and statements there are in [`MacroDef`].
pub open spec fn macro_def_size(x: MacroDefV) -> nat
    decreases x,
{
    1 + expr_size(x.body)
}

/// How many expressions and statements there are in [`Stmt`].
pub open spec fn stmt_size(x: StmtV) -> nat
    decreases x,
{
    match x {
        StmtV::Let { value, .. } => 1 + expr_size(value),
        StmtV::Fn(a) => 1 + fn_def_size(a),
        StmtV::Op(a) => 1 + fn_def_size(a),
        StmtV::Macro(a) => 1 + macro_def_size(a),
        StmtV::Impl(a) => 1 + impl_def_size(a),
        StmtV::InherentImpl(a) => 1 + inherent_impl_def_size(a),
        StmtV::TestBlock { stmts, .. } => 1 + stmts_size(stmts),
        StmtV::RecBlock { stmts, .. } => 1 + stmts_size(stmts),
        StmtV::Expr(a) => 1 + expr_size(a),
        _ => 1,
    }
}

pub open spec fn optional_size(x: Option<Box<ExprV>>) -> nat
    decreases x,
{
    match x {
        Some(e) => 1 + expr_size(*e),
        None => 0,
    }
}

pub open spec fn array_entries_size(s: Seq<ArrayEntryV>) -> nat
    decreases s,
{
    if s.len() == 0 {
        0
    } else {
        array_entries_size(s.drop_last()) + array_entry_size(s.last()) + 1
    }
}

/// A member of a list is smaller than the list.
pub proof fn lemma_array_entries_size(s: Seq<ArrayEntryV>, i: int)
    requires
        0 <= i < s.len(),
    ensures
        array_entry_size(s[i]) < array_entries_size(s),
    decreases s.len(),
{
    if i < s.len() - 1 {
        lemma_array_entries_size(s.drop_last(), i);
    }
}

pub open spec fn exprs_size(s: Seq<ExprV>) -> nat
    decreases s,
{
    if s.len() == 0 {
        0
    } else {
        exprs_size(s.drop_last()) + expr_size(s.last()) + 1
    }
}

/// A member of a list is smaller than the list.
pub proof fn lemma_exprs_size(s: Seq<ExprV>, i: int)
    requires
        0 <= i < s.len(),
    ensures
        expr_size(s[i]) < exprs_size(s),
    decreases s.len(),
{
    if i < s.len() - 1 {
        lemma_exprs_size(s.drop_last(), i);
    }
}

pub open spec fn impl_methods_size(s: Seq<ImplMethodV>) -> nat
    decreases s,
{
    if s.len() == 0 {
        0
    } else {
        impl_methods_size(s.drop_last()) + impl_method_size(s.last()) + 1
    }
}

/// A member of a list is smaller than the list.
pub proof fn lemma_impl_methods_size(s: Seq<ImplMethodV>, i: int)
    requires
        0 <= i < s.len(),
    ensures
        impl_method_size(s[i]) < impl_methods_size(s),
    decreases s.len(),
{
    if i < s.len() - 1 {
        lemma_impl_methods_size(s.drop_last(), i);
    }
}

pub open spec fn inherent_methods_size(s: Seq<InherentMethodV>) -> nat
    decreases s,
{
    if s.len() == 0 {
        0
    } else {
        inherent_methods_size(s.drop_last()) + inherent_method_size(s.last()) + 1
    }
}

/// A member of a list is smaller than the list.
pub proof fn lemma_inherent_methods_size(s: Seq<InherentMethodV>, i: int)
    requires
        0 <= i < s.len(),
    ensures
        inherent_method_size(s[i]) < inherent_methods_size(s),
    decreases s.len(),
{
    if i < s.len() - 1 {
        lemma_inherent_methods_size(s.drop_last(), i);
    }
}

pub open spec fn match_arms_size(s: Seq<MatchArmV>) -> nat
    decreases s,
{
    if s.len() == 0 {
        0
    } else {
        match_arms_size(s.drop_last()) + match_arm_size(s.last()) + 1
    }
}

/// A member of a list is smaller than the list.
pub proof fn lemma_match_arms_size(s: Seq<MatchArmV>, i: int)
    requires
        0 <= i < s.len(),
    ensures
        match_arm_size(s[i]) < match_arms_size(s),
    decreases s.len(),
{
    if i < s.len() - 1 {
        lemma_match_arms_size(s.drop_last(), i);
    }
}

pub open spec fn record_entries_size(s: Seq<RecordEntryV>) -> nat
    decreases s,
{
    if s.len() == 0 {
        0
    } else {
        record_entries_size(s.drop_last()) + record_entry_size(s.last()) + 1
    }
}

/// A member of a list is smaller than the list.
pub proof fn lemma_record_entries_size(s: Seq<RecordEntryV>, i: int)
    requires
        0 <= i < s.len(),
    ensures
        record_entry_size(s[i]) < record_entries_size(s),
    decreases s.len(),
{
    if i < s.len() - 1 {
        lemma_record_entries_size(s.drop_last(), i);
    }
}

pub open spec fn stmts_size(s: Seq<StmtV>) -> nat
    decreases s,
{
    if s.len() == 0 {
        0
    } else {
        stmts_size(s.drop_last()) + stmt_size(s.last()) + 1
    }
}

/// A member of a list is smaller than the list.
pub proof fn lemma_stmts_size(s: Seq<StmtV>, i: int)
    requires
        0 <= i < s.len(),
    ensures
        stmt_size(s[i]) < stmts_size(s),
    decreases s.len(),
{
    if i < s.len() - 1 {
        lemma_stmts_size(s.drop_last(), i);
    }
}

} // verus!
