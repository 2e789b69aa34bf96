//! What is left pending once the dictionaries of a tree are chosen.

use vstd::prelude::*;

use crate::ast_view::{ArrayEntryV, BinOpV, ExprKindV, ExprV, ImplMethodV, InherentMethodV};
use crate::ast_view::{MatchArmV, RecordEntryV, StmtV};
use crate::dict_uses::{settle, settle_array_entries, settle_arms, settle_exprs};
use crate::dict_uses::{settle_impl_methods, settle_inherent_methods, settle_kind};
use crate::dict_uses::{settle_optional, settle_record_entries, settle_stmt, settle_stmts};
use crate::dicts::ResolverV;

verus! {

/// Whether no node of an expression waits for a dictionary: no operator, loop, index or
/// call is pending. The pipe is no operator of a trait. Not looked into are the wrappers of
/// the arguments of a call, test blocks inside others, and macros.
pub open spec fn none_pending(e: ExprV) -> bool
    decreases e, 0nat,
{
    none_pending_kind(e.kind)
}

pub open spec fn none_pending_kind(k: ExprKindV) -> bool
    decreases k, 1nat,
{
    match k {
        ExprKindV::Binary { lhs, op, rhs, pending_op, pending_dict_args, .. } => {
            &&& op is Custom ==> pending_op is None
            &&& pending_dict_args.len() == 0
            &&& none_pending(*lhs)
            &&& none_pending(*rhs)
        },
        ExprKindV::Neg { operand, pending_op, .. } => pending_op is None && none_pending(*operand),
        ExprKindV::Call { callee, args, pending_trait_method, pending_dict_args, .. } => {
            &&& pending_trait_method is None
            &&& pending_dict_args.len() == 0
            &&& none_pending(*callee)
            &&& none_pending_exprs(args)
        },
        ExprKindV::Block { stmts, final_expr } => {
            &&& none_pending_stmts(stmts)
            &&& none_pending_optional(final_expr)
        },
        ExprKindV::If { cond, then_branch, else_branch } => {
            &&& none_pending(*cond)
            &&& none_pending(*then_branch)
            &&& none_pending(*else_branch)
        },
        ExprKindV::Lambda { body, .. } => none_pending(*body),
        ExprKindV::Match { scrutinee, arms } => none_pending(*scrutinee) && none_pending_arms(arms),
        ExprKindV::Loop(x) => none_pending(*x),
        ExprKindV::Assign { target, value } => none_pending(*target) && none_pending(*value),
        ExprKindV::Range { start, end, .. } => {
            &&& none_pending_optional(start)
            &&& none_pending_optional(end)
        },
        ExprKindV::Grouped(x) => none_pending(*x),
        ExprKindV::Not(x) => none_pending(*x),
        ExprKindV::Break(x) => none_pending_optional(x),
        ExprKindV::Return(x) => none_pending_optional(x),
        ExprKindV::Tuple(items) => none_pending_exprs(items),
        ExprKindV::Array(entries) => none_pending_array(entries),
        ExprKindV::Record(entries) => none_pending_record(entries),
        ExprKindV::FieldAccess { expr, .. } => none_pending(*expr),
        ExprKindV::Index { receiver, key, pending_trait_method, pending_dict_args, .. } => {
            &&& pending_trait_method is None
            &&& pending_dict_args.len() == 0
            &&& none_pending(*receiver)
            &&& none_pending(*key)
        },
        ExprKindV::For { iterable, body, pending_iter, .. } => {
            &&& pending_iter is None
            &&& none_pending(*iterable)
            &&& none_pending(*body)
        },
        _ => true,
    }
}

pub open spec fn none_pending_optional(e: Option<Box<ExprV>>) -> bool
    decreases e, 1nat,
{
    match e {
        Some(x) => none_pending(*x),
        None => true,
    }
}

/// Whether nothing in a statement waits for a dictionary. Test blocks and macros stand
/// at the top of a program only and are not looked into.
pub open spec fn none_pending_stmt(s: StmtV) -> bool
    decreases s, 0nat,
{
    match s {
        StmtV::Fn(def) => none_pending(def.body),
        StmtV::Op(def) => none_pending(def.body),
        StmtV::Let { value, .. } => none_pending(value),
        StmtV::Expr(e) => none_pending(e),
        StmtV::Impl(id) => none_pending_impl(id.methods),
        StmtV::InherentImpl(id) => none_pending_inherent(id.methods),
        StmtV::RecBlock { stmts, .. } => none_pending_stmts(stmts),
        _ => true,
    }
}

pub open spec fn none_pending_exprs(s: Seq<ExprV>) -> bool
    decreases s, 0nat,
{
    forall|i: int| 0 <= i < s.len() ==> none_pending(#[trigger] s[i])
}

pub open spec fn none_pending_arms(s: Seq<MatchArmV>) -> bool
    decreases s, 0nat,
{
    forall|i: int| 0 <= i < s.len() ==> none_pending((#[trigger] s[i]).body)
}

pub open spec fn none_pending_impl(s: Seq<ImplMethodV>) -> bool
    decreases s, 0nat,
{
    forall|i: int| 0 <= i < s.len() ==> none_pending((#[trigger] s[i]).body)
}

pub open spec fn none_pending_inherent(s: Seq<InherentMethodV>) -> bool
    decreases s, 0nat,
{
    forall|i: int| 0 <= i < s.len() ==> none_pending((#[trigger] s[i]).body)
}

pub open spec fn none_pending_array(s: Seq<ArrayEntryV>) -> bool
    decreases s, 0nat,
{
    forall|i: int| 0 <= i < s.len() ==> match #[trigger] s[i] {
        ArrayEntryV::Elem(e) => none_pending(e),
        ArrayEntryV::Spread(e) => none_pending(e),
    }
}

pub open spec fn none_pending_record(s: Seq<RecordEntryV>) -> bool
    decreases s, 0nat,
{
    forall|i: int| 0 <= i < s.len() ==> match #[trigger] s[i] {
        RecordEntryV::Field(_, e) => none_pending(e),
        RecordEntryV::Spread(e) => none_pending(e),
    }
}

pub open spec fn none_pending_stmts(s: Seq<StmtV>) -> bool
    decreases s, 0nat,
{
    forall|i: int| 0 <= i < s.len() ==> none_pending_stmt(#[trigger] s[i])
}

proof fn lemma_exprs_settled(s: Seq<ExprV>, i: nat, c: ResolverV)
    requires
        settle_exprs(s, i, c, true, true).1 is None,
    ensures
        none_pending_exprs(settle_exprs(s, i, c, true, true).0),
    decreases s, s.len() - i,
{
    if i < s.len() {
        lemma_settled(s[i as int], c);
        lemma_exprs_settled(s, i + 1, c);
    }
}

proof fn lemma_arms_settled(s: Seq<MatchArmV>, i: nat, c: ResolverV)
    requires
        settle_arms(s, i, c, true, true).1 is None,
    ensures
        none_pending_arms(settle_arms(s, i, c, true, true).0),
    decreases s, s.len() - i,
{
    if i < s.len() {
        lemma_settled(s[i as int].body, c);
        lemma_arms_settled(s, i + 1, c);
    }
}

proof fn lemma_impl_settled(s: Seq<ImplMethodV>, i: nat, c: ResolverV)
    requires
        settle_impl_methods(s, i, c, true, true).1 is None,
    ensures
        none_pending_impl(settle_impl_methods(s, i, c, true, true).0),
    decreases s, s.len() - i,
{
    if i < s.len() {
        lemma_settled(s[i as int].body, c);
        lemma_impl_settled(s, i + 1, c);
    }
}

proof fn lemma_inherent_settled(s: Seq<InherentMethodV>, i: nat, c: ResolverV)
    requires
        settle_inherent_methods(s, i, c, true, true).1 is None,
    ensures
        none_pending_inherent(settle_inherent_methods(s, i, c, true, true).0),
    decreases s, s.len() - i,
{
    if i < s.len() {
        lemma_settled(s[i as int].body, c);
        lemma_inherent_settled(s, i + 1, c);
    }
}

proof fn lemma_array_settled(s: Seq<ArrayEntryV>, i: nat, c: ResolverV)
    requires
        settle_array_entries(s, i, c, true, true).1 is None,
    ensures
        none_pending_array(settle_array_entries(s, i, c, true, true).0),
    decreases s, s.len() - i,
{
    if i < s.len() {
        match s[i as int] {
            ArrayEntryV::Elem(e) => {
                lemma_settled(e, c);
            },
            ArrayEntryV::Spread(e) => {
                lemma_settled(e, c);
            },
        }
        lemma_array_settled(s, i + 1, c);
    }
}

proof fn lemma_record_settled(s: Seq<RecordEntryV>, i: nat, c: ResolverV)
    requires
        settle_record_entries(s, i, c, true, true).1 is None,
    ensures
        none_pending_record(settle_record_entries(s, i, c, true, true).0),
    decreases s, s.len() - i,
{
    if i < s.len() {
        match s[i as int] {
            RecordEntryV::Field(_, e) => {
                lemma_settled(e, c);
            },
            RecordEntryV::Spread(e) => {
                lemma_settled(e, c);
            },
        }
        lemma_record_settled(s, i + 1, c);
    }
}

proof fn lemma_stmts_settled(s: Seq<StmtV>, i: nat, c: ResolverV)
    requires
        settle_stmts(s, i, c, true, true).1 is None,
    ensures
        none_pending_stmts(settle_stmts(s, i, c, true, true).0),
    decreases s, s.len() - i,
{
    if i < s.len() {
        lemma_stmt_settled(s[i as int], c);
        lemma_stmts_settled(s, i + 1, c);
    }
}

proof fn lemma_optional_settled(e: Option<Box<ExprV>>, c: ResolverV)
    requires
        settle_optional(e, c, true, true).1 is None,
    ensures
        none_pending_optional(settle_optional(e, c, true, true).0),
    decreases e, 1nat,
{
    if let Some(x) = e {
        lemma_settled(*x, c);
    }
}

proof fn lemma_stmt_settled(s: StmtV, c: ResolverV)
    requires
        settle_stmt(s, c, true, true).1 is None,
    ensures
        none_pending_stmt(settle_stmt(s, c, true, true).0),
    decreases s, 0nat,
{
    match s {
        StmtV::Fn(def) => {
            lemma_settled(def.body, c);
        },
        StmtV::Op(def) => {
            lemma_settled(def.body, c);
        },
        StmtV::Let { value, .. } => {
            lemma_settled(value, c);
        },
        StmtV::Expr(e) => {
            lemma_settled(e, c);
        },
        StmtV::Impl(id) => {
            lemma_impl_settled(id.methods, 0, c);
        },
        StmtV::InherentImpl(id) => {
            lemma_inherent_settled(id.methods, 0, c);
        },
        StmtV::RecBlock { stmts, .. } => {
            lemma_stmts_settled(stmts, 0, c);
        },
        _ => {},
    }
}

proof fn lemma_kind_settled(k: ExprKindV, c: ResolverV)
    requires
        settle_kind(k, c, true, true).1 is None,
    ensures
        none_pending_kind(settle_kind(k, c, true, true).0),
    decreases k, 1nat,
{
    match k {
        ExprKindV::Binary { lhs, rhs, .. } => {
            lemma_settled(*lhs, c);
            lemma_settled(*rhs, c);
        },
        ExprKindV::Neg { operand, .. } => {
            lemma_settled(*operand, c);
        },
        ExprKindV::If { cond, then_branch, else_branch } => {
            lemma_settled(*cond, c);
            lemma_settled(*then_branch, c);
            lemma_settled(*else_branch, c);
        },
        ExprKindV::Lambda { body, .. } => {
            lemma_settled(*body, c);
        },
        ExprKindV::Loop(x) => {
            lemma_settled(*x, c);
        },
        ExprKindV::Assign { target, value } => {
            lemma_settled(*target, c);
            lemma_settled(*value, c);
        },
        ExprKindV::Grouped(x) => {
            lemma_settled(*x, c);
        },
        ExprKindV::Not(x) => {
            lemma_settled(*x, c);
        },
        ExprKindV::FieldAccess { expr, .. } => {
            lemma_settled(*expr, c);
        },
        ExprKindV::Index { receiver, key, .. } => {
            lemma_settled(*receiver, c);
            lemma_settled(*key, c);
        },
        ExprKindV::For { iterable, body, .. } => {
            lemma_settled(*iterable, c);
            lemma_settled(*body, c);
        },
        ExprKindV::Call { callee, args, .. } => {
            lemma_settled(*callee, c);
            lemma_exprs_settled(args, 0, c);
        },
        ExprKindV::Block { stmts, final_expr } => {
            lemma_stmts_settled(stmts, 0, c);
            lemma_optional_settled(final_expr, c);
        },
        ExprKindV::Match { scrutinee, arms } => {
            lemma_settled(*scrutinee, c);
            lemma_arms_settled(arms, 0, c);
        },
        ExprKindV::Range { start, end, .. } => {
            lemma_optional_settled(start, c);
            lemma_optional_settled(end, c);
        },
        ExprKindV::Break(x) => {
            lemma_optional_settled(x, c);
        },
        ExprKindV::Return(x) => {
            lemma_optional_settled(x, c);
        },
        ExprKindV::Tuple(items) => {
            lemma_exprs_settled(items, 0, c);
        },
        ExprKindV::Array(entries) => {
            lemma_array_settled(entries, 0, c);
        },
        ExprKindV::Record(entries) => {
            lemma_record_settled(entries, 0, c);
        },
        _ => {},
    }
}

proof fn lemma_settled(e: ExprV, c: ResolverV)
    requires
        settle(e, c, true, true).1 is None,
    ensures
        none_pending(settle(e, c, true, true).0),
    decreases e, 0nat,
{
    lemma_kind_settled(e.kind, c);
}

/// Once the dictionaries of an expression are chosen without error, down into the
/// functions in its blocks, nothing in it waits for one.
pub proof fn law_settled_leaves_nothing_pending(e: ExprV, c: ResolverV)
    requires
        settle(e, c, true, true).1 is None,
    ensures
        none_pending(settle(e, c, true, true).0),
{
    lemma_settled(e, c);
}

/// Once the dictionaries of a statement are chosen without error, down into the
/// functions in its blocks, nothing in it waits for one.
pub proof fn law_settled_stmt_leaves_nothing_pending(s: StmtV, c: ResolverV)
    requires
        settle_stmt(s, c, true, true).1 is None,
    ensures
        none_pending_stmt(settle_stmt(s, c, true, true).0),
{
    lemma_stmt_settled(s, c);
}

} // verus!
