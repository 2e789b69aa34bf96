//! Which functions of a group an expression calls by name.

use std::collections::HashSet;
use vstd::prelude::*;

use crate::ast::{ArrayEntry, BinOp, Expr, ExprKind, MatchArm, Param, Pattern, PatternField};
use crate::ast::{RecordEntry, RestName, Stmt, SyntaxCaptureInfo};
use crate::ast_view::{array_entries_view, array_entry_view, bin_op_view, boxed_expr_view};
use crate::ast_view::{boxed_pattern_view, expr_view, exprs_view, match_arm_view};
use crate::ast_view::{match_arms_view, open_rest_name_view, param_view, params_view};
use crate::ast_view::{pattern_field_view, pattern_fields_view, pattern_view, patterns_view};
use crate::ast_view::{record_entries_view, record_entry_view, rest_name_view, stmt_view};
use crate::ast_view::{stmts_view, syntax_capture_view, syntax_captures_view, ArrayEntryV};
use crate::ast_view::{ExprKindV, ExprV, MatchArmV, ParamV, PatternFieldV, PatternV};
use crate::ast_view::{RecordEntryV, RestNameV, StmtV, SyntaxCaptureV};
use crate::tables::NameMap;

verus! {

broadcast use vstd::std_specs::hash::group_hash_axioms;

// ---------------------------------------------------------------------------
// Scopes
// ---------------------------------------------------------------------------

/// `acc` without the name of the rest of a pattern.
pub open spec fn without_rest(acc: Map<Seq<char>, usize>, rest: Option<Option<RestNameV>>) -> Map<
    Seq<char>,
    usize,
> {
    match rest {
        Some(Some(name)) => acc.remove(name.name),
        _ => acc,
    }
}

/// `acc` without the names that a pattern binds.
pub open spec fn without_pattern(acc: Map<Seq<char>, usize>, pat: PatternV) -> Map<Seq<char>, usize>
    decreases pat,
{
    match pat {
        PatternV::Variable(name, _) => acc.remove(name),
        PatternV::Tuple(items) => without_patterns(acc, items),
        PatternV::List { elements, rest } => without_rest(without_patterns(acc, elements), rest),
        PatternV::Constructor { binding: Some(binding), .. } => without_pattern(acc, *binding),
        PatternV::Record { fields, rest } => without_rest(without_fields(acc, fields), rest),
        PatternV::SyntaxQuote(captures) => without_captures(acc, captures),
        _ => acc,
    }
}

pub open spec fn without_patterns(acc: Map<Seq<char>, usize>, s: Seq<PatternV>) -> Map<Seq<char>, usize>
    decreases s,
{
    if s.len() == 0 {
        acc
    } else {
        let acc = without_patterns(acc, s.drop_last());
        without_pattern(acc, s.last())
    }
}

pub open spec fn without_fields(acc: Map<Seq<char>, usize>, s: Seq<PatternFieldV>) -> Map<Seq<char>, usize>
    decreases s,
{
    if s.len() == 0 {
        acc
    } else {
        let acc = without_fields(acc, s.drop_last());
        acc.remove(s.last().binding)
    }
}

pub open spec fn without_captures(acc: Map<Seq<char>, usize>, s: Seq<SyntaxCaptureV>) -> Map<Seq<char>, usize>
    decreases s,
{
    if s.len() == 0 {
        acc
    } else {
        without_captures(acc, s.drop_last()).remove(s.last().name)
    }
}

/// `acc` without the names that parameters bind.
pub open spec fn without_params(acc: Map<Seq<char>, usize>, s: Seq<ParamV>) -> Map<Seq<char>, usize>
    decreases s,
{
    if s.len() == 0 {
        acc
    } else {
        let acc = without_params(acc, s.drop_last());
        without_pattern(acc, s.last().pat)
    }
}

/// `acc` without the value that a statement binds.
pub open spec fn without_stmt(acc: Map<Seq<char>, usize>, stmt: StmtV) -> Map<Seq<char>, usize> {
    match stmt {
        StmtV::Let { pat, .. } => without_pattern(acc, pat),
        StmtV::Fn(def) => acc.remove(def.name),
        StmtV::Op(def) => acc.remove(def.name),
        StmtV::Extern { name, .. } => acc.remove(name),
        _ => acc,
    }
}

/// `acc` without the values that statements bind.
pub open spec fn without_stmts(acc: Map<Seq<char>, usize>, s: Seq<StmtV>) -> Map<Seq<char>, usize>
    decreases s,
{
    if s.len() == 0 {
        acc
    } else {
        let acc = without_stmts(acc, s.drop_last());
        without_stmt(acc, s.last())
    }
}

fn remove_rest_binding(acc: &mut NameMap<usize>, rest: &Option<Option<RestName>>)
    ensures
        final(acc)@ == without_rest(old(acc)@, open_rest_name_view(*rest)),
{
    if let Some(Some(name)) = rest {
        assert(open_rest_name_view(*rest) == Some(Some(rest_name_view(*name))));
        acc.remove(name.name.as_str());
    }
}

fn remove_pattern_value_bindings(acc: &mut NameMap<usize>, pat: &Pattern)
    ensures
        final(acc)@ == without_pattern(old(acc)@, pat@),
    decreases *pat,
{
    match pat {
        Pattern::Variable(name, _) => {
            acc.remove(name.as_str());
        },
        Pattern::Tuple(items) => {
            remove_patterns(acc, items);
        },
        Pattern::List { elements, rest } => {
            remove_patterns(acc, elements);
            remove_rest_binding(acc, rest);
        },
        Pattern::Constructor { binding: Some(binding), .. } => {
            assert(boxed_pattern_view(Some(*binding)) == Some(Box::new(pattern_view(**binding))));
            remove_pattern_value_bindings(acc, binding);
        },
        Pattern::Record { fields, rest } => {
            remove_fields(acc, fields);
            remove_rest_binding(acc, rest);
        },
        Pattern::SyntaxQuote(captures) => {
            remove_captures(acc, captures);
        },
        _ => {},
    }
}

fn remove_patterns(acc: &mut NameMap<usize>, s: &Vec<Pattern>)
    ensures
        final(acc)@ == without_patterns(old(acc)@, patterns_view(s@)),
    decreases s@,
{
    let ghost all = patterns_view(s@);
    let ghost start = acc@;
    let mut i: usize = 0;
    assert(all.take(0) =~= Seq::empty());
    while i < s.len()
        invariant
            i <= s.len(),
            all == patterns_view(s@),
            start == old(acc)@,
            acc@ == without_patterns(start, all.take(i as int)),
        decreases s.len() - i,
    {
        proof {
            assert(all.take(i + 1).drop_last() =~= all.take(i as int));
            assert(all.take(i + 1).last() == pattern_view(s@[i as int]));
        }
        assert(decreases_to!(s@ => s@[i as int]));
        remove_pattern_value_bindings(acc, &s[i]);
        i = i + 1;
    }
    assert(all.take(all.len() as int) =~= all);
}

fn remove_captures(acc: &mut NameMap<usize>, s: &Vec<SyntaxCaptureInfo>)
    ensures
        final(acc)@ == without_captures(old(acc)@, syntax_captures_view(s@)),
{
    let ghost all = syntax_captures_view(s@);
    let ghost start = acc@;
    let mut i: usize = 0;
    assert(all.take(0) =~= Seq::empty());
    while i < s.len()
        invariant
            i <= s.len(),
            all == syntax_captures_view(s@),
            start == old(acc)@,
            acc@ == without_captures(start, all.take(i as int)),
        decreases s.len() - i,
    {
        proof {
            assert(all.take(i + 1).drop_last() =~= all.take(i as int));
            assert(all.take(i + 1).last() == syntax_capture_view(s@[i as int]));
        }
        acc.remove(s[i].name.as_str());
        i = i + 1;
    }
    assert(all.take(s@.len() as int) =~= all);
}

fn remove_fields(acc: &mut NameMap<usize>, s: &Vec<PatternField>)
    ensures
        final(acc)@ == without_fields(old(acc)@, pattern_fields_view(s@)),
    decreases s@,
{
    let ghost all = pattern_fields_view(s@);
    let ghost start = acc@;
    let mut i: usize = 0;
    assert(all.take(0) =~= Seq::empty());
    while i < s.len()
        invariant
            i <= s.len(),
            all == pattern_fields_view(s@),
            start == old(acc)@,
            acc@ == without_fields(start, all.take(i as int)),
        decreases s.len() - i,
    {
        proof {
            assert(all.take(i + 1).drop_last() =~= all.take(i as int));
            assert(all.take(i + 1).last() == pattern_field_view(s@[i as int]));
        }
        acc.remove(s[i].binding.as_str());
        i = i + 1;
    }
    assert(all.take(all.len() as int) =~= all);
}

fn remove_params(acc: &mut NameMap<usize>, s: &Vec<Param>)
    ensures
        final(acc)@ == without_params(old(acc)@, params_view(s@)),
    decreases s@,
{
    let ghost all = params_view(s@);
    let ghost start = acc@;
    let mut i: usize = 0;
    assert(all.take(0) =~= Seq::empty());
    while i < s.len()
        invariant
            i <= s.len(),
            all == params_view(s@),
            start == old(acc)@,
            acc@ == without_params(start, all.take(i as int)),
        decreases s.len() - i,
    {
        proof {
            assert(all.take(i + 1).drop_last() =~= all.take(i as int));
            assert(all.take(i + 1).last() == param_view(s@[i as int]));
        }
        remove_pattern_value_bindings(acc, &s[i].pat);
        i = i + 1;
    }
    assert(all.take(all.len() as int) =~= all);
}

fn remove_stmt_value_bindings(acc: &mut NameMap<usize>, stmt: &Stmt)
    ensures
        final(acc)@ == without_stmt(old(acc)@, stmt@),
{
    match stmt {
        Stmt::Let { pat, .. } => remove_pattern_value_bindings(acc, pat),
        Stmt::Fn(def) => acc.remove(def.name.as_str()),
        Stmt::Op(def) => acc.remove(def.name.as_str()),
        Stmt::Extern { name, .. } => acc.remove(name.as_str()),
        _ => {},
    }
}

fn remove_stmts(acc: &mut NameMap<usize>, s: &Vec<Stmt>)
    ensures
        final(acc)@ == without_stmts(old(acc)@, stmts_view(s@)),
    decreases s@,
{
    let ghost all = stmts_view(s@);
    let ghost start = acc@;
    let mut i: usize = 0;
    assert(all.take(0) =~= Seq::empty());
    while i < s.len()
        invariant
            i <= s.len(),
            all == stmts_view(s@),
            start == old(acc)@,
            acc@ == without_stmts(start, all.take(i as int)),
        decreases s.len() - i,
    {
        proof {
            assert(all.take(i + 1).drop_last() =~= all.take(i as int));
            assert(all.take(i + 1).last() == stmt_view(s@[i as int]));
        }
        remove_stmt_value_bindings(acc, &s[i]);
        i = i + 1;
    }
    assert(all.take(all.len() as int) =~= all);
}

// ---------------------------------------------------------------------------
// Calls
// ---------------------------------------------------------------------------

/// `acc` with the index of the function that `e` names, if it names one.
pub open spec fn call_target(acc: Set<usize>, e: ExprV, indexes: Map<Seq<char>, usize>) -> Set<usize>
    decreases e,
{
    match e.kind {
        ExprKindV::Ident(name) => if indexes.dom().contains(name) {
            acc.insert(indexes[name])
        } else {
            acc
        },
        ExprKindV::Grouped(inner) => call_target(acc, *inner, indexes),
        _ => acc,
    }
}

/// `acc` with the indexes of the functions that `e` calls or pipes into by a
/// name that nothing between shadows.
pub open spec fn calls_in(acc: Set<usize>, e: ExprV, indexes: Map<Seq<char>, usize>) -> Set<usize>
    decreases e,
{
    match e.kind {
        ExprKindV::Grouped(x) => calls_in(acc, *x, indexes),
        ExprKindV::Not(x) => calls_in(acc, *x, indexes),
        ExprKindV::Neg { operand, .. } => calls_in(acc, *operand, indexes),
        ExprKindV::Loop(x) => calls_in(acc, *x, indexes),
        ExprKindV::Break(x) => calls_in_optional(acc, x, indexes),
        ExprKindV::Return(x) => calls_in_optional(acc, x, indexes),
        ExprKindV::FieldAccess { expr, .. } => calls_in(acc, *expr, indexes),
        ExprKindV::Assign { target, value } => calls_in(
            calls_in(acc, *target, indexes),
            *value,
            indexes,
        ),
        ExprKindV::Binary { lhs, op, rhs, .. } => {
            let acc = if op is Pipe {
                call_target(acc, *rhs, indexes)
            } else {
                acc
            };
            calls_in(calls_in(acc, *lhs, indexes), *rhs, indexes)
        },
        ExprKindV::Range { start, end, .. } => calls_in_optional(
            calls_in_optional(acc, start, indexes),
            end,
            indexes,
        ),
        ExprKindV::Call { callee, args, is_method_call, .. } => {
            let acc = if is_method_call {
                acc
            } else {
                call_target(acc, *callee, indexes)
            };
            calls_in_exprs(calls_in(acc, *callee, indexes), args, indexes)
        },
        ExprKindV::If { cond, then_branch, else_branch } => calls_in(
            calls_in(calls_in(acc, *cond, indexes), *then_branch, indexes),
            *else_branch,
            indexes,
        ),
        ExprKindV::Lambda { params, body, .. } => calls_in(
            acc,
            *body,
            without_params(indexes, params),
        ),
        ExprKindV::Match { scrutinee, arms } => calls_in_arms(
            calls_in(acc, *scrutinee, indexes),
            arms,
            indexes,
        ),
        ExprKindV::Tuple(items) => calls_in_exprs(acc, items, indexes),
        ExprKindV::Array(entries) => calls_in_array_entries(acc, entries, indexes),
        ExprKindV::Record(entries) => calls_in_record_entries(acc, entries, indexes),
        ExprKindV::Index { receiver, key, .. } => calls_in(
            calls_in(acc, *receiver, indexes),
            *key,
            indexes,
        ),
        ExprKindV::For { pat, iterable, body, .. } => calls_in(
            calls_in(acc, *iterable, indexes),
            *body,
            without_pattern(indexes, pat),
        ),
        ExprKindV::Block { stmts, final_expr } => calls_in_optional(
            calls_in_block(acc, stmts, indexes),
            final_expr,
            without_stmts(indexes, stmts),
        ),
        _ => acc,
    }
}

pub open spec fn calls_in_optional(
    acc: Set<usize>,
    e: Option<Box<ExprV>>,
    indexes: Map<Seq<char>, usize>,
) -> Set<usize>
    decreases e,
{
    match e {
        Some(x) => calls_in(acc, *x, indexes),
        None => acc,
    }
}

pub open spec fn calls_in_exprs(acc: Set<usize>, s: Seq<ExprV>, indexes: Map<Seq<char>, usize>) -> Set<usize>
    decreases s,
{
    if s.len() == 0 {
        acc
    } else {
        let acc = calls_in_exprs(acc, s.drop_last(), indexes);
        calls_in(acc, s.last(), indexes)
    }
}

pub open spec fn calls_in_arms(acc: Set<usize>, s: Seq<MatchArmV>, indexes: Map<Seq<char>, usize>) -> Set<usize>
    decreases s,
{
    if s.len() == 0 {
        acc
    } else {
        let acc = calls_in_arms(acc, s.drop_last(), indexes);
        calls_in(acc, s.last().body, without_pattern(indexes, s.last().pattern))
    }
}

pub open spec fn calls_in_array_entries(acc: Set<usize>, s: Seq<ArrayEntryV>, indexes: Map<Seq<char>, usize>) -> Set<usize>
    decreases s,
{
    if s.len() == 0 {
        acc
    } else {
        let acc = calls_in_array_entries(acc, s.drop_last(), indexes);
        match s.last() {
            ArrayEntryV::Elem(x) => calls_in(acc, x, indexes),
            ArrayEntryV::Spread(x) => calls_in(acc, x, indexes),
        }
    }
}

pub open spec fn calls_in_record_entries(acc: Set<usize>, s: Seq<RecordEntryV>, indexes: Map<Seq<char>, usize>) -> Set<usize>
    decreases s,
{
    if s.len() == 0 {
        acc
    } else {
        let acc = calls_in_record_entries(acc, s.drop_last(), indexes);
        match s.last() {
            RecordEntryV::Field(_, x) => calls_in(acc, x, indexes),
            RecordEntryV::Spread(x) => calls_in(acc, x, indexes),
        }
    }
}

/// `acc` with the calls in the statements of a block, each in the scope of those
/// before it.
pub open spec fn calls_in_block(acc: Set<usize>, s: Seq<StmtV>, indexes: Map<Seq<char>, usize>) -> Set<usize>
    decreases s,
{
    if s.len() == 0 {
        acc
    } else {
        let acc = calls_in_block(acc, s.drop_last(), indexes);
        calls_in_stmt(acc, s.last(), without_stmts(indexes, s.drop_last()))
    }
}

pub open spec fn calls_in_stmts(acc: Set<usize>, s: Seq<StmtV>, indexes: Map<Seq<char>, usize>) -> Set<usize>
    decreases s,
{
    if s.len() == 0 {
        acc
    } else {
        let acc = calls_in_stmts(acc, s.drop_last(), indexes);
        calls_in_stmt(acc, s.last(), indexes)
    }
}

pub open spec fn calls_in_stmt(
    acc: Set<usize>,
    stmt: StmtV,
    indexes: Map<Seq<char>, usize>,
) -> Set<usize>
    decreases stmt,
{
    match stmt {
        StmtV::Let { value, .. } => calls_in(acc, value, indexes),
        StmtV::Expr(e) => calls_in(acc, e, indexes),
        StmtV::TestBlock { stmts, .. } => calls_in_stmts(acc, stmts, indexes),
        StmtV::RecBlock { stmts, .. } => calls_in_stmts(acc, stmts, indexes),
        _ => acc,
    }
}

fn collect_direct_call_target(
    acc: &mut HashSet<usize>,
    e: &Expr,
    indexes: &NameMap<usize>,
)
    ensures
        final(acc)@ == call_target(old(acc)@, e@, indexes@),
    decreases *e,
{
    match &e.kind {
        ExprKind::Ident(name) => {
            if let Some(idx) = indexes.get(name.as_str()) {
                acc.insert(*idx);
            }
        },
        ExprKind::Grouped(inner) => collect_direct_call_target(acc, inner, indexes),
        _ => {},
    }
}

#[verifier::spinoff_prover]
#[verifier::rlimit(40)]
fn collect_expr(acc: &mut HashSet<usize>, e: &Expr, indexes: &NameMap<usize>)
    ensures
        final(acc)@ == calls_in(old(acc)@, e@, indexes@),
    decreases *e,
{
    match &e.kind {
        ExprKind::Grouped(x) => collect_expr(acc, x, indexes),
        ExprKind::Not(x) => collect_expr(acc, x, indexes),
        ExprKind::Neg { operand, .. } => collect_expr(acc, operand, indexes),
        ExprKind::Loop(x) => collect_expr(acc, x, indexes),
        ExprKind::Break(x) => collect_optional(acc, x, indexes),
        ExprKind::Return(x) => collect_optional(acc, x, indexes),
        ExprKind::FieldAccess { expr, .. } => collect_expr(acc, expr, indexes),
        ExprKind::Assign { target, value } => {
            collect_expr(acc, target, indexes);
            collect_expr(acc, value, indexes);
        },
        ExprKind::Binary { lhs, op, rhs, .. } => {
            if matches!(op, BinOp::Pipe) {
                assert(bin_op_view(*op) is Pipe);
                collect_direct_call_target(acc, rhs, indexes);
            } else {
                assert(!(bin_op_view(*op) is Pipe));
            }
            collect_expr(acc, lhs, indexes);
            collect_expr(acc, rhs, indexes);
        },
        ExprKind::Range { start, end, .. } => {
            collect_optional(acc, start, indexes);
            collect_optional(acc, end, indexes);
        },
        ExprKind::Call { callee, args, is_method_call, .. } => {
            if !*is_method_call {
                collect_direct_call_target(acc, callee, indexes);
            }
            collect_expr(acc, callee, indexes);
            collect_exprs(acc, args, indexes);
        },
        ExprKind::If { cond, then_branch, else_branch } => {
            collect_expr(acc, cond, indexes);
            collect_expr(acc, then_branch, indexes);
            collect_expr(acc, else_branch, indexes);
        },
        ExprKind::Lambda { params, body, .. } => {
            let mut scoped = indexes.clone();
            remove_params(&mut scoped, params);
            collect_expr(acc, body, &scoped);
        },
        ExprKind::Match { scrutinee, arms } => {
            collect_expr(acc, scrutinee, indexes);
            collect_arms(acc, arms, indexes);
        },
        ExprKind::Tuple(items) => collect_exprs(acc, items, indexes),
        ExprKind::Array(entries) => collect_array_entries(acc, entries, indexes),
        ExprKind::Record(entries) => collect_record_entries(acc, entries, indexes),
        ExprKind::Index { receiver, key, .. } => {
            collect_expr(acc, receiver, indexes);
            collect_expr(acc, key, indexes);
        },
        ExprKind::For { pat, iterable, body, .. } => {
            collect_expr(acc, iterable, indexes);
            let mut scoped = indexes.clone();
            remove_pattern_value_bindings(&mut scoped, pat);
            collect_expr(acc, body, &scoped);
        },
        ExprKind::Block { stmts, final_expr } => {
            collect_block(acc, stmts, indexes);
            let mut scoped = indexes.clone();
            remove_stmts(&mut scoped, stmts);
            collect_optional(acc, final_expr, &scoped);
        },
        _ => {},
    }
}

fn collect_optional(acc: &mut HashSet<usize>, e: &Option<Box<Expr>>, indexes: &NameMap<usize>)
    ensures
        final(acc)@ == calls_in_optional(old(acc)@, boxed_expr_view(*e), indexes@),
    decreases *e,
{
    if let Some(x) = e {
        collect_expr(acc, x, indexes);
    }
}

fn collect_exprs(acc: &mut HashSet<usize>, s: &Vec<Expr>, indexes: &NameMap<usize>)
    ensures
        final(acc)@ == calls_in_exprs(old(acc)@, exprs_view(s@), indexes@),
    decreases s@,
{
    let ghost all = exprs_view(s@);
    let ghost start = acc@;
    let mut i: usize = 0;
    assert(all.take(0) =~= Seq::empty());
    while i < s.len()
        invariant
            i <= s.len(),
            all == exprs_view(s@),
            start == old(acc)@,
            acc@ == calls_in_exprs(start, all.take(i as int), indexes@),
        decreases s.len() - i,
    {
        proof {
            assert(all.take(i + 1).drop_last() =~= all.take(i as int));
            assert(all.take(i + 1).last() == expr_view(s@[i as int]));
        }
        assert(decreases_to!(s@ => s@[i as int]));
        collect_expr(acc, &s[i], indexes);
        i = i + 1;
    }
    assert(all.take(all.len() as int) =~= all);
}

fn collect_arms(acc: &mut HashSet<usize>, s: &Vec<MatchArm>, indexes: &NameMap<usize>)
    ensures
        final(acc)@ == calls_in_arms(old(acc)@, match_arms_view(s@), indexes@),
    decreases s@,
{
    let ghost all = match_arms_view(s@);
    let ghost start = acc@;
    let mut i: usize = 0;
    assert(all.take(0) =~= Seq::empty());
    while i < s.len()
        invariant
            i <= s.len(),
            all == match_arms_view(s@),
            start == old(acc)@,
            acc@ == calls_in_arms(start, all.take(i as int), indexes@),
        decreases s.len() - i,
    {
        proof {
            assert(all.take(i + 1).drop_last() =~= all.take(i as int));
            assert(all.take(i + 1).last() == match_arm_view(s@[i as int]));
        }
        assert(decreases_to!(s@ => s@[i as int]));
        assert(decreases_to!(s@[i as int] => s@[i as int].body));
        let mut scoped = indexes.clone();
        remove_pattern_value_bindings(&mut scoped, &s[i].pattern);
        collect_expr(acc, &s[i].body, &scoped);
        i = i + 1;
    }
    assert(all.take(all.len() as int) =~= all);
}

fn collect_array_entries(acc: &mut HashSet<usize>, s: &Vec<ArrayEntry>, indexes: &NameMap<usize>)
    ensures
        final(acc)@ == calls_in_array_entries(old(acc)@, array_entries_view(s@), indexes@),
    decreases s@,
{
    let ghost all = array_entries_view(s@);
    let ghost start = acc@;
    let mut i: usize = 0;
    assert(all.take(0) =~= Seq::empty());
    while i < s.len()
        invariant
            i <= s.len(),
            all == array_entries_view(s@),
            start == old(acc)@,
            acc@ == calls_in_array_entries(start, all.take(i as int), indexes@),
        decreases s.len() - i,
    {
        proof {
            assert(all.take(i + 1).drop_last() =~= all.take(i as int));
            assert(all.take(i + 1).last() == array_entry_view(s@[i as int]));
        }
        assert(decreases_to!(s@ => s@[i as int]));
        match &s[i] {
            ArrayEntry::Elem(x) => collect_expr(acc, x, indexes),
            ArrayEntry::Spread(x) => collect_expr(acc, x, indexes),
        }
        i = i + 1;
    }
    assert(all.take(all.len() as int) =~= all);
}

fn collect_record_entries(acc: &mut HashSet<usize>, s: &Vec<RecordEntry>, indexes: &NameMap<usize>)
    ensures
        final(acc)@ == calls_in_record_entries(old(acc)@, record_entries_view(s@), indexes@),
    decreases s@,
{
    let ghost all = record_entries_view(s@);
    let ghost start = acc@;
    let mut i: usize = 0;
    assert(all.take(0) =~= Seq::empty());
    while i < s.len()
        invariant
            i <= s.len(),
            all == record_entries_view(s@),
            start == old(acc)@,
            acc@ == calls_in_record_entries(start, all.take(i as int), indexes@),
        decreases s.len() - i,
    {
        proof {
            assert(all.take(i + 1).drop_last() =~= all.take(i as int));
            assert(all.take(i + 1).last() == record_entry_view(s@[i as int]));
        }
        assert(decreases_to!(s@ => s@[i as int]));
        match &s[i] {
            RecordEntry::Field(_, x) => collect_expr(acc, x, indexes),
            RecordEntry::Spread(x) => collect_expr(acc, x, indexes),
        }
        i = i + 1;
    }
    assert(all.take(all.len() as int) =~= all);
}

fn collect_stmts(acc: &mut HashSet<usize>, s: &Vec<Stmt>, indexes: &NameMap<usize>)
    ensures
        final(acc)@ == calls_in_stmts(old(acc)@, stmts_view(s@), indexes@),
    decreases s@,
{
    let ghost all = stmts_view(s@);
    let ghost start = acc@;
    let mut i: usize = 0;
    assert(all.take(0) =~= Seq::empty());
    while i < s.len()
        invariant
            i <= s.len(),
            all == stmts_view(s@),
            start == old(acc)@,
            acc@ == calls_in_stmts(start, all.take(i as int), indexes@),
        decreases s.len() - i,
    {
        proof {
            assert(all.take(i + 1).drop_last() =~= all.take(i as int));
            assert(all.take(i + 1).last() == stmt_view(s@[i as int]));
        }
        assert(decreases_to!(s@ => s@[i as int]));
        collect_stmt(acc, &s[i], indexes);
        i = i + 1;
    }
    assert(all.take(all.len() as int) =~= all);
}

fn collect_block(acc: &mut HashSet<usize>, s: &Vec<Stmt>, indexes: &NameMap<usize>)
    ensures
        final(acc)@ == calls_in_block(old(acc)@, stmts_view(s@), indexes@),
    decreases s@,
{
    let ghost all = stmts_view(s@);
    let ghost start = acc@;
    let mut scoped = indexes.clone();
    let mut i: usize = 0;
    assert(all.take(0) =~= Seq::empty());
    while i < s.len()
        invariant
            i <= s.len(),
            all == stmts_view(s@),
            start == old(acc)@,
            scoped@ == without_stmts(indexes@, all.take(i as int)),
            acc@ == calls_in_block(start, all.take(i as int), indexes@),
        decreases s.len() - i,
    {
        proof {
            assert(all.take(i + 1).drop_last() =~= all.take(i as int));
            assert(all.take(i + 1).last() == stmt_view(s@[i as int]));
            assert(decreases_to!(s@ => s@[i as int]));
        }
        collect_stmt(acc, &s[i], &scoped);
        remove_stmt_value_bindings(&mut scoped, &s[i]);
        i = i + 1;
    }
    assert(all.take(all.len() as int) =~= all);
}

fn collect_stmt(acc: &mut HashSet<usize>, stmt: &Stmt, indexes: &NameMap<usize>)
    ensures
        final(acc)@ == calls_in_stmt(old(acc)@, stmt@, indexes@),
    decreases *stmt,
{
    match stmt {
        Stmt::Let { value, .. } => collect_expr(acc, value, indexes),
        Stmt::Expr(e) => collect_expr(acc, e, indexes),
        Stmt::TestBlock { stmts, .. } => collect_stmts(acc, stmts, indexes),
        Stmt::RecBlock { stmts, .. } => collect_stmts(acc, stmts, indexes),
        _ => {},
    }
}

/// The indexes of the functions that `expr` calls by a name that nothing
/// between shadows.
pub fn collect_unshadowed_direct_call_targets(
    expr: &Expr,
    indexes: &NameMap<usize>,
) -> (r: HashSet<usize>)
    ensures
        r@ == calls_in(Set::empty(), expr@, indexes@),
{
    let mut targets: HashSet<usize> = HashSet::new();
    collect_expr(&mut targets, expr, indexes);
    targets
}

} // verus!
