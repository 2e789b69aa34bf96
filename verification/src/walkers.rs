//! Walks over syntax trees: which expressions leave, which names they bind, and
//! which calls pass dictionaries on to the function that they stand in.

use vstd::prelude::*;

use crate::ast::{ArrayEntry, BinOp, DictRef, Expr, ExprKind, MatchArm, Param, Pattern};
use crate::ast::{PatternField, RecordEntry, RestName, Stmt, SyntaxCaptureInfo};
use crate::ast_copy::clone_dict_refs;
use crate::ast_view::{array_entries_view, array_entry_view, bin_op_view, boxed_expr_view};
use crate::ast_view::{boxed_pattern_view, dict_refs_view, expr_view, exprs_view};
use crate::ast_view::{match_arm_view, match_arms_view, open_rest_name_view, param_view};
use crate::ast_view::{params_view, pattern_field_view, pattern_fields_view, pattern_view};
use crate::ast_view::{patterns_view, pending_dict_args_view, record_entries_view};
use crate::ast_view::{record_entry_view, rest_name_view, stmt_view, stmts_view};
use crate::ast_view::{syntax_captures_view, ArrayEntryV, DictRefV, ExprKindV, ExprV};
use crate::ast_view::{MatchArmV, ParamV, PatternFieldV, PatternV, RecordEntryV, RestNameV};
use crate::ast_view::StmtV;
use crate::patterns::some_captures;
use crate::text::str_eq;

verus! {

/// The name at the base of what an assignment changes.
pub open spec fn assignment_base(e: ExprV) -> Option<Seq<char>>
    decreases e,
{
    match e.kind {
        ExprKindV::Grouped(x) => assignment_base(*x),
        ExprKindV::FieldAccess { expr, .. } => assignment_base(*expr),
        ExprKindV::Ident(name) => Some(name),
        _ => None,
    }
}

/// The name at the base of what an assignment changes.
pub fn find_assignment_base_name(e: &Expr) -> (r: Option<String>)
    ensures
        match (r, assignment_base(e@)) {
            (Some(a), Some(b)) => a@ == b,
            (None, None) => true,
            _ => false,
        },
    decreases *e,
{
    match &e.kind {
        ExprKind::Grouped(x) => find_assignment_base_name(x),
        ExprKind::FieldAccess { expr, .. } => find_assignment_base_name(expr),
        ExprKind::Ident(name) => Some(name.clone()),
        _ => None,
    }
}

// ---------------------------------------------------------------------------
// Leaving
// ---------------------------------------------------------------------------

/// Whether an expression always leaves the function, or, if `include_bc`, the
/// function or the loop around it.
pub open spec fn leaves(e: ExprV, include_bc: bool) -> bool
    decreases e,
{
    match e.kind {
        ExprKindV::Return(_) => true,
        ExprKindV::Break(_) => include_bc,
        ExprKindV::Continue => include_bc,
        ExprKindV::Grouped(x) => leaves(*x, include_bc),
        ExprKindV::Not(x) => leaves(*x, include_bc),
        ExprKindV::FieldAccess { expr, .. } => leaves(*expr, include_bc),
        ExprKindV::Binary { lhs, rhs, .. } => leaves(*lhs, include_bc) || leaves(*rhs, include_bc),
        ExprKindV::Assign { target, value } => leaves(*target, include_bc) || leaves(
            *value,
            include_bc,
        ),
        ExprKindV::Call { callee, args, .. } => leaves(*callee, include_bc) || some_leaves(
            args,
            include_bc,
        ),
        ExprKindV::Tuple(items) => some_leaves(items, include_bc),
        ExprKindV::Array(entries) => some_entry_leaves(entries, include_bc),
        ExprKindV::Record(entries) => some_field_leaves(entries, include_bc),
        ExprKindV::If { cond, then_branch, else_branch } => leaves(*cond, include_bc) || (leaves(
            *then_branch,
            include_bc,
        ) && leaves(*else_branch, include_bc)),
        ExprKindV::Match { scrutinee, arms } => leaves(*scrutinee, include_bc) || (arms.len() > 0
            && all_arms_leave(arms, include_bc)),
        ExprKindV::Block { stmts, final_expr } => some_stmt_leaves(stmts, include_bc) || (match final_expr {
            Some(x) => leaves(*x, include_bc),
            None => false,
        }),
        ExprKindV::Loop(body) => leaves(*body, false),
        ExprKindV::For { iterable, .. } => leaves(*iterable, include_bc),
        _ => false,
    }
}

pub open spec fn some_leaves(s: Seq<ExprV>, include_bc: bool) -> bool
    decreases s,
{
    exists|i: int| 0 <= i < s.len() && leaves(#[trigger] s[i], include_bc)
}

pub open spec fn all_arms_leave(s: Seq<MatchArmV>, include_bc: bool) -> bool
    decreases s,
{
    forall|i: int| 0 <= i < s.len() ==> leaves((#[trigger] s[i]).body, include_bc)
}

pub open spec fn some_entry_leaves(s: Seq<ArrayEntryV>, include_bc: bool) -> bool
    decreases s,
{
    exists|i: int| 0 <= i < s.len() && match (#[trigger] s[i]) {
        ArrayEntryV::Elem(x) => leaves(x, include_bc),
        ArrayEntryV::Spread(x) => leaves(x, include_bc),
    }
}

pub open spec fn some_field_leaves(s: Seq<RecordEntryV>, include_bc: bool) -> bool
    decreases s,
{
    exists|i: int| 0 <= i < s.len() && match (#[trigger] s[i]) {
        RecordEntryV::Field(_, x) => leaves(x, include_bc),
        RecordEntryV::Spread(x) => leaves(x, include_bc),
    }
}

pub open spec fn some_stmt_leaves(s: Seq<StmtV>, include_bc: bool) -> bool
    decreases s,
{
    exists|i: int| 0 <= i < s.len() && stmt_leaves(#[trigger] s[i], include_bc)
}

/// Whether a statement always leaves.
pub open spec fn stmt_leaves(stmt: StmtV, include_bc: bool) -> bool
    decreases stmt,
{
    match stmt {
        StmtV::Expr(e) => leaves(e, include_bc),
        StmtV::Let { value, .. } => leaves(value, include_bc),
        _ => false,
    }
}

/// Whether an expression always leaves the function, or, if `include_bc`, the
/// function or the loop around it.
pub fn expr_always_exits(e: &Expr, include_bc: bool) -> (r: bool)
    ensures
        r == leaves(e@, include_bc),
    decreases *e,
{
    match &e.kind {
        ExprKind::Return(_) => true,
        ExprKind::Break(_) => include_bc,
        ExprKind::Continue => include_bc,
        ExprKind::Grouped(x) => expr_always_exits(x, include_bc),
        ExprKind::Not(x) => expr_always_exits(x, include_bc),
        ExprKind::FieldAccess { expr, .. } => expr_always_exits(expr, include_bc),
        ExprKind::Binary { lhs, rhs, .. } => expr_always_exits(lhs, include_bc)
            || expr_always_exits(rhs, include_bc),
        ExprKind::Assign { target, value } => expr_always_exits(target, include_bc)
            || expr_always_exits(value, include_bc),
        ExprKind::Call { callee, args, .. } => expr_always_exits(callee, include_bc) || any_exits(
            args,
            include_bc,
        ),
        ExprKind::Tuple(items) => any_exits(items, include_bc),
        ExprKind::Array(entries) => any_entry_exits(entries, include_bc),
        ExprKind::Record(entries) => any_field_exits(entries, include_bc),
        ExprKind::If { cond, then_branch, else_branch } => expr_always_exits(cond, include_bc) || (
        expr_always_exits(then_branch, include_bc) && expr_always_exits(else_branch, include_bc)),
        ExprKind::Match { scrutinee, arms } => {
            assert(match_arms_view(arms@).len() == arms@.len());
            expr_always_exits(scrutinee, include_bc) || (arms.len() > 0 && all_arms_exit(
                arms,
                include_bc,
            ))
        },
        ExprKind::Block { stmts, final_expr } => any_stmt_exits(stmts, include_bc) || (match final_expr {
            Some(x) => {
                assert(boxed_expr_view(*final_expr) == Some(Box::new(expr_view(**x))));
                expr_always_exits(x, include_bc)
            },
            None => false,
        }),
        ExprKind::Loop(body) => expr_always_exits(body, false),
        ExprKind::For { iterable, .. } => expr_always_exits(iterable, include_bc),
        _ => false,
    }
}

fn any_exits(s: &Vec<Expr>, include_bc: bool) -> (r: bool)
    ensures
        r == some_leaves(exprs_view(s@), include_bc),
    decreases s@,
{
    let ghost all = exprs_view(s@);
    let mut i: usize = 0;
    while i < s.len()
        invariant
            i <= s.len(),
            all == exprs_view(s@),
            forall|j: int| 0 <= j < i ==> !(leaves(#[trigger] all[j], include_bc)),
        decreases s.len() - i,
    {
        assert(all[i as int] == expr_view(s@[i as int]));
        assert(decreases_to!(s@ => s@[i as int]));
        if expr_always_exits(&s[i], include_bc) {
            return true;
        }
        i = i + 1;
    }
    false
}

fn all_arms_exit(s: &Vec<MatchArm>, include_bc: bool) -> (r: bool)
    ensures
        r == all_arms_leave(match_arms_view(s@), include_bc),
    decreases s@,
{
    let ghost all = match_arms_view(s@);
    let mut i: usize = 0;
    while i < s.len()
        invariant
            i <= s.len(),
            all == match_arms_view(s@),
            forall|j: int| 0 <= j < i ==> leaves((#[trigger] all[j]).body, include_bc),
        decreases s.len() - i,
    {
        assert(all[i as int] == match_arm_view(s@[i as int]));
        assert(decreases_to!(s@ => s@[i as int]));
        assert(decreases_to!(s@[i as int] => s@[i as int].body));
        if !expr_always_exits(&s[i].body, include_bc) {
            return false;
        }
        i = i + 1;
    }
    true
}

fn any_entry_exits(s: &Vec<ArrayEntry>, include_bc: bool) -> (r: bool)
    ensures
        r == some_entry_leaves(array_entries_view(s@), include_bc),
    decreases s@,
{
    let ghost all = array_entries_view(s@);
    let mut i: usize = 0;
    while i < s.len()
        invariant
            i <= s.len(),
            all == array_entries_view(s@),
            forall|j: int| 0 <= j < i ==> !(match (#[trigger] all[j]) {
            ArrayEntryV::Elem(x) => leaves(x, include_bc),
            ArrayEntryV::Spread(x) => leaves(x, include_bc),
        }),
        decreases s.len() - i,
    {
        assert(all[i as int] == array_entry_view(s@[i as int]));
        assert(decreases_to!(s@ => s@[i as int]));
        if (match &s[i] {
            ArrayEntry::Elem(x) => expr_always_exits(x, include_bc),
            ArrayEntry::Spread(x) => expr_always_exits(x, include_bc),
        }) {
            return true;
        }
        i = i + 1;
    }
    false
}

fn any_field_exits(s: &Vec<RecordEntry>, include_bc: bool) -> (r: bool)
    ensures
        r == some_field_leaves(record_entries_view(s@), include_bc),
    decreases s@,
{
    let ghost all = record_entries_view(s@);
    let mut i: usize = 0;
    while i < s.len()
        invariant
            i <= s.len(),
            all == record_entries_view(s@),
            forall|j: int| 0 <= j < i ==> !(match (#[trigger] all[j]) {
            RecordEntryV::Field(_, x) => leaves(x, include_bc),
            RecordEntryV::Spread(x) => leaves(x, include_bc),
        }),
        decreases s.len() - i,
    {
        assert(all[i as int] == record_entry_view(s@[i as int]));
        assert(decreases_to!(s@ => s@[i as int]));
        if (match &s[i] {
            RecordEntry::Field(_, x) => expr_always_exits(x, include_bc),
            RecordEntry::Spread(x) => expr_always_exits(x, include_bc),
        }) {
            return true;
        }
        i = i + 1;
    }
    false
}

fn any_stmt_exits(s: &Vec<Stmt>, include_bc: bool) -> (r: bool)
    ensures
        r == some_stmt_leaves(stmts_view(s@), include_bc),
    decreases s@,
{
    let ghost all = stmts_view(s@);
    let mut i: usize = 0;
    while i < s.len()
        invariant
            i <= s.len(),
            all == stmts_view(s@),
            forall|j: int| 0 <= j < i ==> !(stmt_leaves(#[trigger] all[j], include_bc)),
        decreases s.len() - i,
    {
        assert(all[i as int] == stmt_view(s@[i as int]));
        assert(decreases_to!(s@ => s@[i as int]));
        if stmt_always_exits(&s[i], include_bc) {
            return true;
        }
        i = i + 1;
    }
    false
}

/// Whether a statement always leaves.
pub fn stmt_always_exits(stmt: &Stmt, include_bc: bool) -> (r: bool)
    ensures
        r == stmt_leaves(stmt@, include_bc),
    decreases *stmt,
{
    match stmt {
        Stmt::Expr(e) => expr_always_exits(e, include_bc),
        Stmt::Let { value, .. } => expr_always_exits(value, include_bc),
        _ => false,
    }
}

// ---------------------------------------------------------------------------
// Names
// ---------------------------------------------------------------------------

/// Whether the rest of a pattern is bound to `name`.
pub open spec fn rest_is(rest: Option<Option<RestNameV>>, name: Seq<char>) -> bool {
    match rest {
        Some(Some(r)) => r.name == name,
        _ => false,
    }
}

/// Whether a pattern binds `name`.
pub open spec fn pattern_has_name(pat: PatternV, name: Seq<char>) -> bool
    decreases pat,
{
    match pat {
        PatternV::Variable(bound, _) => bound == name,
        PatternV::Tuple(items) => some_pattern_has_name(items, name),
        PatternV::List { elements, rest } => some_pattern_has_name(elements, name) || rest_is(
            rest,
            name,
        ),
        PatternV::Constructor { binding: Some(binding), .. } => pattern_has_name(*binding, name),
        PatternV::SyntaxQuote(captures) => some_captures(captures, name),
        PatternV::Record { fields, rest } => some_field_has_name(fields, name) || rest_is(
            rest,
            name,
        ),
        _ => false,
    }
}

pub open spec fn some_pattern_has_name(s: Seq<PatternV>, name: Seq<char>) -> bool
    decreases s,
{
    exists|i: int| 0 <= i < s.len() && pattern_has_name(#[trigger] s[i], name)
}

pub open spec fn some_field_has_name(s: Seq<PatternFieldV>, name: Seq<char>) -> bool
    decreases s,
{
    exists|i: int| 0 <= i < s.len() && (#[trigger] s[i]).binding == name
}

pub open spec fn some_param_has_name(s: Seq<ParamV>, name: Seq<char>) -> bool
    decreases s,
{
    exists|i: int| 0 <= i < s.len() && pattern_has_name((#[trigger] s[i]).pat, name)
}

/// Whether a statement binds the value `name`.
pub open spec fn stmt_has_name(stmt: StmtV, name: Seq<char>) -> bool {
    match stmt {
        StmtV::Let { pat, .. } => pattern_has_name(pat, name),
        StmtV::Fn(def) => def.name == name,
        StmtV::Op(def) => def.name == name,
        StmtV::Extern { name: bound, .. } => bound == name,
        _ => false,
    }
}

/// Whether an expression is the name `name`, in brackets or not.
pub open spec fn is_ident(e: ExprV, name: Seq<char>) -> bool
    decreases e,
{
    match e.kind {
        ExprKindV::Ident(ident) => ident == name,
        ExprKindV::Grouped(inner) => is_ident(*inner, name),
        _ => false,
    }
}

fn rest_binds_name(rest: &Option<Option<RestName>>, name: &str) -> (r: bool)
    ensures
        r == rest_is(open_rest_name_view(*rest), name@),
{
    match rest {
        Some(Some(bound)) => {
            assert(open_rest_name_view(*rest) == Some(Some(rest_name_view(*bound))));
            str_eq(bound.name.as_str(), name)
        },
        _ => false,
    }
}

/// Whether a pattern binds `name`.
pub fn pattern_binds_name(pat: &Pattern, name: &str) -> (r: bool)
    ensures
        r == pattern_has_name(pat@, name@),
    decreases *pat,
{
    match pat {
        Pattern::Variable(bound, _) => str_eq(bound.as_str(), name),
        Pattern::SyntaxQuote(captures) => any_capture_is(captures, name),
        Pattern::Tuple(items) => any_pattern_binds_name(items, name),
        Pattern::List { elements, rest } => any_pattern_binds_name(elements, name)
            || rest_binds_name(rest, name),
        Pattern::Constructor { binding: Some(binding), .. } => {
            assert(boxed_pattern_view(Some(*binding)) == Some(Box::new(pattern_view(**binding))));
            pattern_binds_name(binding, name)
        },
        Pattern::Record { fields, rest } => any_field_binds_name(fields, name) || rest_binds_name(
            rest,
            name,
        ),
        _ => false,
    }
}

fn any_capture_is(s: &Vec<SyntaxCaptureInfo>, name: &str) -> (r: bool)
    ensures
        r == some_captures(syntax_captures_view(s@), name@),
{
    let ghost all = syntax_captures_view(s@);
    let mut i: usize = 0;
    while i < s.len()
        invariant
            i <= s.len(),
            all == syntax_captures_view(s@),
            forall|k: int| 0 <= k < i ==> (#[trigger] all[k]).name != name@,
        decreases s.len() - i,
    {
        assert(all[i as int].name == s@[i as int].name@);
        if str_eq(s[i].name.as_str(), name) {
            return true;
        }
        i = i + 1;
    }
    false
}

fn any_pattern_binds_name(s: &Vec<Pattern>, name: &str) -> (r: bool)
    ensures
        r == some_pattern_has_name(patterns_view(s@), name@),
    decreases s@,
{
    let ghost all = patterns_view(s@);
    let mut i: usize = 0;
    while i < s.len()
        invariant
            i <= s.len(),
            all == patterns_view(s@),
            forall|j: int| 0 <= j < i ==> !(pattern_has_name(#[trigger] all[j], name@)),
        decreases s.len() - i,
    {
        assert(all[i as int] == pattern_view(s@[i as int]));
        assert(decreases_to!(s@ => s@[i as int]));
        if pattern_binds_name(&s[i], name) {
            return true;
        }
        i = i + 1;
    }
    false
}

fn any_field_binds_name(s: &Vec<PatternField>, name: &str) -> (r: bool)
    ensures
        r == some_field_has_name(pattern_fields_view(s@), name@),
    decreases s@,
{
    let ghost all = pattern_fields_view(s@);
    let mut i: usize = 0;
    while i < s.len()
        invariant
            i <= s.len(),
            all == pattern_fields_view(s@),
            forall|j: int| 0 <= j < i ==> !((#[trigger] all[j]).binding == name@),
        decreases s.len() - i,
    {
        assert(all[i as int] == pattern_field_view(s@[i as int]));
        if str_eq(s[i].binding.as_str(), name) {
            return true;
        }
        i = i + 1;
    }
    false
}

fn any_param_binds_name(s: &Vec<Param>, name: &str) -> (r: bool)
    ensures
        r == some_param_has_name(params_view(s@), name@),
    decreases s@,
{
    let ghost all = params_view(s@);
    let mut i: usize = 0;
    while i < s.len()
        invariant
            i <= s.len(),
            all == params_view(s@),
            forall|j: int| 0 <= j < i ==> !(pattern_has_name((#[trigger] all[j]).pat, name@)),
        decreases s.len() - i,
    {
        assert(all[i as int] == param_view(s@[i as int]));
        if pattern_binds_name(&s[i].pat, name) {
            return true;
        }
        i = i + 1;
    }
    false
}

/// Whether a statement binds the value `name`.
pub fn stmt_binds_name(stmt: &Stmt, name: &str) -> (r: bool)
    ensures
        r == stmt_has_name(stmt@, name@),
{
    match stmt {
        Stmt::Let { pat, .. } => pattern_binds_name(pat, name),
        Stmt::Fn(def) => str_eq(def.name.as_str(), name),
        Stmt::Op(def) => str_eq(def.name.as_str(), name),
        Stmt::Extern { name: bound, .. } => str_eq(bound.as_str(), name),
        _ => false,
    }
}

/// Whether an expression is the name `name`, in brackets or not.
pub fn expr_is_ident(e: &Expr, name: &str) -> (r: bool)
    ensures
        r == is_ident(e@, name@),
    decreases *e,
{
    match &e.kind {
        ExprKind::Ident(ident) => str_eq(ident.as_str(), name),
        ExprKind::Grouped(inner) => expr_is_ident(inner, name),
        _ => false,
    }
}

// ---------------------------------------------------------------------------
// Recursive calls
// ---------------------------------------------------------------------------

/// `e` with the dictionaries `dicts` passed on by each call of `name` that
/// passes none yet and whose name nothing shadows.
pub open spec fn pass_on(e: ExprV, name: Seq<char>, dicts: Seq<DictRefV>) -> ExprV
    decreases e,
{
    ExprV { id: e.id, span: e.span, kind: pass_on_kind(e.kind, name, dicts) }
}

pub open spec fn pass_on_kind(k: ExprKindV, name: Seq<char>, dicts: Seq<DictRefV>) -> ExprKindV
    decreases k,
{
    match k {
        ExprKindV::Grouped(x) => ExprKindV::Grouped(Box::new(pass_on(*x, name, dicts))),
        ExprKindV::Not(x) => ExprKindV::Not(Box::new(pass_on(*x, name, dicts))),
        ExprKindV::Neg { operand, resolved_op, pending_op } => ExprKindV::Neg {
            operand: Box::new(pass_on(*operand, name, dicts)),
            resolved_op,
            pending_op,
        },
        ExprKindV::Loop(x) => ExprKindV::Loop(Box::new(pass_on(*x, name, dicts))),
        ExprKindV::Break(x) => ExprKindV::Break(pass_on_optional(x, name, dicts)),
        ExprKindV::Return(x) => ExprKindV::Return(pass_on_optional(x, name, dicts)),
        ExprKindV::FieldAccess { expr, field } => ExprKindV::FieldAccess {
            expr: Box::new(pass_on(*expr, name, dicts)),
            field,
        },
        ExprKindV::Assign { target, value } => ExprKindV::Assign {
            target: Box::new(pass_on(*target, name, dicts)),
            value: Box::new(pass_on(*value, name, dicts)),
        },
        ExprKindV::Binary { lhs, op, rhs, resolved_op, pending_op, dict_args, pending_dict_args } => {
            ExprKindV::Binary {
                lhs: Box::new(pass_on(*lhs, name, dicts)),
                op,
                rhs: Box::new(pass_on(*rhs, name, dicts)),
                resolved_op,
                pending_op,
                dict_args: if op is Pipe && is_ident(*rhs, name) && dict_args.len() == 0
                    && pending_dict_args.len() == 0 {
                    dicts
                } else {
                    dict_args
                },
                pending_dict_args,
            }
        },
        ExprKindV::Range { start, end, inclusive } => ExprKindV::Range {
            start: pass_on_optional(start, name, dicts),
            end: pass_on_optional(end, name, dicts),
            inclusive,
        },
        ExprKindV::Call {
            callee,
            args,
            is_method_call,
            arg_wrappers,
            resolved_callee,
            pending_trait_method,
            dict_args,
            pending_dict_args,
        } => ExprKindV::Call {
            callee: Box::new(pass_on(*callee, name, dicts)),
            args: pass_on_exprs(args, name, dicts),
            is_method_call,
            arg_wrappers,
            resolved_callee,
            pending_trait_method,
            dict_args: if !is_method_call && is_ident(*callee, name) && dict_args.len() == 0
                && pending_dict_args.len() == 0 {
                dicts
            } else {
                dict_args
            },
            pending_dict_args,
        },
        ExprKindV::If { cond, then_branch, else_branch } => ExprKindV::If {
            cond: Box::new(pass_on(*cond, name, dicts)),
            then_branch: Box::new(pass_on(*then_branch, name, dicts)),
            else_branch: Box::new(pass_on(*else_branch, name, dicts)),
        },
        ExprKindV::Lambda { params, return_type, body, dict_params } => ExprKindV::Lambda {
            params,
            return_type,
            body: if some_param_has_name(params, name) {
                body
            } else {
                Box::new(pass_on(*body, name, dicts))
            },
            dict_params,
        },
        ExprKindV::Match { scrutinee, arms } => ExprKindV::Match {
            scrutinee: Box::new(pass_on(*scrutinee, name, dicts)),
            arms: pass_on_arms(arms, name, dicts),
        },
        ExprKindV::Tuple(items) => ExprKindV::Tuple(pass_on_exprs(items, name, dicts)),
        ExprKindV::Array(entries) => ExprKindV::Array(pass_on_array_entries(entries, name, dicts)),
        ExprKindV::Record(entries) => ExprKindV::Record(
            pass_on_record_entries(entries, name, dicts),
        ),
        ExprKindV::Index {
            receiver,
            key,
            resolved_callee,
            pending_trait_method,
            dict_args,
            pending_dict_args,
        } => ExprKindV::Index {
            receiver: Box::new(pass_on(*receiver, name, dicts)),
            key: Box::new(pass_on(*key, name, dicts)),
            resolved_callee,
            pending_trait_method,
            dict_args,
            pending_dict_args,
        },
        ExprKindV::For { pat, iterable, body, resolved_iter, pending_iter } => ExprKindV::For {
            pat,
            iterable: Box::new(pass_on(*iterable, name, dicts)),
            body: if pattern_has_name(pat, name) {
                body
            } else {
                Box::new(pass_on(*body, name, dicts))
            },
            resolved_iter,
            pending_iter,
        },
        ExprKindV::Block { stmts, final_expr } => ExprKindV::Block {
            stmts: pass_on_block(stmts, name, dicts),
            final_expr: if some_stmt_has_name(stmts, name) {
                final_expr
            } else {
                pass_on_optional(final_expr, name, dicts)
            },
        },
        _ => k,
    }
}

pub open spec fn pass_on_optional(
    e: Option<Box<ExprV>>,
    name: Seq<char>,
    dicts: Seq<DictRefV>,
) -> Option<Box<ExprV>>
    decreases e,
{
    match e {
        Some(x) => Some(Box::new(pass_on(*x, name, dicts))),
        None => None,
    }
}

/// Whether one of the statements binds `name`.
pub open spec fn some_stmt_has_name(s: Seq<StmtV>, name: Seq<char>) -> bool {
    exists|i: int| 0 <= i < s.len() && stmt_has_name(#[trigger] s[i], name)
}

pub open spec fn pass_on_exprs(s: Seq<ExprV>, name: Seq<char>, dicts: Seq<DictRefV>) -> Seq<ExprV>
    decreases s,
{
    Seq::new(
        s.len(),
        |i: int|
            if 0 <= i < s.len() {
                pass_on(s[i], name, dicts)
            } else {
                arbitrary()
            },
    )
}

pub open spec fn pass_on_arms(s: Seq<MatchArmV>, name: Seq<char>, dicts: Seq<DictRefV>) -> Seq<MatchArmV>
    decreases s,
{
    Seq::new(
        s.len(),
        |i: int|
            if 0 <= i < s.len() {
                if pattern_has_name(s[i].pattern, name) {
                    s[i]
                } else {
                    MatchArmV { pattern: s[i].pattern, body: pass_on(s[i].body, name, dicts) }
                }
            } else {
                arbitrary()
            },
    )
}

pub open spec fn pass_on_array_entries(s: Seq<ArrayEntryV>, name: Seq<char>, dicts: Seq<DictRefV>) -> Seq<ArrayEntryV>
    decreases s,
{
    Seq::new(
        s.len(),
        |i: int|
            if 0 <= i < s.len() {
                pass_on_array_entry(s[i], name, dicts)
            } else {
                arbitrary()
            },
    )
}

pub open spec fn pass_on_record_entries(s: Seq<RecordEntryV>, name: Seq<char>, dicts: Seq<DictRefV>) -> Seq<RecordEntryV>
    decreases s,
{
    Seq::new(
        s.len(),
        |i: int|
            if 0 <= i < s.len() {
                pass_on_record_entry(s[i], name, dicts)
            } else {
                arbitrary()
            },
    )
}

pub open spec fn pass_on_array_entry(
    e: ArrayEntryV,
    name: Seq<char>,
    dicts: Seq<DictRefV>,
) -> ArrayEntryV
    decreases e,
{
    match e {
        ArrayEntryV::Elem(x) => ArrayEntryV::Elem(pass_on(x, name, dicts)),
        ArrayEntryV::Spread(x) => ArrayEntryV::Spread(pass_on(x, name, dicts)),
    }
}

pub open spec fn pass_on_record_entry(
    e: RecordEntryV,
    name: Seq<char>,
    dicts: Seq<DictRefV>,
) -> RecordEntryV
    decreases e,
{
    match e {
        RecordEntryV::Field(field, x) => RecordEntryV::Field(field, pass_on(x, name, dicts)),
        RecordEntryV::Spread(x) => RecordEntryV::Spread(pass_on(x, name, dicts)),
    }
}

pub open spec fn pass_on_stmts(s: Seq<StmtV>, name: Seq<char>, dicts: Seq<DictRefV>) -> Seq<StmtV>
    decreases s,
{
    Seq::new(
        s.len(),
        |i: int|
            if 0 <= i < s.len() {
                pass_on_stmt(s[i], name, dicts)
            } else {
                arbitrary()
            },
    )
}

/// The statements of a block: those after one that binds `name` are left alone.
pub open spec fn pass_on_block(s: Seq<StmtV>, name: Seq<char>, dicts: Seq<DictRefV>) -> Seq<StmtV>
    decreases s,
{
    Seq::new(
        s.len(),
        |i: int|
            if 0 <= i < s.len() {
                if some_stmt_has_name(s.take(i), name) {
                    s[i]
                } else {
                    pass_on_stmt(s[i], name, dicts)
                }
            } else {
                arbitrary()
            },
    )
}

pub open spec fn pass_on_stmt(stmt: StmtV, name: Seq<char>, dicts: Seq<DictRefV>) -> StmtV
    decreases stmt,
{
    match stmt {
        StmtV::Let { pat, is_mutable, ty, value, span } => StmtV::Let {
            pat,
            is_mutable,
            ty,
            value: pass_on(value, name, dicts),
            span,
        },
        StmtV::Expr(e) => StmtV::Expr(pass_on(e, name, dicts)),
        StmtV::TestBlock { stmts, span } => StmtV::TestBlock {
            stmts: pass_on_stmts(stmts, name, dicts),
            span,
        },
        StmtV::RecBlock { stmts, span } => StmtV::RecBlock {
            stmts: pass_on_stmts(stmts, name, dicts),
            span,
        },
        _ => stmt,
    }
}

/// Passes the dictionaries `dicts` on in each call of `name` in `e` that passes
/// none yet and whose name nothing shadows.
#[verifier::spinoff_prover]
#[verifier::rlimit(80)]
pub fn attach_owned_dicts_to_recursive_self_calls_inner(
    e: &mut Expr,
    name: &str,
    dicts: &Vec<DictRef>,
)
    ensures
        final(e)@ == pass_on(old(e)@, name@, dict_refs_view(dicts@)),
    decreases *old(e),
{
    match &mut e.kind {
        ExprKind::Grouped(x) => {
            attach_owned_dicts_to_recursive_self_calls_inner(x, name, dicts);
        },
        ExprKind::Not(x) => {
            attach_owned_dicts_to_recursive_self_calls_inner(x, name, dicts);
        },
        ExprKind::Neg { operand, .. } => {
            attach_owned_dicts_to_recursive_self_calls_inner(operand, name, dicts);
        },
        ExprKind::Loop(x) => {
            attach_owned_dicts_to_recursive_self_calls_inner(x, name, dicts);
        },
        ExprKind::Break(x) => {
            attach_in_optional(x, name, dicts);
        },
        ExprKind::Return(x) => {
            attach_in_optional(x, name, dicts);
        },
        ExprKind::FieldAccess { expr, .. } => {
            attach_owned_dicts_to_recursive_self_calls_inner(expr, name, dicts);
        },
        ExprKind::Assign { target, value } => {
            attach_owned_dicts_to_recursive_self_calls_inner(target, name, dicts);
            attach_owned_dicts_to_recursive_self_calls_inner(value, name, dicts);
        },
        ExprKind::Binary { lhs, op, rhs, dict_args, pending_dict_args, .. } => {
            assert(dict_refs_view(dict_args@).len() == dict_args@.len());
            assert(pending_dict_args_view(pending_dict_args@).len() == pending_dict_args@.len());
            assert((*op is Pipe) == (bin_op_view(*op) is Pipe));
            if matches!(op, BinOp::Pipe) && expr_is_ident(rhs, name) && dict_args.len() == 0
                && pending_dict_args.len() == 0 {
                *dict_args = clone_dict_refs(dicts);
            }
            attach_owned_dicts_to_recursive_self_calls_inner(lhs, name, dicts);
            attach_owned_dicts_to_recursive_self_calls_inner(rhs, name, dicts);
        },
        ExprKind::Range { start, end, .. } => {
            attach_in_optional(start, name, dicts);
            attach_in_optional(end, name, dicts);
        },
        ExprKind::Call { callee, args, is_method_call, dict_args, pending_dict_args, .. } => {
            assert(dict_refs_view(dict_args@).len() == dict_args@.len());
            assert(pending_dict_args_view(pending_dict_args@).len() == pending_dict_args@.len());
            if !*is_method_call && expr_is_ident(callee, name) && dict_args.len() == 0
                && pending_dict_args.len() == 0 {
                *dict_args = clone_dict_refs(dicts);
            }
            attach_owned_dicts_to_recursive_self_calls_inner(callee, name, dicts);
            attach_in_exprs(args, name, dicts);
        },
        ExprKind::If { cond, then_branch, else_branch } => {
            attach_owned_dicts_to_recursive_self_calls_inner(cond, name, dicts);
            attach_owned_dicts_to_recursive_self_calls_inner(then_branch, name, dicts);
            attach_owned_dicts_to_recursive_self_calls_inner(else_branch, name, dicts);
        },
        ExprKind::Lambda { params, body, .. } => {
            if !any_param_binds_name(params, name) {
                attach_owned_dicts_to_recursive_self_calls_inner(body, name, dicts);
            }
        },
        ExprKind::Match { scrutinee, arms } => {
            attach_owned_dicts_to_recursive_self_calls_inner(scrutinee, name, dicts);
            attach_in_arms(arms, name, dicts);
        },
        ExprKind::Tuple(items) => {
            attach_in_exprs(items, name, dicts);
        },
        ExprKind::Array(entries) => {
            attach_in_array_entries(entries, name, dicts);
        },
        ExprKind::Record(entries) => {
            attach_in_record_entries(entries, name, dicts);
        },
        ExprKind::Index { receiver, key, .. } => {
            attach_owned_dicts_to_recursive_self_calls_inner(receiver, name, dicts);
            attach_owned_dicts_to_recursive_self_calls_inner(key, name, dicts);
        },
        ExprKind::For { pat, iterable, body, .. } => {
            attach_owned_dicts_to_recursive_self_calls_inner(iterable, name, dicts);
            if !pattern_binds_name(pat, name) {
                attach_owned_dicts_to_recursive_self_calls_inner(body, name, dicts);
            }
        },
        ExprKind::Block { stmts, final_expr } => {
            let shadowed = attach_in_block(stmts, name, dicts);
            if !shadowed {
                attach_in_optional(final_expr, name, dicts);
            }
        },
        _ => {},
    }
}

fn attach_in_optional(e: &mut Option<Box<Expr>>, name: &str, dicts: &Vec<DictRef>)
    ensures
        boxed_expr_view(*final(e)) == pass_on_optional(
            boxed_expr_view(*old(e)),
            name@,
            dict_refs_view(dicts@),
        ),
    decreases *old(e),
{
    if let Some(x) = e {
        attach_owned_dicts_to_recursive_self_calls_inner(x, name, dicts);
    }
}

fn attach_in_exprs(s: &mut Vec<Expr>, name: &str, dicts: &Vec<DictRef>)
    ensures
        exprs_view(final(s)@) == pass_on_exprs(exprs_view(old(s)@), name@, dict_refs_view(dicts@)),
        final(s)@.len() == old(s)@.len(),
    decreases old(s)@,
{
    let ghost start = s@;
    let ghost all = exprs_view(start);
    let ghost want = pass_on_exprs(all, name@, dict_refs_view(dicts@));
    let mut i: usize = 0;
    while i < s.len()
        invariant
            i <= s.len(),
            s.len() == start.len(),
            start == old(s)@,
            all == exprs_view(start),
            want == pass_on_exprs(all, name@, dict_refs_view(dicts@)),
            forall|j: int| 0 <= j < i ==> expr_view(#[trigger] s@[j]) == want[j],
            forall|j: int| i <= j < start.len() ==> #[trigger] s@[j] == start[j],
        decreases s.len() - i,
    {
        assert(all[i as int] == expr_view(start[i as int]));
        assert(decreases_to!(start => start[i as int]));
        attach_owned_dicts_to_recursive_self_calls_inner(&mut s[i], name, dicts);
        i = i + 1;
    }
    assert(exprs_view(s@) =~= want);
}

fn attach_in_arms(s: &mut Vec<MatchArm>, name: &str, dicts: &Vec<DictRef>)
    ensures
        match_arms_view(final(s)@) == pass_on_arms(match_arms_view(old(s)@), name@, dict_refs_view(dicts@)),
        final(s)@.len() == old(s)@.len(),
    decreases old(s)@,
{
    let ghost start = s@;
    let ghost all = match_arms_view(start);
    let ghost want = pass_on_arms(all, name@, dict_refs_view(dicts@));
    let mut i: usize = 0;
    while i < s.len()
        invariant
            i <= s.len(),
            s.len() == start.len(),
            start == old(s)@,
            all == match_arms_view(start),
            want == pass_on_arms(all, name@, dict_refs_view(dicts@)),
            forall|j: int| 0 <= j < i ==> match_arm_view(#[trigger] s@[j]) == want[j],
            forall|j: int| i <= j < start.len() ==> #[trigger] s@[j] == start[j],
        decreases s.len() - i,
    {
        assert(all[i as int] == match_arm_view(start[i as int]));
        assert(decreases_to!(start => start[i as int]));
        assert(decreases_to!(start[i as int] => start[i as int].body));
        if !pattern_binds_name(&s[i].pattern, name) {
            let arm = &mut s[i];
            attach_owned_dicts_to_recursive_self_calls_inner(&mut arm.body, name, dicts);
        };
        i = i + 1;
    }
    assert(match_arms_view(s@) =~= want);
}

fn attach_in_array_entries(s: &mut Vec<ArrayEntry>, name: &str, dicts: &Vec<DictRef>)
    ensures
        array_entries_view(final(s)@) == pass_on_array_entries(array_entries_view(old(s)@), name@, dict_refs_view(dicts@)),
        final(s)@.len() == old(s)@.len(),
    decreases old(s)@,
{
    let ghost start = s@;
    let ghost all = array_entries_view(start);
    let ghost want = pass_on_array_entries(all, name@, dict_refs_view(dicts@));
    let mut i: usize = 0;
    while i < s.len()
        invariant
            i <= s.len(),
            s.len() == start.len(),
            start == old(s)@,
            all == array_entries_view(start),
            want == pass_on_array_entries(all, name@, dict_refs_view(dicts@)),
            forall|j: int| 0 <= j < i ==> array_entry_view(#[trigger] s@[j]) == want[j],
            forall|j: int| i <= j < start.len() ==> #[trigger] s@[j] == start[j],
        decreases s.len() - i,
    {
        assert(all[i as int] == array_entry_view(start[i as int]));
        assert(decreases_to!(start => start[i as int]));
        match &mut s[i] {
            ArrayEntry::Elem(x) => attach_owned_dicts_to_recursive_self_calls_inner(x, name, dicts),
            ArrayEntry::Spread(x) => attach_owned_dicts_to_recursive_self_calls_inner(x, name, dicts),
        };
        i = i + 1;
    }
    assert(array_entries_view(s@) =~= want);
}

fn attach_in_record_entries(s: &mut Vec<RecordEntry>, name: &str, dicts: &Vec<DictRef>)
    ensures
        record_entries_view(final(s)@) == pass_on_record_entries(record_entries_view(old(s)@), name@, dict_refs_view(dicts@)),
        final(s)@.len() == old(s)@.len(),
    decreases old(s)@,
{
    let ghost start = s@;
    let ghost all = record_entries_view(start);
    let ghost want = pass_on_record_entries(all, name@, dict_refs_view(dicts@));
    let mut i: usize = 0;
    while i < s.len()
        invariant
            i <= s.len(),
            s.len() == start.len(),
            start == old(s)@,
            all == record_entries_view(start),
            want == pass_on_record_entries(all, name@, dict_refs_view(dicts@)),
            forall|j: int| 0 <= j < i ==> record_entry_view(#[trigger] s@[j]) == want[j],
            forall|j: int| i <= j < start.len() ==> #[trigger] s@[j] == start[j],
        decreases s.len() - i,
    {
        assert(all[i as int] == record_entry_view(start[i as int]));
        assert(decreases_to!(start => start[i as int]));
        match &mut s[i] {
            RecordEntry::Field(_, x) => attach_owned_dicts_to_recursive_self_calls_inner(x, name, dicts),
            RecordEntry::Spread(x) => attach_owned_dicts_to_recursive_self_calls_inner(x, name, dicts),
        };
        i = i + 1;
    }
    assert(record_entries_view(s@) =~= want);
}

fn attach_in_stmts(s: &mut Vec<Stmt>, name: &str, dicts: &Vec<DictRef>)
    ensures
        stmts_view(final(s)@) == pass_on_stmts(stmts_view(old(s)@), name@, dict_refs_view(dicts@)),
        final(s)@.len() == old(s)@.len(),
    decreases old(s)@,
{
    let ghost start = s@;
    let ghost all = stmts_view(start);
    let ghost want = pass_on_stmts(all, name@, dict_refs_view(dicts@));
    let mut i: usize = 0;
    while i < s.len()
        invariant
            i <= s.len(),
            s.len() == start.len(),
            start == old(s)@,
            all == stmts_view(start),
            want == pass_on_stmts(all, name@, dict_refs_view(dicts@)),
            forall|j: int| 0 <= j < i ==> stmt_view(#[trigger] s@[j]) == want[j],
            forall|j: int| i <= j < start.len() ==> #[trigger] s@[j] == start[j],
        decreases s.len() - i,
    {
        assert(all[i as int] == stmt_view(start[i as int]));
        assert(decreases_to!(start => start[i as int]));
        attach_in_stmt(&mut s[i], name, dicts);
        i = i + 1;
    }
    assert(stmts_view(s@) =~= want);
}

fn attach_in_block(s: &mut Vec<Stmt>, name: &str, dicts: &Vec<DictRef>) -> (shadowed: bool)
    ensures
        stmts_view(final(s)@) == pass_on_block(
            stmts_view(old(s)@),
            name@,
            dict_refs_view(dicts@),
        ),
        shadowed == some_stmt_has_name(stmts_view(old(s)@), name@),
    decreases old(s)@,
{
    let ghost start = s@;
    let ghost all = stmts_view(start);
    let ghost want = pass_on_block(all, name@, dict_refs_view(dicts@));
    let mut shadowed = false;
    let mut i: usize = 0;
    while i < s.len()
        invariant
            i <= s.len(),
            s.len() == start.len(),
            start == old(s)@,
            all == stmts_view(start),
            want == pass_on_block(all, name@, dict_refs_view(dicts@)),
            shadowed == some_stmt_has_name(all.take(i as int), name@),
            forall|j: int| 0 <= j < i ==> stmt_view(#[trigger] s@[j]) == want[j],
            forall|j: int| i <= j < start.len() ==> #[trigger] s@[j] == start[j],
        decreases s.len() - i,
    {
        proof {
            assert(all[i as int] == stmt_view(start[i as int]));
            assert(decreases_to!(start => start[i as int]));
        }
        let binds = stmt_binds_name(&s[i], name);
        if !shadowed {
            attach_in_stmt(&mut s[i], name, dicts);
        }
        proof {
            let next = all.take(i + 1);
            assert(next[i as int] == all[i as int]);
            if shadowed {
                let k = choose|k: int|
                    0 <= k < i && stmt_has_name(#[trigger] all.take(i as int)[k], name@);
                assert(next[k] == all.take(i as int)[k]);
            }
            if some_stmt_has_name(next, name@) && !binds {
                let k = choose|k: int|
                    0 <= k < i + 1 && stmt_has_name(#[trigger] next[k], name@);
                assert(all.take(i as int)[k] == next[k]);
            }
        }
        shadowed = shadowed || binds;
        i = i + 1;
    }
    assert(stmts_view(s@) =~= want);
    assert(all.take(all.len() as int) =~= all);
    shadowed
}

fn attach_in_stmt(stmt: &mut Stmt, name: &str, dicts: &Vec<DictRef>)
    ensures
        final(stmt)@ == pass_on_stmt(old(stmt)@, name@, dict_refs_view(dicts@)),
    decreases *old(stmt),
{
    match stmt {
        Stmt::Let { value, .. } => {
            attach_owned_dicts_to_recursive_self_calls_inner(value, name, dicts);
        },
        Stmt::Expr(e) => {
            attach_owned_dicts_to_recursive_self_calls_inner(e, name, dicts);
        },
        Stmt::TestBlock { stmts, .. } => {
            attach_in_stmts(stmts, name, dicts);
        },
        Stmt::RecBlock { stmts, .. } => {
            attach_in_stmts(stmts, name, dicts);
        },
        _ => {},
    }
}

} // verus!
