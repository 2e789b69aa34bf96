//! Which expressions are values, and which make a place of their own.

use vstd::prelude::*;

use crate::ast::{array_entry_expr, record_entry_expr, ArrayEntry, Expr, ExprKind, RecordEntry};
use crate::ast_view::{array_entries_view, array_entry_view, expr_kind_view, expr_view, exprs_view};
use crate::ast_view::{record_entries_view, record_entry_view, ArrayEntryV, ExprKindV, ExprV};
use crate::ast_view::RecordEntryV;

verus! {

/// Whether an expression is a value: evaluating it does nothing but build it.
pub open spec fn value_expr(e: ExprV) -> bool
    decreases e,
{
    match e.kind {
        ExprKindV::Number(_) => true,
        ExprKindV::StringLit(_) => true,
        ExprKindV::Bool(_) => true,
        ExprKindV::Ident(_) => true,
        ExprKindV::Lambda { .. } => true,
        ExprKindV::Import(_) => true,
        ExprKindV::Unit => true,
        ExprKindV::Tuple(items) => value_exprs(items),
        ExprKindV::Array(entries) => value_array_entries(entries),
        ExprKindV::Record(entries) => value_record_entries(entries),
        _ => false,
    }
}

pub open spec fn value_exprs(s: Seq<ExprV>) -> bool
    decreases s,
{
    forall|i: int| 0 <= i < s.len() ==> value_expr(#[trigger] s[i])
}

pub open spec fn value_array_entries(s: Seq<ArrayEntryV>) -> bool
    decreases s,
{
    forall|i: int|
        0 <= i < s.len() ==> match (#[trigger] s[i]) {
            ArrayEntryV::Elem(x) => value_expr(x),
            ArrayEntryV::Spread(x) => value_expr(x),
        }
}

pub open spec fn value_record_entries(s: Seq<RecordEntryV>) -> bool
    decreases s,
{
    forall|i: int|
        0 <= i < s.len() ==> match (#[trigger] s[i]) {
            RecordEntryV::Field(_, x) => value_expr(x),
            RecordEntryV::Spread(x) => value_expr(x),
        }
}

/// Whether an expression makes a place that nothing else can reach, so that it
/// may be mutated. Elements of an array may be named, fields of a record not.
pub open spec fn fresh_place(e: ExprV) -> bool {
    match e.kind {
        ExprKindV::Array(entries) => fresh_array_entries(entries),
        ExprKindV::Record(entries) => fresh_record_entries(entries),
        _ => false,
    }
}

/// Whether an expression may stand in an array that is a fresh place.
pub open spec fn fresh_element(e: ExprV) -> bool
    decreases e, 1nat,
{
    e.kind is Ident || fresh_component(e)
}

/// Whether an expression may stand in a record that is a fresh place.
pub open spec fn fresh_component(e: ExprV) -> bool
    decreases e, 0nat,
{
    match e.kind {
        ExprKindV::Number(_) => true,
        ExprKindV::StringLit(_) => true,
        ExprKindV::Bool(_) => true,
        ExprKindV::Lambda { .. } => true,
        ExprKindV::Unit => true,
        ExprKindV::Tuple(items) => fresh_components(items),
        ExprKindV::Record(entries) => fresh_record_entries(entries),
        ExprKindV::Array(entries) => fresh_array_entries(entries),
        _ => false,
    }
}

pub open spec fn fresh_components(s: Seq<ExprV>) -> bool
    decreases s, 2nat,
{
    forall|i: int| 0 <= i < s.len() ==> fresh_component(#[trigger] s[i])
}

pub open spec fn fresh_array_entries(s: Seq<ArrayEntryV>) -> bool
    decreases s, 2nat,
{
    forall|i: int|
        0 <= i < s.len() ==> match (#[trigger] s[i]) {
            ArrayEntryV::Elem(x) => fresh_element(x),
            ArrayEntryV::Spread(x) => fresh_element(x),
        }
}

pub open spec fn fresh_record_entries(s: Seq<RecordEntryV>) -> bool
    decreases s, 2nat,
{
    forall|i: int|
        0 <= i < s.len() ==> match (#[trigger] s[i]) {
            RecordEntryV::Field(_, x) => fresh_component(x),
            RecordEntryV::Spread(x) => fresh_component(x),
        }
}

pub fn is_value(expr: &Expr) -> (r: bool)
    ensures
        r == value_expr(expr@),
    decreases *expr,
{
    match &expr.kind {
        ExprKind::Number(_) => true,
        ExprKind::StringLit(_) => true,
        ExprKind::Bool(_) => true,
        ExprKind::Ident(_) => true,
        ExprKind::Lambda { .. } => true,
        ExprKind::Import(_) => true,
        ExprKind::Unit => true,
        ExprKind::Tuple(items) => are_values(items),
        ExprKind::Array(entries) => array_entries_are_values(entries),
        ExprKind::Record(entries) => record_entries_are_values(entries),
        _ => false,
    }
}

fn are_values(s: &Vec<Expr>) -> (r: bool)
    ensures
        r == value_exprs(exprs_view(s@)),
    decreases s@,
{
    let ghost all = exprs_view(s@);
    let mut i: usize = 0;
    while i < s.len()
        invariant
            i <= s.len(),
            all == exprs_view(s@),
            forall|j: int| 0 <= j < i ==> value_expr(#[trigger] all[j]),
        decreases s.len() - i,
    {
        assert(all[i as int] == expr_view(s@[i as int]));
        assert(decreases_to!(s@ => s@[i as int]));
        if !is_value(&s[i]) {
            return false;
        }
        i = i + 1;
    }
    true
}

fn array_entries_are_values(s: &Vec<ArrayEntry>) -> (r: bool)
    ensures
        r == value_array_entries(array_entries_view(s@)),
    decreases s@,
{
    let ghost all = array_entries_view(s@);
    let mut i: usize = 0;
    while i < s.len()
        invariant
            i <= s.len(),
            all == array_entries_view(s@),
            forall|j: int| 0 <= j < i ==> match (#[trigger] all[j]) {
                ArrayEntryV::Elem(x) => value_expr(x),
                ArrayEntryV::Spread(x) => value_expr(x),
            },
        decreases s.len() - i,
    {
        assert(all[i as int] == array_entry_view(s@[i as int]));
        assert(decreases_to!(s@ => s@[i as int]));
        if !is_value(s[i].expr()) {
            return false;
        }
        i = i + 1;
    }
    true
}

fn record_entries_are_values(s: &Vec<RecordEntry>) -> (r: bool)
    ensures
        r == value_record_entries(record_entries_view(s@)),
    decreases s@,
{
    let ghost all = record_entries_view(s@);
    let mut i: usize = 0;
    while i < s.len()
        invariant
            i <= s.len(),
            all == record_entries_view(s@),
            forall|j: int| 0 <= j < i ==> match (#[trigger] all[j]) {
                RecordEntryV::Field(_, x) => value_expr(x),
                RecordEntryV::Spread(x) => value_expr(x),
            },
        decreases s.len() - i,
    {
        assert(all[i as int] == record_entry_view(s@[i as int]));
        assert(decreases_to!(s@ => s@[i as int]));
        if !is_value(s[i].expr()) {
            return false;
        }
        i = i + 1;
    }
    true
}

pub fn is_fresh_mutable_place(expr: &Expr) -> (r: bool)
    ensures
        r == fresh_place(expr@),
{
    match &expr.kind {
        // Array elements are safe to alias: extraction via .get() returns 'a (not mut 'a),
        // so callers cannot mutate elements through the array.
        ExprKind::Array(entries) => are_fresh_elements(entries),
        // Record fields are NOT safe to alias via identifiers: field access on a mutable
        // record reaches straight into the table, allowing mutation of the original.
        ExprKind::Record(entries) => are_fresh_fields(entries),
        _ => false,
    }
}

fn is_fresh_array_element(expr: &Expr) -> (r: bool)
    ensures
        r == fresh_element(expr@),
    decreases *expr, 1nat,
{
    let named = match &expr.kind {
        ExprKind::Ident(_) => true,
        _ => false,
    };
    named || is_fresh_mutable_component(expr)
}

fn is_fresh_mutable_component(expr: &Expr) -> (r: bool)
    ensures
        r == fresh_component(expr@),
    decreases *expr, 0nat,
{
    match &expr.kind {
        ExprKind::Number(_) => true,
        ExprKind::StringLit(_) => true,
        ExprKind::Bool(_) => true,
        ExprKind::Lambda { .. } => true,
        ExprKind::Unit => true,
        ExprKind::Tuple(items) => are_fresh_components(items),
        ExprKind::Record(entries) => are_fresh_fields(entries),
        ExprKind::Array(entries) => are_fresh_elements(entries),
        _ => false,
    }
}

fn are_fresh_components(s: &Vec<Expr>) -> (r: bool)
    ensures
        r == fresh_components(exprs_view(s@)),
    decreases s@, 2nat,
{
    let ghost all = exprs_view(s@);
    let mut i: usize = 0;
    while i < s.len()
        invariant
            i <= s.len(),
            all == exprs_view(s@),
            forall|j: int| 0 <= j < i ==> fresh_component(#[trigger] all[j]),
        decreases s.len() - i,
    {
        assert(all[i as int] == expr_view(s@[i as int]));
        assert(decreases_to!(s@ => s@[i as int]));
        if !is_fresh_mutable_component(&s[i]) {
            return false;
        }
        i = i + 1;
    }
    true
}

fn are_fresh_elements(s: &Vec<ArrayEntry>) -> (r: bool)
    ensures
        r == fresh_array_entries(array_entries_view(s@)),
    decreases s@, 2nat,
{
    let ghost all = array_entries_view(s@);
    let mut i: usize = 0;
    while i < s.len()
        invariant
            i <= s.len(),
            all == array_entries_view(s@),
            forall|j: int| 0 <= j < i ==> match (#[trigger] all[j]) {
                ArrayEntryV::Elem(x) => fresh_element(x),
                ArrayEntryV::Spread(x) => fresh_element(x),
            },
        decreases s.len() - i,
    {
        assert(all[i as int] == array_entry_view(s@[i as int]));
        assert(decreases_to!(s@ => s@[i as int]));
        if !is_fresh_array_element(s[i].expr()) {
            return false;
        }
        i = i + 1;
    }
    true
}

fn are_fresh_fields(s: &Vec<RecordEntry>) -> (r: bool)
    ensures
        r == fresh_record_entries(record_entries_view(s@)),
    decreases s@, 2nat,
{
    let ghost all = record_entries_view(s@);
    let mut i: usize = 0;
    while i < s.len()
        invariant
            i <= s.len(),
            all == record_entries_view(s@),
            forall|j: int| 0 <= j < i ==> match (#[trigger] all[j]) {
                RecordEntryV::Field(_, x) => fresh_component(x),
                RecordEntryV::Spread(x) => fresh_component(x),
            },
        decreases s.len() - i,
    {
        assert(all[i as int] == record_entry_view(s@[i as int]));
        assert(decreases_to!(s@ => s@[i as int]));
        if !is_fresh_mutable_component(s[i].expr()) {
            return false;
        }
        i = i + 1;
    }
    true
}

} // verus!
