//! Copying the syntax tree.

use vstd::prelude::*;

use crate::ast::{ArgWrapper, ArrayEntry, AssociatedAccessResolution, BinOp, DictRef, Expr};
use crate::ast::{ExprKind, FnDef, Fundep, GeneratedBy, ImplDef, ImplMethod, InherentImplDef};
use crate::ast::{InherentMethod, MacroDef, MatchArm, NamedType, NumberLiteral, Param, Pattern};
use crate::ast::{PatternField, PendingDictArg, PendingMethod, Program, RecordEntry};
use crate::ast::{ResolvedCallee, RestName, Stmt, StructuralDictRef, SyntaxCaptureInfo};
use crate::ast::{TraitDef, TraitMethod, Type, TypeBound, TypeDef, TypeParam, TypeReturn};
use crate::ast::VariantDef;
use crate::ast_view::{arg_wrapper_view, arg_wrappers_view, array_entries_view};
use crate::ast_view::{array_entry_view, associated_access_resolution_view, bin_op_view};
use crate::ast_view::{boxed_expr_view, boxed_pattern_view, dict_ref_view, dict_refs_view};
use crate::ast_view::{expr_kind_view, expr_view, exprs_view, fn_def_view, fundep_view};
use crate::ast_view::{fundeps_view, generated_by_view, impl_def_view, impl_method_view};
use crate::ast_view::{impl_methods_view, inherent_impl_def_view, inherent_method_view};
use crate::ast_view::{inherent_methods_view, macro_def_view, match_arm_view, match_arms_view};
use crate::ast_view::{named_type_view, named_types_view, number_literal_view};
use crate::ast_view::{open_rest_name_view, param_view, params_view, pattern_field_view};
use crate::ast_view::{pattern_fields_view, pattern_view, patterns_view, pending_dict_arg_view};
use crate::ast_view::{pending_dict_args_view, pending_method_view, program_view};
use crate::ast_view::{record_entries_view, record_entry_view, resolved_callee_view};
use crate::ast_view::{rest_name_view, some_arg_wrapper_view};
use crate::ast_view::{some_associated_access_resolution_view, some_dict_ref_view};
use crate::ast_view::{some_generated_by_view, some_pending_dict_arg_view};
use crate::ast_view::{some_pending_method_view, some_resolved_callee_view};
use crate::ast_view::{some_rest_name_view, some_type_return_view, some_type_view, stmt_view};
use crate::ast_view::{stmts_view, structural_dict_ref_view, syntax_capture_view};
use crate::ast_view::{syntax_captures_view, trait_def_view, trait_method_view};
use crate::ast_view::{trait_methods_view, type_bound_view, type_bounds_view, type_def_view};
use crate::ast_view::{type_param_view, type_params_view, type_return_view, type_view};
use crate::ast_view::{types_view, variant_def_view, variant_defs_view};
use crate::subst::clone_indexes;
use crate::tables::Dup;
use crate::text::clone_strings;
use crate::ty::clone_tys;

verus! {

impl Clone for TypeParam {
    fn clone(&self) -> (r: Self)
        ensures
            r@ == self@,
    {
        clone_type_param(self)
    }
}

impl Dup for TypeParam {
    fn dup(&self) -> (r: Self) {
        clone_type_param(self)
    }
}

impl Clone for TypeReturn {
    fn clone(&self) -> (r: Self)
        ensures
            r@ == self@,
    {
        clone_type_return(self)
    }
}

impl Dup for TypeReturn {
    fn dup(&self) -> (r: Self) {
        clone_type_return(self)
    }
}

impl Clone for Type {
    fn clone(&self) -> (r: Self)
        ensures
            r@ == self@,
    {
        clone_type(self)
    }
}

impl Dup for Type {
    fn dup(&self) -> (r: Self) {
        clone_type(self)
    }
}

impl Clone for NumberLiteral {
    fn clone(&self) -> (r: Self)
        ensures
            r@ == self@,
    {
        clone_number_literal(self)
    }
}

impl Dup for NumberLiteral {
    fn dup(&self) -> (r: Self) {
        clone_number_literal(self)
    }
}

impl Clone for Pattern {
    fn clone(&self) -> (r: Self)
        ensures
            r@ == self@,
    {
        clone_pattern(self)
    }
}

impl Dup for Pattern {
    fn dup(&self) -> (r: Self) {
        clone_pattern(self)
    }
}

impl Clone for PatternField {
    fn clone(&self) -> (r: Self)
        ensures
            r@ == self@,
    {
        clone_pattern_field(self)
    }
}

impl Dup for PatternField {
    fn dup(&self) -> (r: Self) {
        clone_pattern_field(self)
    }
}

impl Clone for RestName {
    fn clone(&self) -> (r: Self)
        ensures
            r@ == self@,
    {
        clone_rest_name(self)
    }
}

impl Dup for RestName {
    fn dup(&self) -> (r: Self) {
        clone_rest_name(self)
    }
}

impl Clone for Param {
    fn clone(&self) -> (r: Self)
        ensures
            r@ == self@,
    {
        clone_param(self)
    }
}

impl Dup for Param {
    fn dup(&self) -> (r: Self) {
        clone_param(self)
    }
}

impl Clone for BinOp {
    fn clone(&self) -> (r: Self)
        ensures
            r@ == self@,
    {
        clone_bin_op(self)
    }
}

impl Dup for BinOp {
    fn dup(&self) -> (r: Self) {
        clone_bin_op(self)
    }
}

impl Clone for StructuralDictRef {
    fn clone(&self) -> (r: Self)
        ensures
            r@ == self@,
    {
        clone_structural_dict_ref(self)
    }
}

impl Dup for StructuralDictRef {
    fn dup(&self) -> (r: Self) {
        clone_structural_dict_ref(self)
    }
}

impl Clone for DictRef {
    fn clone(&self) -> (r: Self)
        ensures
            r@ == self@,
    {
        clone_dict_ref(self)
    }
}

impl Dup for DictRef {
    fn dup(&self) -> (r: Self) {
        clone_dict_ref(self)
    }
}

impl Clone for PendingDictArg {
    fn clone(&self) -> (r: Self)
        ensures
            r@ == self@,
    {
        clone_pending_dict_arg(self)
    }
}

impl Dup for PendingDictArg {
    fn dup(&self) -> (r: Self) {
        clone_pending_dict_arg(self)
    }
}

impl Clone for ResolvedCallee {
    fn clone(&self) -> (r: Self)
        ensures
            r@ == self@,
    {
        clone_resolved_callee(self)
    }
}

impl Dup for ResolvedCallee {
    fn dup(&self) -> (r: Self) {
        clone_resolved_callee(self)
    }
}

impl Clone for PendingMethod {
    fn clone(&self) -> (r: Self)
        ensures
            r@ == self@,
    {
        clone_pending_method(self)
    }
}

impl Dup for PendingMethod {
    fn dup(&self) -> (r: Self) {
        clone_pending_method(self)
    }
}

impl Clone for ArgWrapper {
    fn clone(&self) -> (r: Self)
        ensures
            r@ == self@,
    {
        clone_arg_wrapper(self)
    }
}

impl Dup for ArgWrapper {
    fn dup(&self) -> (r: Self) {
        clone_arg_wrapper(self)
    }
}

impl Clone for AssociatedAccessResolution {
    fn clone(&self) -> (r: Self)
        ensures
            r@ == self@,
    {
        clone_associated_access_resolution(self)
    }
}

impl Dup for AssociatedAccessResolution {
    fn dup(&self) -> (r: Self) {
        clone_associated_access_resolution(self)
    }
}

impl Clone for ArrayEntry {
    fn clone(&self) -> (r: Self)
        ensures
            r@ == self@,
    {
        clone_array_entry(self)
    }
}

impl Dup for ArrayEntry {
    fn dup(&self) -> (r: Self) {
        clone_array_entry(self)
    }
}

impl Clone for RecordEntry {
    fn clone(&self) -> (r: Self)
        ensures
            r@ == self@,
    {
        clone_record_entry(self)
    }
}

impl Dup for RecordEntry {
    fn dup(&self) -> (r: Self) {
        clone_record_entry(self)
    }
}

impl Clone for MatchArm {
    fn clone(&self) -> (r: Self)
        ensures
            r@ == self@,
    {
        clone_match_arm(self)
    }
}

impl Dup for MatchArm {
    fn dup(&self) -> (r: Self) {
        clone_match_arm(self)
    }
}

impl Clone for Expr {
    fn clone(&self) -> (r: Self)
        ensures
            r@ == self@,
    {
        clone_expr(self)
    }
}

impl Dup for Expr {
    fn dup(&self) -> (r: Self) {
        clone_expr(self)
    }
}

impl Clone for ExprKind {
    fn clone(&self) -> (r: Self)
        ensures
            r@ == self@,
    {
        clone_expr_kind(self)
    }
}

impl Dup for ExprKind {
    fn dup(&self) -> (r: Self) {
        clone_expr_kind(self)
    }
}

impl Clone for TypeBound {
    fn clone(&self) -> (r: Self)
        ensures
            r@ == self@,
    {
        clone_type_bound(self)
    }
}

impl Dup for TypeBound {
    fn dup(&self) -> (r: Self) {
        clone_type_bound(self)
    }
}

impl Clone for FnDef {
    fn clone(&self) -> (r: Self)
        ensures
            r@ == self@,
    {
        clone_fn_def(self)
    }
}

impl Dup for FnDef {
    fn dup(&self) -> (r: Self) {
        clone_fn_def(self)
    }
}

impl Clone for Fundep {
    fn clone(&self) -> (r: Self)
        ensures
            r@ == self@,
    {
        clone_fundep(self)
    }
}

impl Dup for Fundep {
    fn dup(&self) -> (r: Self) {
        clone_fundep(self)
    }
}

impl Clone for TraitMethod {
    fn clone(&self) -> (r: Self)
        ensures
            r@ == self@,
    {
        clone_trait_method(self)
    }
}

impl Dup for TraitMethod {
    fn dup(&self) -> (r: Self) {
        clone_trait_method(self)
    }
}

impl Clone for NamedType {
    fn clone(&self) -> (r: Self)
        ensures
            r@ == self@,
    {
        clone_named_type(self)
    }
}

impl Dup for NamedType {
    fn dup(&self) -> (r: Self) {
        clone_named_type(self)
    }
}

impl Clone for TraitDef {
    fn clone(&self) -> (r: Self)
        ensures
            r@ == self@,
    {
        clone_trait_def(self)
    }
}

impl Dup for TraitDef {
    fn dup(&self) -> (r: Self) {
        clone_trait_def(self)
    }
}

impl Clone for ImplMethod {
    fn clone(&self) -> (r: Self)
        ensures
            r@ == self@,
    {
        clone_impl_method(self)
    }
}

impl Dup for ImplMethod {
    fn dup(&self) -> (r: Self) {
        clone_impl_method(self)
    }
}

impl Clone for GeneratedBy {
    fn clone(&self) -> (r: Self)
        ensures
            r@ == self@,
    {
        clone_generated_by(self)
    }
}

impl Dup for GeneratedBy {
    fn dup(&self) -> (r: Self) {
        clone_generated_by(self)
    }
}

impl Clone for ImplDef {
    fn clone(&self) -> (r: Self)
        ensures
            r@ == self@,
    {
        clone_impl_def(self)
    }
}

impl Dup for ImplDef {
    fn dup(&self) -> (r: Self) {
        clone_impl_def(self)
    }
}

impl Clone for InherentMethod {
    fn clone(&self) -> (r: Self)
        ensures
            r@ == self@,
    {
        clone_inherent_method(self)
    }
}

impl Dup for InherentMethod {
    fn dup(&self) -> (r: Self) {
        clone_inherent_method(self)
    }
}

impl Clone for InherentImplDef {
    fn clone(&self) -> (r: Self)
        ensures
            r@ == self@,
    {
        clone_inherent_impl_def(self)
    }
}

impl Dup for InherentImplDef {
    fn dup(&self) -> (r: Self) {
        clone_inherent_impl_def(self)
    }
}

impl Clone for VariantDef {
    fn clone(&self) -> (r: Self)
        ensures
            r@ == self@,
    {
        clone_variant_def(self)
    }
}

impl Dup for VariantDef {
    fn dup(&self) -> (r: Self) {
        clone_variant_def(self)
    }
}

impl Clone for TypeDef {
    fn clone(&self) -> (r: Self)
        ensures
            r@ == self@,
    {
        clone_type_def(self)
    }
}

impl Dup for TypeDef {
    fn dup(&self) -> (r: Self) {
        clone_type_def(self)
    }
}

impl Clone for MacroDef {
    fn clone(&self) -> (r: Self)
        ensures
            r@ == self@,
    {
        clone_macro_def(self)
    }
}

impl Dup for MacroDef {
    fn dup(&self) -> (r: Self) {
        clone_macro_def(self)
    }
}

impl Clone for Stmt {
    fn clone(&self) -> (r: Self)
        ensures
            r@ == self@,
    {
        clone_stmt(self)
    }
}

impl Dup for Stmt {
    fn dup(&self) -> (r: Self) {
        clone_stmt(self)
    }
}

impl Clone for Program {
    fn clone(&self) -> (r: Self)
        ensures
            r@ == self@,
    {
        clone_program(self)
    }
}

impl Dup for Program {
    fn dup(&self) -> (r: Self) {
        clone_program(self)
    }
}

fn clone_type_param(x: &TypeParam) -> (r: TypeParam)
    ensures
        type_param_view(r) == type_param_view(*x),
    decreases *x,
{
    TypeParam {
        ty: clone_type(&x.ty),
        mut_place: x.mut_place,
    }
}

fn clone_type_return(x: &TypeReturn) -> (r: TypeReturn)
    ensures
        type_return_view(r) == type_return_view(*x),
    decreases *x,
{
    TypeReturn {
        ty: Box::new(clone_type(&x.ty)),
        mut_place: x.mut_place,
    }
}

fn clone_type(x: &Type) -> (r: Type)
    ensures
        type_view(r) == type_view(*x),
    decreases *x,
{
    match x {
        Type::Ident(a) => Type::Ident(a.clone()),
        Type::Var(a) => Type::Var(a.clone()),
        Type::App(a, b) => Type::App(Box::new(clone_type(a)), clone_types(b)),
        Type::Func(a, b) => Type::Func(clone_type_params(a), clone_type_return(b)),
        Type::Tuple(a) => Type::Tuple(clone_types(a)),
        Type::Record(a, b) => Type::Record(clone_named_types(a), *b),
        Type::Unit => Type::Unit,
        Type::Never => Type::Never,
        Type::Hole => Type::Hole,
    }
}

fn clone_number_literal(x: &NumberLiteral) -> (r: NumberLiteral)
    ensures
        number_literal_view(r) == number_literal_view(*x),
    decreases *x,
{
    match x {
        NumberLiteral::Int(a) => NumberLiteral::Int(*a),
        NumberLiteral::Float(a) => NumberLiteral::Float(a.clone()),
    }
}

fn clone_pattern(x: &Pattern) -> (r: Pattern)
    ensures
        pattern_view(r) == pattern_view(*x),
    decreases *x,
{
    match x {
        Pattern::Wildcard => Pattern::Wildcard,
        Pattern::StringLit(a) => Pattern::StringLit(a.clone()),
        Pattern::NumberLit(a) => Pattern::NumberLit(clone_number_literal(a)),
        Pattern::BoolLit(a) => Pattern::BoolLit(*a),
        Pattern::IntRange { start, end, inclusive } => Pattern::IntRange {
            start: *start,
            end: *end,
            inclusive: *inclusive,
        },
        Pattern::Variable(a, b) => Pattern::Variable(a.clone(), *b),
        Pattern::Constructor { name, binding } => Pattern::Constructor {
            name: name.clone(),
            binding: clone_boxed_pattern(binding),
        },
        Pattern::Record { fields, rest } => Pattern::Record {
            fields: clone_pattern_fields(fields),
            rest: clone_open_rest_name(rest),
        },
        Pattern::List { elements, rest } => Pattern::List {
            elements: clone_patterns(elements),
            rest: clone_open_rest_name(rest),
        },
        Pattern::Tuple(a) => Pattern::Tuple(clone_patterns(a)),
        Pattern::SyntaxQuote(a) => Pattern::SyntaxQuote(clone_syntax_captures(a)),
    }
}

pub fn clone_syntax_capture(x: &SyntaxCaptureInfo) -> (r: SyntaxCaptureInfo)
    ensures
        syntax_capture_view(r) == syntax_capture_view(*x),
{
    SyntaxCaptureInfo {
        name: x.name.clone(),
        category: x.category.clone(),
        repeat: x.repeat,
        span: x.span,
    }
}

fn clone_syntax_captures(s: &Vec<SyntaxCaptureInfo>) -> (r: Vec<SyntaxCaptureInfo>)
    ensures
        syntax_captures_view(r@) == syntax_captures_view(s@),
{
    let mut out: Vec<SyntaxCaptureInfo> = Vec::new();
    let mut i: usize = 0;
    while i < s.len()
        invariant
            i <= s.len(),
            out@.len() == i,
            forall|j: int|
                0 <= j < i ==> syntax_capture_view(#[trigger] out@[j]) == syntax_capture_view(
                    s@[j],
                ),
        decreases s.len() - i,
    {
        out.push(clone_syntax_capture(&s[i]));
        i = i + 1;
    }
    assert(syntax_captures_view(out@) =~= syntax_captures_view(s@));
    out
}

fn clone_pattern_field(x: &PatternField) -> (r: PatternField)
    ensures
        pattern_field_view(r) == pattern_field_view(*x),
    decreases *x,
{
    PatternField {
        field: x.field.clone(),
        binding: x.binding.clone(),
        span: x.span,
    }
}

fn clone_rest_name(x: &RestName) -> (r: RestName)
    ensures
        rest_name_view(r) == rest_name_view(*x),
    decreases *x,
{
    RestName {
        name: x.name.clone(),
        span: x.span,
    }
}

fn clone_param(x: &Param) -> (r: Param)
    ensures
        param_view(r) == param_view(*x),
    decreases *x,
{
    Param {
        pat: clone_pattern(&x.pat),
        ty: clone_some_type(&x.ty),
        mut_place: x.mut_place,
    }
}

fn clone_bin_op(x: &BinOp) -> (r: BinOp)
    ensures
        bin_op_view(r) == bin_op_view(*x),
    decreases *x,
{
    match x {
        BinOp::Pipe => BinOp::Pipe,
        BinOp::Custom(a) => BinOp::Custom(a.clone()),
    }
}

fn clone_structural_dict_ref(x: &StructuralDictRef) -> (r: StructuralDictRef)
    ensures
        structural_dict_ref_view(r) == structural_dict_ref_view(*x),
    decreases *x,
{
    StructuralDictRef {
        trait_name: x.trait_name.clone(),
        target: x.target,
        args: clone_dict_refs(&x.args),
    }
}

fn clone_dict_ref(x: &DictRef) -> (r: DictRef)
    ensures
        dict_ref_view(r) == dict_ref_view(*x),
    decreases *x,
{
    match x {
        DictRef::Concrete(a) => DictRef::Concrete(a.clone()),
        DictRef::Applied { dict, args } => DictRef::Applied {
            dict: dict.clone(),
            args: clone_dict_refs(args),
        },
        DictRef::Param(a) => DictRef::Param(a.clone()),
        DictRef::Composed(a) => DictRef::Composed(clone_structural_dict_ref(a)),
    }
}

fn clone_pending_dict_arg(x: &PendingDictArg) -> (r: PendingDictArg)
    ensures
        pending_dict_arg_view(r) == pending_dict_arg_view(*x),
    decreases *x,
{
    PendingDictArg {
        var: x.var,
        trait_name: x.trait_name.clone(),
        args: clone_tys(&x.args),
        determinant_indexes: clone_indexes(&x.determinant_indexes),
    }
}

fn clone_resolved_callee(x: &ResolvedCallee) -> (r: ResolvedCallee)
    ensures
        resolved_callee_view(r) == resolved_callee_view(*x),
    decreases *x,
{
    match x {
        ResolvedCallee::Function(a) => ResolvedCallee::Function(a.clone()),
        ResolvedCallee::InherentMethod { dict, method } => ResolvedCallee::InherentMethod {
            dict: dict.clone(),
            method: method.clone(),
        },
        ResolvedCallee::DictMethod { dict, method } => ResolvedCallee::DictMethod {
            dict: clone_dict_ref(dict),
            method: method.clone(),
        },
    }
}

fn clone_pending_method(x: &PendingMethod) -> (r: PendingMethod)
    ensures
        pending_method_view(r) == pending_method_view(*x),
    decreases *x,
{
    PendingMethod {
        pending: clone_pending_dict_arg(&x.pending),
        method: x.method.clone(),
    }
}

fn clone_arg_wrapper(x: &ArgWrapper) -> (r: ArgWrapper)
    ensures
        arg_wrapper_view(r) == arg_wrapper_view(*x),
    decreases *x,
{
    ArgWrapper {
        dict_args: clone_dict_refs(&x.dict_args),
        pending_dict_args: clone_pending_dict_args(&x.pending_dict_args),
    }
}

fn clone_associated_access_resolution(x: &AssociatedAccessResolution) -> (r: AssociatedAccessResolution)
    ensures
        associated_access_resolution_view(r) == associated_access_resolution_view(*x),
    decreases *x,
{
    match x {
        AssociatedAccessResolution::TraitMethod { method, dict } => AssociatedAccessResolution::TraitMethod {
            method: method.clone(),
            dict: clone_some_dict_ref(dict),
        },
        AssociatedAccessResolution::Inherent(a) => AssociatedAccessResolution::Inherent(clone_resolved_callee(a)),
    }
}

fn clone_array_entry(x: &ArrayEntry) -> (r: ArrayEntry)
    ensures
        array_entry_view(r) == array_entry_view(*x),
    decreases *x,
{
    match x {
        ArrayEntry::Elem(a) => ArrayEntry::Elem(clone_expr(a)),
        ArrayEntry::Spread(a) => ArrayEntry::Spread(clone_expr(a)),
    }
}

fn clone_record_entry(x: &RecordEntry) -> (r: RecordEntry)
    ensures
        record_entry_view(r) == record_entry_view(*x),
    decreases *x,
{
    match x {
        RecordEntry::Field(a, b) => RecordEntry::Field(a.clone(), clone_expr(b)),
        RecordEntry::Spread(a) => RecordEntry::Spread(clone_expr(a)),
    }
}

fn clone_match_arm(x: &MatchArm) -> (r: MatchArm)
    ensures
        match_arm_view(r) == match_arm_view(*x),
    decreases *x,
{
    MatchArm {
        pattern: clone_pattern(&x.pattern),
        body: clone_expr(&x.body),
    }
}

fn clone_expr(x: &Expr) -> (r: Expr)
    ensures
        expr_view(r) == expr_view(*x),
    decreases *x,
{
    Expr {
        id: x.id,
        span: x.span,
        kind: clone_expr_kind(&x.kind),
    }
}

fn clone_expr_kind(x: &ExprKind) -> (r: ExprKind)
    ensures
        expr_kind_view(r) == expr_kind_view(*x),
    decreases *x,
{
    match x {
        ExprKind::Grouped(a) => ExprKind::Grouped(Box::new(clone_expr(a))),
        ExprKind::Number(a) => ExprKind::Number(clone_number_literal(a)),
        ExprKind::StringLit(a) => ExprKind::StringLit(a.clone()),
        ExprKind::Bool(a) => ExprKind::Bool(*a),
        ExprKind::Ident(a) => ExprKind::Ident(a.clone()),
        ExprKind::Unit => ExprKind::Unit,
        ExprKind::Import(a) => ExprKind::Import(a.clone()),
        ExprKind::Not(a) => ExprKind::Not(Box::new(clone_expr(a))),
        ExprKind::Neg { operand, resolved_op, pending_op } => ExprKind::Neg {
            operand: Box::new(clone_expr(operand)),
            resolved_op: clone_some_resolved_callee(resolved_op),
            pending_op: clone_some_pending_dict_arg(pending_op),
        },
        ExprKind::Assign { target, value } => ExprKind::Assign {
            target: Box::new(clone_expr(target)),
            value: Box::new(clone_expr(value)),
        },
        ExprKind::Binary { lhs, op, rhs, resolved_op, pending_op, dict_args, pending_dict_args } => ExprKind::Binary {
            lhs: Box::new(clone_expr(lhs)),
            op: clone_bin_op(op),
            rhs: Box::new(clone_expr(rhs)),
            resolved_op: clone_some_resolved_callee(resolved_op),
            pending_op: clone_some_pending_dict_arg(pending_op),
            dict_args: clone_dict_refs(dict_args),
            pending_dict_args: clone_pending_dict_args(pending_dict_args),
        },
        ExprKind::Range { start, end, inclusive } => ExprKind::Range {
            start: clone_boxed_expr(start),
            end: clone_boxed_expr(end),
            inclusive: *inclusive,
        },
        ExprKind::Call { callee, args, is_method_call, arg_wrappers, resolved_callee, pending_trait_method, dict_args, pending_dict_args } => ExprKind::Call {
            callee: Box::new(clone_expr(callee)),
            args: clone_exprs(args),
            is_method_call: *is_method_call,
            arg_wrappers: clone_arg_wrappers(arg_wrappers),
            resolved_callee: clone_some_resolved_callee(resolved_callee),
            pending_trait_method: clone_some_pending_method(pending_trait_method),
            dict_args: clone_dict_refs(dict_args),
            pending_dict_args: clone_pending_dict_args(pending_dict_args),
        },
        ExprKind::AssociatedAccess { target, target_span, member, member_span, resolution } => ExprKind::AssociatedAccess {
            target: clone_type(target),
            target_span: *target_span,
            member: member.clone(),
            member_span: *member_span,
            resolution: clone_some_associated_access_resolution(resolution),
        },
        ExprKind::If { cond, then_branch, else_branch } => ExprKind::If {
            cond: Box::new(clone_expr(cond)),
            then_branch: Box::new(clone_expr(then_branch)),
            else_branch: Box::new(clone_expr(else_branch)),
        },
        ExprKind::Match { scrutinee, arms } => ExprKind::Match {
            scrutinee: Box::new(clone_expr(scrutinee)),
            arms: clone_match_arms(arms),
        },
        ExprKind::Loop(a) => ExprKind::Loop(Box::new(clone_expr(a))),
        ExprKind::Break(a) => ExprKind::Break(clone_boxed_expr(a)),
        ExprKind::Continue => ExprKind::Continue,
        ExprKind::Return(a) => ExprKind::Return(clone_boxed_expr(a)),
        ExprKind::Block { stmts, final_expr } => ExprKind::Block {
            stmts: clone_stmts(stmts),
            final_expr: clone_boxed_expr(final_expr),
        },
        ExprKind::Tuple(a) => ExprKind::Tuple(clone_exprs(a)),
        ExprKind::Array(a) => ExprKind::Array(clone_array_entries(a)),
        ExprKind::Record(a) => ExprKind::Record(clone_record_entries(a)),
        ExprKind::FieldAccess { expr, field } => ExprKind::FieldAccess {
            expr: Box::new(clone_expr(expr)),
            field: field.clone(),
        },
        ExprKind::Index { receiver, key, resolved_callee, pending_trait_method, dict_args, pending_dict_args } => ExprKind::Index {
            receiver: Box::new(clone_expr(receiver)),
            key: Box::new(clone_expr(key)),
            resolved_callee: clone_some_resolved_callee(resolved_callee),
            pending_trait_method: clone_some_pending_method(pending_trait_method),
            dict_args: clone_dict_refs(dict_args),
            pending_dict_args: clone_pending_dict_args(pending_dict_args),
        },
        ExprKind::Lambda { params, return_type, body, dict_params } => ExprKind::Lambda {
            params: clone_params(params),
            return_type: clone_some_type(return_type),
            body: Box::new(clone_expr(body)),
            dict_params: clone_strings(dict_params),
        },
        ExprKind::For { pat, iterable, body, resolved_iter, pending_iter } => ExprKind::For {
            pat: clone_pattern(pat),
            iterable: Box::new(clone_expr(iterable)),
            body: Box::new(clone_expr(body)),
            resolved_iter: clone_some_resolved_callee(resolved_iter),
            pending_iter: clone_some_pending_dict_arg(pending_iter),
        },
    }
}

fn clone_type_bound(x: &TypeBound) -> (r: TypeBound)
    ensures
        type_bound_view(r) == type_bound_view(*x),
    decreases *x,
{
    TypeBound {
        args: clone_types(&x.args),
        traits: clone_strings(&x.traits),
        fundep_arrow_index: x.fundep_arrow_index,
    }
}

fn clone_fn_def(x: &FnDef) -> (r: FnDef)
    ensures
        fn_def_view(r) == fn_def_view(*x),
    decreases *x,
{
    FnDef {
        name: x.name.clone(),
        name_span: x.name_span,
        params: clone_params(&x.params),
        ret_type: clone_some_type_return(&x.ret_type),
        body: clone_expr(&x.body),
        dict_params: clone_strings(&x.dict_params),
        type_bounds: clone_type_bounds(&x.type_bounds),
        is_test: x.is_test,
        span: x.span,
    }
}

fn clone_fundep(x: &Fundep) -> (r: Fundep)
    ensures
        fundep_view(r) == fundep_view(*x),
    decreases *x,
{
    Fundep {
        determinants: clone_indexes(&x.determinants),
        dependents: clone_indexes(&x.dependents),
    }
}

fn clone_trait_method(x: &TraitMethod) -> (r: TraitMethod)
    ensures
        trait_method_view(r) == trait_method_view(*x),
    decreases *x,
{
    TraitMethod {
        name: x.name.clone(),
        params: clone_named_types(&x.params),
        ret_type: clone_type(&x.ret_type),
        fixity: x.fixity,
        inline: x.inline,
        span: x.span,
    }
}

fn clone_named_type(x: &NamedType) -> (r: NamedType)
    ensures
        named_type_view(r) == named_type_view(*x),
    decreases *x,
{
    NamedType {
        name: x.name.clone(),
        ty: clone_type(&x.ty),
    }
}

fn clone_trait_def(x: &TraitDef) -> (r: TraitDef)
    ensures
        trait_def_view(r) == trait_def_view(*x),
    decreases *x,
{
    TraitDef {
        name: x.name.clone(),
        name_span: x.name_span,
        params: clone_strings(&x.params),
        fundeps: clone_fundeps(&x.fundeps),
        methods: clone_trait_methods(&x.methods),
        span: x.span,
    }
}

fn clone_impl_method(x: &ImplMethod) -> (r: ImplMethod)
    ensures
        impl_method_view(r) == impl_method_view(*x),
    decreases *x,
{
    ImplMethod {
        name: x.name.clone(),
        name_span: x.name_span,
        params: clone_params(&x.params),
        ret_type: clone_some_type_return(&x.ret_type),
        body: clone_expr(&x.body),
        inline: x.inline,
        span: x.span,
    }
}

fn clone_generated_by(x: &GeneratedBy) -> (r: GeneratedBy)
    ensures
        generated_by_view(r) == generated_by_view(*x),
    decreases *x,
{
    match x {
        GeneratedBy::Derive { trait_name, source_span } => GeneratedBy::Derive {
            trait_name: trait_name.clone(),
            source_span: *source_span,
        },
    }
}

fn clone_impl_def(x: &ImplDef) -> (r: ImplDef)
    ensures
        impl_def_view(r) == impl_def_view(*x),
    decreases *x,
{
    ImplDef {
        trait_name: x.trait_name.clone(),
        trait_args: clone_types(&x.trait_args),
        type_bounds: clone_type_bounds(&x.type_bounds),
        methods: clone_impl_methods(&x.methods),
        dict_params: clone_strings(&x.dict_params),
        dict_arg_indexes: clone_indexes(&x.dict_arg_indexes),
        fundep_arrow_index: x.fundep_arrow_index,
        generated_by: clone_some_generated_by(&x.generated_by),
        span: x.span,
    }
}

fn clone_inherent_method(x: &InherentMethod) -> (r: InherentMethod)
    ensures
        inherent_method_view(r) == inherent_method_view(*x),
    decreases *x,
{
    InherentMethod {
        name: x.name.clone(),
        name_span: x.name_span,
        params: clone_params(&x.params),
        ret_type: clone_some_type_return(&x.ret_type),
        body: clone_expr(&x.body),
        dict_params: clone_strings(&x.dict_params),
        type_bounds: clone_type_bounds(&x.type_bounds),
        span: x.span,
    }
}

fn clone_inherent_impl_def(x: &InherentImplDef) -> (r: InherentImplDef)
    ensures
        inherent_impl_def_view(r) == inherent_impl_def_view(*x),
    decreases *x,
{
    InherentImplDef {
        target: clone_type(&x.target),
        type_bounds: clone_type_bounds(&x.type_bounds),
        methods: clone_inherent_methods(&x.methods),
        span: x.span,
    }
}

fn clone_variant_def(x: &VariantDef) -> (r: VariantDef)
    ensures
        variant_def_view(r) == variant_def_view(*x),
    decreases *x,
{
    VariantDef {
        name: x.name.clone(),
        name_span: x.name_span,
        payload: clone_some_type(&x.payload),
    }
}

fn clone_type_def(x: &TypeDef) -> (r: TypeDef)
    ensures
        type_def_view(r) == type_def_view(*x),
    decreases *x,
{
    TypeDef {
        name: x.name.clone(),
        name_span: x.name_span,
        params: clone_strings(&x.params),
        variants: clone_variant_defs(&x.variants),
        span: x.span,
    }
}

fn clone_macro_def(x: &MacroDef) -> (r: MacroDef)
    ensures
        macro_def_view(r) == macro_def_view(*x),
    decreases *x,
{
    MacroDef {
        name: x.name.clone(),
        param_name: x.param_name.clone(),
        param_span: x.param_span,
        param_ty: clone_type(&x.param_ty),
        param_ty_span: x.param_ty_span,
        ret_ty: clone_type(&x.ret_ty),
        ret_ty_span: x.ret_ty_span,
        body: clone_expr(&x.body),
        span: x.span,
    }
}

fn clone_stmt(x: &Stmt) -> (r: Stmt)
    ensures
        stmt_view(r) == stmt_view(*x),
    decreases *x,
{
    match x {
        Stmt::Let { pat, is_mutable, ty, value, span } => Stmt::Let {
            pat: clone_pattern(pat),
            is_mutable: *is_mutable,
            ty: clone_some_type(ty),
            value: clone_expr(value),
            span: *span,
        },
        Stmt::Fn(a) => Stmt::Fn(clone_fn_def(a)),
        Stmt::Op(a) => Stmt::Op(clone_fn_def(a)),
        Stmt::Macro(a) => Stmt::Macro(clone_macro_def(a)),
        Stmt::Trait(a) => Stmt::Trait(clone_trait_def(a)),
        Stmt::Impl(a) => Stmt::Impl(clone_impl_def(a)),
        Stmt::InherentImpl(a) => Stmt::InherentImpl(clone_inherent_impl_def(a)),
        Stmt::Type(a) => Stmt::Type(clone_type_def(a)),
        Stmt::TypeAlias { name, name_span, params, ty, span } => Stmt::TypeAlias {
            name: name.clone(),
            name_span: *name_span,
            params: clone_strings(params),
            ty: clone_type(ty),
            span: *span,
        },
        Stmt::Extern { name, name_span, ty, span } => Stmt::Extern {
            name: name.clone(),
            name_span: *name_span,
            ty: clone_type(ty),
            span: *span,
        },
        Stmt::TestBlock { stmts, span } => Stmt::TestBlock {
            stmts: clone_stmts(stmts),
            span: *span,
        },
        Stmt::RecBlock { stmts, span } => Stmt::RecBlock {
            stmts: clone_stmts(stmts),
            span: *span,
        },
        Stmt::Expr(a) => Stmt::Expr(clone_expr(a)),
    }
}

fn clone_program(x: &Program) -> (r: Program)
    ensures
        program_view(r) == program_view(*x),
    decreases *x,
{
    Program {
        stmts: clone_stmts(&x.stmts),
    }
}

fn clone_some_arg_wrapper(x: &Option<ArgWrapper>) -> (r: Option<ArgWrapper>)
    ensures
        some_arg_wrapper_view(r) == some_arg_wrapper_view(*x),
    decreases *x,
{
    match x {
        Some(a) => Some(clone_arg_wrapper(a)),
        None => None,
    }
}

fn clone_some_associated_access_resolution(x: &Option<AssociatedAccessResolution>) -> (r: Option<AssociatedAccessResolution>)
    ensures
        some_associated_access_resolution_view(r) == some_associated_access_resolution_view(*x),
    decreases *x,
{
    match x {
        Some(a) => Some(clone_associated_access_resolution(a)),
        None => None,
    }
}

fn clone_boxed_expr(x: &Option<Box<Expr>>) -> (r: Option<Box<Expr>>)
    ensures
        boxed_expr_view(r) == boxed_expr_view(*x),
    decreases *x,
{
    match x {
        Some(a) => Some(Box::new(clone_expr(a))),
        None => None,
    }
}

fn clone_boxed_pattern(x: &Option<Box<Pattern>>) -> (r: Option<Box<Pattern>>)
    ensures
        boxed_pattern_view(r) == boxed_pattern_view(*x),
    decreases *x,
{
    match x {
        Some(a) => Some(Box::new(clone_pattern(a))),
        None => None,
    }
}

fn clone_some_dict_ref(x: &Option<DictRef>) -> (r: Option<DictRef>)
    ensures
        some_dict_ref_view(r) == some_dict_ref_view(*x),
    decreases *x,
{
    match x {
        Some(a) => Some(clone_dict_ref(a)),
        None => None,
    }
}

fn clone_some_generated_by(x: &Option<GeneratedBy>) -> (r: Option<GeneratedBy>)
    ensures
        some_generated_by_view(r) == some_generated_by_view(*x),
    decreases *x,
{
    match x {
        Some(a) => Some(clone_generated_by(a)),
        None => None,
    }
}

fn clone_open_rest_name(x: &Option<Option<RestName>>) -> (r: Option<Option<RestName>>)
    ensures
        open_rest_name_view(r) == open_rest_name_view(*x),
    decreases *x,
{
    match x {
        Some(a) => Some(clone_some_rest_name(a)),
        None => None,
    }
}

fn clone_some_pending_dict_arg(x: &Option<PendingDictArg>) -> (r: Option<PendingDictArg>)
    ensures
        some_pending_dict_arg_view(r) == some_pending_dict_arg_view(*x),
    decreases *x,
{
    match x {
        Some(a) => Some(clone_pending_dict_arg(a)),
        None => None,
    }
}

fn clone_some_pending_method(x: &Option<PendingMethod>) -> (r: Option<PendingMethod>)
    ensures
        some_pending_method_view(r) == some_pending_method_view(*x),
    decreases *x,
{
    match x {
        Some(a) => Some(clone_pending_method(a)),
        None => None,
    }
}

fn clone_some_resolved_callee(x: &Option<ResolvedCallee>) -> (r: Option<ResolvedCallee>)
    ensures
        some_resolved_callee_view(r) == some_resolved_callee_view(*x),
    decreases *x,
{
    match x {
        Some(a) => Some(clone_resolved_callee(a)),
        None => None,
    }
}

fn clone_some_rest_name(x: &Option<RestName>) -> (r: Option<RestName>)
    ensures
        some_rest_name_view(r) == some_rest_name_view(*x),
    decreases *x,
{
    match x {
        Some(a) => Some(clone_rest_name(a)),
        None => None,
    }
}

fn clone_some_type(x: &Option<Type>) -> (r: Option<Type>)
    ensures
        some_type_view(r) == some_type_view(*x),
    decreases *x,
{
    match x {
        Some(a) => Some(clone_type(a)),
        None => None,
    }
}

fn clone_some_type_return(x: &Option<TypeReturn>) -> (r: Option<TypeReturn>)
    ensures
        some_type_return_view(r) == some_type_return_view(*x),
    decreases *x,
{
    match x {
        Some(a) => Some(clone_type_return(a)),
        None => None,
    }
}

pub fn clone_array_entries(s: &Vec<ArrayEntry>) -> (r: Vec<ArrayEntry>)
    ensures
        array_entries_view(r@) == array_entries_view(s@),
        r@.len() == s@.len(),
    decreases s@,
{
    let mut out: Vec<ArrayEntry> = Vec::new();
    let mut i: usize = 0;
    while i < s.len()
        invariant
            i <= s.len(),
            out@.len() == i,
            forall|j: int| 0 <= j < i ==> array_entry_view(#[trigger] out@[j]) == array_entry_view(s@[j]),
        decreases s.len() - i,
    {
        out.push(clone_array_entry(&s[i]));
        i = i + 1;
    }
    assert(array_entries_view(out@) =~= array_entries_view(s@));
    out
}

pub fn clone_dict_refs(s: &Vec<DictRef>) -> (r: Vec<DictRef>)
    ensures
        dict_refs_view(r@) == dict_refs_view(s@),
        r@.len() == s@.len(),
    decreases s@,
{
    let mut out: Vec<DictRef> = Vec::new();
    let mut i: usize = 0;
    while i < s.len()
        invariant
            i <= s.len(),
            out@.len() == i,
            forall|j: int| 0 <= j < i ==> dict_ref_view(#[trigger] out@[j]) == dict_ref_view(s@[j]),
        decreases s.len() - i,
    {
        out.push(clone_dict_ref(&s[i]));
        i = i + 1;
    }
    assert(dict_refs_view(out@) =~= dict_refs_view(s@));
    out
}

pub fn clone_exprs(s: &Vec<Expr>) -> (r: Vec<Expr>)
    ensures
        exprs_view(r@) == exprs_view(s@),
        r@.len() == s@.len(),
    decreases s@,
{
    let mut out: Vec<Expr> = Vec::new();
    let mut i: usize = 0;
    while i < s.len()
        invariant
            i <= s.len(),
            out@.len() == i,
            forall|j: int| 0 <= j < i ==> expr_view(#[trigger] out@[j]) == expr_view(s@[j]),
        decreases s.len() - i,
    {
        out.push(clone_expr(&s[i]));
        i = i + 1;
    }
    assert(exprs_view(out@) =~= exprs_view(s@));
    out
}

pub fn clone_fundeps(s: &Vec<Fundep>) -> (r: Vec<Fundep>)
    ensures
        fundeps_view(r@) == fundeps_view(s@),
        r@.len() == s@.len(),
    decreases s@,
{
    let mut out: Vec<Fundep> = Vec::new();
    let mut i: usize = 0;
    while i < s.len()
        invariant
            i <= s.len(),
            out@.len() == i,
            forall|j: int| 0 <= j < i ==> fundep_view(#[trigger] out@[j]) == fundep_view(s@[j]),
        decreases s.len() - i,
    {
        out.push(clone_fundep(&s[i]));
        i = i + 1;
    }
    assert(fundeps_view(out@) =~= fundeps_view(s@));
    out
}

pub fn clone_impl_methods(s: &Vec<ImplMethod>) -> (r: Vec<ImplMethod>)
    ensures
        impl_methods_view(r@) == impl_methods_view(s@),
        r@.len() == s@.len(),
    decreases s@,
{
    let mut out: Vec<ImplMethod> = Vec::new();
    let mut i: usize = 0;
    while i < s.len()
        invariant
            i <= s.len(),
            out@.len() == i,
            forall|j: int| 0 <= j < i ==> impl_method_view(#[trigger] out@[j]) == impl_method_view(s@[j]),
        decreases s.len() - i,
    {
        out.push(clone_impl_method(&s[i]));
        i = i + 1;
    }
    assert(impl_methods_view(out@) =~= impl_methods_view(s@));
    out
}

pub fn clone_inherent_methods(s: &Vec<InherentMethod>) -> (r: Vec<InherentMethod>)
    ensures
        inherent_methods_view(r@) == inherent_methods_view(s@),
        r@.len() == s@.len(),
    decreases s@,
{
    let mut out: Vec<InherentMethod> = Vec::new();
    let mut i: usize = 0;
    while i < s.len()
        invariant
            i <= s.len(),
            out@.len() == i,
            forall|j: int| 0 <= j < i ==> inherent_method_view(#[trigger] out@[j]) == inherent_method_view(s@[j]),
        decreases s.len() - i,
    {
        out.push(clone_inherent_method(&s[i]));
        i = i + 1;
    }
    assert(inherent_methods_view(out@) =~= inherent_methods_view(s@));
    out
}

pub fn clone_match_arms(s: &Vec<MatchArm>) -> (r: Vec<MatchArm>)
    ensures
        match_arms_view(r@) == match_arms_view(s@),
        r@.len() == s@.len(),
    decreases s@,
{
    let mut out: Vec<MatchArm> = Vec::new();
    let mut i: usize = 0;
    while i < s.len()
        invariant
            i <= s.len(),
            out@.len() == i,
            forall|j: int| 0 <= j < i ==> match_arm_view(#[trigger] out@[j]) == match_arm_view(s@[j]),
        decreases s.len() - i,
    {
        out.push(clone_match_arm(&s[i]));
        i = i + 1;
    }
    assert(match_arms_view(out@) =~= match_arms_view(s@));
    out
}

pub fn clone_named_types(s: &Vec<NamedType>) -> (r: Vec<NamedType>)
    ensures
        named_types_view(r@) == named_types_view(s@),
        r@.len() == s@.len(),
    decreases s@,
{
    let mut out: Vec<NamedType> = Vec::new();
    let mut i: usize = 0;
    while i < s.len()
        invariant
            i <= s.len(),
            out@.len() == i,
            forall|j: int| 0 <= j < i ==> named_type_view(#[trigger] out@[j]) == named_type_view(s@[j]),
        decreases s.len() - i,
    {
        out.push(clone_named_type(&s[i]));
        i = i + 1;
    }
    assert(named_types_view(out@) =~= named_types_view(s@));
    out
}

pub fn clone_arg_wrappers(s: &Vec<Option<ArgWrapper>>) -> (r: Vec<Option<ArgWrapper>>)
    ensures
        arg_wrappers_view(r@) == arg_wrappers_view(s@),
        r@.len() == s@.len(),
    decreases s@,
{
    let mut out: Vec<Option<ArgWrapper>> = Vec::new();
    let mut i: usize = 0;
    while i < s.len()
        invariant
            i <= s.len(),
            out@.len() == i,
            forall|j: int| 0 <= j < i ==> some_arg_wrapper_view(#[trigger] out@[j]) == some_arg_wrapper_view(s@[j]),
        decreases s.len() - i,
    {
        out.push(clone_some_arg_wrapper(&s[i]));
        i = i + 1;
    }
    assert(arg_wrappers_view(out@) =~= arg_wrappers_view(s@));
    out
}

pub fn clone_params(s: &Vec<Param>) -> (r: Vec<Param>)
    ensures
        params_view(r@) == params_view(s@),
        r@.len() == s@.len(),
    decreases s@,
{
    let mut out: Vec<Param> = Vec::new();
    let mut i: usize = 0;
    while i < s.len()
        invariant
            i <= s.len(),
            out@.len() == i,
            forall|j: int| 0 <= j < i ==> param_view(#[trigger] out@[j]) == param_view(s@[j]),
        decreases s.len() - i,
    {
        out.push(clone_param(&s[i]));
        i = i + 1;
    }
    assert(params_view(out@) =~= params_view(s@));
    out
}

pub fn clone_patterns(s: &Vec<Pattern>) -> (r: Vec<Pattern>)
    ensures
        patterns_view(r@) == patterns_view(s@),
        r@.len() == s@.len(),
    decreases s@,
{
    let mut out: Vec<Pattern> = Vec::new();
    let mut i: usize = 0;
    while i < s.len()
        invariant
            i <= s.len(),
            out@.len() == i,
            forall|j: int| 0 <= j < i ==> pattern_view(#[trigger] out@[j]) == pattern_view(s@[j]),
        decreases s.len() - i,
    {
        out.push(clone_pattern(&s[i]));
        i = i + 1;
    }
    assert(patterns_view(out@) =~= patterns_view(s@));
    out
}

pub fn clone_pattern_fields(s: &Vec<PatternField>) -> (r: Vec<PatternField>)
    ensures
        pattern_fields_view(r@) == pattern_fields_view(s@),
        r@.len() == s@.len(),
    decreases s@,
{
    let mut out: Vec<PatternField> = Vec::new();
    let mut i: usize = 0;
    while i < s.len()
        invariant
            i <= s.len(),
            out@.len() == i,
            forall|j: int| 0 <= j < i ==> pattern_field_view(#[trigger] out@[j]) == pattern_field_view(s@[j]),
        decreases s.len() - i,
    {
        out.push(clone_pattern_field(&s[i]));
        i = i + 1;
    }
    assert(pattern_fields_view(out@) =~= pattern_fields_view(s@));
    out
}

pub fn clone_pending_dict_args(s: &Vec<PendingDictArg>) -> (r: Vec<PendingDictArg>)
    ensures
        pending_dict_args_view(r@) == pending_dict_args_view(s@),
        r@.len() == s@.len(),
    decreases s@,
{
    let mut out: Vec<PendingDictArg> = Vec::new();
    let mut i: usize = 0;
    while i < s.len()
        invariant
            i <= s.len(),
            out@.len() == i,
            forall|j: int| 0 <= j < i ==> pending_dict_arg_view(#[trigger] out@[j]) == pending_dict_arg_view(s@[j]),
        decreases s.len() - i,
    {
        out.push(clone_pending_dict_arg(&s[i]));
        i = i + 1;
    }
    assert(pending_dict_args_view(out@) =~= pending_dict_args_view(s@));
    out
}

pub fn clone_record_entries(s: &Vec<RecordEntry>) -> (r: Vec<RecordEntry>)
    ensures
        record_entries_view(r@) == record_entries_view(s@),
        r@.len() == s@.len(),
    decreases s@,
{
    let mut out: Vec<RecordEntry> = Vec::new();
    let mut i: usize = 0;
    while i < s.len()
        invariant
            i <= s.len(),
            out@.len() == i,
            forall|j: int| 0 <= j < i ==> record_entry_view(#[trigger] out@[j]) == record_entry_view(s@[j]),
        decreases s.len() - i,
    {
        out.push(clone_record_entry(&s[i]));
        i = i + 1;
    }
    assert(record_entries_view(out@) =~= record_entries_view(s@));
    out
}

pub fn clone_stmts(s: &Vec<Stmt>) -> (r: Vec<Stmt>)
    ensures
        stmts_view(r@) == stmts_view(s@),
        r@.len() == s@.len(),
    decreases s@,
{
    let mut out: Vec<Stmt> = Vec::new();
    let mut i: usize = 0;
    while i < s.len()
        invariant
            i <= s.len(),
            out@.len() == i,
            forall|j: int| 0 <= j < i ==> stmt_view(#[trigger] out@[j]) == stmt_view(s@[j]),
        decreases s.len() - i,
    {
        out.push(clone_stmt(&s[i]));
        i = i + 1;
    }
    assert(stmts_view(out@) =~= stmts_view(s@));
    out
}

pub fn clone_trait_methods(s: &Vec<TraitMethod>) -> (r: Vec<TraitMethod>)
    ensures
        trait_methods_view(r@) == trait_methods_view(s@),
        r@.len() == s@.len(),
    decreases s@,
{
    let mut out: Vec<TraitMethod> = Vec::new();
    let mut i: usize = 0;
    while i < s.len()
        invariant
            i <= s.len(),
            out@.len() == i,
            forall|j: int| 0 <= j < i ==> trait_method_view(#[trigger] out@[j]) == trait_method_view(s@[j]),
        decreases s.len() - i,
    {
        out.push(clone_trait_method(&s[i]));
        i = i + 1;
    }
    assert(trait_methods_view(out@) =~= trait_methods_view(s@));
    out
}

pub fn clone_types(s: &Vec<Type>) -> (r: Vec<Type>)
    ensures
        types_view(r@) == types_view(s@),
        r@.len() == s@.len(),
    decreases s@,
{
    let mut out: Vec<Type> = Vec::new();
    let mut i: usize = 0;
    while i < s.len()
        invariant
            i <= s.len(),
            out@.len() == i,
            forall|j: int| 0 <= j < i ==> type_view(#[trigger] out@[j]) == type_view(s@[j]),
        decreases s.len() - i,
    {
        out.push(clone_type(&s[i]));
        i = i + 1;
    }
    assert(types_view(out@) =~= types_view(s@));
    out
}

pub fn clone_type_bounds(s: &Vec<TypeBound>) -> (r: Vec<TypeBound>)
    ensures
        type_bounds_view(r@) == type_bounds_view(s@),
        r@.len() == s@.len(),
    decreases s@,
{
    let mut out: Vec<TypeBound> = Vec::new();
    let mut i: usize = 0;
    while i < s.len()
        invariant
            i <= s.len(),
            out@.len() == i,
            forall|j: int| 0 <= j < i ==> type_bound_view(#[trigger] out@[j]) == type_bound_view(s@[j]),
        decreases s.len() - i,
    {
        out.push(clone_type_bound(&s[i]));
        i = i + 1;
    }
    assert(type_bounds_view(out@) =~= type_bounds_view(s@));
    out
}

pub fn clone_type_params(s: &Vec<TypeParam>) -> (r: Vec<TypeParam>)
    ensures
        type_params_view(r@) == type_params_view(s@),
        r@.len() == s@.len(),
    decreases s@,
{
    let mut out: Vec<TypeParam> = Vec::new();
    let mut i: usize = 0;
    while i < s.len()
        invariant
            i <= s.len(),
            out@.len() == i,
            forall|j: int| 0 <= j < i ==> type_param_view(#[trigger] out@[j]) == type_param_view(s@[j]),
        decreases s.len() - i,
    {
        out.push(clone_type_param(&s[i]));
        i = i + 1;
    }
    assert(type_params_view(out@) =~= type_params_view(s@));
    out
}

pub fn clone_variant_defs(s: &Vec<VariantDef>) -> (r: Vec<VariantDef>)
    ensures
        variant_defs_view(r@) == variant_defs_view(s@),
        r@.len() == s@.len(),
    decreases s@,
{
    let mut out: Vec<VariantDef> = Vec::new();
    let mut i: usize = 0;
    while i < s.len()
        invariant
            i <= s.len(),
            out@.len() == i,
            forall|j: int| 0 <= j < i ==> variant_def_view(#[trigger] out@[j]) == variant_def_view(s@[j]),
        decreases s.len() - i,
    {
        out.push(clone_variant_def(&s[i]));
        i = i + 1;
    }
    assert(variant_defs_view(out@) =~= variant_defs_view(s@));
    out
}

} // verus!
