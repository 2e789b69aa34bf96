//! The syntax tree as mathematical values.

use vstd::prelude::*;

use crate::ast::{ArgWrapper, ArrayEntry, AssociatedAccessResolution, BinOp, DictRef};
use crate::ast::{DictTarget, Expr, ExprKind, FnDef, Fundep, GeneratedBy, ImplDef, ImplMethod};
use crate::ast::{InherentImplDef, InherentMethod, MacroDef, MatchArm, NamedType, NodeId};
use crate::ast::{NumberLiteral, Param, Pattern, PatternField, PendingDictArg, PendingMethod};
use crate::ast::{Program, RecordEntry, ResolvedCallee, RestName, SourceSpan, Stmt};
use crate::ast::{StructuralDictRef, SyntaxCaptureInfo, TraitDef, TraitMethod, Type, TypeBound};
use crate::ast::{TypeDef, TypeParam, TypeReturn, VariantDef};
use crate::text::strings_view;
use crate::ty::{tys_view, TyV, TyVar};

verus! {

/// The view of a [`TypeParam`].
pub struct TypeParamV {
    pub ty: TypeV,
    pub mut_place: bool,
}

/// The view of a [`TypeReturn`].
pub struct TypeReturnV {
    pub ty: Box<TypeV>,
    pub mut_place: bool,
}

/// The view of a [`Type`].
pub enum TypeV {
    Ident(Seq<char>),
    Var(Seq<char>),
    App(Box<TypeV>, Seq<TypeV>),
    Func(Seq<TypeParamV>, TypeReturnV),
    Tuple(Seq<TypeV>),
    Record(Seq<NamedTypeV>, bool),
    Unit,
    Never,
    Hole,
}

/// The view of a [`NumberLiteral`].
pub enum NumberLiteralV {
    Int(i64),
    Float(Seq<char>),
}

/// The view of a [`Pattern`].
#[allow(inconsistent_fields)]
pub enum PatternV {
    Wildcard,
    StringLit(Seq<char>),
    NumberLit(NumberLiteralV),
    BoolLit(bool),
    IntRange {
        start: i64,
        end: i64,
        inclusive: bool,
    },
    Variable(Seq<char>, SourceSpan),
    Constructor {
        name: Seq<char>,
        binding: Option<Box<PatternV>>,
    },
    Record {
        fields: Seq<PatternFieldV>,
        rest: Option<Option<RestNameV>>,
    },
    List {
        elements: Seq<PatternV>,
        rest: Option<Option<RestNameV>>,
    },
    Tuple(Seq<PatternV>),
    SyntaxQuote(Seq<SyntaxCaptureV>),
}

/// The view of a [`SyntaxCaptureInfo`].
pub struct SyntaxCaptureV {
    pub name: Seq<char>,
    pub category: Seq<char>,
    pub repeat: bool,
    pub span: SourceSpan,
}

/// The view of a [`PatternField`].
pub struct PatternFieldV {
    pub field: Seq<char>,
    pub binding: Seq<char>,
    pub span: SourceSpan,
}

/// The view of a [`RestName`].
pub struct RestNameV {
    pub name: Seq<char>,
    pub span: SourceSpan,
}

/// The view of a [`Param`].
pub struct ParamV {
    pub pat: PatternV,
    pub ty: Option<TypeV>,
    pub mut_place: bool,
}

/// The view of a [`BinOp`].
pub enum BinOpV {
    Pipe,
    Custom(Seq<char>),
}

/// The view of a [`StructuralDictRef`].
pub struct StructuralDictRefV {
    pub trait_name: Seq<char>,
    pub target: DictTarget,
    pub args: Seq<DictRefV>,
}

/// The view of a [`DictRef`].
pub enum DictRefV {
    Concrete(Seq<char>),
    Applied {
        dict: Seq<char>,
        args: Seq<DictRefV>,
    },
    Param(Seq<char>),
    Composed(StructuralDictRefV),
}

/// The view of a [`PendingDictArg`].
pub struct PendingDictArgV {
    pub var: TyVar,
    pub trait_name: Seq<char>,
    pub args: Seq<TyV>,
    pub determinant_indexes: Seq<usize>,
}

/// The view of a [`ResolvedCallee`].
#[allow(inconsistent_fields)]
pub enum ResolvedCalleeV {
    Function(Seq<char>),
    InherentMethod {
        dict: Seq<char>,
        method: Seq<char>,
    },
    DictMethod {
        dict: DictRefV,
        method: Seq<char>,
    },
}

/// The view of a [`PendingMethod`].
pub struct PendingMethodV {
    pub pending: PendingDictArgV,
    pub method: Seq<char>,
}

/// The view of a [`ArgWrapper`].
pub struct ArgWrapperV {
    pub dict_args: Seq<DictRefV>,
    pub pending_dict_args: Seq<PendingDictArgV>,
}

/// The view of a [`AssociatedAccessResolution`].
pub enum AssociatedAccessResolutionV {
    TraitMethod {
        method: Seq<char>,
        dict: Option<DictRefV>,
    },
    Inherent(ResolvedCalleeV),
}

/// The view of a [`ArrayEntry`].
pub enum ArrayEntryV {
    Elem(ExprV),
    Spread(ExprV),
}

/// The view of a [`RecordEntry`].
pub enum RecordEntryV {
    Field(Seq<char>, ExprV),
    Spread(ExprV),
}

/// The view of a [`MatchArm`].
pub struct MatchArmV {
    pub pattern: PatternV,
    pub body: ExprV,
}

/// The view of a [`Expr`].
pub struct ExprV {
    pub id: NodeId,
    pub span: SourceSpan,
    pub kind: ExprKindV,
}

/// The view of a [`ExprKind`].
#[allow(inconsistent_fields)]
pub enum ExprKindV {
    Grouped(Box<ExprV>),
    Number(NumberLiteralV),
    StringLit(Seq<char>),
    Bool(bool),
    Ident(Seq<char>),
    Unit,
    Import(Seq<char>),
    Not(Box<ExprV>),
    Neg {
        operand: Box<ExprV>,
        resolved_op: Option<ResolvedCalleeV>,
        pending_op: Option<PendingDictArgV>,
    },
    Assign {
        target: Box<ExprV>,
        value: Box<ExprV>,
    },
    Binary {
        lhs: Box<ExprV>,
        op: BinOpV,
        rhs: Box<ExprV>,
        resolved_op: Option<ResolvedCalleeV>,
        pending_op: Option<PendingDictArgV>,
        dict_args: Seq<DictRefV>,
        pending_dict_args: Seq<PendingDictArgV>,
    },
    Range {
        start: Option<Box<ExprV>>,
        end: Option<Box<ExprV>>,
        inclusive: bool,
    },
    Call {
        callee: Box<ExprV>,
        args: Seq<ExprV>,
        is_method_call: bool,
        arg_wrappers: Seq<Option<ArgWrapperV>>,
        resolved_callee: Option<ResolvedCalleeV>,
        pending_trait_method: Option<PendingMethodV>,
        dict_args: Seq<DictRefV>,
        pending_dict_args: Seq<PendingDictArgV>,
    },
    AssociatedAccess {
        target: TypeV,
        target_span: SourceSpan,
        member: Seq<char>,
        member_span: SourceSpan,
        resolution: Option<AssociatedAccessResolutionV>,
    },
    If {
        cond: Box<ExprV>,
        then_branch: Box<ExprV>,
        else_branch: Box<ExprV>,
    },
    Match {
        scrutinee: Box<ExprV>,
        arms: Seq<MatchArmV>,
    },
    Loop(Box<ExprV>),
    Break(Option<Box<ExprV>>),
    Continue,
    Return(Option<Box<ExprV>>),
    Block {
        stmts: Seq<StmtV>,
        final_expr: Option<Box<ExprV>>,
    },
    Tuple(Seq<ExprV>),
    Array(Seq<ArrayEntryV>),
    Record(Seq<RecordEntryV>),
    FieldAccess {
        expr: Box<ExprV>,
        field: Seq<char>,
    },
    Index {
        receiver: Box<ExprV>,
        key: Box<ExprV>,
        resolved_callee: Option<ResolvedCalleeV>,
        pending_trait_method: Option<PendingMethodV>,
        dict_args: Seq<DictRefV>,
        pending_dict_args: Seq<PendingDictArgV>,
    },
    Lambda {
        params: Seq<ParamV>,
        return_type: Option<TypeV>,
        body: Box<ExprV>,
        dict_params: Seq<Seq<char>>,
    },
    For {
        pat: PatternV,
        iterable: Box<ExprV>,
        body: Box<ExprV>,
        resolved_iter: Option<ResolvedCalleeV>,
        pending_iter: Option<PendingDictArgV>,
    },
}

/// The view of a [`TypeBound`].
pub struct TypeBoundV {
    pub args: Seq<TypeV>,
    pub traits: Seq<Seq<char>>,
    pub fundep_arrow_index: Option<usize>,
}

/// The view of a [`FnDef`].
pub struct FnDefV {
    pub name: Seq<char>,
    pub name_span: SourceSpan,
    pub params: Seq<ParamV>,
    pub ret_type: Option<TypeReturnV>,
    pub body: ExprV,
    pub dict_params: Seq<Seq<char>>,
    pub type_bounds: Seq<TypeBoundV>,
    pub is_test: bool,
    pub span: SourceSpan,
}

/// The view of a [`Fundep`].
pub struct FundepV {
    pub determinants: Seq<usize>,
    pub dependents: Seq<usize>,
}

/// The view of a [`TraitMethod`].
pub struct TraitMethodV {
    pub name: Seq<char>,
    pub params: Seq<NamedTypeV>,
    pub ret_type: TypeV,
    pub fixity: Option<usize>,
    pub inline: bool,
    pub span: SourceSpan,
}

/// The view of a [`NamedType`].
pub struct NamedTypeV {
    pub name: Seq<char>,
    pub ty: TypeV,
}

/// The view of a [`TraitDef`].
pub struct TraitDefV {
    pub name: Seq<char>,
    pub name_span: SourceSpan,
    pub params: Seq<Seq<char>>,
    pub fundeps: Seq<FundepV>,
    pub methods: Seq<TraitMethodV>,
    pub span: SourceSpan,
}

/// The view of a [`ImplMethod`].
pub struct ImplMethodV {
    pub name: Seq<char>,
    pub name_span: SourceSpan,
    pub params: Seq<ParamV>,
    pub ret_type: Option<TypeReturnV>,
    pub body: ExprV,
    pub inline: bool,
    pub span: SourceSpan,
}

/// The view of a [`GeneratedBy`].
pub enum GeneratedByV {
    Derive {
        trait_name: Seq<char>,
        source_span: SourceSpan,
    },
}

/// The view of a [`ImplDef`].
pub struct ImplDefV {
    pub trait_name: Seq<char>,
    pub trait_args: Seq<TypeV>,
    pub type_bounds: Seq<TypeBoundV>,
    pub methods: Seq<ImplMethodV>,
    pub dict_params: Seq<Seq<char>>,
    pub dict_arg_indexes: Seq<usize>,
    pub fundep_arrow_index: Option<usize>,
    pub generated_by: Option<GeneratedByV>,
    pub span: SourceSpan,
}

/// The view of a [`InherentMethod`].
pub struct InherentMethodV {
    pub name: Seq<char>,
    pub name_span: SourceSpan,
    pub params: Seq<ParamV>,
    pub ret_type: Option<TypeReturnV>,
    pub body: ExprV,
    pub dict_params: Seq<Seq<char>>,
    pub type_bounds: Seq<TypeBoundV>,
    pub span: SourceSpan,
}

/// The view of a [`InherentImplDef`].
pub struct InherentImplDefV {
    pub target: TypeV,
    pub type_bounds: Seq<TypeBoundV>,
    pub methods: Seq<InherentMethodV>,
    pub span: SourceSpan,
}

/// The view of a [`VariantDef`].
pub struct VariantDefV {
    pub name: Seq<char>,
    pub name_span: SourceSpan,
    pub payload: Option<TypeV>,
}

/// The view of a [`TypeDef`].
pub struct TypeDefV {
    pub name: Seq<char>,
    pub name_span: SourceSpan,
    pub params: Seq<Seq<char>>,
    pub variants: Seq<VariantDefV>,
    pub span: SourceSpan,
}

/// The view of a [`MacroDef`].
pub struct MacroDefV {
    pub name: Seq<char>,
    pub param_name: Seq<char>,
    pub param_span: SourceSpan,
    pub param_ty: TypeV,
    pub param_ty_span: SourceSpan,
    pub ret_ty: TypeV,
    pub ret_ty_span: SourceSpan,
    pub body: ExprV,
    pub span: SourceSpan,
}

/// The view of a [`Stmt`].
#[allow(inconsistent_fields)]
pub enum StmtV {
    Let {
        pat: PatternV,
        is_mutable: bool,
        ty: Option<TypeV>,
        value: ExprV,
        span: SourceSpan,
    },
    Fn(FnDefV),
    Op(FnDefV),
    Macro(MacroDefV),
    Trait(TraitDefV),
    Impl(ImplDefV),
    InherentImpl(InherentImplDefV),
    Type(TypeDefV),
    TypeAlias {
        name: Seq<char>,
        name_span: SourceSpan,
        params: Seq<Seq<char>>,
        ty: TypeV,
        span: SourceSpan,
    },
    Extern {
        name: Seq<char>,
        name_span: SourceSpan,
        ty: TypeV,
        span: SourceSpan,
    },
    TestBlock {
        stmts: Seq<StmtV>,
        span: SourceSpan,
    },
    RecBlock {
        stmts: Seq<StmtV>,
        span: SourceSpan,
    },
    Expr(ExprV),
}

/// The view of a [`Program`].
pub struct ProgramV {
    pub stmts: Seq<StmtV>,
}

pub open spec fn type_param_view(x: TypeParam) -> TypeParamV
    decreases x,
{
    TypeParamV {
        ty: type_view(x.ty),
        mut_place: x.mut_place,
    }
}

pub open spec fn type_return_view(x: TypeReturn) -> TypeReturnV
    decreases x,
{
    TypeReturnV {
        ty: Box::new(type_view(*x.ty)),
        mut_place: x.mut_place,
    }
}

pub open spec fn type_view(x: Type) -> TypeV
    decreases x,
{
    match x {
        Type::Ident(a) => TypeV::Ident(a@),
        Type::Var(a) => TypeV::Var(a@),
        Type::App(a, b) => TypeV::App(Box::new(type_view(*a)), types_view(b@)),
        Type::Func(a, b) => TypeV::Func(type_params_view(a@), type_return_view(b)),
        Type::Tuple(a) => TypeV::Tuple(types_view(a@)),
        Type::Record(a, b) => TypeV::Record(named_types_view(a@), b),
        Type::Unit => TypeV::Unit,
        Type::Never => TypeV::Never,
        Type::Hole => TypeV::Hole,
    }
}

pub open spec fn number_literal_view(x: NumberLiteral) -> NumberLiteralV
    decreases x,
{
    match x {
        NumberLiteral::Int(a) => NumberLiteralV::Int(a),
        NumberLiteral::Float(a) => NumberLiteralV::Float(a@),
    }
}

pub open spec fn pattern_view(x: Pattern) -> PatternV
    decreases x,
{
    match x {
        Pattern::Wildcard => PatternV::Wildcard,
        Pattern::StringLit(a) => PatternV::StringLit(a@),
        Pattern::NumberLit(a) => PatternV::NumberLit(number_literal_view(a)),
        Pattern::BoolLit(a) => PatternV::BoolLit(a),
        Pattern::IntRange { start, end, inclusive } => PatternV::IntRange {
            start: start,
            end: end,
            inclusive: inclusive,
        },
        Pattern::Variable(a, b) => PatternV::Variable(a@, b),
        Pattern::Constructor { name, binding } => PatternV::Constructor {
            name: name@,
            binding: boxed_pattern_view(binding),
        },
        Pattern::Record { fields, rest } => PatternV::Record {
            fields: pattern_fields_view(fields@),
            rest: open_rest_name_view(rest),
        },
        Pattern::List { elements, rest } => PatternV::List {
            elements: patterns_view(elements@),
            rest: open_rest_name_view(rest),
        },
        Pattern::Tuple(a) => PatternV::Tuple(patterns_view(a@)),
        Pattern::SyntaxQuote(a) => PatternV::SyntaxQuote(syntax_captures_view(a@)),
    }
}

pub open spec fn syntax_capture_view(x: SyntaxCaptureInfo) -> SyntaxCaptureV {
    SyntaxCaptureV { name: x.name@, category: x.category@, repeat: x.repeat, span: x.span }
}

pub open spec fn syntax_captures_view(s: Seq<SyntaxCaptureInfo>) -> Seq<SyntaxCaptureV> {
    Seq::new(s.len(), |i: int| syntax_capture_view(s[i]))
}

pub open spec fn pattern_field_view(x: PatternField) -> PatternFieldV
    decreases x,
{
    PatternFieldV {
        field: x.field@,
        binding: x.binding@,
        span: x.span,
    }
}

pub open spec fn rest_name_view(x: RestName) -> RestNameV
    decreases x,
{
    RestNameV {
        name: x.name@,
        span: x.span,
    }
}

pub open spec fn param_view(x: Param) -> ParamV
    decreases x,
{
    ParamV {
        pat: pattern_view(x.pat),
        ty: some_type_view(x.ty),
        mut_place: x.mut_place,
    }
}

pub open spec fn bin_op_view(x: BinOp) -> BinOpV
    decreases x,
{
    match x {
        BinOp::Pipe => BinOpV::Pipe,
        BinOp::Custom(a) => BinOpV::Custom(a@),
    }
}

pub open spec fn structural_dict_ref_view(x: StructuralDictRef) -> StructuralDictRefV
    decreases x,
{
    StructuralDictRefV {
        trait_name: x.trait_name@,
        target: x.target,
        args: dict_refs_view(x.args@),
    }
}

pub open spec fn dict_ref_view(x: DictRef) -> DictRefV
    decreases x,
{
    match x {
        DictRef::Concrete(a) => DictRefV::Concrete(a@),
        DictRef::Applied { dict, args } => DictRefV::Applied {
            dict: dict@,
            args: dict_refs_view(args@),
        },
        DictRef::Param(a) => DictRefV::Param(a@),
        DictRef::Composed(a) => DictRefV::Composed(structural_dict_ref_view(a)),
    }
}

pub open spec fn pending_dict_arg_view(x: PendingDictArg) -> PendingDictArgV
    decreases x,
{
    PendingDictArgV {
        var: x.var,
        trait_name: x.trait_name@,
        args: tys_view(x.args@),
        determinant_indexes: x.determinant_indexes@,
    }
}

pub open spec fn resolved_callee_view(x: ResolvedCallee) -> ResolvedCalleeV
    decreases x,
{
    match x {
        ResolvedCallee::Function(a) => ResolvedCalleeV::Function(a@),
        ResolvedCallee::InherentMethod { dict, method } => ResolvedCalleeV::InherentMethod {
            dict: dict@,
            method: method@,
        },
        ResolvedCallee::DictMethod { dict, method } => ResolvedCalleeV::DictMethod {
            dict: dict_ref_view(dict),
            method: method@,
        },
    }
}

pub open spec fn pending_method_view(x: PendingMethod) -> PendingMethodV
    decreases x,
{
    PendingMethodV {
        pending: pending_dict_arg_view(x.pending),
        method: x.method@,
    }
}

pub open spec fn arg_wrapper_view(x: ArgWrapper) -> ArgWrapperV
    decreases x,
{
    ArgWrapperV {
        dict_args: dict_refs_view(x.dict_args@),
        pending_dict_args: pending_dict_args_view(x.pending_dict_args@),
    }
}

pub open spec fn associated_access_resolution_view(x: AssociatedAccessResolution) -> AssociatedAccessResolutionV
    decreases x,
{
    match x {
        AssociatedAccessResolution::TraitMethod { method, dict } => AssociatedAccessResolutionV::TraitMethod {
            method: method@,
            dict: some_dict_ref_view(dict),
        },
        AssociatedAccessResolution::Inherent(a) => AssociatedAccessResolutionV::Inherent(resolved_callee_view(a)),
    }
}

pub open spec fn array_entry_view(x: ArrayEntry) -> ArrayEntryV
    decreases x,
{
    match x {
        ArrayEntry::Elem(a) => ArrayEntryV::Elem(expr_view(a)),
        ArrayEntry::Spread(a) => ArrayEntryV::Spread(expr_view(a)),
    }
}

pub open spec fn record_entry_view(x: RecordEntry) -> RecordEntryV
    decreases x,
{
    match x {
        RecordEntry::Field(a, b) => RecordEntryV::Field(a@, expr_view(b)),
        RecordEntry::Spread(a) => RecordEntryV::Spread(expr_view(a)),
    }
}

pub open spec fn match_arm_view(x: MatchArm) -> MatchArmV
    decreases x,
{
    MatchArmV {
        pattern: pattern_view(x.pattern),
        body: expr_view(x.body),
    }
}

pub open spec fn expr_view(x: Expr) -> ExprV
    decreases x,
{
    ExprV {
        id: x.id,
        span: x.span,
        kind: expr_kind_view(x.kind),
    }
}

pub open spec fn expr_kind_view(x: ExprKind) -> ExprKindV
    decreases x,
{
    match x {
        ExprKind::Grouped(a) => ExprKindV::Grouped(Box::new(expr_view(*a))),
        ExprKind::Number(a) => ExprKindV::Number(number_literal_view(a)),
        ExprKind::StringLit(a) => ExprKindV::StringLit(a@),
        ExprKind::Bool(a) => ExprKindV::Bool(a),
        ExprKind::Ident(a) => ExprKindV::Ident(a@),
        ExprKind::Unit => ExprKindV::Unit,
        ExprKind::Import(a) => ExprKindV::Import(a@),
        ExprKind::Not(a) => ExprKindV::Not(Box::new(expr_view(*a))),
        ExprKind::Neg { operand, resolved_op, pending_op } => ExprKindV::Neg {
            operand: Box::new(expr_view(*operand)),
            resolved_op: some_resolved_callee_view(resolved_op),
            pending_op: some_pending_dict_arg_view(pending_op),
        },
        ExprKind::Assign { target, value } => ExprKindV::Assign {
            target: Box::new(expr_view(*target)),
            value: Box::new(expr_view(*value)),
        },
        ExprKind::Binary { lhs, op, rhs, resolved_op, pending_op, dict_args, pending_dict_args } => ExprKindV::Binary {
            lhs: Box::new(expr_view(*lhs)),
            op: bin_op_view(op),
            rhs: Box::new(expr_view(*rhs)),
            resolved_op: some_resolved_callee_view(resolved_op),
            pending_op: some_pending_dict_arg_view(pending_op),
            dict_args: dict_refs_view(dict_args@),
            pending_dict_args: pending_dict_args_view(pending_dict_args@),
        },
        ExprKind::Range { start, end, inclusive } => ExprKindV::Range {
            start: boxed_expr_view(start),
            end: boxed_expr_view(end),
            inclusive: inclusive,
        },
        ExprKind::Call { callee, args, is_method_call, arg_wrappers, resolved_callee, pending_trait_method, dict_args, pending_dict_args } => ExprKindV::Call {
            callee: Box::new(expr_view(*callee)),
            args: exprs_view(args@),
            is_method_call: is_method_call,
            arg_wrappers: arg_wrappers_view(arg_wrappers@),
            resolved_callee: some_resolved_callee_view(resolved_callee),
            pending_trait_method: some_pending_method_view(pending_trait_method),
            dict_args: dict_refs_view(dict_args@),
            pending_dict_args: pending_dict_args_view(pending_dict_args@),
        },
        ExprKind::AssociatedAccess { target, target_span, member, member_span, resolution } => ExprKindV::AssociatedAccess {
            target: type_view(target),
            target_span: target_span,
            member: member@,
            member_span: member_span,
            resolution: some_associated_access_resolution_view(resolution),
        },
        ExprKind::If { cond, then_branch, else_branch } => ExprKindV::If {
            cond: Box::new(expr_view(*cond)),
            then_branch: Box::new(expr_view(*then_branch)),
            else_branch: Box::new(expr_view(*else_branch)),
        },
        ExprKind::Match { scrutinee, arms } => ExprKindV::Match {
            scrutinee: Box::new(expr_view(*scrutinee)),
            arms: match_arms_view(arms@),
        },
        ExprKind::Loop(a) => ExprKindV::Loop(Box::new(expr_view(*a))),
        ExprKind::Break(a) => ExprKindV::Break(boxed_expr_view(a)),
        ExprKind::Continue => ExprKindV::Continue,
        ExprKind::Return(a) => ExprKindV::Return(boxed_expr_view(a)),
        ExprKind::Block { stmts, final_expr } => ExprKindV::Block {
            stmts: stmts_view(stmts@),
            final_expr: boxed_expr_view(final_expr),
        },
        ExprKind::Tuple(a) => ExprKindV::Tuple(exprs_view(a@)),
        ExprKind::Array(a) => ExprKindV::Array(array_entries_view(a@)),
        ExprKind::Record(a) => ExprKindV::Record(record_entries_view(a@)),
        ExprKind::FieldAccess { expr, field } => ExprKindV::FieldAccess {
            expr: Box::new(expr_view(*expr)),
            field: field@,
        },
        ExprKind::Index { receiver, key, resolved_callee, pending_trait_method, dict_args, pending_dict_args } => ExprKindV::Index {
            receiver: Box::new(expr_view(*receiver)),
            key: Box::new(expr_view(*key)),
            resolved_callee: some_resolved_callee_view(resolved_callee),
            pending_trait_method: some_pending_method_view(pending_trait_method),
            dict_args: dict_refs_view(dict_args@),
            pending_dict_args: pending_dict_args_view(pending_dict_args@),
        },
        ExprKind::Lambda { params, return_type, body, dict_params } => ExprKindV::Lambda {
            params: params_view(params@),
            return_type: some_type_view(return_type),
            body: Box::new(expr_view(*body)),
            dict_params: strings_view(dict_params@),
        },
        ExprKind::For { pat, iterable, body, resolved_iter, pending_iter } => ExprKindV::For {
            pat: pattern_view(pat),
            iterable: Box::new(expr_view(*iterable)),
            body: Box::new(expr_view(*body)),
            resolved_iter: some_resolved_callee_view(resolved_iter),
            pending_iter: some_pending_dict_arg_view(pending_iter),
        },
    }
}

pub open spec fn type_bound_view(x: TypeBound) -> TypeBoundV
    decreases x,
{
    TypeBoundV {
        args: types_view(x.args@),
        traits: strings_view(x.traits@),
        fundep_arrow_index: x.fundep_arrow_index,
    }
}

pub open spec fn fn_def_view(x: FnDef) -> FnDefV
    decreases x,
{
    FnDefV {
        name: x.name@,
        name_span: x.name_span,
        params: params_view(x.params@),
        ret_type: some_type_return_view(x.ret_type),
        body: expr_view(x.body),
        dict_params: strings_view(x.dict_params@),
        type_bounds: type_bounds_view(x.type_bounds@),
        is_test: x.is_test,
        span: x.span,
    }
}

pub open spec fn fundep_view(x: Fundep) -> FundepV
    decreases x,
{
    FundepV {
        determinants: x.determinants@,
        dependents: x.dependents@,
    }
}

pub open spec fn trait_method_view(x: TraitMethod) -> TraitMethodV
    decreases x,
{
    TraitMethodV {
        name: x.name@,
        params: named_types_view(x.params@),
        ret_type: type_view(x.ret_type),
        fixity: x.fixity,
        inline: x.inline,
        span: x.span,
    }
}

pub open spec fn named_type_view(x: NamedType) -> NamedTypeV
    decreases x,
{
    NamedTypeV {
        name: x.name@,
        ty: type_view(x.ty),
    }
}

pub open spec fn trait_def_view(x: TraitDef) -> TraitDefV
    decreases x,
{
    TraitDefV {
        name: x.name@,
        name_span: x.name_span,
        params: strings_view(x.params@),
        fundeps: fundeps_view(x.fundeps@),
        methods: trait_methods_view(x.methods@),
        span: x.span,
    }
}

pub open spec fn impl_method_view(x: ImplMethod) -> ImplMethodV
    decreases x,
{
    ImplMethodV {
        name: x.name@,
        name_span: x.name_span,
        params: params_view(x.params@),
        ret_type: some_type_return_view(x.ret_type),
        body: expr_view(x.body),
        inline: x.inline,
        span: x.span,
    }
}

pub open spec fn generated_by_view(x: GeneratedBy) -> GeneratedByV
    decreases x,
{
    match x {
        GeneratedBy::Derive { trait_name, source_span } => GeneratedByV::Derive {
            trait_name: trait_name@,
            source_span: source_span,
        },
    }
}

pub open spec fn impl_def_view(x: ImplDef) -> ImplDefV
    decreases x,
{
    ImplDefV {
        trait_name: x.trait_name@,
        trait_args: types_view(x.trait_args@),
        type_bounds: type_bounds_view(x.type_bounds@),
        methods: impl_methods_view(x.methods@),
        dict_params: strings_view(x.dict_params@),
        dict_arg_indexes: x.dict_arg_indexes@,
        fundep_arrow_index: x.fundep_arrow_index,
        generated_by: some_generated_by_view(x.generated_by),
        span: x.span,
    }
}

pub open spec fn inherent_method_view(x: InherentMethod) -> InherentMethodV
    decreases x,
{
    InherentMethodV {
        name: x.name@,
        name_span: x.name_span,
        params: params_view(x.params@),
        ret_type: some_type_return_view(x.ret_type),
        body: expr_view(x.body),
        dict_params: strings_view(x.dict_params@),
        type_bounds: type_bounds_view(x.type_bounds@),
        span: x.span,
    }
}

pub open spec fn inherent_impl_def_view(x: InherentImplDef) -> InherentImplDefV
    decreases x,
{
    InherentImplDefV {
        target: type_view(x.target),
        type_bounds: type_bounds_view(x.type_bounds@),
        methods: inherent_methods_view(x.methods@),
        span: x.span,
    }
}

pub open spec fn variant_def_view(x: VariantDef) -> VariantDefV
    decreases x,
{
    VariantDefV {
        name: x.name@,
        name_span: x.name_span,
        payload: some_type_view(x.payload),
    }
}

pub open spec fn type_def_view(x: TypeDef) -> TypeDefV
    decreases x,
{
    TypeDefV {
        name: x.name@,
        name_span: x.name_span,
        params: strings_view(x.params@),
        variants: variant_defs_view(x.variants@),
        span: x.span,
    }
}

pub open spec fn macro_def_view(x: MacroDef) -> MacroDefV
    decreases x,
{
    MacroDefV {
        name: x.name@,
        param_name: x.param_name@,
        param_span: x.param_span,
        param_ty: type_view(x.param_ty),
        param_ty_span: x.param_ty_span,
        ret_ty: type_view(x.ret_ty),
        ret_ty_span: x.ret_ty_span,
        body: expr_view(x.body),
        span: x.span,
    }
}

pub open spec fn stmt_view(x: Stmt) -> StmtV
    decreases x,
{
    match x {
        Stmt::Let { pat, is_mutable, ty, value, span } => StmtV::Let {
            pat: pattern_view(pat),
            is_mutable: is_mutable,
            ty: some_type_view(ty),
            value: expr_view(value),
            span: span,
        },
        Stmt::Fn(a) => StmtV::Fn(fn_def_view(a)),
        Stmt::Op(a) => StmtV::Op(fn_def_view(a)),
        Stmt::Macro(a) => StmtV::Macro(macro_def_view(a)),
        Stmt::Trait(a) => StmtV::Trait(trait_def_view(a)),
        Stmt::Impl(a) => StmtV::Impl(impl_def_view(a)),
        Stmt::InherentImpl(a) => StmtV::InherentImpl(inherent_impl_def_view(a)),
        Stmt::Type(a) => StmtV::Type(type_def_view(a)),
        Stmt::TypeAlias { name, name_span, params, ty, span } => StmtV::TypeAlias {
            name: name@,
            name_span: name_span,
            params: strings_view(params@),
            ty: type_view(ty),
            span: span,
        },
        Stmt::Extern { name, name_span, ty, span } => StmtV::Extern {
            name: name@,
            name_span: name_span,
            ty: type_view(ty),
            span: span,
        },
        Stmt::TestBlock { stmts, span } => StmtV::TestBlock {
            stmts: stmts_view(stmts@),
            span: span,
        },
        Stmt::RecBlock { stmts, span } => StmtV::RecBlock {
            stmts: stmts_view(stmts@),
            span: span,
        },
        Stmt::Expr(a) => StmtV::Expr(expr_view(a)),
    }
}

pub open spec fn program_view(x: Program) -> ProgramV
    decreases x,
{
    ProgramV {
        stmts: stmts_view(x.stmts@),
    }
}

pub open spec fn some_associated_access_resolution_view(x: Option<AssociatedAccessResolution>) -> Option<AssociatedAccessResolutionV>
    decreases x,
{
    match x {
        Some(a) => Some(associated_access_resolution_view(a)),
        None => None,
    }
}

pub open spec fn boxed_expr_view(x: Option<Box<Expr>>) -> Option<Box<ExprV>>
    decreases x,
{
    match x {
        Some(a) => Some(Box::new(expr_view(*a))),
        None => None,
    }
}

pub open spec fn boxed_pattern_view(x: Option<Box<Pattern>>) -> Option<Box<PatternV>>
    decreases x,
{
    match x {
        Some(a) => Some(Box::new(pattern_view(*a))),
        None => None,
    }
}

pub open spec fn some_dict_ref_view(x: Option<DictRef>) -> Option<DictRefV>
    decreases x,
{
    match x {
        Some(a) => Some(dict_ref_view(a)),
        None => None,
    }
}

pub open spec fn some_generated_by_view(x: Option<GeneratedBy>) -> Option<GeneratedByV>
    decreases x,
{
    match x {
        Some(a) => Some(generated_by_view(a)),
        None => None,
    }
}

pub open spec fn open_rest_name_view(x: Option<Option<RestName>>) -> Option<Option<RestNameV>>
    decreases x,
{
    match x {
        Some(a) => Some(some_rest_name_view(a)),
        None => None,
    }
}

pub open spec fn some_pending_dict_arg_view(x: Option<PendingDictArg>) -> Option<PendingDictArgV>
    decreases x,
{
    match x {
        Some(a) => Some(pending_dict_arg_view(a)),
        None => None,
    }
}

pub open spec fn some_pending_method_view(x: Option<PendingMethod>) -> Option<PendingMethodV>
    decreases x,
{
    match x {
        Some(a) => Some(pending_method_view(a)),
        None => None,
    }
}

pub open spec fn some_resolved_callee_view(x: Option<ResolvedCallee>) -> Option<ResolvedCalleeV>
    decreases x,
{
    match x {
        Some(a) => Some(resolved_callee_view(a)),
        None => None,
    }
}

pub open spec fn some_type_view(x: Option<Type>) -> Option<TypeV>
    decreases x,
{
    match x {
        Some(a) => Some(type_view(a)),
        None => None,
    }
}

pub open spec fn some_type_return_view(x: Option<TypeReturn>) -> Option<TypeReturnV>
    decreases x,
{
    match x {
        Some(a) => Some(type_return_view(a)),
        None => None,
    }
}

pub open spec fn array_entries_view(s: Seq<ArrayEntry>) -> Seq<ArrayEntryV>
    decreases s,
{
    Seq::new(
        s.len(),
        |i: int|
            if 0 <= i < s.len() {
                array_entry_view(s[i])
            } else {
                arbitrary()
            },
    )
}

pub open spec fn dict_refs_view(s: Seq<DictRef>) -> Seq<DictRefV>
    decreases s,
{
    Seq::new(
        s.len(),
        |i: int|
            if 0 <= i < s.len() {
                dict_ref_view(s[i])
            } else {
                arbitrary()
            },
    )
}

pub open spec fn exprs_view(s: Seq<Expr>) -> Seq<ExprV>
    decreases s,
{
    Seq::new(
        s.len(),
        |i: int|
            if 0 <= i < s.len() {
                expr_view(s[i])
            } else {
                arbitrary()
            },
    )
}

pub open spec fn fundeps_view(s: Seq<Fundep>) -> Seq<FundepV>
    decreases s,
{
    Seq::new(
        s.len(),
        |i: int|
            if 0 <= i < s.len() {
                fundep_view(s[i])
            } else {
                arbitrary()
            },
    )
}

pub open spec fn impl_methods_view(s: Seq<ImplMethod>) -> Seq<ImplMethodV>
    decreases s,
{
    Seq::new(
        s.len(),
        |i: int|
            if 0 <= i < s.len() {
                impl_method_view(s[i])
            } else {
                arbitrary()
            },
    )
}

pub open spec fn inherent_methods_view(s: Seq<InherentMethod>) -> Seq<InherentMethodV>
    decreases s,
{
    Seq::new(
        s.len(),
        |i: int|
            if 0 <= i < s.len() {
                inherent_method_view(s[i])
            } else {
                arbitrary()
            },
    )
}

pub open spec fn match_arms_view(s: Seq<MatchArm>) -> Seq<MatchArmV>
    decreases s,
{
    Seq::new(
        s.len(),
        |i: int|
            if 0 <= i < s.len() {
                match_arm_view(s[i])
            } else {
                arbitrary()
            },
    )
}

pub open spec fn named_types_view(s: Seq<NamedType>) -> Seq<NamedTypeV>
    decreases s,
{
    Seq::new(
        s.len(),
        |i: int|
            if 0 <= i < s.len() {
                named_type_view(s[i])
            } else {
                arbitrary()
            },
    )
}

pub open spec fn arg_wrappers_view(s: Seq<Option<ArgWrapper>>) -> Seq<Option<ArgWrapperV>>
    decreases s,
{
    Seq::new(
        s.len(),
        |i: int|
            if 0 <= i < s.len() {
                some_arg_wrapper_view(s[i])
            } else {
                arbitrary()
            },
    )
}

pub open spec fn params_view(s: Seq<Param>) -> Seq<ParamV>
    decreases s,
{
    Seq::new(
        s.len(),
        |i: int|
            if 0 <= i < s.len() {
                param_view(s[i])
            } else {
                arbitrary()
            },
    )
}

pub open spec fn patterns_view(s: Seq<Pattern>) -> Seq<PatternV>
    decreases s,
{
    Seq::new(
        s.len(),
        |i: int|
            if 0 <= i < s.len() {
                pattern_view(s[i])
            } else {
                arbitrary()
            },
    )
}

pub open spec fn pattern_fields_view(s: Seq<PatternField>) -> Seq<PatternFieldV>
    decreases s,
{
    Seq::new(
        s.len(),
        |i: int|
            if 0 <= i < s.len() {
                pattern_field_view(s[i])
            } else {
                arbitrary()
            },
    )
}

pub open spec fn pending_dict_args_view(s: Seq<PendingDictArg>) -> Seq<PendingDictArgV>
    decreases s,
{
    Seq::new(
        s.len(),
        |i: int|
            if 0 <= i < s.len() {
                pending_dict_arg_view(s[i])
            } else {
                arbitrary()
            },
    )
}

pub open spec fn record_entries_view(s: Seq<RecordEntry>) -> Seq<RecordEntryV>
    decreases s,
{
    Seq::new(
        s.len(),
        |i: int|
            if 0 <= i < s.len() {
                record_entry_view(s[i])
            } else {
                arbitrary()
            },
    )
}

pub open spec fn stmts_view(s: Seq<Stmt>) -> Seq<StmtV>
    decreases s,
{
    Seq::new(
        s.len(),
        |i: int|
            if 0 <= i < s.len() {
                stmt_view(s[i])
            } else {
                arbitrary()
            },
    )
}

pub open spec fn trait_methods_view(s: Seq<TraitMethod>) -> Seq<TraitMethodV>
    decreases s,
{
    Seq::new(
        s.len(),
        |i: int|
            if 0 <= i < s.len() {
                trait_method_view(s[i])
            } else {
                arbitrary()
            },
    )
}

pub open spec fn types_view(s: Seq<Type>) -> Seq<TypeV>
    decreases s,
{
    Seq::new(
        s.len(),
        |i: int|
            if 0 <= i < s.len() {
                type_view(s[i])
            } else {
                arbitrary()
            },
    )
}

pub open spec fn type_bounds_view(s: Seq<TypeBound>) -> Seq<TypeBoundV>
    decreases s,
{
    Seq::new(
        s.len(),
        |i: int|
            if 0 <= i < s.len() {
                type_bound_view(s[i])
            } else {
                arbitrary()
            },
    )
}

pub open spec fn type_params_view(s: Seq<TypeParam>) -> Seq<TypeParamV>
    decreases s,
{
    Seq::new(
        s.len(),
        |i: int|
            if 0 <= i < s.len() {
                type_param_view(s[i])
            } else {
                arbitrary()
            },
    )
}

pub open spec fn variant_defs_view(s: Seq<VariantDef>) -> Seq<VariantDefV>
    decreases s,
{
    Seq::new(
        s.len(),
        |i: int|
            if 0 <= i < s.len() {
                variant_def_view(s[i])
            } else {
                arbitrary()
            },
    )
}

pub open spec fn some_arg_wrapper_view(x: Option<ArgWrapper>) -> Option<ArgWrapperV>
    decreases x,
{
    match x {
        Some(a) => Some(arg_wrapper_view(a)),
        None => None,
    }
}

pub open spec fn some_rest_name_view(x: Option<RestName>) -> Option<RestNameV>
    decreases x,
{
    match x {
        Some(a) => Some(rest_name_view(a)),
        None => None,
    }
}

impl View for TypeParam {
    type V = TypeParamV;

    open spec fn view(&self) -> TypeParamV {
        type_param_view(*self)
    }
}

impl View for TypeReturn {
    type V = TypeReturnV;

    open spec fn view(&self) -> TypeReturnV {
        type_return_view(*self)
    }
}

impl View for Type {
    type V = TypeV;

    open spec fn view(&self) -> TypeV {
        type_view(*self)
    }
}

impl View for NumberLiteral {
    type V = NumberLiteralV;

    open spec fn view(&self) -> NumberLiteralV {
        number_literal_view(*self)
    }
}

impl View for Pattern {
    type V = PatternV;

    open spec fn view(&self) -> PatternV {
        pattern_view(*self)
    }
}

impl View for SyntaxCaptureInfo {
    type V = SyntaxCaptureV;

    open spec fn view(&self) -> SyntaxCaptureV {
        syntax_capture_view(*self)
    }
}

impl View for PatternField {
    type V = PatternFieldV;

    open spec fn view(&self) -> PatternFieldV {
        pattern_field_view(*self)
    }
}

impl View for RestName {
    type V = RestNameV;

    open spec fn view(&self) -> RestNameV {
        rest_name_view(*self)
    }
}

impl View for Param {
    type V = ParamV;

    open spec fn view(&self) -> ParamV {
        param_view(*self)
    }
}

impl View for BinOp {
    type V = BinOpV;

    open spec fn view(&self) -> BinOpV {
        bin_op_view(*self)
    }
}

impl View for StructuralDictRef {
    type V = StructuralDictRefV;

    open spec fn view(&self) -> StructuralDictRefV {
        structural_dict_ref_view(*self)
    }
}

impl View for DictRef {
    type V = DictRefV;

    open spec fn view(&self) -> DictRefV {
        dict_ref_view(*self)
    }
}

impl View for PendingDictArg {
    type V = PendingDictArgV;

    open spec fn view(&self) -> PendingDictArgV {
        pending_dict_arg_view(*self)
    }
}

impl View for ResolvedCallee {
    type V = ResolvedCalleeV;

    open spec fn view(&self) -> ResolvedCalleeV {
        resolved_callee_view(*self)
    }
}

impl View for PendingMethod {
    type V = PendingMethodV;

    open spec fn view(&self) -> PendingMethodV {
        pending_method_view(*self)
    }
}

impl View for ArgWrapper {
    type V = ArgWrapperV;

    open spec fn view(&self) -> ArgWrapperV {
        arg_wrapper_view(*self)
    }
}

impl View for AssociatedAccessResolution {
    type V = AssociatedAccessResolutionV;

    open spec fn view(&self) -> AssociatedAccessResolutionV {
        associated_access_resolution_view(*self)
    }
}

impl View for ArrayEntry {
    type V = ArrayEntryV;

    open spec fn view(&self) -> ArrayEntryV {
        array_entry_view(*self)
    }
}

impl View for RecordEntry {
    type V = RecordEntryV;

    open spec fn view(&self) -> RecordEntryV {
        record_entry_view(*self)
    }
}

impl View for MatchArm {
    type V = MatchArmV;

    open spec fn view(&self) -> MatchArmV {
        match_arm_view(*self)
    }
}

impl View for Expr {
    type V = ExprV;

    open spec fn view(&self) -> ExprV {
        expr_view(*self)
    }
}

impl View for ExprKind {
    type V = ExprKindV;

    open spec fn view(&self) -> ExprKindV {
        expr_kind_view(*self)
    }
}

impl View for TypeBound {
    type V = TypeBoundV;

    open spec fn view(&self) -> TypeBoundV {
        type_bound_view(*self)
    }
}

impl View for FnDef {
    type V = FnDefV;

    open spec fn view(&self) -> FnDefV {
        fn_def_view(*self)
    }
}

impl View for Fundep {
    type V = FundepV;

    open spec fn view(&self) -> FundepV {
        fundep_view(*self)
    }
}

impl View for TraitMethod {
    type V = TraitMethodV;

    open spec fn view(&self) -> TraitMethodV {
        trait_method_view(*self)
    }
}

impl View for NamedType {
    type V = NamedTypeV;

    open spec fn view(&self) -> NamedTypeV {
        named_type_view(*self)
    }
}

impl View for TraitDef {
    type V = TraitDefV;

    open spec fn view(&self) -> TraitDefV {
        trait_def_view(*self)
    }
}

impl View for ImplMethod {
    type V = ImplMethodV;

    open spec fn view(&self) -> ImplMethodV {
        impl_method_view(*self)
    }
}

impl View for GeneratedBy {
    type V = GeneratedByV;

    open spec fn view(&self) -> GeneratedByV {
        generated_by_view(*self)
    }
}

impl View for ImplDef {
    type V = ImplDefV;

    open spec fn view(&self) -> ImplDefV {
        impl_def_view(*self)
    }
}

impl View for InherentMethod {
    type V = InherentMethodV;

    open spec fn view(&self) -> InherentMethodV {
        inherent_method_view(*self)
    }
}

impl View for InherentImplDef {
    type V = InherentImplDefV;

    open spec fn view(&self) -> InherentImplDefV {
        inherent_impl_def_view(*self)
    }
}

impl View for VariantDef {
    type V = VariantDefV;

    open spec fn view(&self) -> VariantDefV {
        variant_def_view(*self)
    }
}

impl View for TypeDef {
    type V = TypeDefV;

    open spec fn view(&self) -> TypeDefV {
        type_def_view(*self)
    }
}

impl View for MacroDef {
    type V = MacroDefV;

    open spec fn view(&self) -> MacroDefV {
        macro_def_view(*self)
    }
}

impl View for Stmt {
    type V = StmtV;

    open spec fn view(&self) -> StmtV {
        stmt_view(*self)
    }
}

impl View for Program {
    type V = ProgramV;

    open spec fn view(&self) -> ProgramV {
        program_view(*self)
    }
}

} // verus!
