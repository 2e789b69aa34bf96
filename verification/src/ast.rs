//! Source positions and the syntax tree.

use vstd::prelude::*;

use crate::ast_view::{ArrayEntryV, ExprV, RecordEntryV, StmtV};
use crate::ty::{Ty, TyVar};

verus! {

/// The number of a node of the syntax tree.
pub type NodeId = u32;

/// The number of nodes that nothing is recorded for.
pub const NO_NODE_ID: NodeId = 0;

/// A stretch of source text, from its first to its last line and column.
#[derive(Debug, Clone, Copy, PartialEq, Eq, Hash, Structural)]
pub struct SourceSpan {
    pub start_line: usize,
    pub start_col: usize,
    pub end_line: usize,
    pub end_col: usize,
}

/// The span of nodes that stand nowhere in the source.
pub open spec fn synthetic_span() -> SourceSpan {
    SourceSpan { start_line: 0, start_col: 0, end_line: 0, end_col: 0 }
}

impl SourceSpan {
    /// The span of nodes that stand nowhere in the source.
    pub fn synthetic() -> (r: Self)
        ensures
            r == synthetic_span(),
    {
        SourceSpan { start_line: 0, start_col: 0, end_line: 0, end_col: 0 }
    }
}

/// A parameter in a function type.
#[derive(Debug, PartialEq)]
pub struct TypeParam {
    pub ty: Type,
    pub mut_place: bool,
}

/// The result in a function type or of a declared function.
#[derive(Debug, PartialEq)]
pub struct TypeReturn {
    pub ty: Box<Type>,
    pub mut_place: bool,
}

/// A type as it is written in the source.
#[derive(Debug, PartialEq)]
pub enum Type {
    Ident(String),
    Var(String),
    App(Box<Type>, Vec<Type>),
    Func(Vec<TypeParam>, TypeReturn),
    Tuple(Vec<Type>),
    Record(Vec<NamedType>, bool),
    Unit,
    Never,
    Hole,
}

/// A number as it is written in the source. A float is kept as its text.
#[derive(Debug, PartialEq)]
pub enum NumberLiteral {
    Int(i64),
    Float(String),
}

/// A pattern.
#[derive(Debug, PartialEq)]
#[allow(inconsistent_fields)]
pub enum Pattern {
    Wildcard,
    StringLit(String),
    NumberLit(NumberLiteral),
    BoolLit(bool),
    IntRange {
        start: i64,
        end: i64,
        inclusive: bool,
    },
    Variable(String, SourceSpan),
    Constructor {
        name: String,
        binding: Option<Box<Pattern>>,
    },
    Record {
        fields: Vec<PatternField>,
        rest: Option<Option<RestName>>,
    },
    List {
        elements: Vec<Pattern>,
        rest: Option<Option<RestName>>,
    },
    Tuple(Vec<Pattern>),
    /// A quoted form, with the parts of the syntax that it captures.
    SyntaxQuote(Vec<SyntaxCaptureInfo>),
}

/// A part of a piece of syntax that a pattern captures under a name: what category of
/// syntax it is, and whether it may occur many times.
#[derive(Debug, PartialEq)]
pub struct SyntaxCaptureInfo {
    pub name: String,
    pub category: String,
    pub repeat: bool,
    pub span: SourceSpan,
}

/// A field of a record pattern and the name it is bound to.
#[derive(Debug, PartialEq)]
pub struct PatternField {
    pub field: String,
    pub binding: String,
    pub span: SourceSpan,
}

/// The name that the rest of a record or a list is bound to.
#[derive(Debug, PartialEq)]
pub struct RestName {
    pub name: String,
    pub span: SourceSpan,
}

/// A parameter of a function.
#[derive(Debug, PartialEq)]
pub struct Param {
    pub pat: Pattern,
    pub ty: Option<Type>,
    pub mut_place: bool,
}

/// A binary operator.
#[derive(Debug, PartialEq)]
pub enum BinOp {
    Pipe,
    Custom(String),
}

/// The shape that a structural dictionary is built for.
#[derive(Debug, Clone, Copy, PartialEq, Eq, Structural)]
pub enum DictTarget {
    Tuple(usize),
}

/// A dictionary built from the dictionaries of the parts of a type.
#[derive(Debug, PartialEq)]
pub struct StructuralDictRef {
    pub trait_name: String,
    pub target: DictTarget,
    pub args: Vec<DictRef>,
}

/// Where the dictionary of a trait implementation comes from.
#[derive(Debug, PartialEq)]
pub enum DictRef {
    Concrete(String),
    Applied {
        dict: String,
        args: Vec<DictRef>,
    },
    Param(String),
    Composed(StructuralDictRef),
}

/// A dictionary that is chosen once more is known of the types.
#[derive(Debug, PartialEq)]
pub struct PendingDictArg {
    pub var: TyVar,
    pub trait_name: String,
    pub args: Vec<Ty>,
    pub determinant_indexes: Vec<usize>,
}

/// What a call was found to call.
#[derive(Debug, PartialEq)]
#[allow(inconsistent_fields)]
pub enum ResolvedCallee {
    Function(String),
    InherentMethod {
        dict: String,
        method: String,
    },
    DictMethod {
        dict: DictRef,
        method: String,
    },
}

/// A trait method whose dictionary is chosen later.
#[derive(Debug, PartialEq)]
pub struct PendingMethod {
    pub pending: PendingDictArg,
    pub method: String,
}

/// The dictionaries that an argument is given before it is passed.
#[derive(Debug, PartialEq)]
pub struct ArgWrapper {
    pub dict_args: Vec<DictRef>,
    pub pending_dict_args: Vec<PendingDictArg>,
}

/// What `Type::member` was found to name.
#[derive(Debug, PartialEq)]
pub enum AssociatedAccessResolution {
    TraitMethod {
        method: String,
        dict: Option<DictRef>,
    },
    Inherent(ResolvedCallee),
}

/// An entry of an array literal.
#[derive(Debug, PartialEq)]
pub enum ArrayEntry {
    Elem(Expr),
    Spread(Expr),
}

/// An entry of a record literal.
#[derive(Debug, PartialEq)]
pub enum RecordEntry {
    Field(String, Expr),
    Spread(Expr),
}

/// An arm of a match.
#[derive(Debug, PartialEq)]
pub struct MatchArm {
    pub pattern: Pattern,
    pub body: Expr,
}

/// An expression.
#[derive(Debug, PartialEq)]
pub struct Expr {
    pub id: NodeId,
    pub span: SourceSpan,
    pub kind: ExprKind,
}

/// The forms of expressions.
#[derive(Debug, PartialEq)]
#[allow(inconsistent_fields)]
pub enum ExprKind {
    Grouped(Box<Expr>),
    Number(NumberLiteral),
    StringLit(String),
    Bool(bool),
    Ident(String),
    Unit,
    Import(String),
    Not(Box<Expr>),
    Neg {
        operand: Box<Expr>,
        resolved_op: Option<ResolvedCallee>,
        pending_op: Option<PendingDictArg>,
    },
    Assign {
        target: Box<Expr>,
        value: Box<Expr>,
    },
    Binary {
        lhs: Box<Expr>,
        op: BinOp,
        rhs: Box<Expr>,
        resolved_op: Option<ResolvedCallee>,
        pending_op: Option<PendingDictArg>,
        dict_args: Vec<DictRef>,
        pending_dict_args: Vec<PendingDictArg>,
    },
    Range {
        start: Option<Box<Expr>>,
        end: Option<Box<Expr>>,
        inclusive: bool,
    },
    Call {
        callee: Box<Expr>,
        args: Vec<Expr>,
        is_method_call: bool,
        arg_wrappers: Vec<Option<ArgWrapper>>,
        resolved_callee: Option<ResolvedCallee>,
        pending_trait_method: Option<PendingMethod>,
        dict_args: Vec<DictRef>,
        pending_dict_args: Vec<PendingDictArg>,
    },
    AssociatedAccess {
        target: Type,
        target_span: SourceSpan,
        member: String,
        member_span: SourceSpan,
        resolution: Option<AssociatedAccessResolution>,
    },
    If {
        cond: Box<Expr>,
        then_branch: Box<Expr>,
        else_branch: Box<Expr>,
    },
    Match {
        scrutinee: Box<Expr>,
        arms: Vec<MatchArm>,
    },
    Loop(Box<Expr>),
    Break(Option<Box<Expr>>),
    Continue,
    Return(Option<Box<Expr>>),
    Block {
        stmts: Vec<Stmt>,
        final_expr: Option<Box<Expr>>,
    },
    Tuple(Vec<Expr>),
    Array(Vec<ArrayEntry>),
    Record(Vec<RecordEntry>),
    FieldAccess {
        expr: Box<Expr>,
        field: String,
    },
    Index {
        receiver: Box<Expr>,
        key: Box<Expr>,
        resolved_callee: Option<ResolvedCallee>,
        pending_trait_method: Option<PendingMethod>,
        dict_args: Vec<DictRef>,
        pending_dict_args: Vec<PendingDictArg>,
    },
    Lambda {
        params: Vec<Param>,
        return_type: Option<Type>,
        body: Box<Expr>,
        dict_params: Vec<String>,
    },
    For {
        pat: Pattern,
        iterable: Box<Expr>,
        body: Box<Expr>,
        resolved_iter: Option<ResolvedCallee>,
        pending_iter: Option<PendingDictArg>,
    },
}

/// The traits that type arguments must implement.
#[derive(Debug, PartialEq)]
pub struct TypeBound {
    pub args: Vec<Type>,
    pub traits: Vec<String>,
    pub fundep_arrow_index: Option<usize>,
}

/// The definition of a function or an operator.
#[derive(Debug, PartialEq)]
pub struct FnDef {
    pub name: String,
    pub name_span: SourceSpan,
    pub params: Vec<Param>,
    pub ret_type: Option<TypeReturn>,
    pub body: Expr,
    pub dict_params: Vec<String>,
    pub type_bounds: Vec<TypeBound>,
    pub is_test: bool,
    pub span: SourceSpan,
}

/// Which type parameters of a trait determine which others.
#[derive(Debug, PartialEq)]
pub struct Fundep {
    pub determinants: Vec<usize>,
    pub dependents: Vec<usize>,
}

/// A method that a trait asks for.
#[derive(Debug, PartialEq)]
pub struct TraitMethod {
    pub name: String,
    pub params: Vec<NamedType>,
    pub ret_type: Type,
    pub fixity: Option<usize>,
    pub inline: bool,
    pub span: SourceSpan,
}

/// A name and a type.
#[derive(Debug, PartialEq)]
pub struct NamedType {
    pub name: String,
    pub ty: Type,
}

/// The definition of a trait.
#[derive(Debug, PartialEq)]
pub struct TraitDef {
    pub name: String,
    pub name_span: SourceSpan,
    pub params: Vec<String>,
    pub fundeps: Vec<Fundep>,
    pub methods: Vec<TraitMethod>,
    pub span: SourceSpan,
}

/// A method of a trait implementation.
#[derive(Debug, PartialEq)]
pub struct ImplMethod {
    pub name: String,
    pub name_span: SourceSpan,
    pub params: Vec<Param>,
    pub ret_type: Option<TypeReturn>,
    pub body: Expr,
    pub inline: bool,
    pub span: SourceSpan,
}

/// What an implementation was generated by.
#[derive(Debug, PartialEq)]
pub enum GeneratedBy {
    Derive {
        trait_name: String,
        source_span: SourceSpan,
    },
}

/// An implementation of a trait.
#[derive(Debug, PartialEq)]
pub struct ImplDef {
    pub trait_name: String,
    pub trait_args: Vec<Type>,
    pub type_bounds: Vec<TypeBound>,
    pub methods: Vec<ImplMethod>,
    pub dict_params: Vec<String>,
    pub dict_arg_indexes: Vec<usize>,
    pub fundep_arrow_index: Option<usize>,
    pub generated_by: Option<GeneratedBy>,
    pub span: SourceSpan,
}

/// A method of an implementation without a trait.
#[derive(Debug, PartialEq)]
pub struct InherentMethod {
    pub name: String,
    pub name_span: SourceSpan,
    pub params: Vec<Param>,
    pub ret_type: Option<TypeReturn>,
    pub body: Expr,
    pub dict_params: Vec<String>,
    pub type_bounds: Vec<TypeBound>,
    pub span: SourceSpan,
}

/// An implementation without a trait.
#[derive(Debug, PartialEq)]
pub struct InherentImplDef {
    pub target: Type,
    pub type_bounds: Vec<TypeBound>,
    pub methods: Vec<InherentMethod>,
    pub span: SourceSpan,
}

/// A variant of a type definition.
#[derive(Debug, PartialEq)]
pub struct VariantDef {
    pub name: String,
    pub name_span: SourceSpan,
    pub payload: Option<Type>,
}

/// The definition of a type by its variants.
#[derive(Debug, PartialEq)]
pub struct TypeDef {
    pub name: String,
    pub name_span: SourceSpan,
    pub params: Vec<String>,
    pub variants: Vec<VariantDef>,
    pub span: SourceSpan,
}

/// The definition of a macro.
#[derive(Debug, PartialEq)]
pub struct MacroDef {
    pub name: String,
    pub param_name: String,
    pub param_span: SourceSpan,
    pub param_ty: Type,
    pub param_ty_span: SourceSpan,
    pub ret_ty: Type,
    pub ret_ty_span: SourceSpan,
    pub body: Expr,
    pub span: SourceSpan,
}

/// A statement.
#[derive(Debug, PartialEq)]
#[allow(inconsistent_fields)]
pub enum Stmt {
    Let {
        pat: Pattern,
        is_mutable: bool,
        ty: Option<Type>,
        value: Expr,
        span: SourceSpan,
    },
    Fn(FnDef),
    Op(FnDef),
    Macro(MacroDef),
    Trait(TraitDef),
    Impl(ImplDef),
    InherentImpl(InherentImplDef),
    Type(TypeDef),
    TypeAlias {
        name: String,
        name_span: SourceSpan,
        params: Vec<String>,
        ty: Type,
        span: SourceSpan,
    },
    Extern {
        name: String,
        name_span: SourceSpan,
        ty: Type,
        span: SourceSpan,
    },
    TestBlock {
        stmts: Vec<Stmt>,
        span: SourceSpan,
    },
    RecBlock {
        stmts: Vec<Stmt>,
        span: SourceSpan,
    },
    Expr(Expr),
}

/// A parsed program.
#[derive(Debug, PartialEq)]
pub struct Program {
    pub stmts: Vec<Stmt>,
}

impl Expr {
    /// An expression that stands nowhere in the source.
    pub fn synthetic(kind: ExprKind) -> (r: Self)
        ensures
            r == (Expr { id: NO_NODE_ID, span: synthetic_span(), kind }),
    {
        Expr { id: NO_NODE_ID, span: SourceSpan::synthetic(), kind }
    }
}

/// The expression of an entry.
pub open spec fn array_entry_expr(e: ArrayEntryV) -> ExprV {
    match e {
        ArrayEntryV::Elem(x) => x,
        ArrayEntryV::Spread(x) => x,
    }
}

/// The entry with another expression.
pub open spec fn array_entry_with(e: ArrayEntryV, x: ExprV) -> ArrayEntryV {
    match e {
        ArrayEntryV::Elem(_) => ArrayEntryV::Elem(x),
        ArrayEntryV::Spread(_) => ArrayEntryV::Spread(x),
    }
}

/// The expression of an entry.
pub open spec fn record_entry_expr(e: RecordEntryV) -> ExprV {
    match e {
        RecordEntryV::Field(_, x) => x,
        RecordEntryV::Spread(x) => x,
    }
}

/// The entry with another expression.
pub open spec fn record_entry_with(e: RecordEntryV, x: ExprV) -> RecordEntryV {
    match e {
        RecordEntryV::Field(name, _) => RecordEntryV::Field(name, x),
        RecordEntryV::Spread(_) => RecordEntryV::Spread(x),
    }
}

impl ArrayEntry {
    pub fn expr(&self) -> (r: &Expr)
        ensures
            r@ == array_entry_expr(self@),
            decreases_to!(*self => *r),
    {
        match self {
            ArrayEntry::Elem(e) => e,
            ArrayEntry::Spread(e) => e,
        }
    }
}

impl RecordEntry {
    pub fn expr(&self) -> (r: &Expr)
        ensures
            r@ == record_entry_expr(self@),
            decreases_to!(*self => *r),
    {
        match self {
            RecordEntry::Field(_, e) => e,
            RecordEntry::Spread(e) => e,
        }
    }
}

/// Where a statement stands.
pub open spec fn stmt_span(s: StmtV) -> SourceSpan {
    match s {
        StmtV::Let { span, .. } => span,
        StmtV::Fn(def) => def.span,
        StmtV::Op(def) => def.span,
        StmtV::Macro(def) => def.span,
        StmtV::Trait(def) => def.span,
        StmtV::Impl(def) => def.span,
        StmtV::InherentImpl(def) => def.span,
        StmtV::Type(def) => def.span,
        StmtV::TypeAlias { span, .. } => span,
        StmtV::Extern { span, .. } => span,
        StmtV::TestBlock { span, .. } => span,
        StmtV::RecBlock { span, .. } => span,
        StmtV::Expr(e) => e.span,
    }
}

impl Stmt {
    /// Where the statement stands.
    pub fn span(&self) -> (r: SourceSpan)
        ensures
            r == stmt_span(self@),
    {
        match self {
            Stmt::Let { span, .. } => *span,
            Stmt::Fn(def) => def.span,
            Stmt::Op(def) => def.span,
            Stmt::Macro(def) => def.span,
            Stmt::Trait(def) => def.span,
            Stmt::Impl(def) => def.span,
            Stmt::InherentImpl(def) => def.span,
            Stmt::Type(def) => def.span,
            Stmt::TypeAlias { span, .. } => *span,
            Stmt::Extern { span, .. } => *span,
            Stmt::TestBlock { span, .. } => *span,
            Stmt::RecBlock { span, .. } => *span,
            Stmt::Expr(e) => e.span,
        }
    }

    /// Whether the statement is a function marked as a test.
    pub fn is_test_fn(&self) -> (r: bool)
        ensures
            r == (self@ matches StmtV::Fn(def) && def.is_test),
    {
        match self {
            Stmt::Fn(def) => def.is_test,
            _ => false,
        }
    }
}

impl TraitDef {
    /// The first type parameter.
    pub fn primary_param(&self) -> (r: Option<&str>)
        ensures
            r matches Some(s) ==> self@.params.len() > 0 && s@ == self@.params[0],
            r is None ==> self@.params.len() == 0,
    {
        if self.params.len() > 0 {
            assert(self@.params[0] == self.params@[0]@);
            Some(self.params[0].as_str())
        } else {
            None
        }
    }

    /// Whether the trait has exactly one type parameter.
    pub fn is_unary(&self) -> (r: bool)
        ensures
            r == (self@.params.len() == 1),
    {
        self.params.len() == 1
    }
}

} // verus!
