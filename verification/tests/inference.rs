//! What checking expressions and statements leads to.

use std::collections::HashSet;

use hern_core::ast::{ArrayEntry, BinOp, DictRef, Expr, ExprKind, FnDef, ImplDef, ImplMethod};
use hern_core::ast::{InherentImplDef, InherentMethod, MacroDef, MatchArm, NamedType};
use hern_core::ast::{NumberLiteral, Param, Pattern, Program, RecordEntry, ResolvedCallee};
use hern_core::ast::{GeneratedBy, SyntaxCaptureInfo};
use hern_core::ast::{SourceSpan, Stmt, TraitDef, TraitMethod, Type, TypeBound, TypeDef};
use hern_core::ast::{TypeReturn, VariantDef, NO_NODE_ID};
use hern_core::definitions::next_level;
use hern_core::dicts::{dict_ref_args_for_scheme_args, Known};
use hern_core::env::{TypeEnv, VariantEnv, VariantInfo};
use hern_core::error::{SpannedTypeError, TypeError};
use hern_core::exhaust::check_exhaustive_match;
use hern_core::macro_phase::{insert_syntax_builtin_schemes, macro_builtin_available};
use hern_core::macro_phase::register_macro_phase_type_surface;
use hern_core::patterns::{is_irrefutable_let, is_irrefutable_param};
use hern_core::programs::InferenceResult;
use hern_core::recovery::stmt_referenced_names;
use hern_core::state::Infer;
use hern_core::subst::{Subst, ROOT_LEVEL};
use hern_core::tables::{NameMap, NameSet};
use hern_core::ty::{value_func_params, value_func_return, EnvInfo, Row, Scheme};
use hern_core::ty::{TraitConstraint, Ty};
use hern_core::ty_helpers::determinants_share_var;
use hern_core::vars::free_type_vars;

fn at(line: usize, col: usize) -> SourceSpan {
    SourceSpan { start_line: line, start_col: col, end_line: line, end_col: col }
}

fn expr(col: usize, kind: ExprKind) -> Expr {
    Expr { id: NO_NODE_ID, span: at(1, col), kind }
}

fn number(col: usize, value: i64) -> Expr {
    expr(col, ExprKind::Number(NumberLiteral::Int(value)))
}

fn text(col: usize, value: &str) -> Expr {
    expr(col, ExprKind::StringLit(value.to_string()))
}

fn ident(col: usize, name: &str) -> Expr {
    expr(col, ExprKind::Ident(name.to_string()))
}

fn record(entries: Vec<RecordEntry>) -> Expr {
    expr(13, ExprKind::Record(entries))
}

fn binding(name: &str, ty: Option<Type>, value: Expr) -> Stmt {
    Stmt::Let {
        pat: Pattern::Variable(name.to_string(), at(1, 5)),
        is_mutable: false,
        ty,
        value,
        span: at(1, 1),
    }
}

fn call(callee: Expr, args: Vec<Expr>) -> Expr {
    expr(
        1,
        ExprKind::Call {
            callee: Box::new(callee),
            args,
            is_method_call: false,
            arg_wrappers: vec![],
            resolved_callee: None,
            pending_trait_method: None,
            dict_args: vec![],
            pending_dict_args: vec![],
        },
    )
}

fn named(name: &str) -> Type {
    Type::Ident(name.to_string())
}

fn infer_error(infer: &mut Infer, env: &mut TypeEnv, stmt: &mut Stmt) -> SpannedTypeError {
    infer.infer_stmt(env, stmt).expect_err("statement should be rejected")
}

fn show_trait() -> TraitDef {
    TraitDef {
        name: "Show".to_string(),
        name_span: at(1, 7),
        params: vec!["a".to_string()],
        fundeps: vec![],
        methods: vec![TraitMethod {
            name: "show".to_string(),
            params: vec![NamedType {
                name: "x".to_string(),
                ty: Type::Var("a".to_string()),
            }],
            ret_type: named("string"),
            inline: false,
            fixity: None,
            span: at(2, 1),
        }],
        span: at(1, 1),
    }
}

/// A checker that is ready for a program.
fn checker() -> Infer {
    let mut infer = Infer::new();
    infer.reset_program_state();
    infer
}

/// The error of a program that is to be refused.
fn program_error(stmts: Vec<Stmt>) -> SpannedTypeError {
    let mut program = Program { stmts };
    Infer::new()
        .infer_program(&mut program)
        .expect_err("source should fail inference")
}

fn float(col: usize, value: &str) -> Expr {
    expr(col, ExprKind::Number(NumberLiteral::Float(value.to_string())))
}

fn outside(name: &str, ty: Type) -> Stmt {
    Stmt::Extern {
        name: name.to_string(),
        name_span: at(1, 8),
        ty,
        span: at(1, 1),
    }
}

fn variants(name: &str, params: Vec<&str>, all: Vec<(&str, Option<Type>)>) -> Stmt {
    Stmt::Type(TypeDef {
        name: name.to_string(),
        name_span: at(1, 6),
        params: params.iter().map(|p| p.to_string()).collect(),
        variants: all
            .into_iter()
            .map(|(name, payload)| VariantDef {
                name: name.to_string(),
                name_span: at(1, 14),
                payload,
            })
            .collect(),
        span: at(1, 1),
    })
}

fn boxed_type() -> Stmt {
    variants("Boxed", vec![], vec![("Boxed", Some(named("float")))])
}

fn own_method(name: &str, params: Vec<&str>, body: Expr) -> ImplMethod {
    ImplMethod {
        name: name.to_string(),
        name_span: at(2, 14),
        params: params.into_iter().map(|p| param(p, None)).collect(),
        ret_type: None,
        body,
        inline: false,
        span: at(2, 11),
    }
}

fn implementation(trait_name: &str, target: Type, methods: Vec<ImplMethod>) -> Stmt {
    Stmt::Impl(ImplDef {
        trait_name: trait_name.to_string(),
        trait_args: vec![target],
        type_bounds: vec![],
        methods,
        dict_params: vec![],
        dict_arg_indexes: vec![],
        fundep_arrow_index: None,
        generated_by: None,
        span: at(1, 10),
    })
}

fn show_call(arg: Expr) -> Stmt {
    Stmt::Expr(call(
        expr(
            1,
            ExprKind::AssociatedAccess {
                target: named("Show"),
                target_span: at(5, 1),
                member: "show".to_string(),
                member_span: at(5, 7),
                resolution: None,
            },
        ),
        vec![arg],
    ))
}

fn function(name: &str, params: Vec<Param>, ret: Option<Type>, body: Expr) -> Stmt {
    Stmt::Fn(FnDef {
        name: name.to_string(),
        name_span: at(2, 4),
        params,
        ret_type: ret.map(|ty| TypeReturn { ty: Box::new(ty), mut_place: false }),
        body,
        dict_params: vec![],
        type_bounds: vec![],
        is_test: false,
        span: at(2, 1),
    })
}

fn param(name: &str, ty: Option<Type>) -> Param {
    Param {
        pat: Pattern::Variable(name.to_string(), at(2, 9)),
        ty,
        mut_place: false,
    }
}

// ---------------------------------------------------------------------------
// Names
// ---------------------------------------------------------------------------

#[test]
fn unary_value_expressions_do_not_record_trait_references() {
    let stmt = Stmt::Expr(Expr::synthetic(ExprKind::Not(Box::new(Expr::synthetic(
        ExprKind::Ident("foo".to_string()),
    )))));

    let refs = stmt_referenced_names(&stmt);

    assert!(refs.values.contains("foo"));
    assert!(!refs.traits.contains("foo"));
}

#[test]
fn determinant_matching_accepts_equal_concrete_determinants() {
    let subst = Subst::new();
    assert!(determinants_share_var(
        &vec![Ty::Con("Map".to_string()), Ty::Var(1)],
        &vec![Ty::Con("Map".to_string()), Ty::Var(2)],
        &vec![0],
        &subst,
    ));
    assert!(!determinants_share_var(
        &vec![Ty::Con("Map".to_string()), Ty::Var(1)],
        &vec![Ty::Con("Array".to_string()), Ty::Var(2)],
        &vec![0],
        &subst,
    ));
}

// ---------------------------------------------------------------------------
// Matches
// ---------------------------------------------------------------------------

fn bools(n: usize) -> Ty {
    Ty::Tuple((0..n).map(|_| Ty::Con("bool".to_string())).collect())
}

fn bool_tuple_patterns(width: usize) -> Vec<Pattern> {
    (0..(1usize << width))
        .map(|bits| {
            Pattern::Tuple(
                (0..width)
                    .map(|idx| Pattern::BoolLit((bits & (1 << idx)) != 0))
                    .collect(),
            )
        })
        .collect()
}

#[test]
fn witness_limit_diagnostic_mentions_approximation() {
    let err = check_exhaustive_match(&vec![], &bools(13), &VariantEnv::default())
        .expect_err("empty match should be non-exhaustive");

    assert!(matches!(
        err,
        TypeError::NonExhaustiveMatch { missing } if missing.contains("witness limit reached")
    ));
}

#[test]
fn exhaustive_large_bool_product_under_cap_is_accepted() {
    let patterns = bool_tuple_patterns(8);
    let pattern_refs = patterns.iter().collect::<Vec<_>>();

    check_exhaustive_match(&pattern_refs, &bools(8), &VariantEnv::default())
        .expect("all boolean tuple combinations should be exhaustive");
}

// ---------------------------------------------------------------------------
// Levels and constraints
// ---------------------------------------------------------------------------

#[test]
fn syntactic_env_vars_are_normalized_before_constraint_partitioning() {
    let mut infer = Infer::new();
    let mut env = TypeEnv::new();
    env.insert(
        "outer".to_string(),
        EnvInfo::immutable(Scheme::mono(Ty::Var(0))),
    );

    infer.subst.bind_ty(0, Ty::Var(1)).expect("valid alias");

    assert_eq!(
        infer.normalized_free_vars_syntactic(&env),
        HashSet::from([1])
    );
}

#[test]
fn level_generalization_quantifies_child_vars_only() {
    let mut infer = Infer::new();
    let outer = infer.subst.fresh_tyvar_at(ROOT_LEVEL);
    let local = infer.subst.fresh_tyvar_at(ROOT_LEVEL + 1);

    let scheme = infer.generalize_at(
        &Ty::Tuple(vec![Ty::Var(outer), Ty::Var(local)]),
        ROOT_LEVEL,
    );

    assert_eq!(scheme.vars, vec![local]);
}

#[test]
fn level_generalizable_vars_use_ambient_level() {
    let mut infer = Infer::new();
    let outer = infer.subst.fresh_tyvar_at(ROOT_LEVEL);
    let inner = infer.subst.fresh_tyvar_at(ROOT_LEVEL + 1);
    let ty = Ty::Tuple(vec![Ty::Var(outer), Ty::Var(inner)]);

    assert_eq!(infer.level_generalizable_vars(&ty, ROOT_LEVEL), vec![inner]);
}

#[test]
fn child_level_scope_restores_after_success_and_error() {
    let mut infer = Infer::new();
    assert_eq!(infer.current_level, ROOT_LEVEL);

    let ambient = infer.current_level;
    infer.set_level(next_level(ambient));
    assert_eq!(infer.current_level, ROOT_LEVEL + 1);
    let var = infer.fresh_var();
    infer.set_level(ambient);

    assert_eq!(infer.current_level, ROOT_LEVEL);
    assert_eq!(infer.subst.level_of(var), ROOT_LEVEL + 1);

    let mut env = TypeEnv::new();
    let mut bad = function("bad", vec![param("x", None)], None, ident(3, "boom"));
    let result = infer.infer_stmt(&mut env, &mut bad);

    assert!(matches!(
        *result.expect_err("scope should fail").error,
        TypeError::UnboundVariable(ref name) if name == "boom"
    ));
    assert_eq!(infer.subst.level_of(var + 1), ROOT_LEVEL + 1);
    assert_eq!(infer.current_level, ROOT_LEVEL);
}

#[test]
fn concrete_constraints_are_resolved_without_callable_dict_params() {
    let mut infer = Infer::new();
    let var = infer.subst.fresh_tyvar_at(ROOT_LEVEL + 1);
    infer
        .subst
        .bind_ty(var, Ty::Float)
        .expect("valid concrete type");

    let finalized = infer.finalize_constraints_at(
        &Ty::Func(
            value_func_params(vec![Ty::Float]),
            value_func_return(Ty::Float),
        ),
        &vec![TraitConstraint::unary(var, "Add")],
        ROOT_LEVEL,
    );

    assert!(finalized.owned.is_empty());
    assert!(finalized.bubbled.is_empty());
    assert!(finalized.scheme.constraints.is_empty());
}

#[test]
fn constraint_on_outer_env_var_bubbles_from_function_scope() {
    let infer = Infer::new();
    let mut env = TypeEnv::new();
    env.insert(
        "outer".to_string(),
        EnvInfo::immutable(Scheme::mono(Ty::Var(0))),
    );
    assert_eq!(infer.normalized_free_vars_syntactic(&env), HashSet::from([0]));

    let finalized = infer.finalize_constraints_at(
        &Ty::Func(
            value_func_params(vec![Ty::Var(0)]),
            value_func_return(Ty::Int),
        ),
        &vec![TraitConstraint::unary(0, "Show")],
        ROOT_LEVEL,
    );

    assert!(finalized.owned.is_empty());
    assert_eq!(finalized.bubbled, vec![TraitConstraint::unary(0, "Show")]);
    assert!(finalized.scheme.constraints.is_empty());
}

#[test]
fn constraint_on_non_generalized_var_bubbles_from_function_scope() {
    let mut infer = Infer::new();
    let receiver = infer.subst.fresh_tyvar_at(ROOT_LEVEL + 1);
    let key = infer.subst.fresh_tyvar_at(ROOT_LEVEL + 1);
    let output = infer.subst.fresh_tyvar_at(ROOT_LEVEL + 1);
    let constraint = || {
        TraitConstraint::predicate(
            "Index",
            vec![Ty::Var(receiver), Ty::Var(key), Ty::Var(output)],
            output,
            vec![0, 1],
        )
    };

    let finalized = infer.finalize_constraints_at(
        &Ty::Func(
            value_func_params(vec![Ty::Var(receiver), Ty::Var(key)]),
            value_func_return(Ty::Int),
        ),
        &vec![constraint()],
        ROOT_LEVEL,
    );

    assert!(finalized.owned.is_empty());
    assert_eq!(finalized.bubbled, vec![constraint()]);
    assert!(finalized.scheme.constraints.is_empty());
}

#[test]
fn constraint_with_concrete_primary_and_local_args_is_owned() {
    let mut infer = Infer::new();
    let receiver = infer.subst.fresh_tyvar_at(ROOT_LEVEL + 1);
    let key = infer.subst.fresh_tyvar_at(ROOT_LEVEL + 1);
    let output = infer.subst.fresh_tyvar_at(ROOT_LEVEL + 1);
    infer
        .subst
        .bind_ty(output, Ty::Con("string".to_string()))
        .expect("valid concrete output");

    let constraint = TraitConstraint::predicate(
        "Index",
        vec![Ty::Var(receiver), Ty::Var(key), Ty::Var(output)],
        output,
        vec![0, 1],
    );
    let finalized = infer.finalize_constraints_at(
        &Ty::Func(
            value_func_params(vec![Ty::Var(receiver), Ty::Var(key)]),
            value_func_return(Ty::Con("string".to_string())),
        ),
        &vec![constraint],
        ROOT_LEVEL,
    );

    assert_eq!(
        finalized.owned,
        vec![TraitConstraint::predicate(
            "Index",
            vec![
                Ty::Var(receiver),
                Ty::Var(key),
                Ty::Con("string".to_string())
            ],
            output,
            vec![0, 1],
        )]
    );
    assert!(finalized.bubbled.is_empty());
    assert_eq!(finalized.scheme.constraints, finalized.owned);
}

#[test]
fn scoped_inference_state_restores_after_error() {
    let mut infer = checker();
    infer.traits.env.insert("Show".to_string(), show_trait());
    infer
        .constraints
        .pending
        .push(TraitConstraint::unary(0, "Outer"));

    let saved = infer.replace_pending(vec![TraitConstraint::unary(1, "Inner")]);
    infer
        .constraints
        .pending
        .push(TraitConstraint::unary(2, "Body"));
    let inner = infer.replace_pending(saved);
    assert_eq!(
        inner,
        vec![
            TraitConstraint::unary(1, "Inner"),
            TraitConstraint::unary(2, "Body")
        ]
    );
    assert_eq!(
        infer.constraints.pending,
        vec![TraitConstraint::unary(0, "Outer")]
    );

    let mut env = TypeEnv::new();
    let body = expr(
        3,
        ExprKind::Block {
            stmts: vec![show_call(ident(12, "x"))],
            final_expr: Some(Box::new(ident(20, "boom"))),
        },
    );
    let mut bad = function("bad", vec![param("x", Some(Type::Var("a".to_string())))], None, body);
    if let Stmt::Fn(def) = &mut bad {
        def.type_bounds.push(TypeBound {
            args: vec![Type::Var("a".to_string())],
            traits: vec!["Show".to_string()],
            fundep_arrow_index: None,
        });
    }
    let err = infer
        .infer_stmt(&mut env, &mut bad)
        .expect_err("scope body should fail");

    assert!(matches!(*err.error, TypeError::UnboundVariable(ref name) if name == "boom"));
    assert_eq!(
        infer.constraints.pending,
        vec![TraitConstraint::unary(0, "Outer")]
    );
    assert!(infer.flow.fn_return_tys.is_empty());
}

// ---------------------------------------------------------------------------
// Types that are written
// ---------------------------------------------------------------------------

#[test]
fn primitive_type_application_arity_is_checked_during_conversion() {
    let ty = Type::App(Box::new(named("int")), vec![named("string")]);
    let err = program_error(vec![outside("value", ty)]);

    assert!(matches!(
        *err.error,
        TypeError::TypeConstructorArityMismatch { ref name, expected: 0, got: 1 } if name == "int"
    ));
}

#[test]
fn nominal_type_application_arity_is_checked_during_conversion() {
    let option = variants(
        "Option",
        vec!["a"],
        vec![("Some", Some(Type::Var("a".to_string()))), ("None", None)],
    );
    let ty = Type::App(Box::new(named("Option")), vec![named("int"), named("string")]);
    let err = program_error(vec![option, outside("value", ty)]);

    assert!(matches!(
        *err.error,
        TypeError::TypeConstructorArityMismatch { ref name, expected: 1, got: 2 }
            if name == "Option"
    ));
}

#[test]
fn type_alias_application_arity_is_checked_during_conversion() {
    let pair = Stmt::TypeAlias {
        name: "Pair".to_string(),
        name_span: at(1, 12),
        params: vec!["a".to_string(), "b".to_string()],
        ty: Type::Tuple(vec![
            Type::Var("a".to_string()),
            Type::Var("b".to_string()),
        ]),
        span: at(1, 1),
    };
    let ty = Type::App(Box::new(named("Pair")), vec![named("int")]);
    let err = program_error(vec![pair, outside("value", ty)]);

    assert!(matches!(
        *err.error,
        TypeError::TypeAliasArityMismatch { ref name, expected: 2, got: 1 } if name == "Pair"
    ));
}

// ---------------------------------------------------------------------------
// Traits
// ---------------------------------------------------------------------------

fn equality(name: &str) -> TraitMethod {
    let side = |name: &str| NamedType {
        name: name.to_string(),
        ty: Type::Var("a".to_string()),
    };
    TraitMethod {
        name: name.to_string(),
        params: vec![side("lhs"), side("rhs")],
        ret_type: named("bool"),
        fixity: Some(4),
        inline: false,
        span: at(4, 12),
    }
}

#[test]
fn missing_structural_tuple_component_impl_is_rejected_during_inference() {
    let eq = Stmt::Trait(TraitDef {
        name: "Eq".to_string(),
        name_span: at(3, 16),
        params: vec!["a".to_string()],
        fundeps: vec![],
        methods: vec![equality("=="), equality("!=")],
        span: at(3, 10),
    });
    let of_floats = implementation(
        "Eq",
        named("float"),
        vec![
            own_method("==", vec!["lhs", "rhs"], expr(28, ExprKind::Bool(true))),
            own_method("!=", vec!["lhs", "rhs"], expr(28, ExprKind::Bool(false))),
        ],
    );
    let pair = || Type::Tuple(vec![named("Boxed"), named("float")]);
    let body = expr(
        12,
        ExprKind::Binary {
            lhs: Box::new(ident(12, "a")),
            op: BinOp::Custom("==".to_string()),
            rhs: Box::new(ident(17, "b")),
            resolved_op: None,
            pending_op: None,
            dict_args: vec![],
            pending_dict_args: vec![],
        },
    );
    let bad = function(
        "bad",
        vec![param("a", Some(pair())), param("b", Some(pair()))],
        Some(named("bool")),
        body,
    );
    let err = program_error(vec![boxed_type(), eq, of_floats, bad]);

    assert!(matches!(
        *err.error,
        TypeError::MissingTraitImpl { ref trait_name, ref impl_target }
            if trait_name == "Eq" && impl_target == "Boxed"
    ));
}

#[test]
fn missing_primitive_trait_impl_is_rejected_during_inference() {
    let err = program_error(vec![Stmt::Trait(show_trait()), show_call(number(12, 1))]);

    assert!(matches!(
        *err.error,
        TypeError::MissingTraitImpl { ref trait_name, ref impl_target }
            if trait_name == "Show" && impl_target == "int"
    ));
}

#[test]
fn missing_custom_type_trait_impl_is_rejected_during_inference() {
    let arg = call(ident(12, "Boxed"), vec![float(18, "1.0")]);
    let err = program_error(vec![boxed_type(), Stmt::Trait(show_trait()), show_call(arg)]);

    assert!(matches!(
        *err.error,
        TypeError::MissingTraitImpl { ref trait_name, ref impl_target }
            if trait_name == "Show" && impl_target == "Boxed"
    ));
}

#[test]
fn legacy_qualified_trait_method_dot_syntax_is_not_trait_dispatch() {
    let of_floats = implementation(
        "Show",
        named("float"),
        vec![own_method("show", vec!["x"], text(25, "ok"))],
    );
    let callee = expr(
        1,
        ExprKind::FieldAccess {
            expr: Box::new(ident(1, "Show")),
            field: "show".to_string(),
        },
    );
    let err = program_error(vec![
        Stmt::Trait(show_trait()),
        of_floats,
        Stmt::Expr(call(callee, vec![float(11, "1.0")])),
    ]);

    assert!(matches!(*err.error, TypeError::UnboundVariable(ref name) if name == "Show"));
}

// ---------------------------------------------------------------------------
// Records and arrays
// ---------------------------------------------------------------------------

#[test]
fn duplicate_record_fields_in_annotations_are_rejected() {
    let ty = Type::Record(
        vec![
            NamedType { name: "x".to_string(), ty: named("int") },
            NamedType { name: "x".to_string(), ty: named("float") },
        ],
        false,
    );
    let value = record(vec![RecordEntry::Field("x".to_string(), number(40, 1))]);
    let err = program_error(vec![binding("value", Some(ty), value)]);

    assert!(matches!(*err.error, TypeError::DuplicateRecordField(ref field) if field == "x"));
    assert_eq!(err.to_string(), "duplicate record field `x`");
}

#[test]
fn duplicate_record_fields_in_literals_are_rejected() {
    let value = record(vec![
        RecordEntry::Field("x".to_string(), number(19, 1)),
        RecordEntry::Field("x".to_string(), number(25, 2)),
    ]);
    let err = program_error(vec![binding("value", None, value)]);

    assert!(matches!(*err.error, TypeError::DuplicateRecordField(ref field) if field == "x"));
    assert_eq!(err.to_string(), "duplicate record field `x`");
}

#[test]
fn record_spread_field_collisions_are_rejected() {
    let base = record(vec![RecordEntry::Field("x".to_string(), number(19, 1))]);
    let value = record(vec![
        RecordEntry::Spread(ident(18, "base")),
        RecordEntry::Field("x".to_string(), number(27, 2)),
    ]);
    let err = program_error(vec![binding("base", None, base), binding("value", None, value)]);

    assert!(matches!(*err.error, TypeError::DuplicateRecordField(ref field) if field == "x"));
}

#[test]
fn bad_aggregate_entries_report_offending_span() {
    let ints = || Type::App(Box::new(named("Array")), vec![named("int")]);

    let xs = expr(
        17,
        ExprKind::Array(vec![ArrayEntry::Elem(number(18, 1)), ArrayEntry::Elem(text(21, "x"))]),
    );
    let bad_array_element = program_error(vec![binding("xs", Some(ints()), xs)]);
    assert_eq!(
        bad_array_element
            .span
            .expect("array element span")
            .start_col,
        21
    );

    let xs = expr(17, ExprKind::Array(vec![ArrayEntry::Spread(number(20, 1))]));
    let bad_array_spread = program_error(vec![binding("xs", Some(ints()), xs)]);
    assert_eq!(
        bad_array_spread.span.expect("array spread span").start_col,
        20
    );

    let value = record(vec![RecordEntry::Spread(number(18, 1))]);
    let bad_record_spread = program_error(vec![binding("value", None, value)]);
    assert_eq!(
        bad_record_spread
            .span
            .expect("record spread span")
            .start_col,
        18
    );
}

// ---------------------------------------------------------------------------
// Patterns
// ---------------------------------------------------------------------------

fn constructor(name: &str) -> Pattern {
    Pattern::Constructor { name: name.to_string(), binding: None }
}

#[test]
fn unknown_constructor_pattern_reports_variant_context() {
    let body = Expr {
        id: NO_NODE_ID,
        span: at(2, 31),
        kind: ExprKind::Match {
            scrutinee: Box::new(ident(37, "c")),
            arms: vec![
                MatchArm { pattern: constructor("Purple"), body: text(50, "purple") },
                MatchArm { pattern: Pattern::Wildcard, body: text(65, "other") },
            ],
        },
    };
    let err = program_error(vec![
        variants("Color", vec![], vec![("Red", None), ("Blue", None)]),
        function(
            "name",
            vec![param("c", Some(named("Color")))],
            Some(named("string")),
            body,
        ),
    ]);

    assert!(matches!(
        *err.error,
        TypeError::UnknownVariant { ref nominal_name, ref variant }
            if nominal_name == "Color" && variant == "Purple"
    ));
    let span = err.span.expect("unknown variant should have a span");
    assert_eq!(span.start_line, 2);
    assert_eq!(err.to_string(), "type `Color` has no variant `Purple`");
}

#[test]
fn unknown_constructor_pattern_on_unresolved_scrutinee_reports_nominal_context() {
    let mut infer = checker();
    let mut env = TypeEnv::new();
    let body = expr(
        11,
        ExprKind::Match {
            scrutinee: Box::new(ident(17, "x")),
            arms: vec![MatchArm { pattern: constructor("Missing"), body: number(32, 1) }],
        },
    );
    let err = infer_error(
        &mut infer,
        &mut env,
        &mut function("f", vec![param("x", None)], None, body),
    );

    assert!(matches!(
        *err.error,
        TypeError::UnknownPatternConstructor { ref constructor, ref scrutinee }
            if constructor == "Missing" && matches!(scrutinee, Ty::Var(_))
    ));
    assert!(err.to_string().contains("expected a nominal type"));
}

// ---------------------------------------------------------------------------
// Programs
// ---------------------------------------------------------------------------

#[test]
fn a_program_that_is_checked_gives_its_value() {
    let of_floats = implementation(
        "Show",
        named("float"),
        vec![own_method("show", vec!["x"], text(25, "ok"))],
    );
    let mut program = Program {
        stmts: vec![
            boxed_type(),
            Stmt::Trait(show_trait()),
            of_floats,
            show_call(float(12, "1.0")),
        ],
    };
    let mut infer = Infer::new();
    let (env, value) = infer
        .infer_program_with_value(&mut program)
        .expect("a program");

    assert_eq!(value.to_string(), "string");
    assert_eq!(
        env.get("Boxed").expect("it is bound").scheme.to_string(),
        "fn(float) -> Boxed"
    );
}

#[test]
fn a_type_and_a_trait_have_different_names() {
    let err = program_error(vec![
        variants("Show", vec![], vec![("Shown", None)]),
        Stmt::Trait(show_trait()),
    ]);

    assert!(matches!(*err.error, TypeError::DuplicateTypeTraitName(ref name) if name == "Show"));
}

#[test]
fn a_method_of_a_trait_speaks_of_its_target() {
    let mut def = show_trait();
    def.methods[0].params[0].ty = named("int");
    let err = program_error(vec![Stmt::Trait(def)]);

    assert!(matches!(
        *err.error,
        TypeError::TraitMethodMissingTarget { ref trait_name, ref method }
            if trait_name == "Show" && method == "show"
    ));
}

#[test]
fn two_tests_have_different_names() {
    let test = || {
        Stmt::Fn(FnDef {
            name: "t".to_string(),
            name_span: at(2, 4),
            params: vec![],
            ret_type: None,
            body: expr(5, ExprKind::Unit),
            dict_params: vec![],
            type_bounds: vec![],
            is_test: true,
            span: at(2, 1),
        })
    };
    let err = program_error(vec![Stmt::TestBlock { stmts: vec![test(), test()], span: at(1, 1) }]);

    assert!(matches!(*err.error, TypeError::DuplicateTestFunction(ref name) if name == "t"));
}

#[test]
fn a_function_is_polymorphic_in_what_it_does_not_use() {
    let mut infer = checker();
    let mut env = TypeEnv::new();
    let mut id = function("id", vec![param("x", None)], None, ident(3, "x"));
    infer.infer_stmt(&mut env, &mut id).expect("a function");
    let scheme = env.get("id").expect("it is bound").scheme.to_string();
    assert_eq!(scheme, "∀ 'a. fn('a) -> 'a");

    let used = infer
        .infer_expr(&env, &mut call(ident(1, "id"), vec![number(4, 1)]))
        .expect("a call");
    assert_eq!(used.to_string(), "int");
}

#[test]
fn a_call_with_too_few_arguments_is_rejected() {
    let mut infer = checker();
    let mut env = TypeEnv::new();
    let mut id = function("id", vec![param("x", None)], None, ident(3, "x"));
    infer.infer_stmt(&mut env, &mut id).expect("a function");

    let err = infer
        .infer_expr(&env, &mut call(ident(1, "id"), vec![]))
        .expect_err("an argument is missing");
    assert_eq!(*err.error, TypeError::ArityMismatch { expected: 1, got: 0 });
}

#[test]
fn a_break_belongs_in_a_loop() {
    let mut infer = checker();
    let env = TypeEnv::new();
    let err = infer
        .infer_expr(&env, &mut expr(1, ExprKind::Break(None)))
        .expect_err("there is no loop");
    assert_eq!(*err.error, TypeError::BreakOutsideLoop);

    let inside = expr(6, ExprKind::Break(Some(Box::new(number(12, 1)))));
    let ty = infer
        .infer_expr(&env, &mut expr(1, ExprKind::Loop(Box::new(inside))))
        .expect("a loop that ends");
    assert_eq!(infer.resolve(&ty), Ty::Int);
    assert!(infer.flow.loop_break_tys.is_empty());
}

#[test]
fn a_let_of_something_mutable_is_not_polymorphic() {
    let mut infer = checker();
    let mut env = TypeEnv::new();
    let mut stmt = Stmt::Let {
        pat: Pattern::Variable("xs".to_string(), at(1, 9)),
        is_mutable: true,
        ty: None,
        value: expr(14, ExprKind::Array(vec![])),
        span: at(1, 1),
    };
    infer.infer_stmt(&mut env, &mut stmt).expect("a let");
    assert!(env.get("xs").expect("it is bound").scheme.vars.is_empty());
}

// ---------------------------------------------------------------------------
// Dictionaries
// ---------------------------------------------------------------------------

fn method(name: &str, params: Vec<Ty>, ret: Ty) -> (String, Ty) {
    let ty = Ty::Func(value_func_params(params), value_func_return(ret));
    (name.to_string(), ty)
}

fn methods(fields: Vec<(String, Ty)>) -> Ty {
    Ty::Record(Row { fields, tail: Box::new(Ty::Unit) })
}

fn con(name: &str) -> Ty {
    Ty::Con(name.to_string())
}

fn dict_args(scheme: &Scheme, targets: Vec<Ty>, known: &[&str]) -> Option<Vec<DictRef>> {
    let mut dicts = NameSet::new();
    for name in known {
        dicts.insert(name.to_string());
    }
    let env = TypeEnv::new();
    let schemes: NameMap<Scheme> = NameMap::new();
    dict_ref_args_for_scheme_args(
        scheme,
        &targets,
        &Known { env: &env, dicts: &dicts, schemes: &schemes },
    )
}

#[test]
fn scheme_target_binding_tries_later_methods_when_earlier_method_is_incomplete() {
    let scheme = Scheme {
        vars: vec![0],
        constraints: vec![TraitConstraint::unary(0, "Show")],
        ty: methods(vec![
            method("first", vec![con("Input")], Ty::Int),
            method("second", vec![con("Input")], Ty::Var(0)),
        ]),
    };

    let found = dict_args(&scheme, vec![con("Input"), con("string")], &["__Show__string"])
        .expect("later method should provide the constrained variable binding");

    assert!(matches!(
        found.as_slice(),
        [DictRef::Concrete(name)] if name == "__Show__string"
    ));
}

#[test]
fn scheme_target_binding_combines_compatible_method_bindings() {
    let scheme = Scheme {
        vars: vec![0, 1],
        constraints: vec![
            TraitConstraint::unary(0, "Show"),
            TraitConstraint::unary(1, "Eq"),
        ],
        ty: methods(vec![
            method("first", vec![con("Input")], Ty::Var(0)),
            method("second", vec![con("Input")], Ty::Var(1)),
        ]),
    };

    let found = dict_args(
        &scheme,
        vec![con("Input"), con("string")],
        &["__Show__string", "__Eq__string"],
    )
    .expect("compatible methods should jointly bind constrained variables");

    assert!(matches!(
        found.as_slice(),
        [DictRef::Concrete(show), DictRef::Concrete(eq)]
            if show == "__Show__string" && eq == "__Eq__string"
    ));
}

#[test]
fn scheme_target_binding_uses_trait_args_not_full_method_arity() {
    let boxed = |ty: Ty| Ty::App(Box::new(con("Box")), vec![ty]);
    let scheme = Scheme {
        vars: vec![0],
        constraints: vec![TraitConstraint::unary(0, "Eq")],
        ty: methods(vec![method(
            "==",
            vec![boxed(Ty::Var(0)), boxed(Ty::Var(0))],
            con("bool"),
        )]),
    };

    let found = dict_args(&scheme, vec![boxed(Ty::Int)], &["__Eq__int"])
        .expect("unary trait target should bind through the first method parameter");

    assert!(matches!(
        found.as_slice(),
        [DictRef::Concrete(name)] if name == "__Eq__int"
    ));
}

// ---------------------------------------------------------------------------
// Recursive groups and macros
// ---------------------------------------------------------------------------

fn group(defs: Vec<Stmt>) -> Stmt {
    Stmt::RecBlock { stmts: defs, span: at(1, 1) }
}

#[test]
fn functions_of_a_group_see_each_other() {
    let mut infer = checker();
    let mut env = TypeEnv::new();
    let mut stmt = group(vec![
        function("ping", vec![param("x", None)], None, call(ident(3, "pong"), vec![ident(8, "x")])),
        function("pong", vec![param("x", None)], None, ident(3, "x")),
    ]);
    infer.infer_stmt(&mut env, &mut stmt).expect("a group");

    assert_eq!(env.get("pong").expect("it is bound").scheme.to_string(), "∀ 'a. fn('a) -> 'a");
    assert_eq!(env.get("ping").expect("it is bound").scheme.to_string(), "∀ 'a. fn('a) -> 'a");
    assert_eq!(infer.current_level, ROOT_LEVEL);
}

#[test]
fn functions_of_a_group_have_different_names() {
    let mut infer = checker();
    let mut env = TypeEnv::new();
    let mut stmt = group(vec![
        function("f", vec![], None, number(3, 1)),
        function("f", vec![], None, number(3, 2)),
    ]);
    let err = infer_error(&mut infer, &mut env, &mut stmt);

    assert!(matches!(*err.error, TypeError::DuplicateFunctionInGroup(ref name) if name == "f"));
}

fn a_macro(param_ty: Type, body: Expr) -> Stmt {
    Stmt::Macro(MacroDef {
        name: "m".to_string(),
        param_name: "input".to_string(),
        param_span: at(1, 9),
        param_ty,
        param_ty_span: at(1, 16),
        ret_ty: Type::App(Box::new(named("MacroResult")), vec![named("Syntax")]),
        ret_ty_span: at(1, 27),
        body,
        span: at(1, 1),
    })
}

fn with_macros() -> Infer {
    let mut infer = checker();
    register_macro_phase_type_surface(&mut infer.types);
    infer
}

fn block(last: Expr) -> Expr {
    expr(40, ExprKind::Block { stmts: vec![], final_expr: Some(Box::new(last)) })
}

#[test]
fn a_macro_turns_syntax_into_syntax() {
    let mut infer = with_macros();
    let mut env = TypeEnv::new();
    let given_back = call(ident(42, "Ok"), vec![ident(45, "input")]);
    infer
        .infer_stmt(&mut env, &mut a_macro(named("Syntax"), block(given_back)))
        .expect("a macro");

    let mut wrong = a_macro(named("Syntax"), block(number(42, 1)));
    let err = infer_error(&mut infer, &mut env, &mut wrong);
    assert_eq!(err.span.expect("the body").start_col, 40);
}

#[test]
fn a_macro_has_the_form_of_one() {
    let mut infer = with_macros();
    let mut env = TypeEnv::new();
    let err = infer_error(&mut infer, &mut env, &mut a_macro(named("int"), block(number(42, 1))));
    assert!(matches!(
        *err.error,
        TypeError::InvalidMacroSignature { ref message }
            if message == "input parameter must have type `Syntax`, got `int`"
    ));

    let err = infer_error(&mut infer, &mut env, &mut a_macro(named("Syntax"), number(40, 1)));
    assert!(matches!(
        *err.error,
        TypeError::InvalidMacroSignature { ref message }
            if message == "body must be a block expression"
    ));
}

#[test]
fn a_macro_sees_what_its_phase_offers() {
    let mut env = TypeEnv::new();
    insert_syntax_builtin_schemes(&mut env);
    assert_eq!(
        env.get("syntax_is_ident").expect("it is offered").scheme.to_string(),
        "fn(Syntax, string) -> bool"
    );
    assert!(macro_builtin_available("syntax_find"));
    assert!(!macro_builtin_available("print"));
}

// ---------------------------------------------------------------------------
// Programs with errors
// ---------------------------------------------------------------------------

fn collect(stmts: Vec<Stmt>) -> (Infer, Program, InferenceResult, Vec<SpannedTypeError>) {
    let mut infer = Infer::new();
    let mut program = Program { stmts };
    let (found, errors) = infer.infer_program_collecting(&mut program, &vec![], None);
    (infer, program, found, errors)
}

fn broken() -> Stmt {
    variants(
        "Broken",
        vec!["a"],
        vec![
            ("Good", Some(Type::Var("a".to_string()))),
            ("Bad", Some(named("Missing"))),
        ],
    )
}

/// `let other: bool = 1;` on a line.
fn wrong_let(name: &str, line: usize) -> Stmt {
    Stmt::Let {
        pat: Pattern::Variable(name.to_string(), at(line, 5)),
        is_mutable: false,
        ty: Some(named("bool")),
        value: Expr { id: NO_NODE_ID, span: at(line, 19), kind: number(19, 1).kind },
        span: at(line, 1),
    }
}

fn is_mismatch(e: &SpannedTypeError, want: &str) -> bool {
    matches!(
        *e.error,
        TypeError::Mismatch(Ty::Con(ref name), Ty::Int) if name == want
    )
}

fn test_fn(name: &str, line: usize, params: Vec<Param>, body: Expr) -> Stmt {
    Stmt::Fn(FnDef {
        name: name.to_string(),
        name_span: at(line, 15),
        params,
        ret_type: None,
        body,
        dict_params: vec![],
        type_bounds: vec![],
        is_test: true,
        span: at(line, 12),
    })
}

fn tests(stmts: Vec<Stmt>) -> Stmt {
    Stmt::TestBlock { stmts, span: at(1, 1) }
}

fn unit() -> Expr {
    expr(5, ExprKind::Unit)
}

#[test]
fn failed_type_declaration_prunes_variant_state() {
    let (infer, _, inference, diagnostics) = collect(vec![broken()]);

    assert_eq!(diagnostics.len(), 1);
    assert!(matches!(
        *diagnostics[0].error,
        TypeError::UnknownType(ref name) if name == "Missing"
    ));
    assert_eq!(diagnostics[0].span.expect("type error span").start_line, 1);
    assert!(!infer.types.declared.contains("Broken"));
    assert!(!infer.types.variant_env.0.contains_key("Good"));
    assert!(!infer.types.variant_env.0.contains_key("Bad"));
    assert!(inference.env.get("Good").is_none());
    assert!(inference.env.get("Bad").is_none());
}

#[test]
fn collecting_inference_skips_nested_pattern_references_to_unavailable_variants() {
    let nested = Pattern::List {
        elements: vec![Pattern::Tuple(vec![
            Pattern::Constructor {
                name: "Good".to_string(),
                binding: Some(Box::new(Pattern::Variable("x".to_string(), at(2, 40)))),
            },
            Pattern::Variable("y".to_string(), at(2, 44)),
        ])],
        rest: None,
    };
    let body = expr(
        20,
        ExprKind::Match {
            scrutinee: Box::new(ident(26, "xs")),
            arms: vec![
                MatchArm { pattern: nested, body: ident(50, "x") },
                MatchArm { pattern: Pattern::Wildcard, body: number(58, 0) },
            ],
        },
    );
    let dependent = function("dependent", vec![param("xs", None)], None, body);
    let (_, _, inference, diagnostics) = collect(vec![broken(), dependent, wrong_let("other", 3)]);

    assert_eq!(
        diagnostics.len(),
        2,
        "dependent nested pattern should be skipped, not diagnosed again"
    );
    assert!(diagnostics.iter().any(|diagnostic| matches!(
        *diagnostic.error,
        TypeError::UnknownType(ref name) if name == "Missing"
    )));
    assert!(diagnostics.iter().any(|diagnostic| is_mismatch(diagnostic, "bool")));
    assert_eq!(
        diagnostics
            .iter()
            .map(|diagnostic| diagnostic.span.expect("type error span").start_line)
            .collect::<Vec<_>>(),
        vec![1, 3]
    );
    assert!(inference.env.get("dependent").is_none());
    assert!(inference.env.get("other").is_none());
}

#[test]
fn collecting_inference_reports_independent_test_block_errors() {
    let (_, _, _, diagnostics) = collect(vec![tests(vec![
        test_fn("has_arg", 3, vec![param("x", Some(named("int")))], unit()),
        test_fn("returns_int", 6, vec![], number(31, 1)),
    ])]);

    assert_eq!(diagnostics.len(), 2);
    assert!(matches!(
        *diagnostics[0].error,
        TypeError::InvalidTestFunction { ref name, ref message }
            if name == "has_arg" && message.contains("expected no parameters")
    ));
    assert_eq!(diagnostics[0].span.expect("type error span").start_line, 3);
    assert!(matches!(
        *diagnostics[1].error,
        TypeError::InvalidTestFunction { ref name, ref message }
            if name == "returns_int" && message.contains("expected return type unit")
    ));
    assert_eq!(diagnostics[1].span.expect("type error span").start_line, 6);
}

#[test]
fn collecting_inference_reports_all_duplicate_test_names() {
    let (_, _, _, diagnostics) = collect(vec![tests(vec![
        test_fn("same", 3, vec![], unit()),
        test_fn("same", 6, vec![], unit()),
        test_fn("same", 9, vec![], unit()),
    ])]);

    let duplicates = diagnostics
        .iter()
        .filter(|diagnostic| matches!(*diagnostic.error, TypeError::DuplicateTestFunction(ref name) if name == "same"))
        .count();
    assert_eq!(duplicates, 2);
}

/// The types that macros speak of.
fn macro_types() -> Vec<Stmt> {
    vec![
        variants("Syntax", vec![], vec![("Dummy", None)]),
        variants(
            "Result",
            vec!["a", "e"],
            vec![
                ("Ok", Some(Type::Var("a".to_string()))),
                ("Err", Some(Type::Var("e".to_string()))),
            ],
        ),
        variants("MacroError", vec![], vec![("MacroError", Some(named("string")))]),
        Stmt::TypeAlias {
            name: "MacroResult".to_string(),
            name_span: at(4, 12),
            params: vec!["a".to_string()],
            ty: Type::App(
                Box::new(named("Result")),
                vec![Type::Var("a".to_string()), named("MacroError")],
            ),
            span: at(4, 1),
        },
    ]
}

#[test]
fn macro_phase_rejects_runtime_only_top_level_values() {
    let mut stmts = macro_types();
    stmts.push(binding("runtime_value", None, number(21, 1)));
    stmts.push(a_macro(
        named("Syntax"),
        block(call(ident(12, "Ok"), vec![ident(15, "runtime_value")])),
    ));
    let (_, _, _, diagnostics) = collect(stmts);

    assert_eq!(diagnostics.len(), 1);
    assert!(matches!(
        *diagnostics[0].error,
        TypeError::UnboundVariable(ref name) if name == "runtime_value"
    ));
}

#[test]
fn macro_phase_allows_prior_function_helpers() {
    let mut stmts = macro_types();
    stmts.push(function(
        "id_syntax",
        vec![param("input", Some(named("Syntax")))],
        Some(named("Syntax")),
        ident(47, "input"),
    ));
    stmts.push(a_macro(
        named("Syntax"),
        block(call(
            ident(12, "Ok"),
            vec![call(ident(15, "id_syntax"), vec![ident(25, "input")])],
        )),
    ));
    let (_, _, _, diagnostics) = collect(stmts);

    assert!(diagnostics.is_empty(), "{diagnostics:?}");
}

#[test]
fn macro_signature_errors_are_type_errors() {
    let mut stmts = macro_types();
    let given = || call(ident(12, "Ok"), vec![ident(15, "input")]);
    stmts.push(a_macro(named("int"), block(given())));
    let mut wrong_return = a_macro(named("Syntax"), block(ident(12, "input")));
    if let Stmt::Macro(def) = &mut wrong_return {
        def.ret_ty = named("Syntax");
    }
    stmts.push(wrong_return);
    stmts.push(a_macro(named("Syntax"), given()));
    let (_, _, _, diagnostics) = collect(stmts);
    let messages: Vec<_> = diagnostics
        .iter()
        .map(|diagnostic| diagnostic.to_string())
        .collect();

    assert!(
        messages
            .iter()
            .any(|message| message.contains("input parameter must have type `Syntax`")),
        "{messages:?}"
    );
    assert!(
        messages
            .iter()
            .any(|message| message.contains("return type must be `MacroResult(Syntax)`")),
        "{messages:?}"
    );
    assert!(
        messages
            .iter()
            .any(|message| message.contains("body must be a block expression")),
        "{messages:?}"
    );
}

fn bad_alias() -> Stmt {
    Stmt::TypeAlias {
        name: "Bad".to_string(),
        name_span: at(1, 12),
        params: vec!["a".to_string(), "a".to_string()],
        ty: Type::Var("a".to_string()),
        span: at(1, 1),
    }
}

#[test]
fn collecting_inference_keeps_duplicate_test_names_when_prepass_fails() {
    let (_, _, _, diagnostics) = collect(vec![
        bad_alias(),
        tests(vec![
            test_fn("same", 5, vec![], unit()),
            test_fn("same", 8, vec![], unit()),
        ]),
    ]);

    assert!(diagnostics.iter().any(|diagnostic| {
        matches!(
            *diagnostic.error,
            TypeError::DuplicateTestFunction(ref name) if name == "same"
        )
    }));
    assert!(diagnostics.iter().any(|diagnostic| {
        matches!(
            *diagnostic.error,
            TypeError::DuplicateTypeParameter { ref owner, ref param }
                if owner == "Bad" && param == "'a"
        )
    }));
}

#[test]
fn duplicate_type_parameters_are_rejected_before_alias_substitution() {
    let ty = Type::App(Box::new(named("Bad")), vec![named("int"), named("string")]);
    let err = program_error(vec![bad_alias(), outside("value", ty)]);

    assert!(matches!(
        *err.error,
        TypeError::DuplicateTypeParameter { ref owner, ref param }
            if owner == "Bad" && param == "'a"
    ));
}

#[test]
fn collecting_inference_normalizes_failed_symbol_types_before_rollback() {
    let takes = function("takes", vec![param("x", None)], None, ident(15, "x"));
    let mut callee = ident(4, "takes");
    callee.id = 7;
    let choice = expr(
        1,
        ExprKind::If {
            cond: Box::new(call(callee, vec![number(10, 1)])),
            then_branch: Box::new(number(15, 0)),
            else_branch: Box::new(number(26, 1)),
        },
    );
    let (_, _, inference, diagnostics) = collect(vec![takes, Stmt::Expr(choice)]);

    assert_eq!(diagnostics.len(), 1);
    let callee_ty = inference
        .symbol_types
        .get(&7)
        .expect("failed call callee type should be retained");
    assert!(
        free_type_vars(callee_ty).is_empty(),
        "retained failed symbol type should be normalized, got {}",
        callee_ty.to_string()
    );
    match callee_ty {
        Ty::Func(params, ret) => {
            assert_eq!(params.len(), 1);
            assert_eq!(params[0].ty, Ty::Int);
            assert_eq!(*ret.ty, Ty::Int);
        }
        other => panic!("callee should retain a function type, got {}", other.to_string()),
    }
    assert_eq!(inference.value_ty, Ty::Unit);
}

fn of_type(name: &str, methods: Vec<InherentMethod>) -> Stmt {
    Stmt::InherentImpl(InherentImplDef {
        target: named(name),
        type_bounds: vec![],
        methods,
        span: at(2, 1),
    })
}

fn type_method(name: &str, params: Vec<Param>, ret: Option<Type>, body: Expr) -> InherentMethod {
    InherentMethod {
        name: name.to_string(),
        name_span: at(3, 6),
        params,
        ret_type: ret.map(|ty| TypeReturn { ty: Box::new(ty), mut_place: false }),
        body,
        dict_params: vec![],
        type_bounds: vec![],
        span: at(3, 3),
    }
}

fn method_call(receiver: Expr, name: &str) -> Expr {
    let callee = expr(
        1,
        ExprKind::FieldAccess { expr: Box::new(receiver), field: name.to_string() },
    );
    expr(
        1,
        ExprKind::Call {
            callee: Box::new(callee),
            args: vec![],
            is_method_call: false,
            arg_wrappers: vec![],
            resolved_callee: None,
            pending_trait_method: None,
            dict_args: vec![],
            pending_dict_args: vec![],
        },
    )
}

#[test]
fn same_name_single_constructor_type_is_nominal() {
    let unwrap = type_method(
        "unwrap",
        vec![param("self", None)],
        None,
        expr(
            22,
            ExprKind::Match {
                scrutinee: Box::new(ident(28, "self")),
                arms: vec![MatchArm {
                    pattern: Pattern::Constructor {
                        name: "Wrap".to_string(),
                        binding: Some(Box::new(Pattern::Variable("value".to_string(), at(3, 40)))),
                    },
                    body: ident(50, "value"),
                }],
            },
        ),
    );
    let mut program = Program {
        stmts: vec![
            variants("Wrap", vec![], vec![("Wrap", Some(named("float")))]),
            of_type("Wrap", vec![unwrap]),
            binding("wrapped", None, call(ident(15, "Wrap"), vec![float(20, "1.0")])),
            binding("value", None, method_call(ident(13, "wrapped"), "unwrap")),
        ],
    };

    let mut infer = Infer::new();
    let env = infer
        .infer_program(&mut program)
        .expect("same-name constructor should infer as a nominal type");
    assert_eq!(env.get("value").expect("it is bound").scheme.to_string(), "float");
}

#[test]
fn recursive_type_alias_reports_error_instead_of_recursing() {
    let alias = |name: &str, other: &str| Stmt::TypeAlias {
        name: name.to_string(),
        name_span: at(1, 12),
        params: vec![],
        ty: named(other),
        span: at(1, 1),
    };
    let err = program_error(vec![
        alias("A", "B"),
        alias("B", "A"),
        outside("value", named("A")),
    ]);

    assert!(matches!(
        *err.error,
        TypeError::RecursiveTypeAlias { ref name, ref cycle }
            if name == "A" && cycle == &vec!["A".to_string(), "B".to_string(), "A".to_string()]
    ));
    assert_eq!(
        err.to_string(),
        "recursive type alias cycle `A -> B -> A` is not supported; use a nominal type constructor instead"
    );
}

fn self_and_other() -> Vec<Param> {
    vec![param("self", None), param("other", Some(named("Self")))]
}

fn int_box() -> Stmt {
    variants("Box", vec![], vec![("Box", Some(named("int")))])
}

fn keeps_self(method: &InherentMethod) -> bool {
    matches!(method.params[1].ty, Some(Type::Ident(ref name)) if name == "Self")
}

#[test]
fn collecting_inference_does_not_mutate_failed_inherent_self_types() {
    let bad = type_method(
        "bad",
        self_and_other(),
        Some(named("int")),
        expr(39, ExprKind::Bool(true)),
    );
    let (_, program, _, diagnostics) = collect(vec![int_box(), of_type("Box", vec![bad])]);

    assert_eq!(diagnostics.len(), 1);
    let Stmt::InherentImpl(id) = &program.stmts[1] else {
        panic!("second statement should be an inherent impl");
    };
    assert!(keeps_self(&id.methods[0]));
}

#[test]
fn collecting_inference_does_not_partially_mutate_failed_inherent_impl() {
    let ok = type_method("ok", self_and_other(), Some(named("int")), number(38, 1));
    let bad = type_method(
        "bad",
        self_and_other(),
        Some(named("int")),
        expr(39, ExprKind::Bool(true)),
    );
    let (_, program, _, diagnostics) = collect(vec![int_box(), of_type("Box", vec![ok, bad])]);

    assert_eq!(diagnostics.len(), 1);
    let Stmt::InherentImpl(id) = &program.stmts[1] else {
        panic!("second statement should be an inherent impl");
    };
    for method in &id.methods {
        assert!(keeps_self(method), "failed inherent impl should retain original Self annotations");
    }
}

#[test]
fn collecting_inference_does_not_use_failed_local_impl_dict() {
    let wrong = implementation(
        "Show",
        named("Boxed"),
        vec![own_method("show", vec!["x"], number(25, 1))],
    );
    let arg = call(ident(12, "Boxed"), vec![float(18, "1.0")]);
    let (_, _, _, diagnostics) =
        collect(vec![boxed_type(), Stmt::Trait(show_trait()), wrong, show_call(arg)]);

    assert!(diagnostics.iter().any(|diagnostic| {
        matches!(
            *diagnostic.error,
            TypeError::MissingTraitImpl { ref trait_name, ref impl_target }
                if trait_name == "Show" && impl_target == "Boxed"
        )
    }));
}

fn show_floats() -> Stmt {
    implementation(
        "Show",
        named("float"),
        vec![own_method("show", vec!["x"], text(25, "ok"))],
    )
}

#[test]
fn available_concrete_trait_impl_resolves_to_checked_dict_ref() {
    let mut program = Program {
        stmts: vec![
            Stmt::Trait(show_trait()),
            show_floats(),
            binding("x", None, float(18, "1.0")),
            Stmt::Expr(method_call(ident(10, "x"), "show")),
        ],
    };

    let mut infer = Infer::new();
    infer
        .infer_program(&mut program)
        .expect("available concrete impl should infer");

    let Stmt::Expr(called) = &program.stmts[3] else {
        panic!("fourth statement should be the call expression");
    };
    let ExprKind::Call { dict_args, pending_dict_args, resolved_callee, .. } = &called.kind else {
        panic!("third statement should be a call");
    };

    assert!(pending_dict_args.is_empty());
    assert!(dict_args.is_empty());
    match resolved_callee {
        Some(ResolvedCallee::DictMethod { dict: DictRef::Concrete(name), method }) => {
            assert_eq!(name, "__Show__float");
            assert_eq!(method, "show");
        }
        other => panic!("expected concrete checked dict method, got {other:?}"),
    }
}

#[test]
fn qualified_trait_method_colon_colon_syntax_dispatches_trait_method() {
    let mut program = Program {
        stmts: vec![
            Stmt::Trait(show_trait()),
            show_floats(),
            show_call(float(12, "1.0")),
        ],
    };

    Infer::new()
        .infer_program(&mut program)
        .expect("qualified trait method should infer");
}

fn eq_trait(operator: bool) -> Stmt {
    let mut named_eq = equality("eq");
    named_eq.fixity = None;
    let mut methods = vec![named_eq];
    if operator {
        methods.push(equality("=="));
    }
    Stmt::Trait(TraitDef {
        name: "Eq".to_string(),
        name_span: at(1, 7),
        params: vec!["a".to_string()],
        fundeps: vec![],
        methods,
        span: at(1, 1),
    })
}

fn ones_equal() -> Stmt {
    Stmt::Expr(expr(
        1,
        ExprKind::Binary {
            lhs: Box::new(number(1, 1)),
            op: BinOp::Custom("==".to_string()),
            rhs: Box::new(number(6, 1)),
            resolved_op: None,
            pending_op: None,
            dict_args: vec![],
            pending_dict_args: vec![],
        },
    ))
}

fn eq_call() -> Stmt {
    let callee = expr(
        1,
        ExprKind::AssociatedAccess {
            target: named("Eq"),
            target_span: at(1, 1),
            member: "eq".to_string(),
            member_span: at(1, 5),
            resolution: None,
        },
    );
    Stmt::Expr(call(callee, vec![number(8, 1), number(11, 1)]))
}

#[test]
fn reused_infer_does_not_leak_program_trait_operator_or_impl_state() {
    let mut first = Program {
        stmts: vec![
            eq_trait(true),
            implementation(
                "Eq",
                named("int"),
                vec![
                    own_method("eq", vec!["lhs", "rhs"], expr(28, ExprKind::Bool(true))),
                    own_method("==", vec!["lhs", "rhs"], expr(28, ExprKind::Bool(true))),
                ],
            ),
            ones_equal(),
        ],
    };

    let mut infer = Infer::new();
    infer
        .infer_program(&mut first)
        .expect("first program should infer");

    let mut no_trait = Program { stmts: vec![eq_call()] };
    let err = infer
        .infer_program(&mut no_trait)
        .expect_err("trait from first program should not leak");
    assert!(
        matches!(*err.error, TypeError::InvalidInherentImplTarget(ref name) if name == "Eq"),
        "unexpected error: {err:?}"
    );

    let mut no_operator = Program { stmts: vec![ones_equal()] };
    let err = infer
        .infer_program(&mut no_operator)
        .expect_err("operator from first program should not leak");
    assert!(matches!(*err.error, TypeError::UnboundVariable(ref name) if name == "=="));

    let mut no_impl = Program { stmts: vec![eq_trait(false), eq_call()] };
    let err = infer
        .infer_program(&mut no_impl)
        .expect_err("impl dictionary from first program should not leak");
    assert!(matches!(
        *err.error,
        TypeError::MissingTraitImpl { ref trait_name, ref impl_target }
            if trait_name == "Eq" && impl_target == "int"
    ));
}

#[test]
fn failed_impl_does_not_make_trait_unavailable_for_recovery() {
    let wrong = implementation(
        "Show",
        named("int"),
        vec![own_method("show", vec!["x"], number(25, 1))],
    );
    let (_, _, _, diagnostics) =
        collect(vec![Stmt::Trait(show_trait()), wrong, show_call(number(12, 1))]);

    assert_eq!(diagnostics.len(), 2);
    assert!(is_mismatch(&diagnostics[0], "string"));
    assert!(matches!(
        *diagnostics[1].error,
        TypeError::MissingTraitImpl { ref trait_name, ref impl_target }
            if trait_name == "Show" && impl_target == "int"
    ));
}

// ---------------------------------------------------------------------------
// Patterns that always match
// ---------------------------------------------------------------------------

#[test]
fn a_payload_that_is_tested_makes_a_pattern_refutable() {
    let mut sole = VariantEnv::default();
    sole.0.insert(
        "Wrap".to_string(),
        VariantInfo {
            nominal_name: "Wrap".to_string(),
            type_params: vec![],
            type_param_vars: vec![],
            payload: Some(named("bool")),
            payload_ty: None,
        },
    );
    let wrap = |inner: Pattern| Pattern::Constructor {
        name: "Wrap".to_string(),
        binding: Some(Box::new(inner)),
    };
    assert!(!is_irrefutable_param(&wrap(Pattern::BoolLit(true)), &sole));
    assert!(!is_irrefutable_let(&wrap(Pattern::BoolLit(true)), &sole));
    assert!(is_irrefutable_param(&wrap(Pattern::Wildcard), &sole));
    assert!(is_irrefutable_let(&wrap(Pattern::Wildcard), &sole));
}

#[test]
fn the_value_of_a_program_whose_last_expression_fails_is_unit() {
    let (_, _, found, errors) = collect(vec![
        Stmt::Expr(number(1, 1)),
        Stmt::Expr(ident(1, "missing")),
    ]);
    assert_eq!(errors.len(), 1);
    assert_eq!(found.value_ty, Ty::Unit);

    let (_, _, found, errors) = collect(vec![Stmt::Expr(number(1, 1))]);
    assert_eq!(errors.len(), 0);
    assert_eq!(found.value_ty, Ty::Int);

    let (_, _, found, errors) = collect(vec![Stmt::Expr(number(1, 1)), broken()]);
    assert_eq!(errors.len(), 1);
    assert_eq!(found.value_ty, Ty::Unit);
}

#[test]
fn a_failed_statement_is_reported_and_what_needs_it_is_left_out() {
    let (_, _, found, errors) = collect(vec![
        wrong_let("bad", 1),
        binding("dependent", None, ident(9, "bad")),
        wrong_let("other", 3),
        binding("fine", None, number(9, 1)),
    ]);
    let lines: Vec<usize> = errors.iter().map(|e| e.span.expect("a place").start_line).collect();
    assert_eq!(lines, vec![1, 3]);
    assert!(found.env.get("fine").is_some());
    assert!(found.env.get("dependent").is_none());
    assert!(found.env.get("bad").is_none());
}

#[test]
fn a_quoted_form_binds_what_it_captures() {
    let captured = at(1, 60);
    let quoted = Pattern::SyntaxQuote(vec![
        SyntaxCaptureInfo {
            name: "lhs".to_string(),
            category: "expr".to_string(),
            repeat: false,
            span: captured,
        },
        SyntaxCaptureInfo {
            name: "items".to_string(),
            category: "expr".to_string(),
            repeat: true,
            span: at(1, 70),
        },
    ]);
    let arms = vec![
        MatchArm { pattern: quoted, body: call(ident(42, "Ok"), vec![ident(45, "lhs")]) },
        MatchArm {
            pattern: Pattern::Wildcard,
            body: call(ident(42, "Ok"), vec![ident(45, "input")]),
        },
    ];
    let body = expr(41, ExprKind::Match { scrutinee: Box::new(ident(41, "input")), arms });
    let mut infer = with_macros();
    let mut env = TypeEnv::new();
    infer
        .infer_stmt(&mut env, &mut a_macro(named("Syntax"), block(body)))
        .expect("a macro");

    let capture = infer.metadata.syntax_captures.get(&captured).expect("it is noted");
    assert_eq!(capture.name, "lhs");
    assert!(!capture.repeat);
    assert_eq!(
        infer.metadata.binding_types.get(&captured),
        Some(&Ty::Con("Syntax".to_string()))
    );
    assert_eq!(
        infer.metadata.binding_types.get(&at(1, 70)),
        Some(&Ty::App(
            Box::new(Ty::Con("Array".to_string())),
            vec![Ty::Con("Syntax".to_string())]
        ))
    );
}

#[test]
fn macros_are_checked_up_to_the_first_that_is_wrong() {
    let mut infer = with_macros();
    let env = TypeEnv::new();
    let good = a_macro(
        named("Syntax"),
        block(call(ident(42, "Ok"), vec![ident(45, "input")])),
    );
    let bad = a_macro(named("Syntax"), number(40, 1));
    let mut defs: Vec<MacroDef> = Vec::new();
    for stmt in [good, bad] {
        if let Stmt::Macro(def) = stmt {
            defs.push(def);
        }
    }
    let err = infer.infer_macro_defs(&env, &mut defs).expect_err("the second is wrong");
    assert!(matches!(*err.error, TypeError::InvalidMacroSignature { .. }));
    defs.truncate(1);
    infer.infer_macro_defs(&env, &mut defs).expect("the first is a macro");
}

#[test]
fn an_ill_typed_function_of_a_group_is_rejected() {
    let mut infer = checker();
    let mut env = TypeEnv::new();
    let mut stmt = group(vec![function(
        "f",
        vec![param("x", Some(named("int")))],
        Some(named("bool")),
        ident(3, "x"),
    )]);
    let err = infer_error(&mut infer, &mut env, &mut stmt);
    assert!(matches!(
        *err.error,
        TypeError::Mismatch(Ty::Con(ref name), Ty::Int) if name == "bool"
    ));
    assert!(env.get("f").is_none());
}

#[test]
fn a_condition_has_the_type_of_its_branches() {
    let mut infer = checker();
    let env = TypeEnv::new();
    let mut e = expr(
        1,
        ExprKind::If {
            cond: Box::new(expr(4, ExprKind::Not(Box::new(expr(5, ExprKind::Bool(true)))))),
            then_branch: Box::new(expr(9, ExprKind::Tuple(vec![number(10, 1), text(13, "a")]))),
            else_branch: Box::new(expr(20, ExprKind::Tuple(vec![number(21, 2), text(24, "b")]))),
        },
    );
    assert_eq!(
        infer.infer_expr(&env, &mut e).expect("it has a type"),
        Ty::Tuple(vec![Ty::Int, Ty::Con("string".to_string())])
    );
}

#[test]
fn a_derived_implementation_that_fails_says_so() {
    let mut stmt = implementation(
        "Show",
        named("int"),
        vec![own_method("show", vec!["x"], number(20, 1))],
    );
    if let Stmt::Impl(id) = &mut stmt {
        id.generated_by = Some(GeneratedBy::Derive {
            trait_name: "Show".to_string(),
            source_span: at(9, 1),
        });
    }
    let err = program_error(vec![Stmt::Trait(show_trait()), stmt]);
    match *err.error {
        TypeError::DerivedImplFailure { ref trait_name, ref error } => {
            assert_eq!(trait_name, "Show");
            assert_eq!(err.to_string(), error.to_string());
        }
        ref other => panic!("{:?}", other),
    }
}
