//! Types, schemes, substitutions and unification.

use std::collections::HashMap;

use hern_core::display::type_var_name;
use hern_core::error::{TypeError, TypeMismatchContext};
use hern_core::subst::Subst;
use hern_core::ty::{value_func_params, value_func_return, Row, Scheme, TraitConstraint, Ty};
use hern_core::unify::unify;
use hern_core::vars::free_type_vars_in_display_order;

#[test]
fn scheme_display_uses_unicode_forall_and_letter_names() {
    // ∀ 'a. fn('a) -> 'a
    let scheme = Scheme {
        vars: vec![7],
        constraints: vec![],
        ty: Ty::Func(
            value_func_params(vec![Ty::Var(7)]),
            value_func_return(Ty::Var(7)),
        ),
    };
    assert_eq!(scheme.to_string(), "∀ 'a. fn('a) -> 'a");
}

#[test]
fn scheme_display_includes_constraints_with_letter_names() {
    // ∀ 'a ['a: Iterable]. fn('a(float)) -> float
    let scheme = Scheme {
        vars: vec![90],
        constraints: vec![TraitConstraint::unary(90, "Iterable")],
        ty: Ty::Func(
            value_func_params(vec![Ty::App(Box::new(Ty::Var(90)), vec![Ty::Float])]),
            value_func_return(Ty::Float),
        ),
    };
    assert_eq!(
        scheme.to_string(),
        "∀ 'a ['a: Iterable]. fn('a(float)) -> float"
    );
}

#[test]
fn scheme_display_multiple_vars_get_sequential_letters() {
    // ∀ 'a 'b. fn('a, 'b) -> 'b
    let scheme = Scheme {
        vars: vec![3, 5],
        constraints: vec![],
        ty: Ty::Func(
            value_func_params(vec![Ty::Var(3), Ty::Var(5)]),
            value_func_return(Ty::Var(5)),
        ),
    };
    assert_eq!(scheme.to_string(), "∀ 'a 'b. fn('a, 'b) -> 'b");
}

#[test]
fn scheme_display_mono_type_no_forall() {
    let scheme = Scheme::mono(Ty::Float);
    assert_eq!(scheme.to_string(), "float");
}

#[test]
fn tyvar_name_branches() {
    assert_eq!(type_var_name(0), "a");
    assert_eq!(type_var_name(25), "z");
    assert_eq!(type_var_name(26), "aa");
    assert_eq!(type_var_name(27), "ab");
    assert_eq!(type_var_name(51), "az");
    assert_eq!(type_var_name(52), "ba");
    assert_eq!(type_var_name(701), "zz");
    // Three-letter
    assert_eq!(type_var_name(702), "aaa");
}

#[test]
fn free_type_vars_follow_display_order() {
    let ty = Ty::Func(
        value_func_params(vec![Ty::Var(78), Ty::Tuple(vec![Ty::Var(12), Ty::Var(78)])]),
        value_func_return(Ty::Var(12)),
    );

    assert_eq!(free_type_vars_in_display_order(&ty), vec![78, 12]);
}

#[test]
fn scheme_display_qualified_ty_uses_pretty_names() {
    // ∀ 'a. ['a: Add] 'a — a Qualified inner type
    let scheme = Scheme {
        vars: vec![1],
        constraints: vec![],
        ty: Ty::Qualified(
            vec![TraitConstraint::unary(1, "Add")],
            Box::new(Ty::Var(1)),
        ),
    };
    assert_eq!(scheme.to_string(), "∀ 'a. ['a: Add] 'a");
}

#[test]
fn scheme_display_record_with_var_tail() {
    // ∀ 'a. #{ x: float, ..'a }
    let scheme = Scheme {
        vars: vec![2],
        constraints: vec![],
        ty: Ty::Record(Row {
            fields: vec![("x".to_string(), Ty::Float)],
            tail: Box::new(Ty::Var(2)),
        }),
    };
    assert_eq!(scheme.to_string(), "∀ 'a. #{ x: float, ..'a }");
}

#[test]
fn scheme_display_constraint_with_free_var_falls_back_to_numeric() {
    // Constraint refers to var 99, not in vars → falls back to numeric
    let scheme = Scheme {
        vars: vec![0],
        constraints: vec![TraitConstraint::unary(99, "Debug")],
        ty: Ty::Var(0),
    };
    assert_eq!(scheme.to_string(), "∀ 'a ['99: Debug]. 'a");
}

#[test]
fn subst_snapshot_restore_keeps_fresh_var_counter_advancing() {
    let mut subst = Subst::new();
    assert_eq!(subst.fresh_tyvar(), 0);

    let snapshot = subst.snapshot_map();
    assert_eq!(subst.fresh_tyvar(), 1);

    subst.restore_map(snapshot);
    assert_eq!(subst.fresh_tyvar(), 2);
}

#[test]
fn subst_clear_map_keeps_fresh_var_counter_advancing() {
    let mut subst = Subst::new();
    assert_eq!(subst.fresh_tyvar(), 0);
    subst.bind_ty(0, Ty::Float).expect("binding should succeed");

    subst.clear_map_keep_counter();

    assert_eq!(subst.apply(&Ty::Var(0)), Ty::Var(0));
    assert_eq!(subst.fresh_tyvar(), 1);
}

#[test]
fn bind_ty_rejects_recursive_function_type() {
    let mut subst = Subst::new();

    let err = subst
        .bind_ty(
            0,
            Ty::Func(
                value_func_params(vec![Ty::Float]),
                value_func_return(Ty::Var(0)),
            ),
        )
        .expect_err("function result refers to the bound variable");

    assert_eq!(err, TypeError::OccursCheck(0));
}

#[test]
fn bind_ty_rejects_recursive_record_type() {
    let mut subst = Subst::new();

    let err = subst
        .bind_ty(
            0,
            Ty::Record(Row {
                fields: vec![("next".to_string(), Ty::Var(0))],
                tail: Box::new(Ty::Unit),
            }),
        )
        .expect_err("record field refers to the bound variable");

    assert_eq!(err, TypeError::OccursCheck(0));
}

#[test]
fn apply_still_sorts_record_fields_without_substitution() {
    let subst = Subst::new();

    let applied = subst.apply(&Ty::Record(Row {
        fields: vec![("z".to_string(), Ty::Float), ("a".to_string(), Ty::Unit)],
        tail: Box::new(Ty::Unit),
    }));

    assert_eq!(
        applied,
        Ty::Record(Row {
            fields: vec![("a".to_string(), Ty::Unit), ("z".to_string(), Ty::Float)],
            tail: Box::new(Ty::Unit),
        })
    );
}

#[test]
fn apply_flattens_record_tail_resolved_by_substitution() {
    let mut subst = Subst::new();
    subst.restore_map(HashMap::from([(
        0,
        Ty::Record(Row {
            fields: vec![("b".to_string(), Ty::Float)],
            tail: Box::new(Ty::Unit),
        }),
    )]));

    let applied = subst.apply(&Ty::Record(Row {
        fields: vec![("a".to_string(), Ty::Unit)],
        tail: Box::new(Ty::Var(0)),
    }));

    assert_eq!(
        applied,
        Ty::Record(Row {
            fields: vec![("a".to_string(), Ty::Unit), ("b".to_string(), Ty::Float)],
            tail: Box::new(Ty::Unit),
        })
    );
}

#[test]
fn app_arity_mismatch_preserves_type_constructors() {
    let mut subst = Subst::new();

    let err = unify(
        &mut subst,
        Ty::App(Box::new(Ty::Con("Map".to_string())), vec![Ty::Float]),
        Ty::App(
            Box::new(Ty::Con("Map".to_string())),
            vec![Ty::Float, Ty::Con("string".to_string())],
        ),
    )
    .expect_err("different type-application arities should fail");

    assert_eq!(
        err,
        TypeError::Mismatch(
            Ty::App(Box::new(Ty::Con("Map".to_string())), vec![Ty::Float]),
            Ty::App(
                Box::new(Ty::Con("Map".to_string())),
                vec![Ty::Float, Ty::Con("string".to_string())],
            ),
        )
    );
}

#[test]
fn tuple_mismatch_reports_element_context() {
    let mut subst = Subst::new();

    let err = unify(
        &mut subst,
        Ty::Tuple(vec![Ty::Float, Ty::Con("bool".to_string())]),
        Ty::Tuple(vec![Ty::Float, Ty::Con("string".to_string())]),
    )
    .expect_err("tuple element mismatch should fail");

    assert_eq!(
        err,
        TypeError::MismatchWithContext {
            context: vec![TypeMismatchContext::TupleElement(1)],
            expected: Ty::Con("string".to_string()),
            got: Ty::Con("bool".to_string()),
        }
    );
    assert_eq!(
        err.to_string(),
        "type mismatch in tuple element 2: expected `string`, got `bool`"
    );
}

#[test]
fn record_mismatch_reports_field_context() {
    let mut subst = Subst::new();

    let err = unify(
        &mut subst,
        Ty::Record(Row {
            fields: vec![("name".to_string(), Ty::Con("string".to_string()))],
            tail: Box::new(Ty::Unit),
        }),
        Ty::Record(Row {
            fields: vec![("name".to_string(), Ty::Float)],
            tail: Box::new(Ty::Unit),
        }),
    )
    .expect_err("record field mismatch should fail");

    assert_eq!(
        err,
        TypeError::MismatchWithContext {
            context: vec![TypeMismatchContext::RecordField("name".to_string())],
            expected: Ty::Float,
            got: Ty::Con("string".to_string()),
        }
    );
    assert_eq!(
        err.to_string(),
        "type mismatch in record field `name`: expected `float`, got `string`"
    );
}

#[test]
fn nested_mismatch_reports_outer_to_inner_context() {
    let mut subst = Subst::new();

    let err = unify(
        &mut subst,
        Ty::Tuple(vec![Ty::Record(Row {
            fields: vec![("ok".to_string(), Ty::Con("bool".to_string()))],
            tail: Box::new(Ty::Unit),
        })]),
        Ty::Tuple(vec![Ty::Record(Row {
            fields: vec![("ok".to_string(), Ty::Float)],
            tail: Box::new(Ty::Unit),
        })]),
    )
    .expect_err("nested mismatch should fail");

    assert_eq!(
        err,
        TypeError::MismatchWithContext {
            context: vec![
                TypeMismatchContext::TupleElement(0),
                TypeMismatchContext::RecordField("ok".to_string()),
            ],
            expected: Ty::Float,
            got: Ty::Con("bool".to_string()),
        }
    );
    assert_eq!(
        err.to_string(),
        "type mismatch in tuple element 1, record field `ok`: expected `float`, got `bool`"
    );
}
