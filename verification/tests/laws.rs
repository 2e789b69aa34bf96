//! What holds of unification, matches and ranges, on examples.

use hern_core::ast::Pattern;
use hern_core::env::VariantEnv;
use hern_core::error::TypeError;
use hern_core::exhaust::check_exhaustive_match;
use hern_core::snippets::{SnippetSource, TextRange};
use hern_core::subst::Subst;
use hern_core::ty::{Row, TraitConstraint, Ty};
use hern_core::unify::unify;
use hern_core::vars::free_type_vars_in_display_order;

fn con(name: &str) -> Ty {
    Ty::Con(name.to_string())
}

#[test]
fn unification_solves_what_it_has_to_and_no_more() {
    let mut s = Subst::new();
    let left = Ty::Tuple(vec![Ty::Var(0), Ty::Int]);
    let right = Ty::Tuple(vec![Ty::Var(1), Ty::Var(2)]);
    unify(&mut s, left, right).expect("they can be made one");
    assert_eq!(s.apply(&Ty::Var(0)), s.apply(&Ty::Var(1)));
    assert!(matches!(s.apply(&Ty::Var(0)), Ty::Var(_)));
    assert_eq!(s.apply(&Ty::Var(2)), Ty::Int);
}

#[test]
fn unification_fails_where_nothing_makes_the_types_one() {
    let mut s = Subst::new();
    let err = unify(&mut s, Ty::Var(0), Ty::Tuple(vec![Ty::Var(0)])).expect_err("it is cyclic");
    assert!(matches!(err, TypeError::OccursCheck(0)));
    assert!(unify(&mut s, con("string"), con("bool")).is_err());
}

#[test]
fn unification_and_going_back_never_lower_the_counter() {
    let mut s = Subst::new();
    let a = s.fresh_tyvar();
    let b = s.fresh_tyvar();
    let before = s.snapshot_map();
    let open = |field: &str, tail: u32| {
        Ty::Record(Row {
            fields: vec![(field.to_string(), Ty::Int)],
            tail: Box::new(Ty::Var(tail)),
        })
    };
    unify(&mut s, open("x", a), open("y", b)).expect("open records");
    assert_ne!(s.apply(&Ty::Var(a)), Ty::Var(a));
    s.restore_map(before);
    assert_eq!(s.apply(&Ty::Var(a)), Ty::Var(a));
    assert!(s.fresh_tyvar() > b + 1);
}

#[test]
fn display_order_lists_what_only_an_argument_mentions() {
    let constraint =
        TraitConstraint::predicate("Index", vec![Ty::Var(5), Ty::Var(6)], 5, vec![0]);
    let ty = Ty::Qualified(vec![constraint], Box::new(Ty::Var(9)));
    assert_eq!(free_type_vars_in_display_order(&ty), vec![9, 5, 6]);
}

#[test]
fn an_accepted_match_stays_accepted_with_more_arms() {
    let yes = Pattern::BoolLit(true);
    let no = Pattern::BoolLit(false);
    let none = VariantEnv::default();
    assert!(check_exhaustive_match(&vec![&yes], &con("bool"), &none).is_err());
    assert!(check_exhaustive_match(&vec![&yes, &no], &con("bool"), &none).is_ok());
    assert!(check_exhaustive_match(&vec![&no, &yes, &yes], &con("bool"), &none).is_ok());
    let err = check_exhaustive_match(&vec![&yes], &con("bool"), &none).expect_err("no is missing");
    assert!(matches!(
        err,
        TypeError::NonExhaustiveMatch { missing } if missing == "missing pattern: false"
    ));
}

#[test]
fn a_quoted_form_covers_nothing() {
    let quoted = Pattern::SyntaxQuote(vec![]);
    let none = VariantEnv::default();
    assert!(check_exhaustive_match(&vec![&quoted], &con("Syntax"), &none).is_err());
}

#[test]
fn snippets_stand_one_below_the_other() {
    let mut all = SnippetSource::new();
    assert_eq!(all.append_snippet("let x = 1;"), 0);
    assert_eq!(all.accumulated_source(), "let x = 1;\n");
    assert_eq!(all.append_snippet("x\n"), 11);
    assert_eq!(all.accumulated_source(), "let x = 1;\nx\n");
    let mut wide = SnippetSource::new();
    wide.append_snippet("é");
    assert_eq!(wide.append_snippet("x"), 3);
}

#[test]
fn a_range_is_counted_from_the_start_of_its_window() {
    let range = TextRange::new(12, 15);
    assert!(range.contains(12));
    assert!(!range.contains(15));
    assert_eq!(range.remap_from_window(10, 20), Some(TextRange::new(2, 5)));
    assert_eq!(range.remap_from_window(13, 20), None);
    assert_eq!(range.remap_from_window(10, 14), None);
}
