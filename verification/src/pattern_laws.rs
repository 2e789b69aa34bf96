//! What holds of patterns that are accepted.

use vstd::prelude::*;

use crate::alike_laws::{alike, law_unify_makes_alike, lemma_alike_later};
use crate::apply::{apply, apply_tys, lemma_extend_absorbs, SubstMap};
use crate::ast_view::{NumberLiteralV, PatternFieldV, PatternV, SyntaxCaptureV};
use crate::convert::{MAX_ALIAS_DEPTH, VarNames};
use crate::env::{EnvV, VariantInfoV, VariantsV};
use crate::exhaust::is_array;
use crate::exhaust_laws::{each_matches, fits, pattern_matches, ValueV};
use crate::keeps_pattern_infer::{keeps_bind_captures, keeps_check, keeps_check_list};
use crate::keeps_pattern_infer::{keeps_check_tuple, keeps_expect, keeps_fresh_tys};
use crate::keeps_steps::keeps_written;
use crate::keeps_ty_helpers::keeps_fresh_named;
use crate::pattern_infer::{bind_captures, bind_fields, bind_name, capture_ty, check};
use crate::pattern_infer::{check_list, check_tuple, expect, fresh_fields, fresh_tys};
use crate::pattern_infer::{nominal_ty, with_capture};
use crate::patterns::{irrefutable_let, irrefutable_lets, irrefutable_param};
use crate::patterns::irrefutable_params;
use crate::rows::{sort_fields, FieldV};
use crate::rule_laws::{lemma_equal_later, lemma_equated, lemma_solvable_later};
use crate::solutions::{grows, lemma_grows_reflexive, lemma_grows_transitive, solvable};
use crate::state::{fresh, next_var, InferV};
use crate::steps::{equate, resolved, written};
use crate::ty::{RowV, TyV};
use crate::ty_helpers::{array_of, fresh_named};
use crate::type_syntax::first_field;
use crate::typing::same;
use crate::unify_laws::made_equal;
use crate::written_laws::{lemma_fresh_params, lemma_written, names_of, stands_for, NamesV};

verus! {

broadcast use {lemma_grows_reflexive, lemma_grows_transitive};

/// A pattern that is neither a tuple nor a list fits every type.
proof fn lemma_plain_fits(p: PatternV, ty: TyV)
    requires
        !(p is Tuple),
        !(p is List),
    ensures
        fits(p, ty),
    decreases ty,
{
    if let TyV::Qualified(_, inner) = ty {
        lemma_plain_fits(p, *inner);
    }
}

/// What fits a type fits every type of the same form.
proof fn lemma_fits_alike(p: PatternV, a: TyV, b: TyV)
    requires
        alike(a, b),
        fits(p, b),
    ensures
        fits(p, a),
    decreases a,
{
    match (a, b) {
        (TyV::Tuple(x), TyV::Tuple(y)) => {
            if let PatternV::Tuple(ps) = p {
                assert forall|i: int| 0 <= i < x.len() implies fits(ps[i], #[trigger] x[i]) by {
                    assert(fits(ps[i], y[i]));
                    lemma_fits_alike(ps[i], x[i], y[i]);
                }
            }
        },
        (TyV::App(c, _), TyV::App(d, _)) => {
            assert(alike(*c, *d));
            if *d is Con {
                assert(*c == *d);
            }
        },
        _ => {},
    }
}

proof fn lemma_expected(st: InferV, env: EnvV, ty: TyV, want: TyV, m: SubstMap)
    requires
        solvable(st.subst.map),
        expect(st, env, ty, want).err is None,
        grows(expect(st, env, ty, want).st.subst.map, m),
    ensures
        alike(apply(m, ty), apply(m, want)),
{
    keeps_expect(st, env, ty, want);
    let m1 = expect(st, env, ty, want).st.subst.map;
    lemma_solvable_later(st.subst.map, m1);
    reveal(equate);
    reveal(grows);
    law_unify_makes_alike(st.subst, ty, want);
    lemma_alike_later(m1, m, ty, want);
}

proof fn lemma_fresh_tys(st: InferV, n: nat, done: Seq<TyV>)
    ensures
        fresh_tys(st, n, done).1.len() == done.len() + n,
    decreases n,
{
    if n > 0 {
        lemma_fresh_tys(fresh(st), (n - 1) as nat, done.push(TyV::Var(next_var(st))));
    }
}

/// A pattern that is accepted for a type has the form of that type, however far it is solved
/// afterwards.
pub proof fn law_pattern_fits(
    st: InferV,
    env: EnvV,
    p: PatternV,
    ty: TyV,
    mutable: bool,
    m: SubstMap,
)
    requires
        solvable(st.subst.map),
        check(st, env, p, ty, mutable).err is None,
        grows(check(st, env, p, ty, mutable).st.subst.map, m),
    ensures
        fits(p, apply(m, ty)),
    decreases p, 0nat,
{
    match p {
        PatternV::List { elements, rest } => {
            let element = TyV::Var(next_var(st));
            let u = expect(fresh(st), env, ty, array_of(element));
            keeps_expect(fresh(st), env, ty, array_of(element));
            let b = check_list(u.st, env, elements, 0, element, mutable);
            keeps_check_list(u.st, env, elements, 0, element, mutable);
            lemma_expected(fresh(st), env, ty, array_of(element), m);
            lemma_still_solvable(st, env, p, ty, mutable, m);
            let want = apply(m, array_of(element));
            assert(apply(m, TyV::Con("Array"@)) == TyV::Con("Array"@));
            assert(is_array(want));
            lemma_fits_alike(p, apply(m, ty), want);
        },
        PatternV::Tuple(items) => {
            let f = fresh_tys(st, items.len(), Seq::empty());
            lemma_fresh_tys(st, items.len(), Seq::empty());
            keeps_fresh_tys(st, items.len(), Seq::empty());
            lemma_solvable_later(st.subst.map, f.0.subst.map);
            let u = expect(f.0, env, ty, TyV::Tuple(f.1));
            keeps_expect(f.0, env, ty, TyV::Tuple(f.1));
            lemma_solvable_later(f.0.subst.map, u.st.subst.map);
            keeps_check_tuple(u.st, env, items, 0, f.1, mutable);
            lemma_expected(f.0, env, ty, TyV::Tuple(f.1), m);
            lemma_still_solvable(st, env, p, ty, mutable, m);
            lemma_items_fit(u.st, env, items, 0, f.1, mutable, m);
            let want = apply_tys(m, f.1);
            assert forall|i: int| 0 <= i < want.len() implies fits(items[i], #[trigger] want[i]) by {
                assert(fits(items[i], apply(m, f.1[i])));
            }
            assert(fits(p, TyV::Tuple(want)));
            lemma_fits_alike(p, apply(m, ty), TyV::Tuple(want));
        },
        _ => {
            lemma_plain_fits(p, apply(m, ty));
        },
    }
}

proof fn lemma_still_solvable(
    st: InferV,
    env: EnvV,
    p: PatternV,
    ty: TyV,
    mutable: bool,
    m: SubstMap,
)
    requires
        solvable(st.subst.map),
        grows(check(st, env, p, ty, mutable).st.subst.map, m),
    ensures
        solvable(m),
{
    keeps_check(st, env, p, ty, mutable);
    lemma_solvable_later(st.subst.map, m);
}

proof fn lemma_items_fit(
    st: InferV,
    env: EnvV,
    s: Seq<PatternV>,
    i: nat,
    tys: Seq<TyV>,
    mutable: bool,
    m: SubstMap,
)
    requires
        solvable(st.subst.map),
        i <= s.len(),
        s.len() == tys.len(),
        check_tuple(st, env, s, i, tys, mutable).err is None,
        grows(check_tuple(st, env, s, i, tys, mutable).st.subst.map, m),
    ensures
        forall|k: int| i <= k < s.len() ==> fits(#[trigger] s[k], apply(m, tys[k])),
    decreases s, s.len() - i,
{
    if i < s.len() {
        reveal(resolved);
        let ty = resolved(st, tys[i as int]);
        let b = check(st, env, s[i as int], ty, mutable);
        keeps_check(st, env, s[i as int], ty, mutable);
        lemma_solvable_later(st.subst.map, b.st.subst.map);
        keeps_check_tuple(b.st, b.env, s, i + 1, tys, mutable);
        law_pattern_fits(st, env, s[i as int], ty, mutable, m);
        lemma_still_solvable(st, env, s[i as int], ty, mutable, m);
        reveal(grows);
        assert(grows(st.subst.map, m));
        lemma_extend_absorbs(st.subst.map, m, tys[i as int]);
        lemma_items_fit(b.st, b.env, s, i + 1, tys, mutable, m);
    }
}

/// Whether somewhere between the solutions `from` and `to` a pattern was accepted for a type
/// that is `ty` by then.
pub open spec fn accepts(from: SubstMap, to: SubstMap, p: PatternV, ty: TyV, mutable: bool) -> bool {
    exists|st: InferV, env: EnvV, t: TyV|
        #![trigger check(st, env, p, t, mutable)]
        grows(from, st.subst.map) && check(st, env, p, t, mutable).err is None && grows(
            check(st, env, p, t, mutable).st.subst.map,
            to,
        ) && same(to, t, ty)
}

proof fn lemma_accepts(
    st: InferV,
    env: EnvV,
    t: TyV,
    from: SubstMap,
    to: SubstMap,
    p: PatternV,
    ty: TyV,
    mutable: bool,
)
    requires
        grows(from, st.subst.map),
        check(st, env, p, t, mutable).err is None,
        grows(check(st, env, p, t, mutable).st.subst.map, to),
        same(to, t, ty),
    ensures
        accepts(from, to, p, ty, mutable),
{
}

proof fn lemma_elements_accepted(
    st: InferV,
    env: EnvV,
    s: Seq<PatternV>,
    i: nat,
    ty: TyV,
    mutable: bool,
    from: SubstMap,
    m: SubstMap,
)
    requires
        grows(from, st.subst.map),
        check_list(st, env, s, i, ty, mutable).err is None,
        grows(check_list(st, env, s, i, ty, mutable).st.subst.map, m),
    ensures
        forall|k: int| i <= k < s.len() ==> accepts(from, m, #[trigger] s[k], ty, mutable),
    decreases s.len() - i,
{
    if i < s.len() {
        let b = check(st, env, s[i as int], ty, mutable);
        keeps_check(st, env, s[i as int], ty, mutable);
        keeps_check_list(b.st, b.env, s, i + 1, ty, mutable);
        lemma_accepts(st, env, ty, from, m, s[i as int], ty, mutable);
        lemma_elements_accepted(b.st, b.env, s, i + 1, ty, mutable, from, m);
    }
}

proof fn lemma_items_accepted(
    st: InferV,
    env: EnvV,
    s: Seq<PatternV>,
    i: nat,
    tys: Seq<TyV>,
    mutable: bool,
    from: SubstMap,
    m: SubstMap,
)
    requires
        solvable(st.subst.map),
        grows(from, st.subst.map),
        s.len() == tys.len(),
        check_tuple(st, env, s, i, tys, mutable).err is None,
        grows(check_tuple(st, env, s, i, tys, mutable).st.subst.map, m),
    ensures
        forall|k: int| i <= k < s.len() ==> accepts(from, m, #[trigger] s[k], tys[k], mutable),
    decreases s.len() - i,
{
    if i < s.len() {
        let t = resolved(st, tys[i as int]);
        let b = check(st, env, s[i as int], t, mutable);
        keeps_check(st, env, s[i as int], t, mutable);
        keeps_check_tuple(b.st, b.env, s, i + 1, tys, mutable);
        lemma_solvable_later(st.subst.map, b.st.subst.map);
        lemma_items_accepted(b.st, b.env, s, i + 1, tys, mutable, from, m);
        assert(same(m, t, tys[i as int])) by {
            reveal(resolved);
            reveal(grows);
            lemma_extend_absorbs(st.subst.map, m, tys[i as int]);
        }
        lemma_accepts(st, env, t, from, m, s[i as int], tys[i as int], mutable);
    }
}

proof fn lemma_expected_type(st: InferV, env: EnvV, ty: TyV, want: TyV, m: SubstMap)
    requires
        solvable(st.subst.map),
        expect(st, env, ty, want).err is None,
        grows(expect(st, env, ty, want).st.subst.map, m),
    ensures
        made_equal(m, ty, want),
        solvable(expect(st, env, ty, want).st.subst.map),
{
    keeps_expect(st, env, ty, want);
    let m1 = expect(st, env, ty, want).st.subst.map;
    lemma_solvable_later(st.subst.map, m1);
    lemma_equated(st, ty, want);
    lemma_equal_later(m1, m, ty, want);
}

/// The type that a literal in a pattern is one of.
pub open spec fn literal_type(p: PatternV) -> Option<TyV> {
    match p {
        PatternV::StringLit(_) => Some(TyV::Con("string"@)),
        PatternV::NumberLit(NumberLiteralV::Int(_)) => Some(TyV::Int),
        PatternV::NumberLit(NumberLiteralV::Float(_)) => Some(TyV::Float),
        PatternV::IntRange { .. } => Some(TyV::Int),
        PatternV::BoolLit(_) => Some(TyV::Con("bool"@)),
        PatternV::SyntaxQuote(_) => Some(TyV::Con("Syntax"@)),
        _ => None,
    }
}

/// A literal that is accepted as a pattern is one of the type of what is matched.
pub proof fn law_literal_pattern_is_typed(
    st: InferV,
    env: EnvV,
    p: PatternV,
    ty: TyV,
    mutable: bool,
)
    requires
        solvable(st.subst.map),
        literal_type(p) is Some,
        check(st, env, p, ty, mutable).err is None,
    ensures
        made_equal(check(st, env, p, ty, mutable).st.subst.map, ty, literal_type(p)->0),
{
    keeps_check(st, env, p, ty, mutable);
    let want = literal_type(p)->0;
    let m = check(st, env, p, ty, mutable).st.subst.map;
    if let PatternV::SyntaxQuote(captures) = p {
        keeps_bind_captures(expect(st, env, ty, want).st, env, captures, 0, mutable);
    }
    lemma_expected_type(st, env, ty, want, m);
}

/// A name that is a pattern is bound to what is matched, and changes if the pattern says so.
pub proof fn law_name_pattern_binds(st: InferV, env: EnvV, p: PatternV, ty: TyV, mutable: bool)
    requires
        p is Variable,
    ensures
        ({
            let r = check(st, env, p, ty, mutable);
            let name = p->Variable_0;
            &&& r.err is None
            &&& r.env.dom() == env.dom().insert(name)
            &&& r.env[name].scheme.vars.len() == 0
            &&& r.env[name].scheme.constraints.len() == 0
            &&& r.env[name].scheme.ty == ty
            &&& r.env[name].binding_mutable == mutable
            &&& forall|other: Seq<char>|
                other != name && #[trigger] env.dom().contains(other) ==> r.env[other] == env[other]
        }),
{
    assert(check(st, env, p, ty, mutable).env.dom() =~= env.dom().insert(p->Variable_0));
}

/// A list or a tuple that is accepted as a pattern is matched against an array or a tuple of
/// as many, and the patterns in it are accepted for what that holds.
pub proof fn law_pattern_parts_are_typed(
    st: InferV,
    env: EnvV,
    p: PatternV,
    ty: TyV,
    mutable: bool,
)
    requires
        solvable(st.subst.map),
        check(st, env, p, ty, mutable).err is None,
    ensures
        ({
            let from = st.subst.map;
            let m = check(st, env, p, ty, mutable).st.subst.map;
            match p {
                PatternV::List { elements, rest } => exists|t: TyV|
                    #![trigger array_of(t)]
                    made_equal(m, ty, array_of(t)) && forall|i: int|
                        0 <= i < elements.len() ==> accepts(
                            from,
                            m,
                            #[trigger] elements[i],
                            t,
                            mutable,
                        ),
                PatternV::Tuple(items) => exists|tys: Seq<TyV>|
                    #![trigger made_equal(m, ty, TyV::Tuple(tys))]
                    tys.len() == items.len() && made_equal(m, ty, TyV::Tuple(tys)) && forall|
                        i: int,
                    |
                        0 <= i < items.len() ==> accepts(
                            from,
                            m,
                            #[trigger] items[i],
                            tys[i],
                            mutable,
                        ),
                _ => true,
            }
        }),
{
    let from = st.subst.map;
    let m = check(st, env, p, ty, mutable).st.subst.map;
    match p {
        PatternV::List { elements, rest } => {
            let t = TyV::Var(next_var(st));
            let u = expect(fresh(st), env, ty, array_of(t));
            keeps_expect(fresh(st), env, ty, array_of(t));
            let b = check_list(u.st, env, elements, 0, t, mutable);
            keeps_check_list(u.st, env, elements, 0, t, mutable);
            lemma_expected_type(fresh(st), env, ty, array_of(t), m);
            lemma_elements_accepted(u.st, env, elements, 0, t, mutable, from, m);
        },
        PatternV::Tuple(items) => {
            let f = fresh_tys(st, items.len(), Seq::empty());
            lemma_fresh_tys(st, items.len(), Seq::empty());
            keeps_fresh_tys(st, items.len(), Seq::empty());
            lemma_solvable_later(from, f.0.subst.map);
            let want = TyV::Tuple(f.1);
            let u = expect(f.0, env, ty, want);
            keeps_expect(f.0, env, ty, want);
            keeps_check_tuple(u.st, env, items, 0, f.1, mutable);
            lemma_expected_type(f.0, env, ty, want, m);
            lemma_items_accepted(u.st, env, items, 0, f.1, mutable, from, m);
            assert(made_equal(m, ty, TyV::Tuple(f.1)));
        },
        _ => {},
    }
}

/// Whether values of a type are made by a variant: the type is the one that the variant was
/// declared in, at some arguments, and what the variant holds has the type `payload`.
pub open spec fn is_variant_of(
    m: SubstMap,
    n: NamesV,
    info: VariantInfoV,
    ty: TyV,
    payload: Option<TyV>,
    args: Seq<TyV>,
    vars: VarNames,
) -> bool {
    &&& args.len() == info.type_params.len()
    &&& made_equal(m, ty, nominal_ty(info.nominal_name, args))
    &&& info.type_params.no_duplicates() ==> forall|i: int|
        0 <= i < args.len() ==> vars.dom().contains(#[trigger] info.type_params[i]) && args[i]
            == TyV::Var(vars[info.type_params[i]])
    &&& payload matches Some(t) ==> info.payload is Some && stands_for(
        n,
        vars,
        info.payload->0,
        t,
        MAX_ALIAS_DEPTH as nat,
    )
}

/// A constructor that is accepted as a pattern is one of the type of what is matched, and
/// the pattern in it is accepted for what it holds.
pub proof fn law_constructor_pattern_is_typed(
    st: InferV,
    env: EnvV,
    p: PatternV,
    ty: TyV,
    mutable: bool,
)
    requires
        solvable(st.subst.map),
        p is Constructor,
        check(st, env, p, ty, mutable).err is None,
    ensures
        ({
            let m = check(st, env, p, ty, mutable).st.subst.map;
            let name = p->Constructor_name;
            let info = st.variants[name];
            &&& st.variants.dom().contains(name)
            &&& match p->Constructor_binding {
                None => exists|args: Seq<TyV>, vars: VarNames|
                    is_variant_of(m, names_of(st), info, ty, None, args, vars),
                Some(inner) => exists|t: TyV, args: Seq<TyV>, vars: VarNames|
                    #![trigger is_variant_of(m, names_of(st), info, ty, Some(t), args, vars)]
                    is_variant_of(m, names_of(st), info, ty, Some(t), args, vars) && accepts(
                        st.subst.map,
                        m,
                        *inner,
                        t,
                        mutable,
                    ),
            }
        }),
{
    reveal(fresh_named);
    let m = check(st, env, p, ty, mutable).st.subst.map;
    let n = names_of(st);
    let info = st.variants[p->Constructor_name];
    let f = fresh_named(st, info.type_params, Map::empty());
    lemma_fresh_params(st, info.type_params, 0, Map::empty(), Seq::empty());
    keeps_fresh_named(st, info.type_params, Map::empty());
    lemma_solvable_later(st.subst.map, f.st.subst.map);
    let args = f.res->Ok_0;
    let want = nominal_ty(info.nominal_name, args);
    let u = expect(f.st, env, ty, want);
    keeps_expect(f.st, env, ty, want);
    match p->Constructor_binding {
        None => {
            lemma_expected_type(f.st, env, ty, want, m);
            assert(is_variant_of(m, n, info, ty, None, args, f.vars));
        },
        Some(inner) => {
            let payload = info.payload->0;
            let w = written(u.st, f.vars, payload);
            keeps_written(u.st, f.vars, payload);
            lemma_written(u.st, f.vars, payload);
            let t = w.res->Ok_0;
            keeps_check(w.st, env, *inner, t, mutable);
            lemma_expected_type(f.st, env, ty, want, m);
            reveal(equate);
            assert(names_of(u.st) == n);
            assert(is_variant_of(m, n, info, ty, Some(t), args, w.vars));
            lemma_accepts(w.st, env, t, st.subst.map, m, *inner, t, mutable);
        },
    }
}

// ---------------------------------------------------------------------------
// Patterns that nothing escapes
// ---------------------------------------------------------------------------

/// Whether a value is of the form that a pattern was accepted for: a tuple of as many, a
/// list, or a variant of the same type that holds something for the pattern in it.
pub open spec fn has_form(v: ValueV, p: PatternV, variants: VariantsV) -> bool
    decreases p,
{
    match p {
        PatternV::Tuple(items) => v is Tuple && v->Tuple_0.len() == items.len() && forall|i: int|
            0 <= i < items.len() ==> has_form(v->Tuple_0[i], #[trigger] items[i], variants),
        PatternV::List { .. } => v is List,
        PatternV::Constructor { name, binding } => {
            &&& v is Variant
            &&& variants.dom().contains(v->Variant_name)
            &&& variants[v->Variant_name].nominal_name == variants[name].nominal_name
            &&& match binding {
                None => true,
                Some(b) => v->Variant_payload matches Some(x) && has_form(*x, *b, variants),
            }
        },
        _ => true,
    }
}

/// A pattern that may stand in a `let` matches every value of its form.
pub proof fn law_let_pattern_matches(p: PatternV, v: ValueV, variants: VariantsV)
    requires
        irrefutable_let(p, variants),
        has_form(v, p, variants),
    ensures
        pattern_matches(p, v),
    decreases p,
{
    reveal_with_fuel(pattern_matches, 2);
    reveal_with_fuel(each_matches, 2);
    match p {
        PatternV::Tuple(items) => {
            let vs = v->Tuple_0;
            assert(irrefutable_lets(items, variants));
            assert forall|i: int| 0 <= i < items.len() && i < vs.len() implies pattern_matches(
                #[trigger] items[i],
                vs[i],
            ) by {
                assert(has_form(vs[i], items[i], variants));
                law_let_pattern_matches(items[i], vs[i], variants);
            }
            assert(each_matches(items, vs));
            assert(pattern_matches(PatternV::Tuple(items), ValueV::Tuple(vs)));
        },
        PatternV::Constructor { name, binding } => {
            assert(v->Variant_name == name);
            if let Some(b) = binding {
                law_let_pattern_matches(*b, *v->Variant_payload->0, variants);
            }
        },
        _ => {},
    }
}

/// A pattern that may be a parameter may stand in a `let` too, so it matches every value of
/// its form.
pub proof fn law_param_pattern_matches(p: PatternV, v: ValueV, variants: VariantsV)
    requires
        irrefutable_param(p, variants),
        has_form(v, p, variants),
    ensures
        pattern_matches(p, v),
{
    lemma_param_is_let(p, variants);
    law_let_pattern_matches(p, v, variants);
}

proof fn lemma_param_is_let(p: PatternV, variants: VariantsV)
    requires
        irrefutable_param(p, variants),
    ensures
        irrefutable_let(p, variants),
    decreases p,
{
    match p {
        PatternV::Tuple(items) => {
            assert(irrefutable_params(items, variants));
            assert forall|i: int| 0 <= i < items.len() implies irrefutable_let(
                #[trigger] items[i],
                variants,
            ) by {
                lemma_param_is_let(items[i], variants);
            }
            assert(irrefutable_lets(items, variants));
        },
        PatternV::Constructor { name, binding } => {
            if let Some(b) = binding {
                lemma_param_is_let(*b, variants);
            }
        },
        _ => {},
    }
}

/// Checking a pattern declares no variant.
pub(crate) proof fn lemma_check_variants(
    st: InferV,
    env: EnvV,
    p: PatternV,
    ty: TyV,
    mutable: bool,
)
    ensures
        check(st, env, p, ty, mutable).st.variants == st.variants,
    decreases p, 0nat,
{
    reveal(equate);
    match p {
        PatternV::SyntaxQuote(captures) => {
            let u = expect(st, env, ty, TyV::Con("Syntax"@));
            lemma_captures_variants(u.st, env, captures, 0, mutable);
        },
        PatternV::Constructor { name, binding } => {
            if st.variants.dom().contains(name) {
                reveal(fresh_named);
                let info = st.variants[name];
                let f = fresh_named(st, info.type_params, Map::empty());
                lemma_fresh_params(st, info.type_params, 0, Map::empty(), Seq::empty());
                let u = expect(f.st, env, ty, nominal_ty(info.nominal_name, f.res->Ok_0));
                if binding is Some && info.payload is Some {
                    let w = written(u.st, f.vars, info.payload->0);
                    lemma_written(u.st, f.vars, info.payload->0);
                    if let Ok(t) = w.res {
                        lemma_check_variants(w.st, env, *binding->0, t, mutable);
                    }
                }
            }
        },
        PatternV::Record { fields, rest } => {
            let f = fresh_fields(fresh(st), fields, 0, Seq::empty());
            lemma_fresh_fields_variants(fresh(st), fields, 0, Seq::empty());
            let tys = sort_fields(f.1);
            let tail = if rest is Some {
                TyV::Var(next_var(st))
            } else {
                TyV::Unit
            };
            let want = TyV::Record(RowV { fields: tys, tail: Box::new(tail) });
            let u = expect(f.0, env, ty, want);
            lemma_fields_variants(u.st, env, fields, 0, tys, mutable);
        },
        PatternV::List { elements, rest } => {
            let element = TyV::Var(next_var(st));
            let u = expect(fresh(st), env, ty, array_of(element));
            lemma_list_variants(u.st, env, elements, 0, element, mutable);
        },
        PatternV::Tuple(items) => {
            let f = fresh_tys(st, items.len(), Seq::empty());
            lemma_fresh_tys_variants(st, items.len(), Seq::empty());
            let u = expect(f.0, env, ty, TyV::Tuple(f.1));
            lemma_tuple_variants(u.st, env, items, 0, f.1, mutable);
        },
        _ => {},
    }
}

proof fn lemma_captures_variants(
    st: InferV,
    env: EnvV,
    captures: Seq<SyntaxCaptureV>,
    i: nat,
    mutable: bool,
)
    ensures
        bind_captures(st, env, captures, i, mutable).st.variants == st.variants,
    decreases captures.len() - i,
{
    if i < captures.len() {
        let c = captures[i as int];
        let b = bind_name(st, env, c.name, c.span, capture_ty(c.repeat), mutable);
        lemma_captures_variants(with_capture(b.st, c), b.env, captures, i + 1, mutable);
    }
}

proof fn lemma_fresh_fields_variants(
    st: InferV,
    fields: Seq<PatternFieldV>,
    i: nat,
    done: Seq<FieldV>,
)
    ensures
        fresh_fields(st, fields, i, done).0.variants == st.variants,
    decreases fields.len() - i,
{
    if i < fields.len() {
        let more = done.push((fields[i as int].field, TyV::Var(next_var(st))));
        lemma_fresh_fields_variants(fresh(st), fields, i + 1, more);
    }
}

proof fn lemma_fresh_tys_variants(st: InferV, n: nat, done: Seq<TyV>)
    ensures
        fresh_tys(st, n, done).0.variants == st.variants,
    decreases n,
{
    if n > 0 {
        lemma_fresh_tys_variants(fresh(st), (n - 1) as nat, done.push(TyV::Var(next_var(st))));
    }
}

proof fn lemma_fields_variants(
    st: InferV,
    env: EnvV,
    fields: Seq<PatternFieldV>,
    i: nat,
    tys: Seq<FieldV>,
    mutable: bool,
)
    ensures
        bind_fields(st, env, fields, i, tys, mutable).st.variants == st.variants,
    decreases fields.len() - i,
{
    if i < fields.len() {
        let f = fields[i as int];
        let found = first_field(tys, f.field);
        if f.binding != "_"@ && found is Some {
            let b = bind_name(st, env, f.binding, f.span, resolved(st, found->0), mutable);
            lemma_fields_variants(b.st, b.env, fields, i + 1, tys, mutable);
        } else {
            lemma_fields_variants(st, env, fields, i + 1, tys, mutable);
        }
    }
}

proof fn lemma_list_variants(
    st: InferV,
    env: EnvV,
    s: Seq<PatternV>,
    i: nat,
    ty: TyV,
    mutable: bool,
)
    ensures
        check_list(st, env, s, i, ty, mutable).st.variants == st.variants,
    decreases s, s.len() - i,
{
    if i < s.len() {
        let b = check(st, env, s[i as int], ty, mutable);
        lemma_check_variants(st, env, s[i as int], ty, mutable);
        lemma_list_variants(b.st, b.env, s, i + 1, ty, mutable);
    }
}

proof fn lemma_tuple_variants(
    st: InferV,
    env: EnvV,
    s: Seq<PatternV>,
    i: nat,
    tys: Seq<TyV>,
    mutable: bool,
)
    ensures
        check_tuple(st, env, s, i, tys, mutable).st.variants == st.variants,
    decreases s, s.len() - i,
{
    if i < s.len() {
        let ty = resolved(st, tys[i as int]);
        let b = check(st, env, s[i as int], ty, mutable);
        lemma_check_variants(st, env, s[i as int], ty, mutable);
        lemma_tuple_variants(b.st, b.env, s, i + 1, tys, mutable);
    }
}

} // verus!
