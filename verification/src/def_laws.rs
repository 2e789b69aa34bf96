//! What holds of definitions that are accepted: functions, lets, groups, macros and tests.

use vstd::prelude::*;

use crate::apply::{apply, lemma_extend_absorbs, SubstMap};
use crate::ast::SourceSpan;
use crate::ast_size::expr_size;
use crate::ast_view::{ExprV, FnDefV, MacroDefV, ParamV, PatternV, StmtV, TypeV};
use crate::checker::{below, body_run, checked, checker, fn_run, infer_kind, lambda_run};
use crate::checker::{let_run, let_value_run, macro_body_run, macro_run, scoped_run, stmt_run};
use crate::checker::Within;
use crate::convert::VarNames;
use crate::definitions::{child_level, def_head, end_def, lambda_head};
use crate::env::EnvV;
use crate::error::SpannedV;
use crate::exhaust_laws::{pattern_matches, ValueV};
use crate::items::let_end;
use crate::keeps_checker::{keeps_body_run, keeps_let_value_run};
use crate::keeps_checker::{law_checking_keeps_what_is_solved, lemma_checker_steady, steady};
use crate::keeps_definitions::keeps_lambda_head;
use crate::keeps_macro_phase::keeps_macro_head;
use crate::keeps_steps::keeps_written;
use crate::keeps_stmt_parts::{keeps_fn_head, keeps_let_after};
use crate::macro_phase::{macro_after, macro_head};
use crate::pattern_infer::{bind_param, match_pattern};
use crate::pattern_laws::{has_form, law_let_pattern_matches, lemma_check_variants};
use crate::places::{bind_params, bind_params_from, param_type, read_annotation, typed_params};
use crate::places::SourceV;
use crate::rule_laws::{gives, lemma_equated, lemma_gives, lemma_kind, lemma_meets_later};
use crate::rule_laws::{lemma_result_equated, lemma_solvable_later, meets_type};
use crate::schemes::{finalized_at, generalized};
use crate::scopes::{at_level, in_function, out_of_function, pending_on};
use crate::solutions::{grows, lemma_grows_reflexive, lemma_grows_transitive, solvable};
use crate::state::InferV;
use crate::steps::written;
use crate::stmt_parts::{fn_after, fn_head, let_after, let_of, stmt_after, value_after};
use crate::ty::{ReturnV, TyV};
use crate::typing::same;
use crate::unify_laws::made_equal;

verus! {

broadcast use {lemma_grows_reflexive, lemma_grows_transitive};

/// Whether `ty` is what a written type stands for.
pub open spec fn is_written(t: TypeV, ty: TyV) -> bool {
    exists|st: InferV, vars: VarNames| (#[trigger] written(st, vars, t)).res == Ok::<
        TyV,
        crate::error::TypeErrorV,
    >(ty)
}

/// Whether a body was checked as that of a function with this result, and may stand where
/// the result is asked for.
pub open spec fn body_meets(within: Within, to: SubstMap, env: EnvV, body: ExprV, ret: ReturnV) -> bool {
    exists|st: InferV, want: Option<TyV>, t: TyV|
        #![trigger within(st, env, body, want), meets_type(to, t, *ret.ty)]
        within(st, env, body, want).res == Ok::<TyV, SpannedV>(t) && st.return_tys.len() > 0
            && st.return_tys.last() == ret && meets_type(to, t, *ret.ty)
}

pub(crate) proof fn lemma_body(
    within: Within,
    st: InferV,
    env: EnvV,
    body: ExprV,
    ret: ReturnV,
    is_expected: bool,
    is_placed: bool,
)
    requires
        steady(within),
        solvable(st.subst.map),
        body_run(within, st, env, body, ret, is_expected, is_placed).res is Ok,
    ensures
        ({
            let r = body_run(within, st, env, body, ret, is_expected, is_placed);
            &&& grows(st.subst.map, r.st.subst.map)
            &&& solvable(r.st.subst.map)
            &&& body_meets(within, r.st.subst.map, env, body, ret)
        }),
{
    reveal(body_run);
    keeps_body_run(within, st, env, body, ret, is_expected, is_placed);
    let inside = in_function(st, ret);
    let want = if is_expected {
        Some(*ret.ty)
    } else {
        None
    };
    let r = within(inside, env, body, want);
    lemma_solvable_later(inside.subst.map, r.st.subst.map);
    let t = r.res->Ok_0;
    lemma_result_equated(out_of_function(r.st), t, *ret.ty);
    let to = body_run(within, st, env, body, ret, is_expected, is_placed).st.subst.map;
    assert(inside.return_tys.last() == ret);
    assert(within(inside, env, body, want).res == Ok::<TyV, SpannedV>(t) && meets_type(
        to,
        t,
        *ret.ty,
    ));
}

pub(crate) proof fn lemma_scoped(
    within: Within,
    st: InferV,
    env: EnvV,
    body: ExprV,
    initial: Seq<crate::ty::ConstraintV>,
    ret: ReturnV,
    is_expected: bool,
    is_placed: bool,
)
    requires
        steady(within),
        solvable(st.subst.map),
        scoped_run(within, st, env, body, initial, ret, is_expected, is_placed).res is Ok,
    ensures
        ({
            let r = scoped_run(within, st, env, body, initial, ret, is_expected, is_placed);
            &&& grows(st.subst.map, r.st.subst.map)
            &&& solvable(r.st.subst.map)
            &&& body_meets(within, r.st.subst.map, env, body, ret)
        }),
{
    reveal(scoped_run);
    lemma_body(within, pending_on(st, initial), env, body, ret, is_expected, is_placed);
}

/// Whether these are types for the parameters: what is written for one that has a type
/// written.
pub open spec fn params_typed(params: Seq<ParamV>, tys: Seq<TyV>) -> bool {
    &&& tys.len() == params.len()
    &&& forall|i: int|
        0 <= i < params.len() ==> ((#[trigger] params[i]).ty matches Some(t) ==> is_written(
            t,
            tys[i],
        ))
}

proof fn lemma_params(
    st: InferV,
    env: EnvV,
    vars: VarNames,
    params: Seq<ParamV>,
    i: nat,
    tys: Seq<TyV>,
    span: SourceSpan,
)
    requires
        i <= params.len(),
        tys.len() == i,
        bind_params_from(st, env, vars, SourceV::Own, params, i, tys, span).err is None,
    ensures
        ({
            let r = bind_params_from(st, env, vars, SourceV::Own, params, i, tys, span);
            &&& r.tys.len() == params.len()
            &&& forall|k: int| 0 <= k < i ==> #[trigger] r.tys[k] == tys[k]
            &&& forall|k: int|
                i <= k < params.len() ==> ((#[trigger] params[k]).ty matches Some(t) ==> is_written(
                    t,
                    r.tys[k],
                ))
        }),
    decreases params.len() - i,
{
    if i < params.len() {
        let p = params[i as int];
        let read = param_type(st, vars, SourceV::Own, p, i, span);
        let ty = read.res->Ok_0;
        let b = bind_param(read.st, env, p.pat, ty, p.mut_place);
        lemma_params(b.st, b.env, read.vars, params, i + 1, tys.push(ty), span);
        let r = bind_params_from(st, env, vars, SourceV::Own, params, i, tys, span);
        assert(r.tys[i as int] == tys.push(ty)[i as int]);
        if let Some(t) = p.ty {
            assert(written(st, vars, t).res == Ok::<TyV, crate::error::TypeErrorV>(ty));
        }
        assert forall|k: int| 0 <= k < i implies #[trigger] r.tys[k] == tys[k] by {
            assert(r.tys[k] == tys.push(ty)[k]);
        }
    }
}

/// Whether a definition with these parameters and this result was checked as one whose type
/// is `fn_ty`: the parameters and the result have the types that are written for them, and
/// the body may stand where the result is asked for.
pub open spec fn definition_typed(
    within: Within,
    to: SubstMap,
    params: Seq<ParamV>,
    result: Option<TypeV>,
    body: ExprV,
    fn_ty: TyV,
) -> bool {
    exists|env: EnvV, tys: Seq<TyV>, ret: ReturnV|
        #![trigger body_meets(within, to, env, body, ret), params_typed(params, tys)]
        params_typed(params, tys) && (result matches Some(t) ==> is_written(t, *ret.ty))
            && body_meets(within, to, env, body, ret) && (fn_ty matches TyV::Func(ps, r) && r == ret
            && ps.len() == params.len() && forall|i: int|
            0 <= i < params.len() ==> (#[trigger] ps[i]).ty == tys[i] && (ps[i].capability
                == crate::ty::ParamCapability::MutPlace) == params[i].mut_place)
}

/// The statement that defines a function or an operator.
pub open spec fn definition(def: FnDefV, is_operator: bool) -> StmtV {
    if is_operator {
        StmtV::Op(def)
    } else {
        StmtV::Fn(def)
    }
}

/// A function or an operator that is accepted is bound to a function type with one
/// parameter for each of its own. Parameters and result have the types that are written
/// for them, and the body may stand where the result is asked for.
pub proof fn law_function_is_typed(st: InferV, env: EnvV, def: FnDefV, is_operator: bool)
    requires
        solvable(st.subst.map),
        stmt_run(checker(), st, env, definition(def, is_operator)).res is Ok,
    ensures
        stmt_run(checker(), st, env, definition(def, is_operator)).node.0.dom()
            == env.dom().insert(def.name),
        forall|n: Seq<char>|
            env.dom().contains(n) && n != def.name ==> #[trigger] stmt_run(
                checker(),
                st,
                env,
                definition(def, is_operator),
            ).node.0[n] == env[n],
        ({
            let done = stmt_run(checker(), st, env, definition(def, is_operator));
            let m = done.st.subst.map;
            let result = crate::definitions::return_type(def.ret_type);
            exists|fn_ty: TyV|
                #![trigger definition_typed(checker(), m, def.params, result, def.body, fn_ty)]
                definition_typed(checker(), m, def.params, result, def.body, fn_ty)
                    && done.node.0[def.name].scheme.ty == apply(m, fn_ty)
        }),
{
    let within = checker();
    lemma_checker_steady();
    reveal(stmt_after);
    reveal(fn_run);
    reveal(fn_head);
    reveal(fn_after);
    reveal(end_def);
    reveal(finalized_at);
    reveal(generalized);
    let knows = !is_operator;
    let h = fn_head(st, env, def, knows);
    keeps_fn_head(st, env, def, knows);
    lemma_solvable_later(st.subst.map, h.st.subst.map);
    let self_name = if knows {
        Some(def.name)
    } else {
        None
    };
    let inside = at_level(st, child_level(st.level));
    lemma_def_head(inside, env, def, self_name);
    lemma_scoped(within, h.st, h.env, def.body, h.initial, h.ret, def.ret_type is Some, true);
    let r = scoped_run(
        within,
        h.st,
        h.env,
        def.body,
        h.initial,
        h.ret,
        def.ret_type is Some,
        true,
    );
    let m = r.st.subst.map;
    let result = crate::definitions::return_type(def.ret_type);
    let tys = choose|tys: Seq<TyV>|
        #![trigger params_typed(def.params, tys)]
        params_typed(def.params, tys) && h.fn_ty == TyV::Func(typed_params(def.params, tys), h.ret);
    assert(body_meets(within, m, h.env, def.body, h.ret) && params_typed(def.params, tys));
    let ps = typed_params(def.params, tys);
    assert forall|i: int| 0 <= i < def.params.len() implies (#[trigger] ps[i]).ty == tys[i] && (
    ps[i].capability == crate::ty::ParamCapability::MutPlace) == def.params[i].mut_place by {}
    assert(definition_typed(within, m, def.params, result, def.body, h.fn_ty));
    let done = stmt_run(checker(), st, env, definition(def, is_operator));
    assert(done.st.subst.map == m);
    assert(done.node.0[def.name].scheme.ty == apply(m, h.fn_ty));
    assert(done.node.0.dom() =~= env.dom().insert(def.name));
}

proof fn lemma_def_head(st: InferV, env: EnvV, def: FnDefV, self_name: Option<Seq<char>>)
    requires
        def_head(
            st,
            env,
            Map::empty(),
            Seq::empty(),
            SourceV::Own,
            def.params,
            def.ret_type,
            def.type_bounds,
            def.body.span,
            self_name,
        ).err is None,
    ensures
        ({
            let h = def_head(
                st,
                env,
                Map::empty(),
                Seq::empty(),
                SourceV::Own,
                def.params,
                def.ret_type,
                def.type_bounds,
                def.body.span,
                self_name,
            );
            &&& crate::definitions::return_type(def.ret_type) matches Some(t) ==> is_written(
                t,
                *h.ret.ty,
            )
            &&& exists|tys: Seq<TyV>|
                #![trigger params_typed(def.params, tys)]
                params_typed(def.params, tys) && h.fn_ty == TyV::Func(
                    typed_params(def.params, tys),
                    h.ret,
                )
        }),
{
    reveal(def_head);
    reveal(bind_params);
    let b = crate::ty_helpers::declared_bounds(st, Map::empty(), def.type_bounds);
    let p = bind_params(b.st, env, b.vars, SourceV::Own, def.params, def.body.span);
    lemma_params(b.st, env, b.vars, def.params, 0, Seq::empty(), def.body.span);
    assert(params_typed(def.params, p.tys));
    if let Some(t) = crate::definitions::return_type(def.ret_type) {
        let ret = read_annotation(p.st, p.vars, Some(t));
        assert(written(p.st, p.vars, t).res == Ok::<TyV, crate::error::TypeErrorV>(ret.res->Ok_0));
    }
}

/// A function without a name that is accepted where no type is expected has a function type
/// with one parameter for each of its own, and its body may stand where the result is
/// asked for.
pub proof fn law_closure_is_typed(st: InferV, env: EnvV, e: ExprV)
    requires
        solvable(st.subst.map),
        e.kind is Lambda,
        checked(st, env, e, None).res is Ok,
    ensures
        ({
            let m = checked(st, env, e, None).st.subst.map;
            let t = checked(st, env, e, None).res->Ok_0;
            exists|fn_ty: TyV|
                #![trigger definition_typed(below(expr_size(e)), m, e.kind->Lambda_params, e.kind->Lambda_return_type, *e.kind->Lambda_body, fn_ty)]
                definition_typed(
                    below(expr_size(e)),
                    m,
                    e.kind->Lambda_params,
                    e.kind->Lambda_return_type,
                    *e.kind->Lambda_body,
                    fn_ty,
                ) && (t == apply(m, fn_ty) || (t matches TyV::Qualified(_, inner) && *inner == apply(
                    m,
                    fn_ty,
                )))
        }),
{
    lemma_kind(st, env, e);
    reveal(infer_kind);
    reveal(lambda_run);
    reveal(lambda_head);
    reveal(bind_params);
    reveal(end_def);
    reveal(finalized_at);
    reveal(generalized);
    let within = below(expr_size(e));
    let params = e.kind->Lambda_params;
    let annotation = e.kind->Lambda_return_type;
    let body = *e.kind->Lambda_body;
    let st0 = at_level(st, child_level(st.level));
    let h = lambda_head(st0, env, params, annotation, body.span, None);
    keeps_lambda_head(st0, env, params, annotation, body.span, None);
    lemma_solvable_later(st0.subst.map, h.st.subst.map);
    let p = bind_params(st0, env, Map::empty(), SourceV::Own, params, body.span);
    lemma_params(st0, env, Map::empty(), params, 0, Seq::empty(), body.span);
    assert(params_typed(params, p.tys));
    if let Some(t) = annotation {
        let ret = read_annotation(p.st, p.vars, Some(t));
        assert(written(p.st, p.vars, t).res == Ok::<TyV, crate::error::TypeErrorV>(ret.res->Ok_0));
    }
    lemma_scoped(within, h.st, h.env, body, h.initial, h.ret, false, false);
    let r = scoped_run(within, h.st, h.env, body, h.initial, h.ret, false, false);
    let m = r.st.subst.map;
    let ps = typed_params(params, p.tys);
    assert forall|i: int| 0 <= i < params.len() implies (#[trigger] ps[i]).ty == p.tys[i] && (
    ps[i].capability == crate::ty::ParamCapability::MutPlace) == params[i].mut_place by {}
    assert(body_meets(within, m, h.env, body, h.ret) && params_typed(params, p.tys));
    assert(definition_typed(within, m, params, annotation, body, h.fn_ty));
}

// ---------------------------------------------------------------------------
// Lets
// ---------------------------------------------------------------------------

/// A `let` that is accepted has a pattern that matches every value of its form. A value with a type written
/// for it may stand where that type is asked for. A name that is bound gets a scheme of the
/// written type, or of the value's own (a member of a module may bring its own scheme), and
/// nothing is quantified in what can change or is no value.
pub proof fn law_let_is_typed(
    st: InferV,
    env: EnvV,
    pat: PatternV,
    is_mutable: bool,
    ty: Option<TypeV>,
    value: ExprV,
    span: SourceSpan,
)
    requires
        solvable(st.subst.map),
        stmt_run(checker(), st, env, StmtV::Let { pat, is_mutable, ty, value, span }).res is Ok,
    ensures
        ({
            let done = stmt_run(
                checker(),
                st,
                env,
                StmtV::Let { pat, is_mutable, ty, value, span },
            );
            let m = done.st.subst.map;
            exists|found: TyV, kept: TyV|
                #![trigger gives(st.subst.map, m, env, value, found), same(m, kept, kept)]
                gives(st.subst.map, m, env, value, found) && (match ty {
                    Some(t) => is_written(t, kept) && meets_type(m, found, kept),
                    None => kept == found,
                }) && (pat matches PatternV::Variable(name, _) ==> done.node.0.dom()
                    == env.dom().insert(name) && done.node.0[name].binding_mutable == is_mutable
                    && (!(done.node.1->Let_value.kind is FieldAccess) || is_mutable || ty is Some ==> same(
                    m,
                    done.node.0[name].scheme.ty,
                    kept,
                ) && (is_mutable || !crate::value::value_expr(value)
                    ==> done.node.0[name].scheme.vars.len() == 0)))
        }),
        ({
            let variants = stmt_run(
                checker(),
                st,
                env,
                StmtV::Let { pat, is_mutable, ty, value, span },
            ).st.variants;
            forall|v: ValueV| #[trigger] has_form(v, pat, variants) ==> pattern_matches(pat, v)
        }),
{
    let within = checker();
    lemma_checker_steady();
    reveal(stmt_after);
    reveal(let_run);
    reveal(let_of);
    reveal(let_after);
    reveal(let_value_run);
    reveal(let_end);
    reveal(generalized);
    reveal(value_after);
    let s = StmtV::Let { pat, is_mutable, ty, value, span };
    let done = stmt_run(checker(), st, env, s);
    let m = done.st.subst.map;
    let l = let_of(st, env, pat, is_mutable, ty is Some, value);
    let inside = if l.general {
        at_level(st, child_level(l.ambient))
    } else {
        st
    };
    let r = let_value_run(within, inside, env, value, ty);
    keeps_let_value_run(within, inside, env, value, ty);
    keeps_let_after(r, env, l);
    lemma_solvable_later(st.subst.map, r.st.subst.map);
    lemma_solvable_later(r.st.subst.map, m);
    let kept = r.res->Ok_0;
    match ty {
        None => {
            lemma_gives(inside, None, st.subst.map, m, env, value, kept);
            assert(gives(st.subst.map, m, env, value, kept) && same(m, kept, kept));
        },
        Some(t) => {
            let w = written(inside, Map::empty(), t);
            keeps_written(inside, Map::empty(), t);
            lemma_solvable_later(inside.subst.map, w.st.subst.map);
            let want = w.res->Ok_0;
            let v = checked(w.st, env, value, Some(want));
            law_checking_keeps_what_is_solved(w.st, env, value, Some(want));
            lemma_solvable_later(w.st.subst.map, v.st.subst.map);
            let found = v.res->Ok_0;
            lemma_result_equated(v.st, found, want);
            lemma_meets_later(r.st.subst.map, m, found, want);
            lemma_gives(w.st, Some(want), st.subst.map, m, env, value, found);
            assert(written(inside, Map::empty(), t).res == Ok::<TyV, crate::error::TypeErrorV>(want));
            assert(gives(st.subst.map, m, env, value, found) && same(m, kept, kept));
        },
    }
    reveal(match_pattern);
    let outside = if l.general {
        at_level(r.st, l.ambient)
    } else {
        r.st
    };
    lemma_check_variants(outside, env, pat, kept, is_mutable);
    let variants = done.st.variants;
    assert(variants == r.st.variants);
    assert forall|v: ValueV| #[trigger] has_form(v, pat, variants) implies pattern_matches(
        pat,
        v,
    ) by {
        law_let_pattern_matches(pat, v, variants);
    }
    if let PatternV::Variable(name, _) = pat {
        assert(done.node.0.dom() =~= env.dom().insert(name));
        reveal(grows);
        lemma_extend_absorbs(m, m, kept);
        assert(m == r.st.subst.map);
    }
}

// ---------------------------------------------------------------------------
// Macros and tests
// ---------------------------------------------------------------------------

/// A macro that is accepted takes syntax, gives syntax or an error, and its body may stand
/// there.
pub proof fn law_macro_is_typed(st: InferV, env: EnvV, def: MacroDefV)
    requires
        solvable(st.subst.map),
        stmt_run(checker(), st, env, StmtV::Macro(def)).res is Ok,
    ensures
        ({
            let done = stmt_run(checker(), st, env, StmtV::Macro(def));
            let m = done.st.subst.map;
            &&& done.node.0 == env
            &&& is_written(def.param_ty, TyV::Con("Syntax"@))
            &&& is_written(
                def.ret_ty,
                TyV::App(
                    Box::new(TyV::Con("Result"@)),
                    seq![TyV::Con("Syntax"@), TyV::Con("MacroError"@)],
                ),
            )
            &&& exists|inner: EnvV, t: TyV|
                #![trigger gives(st.subst.map, m, inner, def.body, t)]
                gives(st.subst.map, m, inner, def.body, t) && inner.dom().contains(def.param_name)
                    && inner[def.param_name].scheme.ty == TyV::Con("Syntax"@) && made_equal(
                    m,
                    t,
                    TyV::App(
                        Box::new(TyV::Con("Result"@)),
                        seq![TyV::Con("Syntax"@), TyV::Con("MacroError"@)],
                    ),
                )
        }),
{
    lemma_checker_steady();
    reveal(stmt_after);
    reveal(macro_run);
    reveal(macro_body_run);
    reveal(macro_head);
    reveal(macro_after);
    let h = macro_head(st, env, def);
    keeps_macro_head(st, env, def);
    lemma_solvable_later(st.subst.map, h.st.subst.map);
    let r = checked(h.st, h.env, def.body, None);
    law_checking_keeps_what_is_solved(h.st, h.env, def.body, None);
    lemma_solvable_later(h.st.subst.map, r.st.subst.map);
    let t = r.res->Ok_0;
    lemma_equated(r.st, t, crate::macro_phase::macro_result());
    let m = stmt_run(checker(), st, env, StmtV::Macro(def)).st.subst.map;
    lemma_gives(h.st, None, st.subst.map, m, h.env, def.body, t);
    let p = written(st, Map::empty(), def.param_ty);
    assert(written(st, Map::empty(), def.param_ty).res == Ok::<TyV, crate::error::TypeErrorV>(
        TyV::Con("Syntax"@),
    ));
    assert(written(p.st, p.vars, def.ret_ty).res == Ok::<TyV, crate::error::TypeErrorV>(
        crate::macro_phase::macro_result(),
    ));
    assert(gives(st.subst.map, m, h.env, def.body, t));
}

/// What is declared in a test block is not seen after it.
pub proof fn law_tests_declare_nothing(st: InferV, env: EnvV, stmts: Seq<StmtV>, span: SourceSpan)
    ensures
        stmt_run(checker(), st, env, StmtV::TestBlock { stmts, span }).node.0 == env,
{
    reveal(stmt_after);
}

} // verus!
