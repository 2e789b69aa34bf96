//! What holds of an implementation that is accepted.

use vstd::prelude::*;

use crate::apply::{apply, apply_fields, flat_record};
use crate::ast_view::{ExprV, ImplDefV, ImplMethodV, StmtV, TraitDefV, TraitMethodV, TypeV};
use crate::checker::{body_run, checker, impl_body_run, impl_run, method_def_run};
use crate::checker::{method_defs_run, stmt_run, Within};
use crate::convert::VarNames;
use crate::dispatch::method_named;
use crate::env::EnvV;
use crate::impl_parts::{bodies_of, impl_after, impl_finish, impl_start, method_after};
use crate::impl_parts::method_head;
use crate::items::{impl_body_error, impl_head_error, missing_method};
use crate::keeps_checker::{keeps_method_defs_run, lemma_checker_steady, steady};
use crate::keeps_impl_parts::{keeps_impl_start, keeps_method_head};
use crate::rows::{lemma_sort_fields_contains, sort_fields, FieldV};
use crate::rule_laws::{lemma_result_equated, lemma_solvable_later, meets_type};
use crate::schemes::{finalized_at, generalized};
use crate::scopes::{in_function, out_of_function, pending_on};
use crate::solutions::{grows, lemma_grows_reflexive, lemma_grows_transitive, solvable};
use crate::state::InferV;
use crate::stmt_parts::stmt_after;
use crate::ty::{RowV, SchemeV, TyV};

verus! {

broadcast use {lemma_grows_reflexive, lemma_grows_transitive};

/// Whether a field of this name is among the fields.
pub open spec fn has_field(fields: Seq<FieldV>, name: Seq<char>) -> bool {
    exists|i: int| 0 <= i < fields.len() && (#[trigger] fields[i]).0 == name
}

/// Whether an implementation has a method of this name.
pub open spec fn defines(ms: Seq<ImplMethodV>, name: Seq<char>) -> bool {
    exists|i: int| 0 <= i < ms.len() && (#[trigger] ms[i]).name == name
}

/// Whether a method is one that a trait declares, with as many parameters.
pub open spec fn is_declared(def: TraitDefV, m: ImplMethodV) -> bool {
    exists|j: int|
        0 <= j < def.methods.len() && (#[trigger] def.methods[j]).name == m.name
            && def.methods[j].params.len() == m.params.len()
}

proof fn lemma_no_missing(ms: Seq<TraitMethodV>, given: Seq<ImplMethodV>, i: nat)
    requires
        missing_method(ms, given, i) is None,
    ensures
        forall|j: int| i <= j < ms.len() ==> defines(given, (#[trigger] ms[j]).name),
    decreases ms.len() - i,
{
    if i < ms.len() {
        lemma_no_missing(ms, given, i + 1);
        assert(crate::items::has_impl_method(given, ms[i as int].name));
        let k = choose|k: int| 0 <= k < given.len() && (#[trigger] given[k]).name == ms[i as int].name;
        assert(given[k].name == ms[i as int].name);
    }
}

proof fn lemma_method_named(ms: Seq<TraitMethodV>, name: Seq<char>, i: nat)
    requires
        method_named(ms, name, i) is Some,
    ensures
        exists|j: int|
            i <= j < ms.len() && (#[trigger] ms[j]).name == name && method_named(ms, name, i)
                == Some(ms[j]),
    decreases ms.len() - i,
{
    if ms[i as int].name != name {
        lemma_method_named(ms, name, i + 1);
    } else {
        assert(ms[i as int].name == name);
    }
}

/// The body of a method of an accepted implementation may stand where the result of the
/// method is asked for, and the method's type is a function to that result.
pub open spec fn method_is_typed(
    within: Within,
    to: crate::apply::SubstMap,
    m: ImplMethodV,
    fn_ty: TyV,
) -> bool {
    fn_ty matches TyV::Func(ps, ret) && ps.len() == m.params.len() && exists|
        st: InferV,
        env: EnvV,
        t: TyV,
    |
        #![trigger within(st, env, m.body, None), meets_type(to, t, *ret.ty)]
        within(st, env, m.body, None).res == Ok::<TyV, crate::error::SpannedV>(t)
            && st.return_tys.len() > 0 && st.return_tys.last() == ret && meets_type(
            to,
            t,
            *ret.ty,
        )
}

proof fn lemma_method(
    within: Within,
    st: InferV,
    env: EnvV,
    m: ImplMethodV,
    def: TraitDefV,
    trait_args: Seq<TypeV>,
    vars: VarNames,
)
    requires
        steady(within),
        solvable(st.subst.map),
        method_def_run(within, st, env, m.body, m, def, trait_args, vars).res is Ok,
    ensures
        is_declared(def, m),
        ({
            let r = method_def_run(within, st, env, m.body, m, def, trait_args, vars);
            &&& solvable(r.st.subst.map)
            &&& method_is_typed(within, r.st.subst.map, m, r.res->Ok_0)
        }),
{
    reveal(method_def_run);
    reveal(method_head);
    reveal(method_after);
    reveal(body_run);
    let h = method_head(st, env, m, def, trait_args, vars);
    keeps_method_head(st, env, m, def, trait_args, vars);
    lemma_solvable_later(st.subst.map, h.st.subst.map);
    lemma_method_named(def.methods, m.name, 0);
    let j = choose|j: int|
        0 <= j < def.methods.len() && (#[trigger] def.methods[j]).name == m.name && method_named(
            def.methods,
            m.name,
            0,
        ) == Some(def.methods[j]);
    assert(def.methods[j].name == m.name);
    lemma_impl_head(st, env, m, def, trait_args, vars, def.methods[j]);
    let inside = in_function(h.st, h.ret);
    let r = within(inside, h.env, m.body, None);
    lemma_solvable_later(inside.subst.map, r.st.subst.map);
    let t = r.res->Ok_0;
    let out = out_of_function(r.st);
    lemma_result_equated(out, t, *h.ret.ty);
    let done = method_def_run(within, st, env, m.body, m, def, trait_args, vars);
    assert(within(inside, h.env, m.body, None).res == Ok::<TyV, crate::error::SpannedV>(t)
        && meets_type(done.st.subst.map, t, *h.ret.ty));
    assert(inside.return_tys.last() == h.ret);
}

proof fn lemma_impl_head(
    st: InferV,
    env: EnvV,
    m: ImplMethodV,
    def: TraitDefV,
    trait_args: Seq<TypeV>,
    vars: VarNames,
    tm: TraitMethodV,
)
    requires
        method_named(def.methods, m.name, 0) == Some(tm),
        method_head(st, env, m, def, trait_args, vars).err is None,
    ensures
        m.params.len() == tm.params.len(),
        ({
            let h = method_head(st, env, m, def, trait_args, vars);
            h.fn_ty matches TyV::Func(ps, ret) && ret == h.ret && ps.len() == m.params.len()
        }),
{
    reveal(method_head);
    reveal(crate::definitions::impl_head);
    reveal(crate::places::bind_params);
    let derived = crate::associated::all_filled(
        crate::dispatch::types_of(tm.params),
        def.params,
        trait_args,
    );
    let p = crate::places::bind_params(
        st,
        env,
        vars,
        crate::places::SourceV::Derived(derived, m.span),
        m.params,
        m.body.span,
    );
    lemma_bound_params(
        st,
        env,
        vars,
        crate::places::SourceV::Derived(derived, m.span),
        m.params,
        0,
        Seq::empty(),
        m.body.span,
    );
}

/// Each parameter gets a type.
pub proof fn lemma_bound_params(
    st: InferV,
    env: EnvV,
    vars: VarNames,
    source: crate::places::SourceV,
    params: Seq<crate::ast_view::ParamV>,
    i: nat,
    tys: Seq<TyV>,
    span: crate::ast::SourceSpan,
)
    requires
        i <= params.len(),
        tys.len() == i,
        crate::places::bind_params_from(st, env, vars, source, params, i, tys, span).err is None,
    ensures
        crate::places::bind_params_from(st, env, vars, source, params, i, tys, span).tys.len()
            == params.len(),
    decreases params.len() - i,
{
    if i < params.len() {
        let p = params[i as int];
        let read = crate::places::param_type(st, vars, source, p, i, span);
        let ty = read.res->Ok_0;
        let b = crate::pattern_infer::bind_param(read.st, env, p.pat, ty, p.mut_place);
        lemma_bound_params(b.st, b.env, read.vars, source, params, i + 1, tys.push(ty), span);
    }
}

proof fn lemma_methods(
    within: Within,
    st: InferV,
    env: EnvV,
    bodies: Seq<ExprV>,
    ms: Seq<ImplMethodV>,
    def: TraitDefV,
    trait_args: Seq<TypeV>,
    vars: VarNames,
    i: nat,
    fields: Seq<FieldV>,
)
    requires
        steady(within),
        solvable(st.subst.map),
        i <= ms.len(),
        bodies.len() == ms.len(),
        fields.len() == i,
        forall|k: int| i <= k < ms.len() ==> bodies[k] == (#[trigger] ms[k]).body,
        method_defs_run(within, st, env, bodies, ms, def, trait_args, vars, i, fields).res is Ok,
    ensures
        ({
            let r = method_defs_run(within, st, env, bodies, ms, def, trait_args, vars, i, fields);
            &&& solvable(r.st.subst.map)
            &&& r.res->Ok_0.len() == ms.len()
            &&& forall|k: int| 0 <= k < i ==> #[trigger] r.res->Ok_0[k] == fields[k]
            &&& forall|k: int|
                i <= k < ms.len() ==> is_declared(def, #[trigger] ms[k]) && r.res->Ok_0[k].0
                    == ms[k].name && method_is_typed(
                    within,
                    r.st.subst.map,
                    ms[k],
                    r.res->Ok_0[k].1,
                )
        }),
    decreases bodies.len() - i,
{
    reveal_with_fuel(method_defs_run, 1);
    if i < ms.len() {
        let m = ms[i as int];
        let r = method_def_run(within, st, env, bodies[i as int], m, def, trait_args, vars);
        assert(bodies[i as int] == m.body);
        lemma_method(within, st, env, m, def, trait_args, vars);
        let next = bodies.update(i as int, r.node);
        let ty = r.res->Ok_0;
        let more = fields.push((m.name, ty));
        assert forall|k: int| i + 1 <= k < ms.len() implies next[k] == (#[trigger] ms[k]).body by {
            assert(bodies[k] == ms[k].body);
        }
        lemma_methods(within, r.st, env, next, ms, def, trait_args, vars, i + 1, more);
        keeps_method_defs_run(within, r.st, env, next, ms, def, trait_args, vars, i + 1, more);
        let z = method_defs_run(within, st, env, bodies, ms, def, trait_args, vars, i, fields);
        assert(z.res->Ok_0[i as int] == more[i as int]);
        lemma_typed_later(within, r.st.subst.map, z.st.subst.map, m, ty);
        assert forall|k: int| 0 <= k < i implies #[trigger] z.res->Ok_0[k] == fields[k] by {
            assert(z.res->Ok_0[k] == more[k]);
        }
    }
}

proof fn lemma_typed_later(
    within: Within,
    m: crate::apply::SubstMap,
    m2: crate::apply::SubstMap,
    method: ImplMethodV,
    fn_ty: TyV,
)
    requires
        solvable(m),
        grows(m, m2),
        method_is_typed(within, m, method, fn_ty),
    ensures
        method_is_typed(within, m2, method, fn_ty),
{
    let ret = fn_ty->Func_1;
    let (st, env, t) = choose|st: InferV, env: EnvV, t: TyV|
        #![trigger within(st, env, method.body, None), meets_type(m, t, *ret.ty)]
        within(st, env, method.body, None).res == Ok::<TyV, crate::error::SpannedV>(t)
            && st.return_tys.len() > 0 && st.return_tys.last() == ret && meets_type(
            m,
            t,
            *ret.ty,
        );
    crate::rule_laws::lemma_meets_later(m, m2, t, *ret.ty);
    assert(within(st, env, method.body, None).res == Ok::<TyV, crate::error::SpannedV>(t)
        && meets_type(m2, t, *ret.ty));
}

/// An implementation of a trait that is accepted is one of a trait that there is, with as
/// many arguments; it defines every method that the trait declares and no other, each with
/// as many parameters, and the body of each may stand where its result is asked for.
pub proof fn law_impl_is_complete(st: InferV, env: EnvV, id: ImplDefV)
    requires
        solvable(st.subst.map),
        stmt_run(checker(), st, env, StmtV::Impl(id)).res is Ok,
    ensures
        st.traits.dom().contains(id.trait_name),
        ({
            let def = st.traits[id.trait_name];
            let m = stmt_run(checker(), st, env, StmtV::Impl(id)).st.subst.map;
            &&& id.trait_args.len() == def.params.len()
            &&& forall|j: int| 0 <= j < def.methods.len() ==> defines(
                id.methods,
                (#[trigger] def.methods[j]).name,
            )
            &&& forall|k: int| 0 <= k < id.methods.len() ==> is_declared(
                def,
                #[trigger] id.methods[k],
            ) && exists|fn_ty: TyV| #[trigger]
                method_is_typed(checker(), m, id.methods[k], fn_ty)
        }),
{
    let within = checker();
    lemma_checker_steady();
    reveal(stmt_after);
    reveal(impl_run);
    reveal(impl_start);
    reveal(impl_head_error);
    reveal(impl_body_error);
    reveal(impl_body_run);
    reveal(impl_finish);
    let def = st.traits[id.trait_name];
    let s = impl_start(st, id);
    crate::impl_parts::lemma_impl_start(st, id);
    keeps_impl_start(st, id);
    lemma_solvable_later(st.subst.map, s.st.subst.map);
    lemma_no_missing(def.methods, id.methods, 0);
    let st1 = pending_on(s.st, s.initial);
    let bodies = bodies_of(s.id.methods);
    let r = method_defs_run(
        within,
        st1,
        env,
        bodies,
        s.id.methods,
        def,
        s.id.trait_args,
        s.vars,
        0,
        Seq::empty(),
    );
    reveal(impl_after);
    assert(r.res is Ok);
    lemma_methods(
        within,
        st1,
        env,
        bodies,
        s.id.methods,
        def,
        s.id.trait_args,
        s.vars,
        0,
        Seq::empty(),
    );
    let done = stmt_run(checker(), st, env, StmtV::Impl(id));
    assert(done.st.subst.map == r.st.subst.map);
    assert forall|k: int| 0 <= k < id.methods.len() implies is_declared(
        def,
        #[trigger] id.methods[k],
    ) && exists|fn_ty: TyV| #[trigger]
        method_is_typed(checker(), done.st.subst.map, id.methods[k], fn_ty) by {
        assert(s.id.methods[k] == id.methods[k]);
        assert(method_is_typed(checker(), done.st.subst.map, id.methods[k], r.res->Ok_0[k].1));
    }
}

/// The dictionary that an accepted implementation binds is a record whose fields are named
/// like the methods that the trait declares.
pub proof fn law_dictionary_has_the_methods(st: InferV, env: EnvV, id: ImplDefV)
    requires
        solvable(st.subst.map),
        stmt_run(checker(), st, env, StmtV::Impl(id)).res is Ok,
    ensures
        exists|dict: Seq<char>, s: SchemeV|
            #![trigger env.insert(dict, crate::ty::immutable_info(s))]
            stmt_run(checker(), st, env, StmtV::Impl(id)).node.0 == env.insert(
                dict,
                crate::ty::immutable_info(s),
            ) && (s.ty matches TyV::Record(row) && *row.tail == TyV::Unit && forall|n: Seq<char>|
                #[trigger] has_field(row.fields, n) <==> exists|j: int|
                    0 <= j < st.traits[id.trait_name].methods.len()
                        && (#[trigger] st.traits[id.trait_name].methods[j]).name == n),
{
    law_impl_is_complete(st, env, id);
    let within = checker();
    lemma_checker_steady();
    reveal(stmt_after);
    reveal(impl_run);
    reveal(impl_start);
    reveal(impl_body_run);
    reveal(impl_finish);
    reveal(impl_after);
    reveal(finalized_at);
    reveal(generalized);
    let def = st.traits[id.trait_name];
    let s = impl_start(st, id);
    crate::impl_parts::lemma_impl_start(st, id);
    keeps_impl_start(st, id);
    lemma_solvable_later(st.subst.map, s.st.subst.map);
    let st1 = pending_on(s.st, s.initial);
    let bodies = bodies_of(s.id.methods);
    let r = method_defs_run(
        within,
        st1,
        env,
        bodies,
        s.id.methods,
        def,
        s.id.trait_args,
        s.vars,
        0,
        Seq::empty(),
    );
    assert(r.res is Ok);
    lemma_methods(
        within,
        st1,
        env,
        bodies,
        s.id.methods,
        def,
        s.id.trait_args,
        s.vars,
        0,
        Seq::empty(),
    );
    let fields = r.res->Ok_0;
    let m = r.st.subst.map;
    let sorted = sort_fields(fields);
    let ty = TyV::Record(RowV { fields: sorted, tail: Box::new(TyV::Unit) });
    let applied = apply_fields(m, sorted);
    let row = RowV { fields: sort_fields(applied), tail: Box::new(TyV::Unit) };
    assert(apply(m, TyV::Unit) == TyV::Unit);
    assert(apply(m, ty) == flat_record(applied, TyV::Unit));
    assert(apply(m, ty) == TyV::Record(row));
    assert forall|n: Seq<char>| #[trigger] has_field(row.fields, n) <==> exists|j: int|
        0 <= j < def.methods.len() && (#[trigger] def.methods[j]).name == n by {
        if has_field(row.fields, n) {
            let i = choose|i: int| 0 <= i < row.fields.len() && (#[trigger] row.fields[i]).0 == n;
            let f = row.fields[i];
            assert(row.fields.contains(f));
            lemma_sort_fields_contains(applied, f);
            let k = choose|k: int| 0 <= k < applied.len() && applied[k] == f;
            assert(sorted[k].0 == n);
            assert(sorted.contains(sorted[k]));
            lemma_sort_fields_contains(fields, sorted[k]);
            let l = choose|l: int| 0 <= l < fields.len() && fields[l] == sorted[k];
            assert(s.id.methods[l] == id.methods[l]);
            assert(is_declared(def, id.methods[l]));
        }
        if exists|j: int| 0 <= j < def.methods.len() && (#[trigger] def.methods[j]).name == n {
            let j = choose|j: int| 0 <= j < def.methods.len() && (#[trigger] def.methods[j]).name == n;
            assert(defines(id.methods, def.methods[j].name));
            let l = choose|l: int| 0 <= l < id.methods.len() && (#[trigger] id.methods[l]).name == n;
            assert(s.id.methods[l] == id.methods[l]);
            let f = fields[l];
            assert(fields.contains(f));
            lemma_sort_fields_contains(fields, f);
            let k = choose|k: int| 0 <= k < sorted.len() && sorted[k] == f;
            let g = applied[k];
            assert(g.0 == n);
            assert(applied.contains(g));
            lemma_sort_fields_contains(applied, g);
            let i = choose|i: int| 0 <= i < row.fields.len() && row.fields[i] == g;
            assert(row.fields[i].0 == n);
        }
    }
    let st2 = crate::scopes::at_level(pending_on(r.st, s.st.pending), st.level);
    let f = finalized_at(st2, ty, r.st.pending, st.level);
    assert(f.scheme.ty == TyV::Record(row));
    let dict = crate::type_syntax::dict_name_for_indexes(
        id.trait_name,
        id.trait_args,
        crate::type_syntax::dict_indexes(def),
    )->Ok_0;
    assert(stmt_run(checker(), st, env, StmtV::Impl(id)).node.0 == env.insert(
        dict,
        crate::ty::immutable_info(f.scheme),
    ));
}

} // verus!
