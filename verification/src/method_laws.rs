//! What holds of methods that are found and accepted.

use vstd::prelude::*;

use crate::apply::{apply, SubstMap};
use crate::associated::inherent_use;
use crate::ast::SourceSpan;
use crate::ast_view::{DictRefV, ResolvedCalleeV, TraitDefV, TraitMethodV, TypeV};
use crate::convert::{MAX_ALIAS_DEPTH, VarNames};
use crate::dict_laws::known_scheme;
use crate::dict_names::concrete_name;
use crate::dicts::scheme_of;
use crate::dispatch::{check_dict_method, equate_all, equate_each, method_types, signature};
use crate::dispatch::types_of;
use crate::env::EnvV;
use crate::finish::{lead_arg, params_of};
use crate::form_laws::takes;
use crate::keeps_dispatch::{keeps_check_dict_method, keeps_equate_all, keeps_equate_each};
use crate::keeps_dispatch::keeps_method_types;
use crate::keeps_schemes::keeps_instance;
use crate::keeps_steps::{keeps_equate, keeps_find_dict, keeps_written};
use crate::op_laws::{is_instance, lemma_applied};
use crate::receiver::{receiver_use_typed, CandidateV};
use crate::rule_laws::{lemma_equal_later, lemma_equated, lemma_solvable_later};
use crate::schemes::{fresh_names, instance};
use crate::solutions::{grows, lemma_grows_reflexive, lemma_grows_transitive, solvable};
use crate::state::{fresh, known_of, next_var, InferV, MethodInfoV};
use crate::steps::{all_in, equate, find_dict, resolved, written};
use crate::ty::{SchemeV, TyV, TyVar};
use crate::ty_helpers::{plain_func, receiver_param, without_constraints};
use crate::type_syntax::{dict_indexes, field_ty};
use crate::typing::same;
use crate::unify_laws::made_equal;
use crate::written_laws::{lemma_method_types, lemma_names_kept, lemma_written};
use crate::written_laws::{method_typed_in, names_of, stands_for};

verus! {

broadcast use {lemma_grows_reflexive, lemma_grows_transitive};

proof fn lemma_equated_each(st: InferV, a: Seq<TyV>, b: Seq<TyV>, i: nat, flip: bool, m: SubstMap)
    requires
        solvable(st.subst.map),
        equate_each(st, a, b, i, flip).1 is None,
        grows(equate_each(st, a, b, i, flip).0.subst.map, m),
    ensures
        forall|k: int|
            i <= k < a.len() && k < b.len() ==> made_equal(m, #[trigger] a[k], b[k]),
    decreases a.len() - i,
{
    if i < a.len() && i < b.len() {
        let (x, y) = if flip {
            (b[i as int], a[i as int])
        } else {
            (a[i as int], b[i as int])
        };
        let u = equate(st, x, y);
        lemma_equated(st, x, y);
        keeps_equate_each(u.0, a, b, i + 1, flip);
        lemma_equal_later(u.0.subst.map, m, x, y);
        lemma_equated_each(u.0, a, b, i + 1, flip, m);
    }
}

/// Two lists of types that are made equal agree as far as both go.
pub proof fn law_lists_agree(st: InferV, a: Seq<TyV>, b: Seq<TyV>, flip: bool)
    requires
        solvable(st.subst.map),
        equate_all(st, a, b, flip).1 is None,
    ensures
        forall|k: int|
            0 <= k < a.len() && k < b.len() ==> made_equal(
                equate_all(st, a, b, flip).0.subst.map,
                #[trigger] a[k],
                b[k],
            ),
{
    reveal(equate_all);
    lemma_equated_each(st, a, b, 0, flip, equate_all(st, a, b, flip).0.subst.map);
}

/// The method of a trait that is called with arguments takes them: they agree with the types
/// that are written for its parameters, where the trait's first parameter is the type
/// that the method was found for.
pub proof fn law_signature_agrees(
    st: InferV,
    def: TraitDefV,
    method: TraitMethodV,
    args: Seq<TyV>,
    args_first: bool,
)
    requires
        solvable(st.subst.map),
        signature(st, def, method, args, args_first).err is None,
    ensures
        ({
            let s = signature(st, def, method, args, args_first);
            let m = s.st.subst.map;
            &&& def.params.len() > 0
            &&& exists|vars: VarNames, params: Seq<TyV>|
                #![trigger method_typed_in(names_of(st), method, params, s.ret, vars)]
                method_typed_in(names_of(st), method, params, s.ret, vars) && vars.dom().contains(
                    def.params[0],
                ) && same(m, s.target, TyV::Var(vars[def.params[0]])) && forall|k: int|
                    0 <= k < args.len() && k < params.len() ==> made_equal(
                        m,
                        #[trigger] args[k],
                        params[k],
                    )
        }),
{
    reveal(signature);
    reveal(resolved);
    let s = signature(st, def, method, args, args_first);
    let m = s.st.subst.map;
    let var = next_var(st);
    let vars = Map::<Seq<char>, TyVar>::empty().insert(def.params[0], var);
    let t = method_types(fresh(st), vars, types_of(method.params), method.ret_type);
    keeps_method_types(fresh(st), vars, types_of(method.params), method.ret_type);
    lemma_solvable_later(st.subst.map, t.st.subst.map);
    let more = lemma_method_types(fresh(st), vars, method);
    assert(vars.dom().contains(def.params[0]));
    lemma_names_kept(vars, more, def.params[0]);
    law_lists_agree(t.st, args, t.params, !args_first);
    reveal(equate_all);
    keeps_equate_each(t.st, args, t.params, 0, !args_first);
    lemma_solvable_later(t.st.subst.map, m);
    lemma_applied(m, TyV::Var(var));
    assert(method_typed_in(names_of(st), method, t.params, s.ret, more));
}

proof fn lemma_fresh_names_solve_nothing(
    st: InferV,
    vars: Seq<TyVar>,
    i: nat,
    m: Map<TyVar, TyVar>,
)
    ensures
        fresh_names(st, vars, i, m).0.subst.map == st.subst.map,
    decreases vars.len() - i,
{
    if i < vars.len() {
        lemma_fresh_names_solve_nothing(
            fresh(st),
            vars,
            i + 1,
            m.insert(vars[i as int], next_var(st)),
        );
    }
}

/// The method of a dictionary that is called with arguments is the field of that name in a use
/// of the dictionary's scheme, takes the arguments and gives the result.
pub proof fn law_dict_method_agrees(
    st: InferV,
    env: EnvV,
    dict: DictRefV,
    trait_name: Seq<char>,
    method: Seq<char>,
    args: Seq<TyV>,
)
    requires
        solvable(st.subst.map),
        check_dict_method(st, env, dict, trait_name, method, args).1 matches Ok(ret) && ret is Some,
    ensures
        ({
            let d = check_dict_method(st, env, dict, trait_name, method, args);
            &&& concrete_name(dict) is Some
            &&& exists|scheme: SchemeV, ty: TyV, found: TyV|
                #![trigger is_instance(scheme, ty), takes(d.0.subst.map, found, args, d.1->Ok_0->0)]
                known_scheme(known_of(st, env), concrete_name(dict)->0, scheme) && is_instance(
                    scheme,
                    ty,
                ) && field_ty(apply(st.subst.map, ty), method) == Some(found) && takes(
                    d.0.subst.map,
                    found,
                    args,
                    d.1->Ok_0->0,
                )
        }),
{
    reveal(check_dict_method);
    reveal(resolved);
    let d = check_dict_method(st, env, dict, trait_name, method, args);
    let name = concrete_name(dict)->0;
    let scheme = scheme_of(known_of(st, env), name)->0;
    assert(known_scheme(known_of(st, env), name, scheme));
    let inst = instance(st, scheme);
    keeps_instance(st, scheme);
    lemma_solvable_later(st.subst.map, inst.0.subst.map);
    assert(inst.0.subst.map == st.subst.map) by {
        reveal(instance);
        lemma_fresh_names_solve_nothing(st, scheme.vars, 0, Map::empty());
    }
    let found = field_ty(resolved(inst.0, inst.1.ty), method)->0;
    let ret = TyV::Var(next_var(inst.0));
    let want = plain_func(args, ret);
    lemma_equated(fresh(inst.0), found, want);
    let m = d.0.subst.map;
    let (ps, r) = (want->Func_0, want->Func_1);
    assert(made_equal(m, found, TyV::Func(ps, r)));
    assert forall|i: int| 0 <= i < args.len() implies (#[trigger] ps[i]).ty == args[i] by {}
    assert(same(m, ret, *r.ty));
    assert(d.1->Ok_0->0 == ret);
    assert(takes(m, found, args, d.1->Ok_0->0));
    assert(field_ty(apply(st.subst.map, inst.1.ty), method) == Some(found));
    assert(is_instance(scheme, inst.1.ty));
}

/// A receiver is of the type of the first parameter.
pub proof fn law_receiver_agrees(st: InferV, callable: TyV, lead: TyV, span: SourceSpan)
    requires
        solvable(st.subst.map),
        params_of(callable).len() > 0,
        lead_arg(st, callable, lead, span).1 is None,
    ensures
        made_equal(
            lead_arg(st, callable, lead, span).0.subst.map,
            lead,
            params_of(callable)[0].ty,
        ),
{
    reveal(lead_arg);
    lemma_equated(st, lead, params_of(callable)[0].ty);
}

/// The method of a type that is used through a written type takes a receiver of that type.
pub proof fn law_method_of_type_agrees(
    st: InferV,
    target: TypeV,
    span: SourceSpan,
    info: MethodInfoV,
)
    requires
        solvable(st.subst.map),
        info.has_receiver,
        target is App,
        inherent_use(st, target, span, info).1 is Ok,
    ensures
        ({
            let u = inherent_use(st, target, span, info);
            let m = u.0.subst.map;
            exists|ty: TyV, own: TyV, vars: VarNames|
                #![trigger is_instance(info.scheme, ty), stands_for(names_of(st), vars, target, own, MAX_ALIAS_DEPTH as nat)]
                is_instance(info.scheme, ty) && stands_for(
                    names_of(st),
                    vars,
                    target,
                    own,
                    MAX_ALIAS_DEPTH as nat,
                ) && same(m, u.1->Ok_0.callable, without_constraints(ty)) && (receiver_param(
                    without_constraints(ty),
                ) matches Some(p) && made_equal(m, p, own))
        }),
{
    reveal(inherent_use);
    reveal(resolved);
    let inst = instance(st, info.scheme);
    keeps_instance(st, info.scheme);
    assert(names_of(inst.0) == names_of(st)) by {
        reveal(instance);
        lemma_fresh_names_keep(st, info.scheme.vars, 0, Map::empty());
    }
    let w = written(inst.0, Map::empty(), target);
    keeps_written(inst.0, Map::empty(), target);
    lemma_written(inst.0, Map::empty(), target);
    lemma_solvable_later(st.subst.map, w.st.subst.map);
    let callable = without_constraints(inst.1.ty);
    let own = w.res->Ok_0;
    let p = receiver_param(callable)->0;
    lemma_equated(w.st, p, own);
    let m = inherent_use(st, target, span, info).0.subst.map;
    lemma_applied(m, callable);
    assert(is_instance(info.scheme, inst.1.ty));
    assert(stands_for(names_of(st), w.vars, target, own, MAX_ALIAS_DEPTH as nat));
}

proof fn lemma_fresh_names_keep(st: InferV, vars: Seq<TyVar>, i: nat, m: Map<TyVar, TyVar>)
    ensures
        names_of(fresh_names(st, vars, i, m).0) == names_of(st),
    decreases vars.len() - i,
{
    if i < vars.len() {
        lemma_fresh_names_keep(fresh(st), vars, i + 1, m.insert(vars[i as int], next_var(st)));
    }
}

/// The method of a trait that is called on a receiver takes it first and the arguments after
/// it, gives the result, and is called by its name through a dictionary.
pub proof fn law_receiver_use_agrees(
    st: InferV,
    env: EnvV,
    receiver: TyV,
    args: Seq<TyV>,
    c: CandidateV,
    vars: Seq<TyV>,
    params: Seq<TyV>,
    ret: TyV,
)
    requires
        solvable(st.subst.map),
        params.len() > 0,
        receiver_use_typed(st, env, receiver, args, c, vars, params, ret).1 is Ok,
    ensures
        ({
            let u = receiver_use_typed(st, env, receiver, args, c, vars, params, ret);
            let m = u.0.subst.map;
            &&& made_equal(m, params[0], receiver)
            &&& forall|k: int|
                0 <= k < args.len() && k + 1 < params.len() ==> made_equal(
                    m,
                    #[trigger] args[k],
                    params[k + 1],
                )
            &&& same(m, u.1->Ok_0.ret, ret)
            &&& u.1->Ok_0.callee matches ResolvedCalleeV::DictMethod { dict, method } && method
                == c.method.name
        }),
{
    reveal(receiver_use_typed);
    reveal(resolved);
    let m = receiver_use_typed(st, env, receiver, args, c, vars, params, ret).0.subst.map;
    let u = equate(st, params[0], receiver);
    lemma_equated(st, params[0], receiver);
    let rest = params.skip(1);
    let v = equate_all(u.0, args, rest, false);
    keeps_equate_all(u.0, args, rest, false);
    lemma_solvable_later(u.0.subst.map, v.0.subst.map);
    law_lists_agree(u.0, args, rest, false);
    let trait_args = all_in(v.0, vars);
    let f = find_dict(v.0, env, c.def.name, trait_args, dict_indexes(c.def));
    keeps_find_dict(v.0, env, c.def.name, trait_args, dict_indexes(c.def));
    let dict = f.1->0;
    let all = seq![receiver] + args;
    let k = check_dict_method(f.0, env, dict, c.def.name, c.method.name, all);
    keeps_check_dict_method(f.0, env, dict, c.def.name, c.method.name, all);
    if let Some(t) = k.1->Ok_0 {
        keeps_equate(k.0, ret, t);
    }
    assert(grows(v.0.subst.map, m));
    lemma_solvable_later(v.0.subst.map, m);
    lemma_equal_later(u.0.subst.map, m, params[0], receiver);
    assert forall|k: int| 0 <= k < args.len() && k + 1 < params.len() implies made_equal(
        m,
        #[trigger] args[k],
        params[k + 1],
    ) by {
        assert(rest[k] == params[k + 1]);
        lemma_equal_later(v.0.subst.map, m, args[k], rest[k]);
    }
    lemma_applied(m, ret);
}

} // verus!
