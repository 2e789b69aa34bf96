//! That nothing solved is lost.

use vstd::prelude::*;

use crate::ast_view::{DictRefV, TraitDefV, TraitMethodV, TypeV};
use crate::convert::VarNames;
use crate::dict_names::concrete_name;
use crate::dicts::scheme_of;
use crate::dispatch::{abstract_call, apply_pending, apply_pending_from, check_dict_method};
use crate::dispatch::{choose_dict, choose_iterable, eq_dict, eq_items, equate_all};
use crate::dispatch::{equate_each, first_arg_call, method_types, multi_call, multi_dispatch};
use crate::dispatch::{signature, trait_call, types_of};
use crate::env::EnvV;
use crate::keeps_dicts::lemma_unify_each;
use crate::keeps_schemes::keeps_instance;
use crate::keeps_steps::{keeps_all_written, keeps_equate, keeps_find_dict, keeps_written};
use crate::keeps_ty_helpers::keeps_fresh_named;
use crate::schemes::instance;
use crate::solutions::{grows, lemma_grows_reflexive, lemma_grows_transitive};
use crate::state::{fresh, known_of, next_var, InferV};
use crate::steps::{all_in, all_written, concrete_dict, equate, find_dict, resolved};
use crate::ty::{TyV, TyVar};
use crate::ty_helpers::{fresh_named, head_var, names_var, plain_func};
use crate::type_syntax::{dict_indexes, field_ty, target_keys};

verus! {

broadcast use {lemma_grows_reflexive, lemma_grows_transitive};

pub proof fn keeps_method_types(st: InferV, vars: VarNames, params: Seq<TypeV>, ret: TypeV)
    ensures
        grows(st.subst.map, method_types(st, vars, params, ret).st.subst.map),
{
    reveal(method_types);
    keeps_all_written(st, vars, params);
    let ps = all_written(st, vars, params);
    match ps.res {
        Err(e) => {},
        Ok(tys) => {
            keeps_written(ps.st, ps.vars, ret);
        },
    }
}

pub proof fn keeps_equate_each(st: InferV, a: Seq<TyV>, b: Seq<TyV>, i: nat, flip: bool)
    ensures
        grows(st.subst.map, equate_each(st, a, b, i, flip).0.subst.map),
    decreases a.len() - i,
{
    if i >= a.len() || i >= b.len() {
    } else {
        if flip {
            keeps_equate(st, b[i as int], a[i as int]);
        } else {
            keeps_equate(st, a[i as int], b[i as int]);
        }
        let u = if flip { equate(st, b[i as int], a[i as int]) } else { equate(st, a[i as int], b[i as int]) };
        if u.1 is Some {
        } else {
            keeps_equate_each(u.0, a, b, i + 1, flip);
        }
    }
}

pub proof fn keeps_equate_all(st: InferV, a: Seq<TyV>, b: Seq<TyV>, flip: bool)
    ensures
        grows(st.subst.map, equate_all(st, a, b, flip).0.subst.map),
{
    reveal(equate_all);
    keeps_equate_each(st, a, b, 0, flip);
}

pub proof fn keeps_check_dict_method(
    st: InferV,
    env: EnvV,
    dict: DictRefV,
    trait_name: Seq<char>,
    method: Seq<char>,
    args: Seq<TyV>,
)
    ensures
        grows(st.subst.map, check_dict_method(st, env, dict, trait_name, method, args).0.subst.map),
{
    reveal(check_dict_method);
    match concrete_name(dict) {
        None => {},
        Some(name) => {
            match scheme_of(known_of(st, env), name) {
                None => {},
                Some(scheme) => {
                    keeps_instance(st, scheme);
                    let inst = instance(st, scheme);
                    match field_ty(resolved(inst.0, inst.1.ty), method) {
                        None => {},
                        Some(method_ty) => {
                            let ret = TyV::Var(next_var(inst.0));
                            keeps_equate(fresh(inst.0), method_ty, plain_func(args, ret));
                        },
                    }
                },
            }
        },
    }
}

pub proof fn keeps_multi_dispatch(
    st: InferV,
    env: EnvV,
    trait_name: Seq<char>,
    method: Seq<char>,
    args: Seq<TyV>,
    indexes: Seq<usize>,
    method_args: Seq<TyV>,
    ret: TyV,
)
    ensures
        grows(st.subst.map, multi_dispatch(
            st,
            env,
            trait_name,
            method,
            args,
            indexes,
            method_args,
            ret,
        ).0.subst.map),
{
    reveal(multi_dispatch);
    keeps_find_dict(st, env, trait_name, args, indexes);
    let f = find_dict(st, env, trait_name, args, indexes);
    match f.1 {
        Some(dict) => {
            keeps_check_dict_method(f.0, env, dict, trait_name, method, method_args);
            let c = check_dict_method(f.0, env, dict, trait_name, method, method_args);
            match c.1 {
                Err(e) => {},
                Ok(checked) => {
                    match checked {
                        Some(t) => {
                            keeps_equate(c.0, ret, t);
                        },
                        None => {},
                    }
                },
            }
        },
        None => {},
    }
}

pub proof fn keeps_eq_items(
    st: InferV,
    env: EnvV,
    items: Seq<TyV>,
    i: nat,
    done: Seq<DictRefV>,
)
    ensures
        grows(st.subst.map, eq_items(st, env, items, i, done).0.subst.map),
    decreases items, items.len() - i,
{
    if i >= items.len() {
    } else {
        keeps_eq_dict(st, env, items[i as int]);
        let d = eq_dict(st, env, items[i as int]);
        match d.1 {
            Err(e) => {},
            Ok(dict) => {
                keeps_eq_items(d.0, env, items, i + 1, done.push(dict));
            },
        }
    }
}

pub proof fn keeps_eq_dict(st: InferV, env: EnvV, ty: TyV)
    ensures
        grows(st.subst.map, eq_dict(st, env, ty).0.subst.map),
    decreases ty, 0nat,
{
    match ty {
        TyV::Tuple(items) => {
            keeps_eq_items(st, env, items, 0, Seq::empty());
        },
        TyV::Var(v) => {},
        _ => {},
    }
}

pub proof fn keeps_choose_dict(st: InferV, env: EnvV, trait_name: Seq<char>, target: TyV)
    ensures
        grows(st.subst.map, choose_dict(st, env, trait_name, target).0.subst.map),
{
    reveal(choose_dict);
    let ty = resolved(st, target);
    match ty {
        TyV::Var(v) => {},
        _ => {
            if trait_name == "Eq"@ && ty is Tuple {
                keeps_eq_dict(st, env, ty);
            }
        },
    }
}

pub proof fn keeps_choose_iterable(st: InferV, env: EnvV, target: TyV)
    ensures
        grows(st.subst.map, choose_iterable(st, env, target).0.subst.map),
{
    reveal(choose_iterable);
}

pub proof fn keeps_signature(
    st: InferV,
    def: TraitDefV,
    method: TraitMethodV,
    args: Seq<TyV>,
    args_first: bool,
)
    ensures
        grows(st.subst.map, signature(st, def, method, args, args_first).st.subst.map),
{
    reveal(signature);
    if def.params.len() == 0 {
    } else {
        let var = next_var(st);
        keeps_method_types(fresh(st), Map::<Seq<char>, TyVar>::empty().insert(def.params[0], var), types_of(method.params), method.ret_type,);
        let m = method_types( fresh(st), Map::<Seq<char>, TyVar>::empty().insert(def.params[0], var), types_of(method.params), method.ret_type, );
        match m.err {
            Some(e) => {},
            None => {
                keeps_equate_all(m.st, args, m.params, !args_first);
            },
        }
    }
}

pub proof fn keeps_first_arg_call(
    st: InferV,
    env: EnvV,
    def: TraitDefV,
    method: TraitMethodV,
    args: Seq<TyV>,
    context: Seq<char>,
)
    ensures
        grows(st.subst.map, first_arg_call(st, env, def, method, args, context).0.subst.map),
{
    reveal(first_arg_call);
    let target = resolved(st, args[0]);
    if target_keys(target).len() == 0 {
        match head_var(target) {
            None => {},
            Some(v) => {
                keeps_signature(st, def, method, args, false);
            },
        }
    } else {
        match concrete_dict(st, env, def.name, target) {
            None => {},
            Some(dict) => {
                keeps_check_dict_method(st, env, dict, def.name, method.name, args);
                let c = check_dict_method(st, env, dict, def.name, method.name, args);
                match c.1 {
                    Err(e) => {},
                    Ok(Some(ret)) => {},
                    Ok(None) => {
                        keeps_signature(c.0, def, method, args, false);
                    },
                }
            },
        }
    }
}

pub proof fn keeps_abstract_call(
    st: InferV,
    env: EnvV,
    def: TraitDefV,
    method: TraitMethodV,
    args: Seq<TyV>,
)
    ensures
        grows(st.subst.map, abstract_call(st, env, def, method, args).0.subst.map),
{
    reveal(abstract_call);
    keeps_signature(st, def, method, args, true);
}

pub proof fn keeps_multi_call(
    st: InferV,
    env: EnvV,
    def: TraitDefV,
    method: TraitMethodV,
    args: Seq<TyV>,
    context: Seq<char>,
)
    ensures
        grows(st.subst.map, multi_call(st, env, def, method, args, context).0.subst.map),
{
    reveal(multi_call);
    keeps_fresh_named(st, def.params, Map::empty());
    let f = fresh_named(st, def.params, Map::empty());
    keeps_method_types(f.st, f.vars, types_of(method.params), method.ret_type);
    let m = method_types(f.st, f.vars, types_of(method.params), method.ret_type);
    match m.err {
        Some(e) => {},
        None => {
            keeps_equate_all(m.st, args, m.params, false);
            let u = equate_all(m.st, args, m.params, false);
            match u.1 {
                Some(e) => {},
                None => {
                    keeps_multi_dispatch(u.0, env, def.name, method.name, all_in(u.0, f.res->Ok_0), dict_indexes(def), args, m.ret,);
                },
            }
        },
    }
}

pub proof fn keeps_trait_call(
    st: InferV,
    env: EnvV,
    def: TraitDefV,
    method: TraitMethodV,
    args: Seq<TyV>,
    context: Seq<char>,
)
    ensures
        grows(st.subst.map, trait_call(st, env, def, method, args, context).0.subst.map),
{
    reveal(trait_call);
    if args.len() != method.params.len() {
    } else {
        if def.params.len() > 1 || def.fundeps.len() > 0 {
            keeps_multi_call(st, env, def, method, args, context);
        } else {
            if def.params.len() > 0 && method.params.len() > 0 && names_var( method.params[0].ty, def.params[0], ) {
                keeps_first_arg_call(st, env, def, method, args, context);
            } else {
                keeps_abstract_call(st, env, def, method, args);
            }
        }
    }
}

pub proof fn keeps_apply_pending_from(
    st: InferV,
    trait_name: Seq<char>,
    args: Seq<TyV>,
    indexes: Seq<usize>,
    i: nat,
)
    ensures
        grows(st.subst.map, apply_pending_from(st, trait_name, args, indexes, i).subst.map),
    decreases st.pending.len() - i,
{
    if i < st.pending.len() {
        let c = st.pending[i as int];
        lemma_unify_each(st.subst, c.args, args, 0);
        keeps_apply_pending_from(st, trait_name, args, indexes, i + 1);
    }
}

pub proof fn keeps_apply_pending(
    st: InferV,
    trait_name: Seq<char>,
    args: Seq<TyV>,
    indexes: Seq<usize>,
)
    ensures
        grows(st.subst.map, apply_pending(st, trait_name, args, indexes).subst.map),
{
    reveal(apply_pending);
    keeps_apply_pending_from(st, trait_name, args, indexes, 0);
}

} // verus!
