//! That nothing solved is lost.

use vstd::prelude::*;

use crate::associated::{all_filled, inherent_use, read_explicit, trait_use, use_args};
use crate::associated::use_types;
use crate::ast::SourceSpan;
use crate::ast_view::{TraitDefV, TraitMethodV, TypeV};
use crate::convert::{fill_all, VarNames};
use crate::dispatch::types_of;
use crate::env::EnvV;
use crate::keeps_dispatch::keeps_method_types;
use crate::keeps_schemes::keeps_instance;
use crate::keeps_steps::{keeps_equate, keeps_find_dict, keeps_written};
use crate::keeps_ty_helpers::keeps_fresh_named;
use crate::schemes::instance;
use crate::solutions::{grows, lemma_grows_reflexive, lemma_grows_transitive};
use crate::state::{InferV, MethodInfoV};
use crate::steps::written;
use crate::ty::TyV;
use crate::ty_helpers::{receiver_param, without_constraints};
use crate::type_syntax::dict_indexes;

verus! {

broadcast use {lemma_grows_reflexive, lemma_grows_transitive};

pub proof fn keeps_inherent_use(
    st: InferV,
    target: TypeV,
    target_span: SourceSpan,
    info: MethodInfoV,
)
    ensures
        grows(st.subst.map, inherent_use(st, target, target_span, info).0.subst.map),
{
    reveal(inherent_use);
    keeps_instance(st, info.scheme);
    let inst = instance(st, info.scheme);
    let callable = without_constraints(inst.1.ty);
    if info.has_receiver && target is App {
        keeps_written(inst.0, Map::empty(), target);
        let w = written(inst.0, Map::empty(), target);
        match w.res {
            Err(e) => {},
            Ok(receiver) => {
                match receiver_param(callable) {
                    None => {},
                    Some(param) => {
                        keeps_equate(w.st, param, receiver);
                    },
                }
            },
        }
    }
}

pub proof fn keeps_read_explicit(
    st: InferV,
    vars: VarNames,
    params: Seq<Seq<char>>,
    args: Seq<TypeV>,
    i: nat,
    done: Seq<TyV>,
)
    ensures
        grows(st.subst.map, read_explicit(st, vars, params, args, i, done).st.subst.map),
    decreases args.len() - i,
{
    if i >= args.len() {
    } else {
        keeps_written(st, vars, args[i as int]);
        let w = written(st, vars, args[i as int]);
        match w.res {
            Err(e) => {},
            Ok(t) => {
                keeps_read_explicit(w.st, match t { TyV::Var(v) => w.vars.insert(params[i as int], v), _ => w.vars, }, params, args, i + 1, done.push(t),);
            },
        }
    }
}

pub proof fn keeps_use_args(st: InferV, def: TraitDefV, explicit: Option<Seq<TypeV>>)
    ensures
        grows(st.subst.map, use_args(st, def, explicit).st.subst.map),
{
    match explicit {
        Some(args) => {
            keeps_read_explicit(st, Map::empty(), def.params, args, 0, Seq::empty());
        },
        None => {
            keeps_fresh_named(st, def.params, Map::empty());
        },
    }
}

pub proof fn keeps_use_types(
    st: InferV,
    vars: VarNames,
    def: TraitDefV,
    method: TraitMethodV,
    explicit: Option<Seq<TypeV>>,
)
    ensures
        grows(st.subst.map, use_types(st, vars, def, method, explicit).st.subst.map),
{
    match explicit {
        Some(args) => {
            keeps_method_types(st, vars, all_filled(types_of(method.params), def.params, args), fill_all(method.ret_type, def.params, args, 0),);
        },
        None => {
            keeps_method_types(st, vars, types_of(method.params), method.ret_type);
        },
    }
}

pub proof fn keeps_trait_use(
    st: InferV,
    env: EnvV,
    def: TraitDefV,
    method: TraitMethodV,
    explicit: Option<Seq<TypeV>>,
    span: SourceSpan,
)
    ensures
        grows(st.subst.map, trait_use(st, env, def, method, explicit, span).0.subst.map),
{
    reveal(trait_use);
    if explicit is Some && explicit->Some_0.len() != def.params.len() {
    } else {
        keeps_use_args(st, def, explicit);
        let a = use_args(st, def, explicit);
        match a.res {
            Err(e) => {},
            Ok(args) => {
                keeps_use_types(a.st, a.vars, def, method, explicit);
                let m = use_types(a.st, a.vars, def, method, explicit);
                match m.err {
                    Some(e) => {},
                    None => {
                        let indexes = dict_indexes(def);
                        if explicit is Some {
                            keeps_find_dict(m.st, env, def.name, args, indexes);
                        }
                    },
                }
            },
        }
    }
}

} // verus!
