//! That nothing solved is lost.

use vstd::prelude::*;

use crate::dispatch::{check_dict_method, equate_all, method_types, types_of};
use crate::env::EnvV;
use crate::keeps_dispatch::{keeps_check_dict_method, keeps_equate_all, keeps_method_types};
use crate::keeps_steps::{keeps_equate, keeps_find_dict, keeps_written};
use crate::keeps_ty_helpers::keeps_fresh_named;
use crate::receiver::{array_method_for, array_methods, fits_receiver, fitting_methods, forget};
use crate::receiver::{receiver_use, receiver_use_typed, scheme_return, ArrayMethodV};
use crate::receiver::CandidateV;
use crate::solutions::{grows, lemma_grows_reflexive, lemma_grows_transitive};
use crate::state::InferV;
use crate::steps::{all_in, equate, find_dict, written};
use crate::ty::TyV;
use crate::ty_helpers::fresh_named;
use crate::type_syntax::dict_indexes;

verus! {

broadcast use {lemma_grows_reflexive, lemma_grows_transitive};

pub proof fn keeps_receiver_use(
    st: InferV,
    env: EnvV,
    receiver: TyV,
    args: Seq<TyV>,
    c: CandidateV,
)
    ensures
        grows(st.subst.map, receiver_use(st, env, receiver, args, c).0.subst.map),
{
    reveal(receiver_use);
    if c.method.params.len() != args.len() + 1 {
    } else {
        keeps_fresh_named(st, c.def.params, Map::empty());
        let f = fresh_named(st, c.def.params, Map::empty());
        keeps_method_types(f.st, f.vars, types_of(c.method.params), c.method.ret_type);
        let m = method_types(f.st, f.vars, types_of(c.method.params), c.method.ret_type);
        match m.err {
            Some(e) => {},
            None => {
                keeps_receiver_use_typed(m.st, env, receiver, args, c, f.res->Ok_0, m.params, m.ret);
            },
        }
    }
}

pub proof fn keeps_receiver_use_typed(
    st: InferV,
    env: EnvV,
    receiver: TyV,
    args: Seq<TyV>,
    c: CandidateV,
    vars: Seq<TyV>,
    params: Seq<TyV>,
    ret: TyV,
)
    ensures
        grows(st.subst.map, receiver_use_typed(st, env, receiver, args, c, vars, params, ret).0.subst.map),
{
    reveal(receiver_use_typed);
    keeps_equate(st, params[0], receiver);
    let u = equate(st, params[0], receiver);
    match u.1 {
        Some(e) => {},
        None => {
            keeps_equate_all(u.0, args, params.skip(1), false);
            let v = equate_all(u.0, args, params.skip(1), false);
            match v.1 {
                Some(e) => {},
                None => {
                    let trait_args = all_in(v.0, vars);
                    keeps_find_dict(v.0, env, c.def.name, trait_args, dict_indexes(c.def));
                    let f = find_dict(v.0, env, c.def.name, trait_args, dict_indexes(c.def));
                    match f.1 {
                        None => {},
                        Some(dict) => {
                            keeps_check_dict_method(f.0, env, dict, c.def.name, c.method.name, seq![receiver] + args,);
                            let k = check_dict_method( f.0, env, dict, c.def.name, c.method.name, seq![receiver] + args, );
                            match k.1 {
                                Err(e) => {},
                                Ok(checked) => {
                                    match checked {
                                        Some(t) => {
                                            keeps_equate(k.0, ret, t);
                                        },
                                        None => {},
                                    }
                                },
                            }
                        },
                    }
                },
            }
        },
    }
}

pub proof fn keeps_fits_receiver(st: InferV, env: EnvV, receiver: TyV, c: CandidateV)
    ensures
        grows(st.subst.map, fits_receiver(st, env, receiver, c).0.subst.map),
{
    reveal(fits_receiver);
    if c.method.params.len() == 0 {
    } else {
        keeps_fresh_named(st, c.def.params, Map::empty());
        let f = fresh_named(st, c.def.params, Map::empty());
        keeps_written(f.st, f.vars, c.method.params[0].ty);
        let w = written(f.st, f.vars, c.method.params[0].ty);
        match w.res {
            Err(_) => {},
            Ok(t) => {
                keeps_equate(w.st, t, receiver);
                let u = equate(w.st, t, receiver);
                if u.1 is Some {
                } else {
                    keeps_find_dict(u.0, env, c.def.name, all_in(u.0, f.res->Ok_0), dict_indexes(c.def),);
                }
            },
        }
    }
}

pub proof fn keeps_fitting_methods(
    st: InferV,
    all: Seq<ArrayMethodV>,
    expected: TyV,
    i: nat,
    done: Seq<ArrayMethodV>,
)
    ensures
        grows(st.subst.map, fitting_methods(st, all, expected, i, done).0.subst.map),
    decreases all.len() - i,
{
    if i >= all.len() {
    } else {
        match scheme_return(all[i as int].info.scheme) {
            None => {
                keeps_fitting_methods(st, all, expected, i + 1, done);
            },
            Some(ret) => {
                keeps_equate(st, ret, expected);
                let u = equate(st, ret, expected);
                keeps_fitting_methods(forget(u.0, st), all, expected, i + 1, if u.1 is None { done.push(all[i as int]) } else { done },);
            },
        }
    }
}

pub proof fn keeps_array_method_for(st: InferV, method: Seq<char>, expected: TyV)
    ensures
        grows(st.subst.map, array_method_for(st, method, expected).0.subst.map),
{
    reveal(array_method_for);
    keeps_fitting_methods(st, array_methods(st, method), expected, 0, Seq::empty());
}

} // verus!
