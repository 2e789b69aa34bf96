//! That nothing solved is lost.

use vstd::prelude::*;

use crate::ast_view::{ExprV, ResolvedCalleeV, TraitDefV};
use crate::dispatch::method_named;
use crate::ends::{arg_end, function_operator, iter_types, named_scheme, operator_end};
use crate::ends::{operator_start, pipe_end, plain_apply, scheme_apply, ArgsV, OpV};
use crate::env::EnvV;
use crate::finish::{operator_method, operator_types};
use crate::keeps_dispatch::keeps_choose_dict;
use crate::keeps_finish::{keeps_constrained_apply, keeps_multi_operator, keeps_operator_types};
use crate::keeps_schemes::keeps_instance;
use crate::keeps_steps::{keeps_equate, keeps_give_dicts, keeps_written};
use crate::places::place_error;
use crate::schemes::instance;
use crate::solutions::{grows, lemma_grows_reflexive, lemma_grows_transitive};
use crate::state::{callable_at, fresh, next_var, InferV};
use crate::steps::{equate, resolved, written};
use crate::ty::{SchemeV, TyV, TyVar};
use crate::ty_helpers::{constraints_on, plain_func, some_place, ty_caps, wants_place};

verus! {

broadcast use {lemma_grows_reflexive, lemma_grows_transitive};

pub proof fn keeps_plain_apply(st: InferV, callee: TyV, args: Seq<TyV>)
    ensures
        grows(st.subst.map, plain_apply(st, callee, args).0.subst.map),
{
    let ret = TyV::Var(next_var(st));
    keeps_equate(fresh(st), callee, plain_func(args, ret));
}

pub proof fn keeps_scheme_apply(
    st: InferV,
    env: EnvV,
    scheme: SchemeV,
    args: Seq<TyV>,
    given: ArgsV,
)
    ensures
        grows(st.subst.map, scheme_apply(st, env, scheme, args, given).st.subst.map),
{
    keeps_constrained_apply(st, env, scheme, args, given.dicts, given.pending);
}

pub proof fn keeps_pipe_end(
    st: InferV,
    env: EnvV,
    lhs: ExprV,
    rhs: ExprV,
    l_ty: TyV,
    r_ty: TyV,
    given: ArgsV,
)
    ensures
        grows(st.subst.map, pipe_end(st, env, lhs, rhs, l_ty, r_ty, given).st.subst.map),
{
    reveal(pipe_end);
    match named_scheme(env, rhs) {
        Some(scheme) => {
            let place = if wants_place(scheme, 0) { place_error(st, env, lhs, 0) } else { None };
            match place {
                Some(e) => {},
                None => {
                    if scheme.constraints.len() > 0 {
                        keeps_scheme_apply(st, env, scheme, seq![l_ty], given);
                    } else {
                        keeps_plain_apply(st, r_ty, seq![l_ty]);
                    }
                },
            }
        },
        None => {
            keeps_plain_apply(st, r_ty, seq![l_ty]);
        },
    }
}

pub proof fn keeps_function_operator(
    st: InferV,
    env: EnvV,
    op: Seq<char>,
    l_ty: TyV,
    r_ty: TyV,
    resolved_op: Option<ResolvedCalleeV>,
    given: ArgsV,
)
    ensures
        grows(st.subst.map, function_operator(st, env, op, l_ty, r_ty, resolved_op, given).st.subst.map),
{
    reveal(function_operator);
    if !env.dom().contains(op) {
    } else {
        if env[op].scheme.constraints.len() > 0 {
            keeps_scheme_apply(st, env, env[op].scheme, seq![l_ty, r_ty], given);
        } else {
            keeps_instance(st, env[op].scheme);
            let inst = instance(st, env[op].scheme);
            keeps_plain_apply(inst.0, inst.1.ty, seq![l_ty, r_ty]);
        }
    }
}

pub proof fn keeps_arg_end(st: InferV, env: EnvV, e: ExprV, ty: TyV)
    ensures
        grows(st.subst.map, arg_end(st, env, e, ty).0.subst.map),
{
    reveal(arg_end);
    if some_place(ty_caps(resolved(st, ty))) || some_place(callable_at(st.meta, e.id)) {
    } else {
        let cs = constraints_on(ty);
        if cs.len() == 0 {
        } else {
            keeps_give_dicts(st, env, Seq::empty(), Seq::empty(), cs);
        }
    }
}

pub proof fn keeps_iter_types(st: InferV)
    ensures
        grows(st.subst.map, iter_types(st).st.subst.map),
{
    reveal(iter_types);
    if !st.traits.dom().contains("Iterable"@) {
    } else {
        let def = st.traits["Iterable"@];
        match method_named(def.methods, "iter"@, 0) {
            None => {},
            Some(method) => {
                if def.params.len() == 0 {
                } else {
                    if method.params.len() == 0 {
                    } else {
                        let target = next_var(st);
                        keeps_written(fresh(st), Map::<Seq<char>, TyVar>::empty().insert(def.params[0], target), method.params[0].ty,);
                        let a = written( fresh(st), Map::<Seq<char>, TyVar>::empty().insert(def.params[0], target), method.params[0].ty, );
                        match a.res {
                            Err(e) => {},
                            Ok(self_ty) => {
                                keeps_written(a.st, a.vars, method.ret_type);
                            },
                        }
                    }
                }
            },
        }
    }
}

pub proof fn keeps_operator_start(st: InferV, trait_name: Seq<char>, op: Seq<char>, l_ty: TyV)
    ensures
        grows(st.subst.map, operator_start(st, trait_name, op, l_ty).st.subst.map),
{
    reveal(operator_start);
    match operator_method(st, trait_name, op, 2) {
        Err(e) => {},
        Ok(o) => {
            keeps_operator_types(st, o);
            let t = operator_types(st, o);
            keeps_equate(t.st, l_ty, t.params[0]);
        },
    }
}

pub proof fn keeps_operator_end(
    st: InferV,
    env: EnvV,
    def: TraitDefV,
    args: Seq<TyV>,
    right: TyV,
    ret: TyV,
    trait_name: Seq<char>,
    op: Seq<char>,
    l_ty: TyV,
    r_ty: TyV,
    before: OpV,
)
    ensures
        grows(st.subst.map, operator_end(
            st,
            env,
            def,
            args,
            right,
            ret,
            trait_name,
            op,
            l_ty,
            r_ty,
            before,
        ).st.subst.map),
{
    reveal(operator_end);
    keeps_equate(st, r_ty, right);
    let u = equate(st, r_ty, right);
    match u.1 {
        Some(e) => {},
        None => {
            if def.params.len() == 1 {
                keeps_choose_dict(u.0, env, trait_name, resolved(u.0, args[0]));
            } else {
                keeps_multi_operator(u.0, env, def, trait_name, op, args, l_ty, right, ret,);
            }
        },
    }
}

} // verus!
