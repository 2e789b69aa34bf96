//! That nothing solved is lost.

use vstd::prelude::*;

use crate::ast_view::{NamedTypeV, TypeParamV, TypeV};
use crate::convert::{applied_args, applied_name, expand, fill_all, stack_index, to_app};
use crate::convert::{to_applied, to_fields, to_params, to_ty, to_tys, written_param, VarNames};
use crate::rows::FieldV;
use crate::solutions::{grows, lemma_grows_reflexive, lemma_grows_transitive};
use crate::state::InferV;
use crate::ty::{ParamV, TyV};

verus! {

broadcast use {lemma_grows_reflexive, lemma_grows_transitive};

pub proof fn keeps_expand(
    st: InferV,
    vars: VarNames,
    name: Seq<char>,
    ty: TypeV,
    stack: Seq<Seq<char>>,
    left: nat,
)
    ensures
        grows(st.subst.map, expand(st, vars, name, ty, stack, left).st.subst.map),
    decreases left, 0nat, ty, 0nat,
{
    match stack_index(stack, name, 0) {
        Some(start) => {},
        None => {
            if left == 0 {
            } else {
                keeps_to_ty(st, vars, ty, stack.push(name), (left - 1) as nat);
            }
        },
    }
}

pub proof fn keeps_to_ty(
    st: InferV,
    vars: VarNames,
    ty: TypeV,
    stack: Seq<Seq<char>>,
    left: nat,
)
    ensures
        grows(st.subst.map, to_ty(st, vars, ty, stack, left).st.subst.map),
    decreases left, 1nat, ty, 2nat,
{
    match ty {
        TypeV::Ident(name) => {
            if st.aliases.dom().contains(name) {
                let alias = st.aliases[name];
                if alias.params.len() != 0 {
                } else {
                    keeps_expand(st, vars, name, alias.ty, stack, left);
                }
            }
        },
        TypeV::Never => {},
        TypeV::Var(name) => {},
        TypeV::Func(params, ret) => {
            keeps_to_params(st, vars, params, 0, Seq::empty(), stack, left);
            let ps = to_params(st, vars, params, 0, Seq::empty(), stack, left);
            match ps.res {
                Err(e) => {},
                Ok(params) => {
                    keeps_to_ty(ps.st, ps.vars, *ret.ty, stack, left);
                },
            }
        },
        TypeV::App(_, _) => {
            keeps_to_app(st, vars, ty, stack, left);
        },
        TypeV::Tuple(items) => {
            keeps_to_tys(st, vars, items, 0, Seq::empty(), stack, left);
        },
        TypeV::Record(fields, open) => {
            keeps_to_fields(st, vars, fields, 0, Seq::empty(), stack, left);
        },
        TypeV::Unit => {},
        TypeV::Hole => {},
    }
}

pub proof fn keeps_to_app(
    st: InferV,
    vars: VarNames,
    ty: TypeV,
    stack: Seq<Seq<char>>,
    left: nat,
)
    ensures
        grows(st.subst.map, to_app(st, vars, ty, stack, left).st.subst.map),
    decreases left, 1nat, ty, 1nat,
{
    let args = applied_args(ty);
    match applied_name(ty) {
        Some(name) => {
            if st.aliases.dom().contains(name) {
                let alias = st.aliases[name];
                if alias.params.len() != args.len() {
                } else {
                    keeps_expand(st, vars, name, fill_all(alias.ty, alias.params, args, 0), stack, left,);
                }
            } else {
                if st.arities.dom().contains(name) && st.arities[name] != args.len() {
                } else {
                    keeps_to_applied(st, vars, ty, stack, left);
                }
            }
        },
        None => {
            keeps_to_applied(st, vars, ty, stack, left);
        },
    }
}

pub proof fn keeps_to_applied(
    st: InferV,
    vars: VarNames,
    ty: TypeV,
    stack: Seq<Seq<char>>,
    left: nat,
)
    ensures
        grows(st.subst.map, to_applied(st, vars, ty, stack, left).st.subst.map),
    decreases left, 1nat, ty, 0nat,
{
    match ty {
        TypeV::App(con, args) => {
            keeps_to_ty(st, vars, *con, stack, left);
            let c = to_ty(st, vars, *con, stack, left);
            match c.res {
                Err(e) => {},
                Ok(con) => {
                    keeps_to_tys(c.st, c.vars, args, 0, Seq::empty(), stack, left);
                },
            }
        },
        _ => {},
    }
}

pub proof fn keeps_to_tys(
    st: InferV,
    vars: VarNames,
    s: Seq<TypeV>,
    i: nat,
    done: Seq<TyV>,
    stack: Seq<Seq<char>>,
    left: nat,
)
    ensures
        grows(st.subst.map, to_tys(st, vars, s, i, done, stack, left).st.subst.map),
    decreases left, 1nat, s, s.len() - i,
{
    if i >= s.len() {
    } else {
        keeps_to_ty(st, vars, s[i as int], stack, left);
        let x = to_ty(st, vars, s[i as int], stack, left);
        match x.res {
            Err(e) => {},
            Ok(t) => {
                keeps_to_tys(x.st, x.vars, s, i + 1, done.push(t), stack, left);
            },
        }
    }
}

pub proof fn keeps_to_params(
    st: InferV,
    vars: VarNames,
    s: Seq<TypeParamV>,
    i: nat,
    done: Seq<ParamV>,
    stack: Seq<Seq<char>>,
    left: nat,
)
    ensures
        grows(st.subst.map, to_params(st, vars, s, i, done, stack, left).st.subst.map),
    decreases left, 1nat, s, s.len() - i,
{
    if i >= s.len() {
    } else {
        keeps_to_ty(st, vars, s[i as int].ty, stack, left);
        let x = to_ty(st, vars, s[i as int].ty, stack, left);
        match x.res {
            Err(e) => {},
            Ok(t) => {
                keeps_to_params(x.st, x.vars, s, i + 1, done.push(written_param(t, s[i as int].mut_place)), stack, left);
            },
        }
    }
}

pub proof fn keeps_to_fields(
    st: InferV,
    vars: VarNames,
    s: Seq<NamedTypeV>,
    i: nat,
    done: Seq<FieldV>,
    stack: Seq<Seq<char>>,
    left: nat,
)
    ensures
        grows(st.subst.map, to_fields(st, vars, s, i, done, stack, left).st.subst.map),
    decreases left, 1nat, s, s.len() - i,
{
    if i >= s.len() {
    } else {
        keeps_to_ty(st, vars, s[i as int].ty, stack, left);
        let x = to_ty(st, vars, s[i as int].ty, stack, left);
        match x.res {
            Err(e) => {},
            Ok(t) => {
                keeps_to_fields(x.st, x.vars, s, i + 1, done.push((s[i as int].name, t)), stack, left);
            },
        }
    }
}

} // verus!
