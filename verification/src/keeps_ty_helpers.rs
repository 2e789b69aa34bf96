//! That nothing solved is lost.

use vstd::prelude::*;

use crate::ast_view::TypeBoundV;
use crate::convert::VarNames;
use crate::keeps_steps::{keeps_all_written, keeps_equate};
use crate::solutions::{grows, lemma_grows_reflexive, lemma_grows_transitive};
use crate::state::{fresh, next_var, InferV};
use crate::steps::{all_written, resolved};
use crate::ty::{ConstraintV, TyV};
use crate::ty_helpers::{bound_constraint, bound_constraints, combine, declared_bounds};
use crate::ty_helpers::{fresh_named, fresh_params, merge_tail, trait_constraints};

verus! {

broadcast use {lemma_grows_reflexive, lemma_grows_transitive};

pub proof fn keeps_merge_tail(st: InferV, existing: TyV, next: TyV)
    ensures
        grows(st.subst.map, merge_tail(st, existing, next).0.subst.map),
{
    let a = resolved(st, existing);
    let b = resolved(st, next);
    if a == TyV::Unit {
    } else {
        if b == TyV::Unit {
        } else {
            if a is Var && a == b {
            } else {
                keeps_equate(st, a, b);
            }
        }
    }
}

pub proof fn keeps_combine(st: InferV, left: TyV, right: TyV)
    ensures
        grows(st.subst.map, combine(st, left, right).0.subst.map),
{
    let a = resolved(st, left);
    let b = resolved(st, right);
    if a == TyV::Never {
    } else {
        if b == TyV::Never {
        } else {
            keeps_equate(st, a, b);
        }
    }
}

pub proof fn keeps_trait_constraints(
    st: InferV,
    bound: TypeBoundV,
    args: Seq<TyV>,
    j: nat,
    done: Seq<ConstraintV>,
)
    ensures
        grows(st.subst.map, trait_constraints(st, bound, args, j, done).0.subst.map),
    decreases bound.traits.len() - j,
{
    if j >= bound.traits.len() {
    } else {
        let c = bound_constraint(st, bound.fundep_arrow_index, args, bound.traits[j as int]);
        match c.1 {
            Err(e) => {},
            Ok(x) => {
                keeps_trait_constraints(c.0, bound, args, j + 1, done.push(x));
            },
        }
    }
}

pub proof fn keeps_bound_constraints(
    st: InferV,
    vars: VarNames,
    bounds: Seq<TypeBoundV>,
    i: nat,
    done: Seq<ConstraintV>,
)
    ensures
        grows(st.subst.map, bound_constraints(st, vars, bounds, i, done).st.subst.map),
    decreases bounds.len() - i,
{
    if i >= bounds.len() {
    } else {
        keeps_all_written(st, vars, bounds[i as int].args);
        let a = all_written(st, vars, bounds[i as int].args);
        match a.res {
            Err(e) => {},
            Ok(args) => {
                keeps_trait_constraints(a.st, bounds[i as int], args, 0, done);
                let c = trait_constraints(a.st, bounds[i as int], args, 0, done);
                match c.1 {
                    Err(e) => {},
                    Ok(cs) => {
                        keeps_bound_constraints(c.0, a.vars, bounds, i + 1, cs);
                    },
                }
            },
        }
    }
}

pub proof fn keeps_declared_bounds(st: InferV, vars: VarNames, bounds: Seq<TypeBoundV>)
    ensures
        grows(st.subst.map, declared_bounds(st, vars, bounds).st.subst.map),
{
    reveal(declared_bounds);
    keeps_bound_constraints(st, vars, bounds, 0, Seq::empty());
}

pub proof fn keeps_fresh_params(
    st: InferV,
    names: Seq<Seq<char>>,
    i: nat,
    vars: VarNames,
    tys: Seq<TyV>,
)
    ensures
        grows(st.subst.map, fresh_params(st, names, i, vars, tys).st.subst.map),
    decreases names.len() - i,
{
    if i >= names.len() {
    } else {
        keeps_fresh_params(fresh(st), names, i + 1, vars.insert(names[i as int], next_var(st)), tys.push(TyV::Var(next_var(st))),);
    }
}

pub proof fn keeps_fresh_named(st: InferV, names: Seq<Seq<char>>, vars: VarNames)
    ensures
        grows(st.subst.map, fresh_named(st, names, vars).st.subst.map),
{
    reveal(fresh_named);
    keeps_fresh_params(st, names, 0, vars, Seq::empty());
}

} // verus!
