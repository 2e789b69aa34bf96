//! That nothing solved is lost.

use vstd::prelude::*;

use crate::schemes::{fresh_names, instance};
use crate::solutions::{grows, lemma_grows_reflexive, lemma_grows_transitive};
use crate::state::{fresh, next_var, InferV};
use crate::ty::{SchemeV, TyVar};

verus! {

broadcast use {lemma_grows_reflexive, lemma_grows_transitive};

pub proof fn keeps_fresh_names(st: InferV, vars: Seq<TyVar>, i: nat, m: Map<TyVar, TyVar>)
    ensures
        grows(st.subst.map, fresh_names(st, vars, i, m).0.subst.map),
    decreases vars.len() - i,
{
    if i >= vars.len() {
    } else {
        keeps_fresh_names(fresh(st), vars, i + 1, m.insert(vars[i as int], next_var(st)));
    }
}

pub proof fn keeps_instance(st: InferV, s: SchemeV)
    ensures
        grows(st.subst.map, instance(st, s).0.subst.map),
{
    reveal(instance);
    keeps_fresh_names(st, s.vars, 0, Map::empty());
}

} // verus!
