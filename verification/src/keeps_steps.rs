//! That nothing solved is lost.

use vstd::prelude::*;

use crate::ast_view::{DictRefV, PendingDictArgV, TypeV};
use crate::convert::{MAX_ALIAS_DEPTH, VarNames};
use crate::dicts::AttachV;
use crate::env::EnvV;
use crate::keeps_convert::{keeps_to_ty, keeps_to_tys};
use crate::keeps_dicts::{keeps_attach, lemma_dict_unifying};
use crate::solutions::{grows, lemma_grows_reflexive, lemma_grows_transitive};
use crate::solutions::lemma_unify_grows;
use crate::state::{known_of, InferV};
use crate::steps::{all_written, equate, equate_result, find_dict, give_dicts, resolved};
use crate::steps::written;
use crate::ty::{ConstraintV, TyV};

verus! {

broadcast use {lemma_grows_reflexive, lemma_grows_transitive};

pub proof fn keeps_equate(st: InferV, a: TyV, b: TyV)
    ensures
        grows(st.subst.map, equate(st, a, b).0.subst.map),
{
    reveal(equate);
    lemma_unify_grows(st.subst, a, b);
}

pub proof fn keeps_equate_result(st: InferV, actual: TyV, expected: TyV)
    ensures
        grows(st.subst.map, equate_result(st, actual, expected).0.subst.map),
{
    reveal(equate_result);
    if resolved(st, actual) == TyV::Never {
    } else {
        keeps_equate(st, actual, expected);
    }
}

pub proof fn keeps_written(st: InferV, vars: VarNames, ty: TypeV)
    ensures
        grows(st.subst.map, written(st, vars, ty).st.subst.map),
{
    reveal(written);
    keeps_to_ty(st, vars, ty, Seq::empty(), MAX_ALIAS_DEPTH as nat);
}

pub proof fn keeps_all_written(st: InferV, vars: VarNames, tys: Seq<TypeV>)
    ensures
        grows(st.subst.map, all_written(st, vars, tys).st.subst.map),
{
    reveal(all_written);
    keeps_to_tys(st, vars, tys, 0, Seq::empty(), Seq::empty(), MAX_ALIAS_DEPTH as nat);
}

pub proof fn keeps_give_dicts(
    st: InferV,
    env: EnvV,
    dicts: Seq<DictRefV>,
    pending: Seq<PendingDictArgV>,
    cs: Seq<ConstraintV>,
)
    ensures
        grows(st.subst.map, give_dicts(st, env, dicts, pending, cs).st.subst.map),
{
    reveal(give_dicts);
    keeps_attach(AttachV { subst: st.subst, dicts, pending, constraints: st.pending, err: None }, known_of(st, env), cs, 0,);
}

pub proof fn keeps_find_dict(
    st: InferV,
    env: EnvV,
    trait_name: Seq<char>,
    args: Seq<TyV>,
    indexes: Seq<usize>,
)
    ensures
        grows(st.subst.map, find_dict(st, env, trait_name, args, indexes).0.subst.map),
{
    reveal(find_dict);
    lemma_dict_unifying(known_of(st, env), trait_name, args, indexes, st.subst);
}

} // verus!
