//! That nothing solved is lost.

use vstd::prelude::*;

use crate::ast::NodeId;
use crate::ast_view::{ExprV, PendingMethodV, ResolvedCalleeV, TraitDefV, TraitMethodV};
use crate::call_parts::{arg_after, args_after, array_after, probed, receiver_noted};
use crate::call_parts::{trait_finish, trial_after, ArgsV, Trial};
use crate::env::EnvV;
use crate::keeps_dispatch::keeps_trait_call;
use crate::keeps_ends::keeps_arg_end;
use crate::keeps_receiver::{keeps_fits_receiver, keeps_receiver_use};
use crate::keeps_steps::keeps_equate;
use crate::receiver::{forget, CandidateV};
use crate::solutions::{grows, lemma_grows_reflexive, lemma_grows_transitive};
use crate::state::InferV;
use crate::steps::Run;
use crate::ty::{ParamV, TyV};

verus! {

broadcast use {lemma_grows_reflexive, lemma_grows_transitive};

pub proof fn keeps_arg_after(r: Run<ExprV, TyV>, env: EnvV)
    ensures
        grows(r.st.subst.map, arg_after(r, env).st.subst.map),
{
    reveal(arg_after);
    match r.res {
        Err(e) => {},
        Ok(ty) => {
            keeps_arg_end(r.st, env, r.node, ty);
        },
    }
}

pub proof fn keeps_args_after(
    r: Run<ArgsV, Seq<TyV>>,
    env: EnvV,
    params: Seq<ParamV>,
    offset: nat,
)
    ensures
        grows(r.st.subst.map, args_after(r, env, params, offset).st.subst.map),
{
    reveal(args_after);
}

pub proof fn keeps_trait_finish(
    st: InferV,
    env: EnvV,
    def: TraitDefV,
    method: TraitMethodV,
    tys: Seq<TyV>,
    resolved: Option<ResolvedCalleeV>,
    pending: Option<PendingMethodV>,
)
    ensures
        grows(st.subst.map, trait_finish(st, env, def, method, tys, resolved, pending).st.subst.map),
{
    reveal(trait_finish);
    keeps_trait_call(st, env, def, method, tys, "trait method call"@);
}

pub proof fn keeps_receiver_noted(st: InferV, receiver: ExprV, method: Seq<char>, id: NodeId)
    ensures
        grows(st.subst.map, receiver_noted(st, receiver, method, id).subst.map),
{
    reveal(receiver_noted);
}

pub proof fn keeps_trial_after(
    r: Run<ArgsV, Seq<TyV>>,
    env: EnvV,
    receiver_ty: TyV,
    c: CandidateV,
)
    ensures
        grows(r.st.subst.map, trial_after(r, env, receiver_ty, c).st.subst.map),
{
    reveal(trial_after);
    match r.res {
        Err(_) => {},
        Ok(tys) => {
            keeps_receiver_use(r.st, env, receiver_ty, tys, c);
        },
    }
}

pub proof fn keeps_probed(
    before: InferV,
    t: Trial,
    env: EnvV,
    receiver_ty: TyV,
    c: CandidateV,
    found: Seq<CandidateV>,
    fits: Seq<CandidateV>,
)
    ensures
        grows(before.subst.map, probed(before, t, env, receiver_ty, c, found, fits).st.subst.map),
{
    reveal(probed);
    let st = forget(t.st, before);
    if t.fits {
    } else {
        keeps_fits_receiver(st, env, receiver_ty, c);
    }
}

pub proof fn keeps_array_after<N>(r: Run<N, TyV>, expected: TyV)
    ensures
        grows(r.st.subst.map, array_after(r, expected).st.subst.map),
{
    reveal(array_after);
    match r.res {
        Err(_) => {},
        Ok(ty) => {
            keeps_equate(r.st, ty, expected);
        },
    }
}

} // verus!
