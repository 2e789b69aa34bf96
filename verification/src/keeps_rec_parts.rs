//! That nothing solved is lost.

use vstd::prelude::*;

use crate::ast_view::{ExprV, FnDefV, StmtV};
use crate::definitions::{child_level, noted_scheme, rec_head, RecInfoV};
use crate::env::EnvV;
use crate::items::{group_error, shared_constraints};
use crate::keeps_definitions::keeps_rec_head;
use crate::keeps_places::keeps_bind_params;
use crate::places::SourceV;
use crate::rec_parts::{def_bodies, def_done, defs_of, group_end, group_ends, group_finish};
use crate::rec_parts::{group_head, group_heads, group_passed_on, rec_after, rec_start};
use crate::rec_parts::{stmts_of, with_def_bodies};
use crate::schemes::{finalized_at, FinalizedV};
use crate::scopes::{at_level, pending_on};
use crate::solutions::{grows, lemma_grows_reflexive, lemma_grows_transitive};
use crate::state::InferV;
use crate::steps::{settled, Run};
use crate::subst::TypeLevel;
use crate::ty::{immutable_info, mono_scheme, ConstraintV};

verus! {

broadcast use {lemma_grows_reflexive, lemma_grows_transitive};

pub proof fn keeps_group_heads(
    st: InferV,
    env: EnvV,
    defs: Seq<FnDefV>,
    i: nat,
    infos: Seq<RecInfoV>,
)
    ensures
        grows(st.subst.map, group_heads(st, env, defs, i, infos).st.subst.map),
    decreases defs.len() - i,
{
    if i >= defs.len() {
    } else {
        let def = defs[i as int];
        keeps_rec_head(st, def.name, def.params, def.ret_type, def.type_bounds);
        let h = rec_head(st, def.name, def.params, def.ret_type, def.type_bounds);
        match h.1 {
            Err(e) => {},
            Ok(info) => {
                keeps_group_heads(h.0, env.insert(def.name, immutable_info(mono_scheme(info.fn_ty))), defs, i + 1, infos.push(info),);
            },
        }
    }
}

pub proof fn keeps_rec_start(st: InferV, env: EnvV, stmts: Seq<StmtV>)
    ensures
        grows(st.subst.map, rec_start(st, env, stmts).st.subst.map),
{
    reveal(rec_start);
    match group_error(stmts, 0, Set::empty()) {
        Some(e) => {},
        None => {
            keeps_group_heads(at_level(st, child_level(st.level)), env, defs_of(stmts), 0, Seq::empty(),);
        },
    }
}

pub proof fn keeps_group_head(st: InferV, env: EnvV, def: FnDefV, info: RecInfoV)
    ensures
        grows(st.subst.map, group_head(st, env, def, info).st.subst.map),
{
    reveal(group_head);
    keeps_bind_params(st, env, Map::empty(), SourceV::Given(info.param_tys), def.params, def.body.span,);
}

pub proof fn keeps_group_ends(
    st: InferV,
    infos: Seq<RecInfoV>,
    lists: Seq<Seq<ConstraintV>>,
    ambient: TypeLevel,
    i: nat,
    ends: Seq<FinalizedV>,
)
    ensures
        grows(st.subst.map, group_ends(st, infos, lists, ambient, i, ends).st.subst.map),
    decreases infos.len() - i,
{
    if i >= infos.len() {
    } else {
        let f = finalized_at(st, infos[i as int].fn_ty, lists[i as int], ambient);
        keeps_group_ends(pending_on(st, st.pending + f.bubbled), infos, lists, ambient, i + 1, ends.push(f),);
    }
}

pub proof fn keeps_group_finish(
    st: InferV,
    env: EnvV,
    defs: Seq<FnDefV>,
    ends: Seq<FinalizedV>,
    i: nat,
)
    ensures
        grows(st.subst.map, group_finish(st, env, defs, ends, i).st.subst.map),
    decreases defs.len() - i,
{
    if i >= defs.len() {
    } else {
        let end = ends[i as int];
        let def = defs[i as int];
        let s = settled(def.body, st, env, end.owned, true);
        let now = defs.update(i as int, def_done(def, s.0, end.owned));
        match s.1 {
            Some(e) => {},
            None => {
                keeps_group_finish(noted_scheme(st, def.name_span, end.scheme), env.insert(def.name, immutable_info(end.scheme)), now, ends, i + 1,);
            },
        }
    }
}

pub proof fn keeps_group_end(
    st: InferV,
    env: EnvV,
    defs: Seq<FnDefV>,
    infos: Seq<RecInfoV>,
    lists: Seq<Seq<ConstraintV>>,
    ambient: TypeLevel,
)
    ensures
        grows(st.subst.map, group_end(st, env, defs, infos, lists, ambient).st.subst.map),
{
    reveal(group_end);
    keeps_group_ends(st, infos, lists, ambient, 0, Seq::empty());
    let g = group_ends(st, infos, lists, ambient, 0, Seq::empty());
    keeps_group_finish(g.st, env, with_def_bodies(defs, group_passed_on(def_bodies(defs), infos, g.ends, 0)), g.ends, 0,);
}

pub proof fn keeps_rec_after(
    r: Run<Seq<ExprV>, Seq<Seq<ConstraintV>>>,
    env: EnvV,
    stmts: Seq<StmtV>,
    infos: Seq<RecInfoV>,
    ambient: TypeLevel,
)
    ensures
        grows(r.st.subst.map, rec_after(r, env, stmts, infos, ambient).st.subst.map),
{
    reveal(rec_after);
    let st = at_level(r.st, ambient);
    let defs = with_def_bodies(defs_of(stmts), r.node);
    match r.res {
        Err(e) => {},
        Ok(lists) => {
            keeps_group_end(st, env, defs, infos, shared_constraints(stmts_of(defs), infos, lists), ambient,);
        },
    }
}

} // verus!
