//! That nothing solved is lost.

use vstd::prelude::*;

use crate::associated::all_filled;
use crate::ast::SourceSpan;
use crate::ast_view::{ExprV, ImplDefV, ImplMethodV, InherentImplDefV, InherentMethodV};
use crate::ast_view::{TraitDefV, TypeBoundV, TypeV};
use crate::convert::VarNames;
use crate::definitions::child_level;
use crate::dispatch::{method_named, types_of};
use crate::env::EnvV;
use crate::error::SpannedV;
use crate::impl_parts::{impl_after, impl_finish, impl_start, inherent_after, method_after};
use crate::impl_parts::{method_head, own_after, own_head, takes_receiver, with_method_bodies};
use crate::items::impl_head_error;
use crate::keeps_definitions::{keeps_end_def, keeps_impl_head, keeps_inherent_head};
use crate::keeps_steps::keeps_all_written;
use crate::keeps_ty_helpers::keeps_declared_bounds;
use crate::rows::FieldV;
use crate::scopes::at_level;
use crate::solutions::{grows, lemma_grows_reflexive, lemma_grows_transitive};
use crate::state::InferV;
use crate::steps::{all_written, Run};
use crate::subst::TypeLevel;
use crate::ty::{ConstraintV, TyV};

verus! {

broadcast use {lemma_grows_reflexive, lemma_grows_transitive};

pub proof fn keeps_method_head(
    st: InferV,
    env: EnvV,
    m: ImplMethodV,
    def: TraitDefV,
    args: Seq<TypeV>,
    vars: VarNames,
)
    ensures
        grows(st.subst.map, method_head(st, env, m, def, args, vars).st.subst.map),
{
    reveal(method_head);
    match method_named(def.methods, m.name, 0) {
        None => {},
        Some(tm) => {
            if m.params.len() != tm.params.len() {
            } else {
                keeps_impl_head(st, env, vars, all_filled(types_of(tm.params), def.params, args), all_filled(seq![tm.ret_type], def.params, args)[0], m.params, m.ret_type, m.span, m.body.span,);
            }
        },
    }
}

pub proof fn keeps_method_after(r: Run<ExprV, ()>, span: SourceSpan, fn_ty: TyV)
    ensures
        grows(r.st.subst.map, method_after(r, span, fn_ty).st.subst.map),
{
    reveal(method_after);
}

pub proof fn keeps_impl_start(st: InferV, id: ImplDefV)
    ensures
        grows(st.subst.map, impl_start(st, id).st.subst.map),
{
    reveal(impl_start);
    match impl_head_error(st, id) {
        Some(e) => {},
        None => {
            keeps_all_written(at_level(st, child_level(st.level)), Map::empty(), id.trait_args);
            let w = all_written(at_level(st, child_level(st.level)), Map::empty(), id.trait_args);
            keeps_declared_bounds(w.st, w.vars, id.type_bounds);
        },
    }
}

pub proof fn keeps_impl_after(
    st: InferV,
    env: EnvV,
    id: ImplDefV,
    res: Result<Seq<FieldV>, SpannedV>,
    def: TraitDefV,
    ambient: TypeLevel,
    saved: Seq<ConstraintV>,
)
    ensures
        grows(st.subst.map, impl_after(st, env, id, res, def, ambient, saved).st.subst.map),
{
    reveal(impl_after);
}

pub proof fn keeps_impl_finish(
    r: Run<Seq<ExprV>, Seq<FieldV>>,
    env: EnvV,
    id: ImplDefV,
    def: TraitDefV,
    ambient: TypeLevel,
    saved: Seq<ConstraintV>,
)
    ensures
        grows(r.st.subst.map, impl_finish(r, env, id, def, ambient, saved).st.subst.map),
{
    reveal(impl_finish);
    keeps_impl_after(r.st, env, with_method_bodies(id, r.node, def), r.res, def, ambient, saved);
}

pub proof fn keeps_own_head(
    st: InferV,
    env: EnvV,
    m: InherentMethodV,
    target: TypeV,
    bounds: Seq<TypeBoundV>,
    key: Seq<char>,
)
    ensures
        grows(st.subst.map, own_head(st, env, m, target, bounds, key).st.subst.map),
{
    reveal(own_head);
    if st.methods.dom().contains(key) && st.methods[key].dom().contains(m.name) {
    } else {
        keeps_inherent_head(at_level(st, child_level(st.level)), env, target, bounds, m.params, m.ret_type, m.type_bounds, m.body.span, takes_receiver(m),);
    }
}

pub proof fn keeps_own_after(
    st: InferV,
    env: EnvV,
    m: InherentMethodV,
    res: Result<Seq<ConstraintV>, SpannedV>,
    fn_ty: TyV,
    ambient: TypeLevel,
    key: Seq<char>,
)
    ensures
        grows(st.subst.map, own_after(st, env, m, res, fn_ty, ambient, key).st.subst.map),
{
    reveal(own_after);
    let st1 = at_level(st, ambient);
    match res {
        Err(e) => {},
        Ok(left) => {
            keeps_end_def(st1, env, fn_ty, left, ambient, m.body, None, true);
        },
    }
}

pub proof fn keeps_inherent_after(
    st: InferV,
    env: EnvV,
    id: InherentImplDefV,
    methods: Seq<InherentMethodV>,
    res: Result<Seq<FieldV>, SpannedV>,
    ambient: TypeLevel,
    key: Seq<char>,
)
    ensures
        grows(st.subst.map, inherent_after(st, env, id, methods, res, ambient, key).st.subst.map),
{
    reveal(inherent_after);
}

} // verus!
