//! That nothing solved is lost.

use vstd::prelude::*;

use crate::associated::{inherent_member, trait_member};
use crate::ast::{NodeId, SourceSpan};
use crate::ast_view::{AssociatedAccessResolutionV, DictRefV, ExprV, PendingDictArgV};
use crate::ast_view::{TraitDefV, TypeV};
use crate::dispatch::{apply_pending, types_of};
use crate::env::EnvV;
use crate::finish::{arity_of, associated_access, constrained_apply, finish_call, ident_use};
use crate::finish::{imported_use, index_use, inherent_value, lead_arg, merge_fields};
use crate::finish::{multi_operator, open_record, operator_types, params_of, spread_into};
use crate::finish::OperatorV;
use crate::keeps_associated::{keeps_inherent_use, keeps_trait_use};
use crate::keeps_dispatch::{keeps_apply_pending, keeps_method_types, keeps_multi_dispatch};
use crate::keeps_schemes::keeps_instance;
use crate::keeps_steps::{keeps_equate, keeps_give_dicts};
use crate::keeps_ty_helpers::{keeps_fresh_named, keeps_merge_tail};
use crate::places::place_errors;
use crate::rows::FieldV;
use crate::schemes::instance;
use crate::solutions::{grows, lemma_grows_reflexive, lemma_grows_transitive};
use crate::state::{fresh, next_var, InferV};
use crate::steps::{all_in, equate, resolved};
use crate::ty::{ConstraintV, ParamCapability, SchemeV, TyV};
use crate::ty_helpers::{call_type, fresh_named};
use crate::type_syntax::dict_indexes;

verus! {

broadcast use {lemma_grows_reflexive, lemma_grows_transitive};

pub proof fn keeps_finish_call(
    st: InferV,
    env: EnvV,
    call_args: Seq<ExprV>,
    tys: Seq<TyV>,
    callable: TyV,
    constraints: Seq<ConstraintV>,
    caps: Seq<ParamCapability>,
    span: Option<SourceSpan>,
    dict_span: Option<SourceSpan>,
    dicts: Seq<DictRefV>,
    pending: Seq<PendingDictArgV>,
)
    ensures
        grows(st.subst.map, finish_call(
            st,
            env,
            call_args,
            tys,
            callable,
            constraints,
            caps,
            span,
            dict_span,
            dicts,
            pending,
        ).st.subst.map),
{
    reveal(finish_call);
    let arity = arity_of(callable);
    if arity is Some && arity->Some_0 != tys.len() {
    } else {
        let places = if arity is Some { None } else { place_errors(st, env, call_args, caps, 0) };
        match places {
            Some(e) => {},
            None => {
                let ret = TyV::Var(next_var(st));
                let call_ty = call_type(callable, tys, ret);
                keeps_equate(fresh(st), callable, call_ty);
                let u = equate(fresh(st), callable, call_ty);
                match u.1 {
                    Some(e) => {},
                    None => {
                        keeps_give_dicts(u.0, env, dicts, pending, constraints);
                    },
                }
            },
        }
    }
}

pub proof fn keeps_constrained_apply(
    st: InferV,
    env: EnvV,
    scheme: SchemeV,
    tys: Seq<TyV>,
    dicts: Seq<DictRefV>,
    pending: Seq<PendingDictArgV>,
)
    ensures
        grows(st.subst.map, constrained_apply(st, env, scheme, tys, dicts, pending).st.subst.map),
{
    reveal(constrained_apply);
    keeps_instance(st, scheme);
    let inst = instance(st, scheme);
    keeps_finish_call(inst.0, env, Seq::empty(), tys, inst.1.ty, inst.1.constraints, Seq::empty(), None, None, dicts, pending,);
}

pub proof fn keeps_lead_arg(st: InferV, callable: TyV, lead: TyV, span: SourceSpan)
    ensures
        grows(st.subst.map, lead_arg(st, callable, lead, span).0.subst.map),
{
    reveal(lead_arg);
    if params_of(callable).len() > 0 {
        keeps_equate(st, lead, params_of(callable)[0].ty);
    }
}

pub proof fn keeps_ident_use(
    st: InferV,
    env: EnvV,
    name: Seq<char>,
    id: NodeId,
    span: SourceSpan,
)
    ensures
        grows(st.subst.map, ident_use(st, env, name, id, span).0.subst.map),
{
    reveal(ident_use);
    if !env.dom().contains(name) {
    } else {
        let info = env[name];
        keeps_instance(st, info.scheme);
    }
}

pub proof fn keeps_imported_use(st: InferV, id: NodeId, scheme: SchemeV)
    ensures
        grows(st.subst.map, imported_use(st, id, scheme).0.subst.map),
{
    reveal(imported_use);
    keeps_instance(st, scheme);
}

pub proof fn keeps_inherent_value(
    st: InferV,
    id: NodeId,
    target: TypeV,
    target_span: SourceSpan,
    info: crate::state::MethodInfoV,
    resolution: Option<AssociatedAccessResolutionV>,
    out: bool,
)
    ensures
        grows(st.subst.map, inherent_value(st, id, target, target_span, info, resolution, out).st.subst.map),
{
    keeps_inherent_use(st, target, target_span, info);
}

pub proof fn keeps_associated_access(
    st: InferV,
    env: EnvV,
    id: NodeId,
    target: TypeV,
    target_span: SourceSpan,
    member: Seq<char>,
    member_span: SourceSpan,
    resolution: Option<AssociatedAccessResolutionV>,
)
    ensures
        grows(st.subst.map, associated_access(
            st,
            env,
            id,
            target,
            target_span,
            member,
            member_span,
            resolution,
        ).st.subst.map),
{
    reveal(associated_access);
    match trait_member(st, target, member, member_span) {
        Ok(Some(lookup)) => {
            keeps_trait_use(st, env, lookup.def, lookup.method, lookup.explicit, target_span);
        },
        Err(e) => {
            if e.error is UnknownTraitMethod {
                match inherent_member(st, target, target_span, member, member_span) {
                    Ok(info) => {
                        keeps_inherent_value(st, id, target, target_span, info, resolution, true);
                    },
                    Err(_) => {},
                }
            }
        },
        Ok(None) => {
            match inherent_member(st, target, target_span, member, member_span) {
                Ok(info) => {
                    keeps_inherent_value(st, id, target, target_span, info, resolution, false);
                },
                Err(e) => {},
            }
        },
    }
}

pub proof fn keeps_spread_into(
    st: InferV,
    fields: Seq<FieldV>,
    tail: TyV,
    ty: TyV,
    span: SourceSpan,
)
    ensures
        grows(st.subst.map, spread_into(st, fields, tail, ty, span).st.subst.map),
{
    reveal(spread_into);
    keeps_equate(fresh(st), ty, open_record(TyV::Var(next_var(st))));
    let u = equate(fresh(st), ty, open_record(TyV::Var(next_var(st))));
    match u.1 {
        Some(e) => {},
        None => {
            let found = resolved(u.0, ty);
            match found {
                TyV::Record(row) => {
                    match merge_fields(fields, row.fields, 0) {
                        Err(e) => {},
                        Ok(fs) => {
                            keeps_merge_tail(u.0, tail, *row.tail);
                        },
                    }
                },
                _ => {},
            }
        },
    }
}

pub proof fn keeps_operator_types(st: InferV, op: OperatorV)
    ensures
        grows(st.subst.map, operator_types(st, op).st.subst.map),
{
    reveal(operator_types);
    if op.def.params.len() == 0 {
    } else {
        keeps_fresh_named(st, op.def.params, Map::empty());
        let f = fresh_named(st, op.def.params, Map::empty());
        keeps_method_types(f.st, f.vars, types_of(op.method.params), op.method.ret_type);
    }
}

pub proof fn keeps_multi_operator(
    st: InferV,
    env: EnvV,
    def: TraitDefV,
    trait_name: Seq<char>,
    op: Seq<char>,
    args: Seq<TyV>,
    left: TyV,
    right: TyV,
    ret: TyV,
)
    ensures
        grows(st.subst.map, multi_operator(st, env, def, trait_name, op, args, left, right, ret).0.subst.map),
{
    reveal(multi_operator);
    let indexes = dict_indexes(def);
    keeps_apply_pending(st, trait_name, all_in(st, args), indexes);
    let st1 = apply_pending(st, trait_name, all_in(st, args), indexes);
    let settled = all_in(st1, all_in(st, args));
    keeps_multi_dispatch(st1, env, trait_name, op, settled, indexes, seq![resolved(st1, left), resolved(st1, right)], ret,);
}

pub proof fn keeps_index_use(
    st: InferV,
    env: EnvV,
    def: TraitDefV,
    receiver: TyV,
    key: TyV,
)
    ensures
        grows(st.subst.map, index_use(st, env, def, receiver, key).0.subst.map),
{
    reveal(index_use);
    let output = TyV::Var(next_var(st));
    let st1 = fresh(st);
    keeps_multi_dispatch(st1, env, "Index"@, "index"@, all_in(st1, seq![receiver, key, output]), dict_indexes(def), seq![receiver, key], output,);
}

} // verus!
