//! That nothing solved is lost.

use vstd::prelude::*;

use crate::ast::SourceSpan;
use crate::ast_view::{ExprV, ParamV, TypeBoundV, TypeReturnV, TypeV};
use crate::convert::VarNames;
use crate::definitions::{def_head, end_def, impl_head, inherent_head, lambda_head, rec_head};
use crate::definitions::{rec_param_types, return_type};
use crate::env::EnvV;
use crate::keeps_places::{keeps_bind_params, keeps_read_annotation, keeps_read_type};
use crate::keeps_places::keeps_with_annotation;
use crate::keeps_ty_helpers::keeps_declared_bounds;
use crate::places::{bind_params, read_annotation, read_type, SourceV};
use crate::solutions::{grows, lemma_grows_reflexive, lemma_grows_transitive};
use crate::state::InferV;
use crate::subst::TypeLevel;
use crate::ty::{ConstraintV, ReturnV, TyV};
use crate::ty_helpers::declared_bounds;

verus! {

broadcast use {lemma_grows_reflexive, lemma_grows_transitive};

pub proof fn keeps_def_head(
    st: InferV,
    env: EnvV,
    vars: VarNames,
    initial: Seq<ConstraintV>,
    source: SourceV,
    params: Seq<ParamV>,
    ret: Option<TypeReturnV>,
    bounds: Seq<TypeBoundV>,
    span: SourceSpan,
    self_name: Option<Seq<char>>,
)
    ensures
        grows(st.subst.map, def_head(
            st,
            env,
            vars,
            initial,
            source,
            params,
            ret,
            bounds,
            span,
            self_name,
        ).st.subst.map),
{
    reveal(def_head);
    keeps_declared_bounds(st, vars, bounds);
    let b = declared_bounds(st, vars, bounds);
    match b.res {
        Err(e) => {},
        Ok(cs) => {
            keeps_bind_params(b.st, env, b.vars, source, params, span);
            let p = bind_params(b.st, env, b.vars, source, params, span);
            match p.err {
                Some(e) => {},
                None => {
                    keeps_read_annotation(p.st, p.vars, return_type(ret));
                },
            }
        },
    }
}

pub proof fn keeps_inherent_head(
    st: InferV,
    env: EnvV,
    target: TypeV,
    bounds: Seq<TypeBoundV>,
    params: Seq<ParamV>,
    ret: Option<TypeReturnV>,
    own_bounds: Seq<TypeBoundV>,
    span: SourceSpan,
    has_receiver: bool,
)
    ensures
        grows(st.subst.map, inherent_head(
            st,
            env,
            target,
            bounds,
            params,
            ret,
            own_bounds,
            span,
            has_receiver,
        ).st.subst.map),
{
    reveal(inherent_head);
    keeps_read_type(st, Map::empty(), target);
    let t = read_type(st, Map::empty(), target);
    match t.res {
        Err(e) => {},
        Ok(ty) => {
            keeps_declared_bounds(t.st, t.vars, bounds);
            let b = declared_bounds(t.st, t.vars, bounds);
            match b.res {
                Err(e) => {},
                Ok(cs) => {
                    keeps_def_head(b.st, env, b.vars, cs, if has_receiver { SourceV::Receiver(ty) } else { SourceV::Own }, params, ret, own_bounds, span, None,);
                },
            }
        },
    }
}

pub proof fn keeps_lambda_head(
    st: InferV,
    env: EnvV,
    params: Seq<ParamV>,
    annotation: Option<TypeV>,
    span: SourceSpan,
    expected: Option<(Seq<crate::ty::ParamV>, ReturnV)>,
)
    ensures
        grows(st.subst.map, lambda_head(st, env, params, annotation, span, expected).st.subst.map),
{
    reveal(lambda_head);
    if expected is Some && expected->Some_0.0.len() != params.len() {
    } else {
        let source = match expected { Some(f) => SourceV::Expected(f.0), None => SourceV::Own, };
        keeps_bind_params(st, env, Map::empty(), source, params, span);
        let p = bind_params(st, env, Map::empty(), source, params, span);
        match p.err {
            Some(e) => {},
            None => {
                match expected {
                    Some(f) => {
                        keeps_with_annotation(p.st, p.vars, *f.1.ty, annotation, false, span);
                    },
                    None => {
                        keeps_read_annotation(p.st, p.vars, annotation);
                    },
                }
            },
        }
    }
}

pub proof fn keeps_impl_head(
    st: InferV,
    env: EnvV,
    vars: VarNames,
    derived: Seq<TypeV>,
    derived_ret: TypeV,
    params: Seq<ParamV>,
    ret: Option<TypeReturnV>,
    method_span: SourceSpan,
    span: SourceSpan,
)
    ensures
        grows(st.subst.map, impl_head(
            st,
            env,
            vars,
            derived,
            derived_ret,
            params,
            ret,
            method_span,
            span,
        ).st.subst.map),
{
    reveal(impl_head);
    keeps_bind_params(st, env, vars, SourceV::Derived(derived, method_span), params, span);
    let p = bind_params(st, env, vars, SourceV::Derived(derived, method_span), params, span);
    match p.err {
        Some(e) => {},
        None => {
            keeps_read_type(p.st, p.vars, derived_ret);
            let r = read_type(p.st, p.vars, derived_ret);
            match r.res {
                Err(e) => {},
                Ok(given) => {
                    keeps_with_annotation(r.st, r.vars, given, return_type(ret), true, span);
                },
            }
        },
    }
}

pub proof fn keeps_rec_param_types(
    st: InferV,
    vars: VarNames,
    params: Seq<ParamV>,
    i: nat,
    tys: Seq<TyV>,
)
    ensures
        grows(st.subst.map, rec_param_types(st, vars, params, i, tys).st.subst.map),
    decreases params.len() - i,
{
    if i >= params.len() {
    } else {
        keeps_read_annotation(st, vars, params[i as int].ty);
        let r = read_annotation(st, vars, params[i as int].ty);
        match r.res {
            Err(e) => {},
            Ok(t) => {
                keeps_rec_param_types(r.st, r.vars, params, i + 1, tys.push(t));
            },
        }
    }
}

pub proof fn keeps_rec_head(
    st: InferV,
    name: Seq<char>,
    params: Seq<ParamV>,
    ret: Option<TypeReturnV>,
    bounds: Seq<TypeBoundV>,
)
    ensures
        grows(st.subst.map, rec_head(st, name, params, ret, bounds).0.subst.map),
{
    reveal(rec_head);
    keeps_declared_bounds(st, Map::empty(), bounds);
    let b = declared_bounds(st, Map::empty(), bounds);
    match b.res {
        Err(e) => {},
        Ok(initial) => {
            keeps_rec_param_types(b.st, b.vars, params, 0, Seq::empty());
            let p = rec_param_types(b.st, b.vars, params, 0, Seq::empty());
            match p.res {
                Err(e) => {},
                Ok(tys) => {
                    keeps_read_annotation(p.st, p.vars, return_type(ret));
                },
            }
        },
    }
}

pub proof fn keeps_end_def(
    st: InferV,
    env: EnvV,
    fn_ty: TyV,
    constraints: Seq<ConstraintV>,
    ambient: TypeLevel,
    body: ExprV,
    self_name: Option<Seq<char>>,
    hard: bool,
)
    ensures
        grows(st.subst.map, end_def(st, env, fn_ty, constraints, ambient, body, self_name, hard).st.subst.map),
{
    reveal(end_def);
}

} // verus!
