//! That nothing solved is lost.

use vstd::prelude::*;

use crate::ast::SourceSpan;
use crate::ast_view::{ParamV, TypeV};
use crate::convert::VarNames;
use crate::env::EnvV;
use crate::keeps_pattern_infer::keeps_bind_param;
use crate::keeps_steps::{keeps_equate, keeps_written};
use crate::pattern_infer::bind_param;
use crate::places::{bind_params, bind_params_from, param_error, param_type, read_annotation};
use crate::places::{read_type, with_annotation, SourceV};
use crate::solutions::{grows, lemma_grows_reflexive, lemma_grows_transitive};
use crate::state::InferV;
use crate::ty::TyV;

verus! {

broadcast use {lemma_grows_reflexive, lemma_grows_transitive};

pub proof fn keeps_read_type(st: InferV, vars: VarNames, ty: TypeV)
    ensures
        grows(st.subst.map, read_type(st, vars, ty).st.subst.map),
{
    keeps_written(st, vars, ty);
}

pub proof fn keeps_read_annotation(st: InferV, vars: VarNames, ty: Option<TypeV>)
    ensures
        grows(st.subst.map, read_annotation(st, vars, ty).st.subst.map),
{
    match ty {
        Some(t) => {
            keeps_read_type(st, vars, t);
        },
        None => {},
    }
}

pub proof fn keeps_with_annotation(
    st: InferV,
    vars: VarNames,
    given: TyV,
    ty: Option<TypeV>,
    after: bool,
    span: SourceSpan,
)
    ensures
        grows(st.subst.map, with_annotation(st, vars, given, ty, after, span).st.subst.map),
{
    match ty {
        None => {},
        Some(t) => {
            keeps_read_type(st, vars, t);
            let w = read_type(st, vars, t);
            match w.res {
                Err(e) => {},
                Ok(a) => {
                    if after {
                        keeps_equate(w.st, given, a);
                    } else {
                        keeps_equate(w.st, a, given);
                    }
                },
            }
        },
    }
}

pub proof fn keeps_param_type(
    st: InferV,
    vars: VarNames,
    source: SourceV,
    p: ParamV,
    i: nat,
    span: SourceSpan,
)
    ensures
        grows(st.subst.map, param_type(st, vars, source, p, i, span).st.subst.map),
{
    match source {
        SourceV::Own => {
            keeps_read_annotation(st, vars, p.ty);
        },
        SourceV::Expected(ps) => {
            if i < ps.len() {
                keeps_with_annotation(st, vars, ps[i as int].ty, p.ty, false, span);
            } else {
                keeps_read_annotation(st, vars, p.ty);
            }
        },
        SourceV::Receiver(t) => {
            if i == 0 {
                keeps_with_annotation(st, vars, t, p.ty, true, span);
            } else {
                keeps_read_annotation(st, vars, p.ty);
            }
        },
        SourceV::Derived(tys, _) => {
            if i < tys.len() {
                keeps_read_type(st, vars, tys[i as int]);
                let w = read_type(st, vars, tys[i as int]);
                match w.res {
                    Err(_) => {},
                    Ok(t) => {
                        keeps_with_annotation(w.st, w.vars, t, p.ty, true, span);
                    },
                }
            } else {
                keeps_read_annotation(st, vars, p.ty);
            }
        },
        SourceV::Given(tys) => {
            if i < tys.len() {
            } else {
                keeps_read_annotation(st, vars, p.ty);
            }
        },
    }
}

pub proof fn keeps_bind_params_from(
    st: InferV,
    env: EnvV,
    vars: VarNames,
    source: SourceV,
    params: Seq<ParamV>,
    i: nat,
    tys: Seq<TyV>,
    span: SourceSpan,
)
    ensures
        grows(st.subst.map, bind_params_from(st, env, vars, source, params, i, tys, span).st.subst.map),
    decreases params.len() - i,
{
    if i >= params.len() {
    } else {
        let p = params[i as int];
        match param_error(st, source, p, i, span) {
            Some(e) => {},
            None => {
                keeps_param_type(st, vars, source, p, i, span);
                let t = param_type(st, vars, source, p, i, span);
                match t.res {
                    Err(e) => {},
                    Ok(ty) => {
                        keeps_bind_param(t.st, env, p.pat, ty, p.mut_place);
                        let b = bind_param(t.st, env, p.pat, ty, p.mut_place);
                        match b.err {
                            Some(e) => {},
                            None => {
                                keeps_bind_params_from(b.st, b.env, t.vars, source, params, i + 1, tys.push(ty), span,);
                            },
                        }
                    },
                }
            },
        }
    }
}

pub proof fn keeps_bind_params(
    st: InferV,
    env: EnvV,
    vars: VarNames,
    source: SourceV,
    params: Seq<ParamV>,
    span: SourceSpan,
)
    ensures
        grows(st.subst.map, bind_params(st, env, vars, source, params, span).st.subst.map),
{
    reveal(bind_params);
    keeps_bind_params_from(st, env, vars, source, params, 0, Seq::empty(), span);
}

} // verus!
