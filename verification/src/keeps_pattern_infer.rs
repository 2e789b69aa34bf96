//! That nothing solved is lost.

use vstd::prelude::*;

use crate::ast_view::{NumberLiteralV, PatternFieldV, PatternV, SyntaxCaptureV};
use crate::env::EnvV;
use crate::keeps_steps::{keeps_equate, keeps_written};
use crate::keeps_ty_helpers::keeps_fresh_named;
use crate::pattern_infer::{bind_captures, bind_fields, bind_name, bind_param, capture_ty};
use crate::pattern_infer::{check, check_list, check_tuple, expect, fresh_fields, fresh_tys};
use crate::pattern_infer::{match_pattern, nominal_ty, with_capture};
use crate::rows::{sort_fields, FieldV};
use crate::solutions::{grows, lemma_grows_reflexive, lemma_grows_transitive};
use crate::state::{fresh, next_var, InferV};
use crate::steps::{resolved, written};
use crate::ty::{RowV, TyV};
use crate::ty_helpers::{array_of, fresh_named};
use crate::type_syntax::first_field;

verus! {

broadcast use {lemma_grows_reflexive, lemma_grows_transitive};

pub proof fn keeps_expect(st: InferV, env: EnvV, scrutinee: TyV, ty: TyV)
    ensures
        grows(st.subst.map, expect(st, env, scrutinee, ty).st.subst.map),
{
    keeps_equate(st, scrutinee, ty);
}

pub proof fn keeps_fresh_fields(
    st: InferV,
    fields: Seq<PatternFieldV>,
    i: nat,
    done: Seq<FieldV>,
)
    ensures
        grows(st.subst.map, fresh_fields(st, fields, i, done).0.subst.map),
    decreases fields.len() - i,
{
    if i >= fields.len() {
    } else {
        keeps_fresh_fields(fresh(st), fields, i + 1, done.push((fields[i as int].field, TyV::Var(next_var(st)))),);
    }
}

pub proof fn keeps_bind_fields(
    st: InferV,
    env: EnvV,
    fields: Seq<PatternFieldV>,
    i: nat,
    tys: Seq<FieldV>,
    mutable: bool,
)
    ensures
        grows(st.subst.map, bind_fields(st, env, fields, i, tys, mutable).st.subst.map),
    decreases fields.len() - i,
{
    if i >= fields.len() {
    } else {
        let f = fields[i as int];
        if f.binding == "_"@ {
            keeps_bind_fields(st, env, fields, i + 1, tys, mutable);
        } else {
            match first_field(tys, f.field) {
                Some(ty) => {
                    let b = bind_name(st, env, f.binding, f.span, resolved(st, ty), mutable);
                    keeps_bind_fields(b.st, b.env, fields, i + 1, tys, mutable);
                },
                None => {
                    keeps_bind_fields(st, env, fields, i + 1, tys, mutable);
                },
            }
        }
    }
}

pub proof fn keeps_bind_captures(
    st: InferV,
    env: EnvV,
    captures: Seq<SyntaxCaptureV>,
    i: nat,
    mutable: bool,
)
    ensures
        grows(st.subst.map, bind_captures(st, env, captures, i, mutable).st.subst.map),
    decreases captures.len() - i,
{
    if i >= captures.len() {
    } else {
        let c = captures[i as int];
        let b = bind_name(st, env, c.name, c.span, capture_ty(c.repeat), mutable);
        keeps_bind_captures(with_capture(b.st, c), b.env, captures, i + 1, mutable);
    }
}

pub proof fn keeps_fresh_tys(st: InferV, n: nat, done: Seq<TyV>)
    ensures
        grows(st.subst.map, fresh_tys(st, n, done).0.subst.map),
    decreases n,
{
    if n == 0 {
    } else {
        keeps_fresh_tys(fresh(st), (n - 1) as nat, done.push(TyV::Var(next_var(st))));
    }
}

pub proof fn keeps_check(st: InferV, env: EnvV, p: PatternV, ty: TyV, mutable: bool)
    ensures
        grows(st.subst.map, check(st, env, p, ty, mutable).st.subst.map),
    decreases p, 0nat,
{
    match p {
        PatternV::Wildcard => {},
        PatternV::StringLit(_) => {
            keeps_expect(st, env, ty, TyV::Con("string"@));
        },
        PatternV::NumberLit(NumberLiteralV::Int(_)) => {
            keeps_expect(st, env, ty, TyV::Int);
        },
        PatternV::IntRange { .. } => {
            keeps_expect(st, env, ty, TyV::Int);
        },
        PatternV::NumberLit(NumberLiteralV::Float(_)) => {
            keeps_expect(st, env, ty, TyV::Float);
        },
        PatternV::BoolLit(_) => {
            keeps_expect(st, env, ty, TyV::Con("bool"@));
        },
        PatternV::SyntaxQuote(captures) => {
            keeps_expect(st, env, ty, TyV::Con("Syntax"@));
            let u = expect(st, env, ty, TyV::Con("Syntax"@));
            if u.err is Some {
            } else {
                keeps_bind_captures(u.st, env, captures, 0, mutable);
            }
        },
        PatternV::Variable(name, span) => {},
        PatternV::Constructor { name, binding } => {
            if !st.variants.dom().contains(name) {
            } else {
                let info = st.variants[name];
                keeps_fresh_named(st, info.type_params, Map::empty());
                let f = fresh_named(st, info.type_params, Map::empty());
                keeps_expect(f.st, env, ty, nominal_ty(info.nominal_name, f.res->Ok_0));
                let u = expect(f.st, env, ty, nominal_ty(info.nominal_name, f.res->Ok_0));
                if u.err is Some {
                } else {
                    match binding {
                        None => {},
                        Some(inner) => {
                            match info.payload {
                                None => {},
                                Some(payload) => {
                                    keeps_written(u.st, f.vars, payload);
                                    let w = written(u.st, f.vars, payload);
                                    match w.res {
                                        Err(e) => {},
                                        Ok(t) => {
                                            keeps_check(w.st, env, *inner, t, mutable);
                                        },
                                    }
                                },
                            }
                        },
                    }
                }
            }
        },
        PatternV::Record { fields, rest } => {
            let tail_var = next_var(st);
            let tail = if rest is Some { TyV::Var(tail_var) } else { TyV::Unit };
            keeps_fresh_fields(fresh(st), fields, 0, Seq::empty());
            let f = fresh_fields(fresh(st), fields, 0, Seq::empty());
            let tys = sort_fields(f.1);
            keeps_expect(f.0, env, ty, TyV::Record(RowV { fields: tys, tail: Box::new(tail) }),);
            let u = expect( f.0, env, ty, TyV::Record(RowV { fields: tys, tail: Box::new(tail) }), );
            if u.err is Some {
            } else {
                keeps_bind_fields(u.st, env, fields, 0, tys, mutable);
            }
        },
        PatternV::List { elements, rest } => {
            let element = TyV::Var(next_var(st));
            keeps_expect(fresh(st), env, ty, array_of(element));
            let u = expect(fresh(st), env, ty, array_of(element));
            if u.err is Some {
            } else {
                keeps_check_list(u.st, env, elements, 0, element, mutable);
            }
        },
        PatternV::Tuple(items) => {
            keeps_fresh_tys(st, items.len(), Seq::empty());
            let f = fresh_tys(st, items.len(), Seq::empty());
            keeps_expect(f.0, env, ty, TyV::Tuple(f.1));
            let u = expect(f.0, env, ty, TyV::Tuple(f.1));
            if u.err is Some {
            } else {
                keeps_check_tuple(u.st, env, items, 0, f.1, mutable);
            }
        },
    }
}

pub proof fn keeps_check_list(
    st: InferV,
    env: EnvV,
    s: Seq<PatternV>,
    i: nat,
    ty: TyV,
    mutable: bool,
)
    ensures
        grows(st.subst.map, check_list(st, env, s, i, ty, mutable).st.subst.map),
    decreases s, s.len() - i,
{
    if i >= s.len() {
    } else {
        keeps_check(st, env, s[i as int], ty, mutable);
        let b = check(st, env, s[i as int], ty, mutable);
        if b.err is Some {
        } else {
            keeps_check_list(b.st, b.env, s, i + 1, ty, mutable);
        }
    }
}

pub proof fn keeps_check_tuple(
    st: InferV,
    env: EnvV,
    s: Seq<PatternV>,
    i: nat,
    tys: Seq<TyV>,
    mutable: bool,
)
    ensures
        grows(st.subst.map, check_tuple(st, env, s, i, tys, mutable).st.subst.map),
    decreases s, s.len() - i,
{
    if i >= s.len() {
    } else {
        keeps_check(st, env, s[i as int], resolved(st, tys[i as int]), mutable);
        let b = check(st, env, s[i as int], resolved(st, tys[i as int]), mutable);
        if b.err is Some {
        } else {
            keeps_check_tuple(b.st, b.env, s, i + 1, tys, mutable);
        }
    }
}

pub proof fn keeps_match_pattern(st: InferV, env: EnvV, p: PatternV, ty: TyV, mutable: bool)
    ensures
        grows(st.subst.map, match_pattern(st, env, p, ty, mutable).st.subst.map),
{
    reveal(match_pattern);
    keeps_check(st, env, p, ty, mutable);
}

pub proof fn keeps_bind_param(st: InferV, env: EnvV, p: PatternV, ty: TyV, place: bool)
    ensures
        grows(st.subst.map, bind_param(st, env, p, ty, place).st.subst.map),
{
    reveal(bind_param);
    if !place {
        keeps_match_pattern(st, env, p, ty, false);
    }
}

} // verus!
