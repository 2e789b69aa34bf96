//! The parts of the rules for definitions that look at no body: what is known before
//! a body is checked, and what follows once it is.

use vstd::prelude::*;

use crate::associated::under;
use crate::ast::{Expr, NodeId, Param, SourceSpan, Type, TypeBound, TypeReturn};
use crate::ast_view::{params_view, some_type_return_view, some_type_view, type_bounds_view};
use crate::ast_view::{type_return_view, type_view, types_view, ExprV, ParamV, TypeBoundV};
use crate::ast_view::{TypeReturnV, TypeV};
use crate::convert::VarNames;
use crate::dict_names::{dict_param_names, param_names};
use crate::env::{EnvV, TypeEnv};
use crate::error::{error_at, unspanned_error, SpannedTypeError, SpannedV, TypeError, TypeErrorV};
use crate::finish::noted_caps;
use crate::places::{bind_params, declared_caps, func_params_from_params};
use crate::places::{func_return_from_annotation, param_capabilities, read_annotation};
use crate::places::{read_result, read_type, spanned_error_of, typed_params, typed_return};
use crate::places::{with_annotation, ParamSource, ReadV, SourceV};
use crate::schemes::{finalized_at, FinalizedConstraints, FinalizedV};
use crate::state::{fresh, next_var, Infer, InferV, MetaV};
use crate::steps::{attach_owned_dicts_to_recursive_self_calls, passed_on, resolved, settled};
use crate::subst::TypeLevel;
use crate::tables::NameMap;
use crate::text::strings_view;
use crate::ty::{clone_constraints, constraints_view, immutable_info, mono_scheme, return_view};
use crate::ty::{ty_view, tys_view, ConstraintV, EnvInfo, EnvInfoV, FuncParam, FuncReturn};
use crate::ty::{ReturnCapability, ReturnV, Scheme, SchemeV, TraitConstraint, Ty, TyV, TyVar};
use crate::ty_helpers::{constraints_result, declared_bounds};
use crate::unify::error_of;

verus! {

/// The state with the scheme of a definition noted.
pub open spec fn noted_scheme(st: InferV, span: SourceSpan, scheme: SchemeV) -> InferV {
    InferV {
        meta: MetaV {
            definition_schemes: st.meta.definition_schemes.insert(span, scheme),
            ..st.meta
        },
        ..st
    }
}

/// One level further in. The deepest level is its own child.
pub open spec fn child_level(level: TypeLevel) -> TypeLevel {
    if level < u32::MAX {
        (level + 1) as u32
    } else {
        level
    }
}

pub fn next_level(level: TypeLevel) -> (r: TypeLevel)
    ensures
        r == child_level(level),
{
    if level < u32::MAX {
        level + 1
    } else {
        level
    }
}

/// What is known of a function before its body is checked.
pub struct HeadV {
    pub st: InferV,
    pub env: EnvV,
    pub fn_ty: TyV,
    pub ret: ReturnV,
    pub initial: Seq<ConstraintV>,
    pub err: Option<SpannedV>,
}

/// What is known of a function before its body is checked.
pub struct Head {
    pub env: TypeEnv,
    pub fn_ty: Ty,
    pub ret: FuncReturn,
    pub initial: Vec<TraitConstraint>,
}

/// A head that failed.
pub open spec fn no_head(st: InferV, e: SpannedV) -> HeadV {
    HeadV {
        st,
        env: Map::empty(),
        fn_ty: TyV::Unit,
        ret: ReturnV { ty: Box::new(TyV::Unit), capability: ReturnCapability::Value },
        initial: Seq::empty(),
        err: Some(e),
    }
}

/// Whether a head is what is expected.
pub open spec fn head_is(r: Result<Head, SpannedTypeError>, st: InferV, want: HeadV) -> bool {
    st == want.st && match want.err {
        Some(e) => r is Err && r->Err_0@ == e,
        None => r is Ok && ({
            let h = r->Ok_0;
            h.env@ == want.env && h.fn_ty@ == want.fn_ty && h.ret@ == want.ret && constraints_view(
                h.initial@,
            ) == want.initial
        }),
    }
}

/// The type of a return annotation.
pub open spec fn return_type(ret: Option<TypeReturnV>) -> Option<TypeV> {
    match ret {
        Some(r) => Some(*r.ty),
        None => None,
    }
}

/// The head of a definition. `initial` are constraints from around it.
#[verifier::opaque]
pub open spec fn def_head(
    st: InferV,
    env: EnvV,
    vars: VarNames,
    initial: Seq<ConstraintV>,
    source: SourceV,
    params: Seq<ParamV>,
    ret: Option<TypeReturnV>,
    bounds: Seq<TypeBoundV>,
    span: SourceSpan,
    self_name: Option<Seq<char>>,
) -> HeadV {
    let b = declared_bounds(st, vars, bounds);
    match b.res {
        Err(e) => no_head(b.st, unspanned_error(e)),
        Ok(cs) => {
            let p = bind_params(b.st, env, b.vars, source, params, span);
            match p.err {
                Some(e) => no_head(p.st, e),
                None => {
                    let r = read_annotation(p.st, p.vars, return_type(ret));
                    match r.res {
                        Err(e) => no_head(r.st, e),
                        Ok(ret_ty) => {
                            let fn_ret = typed_return(ret, ret_ty);
                            let fn_ty = TyV::Func(typed_params(params, p.tys), fn_ret);
                            HeadV {
                                st: r.st,
                                env: match self_name {
                                    Some(name) => p.env.insert(
                                        name,
                                        immutable_info(mono_scheme(fn_ty)),
                                    ),
                                    None => p.env,
                                },
                                fn_ty,
                                ret: fn_ret,
                                initial: initial + cs,
                                err: None,
                            }
                        },
                    }
                },
            }
        },
    }
}

/// The head of a method of a type.
#[verifier::opaque]
pub open spec fn inherent_head(
    st: InferV,
    env: EnvV,
    target: TypeV,
    bounds: Seq<TypeBoundV>,
    params: Seq<ParamV>,
    ret: Option<TypeReturnV>,
    own_bounds: Seq<TypeBoundV>,
    span: SourceSpan,
    has_receiver: bool,
) -> HeadV {
    let t = read_type(st, Map::empty(), target);
    match t.res {
        Err(e) => no_head(t.st, e),
        Ok(ty) => {
            let b = declared_bounds(t.st, t.vars, bounds);
            match b.res {
                Err(e) => no_head(b.st, unspanned_error(e)),
                Ok(cs) => def_head(
                    b.st,
                    env,
                    b.vars,
                    cs,
                    if has_receiver {
                        SourceV::Receiver(ty)
                    } else {
                        SourceV::Own
                    },
                    params,
                    ret,
                    own_bounds,
                    span,
                    None,
                ),
            }
        },
    }
}

/// The head of a closure.
#[verifier::opaque]
pub open spec fn lambda_head(
    st: InferV,
    env: EnvV,
    params: Seq<ParamV>,
    annotation: Option<TypeV>,
    span: SourceSpan,
    expected: Option<(Seq<crate::ty::ParamV>, ReturnV)>,
) -> HeadV {
    if expected is Some && expected->Some_0.0.len() != params.len() {
        no_head(
            st,
            error_at(
                TypeErrorV::ArityMismatch {
                    expected: expected->Some_0.0.len() as usize,
                    got: params.len() as usize,
                },
                span,
            ),
        )
    } else {
        let source = match expected {
            Some(f) => SourceV::Expected(f.0),
            None => SourceV::Own,
        };
        let p = bind_params(st, env, Map::empty(), source, params, span);
        match p.err {
            Some(e) => no_head(p.st, e),
            None => {
                let r = match expected {
                    Some(f) => with_annotation(p.st, p.vars, *f.1.ty, annotation, false, span),
                    None => read_annotation(p.st, p.vars, annotation),
                };
                match r.res {
                    Err(e) => no_head(r.st, e),
                    Ok(ret_ty) => {
                        let ret = ReturnV {
                            ty: Box::new(ret_ty),
                            capability: match expected {
                                Some(f) => f.1.capability,
                                None => ReturnCapability::Value,
                            },
                        };
                        HeadV {
                            st: r.st,
                            env: p.env,
                            fn_ty: TyV::Func(typed_params(params, p.tys), ret),
                            ret,
                            initial: Seq::empty(),
                            err: None,
                        }
                    },
                }
            },
        }
    }
}

/// The head of a method of a trait implementation.
#[verifier::opaque]
pub open spec fn impl_head(
    st: InferV,
    env: EnvV,
    vars: VarNames,
    derived: Seq<TypeV>,
    derived_ret: TypeV,
    params: Seq<ParamV>,
    ret: Option<TypeReturnV>,
    method_span: SourceSpan,
    span: SourceSpan,
) -> HeadV {
    let p = bind_params(st, env, vars, SourceV::Derived(derived, method_span), params, span);
    match p.err {
        Some(e) => no_head(p.st, e),
        None => {
            let r = read_type(p.st, p.vars, derived_ret);
            match r.res {
                Err(e) => no_head(r.st, e),
                Ok(given) => {
                    let a = with_annotation(r.st, r.vars, given, return_type(ret), true, span);
                    match a.res {
                        Err(e) => no_head(a.st, e),
                        Ok(ret_ty) => {
                            let fn_ret = crate::ty::value_return_view(ret_ty);
                            HeadV {
                                st: a.st,
                                env: p.env,
                                fn_ty: TyV::Func(crate::ty::value_params_view(p.tys), fn_ret),
                                ret: fn_ret,
                                initial: Seq::empty(),
                                err: None,
                            }
                        },
                    }
                },
            }
        },
    }
}

/// The types of the parameters of a recursive function, from the one at `i` on.
pub open spec fn rec_param_types(
    st: InferV,
    vars: VarNames,
    params: Seq<ParamV>,
    i: nat,
    tys: Seq<TyV>,
) -> ReadV<Seq<TyV>>
    decreases params.len() - i,
{
    if i >= params.len() {
        ReadV { st, vars, res: Ok(tys) }
    } else {
        let r = read_annotation(st, vars, params[i as int].ty);
        match r.res {
            Err(e) => ReadV { st: r.st, vars: r.vars, res: Err(e) },
            Ok(t) => rec_param_types(r.st, r.vars, params, i + 1, tys.push(t)),
        }
    }
}

/// What is known of a function of a recursive group before the bodies are checked.
pub struct RecInfoV {
    pub name: Seq<char>,
    pub fn_ty: TyV,
    pub param_tys: Seq<TyV>,
    pub ret: ReturnV,
    pub explicit: bool,
    pub initial: Seq<ConstraintV>,
}

/// The head of a function of a recursive group.
#[verifier::opaque]
pub open spec fn rec_head(
    st: InferV,
    name: Seq<char>,
    params: Seq<ParamV>,
    ret: Option<TypeReturnV>,
    bounds: Seq<TypeBoundV>,
) -> (InferV, Result<RecInfoV, SpannedV>) {
    let b = declared_bounds(st, Map::empty(), bounds);
    match b.res {
        Err(e) => (b.st, Err(unspanned_error(e))),
        Ok(initial) => {
            let p = rec_param_types(b.st, b.vars, params, 0, Seq::empty());
            match p.res {
                Err(e) => (p.st, Err(e)),
                Ok(tys) => {
                    let r = read_annotation(p.st, p.vars, return_type(ret));
                    match r.res {
                        Err(e) => (r.st, Err(e)),
                        Ok(ret_ty) => {
                            let fn_ret = typed_return(ret, ret_ty);
                            (
                                r.st,
                                Ok(
                                    RecInfoV {
                                        name,
                                        fn_ty: TyV::Func(typed_params(params, tys), fn_ret),
                                        param_tys: tys,
                                        ret: fn_ret,
                                        explicit: ret is Some,
                                        initial,
                                    },
                                ),
                            )
                        },
                    }
                },
            }
        },
    }
}

/// What is known of a function of a recursive group before the bodies are checked.
pub struct RecFnInfo {
    pub name: String,
    pub fn_ty: Ty,
    pub param_tys: Vec<Ty>,
    pub ret: FuncReturn,
    pub explicit: bool,
    pub initial: Vec<TraitConstraint>,
}

impl View for RecFnInfo {
    type V = RecInfoV;

    open spec fn view(&self) -> RecInfoV {
        RecInfoV {
            name: self.name@,
            fn_ty: self.fn_ty@,
            param_tys: tys_view(self.param_tys@),
            ret: self.ret@,
            explicit: self.explicit,
            initial: constraints_view(self.initial@),
        }
    }
}

/// A definition whose constraints are settled.
pub struct EndV {
    pub st: InferV,
    pub body: ExprV,
    pub scheme: SchemeV,
    pub owned: Seq<ConstraintV>,
    pub err: Option<TypeErrorV>,
}

/// Quantifies the type of a definition, keeps the constraints that it owns, leaves the
/// others to what is around, and chooses the dictionaries of its body. Where calls of
/// `self_name` stand in the body they are passed what the definition is given.
#[verifier::opaque]
pub open spec fn end_def(
    st: InferV,
    env: EnvV,
    fn_ty: TyV,
    constraints: Seq<ConstraintV>,
    ambient: TypeLevel,
    body: ExprV,
    self_name: Option<Seq<char>>,
    hard: bool,
) -> EndV {
    let f = finalized_at(st, fn_ty, constraints, ambient);
    let st1 = InferV { pending: st.pending + f.bubbled, ..st };
    let body1 = if self_name is Some && f.owned.len() > 0 {
        passed_on(body, self_name->Some_0, f.owned)
    } else {
        body
    };
    let s = settled(body1, st1, env, f.owned, hard);
    EndV { st: st1, body: s.0, scheme: f.scheme, owned: f.owned, err: s.1 }
}

impl Infer {
    /// The head of a definition.
    pub fn def_head(
        &mut self,
        env: &TypeEnv,
        vars: &mut NameMap<TyVar>,
        initial: Vec<TraitConstraint>,
        source: &ParamSource,
        params: &Vec<Param>,
        ret: &Option<TypeReturn>,
        bounds: &Vec<TypeBound>,
        span: SourceSpan,
        self_name: Option<&String>,
    ) -> (r: Result<Head, SpannedTypeError>)
        requires
            old(self).wf(),
        ensures
            final(self).wf(),
            head_is(
                r,
                final(self)@,
                def_head(
                    old(self)@,
                    env@,
                    old(vars)@,
                    constraints_view(initial@),
                    source@,
                    params_view(params@),
                    some_type_return_view(*ret),
                    type_bounds_view(bounds@),
                    span,
                    opt_name(self_name),
                ),
            ),
    {
        proof {
            reveal(def_head);
        }
        let mut cs = match self.collect_type_bound_constraints(vars, bounds) {
            Err(e) => {
                return Err(e.unspanned());
            },
            Ok(cs) => cs,
        };
        let mut body_env = env.clone();
        let (tys, bound) = self.bind_params(&mut body_env, vars, source, params, span);
        match bound {
            Err(e) => {
                return Err(e);
            },
            Ok(_) => {},
        }
        let ret_ty = match self.read_return(ret, vars) {
            Err(e) => {
                return Err(e);
            },
            Ok(t) => t,
        };
        let fn_ret = func_return_from_annotation(ret, ret_ty);
        let fn_params = func_params_from_params(params, &tys);
        let copy = fn_ret.clone();
        assert(return_view(copy) == fn_ret@);
        let fn_ty = Ty::Func(fn_params, copy);
        match self_name {
            Some(name) => {
                body_env.insert(
                    name.clone(),
                    EnvInfo::immutable(Scheme::mono(fn_ty.clone())),
                );
            },
            None => {},
        }
        let mut all = initial;
        let ghost first = constraints_view(all@);
        let ghost second = constraints_view(cs@);
        all.append(&mut cs);
        assert(constraints_view(all@) =~= first + second);
        Ok(Head { env: body_env, fn_ty, ret: fn_ret, initial: all })
    }

    fn read_return(&mut self, ret: &Option<TypeReturn>, vars: &mut NameMap<TyVar>) -> (r: Result<
        Ty,
        SpannedTypeError,
    >)
        requires
            old(self).wf(),
        ensures
            final(self).wf(),
            (ReadV { st: final(self)@, vars: final(vars)@, res: read_result(r) })
                == read_annotation(
                old(self)@,
                old(vars)@,
                return_type(some_type_return_view(*ret)),
            ),
    {
        match ret {
            Some(t) => {
                assert(some_type_return_view(*ret) == Some(type_return_view(*t)));
                assert(type_return_view(*t).ty == Box::new(type_view(*t.ty)));
                self.read_type(&t.ty, vars)
            },
            None => Ok(self.fresh_ty()),
        }
    }

    /// The head of a method of a type.
    pub fn inherent_head(
        &mut self,
        env: &TypeEnv,
        target: &Type,
        bounds: &Vec<TypeBound>,
        params: &Vec<Param>,
        ret: &Option<TypeReturn>,
        own_bounds: &Vec<TypeBound>,
        span: SourceSpan,
        has_receiver: bool,
    ) -> (r: Result<Head, SpannedTypeError>)
        requires
            old(self).wf(),
        ensures
            final(self).wf(),
            head_is(
                r,
                final(self)@,
                inherent_head(
                    old(self)@,
                    env@,
                    target@,
                    type_bounds_view(bounds@),
                    params_view(params@),
                    some_type_return_view(*ret),
                    type_bounds_view(own_bounds@),
                    span,
                    has_receiver,
                ),
            ),
    {
        proof {
            reveal(inherent_head);
        }
        let mut vars: NameMap<TyVar> = NameMap::new();
        let ty = match self.read_type(target, &mut vars) {
            Err(e) => {
                return Err(e);
            },
            Ok(t) => t,
        };
        let cs = match self.collect_type_bound_constraints(&mut vars, bounds) {
            Err(e) => {
                return Err(e.unspanned());
            },
            Ok(cs) => cs,
        };
        let source = if has_receiver {
            ParamSource::Receiver(&ty)
        } else {
            ParamSource::Own
        };
        self.def_head(env, &mut vars, cs, &source, params, ret, own_bounds, span, None)
    }

    /// The head of a closure.
    pub fn lambda_head(
        &mut self,
        env: &TypeEnv,
        params: &Vec<Param>,
        annotation: &Option<Type>,
        span: SourceSpan,
        expected: &Option<(Vec<FuncParam>, FuncReturn)>,
    ) -> (r: Result<Head, SpannedTypeError>)
        requires
            old(self).wf(),
        ensures
            final(self).wf(),
            head_is(
                r,
                final(self)@,
                lambda_head(
                    old(self)@,
                    env@,
                    params_view(params@),
                    some_type_view(*annotation),
                    span,
                    expected_view(*expected),
                ),
            ),
    {
        proof {
            reveal(lambda_head);
        }
        assert(params_view(params@).len() == params@.len());
        if let Some(f) = expected {
            assert(crate::ty::params_view(f.0@).len() == f.0@.len());
            if f.0.len() != params.len() {
                return Err(
                    TypeError::ArityMismatch {
                        expected: f.0.len(),
                        got: params.len(),
                    }.at(span),
                );
            }
        }
        let source = match expected {
            Some(f) => ParamSource::Expected(&f.0),
            None => ParamSource::Own,
        };
        let mut vars: NameMap<TyVar> = NameMap::new();
        let mut body_env = env.clone();
        let (tys, bound) = self.bind_params(&mut body_env, &mut vars, &source, params, span);
        match bound {
            Err(e) => {
                return Err(e);
            },
            Ok(_) => {},
        }
        let found = match expected {
            Some(f) => {
                assert(return_view(f.1).ty == Box::new(ty_view(*f.1.ty)));
                self.with_annotation((*f.1.ty).clone(), annotation, false, span, &mut vars)
            },
            None => self.read_annotation(annotation, &mut vars),
        };
        let ret_ty = match found {
            Err(e) => {
                return Err(e);
            },
            Ok(t) => t,
        };
        let capability = match expected {
            Some(f) => f.1.capability,
            None => ReturnCapability::Value,
        };
        let fn_ret = FuncReturn { ty: Box::new(ret_ty), capability };
        let fn_params = func_params_from_params(params, &tys);
        let copy = fn_ret.clone();
        assert(return_view(copy) == fn_ret@);
        let fn_ty = Ty::Func(fn_params, copy);
        let initial: Vec<TraitConstraint> = Vec::new();
        assert(constraints_view(initial@) =~= Seq::empty());
        Ok(Head { env: body_env, fn_ty, ret: fn_ret, initial })
    }

    /// The head of a method of a trait implementation.
    pub fn impl_head(
        &mut self,
        env: &TypeEnv,
        vars: &mut NameMap<TyVar>,
        derived: &Vec<Type>,
        derived_ret: &Type,
        params: &Vec<Param>,
        ret: &Option<TypeReturn>,
        method_span: SourceSpan,
        span: SourceSpan,
    ) -> (r: Result<Head, SpannedTypeError>)
        requires
            old(self).wf(),
        ensures
            final(self).wf(),
            head_is(
                r,
                final(self)@,
                impl_head(
                    old(self)@,
                    env@,
                    old(vars)@,
                    types_view(derived@),
                    derived_ret@,
                    params_view(params@),
                    some_type_return_view(*ret),
                    method_span,
                    span,
                ),
            ),
    {
        proof {
            reveal(impl_head);
        }
        let mut body_env = env.clone();
        let source = ParamSource::Derived(derived, method_span);
        let (tys, bound) = self.bind_params(&mut body_env, vars, &source, params, span);
        match bound {
            Err(e) => {
                return Err(e);
            },
            Ok(_) => {},
        }
        let given = match self.read_type(derived_ret, vars) {
            Err(e) => {
                return Err(e);
            },
            Ok(t) => t,
        };
        let annotation: Option<Type> = match ret {
            Some(t) => {
                assert(some_type_return_view(*ret) == Some(type_return_view(*t)));
                assert(type_return_view(*t).ty == Box::new(type_view(*t.ty)));
                Some((*t.ty).clone())
            },
            None => None,
        };
        assert(some_type_view(annotation) == return_type(some_type_return_view(*ret)));
        let ret_ty = match self.with_annotation(given, &annotation, true, span, vars) {
            Err(e) => {
                return Err(e);
            },
            Ok(t) => t,
        };
        let fn_ret = crate::ty::value_func_return(ret_ty);
        let fn_params = crate::ty::value_func_params(tys);
        let copy = fn_ret.clone();
        assert(return_view(copy) == fn_ret@);
        let fn_ty = Ty::Func(fn_params, copy);
        let initial: Vec<TraitConstraint> = Vec::new();
        assert(constraints_view(initial@) =~= Seq::empty());
        Ok(Head { env: body_env, fn_ty, ret: fn_ret, initial })
    }

    fn rec_param_types(&mut self, params: &Vec<Param>, vars: &mut NameMap<TyVar>) -> (r: Result<
        Vec<Ty>,
        SpannedTypeError,
    >)
        requires
            old(self).wf(),
        ensures
            final(self).wf(),
            (ReadV { st: final(self)@, vars: final(vars)@, res: crate::steps::tys_res(r) })
                == rec_param_types(
                old(self)@,
                old(vars)@,
                params_view(params@),
                0,
                Seq::empty(),
            ),
            r matches Ok(tys) ==> tys@.len() == params@.len(),
    {
        let ghost all = params_view(params@);
        let ghost want = rec_param_types(self@, vars@, all, 0, Seq::empty());
        let mut tys: Vec<Ty> = Vec::new();
        let mut i: usize = 0;
        assert(tys_view(tys@) =~= Seq::empty());
        while i < params.len()
            invariant
                i <= params.len(),
                self.wf(),
                tys@.len() == i,
                all == params_view(params@),
                all.len() == params@.len(),
                want == rec_param_types(old(self)@, old(vars)@, all, 0, Seq::empty()),
                want == rec_param_types(self@, vars@, all, i as nat, tys_view(tys@)),
            decreases params.len() - i,
        {
            assert(all[i as int] == crate::ast_view::param_view(params@[i as int]));
            let ghost before = tys_view(tys@);
            match self.read_annotation(&params[i].ty, vars) {
                Err(e) => {
                    return Err(e);
                },
                Ok(t) => {
                    let ghost tv = t@;
                    tys.push(t);
                    assert(tys_view(tys@) =~= before.push(tv));
                },
            }
            i = i + 1;
        }
        Ok(tys)
    }

    /// The head of a function of a recursive group.
    pub fn prepare_rec_fn_info(
        &mut self,
        name: &String,
        params: &Vec<Param>,
        ret: &Option<TypeReturn>,
        bounds: &Vec<TypeBound>,
    ) -> (r: Result<RecFnInfo, SpannedTypeError>)
        requires
            old(self).wf(),
        ensures
            final(self).wf(),
            (final(self)@, crate::associated::view_res(r)) == rec_head(
                old(self)@,
                name@,
                params_view(params@),
                some_type_return_view(*ret),
                type_bounds_view(bounds@),
            ),
            r matches Ok(info) ==> info.param_tys@.len() == params@.len(),
    {
        proof {
            reveal(rec_head);
        }
        let mut vars: NameMap<TyVar> = NameMap::new();
        let initial = match self.collect_type_bound_constraints(&mut vars, bounds) {
            Err(e) => {
                return Err(e.unspanned());
            },
            Ok(cs) => cs,
        };
        let param_tys = match self.rec_param_types(params, &mut vars) {
            Err(e) => {
                return Err(e);
            },
            Ok(tys) => tys,
        };
        let ret_ty = match self.read_return(ret, &mut vars) {
            Err(e) => {
                return Err(e);
            },
            Ok(t) => t,
        };
        let fn_ret = func_return_from_annotation(ret, ret_ty);
        let fn_params = func_params_from_params(params, &param_tys);
        let copy = fn_ret.clone();
        assert(return_view(copy) == fn_ret@);
        let fn_ty = Ty::Func(fn_params, copy);
        Ok(
            RecFnInfo {
                name: name.clone(),
                fn_ty,
                param_tys,
                ret: fn_ret,
                explicit: ret.is_some(),
                initial,
            },
        )
    }

    /// Settles the constraints and dictionaries of a definition.
    pub fn end_def(
        &mut self,
        env: &TypeEnv,
        fn_ty: &Ty,
        constraints: &Vec<TraitConstraint>,
        ambient: TypeLevel,
        body: &mut Expr,
        self_name: Option<&String>,
        hard: bool,
    ) -> (r: (Scheme, Vec<TraitConstraint>, Result<(), TypeError>))
        requires
            old(self).wf(),
        ensures
            final(self).wf(),
            (EndV {
                st: final(self)@,
                body: final(body)@,
                scheme: r.0@,
                owned: constraints_view(r.1@),
                err: error_of(r.2),
            }) == end_def(
                old(self)@,
                env@,
                fn_ty@,
                constraints_view(constraints@),
                ambient,
                old(body)@,
                opt_name(self_name),
                hard,
            ),
            r.1@.len() == constraints_view(r.1@).len(),
    {
        proof {
            reveal(end_def);
        }
        let f = self.finalize_constraints_at(fn_ty, constraints, ambient);
        let mut bubbled = clone_constraints(&f.bubbled);
        let ghost first = constraints_view(self.constraints.pending@);
        let ghost second = constraints_view(bubbled@);
        self.constraints.pending.append(&mut bubbled);
        assert(constraints_view(self.constraints.pending@) =~= first + second);
        assert(constraints_view(f.owned@).len() == f.owned@.len());
        if let Some(name) = self_name {
            if f.owned.len() > 0 {
                attach_owned_dicts_to_recursive_self_calls(body, name, &f.owned);
            }
        }
        let step = if hard {
            self.settle_expr(body, env, &f.owned)
        } else {
            self.settle_expr_lenient(body, env, &f.owned)
        };
        (f.scheme, f.owned, step)
    }
}

/// The text of an optional name.
pub open spec fn opt_name(r: Option<&String>) -> Option<Seq<char>> {
    match r {
        Some(s) => Some(s@),
        None => None,
    }
}

/// An optional function shape.
pub open spec fn expected_view(r: Option<(Vec<FuncParam>, FuncReturn)>) -> Option<
    (Seq<crate::ty::ParamV>, ReturnV),
> {
    match r {
        Some(f) => Some((crate::ty::params_view(f.0@), return_view(f.1))),
        None => None,
    }
}

} // verus!
