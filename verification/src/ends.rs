//! More parts of the rules for expressions that look at no further expression: what
//! follows once operands and arguments are checked.

use vstd::prelude::*;

use crate::associated::view_res;
use crate::ast::{ArgWrapper, DictRef, Expr, ExprKind, PendingDictArg, ResolvedCallee, SourceSpan};
use crate::ast::{NodeId, TraitDef};
use crate::ast_view::{arg_wrapper_view, dict_refs_view, expr_kind_view, expr_view};
use crate::ast_view::{pending_dict_args_view, resolved_callee_view, some_arg_wrapper_view};
use crate::ast_view::{some_pending_dict_arg_view, some_resolved_callee_view, ArgWrapperV};
use crate::ast_view::{DictRefV, ExprKindV, ExprV, PendingDictArgV, ResolvedCalleeV};
use crate::ast_view::TraitDefV;
use crate::convert::{ty_result, ConvV};
use crate::dispatch::{choose_dict, find_trait_method, method_named, unresolved, ChoiceV};
use crate::dispatch::{DictResolution, Dispatch, DispatchV};
use crate::env::{EnvV, TypeEnv};
use crate::error::{error_at, unspanned_error, SpannedTypeError, SpannedV, TypeError, TypeErrorV};
use crate::finish::{constrained_apply, multi_operator, noted_symbol, operator_method};
use crate::finish::{operator_types, AppliedCall, AppliedV, FinishV};
use crate::places::{place_error, spanned_error_of};
use crate::receiver::{method_candidates, pretty, pretty_method_receiver_for_error};
use crate::schemes::{instance, value_of};
use crate::state::{callable_at, fresh, next_var, Infer, InferV};
use crate::steps::{equate, failed, give_dicts, resolved, ty_res, written};
use crate::tables::NameMap;
use crate::text::strings_view;
use crate::ty::{constraints_view, tys_view, ConstraintV, Scheme, SchemeV, TraitConstraint, Ty};
use crate::ty::{TyV, TyVar};
use crate::ty_helpers::{constraints_on, is_array_with_unresolved_element, open_array};
use crate::ty_helpers::{plain_func, scheme_param_is_mut_place, some_mut_place, some_place};
use crate::ty_helpers::{split_qualified, ty_caps, ty_param_capabilities, value_func};
use crate::ty_helpers::{wants_place, without_constraints};
use crate::unify::error_of;

verus! {

/// What the use of an operator is given.
pub struct OpV {
    pub resolved: Option<ResolvedCalleeV>,
    pub pending: Option<PendingDictArgV>,
}

/// A use for which a dictionary was chosen.
pub open spec fn chosen(op: OpV, choice: ChoiceV, method: Seq<char>) -> OpV {
    match choice {
        ChoiceV::Resolved(dict) => OpV {
            resolved: Some(ResolvedCalleeV::DictMethod { dict, method }),
            ..op
        },
        ChoiceV::Pending(p) => OpV { pending: Some(p), ..op },
    }
}

/// Notes the dictionary that was chosen for a use.
pub fn set_choice(
    choice: DictResolution,
    method: &str,
    resolved: &mut Option<ResolvedCallee>,
    pending: &mut Option<PendingDictArg>,
)
    ensures
        (OpV {
            resolved: some_resolved_callee_view(*final(resolved)),
            pending: some_pending_dict_arg_view(*final(pending)),
        }) == chosen(
            (OpV {
                resolved: some_resolved_callee_view(*old(resolved)),
                pending: some_pending_dict_arg_view(*old(pending)),
            }),
            choice@,
            method@,
        ),
{
    match choice {
        DictResolution::Resolved(dict) => {
            let found = ResolvedCallee::DictMethod { dict, method: method.to_owned() };
            assert(resolved_callee_view(found) == (ResolvedCalleeV::DictMethod {
                dict: crate::ast_view::dict_ref_view(dict),
                method: method@,
            }));
            *resolved = Some(found);
        },
        DictResolution::Pending(p) => {
            *pending = Some(p);
        },
    }
}

/// What a use of a function is given.
pub struct ArgsV {
    pub dicts: Seq<DictRefV>,
    pub pending: Seq<PendingDictArgV>,
}

/// What a use of a function leads to.
pub struct UseRun {
    pub st: InferV,
    pub args: ArgsV,
    pub res: Result<TyV, SpannedV>,
}

/// The type of a call of a function of a known type.
pub open spec fn plain_apply(st: InferV, callee: TyV, args: Seq<TyV>) -> (
    InferV,
    Result<TyV, SpannedV>,
) {
    let ret = TyV::Var(next_var(st));
    let u = equate(fresh(st), callee, plain_func(args, ret));
    match u.1 {
        Some(e) => (u.0, failed(e)),
        None => (u.0, Ok(resolved(u.0, ret))),
    }
}

/// A call of a scheme with constraints.
pub open spec fn scheme_apply(st: InferV, env: EnvV, scheme: SchemeV, args: Seq<TyV>, given: ArgsV) -> UseRun {
    let f = constrained_apply(st, env, scheme, args, given.dicts, given.pending);
    UseRun {
        st: f.st,
        args: ArgsV { dicts: f.dicts, pending: f.pending },
        res: match f.res {
            Ok(a) => Ok(a.ret),
            Err(e) => Err(e),
        },
    }
}

/// The scheme of an expression that names something.
pub open spec fn named_scheme(env: EnvV, e: ExprV) -> Option<SchemeV> {
    match e.kind {
        ExprKindV::Ident(name) => if env.dom().contains(name) {
            Some(env[name].scheme)
        } else {
            None
        },
        _ => None,
    }
}

/// Passes a value on to a function.
#[verifier::opaque]
pub open spec fn pipe_end(
    st: InferV,
    env: EnvV,
    lhs: ExprV,
    rhs: ExprV,
    l_ty: TyV,
    r_ty: TyV,
    given: ArgsV,
) -> UseRun {
    match named_scheme(env, rhs) {
        Some(scheme) => {
            let place = if wants_place(scheme, 0) {
                place_error(st, env, lhs, 0)
            } else {
                None
            };
            match place {
                Some(e) => UseRun { st, args: given, res: Err(e) },
                None => if scheme.constraints.len() > 0 {
                    scheme_apply(st, env, scheme, seq![l_ty], given)
                } else {
                    let p = plain_apply(st, r_ty, seq![l_ty]);
                    UseRun { st: p.0, args: given, res: p.1 }
                },
            }
        },
        None => {
            let p = plain_apply(st, r_ty, seq![l_ty]);
            UseRun { st: p.0, args: given, res: p.1 }
        },
    }
}

/// What a use of an operator that is a function leads to.
pub struct OpRun {
    pub st: InferV,
    pub resolved: Option<ResolvedCalleeV>,
    pub args: ArgsV,
    pub res: Result<TyV, SpannedV>,
}

/// A use of an operator that is a function.
#[verifier::opaque]
pub open spec fn function_operator(
    st: InferV,
    env: EnvV,
    op: Seq<char>,
    l_ty: TyV,
    r_ty: TyV,
    resolved_op: Option<ResolvedCalleeV>,
    given: ArgsV,
) -> OpRun {
    if !env.dom().contains(op) {
        OpRun {
            st,
            resolved: resolved_op,
            args: given,
            res: failed(TypeErrorV::UnboundVariable(op)),
        }
    } else if env[op].scheme.constraints.len() > 0 {
        let u = scheme_apply(st, env, env[op].scheme, seq![l_ty, r_ty], given);
        OpRun {
            st: u.st,
            resolved: if u.res is Ok {
                Some(ResolvedCalleeV::Function(op))
            } else {
                resolved_op
            },
            args: u.args,
            res: u.res,
        }
    } else {
        let inst = instance(st, env[op].scheme);
        let p = plain_apply(inst.0, inst.1.ty, seq![l_ty, r_ty]);
        OpRun { st: p.0, resolved: resolved_op, args: given, res: p.1 }
    }
}

/// An argument whose type was found: functions that take mutable places are no
/// arguments, and one with constraints is wrapped.
#[verifier::opaque]
pub open spec fn arg_end(st: InferV, env: EnvV, e: ExprV, ty: TyV) -> (
    InferV,
    Result<(TyV, Option<ArgWrapperV>), SpannedV>,
) {
    if some_place(ty_caps(resolved(st, ty))) || some_place(callable_at(st.meta, e.id)) {
        (st, Err(error_at(TypeErrorV::MutableFunctionCapabilityMismatch, e.span)))
    } else {
        let cs = constraints_on(ty);
        let inner = resolved(st, without_constraints(ty));
        if cs.len() == 0 {
            (st, Ok((inner, None)))
        } else {
            let g = give_dicts(st, env, Seq::empty(), Seq::empty(), cs);
            match g.err {
                Some(err) => (g.st, Err(error_at(err, e.span))),
                None => (
                    g.st,
                    Ok(
                        (
                            inner,
                            Some(ArgWrapperV { dict_args: g.dicts, pending_dict_args: g.pending }),
                        ),
                    ),
                ),
            }
        }
    }
}

/// The type of an argument and its wrapper, or an error.
pub open spec fn arg_res(r: Result<(Ty, Option<ArgWrapper>), SpannedTypeError>) -> Result<
    (TyV, Option<ArgWrapperV>),
    SpannedV,
> {
    match r {
        Ok((t, w)) => Ok((t@, some_arg_wrapper_view(w))),
        Err(e) => Err(e@),
    }
}

/// Whether an expression is a closure, perhaps in parentheses.
pub open spec fn lambda_like(e: ExprV) -> bool
    decreases e,
{
    match e.kind {
        ExprKindV::Lambda { .. } => true,
        ExprKindV::Grouped(inner) => lambda_like(*inner),
        _ => false,
    }
}

pub fn is_lambda_or_grouped_lambda(e: &Expr) -> (r: bool)
    ensures
        r == lambda_like(e@),
    decreases *e,
{
    match &e.kind {
        ExprKind::Lambda { .. } => true,
        ExprKind::Grouped(inner) => is_lambda_or_grouped_lambda(inner),
        _ => false,
    }
}

/// What `iter` of the iterable trait takes and gives.
pub struct IterV {
    pub st: InferV,
    pub target: TyV,
    pub self_ty: TyV,
    pub ret: TyV,
    pub err: Option<TypeErrorV>,
}

/// No types, because of an error.
pub open spec fn no_iter(st: InferV, e: TypeErrorV) -> IterV {
    IterV { st, target: TyV::Unit, self_ty: TyV::Unit, ret: TyV::Unit, err: Some(e) }
}

/// What `iter` of the iterable trait takes and gives.
#[verifier::opaque]
pub open spec fn iter_types(st: InferV) -> IterV {
    if !st.traits.dom().contains("Iterable"@) {
        no_iter(st, TypeErrorV::UnknownTrait("Iterable"@))
    } else {
        let def = st.traits["Iterable"@];
        match method_named(def.methods, "iter"@, 0) {
            None => no_iter(
                st,
                TypeErrorV::UnknownTraitMethod { trait_name: "Iterable"@, method: "iter"@ },
            ),
            Some(method) => if def.params.len() == 0 {
                no_iter(
                    st,
                    TypeErrorV::TraitArityMismatch { trait_name: "Iterable"@, expected: 1, got: 0 },
                )
            } else if method.params.len() == 0 {
                no_iter(
                    st,
                    TypeErrorV::TraitMethodArityMismatch {
                        trait_name: "Iterable"@,
                        method: "iter"@,
                        expected: 1,
                        got: 0,
                    },
                )
            } else {
                let target = next_var(st);
                let a = written(
                    fresh(st),
                    Map::<Seq<char>, TyVar>::empty().insert(def.params[0], target),
                    method.params[0].ty,
                );
                match a.res {
                    Err(e) => no_iter(a.st, e),
                    Ok(self_ty) => {
                        let b = written(a.st, a.vars, method.ret_type);
                        match b.res {
                            Err(e) => no_iter(b.st, e),
                            Ok(ret) => IterV {
                                st: b.st,
                                target: TyV::Var(target),
                                self_ty,
                                ret,
                                err: None,
                            },
                        }
                    },
                }
            },
        }
    }
}

/// The error of a method that a receiver does not have.
#[verifier::opaque]
pub open spec fn no_method(st: InferV, receiver: TyV, method: Seq<char>) -> TypeErrorV {
    let candidates = method_candidates(st, method);
    if candidates.len() == 0 {
        TypeErrorV::UnknownMethod { receiver: pretty(receiver), method }
    } else if open_array(receiver) && some_bracket(candidates) {
        TypeErrorV::UnknownMethodOnUnresolvedArray {
            receiver: pretty(receiver),
            method,
            candidates,
        }
    } else {
        TypeErrorV::UnknownMethodWithCandidates { receiver: pretty(receiver), method, candidates }
    }
}

/// Whether a candidate is a method of an array.
pub open spec fn some_bracket(candidates: Seq<Seq<char>>) -> bool {
    exists|i: int|
        0 <= i < candidates.len() && (#[trigger] candidates[i]).len() > 0 && candidates[i][0]
            == '['
}

fn any_bracket(candidates: &Vec<String>) -> (r: bool)
    ensures
        r == some_bracket(strings_view(candidates@)),
{
    let ghost all = strings_view(candidates@);
    let mut i: usize = 0;
    while i < candidates.len()
        invariant
            i <= candidates.len(),
            all == strings_view(candidates@),
            forall|j: int|
                0 <= j < i ==> !((#[trigger] all[j]).len() > 0 && all[j][0] == '['),
        decreases candidates.len() - i,
    {
        assert(all[i as int] == candidates@[i as int]@);
        let s = candidates[i].as_str();
        if s.unicode_len() > 0 && s.get_char(0) == '[' {
            assert(all[i as int].len() > 0 && all[i as int][0] == '[');
            return true;
        }
        i = i + 1;
    }
    false
}

impl Infer {
    fn plain_apply(&mut self, callee: Ty, args: &Vec<Ty>) -> (r: Result<Ty, SpannedTypeError>)
        requires
            old(self).wf(),
        ensures
            final(self).wf(),
            (final(self)@, ty_res(r)) == plain_apply(old(self)@, callee@, tys_view(args@)),
    {
        let ret = self.fresh_ty();
        let want = value_func(args, &ret);
        match self.equate(callee, want) {
            Err(e) => Err(e.unspanned()),
            Ok(_) => Ok(self.resolve(&ret)),
        }
    }

    fn scheme_apply(
        &mut self,
        env: &TypeEnv,
        scheme: &Scheme,
        args: Vec<Ty>,
        dicts: &mut Vec<DictRef>,
        pending: &mut Vec<PendingDictArg>,
    ) -> (r: Result<Ty, SpannedTypeError>)
        requires
            old(self).wf(),
        ensures
            final(self).wf(),
            (UseRun {
                st: final(self)@,
                args: ArgsV {
                    dicts: dict_refs_view(final(dicts)@),
                    pending: pending_dict_args_view(final(pending)@),
                },
                res: ty_res(r),
            }) == scheme_apply(
                old(self)@,
                env@,
                scheme@,
                tys_view(args@),
                (ArgsV {
                    dicts: dict_refs_view(old(dicts)@),
                    pending: pending_dict_args_view(old(pending)@),
                }),
            ),
    {
        match self.infer_constrained_apply(env, scheme, args, dicts, pending) {
            Err(e) => Err(e),
            Ok(a) => Ok(a.ret_ty),
        }
    }

    /// Passes a value on to a function.
    pub fn pipe_end(
        &mut self,
        env: &TypeEnv,
        lhs: &Expr,
        rhs: &Expr,
        l_ty: Ty,
        r_ty: Ty,
        dicts: &mut Vec<DictRef>,
        pending: &mut Vec<PendingDictArg>,
    ) -> (r: Result<Ty, SpannedTypeError>)
        requires
            old(self).wf(),
        ensures
            final(self).wf(),
            (UseRun {
                st: final(self)@,
                args: ArgsV {
                    dicts: dict_refs_view(final(dicts)@),
                    pending: pending_dict_args_view(final(pending)@),
                },
                res: ty_res(r),
            }) == pipe_end(
                old(self)@,
                env@,
                lhs@,
                rhs@,
                l_ty@,
                r_ty@,
                (ArgsV {
                    dicts: dict_refs_view(old(dicts)@),
                    pending: pending_dict_args_view(old(pending)@),
                }),
            ),
    {
        proof {
            reveal(pipe_end);
        }
        let ghost lv = l_ty@;
        let args: Vec<Ty> = vec![l_ty];
        assert(tys_view(args@) =~= seq![lv]);
        match &rhs.kind {
            ExprKind::Ident(name) => {
                assert(rhs@.kind == ExprKindV::Ident(name@));
                match env.get(name) {
                    Some(info) => {
                        if scheme_param_is_mut_place(&info.scheme, 0) {
                            match self.check_mutable_place_arg(env, lhs, 0) {
                                Err(e) => {
                                    return Err(e);
                                },
                                Ok(_) => {},
                            }
                        }
                        assert(info@.scheme.constraints.len() == info.scheme.constraints@.len());
                        if info.scheme.constraints.len() > 0 {
                            return self.scheme_apply(env, &info.scheme, args, dicts, pending);
                        }
                    },
                    None => {},
                }
            },
            _ => {},
        }
        self.plain_apply(r_ty, &args)
    }

    /// A use of an operator that is a function.
    pub fn function_operator(
        &mut self,
        env: &TypeEnv,
        op: &String,
        l_ty: Ty,
        r_ty: Ty,
        resolved_op: &mut Option<ResolvedCallee>,
        dicts: &mut Vec<DictRef>,
        pending: &mut Vec<PendingDictArg>,
    ) -> (r: Result<Ty, SpannedTypeError>)
        requires
            old(self).wf(),
        ensures
            final(self).wf(),
            (OpRun {
                st: final(self)@,
                resolved: some_resolved_callee_view(*final(resolved_op)),
                args: ArgsV {
                    dicts: dict_refs_view(final(dicts)@),
                    pending: pending_dict_args_view(final(pending)@),
                },
                res: ty_res(r),
            }) == function_operator(
                old(self)@,
                env@,
                op@,
                l_ty@,
                r_ty@,
                some_resolved_callee_view(*old(resolved_op)),
                (ArgsV {
                    dicts: dict_refs_view(old(dicts)@),
                    pending: pending_dict_args_view(old(pending)@),
                }),
            ),
    {
        proof {
            reveal(function_operator);
        }
        let ghost lv = l_ty@;
        let ghost rv = r_ty@;
        let args: Vec<Ty> = vec![l_ty, r_ty];
        assert(tys_view(args@) =~= seq![lv, rv]);
        match env.get(op) {
            None => Err(TypeError::UnboundVariable(op.clone()).unspanned()),
            Some(info) => {
                assert(info@.scheme.constraints.len() == info.scheme.constraints@.len());
                if info.scheme.constraints.len() > 0 {
                    match self.scheme_apply(env, &info.scheme, args, dicts, pending) {
                        Err(e) => Err(e),
                        Ok(t) => {
                            let found = ResolvedCallee::Function(op.clone());
                            assert(resolved_callee_view(found) == ResolvedCalleeV::Function(op@));
                            *resolved_op = Some(found);
                            Ok(t)
                        },
                    }
                } else {
                    let ty = self.instantiate(&info.scheme);
                    self.plain_apply(ty, &args)
                }
            },
        }
    }

    /// An argument whose type was found.
    pub fn arg_end(&mut self, env: &TypeEnv, e: &Expr, ty: Ty) -> (r: Result<
        (Ty, Option<ArgWrapper>),
        SpannedTypeError,
    >)
        requires
            old(self).wf(),
        ensures
            final(self).wf(),
            final(self)@ == arg_end(old(self)@, env@, e@, ty@).0,
            arg_res(r) == arg_end(old(self)@, env@, e@, ty@).1,
    {
        proof {
            reveal(arg_end);
        }
        let shape = self.resolve(&ty);
        let caps = ty_param_capabilities(&shape);
        let noted = self.metadata.callable_capabilities_for(e.id);
        if some_mut_place(&caps) || some_mut_place(&noted) {
            return Err(TypeError::MutableFunctionCapabilityMismatch.at(e.span));
        }
        let (cs, inner) = split_qualified(ty);
        let arg_ty = self.resolve(&inner);
        if cs.len() == 0 {
            return Ok((arg_ty, None));
        }
        let mut dict_args: Vec<DictRef> = Vec::new();
        let mut pending_dict_args: Vec<PendingDictArg> = Vec::new();
        assert(dict_refs_view(dict_args@) =~= Seq::empty());
        assert(pending_dict_args_view(pending_dict_args@) =~= Seq::empty());
        match self.give_dicts(env, &mut dict_args, &mut pending_dict_args, &cs) {
            Err(err) => Err(err.at(e.span)),
            Ok(_) => {
                let w = ArgWrapper { dict_args, pending_dict_args };
                assert(arg_wrapper_view(w) == (ArgWrapperV {
                    dict_args: dict_refs_view(dict_args@),
                    pending_dict_args: pending_dict_args_view(pending_dict_args@),
                }));
                let some = Some(w);
                assert(some_arg_wrapper_view(some) == Some(arg_wrapper_view(w)));
                Ok((arg_ty, some))
            },
        }
    }

    /// What `iter` of the iterable trait takes and gives.
    pub fn iter_types(&mut self) -> (r: Result<(Ty, Ty, Ty), TypeError>)
        requires
            old(self).wf(),
        ensures
            final(self).wf(),
            ({
                let want = iter_types(old(self)@);
                final(self)@ == want.st && match want.err {
                    Some(e) => r is Err && r->Err_0@ == e,
                    None => r is Ok && r->Ok_0.0@ == want.target && r->Ok_0.1@ == want.self_ty
                        && r->Ok_0.2@ == want.ret,
                }
            }),
    {
        proof {
            reveal(iter_types);
        }
        let found = match self.traits.env.get("Iterable") {
            None => {
                return Err(TypeError::UnknownTrait("Iterable".to_owned()));
            },
            Some(def) => match find_trait_method(def, "iter") {
                None => {
                    return Err(
                        TypeError::UnknownTraitMethod {
                            trait_name: "Iterable".to_owned(),
                            method: "iter".to_owned(),
                        },
                    );
                },
                Some(method) => {
                    assert(def@.params.len() == def.params@.len());
                    assert(method@.params.len() == method.params@.len());
                    if def.params.len() == 0 {
                        return Err(
                            TypeError::TraitArityMismatch {
                                trait_name: "Iterable".to_owned(),
                                expected: 1,
                                got: 0,
                            },
                        );
                    }
                    if method.params.len() == 0 {
                        return Err(
                            TypeError::TraitMethodArityMismatch {
                                trait_name: "Iterable".to_owned(),
                                method: "iter".to_owned(),
                                expected: 1,
                                got: 0,
                            },
                        );
                    }
                    assert(def@.params[0] == def.params@[0]@);
                    assert(method@.params[0] == crate::ast_view::named_type_view(
                        method.params@[0],
                    ));
                    (def.params[0].clone(), method.params[0].ty.clone(), method.ret_type.clone())
                },
            },
        };
        let target = self.fresh_var();
        let mut vars: NameMap<TyVar> = NameMap::new();
        vars.insert(found.0, target);
        match self.written(&found.1, &mut vars) {
            Err(e) => Err(e),
            Ok(self_ty) => match self.written(&found.2, &mut vars) {
                Err(e) => Err(e),
                Ok(ret) => Ok((Ty::Var(target), self_ty, ret)),
            },
        }
    }

    /// The error of a method that a receiver does not have.
    pub fn no_method(&self, receiver: &Ty, method: &str) -> (r: TypeError)
        ensures
            r@ == no_method(self@, receiver@, method@),
    {
        proof {
            reveal(no_method);
        }
        let shown = pretty_method_receiver_for_error(receiver);
        let candidates = self.inherent_method_candidates(method);
        assert(strings_view(candidates@).len() == candidates@.len());
        if candidates.len() == 0 {
            TypeError::UnknownMethod { receiver: shown, method: method.to_owned() }
        } else if is_array_with_unresolved_element(receiver) && any_bracket(&candidates) {
            TypeError::UnknownMethodOnUnresolvedArray {
                receiver: shown,
                method: method.to_owned(),
                candidates,
            }
        } else {
            TypeError::UnknownMethodWithCandidates {
                receiver: shown,
                method: method.to_owned(),
                candidates,
            }
        }
    }
}

/// An operator of a trait whose left operand is known.
pub struct StartedV {
    pub st: InferV,
    pub def: TraitDefV,
    pub args: Seq<TyV>,
    /// What the right operand has to be.
    pub right: TyV,
    pub ret: TyV,
    pub err: Option<TypeErrorV>,
}

pub struct Started {
    pub def: TraitDef,
    pub args: Vec<Ty>,
    pub right: Ty,
    pub ret: Ty,
}

/// An operator of a trait once the left operand has this type.
#[verifier::opaque]
pub open spec fn operator_start(
    st: InferV,
    trait_name: Seq<char>,
    op: Seq<char>,
    l_ty: TyV,
) -> StartedV {
    match operator_method(st, trait_name, op, 2) {
        Err(e) => StartedV {
            st,
            def: arbitrary(),
            args: Seq::empty(),
            right: TyV::Unit,
            ret: TyV::Unit,
            err: Some(e),
        },
        Ok(o) => {
            let t = operator_types(st, o);
            let u = equate(t.st, l_ty, t.params[0]);
            StartedV {
                st: if t.err is Some {
                    t.st
                } else {
                    u.0
                },
                def: o.def,
                args: t.args,
                right: resolved(u.0, t.params[1]),
                ret: t.ret,
                err: if t.err is Some {
                    t.err
                } else {
                    u.1
                },
            }
        },
    }
}

/// What an operator of a trait leads to.
pub struct OpEnd {
    pub st: InferV,
    pub op: OpV,
    pub res: Result<TyV, SpannedV>,
}

/// An operator of a trait once both operands have a type.
#[verifier::opaque]
pub open spec fn operator_end(
    st: InferV,
    env: EnvV,
    def: TraitDefV,
    args: Seq<TyV>,
    right: TyV,
    ret: TyV,
    trait_name: Seq<char>,
    op: Seq<char>,
    l_ty: TyV,
    r_ty: TyV,
    before: OpV,
) -> OpEnd {
    let u = equate(st, r_ty, right);
    match u.1 {
        Some(e) => OpEnd { st: u.0, op: before, res: failed(e) },
        None => if def.params.len() == 1 {
            let c = choose_dict(u.0, env, trait_name, resolved(u.0, args[0]));
            match c.1 {
                Err(e) => OpEnd { st: c.0, op: before, res: failed(e) },
                Ok(choice) => OpEnd {
                    st: c.0,
                    op: chosen(before, choice, op),
                    res: Ok(resolved(c.0, ret)),
                },
            }
        } else {
            let d = multi_operator(
                u.0,
                env,
                def,
                trait_name,
                op,
                args,
                l_ty,
                right,
                ret,
            );
            match d.1 {
                Err(e) => OpEnd { st: d.0, op: before, res: Err(e) },
                Ok(DispatchV::Resolved(ty, callee)) => OpEnd {
                    st: d.0,
                    op: OpV { resolved: Some(callee), ..before },
                    res: Ok(ty),
                },
                Ok(DispatchV::Pending(ty, method)) => OpEnd {
                    st: d.0,
                    op: OpV { pending: Some(method.pending), ..before },
                    res: Ok(ty),
                },
                Ok(DispatchV::Unknown) => OpEnd {
                    st: d.0,
                    op: before,
                    res: failed(unresolved("operator"@, trait_name)),
                },
            }
        },
    }
}

impl Infer {
    pub fn operator_start(&mut self, trait_name: &str, op: &str, l_ty: &Ty) -> (r: Result<
        Started,
        TypeError,
    >)
        requires
            old(self).wf(),
        ensures
            final(self).wf(),
            ({
                let want = operator_start(old(self)@, trait_name@, op@, l_ty@);
                final(self)@ == want.st && match want.err {
                    Some(e) => r is Err && r->Err_0@ == e,
                    None => r is Ok && r->Ok_0.def@ == want.def && tys_view(r->Ok_0.args@)
                        == want.args && r->Ok_0.right@ == want.right && r->Ok_0.ret@ == want.ret
                        && r->Ok_0.args@.len() > 0,
                }
            }),
    {
        proof {
            reveal(operator_start);
            reveal(operator_method);
        }
        let (def, method) = match self.operator_method(trait_name, op, 2) {
            Err(e) => {
                return Err(e);
            },
            Ok(t) => t,
        };
        let (args, params, ret) = match self.instantiate_operator_trait_method(&def, &method) {
            Err(e) => {
                return Err(e);
            },
            Ok(t) => t,
        };
        assert(tys_view(params@)[0] == params@[0]@);
        assert(tys_view(params@)[1] == params@[1]@);
        match self.equate(l_ty.clone(), params[0].clone()) {
            Err(e) => {
                return Err(e);
            },
            Ok(_) => {},
        }
        let right = self.resolve(&params[1]);
        Ok(Started { def, args, right, ret })
    }

    pub fn operator_end(
        &mut self,
        env: &TypeEnv,
        o: &Started,
        trait_name: &str,
        op: &str,
        l_ty: &Ty,
        r_ty: Ty,
        resolved_op: &mut Option<ResolvedCallee>,
        pending_op: &mut Option<PendingDictArg>,
    ) -> (r: Result<Ty, SpannedTypeError>)
        requires
            old(self).wf(),
            o.args@.len() > 0,
        ensures
            final(self).wf(),
            (OpEnd {
                st: final(self)@,
                op: OpV {
                    resolved: some_resolved_callee_view(*final(resolved_op)),
                    pending: some_pending_dict_arg_view(*final(pending_op)),
                },
                res: ty_res(r),
            }) == operator_end(
                old(self)@,
                env@,
                o.def@,
                tys_view(o.args@),
                o.right@,
                o.ret@,
                trait_name@,
                op@,
                l_ty@,
                r_ty@,
                (OpV {
                    resolved: some_resolved_callee_view(*old(resolved_op)),
                    pending: some_pending_dict_arg_view(*old(pending_op)),
                }),
            ),
    {
        proof {
            reveal(operator_end);
        }
        match self.equate(r_ty, o.right.clone()) {
            Err(e) => {
                return Err(e.unspanned());
            },
            Ok(_) => {},
        }
        assert(o.def@.params.len() == o.def.params@.len());
        if o.def.params.len() == 1 {
            assert(tys_view(o.args@)[0] == o.args@[0]@);
            let target = self.resolve(&o.args[0]);
            match self.resolve_trait_dict(env, trait_name, &target) {
                Err(e) => Err(e.unspanned()),
                Ok(choice) => {
                    set_choice(choice, op, resolved_op, pending_op);
                    Ok(self.resolve(&o.ret))
                },
            }
        } else {
            match self.multi_operator(
                env,
                &o.def,
                trait_name,
                op,
                &o.args,
                l_ty,
                &o.right,
                &o.ret,
            ) {
                Err(e) => Err(e),
                Ok(Dispatch::Resolved(ty, callee)) => {
                    *resolved_op = Some(callee);
                    Ok(ty)
                },
                Ok(Dispatch::Pending(ty, method)) => {
                    *pending_op = Some(method.pending);
                    Ok(ty)
                },
                Ok(Dispatch::Unknown) => Err(
                    TypeError::UnresolvedTrait {
                        context: "operator".to_owned(),
                        trait_name: trait_name.to_owned(),
                    }.unspanned(),
                ),
            }
        }
    }
}

} // verus!
