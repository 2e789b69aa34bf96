//! The parts of the rules for expressions that look at no further expression.

use vstd::prelude::*;

use crate::associated::{inherent_member, inherent_use, trait_member, trait_use, under};
use crate::associated::{under_constraints, view_res};
use crate::ast::{AssociatedAccessResolution, DictRef, Expr, ExprKind, NodeId, Pattern};
use crate::ast::{PendingDictArg, ResolvedCallee, SourceSpan, TraitDef, TraitMethod, Type};
use crate::ast::NO_NODE_ID;
use crate::ast_view::{associated_access_resolution_view, dict_ref_view, dict_refs_view};
use crate::ast_view::{exprs_view, pending_dict_args_view, resolved_callee_view};
use crate::ast_view::{some_associated_access_resolution_view, some_dict_ref_view};
use crate::ast_view::{AssociatedAccessResolutionV, DictRefV, ExprKindV, ExprV, PatternV};
use crate::ast_view::{PendingDictArgV, ResolvedCalleeV, TraitDefV, TraitMethodV, TypeV};
use crate::convert::VarNames;
use crate::dict_uses::{all_known, all_shown, select_tys, show_types};
use crate::dicts::shown;
use crate::dispatch::{apply_pending, dispatch_res, find_trait_method, method_named};
use crate::dispatch::{method_param_types, method_types, multi_dispatch, types_of, unresolved};
use crate::dispatch::{Dispatch, DispatchV};
use crate::env::{EnvV, TypeEnv};
use crate::error::{error_at, unspanned_error, SpannedTypeError, SpannedV, TypeError, TypeErrorV};
use crate::pattern_infer::with_capability;
use crate::places::{opt_caps, place_errors, spanned_error_of};
use crate::rows::FieldV;
use crate::schemes::{instance, qualified, value_of};
use crate::state::{fresh, next_var, with_callable, with_expr_type, with_fresh_place};
use crate::state::{with_symbol_type, Infer, InferV};
use crate::steps::{all_in, equate, failed, failed_at, give_dicts, resolved, ty_res};
use crate::tables::NameMap;
use crate::text::{join, join_strings, str_eq};
use crate::ty::{clone_fields, clone_params, clone_tys, constraints_view, field_view, fields_view};
use crate::ty::{params_view, row_view, ty_eq, ty_view, tys_view, BindingCapabilities};
use crate::ty::{ConstraintV, ParamCapability, Row, RowV, Scheme, SchemeV, TraitConstraint, Ty};
use crate::ty::{TyV, TyVar};
use crate::ty_helpers::{call_type, expected_func, fresh_named, func_returns_fresh};
use crate::ty_helpers::{has_field, merge_field, merge_record_field, merge_tail, returns_fresh};
use crate::ty_helpers::{ty_caps, ty_param_capabilities};
use crate::type_syntax::{dict_indexes, selected, trait_dict_indexes};
use crate::unify::error_of;
use crate::vars::free_type_vars;

verus! {

/// The state with the type of an expression noted.
pub open spec fn noted_type(st: InferV, id: NodeId, ty: TyV) -> InferV {
    InferV { meta: with_expr_type(st.meta, id, ty), ..st }
}

/// The state with the type of a name noted.
pub open spec fn noted_symbol(st: InferV, id: NodeId, ty: TyV) -> InferV {
    InferV { meta: with_symbol_type(st.meta, id, ty), ..st }
}

/// The state with what a callable may be given noted.
pub open spec fn noted_caps(st: InferV, id: NodeId, caps: Seq<ParamCapability>) -> InferV {
    InferV { meta: with_callable(st.meta, id, caps), ..st }
}

/// The state with a fresh place noted, if it is one.
pub open spec fn noted_fresh(st: InferV, id: NodeId, is_fresh: bool) -> InferV {
    if is_fresh {
        InferV { meta: with_fresh_place(st.meta, id), ..st }
    } else {
        st
    }
}

/// An error at a place, if there is one.
pub open spec fn maybe_at(e: TypeErrorV, span: Option<SourceSpan>) -> SpannedV {
    match span {
        Some(s) => error_at(e, s),
        None => unspanned_error(e),
    }
}

fn at_maybe(e: TypeError, span: Option<SourceSpan>) -> (r: SpannedTypeError)
    ensures
        r@ == maybe_at(e@, span),
{
    match span {
        Some(s) => e.at(s),
        None => e.unspanned(),
    }
}

// ---------------------------------------------------------------------------
// Calls
// ---------------------------------------------------------------------------

/// A checked call.
pub struct AppliedV {
    pub ret: TyV,
    pub args: Seq<TyV>,
    pub call_ty: TyV,
    pub is_fresh: bool,
}

/// A checked call.
pub struct AppliedCall {
    pub ret_ty: Ty,
    pub arg_tys: Vec<Ty>,
    pub call_ty: Ty,
    pub fresh_return: bool,
}

impl View for AppliedCall {
    type V = AppliedV;

    open spec fn view(&self) -> AppliedV {
        AppliedV {
            ret: self.ret_ty@,
            args: tys_view(self.arg_tys@),
            call_ty: self.call_ty@,
            is_fresh: self.fresh_return,
        }
    }
}

/// What finishing a call leads to.
pub struct FinishV {
    pub st: InferV,
    pub dicts: Seq<DictRefV>,
    pub pending: Seq<PendingDictArgV>,
    pub res: Result<AppliedV, SpannedV>,
}

/// The number of parameters of a function type.
pub open spec fn arity_of(callable: TyV) -> Option<nat> {
    match callable {
        TyV::Func(ps, _) => Some(ps.len()),
        _ => None,
    }
}

/// Checks a callable against arguments of known types, and gives it the dictionaries
/// that it asks for. `caps` says which arguments must be mutable places where the
/// type does not say so.
#[verifier::opaque]
pub open spec fn finish_call(
    st: InferV,
    env: EnvV,
    call_args: Seq<ExprV>,
    tys: Seq<TyV>,
    callable: TyV,
    constraints: Seq<ConstraintV>,
    caps: Seq<ParamCapability>,
    span: Option<SourceSpan>,
    dict_span: Option<SourceSpan>,
    dicts: Seq<DictRefV>,
    pending: Seq<PendingDictArgV>,
) -> FinishV {
    let arity = arity_of(callable);
    if arity is Some && arity->Some_0 != tys.len() {
        FinishV {
            st,
            dicts,
            pending,
            res: Err(
                maybe_at(
                    TypeErrorV::ArityMismatch {
                        expected: arity->Some_0 as usize,
                        got: tys.len() as usize,
                    },
                    span,
                ),
            ),
        }
    } else {
        let places = if arity is Some {
            None
        } else {
            place_errors(st, env, call_args, caps, 0)
        };
        match places {
            Some(e) => FinishV { st, dicts, pending, res: Err(e) },
            None => {
                let ret = TyV::Var(next_var(st));
                let call_ty = call_type(callable, tys, ret);
                let u = equate(fresh(st), callable, call_ty);
                match u.1 {
                    Some(e) => FinishV { st: u.0, dicts, pending, res: failed(e) },
                    None => {
                        let g = give_dicts(u.0, env, dicts, pending, constraints);
                        match g.err {
                            Some(e) => FinishV {
                                st: g.st,
                                dicts: g.dicts,
                                pending: g.pending,
                                res: Err(maybe_at(e, dict_span)),
                            },
                            None => FinishV {
                                st: g.st,
                                dicts: g.dicts,
                                pending: g.pending,
                                res: Ok(
                                    AppliedV {
                                        ret: resolved(g.st, ret),
                                        args: tys,
                                        call_ty,
                                        is_fresh: returns_fresh(callable),
                                    },
                                ),
                            },
                        }
                    },
                }
            },
        }
    }
}

/// A call of a scheme with constraints on arguments of known types.
#[verifier::opaque]
pub open spec fn constrained_apply(
    st: InferV,
    env: EnvV,
    scheme: SchemeV,
    tys: Seq<TyV>,
    dicts: Seq<DictRefV>,
    pending: Seq<PendingDictArgV>,
) -> FinishV {
    let inst = instance(st, scheme);
    finish_call(
        inst.0,
        env,
        Seq::empty(),
        tys,
        inst.1.ty,
        inst.1.constraints,
        Seq::empty(),
        None,
        None,
        dicts,
        pending,
    )
}

/// The parameters of a function type.
pub open spec fn params_of(callable: TyV) -> Seq<crate::ty::ParamV> {
    match callable {
        TyV::Func(ps, _) => ps,
        _ => Seq::empty(),
    }
}

pub fn func_params_of(callable: &Ty) -> (r: Vec<crate::ty::FuncParam>)
    ensures
        params_view(r@) == params_of(callable@),
{
    match callable {
        Ty::Func(ps, _) => clone_params(ps),
        _ => {
            let ps: Vec<crate::ty::FuncParam> = Vec::new();
            assert(params_view(ps@) =~= Seq::empty());
            ps
        },
    }
}

/// Makes the type of a receiver equal to the first parameter.
#[verifier::opaque]
pub open spec fn lead_arg(st: InferV, callable: TyV, lead: TyV, span: SourceSpan) -> (
    InferV,
    Option<SpannedV>,
) {
    if params_of(callable).len() > 0 {
        let u = equate(st, lead, params_of(callable)[0].ty);
        (
            u.0,
            match u.1 {
                Some(e) => Some(error_at(e, span)),
                None => None,
            },
        )
    } else {
        (st, None)
    }
}

impl Infer {
    /// Checks a callable against arguments of known types.
    pub fn finish_call(
        &mut self,
        env: &TypeEnv,
        call_args: &Vec<Expr>,
        tys: Vec<Ty>,
        callable: Ty,
        constraints: &Vec<TraitConstraint>,
        caps: &Vec<ParamCapability>,
        span: Option<SourceSpan>,
        dict_span: Option<SourceSpan>,
        dicts: &mut Vec<DictRef>,
        pending: &mut Vec<PendingDictArg>,
    ) -> (r: Result<AppliedCall, SpannedTypeError>)
        requires
            old(self).wf(),
        ensures
            final(self).wf(),
            (FinishV {
                st: final(self)@,
                dicts: dict_refs_view(final(dicts)@),
                pending: pending_dict_args_view(final(pending)@),
                res: view_res(r),
            }) == finish_call(
                old(self)@,
                env@,
                exprs_view(call_args@),
                tys_view(tys@),
                callable@,
                constraints_view(constraints@),
                caps@,
                span,
                dict_span,
                dict_refs_view(old(dicts)@),
                pending_dict_args_view(old(pending)@),
            ),
    {
        proof {
            reveal(finish_call);
        }
        assert(tys_view(tys@).len() == tys@.len());
        match &callable {
            Ty::Func(ps, _) => {
                assert(params_view(ps@).len() == ps@.len());
                if ps.len() != tys.len() {
                    return Err(
                        at_maybe(
                            TypeError::ArityMismatch { expected: ps.len(), got: tys.len() },
                            span,
                        ),
                    );
                }
            },
            _ => {
                match self.check_mutable_place_args_from(env, call_args, caps, 0) {
                    Err(e) => {
                        return Err(e);
                    },
                    Ok(_) => {},
                }
            },
        }
        let ret = self.fresh_ty();
        let call_ty = expected_func(&callable, &tys, &ret);
        let fresh_return = func_returns_fresh(&callable);
        match self.equate(callable, call_ty.clone()) {
            Err(e) => {
                return Err(e.unspanned());
            },
            Ok(_) => {},
        }
        match self.give_dicts(env, dicts, pending, constraints) {
            Err(e) => {
                return Err(at_maybe(e, dict_span));
            },
            Ok(_) => {},
        }
        let ret_ty = self.resolve(&ret);
        Ok(AppliedCall { ret_ty, arg_tys: tys, call_ty, fresh_return })
    }

    /// A call of a scheme with constraints on arguments of known types.
    pub fn infer_constrained_apply(
        &mut self,
        env: &TypeEnv,
        scheme: &Scheme,
        tys: Vec<Ty>,
        dicts: &mut Vec<DictRef>,
        pending: &mut Vec<PendingDictArg>,
    ) -> (r: Result<AppliedCall, SpannedTypeError>)
        requires
            old(self).wf(),
        ensures
            final(self).wf(),
            (FinishV {
                st: final(self)@,
                dicts: dict_refs_view(final(dicts)@),
                pending: pending_dict_args_view(final(pending)@),
                res: view_res(r),
            }) == constrained_apply(
                old(self)@,
                env@,
                scheme@,
                tys_view(tys@),
                dict_refs_view(old(dicts)@),
                pending_dict_args_view(old(pending)@),
            ),
    {
        proof {
            reveal(constrained_apply);
        }
        let inst = self.instantiate_scheme(scheme);
        let no_args: Vec<Expr> = Vec::new();
        let no_caps: Vec<ParamCapability> = Vec::new();
        assert(exprs_view(no_args@) =~= Seq::empty());
        assert(no_caps@ =~= Seq::empty());
        self.finish_call(
            env,
            &no_args,
            tys,
            inst.ty,
            &inst.constraints,
            &no_caps,
            None,
            None,
            dicts,
            pending,
        )
    }

    /// Makes the type of a receiver equal to the first parameter.
    pub fn lead_arg(&mut self, callable: &Ty, lead: &Ty, span: SourceSpan) -> (r: Result<
        (),
        SpannedTypeError,
    >)
        requires
            old(self).wf(),
        ensures
            final(self).wf(),
            (final(self)@, spanned_error_of(r)) == lead_arg(
                old(self)@,
                callable@,
                lead@,
                span,
            ),
    {
        proof {
            reveal(lead_arg);
        }
        match callable {
            Ty::Func(ps, _) => {
                assert(params_view(ps@).len() == ps@.len());
                if ps.len() > 0 {
                    assert(params_view(ps@)[0] == crate::ty::param_view(ps@[0]));
                    match self.equate(lead.clone(), ps[0].ty.clone()) {
                        Err(e) => Err(e.at(span)),
                        Ok(_) => Ok(()),
                    }
                } else {
                    Ok(())
                }
            },
            _ => Ok(()),
        }
    }
}

// ---------------------------------------------------------------------------
// Names and members
// ---------------------------------------------------------------------------

/// A use of a name.
#[verifier::opaque]
pub open spec fn ident_use(st: InferV, env: EnvV, name: Seq<char>, id: NodeId, span: SourceSpan) -> (
    InferV,
    Result<TyV, SpannedV>,
) {
    if !env.dom().contains(name) {
        (st, failed(TypeErrorV::UnboundVariable(name)))
    } else {
        let info = env[name];
        let inst = instance(st, info.scheme);
        let ty = value_of(inst.1);
        if id == NO_NODE_ID {
            (inst.0, Ok(ty))
        } else {
            let noted = with_capability(noted_symbol(inst.0, id, ty), span, info.place_mutable);
            if resolved(noted, info.scheme.ty) is Func {
                (noted_caps(noted, id, ty_caps(info.scheme.ty)), Ok(ty))
            } else {
                (noted, Ok(ty))
            }
        }
    }
}

/// A use of a member of an imported module.
#[verifier::opaque]
pub open spec fn imported_use(st: InferV, id: NodeId, scheme: SchemeV) -> (InferV, TyV) {
    let inst = instance(st, scheme);
    let ty = value_of(inst.1);
    if scheme.ty is Func {
        (noted_caps(inst.0, id, ty_caps(scheme.ty)), ty)
    } else {
        (inst.0, ty)
    }
}

/// What `Type::member` leads to. If `out` holds, the outcome is passed on as it is.
pub struct AccessRun {
    pub st: InferV,
    pub resolution: Option<AssociatedAccessResolutionV>,
    pub res: Result<TyV, SpannedV>,
    pub out: bool,
}

/// A member that is defined for a type itself, as a value.
pub open spec fn inherent_value(
    st: InferV,
    id: NodeId,
    target: TypeV,
    target_span: SourceSpan,
    info: crate::state::MethodInfoV,
    resolution: Option<AssociatedAccessResolutionV>,
    out: bool,
) -> AccessRun {
    let u = inherent_use(st, target, target_span, info);
    match u.1 {
        Err(e) => AccessRun { st: u.0, resolution, res: Err(e), out: true },
        Ok(use_) => {
            let ty = under(use_.constraints, use_.callable);
            AccessRun {
                st: noted_symbol(u.0, id, ty),
                resolution: Some(AssociatedAccessResolutionV::Inherent(info.resolved_callee)),
                res: Ok(ty),
                out,
            }
        },
    }
}

/// The value of `Type::member`.
#[verifier::opaque]
pub open spec fn associated_access(
    st: InferV,
    env: EnvV,
    id: NodeId,
    target: TypeV,
    target_span: SourceSpan,
    member: Seq<char>,
    member_span: SourceSpan,
    resolution: Option<AssociatedAccessResolutionV>,
) -> AccessRun {
    match trait_member(st, target, member, member_span) {
        Ok(Some(lookup)) => {
            let u = trait_use(st, env, lookup.def, lookup.method, lookup.explicit, target_span);
            match u.1 {
                Err(e) => AccessRun { st: u.0, resolution, res: Err(e), out: true },
                Ok(use_) => {
                    let ty = under(use_.constraints, use_.callable);
                    AccessRun {
                        st: noted_symbol(u.0, id, ty),
                        resolution: Some(
                            AssociatedAccessResolutionV::TraitMethod {
                                method: lookup.method.name,
                                dict: use_.dict,
                            },
                        ),
                        res: Ok(ty),
                        out: true,
                    }
                },
            }
        },
        Err(e) => if e.error is UnknownTraitMethod {
            match inherent_member(st, target, target_span, member, member_span) {
                Ok(info) => inherent_value(st, id, target, target_span, info, resolution, true),
                Err(_) => AccessRun { st, resolution, res: Err(e), out: true },
            }
        } else {
            AccessRun { st, resolution, res: Err(e), out: true }
        },
        Ok(None) => match inherent_member(st, target, target_span, member, member_span) {
            Ok(info) => inherent_value(st, id, target, target_span, info, resolution, false),
            Err(e) => AccessRun { st, resolution, res: Err(e), out: true },
        },
    }
}

/// Whether an error is that of a trait method that does not exist.
pub fn is_unknown_trait_method_error(e: &SpannedTypeError) -> (r: bool)
    ensures
        r == (e@.error is UnknownTraitMethod),
{
    match &*e.error {
        TypeError::UnknownTraitMethod { .. } => true,
        _ => false,
    }
}

impl Infer {
    /// A use of a name.
    pub fn infer_ident(&mut self, env: &TypeEnv, name: &String, id: NodeId, span: SourceSpan) -> (r:
        Result<Ty, SpannedTypeError>)
        requires
            old(self).wf(),
        ensures
            final(self).wf(),
            (final(self)@, ty_res(r)) == ident_use(old(self)@, env@, name@, id, span),
    {
        proof {
            reveal(ident_use);
        }
        match env.get(name) {
            None => Err(TypeError::UnboundVariable(name.clone()).unspanned()),
            Some(info) => {
                let inst = self.instantiate_scheme(&info.scheme);
                let ty = qualified(inst);
                if id != NO_NODE_ID {
                    self.metadata.record_symbol_type(id, ty.clone());
                    self.metadata.record_binding_capability(
                        span,
                        BindingCapabilities { place_mutable: info.is_place_mutable() },
                    );
                    let shape = self.resolve(&info.scheme.ty);
                    match shape {
                        Ty::Func(_, _) => {
                            let caps = ty_param_capabilities(&info.scheme.ty);
                            self.metadata.record_callable_capabilities(id, caps);
                        },
                        _ => {},
                    }
                }
                Ok(ty)
            },
        }
    }

    /// A use of a member of an imported module.
    pub fn infer_imported(&mut self, id: NodeId, scheme: &Scheme) -> (r: Ty)
        requires
            old(self).wf(),
        ensures
            final(self).wf(),
            (final(self)@, r@) == imported_use(old(self)@, id, scheme@),
    {
        proof {
            reveal(imported_use);
        }
        let inst = self.instantiate_scheme(scheme);
        let ty = qualified(inst);
        match &scheme.ty {
            Ty::Func(_, _) => {
                let caps = ty_param_capabilities(&scheme.ty);
                self.metadata.record_callable_capabilities(id, caps);
            },
            _ => {},
        }
        ty
    }

    fn inherent_value(
        &mut self,
        id: NodeId,
        target: &Type,
        target_span: SourceSpan,
        info: crate::state::InherentMethodInfo,
        resolution: &mut Option<AssociatedAccessResolution>,
        out: bool,
    ) -> (r: (Result<Ty, SpannedTypeError>, bool))
        requires
            old(self).wf(),
        ensures
            final(self).wf(),
            (AccessRun {
                st: final(self)@,
                resolution: some_associated_access_resolution_view(*final(resolution)),
                res: ty_res(r.0),
                out: r.1,
            }) == inherent_value(
                old(self)@,
                id,
                target@,
                target_span,
                info@,
                some_associated_access_resolution_view(*old(resolution)),
                out,
            ),
    {
        match self.instantiate_associated_inherent_method(target, target_span, &info) {
            Err(e) => (Err(e), true),
            Ok(use_) => {
                let ty = under_constraints(&use_.constraints, &use_.callable_ty);
                let found = AssociatedAccessResolution::Inherent(info.resolved_callee);
                assert(associated_access_resolution_view(found)
                    == AssociatedAccessResolutionV::Inherent(info@.resolved_callee));
                *resolution = Some(found);
                self.metadata.record_symbol_type(id, ty.clone());
                (Ok(ty), out)
            },
        }
    }

    /// The value of `Type::member`.
    pub fn infer_associated_access(
        &mut self,
        env: &TypeEnv,
        id: NodeId,
        target: &Type,
        target_span: SourceSpan,
        member: &String,
        member_span: SourceSpan,
        resolution: &mut Option<AssociatedAccessResolution>,
    ) -> (r: (Result<Ty, SpannedTypeError>, bool))
        requires
            old(self).wf(),
        ensures
            final(self).wf(),
            (AccessRun {
                st: final(self)@,
                resolution: some_associated_access_resolution_view(*final(resolution)),
                res: ty_res(r.0),
                out: r.1,
            }) == associated_access(
                old(self)@,
                env@,
                id,
                target@,
                target_span,
                member@,
                member_span,
                some_associated_access_resolution_view(*old(resolution)),
            ),
    {
        proof {
            reveal(associated_access);
        }
        match self.associated_trait_method(target, member, member_span) {
            Ok(Some(lookup)) => {
                match self.instantiate_associated_trait_method(
                    env,
                    &lookup.trait_def,
                    &lookup.method,
                    &lookup.explicit_args,
                    target_span,
                ) {
                    Err(e) => (Err(e), true),
                    Ok(use_) => {
                        let ty = under_constraints(&use_.constraints, &use_.callable_ty);
                        let ghost dictv = some_dict_ref_view(use_.dict);
                        let found = AssociatedAccessResolution::TraitMethod {
                            method: lookup.method.name.clone(),
                            dict: use_.dict,
                        };
                        assert(associated_access_resolution_view(found)
                            == (AssociatedAccessResolutionV::TraitMethod {
                            method: lookup@.method.name,
                            dict: dictv,
                        }));
                        *resolution = Some(found);
                        self.metadata.record_symbol_type(id, ty.clone());
                        (Ok(ty), true)
                    },
                }
            },
            Err(e) => {
                if is_unknown_trait_method_error(&e) {
                    match self.associated_inherent_method(
                        target,
                        target_span,
                        member,
                        member_span,
                    ) {
                        Ok(info) => self.inherent_value(
                            id,
                            target,
                            target_span,
                            info,
                            resolution,
                            true,
                        ),
                        Err(_) => (Err(e), true),
                    }
                } else {
                    (Err(e), true)
                }
            },
            Ok(None) => match self.associated_inherent_method(
                target,
                target_span,
                member,
                member_span,
            ) {
                Ok(info) => self.inherent_value(id, target, target_span, info, resolution, false),
                Err(e) => (Err(e), true),
            },
        }
    }
}

// ---------------------------------------------------------------------------
// Literals and matches
// ---------------------------------------------------------------------------

/// Fields with more of them, from the one at `i` on.
pub open spec fn merge_fields(fields: Seq<FieldV>, more: Seq<FieldV>, i: nat) -> Result<
    Seq<FieldV>,
    TypeErrorV,
>
    decreases more.len() - i,
{
    if i >= more.len() {
        Ok(fields)
    } else {
        match merge_field(fields, more[i as int].0, more[i as int].1) {
            Err(e) => Err(e),
            Ok(fs) => merge_fields(fs, more, i + 1),
        }
    }
}

/// A record literal so far.
pub struct LiteralV {
    pub st: InferV,
    pub fields: Seq<FieldV>,
    pub tail: TyV,
    pub err: Option<SpannedV>,
}

/// A record that has nothing but a rest.
pub open spec fn open_record(tail: TyV) -> TyV {
    TyV::Record(RowV { fields: Seq::empty(), tail: Box::new(tail) })
}

fn open_record_ty(tail: Ty) -> (r: Ty)
    ensures
        r@ == open_record(tail@),
{
    let fields: Vec<(String, Ty)> = Vec::new();
    assert(fields_view(fields@) =~= Seq::empty());
    let row = Row { fields, tail: Box::new(tail) };
    assert(row_view(row) == (RowV { fields: Seq::empty(), tail: Box::new(ty_view(tail)) }));
    Ty::Record(row)
}

/// Spreads a record into a literal.
#[verifier::opaque]
pub open spec fn spread_into(
    st: InferV,
    fields: Seq<FieldV>,
    tail: TyV,
    ty: TyV,
    span: SourceSpan,
) -> LiteralV {
    let u = equate(fresh(st), ty, open_record(TyV::Var(next_var(st))));
    match u.1 {
        Some(e) => LiteralV { st: u.0, fields, tail, err: Some(error_at(e, span)) },
        None => {
            let found = resolved(u.0, ty);
            match found {
                TyV::Record(row) => match merge_fields(fields, row.fields, 0) {
                    Err(e) => LiteralV { st: u.0, fields, tail, err: Some(error_at(e, span)) },
                    Ok(fs) => {
                        let t = merge_tail(u.0, tail, *row.tail);
                        match t.1 {
                            Err(e) => LiteralV {
                                st: t.0,
                                fields: fs,
                                tail,
                                err: Some(error_at(e, span)),
                            },
                            Ok(rest) => LiteralV { st: t.0, fields: fs, tail: rest, err: None },
                        }
                    },
                },
                _ => LiteralV {
                    st: fresh(u.0),
                    fields,
                    tail,
                    err: Some(
                        error_at(
                            TypeErrorV::Mismatch(open_record(TyV::Var(next_var(u.0))), found),
                            span,
                        ),
                    ),
                },
            }
        },
    }
}

/// The error of an arm. A type that would have to contain itself is shown as the
/// mismatch that the constructor of the pattern brought.
#[verifier::opaque]
pub open spec fn refined_error(
    p: PatternV,
    before: TyV,
    after: TyV,
    e: SpannedV,
    span: SourceSpan,
) -> SpannedV {
    if p is Constructor && e.error is OccursCheck && before != after {
        error_at(TypeErrorV::Mismatch(after, before), span)
    } else {
        e
    }
}

pub fn constructor_pattern_refinement_mismatch(
    p: &Pattern,
    before: &Ty,
    after: &Ty,
    e: SpannedTypeError,
    span: SourceSpan,
) -> (r: SpannedTypeError)
    ensures
        r@ == refined_error(p@, before@, after@, e@, span),
{
    proof {
        reveal(refined_error);
    }
    let constructor = match p {
        Pattern::Constructor { .. } => true,
        _ => false,
    };
    let occurs = match &*e.error {
        TypeError::OccursCheck(_) => true,
        _ => false,
    };
    if constructor && occurs && !ty_eq(before, after) {
        TypeError::Mismatch(after.clone(), before.clone()).at(span)
    } else {
        e
    }
}

/// The type of what an iterator gives.
pub open spec fn element_of_iterator(ty: TyV) -> TyV {
    match ty {
        TyV::App(_, args) => if args.len() == 1 {
            args[0]
        } else {
            ty
        },
        _ => ty,
    }
}

pub fn iterator_element(ty: Ty) -> (r: Ty)
    ensures
        r@ == element_of_iterator(ty@),
{
    match &ty {
        Ty::App(_, args) => {
            assert(tys_view(args@).len() == args@.len());
            if args.len() == 1 {
                assert(tys_view(args@)[0] == args@[0]@);
                return args[0].clone();
            }
        },
        _ => {},
    }
    ty
}

impl Infer {
    /// Spreads a record into a literal.
    pub fn spread_into(
        &mut self,
        fields: &mut Vec<(String, Ty)>,
        tail: Ty,
        ty: Ty,
        span: SourceSpan,
    ) -> (r: Result<Ty, SpannedTypeError>)
        requires
            old(self).wf(),
        ensures
            final(self).wf(),
            ({
                let want = spread_into(
                    old(self)@,
                    fields_view(old(fields)@),
                    tail@,
                    ty@,
                    span,
                );
                final(self)@ == want.st && match want.err {
                    Some(e) => r is Err && r->Err_0@ == e,
                    None => r is Ok && r->Ok_0@ == want.tail && fields_view(final(fields)@)
                        == want.fields,
                }
            }),
    {
        proof {
            reveal(spread_into);
        }
        let rest = self.fresh_ty();
        match self.equate(ty.clone(), open_record_ty(rest)) {
            Err(e) => {
                return Err(e.at(span));
            },
            Ok(_) => {},
        }
        let found = self.resolve(&ty);
        match found {
            Ty::Record(row) => {
                assert(row_view(row).tail == Box::new(ty_view(*row.tail)));
                match merge_all(fields, &row.fields) {
                    Err(e) => Err(e.at(span)),
                    Ok(_) => match self.merge_record_spread_tail(tail, *row.tail) {
                        Err(e) => Err(e.at(span)),
                        Ok(t) => Ok(t),
                    },
                }
            },
            other => {
                let t = self.fresh_ty();
                Err(TypeError::Mismatch(open_record_ty(t), other).at(span))
            },
        }
    }
}

fn merge_all(fields: &mut Vec<(String, Ty)>, more: &Vec<(String, Ty)>) -> (r: Result<(), TypeError>)
    ensures
        match merge_fields(fields_view(old(fields)@), fields_view(more@), 0) {
            Ok(fs) => r is Ok && fields_view(final(fields)@) == fs,
            Err(e) => r is Err && r->Err_0@ == e,
        },
{
    let ghost all = fields_view(more@);
    let ghost want = merge_fields(fields_view(fields@), all, 0);
    let mut i: usize = 0;
    while i < more.len()
        invariant
            i <= more.len(),
            all == fields_view(more@),
            all.len() == more@.len(),
            want == merge_fields(fields_view(old(fields)@), all, 0),
            want == merge_fields(fields_view(fields@), all, i as nat),
        decreases more.len() - i,
    {
        assert(all[i as int] == field_view(more@[i as int]));
        match merge_record_field(fields, more[i].0.clone(), more[i].1.clone()) {
            Err(e) => {
                return Err(e);
            },
            Ok(_) => {},
        }
        i = i + 1;
    }
    Ok(())
}

// ---------------------------------------------------------------------------
// Operators
// ---------------------------------------------------------------------------

/// The method of a trait that an operator stands for.
pub struct OperatorV {
    pub def: TraitDefV,
    pub method: TraitMethodV,
}

/// The method of a trait that an operator stands for, with `arity` parameters.
#[verifier::opaque]
pub open spec fn operator_method(
    st: InferV,
    trait_name: Seq<char>,
    op: Seq<char>,
    arity: nat,
) -> Result<OperatorV, TypeErrorV> {
    if !st.traits.dom().contains(trait_name) {
        Err(TypeErrorV::UnknownTrait(trait_name))
    } else {
        match method_named(st.traits[trait_name].methods, op, 0) {
            None => Err(TypeErrorV::UnknownTraitMethod { trait_name, method: op }),
            Some(method) => if method.params.len() != arity {
                Err(
                    TypeErrorV::TraitMethodArityMismatch {
                        trait_name,
                        method: op,
                        expected: arity as usize,
                        got: method.params.len() as usize,
                    },
                )
            } else {
                Ok(OperatorV { def: st.traits[trait_name], method })
            },
        }
    }
}

/// The types of an operator.
pub struct OperatorTypesV {
    pub st: InferV,
    pub args: Seq<TyV>,
    pub params: Seq<TyV>,
    pub ret: TyV,
    pub err: Option<TypeErrorV>,
}

/// The types of an operator, with fresh variables for the parameters of its trait.
#[verifier::opaque]
pub open spec fn operator_types(st: InferV, op: OperatorV) -> OperatorTypesV {
    if op.def.params.len() == 0 {
        OperatorTypesV {
            st,
            args: Seq::empty(),
            params: Seq::empty(),
            ret: TyV::Unit,
            err: Some(
                TypeErrorV::TraitArityMismatch { trait_name: op.def.name, expected: 1, got: 0 },
            ),
        }
    } else {
        let f = fresh_named(st, op.def.params, Map::empty());
        let m = method_types(f.st, f.vars, types_of(op.method.params), op.method.ret_type);
        OperatorTypesV {
            st: m.st,
            args: f.res->Ok_0,
            params: m.params,
            ret: m.ret,
            err: m.err,
        }
    }
}

/// The choice of an operator whose trait has several parameters.
#[verifier::opaque]
pub open spec fn multi_operator(
    st: InferV,
    env: EnvV,
    def: TraitDefV,
    trait_name: Seq<char>,
    op: Seq<char>,
    args: Seq<TyV>,
    left: TyV,
    right: TyV,
    ret: TyV,
) -> (InferV, Result<DispatchV, SpannedV>) {
    let indexes = dict_indexes(def);
    let st1 = apply_pending(st, trait_name, all_in(st, args), indexes);
    let settled = all_in(st1, all_in(st, args));
    let d = multi_dispatch(
        st1,
        env,
        trait_name,
        op,
        settled,
        indexes,
        seq![resolved(st1, left), resolved(st1, right)],
        ret,
    );
    match d.1 {
        Ok(DispatchV::Unknown) => if all_known(selected(settled, indexes)) {
            (
                d.0,
                failed(
                    TypeErrorV::MissingTraitImpl {
                        trait_name,
                        impl_target: join(all_shown(selected(settled, indexes)), ", "@),
                    },
                ),
            )
        } else {
            (d.0, failed(unresolved("operator"@, trait_name)))
        },
        _ => d,
    }
}

/// The choice of an index expression.
#[verifier::opaque]
pub open spec fn index_use(st: InferV, env: EnvV, def: TraitDefV, receiver: TyV, key: TyV) -> (
    InferV,
    Result<DispatchV, SpannedV>,
) {
    let output = TyV::Var(next_var(st));
    let st1 = fresh(st);
    let d = multi_dispatch(
        st1,
        env,
        "Index"@,
        "index"@,
        all_in(st1, seq![receiver, key, output]),
        dict_indexes(def),
        seq![receiver, key],
        output,
    );
    match d.1 {
        Ok(DispatchV::Unknown) => (
            d.0,
            failed(
                TypeErrorV::MissingTraitImpl {
                    trait_name: "Index"@,
                    impl_target: shown(resolved(d.0, receiver)) + ", "@ + shown(
                        resolved(d.0, key),
                    ),
                },
            ),
        ),
        _ => d,
    }
}

impl Infer {
    /// The method of a trait that an operator stands for.
    pub fn operator_method(&self, trait_name: &str, op: &str, arity: usize) -> (r: Result<
        (TraitDef, TraitMethod),
        TypeError,
    >)
        ensures
            match operator_method(self@, trait_name@, op@, arity as nat) {
                Ok(found) => r is Ok && r->Ok_0.0@ == found.def && r->Ok_0.1@ == found.method,
                Err(e) => r is Err && r->Err_0@ == e,
            },
    {
        proof {
            reveal(operator_method);
        }
        match self.traits.env.get(trait_name) {
            None => Err(TypeError::UnknownTrait(trait_name.to_owned())),
            Some(def) => match find_trait_method(def, op) {
                None => Err(
                    TypeError::UnknownTraitMethod {
                        trait_name: trait_name.to_owned(),
                        method: op.to_owned(),
                    },
                ),
                Some(method) => {
                    assert(method@.params.len() == method.params@.len());
                    if method.params.len() != arity {
                        Err(
                            TypeError::TraitMethodArityMismatch {
                                trait_name: trait_name.to_owned(),
                                method: op.to_owned(),
                                expected: arity,
                                got: method.params.len(),
                            },
                        )
                    } else {
                        Ok((def.clone(), method.clone()))
                    }
                },
            },
        }
    }

    /// The types of an operator.
    pub fn instantiate_operator_trait_method(&mut self, def: &TraitDef, method: &TraitMethod) -> (r:
        Result<(Vec<Ty>, Vec<Ty>, Ty), TypeError>)
        requires
            old(self).wf(),
        ensures
            final(self).wf(),
            ({
                let want = operator_types(
                    old(self)@,
                    OperatorV { def: def@, method: method@ },
                );
                final(self)@ == want.st && match want.err {
                    Some(e) => r is Err && r->Err_0@ == e,
                    None => r is Ok && tys_view(r->Ok_0.0@) == want.args && tys_view(
                        r->Ok_0.1@,
                    ) == want.params && r->Ok_0.2@ == want.ret,
                }
            }),
            r matches Ok(found) ==> found.0@.len() > 0 && found.0@.len() == def@.params.len()
                && found.1@.len() == method@.params.len(),
    {
        proof {
            reveal(operator_types);
        }
        assert(def@.params.len() == def.params@.len());
        if def.params.len() == 0 {
            return Err(
                TypeError::TraitArityMismatch {
                    trait_name: def.name.clone(),
                    expected: 1,
                    got: 0,
                },
            );
        }
        let mut vars: NameMap<TyVar> = NameMap::new();
        let args = self.fresh_named(&def.params, &mut vars);
        let types = method_param_types(method);
        match self.method_types(&types, &method.ret_type, &mut vars) {
            Err(e) => Err(e),
            Ok((params, ret)) => Ok((args, params, ret)),
        }
    }

    /// The choice of an operator whose trait has several parameters.
    pub fn multi_operator(
        &mut self,
        env: &TypeEnv,
        def: &TraitDef,
        trait_name: &str,
        op: &str,
        args: &Vec<Ty>,
        left: &Ty,
        right: &Ty,
        ret: &Ty,
    ) -> (r: Result<Dispatch, SpannedTypeError>)
        requires
            old(self).wf(),
        ensures
            final(self).wf(),
            (final(self)@, dispatch_res(r)) == multi_operator(
                old(self)@,
                env@,
                def@,
                trait_name@,
                op@,
                tys_view(args@),
                left@,
                right@,
                ret@,
            ),
    {
        proof {
            reveal(multi_operator);
        }
        let first = self.resolve_all(args);
        let indexes = trait_dict_indexes(def);
        self.apply_matching_pending_trait_constraint(trait_name, &first, &indexes);
        let settled = self.resolve_all(&first);
        let l = self.resolve(left);
        let r = self.resolve(right);
        let ghost lv = l@;
        let ghost rv = r@;
        let pair: Vec<Ty> = vec![l, r];
        assert(tys_view(pair@) =~= seq![lv, rv]);
        match self.resolve_multi_param_trait_dispatch(
            env,
            trait_name,
            op,
            clone_tys(&settled),
            crate::subst::clone_indexes(&indexes),
            &pair,
            ret,
        ) {
            Ok(Dispatch::Unknown) => {
                let determinants = select_tys(&settled, &indexes);
                if crate::dict_uses::types_known(&determinants) {
                    let texts = show_types(&determinants);
                    Err(
                        TypeError::MissingTraitImpl {
                            trait_name: trait_name.to_owned(),
                            impl_target: join_strings(&texts, ", "),
                        }.unspanned(),
                    )
                } else {
                    Err(
                        TypeError::UnresolvedTrait {
                            context: "operator".to_owned(),
                            trait_name: trait_name.to_owned(),
                        }.unspanned(),
                    )
                }
            },
            other => other,
        }
    }

    /// The choice of an index expression.
    pub fn index_use(&mut self, env: &TypeEnv, def: &TraitDef, receiver: &Ty, key: &Ty) -> (r: Result<
        Dispatch,
        SpannedTypeError,
    >)
        requires
            old(self).wf(),
        ensures
            final(self).wf(),
            (final(self)@, dispatch_res(r)) == index_use(
                old(self)@,
                env@,
                def@,
                receiver@,
                key@,
            ),
    {
        proof {
            reveal(index_use);
        }
        let output = self.fresh_ty();
        let args: Vec<Ty> = vec![receiver.clone(), key.clone(), output.clone()];
        assert(tys_view(args@) =~= seq![receiver@, key@, output@]);
        let pair: Vec<Ty> = vec![receiver.clone(), key.clone()];
        assert(tys_view(pair@) =~= seq![receiver@, key@]);
        let resolved_args = self.resolve_all(&args);
        let indexes = trait_dict_indexes(def);
        match self.resolve_multi_param_trait_dispatch(
            env,
            "Index",
            "index",
            resolved_args,
            indexes,
            &pair,
            &output,
        ) {
            Ok(Dispatch::Unknown) => {
                let mut text = self.resolve(receiver).to_string();
                let other = self.resolve(key).to_string();
                text.append(", ");
                text.append(&other);
                Err(
                    TypeError::MissingTraitImpl {
                        trait_name: "Index".to_owned(),
                        impl_target: text,
                    }.unspanned(),
                )
            },
            other => other,
        }
    }
}

} // verus!
