//! How calls are checked.

use vstd::prelude::*;

use crate::associated::{opt_types, under_constraints, view_res};
use crate::ast::{ArgWrapper, DictRef, Expr, ExprKind, NO_NODE_ID, NodeId, PendingDictArg};
use crate::ast::{PendingMethod, ResolvedCallee, SourceSpan, TraitDef, TraitMethod, Type};
use crate::ast_size::{expr_size, exprs_size};
use crate::ast_view::{arg_wrappers_view, dict_refs_view, expr_view, exprs_view};
use crate::ast_view::{pending_dict_args_view, some_pending_method_view};
use crate::ast_view::some_resolved_callee_view;
use crate::call_parts::{Form, append_types, call_form, is_unknown_member_error, lead_place};
use crate::call_parts::{lead_types, lead_view};
use crate::checker::{Within, agrees, apply_run, apply_scheme_run, associated_call_run};
use crate::checker::{call_run, constrained_call_run, dot_call_run, explicit_call_run};
use crate::checker::{inherent_call_run, plain_call_run, trait_method_run};
use crate::env::TypeEnv;
use crate::error::SpannedTypeError;
use crate::finish::{AppliedCall, func_params_of, is_unknown_trait_method_error};
use crate::state::Infer;
use crate::steps::{Run, ty_res};
use crate::ty::{FuncParam, ParamCapability, Scheme, TraitConstraint, Ty, constraints_view};
use crate::ty::tys_view;
use crate::ty_helpers::{opt_ty, split_qualified, ty_param_capabilities};

verus! {

impl Infer {
    pub fn apply_callable_type(
        &mut self,
        Ghost(within): Ghost<Within>,
        env: &TypeEnv,
        args: &mut Vec<Expr>,
        arg_wrappers: &mut Vec<Option<ArgWrapper>>,
        dict_args: &mut Vec<DictRef>,
        pending_dict_args: &mut Vec<PendingDictArg>,
        callable: &Ty,
        constraints: &Vec<TraitConstraint>,
        caps: &Vec<ParamCapability>,
        lead: Vec<Ty>,
        first: Option<SourceSpan>,
        offset: usize,
        dict_span: Option<SourceSpan>,
    ) -> (r: Result<AppliedCall, SpannedTypeError>)
        requires
            old(self).wf(),
            agrees(within, exprs_size(exprs_view(old(args)@))),
            offset <= 1,
        ensures
            final(self).wf(),
            (Run {
                st: final(self)@,
                node: (exprs_view(final(args)@), arg_wrappers_view(final(arg_wrappers)@), dict_refs_view(final(dict_args)@), pending_dict_args_view(final(pending_dict_args)@)),
                res: view_res(r),
            }) == apply_run(
                within,
                old(self)@,
                env@,
                exprs_view(old(args)@),
                arg_wrappers_view(old(arg_wrappers)@),
                dict_refs_view(old(dict_args)@),
                pending_dict_args_view(old(pending_dict_args)@),
                callable@,
                constraints_view(constraints@),
                caps@,
                tys_view(lead@),
                first,
                offset as nat,
                dict_span,
            ),
        decreases exprs_size(exprs_view(old(args)@)), 6nat, 0nat,
    {
        proof {
            reveal(apply_run);
        }
        let params = func_params_of(callable);
        let tys = match self.infer_checked_args_with_expected(Ghost(within), env, args, arg_wrappers, &params, offset) {
            Err(error) => {
                return Err(error);
            },
            Ok(t) => t,
        };
        assert(exprs_view(args@).len() == args@.len());
        let span = if args.len() > 0 {
            assert(exprs_view(args@)[0] == expr_view(args@[0]));
            Some(args[0].span)
        } else {
            first
        };
        let all = append_types(lead, tys);
        self.finish_call(
            env,
            args,
            all,
            callable.clone(),
            constraints,
            caps,
            span,
            dict_span,
            dict_args,
            pending_dict_args,
        )
    }

    pub fn apply_scheme_callable(
        &mut self,
        Ghost(within): Ghost<Within>,
        env: &TypeEnv,
        args: &mut Vec<Expr>,
        arg_wrappers: &mut Vec<Option<ArgWrapper>>,
        dict_args: &mut Vec<DictRef>,
        pending_dict_args: &mut Vec<PendingDictArg>,
        scheme: &Scheme,
        lead: &Option<(Ty, SourceSpan)>,
    ) -> (r: Result<AppliedCall, SpannedTypeError>)
        requires
            old(self).wf(),
            agrees(within, exprs_size(exprs_view(old(args)@))),
        ensures
            final(self).wf(),
            (Run {
                st: final(self)@,
                node: (exprs_view(final(args)@), arg_wrappers_view(final(arg_wrappers)@), dict_refs_view(final(dict_args)@), pending_dict_args_view(final(pending_dict_args)@)),
                res: view_res(r),
            }) == apply_scheme_run(
                within,
                old(self)@,
                env@,
                exprs_view(old(args)@),
                arg_wrappers_view(old(arg_wrappers)@),
                dict_refs_view(old(dict_args)@),
                pending_dict_args_view(old(pending_dict_args)@),
                scheme@,
                lead_view(*lead),
            ),
        decreases exprs_size(exprs_view(old(args)@)), 7nat, 0nat,
    {
        proof {
            reveal(apply_scheme_run);
        }
        let inst = self.instantiate_scheme(scheme);
        match lead {
            Some(a) => {
                match self.lead_arg(&inst.ty, &a.0, a.1) {
                    Err(error) => {
                        return Err(error);
                    },
                    Ok(_) => {},
                }
            },
            None => {},
        }
        let caps: Vec<ParamCapability> = Vec::new();
        assert(caps@ =~= Seq::empty());
        let offset: usize = if lead.is_some() {
            1
        } else {
            0
        };
        self.apply_callable_type(
            Ghost(within),
            env,
            args,
            arg_wrappers,
            dict_args,
            pending_dict_args,
            &inst.ty,
            &inst.constraints,
            &caps,
            lead_types(lead),
            lead_place(lead),
            offset,
            None,
        )
    }

    pub fn resolve_trait_method_call(
        &mut self,
        Ghost(within): Ghost<Within>,
        env: &TypeEnv,
        args: &mut Vec<Expr>,
        arg_wrappers: &mut Vec<Option<ArgWrapper>>,
        resolved_callee: &mut Option<ResolvedCallee>,
        pending_trait_method: &mut Option<PendingMethod>,
        def: &TraitDef,
        method: &TraitMethod,
    ) -> (r: Result<Ty, SpannedTypeError>)
        requires
            old(self).wf(),
            agrees(within, exprs_size(exprs_view(old(args)@))),
        ensures
            final(self).wf(),
            (Run {
                st: final(self)@,
                node: (exprs_view(final(args)@), arg_wrappers_view(final(arg_wrappers)@), some_resolved_callee_view(*final(resolved_callee)), some_pending_method_view(*final(pending_trait_method))),
                res: ty_res(r),
            }) == trait_method_run(
                within,
                old(self)@,
                env@,
                exprs_view(old(args)@),
                arg_wrappers_view(old(arg_wrappers)@),
                some_resolved_callee_view(*old(resolved_callee)),
                some_pending_method_view(*old(pending_trait_method)),
                def@,
                method@,
            ),
        decreases exprs_size(exprs_view(old(args)@)), 5nat, 0nat,
    {
        proof {
            reveal(trait_method_run);
        }
        let params: Vec<FuncParam> = Vec::new();
        assert(crate::ty::params_view(params@) =~= Seq::empty());
        let tys = match self.infer_args_with_expected(Ghost(within), env, args, arg_wrappers, &params, 0) {
            Err(error) => {
                return Err(error);
            },
            Ok(t) => t,
        };
        self.trait_finish(env, def, method, &tys, resolved_callee, pending_trait_method)
    }

    pub fn resolve_associated_call(
        &mut self,
        Ghost(within): Ghost<Within>,
        env: &TypeEnv,
        args: &mut Vec<Expr>,
        arg_wrappers: &mut Vec<Option<ArgWrapper>>,
        resolved_callee: &mut Option<ResolvedCallee>,
        dict_args: &mut Vec<DictRef>,
        pending_dict_args: &mut Vec<PendingDictArg>,
        id: NodeId,
        callee_id: NodeId,
        target: &Type,
        target_span: SourceSpan,
        member: &String,
        member_span: SourceSpan,
    ) -> (r: Result<Ty, SpannedTypeError>)
        requires
            old(self).wf(),
            agrees(within, exprs_size(exprs_view(old(args)@))),
        ensures
            final(self).wf(),
            (Run {
                st: final(self)@,
                node: (exprs_view(final(args)@), arg_wrappers_view(final(arg_wrappers)@), some_resolved_callee_view(*final(resolved_callee)), dict_refs_view(final(dict_args)@), pending_dict_args_view(final(pending_dict_args)@)),
                res: ty_res(r),
            }) == inherent_call_run(
                within,
                old(self)@,
                env@,
                exprs_view(old(args)@),
                arg_wrappers_view(old(arg_wrappers)@),
                some_resolved_callee_view(*old(resolved_callee)),
                dict_refs_view(old(dict_args)@),
                pending_dict_args_view(old(pending_dict_args)@),
                id,
                callee_id,
                target@,
                target_span,
                member@,
                member_span,
            ),
        decreases exprs_size(exprs_view(old(args)@)), 7nat, 0nat,
    {
        proof {
            reveal(inherent_call_run);
        }
        let info = match self.associated_inherent_method(target, target_span, member, member_span) {
            Err(error) => {
                return Err(error);
            },
            Ok(t) => t,
        };
        let inst = match self.instantiate_associated_inherent_method(target, target_span, &info) {
            Err(error) => {
                return Err(error);
            },
            Ok(t) => t,
        };
        let value = under_constraints(&inst.constraints, &inst.callable_ty);
        self.note_symbol(callee_id, &value);
        let caps = ty_param_capabilities(&inst.callable_ty);
        let none: Vec<Ty> = Vec::new();
        assert(tys_view(none@) =~= Seq::empty());
        let applied = match self.apply_callable_type(Ghost(within), env, args, arg_wrappers, dict_args, pending_dict_args, &inst.callable_ty, &inst.constraints, &caps, none, None, 0, Some(member_span)) {
            Err(error) => {
                return Err(error);
            },
            Ok(t) => t,
        };
        self.note_symbol(callee_id, &applied.call_ty);
        *resolved_callee = Some(info.resolved_callee);
        self.note_fresh(id, applied.fresh_return);
        Ok(applied.ret_ty)
    }

    pub fn resolve_explicit_trait_call(
        &mut self,
        Ghost(within): Ghost<Within>,
        env: &TypeEnv,
        args: &mut Vec<Expr>,
        arg_wrappers: &mut Vec<Option<ArgWrapper>>,
        resolved_callee: &mut Option<ResolvedCallee>,
        dict_args: &mut Vec<DictRef>,
        pending_dict_args: &mut Vec<PendingDictArg>,
        id: NodeId,
        callee_id: NodeId,
        def: &TraitDef,
        method: &TraitMethod,
        explicit: &Option<Vec<Type>>,
        target_span: SourceSpan,
        member_span: SourceSpan,
    ) -> (r: Result<Ty, SpannedTypeError>)
        requires
            old(self).wf(),
            agrees(within, exprs_size(exprs_view(old(args)@))),
        ensures
            final(self).wf(),
            (Run {
                st: final(self)@,
                node: (exprs_view(final(args)@), arg_wrappers_view(final(arg_wrappers)@), some_resolved_callee_view(*final(resolved_callee)), dict_refs_view(final(dict_args)@), pending_dict_args_view(final(pending_dict_args)@)),
                res: ty_res(r),
            }) == explicit_call_run(
                within,
                old(self)@,
                env@,
                exprs_view(old(args)@),
                arg_wrappers_view(old(arg_wrappers)@),
                some_resolved_callee_view(*old(resolved_callee)),
                dict_refs_view(old(dict_args)@),
                pending_dict_args_view(old(pending_dict_args)@),
                id,
                callee_id,
                def@,
                method@,
                opt_types(*explicit),
                target_span,
                member_span,
            ),
        decreases exprs_size(exprs_view(old(args)@)), 7nat, 0nat,
    {
        proof {
            reveal(explicit_call_run);
        }
        let inst = match self.instantiate_associated_trait_method(env, def, method, explicit, target_span) {
            Err(error) => {
                return Err(error);
            },
            Ok(t) => t,
        };
        let caps = ty_param_capabilities(&inst.callable_ty);
        let none: Vec<Ty> = Vec::new();
        assert(tys_view(none@) =~= Seq::empty());
        let applied = match self.apply_callable_type(Ghost(within), env, args, arg_wrappers, dict_args, pending_dict_args, &inst.callable_ty, &inst.constraints, &caps, none, None, 0, Some(member_span)) {
            Err(error) => {
                return Err(error);
            },
            Ok(t) => t,
        };
        self.note_symbol(callee_id, &applied.call_ty);
        match inst.dict {
            Some(dict) => {
                *resolved_callee = Some(ResolvedCallee::DictMethod { dict, method: method.name.clone() });
            },
            None => {},
        }
        self.note_fresh(id, applied.fresh_return);
        Ok(applied.ret_ty)
    }

    pub fn infer_associated_call(
        &mut self,
        Ghost(within): Ghost<Within>,
        env: &TypeEnv,
        callee: &mut Expr,
        args: &mut Vec<Expr>,
        is_method_call: &mut bool,
        arg_wrappers: &mut Vec<Option<ArgWrapper>>,
        resolved_callee: &mut Option<ResolvedCallee>,
        pending_trait_method: &mut Option<PendingMethod>,
        dict_args: &mut Vec<DictRef>,
        pending_dict_args: &mut Vec<PendingDictArg>,
        id: NodeId,
        target: &Type,
        target_span: SourceSpan,
        member: &String,
        member_span: SourceSpan,
    ) -> (r: Result<Ty, SpannedTypeError>)
        requires
            old(self).wf(),
            agrees(within, exprs_size(exprs_view(old(args)@))),
        ensures
            final(self).wf(),
            (Run {
                st: final(self)@,
                node: (final(callee)@, exprs_view(final(args)@), *final(is_method_call), arg_wrappers_view(final(arg_wrappers)@), some_resolved_callee_view(*final(resolved_callee)), some_pending_method_view(*final(pending_trait_method)), dict_refs_view(final(dict_args)@), pending_dict_args_view(final(pending_dict_args)@)),
                res: ty_res(r),
            }) == associated_call_run(
                within,
                old(self)@,
                env@,
                old(callee)@,
                exprs_view(old(args)@),
                *old(is_method_call),
                arg_wrappers_view(old(arg_wrappers)@),
                some_resolved_callee_view(*old(resolved_callee)),
                some_pending_method_view(*old(pending_trait_method)),
                dict_refs_view(old(dict_args)@),
                pending_dict_args_view(old(pending_dict_args)@),
                id,
                target@,
                target_span,
                member@,
                member_span,
            ),
        decreases exprs_size(exprs_view(old(args)@)), 8nat, 0nat,
    {
        proof {
            reveal(associated_call_run);
        }
        match self.associated_trait_method(target, member, member_span) {
            Ok(Some(l)) => {
                match &l.explicit_args {
                    None => {
                        self.resolve_trait_method_call(
                            Ghost(within),
                            env,
                            args,
                            arg_wrappers,
                            resolved_callee,
                            pending_trait_method,
                            &l.trait_def,
                            &l.method,
                        )
                    },
                    Some(_) => {
                        self.resolve_explicit_trait_call(
                            Ghost(within),
                            env,
                            args,
                            arg_wrappers,
                            resolved_callee,
                            dict_args,
                            pending_dict_args,
                            id,
                            callee.id,
                            &l.trait_def,
                            &l.method,
                            &l.explicit_args,
                            target_span,
                            member_span,
                        )
                    },
                }
            },
            Ok(None) => {
                self.resolve_associated_call(
                    Ghost(within),
                    env,
                    args,
                    arg_wrappers,
                    resolved_callee,
                    dict_args,
                    pending_dict_args,
                    id,
                    callee.id,
                    target,
                    target_span,
                    member,
                    member_span,
                )
            },
            Err(error) => {
                if is_unknown_trait_method_error(&error) {
                    match self.resolve_associated_call(
                        Ghost(within),
                        env,
                        args,
                        arg_wrappers,
                        resolved_callee,
                        dict_args,
                        pending_dict_args,
                        id,
                        callee.id,
                        target,
                        target_span,
                        member,
                        member_span,
                    ) {
                        Err(other) => if is_unknown_member_error(&other) {
                            Err(error)
                        } else {
                            Err(other)
                        },
                        Ok(ty) => Ok(ty),
                    }
                } else {
                    Err(error)
                }
            },
        }
    }

    pub fn infer_constrained_call(
        &mut self,
        Ghost(within): Ghost<Within>,
        env: &TypeEnv,
        callee: &mut Expr,
        args: &mut Vec<Expr>,
        is_method_call: &mut bool,
        arg_wrappers: &mut Vec<Option<ArgWrapper>>,
        resolved_callee: &mut Option<ResolvedCallee>,
        pending_trait_method: &mut Option<PendingMethod>,
        dict_args: &mut Vec<DictRef>,
        pending_dict_args: &mut Vec<PendingDictArg>,
        scheme: &Scheme,
        id: NodeId,
    ) -> (r: Result<Ty, SpannedTypeError>)
        requires
            old(self).wf(),
            agrees(within, exprs_size(exprs_view(old(args)@))),
        ensures
            final(self).wf(),
            (Run {
                st: final(self)@,
                node: (final(callee)@, exprs_view(final(args)@), *final(is_method_call), arg_wrappers_view(final(arg_wrappers)@), some_resolved_callee_view(*final(resolved_callee)), some_pending_method_view(*final(pending_trait_method)), dict_refs_view(final(dict_args)@), pending_dict_args_view(final(pending_dict_args)@)),
                res: ty_res(r),
            }) == constrained_call_run(
                within,
                old(self)@,
                env@,
                old(callee)@,
                exprs_view(old(args)@),
                *old(is_method_call),
                arg_wrappers_view(old(arg_wrappers)@),
                some_resolved_callee_view(*old(resolved_callee)),
                some_pending_method_view(*old(pending_trait_method)),
                dict_refs_view(old(dict_args)@),
                pending_dict_args_view(old(pending_dict_args)@),
                scheme@,
                id,
            ),
        decreases exprs_size(exprs_view(old(args)@)), 8nat, 0nat,
    {
        proof {
            reveal(constrained_call_run);
        }
        let callee_id = callee.id;
        if callee_id != NO_NODE_ID {
            let value = self.instantiate_value(scheme);
            self.note_symbol(callee_id, &value);
        }
        let applied = match self.apply_scheme_callable(Ghost(within), env, args, arg_wrappers, dict_args, pending_dict_args, scheme, &None) {
            Err(error) => {
                return Err(error);
            },
            Ok(t) => t,
        };
        self.note_fresh(id, applied.fresh_return);
        Ok(applied.ret_ty)
    }

    pub fn infer_plain_call(
        &mut self,
        Ghost(within): Ghost<Within>,
        env: &TypeEnv,
        callee: &mut Expr,
        args: &mut Vec<Expr>,
        is_method_call: &mut bool,
        arg_wrappers: &mut Vec<Option<ArgWrapper>>,
        resolved_callee: &mut Option<ResolvedCallee>,
        pending_trait_method: &mut Option<PendingMethod>,
        dict_args: &mut Vec<DictRef>,
        pending_dict_args: &mut Vec<PendingDictArg>,
        id: NodeId,
        span: SourceSpan,
    ) -> (r: Result<Ty, SpannedTypeError>)
        requires
            old(self).wf(),
            agrees(within, expr_size(old(callee)@) + exprs_size(exprs_view(old(args)@))),
        ensures
            final(self).wf(),
            (Run {
                st: final(self)@,
                node: (final(callee)@, exprs_view(final(args)@), *final(is_method_call), arg_wrappers_view(final(arg_wrappers)@), some_resolved_callee_view(*final(resolved_callee)), some_pending_method_view(*final(pending_trait_method)), dict_refs_view(final(dict_args)@), pending_dict_args_view(final(pending_dict_args)@)),
                res: ty_res(r),
            }) == plain_call_run(
                within,
                old(self)@,
                env@,
                old(callee)@,
                exprs_view(old(args)@),
                *old(is_method_call),
                arg_wrappers_view(old(arg_wrappers)@),
                some_resolved_callee_view(*old(resolved_callee)),
                some_pending_method_view(*old(pending_trait_method)),
                dict_refs_view(old(dict_args)@),
                pending_dict_args_view(old(pending_dict_args)@),
                id,
                span,
            ),
        decreases expr_size(old(callee)@) + exprs_size(exprs_view(old(args)@)), 8nat, 0nat,
    {
        proof {
            reveal(plain_call_run);
        }
        let value = match self.infer_expr(env, callee) {
            Err(error) => {
                return Err(error);
            },
            Ok(t) => t,
        };
        let whole = self.resolve(&value);
        let (constraints, callable) = split_qualified(whole);
        let caps = self.known_capabilities(&callable, callee.id);
        let none: Vec<Ty> = Vec::new();
        assert(tys_view(none@) =~= Seq::empty());
        let applied = match self.apply_callable_type(Ghost(within), env, args, arg_wrappers, dict_args, pending_dict_args, &callable, &constraints, &caps, none, None, 0, Some(span)) {
            Err(error) => {
                return Err(error);
            },
            Ok(t) => t,
        };
        self.note_fresh(id, applied.fresh_return);
        Ok(applied.ret_ty)
    }

    pub fn infer_dot_call(
        &mut self,
        Ghost(within): Ghost<Within>,
        env: &TypeEnv,
        callee: &mut Expr,
        args: &mut Vec<Expr>,
        is_method_call: &mut bool,
        arg_wrappers: &mut Vec<Option<ArgWrapper>>,
        resolved_callee: &mut Option<ResolvedCallee>,
        pending_trait_method: &mut Option<PendingMethod>,
        dict_args: &mut Vec<DictRef>,
        pending_dict_args: &mut Vec<PendingDictArg>,
        id: NodeId,
        expected: &Option<Ty>,
    ) -> (r: Result<Ty, SpannedTypeError>)
        requires
            old(self).wf(),
            agrees(within, expr_size(old(callee)@) + exprs_size(exprs_view(old(args)@))),
        ensures
            final(self).wf(),
            (Run {
                st: final(self)@,
                node: (final(callee)@, exprs_view(final(args)@), *final(is_method_call), arg_wrappers_view(final(arg_wrappers)@), some_resolved_callee_view(*final(resolved_callee)), some_pending_method_view(*final(pending_trait_method)), dict_refs_view(final(dict_args)@), pending_dict_args_view(final(pending_dict_args)@)),
                res: ty_res(r),
            }) == dot_call_run(
                within,
                old(self)@,
                env@,
                old(callee)@,
                exprs_view(old(args)@),
                *old(is_method_call),
                arg_wrappers_view(old(arg_wrappers)@),
                some_resolved_callee_view(*old(resolved_callee)),
                some_pending_method_view(*old(pending_trait_method)),
                dict_refs_view(old(dict_args)@),
                pending_dict_args_view(old(pending_dict_args)@),
                id,
                opt_ty(*expected),
            ),
        decreases expr_size(old(callee)@) + exprs_size(exprs_view(old(args)@)), 8nat, 0nat,
    {
        proof {
            reveal(dot_call_run);
        }
        let callee_id = callee.id;
        match &mut callee.kind {
            ExprKind::FieldAccess { expr, field } => {
                self.resolve_receiver_call(
                    Ghost(within),
                    env,
                    expr,
                    args,
                    is_method_call,
                    arg_wrappers,
                    resolved_callee,
                    dict_args,
                    pending_dict_args,
                    field,
                    id,
                    callee_id,
                    expected,
                )
            },
            _ => {
                Ok(Ty::Unit)
            },
        }
    }

    pub fn infer_call_expr(
        &mut self,
        Ghost(within): Ghost<Within>,
        env: &TypeEnv,
        callee: &mut Expr,
        args: &mut Vec<Expr>,
        is_method_call: &mut bool,
        arg_wrappers: &mut Vec<Option<ArgWrapper>>,
        resolved_callee: &mut Option<ResolvedCallee>,
        pending_trait_method: &mut Option<PendingMethod>,
        dict_args: &mut Vec<DictRef>,
        pending_dict_args: &mut Vec<PendingDictArg>,
        id: NodeId,
        span: SourceSpan,
    ) -> (r: Result<Ty, SpannedTypeError>)
        requires
            old(self).wf(),
            agrees(within, expr_size(old(callee)@) + exprs_size(exprs_view(old(args)@))),
        ensures
            final(self).wf(),
            (Run {
                st: final(self)@,
                node: (final(callee)@, exprs_view(final(args)@), *final(is_method_call), arg_wrappers_view(final(arg_wrappers)@), some_resolved_callee_view(*final(resolved_callee)), some_pending_method_view(*final(pending_trait_method)), dict_refs_view(final(dict_args)@), pending_dict_args_view(final(pending_dict_args)@)),
                res: ty_res(r),
            }) == call_run(
                within,
                old(self)@,
                env@,
                old(callee)@,
                exprs_view(old(args)@),
                *old(is_method_call),
                arg_wrappers_view(old(arg_wrappers)@),
                some_resolved_callee_view(*old(resolved_callee)),
                some_pending_method_view(*old(pending_trait_method)),
                dict_refs_view(old(dict_args)@),
                pending_dict_args_view(old(pending_dict_args)@),
                id,
                span,
            ),
        decreases expr_size(old(callee)@) + exprs_size(exprs_view(old(args)@)), 9nat, 0nat,
    {
        proof {
            reveal(call_run);
        }
        match call_form(env, callee) {
            Form::Associated(m) => {
                self.infer_associated_call(
                    Ghost(within),
                    env,
                    callee,
                    args,
                    is_method_call,
                    arg_wrappers,
                    resolved_callee,
                    pending_trait_method,
                    dict_args,
                    pending_dict_args,
                    id,
                    &m.target,
                    m.target_span,
                    &m.member,
                    m.member_span,
                )
            },
            Form::Dot => {
                self.infer_dot_call(
                    Ghost(within),
                    env,
                    callee,
                    args,
                    is_method_call,
                    arg_wrappers,
                    resolved_callee,
                    pending_trait_method,
                    dict_args,
                    pending_dict_args,
                    id,
                    &None,
                )
            },
            Form::Constrained(scheme) => {
                self.infer_constrained_call(
                    Ghost(within),
                    env,
                    callee,
                    args,
                    is_method_call,
                    arg_wrappers,
                    resolved_callee,
                    pending_trait_method,
                    dict_args,
                    pending_dict_args,
                    &scheme,
                    id,
                )
            },
            Form::Plain => {
                self.infer_plain_call(
                    Ghost(within),
                    env,
                    callee,
                    args,
                    is_method_call,
                    arg_wrappers,
                    resolved_callee,
                    pending_trait_method,
                    dict_args,
                    pending_dict_args,
                    id,
                    span,
                )
            },
        }
    }
}

} // verus!
