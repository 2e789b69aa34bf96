//! How calls of what follows a dot are checked.

use vstd::prelude::*;

use crate::ast::{ArgWrapper, DictRef, Expr, NodeId, PendingDictArg, ResolvedCallee};
use crate::ast::SourceSpan;
use crate::ast_copy::clone_exprs;
use crate::ast_size::{expr_size, exprs_size};
use crate::ast_view::{arg_wrappers_view, dict_refs_view, exprs_view, pending_dict_args_view};
use crate::ast_view::{resolved_callee_view, some_resolved_callee_view};
use crate::call_parts::{Probed, Trial, append_constraints, is_var_type, misuse_error};
use crate::call_parts::pick_candidate;
use crate::checker::{Within, agrees, array_method_run, expected_method_run, field_call_run};
use crate::checker::{method_run, one_field_record, oty_res, probe_run, receiver_run};
use crate::checker::{receiver_trait_run, row_call_run, scheme_method_run, trait_use_run};
use crate::checker::trial_run;
use crate::dicts::matched;
use crate::env::TypeEnv;
use crate::error::{SpannedTypeError, TypeError};
use crate::items::some_error;
use crate::receiver::{ArrayMethod, ReceiverTraitMethodMatch, candidates_view};
use crate::state::Infer;
use crate::steps::{Run, settled, ty_res};
use crate::text::strings_view;
use crate::ty::{FuncParam, ParamCapability, Scheme, TraitConstraint, Ty, constraints_view};
use crate::ty::tys_view;
use crate::ty_helpers::{is_array_with_unresolved_element, opt_ty, scheme_param_is_mut_place};
use crate::ty_helpers::{split_qualified, value_func};
use crate::type_syntax::{field_ty, inherent_impl_target_keys_from_ty, record_field_ty};

verus! {

impl Infer {
    fn try_candidate(
        &mut self,
        Ghost(within): Ghost<Within>,
        env: &TypeEnv,
        args: &Vec<Expr>,
        c: &ReceiverTraitMethodMatch,
        receiver_ty: &Ty,
    ) -> (r: bool)
        requires
            old(self).wf(),
            agrees(within, exprs_size(exprs_view(args@))),
        ensures
            final(self).wf(),
            (Trial { st: final(self)@, fits: r }) == trial_run(
                within,
                old(self)@,
                env@,
                exprs_view(args@),
                c@,
                receiver_ty@,
            ),
        decreases exprs_size(exprs_view(args@)), 5nat, 0nat,
    {
        proof {
            reveal(trial_run);
        }
        let mut tried = clone_exprs(args);
        let mut wrappers: Vec<Option<ArgWrapper>> = Vec::new();
        let params: Vec<FuncParam> = Vec::new();
        assert(crate::ty::params_view(params@) =~= Seq::empty());
        assert(arg_wrappers_view(wrappers@) =~= Seq::empty());
        let found = self.infer_args_with_expected(Ghost(within), env, &mut tried, &mut wrappers, &params, 0);
        let ghost seen = (exprs_view(tried@), arg_wrappers_view(wrappers@));
        self.trial_after(env, found, receiver_ty, c, Ghost(seen))
    }

    fn probe_candidates(
        &mut self,
        Ghost(within): Ghost<Within>,
        env: &TypeEnv,
        args: &Vec<Expr>,
        all: &Vec<ReceiverTraitMethodMatch>,
        receiver_ty: &Ty,
    ) -> (r: (Vec<ReceiverTraitMethodMatch>, Vec<ReceiverTraitMethodMatch>))
        requires
            old(self).wf(),
            agrees(within, exprs_size(exprs_view(args@))),
        ensures
            final(self).wf(),
            (Probed {
                st: final(self)@,
                found: candidates_view(r.0@),
                fits: candidates_view(r.1@),
            }) == probe_run(
                within,
                old(self)@,
                env@,
                exprs_view(args@),
                candidates_view(all@),
                receiver_ty@,
                0,
                Seq::empty(),
                Seq::empty(),
            ),
        decreases exprs_size(exprs_view(args@)), 5nat, all@.len() + 1,
    {
        proof {
            reveal(probe_run);
        }
        let ghost allv = candidates_view(all@);
        let ghost argv = exprs_view(args@);
        let mut found: Vec<ReceiverTraitMethodMatch> = Vec::new();
        let mut fits: Vec<ReceiverTraitMethodMatch> = Vec::new();
        assert(candidates_view(found@) =~= Seq::empty());
        assert(candidates_view(fits@) =~= Seq::empty());
        let ghost want = probe_run(
            within,
            self@,
            env@,
            argv,
            allv,
            receiver_ty@,
            0,
            Seq::empty(),
            Seq::empty(),
        );
        let mut i: usize = 0;
        while i < all.len()
            invariant
                agrees(within, exprs_size(exprs_view(args@))),
                i <= all.len(),
                self.wf(),
                allv == candidates_view(all@),
                allv.len() == all@.len(),
                argv == exprs_view(args@),
                want == probe_run(
                    within,
                    self@,
                    env@,
                    argv,
                    allv,
                    receiver_ty@,
                    i as nat,
                    candidates_view(found@),
                    candidates_view(fits@),
                ),
            decreases all.len() - i,
        {
            proof {
                reveal(probe_run);
            }
            assert(allv[i as int] == all@[i as int]@);
            let ghost before = self@;
            let mark = self.subst.checkpoint();
            let matched = self.try_candidate(Ghost(within), env, args, &all[i], receiver_ty);
            self.after_trial(
                mark,
                matched,
                env,
                receiver_ty,
                &all[i],
                &mut found,
                &mut fits,
                Ghost(before),
            );
            i = i + 1;
        }
        (found, fits)
    }

    pub fn infer_field_call(
        &mut self,
        Ghost(within): Ghost<Within>,
        env: &TypeEnv,
        args: &mut Vec<Expr>,
        arg_wrappers: &mut Vec<Option<ArgWrapper>>,
        dict_args: &mut Vec<DictRef>,
        pending_dict_args: &mut Vec<PendingDictArg>,
        callable: &Ty,
        constraints: &Vec<TraitConstraint>,
        span: SourceSpan,
        id: NodeId,
        callee_id: NodeId,
    ) -> (r: Result<Ty, SpannedTypeError>)
        requires
            old(self).wf(),
            agrees(within, exprs_size(exprs_view(old(args)@))),
        ensures
            final(self).wf(),
            (Run {
                st: final(self)@,
                node: (exprs_view(final(args)@), arg_wrappers_view(final(arg_wrappers)@), dict_refs_view(final(dict_args)@), pending_dict_args_view(final(pending_dict_args)@)),
                res: ty_res(r),
            }) == field_call_run(
                within,
                old(self)@,
                env@,
                exprs_view(old(args)@),
                arg_wrappers_view(old(arg_wrappers)@),
                dict_refs_view(old(dict_args)@),
                pending_dict_args_view(old(pending_dict_args)@),
                callable@,
                constraints_view(constraints@),
                span,
                id,
                callee_id,
            ),
        decreases exprs_size(exprs_view(old(args)@)), 7nat, 0nat,
    {
        proof {
            reveal(field_call_run);
        }
        match self.give_dicts(env, dict_args, pending_dict_args, constraints) {
            Err(error) => {
                return Err(error.at(span));
            },
            Ok(_) => {},
        }
        self.note_symbol(callee_id, callable);
        let caps = self.known_capabilities(callable, callee_id);
        let none: Vec<Ty> = Vec::new();
        let settled: Vec<TraitConstraint> = Vec::new();
        assert(tys_view(none@) =~= Seq::empty());
        assert(constraints_view(settled@) =~= Seq::empty());
        let applied = match self.apply_callable_type(Ghost(within), env, args, arg_wrappers, dict_args, pending_dict_args, callable, &settled, &caps, none, None, 0, Some(span)) {
            Err(error) => {
                return Err(error);
            },
            Ok(t) => t,
        };
        self.note_symbol(callee_id, &applied.call_ty);
        self.note_fresh(id, applied.fresh_return);
        Ok(applied.ret_ty)
    }

    pub fn infer_row_call(
        &mut self,
        Ghost(within): Ghost<Within>,
        env: &TypeEnv,
        args: &mut Vec<Expr>,
        arg_wrappers: &mut Vec<Option<ArgWrapper>>,
        dict_args: &mut Vec<DictRef>,
        pending_dict_args: &mut Vec<PendingDictArg>,
        receiver_ty: &Ty,
        method: &String,
        span: SourceSpan,
        callee_id: NodeId,
    ) -> (r: Result<Ty, SpannedTypeError>)
        requires
            old(self).wf(),
            agrees(within, exprs_size(exprs_view(old(args)@))),
        ensures
            final(self).wf(),
            (Run {
                st: final(self)@,
                node: (exprs_view(final(args)@), arg_wrappers_view(final(arg_wrappers)@), dict_refs_view(final(dict_args)@), pending_dict_args_view(final(pending_dict_args)@)),
                res: ty_res(r),
            }) == row_call_run(
                within,
                old(self)@,
                env@,
                exprs_view(old(args)@),
                arg_wrappers_view(old(arg_wrappers)@),
                dict_refs_view(old(dict_args)@),
                pending_dict_args_view(old(pending_dict_args)@),
                receiver_ty@,
                method@,
                span,
                callee_id,
            ),
        decreases exprs_size(exprs_view(old(args)@)), 7nat, 0nat,
    {
        proof {
            reveal(row_call_run);
        }
        let field_ty = self.fresh_ty();
        let tail = self.fresh_ty();
        let want = one_field_record(method, &field_ty, tail);
        let none: Vec<Ty> = Vec::new();
        let settled: Vec<TraitConstraint> = Vec::new();
        let caps: Vec<ParamCapability> = Vec::new();
        assert(tys_view(none@) =~= Seq::empty());
        assert(caps@ =~= Seq::empty());
        assert(constraints_view(settled@) =~= Seq::empty());
        match self.equate(receiver_ty.clone(), want) {
            Err(error) => {
                return Err(error.unspanned());
            },
            Ok(_) => {},
        }
        let applied = match self.apply_callable_type(Ghost(within), env, args, arg_wrappers, dict_args, pending_dict_args, &field_ty, &settled, &caps, none, None, 0, Some(span)) {
            Err(error) => {
                return Err(error);
            },
            Ok(t) => t,
        };
        self.note_symbol(callee_id, &applied.call_ty);
        Ok(applied.ret_ty)
    }

    pub fn infer_scheme_method(
        &mut self,
        Ghost(within): Ghost<Within>,
        env: &TypeEnv,
        args: &mut Vec<Expr>,
        is_method_call: &mut bool,
        arg_wrappers: &mut Vec<Option<ArgWrapper>>,
        resolved_callee: &mut Option<ResolvedCallee>,
        dict_args: &mut Vec<DictRef>,
        pending_dict_args: &mut Vec<PendingDictArg>,
        receiver: &Expr,
        receiver_ty: &Ty,
        scheme: &Scheme,
        callee: &ResolvedCallee,
        misuse: &Option<TypeError>,
        callee_id: NodeId,
    ) -> (r: Result<Ty, SpannedTypeError>)
        requires
            old(self).wf(),
            agrees(within, exprs_size(exprs_view(old(args)@))),
        ensures
            final(self).wf(),
            (Run {
                st: final(self)@,
                node: (exprs_view(final(args)@), *final(is_method_call), arg_wrappers_view(final(arg_wrappers)@), some_resolved_callee_view(*final(resolved_callee)), dict_refs_view(final(dict_args)@), pending_dict_args_view(final(pending_dict_args)@)),
                res: ty_res(r),
            }) == scheme_method_run(
                within,
                old(self)@,
                env@,
                exprs_view(old(args)@),
                *old(is_method_call),
                arg_wrappers_view(old(arg_wrappers)@),
                some_resolved_callee_view(*old(resolved_callee)),
                dict_refs_view(old(dict_args)@),
                pending_dict_args_view(old(pending_dict_args)@),
                receiver@,
                receiver_ty@,
                scheme@,
                resolved_callee_view(*callee),
                some_error(*misuse),
                callee_id,
            ),
        decreases exprs_size(exprs_view(old(args)@)), 8nat, 0nat,
    {
        proof {
            reveal(scheme_method_run);
        }
        let value = self.instantiate_value(scheme);
        self.note_symbol(callee_id, &value);
        match misuse {
            Some(error) => {
                return Err(error.clone().unspanned());
            },
            None => {},
        }
        if scheme_param_is_mut_place(scheme, 0) {
            match self.check_mutable_place_arg(env, receiver, 0) {
                Err(error) => {
                    return Err(error);
                },
                Ok(_) => {},
            }
        }
        let lead = Some((receiver_ty.clone(), receiver.span));
        let applied = match self.apply_scheme_callable(
            Ghost(within),
            env,
            args,
            arg_wrappers,
            dict_args,
            pending_dict_args,
            scheme,
            &lead,
        ) {
            Err(error) => {
                return Err(error);
            },
            Ok(t) => t,
        };
        let used = value_func(&applied.arg_tys, &applied.ret_ty);
        self.note_symbol(callee_id, &used);
        *is_method_call = true;
        *resolved_callee = Some(callee.clone());
        Ok(applied.ret_ty)
    }

    pub fn infer_receiver_trait_use(
        &mut self,
        Ghost(within): Ghost<Within>,
        env: &TypeEnv,
        args: &mut Vec<Expr>,
        is_method_call: &mut bool,
        arg_wrappers: &mut Vec<Option<ArgWrapper>>,
        resolved_callee: &mut Option<ResolvedCallee>,
        c: &ReceiverTraitMethodMatch,
        receiver_ty: &Ty,
        callee_id: NodeId,
    ) -> (r: Result<Ty, SpannedTypeError>)
        requires
            old(self).wf(),
            agrees(within, exprs_size(exprs_view(old(args)@))),
        ensures
            final(self).wf(),
            (Run {
                st: final(self)@,
                node: (exprs_view(final(args)@), *final(is_method_call), arg_wrappers_view(final(arg_wrappers)@), some_resolved_callee_view(*final(resolved_callee))),
                res: ty_res(r),
            }) == trait_use_run(
                within,
                old(self)@,
                env@,
                exprs_view(old(args)@),
                *old(is_method_call),
                arg_wrappers_view(old(arg_wrappers)@),
                some_resolved_callee_view(*old(resolved_callee)),
                c@,
                receiver_ty@,
                callee_id,
            ),
        decreases exprs_size(exprs_view(old(args)@)), 5nat, 0nat,
    {
        proof {
            reveal(trait_use_run);
        }
        let params: Vec<FuncParam> = Vec::new();
        assert(crate::ty::params_view(params@) =~= Seq::empty());
        let tys = match self.infer_args_with_expected(Ghost(within), env, args, arg_wrappers, &params, 0) {
            Err(error) => {
                return Err(error);
            },
            Ok(t) => t,
        };
        let found = match self.try_receiver_trait_method(env, receiver_ty, &tys, c) {
            Err(error) => {
                return Err(error);
            },
            Ok(t) => t,
        };
        let used = value_func(&tys, &found.ret_ty);
        self.note_symbol(callee_id, &used);
        *is_method_call = true;
        *resolved_callee = Some(found.resolved_callee);
        Ok(found.ret_ty)
    }

    pub fn resolve_receiver_trait_call(
        &mut self,
        Ghost(within): Ghost<Within>,
        env: &TypeEnv,
        args: &mut Vec<Expr>,
        is_method_call: &mut bool,
        arg_wrappers: &mut Vec<Option<ArgWrapper>>,
        resolved_callee: &mut Option<ResolvedCallee>,
        receiver_ty: &Ty,
        method: &String,
        callee_id: NodeId,
    ) -> (r: Result<Option<Ty>, SpannedTypeError>)
        requires
            old(self).wf(),
            agrees(within, exprs_size(exprs_view(old(args)@))),
        ensures
            final(self).wf(),
            (Run {
                st: final(self)@,
                node: (exprs_view(final(args)@), *final(is_method_call), arg_wrappers_view(final(arg_wrappers)@), some_resolved_callee_view(*final(resolved_callee))),
                res: oty_res(r),
            }) == receiver_trait_run(
                within,
                old(self)@,
                env@,
                exprs_view(old(args)@),
                *old(is_method_call),
                arg_wrappers_view(old(arg_wrappers)@),
                some_resolved_callee_view(*old(resolved_callee)),
                receiver_ty@,
                method@,
                callee_id,
            ),
            r matches Ok(None) ==> exprs_view(final(args)@) == exprs_view(old(args)@) && *final(is_method_call) == *old(
                is_method_call,
            ) && arg_wrappers_view(final(arg_wrappers)@) == arg_wrappers_view(old(arg_wrappers)@)
                && some_resolved_callee_view(*final(resolved_callee)) == some_resolved_callee_view(
                *old(resolved_callee),
            ),
        decreases exprs_size(exprs_view(old(args)@)), 7nat, 0nat,
    {
        proof {
            reveal(receiver_trait_run);
        }
        let all = self.receiver_trait_method_candidates(method);
        let (found, fits) = self.probe_candidates(Ghost(within), env, args, &all, receiver_ty);
        assert(exprs_view(args@).len() == args@.len());
        match pick_candidate(&found, &fits, method, args.len()) {
            Err(error) => {
                Err(error.unspanned())
            },
            Ok(None) => {
                Ok(None)
            },
            Ok(Some(c)) => {
                match self.infer_receiver_trait_use(
                    Ghost(within),
                    env,
                    args,
                    is_method_call,
                    arg_wrappers,
                    resolved_callee,
                    &c,
                    receiver_ty,
                    callee_id,
                ) {
                    Err(error) => Err(error),
                    Ok(ty) => Ok(Some(ty)),
                }
            },
        }
    }

    pub fn infer_method_call(
        &mut self,
        Ghost(within): Ghost<Within>,
        env: &TypeEnv,
        args: &mut Vec<Expr>,
        is_method_call: &mut bool,
        arg_wrappers: &mut Vec<Option<ArgWrapper>>,
        resolved_callee: &mut Option<ResolvedCallee>,
        dict_args: &mut Vec<DictRef>,
        pending_dict_args: &mut Vec<PendingDictArg>,
        receiver: &Expr,
        receiver_ty: &Ty,
        method: &String,
        callee_id: NodeId,
        expected: &Option<Ty>,
    ) -> (r: Result<Ty, SpannedTypeError>)
        requires
            old(self).wf(),
            agrees(within, exprs_size(exprs_view(old(args)@))),
        ensures
            final(self).wf(),
            (Run {
                st: final(self)@,
                node: (exprs_view(final(args)@), *final(is_method_call), arg_wrappers_view(final(arg_wrappers)@), some_resolved_callee_view(*final(resolved_callee)), dict_refs_view(final(dict_args)@), pending_dict_args_view(final(pending_dict_args)@)),
                res: ty_res(r),
            }) == method_run(
                within,
                old(self)@,
                env@,
                exprs_view(old(args)@),
                *old(is_method_call),
                arg_wrappers_view(old(arg_wrappers)@),
                some_resolved_callee_view(*old(resolved_callee)),
                dict_refs_view(old(dict_args)@),
                pending_dict_args_view(old(pending_dict_args)@),
                receiver@,
                receiver_ty@,
                method@,
                callee_id,
                opt_ty(*expected),
            ),
        decreases exprs_size(exprs_view(old(args)@)), 11nat, 0nat,
    {
        proof {
            reveal(method_run);
        }
        let keys = inherent_impl_target_keys_from_ty(receiver_ty);
        match self.key_with_method(&keys, method) {
            Some(i) => {
                assert(strings_view(keys@)[i as int] == keys@[i as int]@);
                match self.method_of(&keys[i], method) {
                    Some(info) => {
                        let misuse = misuse_error(&info, &keys[i], method);
                        return self.infer_scheme_method(
                            Ghost(within),
                            env,
                            args,
                            is_method_call,
                            arg_wrappers,
                            resolved_callee,
                            dict_args,
                            pending_dict_args,
                            receiver,
                            receiver_ty,
                            &info.scheme,
                            &info.resolved_callee,
                            &misuse,
                            callee_id,
                        );
                    },
                    None => {},
                }
            },
            None => {},
        }
        match self.resolve_receiver_trait_call(
            Ghost(within),
            env,
            args,
            is_method_call,
            arg_wrappers,
            resolved_callee,
            receiver_ty,
            method,
            callee_id,
        ) {
            Err(error) => {
                return Err(error);
            },
            Ok(Some(ty)) => {
                return Ok(ty);
            },
            Ok(None) => {},
        }
        self.infer_other_method(
            Ghost(within),
            env,
            args,
            is_method_call,
            arg_wrappers,
            resolved_callee,
            dict_args,
            pending_dict_args,
            receiver,
            receiver_ty,
            method,
            callee_id,
            expected,
        )
    }

    pub fn infer_other_method(
        &mut self,
        Ghost(within): Ghost<Within>,
        env: &TypeEnv,
        args: &mut Vec<Expr>,
        is_method_call: &mut bool,
        arg_wrappers: &mut Vec<Option<ArgWrapper>>,
        resolved_callee: &mut Option<ResolvedCallee>,
        dict_args: &mut Vec<DictRef>,
        pending_dict_args: &mut Vec<PendingDictArg>,
        receiver: &Expr,
        receiver_ty: &Ty,
        method: &String,
        callee_id: NodeId,
        expected: &Option<Ty>,
    ) -> (r: Result<Ty, SpannedTypeError>)
        requires
            old(self).wf(),
            agrees(within, exprs_size(exprs_view(old(args)@))),
        ensures
            final(self).wf(),
            (Run {
                st: final(self)@,
                node: (exprs_view(final(args)@), *final(is_method_call), arg_wrappers_view(final(arg_wrappers)@), some_resolved_callee_view(*final(resolved_callee)), dict_refs_view(final(dict_args)@), pending_dict_args_view(final(pending_dict_args)@)),
                res: ty_res(r),
            }) == expected_method_run(
                within,
                old(self)@,
                env@,
                exprs_view(old(args)@),
                *old(is_method_call),
                arg_wrappers_view(old(arg_wrappers)@),
                some_resolved_callee_view(*old(resolved_callee)),
                dict_refs_view(old(dict_args)@),
                pending_dict_args_view(old(pending_dict_args)@),
                receiver@,
                receiver_ty@,
                method@,
                callee_id,
                opt_ty(*expected),
            ),
        decreases exprs_size(exprs_view(old(args)@)), 10nat, 0nat,
    {
        proof {
            reveal(expected_method_run);
        }
        let function = match env.get(method) {
            Some(info) => Some(info.scheme.clone()),
            None => None,
        };
        if let Some(scheme) = function {
            let callee = ResolvedCallee::Function(method.clone());
            return self.infer_scheme_method(
                Ghost(within),
                env,
                args,
                is_method_call,
                arg_wrappers,
                resolved_callee,
                dict_args,
                pending_dict_args,
                receiver,
                receiver_ty,
                &scheme,
                &callee,
                &None,
                callee_id,
            );
        }
        assert(exprs_view(args@).len() == args@.len());
        match expected {
            Some(ty) => {
                if args.len() == 0 && is_array_with_unresolved_element(receiver_ty) {
                    match self.array_method_matching_expected_return(method, ty) {
                        Some(m) => {
                            return self.infer_array_method(
                                Ghost(within),
                                env,
                                args,
                                is_method_call,
                                arg_wrappers,
                                resolved_callee,
                                dict_args,
                                pending_dict_args,
                                receiver,
                                receiver_ty,
                                method,
                                &m,
                                ty,
                                callee_id,
                            );
                        },
                        None => {},
                    }
                }
            },
            None => {},
        }
        Err(self.no_method(receiver_ty, method).unspanned())
    }

    pub fn infer_array_method(
        &mut self,
        Ghost(within): Ghost<Within>,
        env: &TypeEnv,
        args: &mut Vec<Expr>,
        is_method_call: &mut bool,
        arg_wrappers: &mut Vec<Option<ArgWrapper>>,
        resolved_callee: &mut Option<ResolvedCallee>,
        dict_args: &mut Vec<DictRef>,
        pending_dict_args: &mut Vec<PendingDictArg>,
        receiver: &Expr,
        receiver_ty: &Ty,
        method: &String,
        m: &ArrayMethod,
        expected: &Ty,
        callee_id: NodeId,
    ) -> (r: Result<Ty, SpannedTypeError>)
        requires
            old(self).wf(),
            agrees(within, exprs_size(exprs_view(old(args)@))),
        ensures
            final(self).wf(),
            (Run {
                st: final(self)@,
                node: (exprs_view(final(args)@), *final(is_method_call), arg_wrappers_view(final(arg_wrappers)@), some_resolved_callee_view(*final(resolved_callee)), dict_refs_view(final(dict_args)@), pending_dict_args_view(final(pending_dict_args)@)),
                res: ty_res(r),
            }) == array_method_run(
                within,
                old(self)@,
                env@,
                exprs_view(old(args)@),
                *old(is_method_call),
                arg_wrappers_view(old(arg_wrappers)@),
                some_resolved_callee_view(*old(resolved_callee)),
                dict_refs_view(old(dict_args)@),
                pending_dict_args_view(old(pending_dict_args)@),
                receiver@,
                receiver_ty@,
                method@,
                m@,
                expected@,
                callee_id,
            ),
        decreases exprs_size(exprs_view(old(args)@)), 9nat, 0nat,
    {
        proof {
            reveal(array_method_run);
        }
        match self.equate(receiver_ty.clone(), m.receiver.clone()) {
            Err(error) => {
                return Err(error.unspanned());
            },
            Ok(_) => {},
        }
        let misuse = misuse_error(&m.info, &m.target, method);
        let found = self.infer_scheme_method(
            Ghost(within),
            env,
            args,
            is_method_call,
            arg_wrappers,
            resolved_callee,
            dict_args,
            pending_dict_args,
            receiver,
            &m.receiver,
            &m.info.scheme,
            &m.info.resolved_callee,
            &misuse,
            callee_id,
        );
        self.array_after(found, expected)
    }

    pub fn resolve_receiver_call(
        &mut self,
        Ghost(within): Ghost<Within>,
        env: &TypeEnv,
        receiver: &mut Expr,
        args: &mut Vec<Expr>,
        is_method_call: &mut bool,
        arg_wrappers: &mut Vec<Option<ArgWrapper>>,
        resolved_callee: &mut Option<ResolvedCallee>,
        dict_args: &mut Vec<DictRef>,
        pending_dict_args: &mut Vec<PendingDictArg>,
        method: &String,
        id: NodeId,
        callee_id: NodeId,
        expected: &Option<Ty>,
    ) -> (r: Result<Ty, SpannedTypeError>)
        requires
            old(self).wf(),
            agrees(within, expr_size(old(receiver)@) + exprs_size(exprs_view(old(args)@))),
        ensures
            final(self).wf(),
            (Run {
                st: final(self)@,
                node: (final(receiver)@, exprs_view(final(args)@), *final(is_method_call), arg_wrappers_view(final(arg_wrappers)@), some_resolved_callee_view(*final(resolved_callee)), dict_refs_view(final(dict_args)@), pending_dict_args_view(final(pending_dict_args)@)),
                res: ty_res(r),
            }) == receiver_run(
                within,
                old(self)@,
                env@,
                old(receiver)@,
                exprs_view(old(args)@),
                *old(is_method_call),
                arg_wrappers_view(old(arg_wrappers)@),
                some_resolved_callee_view(*old(resolved_callee)),
                dict_refs_view(old(dict_args)@),
                pending_dict_args_view(old(pending_dict_args)@),
                method@,
                id,
                callee_id,
                opt_ty(*expected),
            ),
        decreases expr_size(old(receiver)@) + exprs_size(exprs_view(old(args)@)), 12nat, 0nat,
    {
        proof {
            reveal(receiver_run);
        }
        let value = match self.infer_expr(env, receiver) {
            Err(error) => {
                return Err(error);
            },
            Ok(t) => t,
        };
        let receiver_ty = self.resolve(&value);
        let imported = self.imported_member_scheme(receiver, method);
        self.note_receiver(receiver, method, callee_id);
        match imported {
            Some(scheme) => {
                let inst = self.instantiate_scheme(&scheme);
                let (more, callable) = split_qualified(inst.ty);
                let constraints = append_constraints(inst.constraints, more);
                self.infer_field_call(
                    Ghost(within),
                    env,
                    args,
                    arg_wrappers,
                    dict_args,
                    pending_dict_args,
                    &callable,
                    &constraints,
                    receiver.span,
                    id,
                    callee_id,
                )
            },
            None => {
                match record_field_ty(&receiver_ty, method) {
                    Some(ty) => {
                        let (constraints, callable) = split_qualified(ty);
                        self.infer_field_call(
                            Ghost(within),
                            env,
                            args,
                            arg_wrappers,
                            dict_args,
                            pending_dict_args,
                            &callable,
                            &constraints,
                            receiver.span,
                            id,
                            callee_id,
                        )
                    },
                    None => {
                        let unknown = is_var_type(&receiver_ty);
                        if unknown {
                            self.infer_row_call(
                                Ghost(within),
                                env,
                                args,
                                arg_wrappers,
                                dict_args,
                                pending_dict_args,
                                &receiver_ty,
                                method,
                                receiver.span,
                                callee_id,
                            )
                        } else {
                            self.infer_method_call(
                                Ghost(within),
                                env,
                                args,
                                is_method_call,
                                arg_wrappers,
                                resolved_callee,
                                dict_args,
                                pending_dict_args,
                                receiver,
                                &receiver_ty,
                                method,
                                callee_id,
                                expected,
                            )
                        }
                    },
                }
            },
        }
    }
}

} // verus!
