//! How operators are checked.

use vstd::prelude::*;

use crate::ast::{BinOp, DictRef, Expr, PendingDictArg, PendingMethod, ResolvedCallee};
use crate::ast_size::expr_size;
use crate::ast_view::{dict_refs_view, pending_dict_args_view, some_pending_dict_arg_view};
use crate::ast_view::{some_pending_method_view, some_resolved_callee_view};
use crate::checker::{Within, agrees, binary_run, custom_run, index_run, neg_run, pipe_run};
use crate::checker::trait_op_run;
use crate::dispatch::Dispatch;
use crate::ends::set_choice;
use crate::env::TypeEnv;
use crate::error::{SpannedTypeError, TypeError};
use crate::finish::operator_method;
use crate::state::Infer;
use crate::steps::{Run, ty_res};
use crate::ty::{Ty, tys_view};

verus! {

impl Infer {
    pub fn infer_neg_expr(
        &mut self,
        Ghost(within): Ghost<Within>,
        env: &TypeEnv,
        operand: &mut Expr,
        resolved_op: &mut Option<ResolvedCallee>,
        pending_op: &mut Option<PendingDictArg>,
    ) -> (r: Result<Ty, SpannedTypeError>)
        requires
            old(self).wf(),
            agrees(within, expr_size(old(operand)@)),
        ensures
            final(self).wf(),
            (Run {
                st: final(self)@,
                node: (final(operand)@, some_resolved_callee_view(*final(resolved_op)), some_pending_dict_arg_view(*final(pending_op))),
                res: ty_res(r),
            }) == neg_run(
                within,
                old(self)@,
                env@,
                old(operand)@,
                some_resolved_callee_view(*old(resolved_op)),
                some_pending_dict_arg_view(*old(pending_op)),
            ),
        decreases expr_size(old(operand)@), 3nat, 0nat,
    {
        proof {
            reveal(neg_run);
        }
        proof {
            reveal(operator_method);
        }
        let (def, method) = match self.operator_method("Neg", "-", 1) {
            Err(e) => {
                return Err(e.unspanned());
            },
            Ok(t) => t,
        };
        let (args, params, ret) = match self.instantiate_operator_trait_method(&def, &method) {
            Err(e) => {
                return Err(e.unspanned());
            },
            Ok(t) => t,
        };
        assert(def@.params.len() == def.params@.len());
        if def.params.len() != 1 {
            Err(TypeError::TraitArityMismatch {
                    trait_name: "Neg".to_owned(),
                    expected: 1,
                    got: def.params.len(),
                }.unspanned())
        } else {
            assert(tys_view(params@)[0] == params@[0]@);
            assert(tys_view(args@)[0] == args@[0]@);
            let ty = match self.infer_expr_expected(env, operand, params[0].clone()) {
                Err(error) => {
                    return Err(error);
                },
                Ok(t) => t,
            };
            match self.equate(ty, params[0].clone()) {
                Err(error) => {
                    return Err(error.unspanned());
                },
                Ok(_) => {},
            }
            let target = self.resolve(&args[0]);
            let choice = match self.resolve_trait_dict(env, "Neg", &target) {
                Err(error) => {
                    return Err(error.unspanned());
                },
                Ok(t) => t,
            };
            set_choice(choice, "-", resolved_op, pending_op);
            Ok(self.resolve(&ret))
        }
    }

    pub fn infer_pipe_expr(
        &mut self,
        Ghost(within): Ghost<Within>,
        env: &TypeEnv,
        lhs: &mut Expr,
        rhs: &mut Expr,
        dict_args: &mut Vec<DictRef>,
        pending_dict_args: &mut Vec<PendingDictArg>,
        l_ty: Ty,
    ) -> (r: Result<Ty, SpannedTypeError>)
        requires
            old(self).wf(),
            agrees(within, expr_size(old(rhs)@)),
        ensures
            final(self).wf(),
            (Run {
                st: final(self)@,
                node: (final(lhs)@, final(rhs)@, dict_refs_view(final(dict_args)@), pending_dict_args_view(final(pending_dict_args)@)),
                res: ty_res(r),
            }) == pipe_run(
                within,
                old(self)@,
                env@,
                old(lhs)@,
                old(rhs)@,
                dict_refs_view(old(dict_args)@),
                pending_dict_args_view(old(pending_dict_args)@),
                l_ty@,
            ),
        decreases expr_size(old(rhs)@), 3nat, 0nat,
    {
        proof {
            reveal(pipe_run);
        }
        let r_ty = match self.infer_expr(env, rhs) {
            Err(error) => {
                return Err(error);
            },
            Ok(t) => t,
        };
        self.pipe_end(env, lhs, rhs, l_ty, r_ty, dict_args, pending_dict_args)
    }

    pub fn infer_trait_operator_expr(
        &mut self,
        Ghost(within): Ghost<Within>,
        env: &TypeEnv,
        rhs: &mut Expr,
        resolved_op: &mut Option<ResolvedCallee>,
        pending_op: &mut Option<PendingDictArg>,
        op: &String,
        trait_name: &String,
        l_ty: Ty,
    ) -> (r: Result<Ty, SpannedTypeError>)
        requires
            old(self).wf(),
            agrees(within, expr_size(old(rhs)@)),
        ensures
            final(self).wf(),
            (Run {
                st: final(self)@,
                node: (final(rhs)@, some_resolved_callee_view(*final(resolved_op)), some_pending_dict_arg_view(*final(pending_op))),
                res: ty_res(r),
            }) == trait_op_run(
                within,
                old(self)@,
                env@,
                old(rhs)@,
                some_resolved_callee_view(*old(resolved_op)),
                some_pending_dict_arg_view(*old(pending_op)),
                op@,
                trait_name@,
                l_ty@,
            ),
        decreases expr_size(old(rhs)@), 3nat, 0nat,
    {
        proof {
            reveal(trait_op_run);
        }
        let started = match self.operator_start(trait_name, op, &l_ty) {
            Err(e) => {
                return Err(e.unspanned());
            },
            Ok(t) => t,
        };
        let r_ty = match self.infer_expr_expected(env, rhs, started.right.clone()) {
            Err(error) => {
                return Err(error);
            },
            Ok(t) => t,
        };
        self.operator_end(env, &started, trait_name, op, &l_ty, r_ty, resolved_op, pending_op)
    }

    pub fn infer_custom_binary_expr(
        &mut self,
        Ghost(within): Ghost<Within>,
        env: &TypeEnv,
        rhs: &mut Expr,
        resolved_op: &mut Option<ResolvedCallee>,
        pending_op: &mut Option<PendingDictArg>,
        dict_args: &mut Vec<DictRef>,
        pending_dict_args: &mut Vec<PendingDictArg>,
        op: &String,
        l_ty: Ty,
    ) -> (r: Result<Ty, SpannedTypeError>)
        requires
            old(self).wf(),
            agrees(within, expr_size(old(rhs)@)),
        ensures
            final(self).wf(),
            (Run {
                st: final(self)@,
                node: (final(rhs)@, some_resolved_callee_view(*final(resolved_op)), some_pending_dict_arg_view(*final(pending_op)), dict_refs_view(final(dict_args)@), pending_dict_args_view(final(pending_dict_args)@)),
                res: ty_res(r),
            }) == custom_run(
                within,
                old(self)@,
                env@,
                old(rhs)@,
                some_resolved_callee_view(*old(resolved_op)),
                some_pending_dict_arg_view(*old(pending_op)),
                dict_refs_view(old(dict_args)@),
                pending_dict_args_view(old(pending_dict_args)@),
                op@,
                l_ty@,
            ),
        decreases expr_size(old(rhs)@), 4nat, 0nat,
    {
        proof {
            reveal(custom_run);
        }
        let found = match self.traits.op_trait_map.get(op) {
            Some(name) => Some(name.clone()),
            None => None,
        };
        if let Some(trait_name) = found {
            self.infer_trait_operator_expr(Ghost(within), env, rhs, resolved_op, pending_op, op, &trait_name, l_ty)
        } else {
            let r_ty = match self.infer_expr(env, rhs) {
                Err(error) => {
                    return Err(error);
                },
                Ok(t) => t,
            };
            self.function_operator(env, op, l_ty, r_ty, resolved_op, dict_args, pending_dict_args)
        }
    }

    pub fn infer_binary_expr(
        &mut self,
        Ghost(within): Ghost<Within>,
        env: &TypeEnv,
        lhs: &mut Expr,
        rhs: &mut Expr,
        resolved_op: &mut Option<ResolvedCallee>,
        pending_op: &mut Option<PendingDictArg>,
        dict_args: &mut Vec<DictRef>,
        pending_dict_args: &mut Vec<PendingDictArg>,
        op: &BinOp,
    ) -> (r: Result<Ty, SpannedTypeError>)
        requires
            old(self).wf(),
            agrees(within, expr_size(old(lhs)@) + expr_size(old(rhs)@)),
        ensures
            final(self).wf(),
            (Run {
                st: final(self)@,
                node: (final(lhs)@, final(rhs)@, some_resolved_callee_view(*final(resolved_op)), some_pending_dict_arg_view(*final(pending_op)), dict_refs_view(final(dict_args)@), pending_dict_args_view(final(pending_dict_args)@)),
                res: ty_res(r),
            }) == binary_run(
                within,
                old(self)@,
                env@,
                old(lhs)@,
                old(rhs)@,
                some_resolved_callee_view(*old(resolved_op)),
                some_pending_dict_arg_view(*old(pending_op)),
                dict_refs_view(old(dict_args)@),
                pending_dict_args_view(old(pending_dict_args)@),
                op@,
            ),
        decreases expr_size(old(lhs)@) + expr_size(old(rhs)@), 5nat, 0nat,
    {
        proof {
            reveal(binary_run);
        }
        let l_ty = match self.infer_expr(env, lhs) {
            Err(error) => {
                return Err(error);
            },
            Ok(t) => t,
        };
        match op {
            BinOp::Pipe => {
                self.infer_pipe_expr(Ghost(within), env, lhs, rhs, dict_args, pending_dict_args, l_ty)
            },
            BinOp::Custom(name) => {
                self.infer_custom_binary_expr(
                    Ghost(within),
                    env,
                    rhs,
                    resolved_op,
                    pending_op,
                    dict_args,
                    pending_dict_args,
                    name,
                    l_ty,
                )
            },
        }
    }

    pub fn infer_index_expr(
        &mut self,
        Ghost(within): Ghost<Within>,
        env: &TypeEnv,
        receiver: &mut Expr,
        key: &mut Expr,
        resolved_callee: &mut Option<ResolvedCallee>,
        pending_trait_method: &mut Option<PendingMethod>,
    ) -> (r: Result<Ty, SpannedTypeError>)
        requires
            old(self).wf(),
            agrees(within, expr_size(old(receiver)@) + expr_size(old(key)@)),
        ensures
            final(self).wf(),
            (Run {
                st: final(self)@,
                node: (final(receiver)@, final(key)@, some_resolved_callee_view(*final(resolved_callee)), some_pending_method_view(*final(pending_trait_method))),
                res: ty_res(r),
            }) == index_run(
                within,
                old(self)@,
                env@,
                old(receiver)@,
                old(key)@,
                some_resolved_callee_view(*old(resolved_callee)),
                some_pending_method_view(*old(pending_trait_method)),
            ),
        decreases expr_size(old(receiver)@) + expr_size(old(key)@), 3nat, 0nat,
    {
        proof {
            reveal(index_run);
        }
        let def = match self.traits.env.get("Index") {
            Some(def) => def.clone(),
            None => {
                return Err(TypeError::UnknownTrait("Index".to_owned()).unspanned());
            },
        };
        assert(def@.params.len() == def.params@.len());
        if def.params.len() != 3 {
            Err(TypeError::TraitArityMismatch {
                    trait_name: "Index".to_owned(),
                    expected: 3,
                    got: def.params.len(),
                }.unspanned())
        } else {
            let receiver_ty = match self.infer_expr(env, receiver) {
                Err(error) => {
                    return Err(error);
                },
                Ok(t) => t,
            };
            let key_ty = match self.infer_expr(env, key) {
                Err(error) => {
                    return Err(error);
                },
                Ok(t) => t,
            };
            let dispatch = match self.index_use(env, &def, &receiver_ty, &key_ty) {
                Err(error) => {
                    return Err(error);
                },
                Ok(t) => t,
            };
            match dispatch {
                Dispatch::Resolved(ty, callee) => {
                    *resolved_callee = Some(callee);
                    Ok(ty)
                },
                Dispatch::Pending(ty, pending) => {
                    *pending_trait_method = Some(pending);
                    Ok(ty)
                },
                Dispatch::Unknown => {
                    Ok(Ty::Unit)
                },
            }
        }
    }
}

} // verus!
