//! How assignments, conditions, matches and loops are checked.

use vstd::prelude::*;

use crate::ast::{Expr, ExprKind, MatchArm, Pattern, PendingDictArg, ResolvedCallee};
use crate::ast_rest::{lemma_arms_rest, lemma_arms_whole};
use crate::ast_size::{expr_size, match_arms_size, optional_size};
use crate::ast_view::{boxed_expr_view, match_arm_view, match_arms_view};
use crate::ast_view::{some_pending_dict_arg_view, some_resolved_callee_view};
use crate::checker::{Within, agrees, arm_run, arms_run, assign_run, bool_type, branches_run};
use crate::checker::{break_run, for_run, loop_run, match_run, oty_res, pair_res, return_run};
use crate::checker::target_run;
use crate::ends::set_choice;
use crate::env::TypeEnv;
use crate::error::{SpannedTypeError, TypeError};
use crate::finish::{constructor_pattern_refinement_mismatch, iterator_element};
use crate::state::Infer;
use crate::steps::{Run, ty_res};
use crate::ty::{Ty, return_view, ty_view};
use crate::ty_helpers::opt_ty;
use crate::walkers::find_assignment_base_name;

verus! {

impl Infer {
    pub fn infer_assign_target(
        &mut self,
        Ghost(within): Ghost<Within>,
        env: &TypeEnv,
        target: &mut Expr,
    ) -> (r: Result<Ty, SpannedTypeError>)
        requires
            old(self).wf(),
            agrees(within, expr_size(old(target)@)),
        ensures
            final(self).wf(),
            (Run {
                st: final(self)@,
                node: final(target)@,
                res: ty_res(r),
            }) == target_run(
                within,
                old(self)@,
                env@,
                old(target)@,
            ),
        decreases expr_size(old(target)@), 3nat, 0nat,
    {
        proof {
            reveal(target_run);
        }
        match &target.kind {
            ExprKind::Ident(name) => {
                let (mutable, scheme) = match env.get(name) {
                    None => {
                        return Err(TypeError::UnboundVariable(name.clone()).unspanned());
                    },
                    Some(info) => (info.binding_mutable, info.scheme.clone()),
                };
                if !mutable {
                    Err(TypeError::ImmutableAssignment(name.clone()).unspanned())
                } else {
                    let ty = self.instantiate(&scheme);
                    self.note_symbol(target.id, &ty);
                    Ok(ty)
                }
            },
            ExprKind::FieldAccess { .. } => {
                match find_assignment_base_name(target) {
                    None => {
                        Err(TypeError::InvalidAssignmentTarget.unspanned())
                    },
                    Some(name) => {
                        let mutable = match env.get(&name) {
                            None => {
                                return Err(TypeError::UnboundVariable(name).unspanned());
                            },
                            Some(info) => info.place_mutable,
                        };
                        if !mutable {
                            Err(TypeError::ImmutablePlace(name).unspanned())
                        } else {
                            self.infer_expr(env, target)
                        }
                    },
                }
            },
            _ => {
                Err(TypeError::InvalidAssignmentTarget.unspanned())
            },
        }
    }

    pub fn infer_assign(
        &mut self,
        Ghost(within): Ghost<Within>,
        env: &TypeEnv,
        target: &mut Expr,
        value: &mut Expr,
    ) -> (r: Result<Ty, SpannedTypeError>)
        requires
            old(self).wf(),
            agrees(within, expr_size(old(target)@) + expr_size(old(value)@)),
        ensures
            final(self).wf(),
            (Run {
                st: final(self)@,
                node: (final(target)@, final(value)@),
                res: ty_res(r),
            }) == assign_run(
                within,
                old(self)@,
                env@,
                old(target)@,
                old(value)@,
            ),
        decreases expr_size(old(target)@) + expr_size(old(value)@), 4nat, 0nat,
    {
        proof {
            reveal(assign_run);
        }
        let target_ty = match self.infer_assign_target(Ghost(within), env, target) {
            Err(error) => {
                return Err(error);
            },
            Ok(t) => t,
        };
        let value_ty = match self.infer_expr(env, value) {
            Err(error) => {
                return Err(error);
            },
            Ok(t) => t,
        };
        match self.equate(target_ty, value_ty) {
            Err(error) => {
                return Err(error.unspanned());
            },
            Ok(_) => {},
        }
        Ok(Ty::Unit)
    }

    pub fn infer_branches(
        &mut self,
        Ghost(within): Ghost<Within>,
        env: &TypeEnv,
        cond: &mut Expr,
        then_branch: &mut Expr,
        else_branch: &mut Expr,
        expected: &Option<Ty>,
    ) -> (r: Result<(Ty, Ty), SpannedTypeError>)
        requires
            old(self).wf(),
            agrees(within, expr_size(old(cond)@) + expr_size(old(then_branch)@) + expr_size(old(else_branch)@)),
        ensures
            final(self).wf(),
            (Run {
                st: final(self)@,
                node: (final(cond)@, final(then_branch)@, final(else_branch)@),
                res: pair_res(r),
            }) == branches_run(
                within,
                old(self)@,
                env@,
                old(cond)@,
                old(then_branch)@,
                old(else_branch)@,
                opt_ty(*expected),
            ),
        decreases expr_size(old(cond)@) + expr_size(old(then_branch)@) + expr_size(old(else_branch)@), 3nat, 0nat,
    {
        proof {
            reveal(branches_run);
        }
        let ty = match self.infer_expr(env, cond) {
            Err(error) => {
                return Err(error);
            },
            Ok(t) => t,
        };
        match self.equate(ty, bool_type()) {
            Err(error) => {
                return Err(error.unspanned());
            },
            Ok(_) => {},
        }
        let then_ty = match self.infer_either(env, then_branch, expected) {
            Err(error) => {
                return Err(error);
            },
            Ok(t) => t,
        };
        let else_ty = match self.infer_either(env, else_branch, expected) {
            Err(error) => {
                return Err(error);
            },
            Ok(t) => t,
        };
        Ok((then_ty, else_ty))
    }

    pub fn infer_arm(
        &mut self,
        Ghost(within): Ghost<Within>,
        env: &TypeEnv,
        body: &mut Expr,
        pattern: &Pattern,
        s_ty: &Ty,
        first: &Ty,
        expected: &Option<Ty>,
    ) -> (r: Result<Ty, SpannedTypeError>)
        requires
            old(self).wf(),
            agrees(within, expr_size(old(body)@)),
        ensures
            final(self).wf(),
            (Run {
                st: final(self)@,
                node: final(body)@,
                res: ty_res(r),
            }) == arm_run(
                within,
                old(self)@,
                env@,
                old(body)@,
                pattern@,
                s_ty@,
                first@,
                opt_ty(*expected),
            ),
        decreases expr_size(old(body)@), 3nat, 0nat,
    {
        proof {
            reveal(arm_run);
        }
        let mut arm_env = env.clone();
        let before = self.resolve(s_ty);
        match self.check_pattern(pattern, before, &mut arm_env, false) {
            Err(e) => {
                return Err(e.unspanned());
            },
            Ok(_) => {},
        }
        let after = self.resolve(s_ty);
        let ty = match self.infer_either(&arm_env, body, expected) {
            Err(error) => {
                return Err(constructor_pattern_refinement_mismatch(pattern, first, &after, error, body.span));
            },
            Ok(t) => t,
        };
        Ok(ty)
    }

    pub fn infer_arms(
        &mut self,
        Ghost(within): Ghost<Within>,
        env: &TypeEnv,
        arms: &mut Vec<MatchArm>,
        s_ty: &Ty,
        first: &Ty,
        expected: &Option<Ty>,
    ) -> (r: Result<Option<Ty>, SpannedTypeError>)
        requires
            old(self).wf(),
            agrees(within, match_arms_size(match_arms_view(old(arms)@))),
        ensures
            final(self).wf(),
            (Run {
                st: final(self)@,
                node: match_arms_view(final(arms)@),
                res: oty_res(r),
            }) == arms_run(
                within,
                old(self)@,
                env@,
                match_arms_view(old(arms)@),
                s_ty@,
                first@,
                opt_ty(*expected),
                0,
                None,
            ),
        decreases match_arms_size(match_arms_view(old(arms)@)), 3nat, 0nat,
    {
        proof {
            reveal(arms_run);
        }
        let mut found: Option<Ty> = None;
        let ghost start = match_arms_view(arms@);
        let ghost want = arms_run(within, self@, env@, match_arms_view(arms@), s_ty@, first@, opt_ty(*expected), 0, None);
        let mut i: usize = 0;
        proof {
            lemma_arms_whole(start);
        }
        while i < arms.len()
            invariant
                agrees(within, match_arms_size(match_arms_view(old(arms)@))),
                i <= arms.len(),
                self.wf(),
                start == match_arms_view(old(arms)@),
                match_arms_size(match_arms_view(arms@).skip(i as int)) <= match_arms_size(start),
                want == arms_run(within, old(self)@, env@, start, s_ty@, first@, opt_ty(*expected), 0, None),
                want == arms_run(within, self@, env@, match_arms_view(arms@), s_ty@, first@, opt_ty(*expected), i as nat, opt_ty(found)),
            decreases arms.len() - i,
        {
            proof {
                reveal(arms_run);
            }
            let ghost now = match_arms_view(arms@);
            proof {
                assert(now.len() == arms@.len());
                assert(now[i as int] == match_arm_view(arms@[i as int]));
                lemma_arms_rest(now, i as int);
            }
            let step = {
                let arm = &mut arms[i];
                self.infer_arm(Ghost(within), env, &mut arm.body, &arm.pattern, s_ty, first, expected)
            };
            proof {
                assert(match_arms_view(arms@) =~= now.update(i as int, match_arm_view(arms@[i as int])));
            }
            let ty = match step {
                Err(e) => {
                    return Err(e);
                },
                Ok(t) => t,
            };
            found = match found {
                None => Some(ty),
                Some(before) => match self.combine_branch_types(before, ty) {
                    Err(e) => {
                        return Err(e.unspanned());
                    },
                    Ok(both) => Some(both),
                },
            };
            i = i + 1;
        }
        Ok(found)
    }

    pub fn infer_match(
        &mut self,
        Ghost(within): Ghost<Within>,
        env: &TypeEnv,
        scrutinee: &mut Expr,
        arms: &mut Vec<MatchArm>,
        expected: &Option<Ty>,
    ) -> (r: Result<Option<Ty>, SpannedTypeError>)
        requires
            old(self).wf(),
            agrees(within, expr_size(old(scrutinee)@) + match_arms_size(match_arms_view(old(arms)@))),
        ensures
            final(self).wf(),
            (Run {
                st: final(self)@,
                node: (final(scrutinee)@, match_arms_view(final(arms)@)),
                res: oty_res(r),
            }) == match_run(
                within,
                old(self)@,
                env@,
                old(scrutinee)@,
                match_arms_view(old(arms)@),
                opt_ty(*expected),
            ),
        decreases expr_size(old(scrutinee)@) + match_arms_size(match_arms_view(old(arms)@)), 4nat, 0nat,
    {
        proof {
            reveal(match_run);
        }
        let s_ty = match self.infer_expr(env, scrutinee) {
            Err(error) => {
                return Err(error);
            },
            Ok(t) => t,
        };
        let first = self.resolve(&s_ty);
        let found = match self.infer_arms(Ghost(within), env, arms, &s_ty, &first, expected) {
            Err(error) => {
                return Err(error);
            },
            Ok(t) => t,
        };
        let last = self.resolve(&s_ty);
        match self.check_exhaustive(arms, &last) {
            Err(e) => {
                return Err(e.unspanned());
            },
            Ok(_) => {},
        }
        Ok(found)
    }

    pub fn infer_loop(
        &mut self,
        Ghost(within): Ghost<Within>,
        env: &TypeEnv,
        body: &mut Expr,
    ) -> (r: Result<Ty, SpannedTypeError>)
        requires
            old(self).wf(),
            agrees(within, expr_size(old(body)@)),
        ensures
            final(self).wf(),
            (Run {
                st: final(self)@,
                node: final(body)@,
                res: ty_res(r),
            }) == loop_run(
                within,
                old(self)@,
                env@,
                old(body)@,
            ),
        decreases expr_size(old(body)@), 3nat, 0nat,
    {
        proof {
            reveal(loop_run);
        }
        let ty = self.fresh_ty();
        self.enter_loop(ty.clone());
        let done = self.infer_expr(env, body);
        self.leave_loop();
        match done {
            Err(e) => {
                return Err(e);
            },
            Ok(_) => {},
        }
        Ok(ty)
    }

    pub fn infer_break(
        &mut self,
        Ghost(within): Ghost<Within>,
        env: &TypeEnv,
        val: &mut Option<Box<Expr>>,
    ) -> (r: Result<Ty, SpannedTypeError>)
        requires
            old(self).wf(),
            agrees(within, optional_size(boxed_expr_view(*old(val)))),
        ensures
            final(self).wf(),
            (Run {
                st: final(self)@,
                node: boxed_expr_view(*final(val)),
                res: ty_res(r),
            }) == break_run(
                within,
                old(self)@,
                env@,
                boxed_expr_view(*old(val)),
            ),
        decreases optional_size(boxed_expr_view(*old(val))), 3nat, 0nat,
    {
        proof {
            reveal(break_run);
        }
        assert(self@.break_tys.len() == self.flow.loop_break_tys@.len());
        if self.flow.loop_break_tys.len() == 0 {
            Err(TypeError::BreakOutsideLoop.unspanned())
        } else {
            let ty = self.flow.loop_break_tys[self.flow.loop_break_tys.len() - 1].clone();
            match &mut *val {
                Some(e) => {
                    let found = match self.infer_expr(env, e) {
                        Err(err) => {
                            return Err(err);
                        },
                        Ok(t) => t,
                    };
                    match self.unify_expr_result(found, ty) {
                        Err(error) => {
                            return Err(error.unspanned());
                        },
                        Ok(_) => {},
                    }
                    Ok(Ty::Never)
                },
                None => {
                    match self.equate(ty, Ty::Unit) {
                        Err(error) => {
                            return Err(error.unspanned());
                        },
                        Ok(_) => {},
                    }
                    Ok(Ty::Never)
                },
            }
        }
    }

    pub fn infer_return(
        &mut self,
        Ghost(within): Ghost<Within>,
        env: &TypeEnv,
        val: &mut Option<Box<Expr>>,
    ) -> (r: Result<Ty, SpannedTypeError>)
        requires
            old(self).wf(),
            agrees(within, optional_size(boxed_expr_view(*old(val)))),
        ensures
            final(self).wf(),
            (Run {
                st: final(self)@,
                node: boxed_expr_view(*final(val)),
                res: ty_res(r),
            }) == return_run(
                within,
                old(self)@,
                env@,
                boxed_expr_view(*old(val)),
            ),
        decreases optional_size(boxed_expr_view(*old(val))), 3nat, 0nat,
    {
        proof {
            reveal(return_run);
        }
        assert(self@.return_tys.len() == self.flow.fn_return_tys@.len());
        if self.flow.fn_return_tys.len() == 0 {
            Err(TypeError::ReturnOutsideFunction.unspanned())
        } else {
            let ret = self.flow.fn_return_tys[self.flow.fn_return_tys.len() - 1].clone();
            assert(return_view(ret).ty == Box::new(ty_view(*ret.ty)));
            match &mut *val {
                Some(e) => {
                    let found = match self.infer_expr(env, e) {
                        Err(err) => {
                            return Err(err);
                        },
                        Ok(t) => t,
                    };
                    match self.unify_expr_result(found, (*ret.ty).clone()) {
                        Err(error) => {
                            return Err(error.unspanned());
                        },
                        Ok(_) => {},
                    }
                    match self.check_fresh_return_expr(e, &ret) {
                        Err(error) => {
                            return Err(error);
                        },
                        Ok(_) => {},
                    }
                    Ok(Ty::Never)
                },
                None => {
                    match self.equate((*ret.ty).clone(), Ty::Unit) {
                        Err(error) => {
                            return Err(error.unspanned());
                        },
                        Ok(_) => {},
                    }
                    Ok(Ty::Never)
                },
            }
        }
    }

    pub fn infer_for_expr(
        &mut self,
        Ghost(within): Ghost<Within>,
        env: &TypeEnv,
        iterable: &mut Expr,
        body: &mut Expr,
        resolved_iter: &mut Option<ResolvedCallee>,
        pending_iter: &mut Option<PendingDictArg>,
        pat: &Pattern,
    ) -> (r: Result<Ty, SpannedTypeError>)
        requires
            old(self).wf(),
            agrees(within, expr_size(old(iterable)@) + expr_size(old(body)@)),
        ensures
            final(self).wf(),
            (Run {
                st: final(self)@,
                node: (final(iterable)@, final(body)@, some_resolved_callee_view(*final(resolved_iter)), some_pending_dict_arg_view(*final(pending_iter))),
                res: ty_res(r),
            }) == for_run(
                within,
                old(self)@,
                env@,
                old(iterable)@,
                old(body)@,
                some_resolved_callee_view(*old(resolved_iter)),
                some_pending_dict_arg_view(*old(pending_iter)),
                pat@,
            ),
        decreases expr_size(old(iterable)@) + expr_size(old(body)@), 3nat, 0nat,
    {
        proof {
            reveal(for_run);
        }
        let ty = match self.infer_expr(env, iterable) {
            Err(error) => {
                return Err(error);
            },
            Ok(t) => t,
        };
        let (target, self_ty, ret) = match self.iter_types() {
            Err(e) => {
                return Err(e.unspanned());
            },
            Ok(t) => t,
        };
        match self.equate(ty, self_ty) {
            Err(error) => {
                return Err(error.unspanned());
            },
            Ok(_) => {},
        }
        let target = self.resolve(&target);
        match self.resolve_iterable_dict(env, &target) {
            Err(e) => {
                return Err(e.at(iterable.span));
            },
            Ok(choice) => {
                set_choice(choice, "iter", resolved_iter, pending_iter);
            },
        }
        let whole = self.resolve(&ret);
        let element = self.resolve(&iterator_element(whole));
        let mut body_env = env.clone();
        match self.check_pattern(pat, element, &mut body_env, false) {
            Err(e) => {
                return Err(e.unspanned());
            },
            Ok(_) => {},
        }
        self.enter_loop(Ty::Unit);
        let _done = match self.infer_expr(&body_env, body) {
            Err(error) => {
                return Err(error);
            },
            Ok(t) => t,
        };
        self.leave_loop();
        Ok(Ty::Unit)
    }
}

} // verus!
