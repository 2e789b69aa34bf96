//! How expressions are checked.

use vstd::prelude::*;

use crate::ast::{Expr, ExprKind, NodeId, SourceSpan};
use crate::ast_rest::{lemma_exprs_rest, lemma_exprs_whole};
use crate::ast_size::{expr_kind_size, expr_size, exprs_size};
use crate::ast_view::{expr_kind_view, expr_view, exprs_view};
use crate::checker::{KindRun, OutRun, Within, agrees, below, bool_type, checked, each_run};
use crate::checker::{expected_kind, expected_step, field_run, infer, infer_expected};
use crate::checker::{infer_kind, infer_step, kind_uses_expected, lemma_below_agrees, meets};
use crate::checker::{not_run, number_type_of, one_field_record, string_type, uses_expected};
use crate::definitions::return_type;
use crate::dict_names::dict_params;
use crate::env::TypeEnv;
use crate::error::{SpannedTypeError, TypeError};
use crate::state::Infer;
use crate::steps::{Run, ty_res, tys_res};
use crate::ty::{Ty, clone_params, tys_view};
use crate::ty_helpers::opt_ty;
use crate::type_syntax::field_ty;

verus! {

impl Infer {
    /// Checks an expression.
    pub fn infer_expr(&mut self, env: &TypeEnv, e: &mut Expr) -> (r: Result<Ty, SpannedTypeError>)
        requires
            old(self).wf(),
        ensures
            final(self).wf(),
            (Run { st: final(self)@, node: final(e)@, res: ty_res(r) }) == infer(
                old(self)@,
                env@,
                old(e)@,
            ),
        decreases expr_size(old(e)@), 0nat, 0nat,
    {
        let ghost within = below(expr_size(e@));
        proof {
            reveal(checked);
            reveal(infer_step);
            lemma_below_agrees(expr_size(e@), expr_kind_size(e@.kind));
        }
        let id = e.id;
        let span = e.span;
        let (res, out) = self.infer_kind(Ghost(within), env, &mut e.kind, id, span);
        if out {
            return res;
        }
        match res {
            Ok(ty) => {
                self.note_type(id, &ty);
                Ok(ty)
            },
            Err(error) => Err(error.with_span_if_absent(span)),
        }
    }

    /// Checks an expression against a type.
    pub fn infer_expr_expected(&mut self, env: &TypeEnv, e: &mut Expr, expected: Ty) -> (r: Result<
        Ty,
        SpannedTypeError,
    >)
        requires
            old(self).wf(),
        ensures
            final(self).wf(),
            (Run { st: final(self)@, node: final(e)@, res: ty_res(r) }) == infer_expected(
                old(self)@,
                env@,
                old(e)@,
                expected@,
            ),
        decreases expr_size(old(e)@), 1nat, 0nat,
    {
        let ghost within = below(expr_size(e@));
        proof {
            reveal(checked);
            reveal(expected_step);
            lemma_below_agrees(expr_size(e@), expr_kind_size(e@.kind));
        }
        let want = self.resolve(&expected);
        let id = e.id;
        let span = e.span;
        if kind_uses_expected(&e.kind, &want) {
            return match self.expected_kind(Ghost(within), env, &mut e.kind, id, span, &want) {
                Ok(ty) => {
                    self.note_type(id, &ty);
                    Ok(ty)
                },
                Err(error) => Err(error),
            };
        }
        let actual = match self.infer_expr(env, e) {
            Err(error) => {
                return Err(error);
            },
            Ok(t) => t,
        };
        match self.unify_expr_result(actual, want.clone()) {
            Err(error) => {
                return Err(error.at(span));
            },
            Ok(_) => {},
        }
        let ty = self.resolve(&want);
        self.note_type(id, &ty);
        Ok(ty)
    }

    fn meets(&mut self, ty: Ty, want: &Ty, span: SourceSpan) -> (r: Result<Ty, SpannedTypeError>)
        requires
            old(self).wf(),
        ensures
            final(self).wf(),
            (final(self)@, ty_res(r)) == meets(old(self)@, ty@, want@, span),
    {
        match self.equate(ty, want.clone()) {
            Err(e) => Err(e.at(span)),
            Ok(_) => Ok(self.resolve(want)),
        }
    }

    #[verifier::rlimit(40)]
    fn expected_kind(
        &mut self,
        Ghost(within): Ghost<Within>,
        env: &TypeEnv,
        k: &mut ExprKind,
        id: NodeId,
        span: SourceSpan,
        want: &Ty,
    ) -> (r: Result<Ty, SpannedTypeError>)
        requires
            old(self).wf(),
            agrees(within, expr_kind_size(expr_kind_view(*old(k)))),
            uses_expected(expr_kind_view(*old(k)), want@),
        ensures
            final(self).wf(),
            (KindRun {
                st: final(self)@,
                kind: expr_kind_view(*final(k)),
                res: ty_res(r),
                out: false,
            }) == expected_kind(
                within,
                old(self)@,
                env@,
                expr_kind_view(*old(k)),
                id,
                span,
                want@,
            ),
        decreases expr_kind_size(expr_kind_view(*old(k))), 0nat, 0nat,
    {
        proof {
            reveal(expected_kind);
        }
        match &mut *k {
            ExprKind::Grouped(inner) => self.infer_expr_expected(env, inner, want.clone()),
            ExprKind::Array(entries) => self.infer_array_entries(
                Ghost(within),
                env,
                entries,
                &Some(want.clone()),
                span,
            ),
            ExprKind::If { cond, then_branch, else_branch } => {
                let expected = Some(want.clone());
                match self.infer_branches(Ghost(within), env, cond, then_branch, else_branch, &expected) {
                    Err(e) => Err(e),
                    Ok((left, right)) => match self.combine_branch_types(left, right) {
                        Err(e) => Err(e.unspanned()),
                        Ok(ty) => self.meets(ty, want, span),
                    },
                }
            },
            ExprKind::Match { scrutinee, arms } => {
                let expected = Some(want.clone());
                match self.infer_match(Ghost(within), env, scrutinee, arms, &expected) {
                    Err(e) => Err(e),
                    Ok(None) => Ok(self.resolve(want)),
                    Ok(Some(ty)) => self.meets(ty, want, span),
                }
            },
            ExprKind::Lambda { params, return_type, body, dict_params } => {
                let expected = match want {
                    Ty::Func(ps, ret) => Some((clone_params(ps), ret.clone())),
                    _ => None,
                };
                self.infer_lambda_expr(Ghost(within), env, body, dict_params, id, params, return_type, &expected)
            },
            ExprKind::Call {
                callee,
                args,
                is_method_call,
                arg_wrappers,
                resolved_callee,
                pending_trait_method,
                dict_args,
                pending_dict_args,
            } => {
                let expected = Some(want.clone());
                self.infer_dot_call(
                    Ghost(within),
                    env,
                    callee,
                    args,
                    is_method_call,
                    arg_wrappers,
                    resolved_callee,
                    pending_trait_method,
                    dict_args,
                    pending_dict_args,
                    id,
                    &expected,
                )
            },
            _ => Ok(want.clone()),
        }
    }

    /// Checks an expression of this kind. Also tells whether the result is final.
    fn infer_kind(
        &mut self,
        Ghost(within): Ghost<Within>,
        env: &TypeEnv,
        k: &mut ExprKind,
        id: NodeId,
        span: SourceSpan,
    ) -> (r: (Result<Ty, SpannedTypeError>, bool))
        requires
            old(self).wf(),
            agrees(within, expr_kind_size(expr_kind_view(*old(k)))),
        ensures
            final(self).wf(),
            (KindRun {
                st: final(self)@,
                kind: expr_kind_view(*final(k)),
                res: ty_res(r.0),
                out: r.1,
            }) == infer_kind(within, old(self)@, env@, expr_kind_view(*old(k)), id, span),
        decreases expr_kind_size(expr_kind_view(*old(k))), 1nat, 0nat,
    {
        match &*k {
            ExprKind::Grouped(_) | ExprKind::Number(_) | ExprKind::StringLit(_) | ExprKind::Bool(_) | ExprKind::Unit | ExprKind::Import(_) | ExprKind::Ident(_) | ExprKind::Not(_) | ExprKind::Neg { .. } => self.infer_simple_kind(Ghost(within), env, k, id, span),
            ExprKind::Assign { .. } | ExprKind::Binary { .. } | ExprKind::Range { .. } | ExprKind::AssociatedAccess { .. } | ExprKind::If { .. } | ExprKind::Match { .. } | ExprKind::Loop(_) | ExprKind::Break(_) => self.infer_flow_kind(Ghost(within), env, k, id, span),
            _ => self.infer_data_kind(Ghost(within), env, k, id, span),
        }
    }

    #[verifier::rlimit(40)]
    fn infer_simple_kind(
        &mut self,
        Ghost(within): Ghost<Within>,
        env: &TypeEnv,
        k: &mut ExprKind,
        id: NodeId,
        span: SourceSpan,
    ) -> (r: (Result<Ty, SpannedTypeError>, bool))
        requires
            old(self).wf(),
            agrees(within, expr_kind_size(expr_kind_view(*old(k)))),
            expr_kind_view(*old(k)) is Grouped || expr_kind_view(*old(k)) is Number || expr_kind_view(*old(k)) is StringLit || expr_kind_view(*old(k)) is Bool || expr_kind_view(*old(k)) is Unit || expr_kind_view(*old(k)) is Import || expr_kind_view(*old(k)) is Ident || expr_kind_view(*old(k)) is Not || expr_kind_view(*old(k)) is Neg,
        ensures
            final(self).wf(),
            (KindRun {
                st: final(self)@,
                kind: expr_kind_view(*final(k)),
                res: ty_res(r.0),
                out: r.1,
            }) == infer_kind(within, old(self)@, env@, expr_kind_view(*old(k)), id, span),
        decreases expr_kind_size(expr_kind_view(*old(k))), 0nat, 0nat,
    {
        proof {
            reveal(infer_kind);
        }
        proof {
            reveal_with_fuel(expr_kind_view, 2);
        }
        match &mut *k {
            ExprKind::Grouped(inner) => {
                (self.infer_expr(env, inner), false)
            },
            ExprKind::Number(n) => {
                (Ok(number_type_of(n)), false)
            },
            ExprKind::StringLit(_) => {
                (Ok(string_type()), false)
            },
            ExprKind::Bool(_) => {
                (Ok(bool_type()), false)
            },
            ExprKind::Unit => {
                (Ok(Ty::Unit), false)
            },
            ExprKind::Import(path) => {
                match self.imports.types.get(path) {
                    Some(ty) => (Ok(ty.clone()), false),
                    None => (Err(TypeError::UnknownImport(path.clone()).unspanned()), false),
                }
            },
            ExprKind::Ident(name) => {
                (self.infer_ident(env, name, id, span), false)
            },
            ExprKind::Not(operand) => {
                let res = self.infer_not(Ghost(within), env, operand);
                let out = res.is_err();
                (res, out)
            },
            ExprKind::Neg { operand, resolved_op, pending_op } => {
                (self.infer_neg_expr(Ghost(within), env, operand, resolved_op, pending_op), false)
            },
            _ => (Ok(Ty::Unit), false),
        }
    }

    #[verifier::rlimit(40)]
    fn infer_flow_kind(
        &mut self,
        Ghost(within): Ghost<Within>,
        env: &TypeEnv,
        k: &mut ExprKind,
        id: NodeId,
        span: SourceSpan,
    ) -> (r: (Result<Ty, SpannedTypeError>, bool))
        requires
            old(self).wf(),
            agrees(within, expr_kind_size(expr_kind_view(*old(k)))),
            expr_kind_view(*old(k)) is Assign || expr_kind_view(*old(k)) is Binary || expr_kind_view(*old(k)) is Range || expr_kind_view(*old(k)) is AssociatedAccess || expr_kind_view(*old(k)) is If || expr_kind_view(*old(k)) is Match || expr_kind_view(*old(k)) is Loop || expr_kind_view(*old(k)) is Break,
        ensures
            final(self).wf(),
            (KindRun {
                st: final(self)@,
                kind: expr_kind_view(*final(k)),
                res: ty_res(r.0),
                out: r.1,
            }) == infer_kind(within, old(self)@, env@, expr_kind_view(*old(k)), id, span),
        decreases expr_kind_size(expr_kind_view(*old(k))), 0nat, 0nat,
    {
        proof {
            reveal(infer_kind);
        }
        proof {
            reveal_with_fuel(expr_kind_view, 2);
        }
        match &mut *k {
            ExprKind::Assign { target, value } => {
                let res = self.infer_assign(Ghost(within), env, target, value);
                let out = res.is_err();
                (res, out)
            },
            ExprKind::Binary { lhs, op, rhs, resolved_op, pending_op, dict_args, pending_dict_args } => {
                (self.infer_binary_expr(
                        Ghost(within),
                        env,
                        lhs,
                        rhs,
                        resolved_op,
                        pending_op,
                        dict_args,
                        pending_dict_args,
                        op,
                    ), false)
            },
            ExprKind::Range { start, end, inclusive } => {
                (self.infer_range_expr(Ghost(within), env, start, end, *inclusive), false)
            },
            ExprKind::AssociatedAccess { target, target_span, member, member_span, resolution } => {
                self.infer_associated_access(
                    env,
                    id,
                    target,
                    *target_span,
                    member,
                    *member_span,
                    resolution,
                )
            },
            ExprKind::If { cond, then_branch, else_branch } => {
                match self.infer_branches(Ghost(within), env, cond, then_branch, else_branch, &None) {
                    Err(e) => (Err(e), true),
                    Ok((left, right)) => match self.combine_branch_types(left, right) {
                        Err(e) => (Err(e.unspanned()), false),
                        Ok(ty) => (Ok(ty), false),
                    },
                }
            },
            ExprKind::Match { scrutinee, arms } => {
                match self.infer_match(Ghost(within), env, scrutinee, arms, &None) {
                    Err(e) => (Err(e), true),
                    Ok(None) => (Ok(Ty::Never), false),
                    Ok(Some(ty)) => (Ok(ty), false),
                }
            },
            ExprKind::Loop(body) => {
                let res = self.infer_loop(Ghost(within), env, body);
                let out = res.is_err();
                (res, out)
            },
            ExprKind::Break(val) => {
                let res = self.infer_break(Ghost(within), env, val);
                let out = res.is_err();
                (res, out)
            },
            _ => (Ok(Ty::Unit), false),
        }
    }

    #[verifier::rlimit(40)]
    fn infer_data_kind(
        &mut self,
        Ghost(within): Ghost<Within>,
        env: &TypeEnv,
        k: &mut ExprKind,
        id: NodeId,
        span: SourceSpan,
    ) -> (r: (Result<Ty, SpannedTypeError>, bool))
        requires
            old(self).wf(),
            agrees(within, expr_kind_size(expr_kind_view(*old(k)))),
            !(expr_kind_view(*old(k)) is Grouped), !(expr_kind_view(*old(k)) is Number), !(expr_kind_view(*old(k)) is StringLit), !(expr_kind_view(*old(k)) is Bool), !(expr_kind_view(*old(k)) is Unit), !(expr_kind_view(*old(k)) is Import), !(expr_kind_view(*old(k)) is Ident), !(expr_kind_view(*old(k)) is Not), !(expr_kind_view(*old(k)) is Neg), !(expr_kind_view(*old(k)) is Assign), !(expr_kind_view(*old(k)) is Binary), !(expr_kind_view(*old(k)) is Range), !(expr_kind_view(*old(k)) is AssociatedAccess), !(expr_kind_view(*old(k)) is If), !(expr_kind_view(*old(k)) is Match), !(expr_kind_view(*old(k)) is Loop), !(expr_kind_view(*old(k)) is Break),
        ensures
            final(self).wf(),
            (KindRun {
                st: final(self)@,
                kind: expr_kind_view(*final(k)),
                res: ty_res(r.0),
                out: r.1,
            }) == infer_kind(within, old(self)@, env@, expr_kind_view(*old(k)), id, span),
        decreases expr_kind_size(expr_kind_view(*old(k))), 0nat, 0nat,
    {
        proof {
            reveal(infer_kind);
        }
        proof {
            reveal_with_fuel(expr_kind_view, 2);
        }
        match &mut *k {
            ExprKind::Return(val) => {
                let res = self.infer_return(Ghost(within), env, val);
                let out = res.is_err();
                (res, out)
            },
            ExprKind::Continue => {
                if self.flow.loop_break_tys.len() == 0 {
                    (Err(TypeError::ContinueOutsideLoop.unspanned()), false)
                } else {
                    (Ok(Ty::Never), false)
                }
            },
            ExprKind::Block { stmts, final_expr } => {
                self.infer_block(Ghost(within), env, stmts, final_expr)
            },
            ExprKind::Tuple(items) => {
                match self.infer_each(Ghost(within), env, items) {
                    Err(e) => (Err(e), true),
                    Ok(tys) => (Ok(Ty::Tuple(tys)), false),
                }
            },
            ExprKind::Array(entries) => {
                (self.infer_array_entries(Ghost(within), env, entries, &None, span), false)
            },
            ExprKind::Record(entries) => {
                (self.infer_record_expr(Ghost(within), env, entries), false)
            },
            ExprKind::FieldAccess { expr, field } => {
                self.infer_field_access(Ghost(within), env, expr, field, id)
            },
            ExprKind::Index { receiver, key, resolved_callee, pending_trait_method, .. } => {
                (self.infer_index_expr(Ghost(within), env, receiver, key, resolved_callee, pending_trait_method), false)
            },
            ExprKind::Lambda { params, return_type, body, dict_params } => {
                (self.infer_lambda_expr(Ghost(within), env, body, dict_params, id, params, return_type, &None), false)
            },
            ExprKind::For { pat, iterable, body, resolved_iter, pending_iter } => {
                (self.infer_for_expr(Ghost(within), env, iterable, body, resolved_iter, pending_iter, pat), false)
            },
            ExprKind::Call {
                callee,
                args,
                is_method_call,
                arg_wrappers,
                resolved_callee,
                pending_trait_method,
                dict_args,
                pending_dict_args,
            } => {
                (self.infer_call_expr(
                        Ghost(within),
                        env,
                        callee,
                        args,
                        is_method_call,
                        arg_wrappers,
                        resolved_callee,
                        pending_trait_method,
                        dict_args,
                        pending_dict_args,
                        id,
                        span,
                    ), false)
            },
            _ => (Ok(Ty::Unit), false),
        }
    }

    pub fn infer_either(
        &mut self,
        env: &TypeEnv,
        e: &mut Expr,
        expected: &Option<Ty>,
    ) -> (r: Result<Ty, SpannedTypeError>)
        requires
            old(self).wf(),
        ensures
            final(self).wf(),
            (Run {
                st: final(self)@,
                node: final(e)@,
                res: ty_res(r),
            }) == checked(
                old(self)@,
                env@,
                old(e)@,
                opt_ty(*expected),
            ),
        decreases expr_size(old(e)@), 2nat, 0nat,
    {
        match expected {
            Some(ty) => {
                self.infer_expr_expected(env, e, ty.clone())
            },
            None => {
                self.infer_expr(env, e)
            },
        }
    }

    pub fn infer_not(
        &mut self,
        Ghost(within): Ghost<Within>,
        env: &TypeEnv,
        operand: &mut Expr,
    ) -> (r: Result<Ty, SpannedTypeError>)
        requires
            old(self).wf(),
            agrees(within, expr_size(old(operand)@)),
        ensures
            final(self).wf(),
            (Run {
                st: final(self)@,
                node: final(operand)@,
                res: ty_res(r),
            }) == not_run(
                within,
                old(self)@,
                env@,
                old(operand)@,
            ),
        decreases expr_size(old(operand)@), 3nat, 0nat,
    {
        proof {
            reveal(not_run);
        }
        let ty = match self.infer_expr(env, operand) {
            Err(error) => {
                return Err(error);
            },
            Ok(t) => t,
        };
        match self.equate(ty, bool_type()) {
            Err(error) => {
                return Err(error.unspanned());
            },
            Ok(_) => {},
        }
        Ok(bool_type())
    }

    pub fn infer_each(
        &mut self,
        Ghost(within): Ghost<Within>,
        env: &TypeEnv,
        s: &mut Vec<Expr>,
    ) -> (r: Result<Vec<Ty>, SpannedTypeError>)
        requires
            old(self).wf(),
            agrees(within, exprs_size(exprs_view(old(s)@))),
        ensures
            final(self).wf(),
            (Run {
                st: final(self)@,
                node: exprs_view(final(s)@),
                res: tys_res(r),
            }) == each_run(
                within,
                old(self)@,
                env@,
                exprs_view(old(s)@),
                0,
                Seq::empty(),
            ),
        decreases exprs_size(exprs_view(old(s)@)), 3nat, 0nat,
    {
        proof {
            reveal(each_run);
        }
        let mut out: Vec<Ty> = Vec::new();
        assert(tys_view(out@) =~= Seq::empty());
        let ghost start = exprs_view(s@);
        let ghost want = each_run(within, self@, env@, exprs_view(s@), 0, Seq::empty());
        let mut i: usize = 0;
        proof {
            lemma_exprs_whole(start);
        }
        while i < s.len()
            invariant
                agrees(within, exprs_size(exprs_view(old(s)@))),
                i <= s.len(),
                self.wf(),
                start == exprs_view(old(s)@),
                exprs_size(exprs_view(s@).skip(i as int)) <= exprs_size(start),
                want == each_run(within, old(self)@, env@, start, 0, Seq::empty()),
                want == each_run(within, self@, env@, exprs_view(s@), i as nat, tys_view(out@)),
            decreases s.len() - i,
        {
            proof {
                reveal(each_run);
            }
            let ghost now = exprs_view(s@);
            proof {
                assert(now.len() == s@.len());
                assert(now[i as int] == expr_view(s@[i as int]));
                lemma_exprs_rest(now, i as int);
            }
            let step = self.infer_expr(env, &mut s[i]);
            proof {
                assert(exprs_view(s@) =~= now.update(i as int, expr_view(s@[i as int])));
            }
            match step {
                Err(e) => {
                    return Err(e);
                },
                Ok(ty) => {
                    let ghost before = tys_view(out@);
                    out.push(ty);
                    assert(tys_view(out@) =~= before.push(ty@));
                },
            }
            i = i + 1;
        }
        Ok(out)
    }

    pub fn infer_field_access(
        &mut self,
        Ghost(within): Ghost<Within>,
        env: &TypeEnv,
        base: &mut Expr,
        field: &String,
        id: NodeId,
    ) -> (r: (Result<Ty, SpannedTypeError>, bool))
        requires
            old(self).wf(),
            agrees(within, expr_size(old(base)@)),
        ensures
            final(self).wf(),
            (OutRun {
                st: final(self)@,
                node: final(base)@,
                res: ty_res(r.0),
                out: r.1,
            }) == field_run(
                within,
                old(self)@,
                env@,
                old(base)@,
                field@,
                id,
            ),
        decreases expr_size(old(base)@), 3nat, 0nat,
    {
        proof {
            reveal(field_run);
        }
        let imported = self.imported_member_scheme(base, field);
        let local = self.field_capabilities(base, field);
        let ty = match self.infer_expr(env, base) {
            Err(error) => {
                return (Err(error), true);
            },
            Ok(t) => t,
        };
        match imported {
            Some(scheme) => {
                let value = self.infer_imported(id, &scheme);
                (Ok(value), true)
            },
            None => {
                let field_ty = self.fresh_ty();
                let tail = self.fresh_ty();
                let want = one_field_record(field, &field_ty, tail);
                match self.equate(ty, want) {
                    Err(error) => {
                        return (Err(error.unspanned()), true);
                    },
                    Ok(_) => {},
                }
                match local {
                    Some(caps) => {
                        self.note_capabilities(id, caps);
                        (Ok(field_ty), false)
                    },
                    None => {
                        (Ok(field_ty), false)
                    },
                }
            },
        }
    }
}

} // verus!
