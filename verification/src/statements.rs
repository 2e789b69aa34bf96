//! How statements are checked.

use vstd::prelude::*;

use crate::ast::{Expr, FnDef, Pattern, Stmt, Type};
use crate::ast_rest::{lemma_stmts_rest, lemma_stmts_whole};
use crate::ast_size::{expr_size, fn_def_size, optional_size, stmt_size, stmts_size};
use crate::ast_view::{boxed_expr_view, some_type_view, stmt_view, stmts_view};
use crate::checker::{OutRun, Within, agrees, block_run, bool_res, checker, final_run, fn_run};
use crate::checker::{lemma_checker_agrees, let_run, let_value_run, stmt_kind_run, stmt_run};
use crate::checker::{stmts_run, tests_run};
use crate::definitions::next_level;
use crate::env::TypeEnv;
use crate::error::SpannedTypeError;
use crate::items::validate_test_stmt_shape;
use crate::state::Infer;
use crate::steps::{Run, always_exits, ty_res, unit_res};
use crate::stmt_parts::{placed, stmt_error_place, unit_type};
use crate::tables::NameMap;
use crate::ty::{Ty, TyVar};
use crate::walkers::leaves;

verus! {

impl Infer {
    /// Checks a statement.
    pub fn infer_stmt(&mut self, env: &mut TypeEnv, s: &mut Stmt) -> (r: Result<Ty, SpannedTypeError>)
        requires
            old(self).wf(),
        ensures
            final(self).wf(),
            (Run { st: final(self)@, node: (final(env)@, final(s)@), res: ty_res(r) }) == stmt_run(
                checker(),
                old(self)@,
                old(env)@,
                old(s)@,
            ),
    {
        proof {
            lemma_checker_agrees(stmt_size(s@));
        }
        self.infer_inner_stmt(Ghost(checker()), env, s)
    }

    pub fn infer_let_value_ty(
        &mut self,
        Ghost(within): Ghost<Within>,
        env: &TypeEnv,
        value: &mut Expr,
        ty: &Option<Type>,
    ) -> (r: Result<Ty, SpannedTypeError>)
        requires
            old(self).wf(),
            agrees(within, expr_size(old(value)@)),
        ensures
            final(self).wf(),
            (Run {
                st: final(self)@,
                node: final(value)@,
                res: ty_res(r),
            }) == let_value_run(
                within,
                old(self)@,
                env@,
                old(value)@,
                some_type_view(*ty),
            ),
        decreases expr_size(old(value)@), 3nat, 0nat,
    {
        proof {
            reveal(let_value_run);
        }
        match ty {
            None => {
                self.infer_expr(env, value)
            },
            Some(t) => {
                let mut vars: NameMap<TyVar> = NameMap::new();
                let want = match self.written(t, &mut vars) {
                    Err(error) => {
                        return Err(error.unspanned());
                    },
                    Ok(t) => t,
                };
                let found = self.infer_expr_expected(env, value, want.clone());
                self.value_after(value, found, &want)
            },
        }
    }

    pub fn infer_let(
        &mut self,
        Ghost(within): Ghost<Within>,
        env: &mut TypeEnv,
        value: &mut Expr,
        pat: &Pattern,
        is_mutable: bool,
        ty: &Option<Type>,
    ) -> (r: Result<(), SpannedTypeError>)
        requires
            old(self).wf(),
            agrees(within, expr_size(old(value)@)),
        ensures
            final(self).wf(),
            (Run {
                st: final(self)@,
                node: (final(env)@, final(value)@),
                res: unit_res(r),
            }) == let_run(
                within,
                old(self)@,
                old(env)@,
                old(value)@,
                pat@,
                is_mutable,
                some_type_view(*ty),
            ),
        decreases expr_size(old(value)@), 4nat, 0nat,
    {
        proof {
            reveal(let_run);
        }
        let l = self.let_of(env, pat, is_mutable, ty.is_some(), value);
        if l.general {
            self.set_level(next_level(l.ambient));
        }
        let found = self.infer_let_value_ty(Ghost(within), env, value, ty);
        self.let_after(env, value, found, &l)
    }

    pub fn infer_fn_like(
        &mut self,
        Ghost(within): Ghost<Within>,
        env: &mut TypeEnv,
        def: &mut FnDef,
        knows_itself: bool,
    ) -> (r: Result<(), SpannedTypeError>)
        requires
            old(self).wf(),
            agrees(within, fn_def_size(old(def)@)),
        ensures
            final(self).wf(),
            (Run {
                st: final(self)@,
                node: (final(env)@, final(def)@),
                res: unit_res(r),
            }) == fn_run(
                within,
                old(self)@,
                old(env)@,
                old(def)@,
                knows_itself,
            ),
        decreases fn_def_size(old(def)@), 4nat, 0nat,
    {
        proof {
            reveal(fn_run);
        }
        let ambient = self.current_level;
        let head = match self.fn_head(env, def, knows_itself) {
            Err(error) => {
                self.set_level(ambient);
                return Err(error);
            },
            Ok(t) => t,
        };
        let is_expected = def.ret_type.is_some();
        let found = self.infer_scoped_body(
            Ghost(within),
            &head.env,
            &mut def.body,
            head.initial,
            &head.ret,
            is_expected,
            true,
        );
        self.fn_after(env, def, found, knows_itself, &head.fn_ty, ambient)
    }

    pub fn infer_stmts(
        &mut self,
        Ghost(within): Ghost<Within>,
        env: &mut TypeEnv,
        s: &mut Vec<Stmt>,
    ) -> (r: Result<bool, SpannedTypeError>)
        requires
            old(self).wf(),
            agrees(within, stmts_size(stmts_view(old(s)@))),
        ensures
            final(self).wf(),
            (Run {
                st: final(self)@,
                node: (final(env)@, stmts_view(final(s)@)),
                res: bool_res(r),
            }) == stmts_run(
                within,
                old(self)@,
                old(env)@,
                stmts_view(old(s)@),
                0,
            ),
        decreases stmts_size(stmts_view(old(s)@)), 3nat, 0nat,
    {
        proof {
            reveal(stmts_run);
        }
        let ghost start = stmts_view(s@);
        let ghost want = stmts_run(within, self@, old(env)@, stmts_view(s@), 0);
        let mut i: usize = 0;
        proof {
            lemma_stmts_whole(start);
        }
        while i < s.len()
            invariant
                agrees(within, stmts_size(stmts_view(old(s)@))),
                i <= s.len(),
                self.wf(),
                start == stmts_view(old(s)@),
                stmts_size(stmts_view(s@).skip(i as int)) <= stmts_size(start),
                want == stmts_run(within, old(self)@, old(env)@, start, 0),
                want == stmts_run(within, self@, env@, stmts_view(s@), i as nat),
            decreases s.len() - i,
        {
            proof {
                reveal(stmts_run);
            }
            let ghost now = stmts_view(s@);
            proof {
                assert(now.len() == s@.len());
                assert(now[i as int] == stmt_view(s@[i as int]));
                lemma_stmts_rest(now, i as int);
            }
            let step = self.infer_inner_stmt(Ghost(within), env, &mut s[i]);
            proof {
                assert(stmts_view(s@) =~= now.update(i as int, stmt_view(s@[i as int])));
            }
            match step {
                Err(error) => {
                    return Err(error);
                },
                Ok(_) => {},
            }
            assert(stmts_view(s@)[i as int] == stmt_view(s@[i as int]));
            if always_exits(&s[i]) {
                return Ok(true);
            }
            i = i + 1;
        }
        Ok(false)
    }

    pub fn infer_test_stmts(
        &mut self,
        Ghost(within): Ghost<Within>,
        env: &mut TypeEnv,
        s: &mut Vec<Stmt>,
    ) -> (r: Result<(), SpannedTypeError>)
        requires
            old(self).wf(),
            agrees(within, stmts_size(stmts_view(old(s)@))),
        ensures
            final(self).wf(),
            (Run {
                st: final(self)@,
                node: (final(env)@, stmts_view(final(s)@)),
                res: unit_res(r),
            }) == tests_run(
                within,
                old(self)@,
                old(env)@,
                stmts_view(old(s)@),
                0,
            ),
        decreases stmts_size(stmts_view(old(s)@)), 3nat, 0nat,
    {
        let ghost start = stmts_view(s@);
        let ghost want = tests_run(within, self@, old(env)@, stmts_view(s@), 0);
        let mut i: usize = 0;
        proof {
            lemma_stmts_whole(start);
        }
        while i < s.len()
            invariant
                agrees(within, stmts_size(stmts_view(old(s)@))),
                i <= s.len(),
                self.wf(),
                start == stmts_view(old(s)@),
                stmts_size(stmts_view(s@).skip(i as int)) <= stmts_size(start),
                want == tests_run(within, old(self)@, old(env)@, start, 0),
                want == tests_run(within, self@, env@, stmts_view(s@), i as nat),
            decreases s.len() - i,
        {
            let ghost now = stmts_view(s@);
            proof {
                assert(now.len() == s@.len());
                assert(now[i as int] == stmt_view(s@[i as int]));
                lemma_stmts_rest(now, i as int);
            }
            let step = self.infer_inner_stmt(Ghost(within), env, &mut s[i]);
            proof {
                assert(stmts_view(s@) =~= now.update(i as int, stmt_view(s@[i as int])));
            }
            match step {
                Err(error) => {
                    return Err(error);
                },
                Ok(_) => {},
            }
            assert(stmts_view(s@)[i as int] == stmt_view(s@[i as int]));
            match validate_test_stmt_shape(env, &s[i]) {
                Err(error) => {
                    return Err(error);
                },
                Ok(_) => {},
            }
            i = i + 1;
        }
        Ok(())
    }

    pub fn infer_final(
        &mut self,
        Ghost(within): Ghost<Within>,
        env: &TypeEnv,
        final_expr: &mut Option<Box<Expr>>,
    ) -> (r: Result<Ty, SpannedTypeError>)
        requires
            old(self).wf(),
            agrees(within, optional_size(boxed_expr_view(*old(final_expr)))),
        ensures
            final(self).wf(),
            (Run {
                st: final(self)@,
                node: boxed_expr_view(*final(final_expr)),
                res: ty_res(r),
            }) == final_run(
                within,
                old(self)@,
                env@,
                boxed_expr_view(*old(final_expr)),
            ),
        decreases optional_size(boxed_expr_view(*old(final_expr))), 3nat, 0nat,
    {
        proof {
            reveal(final_run);
        }
        match &mut *final_expr {
            Some(e) => {
                self.infer_expr(env, e)
            },
            None => {
                Ok(Ty::Unit)
            },
        }
    }

    pub fn infer_block(
        &mut self,
        Ghost(within): Ghost<Within>,
        env: &TypeEnv,
        stmts: &mut Vec<Stmt>,
        final_expr: &mut Option<Box<Expr>>,
    ) -> (r: (Result<Ty, SpannedTypeError>, bool))
        requires
            old(self).wf(),
            agrees(within, stmts_size(stmts_view(old(stmts)@)) + optional_size(boxed_expr_view(*old(final_expr)))),
        ensures
            final(self).wf(),
            (OutRun {
                st: final(self)@,
                node: (stmts_view(final(stmts)@), boxed_expr_view(*final(final_expr))),
                res: ty_res(r.0),
                out: r.1,
            }) == block_run(
                within,
                old(self)@,
                env@,
                stmts_view(old(stmts)@),
                boxed_expr_view(*old(final_expr)),
            ),
        decreases stmts_size(stmts_view(old(stmts)@)) + optional_size(boxed_expr_view(*old(final_expr))), 4nat, 0nat,
    {
        proof {
            reveal(block_run);
        }
        let mut block_env = env.clone();
        let leaves = match self.infer_stmts(Ghost(within), &mut block_env, stmts) {
            Err(error) => {
                return (Err(error), true);
            },
            Ok(t) => t,
        };
        if leaves {
            let ty = self.fresh_ty();
            (Ok(ty), true)
        } else {
            (self.infer_final(Ghost(within), &block_env, final_expr), false)
        }
    }

    pub fn infer_stmt_kind(
        &mut self,
        Ghost(within): Ghost<Within>,
        env: &mut TypeEnv,
        s: &mut Stmt,
    ) -> (r: Result<Ty, SpannedTypeError>)
        requires
            old(self).wf(),
            agrees(within, stmt_size(old(s)@)),
        ensures
            final(self).wf(),
            (Run {
                st: final(self)@,
                node: (final(env)@, final(s)@),
                res: ty_res(r),
            }) == stmt_kind_run(
                within,
                old(self)@,
                old(env)@,
                old(s)@,
            ),
        decreases stmt_size(old(s)@), 0nat, 0nat,
    {
        match &mut *s {
            Stmt::Let { pat, is_mutable, ty, value, .. } => {
                unit_type(self.infer_let(Ghost(within), env, value, pat, *is_mutable, ty))
            },
            Stmt::Fn(def) => {
                unit_type(self.infer_fn_like(Ghost(within), env, def, true))
            },
            Stmt::Op(def) => {
                unit_type(self.infer_fn_like(Ghost(within), env, def, false))
            },
            Stmt::TestBlock { stmts, .. } => {
                let mut inner = env.clone();
                unit_type(self.infer_test_stmts(Ghost(within), &mut inner, stmts))
            },
            Stmt::Expr(e) => {
                self.infer_expr(env, e)
            },
            Stmt::Impl(id) => {
                unit_type(self.infer_impl(Ghost(within), env, id))
            },
            Stmt::InherentImpl(id) => {
                unit_type(self.infer_inherent_impl(Ghost(within), env, id))
            },
            Stmt::RecBlock { stmts, .. } => {
                unit_type(self.infer_inner_group(Ghost(within), env, stmts))
            },
            Stmt::Macro(def) => {
                unit_type(self.infer_inner_macro(Ghost(within), env, def))
            },
            Stmt::Trait(_) | Stmt::Type(_) | Stmt::TypeAlias { .. } | Stmt::Extern { .. } => Ok(Ty::Unit),
        }
    }

    pub fn infer_inner_stmt(
        &mut self,
        Ghost(within): Ghost<Within>,
        env: &mut TypeEnv,
        s: &mut Stmt,
    ) -> (r: Result<Ty, SpannedTypeError>)
        requires
            old(self).wf(),
            agrees(within, stmt_size(old(s)@)),
        ensures
            final(self).wf(),
            (Run {
                st: final(self)@,
                node: (final(env)@, final(s)@),
                res: ty_res(r),
            }) == stmt_run(
                within,
                old(self)@,
                old(env)@,
                old(s)@,
            ),
        decreases stmt_size(old(s)@), 1nat, 0nat,
    {
        let place = stmt_error_place(s);
        let found = self.infer_stmt_kind(Ghost(within), env, s);
        placed(found, &place)
    }
}

} // verus!
