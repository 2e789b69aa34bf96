//! How recursive groups of functions and macros are checked.

use vstd::prelude::*;

use crate::ast::{Expr, FnDef, MacroDef, Stmt};
use crate::ast_rest::{lemma_exprs_rest, lemma_exprs_whole};
use crate::ast_size::{expr_size, exprs_size, macro_def_size, stmts_size};
use crate::ast_view::{expr_view, exprs_view, stmts_view};
use crate::checker::{Within, agrees, checker, constraints_res, lemma_checker_agrees};
use crate::checker::{macro_body_run, macro_run, rec_bodies_run, rec_body_run, rec_run};
use crate::definitions::RecFnInfo;
use crate::env::TypeEnv;
use crate::error::SpannedTypeError;
use crate::items::{infos_view, lists_view};
use crate::rec_parts::{bodies_of_defs, defs_view, lemma_rec_start, lists_res, push_list};
use crate::schemes::lists;
use crate::state::Infer;
use crate::steps::{Run, unit_res};
use crate::ty::TraitConstraint;

verus! {

impl Infer {
    /// Checks a recursive group of functions.
    pub fn infer_rec_block(&mut self, env: &mut TypeEnv, stmts: &mut Vec<Stmt>) -> (r: Result<
        (),
        SpannedTypeError,
    >)
        requires
            old(self).wf(),
        ensures
            final(self).wf(),
            (Run { st: final(self)@, node: (final(env)@, stmts_view(final(stmts)@)), res: unit_res(r) })
                == rec_run(checker(), old(self)@, old(env)@, stmts_view(old(stmts)@)),
    {
        proof {
            lemma_checker_agrees(stmts_size(stmts_view(stmts@)));
        }
        self.infer_inner_group(Ghost(checker()), env, stmts)
    }

    /// Checks the definition of a macro.
    pub fn infer_macro_def(&mut self, env: &TypeEnv, def: &mut MacroDef) -> (r: Result<
        (),
        SpannedTypeError,
    >)
        requires
            old(self).wf(),
        ensures
            final(self).wf(),
            (Run { st: final(self)@, node: final(def)@, res: unit_res(r) }) == macro_run(
                checker(),
                old(self)@,
                env@,
                old(def)@,
            ),
    {
        proof {
            lemma_checker_agrees(macro_def_size(def@));
        }
        self.infer_inner_macro(Ghost(checker()), env, def)
    }

    pub fn infer_rec_body(
        &mut self,
        Ghost(within): Ghost<Within>,
        env: &TypeEnv,
        body: &mut Expr,
        def: &FnDef,
        info: &RecFnInfo,
    ) -> (r: Result<Vec<TraitConstraint>, SpannedTypeError>)
        requires
            old(self).wf(),
            agrees(within, expr_size(old(body)@)),
        ensures
            final(self).wf(),
            (Run {
                st: final(self)@,
                node: final(body)@,
                res: constraints_res(r),
            }) == rec_body_run(
                within,
                old(self)@,
                env@,
                old(body)@,
                def@,
                info@,
            ),
        decreases expr_size(old(body)@), 5nat, 0nat,
    {
        proof {
            reveal(rec_body_run);
        }
        match self.group_head(env, def, info) {
            Err(error) => Err(error),
            Ok(head) => self.infer_scoped_body(
                Ghost(within),
                &head.env,
                body,
                head.initial,
                &head.ret,
                info.explicit,
                true,
            ),
        }
    }

    pub fn infer_rec_bodies(
        &mut self,
        Ghost(within): Ghost<Within>,
        env: &TypeEnv,
        bodies: &mut Vec<Expr>,
        defs: &Vec<FnDef>,
        infos: &Vec<RecFnInfo>,
    ) -> (r: Result<Vec<Vec<TraitConstraint>>, SpannedTypeError>)
        requires
            old(self).wf(),
            agrees(within, exprs_size(exprs_view(old(bodies)@))),
            old(bodies)@.len() == defs@.len(),
            old(bodies)@.len() == infos@.len(),
        ensures
            final(self).wf(),
            (Run {
                st: final(self)@,
                node: exprs_view(final(bodies)@),
                res: lists_res(r),
            }) == rec_bodies_run(
                within,
                old(self)@,
                env@,
                exprs_view(old(bodies)@),
                defs_view(defs@),
                infos_view(infos@),
                0,
                Seq::empty(),
            ),
            final(bodies)@.len() == defs@.len(),
            r matches Ok(lists) ==> lists@.len() == defs@.len(),
        decreases exprs_size(exprs_view(old(bodies)@)), 3nat, 0nat,
    {
        proof {
            reveal(rec_bodies_run);
        }
        let mut lists: Vec<Vec<TraitConstraint>> = Vec::new();
        assert(lists_view(lists@) =~= Seq::empty());
        let ghost start = exprs_view(bodies@);
        let ghost want = rec_bodies_run(within, self@, env@, exprs_view(bodies@), defs_view(defs@), infos_view(infos@), 0, Seq::empty());
        let mut i: usize = 0;
        proof {
            lemma_exprs_whole(start);
        }
        while i < bodies.len()
            invariant
                agrees(within, exprs_size(exprs_view(old(bodies)@))),
                i <= bodies.len(),
                self.wf(),
                start == exprs_view(old(bodies)@),
                exprs_size(exprs_view(bodies@).skip(i as int)) <= exprs_size(start),
                want == rec_bodies_run(within, old(self)@, env@, start, defs_view(defs@), infos_view(infos@), 0, Seq::empty()),
                want == rec_bodies_run(within, self@, env@, exprs_view(bodies@), defs_view(defs@), infos_view(infos@), i as nat, lists_view(lists@)),
                bodies@.len() == defs@.len(),
                bodies@.len() == infos@.len(),
                lists@.len() == i,
            decreases bodies.len() - i,
        {
            proof {
                reveal(rec_bodies_run);
            }
            let ghost now = exprs_view(bodies@);
            proof {
                assert(now.len() == bodies@.len());
                assert(now[i as int] == expr_view(bodies@[i as int]));
                lemma_exprs_rest(now, i as int);
            }
            assert(defs_view(defs@)[i as int] == defs@[i as int]@);
            assert(infos_view(infos@)[i as int] == infos@[i as int]@);
            let step = self.infer_rec_body(Ghost(within), env, &mut bodies[i], &defs[i], &infos[i]);
            proof {
                assert(exprs_view(bodies@) =~= now.update(i as int, expr_view(bodies@[i as int])));
            }
            match step {
                Err(error) => {
                    return Err(error);
                },
                Ok(left) => {
                    push_list(&mut lists, left);
                },
            }
            i = i + 1;
        }
        Ok(lists)
    }

    pub fn infer_inner_group(
        &mut self,
        Ghost(within): Ghost<Within>,
        env: &mut TypeEnv,
        s: &mut Vec<Stmt>,
    ) -> (r: Result<(), SpannedTypeError>)
        requires
            old(self).wf(),
            agrees(within, stmts_size(stmts_view(old(s)@))),
        ensures
            final(self).wf(),
            (Run {
                st: final(self)@,
                node: (final(env)@, stmts_view(final(s)@)),
                res: unit_res(r),
            }) == rec_run(
                within,
                old(self)@,
                old(env)@,
                stmts_view(old(s)@),
            ),
        decreases stmts_size(stmts_view(old(s)@)), 5nat, 0nat,
    {
        proof {
            reveal(rec_run);
        }
        proof {
            lemma_rec_start(self@, env@, stmts_view(s@));
        }
        let ambient = self.current_level;
        let start = match self.rec_start(env, s) {
            Err(error) => {
                self.set_level(ambient);
                return Err(error);
            },
            Ok(t) => t,
        };
        assert(stmts_view(s@).len() == s@.len());
        let mut bodies = bodies_of_defs(&start.defs);
        let found = self.infer_rec_bodies(Ghost(within), &start.env, &mut bodies, &start.defs, &start.infos);
        self.rec_after(env, s, bodies, found, &start.defs, &start.infos, ambient)
    }

    pub fn infer_macro_body(
        &mut self,
        Ghost(within): Ghost<Within>,
        env: &TypeEnv,
        def: &mut MacroDef,
    ) -> (r: Result<(), SpannedTypeError>)
        requires
            old(self).wf(),
            agrees(within, macro_def_size(old(def)@)),
        ensures
            final(self).wf(),
            (Run {
                st: final(self)@,
                node: final(def)@,
                res: unit_res(r),
            }) == macro_body_run(
                within,
                old(self)@,
                env@,
                old(def)@,
            ),
        decreases macro_def_size(old(def)@), 4nat, 0nat,
    {
        proof {
            reveal(macro_body_run);
        }
        let found = self.infer_expr(env, &mut def.body);
        self.macro_after(def, found)
    }

    pub fn infer_inner_macro(
        &mut self,
        Ghost(within): Ghost<Within>,
        env: &TypeEnv,
        def: &mut MacroDef,
    ) -> (r: Result<(), SpannedTypeError>)
        requires
            old(self).wf(),
            agrees(within, macro_def_size(old(def)@)),
        ensures
            final(self).wf(),
            (Run {
                st: final(self)@,
                node: final(def)@,
                res: unit_res(r),
            }) == macro_run(
                within,
                old(self)@,
                env@,
                old(def)@,
            ),
        decreases macro_def_size(old(def)@), 5nat, 0nat,
    {
        proof {
            reveal(macro_run);
        }
        match self.macro_head(env, def) {
            Err(error) => Err(error),
            Ok(phase) => self.infer_macro_body(Ghost(within), &phase, def),
        }
    }
}

} // verus!
