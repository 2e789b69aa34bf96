//! How the arguments of calls are checked.

use vstd::prelude::*;

use crate::ast::{ArgWrapper, Expr};
use crate::ast_rest::{lemma_exprs_rest, lemma_exprs_whole};
use crate::ast_size::{expr_size, exprs_size};
use crate::ast_view::{arg_wrappers_view, expr_view, exprs_view};
use crate::call_parts::{arg_struct, expected_of_arg, param_type_at, push_type, push_wrapper};
use crate::checker::{Within, agrees, all_args, arg_run, args_run, checked_args};
use crate::env::TypeEnv;
use crate::error::SpannedTypeError;
use crate::state::Infer;
use crate::steps::{Run, tys_res};
use crate::ty::{FuncParam, Ty, tys_view};
use crate::ty_helpers::opt_ty;

verus! {

impl Infer {
    pub fn infer_arg_and_wrapper(
        &mut self,
        Ghost(within): Ghost<Within>,
        env: &TypeEnv,
        e: &mut Expr,
        expected: &Option<Ty>,
    ) -> (r: Result<(Ty, Option<ArgWrapper>), SpannedTypeError>)
        requires
            old(self).wf(),
            agrees(within, expr_size(old(e)@)),
        ensures
            final(self).wf(),
            (Run {
                st: final(self)@,
                node: final(e)@,
                res: arg_struct(r),
            }) == arg_run(
                within,
                old(self)@,
                env@,
                old(e)@,
                opt_ty(*expected),
            ),
        decreases expr_size(old(e)@), 3nat, 0nat,
    {
        proof {
            reveal(arg_run);
        }
        let want = expected_of_arg(e, expected);
        let found = self.infer_either(env, e, &want);
        self.arg_after(env, e, found)
    }

    #[verifier::rlimit(40)]
    pub fn infer_remaining_args(
        &mut self,
        Ghost(within): Ghost<Within>,
        env: &TypeEnv,
        args: &mut Vec<Expr>,
        arg_wrappers: &mut Vec<Option<ArgWrapper>>,
        params: &Vec<FuncParam>,
        offset: usize,
    ) -> (r: Result<Vec<Ty>, SpannedTypeError>)
        requires
            old(self).wf(),
            agrees(within, exprs_size(exprs_view(old(args)@))),
        ensures
            final(self).wf(),
            (Run {
                st: final(self)@,
                node: (exprs_view(final(args)@), arg_wrappers_view(final(arg_wrappers)@)),
                res: tys_res(r),
            }) == args_run(
                within,
                old(self)@,
                env@,
                exprs_view(old(args)@),
                arg_wrappers_view(old(arg_wrappers)@),
                crate::ty::params_view(params@),
                offset as nat,
                0,
                Seq::empty(),
            ),
        decreases exprs_size(exprs_view(old(args)@)), 3nat, 0nat,
    {
        proof {
            reveal(args_run);
        }
        let mut out: Vec<Ty> = Vec::new();
        assert(tys_view(out@) =~= Seq::empty());
        let ghost start = exprs_view(args@);
        let ghost want = args_run(within, self@, env@, exprs_view(args@), arg_wrappers_view(old(arg_wrappers)@), crate::ty::params_view(params@), offset as nat, 0, Seq::empty());
        let mut i: usize = 0;
        proof {
            lemma_exprs_whole(start);
        }
        while i < args.len()
            invariant
                agrees(within, exprs_size(exprs_view(old(args)@))),
                i <= args.len(),
                self.wf(),
                start == exprs_view(old(args)@),
                exprs_size(exprs_view(args@).skip(i as int)) <= exprs_size(start),
                want == args_run(within, old(self)@, env@, start, arg_wrappers_view(old(arg_wrappers)@), crate::ty::params_view(params@), offset as nat, 0, Seq::empty()),
                want == args_run(within, self@, env@, exprs_view(args@), arg_wrappers_view(arg_wrappers@), crate::ty::params_view(params@), offset as nat, i as nat, tys_view(out@)),
            decreases args.len() - i,
        {
            proof {
                reveal(args_run);
            }
            let ghost now = exprs_view(args@);
            proof {
                assert(now.len() == args@.len());
                assert(now[i as int] == expr_view(args@[i as int]));
                lemma_exprs_rest(now, i as int);
            }
            let expected = param_type_at(params, offset, i);
            let step = self.infer_arg_and_wrapper(Ghost(within), env, &mut args[i], &expected);
            proof {
                assert(exprs_view(args@) =~= now.update(i as int, expr_view(args@[i as int])));
            }
            match step {
                Err(error) => {
                    return Err(error);
                },
                Ok((ty, wrapper)) => {
                    push_type(&mut out, ty);
                    push_wrapper(arg_wrappers, wrapper);
                },
            }
            i = i + 1;
        }
        Ok(out)
    }

    pub fn infer_args_with_expected(
        &mut self,
        Ghost(within): Ghost<Within>,
        env: &TypeEnv,
        args: &mut Vec<Expr>,
        arg_wrappers: &mut Vec<Option<ArgWrapper>>,
        params: &Vec<FuncParam>,
        offset: usize,
    ) -> (r: Result<Vec<Ty>, SpannedTypeError>)
        requires
            old(self).wf(),
            agrees(within, exprs_size(exprs_view(old(args)@))),
        ensures
            final(self).wf(),
            (Run {
                st: final(self)@,
                node: (exprs_view(final(args)@), arg_wrappers_view(final(arg_wrappers)@)),
                res: tys_res(r),
            }) == all_args(
                within,
                old(self)@,
                env@,
                exprs_view(old(args)@),
                arg_wrappers_view(old(arg_wrappers)@),
                crate::ty::params_view(params@),
                offset as nat,
            ),
        decreases exprs_size(exprs_view(old(args)@)), 4nat, 0nat,
    {
        proof {
            reveal(all_args);
        }
        arg_wrappers.clear();
        assert(arg_wrappers_view(arg_wrappers@) =~= Seq::empty());
        self.infer_remaining_args(Ghost(within), env, args, arg_wrappers, params, offset)
    }

    pub fn infer_checked_args_with_expected(
        &mut self,
        Ghost(within): Ghost<Within>,
        env: &TypeEnv,
        args: &mut Vec<Expr>,
        arg_wrappers: &mut Vec<Option<ArgWrapper>>,
        params: &Vec<FuncParam>,
        offset: usize,
    ) -> (r: Result<Vec<Ty>, SpannedTypeError>)
        requires
            old(self).wf(),
            agrees(within, exprs_size(exprs_view(old(args)@))),
        ensures
            final(self).wf(),
            (Run {
                st: final(self)@,
                node: (exprs_view(final(args)@), arg_wrappers_view(final(arg_wrappers)@)),
                res: tys_res(r),
            }) == checked_args(
                within,
                old(self)@,
                env@,
                exprs_view(old(args)@),
                arg_wrappers_view(old(arg_wrappers)@),
                crate::ty::params_view(params@),
                offset as nat,
            ),
        decreases exprs_size(exprs_view(old(args)@)), 5nat, 0nat,
    {
        proof {
            reveal(checked_args);
        }
        let found = self.infer_args_with_expected(Ghost(within), env, args, arg_wrappers, params, offset);
        self.args_after(env, args, found, params, offset)
    }
}

} // verus!
