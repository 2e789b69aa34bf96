//! How the bodies of functions are checked.

use vstd::prelude::*;

use crate::associated::under_constraints;
use crate::ast::{Expr, NodeId, Param, Type};
use crate::ast_size::expr_size;
use crate::ast_view::{params_view, some_type_view};
use crate::checker::{Within, agrees, body_run, constraints_res, is_never_type, lambda_run};
use crate::checker::scoped_run;
use crate::definitions::{expected_view, next_level};
use crate::dict_names::{dict_param_names, dict_params};
use crate::env::TypeEnv;
use crate::error::SpannedTypeError;
use crate::places::param_capabilities;
use crate::state::Infer;
use crate::steps::{Run, settled, ty_res, unit_res};
use crate::text::strings_view;
use crate::ty::{FuncParam, FuncReturn, TraitConstraint, Ty, constraints_view, return_view};
use crate::ty::ty_view;

verus! {

impl Infer {
    pub fn infer_body(
        &mut self,
        Ghost(within): Ghost<Within>,
        env: &TypeEnv,
        body: &mut Expr,
        ret: &FuncReturn,
        is_expected: bool,
        is_placed: bool,
    ) -> (r: Result<(), SpannedTypeError>)
        requires
            old(self).wf(),
            agrees(within, expr_size(old(body)@)),
        ensures
            final(self).wf(),
            (Run {
                st: final(self)@,
                node: final(body)@,
                res: unit_res(r),
            }) == body_run(
                within,
                old(self)@,
                env@,
                old(body)@,
                ret@,
                is_expected,
                is_placed,
            ),
        decreases expr_size(old(body)@), 3nat, 0nat,
    {
        proof {
            reveal(body_run);
        }
        assert(return_view(*ret).ty == Box::new(ty_view(*ret.ty)));
        let want = if is_expected {
            Some((*ret.ty).clone())
        } else {
            None
        };
        self.enter_function(ret.clone());
        let done = self.infer_either(env, body, &want);
        self.leave_function();
        let ty = match done {
            Err(e) => {
                return Err(e);
            },
            Ok(t) => t,
        };
        match self.unify_expr_result(ty.clone(), (*ret.ty).clone()) {
            Err(e) => {
                return Err(if is_placed {
                        e.at(body.span)
                    } else {
                        e.unspanned()
                });
            },
            Ok(_) => {},
        }
        let settled = self.resolve(&ty);
        let never = is_never_type(&settled);
        if never {
            Ok(())
        } else {
            match self.check_fresh_return_expr(body, ret) {
                Err(error) => {
                    return Err(error);
                },
                Ok(_) => {},
            }
            Ok(())
        }
    }

    pub fn infer_scoped_body(
        &mut self,
        Ghost(within): Ghost<Within>,
        env: &TypeEnv,
        body: &mut Expr,
        initial: Vec<TraitConstraint>,
        ret: &FuncReturn,
        is_expected: bool,
        is_placed: bool,
    ) -> (r: Result<Vec<TraitConstraint>, SpannedTypeError>)
        requires
            old(self).wf(),
            agrees(within, expr_size(old(body)@)),
        ensures
            final(self).wf(),
            (Run {
                st: final(self)@,
                node: final(body)@,
                res: constraints_res(r),
            }) == scoped_run(
                within,
                old(self)@,
                env@,
                old(body)@,
                constraints_view(initial@),
                ret@,
                is_expected,
                is_placed,
            ),
        decreases expr_size(old(body)@), 4nat, 0nat,
    {
        proof {
            reveal(scoped_run);
        }
        let saved = self.replace_pending(initial);
        let done = self.infer_body(Ghost(within), env, body, ret, is_expected, is_placed);
        let left = self.replace_pending(saved);
        match done {
            Err(e) => {
                return Err(e);
            },
            Ok(_) => {},
        }
        Ok(left)
    }

    pub fn infer_lambda_expr(
        &mut self,
        Ghost(within): Ghost<Within>,
        env: &TypeEnv,
        body: &mut Expr,
        dict_params: &mut Vec<String>,
        id: NodeId,
        params: &Vec<Param>,
        annotation: &Option<Type>,
        expected: &Option<(Vec<FuncParam>, FuncReturn)>,
    ) -> (r: Result<Ty, SpannedTypeError>)
        requires
            old(self).wf(),
            agrees(within, expr_size(old(body)@)),
        ensures
            final(self).wf(),
            (Run {
                st: final(self)@,
                node: (final(body)@, strings_view(final(dict_params)@)),
                res: ty_res(r),
            }) == lambda_run(
                within,
                old(self)@,
                env@,
                old(body)@,
                strings_view(old(dict_params)@),
                id,
                params_view(params@),
                some_type_view(*annotation),
                expected_view(*expected),
            ),
        decreases expr_size(old(body)@), 5nat, 0nat,
    {
        proof {
            reveal(lambda_run);
        }
        let ambient = self.current_level;
        self.set_level(next_level(ambient));
        let head = match self.lambda_head(env, params, annotation, body.span, expected) {
            Err(e) => {
                self.set_level(ambient);
                return Err(e);
            },
            Ok(t) => t,
        };
        let done = self.infer_scoped_body(
            Ghost(within),
            &head.env,
            body,
            head.initial,
            &head.ret,
            expected.is_some(),
            false,
        );
        self.set_level(ambient);
        let left = match done {
            Err(e) => {
                return Err(e);
            },
            Ok(t) => t,
        };
        let (scheme, owned, settled) = self.end_def(env, &head.fn_ty, &left, ambient, body, None, false);
        *dict_params = dict_param_names(&owned);
        match settled {
            Err(e) => {
                return Err(e.unspanned());
            },
            Ok(_) => {},
        }
        self.note_capabilities(id, param_capabilities(params));
        Ok(under_constraints(&owned, &scheme.ty))
    }
}

} // verus!
