//! How implementations are checked.

use vstd::prelude::*;

use crate::ast::{Expr, ImplDef, ImplMethod, InherentImplDef, InherentMethod, TraitDef, Type};
use crate::ast::TypeBound;
use crate::ast_copy::clone_inherent_methods;
use crate::ast_rest::{lemma_exprs_rest, lemma_exprs_whole, lemma_inherent_methods_rest};
use crate::ast_rest::lemma_inherent_methods_whole;
use crate::ast_size::{expr_size, exprs_size, impl_def_size, inherent_impl_def_size};
use crate::ast_size::{inherent_method_size, inherent_methods_size};
use crate::ast_view::{expr_view, exprs_view, impl_method_view, impl_methods_view};
use crate::ast_view::{inherent_method_view, inherent_methods_view, type_bounds_view};
use crate::ast_view::types_view;
use crate::checker::{Within, agrees, fields_res, impl_body_run, impl_run, inherent_run};
use crate::checker::{method_def_run, method_defs_run, own_method_run, own_methods_run};
use crate::env::TypeEnv;
use crate::error::SpannedTypeError;
use crate::impl_parts::{impl_method_name, lemma_bodies_size, lemma_impl_start, method_bodies};
use crate::impl_parts::push_field;
use crate::self_types::{lemma_self_expr_size, substitute_self_in_inherent_method};
use crate::state::Infer;
use crate::steps::{Run, ty_res, unit_res};
use crate::subst::TypeLevel;
use crate::tables::NameMap;
use crate::ty::{TraitConstraint, Ty, TyVar, constraints_view, fields_view};
use crate::type_syntax::inherent_impl_target_key_from_ast;

verus! {

impl Infer {
    pub fn infer_impl_method(
        &mut self,
        Ghost(within): Ghost<Within>,
        env: &TypeEnv,
        body: &mut Expr,
        m: &ImplMethod,
        def: &TraitDef,
        trait_args: &Vec<Type>,
        vars: &NameMap<TyVar>,
    ) -> (r: Result<Ty, SpannedTypeError>)
        requires
            old(self).wf(),
            agrees(within, expr_size(old(body)@)),
        ensures
            final(self).wf(),
            (Run {
                st: final(self)@,
                node: final(body)@,
                res: ty_res(r),
            }) == method_def_run(
                within,
                old(self)@,
                env@,
                old(body)@,
                impl_method_view(*m),
                def@,
                types_view(trait_args@),
                vars@,
            ),
        decreases expr_size(old(body)@), 4nat, 0nat,
    {
        proof {
            reveal(method_def_run);
        }
        match self.method_head(env, m, def, trait_args, vars) {
            Err(error) => Err(error),
            Ok(head) => {
                let found = self.infer_body(Ghost(within), &head.env, body, &head.ret, false, true);
                self.method_after(body, found, m.name_span, &head.fn_ty)
            },
        }
    }

    pub fn infer_impl_methods(
        &mut self,
        Ghost(within): Ghost<Within>,
        env: &TypeEnv,
        bodies: &mut Vec<Expr>,
        ms: &Vec<ImplMethod>,
        def: &TraitDef,
        trait_args: &Vec<Type>,
        vars: &NameMap<TyVar>,
    ) -> (r: Result<Vec<(String, Ty)>, SpannedTypeError>)
        requires
            old(self).wf(),
            agrees(within, exprs_size(exprs_view(old(bodies)@))),
            old(bodies)@.len() == ms@.len(),
        ensures
            final(self).wf(),
            (Run {
                st: final(self)@,
                node: exprs_view(final(bodies)@),
                res: fields_res(r),
            }) == method_defs_run(
                within,
                old(self)@,
                env@,
                exprs_view(old(bodies)@),
                impl_methods_view(ms@),
                def@,
                types_view(trait_args@),
                vars@,
                0,
                Seq::empty(),
            ),
            final(bodies)@.len() == ms@.len(),
        decreases exprs_size(exprs_view(old(bodies)@)), 3nat, 0nat,
    {
        proof {
            reveal(method_defs_run);
        }
        let mut fields: Vec<(String, Ty)> = Vec::new();
        assert(fields_view(fields@) =~= Seq::empty());
        let ghost start = exprs_view(bodies@);
        let ghost want = method_defs_run(within, self@, env@, exprs_view(bodies@), impl_methods_view(ms@), def@, types_view(trait_args@), vars@, 0, Seq::empty());
        let mut i: usize = 0;
        proof {
            lemma_exprs_whole(start);
        }
        while i < bodies.len()
            invariant
                agrees(within, exprs_size(exprs_view(old(bodies)@))),
                i <= bodies.len(),
                self.wf(),
                start == exprs_view(old(bodies)@),
                exprs_size(exprs_view(bodies@).skip(i as int)) <= exprs_size(start),
                want == method_defs_run(within, old(self)@, env@, start, impl_methods_view(ms@), def@, types_view(trait_args@), vars@, 0, Seq::empty()),
                want == method_defs_run(within, self@, env@, exprs_view(bodies@), impl_methods_view(ms@), def@, types_view(trait_args@), vars@, i as nat, fields_view(fields@)),
                bodies@.len() == ms@.len(),
            decreases bodies.len() - i,
        {
            proof {
                reveal(method_defs_run);
            }
            let ghost now = exprs_view(bodies@);
            proof {
                assert(now.len() == bodies@.len());
                assert(now[i as int] == expr_view(bodies@[i as int]));
                lemma_exprs_rest(now, i as int);
            }
            assert(impl_methods_view(ms@)[i as int] == impl_method_view(ms@[i as int]));
            let name = impl_method_name(&ms[i]);
            let step = self.infer_impl_method(Ghost(within), env, &mut bodies[i], &ms[i], def, trait_args, vars);
            proof {
                assert(exprs_view(bodies@) =~= now.update(i as int, expr_view(bodies@[i as int])));
            }
            match step {
                Err(error) => {
                    return Err(error);
                },
                Ok(ty) => {
                    push_field(&mut fields, name, ty);
                },
            }
            i = i + 1;
        }
        Ok(fields)
    }

    pub fn infer_impl_body(
        &mut self,
        Ghost(within): Ghost<Within>,
        env: &mut TypeEnv,
        id: &mut ImplDef,
        def: &TraitDef,
        vars: &NameMap<TyVar>,
        initial: Vec<TraitConstraint>,
        ambient: TypeLevel,
    ) -> (r: Result<(), SpannedTypeError>)
        requires
            old(self).wf(),
            agrees(within, impl_def_size(old(id)@)),
        ensures
            final(self).wf(),
            (Run {
                st: final(self)@,
                node: (final(env)@, final(id)@),
                res: unit_res(r),
            }) == impl_body_run(
                within,
                old(self)@,
                old(env)@,
                old(id)@,
                def@,
                vars@,
                constraints_view(initial@),
                ambient,
            ),
        decreases impl_def_size(old(id)@), 4nat, 0nat,
    {
        proof {
            reveal(impl_body_run);
        }
        proof {
            lemma_bodies_size(impl_methods_view(id.methods@));
        }
        let saved = self.replace_pending(initial);
        let mut bodies = method_bodies(&id.methods);
        let found = self.infer_impl_methods(
            Ghost(within),
            env,
            &mut bodies,
            &id.methods,
            def,
            &id.trait_args,
            vars,
        );
        self.impl_finish(env, id, bodies, found, def, ambient, saved)
    }

    pub fn infer_impl(
        &mut self,
        Ghost(within): Ghost<Within>,
        env: &mut TypeEnv,
        id: &mut ImplDef,
    ) -> (r: Result<(), SpannedTypeError>)
        requires
            old(self).wf(),
            agrees(within, impl_def_size(old(id)@)),
        ensures
            final(self).wf(),
            (Run {
                st: final(self)@,
                node: (final(env)@, final(id)@),
                res: unit_res(r),
            }) == impl_run(
                within,
                old(self)@,
                old(env)@,
                old(id)@,
            ),
        decreases impl_def_size(old(id)@), 5nat, 0nat,
    {
        proof {
            reveal(impl_run);
        }
        proof {
            lemma_impl_start(self@, id@);
        }
        let ambient = self.current_level;
        match self.impl_start(id) {
            Err(error) => {
                self.set_level(ambient);
                Err(error)
            },
            Ok(s) => self.infer_impl_body(Ghost(within), env, id, &s.def, &s.vars, s.initial, ambient),
        }
    }

    pub fn infer_own_method(
        &mut self,
        Ghost(within): Ghost<Within>,
        env: &TypeEnv,
        m: &mut InherentMethod,
        target: &Type,
        bounds: &Vec<TypeBound>,
        key: &String,
    ) -> (r: Result<Ty, SpannedTypeError>)
        requires
            old(self).wf(),
            agrees(within, inherent_method_size(inherent_method_view(*old(m)))),
        ensures
            final(self).wf(),
            (Run {
                st: final(self)@,
                node: inherent_method_view(*final(m)),
                res: ty_res(r),
            }) == own_method_run(
                within,
                old(self)@,
                env@,
                inherent_method_view(*old(m)),
                target@,
                type_bounds_view(bounds@),
                key@,
            ),
        decreases inherent_method_size(inherent_method_view(*old(m))), 5nat, 0nat,
    {
        proof {
            reveal(own_method_run);
        }
        proof {
            lemma_self_expr_size(inherent_method_view(*m).body, target@);
        }
        let ambient = self.current_level;
        substitute_self_in_inherent_method(m, target);
        let head = match self.own_head(env, m, target, bounds, key) {
            Err(error) => {
                self.set_level(ambient);
                return Err(error);
            },
            Ok(t) => t,
        };
        let found = self.infer_scoped_body(
            Ghost(within),
            &head.env,
            &mut m.body,
            head.initial,
            &head.ret,
            false,
            true,
        );
        self.own_after(env, m, found, &head.fn_ty, ambient, key)
    }

    pub fn infer_own_methods(
        &mut self,
        Ghost(within): Ghost<Within>,
        env: &TypeEnv,
        ms: &mut Vec<InherentMethod>,
        target: &Type,
        bounds: &Vec<TypeBound>,
        key: &String,
    ) -> (r: Result<Vec<(String, Ty)>, SpannedTypeError>)
        requires
            old(self).wf(),
            agrees(within, inherent_methods_size(inherent_methods_view(old(ms)@))),
        ensures
            final(self).wf(),
            (Run {
                st: final(self)@,
                node: inherent_methods_view(final(ms)@),
                res: fields_res(r),
            }) == own_methods_run(
                within,
                old(self)@,
                env@,
                inherent_methods_view(old(ms)@),
                target@,
                type_bounds_view(bounds@),
                key@,
                0,
                Seq::empty(),
            ),
        decreases inherent_methods_size(inherent_methods_view(old(ms)@)), 3nat, 0nat,
    {
        proof {
            reveal(own_methods_run);
        }
        let mut fields: Vec<(String, Ty)> = Vec::new();
        assert(fields_view(fields@) =~= Seq::empty());
        let ghost start = inherent_methods_view(ms@);
        let ghost want = own_methods_run(within, self@, env@, inherent_methods_view(ms@), target@, type_bounds_view(bounds@), key@, 0, Seq::empty());
        let mut i: usize = 0;
        proof {
            lemma_inherent_methods_whole(start);
        }
        while i < ms.len()
            invariant
                agrees(within, inherent_methods_size(inherent_methods_view(old(ms)@))),
                i <= ms.len(),
                self.wf(),
                start == inherent_methods_view(old(ms)@),
                inherent_methods_size(inherent_methods_view(ms@).skip(i as int)) <= inherent_methods_size(start),
                want == own_methods_run(within, old(self)@, env@, start, target@, type_bounds_view(bounds@), key@, 0, Seq::empty()),
                want == own_methods_run(within, self@, env@, inherent_methods_view(ms@), target@, type_bounds_view(bounds@), key@, i as nat, fields_view(fields@)),
            decreases ms.len() - i,
        {
            proof {
                reveal(own_methods_run);
            }
            let ghost now = inherent_methods_view(ms@);
            proof {
                assert(now.len() == ms@.len());
                assert(now[i as int] == inherent_method_view(ms@[i as int]));
                lemma_inherent_methods_rest(now, i as int);
            }
            let step = self.infer_own_method(Ghost(within), env, &mut ms[i], target, bounds, key);
            proof {
                assert(inherent_methods_view(ms@) =~= now.update(i as int, inherent_method_view(ms@[i as int])));
            }
            match step {
                Err(error) => {
                    return Err(error);
                },
                Ok(ty) => {
                    let name = ms[i].name.clone();
                    assert(inherent_method_view(ms@[i as int]).name == name@);
                    push_field(&mut fields, name, ty);
                },
            }
            i = i + 1;
        }
        Ok(fields)
    }

    pub fn infer_inherent_impl(
        &mut self,
        Ghost(within): Ghost<Within>,
        env: &mut TypeEnv,
        id: &mut InherentImplDef,
    ) -> (r: Result<(), SpannedTypeError>)
        requires
            old(self).wf(),
            agrees(within, inherent_impl_def_size(old(id)@)),
        ensures
            final(self).wf(),
            (Run {
                st: final(self)@,
                node: (final(env)@, final(id)@),
                res: unit_res(r),
            }) == inherent_run(
                within,
                old(self)@,
                old(env)@,
                old(id)@,
            ),
        decreases inherent_impl_def_size(old(id)@), 4nat, 0nat,
    {
        proof {
            reveal(inherent_run);
        }
        let ambient = self.current_level;
        let key = match inherent_impl_target_key_from_ast(&id.target, &self.types.declared) {
            Err(error) => {
                return Err(error.at(id.span));
            },
            Ok(t) => t,
        };
        let mut methods = clone_inherent_methods(&id.methods);
        let found = self.infer_own_methods(Ghost(within), env, &mut methods, &id.target, &id.type_bounds, &key);
        self.inherent_after(env, id, methods, found, ambient, &key)
    }
}

} // verus!
