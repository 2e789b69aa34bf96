//! The steps that the checker is made of: resolving types, making them equal,
//! reading annotations, choosing dictionaries.

use vstd::prelude::*;

use crate::apply::apply;
use crate::ast::{DictRef, Expr, ExprKind, PendingDictArg, Stmt, Type};
use crate::ast_view::{dict_refs_view, pending_dict_args_view, some_dict_ref_view, DictRefV};
use crate::ast_view::{types_view, ExprV, PendingDictArgV, StmtV, TypeV};
use crate::convert::{converted, to_ty, to_tys, ty_result, tys_result, ConvV, VarNames};
use crate::convert::MAX_ALIAS_DEPTH;
use crate::dict_names::{dict_params, param_dicts};
use crate::dict_uses::{resolve_dict_uses_expr, resolve_dict_uses_expr_lenient, settle};
use crate::dicts::{attach, attach_dict_args, dict_for, dict_unifying, says_dict, says_found};
use crate::dicts::{resolve_concrete_dict_ref, resolve_concrete_from_args_unifying, AttachV};
use crate::dicts::{Known, Resolver, ResolverV, MAX_DICT_DEPTH};
use crate::env::{EnvV, TypeEnv};
use crate::error::{error_at, unspanned_error, SpannedTypeError, SpannedV, TypeError, TypeErrorV};
use crate::state::{known_of, Infer, InferV};
use crate::tables::NameMap;
use crate::ty::{constraints_view, tys_view, ConstraintV, TraitConstraint, Ty, TyV, TyVar};
use crate::unify::{error_of, unify, unify_types};
use crate::walkers::{attach_owned_dicts_to_recursive_self_calls_inner, pass_on};
use crate::walkers::{stmt_always_exits, stmt_leaves};

verus! {

/// What running the checker on a part of the tree leads to.
pub struct Run<N, T> {
    pub st: InferV,
    pub node: N,
    pub res: Result<T, SpannedV>,
}

/// The type that a check found, or its error.
pub open spec fn ty_res(r: Result<Ty, SpannedTypeError>) -> Result<TyV, SpannedV> {
    match r {
        Ok(t) => Ok(t@),
        Err(e) => Err(e@),
    }
}

/// The types that a check found, or its error.
pub open spec fn tys_res(r: Result<Vec<Ty>, SpannedTypeError>) -> Result<Seq<TyV>, SpannedV> {
    match r {
        Ok(t) => Ok(tys_view(t@)),
        Err(e) => Err(e@),
    }
}

/// The error of a check, if any.
pub open spec fn unit_res(r: Result<(), SpannedTypeError>) -> Result<(), SpannedV> {
    match r {
        Ok(_) => Ok(()),
        Err(e) => Err(e@),
    }
}

/// An error that stands nowhere yet.
pub open spec fn failed<T>(e: TypeErrorV) -> Result<T, SpannedV> {
    Err(unspanned_error(e))
}

/// An error at a place.
pub open spec fn failed_at<T>(e: TypeErrorV, span: crate::ast::SourceSpan) -> Result<T, SpannedV> {
    Err(error_at(e, span))
}

/// A type with what is known of its variables filled in.
#[verifier::opaque]
pub open spec fn resolved(st: InferV, t: TyV) -> TyV {
    apply(st.subst.map, t)
}

/// Types with what is known of their variables filled in.
pub open spec fn all_in(st: InferV, ts: Seq<TyV>) -> Seq<TyV> {
    Seq::new(ts.len(), |i: int| resolved(st, ts[i]))
}

/// Makes two types equal.
#[verifier::opaque]
pub open spec fn equate(st: InferV, a: TyV, b: TyV) -> (InferV, Option<TypeErrorV>) {
    let u = unify_types(st.subst, a, b);
    (InferV { subst: u.0, ..st }, u.1)
}

/// Makes the type of an expression equal to the one expected of it. One that is
/// never left fits everywhere.
#[verifier::opaque]
pub open spec fn equate_result(st: InferV, actual: TyV, expected: TyV) -> (
    InferV,
    Option<TypeErrorV>,
) {
    if resolved(st, actual) == TyV::Never {
        (st, None)
    } else {
        equate(st, actual, expected)
    }
}

/// A written type.
#[verifier::opaque]
pub open spec fn written(st: InferV, vars: VarNames, ty: TypeV) -> ConvV<TyV> {
    to_ty(st, vars, ty, Seq::empty(), MAX_ALIAS_DEPTH as nat)
}

/// Written types, in order.
#[verifier::opaque]
pub open spec fn all_written(st: InferV, vars: VarNames, tys: Seq<TypeV>) -> ConvV<Seq<TyV>> {
    to_tys(st, vars, tys, 0, Seq::empty(), Seq::empty(), MAX_ALIAS_DEPTH as nat)
}

/// The outcome of giving dictionaries to a use.
pub struct GivenV {
    pub st: InferV,
    pub dicts: Seq<DictRefV>,
    pub pending: Seq<PendingDictArgV>,
    pub err: Option<TypeErrorV>,
}

/// Gives a use the dictionaries that `cs` asks for.
#[verifier::opaque]
pub open spec fn give_dicts(
    st: InferV,
    env: EnvV,
    dicts: Seq<DictRefV>,
    pending: Seq<PendingDictArgV>,
    cs: Seq<ConstraintV>,
) -> GivenV {
    let a = attach(
        AttachV { subst: st.subst, dicts, pending, constraints: st.pending, err: None },
        known_of(st, env),
        cs,
        0,
    );
    GivenV {
        st: InferV { subst: a.subst, pending: a.constraints, ..st },
        dicts: a.dicts,
        pending: a.pending,
        err: a.err,
    }
}

/// The dictionary of a trait for some arguments, which may settle what is still
/// open in them.
#[verifier::opaque]
pub open spec fn find_dict(
    st: InferV,
    env: EnvV,
    trait_name: Seq<char>,
    args: Seq<TyV>,
    indexes: Seq<usize>,
) -> (InferV, Option<DictRefV>) {
    match dict_unifying(known_of(st, env), trait_name, args, indexes, st.subst) {
        Some((dict, Some(s))) => (InferV { subst: s, ..st }, Some(dict)),
        _ => (st, None),
    }
}

/// The dictionary of a trait for a type.
#[verifier::opaque]
pub open spec fn concrete_dict(st: InferV, env: EnvV, trait_name: Seq<char>, ty: TyV) -> Option<
    DictRefV,
> {
    dict_for(known_of(st, env), trait_name, ty, MAX_DICT_DEPTH as nat)
}

/// An expression with its dictionaries chosen, from those that `owned` is given or
/// from what is known.
#[verifier::opaque]
pub open spec fn settled(e: ExprV, st: InferV, env: EnvV, owned: Seq<ConstraintV>, hard: bool) -> (
    ExprV,
    Option<TypeErrorV>,
) {
    settle(
        e,
        ResolverV { locals: owned, known: known_of(st, env), map: st.subst.map },
        false,
        hard,
    )
}

/// An expression in which calls of `name` pass on the dictionaries of `owned`.
#[verifier::opaque]
pub open spec fn passed_on(e: ExprV, name: Seq<char>, owned: Seq<ConstraintV>) -> ExprV {
    pass_on(e, name, param_dicts(owned))
}

/// Whether what follows a statement is never reached.
#[verifier::opaque]
pub open spec fn exits(s: StmtV) -> bool {
    stmt_leaves(s, true)
}

pub fn always_exits(s: &Stmt) -> (r: bool)
    ensures
        r == exits(s@),
{
    proof {
        reveal(exits);
    }
    stmt_always_exits(s, true)
}

/// Passes the dictionaries of `owned` on to calls of `name`.
pub fn attach_owned_dicts_to_recursive_self_calls(
    e: &mut Expr,
    name: &str,
    owned: &Vec<TraitConstraint>,
)
    ensures
        final(e)@ == passed_on(old(e)@, name@, constraints_view(owned@)),
{
    proof {
        reveal(passed_on);
    }
    let dicts = dict_params(owned);
    attach_owned_dicts_to_recursive_self_calls_inner(e, name, &dicts);
}

impl Infer {
    /// A type with what is known of its variables filled in.
    pub fn resolve(&self, ty: &Ty) -> (r: Ty)
        requires
            self.wf(),
        ensures
            r@ == resolved(self@, ty@),
    {
        proof {
            reveal(resolved);
        }
        self.subst.apply(ty)
    }

    /// Types with what is known of their variables filled in.
    pub fn resolve_all(&self, tys: &Vec<Ty>) -> (r: Vec<Ty>)
        requires
            self.wf(),
        ensures
            tys_view(r@) == all_in(self@, tys_view(tys@)),
            r@.len() == tys@.len(),
    {
        let ghost all = tys_view(tys@);
        let mut out: Vec<Ty> = Vec::new();
        let mut i: usize = 0;
        while i < tys.len()
            invariant
                i <= tys.len(),
                self.wf(),
                all == tys_view(tys@),
                out@.len() == i,
                forall|j: int| 0 <= j < i ==> (#[trigger] out@[j])@ == resolved(self@, all[j]),
            decreases tys.len() - i,
        {
            assert(all[i as int] == tys@[i as int]@);
            let t = self.resolve(&tys[i]);
            out.push(t);
            i = i + 1;
        }
        assert(tys_view(out@) =~= all_in(self@, all));
        out
    }

    /// Makes two types equal.
    pub fn equate(&mut self, a: Ty, b: Ty) -> (r: Result<(), TypeError>)
        requires
            old(self).wf(),
        ensures
            final(self).wf(),
            (final(self)@, error_of(r)) == equate(old(self)@, a@, b@),
    {
        proof {
            reveal(equate);
        }
        unify(&mut self.subst, a, b)
    }

    /// Makes the type of an expression equal to the one expected of it.
    pub fn unify_expr_result(&mut self, actual: Ty, expected: Ty) -> (r: Result<(), TypeError>)
        requires
            old(self).wf(),
        ensures
            final(self).wf(),
            (final(self)@, error_of(r)) == equate_result(old(self)@, actual@, expected@),
    {
        proof {
            reveal(equate_result);
        }
        match self.resolve(&actual) {
            Ty::Never => Ok(()),
            _ => self.equate(actual, expected),
        }
    }

    /// A written type.
    pub fn written(&mut self, ty: &Type, vars: &mut NameMap<TyVar>) -> (r: Result<Ty, TypeError>)
        requires
            old(self).wf(),
        ensures
            final(self).wf(),
            (ConvV { st: final(self)@, vars: final(vars)@, res: ty_result(r) }) == written(
                old(self)@,
                old(vars)@,
                ty@,
            ),
    {
        proof {
            reveal(written);
        }
        self.ast_to_ty_with_vars(ty, vars)
    }

    /// Written types, in order.
    pub fn all_written(&mut self, tys: &Vec<Type>, vars: &mut NameMap<TyVar>) -> (r: Result<
        Vec<Ty>,
        TypeError,
    >)
        requires
            old(self).wf(),
        ensures
            final(self).wf(),
            (ConvV { st: final(self)@, vars: final(vars)@, res: tys_result(r) }) == all_written(
                old(self)@,
                old(vars)@,
                types_view(tys@),
            ),
            r matches Ok(found) ==> found@.len() == tys@.len(),
    {
        proof {
            reveal(all_written);
        }
        self.ast_to_tys(tys, vars)
    }

    /// Gives a use the dictionaries that `cs` asks for.
    pub fn give_dicts(
        &mut self,
        env: &TypeEnv,
        dicts: &mut Vec<DictRef>,
        pending: &mut Vec<PendingDictArg>,
        cs: &Vec<TraitConstraint>,
    ) -> (r: Result<(), TypeError>)
        requires
            old(self).wf(),
        ensures
            final(self).wf(),
            (GivenV {
                st: final(self)@,
                dicts: dict_refs_view(final(dicts)@),
                pending: pending_dict_args_view(final(pending)@),
                err: error_of(r),
            }) == give_dicts(
                old(self)@,
                env@,
                dict_refs_view(old(dicts)@),
                pending_dict_args_view(old(pending)@),
                constraints_view(cs@),
            ),
    {
        proof {
            reveal(give_dicts);
        }
        let known = Known {
            env,
            dicts: &self.impls.active_dicts,
            schemes: &self.impls.known_schemes,
        };
        attach_dict_args(
            &known,
            dicts,
            pending,
            &mut self.constraints.pending,
            cs,
            &mut self.subst,
        )
    }

    /// The dictionary of a trait for some arguments, which may settle what is
    /// still open in them.
    pub fn find_dict(
        &mut self,
        env: &TypeEnv,
        trait_name: &str,
        args: &Vec<Ty>,
        indexes: &Vec<usize>,
    ) -> (r: Option<DictRef>)
        requires
            old(self).wf(),
        ensures
            final(self).wf(),
            (final(self)@, some_dict_ref_view(r)) == find_dict(
                old(self)@,
                env@,
                trait_name@,
                tys_view(args@),
                indexes@,
            ),
    {
        proof {
            reveal(find_dict);
        }
        let known = Known {
            env,
            dicts: &self.impls.active_dicts,
            schemes: &self.impls.known_schemes,
        };
        resolve_concrete_from_args_unifying(trait_name, args, indexes, &known, &mut self.subst)
    }

    /// The dictionary of a trait for a type.
    pub fn concrete_dict(&self, env: &TypeEnv, trait_name: &str, ty: &Ty) -> (r: Option<DictRef>)
        ensures
            some_dict_ref_view(r) == concrete_dict(self@, env@, trait_name@, ty@),
    {
        proof {
            reveal(concrete_dict);
        }
        let known = Known {
            env,
            dicts: &self.impls.active_dicts,
            schemes: &self.impls.known_schemes,
        };
        resolve_concrete_dict_ref(trait_name, ty, &known)
    }

    /// Chooses the dictionaries of an expression.
    pub fn settle_expr(&self, e: &mut Expr, env: &TypeEnv, owned: &Vec<TraitConstraint>) -> (r:
        Result<(), TypeError>)
        requires
            self.wf(),
        ensures
            (final(e)@, error_of(r)) == settled(
                old(e)@,
                self@,
                env@,
                constraints_view(owned@),
                true,
            ),
    {
        proof {
            reveal(settled);
        }
        let resolver = self.resolver(env, owned);
        resolve_dict_uses_expr(e, &resolver, false)
    }

    /// Chooses the dictionaries of an expression as far as they are known.
    pub fn settle_expr_lenient(&self, e: &mut Expr, env: &TypeEnv, owned: &Vec<TraitConstraint>) -> (r:
        Result<(), TypeError>)
        requires
            self.wf(),
        ensures
            (final(e)@, error_of(r)) == settled(
                old(e)@,
                self@,
                env@,
                constraints_view(owned@),
                false,
            ),
    {
        proof {
            reveal(settled);
        }
        let resolver = self.resolver(env, owned);
        resolve_dict_uses_expr_lenient(e, &resolver, false)
    }

    pub fn resolver<'a>(&'a self, env: &'a TypeEnv, owned: &'a Vec<TraitConstraint>) -> (r:
        Resolver<'a>)
        requires
            self.wf(),
        ensures
            r.wf(),
            r@ == (ResolverV {
                locals: constraints_view(owned@),
                known: known_of(self@, env@),
                map: self@.subst.map,
            }),
    {
        Resolver {
            locals: owned,
            known: Known {
                env,
                dicts: &self.impls.active_dicts,
                schemes: &self.impls.known_schemes,
            },
            subst: &self.subst,
        }
    }
}

} // verus!
