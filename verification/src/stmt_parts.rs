//! The parts of the rules for definitions that come before and after their bodies.

use std::collections::HashSet;
use vstd::prelude::*;

use crate::ast::{stmt_span, synthetic_span, Expr, FnDef, GeneratedBy, Pattern, SourceSpan};
use crate::ast::Stmt;
use crate::ast_view::{ExprV, FnDefV, GeneratedByV, PatternV, StmtV};
use crate::checker::constraints_res;
use crate::definitions::{child_level, def_head, end_def, head_is, next_level, noted_scheme};
use crate::definitions::{Head, HeadV};
use crate::dict_names::{dict_param_names, param_names};
use crate::env::{env_free_vars, EnvV, TypeEnv};
use crate::error::{span_if_absent, SpannedTypeError, SpannedV, TypeError, TypeErrorV};
use crate::items::{let_end, LetInfo, LetV};
use crate::places::{ParamSource, SourceV};
use crate::scopes::at_level;
use crate::state::{Infer, InferV};
use crate::steps::{equate_result, failed, failed_at, ty_res, unit_res, Run};
use crate::subst::TypeLevel;
use crate::tables::NameMap;
use crate::ty::{constraints_view, immutable_info, ConstraintV, EnvInfo, EnvInfoV};
use crate::ty::{TraitConstraint, Ty, TyV, TyVar};
use crate::value::{is_value, value_expr};

verus! {

/// A value once it has been checked against a written type.
#[verifier::opaque]
pub open spec fn value_after(r: Run<ExprV, TyV>, want: TyV) -> Run<ExprV, TyV> {
    match r.res {
        Err(_) => r,
        Ok(found) => {
            let u = equate_result(r.st, found, want);
            match u.1 {
                Some(e) => Run { st: u.0, node: r.node, res: failed_at(e, r.node.span) },
                None => Run { st: u.0, node: r.node, res: Ok(want) },
            }
        },
    }
}

/// A let once its value has been checked. The level is what it was before.
#[verifier::opaque]
pub open spec fn let_after(r: Run<ExprV, TyV>, env: EnvV, l: LetV) -> Run<(EnvV, ExprV), ()> {
    let st = if l.general {
        at_level(r.st, l.ambient)
    } else {
        r.st
    };
    match r.res {
        Err(e) => Run { st, node: (env, r.node), res: Err(e) },
        Ok(ty) => {
            let b = let_end(st, env, l, r.node, ty);
            Run {
                st: b.st,
                node: (b.env, r.node),
                res: match b.err {
                    Some(e) => Err(e),
                    None => Ok(()),
                },
            }
        },
    }
}

/// How a let is checked.
pub open spec fn let_of(
    st: InferV,
    env: EnvV,
    pat: PatternV,
    is_mutable: bool,
    annotated: bool,
    value: ExprV,
) -> LetV {
    let general = !is_mutable && value_expr(value);
    LetV {
        pat,
        is_mutable,
        annotated,
        general,
        ambient: st.level,
        before: if general {
            env_free_vars(st.subst.map, env)
        } else {
            Set::empty()
        },
        start: st.pending.len(),
    }
}

/// Nothing, as a type.
pub open spec fn unit_ty(r: Result<(), SpannedV>) -> Result<TyV, SpannedV> {
    match r {
        Err(e) => Err(e),
        Ok(_) => Ok(TyV::Unit),
    }
}

pub fn unit_type(r: Result<(), SpannedTypeError>) -> (t: Result<Ty, SpannedTypeError>)
    ensures
        ty_res(t) == unit_ty(unit_res(r)),
{
    match r {
        Err(e) => Err(e),
        Ok(_) => Ok(Ty::Unit),
    }
}

/// The place that an error in a statement gets.
pub enum PlaceV {
    /// If it has none.
    IfAbsent(SourceSpan),
    /// If it has none but in code that nobody wrote: the place that asks for an
    /// implementation of this trait to be derived.
    Derived(SourceSpan, Seq<char>),
}

/// The place that an error in a statement gets; of a derived implementation, with the name
/// of its trait.
pub enum Place {
    IfAbsent(SourceSpan),
    Derived(SourceSpan, String),
}

impl View for Place {
    type V = PlaceV;

    open spec fn view(&self) -> PlaceV {
        match *self {
            Place::IfAbsent(span) => PlaceV::IfAbsent(span),
            Place::Derived(span, trait_name) => PlaceV::Derived(span, trait_name@),
        }
    }
}

/// The place that an error in this statement gets.
pub open spec fn error_place(s: StmtV) -> PlaceV {
    match s {
        StmtV::Impl(id) => match id.generated_by {
            Some(GeneratedByV::Derive { trait_name, source_span }) => PlaceV::Derived(
                source_span,
                trait_name,
            ),
            None => PlaceV::IfAbsent(stmt_span(s)),
        },
        _ => PlaceV::IfAbsent(stmt_span(s)),
    }
}

pub fn stmt_error_place(s: &Stmt) -> (r: Place)
    ensures
        r@ == error_place(s@),
{
    match s {
        Stmt::Impl(id) => match &id.generated_by {
            Some(GeneratedBy::Derive { trait_name, source_span }) => Place::Derived(
                *source_span,
                trait_name.clone(),
            ),
            None => Place::IfAbsent(s.span()),
        },
        _ => Place::IfAbsent(s.span()),
    }
}

/// An error at its place. What goes wrong in a derived implementation is told as its
/// failure.
pub open spec fn placed_error(e: SpannedV, place: PlaceV) -> SpannedV {
    match place {
        PlaceV::IfAbsent(span) => span_if_absent(e, span),
        PlaceV::Derived(span, trait_name) => SpannedV {
            span: if e.span is None || e.span == Some(synthetic_span()) {
                Some(span)
            } else {
                e.span
            },
            error: TypeErrorV::DerivedImplFailure { trait_name, error: Box::new(e.error) },
        },
    }
}

/// A statement once it has been checked.
#[verifier::opaque]
pub open spec fn stmt_after<N>(r: Run<N, TyV>, place: PlaceV) -> Run<N, TyV> {
    match r.res {
        Err(e) => Run { st: r.st, node: r.node, res: Err(placed_error(e, place)) },
        Ok(_) => r,
    }
}

pub fn placed(found: Result<Ty, SpannedTypeError>, place: &Place) -> (r: Result<
    Ty,
    SpannedTypeError,
>)
    ensures
        forall|st: InferV, node: (EnvV, StmtV)|
            (Run { st, node, res: ty_res(r) }) == #[trigger] stmt_after(
                (Run { st, node, res: ty_res(found) }),
                place@,
            ),
{
    proof {
        reveal(stmt_after);
    }
    match found {
        Ok(ty) => Ok(ty),
        Err(e) => match place {
            Place::IfAbsent(span) => Err(e.with_span_if_absent(*span)),
            Place::Derived(span, trait_name) => {
                let moves = match e.span {
                    None => true,
                    Some(at) => at == SourceSpan::synthetic(),
                };
                let at = if moves {
                    Some(*span)
                } else {
                    e.span
                };
                let error = TypeError::DerivedImplFailure {
                    trait_name: trait_name.clone(),
                    error: e.error,
                };
                assert(error@ == (TypeErrorV::DerivedImplFailure {
                    trait_name: trait_name@,
                    error: Box::new(e.error@),
                }));
                Err(SpannedTypeError { span: at, error: Box::new(error) })
            },
        },
    }
}

/// The head of a function, one level further in. A function knows its own name, an
/// operator does not.
#[verifier::opaque]
pub open spec fn fn_head(st: InferV, env: EnvV, def: FnDefV, knows_itself: bool) -> HeadV {
    def_head(
        at_level(st, child_level(st.level)),
        env,
        Map::empty(),
        Seq::empty(),
        SourceV::Own,
        def.params,
        def.ret_type,
        def.type_bounds,
        def.body.span,
        if knows_itself {
            Some(def.name)
        } else {
            None
        },
    )
}

/// A function once its body has been checked: what it is from here on.
#[verifier::opaque]
pub open spec fn fn_after(
    st: InferV,
    env: EnvV,
    def: FnDefV,
    res: Result<Seq<ConstraintV>, SpannedV>,
    knows_itself: bool,
    fn_ty: TyV,
    ambient: TypeLevel,
) -> Run<(EnvV, FnDefV), ()> {
    let st1 = at_level(st, ambient);
    match res {
        Err(e) => Run { st: st1, node: (env, def), res: Err(e) },
        Ok(left) => {
            let d = end_def(
                st1,
                env,
                fn_ty,
                left,
                ambient,
                def.body,
                if knows_itself {
                    Some(def.name)
                } else {
                    None
                },
                true,
            );
            let done = FnDefV { body: d.body, dict_params: param_names(d.owned), ..def };
            match d.err {
                Some(e) => Run { st: d.st, node: (env, done), res: failed(e) },
                None => Run {
                    st: noted_scheme(d.st, def.name_span, d.scheme),
                    node: (
                        env.insert(
                            def.name,
                            EnvInfoV {
                                macro_phase_available: knows_itself,
                                ..immutable_info(d.scheme)
                            },
                        ),
                        done,
                    ),
                    res: Ok(()),
                },
            }
        },
    }
}

impl Infer {
    pub fn let_of<'a>(
        &self,
        env: &TypeEnv,
        pat: &'a Pattern,
        is_mutable: bool,
        annotated: bool,
        value: &Expr,
    ) -> (r: LetInfo<'a>)
        requires
            self.wf(),
        ensures
            r@ == let_of(self@, env@, pat@, is_mutable, annotated, value@),
    {
        assert(self@.pending.len() == self.constraints.pending@.len());
        let general = !is_mutable && is_value(value);
        let before: HashSet<TyVar> = if general {
            env.free_vars(&self.subst)
        } else {
            HashSet::new()
        };
        assert(!general ==> before@ =~= Set::empty());
        LetInfo {
            pat,
            is_mutable,
            annotated,
            general,
            ambient: self.current_level,
            before,
            start: self.constraints.pending.len(),
        }
    }

    pub fn value_after(&mut self, value: &Expr, found: Result<Ty, SpannedTypeError>, want: &Ty) -> (r:
        Result<Ty, SpannedTypeError>)
        requires
            old(self).wf(),
        ensures
            final(self).wf(),
            (Run { st: final(self)@, node: value@, res: ty_res(r) }) == value_after(
                (Run { st: old(self)@, node: value@, res: ty_res(found) }),
                want@,
            ),
    {
        proof {
            reveal(value_after);
        }
        match found {
            Err(error) => Err(error),
            Ok(ty) => match self.unify_expr_result(ty, want.clone()) {
                Err(error) => Err(error.at(value.span)),
                Ok(_) => Ok(want.clone()),
            },
        }
    }

    pub fn let_after(
        &mut self,
        env: &mut TypeEnv,
        value: &Expr,
        found: Result<Ty, SpannedTypeError>,
        l: &LetInfo,
    ) -> (r: Result<(), SpannedTypeError>)
        requires
            old(self).wf(),
        ensures
            final(self).wf(),
            (Run { st: final(self)@, node: (final(env)@, value@), res: unit_res(r) })
                == let_after(
                (Run { st: old(self)@, node: value@, res: ty_res(found) }),
                old(env)@,
                l@,
            ),
    {
        proof {
            reveal(let_after);
        }
        if l.general {
            self.set_level(l.ambient);
        }
        match found {
            Err(error) => Err(error),
            Ok(ty) => self.let_end(env, l, value, ty),
        }
    }

    pub fn fn_head(&mut self, env: &TypeEnv, def: &FnDef, knows_itself: bool) -> (r: Result<
        Head,
        SpannedTypeError,
    >)
        requires
            old(self).wf(),
        ensures
            final(self).wf(),
            head_is(r, final(self)@, fn_head(old(self)@, env@, def@, knows_itself)),
    {
        proof {
            reveal(fn_head);
        }
        let mut vars: NameMap<TyVar> = NameMap::new();
        let initial: Vec<TraitConstraint> = Vec::new();
        assert(constraints_view(initial@) =~= Seq::empty());
        self.set_level(next_level(self.current_level));
        let name = if knows_itself {
            Some(&def.name)
        } else {
            None
        };
        self.def_head(
            env,
            &mut vars,
            initial,
            &ParamSource::Own,
            &def.params,
            &def.ret_type,
            &def.type_bounds,
            def.body.span,
            name,
        )
    }

    pub fn fn_after(
        &mut self,
        env: &mut TypeEnv,
        def: &mut FnDef,
        found: Result<Vec<TraitConstraint>, SpannedTypeError>,
        knows_itself: bool,
        fn_ty: &Ty,
        ambient: TypeLevel,
    ) -> (r: Result<(), SpannedTypeError>)
        requires
            old(self).wf(),
        ensures
            final(self).wf(),
            (Run { st: final(self)@, node: (final(env)@, final(def)@), res: unit_res(r) })
                == fn_after(
                old(self)@,
                old(env)@,
                old(def)@,
                constraints_res(found),
                knows_itself,
                fn_ty@,
                ambient,
            ),
    {
        proof {
            reveal(fn_after);
        }
        self.set_level(ambient);
        let left = match found {
            Err(error) => {
                return Err(error);
            },
            Ok(t) => t,
        };
        let name = def.name.clone();
        let own = if knows_itself {
            Some(&name)
        } else {
            None
        };
        let (scheme, owned, settled) = self.end_def(
            env,
            fn_ty,
            &left,
            ambient,
            &mut def.body,
            own,
            true,
        );
        def.dict_params = dict_param_names(&owned);
        match settled {
            Err(error) => {
                return Err(error.unspanned());
            },
            Ok(_) => {},
        }
        let info = if knows_itself {
            EnvInfo::immutable(scheme.clone()).with_macro_phase_available()
        } else {
            EnvInfo::immutable(scheme.clone())
        };
        env.insert(name, info);
        self.note_scheme(def.name_span, scheme);
        Ok(())
    }
}

} // verus!
