//! The parts of the rules for implementations that come before and after their methods.

use vstd::prelude::*;

use crate::associated::{all_filled, fill_types};
use crate::ast::{ImplDef, ImplMethod, InherentImplDef, InherentMethod, ResolvedCallee, TraitDef};
use crate::ast::{Expr, SourceSpan, Type, TypeBound};
use crate::ast_view::{impl_method_view, impl_methods_view, inherent_method_view};
use crate::ast_size::{expr_size, exprs_size, impl_def_size, impl_method_size};
use crate::ast_size::impl_methods_size;
use crate::ast_view::{expr_view, exprs_view, inherent_methods_view};
use crate::ast_view::{params_view, some_type_return_view, type_bounds_view, type_view};
use crate::ast_view::{types_view, ExprV, ImplDefV, ImplMethodV, InherentImplDefV};
use crate::ast_view::{param_view, InherentMethodV, ResolvedCalleeV, TraitDefV, TypeBoundV, TypeV};
use crate::checker::{constraints_res, fields_res, record_of};
use crate::convert::VarNames;
use crate::definitions::{child_level, end_def, head_is, impl_head, inherent_head, next_level};
use crate::definitions::{no_head, noted_scheme, Head, HeadV};
use crate::dict_names::{dict_param_names, param_names};
use crate::dispatch::{find_trait_method, method_named, method_param_types, types_of};
use crate::env::{EnvV, TypeEnv};
use crate::error::{error_at, unspanned_error, SpannedTypeError, SpannedV, TypeError, TypeErrorV};
use crate::items::{check_impl_body, impl_body_error, impl_head_error};
use crate::rows::{sort_fields, FieldV};
use crate::schemes::{finalized_at, generalized};
use crate::scopes::{at_level, pending_on};
use crate::self_types::{self_method, substitute_self_in_inherent_method};
use crate::state::{known_of, Infer, InferV, InherentMethodInfo, MethodInfoV};
use crate::dict_uses::{settle_impl_list, settle_impl_methods};
use crate::dicts::ResolverV;
use crate::steps::{all_written, failed, failed_at, resolved, ty_res, unit_res, Run};
use crate::subst::{clone_indexes, TypeLevel};
use crate::tables::NameMap;
use crate::text::strings_view;
use crate::ty::{constraints_view, fields_view, immutable_info, mono_scheme, ConstraintV, EnvInfo};
use crate::ty::{RowV, Scheme, TraitConstraint, Ty, TyV, TyVar};
use crate::ty_helpers::declared_bounds;
use crate::type_syntax::{dict_indexes, dict_name_for_indexes, inherent_dict_name};
use crate::type_syntax::{inherent_impl_dict_name, inherent_impl_target_key_from_ast};
use crate::type_syntax::{is_self_param, self_param, trait_dict_indexes};
use crate::type_syntax::{trait_impl_dict_name_for_indexes};
use crate::unify::error_of;

verus! {

/// A method of an implementation, which is to be inlined if the trait says so.
pub open spec fn inlined(m: ImplMethodV, def: TraitDefV) -> ImplMethodV {
    match method_named(def.methods, m.name, 0) {
        Some(tm) => ImplMethodV { inline: m.inline || tm.inline, ..m },
        None => m,
    }
}

/// The head of a method of an implementation of a trait for these arguments.
#[verifier::opaque]
pub open spec fn method_head(
    st: InferV,
    env: EnvV,
    m: ImplMethodV,
    def: TraitDefV,
    args: Seq<TypeV>,
    vars: VarNames,
) -> HeadV {
    match method_named(def.methods, m.name, 0) {
        None => no_head(
            st,
            error_at(
                TypeErrorV::ExtraTraitMethod { trait_name: def.name, method: m.name },
                m.span,
            ),
        ),
        Some(tm) => if m.params.len() != tm.params.len() {
            no_head(
                st,
                error_at(
                    TypeErrorV::TraitMethodArityMismatch {
                        trait_name: def.name,
                        method: m.name,
                        expected: tm.params.len() as usize,
                        got: m.params.len() as usize,
                    },
                    m.span,
                ),
            )
        } else {
            impl_head(
                st,
                env,
                vars,
                all_filled(types_of(tm.params), def.params, args),
                all_filled(seq![tm.ret_type], def.params, args)[0],
                m.params,
                m.ret_type,
                m.span,
                m.body.span,
            )
        },
    }
}

/// The bodies of methods.
pub open spec fn bodies_of(ms: Seq<ImplMethodV>) -> Seq<ExprV> {
    Seq::new(ms.len(), |i: int| ms[i].body)
}

/// Methods with these bodies, to be inlined if the trait says so.
pub open spec fn with_bodies(ms: Seq<ImplMethodV>, bodies: Seq<ExprV>, def: TraitDefV) -> Seq<
    ImplMethodV,
> {
    Seq::new(ms.len(), |i: int| ImplMethodV { body: bodies[i], ..inlined(ms[i], def) })
}

/// The bodies of methods are not larger than the methods.
pub proof fn lemma_bodies_size(ms: Seq<ImplMethodV>)
    ensures
        exprs_size(bodies_of(ms)) <= impl_methods_size(ms),
    decreases ms.len(),
{
    if ms.len() > 0 {
        lemma_bodies_size(ms.drop_last());
        assert(bodies_of(ms).drop_last() =~= bodies_of(ms.drop_last()));
        assert(bodies_of(ms).last() == ms.last().body);
        assert(impl_method_size(ms.last()) == 1 + expr_size(ms.last().body));
    } else {
        assert(bodies_of(ms).len() == 0);
    }
}

/// A method of an implementation once its body has been checked: its type.
#[verifier::opaque]
pub open spec fn method_after(r: Run<ExprV, ()>, span: SourceSpan, fn_ty: TyV) -> Run<ExprV, TyV> {
    match r.res {
        Err(e) => Run { st: r.st, node: r.node, res: Err(e) },
        Ok(_) => Run {
            st: noted_scheme(r.st, span, mono_scheme(fn_ty)),
            node: r.node,
            res: Ok(fn_ty),
        },
    }
}

pub fn method_bodies(ms: &Vec<ImplMethod>) -> (r: Vec<Expr>)
    ensures
        exprs_view(r@) == bodies_of(impl_methods_view(ms@)),
        r@.len() == ms@.len(),
{
    let ghost want = bodies_of(impl_methods_view(ms@));
    let mut out: Vec<Expr> = Vec::new();
    let mut i: usize = 0;
    while i < ms.len()
        invariant
            i <= ms.len(),
            out@.len() == i,
            want == bodies_of(impl_methods_view(ms@)),
            want.len() == ms@.len(),
            forall|j: int| 0 <= j < i ==> expr_view(#[trigger] out@[j]) == want[j],
        decreases ms.len() - i,
    {
        assert(impl_methods_view(ms@)[i as int] == impl_method_view(ms@[i as int]));
        out.push(body_of(&ms[i]));
        i = i + 1;
    }
    assert(exprs_view(out@) =~= want);
    out
}

fn body_of(m: &ImplMethod) -> (r: Expr)
    ensures
        expr_view(r) == impl_method_view(*m).body,
{
    m.body.clone()
}

fn with_body(m: &ImplMethod, body: Expr, def: &TraitDef) -> (r: ImplMethod)
    ensures
        impl_method_view(r) == (ImplMethodV {
            body: expr_view(body),
            ..inlined(impl_method_view(*m), def@)
        }),
{
    let mut done = m.clone();
    inline_method(&mut done, def);
    done.body = body;
    done
}

pub fn put_bodies(ms: &Vec<ImplMethod>, bodies: Vec<Expr>, def: &TraitDef) -> (r: Vec<ImplMethod>)
    requires
        bodies@.len() == ms@.len(),
    ensures
        impl_methods_view(r@) == with_bodies(
            impl_methods_view(ms@),
            exprs_view(bodies@),
            def@,
        ),
{
    let ghost want = with_bodies(impl_methods_view(ms@), exprs_view(bodies@), def@);
    let mut out: Vec<ImplMethod> = Vec::new();
    let mut i: usize = 0;
    while i < ms.len()
        invariant
            i <= ms.len(),
            bodies@.len() == ms@.len(),
            out@.len() == i,
            want == with_bodies(impl_methods_view(ms@), exprs_view(bodies@), def@),
            want.len() == ms@.len(),
            forall|j: int| 0 <= j < i ==> impl_method_view(#[trigger] out@[j]) == want[j],
        decreases ms.len() - i,
    {
        assert(impl_methods_view(ms@)[i as int] == impl_method_view(ms@[i as int]));
        assert(exprs_view(bodies@)[i as int] == expr_view(bodies@[i as int]));
        out.push(with_body(&ms[i], bodies[i].clone(), def));
        i = i + 1;
    }
    assert(impl_methods_view(out@) =~= want);
    out
}

/// What is known of an implementation before its methods are checked.
pub struct ImplStartV {
    pub st: InferV,
    pub id: ImplDefV,
    pub def: TraitDefV,
    pub vars: VarNames,
    pub initial: Seq<ConstraintV>,
    pub err: Option<SpannedV>,
}

/// An implementation before its methods are checked, one level further in.
#[verifier::opaque]
pub open spec fn impl_start(st: InferV, id: ImplDefV) -> ImplStartV {
    match impl_head_error(st, id) {
        Some(e) => ImplStartV {
            st,
            id,
            def: arbitrary(),
            vars: Map::empty(),
            initial: Seq::empty(),
            err: Some(e),
        },
        None => {
            let def = st.traits[id.trait_name];
            let id1 = ImplDefV { dict_arg_indexes: dict_indexes(def), ..id };
            let w = all_written(at_level(st, child_level(st.level)), Map::empty(), id.trait_args);
            let b = declared_bounds(w.st, w.vars, id.type_bounds);
            match impl_body_error(def, id1) {
                Some(e) => ImplStartV {
                    st,
                    id: id1,
                    def,
                    vars: Map::empty(),
                    initial: Seq::empty(),
                    err: Some(e),
                },
                None => match w.res {
                    Err(e) => ImplStartV {
                        st: w.st,
                        id: id1,
                        def,
                        vars: w.vars,
                        initial: Seq::empty(),
                        err: Some(unspanned_error(e)),
                    },
                    Ok(_) => match b.res {
                        Err(e) => ImplStartV {
                            st: b.st,
                            id: id1,
                            def,
                            vars: b.vars,
                            initial: Seq::empty(),
                            err: Some(unspanned_error(e)),
                        },
                        Ok(initial) => ImplStartV {
                            st: b.st,
                            id: id1,
                            def,
                            vars: b.vars,
                            initial,
                            err: None,
                        },
                    },
                },
            }
        },
    }
}

/// Starting with an implementation leaves its methods alone.
pub proof fn lemma_impl_start(st: InferV, id: ImplDefV)
    ensures
        impl_start(st, id).id.methods == id.methods,
        impl_def_size(impl_start(st, id).id) == impl_def_size(id),
{
    reveal(impl_start);
}

pub fn inline_method(m: &mut ImplMethod, def: &TraitDef)
    ensures
        impl_method_view(*final(m)) == inlined(impl_method_view(*old(m)), def@),
{
    let inline = match find_trait_method(def, &m.name) {
        Some(tm) => m.inline || tm.inline,
        None => m.inline,
    };
    m.inline = inline;
}

pub fn push_field(fields: &mut Vec<(String, Ty)>, name: String, ty: Ty)
    ensures
        fields_view(final(fields)@) == fields_view(old(fields)@).push((name@, ty@)),
{
    fields.push((name, ty));
    assert(fields_view(fields@) =~= fields_view(old(fields)@).push((name@, ty@)));
}

/// An implementation whose methods have these bodies.
pub open spec fn with_method_bodies(id: ImplDefV, bodies: Seq<ExprV>, def: TraitDefV) -> ImplDefV {
    ImplDefV { methods: with_bodies(id.methods, bodies, def), ..id }
}

pub fn put_method_bodies(id: &mut ImplDef, bodies: Vec<Expr>, def: &TraitDef)
    requires
        bodies@.len() == old(id).methods@.len(),
    ensures
        final(id)@ == with_method_bodies(old(id)@, exprs_view(bodies@), def@),
{
    let done = put_bodies(&id.methods, bodies, def);
    id.methods = done;
}

pub fn impl_method_name(m: &ImplMethod) -> (r: String)
    ensures
        r@ == impl_method_view(*m).name,
{
    m.name.clone()
}

pub struct ImplStart {
    pub def: TraitDef,
    pub vars: NameMap<TyVar>,
    pub initial: Vec<TraitConstraint>,
}

/// An implementation once its methods have been checked: the dictionary that it is.
#[verifier::opaque]
pub open spec fn impl_after(
    st: InferV,
    env: EnvV,
    id: ImplDefV,
    res: Result<Seq<FieldV>, SpannedV>,
    def: TraitDefV,
    ambient: TypeLevel,
    saved: Seq<ConstraintV>,
) -> Run<(EnvV, ImplDefV), ()> {
    let st1 = at_level(pending_on(st, saved), ambient);
    match res {
        Err(e) => Run { st: st1, node: (env, id), res: Err(e) },
        Ok(fields) => {
            let ty = TyV::Record(
                RowV { fields: sort_fields(fields), tail: Box::new(TyV::Unit) },
            );
            let f = finalized_at(st1, ty, st.pending, ambient);
            let st2 = pending_on(st1, st1.pending + f.bubbled);
            let s = settle_impl_methods(
                id.methods,
                0,
                ResolverV { locals: f.owned, known: known_of(st2, env), map: st2.subst.map },
                false,
                true,
            );
            let done = ImplDefV { dict_params: param_names(f.owned), methods: s.0, ..id };
            match s.1 {
                Some(e) => Run { st: st2, node: (env, done), res: failed(e) },
                None => match dict_name_for_indexes(
                    id.trait_name,
                    id.trait_args,
                    dict_indexes(def),
                ) {
                    Err(e) => Run { st: st2, node: (env, done), res: failed_at(e, id.span) },
                    Ok(name) => Run {
                        st: st2,
                        node: (env.insert(name, immutable_info(f.scheme)), done),
                        res: Ok(()),
                    },
                },
            }
        },
    }
}

/// An implementation once the bodies of its methods have been checked.
#[verifier::opaque]
pub open spec fn impl_finish(
    r: Run<Seq<ExprV>, Seq<FieldV>>,
    env: EnvV,
    id: ImplDefV,
    def: TraitDefV,
    ambient: TypeLevel,
    saved: Seq<ConstraintV>,
) -> Run<(EnvV, ImplDefV), ()> {
    impl_after(r.st, env, with_method_bodies(id, r.node, def), r.res, def, ambient, saved)
}

impl Infer {
    pub fn method_head(
        &mut self,
        env: &TypeEnv,
        m: &ImplMethod,
        def: &TraitDef,
        args: &Vec<Type>,
        vars: &NameMap<TyVar>,
    ) -> (r: Result<Head, SpannedTypeError>)
        requires
            old(self).wf(),
        ensures
            final(self).wf(),
            head_is(
                r,
                final(self)@,
                method_head(
                    old(self)@,
                    env@,
                    impl_method_view(*m),
                    def@,
                    types_view(args@),
                    vars@,
                ),
            ),
    {
        proof {
            reveal(method_head);
        }
        assert(impl_method_view(*m).params.len() == m.params@.len());
        match find_trait_method(def, &m.name) {
            None => Err(
                TypeError::ExtraTraitMethod {
                    trait_name: def.name.clone(),
                    method: m.name.clone(),
                }.at(m.span),
            ),
            Some(tm) => {
                assert(tm@.params.len() == tm.params@.len());
                if m.params.len() != tm.params.len() {
                    return Err(
                        TypeError::TraitMethodArityMismatch {
                            trait_name: def.name.clone(),
                            method: m.name.clone(),
                            expected: tm.params.len(),
                            got: m.params.len(),
                        }.at(m.span),
                    );
                }
                let derived = fill_types(&method_param_types(tm), &def.params, args);
                let mut rets: Vec<Type> = Vec::new();
                rets.push(tm.ret_type.clone());
                assert(types_view(rets@) =~= seq![tm@.ret_type]);
                let filled = fill_types(&rets, &def.params, args);
                assert(types_view(filled@)[0] == type_view(filled@[0]));
                let mut own = vars.clone();
                self.impl_head(
                    env,
                    &mut own,
                    &derived,
                    &filled[0],
                    &m.params,
                    &m.ret_type,
                    m.span,
                    m.body.span,
                )
            },
        }
    }

    pub fn method_after(
        &mut self,
        body: &Expr,
        found: Result<(), SpannedTypeError>,
        span: SourceSpan,
        fn_ty: &Ty,
    ) -> (r: Result<Ty, SpannedTypeError>)
        requires
            old(self).wf(),
        ensures
            final(self).wf(),
            (Run { st: final(self)@, node: body@, res: ty_res(r) }) == method_after(
                (Run { st: old(self)@, node: body@, res: unit_res(found) }),
                span,
                fn_ty@,
            ),
    {
        proof {
            reveal(method_after);
        }
        match found {
            Err(error) => Err(error),
            Ok(_) => {
                self.note_scheme(span, Scheme::mono(fn_ty.clone()));
                Ok(fn_ty.clone())
            },
        }
    }

    pub fn impl_start(&mut self, id: &mut ImplDef) -> (r: Result<ImplStart, SpannedTypeError>)
        requires
            old(self).wf(),
        ensures
            final(self).wf(),
            ({
                let want = impl_start(old(self)@, old(id)@);
                final(self)@ == want.st && final(id)@ == want.id && match want.err {
                    Some(e) => r is Err && r->Err_0@ == e,
                    None => r is Ok && r->Ok_0.def@ == want.def && r->Ok_0.vars@ == want.vars
                        && constraints_view(r->Ok_0.initial@) == want.initial,
                }
            }),
    {
        proof {
            reveal(impl_start);
        }
        let def = match self.check_impl_head(id) {
            Err(error) => {
                return Err(error);
            },
            Ok(t) => t,
        };
        id.dict_arg_indexes = trait_dict_indexes(&def);
        match check_impl_body(&def, id) {
            Err(error) => {
                return Err(error);
            },
            Ok(_) => {},
        }
        self.set_level(next_level(self.current_level));
        let mut vars: NameMap<TyVar> = NameMap::new();
        match self.all_written(&id.trait_args, &mut vars) {
            Err(error) => {
                return Err(error.unspanned());
            },
            Ok(_) => {},
        }
        match self.collect_type_bound_constraints(&mut vars, &id.type_bounds) {
            Err(error) => Err(error.unspanned()),
            Ok(initial) => Ok(ImplStart { def, vars, initial }),
        }
    }

    pub fn impl_finish(
        &mut self,
        env: &mut TypeEnv,
        id: &mut ImplDef,
        bodies: Vec<Expr>,
        found: Result<Vec<(String, Ty)>, SpannedTypeError>,
        def: &TraitDef,
        ambient: TypeLevel,
        saved: Vec<TraitConstraint>,
    ) -> (r: Result<(), SpannedTypeError>)
        requires
            old(self).wf(),
            bodies@.len() == old(id).methods@.len(),
        ensures
            final(self).wf(),
            (Run { st: final(self)@, node: (final(env)@, final(id)@), res: unit_res(r) })
                == impl_finish(
                (Run { st: old(self)@, node: exprs_view(bodies@), res: fields_res(found) }),
                old(env)@,
                old(id)@,
                def@,
                ambient,
                constraints_view(saved@),
            ),
    {
        proof {
            reveal(impl_finish);
        }
        put_method_bodies(id, bodies, def);
        self.impl_after(env, id, found, def, ambient, saved)
    }

    pub fn impl_after(
        &mut self,
        env: &mut TypeEnv,
        id: &mut ImplDef,
        found: Result<Vec<(String, Ty)>, SpannedTypeError>,
        def: &TraitDef,
        ambient: TypeLevel,
        saved: Vec<TraitConstraint>,
    ) -> (r: Result<(), SpannedTypeError>)
        requires
            old(self).wf(),
        ensures
            final(self).wf(),
            (Run { st: final(self)@, node: (final(env)@, final(id)@), res: unit_res(r) })
                == impl_after(
                old(self)@,
                old(env)@,
                old(id)@,
                fields_res(found),
                def@,
                ambient,
                constraints_view(saved@),
            ),
    {
        proof {
            reveal(impl_after);
        }
        let left = self.replace_pending(saved);
        self.set_level(ambient);
        let fields = match found {
            Err(error) => {
                return Err(error);
            },
            Ok(t) => t,
        };
        let ty = record_of(fields, Ty::Unit);
        let done = self.finalize_constraints_at(&ty, &left, ambient);
        let mut bubbled = done.bubbled;
        let ghost before = self@;
        let ghost more = constraints_view(bubbled@);
        self.constraints.pending.append(&mut bubbled);
        assert(self@.pending =~= before.pending + more);
        assert(self@ == pending_on(before, before.pending + more));
        id.dict_params = dict_param_names(&done.owned);
        let rest = self.resolver(env, &done.owned);
        match settle_impl_list(&mut id.methods, &rest, false, true) {
            Err(error) => {
                return Err(error.unspanned());
            },
            Ok(_) => {},
        }
        let indexes = trait_dict_indexes(def);
        match trait_impl_dict_name_for_indexes(&id.trait_name, &id.trait_args, &indexes) {
            Err(error) => Err(error.at(id.span)),
            Ok(name) => {
                env.insert(name, EnvInfo::immutable(done.scheme));
                Ok(())
            },
        }
    }
}

/// Whether a method takes a receiver.
pub open spec fn takes_receiver(m: InherentMethodV) -> bool {
    m.params.len() > 0 && self_param(m.params[0])
}

/// The head of a method of a type, one level further in.
#[verifier::opaque]
pub open spec fn own_head(
    st: InferV,
    env: EnvV,
    m: InherentMethodV,
    target: TypeV,
    bounds: Seq<TypeBoundV>,
    key: Seq<char>,
) -> HeadV {
    if st.methods.dom().contains(key) && st.methods[key].dom().contains(m.name) {
        no_head(
            st,
            error_at(
                TypeErrorV::DuplicateInherentMethod { target: key, method: m.name },
                m.name_span,
            ),
        )
    } else {
        inherent_head(
            at_level(st, child_level(st.level)),
            env,
            target,
            bounds,
            m.params,
            m.ret_type,
            m.type_bounds,
            m.body.span,
            takes_receiver(m),
        )
    }
}

/// A method of a type once its body has been checked: its type.
#[verifier::opaque]
pub open spec fn own_after(
    st: InferV,
    env: EnvV,
    m: InherentMethodV,
    res: Result<Seq<ConstraintV>, SpannedV>,
    fn_ty: TyV,
    ambient: TypeLevel,
    key: Seq<char>,
) -> Run<InherentMethodV, TyV> {
    let st1 = at_level(st, ambient);
    match res {
        Err(e) => Run { st: st1, node: m, res: Err(e) },
        Ok(left) => {
            let d = end_def(st1, env, fn_ty, left, ambient, m.body, None, true);
            let done = InherentMethodV { body: d.body, dict_params: param_names(d.owned), ..m };
            match d.err {
                Some(e) => Run { st: d.st, node: done, res: failed(e) },
                None => {
                    let st2 = noted_scheme(d.st, m.name_span, d.scheme);
                    let info = MethodInfoV {
                        scheme: d.scheme,
                        resolved_callee: ResolvedCalleeV::InherentMethod {
                            dict: inherent_dict_name(key),
                            method: m.name,
                        },
                        has_receiver: takes_receiver(m),
                    };
                    let known = if st2.methods.dom().contains(key) {
                        st2.methods[key]
                    } else {
                        Map::empty()
                    };
                    let st3 = InferV {
                        methods: st2.methods.insert(key, known.insert(m.name, info)),
                        ..st2
                    };
                    Run { st: st3, node: done, res: Ok(resolved(st3, fn_ty)) }
                },
            }
        },
    }
}

/// An implementation of methods for a type once they have been checked: the dictionary
/// that it is.
#[verifier::opaque]
pub open spec fn inherent_after(
    st: InferV,
    env: EnvV,
    id: InherentImplDefV,
    methods: Seq<InherentMethodV>,
    res: Result<Seq<FieldV>, SpannedV>,
    ambient: TypeLevel,
    key: Seq<char>,
) -> Run<(EnvV, InherentImplDefV), ()> {
    match res {
        Err(e) => Run { st, node: (env, id), res: Err(e) },
        Ok(fields) => Run {
            st,
            node: (
                env.insert(
                    inherent_dict_name(key),
                    immutable_info(
                        generalized(
                            st,
                            TyV::Record(
                                RowV { fields: sort_fields(fields), tail: Box::new(TyV::Unit) },
                            ),
                            ambient,
                        ),
                    ),
                ),
                InherentImplDefV { methods, ..id },
            ),
            res: Ok(()),
        },
    }
}

impl Infer {
    pub fn own_head(
        &mut self,
        env: &TypeEnv,
        m: &InherentMethod,
        target: &Type,
        bounds: &Vec<TypeBound>,
        key: &String,
    ) -> (r: Result<Head, SpannedTypeError>)
        requires
            old(self).wf(),
        ensures
            final(self).wf(),
            head_is(
                r,
                final(self)@,
                own_head(
                    old(self)@,
                    env@,
                    inherent_method_view(*m),
                    target@,
                    type_bounds_view(bounds@),
                    key@,
                ),
            ),
    {
        proof {
            reveal(own_head);
        }
        let twice = match self.inherent.methods.get(key) {
            Some(ms) => ms.get(&m.name).is_some(),
            None => false,
        };
        if twice {
            return Err(
                TypeError::DuplicateInherentMethod {
                    target: key.clone(),
                    method: m.name.clone(),
                }.at(m.name_span),
            );
        }
        self.set_level(next_level(self.current_level));
        let receiver = method_takes_receiver(m);
        self.inherent_head(
            env,
            target,
            bounds,
            &m.params,
            &m.ret_type,
            &m.type_bounds,
            m.body.span,
            receiver,
        )
    }

    pub fn own_after(
        &mut self,
        env: &TypeEnv,
        m: &mut InherentMethod,
        found: Result<Vec<TraitConstraint>, SpannedTypeError>,
        fn_ty: &Ty,
        ambient: TypeLevel,
        key: &String,
    ) -> (r: Result<Ty, SpannedTypeError>)
        requires
            old(self).wf(),
        ensures
            final(self).wf(),
            (Run { st: final(self)@, node: inherent_method_view(*final(m)), res: ty_res(r) })
                == own_after(
                old(self)@,
                env@,
                inherent_method_view(*old(m)),
                constraints_res(found),
                fn_ty@,
                ambient,
                key@,
            ),
    {
        proof {
            reveal(own_after);
        }
        self.set_level(ambient);
        let left = match found {
            Err(error) => {
                return Err(error);
            },
            Ok(t) => t,
        };
        let (scheme, owned, settled) = self.end_def(
            env,
            fn_ty,
            &left,
            ambient,
            &mut m.body,
            None,
            true,
        );
        m.dict_params = dict_param_names(&owned);
        match settled {
            Err(error) => {
                return Err(error.unspanned());
            },
            Ok(_) => {},
        }
        self.note_scheme(m.name_span, scheme.clone());
        let info = InherentMethodInfo {
            scheme,
            resolved_callee: ResolvedCallee::InherentMethod {
                dict: inherent_impl_dict_name(key),
                method: m.name.clone(),
            },
            has_receiver: method_takes_receiver(m),
        };
        let mut known = match self.inherent.methods.get(key) {
            Some(ms) => ms.clone(),
            None => NameMap::new(),
        };
        known.insert(m.name.clone(), info);
        self.inherent.methods.insert(key.clone(), known);
        Ok(self.resolve(fn_ty))
    }

    pub fn inherent_after(
        &self,
        env: &mut TypeEnv,
        id: &mut InherentImplDef,
        methods: Vec<InherentMethod>,
        found: Result<Vec<(String, Ty)>, SpannedTypeError>,
        ambient: TypeLevel,
        key: &String,
    ) -> (r: Result<(), SpannedTypeError>)
        requires
            self.wf(),
        ensures
            (Run { st: self@, node: (final(env)@, final(id)@), res: unit_res(r) })
                == inherent_after(
                self@,
                old(env)@,
                old(id)@,
                inherent_methods_view(methods@),
                fields_res(found),
                ambient,
                key@,
            ),
    {
        proof {
            reveal(inherent_after);
        }
        match found {
            Err(error) => Err(error),
            Ok(fields) => {
                let ty = record_of(fields, Ty::Unit);
                id.methods = methods;
                let scheme = self.generalize_at(&ty, ambient);
                env.insert(inherent_impl_dict_name(key), EnvInfo::immutable(scheme));
                Ok(())
            },
        }
    }
}

fn method_takes_receiver(m: &InherentMethod) -> (r: bool)
    ensures
        r == takes_receiver(inherent_method_view(*m)),
{
    assert(inherent_method_view(*m).params.len() == m.params@.len());
    if m.params.len() > 0 {
        assert(inherent_method_view(*m).params[0] == param_view(m.params@[0]));
        is_self_param(&m.params[0])
    } else {
        false
    }
}

} // verus!
