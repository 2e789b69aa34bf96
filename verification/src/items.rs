//! The parts of the rules for statements that look at no expression.

use std::collections::HashSet;
use vstd::prelude::*;

use crate::associated::{all_filled, clone_types};
use crate::ast::{Expr, ExprKind, FnDef, ImplDef, ImplMethod, NamedType, Param, Pattern, SourceSpan};
use crate::ast::{Fundep, Stmt, TraitDef, TraitMethod, Type, TypeParam};
use crate::ast_view::{expr_view, exprs_view, fn_def_view, fundep_view, fundeps_view};
use crate::ast_view::{impl_method_view, impl_methods_view, named_type_view, named_types_view};
use crate::ast_view::{stmt_view, stmts_view, trait_method_view, trait_methods_view};
use crate::ast_view::{type_param_view, type_params_view, type_return_view, type_view, types_view};
use crate::ast_view::{ExprKindV, ExprV, FnDefV, FundepV, ImplDefV, ImplMethodV, NamedTypeV};
use crate::ast_view::{PatternV, StmtV, TraitDefV, TraitMethodV, TypeParamV, TypeV};
use crate::definitions::{noted_scheme, RecFnInfo, RecInfoV};
use crate::env::{env_free_vars, EnvV, TypeEnv};
use crate::error::{error_at, unspanned_error, SpannedTypeError, SpannedV, TypeError, TypeErrorV};
use crate::lexical::{calls_in, collect_unshadowed_direct_call_targets};
use crate::pattern_infer::{match_pattern, with_binding, with_capability, PatRun};
use crate::patterns::{bound_names, insert_pattern_bindings, irrefutable_let, is_irrefutable_let};
use crate::places::{imported_member, literal_callables, opt_scheme, own_place, spanned_error_of};
use crate::schemes::{add_constraint, generalized, in_order, push_constraint};
use crate::state::{Infer, InferV};
use crate::steps::{failed_at, passed_on, resolved};
use crate::subst::{clone_indexes, TypeLevel};
use crate::tables::{sorted_names, NameMap, NameSet};
use crate::text::{contains_string, join, join_strings, str_eq, strings_view};
use crate::ty::{clone_constraints, constraint_view, constraints_view, immutable_info};
use crate::ty::{mono_scheme, ty_view, BindingCapabilities, ConstraintV, EnvInfo, EnvInfoV, Scheme};
use crate::ty::{SchemeV, TraitConstraint, Ty, TyV, TyVar};
use crate::ty_helpers::{arrow_place, arrow_place_text, constraint_mentions_any_var, mentions_any};
use crate::type_syntax::{dict_indexes, select_types, selected, trait_arg_keys};
use crate::type_syntax::{trait_dict_indexes, trait_impl_arg_keys_from_ast, written_type};
use crate::type_syntax::written_type_for_error;
use crate::unify::error_of;
use crate::vars::{free_type_vars, free_vars, list_vars};

verus! {

broadcast use vstd::std_specs::hash::group_hash_axioms;

// ---------------------------------------------------------------------------
// Let
// ---------------------------------------------------------------------------

/// Whether one of the constraints from `start` on speaks of these variables.
pub open spec fn captured(st: InferV, vars: Set<TyVar>, start: nat) -> bool {
    exists|i: int|
        start <= i < st.pending.len() && mentions_any(st.subst.map, #[trigger] st.pending[i], vars)
}

/// The variables of `ty` that are not among `before`, quantified.
pub open spec fn closed_over(ty: TyV, before: Set<TyVar>) -> SchemeV {
    SchemeV {
        vars: in_order(free_vars(ty).difference(before)),
        constraints: Seq::empty(),
        ty,
    }
}

/// Quantifies the types of names, from the one at `i` on.
pub open spec fn quantify_names(
    st: InferV,
    env: EnvV,
    names: Seq<Seq<char>>,
    i: nat,
    before: Set<TyVar>,
) -> EnvV
    decreases names.len() - i,
{
    if i >= names.len() {
        env
    } else {
        let name = names[i as int];
        quantify_names(
            st,
            if env.dom().contains(name) {
                env.insert(
                    name,
                    EnvInfoV {
                        binding_mutable: env[name].binding_mutable,
                        ..immutable_info(
                            closed_over(resolved(st, env[name].scheme.ty), before),
                        )
                    },
                )
            } else {
                env
            },
            names,
            i + 1,
            before,
        )
    }
}

/// How a let is written.
pub struct LetV {
    pub pat: PatternV,
    pub is_mutable: bool,
    pub annotated: bool,
    /// Whether the binding may be quantified.
    pub general: bool,
    pub ambient: TypeLevel,
    /// The variables of the environment before the value was checked.
    pub before: Set<TyVar>,
    /// How many constraints were left to settle before the value was checked.
    pub start: nat,
}

/// The scheme of a name that is bound to a value.
pub open spec fn let_scheme(st: InferV, l: LetV, value: ExprV, ty: TyV, keeps: bool) -> SchemeV {
    match imported_member(st, value) {
        Some(s) => if !l.is_mutable && !l.annotated {
            s
        } else if keeps {
            mono_scheme(ty)
        } else {
            generalized(st, ty, l.ambient)
        },
        None => if keeps {
            mono_scheme(ty)
        } else {
            generalized(st, ty, l.ambient)
        },
    }
}

/// What a name is bound to beyond its type: a module, or a record of callables.
pub open spec fn let_origin(st: InferV, name: Seq<char>, value: ExprV) -> InferV {
    match value.kind {
        ExprKindV::Import(path) => InferV {
            import_bindings: st.import_bindings.insert(name, path),
            ..st
        },
        _ => match literal_callables(st, value) {
            Some(fields) => InferV {
                field_callables: st.field_callables.insert(name, fields),
                ..st
            },
            None => match value.kind {
                ExprKindV::Ident(source) => if st.field_callables.dom().contains(source) {
                    InferV {
                        field_callables: st.field_callables.insert(
                            name,
                            st.field_callables[source],
                        ),
                        ..st
                    }
                } else {
                    st
                },
                _ => st,
            },
        },
    }
}

/// What a let leads to.
pub struct BoundV {
    pub st: InferV,
    pub env: EnvV,
    pub err: Option<SpannedV>,
}

/// Binds the value of a let once its type is known. A value whose constraints speak
/// of variables of the environment is not quantified.
#[verifier::opaque]
pub open spec fn let_end(st: InferV, env: EnvV, l: LetV, value: ExprV, ty: TyV) -> BoundV {
    let keeps = !l.general || captured(st, env_free_vars(st.subst.map, env), l.start);
    if !irrefutable_let(l.pat, st.variants) {
        BoundV { st, env, err: Some(error_at(TypeErrorV::RefutableLetPattern, value.span)) }
    } else {
        match l.pat {
            PatternV::Variable(name, span) => {
                let st1 = with_binding(st, span, ty);
                let scheme = let_scheme(st1, l, value, ty, keeps);
                let place = l.is_mutable && own_place(st1, value);
                let st2 = with_capability(st1, span, place);
                BoundV {
                    st: let_origin(st2, name, value),
                    env: env.insert(
                        name,
                        EnvInfoV {
                            binding_mutable: l.is_mutable,
                            place_mutable: place,
                            ..immutable_info(scheme)
                        },
                    ),
                    err: None,
                }
            },
            _ => {
                let m = match_pattern(st, env, l.pat, ty, l.is_mutable);
                match m.err {
                    Some(e) => BoundV { st: m.st, env: m.env, err: Some(unspanned_error(e)) },
                    None => BoundV {
                        st: m.st,
                        env: if keeps {
                            m.env
                        } else {
                            quantify_names(
                                m.st,
                                m.env,
                                sorted_names(bound_names(l.pat)),
                                0,
                                l.before,
                            )
                        },
                        err: None,
                    },
                }
            },
        }
    }
}

impl Infer {
    fn some_captured(&self, vars: &HashSet<TyVar>, start: usize) -> (r: bool)
        requires
            self.wf(),
        ensures
            r == captured(self@, vars@, start as nat),
    {
        let ghost all = self@.pending;
        let mut i: usize = start;
        while i < self.constraints.pending.len()
            invariant
                start <= i,
                self.wf(),
                all == constraints_view(self.constraints.pending@),
                all == self@.pending,
                forall|j: int|
                    start <= j < i ==> !mentions_any(
                        self@.subst.map,
                        #[trigger] all[j],
                        vars@,
                    ),
            decreases self.constraints.pending.len() - i,
        {
            assert(all[i as int] == constraint_view(self.constraints.pending@[i as int]));
            if constraint_mentions_any_var(&self.constraints.pending[i], vars, &self.subst) {
                return true;
            }
            i = i + 1;
        }
        false
    }

    fn quantify_names(&self, env: &mut TypeEnv, names: &Vec<String>, before: &HashSet<TyVar>)
        requires
            self.wf(),
        ensures
            final(env)@ == quantify_names(
                self@,
                old(env)@,
                strings_view(names@),
                0,
                before@,
            ),
    {
        let ghost all = strings_view(names@);
        let ghost want = quantify_names(self@, env@, all, 0, before@);
        let mut i: usize = 0;
        while i < names.len()
            invariant
                i <= names.len(),
                self.wf(),
                all == strings_view(names@),
                want == quantify_names(self@, env@, all, i as nat, before@),
            decreases names.len() - i,
        {
            assert(all[i as int] == names@[i as int]@);
            let found = match env.get(&names[i]) {
                Some(info) => Some((self.resolve(&info.scheme.ty), info.binding_mutable)),
                None => None,
            };
            match found {
                Some((ty, mutable)) => {
                    let scheme = close_over(ty, before);
                    let info = if mutable {
                        EnvInfo::mutable_binding(scheme)
                    } else {
                        EnvInfo::immutable(scheme)
                    };
                    env.insert(names[i].clone(), info);
                },
                None => {},
            }
            i = i + 1;
        }
    }

    fn let_scheme(&self, l: &LetInfo, value: &Expr, ty: Ty, keeps: bool) -> (r: Scheme)
        requires
            self.wf(),
        ensures
            r@ == let_scheme(self@, l@, value@, ty@, keeps),
    {
        match self.imported_member_scheme_for_expr(value) {
            Some(s) => {
                if !l.is_mutable && !l.annotated {
                    return s;
                }
            },
            None => {},
        }
        if keeps {
            Scheme::mono(ty)
        } else {
            self.generalize_at(&ty, l.ambient)
        }
    }

    fn let_origin(&mut self, name: &String, value: &Expr)
        requires
            old(self).wf(),
        ensures
            final(self).wf(),
            final(self)@ == let_origin(old(self)@, name@, value@),
    {
        if let ExprKind::Import(path) = &value.kind {
            self.imports.bindings.insert(name.clone(), path.clone());
            return;
        }
        match self.record_literal_callable_fields(value) {
            Some(fields) => {
                self.inherent.record_field_callables.insert(name.clone(), fields);
            },
            None => {
                if let ExprKind::Ident(source) = &value.kind {
                    let found = match self.inherent.record_field_callables.get(source) {
                        Some(fields) => Some(fields.clone()),
                        None => None,
                    };
                    if let Some(fields) = found {
                        self.inherent.record_field_callables.insert(name.clone(), fields);
                    }
                }
            },
        }
    }

    /// Binds the value of a let once its type is known.
    pub fn let_end(&mut self, env: &mut TypeEnv, l: &LetInfo, value: &Expr, ty: Ty) -> (r: Result<
        (),
        SpannedTypeError,
    >)
        requires
            old(self).wf(),
        ensures
            final(self).wf(),
            (BoundV { st: final(self)@, env: final(env)@, err: spanned_error_of(r) }) == let_end(
                old(self)@,
                old(env)@,
                l@,
                value@,
                ty@,
            ),
    {
        proof {
            reveal(let_end);
        }
        let keeps = if !l.general {
            true
        } else {
            let vars = env.free_vars(&self.subst);
            self.some_captured(&vars, l.start)
        };
        if !is_irrefutable_let(l.pat, &self.types.variant_env) {
            return Err(TypeError::RefutableLetPattern.at(value.span));
        }
        match l.pat {
            Pattern::Variable(name, span) => {
                self.metadata.record_binding_type(*span, ty.clone());
                let scheme = self.let_scheme(l, value, ty, keeps);
                let place_mutable = l.is_mutable && self.is_fresh_mutable_place_expr(value);
                self.metadata.record_binding_capability(
                    *span,
                    BindingCapabilities { place_mutable },
                );
                self.let_origin(name, value);
                let info = if l.is_mutable {
                    EnvInfo::mutable_binding(scheme).with_place_mutable(place_mutable)
                } else {
                    EnvInfo::immutable(scheme)
                };
                env.insert(name.clone(), info);
                Ok(())
            },
            _ => {
                match self.check_pattern(l.pat, ty, env, l.is_mutable) {
                    Err(e) => {
                        return Err(e.unspanned());
                    },
                    Ok(_) => {},
                }
                if !keeps {
                    let mut bound = NameSet::new();
                    insert_pattern_bindings(&mut bound, l.pat);
                    assert(bound@ =~= bound_names(l.pat@));
                    let names = bound.names();
                    self.quantify_names(env, &names, &l.before);
                }
                Ok(())
            },
        }
    }
}

/// How a let is written.
pub struct LetInfo<'a> {
    pub pat: &'a Pattern,
    pub is_mutable: bool,
    pub annotated: bool,
    pub general: bool,
    pub ambient: TypeLevel,
    pub before: HashSet<TyVar>,
    pub start: usize,
}

impl<'a> View for LetInfo<'a> {
    type V = LetV;

    open spec fn view(&self) -> LetV {
        LetV {
            pat: self.pat@,
            is_mutable: self.is_mutable,
            annotated: self.annotated,
            general: self.general,
            ambient: self.ambient,
            before: self.before@,
            start: self.start as nat,
        }
    }
}

fn close_over(ty: Ty, before: &HashSet<TyVar>) -> (r: Scheme)
    ensures
        r@ == closed_over(ty@, before@),
{
    let vars = crate::schemes::sorted_difference(&free_type_vars(&ty), before);
    let r = Scheme { vars, constraints: Vec::new(), ty };
    assert(constraints_view(r.constraints@) =~= Seq::empty());
    r
}

// ---------------------------------------------------------------------------
// Implementations of traits
// ---------------------------------------------------------------------------

/// Whether a written type applies a type variable.
pub open spec fn applies_var(ty: TypeV, name: Seq<char>) -> bool
    decreases ty,
{
    match ty {
        TypeV::App(con, args) => *con == TypeV::Var(name) || applies_var(*con, name)
            || some_applies_var(args, name),
        TypeV::Func(ps, ret) => some_param_applies_var(ps, name) || applies_var(*ret.ty, name),
        TypeV::Tuple(items) => some_applies_var(items, name),
        TypeV::Record(fields, _) => some_field_applies_var(fields, name),
        _ => false,
    }
}

pub open spec fn some_applies_var(s: Seq<TypeV>, name: Seq<char>) -> bool
    decreases s,
{
    exists|i: int| 0 <= i < s.len() && applies_var(#[trigger] s[i], name)
}

pub open spec fn some_param_applies_var(s: Seq<TypeParamV>, name: Seq<char>) -> bool
    decreases s,
{
    exists|i: int| 0 <= i < s.len() && applies_var((#[trigger] s[i]).ty, name)
}

pub open spec fn some_field_applies_var(s: Seq<NamedTypeV>, name: Seq<char>) -> bool
    decreases s,
{
    exists|i: int| 0 <= i < s.len() && applies_var((#[trigger] s[i]).ty, name)
}

fn is_type_var(ty: &Type, name: &str) -> (r: bool)
    ensures
        r == (ty@ == TypeV::Var(name@)),
{
    match ty {
        Type::Var(n) => str_eq(n, name),
        _ => false,
    }
}

fn type_uses_var_as_constructor(ty: &Type, name: &str) -> (r: bool)
    ensures
        r == applies_var(ty@, name@),
    decreases *ty,
{
    match ty {
        Type::App(con, args) => is_type_var(con, name) || type_uses_var_as_constructor(con, name)
            || any_applies_var(args, name),
        Type::Func(ps, ret) => {
            assert(type_return_view(*ret).ty == Box::new(type_view(*ret.ty)));
            any_param_applies_var(ps, name) || type_uses_var_as_constructor(&ret.ty, name)
        },
        Type::Tuple(items) => any_applies_var(items, name),
        Type::Record(fields, _) => any_field_applies_var(fields, name),
        _ => false,
    }
}

fn any_applies_var(s: &Vec<Type>, name: &str) -> (r: bool)
    ensures
        r == some_applies_var(types_view(s@), name@),
    decreases s@,
{
    let ghost all = types_view(s@);
    let mut i: usize = 0;
    while i < s.len()
        invariant
            i <= s.len(),
            all == types_view(s@),
            forall|j: int| 0 <= j < i ==> !(applies_var(#[trigger] all[j], name@)),
        decreases s.len() - i,
    {
        assert(all[i as int] == type_view(s@[i as int]));
        assert(decreases_to!(s@ => s@[i as int]));
        if type_uses_var_as_constructor(&s[i], name) {
            return true;
        }
        i = i + 1;
    }
    false
}

fn any_param_applies_var(s: &Vec<TypeParam>, name: &str) -> (r: bool)
    ensures
        r == some_param_applies_var(type_params_view(s@), name@),
    decreases s@,
{
    let ghost all = type_params_view(s@);
    let mut i: usize = 0;
    while i < s.len()
        invariant
            i <= s.len(),
            all == type_params_view(s@),
            forall|j: int| 0 <= j < i ==> !(applies_var((#[trigger] all[j]).ty, name@)),
        decreases s.len() - i,
    {
        assert(all[i as int] == type_param_view(s@[i as int]));
        assert(decreases_to!(s@ => s@[i as int]));
        assert(decreases_to!(s@[i as int] => s@[i as int].ty));
        if type_uses_var_as_constructor(&s[i].ty, name) {
            return true;
        }
        i = i + 1;
    }
    false
}

fn any_field_applies_var(s: &Vec<NamedType>, name: &str) -> (r: bool)
    ensures
        r == some_field_applies_var(named_types_view(s@), name@),
    decreases s@,
{
    let ghost all = named_types_view(s@);
    let mut i: usize = 0;
    while i < s.len()
        invariant
            i <= s.len(),
            all == named_types_view(s@),
            forall|j: int| 0 <= j < i ==> !(applies_var((#[trigger] all[j]).ty, name@)),
        decreases s.len() - i,
    {
        assert(all[i as int] == named_type_view(s@[i as int]));
        assert(decreases_to!(s@ => s@[i as int]));
        assert(decreases_to!(s@[i as int] => s@[i as int].ty));
        if type_uses_var_as_constructor(&s[i].ty, name) {
            return true;
        }
        i = i + 1;
    }
    false
}

/// Whether a written type has a hole anywhere.
pub open spec fn hole_in(ty: TypeV) -> bool
    decreases ty,
{
    match ty {
        TypeV::Hole => true,
        TypeV::App(con, args) => hole_in(*con) || hole_in_some(args),
        TypeV::Func(ps, ret) => hole_in_some_param(ps) || hole_in(*ret.ty),
        TypeV::Tuple(items) => hole_in_some(items),
        TypeV::Record(fields, _) => hole_in_some_field(fields),
        _ => false,
    }
}

pub open spec fn hole_in_some(s: Seq<TypeV>) -> bool
    decreases s,
{
    exists|i: int| 0 <= i < s.len() && hole_in(#[trigger] s[i])
}

pub open spec fn hole_in_some_param(s: Seq<TypeParamV>) -> bool
    decreases s,
{
    exists|i: int| 0 <= i < s.len() && hole_in((#[trigger] s[i]).ty)
}

pub open spec fn hole_in_some_field(s: Seq<NamedTypeV>) -> bool
    decreases s,
{
    exists|i: int| 0 <= i < s.len() && hole_in((#[trigger] s[i]).ty)
}

fn type_has_hole(ty: &Type) -> (r: bool)
    ensures
        r == hole_in(ty@),
    decreases *ty,
{
    match ty {
        Type::Hole => true,
        Type::App(con, args) => type_has_hole(con) || any_has_hole(args),
        Type::Func(ps, ret) => {
            assert(type_return_view(*ret).ty == Box::new(type_view(*ret.ty)));
            any_param_has_hole(ps) || type_has_hole(&ret.ty)
        },
        Type::Tuple(items) => any_has_hole(items),
        Type::Record(fields, _) => any_field_has_hole(fields),
        _ => false,
    }
}

fn any_has_hole(s: &Vec<Type>) -> (r: bool)
    ensures
        r == hole_in_some(types_view(s@)),
    decreases s@,
{
    let ghost all = types_view(s@);
    let mut i: usize = 0;
    while i < s.len()
        invariant
            i <= s.len(),
            all == types_view(s@),
            forall|j: int| 0 <= j < i ==> !(hole_in(#[trigger] all[j])),
        decreases s.len() - i,
    {
        assert(all[i as int] == type_view(s@[i as int]));
        assert(decreases_to!(s@ => s@[i as int]));
        if type_has_hole(&s[i]) {
            return true;
        }
        i = i + 1;
    }
    false
}

fn any_param_has_hole(s: &Vec<TypeParam>) -> (r: bool)
    ensures
        r == hole_in_some_param(type_params_view(s@)),
    decreases s@,
{
    let ghost all = type_params_view(s@);
    let mut i: usize = 0;
    while i < s.len()
        invariant
            i <= s.len(),
            all == type_params_view(s@),
            forall|j: int| 0 <= j < i ==> !(hole_in((#[trigger] all[j]).ty)),
        decreases s.len() - i,
    {
        assert(all[i as int] == type_param_view(s@[i as int]));
        assert(decreases_to!(s@ => s@[i as int]));
        assert(decreases_to!(s@[i as int] => s@[i as int].ty));
        if type_has_hole(&s[i].ty) {
            return true;
        }
        i = i + 1;
    }
    false
}

fn any_field_has_hole(s: &Vec<NamedType>) -> (r: bool)
    ensures
        r == hole_in_some_field(named_types_view(s@)),
    decreases s@,
{
    let ghost all = named_types_view(s@);
    let mut i: usize = 0;
    while i < s.len()
        invariant
            i <= s.len(),
            all == named_types_view(s@),
            forall|j: int| 0 <= j < i ==> !(hole_in((#[trigger] all[j]).ty)),
        decreases s.len() - i,
    {
        assert(all[i as int] == named_type_view(s@[i as int]));
        assert(decreases_to!(s@ => s@[i as int]));
        assert(decreases_to!(s@[i as int] => s@[i as int].ty));
        if type_has_hole(&s[i].ty) {
            return true;
        }
        i = i + 1;
    }
    false
}

/// The type variables that a written type mentions.
pub open spec fn type_var_names(ty: TypeV) -> Set<Seq<char>> {
    Set::new(|n: Seq<char>| crate::ty_helpers::names_var(ty, n))
}

/// Adds the type variables that a written type mentions.
fn collect_type_vars(ty: &Type, vars: &mut NameSet)
    ensures
        final(vars)@ == old(vars)@.union(type_var_names(ty@)),
    decreases *ty,
{
    let ghost start = vars@;
    match ty {
        Type::Var(n) => {
            vars.insert(n.clone());
        },
        Type::App(con, args) => {
            collect_type_vars(con, vars);
            collect_types_vars(args, vars);
        },
        Type::Func(ps, ret) => {
            assert(type_return_view(*ret).ty == Box::new(type_view(*ret.ty)));
            collect_params_vars(ps, vars);
            collect_type_vars(&ret.ty, vars);
        },
        Type::Tuple(items) => {
            collect_types_vars(items, vars);
        },
        Type::Record(fields, _) => {
            collect_fields_vars(fields, vars);
        },
        _ => {},
    }
    assert(vars@ =~= start.union(type_var_names(ty@)));
}

fn collect_types_vars(s: &Vec<Type>, vars: &mut NameSet)
    ensures
        final(vars)@ == old(vars)@.union(
            Set::new(|n: Seq<char>| crate::ty_helpers::some_names_var(types_view(s@), n)),
        ),
    decreases s@,
{
    let ghost start = vars@;
    let ghost all = types_view(s@);
    let mut i: usize = 0;
    while i < s.len()
        invariant
            i <= s.len(),
            all == types_view(s@),
            start == old(vars)@,
            forall|n: Seq<char>| #[trigger]
                vars@.contains(n) <==> start.contains(n) || exists|j: int|
                    0 <= j < i && crate::ty_helpers::names_var(#[trigger] all[j], n),
        decreases s.len() - i,
    {
        assert(all[i as int] == type_view(s@[i as int]));
        assert(decreases_to!(s@ => s@[i as int]));
        let ghost before = vars@;
        collect_type_vars(&s[i], vars);
        assert forall|n: Seq<char>| #[trigger]
            vars@.contains(n) <==> start.contains(n) || exists|j: int|
                0 <= j < i + 1 && crate::ty_helpers::names_var(#[trigger] all[j], n) by {
            if before.contains(n) && !start.contains(n) {
                let j = choose|j: int|
                    0 <= j < i && crate::ty_helpers::names_var(#[trigger] all[j], n);
                assert(0 <= j < i + 1 && crate::ty_helpers::names_var(all[j], n));
            }
            if crate::ty_helpers::names_var(all[i as int], n) {
                assert(0 <= i < i + 1 && crate::ty_helpers::names_var(all[i as int], n));
            }
            if exists|j: int|
                0 <= j < i + 1 && crate::ty_helpers::names_var(#[trigger] all[j], n) {
                let j = choose|j: int|
                    0 <= j < i + 1 && crate::ty_helpers::names_var(#[trigger] all[j], n);
                if j < i {
                    assert(before.contains(n));
                }
            }
        }
        i = i + 1;
    }
    assert(vars@ =~= start.union(
        Set::new(|n: Seq<char>| crate::ty_helpers::some_names_var(all, n)),
    ));
}

fn collect_params_vars(s: &Vec<TypeParam>, vars: &mut NameSet)
    ensures
        final(vars)@ == old(vars)@.union(
            Set::new(|n: Seq<char>| crate::ty_helpers::some_param_names_var(type_params_view(s@), n)),
        ),
    decreases s@,
{
    let ghost start = vars@;
    let ghost all = type_params_view(s@);
    let mut i: usize = 0;
    while i < s.len()
        invariant
            i <= s.len(),
            all == type_params_view(s@),
            start == old(vars)@,
            forall|n: Seq<char>| #[trigger]
                vars@.contains(n) <==> start.contains(n) || exists|j: int|
                    0 <= j < i && crate::ty_helpers::names_var((#[trigger] all[j]).ty, n),
        decreases s.len() - i,
    {
        assert(all[i as int] == type_param_view(s@[i as int]));
        assert(decreases_to!(s@ => s@[i as int]));
        assert(decreases_to!(s@[i as int] => s@[i as int].ty));
        let ghost before = vars@;
        collect_type_vars(&s[i].ty, vars);
        assert forall|n: Seq<char>| #[trigger]
            vars@.contains(n) <==> start.contains(n) || exists|j: int|
                0 <= j < i + 1 && crate::ty_helpers::names_var((#[trigger] all[j]).ty, n) by {
            if before.contains(n) && !start.contains(n) {
                let j = choose|j: int|
                    0 <= j < i && crate::ty_helpers::names_var((#[trigger] all[j]).ty, n);
                assert(0 <= j < i + 1 && crate::ty_helpers::names_var((all[j]).ty, n));
            }
            if crate::ty_helpers::names_var((all[i as int]).ty, n) {
                assert(0 <= i < i + 1 && crate::ty_helpers::names_var((all[i as int]).ty, n));
            }
            if exists|j: int|
                0 <= j < i + 1 && crate::ty_helpers::names_var((#[trigger] all[j]).ty, n) {
                let j = choose|j: int|
                    0 <= j < i + 1 && crate::ty_helpers::names_var((#[trigger] all[j]).ty, n);
                if j < i {
                    assert(before.contains(n));
                }
            }
        }
        i = i + 1;
    }
    assert(vars@ =~= start.union(
        Set::new(|n: Seq<char>| crate::ty_helpers::some_param_names_var(all, n)),
    ));
}

fn collect_fields_vars(s: &Vec<NamedType>, vars: &mut NameSet)
    ensures
        final(vars)@ == old(vars)@.union(
            Set::new(|n: Seq<char>| crate::ty_helpers::some_field_names_var(named_types_view(s@), n)),
        ),
    decreases s@,
{
    let ghost start = vars@;
    let ghost all = named_types_view(s@);
    let mut i: usize = 0;
    while i < s.len()
        invariant
            i <= s.len(),
            all == named_types_view(s@),
            start == old(vars)@,
            forall|n: Seq<char>| #[trigger]
                vars@.contains(n) <==> start.contains(n) || exists|j: int|
                    0 <= j < i && crate::ty_helpers::names_var((#[trigger] all[j]).ty, n),
        decreases s.len() - i,
    {
        assert(all[i as int] == named_type_view(s@[i as int]));
        assert(decreases_to!(s@ => s@[i as int]));
        assert(decreases_to!(s@[i as int] => s@[i as int].ty));
        let ghost before = vars@;
        collect_type_vars(&s[i].ty, vars);
        assert forall|n: Seq<char>| #[trigger]
            vars@.contains(n) <==> start.contains(n) || exists|j: int|
                0 <= j < i + 1 && crate::ty_helpers::names_var((#[trigger] all[j]).ty, n) by {
            if before.contains(n) && !start.contains(n) {
                let j = choose|j: int|
                    0 <= j < i && crate::ty_helpers::names_var((#[trigger] all[j]).ty, n);
                assert(0 <= j < i + 1 && crate::ty_helpers::names_var((all[j]).ty, n));
            }
            if crate::ty_helpers::names_var((all[i as int]).ty, n) {
                assert(0 <= i < i + 1 && crate::ty_helpers::names_var((all[i as int]).ty, n));
            }
            if exists|j: int|
                0 <= j < i + 1 && crate::ty_helpers::names_var((#[trigger] all[j]).ty, n) {
                let j = choose|j: int|
                    0 <= j < i + 1 && crate::ty_helpers::names_var((#[trigger] all[j]).ty, n);
                if j < i {
                    assert(before.contains(n));
                }
            }
        }
        i = i + 1;
    }
    assert(vars@ =~= start.union(
        Set::new(|n: Seq<char>| crate::ty_helpers::some_field_names_var(all, n)),
    ));
}

/// The type variables that some arguments mention.
pub open spec fn vars_of_args(args: Seq<TypeV>, indexes: Seq<usize>) -> Set<Seq<char>> {
    Set::new(|n: Seq<char>| crate::ty_helpers::some_names_var(selected(args, indexes), n))
}

/// The error of a dependent argument that mentions a variable which the determining
/// arguments do not.
pub open spec fn undetermined(trait_name: Seq<char>, var: Seq<char>) -> TypeErrorV {
    TypeErrorV::FunctionalDependencyViolation {
        trait_name,
        message: "dependent type `"@ + var + "` is not determined by determinant arguments"@,
    }
}

/// The error of the dependents of a functional dependency, from the one at `j` on. The
/// first variable in alphabetical order is named.
pub open spec fn dependents_error(
    trait_name: Seq<char>,
    dep: FundepV,
    args: Seq<TypeV>,
    j: nat,
) -> Option<TypeErrorV>
    decreases dep.dependents.len() - j,
{
    if j >= dep.dependents.len() {
        None
    } else {
        let at = dep.dependents[j as int];
        let open = if at < args.len() {
            sorted_names(
                type_var_names(args[at as int]).difference(vars_of_args(args, dep.determinants)),
            )
        } else {
            Seq::empty()
        };
        if open.len() > 0 {
            Some(undetermined(trait_name, open[0]))
        } else {
            dependents_error(trait_name, dep, args, j + 1)
        }
    }
}

/// The error of arguments that functional dependencies do not allow, from the one at
/// `i` on.
pub open spec fn coverage_error(
    trait_name: Seq<char>,
    deps: Seq<FundepV>,
    args: Seq<TypeV>,
    i: nat,
) -> Option<TypeErrorV>
    decreases deps.len() - i,
{
    if i >= deps.len() {
        None
    } else {
        match dependents_error(trait_name, deps[i as int], args, 0) {
            Some(e) => Some(e),
            None => coverage_error(trait_name, deps, args, i + 1),
        }
    }
}

/// The error of an optional error.
pub open spec fn some_error(r: Option<TypeError>) -> Option<TypeErrorV> {
    match r {
        Some(e) => Some(e@),
        None => None,
    }
}

fn check_dependents(trait_name: &String, dep: &Fundep, args: &Vec<Type>) -> (r: Option<TypeError>)
    ensures
        some_error(r) == dependents_error(trait_name@, dep@, types_view(args@), 0),
{
    let ghost argv = types_view(args@);
    let chosen = select_types(args, &dep.determinants);
    let mut determined = NameSet::new();
    collect_types_vars(&chosen, &mut determined);
    assert(determined@ =~= vars_of_args(argv, dep@.determinants));
    let mut j: usize = 0;
    while j < dep.dependents.len()
        invariant
            j <= dep.dependents.len(),
            argv == types_view(args@),
            argv.len() == args@.len(),
            determined@ == vars_of_args(argv, dep@.determinants),
            dep@ == fundep_view(*dep),
            dependents_error(trait_name@, dep@, argv, 0) == dependents_error(
                trait_name@,
                dep@,
                argv,
                j as nat,
            ),
        decreases dep.dependents.len() - j,
    {
        let at: usize = dep.dependents[j];
        if at < args.len() {
            assert(argv[at as int] == type_view(args@[at as int]));
            let mut open = NameSet::new();
            collect_type_vars(&args[at], &mut open);
            open.remove_all(&determined);
            assert(open@ =~= type_var_names(argv[at as int]).difference(
                vars_of_args(argv, dep@.determinants),
            ));
            let names = open.names();
            if names.len() > 0 {
                assert(strings_view(names@)[0] == names@[0]@);
                let mut message = "dependent type `".to_owned();
                message.append(&names[0]);
                message.append("` is not determined by determinant arguments");
                return Some(
                    TypeError::FunctionalDependencyViolation {
                        trait_name: trait_name.clone(),
                        message,
                    },
                );
            }
        }
        j = j + 1;
    }
    None
}

fn validate_fundep_coverage(def: &TraitDef, args: &Vec<Type>) -> (r: Option<TypeError>)
    ensures
        some_error(r) == coverage_error(def@.name, def@.fundeps, types_view(args@), 0),
{
    let ghost all = fundeps_view(def.fundeps@);
    let ghost argv = types_view(args@);
    let mut i: usize = 0;
    while i < def.fundeps.len()
        invariant
            i <= def.fundeps.len(),
            all == fundeps_view(def.fundeps@),
            all.len() == def.fundeps@.len(),
            argv == types_view(args@),
            coverage_error(def@.name, all, argv, 0) == coverage_error(
                def@.name,
                all,
                argv,
                i as nat,
            ),
        decreases def.fundeps.len() - i,
    {
        assert(all[i as int] == fundep_view(def.fundeps@[i as int]));
        match check_dependents(&def.name, &def.fundeps[i], args) {
            Some(e) => {
                return Some(e);
            },
            None => {},
        }
        i = i + 1;
    }
    None
}

/// Whether a trait applies its parameter to arguments.
pub open spec fn is_higher_kinded(def: TraitDefV) -> bool {
    def.params.len() > 0 && exists|i: int|
        0 <= i < def.methods.len() && applies_in_method(#[trigger] def.methods[i], def.params[0])
}

/// Whether a method applies a type variable to arguments.
pub open spec fn applies_in_method(m: TraitMethodV, param: Seq<char>) -> bool {
    some_field_applies_var(m.params, param) || applies_var(m.ret_type, param)
}

fn trait_uses_param_as_constructor(def: &TraitDef) -> (r: bool)
    ensures
        r == is_higher_kinded(def@),
{
    assert(def@.params.len() == def.params@.len());
    if def.params.len() == 0 {
        return false;
    }
    assert(def@.params[0] == def.params@[0]@);
    let ghost all = trait_methods_view(def.methods@);
    let mut i: usize = 0;
    while i < def.methods.len()
        invariant
            i <= def.methods.len(),
            def.params@.len() > 0,
            def@.params[0] == def.params@[0]@,
            all == trait_methods_view(def.methods@),
            all == def@.methods,
            forall|j: int| 0 <= j < i ==> !applies_in_method(#[trigger] all[j], def@.params[0]),
        decreases def.methods.len() - i,
    {
        assert(all[i as int] == trait_method_view(def.methods@[i as int]));
        if any_field_applies_var(&def.methods[i].params, &def.params[0])
            || type_uses_var_as_constructor(&def.methods[i].ret_type, &def.params[0]) {
            assert(applies_in_method(all[i as int], def@.params[0]));
            return true;
        }
        i = i + 1;
    }
    false
}

/// The error of the head of an implementation: of its arguments or its arrow.
#[verifier::opaque]
pub open spec fn impl_head_error(st: InferV, id: ImplDefV) -> Option<SpannedV> {
    if !st.traits.dom().contains(id.trait_name) {
        Some(unspanned_error(TypeErrorV::UnknownTrait(id.trait_name)))
    } else {
        let def = st.traits[id.trait_name];
        if id.trait_args.len() != def.params.len() {
            Some(
                error_at(
                    TypeErrorV::TraitArityMismatch {
                        trait_name: id.trait_name,
                        expected: def.params.len() as usize,
                        got: id.trait_args.len() as usize,
                    },
                    id.span,
                ),
            )
        } else if def.fundeps.len() > 0 {
            let n = def.fundeps[0].determinants.len();
            if id.fundep_arrow_index is Some && id.fundep_arrow_index->Some_0 == n {
                None
            } else {
                Some(
                    error_at(
                        TypeErrorV::InvalidTraitImplHead {
                            trait_name: id.trait_name,
                            message: arrow_place("fundep trait impls must place `->` after "@, n),
                        },
                        id.span,
                    ),
                )
            }
        } else if id.fundep_arrow_index is Some {
            Some(
                error_at(
                    TypeErrorV::InvalidTraitImplHead {
                        trait_name: id.trait_name,
                        message: "`->` is only valid when the trait declares a functional dependency"@,
                    },
                    id.span,
                ),
            )
        } else {
            None
        }
    }
}

/// The first method of a trait that an implementation lacks, from the one at `i` on.
pub open spec fn missing_method(ms: Seq<TraitMethodV>, given: Seq<ImplMethodV>, i: nat) -> Option<
    Seq<char>,
>
    decreases ms.len() - i,
{
    if i >= ms.len() {
        None
    } else if has_impl_method(given, ms[i as int].name) {
        missing_method(ms, given, i + 1)
    } else {
        Some(ms[i as int].name)
    }
}

/// Whether an implementation has a method of this name.
pub open spec fn has_impl_method(given: Seq<ImplMethodV>, name: Seq<char>) -> bool {
    exists|i: int| 0 <= i < given.len() && (#[trigger] given[i]).name == name
}

fn impl_method_is(m: &ImplMethod, name: &str) -> (r: bool)
    ensures
        r == (impl_method_view(*m).name == name@),
{
    str_eq(&m.name, name)
}

fn impl_has_method(given: &Vec<ImplMethod>, name: &str) -> (r: bool)
    ensures
        r == has_impl_method(impl_methods_view(given@), name@),
{
    let ghost all = impl_methods_view(given@);
    let mut i: usize = 0;
    while i < given.len()
        invariant
            i <= given.len(),
            all == impl_methods_view(given@),
            forall|j: int| 0 <= j < i ==> (#[trigger] all[j]).name != name@,
        decreases given.len() - i,
    {
        assert(all[i as int] == impl_method_view(given@[i as int]));
        if impl_method_is(&given[i], name) {
            return true;
        }
        i = i + 1;
    }
    false
}

/// The error of the rest of the head of an implementation.
#[verifier::opaque]
pub open spec fn impl_body_error(def: TraitDefV, id: ImplDefV) -> Option<SpannedV> {
    match coverage_error(def.name, def.fundeps, id.trait_args, 0) {
        Some(e) => Some(error_at(e, id.span)),
        None => match trait_arg_keys(selected(id.trait_args, dict_indexes(def))) {
            Err(e) => Some(error_at(e, id.span)),
            Ok(keys) => if def.params.len() == 1 && is_higher_kinded(def) && id.trait_args.len()
                > 0 && id.trait_args[0] is App && !hole_in(id.trait_args[0]) {
                Some(
                    error_at(
                        TypeErrorV::InvalidTraitImplTarget(written_type(id.trait_args[0])),
                        id.span,
                    ),
                )
            } else {
                match missing_method(def.methods, id.methods, 0) {
                    Some(method) => Some(
                        unspanned_error(
                            TypeErrorV::MissingTraitMethod {
                                trait_name: id.trait_name,
                                impl_target: join(keys, ", "@),
                                method,
                            },
                        ),
                    ),
                    None => None,
                }
            },
        },
    }
}

fn find_missing_method<'a>(def: &'a TraitDef, given: &Vec<ImplMethod>) -> (r: Option<&'a String>)
    ensures
        crate::definitions::opt_name(r) == missing_method(
            def@.methods,
            impl_methods_view(given@),
            0,
        ),
{
    let ghost all = trait_methods_view(def.methods@);
    let ghost have = impl_methods_view(given@);
    let mut i: usize = 0;
    while i < def.methods.len()
        invariant
            i <= def.methods.len(),
            all == trait_methods_view(def.methods@),
            all.len() == def.methods@.len(),
            have == impl_methods_view(given@),
            missing_method(all, have, 0) == missing_method(all, have, i as nat),
        decreases def.methods.len() - i,
    {
        assert(all[i as int] == trait_method_view(def.methods@[i as int]));
        if !impl_has_method(given, &def.methods[i].name) {
            return Some(&def.methods[i].name);
        }
        i = i + 1;
    }
    None
}

impl Infer {
    /// Checks the arguments and the arrow of an implementation.
    pub fn check_impl_head(&self, id: &ImplDef) -> (r: Result<TraitDef, SpannedTypeError>)
        ensures
            match impl_head_error(self@, id@) {
                Some(e) => r is Err && r->Err_0@ == e,
                None => r is Ok && self@.traits.dom().contains(id@.trait_name) && r->Ok_0@
                    == self@.traits[id@.trait_name],
            },
    {
        proof {
            reveal(impl_head_error);
        }
        match self.traits.env.get(&id.trait_name) {
            None => Err(TypeError::UnknownTrait(id.trait_name.clone()).unspanned()),
            Some(def) => {
                assert(def@.params.len() == def.params@.len());
                assert(def@.fundeps.len() == def.fundeps@.len());
                assert(id@.trait_args.len() == id.trait_args@.len());
                if id.trait_args.len() != def.params.len() {
                    return Err(
                        TypeError::TraitArityMismatch {
                            trait_name: id.trait_name.clone(),
                            expected: def.params.len(),
                            got: id.trait_args.len(),
                        }.at(id.span),
                    );
                }
                if def.fundeps.len() > 0 {
                    assert(def@.fundeps[0] == fundep_view(def.fundeps@[0]));
                    let n: usize = def.fundeps[0].determinants.len();
                    let fits = match id.fundep_arrow_index {
                        Some(at) => at == n,
                        None => false,
                    };
                    if !fits {
                        return Err(
                            TypeError::InvalidTraitImplHead {
                                trait_name: id.trait_name.clone(),
                                message: arrow_place_text(
                                    "fundep trait impls must place `->` after ",
                                    n,
                                ),
                            }.at(id.span),
                        );
                    }
                } else if id.fundep_arrow_index.is_some() {
                    return Err(
                        TypeError::InvalidTraitImplHead {
                            trait_name: id.trait_name.clone(),
                            message: "`->` is only valid when the trait declares a functional dependency".to_owned(),
                        }.at(id.span),
                    );
                }
                Ok(def.clone())
            },
        }
    }
}

/// Checks the rest of the head of an implementation.
pub fn check_impl_body(def: &TraitDef, id: &ImplDef) -> (r: Result<(), SpannedTypeError>)
    ensures
        spanned_error_of(r) == impl_body_error(def@, id@),
{
    proof {
        reveal(impl_body_error);
    }
    match validate_fundep_coverage(def, &id.trait_args) {
        Some(e) => {
            return Err(e.at(id.span));
        },
        None => {},
    }
    let indexes = trait_dict_indexes(def);
    let chosen = select_types(&id.trait_args, &indexes);
    match trait_impl_arg_keys_from_ast(&chosen) {
        Err(e) => Err(e.at(id.span)),
        Ok(keys) => {
            assert(def@.params.len() == def.params@.len());
            assert(id@.trait_args.len() == id.trait_args@.len());
            if def.params.len() == 1 && id.trait_args.len() > 0 {
                assert(id@.trait_args[0] == type_view(id.trait_args@[0]));
                let applied = match &id.trait_args[0] {
                    Type::App(_, _) => true,
                    _ => false,
                };
                if applied && trait_uses_param_as_constructor(def) && !type_has_hole(
                    &id.trait_args[0],
                ) {
                    return Err(
                        TypeError::InvalidTraitImplTarget(
                            written_type_for_error(&id.trait_args[0]),
                        ).at(id.span),
                    );
                }
            }
            match find_missing_method(def, &id.methods) {
                Some(method) => Err(
                    TypeError::MissingTraitMethod {
                        trait_name: id.trait_name.clone(),
                        impl_target: join_strings(&keys, ", "),
                        method: method.clone(),
                    }.unspanned(),
                ),
                None => Ok(()),
            }
        },
    }
}

// ---------------------------------------------------------------------------
// Tests
// ---------------------------------------------------------------------------

/// The result of a test function, if it is one without parameters.
pub open spec fn test_result(ty: TyV) -> Option<TyV>
    decreases ty,
{
    match ty {
        TyV::Qualified(_, inner) => test_result(*inner),
        TyV::Func(ps, ret) => if ps.len() == 0 {
            Some(*ret.ty)
        } else {
            None
        },
        _ => None,
    }
}

fn test_function_return_ty(ty: &Ty) -> (r: Option<Ty>)
    ensures
        crate::ty_helpers::opt_ty(r) == test_result(ty@),
    decreases *ty,
{
    match ty {
        Ty::Qualified(_, inner) => test_function_return_ty(inner),
        Ty::Func(ps, ret) => {
            assert(crate::ty::params_view(ps@).len() == ps@.len());
            assert(crate::ty::return_view(*ret).ty == Box::new(ty_view(*ret.ty)));
            if ps.len() == 0 {
                Some((*ret.ty).clone())
            } else {
                None
            }
        },
        _ => None,
    }
}

/// The error of a test function of the wrong shape.
pub open spec fn test_fn_error(env: EnvV, def: FnDefV) -> Option<SpannedV> {
    if !def.is_test {
        None
    } else if def.params.len() > 0 {
        Some(
            error_at(
                TypeErrorV::InvalidTestFunction {
                    name: def.name,
                    message: "expected no parameters"@,
                },
                def.name_span,
            ),
        )
    } else if env.dom().contains(def.name) && test_result(env[def.name].scheme.ty)
        != Some(TyV::Unit) {
        Some(
            error_at(
                TypeErrorV::InvalidTestFunction {
                    name: def.name,
                    message: "expected return type unit"@,
                },
                def.name_span,
            ),
        )
    } else {
        None
    }
}

/// The first error of test functions of the wrong shape in a statement.
pub open spec fn test_shape(env: EnvV, s: StmtV) -> Option<SpannedV>
    decreases s, 0nat,
{
    match s {
        StmtV::RecBlock { stmts, .. } => test_shapes(env, stmts, 0),
        StmtV::Fn(def) => test_fn_error(env, def),
        _ => None,
    }
}

/// The first error of test functions of the wrong shape, from the statement at `i` on.
pub open spec fn test_shapes(env: EnvV, stmts: Seq<StmtV>, i: nat) -> Option<SpannedV>
    decreases stmts, stmts.len() - i,
{
    if i >= stmts.len() {
        None
    } else {
        match test_shape(env, stmts[i as int]) {
            Some(e) => Some(e),
            None => test_shapes(env, stmts, i + 1),
        }
    }
}

/// Checks the shape of test functions.
pub fn validate_test_stmt_shape(env: &TypeEnv, s: &Stmt) -> (r: Result<(), SpannedTypeError>)
    ensures
        spanned_error_of(r) == test_shape(env@, s@),
    decreases *s, 0nat,
{
    match s {
        Stmt::RecBlock { stmts, .. } => validate_test_shapes(env, stmts),
        Stmt::Fn(def) => {
            assert(s@ == StmtV::Fn(fn_def_view(*def)));
            if !def.is_test {
                return Ok(());
            }
            assert(def@.params.len() == def.params@.len());
            if def.params.len() > 0 {
                return Err(
                    TypeError::InvalidTestFunction {
                        name: def.name.clone(),
                        message: "expected no parameters".to_owned(),
                    }.at(def.name_span),
                );
            }
            match env.get(&def.name) {
                None => Ok(()),
                Some(info) => match test_function_return_ty(&info.scheme.ty) {
                    Some(Ty::Unit) => Ok(()),
                    _ => Err(
                        TypeError::InvalidTestFunction {
                            name: def.name.clone(),
                            message: "expected return type unit".to_owned(),
                        }.at(def.name_span),
                    ),
                },
            }
        },
        _ => Ok(()),
    }
}

fn validate_test_shapes(env: &TypeEnv, stmts: &Vec<Stmt>) -> (r: Result<(), SpannedTypeError>)
    ensures
        spanned_error_of(r) == test_shapes(env@, stmts_view(stmts@), 0),
    decreases stmts@, 0nat,
{
    let ghost all = stmts_view(stmts@);
    let mut i: usize = 0;
    while i < stmts.len()
        invariant
            i <= stmts.len(),
            all == stmts_view(stmts@),
            all.len() == stmts@.len(),
            test_shapes(env@, all, 0) == test_shapes(env@, all, i as nat),
        decreases stmts.len() - i,
    {
        assert(all[i as int] == stmt_view(stmts@[i as int]));
        assert(decreases_to!(stmts@ => stmts@[i as int]));
        match validate_test_stmt_shape(env, &stmts[i]) {
            Err(e) => {
                return Err(e);
            },
            Ok(_) => {},
        }
        i = i + 1;
    }
    Ok(())
}

// ---------------------------------------------------------------------------
// Recursive groups
// ---------------------------------------------------------------------------

/// The error of a group whose statements are no functions of different names, from
/// the one at `i` on.
pub open spec fn group_error(stmts: Seq<StmtV>, i: nat, seen: Set<Seq<char>>) -> Option<SpannedV>
    decreases stmts.len() - i,
{
    if i >= stmts.len() {
        None
    } else {
        match stmts[i as int] {
            StmtV::Fn(def) => if seen.contains(def.name) {
                Some(error_at(TypeErrorV::DuplicateFunctionInGroup(def.name), def.name_span))
            } else {
                group_error(stmts, i + 1, seen.insert(def.name))
            },
            other => Some(
                error_at(TypeErrorV::NotAFunction(TyV::Unit), crate::ast::stmt_span(other)),
            ),
        }
    }
}

/// Whether all statements are functions.
pub open spec fn all_functions(stmts: Seq<StmtV>) -> bool {
    forall|i: int| 0 <= i < stmts.len() ==> #[trigger] stmts[i] is Fn
}

pub fn validate_rec_group_function_names(stmts: &Vec<Stmt>) -> (r: Result<(), SpannedTypeError>)
    ensures
        spanned_error_of(r) == group_error(stmts_view(stmts@), 0, Set::empty()),
        r is Ok ==> all_functions(stmts_view(stmts@)),
{
    let ghost all = stmts_view(stmts@);
    let mut seen = NameSet::new();
    let mut i: usize = 0;
    while i < stmts.len()
        invariant
            i <= stmts.len(),
            all == stmts_view(stmts@),
            all.len() == stmts@.len(),
            forall|j: int| 0 <= j < i ==> #[trigger] all[j] is Fn,
            group_error(all, 0, Set::empty()) == group_error(all, i as nat, seen@),
        decreases stmts.len() - i,
    {
        assert(all[i as int] == stmt_view(stmts@[i as int]));
        match &stmts[i] {
            Stmt::Fn(def) => {
                if !seen.insert(def.name.clone()) {
                    return Err(
                        TypeError::DuplicateFunctionInGroup(def.name.clone()).at(def.name_span),
                    );
                }
            },
            other => {
                return Err(TypeError::NotAFunction(Ty::Unit).at(other.span()));
            },
        }
        i = i + 1;
    }
    Ok(())
}

/// Constraints with more of them, from the one at `i` on, each once.
pub open spec fn add_all(cs: Seq<ConstraintV>, more: Seq<ConstraintV>, i: nat) -> Seq<ConstraintV>
    decreases more.len() - i,
{
    if i >= more.len() {
        cs
    } else {
        add_all(add_constraint(cs, more[i as int]), more, i + 1)
    }
}

/// A caller takes over the constraints of what it calls, from the function at `j` on.
pub open spec fn take_over(
    cs: Seq<Seq<ConstraintV>>,
    caller: int,
    targets: Set<usize>,
    j: nat,
) -> Seq<Seq<ConstraintV>>
    decreases cs.len() - j,
{
    if j >= cs.len() || !(0 <= caller < cs.len()) {
        cs
    } else if targets.contains(j as usize) {
        take_over(
            cs.update(caller, add_all(cs[caller], cs[j as int], 0)),
            caller,
            targets,
            j + 1,
        )
    } else {
        take_over(cs, caller, targets, j + 1)
    }
}

/// Each caller takes over the constraints of what it calls, from the one at `i` on.
pub open spec fn round(cs: Seq<Seq<ConstraintV>>, targets: Seq<Set<usize>>, i: nat) -> Seq<
    Seq<ConstraintV>,
>
    decreases cs.len() - i,
    via round_terminates
{
    if i >= cs.len() {
        cs
    } else {
        round(take_over(cs, i as int, targets[i as int], 0), targets, i + 1)
    }
}

#[via_fn]
proof fn round_terminates(cs: Seq<Seq<ConstraintV>>, targets: Seq<Set<usize>>, i: nat) {
    if i < cs.len() {
        lemma_take_over_len(cs, i as int, targets[i as int], 0);
    }
}

proof fn lemma_take_over_len(cs: Seq<Seq<ConstraintV>>, caller: int, targets: Set<usize>, j: nat)
    ensures
        take_over(cs, caller, targets, j).len() == cs.len(),
    decreases cs.len() - j,
{
    if j < cs.len() && 0 <= caller < cs.len() {
        if targets.contains(j as usize) {
            lemma_take_over_len(
                cs.update(caller, add_all(cs[caller], cs[j as int], 0)),
                caller,
                targets,
                j + 1,
            );
        } else {
            lemma_take_over_len(cs, caller, targets, j + 1);
        }
    }
}

/// How often constraints are passed on at most.
pub const MAX_ROUNDS: u64 = 0xffff_ffff_ffff_ffff;

/// Constraints passed on to callers until nothing changes.
pub open spec fn propagate(cs: Seq<Seq<ConstraintV>>, targets: Seq<Set<usize>>, left: nat) -> Seq<
    Seq<ConstraintV>,
>
    decreases left,
{
    let next = round(cs, targets, 0);
    if left == 0 || next == cs {
        cs
    } else {
        propagate(next, targets, (left - 1) as nat)
    }
}

/// The positions of the functions of a group.
pub open spec fn group_indexes(infos: Seq<RecInfoV>) -> Map<Seq<char>, usize>
    decreases infos.len(),
{
    if infos.len() == 0 {
        Map::empty()
    } else {
        group_indexes(infos.drop_last()).insert(infos.last().name, (infos.len() - 1) as usize)
    }
}

/// What the functions of a group call.
pub open spec fn group_targets(stmts: Seq<StmtV>, indexes: Map<Seq<char>, usize>) -> Seq<
    Set<usize>,
> {
    Seq::new(
        stmts.len(),
        |i: int|
            match stmts[i] {
                StmtV::Fn(def) => calls_in(Set::empty(), def.body, indexes),
                _ => Set::empty(),
            },
    )
}

/// The constraints of the functions of a group, with those of what they call.
#[verifier::opaque]
pub open spec fn shared_constraints(
    stmts: Seq<StmtV>,
    infos: Seq<RecInfoV>,
    cs: Seq<Seq<ConstraintV>>,
) -> Seq<Seq<ConstraintV>> {
    propagate(cs, group_targets(stmts, group_indexes(infos)), MAX_ROUNDS as nat)
}

/// The views of lists of constraints.
pub open spec fn lists_view(s: Seq<Vec<TraitConstraint>>) -> Seq<Seq<ConstraintV>> {
    Seq::new(s.len(), |i: int| constraints_view(s[i]@))
}

/// The views of what is known of functions.
pub open spec fn infos_view(s: Seq<RecFnInfo>) -> Seq<RecInfoV> {
    Seq::new(s.len(), |i: int| s[i]@)
}

/// The views of sets.
pub open spec fn sets_view(s: Seq<HashSet<usize>>) -> Seq<Set<usize>> {
    Seq::new(s.len(), |i: int| s[i]@)
}

fn add_all_constraints(cs: &mut Vec<TraitConstraint>, more: &Vec<TraitConstraint>)
    ensures
        constraints_view(final(cs)@) == add_all(
            constraints_view(old(cs)@),
            constraints_view(more@),
            0,
        ),
{
    let ghost all = constraints_view(more@);
    let ghost want = add_all(constraints_view(cs@), all, 0);
    let mut i: usize = 0;
    while i < more.len()
        invariant
            i <= more.len(),
            all == constraints_view(more@),
            all.len() == more@.len(),
            want == add_all(constraints_view(cs@), all, i as nat),
        decreases more.len() - i,
    {
        assert(all[i as int] == constraint_view(more@[i as int]));
        push_constraint(cs, more[i].clone());
        i = i + 1;
    }
}

fn take_over_constraints(cs: &mut Vec<Vec<TraitConstraint>>, caller: usize, targets: &HashSet<usize>)
    requires
        caller < old(cs)@.len(),
    ensures
        final(cs)@.len() == old(cs)@.len(),
        lists_view(final(cs)@) == take_over(
            lists_view(old(cs)@),
            caller as int,
            targets@,
            0,
        ),
{
    let ghost want = take_over(lists_view(cs@), caller as int, targets@, 0);
    let mut j: usize = 0;
    while j < cs.len()
        invariant
            j <= cs.len(),
            caller < cs.len(),
            cs@.len() == old(cs)@.len(),
            want == take_over(lists_view(cs@), caller as int, targets@, j as nat),
        decreases cs.len() - j,
    {
        if targets.contains(&j) {
            let ghost before = lists_view(cs@);
            let callee = clone_constraints(&cs[j]);
            let mut own = clone_constraints(&cs[caller]);
            add_all_constraints(&mut own, &callee);
            let ghost ownv = constraints_view(own@);
            cs.set(caller, own);
            assert(lists_view(cs@) =~= before.update(caller as int, ownv));
        }
        j = j + 1;
    }
}

fn constraint_lists_eq(a: &Vec<Vec<TraitConstraint>>, b: &Vec<Vec<TraitConstraint>>) -> (r: bool)
    requires
        a@.len() == b@.len(),
    ensures
        r == (lists_view(a@) == lists_view(b@)),
{
    let mut i: usize = 0;
    while i < a.len()
        invariant
            i <= a.len(),
            a@.len() == b@.len(),
            forall|j: int| 0 <= j < i ==> lists_view(a@)[j] == lists_view(b@)[j],
        decreases a.len() - i,
    {
        if !crate::ty::constraints_eq(&a[i], &b[i]) {
            assert(lists_view(a@)[i as int] != lists_view(b@)[i as int]);
            return false;
        }
        i = i + 1;
    }
    assert(lists_view(a@) =~= lists_view(b@));
    true
}

fn clone_lists(cs: &Vec<Vec<TraitConstraint>>) -> (r: Vec<Vec<TraitConstraint>>)
    ensures
        lists_view(r@) == lists_view(cs@),
        r@.len() == cs@.len(),
{
    let mut out: Vec<Vec<TraitConstraint>> = Vec::new();
    let mut i: usize = 0;
    while i < cs.len()
        invariant
            i <= cs.len(),
            out@.len() == i,
            forall|j: int|
                0 <= j < i ==> constraints_view((#[trigger] out@[j])@) == constraints_view(
                    cs@[j]@,
                ),
        decreases cs.len() - i,
    {
        out.push(clone_constraints(&cs[i]));
        i = i + 1;
    }
    assert(lists_view(out@) =~= lists_view(cs@));
    out
}

/// What the functions of a group call.
fn collect_rec_block_call_targets(stmts: &Vec<Stmt>, infos: &Vec<RecFnInfo>) -> (r: Vec<
    HashSet<usize>,
>)
    ensures
        sets_view(r@) == group_targets(
            stmts_view(stmts@),
            group_indexes(infos_view(infos@)),
        ),
        r@.len() == stmts@.len(),
{
    let ghost iv = infos_view(infos@);
    let mut indexes: NameMap<usize> = NameMap::new();
    let mut k: usize = 0;
    assert(iv.take(0) =~= Seq::empty());
    while k < infos.len()
        invariant
            k <= infos.len(),
            iv == infos_view(infos@),
            indexes@ == group_indexes(iv.take(k as int)),
        decreases infos.len() - k,
    {
        proof {
            assert(iv.take(k + 1).drop_last() =~= iv.take(k as int));
            assert(iv.take(k + 1).last() == infos@[k as int]@);
        }
        indexes.insert(infos[k].name.clone(), k);
        k = k + 1;
    }
    assert(iv.take(iv.len() as int) =~= iv);
    let ghost all = stmts_view(stmts@);
    let ghost want = group_targets(all, indexes@);
    let mut out: Vec<HashSet<usize>> = Vec::new();
    let mut i: usize = 0;
    while i < stmts.len()
        invariant
            i <= stmts.len(),
            all == stmts_view(stmts@),
            all.len() == stmts@.len(),
            want == group_targets(all, indexes@),
            out@.len() == i,
            forall|j: int| 0 <= j < i ==> (#[trigger] out@[j])@ == want[j],
        decreases stmts.len() - i,
    {
        assert(all[i as int] == stmt_view(stmts@[i as int]));
        let found: HashSet<usize> = match &stmts[i] {
            Stmt::Fn(def) => collect_unshadowed_direct_call_targets(&def.body, &indexes),
            _ => HashSet::new(),
        };
        assert(found@ =~= want[i as int]);
        out.push(found);
        i = i + 1;
    }
    assert(sets_view(out@) =~= want);
    out
}

/// Passes the constraints of the functions of a group on to their callers.
pub fn propagate_rec_block_constraints(
    stmts: &Vec<Stmt>,
    infos: &Vec<RecFnInfo>,
    cs: &mut Vec<Vec<TraitConstraint>>,
)
    requires
        old(cs)@.len() == stmts@.len(),
    ensures
        final(cs)@.len() == old(cs)@.len(),
        lists_view(final(cs)@) == shared_constraints(
            stmts_view(stmts@),
            infos_view(infos@),
            lists_view(old(cs)@),
        ),
{
    proof {
        reveal(shared_constraints);
    }
    let targets = collect_rec_block_call_targets(stmts, infos);
    let ghost ts = sets_view(targets@);
    let ghost want = propagate(lists_view(cs@), ts, MAX_ROUNDS as nat);
    let mut left: u64 = MAX_ROUNDS;
    let mut changed = true;
    while changed && left > 0
        invariant
            cs@.len() == targets@.len(),
            cs@.len() == old(cs)@.len(),
            ts == sets_view(targets@),
            changed ==> want == propagate(lists_view(cs@), ts, left as nat),
            !changed ==> want == lists_view(cs@),
        decreases left,
    {
        let mut next = clone_lists(cs);
        let ghost start = lists_view(next@);
        let mut i: usize = 0;
        while i < next.len()
            invariant
                i <= next.len(),
                next@.len() == targets@.len(),
                ts == sets_view(targets@),
                round(start, ts, 0) == round(lists_view(next@), ts, i as nat),
            decreases next.len() - i,
        {
            assert(ts[i as int] == targets@[i as int]@);
            take_over_constraints(&mut next, i, &targets[i]);
            i = i + 1;
        }
        assert(lists_view(next@) == round(start, ts, 0));
        if constraint_lists_eq(&next, cs) {
            changed = false;
        } else {
            *cs = next;
        }
        left = left - 1;
    }
}

} // verus!
