//! Choosing the dictionaries of trait methods and operators.

use vstd::prelude::*;

use crate::ast::{DictRef, DictTarget, NamedType, PendingDictArg, PendingMethod, ResolvedCallee};
use crate::ast::{StructuralDictRef, TraitDef, TraitMethod, Type};
use crate::ast_view::{dict_ref_view, dict_refs_view, named_type_view, named_types_view};
use crate::ast_view::{pending_dict_arg_view, pending_method_view, resolved_callee_view};
use crate::ast_view::{some_dict_ref_view, structural_dict_ref_view, trait_method_view};
use crate::ast_view::{trait_methods_view, type_view, types_view, DictRefV, NamedTypeV};
use crate::ast_view::{PendingDictArgV, PendingMethodV, ResolvedCalleeV, StructuralDictRefV};
use crate::ast_view::{TraitDefV, TraitMethodV, TypeV};
use crate::convert::{ty_result, tys_result, ConvV, VarNames};
use crate::dict_names::{concrete_name, dict_param_name, dict_ref_concrete_name, param_name};
use crate::dicts::{find_first_dict, first_dict, scheme_of, shown, unify_each, Known};
use crate::env::{EnvV, TypeEnv};
use crate::error::{unspanned_error, SpannedTypeError, SpannedV, TypeError, TypeErrorV};
use crate::schemes::instance;
use crate::state::{fresh, known_of, next_var, Infer, InferV};
use crate::steps::{all_in, all_written, concrete_dict, equate, failed, find_dict, resolved};
use crate::steps::written;
use crate::subst::{clone_indexes, Subst};
use crate::tables::NameMap;
use crate::text::{str_eq, strings_view};
use crate::ty::{clone_tys, constraint_view, constraints_view, ty_view, tys_view};
use crate::ty::{unary_constraint, ConstraintV, Scheme, SchemeV, TraitConstraint, Ty, TyV, TyVar};
use crate::ty_helpers::{determinants_share_var, fresh_named, head_var, names_var, opt_ty};
use crate::ty_helpers::{plain_func, primary_trait_var, primary_var, share_var};
use crate::ty_helpers::{type_contains_var, value_func, variable_trait_target};
use crate::type_syntax::{dict_indexes, field_ty, record_field_ty, target_keys};
use crate::type_syntax::{trait_dict_indexes, trait_impl_target_keys_from_ty};
use crate::unify::{error_of, unify};

verus! {

/// A use of a trait method.
pub enum DispatchV {
    /// The type of the result, and what is called.
    Resolved(TyV, ResolvedCalleeV),
    /// The type of the result, and what is chosen later.
    Pending(TyV, PendingMethodV),
    /// Nothing says which dictionary is meant.
    Unknown,
}

/// A use of a trait method.
pub enum Dispatch {
    Resolved(Ty, ResolvedCallee),
    Pending(Ty, PendingMethod),
    Unknown,
}

impl View for Dispatch {
    type V = DispatchV;

    open spec fn view(&self) -> DispatchV {
        match self {
            Dispatch::Resolved(t, c) => DispatchV::Resolved(t@, resolved_callee_view(*c)),
            Dispatch::Pending(t, p) => DispatchV::Pending(t@, pending_method_view(*p)),
            Dispatch::Unknown => DispatchV::Unknown,
        }
    }
}

/// A dictionary, or what it is chosen by later.
pub enum ChoiceV {
    Resolved(DictRefV),
    Pending(PendingDictArgV),
}

/// A dictionary, or what it is chosen by later.
pub enum DictResolution {
    Resolved(DictRef),
    Pending(PendingDictArg),
}

impl View for DictResolution {
    type V = ChoiceV;

    open spec fn view(&self) -> ChoiceV {
        match self {
            DictResolution::Resolved(d) => ChoiceV::Resolved(dict_ref_view(*d)),
            DictResolution::Pending(p) => ChoiceV::Pending(pending_dict_arg_view(*p)),
        }
    }
}

/// A use or an error.
pub open spec fn dispatch_res(r: Result<Dispatch, SpannedTypeError>) -> Result<
    DispatchV,
    SpannedV,
> {
    match r {
        Ok(d) => Ok(d@),
        Err(e) => Err(e@),
    }
}

/// A choice or an error.
pub open spec fn choice_res(r: Result<DictResolution, TypeError>) -> Result<ChoiceV, TypeErrorV> {
    match r {
        Ok(d) => Ok(d@),
        Err(e) => Err(e@),
    }
}

/// The state with one more constraint to settle.
pub open spec fn with_pending(st: InferV, c: ConstraintV) -> InferV {
    InferV { pending: st.pending.push(c), ..st }
}

/// A dictionary of a trait for a variable that is chosen later.
pub open spec fn pending_unary(var: TyVar, trait_name: Seq<char>) -> PendingDictArgV {
    PendingDictArgV {
        var,
        trait_name,
        args: seq![TyV::Var(var)],
        determinant_indexes: seq![0usize],
    }
}

/// The error of a trait that a type does not implement.
pub open spec fn missing_impl(trait_name: Seq<char>, ty: TyV) -> TypeErrorV {
    TypeErrorV::MissingTraitImpl { trait_name, impl_target: shown(ty) }
}

/// The error of a trait that nothing is known of.
pub open spec fn unresolved(context: Seq<char>, trait_name: Seq<char>) -> TypeErrorV {
    TypeErrorV::UnresolvedTrait { context, trait_name }
}

/// The first method of this name.
pub open spec fn method_named(ms: Seq<TraitMethodV>, name: Seq<char>, i: nat) -> Option<
    TraitMethodV,
>
    decreases ms.len() - i,
{
    if i >= ms.len() {
        None
    } else if ms[i as int].name == name {
        Some(ms[i as int])
    } else {
        method_named(ms, name, i + 1)
    }
}

/// The method of an optional method.
pub open spec fn opt_method(r: Option<&TraitMethod>) -> Option<TraitMethodV> {
    match r {
        Some(m) => Some(m@),
        None => None,
    }
}

pub fn find_trait_method<'a>(def: &'a TraitDef, name: &str) -> (r: Option<&'a TraitMethod>)
    ensures
        opt_method(r) == method_named(def@.methods, name@, 0),
{
    let ghost all = def@.methods;
    let mut i: usize = 0;
    while i < def.methods.len()
        invariant
            i <= def.methods.len(),
            all == trait_methods_view(def.methods@),
            all.len() == def.methods@.len(),
            method_named(all, name@, 0) == method_named(all, name@, i as nat),
        decreases def.methods.len() - i,
    {
        assert(all[i as int] == trait_method_view(def.methods@[i as int]));
        if str_eq(&def.methods[i].name, name) {
            return Some(&def.methods[i]);
        }
        i = i + 1;
    }
    None
}

/// The types of named types.
pub open spec fn types_of(s: Seq<NamedTypeV>) -> Seq<TypeV> {
    Seq::new(s.len(), |i: int| s[i].ty)
}

pub fn method_param_types(method: &TraitMethod) -> (r: Vec<Type>)
    ensures
        types_view(r@) == types_of(method@.params),
        r@.len() == method@.params.len(),
{
    let ghost all = named_types_view(method.params@);
    let mut out: Vec<Type> = Vec::new();
    let mut i: usize = 0;
    while i < method.params.len()
        invariant
            i <= method.params.len(),
            all == named_types_view(method.params@),
            all.len() == method.params@.len(),
            out@.len() == i,
            forall|j: int| 0 <= j < i ==> type_view(#[trigger] out@[j]) == all[j].ty,
        decreases method.params.len() - i,
    {
        assert(all[i as int] == named_type_view(method.params@[i as int]));
        out.push(method.params[i].ty.clone());
        i = i + 1;
    }
    assert(types_view(out@) =~= types_of(all));
    out
}

/// The types of the parameters of a method and of its result.
pub struct MethodTypesV {
    pub st: InferV,
    pub params: Seq<TyV>,
    pub ret: TyV,
    pub err: Option<TypeErrorV>,
}

/// Reads the types of a method among named variables.
#[verifier::opaque]
pub open spec fn method_types(st: InferV, vars: VarNames, params: Seq<TypeV>, ret: TypeV) -> MethodTypesV {
    let ps = all_written(st, vars, params);
    match ps.res {
        Err(e) => MethodTypesV { st: ps.st, params: Seq::empty(), ret: TyV::Unit, err: Some(e) },
        Ok(tys) => {
            let r = written(ps.st, ps.vars, ret);
            match r.res {
                Err(e) => MethodTypesV { st: r.st, params: Seq::empty(), ret: TyV::Unit, err: Some(e) },
                Ok(t) => MethodTypesV { st: r.st, params: tys, ret: t, err: None },
            }
        },
    }
}

/// Makes two lists of types equal, from position `i` on. The second of each pair is
/// named first if `flip` holds.
pub open spec fn equate_each(st: InferV, a: Seq<TyV>, b: Seq<TyV>, i: nat, flip: bool) -> (
    InferV,
    Option<TypeErrorV>,
)
    decreases a.len() - i,
{
    if i >= a.len() || i >= b.len() {
        (st, None)
    } else {
        let u = if flip {
            equate(st, b[i as int], a[i as int])
        } else {
            equate(st, a[i as int], b[i as int])
        };
        if u.1 is Some {
            u
        } else {
            equate_each(u.0, a, b, i + 1, flip)
        }
    }
}

/// Makes two lists of types equal.
#[verifier::opaque]
pub open spec fn equate_all(st: InferV, a: Seq<TyV>, b: Seq<TyV>, flip: bool) -> (
    InferV,
    Option<TypeErrorV>,
) {
    equate_each(st, a, b, 0, flip)
}

/// Checks a call of a method of a known dictionary, if its scheme is known. Gives the
/// type of the result.
#[verifier::opaque]
pub open spec fn check_dict_method(
    st: InferV,
    env: EnvV,
    dict: DictRefV,
    trait_name: Seq<char>,
    method: Seq<char>,
    args: Seq<TyV>,
) -> (InferV, Result<Option<TyV>, TypeErrorV>) {
    match concrete_name(dict) {
        None => (st, Ok(None)),
        Some(name) => match scheme_of(known_of(st, env), name) {
            None => (st, Ok(None)),
            Some(scheme) => {
                let inst = instance(st, scheme);
                match field_ty(resolved(inst.0, inst.1.ty), method) {
                    None => (
                        inst.0,
                        Err(TypeErrorV::UnknownTraitMethod { trait_name, method }),
                    ),
                    Some(method_ty) => {
                        let ret = TyV::Var(next_var(inst.0));
                        let u = equate(fresh(inst.0), method_ty, plain_func(args, ret));
                        match u.1 {
                            Some(e) => (u.0, Err(e)),
                            None => (u.0, Ok(Some(ret))),
                        }
                    },
                }
            },
        },
    }
}

/// Chooses the dictionary of a trait with several parameters.
#[verifier::opaque]
pub open spec fn multi_dispatch(
    st: InferV,
    env: EnvV,
    trait_name: Seq<char>,
    method: Seq<char>,
    args: Seq<TyV>,
    indexes: Seq<usize>,
    method_args: Seq<TyV>,
    ret: TyV,
) -> (InferV, Result<DispatchV, SpannedV>) {
    let f = find_dict(st, env, trait_name, args, indexes);
    match f.1 {
        Some(dict) => {
            let c = check_dict_method(f.0, env, dict, trait_name, method, method_args);
            match c.1 {
                Err(e) => (c.0, failed(e)),
                Ok(checked) => {
                    let u = match checked {
                        Some(t) => equate(c.0, ret, t),
                        None => (c.0, None),
                    };
                    match u.1 {
                        Some(e) => (u.0, failed(e)),
                        None => (
                            u.0,
                            Ok(
                                DispatchV::Resolved(
                                    resolved(u.0, ret),
                                    ResolvedCalleeV::DictMethod { dict, method },
                                ),
                            ),
                        ),
                    }
                },
            }
        },
        None => match primary_var(args, indexes) {
            Some(var) => {
                let after = with_pending(
                    f.0,
                    ConstraintV { var, trait_name, args, determinant_indexes: indexes },
                );
                (
                    after,
                    Ok(
                        DispatchV::Pending(
                            resolved(after, ret),
                            PendingMethodV {
                                pending: PendingDictArgV {
                                    var,
                                    trait_name,
                                    args,
                                    determinant_indexes: indexes,
                                },
                                method,
                            },
                        ),
                    ),
                )
            },
            None => (f.0, Ok(DispatchV::Unknown)),
        },
    }
}

/// The dictionaries by which the items of a tuple are compared, from the one at `i`
/// on.
pub open spec fn eq_items(st: InferV, env: EnvV, items: Seq<TyV>, i: nat, done: Seq<DictRefV>) -> (
    InferV,
    Result<Seq<DictRefV>, TypeErrorV>,
)
    decreases items, items.len() - i,
{
    if i >= items.len() {
        (st, Ok(done))
    } else {
        let d = eq_dict(st, env, items[i as int]);
        match d.1 {
            Err(e) => (d.0, Err(e)),
            Ok(dict) => eq_items(d.0, env, items, i + 1, done.push(dict)),
        }
    }
}

/// The dictionary by which values of a resolved type are compared: tuples item by
/// item, values of open types by one that is given.
pub open spec fn eq_dict(st: InferV, env: EnvV, ty: TyV) -> (InferV, Result<DictRefV, TypeErrorV>)
    decreases ty, 0nat,
{
    match ty {
        TyV::Tuple(items) => {
            let ds = eq_items(st, env, items, 0, Seq::empty());
            match ds.1 {
                Err(e) => (ds.0, Err(e)),
                Ok(args) => (
                    ds.0,
                    Ok(
                        DictRefV::Composed(
                            StructuralDictRefV {
                                trait_name: "Eq"@,
                                target: DictTarget::Tuple(items.len() as usize),
                                args,
                            },
                        ),
                    ),
                ),
            }
        },
        TyV::Var(v) => (
            with_pending(st, unary_constraint(v, "Eq"@)),
            Ok(DictRefV::Param(param_name(unary_constraint(v, "Eq"@)))),
        ),
        _ => if target_keys(ty).len() == 0 {
            (st, Err(missing_impl("Eq"@, ty)))
        } else {
            match concrete_dict(st, env, "Eq"@, ty) {
                Some(d) => (st, Ok(d)),
                None => (st, Err(missing_impl("Eq"@, ty))),
            }
        },
    }
}

/// Chooses the dictionary of a trait for a type.
#[verifier::opaque]
pub open spec fn choose_dict(st: InferV, env: EnvV, trait_name: Seq<char>, target: TyV) -> (
    InferV,
    Result<ChoiceV, TypeErrorV>,
) {
    let ty = resolved(st, target);
    match ty {
        TyV::Var(v) => (
            with_pending(st, unary_constraint(v, trait_name)),
            Ok(ChoiceV::Pending(pending_unary(v, trait_name))),
        ),
        _ => if trait_name == "Eq"@ && ty is Tuple {
            let d = eq_dict(st, env, ty);
            match d.1 {
                Err(e) => (d.0, Err(e)),
                Ok(dict) => (d.0, Ok(ChoiceV::Resolved(dict))),
            }
        } else {
            match concrete_dict(st, env, trait_name, ty) {
                Some(d) => (st, Ok(ChoiceV::Resolved(d))),
                None => (st, Err(missing_impl(trait_name, ty))),
            }
        },
    }
}

/// Chooses the dictionary by which a value is iterated over.
#[verifier::opaque]
pub open spec fn choose_iterable(st: InferV, env: EnvV, target: TyV) -> (
    InferV,
    Result<ChoiceV, TypeErrorV>,
) {
    if target_keys(target).len() == 0 {
        match target {
            TyV::Var(v) => (
                with_pending(st, unary_constraint(v, "Iterable"@)),
                Ok(ChoiceV::Pending(pending_unary(v, "Iterable"@))),
            ),
            _ => (st, Err(unresolved("for loop"@, "Iterable"@))),
        }
    } else {
        match first_dict(known_of(st, env), "Iterable"@, target_keys(target), 0) {
            Some(name) => (st, Ok(ChoiceV::Resolved(DictRefV::Concrete(name)))),
            None => (st, Err(missing_impl("Iterable"@, target))),
        }
    }
}

/// What the arguments of a method say of its result and of the type that its trait
/// is implemented for.
pub struct SignatureV {
    pub st: InferV,
    pub ret: TyV,
    pub target: TyV,
    pub err: Option<TypeErrorV>,
}

/// Holds arguments against the declared signature of a method. The arguments are
/// named first if `args_first` holds.
#[verifier::opaque]
pub open spec fn signature(
    st: InferV,
    def: TraitDefV,
    method: TraitMethodV,
    args: Seq<TyV>,
    args_first: bool,
) -> SignatureV {
    if def.params.len() == 0 {
        SignatureV {
            st,
            ret: TyV::Unit,
            target: TyV::Unit,
            err: Some(
                TypeErrorV::TraitArityMismatch { trait_name: def.name, expected: 1, got: 0 },
            ),
        }
    } else {
        let var = next_var(st);
        let m = method_types(
            fresh(st),
            Map::<Seq<char>, TyVar>::empty().insert(def.params[0], var),
            types_of(method.params),
            method.ret_type,
        );
        match m.err {
            Some(e) => SignatureV { st: m.st, ret: TyV::Unit, target: TyV::Unit, err: Some(e) },
            None => {
                let u = equate_all(m.st, args, m.params, !args_first);
                match u.1 {
                    Some(e) => SignatureV { st: u.0, ret: TyV::Unit, target: TyV::Unit, err: Some(e) },
                    None => SignatureV {
                        st: u.0,
                        ret: m.ret,
                        target: resolved(u.0, TyV::Var(var)),
                        err: None,
                    },
                }
            },
        }
    }
}

/// A use whose dictionary is chosen later, by one variable.
pub open spec fn defer(st: InferV, var: TyVar, trait_name: Seq<char>, method: Seq<char>, ret: TyV) -> (
    InferV,
    Result<DispatchV, SpannedV>,
) {
    let after = with_pending(st, unary_constraint(var, trait_name));
    (
        after,
        Ok(
            DispatchV::Pending(
                resolved(after, ret),
                PendingMethodV { pending: pending_unary(var, trait_name), method },
            ),
        ),
    )
}

/// A call of a method whose first parameter shows the type that the trait is
/// implemented for.
#[verifier::opaque]
pub open spec fn first_arg_call(
    st: InferV,
    env: EnvV,
    def: TraitDefV,
    method: TraitMethodV,
    args: Seq<TyV>,
    context: Seq<char>,
) -> (InferV, Result<DispatchV, SpannedV>) {
    let target = resolved(st, args[0]);
    if target_keys(target).len() == 0 {
        match head_var(target) {
            None => (st, failed(unresolved(context, def.name))),
            Some(v) => {
                let s = signature(st, def, method, args, false);
                match s.err {
                    Some(e) => (s.st, failed(e)),
                    None => match s.target {
                        TyV::Var(w) => defer(s.st, w, def.name, method.name, s.ret),
                        _ => if target_keys(s.target).len() == 0 {
                            (s.st, failed(unresolved(context, def.name)))
                        } else {
                            defer(s.st, v, def.name, method.name, s.ret)
                        },
                    },
                }
            },
        }
    } else {
        match concrete_dict(st, env, def.name, target) {
            None => (st, failed(missing_impl(def.name, target))),
            Some(dict) => {
                let c = check_dict_method(st, env, dict, def.name, method.name, args);
                let callee = ResolvedCalleeV::DictMethod { dict, method: method.name };
                match c.1 {
                    Err(e) => (c.0, failed(e)),
                    Ok(Some(ret)) => (c.0, Ok(DispatchV::Resolved(resolved(c.0, ret), callee))),
                    Ok(None) => {
                        let s = signature(c.0, def, method, args, false);
                        match s.err {
                            Some(e) => (s.st, failed(e)),
                            None => if target_keys(s.target).len() == 0 {
                                (s.st, failed(unresolved(context, def.name)))
                            } else {
                                (s.st, Ok(DispatchV::Resolved(resolved(s.st, s.ret), callee)))
                            },
                        }
                    },
                }
            },
        }
    }
}

/// A call of a method whose trait is implemented for a type that only the context
/// shows.
#[verifier::opaque]
pub open spec fn abstract_call(
    st: InferV,
    env: EnvV,
    def: TraitDefV,
    method: TraitMethodV,
    args: Seq<TyV>,
) -> (InferV, Result<DispatchV, SpannedV>) {
    let s = signature(st, def, method, args, true);
    match s.err {
        Some(e) => (s.st, failed(e)),
        None => if target_keys(s.target).len() == 0 {
            match s.target {
                TyV::Var(v) => defer(s.st, v, def.name, method.name, s.ret),
                _ => (s.st, failed(missing_impl(def.name, s.target))),
            }
        } else {
            match concrete_dict(s.st, env, def.name, s.target) {
                Some(dict) => (
                    s.st,
                    Ok(
                        DispatchV::Resolved(
                            resolved(s.st, s.ret),
                            ResolvedCalleeV::DictMethod { dict, method: method.name },
                        ),
                    ),
                ),
                None => (s.st, failed(missing_impl(def.name, s.target))),
            }
        },
    }
}

/// A call of a method of a trait with several parameters.
#[verifier::opaque]
pub open spec fn multi_call(
    st: InferV,
    env: EnvV,
    def: TraitDefV,
    method: TraitMethodV,
    args: Seq<TyV>,
    context: Seq<char>,
) -> (InferV, Result<DispatchV, SpannedV>) {
    let f = fresh_named(st, def.params, Map::empty());
    let m = method_types(f.st, f.vars, types_of(method.params), method.ret_type);
    match m.err {
        Some(e) => (m.st, failed(e)),
        None => {
            let u = equate_all(m.st, args, m.params, false);
            match u.1 {
                Some(e) => (u.0, failed(e)),
                None => {
                    let d = multi_dispatch(
                        u.0,
                        env,
                        def.name,
                        method.name,
                        all_in(u.0, f.res->Ok_0),
                        dict_indexes(def),
                        args,
                        m.ret,
                    );
                    match d.1 {
                        Ok(DispatchV::Unknown) => (d.0, failed(unresolved(context, def.name))),
                        _ => d,
                    }
                },
            }
        },
    }
}

/// A call of a trait method on arguments of known types.
#[verifier::opaque]
pub open spec fn trait_call(
    st: InferV,
    env: EnvV,
    def: TraitDefV,
    method: TraitMethodV,
    args: Seq<TyV>,
    context: Seq<char>,
) -> (InferV, Result<DispatchV, SpannedV>) {
    if args.len() != method.params.len() {
        (
            st,
            failed(
                TypeErrorV::ArityMismatch {
                    expected: method.params.len() as usize,
                    got: args.len() as usize,
                },
            ),
        )
    } else if def.params.len() > 1 || def.fundeps.len() > 0 {
        multi_call(st, env, def, method, args, context)
    } else if def.params.len() > 0 && method.params.len() > 0 && names_var(
        method.params[0].ty,
        def.params[0],
    ) {
        first_arg_call(st, env, def, method, args, context)
    } else {
        abstract_call(st, env, def, method, args)
    }
}

/// Whether a constraint is a use of a trait on arguments with a determining variable
/// in common.
pub open spec fn may_match(
    m: Map<TyVar, TyV>,
    c: ConstraintV,
    trait_name: Seq<char>,
    args: Seq<TyV>,
    indexes: Seq<usize>,
) -> bool {
    &&& c.trait_name == trait_name
    &&& c.args.len() == args.len()
    &&& c.determinant_indexes == indexes
    &&& share_var(m, c.args, args, indexes)
}

/// Applies the first constraint that fits a use, from the one at `i` on.
pub open spec fn apply_pending_from(
    st: InferV,
    trait_name: Seq<char>,
    args: Seq<TyV>,
    indexes: Seq<usize>,
    i: nat,
) -> InferV
    decreases st.pending.len() - i,
{
    if i >= st.pending.len() {
        st
    } else {
        let c = st.pending[i as int];
        if may_match(st.subst.map, c, trait_name, args, indexes) {
            match unify_each(st.subst, c.args, args, 0) {
                Some(s) => InferV { subst: s, ..st },
                None => apply_pending_from(st, trait_name, args, indexes, i + 1),
            }
        } else {
            apply_pending_from(st, trait_name, args, indexes, i + 1)
        }
    }
}

/// Applies the first constraint that fits a use.
#[verifier::opaque]
pub open spec fn apply_pending(
    st: InferV,
    trait_name: Seq<char>,
    args: Seq<TyV>,
    indexes: Seq<usize>,
) -> InferV {
    apply_pending_from(st, trait_name, args, indexes, 0)
}

fn unary_pending(var: TyVar, trait_name: &str) -> (r: PendingDictArg)
    ensures
        pending_dict_arg_view(r) == pending_unary(var, trait_name@),
{
    let args: Vec<Ty> = vec![Ty::Var(var)];
    let determinant_indexes: Vec<usize> = vec![0];
    assert(tys_view(args@) =~= seq![TyV::Var(var)]);
    assert(determinant_indexes@ =~= seq![0usize]);
    PendingDictArg { var, trait_name: trait_name.to_owned(), args, determinant_indexes }
}

fn missing_impl_error(trait_name: &str, ty: &Ty) -> (r: TypeError)
    ensures
        r@ == missing_impl(trait_name@, ty@),
{
    TypeError::MissingTraitImpl { trait_name: trait_name.to_owned(), impl_target: ty.to_string() }
}

fn unresolved_trait(context: &str, trait_name: &str) -> (r: TypeError)
    ensures
        r@ == unresolved(context@, trait_name@),
{
    TypeError::UnresolvedTrait { context: context.to_owned(), trait_name: trait_name.to_owned() }
}

fn no_parameters(trait_name: &String) -> (r: TypeError)
    ensures
        r@ == (TypeErrorV::TraitArityMismatch { trait_name: trait_name@, expected: 1, got: 0 }),
{
    TypeError::TraitArityMismatch { trait_name: trait_name.clone(), expected: 1, got: 0 }
}

fn dict_method(dict: DictRef, method: &str) -> (r: ResolvedCallee)
    ensures
        resolved_callee_view(r) == (ResolvedCalleeV::DictMethod {
            dict: dict_ref_view(dict),
            method: method@,
        }),
{
    ResolvedCallee::DictMethod { dict, method: method.to_owned() }
}

/// An optional type or an error.
pub open spec fn opt_ty_res(r: Result<Option<Ty>, TypeError>) -> Result<Option<TyV>, TypeErrorV> {
    match r {
        Ok(t) => Ok(opt_ty(t)),
        Err(e) => Err(e@),
    }
}

/// A dictionary or an error.
pub open spec fn dict_res(r: Result<DictRef, TypeError>) -> Result<DictRefV, TypeErrorV> {
    match r {
        Ok(d) => Ok(dict_ref_view(d)),
        Err(e) => Err(e@),
    }
}

/// Dictionaries or an error.
pub open spec fn dicts_res(r: Result<Vec<DictRef>, TypeError>) -> Result<
    Seq<DictRefV>,
    TypeErrorV,
> {
    match r {
        Ok(d) => Ok(dict_refs_view(d@)),
        Err(e) => Err(e@),
    }
}

impl Infer {
    fn push_pending(&mut self, c: TraitConstraint)
        requires
            old(self).wf(),
        ensures
            final(self).wf(),
            final(self)@ == with_pending(old(self)@, c@),
    {
        let ghost before = constraints_view(self.constraints.pending@);
        let ghost cv = c@;
        self.constraints.pending.push(c);
        assert(constraints_view(self.constraints.pending@) =~= before.push(cv));
    }

    /// Reads the types of a method among named variables.
    pub fn method_types(&mut self, params: &Vec<Type>, ret: &Type, vars: &mut NameMap<TyVar>) -> (r:
        Result<(Vec<Ty>, Ty), TypeError>)
        requires
            old(self).wf(),
        ensures
            final(self).wf(),
            ({
                let want = method_types(
                    old(self)@,
                    old(vars)@,
                    types_view(params@),
                    ret@,
                );
                final(self)@ == want.st && match want.err {
                    Some(e) => r is Err && r->Err_0@ == e,
                    None => r is Ok && tys_view(r->Ok_0.0@) == want.params && r->Ok_0.1@
                        == want.ret,
                }
            }),
            r matches Ok(found) ==> found.0@.len() == params@.len(),
    {
        proof {
            reveal(method_types);
        }
        match self.all_written(params, vars) {
            Err(e) => Err(e),
            Ok(tys) => match self.written(ret, vars) {
                Err(e) => Err(e),
                Ok(t) => Ok((tys, t)),
            },
        }
    }

    /// Makes two lists of types equal.
    pub fn equate_all(&mut self, a: &Vec<Ty>, b: &Vec<Ty>, flip: bool) -> (r: Result<
        (),
        TypeError,
    >)
        requires
            old(self).wf(),
        ensures
            final(self).wf(),
            (final(self)@, error_of(r)) == equate_all(
                old(self)@,
                tys_view(a@),
                tys_view(b@),
                flip,
            ),
    {
        let ghost av = tys_view(a@);
        let ghost bv = tys_view(b@);
        let ghost want = equate_all(self@, av, bv, flip);
        let mut i: usize = 0;
        proof {
            reveal(equate_all);
        }
        while i < a.len() && i < b.len()
            invariant
                i <= a.len(),
                i <= b.len(),
                self.wf(),
                av == tys_view(a@),
                bv == tys_view(b@),
                av.len() == a@.len(),
                bv.len() == b@.len(),
                want == equate_all(old(self)@, av, bv, flip),
                want == equate_each(self@, av, bv, i as nat, flip),
            decreases a.len() - i,
        {
            assert(av[i as int] == a@[i as int]@);
            assert(bv[i as int] == b@[i as int]@);
            let step = if flip {
                self.equate(b[i].clone(), a[i].clone())
            } else {
                self.equate(a[i].clone(), b[i].clone())
            };
            match step {
                Err(e) => {
                    return Err(e);
                },
                Ok(_) => {},
            }
            i = i + 1;
        }
        Ok(())
    }

    /// The scheme of a dictionary.
    fn dict_scheme(&self, env: &TypeEnv, name: &str) -> (r: Option<Scheme>)
        ensures
            crate::places::opt_scheme(r) == scheme_of(known_of(self@, env@), name@),
    {
        match env.get(name) {
            Some(info) => Some(info.scheme.clone()),
            None => match self.impls.known_schemes.get(name) {
                Some(s) => Some(s.clone()),
                None => None,
            },
        }
    }

    /// Checks a call of a method of a known dictionary, if its scheme is known.
    pub fn check_dict_method(
        &mut self,
        env: &TypeEnv,
        dict: &DictRef,
        trait_name: &str,
        method: &str,
        args: &Vec<Ty>,
    ) -> (r: Result<Option<Ty>, TypeError>)
        requires
            old(self).wf(),
        ensures
            final(self).wf(),
            (final(self)@, opt_ty_res(r)) == check_dict_method(
                old(self)@,
                env@,
                dict@,
                trait_name@,
                method@,
                tys_view(args@),
            ),
    {
        proof {
            reveal(check_dict_method);
        }
        let name = match dict_ref_concrete_name(dict) {
            None => {
                return Ok(None);
            },
            Some(n) => n,
        };
        let scheme = match self.dict_scheme(env, &name) {
            None => {
                return Ok(None);
            },
            Some(s) => s,
        };
        let inst = self.instantiate_scheme(&scheme);
        let dict_ty = self.resolve(&inst.ty);
        match record_field_ty(&dict_ty, method) {
            None => Err(
                TypeError::UnknownTraitMethod {
                    trait_name: trait_name.to_owned(),
                    method: method.to_owned(),
                },
            ),
            Some(method_ty) => {
                let ret = self.fresh_ty();
                let want = value_func(args, &ret);
                match self.equate(method_ty, want) {
                    Err(e) => Err(e),
                    Ok(_) => Ok(Some(ret)),
                }
            },
        }
    }

    /// Chooses the dictionary of a trait with several parameters.
    pub fn resolve_multi_param_trait_dispatch(
        &mut self,
        env: &TypeEnv,
        trait_name: &str,
        method: &str,
        args: Vec<Ty>,
        indexes: Vec<usize>,
        method_args: &Vec<Ty>,
        ret: &Ty,
    ) -> (r: Result<Dispatch, SpannedTypeError>)
        requires
            old(self).wf(),
        ensures
            final(self).wf(),
            (final(self)@, dispatch_res(r)) == multi_dispatch(
                old(self)@,
                env@,
                trait_name@,
                method@,
                tys_view(args@),
                indexes@,
                tys_view(method_args@),
                ret@,
            ),
    {
        proof {
            reveal(multi_dispatch);
        }
        let found = self.find_dict(env, trait_name, &args, &indexes);
        match found {
            Some(dict) => {
                assert(some_dict_ref_view(found) == Some(dict_ref_view(dict)));
                match self.check_dict_method(env, &dict, trait_name, method, method_args) {
                    Err(e) => {
                        return Err(e.unspanned());
                    },
                    Ok(Some(checked)) => {
                        match self.equate(ret.clone(), checked) {
                            Err(e) => {
                                return Err(e.unspanned());
                            },
                            Ok(_) => {},
                        }
                    },
                    Ok(None) => {},
                }
                Ok(Dispatch::Resolved(self.resolve(ret), dict_method(dict, method)))
            },
            None => match primary_trait_var(&args, &indexes) {
                Some(var) => {
                    self.push_pending(
                        TraitConstraint::predicate(
                            trait_name,
                            clone_tys(&args),
                            var,
                            clone_indexes(&indexes),
                        ),
                    );
                    let pending = PendingDictArg {
                        var,
                        trait_name: trait_name.to_owned(),
                        args,
                        determinant_indexes: indexes,
                    };
                    let use_ = PendingMethod { pending, method: method.to_owned() };
                    Ok(Dispatch::Pending(self.resolve(ret), use_))
                },
                None => Ok(Dispatch::Unknown),
            },
        }
    }

    fn resolve_structural_dict(&mut self, env: &TypeEnv, items: &Vec<Ty>) -> (r: Result<
        Vec<DictRef>,
        TypeError,
    >)
        requires
            old(self).wf(),
        ensures
            final(self).wf(),
            (final(self)@, dicts_res(r)) == eq_items(
                old(self)@,
                env@,
                tys_view(items@),
                0,
                Seq::empty(),
            ),
        decreases items@,
    {
        let ghost all = tys_view(items@);
        let ghost want = eq_items(self@, env@, all, 0, Seq::empty());
        let mut out: Vec<DictRef> = Vec::new();
        let mut i: usize = 0;
        assert(dict_refs_view(out@) =~= Seq::empty());
        while i < items.len()
            invariant
                i <= items.len(),
                self.wf(),
                all == tys_view(items@),
                all.len() == items@.len(),
                want == eq_items(old(self)@, env@, all, 0, Seq::empty()),
                want == eq_items(self@, env@, all, i as nat, dict_refs_view(out@)),
            decreases items.len() - i,
        {
            assert(all[i as int] == ty_view(items@[i as int]));
            assert(decreases_to!(items@ => items@[i as int]));
            let ghost before = dict_refs_view(out@);
            match self.resolve_eq_child_dict(env, &items[i]) {
                Err(e) => {
                    return Err(e);
                },
                Ok(d) => {
                    let ghost dv = dict_ref_view(d);
                    out.push(d);
                    assert(dict_refs_view(out@) =~= before.push(dv));
                },
            }
            i = i + 1;
        }
        Ok(out)
    }

    fn resolve_eq_child_dict(&mut self, env: &TypeEnv, ty: &Ty) -> (r: Result<DictRef, TypeError>)
        requires
            old(self).wf(),
        ensures
            final(self).wf(),
            (final(self)@, dict_res(r)) == eq_dict(old(self)@, env@, ty@),
        decreases *ty,
    {
        match ty {
            Ty::Tuple(items) => {
                assert(tys_view(items@).len() == items@.len());
                match self.resolve_structural_dict(env, items) {
                    Err(e) => Err(e),
                    Ok(args) => {
                        let d = StructuralDictRef {
                            trait_name: "Eq".to_owned(),
                            target: DictTarget::Tuple(items.len()),
                            args,
                        };
                        assert(structural_dict_ref_view(d) == (StructuralDictRefV {
                            trait_name: "Eq"@,
                            target: DictTarget::Tuple(items.len()),
                            args: dict_refs_view(args@),
                        }));
                        Ok(DictRef::Composed(d))
                    },
                }
            },
            Ty::Var(v) => {
                let c = TraitConstraint::unary(*v, "Eq");
                let name = dict_param_name(&c);
                self.push_pending(c);
                Ok(DictRef::Param(name))
            },
            _ => {
                let keys = trait_impl_target_keys_from_ty(ty);
                if keys.len() == 0 {
                    return Err(missing_impl_error("Eq", ty));
                }
                let found = self.concrete_dict(env, "Eq", ty);
                match found {
                    Some(d) => {
                        assert(some_dict_ref_view(found) == Some(dict_ref_view(d)));
                        Ok(d)
                    },
                    None => Err(missing_impl_error("Eq", ty)),
                }
            },
        }
    }

    /// Chooses the dictionary of a trait for a type.
    pub fn resolve_trait_dict(&mut self, env: &TypeEnv, trait_name: &str, target: &Ty) -> (r: Result<
        DictResolution,
        TypeError,
    >)
        requires
            old(self).wf(),
        ensures
            final(self).wf(),
            (final(self)@, choice_res(r)) == choose_dict(
                old(self)@,
                env@,
                trait_name@,
                target@,
            ),
    {
        proof {
            reveal(choose_dict);
        }
        let ty = self.resolve(target);
        match &ty {
            Ty::Var(v) => {
                self.push_pending(TraitConstraint::unary(*v, trait_name));
                return Ok(DictResolution::Pending(unary_pending(*v, trait_name)));
            },
            Ty::Tuple(_) => {
                if str_eq(trait_name, "Eq") {
                    return match self.resolve_eq_child_dict(env, &ty) {
                        Err(e) => Err(e),
                        Ok(d) => Ok(DictResolution::Resolved(d)),
                    };
                }
            },
            _ => {},
        }
        let found = self.concrete_dict(env, trait_name, &ty);
        match found {
            Some(d) => {
                assert(some_dict_ref_view(found) == Some(dict_ref_view(d)));
                Ok(DictResolution::Resolved(d))
            },
            None => Err(missing_impl_error(trait_name, &ty)),
        }
    }

    /// Chooses the dictionary by which a value is iterated over.
    pub fn resolve_iterable_dict(&mut self, env: &TypeEnv, target: &Ty) -> (r: Result<
        DictResolution,
        TypeError,
    >)
        requires
            old(self).wf(),
        ensures
            final(self).wf(),
            (final(self)@, choice_res(r)) == choose_iterable(old(self)@, env@, target@),
    {
        proof {
            reveal(choose_iterable);
        }
        let keys = trait_impl_target_keys_from_ty(target);
        if keys.len() == 0 {
            return match target {
                Ty::Var(v) => {
                    self.push_pending(TraitConstraint::unary(*v, "Iterable"));
                    Ok(DictResolution::Pending(unary_pending(*v, "Iterable")))
                },
                _ => Err(unresolved_trait("for loop", "Iterable")),
            };
        }
        let known = Known {
            env,
            dicts: &self.impls.active_dicts,
            schemes: &self.impls.known_schemes,
        };
        match find_first_dict(&known, "Iterable", &keys) {
            Some(name) => Ok(DictResolution::Resolved(DictRef::Concrete(name))),
            None => Err(missing_impl_error("Iterable", target)),
        }
    }

    fn check_trait_method_signature(
        &mut self,
        def: &TraitDef,
        method: &TraitMethod,
        args: &Vec<Ty>,
        args_first: bool,
    ) -> (r: Result<(Ty, Ty), TypeError>)
        requires
            old(self).wf(),
        ensures
            final(self).wf(),
            ({
                let want = signature(
                    old(self)@,
                    def@,
                    method@,
                    tys_view(args@),
                    args_first,
                );
                final(self)@ == want.st && match want.err {
                    Some(e) => r is Err && r->Err_0@ == e,
                    None => r is Ok && r->Ok_0.0@ == want.ret && r->Ok_0.1@ == want.target,
                }
            }),
    {
        proof {
            reveal(signature);
        }
        assert(def@.params.len() == def.params@.len());
        if def.params.len() == 0 {
            return Err(no_parameters(&def.name));
        }
        assert(def@.params[0] == def.params@[0]@);
        let var = self.fresh_var();
        let mut vars: NameMap<TyVar> = NameMap::new();
        vars.insert(def.params[0].clone(), var);
        let types = method_param_types(method);
        match self.method_types(&types, &method.ret_type, &mut vars) {
            Err(e) => Err(e),
            Ok((tys, ret)) => match self.equate_all(args, &tys, !args_first) {
                Err(e) => Err(e),
                Ok(_) => {
                    let target = self.resolve(&Ty::Var(var));
                    Ok((ret, target))
                },
            },
        }
    }

    fn defer(&mut self, var: TyVar, trait_name: &str, method: &str, ret: &Ty) -> (r: Result<
        Dispatch,
        SpannedTypeError,
    >)
        requires
            old(self).wf(),
        ensures
            final(self).wf(),
            (final(self)@, dispatch_res(r)) == defer(
                old(self)@,
                var,
                trait_name@,
                method@,
                ret@,
            ),
    {
        self.push_pending(TraitConstraint::unary(var, trait_name));
        let use_ = PendingMethod {
            pending: unary_pending(var, trait_name),
            method: method.to_owned(),
        };
        Ok(Dispatch::Pending(self.resolve(ret), use_))
    }

    fn first_arg_call(
        &mut self,
        env: &TypeEnv,
        def: &TraitDef,
        method: &TraitMethod,
        args: &Vec<Ty>,
        context: &str,
    ) -> (r: Result<Dispatch, SpannedTypeError>)
        requires
            old(self).wf(),
            args@.len() > 0,
        ensures
            final(self).wf(),
            (final(self)@, dispatch_res(r)) == first_arg_call(
                old(self)@,
                env@,
                def@,
                method@,
                tys_view(args@),
                context@,
            ),
    {
        proof {
            reveal(first_arg_call);
        }
        assert(tys_view(args@)[0] == args@[0]@);
        let target = self.resolve(&args[0]);
        let keys = trait_impl_target_keys_from_ty(&target);
        if keys.len() == 0 {
            let v = match variable_trait_target(&target) {
                None => {
                    return Err(unresolved_trait(context, &def.name).unspanned());
                },
                Some(v) => v,
            };
            return match self.check_trait_method_signature(def, method, args, false) {
                Err(e) => Err(e.unspanned()),
                Ok((ret, seen)) => match &seen {
                    Ty::Var(w) => self.defer(*w, &def.name, &method.name, &ret),
                    _ => {
                        if trait_impl_target_keys_from_ty(&seen).len() == 0 {
                            Err(unresolved_trait(context, &def.name).unspanned())
                        } else {
                            self.defer(v, &def.name, &method.name, &ret)
                        }
                    },
                },
            };
        }
        let found = self.concrete_dict(env, &def.name, &target);
        match found {
            None => Err(missing_impl_error(&def.name, &target).unspanned()),
            Some(dict) => {
                assert(some_dict_ref_view(found) == Some(dict_ref_view(dict)));
                match self.check_dict_method(env, &dict, &def.name, &method.name, args) {
                    Err(e) => Err(e.unspanned()),
                    Ok(Some(ret)) => Ok(
                        Dispatch::Resolved(self.resolve(&ret), dict_method(dict, &method.name)),
                    ),
                    Ok(None) => match self.check_trait_method_signature(def, method, args, false) {
                        Err(e) => Err(e.unspanned()),
                        Ok((ret, seen)) => {
                            if trait_impl_target_keys_from_ty(&seen).len() == 0 {
                                Err(unresolved_trait(context, &def.name).unspanned())
                            } else {
                                Ok(
                                    Dispatch::Resolved(
                                        self.resolve(&ret),
                                        dict_method(dict, &method.name),
                                    ),
                                )
                            }
                        },
                    },
                }
            },
        }
    }

    fn abstract_call(
        &mut self,
        env: &TypeEnv,
        def: &TraitDef,
        method: &TraitMethod,
        args: &Vec<Ty>,
    ) -> (r: Result<Dispatch, SpannedTypeError>)
        requires
            old(self).wf(),
        ensures
            final(self).wf(),
            (final(self)@, dispatch_res(r)) == abstract_call(
                old(self)@,
                env@,
                def@,
                method@,
                tys_view(args@),
            ),
    {
        proof {
            reveal(abstract_call);
        }
        match self.check_trait_method_signature(def, method, args, true) {
            Err(e) => Err(e.unspanned()),
            Ok((ret, target)) => {
                let keys = trait_impl_target_keys_from_ty(&target);
                if keys.len() == 0 {
                    return match &target {
                        Ty::Var(v) => self.defer(*v, &def.name, &method.name, &ret),
                        _ => Err(missing_impl_error(&def.name, &target).unspanned()),
                    };
                }
                let found = self.concrete_dict(env, &def.name, &target);
                match found {
                    Some(dict) => {
                        assert(some_dict_ref_view(found) == Some(dict_ref_view(dict)));
                        Ok(
                            Dispatch::Resolved(
                                self.resolve(&ret),
                                dict_method(dict, &method.name),
                            ),
                        )
                    },
                    None => Err(missing_impl_error(&def.name, &target).unspanned()),
                }
            },
        }
    }

    fn resolve_multi_param_trait_method_call(
        &mut self,
        env: &TypeEnv,
        def: &TraitDef,
        method: &TraitMethod,
        args: &Vec<Ty>,
        context: &str,
    ) -> (r: Result<Dispatch, SpannedTypeError>)
        requires
            old(self).wf(),
        ensures
            final(self).wf(),
            (final(self)@, dispatch_res(r)) == multi_call(
                old(self)@,
                env@,
                def@,
                method@,
                tys_view(args@),
                context@,
            ),
    {
        proof {
            reveal(multi_call);
        }
        let mut vars: NameMap<TyVar> = NameMap::new();
        let params = self.fresh_named(&def.params, &mut vars);
        let types = method_param_types(method);
        match self.method_types(&types, &method.ret_type, &mut vars) {
            Err(e) => Err(e.unspanned()),
            Ok((tys, ret)) => match self.equate_all(args, &tys, false) {
                Err(e) => Err(e.unspanned()),
                Ok(_) => {
                    let trait_args = self.resolve_all(&params);
                    let indexes = trait_dict_indexes(def);
                    match self.resolve_multi_param_trait_dispatch(
                        env,
                        &def.name,
                        &method.name,
                        trait_args,
                        indexes,
                        args,
                        &ret,
                    ) {
                        Ok(Dispatch::Unknown) => Err(
                            unresolved_trait(context, &def.name).unspanned(),
                        ),
                        other => other,
                    }
                },
            },
        }
    }

    /// A call of a trait method on arguments of known types.
    pub fn dispatch_trait_method(
        &mut self,
        env: &TypeEnv,
        def: &TraitDef,
        method: &TraitMethod,
        args: &Vec<Ty>,
        context: &str,
    ) -> (r: Result<Dispatch, SpannedTypeError>)
        requires
            old(self).wf(),
        ensures
            final(self).wf(),
            (final(self)@, dispatch_res(r)) == trait_call(
                old(self)@,
                env@,
                def@,
                method@,
                tys_view(args@),
                context@,
            ),
    {
        proof {
            reveal(trait_call);
        }
        assert(tys_view(args@).len() == args@.len());
        assert(method@.params.len() == method.params@.len());
        assert(def@.params.len() == def.params@.len());
        assert(def@.fundeps.len() == def.fundeps@.len());
        if args.len() != method.params.len() {
            return Err(
                TypeError::ArityMismatch {
                    expected: method.params.len(),
                    got: args.len(),
                }.unspanned(),
            );
        }
        if def.params.len() > 1 || def.fundeps.len() > 0 {
            return self.resolve_multi_param_trait_method_call(env, def, method, args, context);
        }
        if def.params.len() > 0 && method.params.len() > 0 {
            assert(def@.params[0] == def.params@[0]@);
            assert(method@.params[0] == named_type_view(method.params@[0]));
            if type_contains_var(&method.params[0].ty, &def.params[0]) {
                return self.first_arg_call(env, def, method, args, context);
            }
        }
        self.abstract_call(env, def, method, args)
    }

    fn trial(&self, a: &Vec<Ty>, b: &Vec<Ty>) -> (r: Option<Subst>)
        requires
            self.wf(),
        ensures
            match (r, unify_each(self@.subst, tys_view(a@), tys_view(b@), 0)) {
                (Some(x), Some(y)) => x@ == y && x.wf(),
                (None, None) => true,
                _ => false,
            },
    {
        let ghost av = tys_view(a@);
        let ghost bv = tys_view(b@);
        let mut s = self.subst.clone();
        let mut i: usize = 0;
        while i < a.len() && i < b.len()
            invariant
                i <= a.len(),
                i <= b.len(),
                s.wf(),
                av == tys_view(a@),
                bv == tys_view(b@),
                av.len() == a@.len(),
                bv.len() == b@.len(),
                unify_each(self@.subst, av, bv, 0) == unify_each(s@, av, bv, i as nat),
            decreases a.len() - i,
        {
            assert(av[i as int] == a@[i as int]@);
            assert(bv[i as int] == b@[i as int]@);
            match unify(&mut s, a[i].clone(), b[i].clone()) {
                Err(_) => {
                    return None;
                },
                Ok(_) => {},
            }
            i = i + 1;
        }
        Some(s)
    }

    /// Applies the first constraint that fits a use.
    pub fn apply_matching_pending_trait_constraint(
        &mut self,
        trait_name: &str,
        args: &Vec<Ty>,
        indexes: &Vec<usize>,
    )
        requires
            old(self).wf(),
        ensures
            final(self).wf(),
            final(self)@ == apply_pending(old(self)@, trait_name@, tys_view(args@), indexes@),
    {
        let ghost argv = tys_view(args@);
        let ghost want = apply_pending(self@, trait_name@, argv, indexes@);
        let mut i: usize = 0;
        proof {
            reveal(apply_pending);
        }
        while i < self.constraints.pending.len()
            invariant
                self.wf(),
                self@ == old(self)@,
                i <= self.constraints.pending.len(),
                argv == tys_view(args@),
                argv.len() == args@.len(),
                want == apply_pending(old(self)@, trait_name@, argv, indexes@),
                want == apply_pending_from(self@, trait_name@, argv, indexes@, i as nat),
            decreases self.constraints.pending.len() - i,
        {
            let c = &self.constraints.pending[i];
            proof {
                assert(self@.pending.len() == self.constraints.pending@.len());
                assert(self@.pending[i as int] == constraint_view(*c));
                assert(tys_view(c.args@).len() == c.args@.len());
            }
            if str_eq(&c.trait_name, trait_name) && c.args.len() == args.len() && same_indexes(
                &c.determinant_indexes,
                indexes,
            ) && determinants_share_var(&c.args, args, indexes, &self.subst) {
                match self.trial(&c.args, args) {
                    Some(s) => {
                        self.subst = s;
                        return;
                    },
                    None => {},
                }
            }
            i = i + 1;
        }
    }
}

fn same_indexes(a: &Vec<usize>, b: &Vec<usize>) -> (r: bool)
    ensures
        r == (a@ == b@),
{
    if a.len() != b.len() {
        return false;
    }
    let mut i: usize = 0;
    while i < a.len()
        invariant
            i <= a.len(),
            a@.len() == b@.len(),
            forall|j: int| 0 <= j < i ==> a@[j] == b@[j],
        decreases a.len() - i,
    {
        if a[i] != b[i] {
            return false;
        }
        i = i + 1;
    }
    assert(a@ =~= b@);
    true
}

} // verus!
