//! Finding the dictionary that implements a trait.
//!
//! Trait constraints become concrete dictionary references where possible, or
//! remain pending when generic code must receive dictionaries from its caller.

use std::collections::HashMap;
use vstd::prelude::*;

use crate::apply::{apply, apply_tys};
use crate::ast::{DictRef, DictTarget, PendingDictArg, StructuralDictRef};
use crate::ast_view::{dict_ref_view, dict_refs_view, pending_dict_arg_view};
use crate::ast_view::{pending_dict_args_view, structural_dict_ref_view, DictRefV};
use crate::ast_view::{PendingDictArgV, StructuralDictRefV};
use crate::dict_names::{dict_param_name, param_name};
use crate::display::ty_text;
use crate::env::{EnvV, TypeEnv};
use crate::error::{TypeError, TypeErrorV};
use crate::rows::FieldV;
use crate::subst::{clone_indexes, clone_solved, solved_view, Subst, SubstV};
use crate::tables::{sorted_names, NameMap, NameSet};
use crate::text::{clone_strings, str_eq, strings_view};
use crate::ty::{constraint_view, constraints_view, field_view, fields_view, param_view};
use crate::ty::{params_view, return_view, row_view, ty_eq, ty_view, tys_view, ConstraintV};
use crate::ty::{FuncParam, ParamV, ReturnV, RowV, Scheme, SchemeV, TraitConstraint, Ty, TyV, TyVar};
use crate::type_syntax::{dict_name_of_keys, says_text, target_keys};
use crate::type_syntax::{trait_impl_dict_name_from_keys, trait_impl_target_keys_from_ty};
use crate::unify::{error_of, unify, unify_types};

verus! {

broadcast use vstd::std_specs::hash::group_hash_axioms;

/// What is known of implementations: the dictionaries in the environment, those
/// of other modules, and the schemes of the latter.
pub struct Known<'a> {
    pub env: &'a TypeEnv,
    pub dicts: &'a NameSet,
    pub schemes: &'a NameMap<Scheme>,
}

/// The view of [`Known`].
pub struct KnownV {
    pub env: EnvV,
    pub dicts: Set<Seq<char>>,
    pub schemes: Map<Seq<char>, SchemeV>,
}

impl<'a> View for Known<'a> {
    type V = KnownV;

    open spec fn view(&self) -> KnownV {
        KnownV { env: self.env@, dicts: self.dicts@, schemes: self.schemes@ }
    }
}

/// How long a chain of implementations that rest on one another may be.
pub const MAX_DICT_DEPTH: u64 = 0xffff_ffff_ffff_ffff;

/// The scheme of a dictionary, if it is known.
pub open spec fn scheme_of(k: KnownV, name: Seq<char>) -> Option<SchemeV> {
    if k.env.dom().contains(name) {
        Some(k.env[name].scheme)
    } else if k.schemes.dom().contains(name) {
        Some(k.schemes[name])
    } else {
        None
    }
}

/// Whether there is a dictionary of this name.
pub open spec fn has_dict(k: KnownV, name: Seq<char>) -> bool {
    k.env.dom().contains(name) || k.dicts.contains(name)
}

fn find_scheme<'a>(k: &Known<'a>, name: &str) -> (r: Option<&'a Scheme>)
    ensures
        match (r, scheme_of(k@, name@)) {
            (Some(a), Some(b)) => a@ == b,
            (None, None) => true,
            _ => false,
        },
{
    match k.env.get(name) {
        Some(info) => Some(&info.scheme),
        None => k.schemes.get(name),
    }
}

/// Whether there is a dictionary for a trait and a key of its target.
pub fn has_trait_impl(k: &Known, trait_name: &str, target_key: &str) -> (r: bool)
    ensures
        r == has_dict(k@, dict_name_of_keys(trait_name@, seq![target_key@])),
{
    let name = single_key_name(trait_name, target_key);
    k.env.get(name.as_str()).is_some() || k.dicts.contains(name.as_str())
}

fn single_key_name(trait_name: &str, target_key: &str) -> (r: String)
    ensures
        r@ == dict_name_of_keys(trait_name@, seq![target_key@]),
{
    let mut keys: Vec<String> = Vec::new();
    keys.push(target_key.to_owned());
    assert(strings_view(keys@) =~= seq![target_key@]);
    trait_impl_dict_name_from_keys(trait_name, &keys)
}

/// A dictionary and the dictionaries that it rests on.
pub open spec fn dict_with(name: Seq<char>, args: Seq<DictRefV>) -> DictRefV {
    if args.len() == 0 {
        DictRefV::Concrete(name)
    } else {
        DictRefV::Applied { dict: name, args }
    }
}

fn make_dict(name: String, args: Vec<DictRef>) -> (r: DictRef)
    ensures
        r@ == dict_with(name@, dict_refs_view(args@)),
{
    assert(dict_refs_view(args@).len() == args@.len());
    if args.len() == 0 {
        DictRef::Concrete(name)
    } else {
        DictRef::Applied { dict: name, args }
    }
}

/// Whether an optional dictionary is what `want` says.
pub open spec fn says_dict(r: Option<DictRef>, want: Option<DictRefV>) -> bool {
    match (r, want) {
        (Some(a), Some(b)) => a@ == b,
        (None, None) => true,
        _ => false,
    }
}

/// Whether an optional list of dictionaries is what `want` says.
pub open spec fn says_dicts(r: Option<Vec<DictRef>>, want: Option<Seq<DictRefV>>) -> bool {
    match (r, want) {
        (Some(a), Some(b)) => dict_refs_view(a@) == b,
        (None, None) => true,
        _ => false,
    }
}

// ---------------------------------------------------------------------------
// Shapes
// ---------------------------------------------------------------------------

/// Whether a variable stands in a type, outside of constraints.
pub open spec fn has_var(ty: TyV) -> bool
    decreases ty,
{
    match ty {
        TyV::Var(_) => true,
        TyV::Qualified(_, inner) => has_var(*inner),
        TyV::Func(params, ret) => has_var_in_params(params) || has_var(*ret.ty),
        TyV::Tuple(items) => has_var_in(items),
        TyV::App(con, args) => has_var(*con) || has_var_in(args),
        TyV::Record(row) => has_var_in_fields(row.fields) || has_var(*row.tail),
        _ => false,
    }
}

pub open spec fn has_var_in(s: Seq<TyV>) -> bool
    decreases s,
{
    exists|i: int| 0 <= i < s.len() && has_var(#[trigger] s[i])
}

pub open spec fn has_var_in_params(s: Seq<ParamV>) -> bool
    decreases s,
{
    exists|i: int| 0 <= i < s.len() && has_var((#[trigger] s[i]).ty)
}

pub open spec fn has_var_in_fields(s: Seq<FieldV>) -> bool
    decreases s,
{
    exists|i: int| 0 <= i < s.len() && has_var((#[trigger] s[i]).1)
}

fn ty_has_unresolved_var(ty: &Ty) -> (r: bool)
    ensures
        r == has_var(ty@),
    decreases *ty,
{
    match ty {
        Ty::Var(_) => true,
        Ty::Qualified(_, inner) => ty_has_unresolved_var(inner),
        Ty::Func(params, ret) => {
            assert(return_view(*ret).ty == Box::new(ty_view(*ret.ty)));
            ty_has_unresolved_var_params(params) || ty_has_unresolved_var(&ret.ty)
        },
        Ty::Tuple(items) => ty_has_unresolved_var_tys(items),
        Ty::App(con, args) => ty_has_unresolved_var(con) || ty_has_unresolved_var_tys(args),
        Ty::Record(row) => {
            assert(row_view(*row).tail == Box::new(ty_view(*row.tail)));
            ty_has_unresolved_var_fields(&row.fields) || ty_has_unresolved_var(&row.tail)
        },
        _ => false,
    }
}

fn ty_has_unresolved_var_tys(s: &Vec<Ty>) -> (r: bool)
    ensures
        r == has_var_in(tys_view(s@)),
    decreases s@,
{
    let ghost all = tys_view(s@);
    let mut i: usize = 0;
    while i < s.len()
        invariant
            i <= s.len(),
            all == tys_view(s@),
            forall|j: int| 0 <= j < i ==> !(has_var(#[trigger] all[j])),
        decreases s.len() - i,
    {
        assert(all[i as int] == ty_view(s@[i as int]));
        assert(decreases_to!(s@ => s@[i as int]));
        if ty_has_unresolved_var(&s[i]) {
            return true;
        }
        i = i + 1;
    }
    false
}

fn ty_has_unresolved_var_params(s: &Vec<FuncParam>) -> (r: bool)
    ensures
        r == has_var_in_params(params_view(s@)),
    decreases s@,
{
    let ghost all = params_view(s@);
    let mut i: usize = 0;
    while i < s.len()
        invariant
            i <= s.len(),
            all == params_view(s@),
            forall|j: int| 0 <= j < i ==> !(has_var((#[trigger] all[j]).ty)),
        decreases s.len() - i,
    {
        assert(all[i as int] == param_view(s@[i as int]));
        assert(decreases_to!(s@ => s@[i as int]));
        assert(decreases_to!(s@[i as int] => s@[i as int].ty));
        if ty_has_unresolved_var(&s[i].ty) {
            return true;
        }
        i = i + 1;
    }
    false
}

fn ty_has_unresolved_var_fields(s: &Vec<(String, Ty)>) -> (r: bool)
    ensures
        r == has_var_in_fields(fields_view(s@)),
    decreases s@,
{
    let ghost all = fields_view(s@);
    let mut i: usize = 0;
    while i < s.len()
        invariant
            i <= s.len(),
            all == fields_view(s@),
            forall|j: int| 0 <= j < i ==> !(has_var((#[trigger] all[j]).1)),
        decreases s.len() - i,
    {
        assert(all[i as int] == field_view(s@[i as int]));
        assert(decreases_to!(s@ => s@[i as int]));
        assert(decreases_to!(s@[i as int] => s@[i as int].1));
        if ty_has_unresolved_var(&s[i].1) {
            return true;
        }
        i = i + 1;
    }
    false
}

/// Whether something other than a variable stands in a type.
pub open spec fn has_shape(ty: TyV) -> bool
    decreases ty,
{
    match ty {
        TyV::Var(_) => false,
        TyV::Qualified(_, inner) => has_shape(*inner),
        TyV::Func(params, ret) => has_shape_in_params(params) || has_shape(*ret.ty),
        TyV::Tuple(items) => has_shape_in(items),
        TyV::App(con, args) => has_shape(*con) || has_shape_in(args),
        TyV::Record(row) => has_shape_in_fields(row.fields) || has_shape(*row.tail),
        _ => true,
    }
}

pub open spec fn has_shape_in(s: Seq<TyV>) -> bool
    decreases s,
{
    exists|i: int| 0 <= i < s.len() && has_shape(#[trigger] s[i])
}

pub open spec fn has_shape_in_params(s: Seq<ParamV>) -> bool
    decreases s,
{
    exists|i: int| 0 <= i < s.len() && has_shape((#[trigger] s[i]).ty)
}

pub open spec fn has_shape_in_fields(s: Seq<FieldV>) -> bool
    decreases s,
{
    exists|i: int| 0 <= i < s.len() && has_shape((#[trigger] s[i]).1)
}

fn ty_has_concrete_shape(ty: &Ty) -> (r: bool)
    ensures
        r == has_shape(ty@),
    decreases *ty,
{
    match ty {
        Ty::Var(_) => false,
        Ty::Qualified(_, inner) => ty_has_concrete_shape(inner),
        Ty::Func(params, ret) => {
            assert(return_view(*ret).ty == Box::new(ty_view(*ret.ty)));
            ty_has_concrete_shape_params(params) || ty_has_concrete_shape(&ret.ty)
        },
        Ty::Tuple(items) => ty_has_concrete_shape_tys(items),
        Ty::App(con, args) => ty_has_concrete_shape(con) || ty_has_concrete_shape_tys(args),
        Ty::Record(row) => {
            assert(row_view(*row).tail == Box::new(ty_view(*row.tail)));
            ty_has_concrete_shape_fields(&row.fields) || ty_has_concrete_shape(&row.tail)
        },
        _ => true,
    }
}

fn ty_has_concrete_shape_tys(s: &Vec<Ty>) -> (r: bool)
    ensures
        r == has_shape_in(tys_view(s@)),
    decreases s@,
{
    let ghost all = tys_view(s@);
    let mut i: usize = 0;
    while i < s.len()
        invariant
            i <= s.len(),
            all == tys_view(s@),
            forall|j: int| 0 <= j < i ==> !(has_shape(#[trigger] all[j])),
        decreases s.len() - i,
    {
        assert(all[i as int] == ty_view(s@[i as int]));
        assert(decreases_to!(s@ => s@[i as int]));
        if ty_has_concrete_shape(&s[i]) {
            return true;
        }
        i = i + 1;
    }
    false
}

fn ty_has_concrete_shape_params(s: &Vec<FuncParam>) -> (r: bool)
    ensures
        r == has_shape_in_params(params_view(s@)),
    decreases s@,
{
    let ghost all = params_view(s@);
    let mut i: usize = 0;
    while i < s.len()
        invariant
            i <= s.len(),
            all == params_view(s@),
            forall|j: int| 0 <= j < i ==> !(has_shape((#[trigger] all[j]).ty)),
        decreases s.len() - i,
    {
        assert(all[i as int] == param_view(s@[i as int]));
        assert(decreases_to!(s@ => s@[i as int]));
        assert(decreases_to!(s@[i as int] => s@[i as int].ty));
        if ty_has_concrete_shape(&s[i].ty) {
            return true;
        }
        i = i + 1;
    }
    false
}

fn ty_has_concrete_shape_fields(s: &Vec<(String, Ty)>) -> (r: bool)
    ensures
        r == has_shape_in_fields(fields_view(s@)),
    decreases s@,
{
    let ghost all = fields_view(s@);
    let mut i: usize = 0;
    while i < s.len()
        invariant
            i <= s.len(),
            all == fields_view(s@),
            forall|j: int| 0 <= j < i ==> !(has_shape((#[trigger] all[j]).1)),
        decreases s.len() - i,
    {
        assert(all[i as int] == field_view(s@[i as int]));
        assert(decreases_to!(s@ => s@[i as int]));
        assert(decreases_to!(s@[i as int] => s@[i as int].1));
        if ty_has_concrete_shape(&s[i].1) {
            return true;
        }
        i = i + 1;
    }
    false
}

// ---------------------------------------------------------------------------
// Matching a scheme against types
// ---------------------------------------------------------------------------

/// Types that variables stand for.
pub type Bindings = Map<TyVar, TyV>;

/// `b` with what the variables of `pattern` have to be so that it is `actual`;
/// `None` if it cannot be.
pub open spec fn match_ty(pattern: TyV, actual: TyV, b: Bindings) -> Option<Bindings>
    decreases pattern, actual,
{
    match (pattern, actual) {
        (TyV::Var(v), _) => if b.dom().contains(v) {
            if b[v] == actual {
                Some(b)
            } else {
                None
            }
        } else {
            Some(b.insert(v, actual))
        },
        (TyV::App(pc, ps), TyV::App(ac, xs)) => if ps.len() == xs.len() {
            match match_ty(*pc, *ac, b) {
                Some(b2) => match_tys(ps, xs, b2),
                None => None,
            }
        } else {
            None
        },
        (TyV::Con(p), TyV::Con(a)) => if p == a {
            Some(b)
        } else {
            None
        },
        (TyV::Int, TyV::Int) => Some(b),
        (TyV::Float, TyV::Float) => Some(b),
        (TyV::Unit, TyV::Unit) => Some(b),
        (TyV::Qualified(_, p), _) => match_ty(*p, actual, b),
        (_, TyV::Qualified(_, a)) => match_ty(pattern, *a, b),
        _ => None,
    }
}

/// [`match_ty`] on the common part of two lists, in order.
pub open spec fn match_tys(ps: Seq<TyV>, xs: Seq<TyV>, b: Bindings) -> Option<Bindings>
    decreases ps, xs,
{
    if ps.len() == 0 || xs.len() == 0 {
        Some(b)
    } else {
        match match_ty(ps[0], xs[0], b) {
            Some(b2) => match_tys(ps.skip(1), xs.skip(1), b2),
            None => None,
        }
    }
}

/// The types of parameters.
pub open spec fn param_tys(ps: Seq<ParamV>) -> Seq<TyV> {
    Seq::new(ps.len(), |i: int| ps[i].ty)
}

/// `b` with what the variables of a method have to be for the trait arguments
/// `actuals`: its first parameters, and then its result, stand for them.
pub open spec fn match_method(params: Seq<ParamV>, ret: TyV, actuals: Seq<TyV>, b: Bindings) -> Option<
    Bindings,
> {
    if actuals.len() == 0 {
        None
    } else {
        match match_tys(param_tys(params), actuals, b) {
            None => None,
            Some(b2) => if params.len() < actuals.len() {
                match_ty(ret, actuals[params.len() as int], b2)
            } else {
                Some(b2)
            },
        }
    }
}

/// Whether each constraint's variable is bound.
pub open spec fn all_bound(cs: Seq<ConstraintV>, b: Bindings) -> bool {
    forall|i: int| 0 <= i < cs.len() ==> b.dom().contains((#[trigger] cs[i]).var)
}

/// What the methods of a dictionary from the one at `i` on bind, taken together
/// as far as they agree, once each constraint's variable is bound.
pub open spec fn match_methods(
    fields: Seq<FieldV>,
    i: nat,
    actuals: Seq<TyV>,
    cs: Seq<ConstraintV>,
    b: Bindings,
) -> Option<Bindings>
    decreases fields.len() - i,
{
    if i >= fields.len() {
        None
    } else {
        match fields[i as int].1 {
            TyV::Func(params, ret) => match match_method(params, *ret.ty, actuals, b) {
                Some(b2) => if all_bound(cs, b2) {
                    Some(b2)
                } else {
                    match_methods(fields, i + 1, actuals, cs, b2)
                },
                None => match_methods(fields, i + 1, actuals, cs, b),
            },
            _ => match_methods(fields, i + 1, actuals, cs, b),
        }
    }
}

/// What the variables of the constraints of a dictionary have to be.
pub open spec fn scheme_bindings(
    dict_ty: TyV,
    actuals: Seq<TyV>,
    cs: Seq<ConstraintV>,
) -> Option<Bindings> {
    match dict_ty {
        TyV::Record(row) => match_methods(row.fields, 0, actuals, cs, Map::empty()),
        _ => None,
    }
}

/// Whether a match went as `want` says.
pub open spec fn matched(
    ok: bool,
    b: Map<TyVar, Ty>,
    want: Option<Bindings>,
) -> bool {
    match want {
        Some(b2) => ok && solved_view(b) == b2,
        None => !ok,
    }
}

fn bind_ty_vars_to_actual(
    pattern: &Ty,
    actual: &Ty,
    bindings: &mut HashMap<TyVar, Ty>,
) -> (r: bool)
    ensures
        matched(r, final(bindings)@, match_ty(pattern@, actual@, solved_view(old(bindings)@))),
    decreases *pattern, *actual,
{
    match (pattern, actual) {
        (Ty::Var(v), _) => {
            if let Some(existing) = bindings.get(v) {
                return ty_eq(existing, actual);
            }
            let ghost before = solved_view(bindings@);
            bindings.insert(*v, actual.clone());
            assert(solved_view(bindings@) =~= before.insert(*v, actual@));
            true
        },
        (Ty::App(pc, ps), Ty::App(ac, xs)) => {
            assert(tys_view(ps@).len() == ps@.len());
            assert(tys_view(xs@).len() == xs@.len());
            if ps.len() != xs.len() {
                return false;
            }
            if !bind_ty_vars_to_actual(pc, ac, bindings) {
                return false;
            }
            bind_tys_to_actuals(ps, xs, bindings)
        },
        (Ty::Con(p), Ty::Con(a)) => str_eq(p.as_str(), a.as_str()),
        (Ty::Int, Ty::Int) => true,
        (Ty::Float, Ty::Float) => true,
        (Ty::Unit, Ty::Unit) => true,
        (Ty::Qualified(_, p), _) => bind_ty_vars_to_actual(p, actual, bindings),
        (_, Ty::Qualified(_, a)) => bind_ty_vars_to_actual(pattern, a, bindings),
        _ => false,
    }
}

fn bind_tys_to_actuals(
    ps: &Vec<Ty>,
    xs: &Vec<Ty>,
    bindings: &mut HashMap<TyVar, Ty>,
) -> (r: bool)
    ensures
        matched(
            r,
            final(bindings)@,
            match_tys(tys_view(ps@), tys_view(xs@), solved_view(old(bindings)@)),
        ),
    decreases ps@, xs@,
{
    let ghost pv = tys_view(ps@);
    let ghost xv = tys_view(xs@);
    let ghost want = match_tys(pv, xv, solved_view(bindings@));
    let mut i: usize = 0;
    assert(pv.skip(0) =~= pv);
    assert(xv.skip(0) =~= xv);
    while i < ps.len() && i < xs.len()
        invariant
            i <= ps.len(),
            i <= xs.len(),
            pv == tys_view(ps@),
            xv == tys_view(xs@),
            pv.len() == ps@.len(),
            xv.len() == xs@.len(),
            want == match_tys(pv, xv, solved_view(old(bindings)@)),
            want == match_tys(pv.skip(i as int), xv.skip(i as int), solved_view(bindings@)),
        decreases ps.len() - i,
    {
        proof {
            assert(pv.skip(i as int)[0] == ty_view(ps@[i as int]));
            assert(xv.skip(i as int)[0] == ty_view(xs@[i as int]));
            assert(pv.skip(i as int).skip(1) =~= pv.skip(i + 1));
            assert(xv.skip(i as int).skip(1) =~= xv.skip(i + 1));
            assert(decreases_to!(ps@ => ps@[i as int]));
        }
        if !bind_ty_vars_to_actual(&ps[i], &xs[i], bindings) {
            return false;
        }
        i = i + 1;
    }
    true
}

fn bind_func_vars_to_actuals(
    params: &Vec<FuncParam>,
    ret: &Ty,
    actuals: &Vec<Ty>,
    bindings: &mut HashMap<TyVar, Ty>,
) -> (r: bool)
    ensures
        r ==> matched(
            r,
            final(bindings)@,
            match_method(
                params_view(params@),
                ret@,
                tys_view(actuals@),
                solved_view(old(bindings)@),
            ),
        ),
        !r ==> match_method(
            params_view(params@),
            ret@,
            tys_view(actuals@),
            solved_view(old(bindings)@),
        ) is None && solved_view(final(bindings)@) == solved_view(old(bindings)@),
{
    let ghost start = solved_view(bindings@);
    let ghost pv = param_tys(params_view(params@));
    let ghost xv = tys_view(actuals@);
    let ghost want = match_tys(pv, xv, start);
    if actuals.len() == 0 {
        return false;
    }
    let mut local = clone_solved(bindings);
    let mut i: usize = 0;
    assert(pv.skip(0) =~= pv);
    assert(xv.skip(0) =~= xv);
    while i < params.len() && i < actuals.len()
        invariant
            i <= params.len(),
            i <= actuals.len(),
            start == solved_view(old(bindings)@),
            *bindings == *old(bindings),
            actuals@.len() > 0,
            pv == param_tys(params_view(params@)),
            xv == tys_view(actuals@),
            pv.len() == params@.len(),
            xv.len() == actuals@.len(),
            want == match_tys(pv, xv, start),
            want == match_tys(pv.skip(i as int), xv.skip(i as int), solved_view(local@)),
        decreases params.len() - i,
    {
        proof {
            assert(params_view(params@)[i as int] == param_view(params@[i as int]));
            assert(pv.skip(i as int)[0] == ty_view(params@[i as int].ty));
            assert(xv.skip(i as int)[0] == ty_view(actuals@[i as int]));
            assert(pv.skip(i as int).skip(1) =~= pv.skip(i + 1));
            assert(xv.skip(i as int).skip(1) =~= xv.skip(i + 1));
        }
        if !bind_ty_vars_to_actual(&params[i].ty, &actuals[i], &mut local) {
            return false;
        }
        i = i + 1;
    }
    if params.len() < actuals.len() {
        assert(xv[params@.len() as int] == ty_view(actuals@[params@.len() as int]));
        if !bind_ty_vars_to_actual(ret, &actuals[params.len()], &mut local) {
            return false;
        }
    }
    *bindings = local;
    true
}

fn constraints_bound(cs: &Vec<TraitConstraint>, b: &HashMap<TyVar, Ty>) -> (r: bool)
    ensures
        r == all_bound(constraints_view(cs@), solved_view(b@)),
{
    let ghost all = constraints_view(cs@);
    let mut i: usize = 0;
    while i < cs.len()
        invariant
            i <= cs.len(),
            all == constraints_view(cs@),
            forall|j: int| 0 <= j < i ==> solved_view(b@).dom().contains((#[trigger] all[j]).var),
        decreases cs.len() - i,
    {
        assert(all[i as int] == constraint_view(cs@[i as int]));
        if !b.contains_key(&cs[i].var) {
            assert(!solved_view(b@).dom().contains(all[i as int].var));
            return false;
        }
        i = i + 1;
    }
    true
}

/// Types that variables have to be, if there are any.
pub open spec fn says_bindings(r: Option<HashMap<TyVar, Ty>>, want: Option<Bindings>) -> bool {
    match (r, want) {
        (Some(a), Some(b)) => solved_view(a@) == b,
        (None, None) => true,
        _ => false,
    }
}

fn bind_scheme_target_vars(
    dict_ty: &Ty,
    actuals: &Vec<Ty>,
    cs: &Vec<TraitConstraint>,
) -> (r: Option<HashMap<TyVar, Ty>>)
    ensures
        says_bindings(
            r,
            scheme_bindings(dict_ty@, tys_view(actuals@), constraints_view(cs@)),
        ),
{
    let row = match dict_ty {
        Ty::Record(row) => row,
        _ => {
            return None;
        },
    };
    let ghost fields = fields_view(row.fields@);
    let ghost xv = tys_view(actuals@);
    let ghost cv = constraints_view(cs@);
    let ghost want = match_methods(fields, 0, xv, cv, Map::empty());
    let mut bindings: HashMap<TyVar, Ty> = HashMap::new();
    assert(solved_view(bindings@) =~= Map::empty());
    let mut i: usize = 0;
    while i < row.fields.len()
        invariant
            i <= row.fields.len(),
            fields == fields_view(row.fields@),
            xv == tys_view(actuals@),
            cv == constraints_view(cs@),
            want == scheme_bindings(dict_ty@, xv, cv),
            want == match_methods(fields, i as nat, xv, cv, solved_view(bindings@)),
        decreases row.fields.len() - i,
    {
        assert(fields[i as int] == field_view(row.fields@[i as int]));
        if let Ty::Func(params, ret) = &row.fields[i].1 {
            assert(fields[i as int].1 == TyV::Func(params_view(params@), return_view(*ret)));
            assert(return_view(*ret).ty == Box::new(ty_view(*ret.ty)));
            if bind_func_vars_to_actuals(params, &ret.ty, actuals, &mut bindings) {
                if constraints_bound(cs, &bindings) {
                    return Some(bindings);
                }
            }
        } else {
            assert(!(fields[i as int].1 is Func));
        }
        i = i + 1;
    }
    None
}

// ---------------------------------------------------------------------------
// Looking dictionaries up
// ---------------------------------------------------------------------------

/// The name of the dictionary for the first of `keys`, from the one at `i` on,
/// that there is one for.
pub open spec fn first_dict(k: KnownV, trait_name: Seq<char>, keys: Seq<Seq<char>>, i: nat) -> Option<
    Seq<char>,
>
    decreases keys.len() - i,
{
    if i >= keys.len() {
        None
    } else {
        let name = dict_name_of_keys(trait_name, seq![keys[i as int]]);
        if has_dict(k, name) {
            Some(name)
        } else {
            first_dict(k, trait_name, keys, i + 1)
        }
    }
}

pub fn find_first_dict(k: &Known, trait_name: &str, keys: &Vec<String>) -> (r: Option<String>)
    ensures
        says_text(r, first_dict(k@, trait_name@, strings_view(keys@), 0)),
{
    let ghost all = strings_view(keys@);
    let mut i: usize = 0;
    while i < keys.len()
        invariant
            i <= keys.len(),
            all == strings_view(keys@),
            first_dict(k@, trait_name@, all, 0) == first_dict(k@, trait_name@, all, i as nat),
        decreases keys.len() - i,
    {
        assert(all[i as int] == keys@[i as int]@);
        if has_trait_impl(k, trait_name, keys[i].as_str()) {
            return Some(single_key_name(trait_name, keys[i].as_str()));
        }
        i = i + 1;
    }
    None
}

/// The dictionary of a trait for a type. The equality of a tuple is made of that
/// of its components. At most `left` implementations rest on one another.
pub open spec fn dict_for(k: KnownV, trait_name: Seq<char>, ty: TyV, left: nat) -> Option<DictRefV>
    decreases left, 0nat, 0nat,
{
    if left == 0 {
        None
    } else if trait_name == "Eq"@ && ty is Tuple {
        match eq_dicts(k, ty->Tuple_0, (left - 1) as nat) {
            None => None,
            Some(args) => Some(
                DictRefV::Composed(
                    StructuralDictRefV {
                        trait_name: "Eq"@,
                        target: DictTarget::Tuple(args.len() as usize),
                        args,
                    },
                ),
            ),
        }
    } else {
        match first_dict(k, trait_name, target_keys(ty), 0) {
            None => None,
            Some(name) => match scheme_of(k, name) {
                None => Some(DictRefV::Concrete(name)),
                Some(scheme) => match dict_args_for(k, scheme, seq![ty], (left - 1) as nat) {
                    None => None,
                    Some(args) => Some(dict_with(name, args)),
                },
            },
        }
    }
}

/// The equalities of types, if each has one.
pub open spec fn eq_dicts(k: KnownV, items: Seq<TyV>, left: nat) -> Option<Seq<DictRefV>>
    decreases left, 1nat, items.len(),
{
    if items.len() == 0 {
        Some(Seq::empty())
    } else {
        match eq_dicts(k, items.drop_last(), left) {
            None => None,
            Some(args) => match dict_for(k, "Eq"@, items.last(), left) {
                None => None,
                Some(d) => Some(args.push(d)),
            },
        }
    }
}

/// The dictionaries that an implementation rests on when its trait arguments
/// are `actuals`. They can only be given once their types are known.
pub open spec fn dict_args_for(
    k: KnownV,
    scheme: SchemeV,
    actuals: Seq<TyV>,
    left: nat,
) -> Option<Seq<DictRefV>>
    decreases left, 2nat, 0nat,
{
    if scheme.constraints.len() == 0 {
        Some(Seq::empty())
    } else {
        match scheme_bindings(scheme.ty, actuals, scheme.constraints) {
            None => None,
            Some(b) => constraint_dicts(k, scheme.constraints, b, left),
        }
    }
}

/// The dictionaries of constraints on the variables that `b` binds.
pub open spec fn constraint_dicts(
    k: KnownV,
    cs: Seq<ConstraintV>,
    b: Bindings,
    left: nat,
) -> Option<Seq<DictRefV>>
    decreases left, 1nat, cs.len(),
{
    if cs.len() == 0 {
        Some(Seq::empty())
    } else {
        match constraint_dicts(k, cs.drop_last(), b, left) {
            None => None,
            Some(args) => if !b.dom().contains(cs.last().var) || has_var(b[cs.last().var]) {
                None
            } else {
                match dict_for(k, cs.last().trait_name, b[cs.last().var], left) {
                    None => None,
                    Some(d) => Some(args.push(d)),
                }
            },
        }
    }
}

proof fn lemma_eq_dicts_stuck(k: KnownV, items: Seq<TyV>, left: nat, i: int)
    requires
        0 <= i <= items.len(),
        eq_dicts(k, items.take(i), left) is None,
    ensures
        eq_dicts(k, items, left) is None,
    decreases items.len(),
{
    if i == items.len() {
        assert(items.take(i) =~= items);
    } else {
        assert(items.drop_last().take(i) =~= items.take(i));
        lemma_eq_dicts_stuck(k, items.drop_last(), left, i);
    }
}

proof fn lemma_eq_dicts_len(k: KnownV, items: Seq<TyV>, left: nat)
    requires
        eq_dicts(k, items, left) is Some,
    ensures
        eq_dicts(k, items, left)->0.len() == items.len(),
    decreases items.len(),
{
    if items.len() > 0 {
        lemma_eq_dicts_len(k, items.drop_last(), left);
    }
}

proof fn lemma_constraint_dicts_stuck(
    k: KnownV,
    cs: Seq<ConstraintV>,
    b: Bindings,
    left: nat,
    i: int,
)
    requires
        0 <= i <= cs.len(),
        constraint_dicts(k, cs.take(i), b, left) is None,
    ensures
        constraint_dicts(k, cs, b, left) is None,
    decreases cs.len(),
{
    if i == cs.len() {
        assert(cs.take(i) =~= cs);
    } else {
        assert(cs.drop_last().take(i) =~= cs.take(i));
        lemma_constraint_dicts_stuck(k, cs.drop_last(), b, left, i);
    }
}

fn find_dict(k: &Known, trait_name: &str, ty: &Ty, left: u64) -> (r: Option<DictRef>)
    ensures
        says_dict(r, dict_for(k@, trait_name@, ty@, left as nat)),
    decreases left, 0nat, 0nat,
{
    if left == 0 {
        return None;
    }
    if str_eq(trait_name, "Eq") {
        if let Ty::Tuple(items) = ty {
            assert(tys_view(items@).len() == items@.len());
            return match find_eq_dicts(k, items, left - 1) {
                None => None,
                Some(args) => {
                    proof {
                        lemma_eq_dicts_len(k@, tys_view(items@), (left - 1) as nat);
                    }
                    let composed = StructuralDictRef {
                        trait_name: "Eq".to_owned(),
                        target: DictTarget::Tuple(items.len()),
                        args,
                    };
                    Some(DictRef::Composed(composed))
                },
            };
        }
    }
    let keys = trait_impl_target_keys_from_ty(ty);
    let name = match find_first_dict(k, trait_name, &keys) {
        None => {
            return None;
        },
        Some(name) => name,
    };
    match find_scheme(k, name.as_str()) {
        None => Some(DictRef::Concrete(name)),
        Some(scheme) => {
            let mut actuals: Vec<Ty> = Vec::new();
            actuals.push(ty.clone());
            assert(tys_view(actuals@) =~= seq![ty@]);
            match find_dict_args(k, scheme, &actuals, left - 1) {
                None => None,
                Some(args) => Some(make_dict(name, args)),
            }
        },
    }
}

fn find_eq_dicts(k: &Known, items: &Vec<Ty>, left: u64) -> (r: Option<Vec<DictRef>>)
    ensures
        says_dicts(r, eq_dicts(k@, tys_view(items@), left as nat)),
    decreases left, 1nat, 0nat,
{
    let ghost all = tys_view(items@);
    let mut out: Vec<DictRef> = Vec::new();
    let mut i: usize = 0;
    assert(all.take(0) =~= Seq::empty());
    assert(dict_refs_view(out@) =~= Seq::empty());
    while i < items.len()
        invariant
            i <= items.len(),
            all == tys_view(items@),
            eq_dicts(k@, all.take(i as int), left as nat) == Some(dict_refs_view(out@)),
        decreases items.len() - i,
    {
        let ghost before = dict_refs_view(out@);
        proof {
            assert(all.take(i + 1).drop_last() =~= all.take(i as int));
            assert(all.take(i + 1).last() == ty_view(items@[i as int]));
        }
        match find_dict(k, "Eq", &items[i], left) {
            None => {
                proof {
                    lemma_eq_dicts_stuck(k@, all, left as nat, i + 1);
                }
                return None;
            },
            Some(d) => {
                out.push(d);
                assert(dict_refs_view(out@) =~= before.push(d@));
            },
        }
        i = i + 1;
    }
    assert(all.take(all.len() as int) =~= all);
    Some(out)
}

fn find_dict_args(k: &Known, scheme: &Scheme, actuals: &Vec<Ty>, left: u64) -> (r: Option<
    Vec<DictRef>,
>)
    ensures
        says_dicts(r, dict_args_for(k@, scheme@, tys_view(actuals@), left as nat)),
    decreases left, 2nat, 0nat,
{
    let mut out: Vec<DictRef> = Vec::new();
    assert(dict_refs_view(out@) =~= Seq::empty());
    let ghost all = constraints_view(scheme.constraints@);
    assert(all.len() == scheme.constraints@.len());
    if scheme.constraints.len() == 0 {
        return Some(out);
    }
    let b = match bind_scheme_target_vars(&scheme.ty, actuals, &scheme.constraints) {
        None => {
            return None;
        },
        Some(b) => b,
    };
    let ghost bv = solved_view(b@);
    let mut i: usize = 0;
    assert(all.take(0) =~= Seq::empty());
    while i < scheme.constraints.len()
        invariant
            i <= scheme.constraints.len(),
            all == constraints_view(scheme.constraints@),
            bv == solved_view(b@),
            dict_args_for(k@, scheme@, tys_view(actuals@), left as nat) == constraint_dicts(
                k@,
                all,
                bv,
                left as nat,
            ),
            constraint_dicts(k@, all.take(i as int), bv, left as nat) == Some(
                dict_refs_view(out@),
            ),
        decreases scheme.constraints.len() - i,
    {
        let ghost before = dict_refs_view(out@);
        let c = &scheme.constraints[i];
        proof {
            assert(all.take(i + 1).drop_last() =~= all.take(i as int));
            assert(all.take(i + 1).last() == constraint_view(*c));
        }
        let found = match b.get(&c.var) {
            None => {
                assert(!bv.dom().contains(c.var));
                None
            },
            Some(ty) => {
                assert(bv.dom().contains(c.var) && bv[c.var] == ty@);
                if ty_has_unresolved_var(ty) {
                    None
                } else {
                    find_dict(k, c.trait_name.as_str(), ty, left)
                }
            },
        };
        match found {
            None => {
                proof {
                    lemma_constraint_dicts_stuck(k@, all, bv, left as nat, i + 1);
                }
                return None;
            },
            Some(d) => {
                out.push(d);
                assert(dict_refs_view(out@) =~= before.push(d@));
            },
        }
        i = i + 1;
    }
    assert(all.take(all.len() as int) =~= all);
    Some(out)
}

/// The dictionary of a trait for a type.
pub fn resolve_concrete_dict_ref(trait_name: &str, ty: &Ty, k: &Known) -> (r: Option<DictRef>)
    ensures
        says_dict(r, dict_for(k@, trait_name@, ty@, MAX_DICT_DEPTH as nat)),
{
    find_dict(k, trait_name, ty, MAX_DICT_DEPTH)
}

/// The dictionaries that an implementation rests on when its trait arguments
/// are `actuals`.
pub fn dict_ref_args_for_scheme_args(scheme: &Scheme, actuals: &Vec<Ty>, k: &Known) -> (r: Option<
    Vec<DictRef>,
>)
    ensures
        says_dicts(r, dict_args_for(k@, scheme@, tys_view(actuals@), MAX_DICT_DEPTH as nat)),
{
    find_dict_args(k, scheme, actuals, MAX_DICT_DEPTH)
}

// ---------------------------------------------------------------------------
// Traits with several arguments
// ---------------------------------------------------------------------------

/// The keys by which the determining arguments of a trait may be listed.
pub enum KeySetsV {
    Sets(Seq<Seq<Seq<char>>>),
    NoArgument,
    NoKeys,
}

/// The keys of the arguments at `indexes`.
pub open spec fn key_sets(args: Seq<TyV>, indexes: Seq<usize>) -> KeySetsV
    decreases indexes.len(),
{
    if indexes.len() == 0 {
        KeySetsV::Sets(Seq::empty())
    } else {
        match key_sets(args, indexes.drop_last()) {
            KeySetsV::Sets(sets) => if indexes.last() >= args.len() {
                KeySetsV::NoArgument
            } else {
                let keys = target_keys(args[indexes.last() as int]);
                if keys.len() == 0 {
                    KeySetsV::NoKeys
                } else {
                    KeySetsV::Sets(sets.push(keys))
                }
            },
            other => other,
        }
    }
}

/// The views of lists of strings.
pub open spec fn string_lists_view(s: Seq<Vec<String>>) -> Seq<Seq<Seq<char>>> {
    Seq::new(s.len(), |i: int| strings_view(s[i]@))
}

enum KeySets {
    Sets(Vec<Vec<String>>),
    NoArgument,
    NoKeys,
}

proof fn lemma_key_sets_stuck(args: Seq<TyV>, indexes: Seq<usize>, i: int)
    requires
        0 <= i <= indexes.len(),
        !(key_sets(args, indexes.take(i)) is Sets),
    ensures
        key_sets(args, indexes) == key_sets(args, indexes.take(i)),
    decreases indexes.len(),
{
    if i == indexes.len() {
        assert(indexes.take(i) =~= indexes);
    } else {
        assert(indexes.drop_last().take(i) =~= indexes.take(i));
        lemma_key_sets_stuck(args, indexes.drop_last(), i);
    }
}

fn collect_key_sets(args: &Vec<Ty>, indexes: &Vec<usize>) -> (r: KeySets)
    ensures
        match r {
            KeySets::Sets(sets) => key_sets(tys_view(args@), indexes@) == KeySetsV::Sets(
                string_lists_view(sets@),
            ),
            KeySets::NoArgument => key_sets(tys_view(args@), indexes@) is NoArgument,
            KeySets::NoKeys => key_sets(tys_view(args@), indexes@) is NoKeys,
        },
{
    let ghost av = tys_view(args@);
    let ghost all = indexes@;
    let mut sets: Vec<Vec<String>> = Vec::new();
    let mut i: usize = 0;
    assert(all.take(0) =~= Seq::empty());
    assert(string_lists_view(sets@) =~= Seq::empty());
    while i < indexes.len()
        invariant
            i <= indexes.len(),
            av == tys_view(args@),
            all == indexes@,
            key_sets(av, all.take(i as int)) == KeySetsV::Sets(string_lists_view(sets@)),
        decreases indexes.len() - i,
    {
        let ghost before = string_lists_view(sets@);
        proof {
            assert(all.take(i + 1).drop_last() =~= all.take(i as int));
            assert(all.take(i + 1).last() == all[i as int]);
            assert(av.len() == args@.len());
        }
        let index = indexes[i];
        if index >= args.len() {
            proof {
                lemma_key_sets_stuck(av, all, i + 1);
            }
            return KeySets::NoArgument;
        }
        assert(av[index as int] == ty_view(args@[index as int]));
        let keys = trait_impl_target_keys_from_ty(&args[index]);
        if keys.len() == 0 {
            proof {
                lemma_key_sets_stuck(av, all, i + 1);
            }
            return KeySets::NoKeys;
        }
        let ghost kv = strings_view(keys@);
        sets.push(keys);
        assert(string_lists_view(sets@) =~= before.push(kv));
        i = i + 1;
    }
    assert(all.take(all.len() as int) =~= all);
    KeySets::Sets(sets)
}

/// A dictionary that was found, and the substitution that finding it made.
pub type Found = Option<(DictRefV, Option<SubstV>)>;

/// What the dictionary named by `keys` gives. With a substitution the arguments
/// are unified with the dictionary's methods first.
pub open spec fn found_at(
    k: KnownV,
    trait_name: Seq<char>,
    args: Seq<TyV>,
    keys: Seq<Seq<char>>,
    s: Option<SubstV>,
) -> Found {
    let name = dict_name_of_keys(trait_name, keys);
    match s {
        None => if !has_dict(k, name) {
            None
        } else {
            match scheme_of(k, name) {
                None => Some((DictRefV::Concrete(name), None)),
                Some(scheme) => match dict_args_for(k, scheme, args, MAX_DICT_DEPTH as nat) {
                    None => None,
                    Some(dicts) => Some((dict_with(name, dicts), None)),
                },
            }
        },
        Some(s) => match scheme_of(k, name) {
            None => if k.dicts.contains(name) {
                Some((DictRefV::Concrete(name), Some(s)))
            } else {
                None
            },
            Some(scheme) => found_by_scheme(k, name, scheme, args, s),
        },
    }
}

/// What the dictionary `name` gives once the arguments are unified with its
/// methods.
pub open spec fn found_by_scheme(
    k: KnownV,
    name: Seq<char>,
    scheme: SchemeV,
    args: Seq<TyV>,
    s: SubstV,
) -> Found {
    match unify_with_methods(s, scheme.ty, args) {
        None => None,
        Some(s2) => match dict_args_for(
            k,
            scheme,
            apply_tys(s2.map, args),
            MAX_DICT_DEPTH as nat,
        ) {
            None => None,
            Some(dicts) => Some((dict_with(name, dicts), Some(s2))),
        },
    }
}

/// The substitution under which the first method that can be unified with the
/// trait arguments is unified with them.
pub open spec fn unify_with_methods(s: SubstV, dict_ty: TyV, actuals: Seq<TyV>) -> Option<SubstV> {
    match dict_ty {
        TyV::Record(row) => unify_with_fields(s, row.fields, 0, actuals),
        _ => None,
    }
}

pub open spec fn unify_with_fields(
    s: SubstV,
    fields: Seq<FieldV>,
    i: nat,
    actuals: Seq<TyV>,
) -> Option<SubstV>
    decreases fields.len() - i,
{
    if i >= fields.len() {
        None
    } else {
        match unify_with_method(s, fields[i as int].1, actuals) {
            Some(s2) => Some(s2),
            None => unify_with_fields(s, fields, i + 1, actuals),
        }
    }
}

pub open spec fn unify_with_method(s: SubstV, field: TyV, actuals: Seq<TyV>) -> Option<SubstV> {
    match field {
        TyV::Func(params, ret) => if actuals.len() == 0 || params.len() > actuals.len() {
            None
        } else {
            match unify_each(s, param_tys(params), actuals, 0) {
                None => None,
                Some(s2) => if params.len() < actuals.len() {
                    let o = unify_types(s2, *ret.ty, actuals[params.len() as int]);
                    if o.1 is None {
                        Some(o.0)
                    } else {
                        None
                    }
                } else {
                    Some(s2)
                },
            }
        },
        _ => None,
    }
}

/// Unifies the types from the one at `i` on with those beside them.
pub open spec fn unify_each(s: SubstV, a: Seq<TyV>, b: Seq<TyV>, i: nat) -> Option<SubstV>
    decreases a.len() - i,
{
    if i >= a.len() || i >= b.len() {
        Some(s)
    } else {
        let o = unify_types(s, a[i as int], b[i as int]);
        if o.1 is None {
            unify_each(o.0, a, b, i + 1)
        } else {
            None
        }
    }
}

/// The first dictionary that one of the keys in each set names; `keys` are those
/// chosen so far.
pub open spec fn search(
    k: KnownV,
    trait_name: Seq<char>,
    args: Seq<TyV>,
    sets: Seq<Seq<Seq<char>>>,
    keys: Seq<Seq<char>>,
    s: Option<SubstV>,
) -> Found
    decreases sets.len() - keys.len(), 1nat, 0nat,
{
    if keys.len() >= sets.len() {
        found_at(k, trait_name, args, keys, s)
    } else {
        search_from(k, trait_name, args, sets, keys, 0, s)
    }
}

pub open spec fn search_from(
    k: KnownV,
    trait_name: Seq<char>,
    args: Seq<TyV>,
    sets: Seq<Seq<Seq<char>>>,
    keys: Seq<Seq<char>>,
    j: nat,
    s: Option<SubstV>,
) -> Found
    decreases sets.len() - keys.len(), 0nat, sets[keys.len() as int].len() - j,
{
    if keys.len() >= sets.len() || j >= sets[keys.len() as int].len() {
        None
    } else {
        match search(
            k,
            trait_name,
            args,
            sets,
            keys.push(sets[keys.len() as int][j as int]),
            s,
        ) {
            Some(found) => Some(found),
            None => search_from(k, trait_name, args, sets, keys, j + 1, s),
        }
    }
}

/// A dictionary for a trait with several arguments.
pub open spec fn multi_dict(
    k: KnownV,
    trait_name: Seq<char>,
    args: Seq<TyV>,
    indexes: Seq<usize>,
) -> Option<DictRefV> {
    match key_sets(args, indexes) {
        KeySetsV::Sets(sets) => match search(k, trait_name, args, sets, Seq::empty(), None) {
            Some(found) => Some(found.0),
            None => None,
        },
        _ => None,
    }
}

/// Whether a dictionary and a substitution are what `want` says.
pub open spec fn says_found(r: Option<DictRef>, s: Subst, before: SubstV, want: Found) -> bool {
    match (r, want) {
        (Some(a), Some(b)) => a@ == b.0 && b.1 == Some(s@),
        (None, None) => s@ == before,
        _ => false,
    }
}

fn unify_method(
    s: &mut Subst,
    field: &Ty,
    actuals: &Vec<Ty>,
) -> (r: bool)
    requires
        old(s).wf(),
    ensures
        final(s).wf(),
        match unify_with_method(old(s)@, field@, tys_view(actuals@)) {
            Some(s2) => r && final(s)@ == s2,
            None => !r && final(s)@ == old(s)@,
        },
{
    let ghost start = s@;
    let ghost xv = tys_view(actuals@);
    let (params, ret) = match field {
        Ty::Func(params, ret) => (params, ret),
        _ => {
            return false;
        },
    };
    let ghost pv = param_tys(params_view(params@));
    assert(field@ == TyV::Func(params_view(params@), return_view(*ret)));
    assert(return_view(*ret).ty == Box::new(ty_view(*ret.ty)));
    assert(params_view(params@).len() == params@.len());
    assert(xv.len() == actuals@.len());
    if actuals.len() == 0 || params.len() > actuals.len() {
        return false;
    }
    let mut trial = s.clone();
    let mut i: usize = 0;
    while i < params.len()
        invariant
            i <= params.len(),
            params.len() <= actuals.len(),
            actuals.len() > 0,
            trial.wf(),
            s.wf(),
            *s == *old(s),
            start == s@,
            pv == param_tys(params_view(params@)),
            pv.len() == params@.len(),
            xv == tys_view(actuals@),
            xv.len() == actuals@.len(),
            field@ == TyV::Func(params_view(params@), return_view(*ret)),
            unify_each(start, pv, xv, 0) == unify_each(trial@, pv, xv, i as nat),
        decreases params.len() - i,
    {
        assert(params_view(params@)[i as int] == param_view(params@[i as int]));
        assert(xv[i as int] == ty_view(actuals@[i as int]));
        match unify(&mut trial, params[i].ty.clone(), actuals[i].clone()) {
            Ok(_) => {},
            Err(_) => {
                return false;
            },
        }
        i = i + 1;
    }
    if params.len() < actuals.len() {
        assert(xv[params@.len() as int] == ty_view(actuals@[params@.len() as int]));
        match unify(&mut trial, (*ret.ty).clone(), actuals[params.len()].clone()) {
            Ok(_) => {},
            Err(_) => {
                return false;
            },
        }
    }
    *s = trial;
    true
}

fn unify_scheme_method_actuals(dict_ty: &Ty, actuals: &Vec<Ty>, s: &mut Subst) -> (r: bool)
    requires
        old(s).wf(),
    ensures
        final(s).wf(),
        match unify_with_methods(old(s)@, dict_ty@, tys_view(actuals@)) {
            Some(s2) => r && final(s)@ == s2,
            None => !r && final(s)@ == old(s)@,
        },
{
    let row = match dict_ty {
        Ty::Record(row) => row,
        _ => {
            return false;
        },
    };
    let ghost start = s@;
    let ghost fields = fields_view(row.fields@);
    let ghost xv = tys_view(actuals@);
    assert(dict_ty@ == TyV::Record(row_view(*row)));
    assert(row_view(*row).fields == fields);
    let mut i: usize = 0;
    while i < row.fields.len()
        invariant
            i <= row.fields.len(),
            s.wf(),
            s@ == start,
            start == old(s)@,
            fields == fields_view(row.fields@),
            xv == tys_view(actuals@),
            dict_ty@ == TyV::Record(row_view(*row)),
            row_view(*row).fields == fields,
            unify_with_fields(start, fields, 0, xv) == unify_with_fields(
                start,
                fields,
                i as nat,
                xv,
            ),
        decreases row.fields.len() - i,
    {
        assert(fields[i as int] == field_view(row.fields@[i as int]));
        if unify_method(s, &row.fields[i].1, actuals) {
            return true;
        }
        i = i + 1;
    }
    false
}

fn try_scheme(
    k: &Known,
    name: &String,
    scheme: &Scheme,
    args: &Vec<Ty>,
    s: &mut Subst,
) -> (r: Option<DictRef>)
    requires
        old(s).wf(),
    ensures
        final(s).wf(),
        says_found(
            r,
            *final(s),
            old(s)@,
            found_by_scheme(k@, name@, scheme@, tys_view(args@), old(s)@),
        ),
{
    let mut trial = s.clone();
    if !unify_scheme_method_actuals(&scheme.ty, args, &mut trial) {
        return None;
    }
    let resolved = trial.apply_tys(args);
    match dict_ref_args_for_scheme_args(scheme, &resolved, k) {
        None => None,
        Some(dicts) => {
            *s = trial;
            Some(make_dict(name.clone(), dicts))
        },
    }
}

fn try_keys_unifying(
    k: &Known,
    trait_name: &str,
    args: &Vec<Ty>,
    keys: &Vec<String>,
    s: &mut Subst,
) -> (r: Option<DictRef>)
    requires
        old(s).wf(),
    ensures
        final(s).wf(),
        says_found(
            r,
            *final(s),
            old(s)@,
            found_at(
                k@,
                trait_name@,
                tys_view(args@),
                strings_view(keys@),
                Some(old(s)@),
            ),
        ),
{
    let name = trait_impl_dict_name_from_keys(trait_name, keys);
    match find_scheme(k, name.as_str()) {
        None => {
            if k.dicts.contains(name.as_str()) {
                Some(DictRef::Concrete(name))
            } else {
                None
            }
        },
        Some(scheme) => try_scheme(k, &name, scheme, args, s),
    }
}

fn try_keys(k: &Known, trait_name: &str, args: &Vec<Ty>, keys: &Vec<String>) -> (r: Option<DictRef>)
    ensures
        match (r, found_at(k@, trait_name@, tys_view(args@), strings_view(keys@), None)) {
            (Some(a), Some(b)) => a@ == b.0,
            (None, None) => true,
            _ => false,
        },
{
    let name = trait_impl_dict_name_from_keys(trait_name, keys);
    if k.env.get(name.as_str()).is_none() && !k.dicts.contains(name.as_str()) {
        return None;
    }
    match find_scheme(k, name.as_str()) {
        None => Some(DictRef::Concrete(name)),
        Some(scheme) => match dict_ref_args_for_scheme_args(scheme, args, k) {
            None => None,
            Some(dicts) => Some(make_dict(name, dicts)),
        },
    }
}

fn push_key(keys: &Vec<String>, key: &String) -> (r: Vec<String>)
    ensures
        strings_view(r@) == strings_view(keys@).push(key@),
        r@.len() == keys@.len() + 1,
{
    let mut out = clone_strings(keys);
    let ghost before = strings_view(out@);
    out.push(key.clone());
    assert(strings_view(out@) =~= before.push(key@));
    assert(strings_view(keys@).len() == keys@.len());
    assert(strings_view(out@).len() == out@.len());
    out
}

fn search_keys(
    k: &Known,
    trait_name: &str,
    args: &Vec<Ty>,
    sets: &Vec<Vec<String>>,
    keys: &Vec<String>,
) -> (r: Option<DictRef>)
    ensures
        match (r, search(k@, trait_name@, tys_view(args@), string_lists_view(sets@), strings_view(keys@), None)) {
            (Some(a), Some(b)) => a@ == b.0,
            (None, None) => true,
            _ => false,
        },
    decreases sets.len() - keys.len(),
{
    let ghost sv = string_lists_view(sets@);
    let ghost kv = strings_view(keys@);
    let ghost av = tys_view(args@);
    assert(kv.len() == keys@.len());
    assert(sv.len() == sets@.len());
    if keys.len() >= sets.len() {
        return try_keys(k, trait_name, args, keys);
    }
    let set = &sets[keys.len()];
    assert(sv[kv.len() as int] == strings_view(set@));
    let mut j: usize = 0;
    while j < set.len()
        invariant
            j <= set.len(),
            keys.len() < sets.len(),
            sv == string_lists_view(sets@),
            sv.len() == sets@.len(),
            kv == strings_view(keys@),
            kv.len() == keys@.len(),
            av == tys_view(args@),
            sv[kv.len() as int] == strings_view(set@),
            search(k@, trait_name@, av, sv, kv, None) == search_from(
                k@,
                trait_name@,
                av,
                sv,
                kv,
                j as nat,
                None,
            ),
        decreases set.len() - j,
    {
        let next = push_key(keys, &set[j]);
        assert(strings_view(set@)[j as int] == set@[j as int]@);
        match search_keys(k, trait_name, args, sets, &next) {
            Some(found) => {
                return Some(found);
            },
            None => {},
        }
        j = j + 1;
    }
    None
}

fn search_keys_unifying(
    k: &Known,
    trait_name: &str,
    args: &Vec<Ty>,
    sets: &Vec<Vec<String>>,
    keys: &Vec<String>,
    s: &mut Subst,
) -> (r: Option<DictRef>)
    requires
        old(s).wf(),
    ensures
        final(s).wf(),
        says_found(
            r,
            *final(s),
            old(s)@,
            search(
                k@,
                trait_name@,
                tys_view(args@),
                string_lists_view(sets@),
                strings_view(keys@),
                Some(old(s)@),
            ),
        ),
    decreases sets.len() - keys.len(),
{
    let ghost sv = string_lists_view(sets@);
    let ghost kv = strings_view(keys@);
    let ghost av = tys_view(args@);
    let ghost start = s@;
    assert(kv.len() == keys@.len());
    assert(sv.len() == sets@.len());
    if keys.len() >= sets.len() {
        return try_keys_unifying(k, trait_name, args, keys, s);
    }
    let set = &sets[keys.len()];
    assert(sv[kv.len() as int] == strings_view(set@));
    let mut j: usize = 0;
    while j < set.len()
        invariant
            j <= set.len(),
            keys.len() < sets.len(),
            sv == string_lists_view(sets@),
            sv.len() == sets@.len(),
            kv == strings_view(keys@),
            kv.len() == keys@.len(),
            av == tys_view(args@),
            sv[kv.len() as int] == strings_view(set@),
            s.wf(),
            s@ == start,
            start == old(s)@,
            search(k@, trait_name@, av, sv, kv, Some(start)) == search_from(
                k@,
                trait_name@,
                av,
                sv,
                kv,
                j as nat,
                Some(start),
            ),
        decreases set.len() - j,
    {
        let next = push_key(keys, &set[j]);
        assert(strings_view(set@)[j as int] == set@[j as int]@);
        match search_keys_unifying(k, trait_name, args, sets, &next, s) {
            Some(found) => {
                return Some(found);
            },
            None => {},
        }
        j = j + 1;
    }
    None
}

/// A dictionary for a trait with several arguments.
pub fn resolve_concrete_multi_dict_ref(
    trait_name: &str,
    args: &Vec<Ty>,
    indexes: &Vec<usize>,
    k: &Known,
) -> (r: Option<DictRef>)
    ensures
        says_dict(r, multi_dict(k@, trait_name@, tys_view(args@), indexes@)),
{
    match collect_key_sets(args, indexes) {
        KeySets::Sets(sets) => {
            let keys: Vec<String> = Vec::new();
            assert(strings_view(keys@) =~= Seq::empty());
            search_keys(k, trait_name, args, &sets, &keys)
        },
        _ => None,
    }
}

/// A dictionary for trait arguments, without unifying anything.
pub open spec fn dict_for_args(
    k: KnownV,
    trait_name: Seq<char>,
    args: Seq<TyV>,
    indexes: Seq<usize>,
) -> Option<DictRefV> {
    if args.len() == 1 {
        dict_for(k, trait_name, args[0], MAX_DICT_DEPTH as nat)
    } else {
        multi_dict(k, trait_name, args, indexes)
    }
}

fn resolve_concrete_from_args(
    trait_name: &str,
    args: &Vec<Ty>,
    indexes: &Vec<usize>,
    k: &Known,
) -> (r: Option<DictRef>)
    ensures
        says_dict(r, dict_for_args(k@, trait_name@, tys_view(args@), indexes@)),
{
    assert(tys_view(args@).len() == args@.len());
    if args.len() == 1 {
        assert(tys_view(args@)[0] == ty_view(args@[0]));
        return resolve_concrete_dict_ref(trait_name, &args[0], k);
    }
    resolve_concrete_multi_dict_ref(trait_name, args, indexes, k)
}

// ---------------------------------------------------------------------------
// Dictionaries found by the shape of their methods
// ---------------------------------------------------------------------------

/// Whether `name` starts with `prefix`.
pub open spec fn starts_with(name: Seq<char>, prefix: Seq<char>) -> bool {
    prefix.len() <= name.len() && name.take(prefix.len() as int) == prefix
}

pub fn has_prefix(name: &str, prefix: &str) -> (r: bool)
    ensures
        r == starts_with(name@, prefix@),
{
    let n = name.unicode_len();
    let p = prefix.unicode_len();
    if p > n {
        return false;
    }
    let mut i: usize = 0;
    while i < p
        invariant
            i <= p,
            p <= n,
            n == name@.len(),
            p == prefix@.len(),
            forall|j: int| 0 <= j < i ==> name@[j] == #[trigger] prefix@[j],
        decreases p - i,
    {
        if name.get_char(i) != prefix.get_char(i) {
            assert(name@.take(p as int)[i as int] != prefix@[i as int]);
            return false;
        }
        i = i + 1;
    }
    assert(name@.take(p as int) =~= prefix@);
    true
}

/// What the names of a trait's dictionaries start with.
pub open spec fn dict_prefix(trait_name: Seq<char>) -> Seq<char> {
    "__"@ + trait_name + "__"@
}

/// The names that schemes are known for, in dictionary order.
pub open spec fn scheme_names(k: KnownV) -> Seq<Seq<char>> {
    sorted_names(k.env.dom().union(k.schemes.dom()))
}

/// The first of `names`, from the one at `i` on, that is a dictionary of the
/// trait and whose methods can be unified with the arguments.
pub open spec fn found_by_shape(
    k: KnownV,
    trait_name: Seq<char>,
    args: Seq<TyV>,
    names: Seq<Seq<char>>,
    i: nat,
    s: SubstV,
) -> Found
    decreases names.len() - i,
{
    if i >= names.len() {
        None
    } else {
        let name = names[i as int];
        let found = if starts_with(name, dict_prefix(trait_name)) {
            match scheme_of(k, name) {
                Some(scheme) => found_by_scheme(k, name, scheme, args, s),
                None => None,
            }
        } else {
            None
        };
        match found {
            Some(f) => Some(f),
            None => found_by_shape(k, trait_name, args, names, i + 1, s),
        }
    }
}

/// A dictionary found by the shape of its methods. Nothing is found for
/// arguments of which nothing is known. Where several dictionaries would do, the
/// first in dictionary order is taken.
pub open spec fn dict_by_shape(k: KnownV, trait_name: Seq<char>, args: Seq<TyV>, s: SubstV) -> Found {
    if has_shape_in(apply_tys(s.map, args)) {
        found_by_shape(k, trait_name, args, scheme_names(k), 0, s)
    } else {
        None
    }
}

/// A dictionary for trait arguments, unifying them with the methods of what is
/// found.
pub open spec fn dict_unifying(
    k: KnownV,
    trait_name: Seq<char>,
    args: Seq<TyV>,
    indexes: Seq<usize>,
    s: SubstV,
) -> Found {
    if args.len() == 1 {
        match dict_for(k, trait_name, args[0], MAX_DICT_DEPTH as nat) {
            Some(d) => Some((d, Some(s))),
            None => None,
        }
    } else {
        match key_sets(args, indexes) {
            KeySetsV::NoArgument => None,
            KeySetsV::NoKeys => dict_by_shape(k, trait_name, args, s),
            KeySetsV::Sets(sets) => match search(
                k,
                trait_name,
                args,
                sets,
                Seq::empty(),
                Some(s),
            ) {
                Some(f) => Some(f),
                None => dict_by_shape(k, trait_name, args, s),
            },
        }
    }
}

fn all_scheme_names(k: &Known) -> (r: Vec<String>)
    ensures
        strings_view(r@) == scheme_names(k@),
{
    let mut all = NameSet::new();
    let env_names = k.env.names();
    let scheme_names = k.schemes.names();
    insert_names(&mut all, &env_names);
    insert_names(&mut all, &scheme_names);
    proof {
        assert(all@ =~= k@.env.dom().union(k@.schemes.dom()));
    }
    all.names()
}

fn insert_names(set: &mut NameSet, names: &Vec<String>)
    ensures
        forall|n: Seq<char>|
            #[trigger] final(set)@.contains(n) <==> old(set)@.contains(n) || strings_view(
                names@,
            ).contains(n),
{
    let ghost all = strings_view(names@);
    let ghost start = set@;
    let mut i: usize = 0;
    while i < names.len()
        invariant
            i <= names.len(),
            all == strings_view(names@),
            start == old(set)@,
            forall|n: Seq<char>|
                #[trigger] set@.contains(n) <==> start.contains(n) || all.take(i as int).contains(
                    n,
                ),
        decreases names.len() - i,
    {
        let ghost before = set@;
        proof {
            assert(all[i as int] == names@[i as int]@);
            assert(all.take(i + 1) =~= all.take(i as int).push(all[i as int]));
        }
        set.insert(names[i].clone());
        proof {
            assert forall|n: Seq<char>|
                #[trigger] set@.contains(n) <==> start.contains(n) || all.take(i + 1).contains(n) by {
                crate::tables::lemma_push_contains(all.take(i as int), all[i as int], n);
                assert(before.contains(n) <==> start.contains(n) || all.take(i as int).contains(
                    n,
                ));
            }
        }
        i = i + 1;
    }
    assert(all.take(all.len() as int) =~= all);
}

fn resolve_concrete_from_impl_schemes_unifying(
    trait_name: &str,
    args: &Vec<Ty>,
    k: &Known,
    s: &mut Subst,
) -> (r: Option<DictRef>)
    requires
        old(s).wf(),
    ensures
        final(s).wf(),
        says_found(
            r,
            *final(s),
            old(s)@,
            dict_by_shape(k@, trait_name@, tys_view(args@), old(s)@),
        ),
{
    let ghost start = s@;
    let ghost av = tys_view(args@);
    let applied = s.apply_tys(args);
    if !ty_has_concrete_shape_tys(&applied) {
        return None;
    }
    let names = all_scheme_names(k);
    let ghost all = strings_view(names@);
    let mut prefix = "__".to_owned();
    prefix.append(trait_name);
    prefix.append("__");
    let mut i: usize = 0;
    while i < names.len()
        invariant
            i <= names.len(),
            s.wf(),
            s@ == start,
            start == old(s)@,
            av == tys_view(args@),
            all == strings_view(names@),
            prefix@ == dict_prefix(trait_name@),
            dict_by_shape(k@, trait_name@, av, start) == found_by_shape(
                k@,
                trait_name@,
                av,
                all,
                i as nat,
                start,
            ),
        decreases names.len() - i,
    {
        assert(all[i as int] == names@[i as int]@);
        if has_prefix(names[i].as_str(), prefix.as_str()) {
            if let Some(scheme) = find_scheme(k, names[i].as_str()) {
                match try_scheme(k, &names[i], scheme, args, s) {
                    Some(found) => {
                        return Some(found);
                    },
                    None => {},
                }
            }
        }
        i = i + 1;
    }
    None
}

/// A dictionary for trait arguments, unifying them with the methods of what is
/// found.
pub fn resolve_concrete_from_args_unifying(
    trait_name: &str,
    args: &Vec<Ty>,
    indexes: &Vec<usize>,
    k: &Known,
    s: &mut Subst,
) -> (r: Option<DictRef>)
    requires
        old(s).wf(),
    ensures
        final(s).wf(),
        says_found(
            r,
            *final(s),
            old(s)@,
            dict_unifying(k@, trait_name@, tys_view(args@), indexes@, old(s)@),
        ),
{
    assert(tys_view(args@).len() == args@.len());
    if args.len() == 1 {
        assert(tys_view(args@)[0] == ty_view(args@[0]));
        return resolve_concrete_dict_ref(trait_name, &args[0], k);
    }
    match collect_key_sets(args, indexes) {
        KeySets::NoArgument => None,
        KeySets::NoKeys => resolve_concrete_from_impl_schemes_unifying(trait_name, args, k, s),
        KeySets::Sets(sets) => {
            let keys: Vec<String> = Vec::new();
            assert(strings_view(keys@) =~= Seq::empty());
            match search_keys_unifying(k, trait_name, args, &sets, &keys, s) {
                Some(found) => Some(found),
                None => resolve_concrete_from_impl_schemes_unifying(trait_name, args, k, s),
            }
        },
    }
}

// ---------------------------------------------------------------------------
// Passing dictionaries
// ---------------------------------------------------------------------------

/// What passing dictionaries for constraints adds.
pub struct AttachV {
    pub subst: SubstV,
    pub dicts: Seq<DictRefV>,
    pub pending: Seq<PendingDictArgV>,
    pub constraints: Seq<ConstraintV>,
    pub err: Option<TypeErrorV>,
}

/// Passes a dictionary for each constraint: the one of the constraint's type
/// where that is known, and a pending one where it is not.
pub open spec fn attach(a: AttachV, k: KnownV, cs: Seq<ConstraintV>, i: nat) -> AttachV
    decreases cs.len() - i,
{
    if a.err is Some || i >= cs.len() {
        a
    } else {
        attach(attach_one(a, k, cs[i as int]), k, cs, i + 1)
    }
}

pub open spec fn attach_one(a: AttachV, k: KnownV, c: ConstraintV) -> AttachV {
    let m = a.subst.map;
    match apply(m, TyV::Var(c.var)) {
        TyV::Var(var) => AttachV {
            constraints: a.constraints.push(
                ConstraintV {
                    var,
                    trait_name: c.trait_name,
                    args: apply_tys(m, c.args),
                    determinant_indexes: c.determinant_indexes,
                },
            ),
            pending: a.pending.push(
                PendingDictArgV {
                    var,
                    trait_name: c.trait_name,
                    args: apply_tys(m, c.args),
                    determinant_indexes: c.determinant_indexes,
                },
            ),
            ..a
        },
        resolved => match dict_unifying(
            k,
            c.trait_name,
            apply_tys(m, c.args),
            c.determinant_indexes,
            a.subst,
        ) {
            Some(found) => AttachV {
                subst: found.1->0,
                dicts: a.dicts.push(found.0),
                ..a
            },
            None => AttachV {
                err: Some(
                    TypeErrorV::MissingTraitImpl {
                        trait_name: c.trait_name,
                        impl_target: shown(resolved),
                    },
                ),
                ..a
            },
        },
    }
}

/// A type as messages show it.
pub open spec fn shown(ty: TyV) -> Seq<char> {
    ty_text(Map::empty(), ty)
}

fn attach_dict_arg(
    k: &Known,
    dict_args: &mut Vec<DictRef>,
    pending_dict_args: &mut Vec<PendingDictArg>,
    pending_constraints: &mut Vec<TraitConstraint>,
    c: &TraitConstraint,
    s: &mut Subst,
) -> (r: Result<(), TypeError>)
    requires
        old(s).wf(),
    ensures
        final(s).wf(),
        (AttachV {
            subst: final(s)@,
            dicts: dict_refs_view(final(dict_args)@),
            pending: pending_dict_args_view(final(pending_dict_args)@),
            constraints: constraints_view(final(pending_constraints)@),
            err: error_of(r),
        }) == attach_one(
            (AttachV {
                subst: old(s)@,
                dicts: dict_refs_view(old(dict_args)@),
                pending: pending_dict_args_view(old(pending_dict_args)@),
                constraints: constraints_view(old(pending_constraints)@),
                err: None,
            }),
            k@,
            c@,
        ),
{
    let resolved = s.apply(&Ty::Var(c.var));
    let args = s.apply_tys(&c.args);
    if let Ty::Var(var) = resolved {
        let ghost before_c = constraints_view(pending_constraints@);
        let ghost before_p = pending_dict_args_view(pending_dict_args@);
        let more = s.apply_tys(&c.args);
        pending_constraints.push(
            TraitConstraint {
                var,
                trait_name: c.trait_name.clone(),
                args,
                determinant_indexes: clone_indexes(&c.determinant_indexes),
            },
        );
        pending_dict_args.push(
            PendingDictArg {
                var,
                trait_name: c.trait_name.clone(),
                args: more,
                determinant_indexes: clone_indexes(&c.determinant_indexes),
            },
        );
        assert(constraints_view(pending_constraints@) =~= before_c.push(
            constraint_view(pending_constraints@.last()),
        ));
        assert(pending_dict_args_view(pending_dict_args@) =~= before_p.push(
            pending_dict_arg_view(pending_dict_args@.last()),
        ));
    } else {
        let ghost before_d = dict_refs_view(dict_args@);
        match resolve_concrete_from_args_unifying(
            c.trait_name.as_str(),
            &args,
            &c.determinant_indexes,
            k,
            s,
        ) {
            Some(d) => {
                dict_args.push(d);
                assert(dict_refs_view(dict_args@) =~= before_d.push(d@));
            },
            None => {
                return Err(
                    TypeError::MissingTraitImpl {
                        trait_name: c.trait_name.clone(),
                        impl_target: resolved.to_string(),
                    },
                );
            },
        }
    }
    Ok(())
}

/// Passes a dictionary for each constraint.
pub fn attach_dict_args(
    k: &Known,
    dict_args: &mut Vec<DictRef>,
    pending_dict_args: &mut Vec<PendingDictArg>,
    pending_constraints: &mut Vec<TraitConstraint>,
    cs: &Vec<TraitConstraint>,
    s: &mut Subst,
) -> (r: Result<(), TypeError>)
    requires
        old(s).wf(),
    ensures
        final(s).wf(),
        (AttachV {
            subst: final(s)@,
            dicts: dict_refs_view(final(dict_args)@),
            pending: pending_dict_args_view(final(pending_dict_args)@),
            constraints: constraints_view(final(pending_constraints)@),
            err: error_of(r),
        }) == attach(
            (AttachV {
                subst: old(s)@,
                dicts: dict_refs_view(old(dict_args)@),
                pending: pending_dict_args_view(old(pending_dict_args)@),
                constraints: constraints_view(old(pending_constraints)@),
                err: None,
            }),
            k@,
            constraints_view(cs@),
            0,
        ),
{
    let ghost all = constraints_view(cs@);
    let ghost want = attach(
        AttachV {
            subst: s@,
            dicts: dict_refs_view(dict_args@),
            pending: pending_dict_args_view(pending_dict_args@),
            constraints: constraints_view(pending_constraints@),
            err: None,
        },
        k@,
        all,
        0,
    );
    let mut i: usize = 0;
    while i < cs.len()
        invariant
            i <= cs.len(),
            s.wf(),
            all == constraints_view(cs@),
            want == attach(
                (AttachV {
                    subst: old(s)@,
                    dicts: dict_refs_view(old(dict_args)@),
                    pending: pending_dict_args_view(old(pending_dict_args)@),
                    constraints: constraints_view(old(pending_constraints)@),
                    err: None,
                }),
                k@,
                all,
                0,
            ),
            want == attach(
                (AttachV {
                    subst: s@,
                    dicts: dict_refs_view(dict_args@),
                    pending: pending_dict_args_view(pending_dict_args@),
                    constraints: constraints_view(pending_constraints@),
                    err: None,
                }),
                k@,
                all,
                i as nat,
            ),
        decreases cs.len() - i,
    {
        assert(all[i as int] == constraint_view(cs@[i as int]));
        match attach_dict_arg(
            k,
            dict_args,
            pending_dict_args,
            pending_constraints,
            &cs[i],
            s,
        ) {
            Ok(_) => {},
            Err(err) => {
                proof {
                    let a = AttachV {
                        subst: s@,
                        dicts: dict_refs_view(dict_args@),
                        pending: pending_dict_args_view(pending_dict_args@),
                        constraints: constraints_view(pending_constraints@),
                        err: Some(err@),
                    };
                    assert(attach(a, k@, all, (i + 1) as nat) == a);
                }
                return Err(err);
            },
        }
        i = i + 1;
    }
    Ok(())
}

// ---------------------------------------------------------------------------
// Pending dictionaries
// ---------------------------------------------------------------------------

/// Where pending dictionaries are looked for: the dictionary parameters of the
/// function around, and what is known of implementations.
pub struct Resolver<'a> {
    pub locals: &'a Vec<TraitConstraint>,
    pub known: Known<'a>,
    pub subst: &'a Subst,
}

/// The view of a [`Resolver`].
pub struct ResolverV {
    pub locals: Seq<ConstraintV>,
    pub known: KnownV,
    pub map: Map<TyVar, TyV>,
}

impl<'a> View for Resolver<'a> {
    type V = ResolverV;

    open spec fn view(&self) -> ResolverV {
        ResolverV {
            locals: constraints_view(self.locals@),
            known: self.known@,
            map: self.subst@.map,
        }
    }
}

impl<'a> Resolver<'a> {
    pub open spec fn wf(&self) -> bool {
        self.subst.wf()
    }
}

/// Whether a parameter's constraint is what is pending. They have to be the same
/// as they stand: unifying here would choose a dictionary, not find one.
pub open spec fn local_fits(m: Map<TyVar, TyV>, c: ConstraintV, p: PendingDictArgV) -> bool {
    c.trait_name == p.trait_name && c.determinant_indexes == p.determinant_indexes && c.args.len()
        == p.args.len() && forall|i: int|
        0 <= i < c.args.len() ==> apply(m, #[trigger] c.args[i]) == apply(m, p.args[i])
}

/// The first of the constraints, from the one at `i` on, that fits.
pub open spec fn first_local(
    m: Map<TyVar, TyV>,
    cs: Seq<ConstraintV>,
    p: PendingDictArgV,
    i: nat,
) -> Option<DictRefV>
    decreases cs.len() - i,
{
    if i >= cs.len() {
        None
    } else if local_fits(m, cs[i as int], p) {
        Some(DictRefV::Param(param_name(cs[i as int])))
    } else {
        first_local(m, cs, p, i + 1)
    }
}

/// The dictionary for what is pending.
pub open spec fn resolve_pending(c: ResolverV, p: PendingDictArgV) -> Option<DictRefV> {
    let local = if apply(c.map, TyV::Var(p.var)) is Var {
        first_local(c.map, c.locals, p, 0)
    } else {
        None
    };
    match local {
        Some(d) => Some(d),
        None => dict_for_args(
            c.known,
            p.trait_name,
            apply_tys(c.map, p.args),
            p.determinant_indexes,
        ),
    }
}

fn indexes_eq(a: &Vec<usize>, b: &Vec<usize>) -> (r: bool)
    ensures
        r == (a@ == b@),
{
    if a.len() != b.len() {
        return false;
    }
    let mut i: usize = 0;
    while i < a.len()
        invariant
            i <= a.len(),
            a.len() == b.len(),
            forall|j: int| 0 <= j < i ==> a@[j] == b@[j],
        decreases a.len() - i,
    {
        if a[i] != b[i] {
            return false;
        }
        i = i + 1;
    }
    assert(a@ =~= b@);
    true
}

fn local_constraint_matches_pending(c: &TraitConstraint, p: &PendingDictArg, s: &Subst) -> (r: bool)
    requires
        s.wf(),
    ensures
        r == local_fits(s@.map, c@, p@),
{
    let ghost ca = tys_view(c.args@);
    let ghost pa = tys_view(p.args@);
    assert(ca.len() == c.args@.len());
    assert(pa.len() == p.args@.len());
    if !str_eq(c.trait_name.as_str(), p.trait_name.as_str()) || !indexes_eq(
        &c.determinant_indexes,
        &p.determinant_indexes,
    ) || c.args.len() != p.args.len() {
        return false;
    }
    let mut i: usize = 0;
    while i < c.args.len()
        invariant
            i <= c.args.len(),
            c.args.len() == p.args.len(),
            s.wf(),
            ca == tys_view(c.args@),
            pa == tys_view(p.args@),
            forall|j: int|
                0 <= j < i ==> apply(s@.map, #[trigger] ca[j]) == apply(s@.map, pa[j]),
        decreases c.args.len() - i,
    {
        assert(ca[i as int] == ty_view(c.args@[i as int]));
        assert(pa[i as int] == ty_view(p.args@[i as int]));
        if !ty_eq(&s.apply(&c.args[i]), &s.apply(&p.args[i])) {
            return false;
        }
        i = i + 1;
    }
    true
}

impl<'a> Resolver<'a> {
    fn resolve_local_dict_name(&self, p: &PendingDictArg) -> (r: Option<DictRef>)
        requires
            self.wf(),
        ensures
            says_dict(r, first_local(self@.map, self@.locals, p@, 0)),
    {
        let ghost all = self@.locals;
        let mut i: usize = 0;
        while i < self.locals.len()
            invariant
                i <= self.locals.len(),
                self.wf(),
                all == self@.locals,
                first_local(self@.map, all, p@, 0) == first_local(self@.map, all, p@, i as nat),
            decreases self.locals.len() - i,
        {
            assert(all[i as int] == constraint_view(self.locals@[i as int]));
            if local_constraint_matches_pending(&self.locals[i], p, self.subst) {
                return Some(DictRef::Param(dict_param_name(&self.locals[i])));
            }
            i = i + 1;
        }
        None
    }

    /// The dictionary for what is pending: that of a parameter, or that of an
    /// implementation.
    pub fn resolve_local_or_concrete(&self, p: &PendingDictArg) -> (r: Option<DictRef>)
        requires
            self.wf(),
        ensures
            says_dict(r, resolve_pending(self@, p@)),
    {
        if let Ty::Var(_) = self.subst.apply(&Ty::Var(p.var)) {
            match self.resolve_local_dict_name(p) {
                Some(d) => {
                    return Some(d);
                },
                None => {},
            }
        }
        let args = self.subst.apply_tys(&p.args);
        resolve_concrete_from_args(
            p.trait_name.as_str(),
            &args,
            &p.determinant_indexes,
            &self.known,
        )
    }
}

} // verus!
