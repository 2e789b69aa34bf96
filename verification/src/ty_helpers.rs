//! Small questions about types and constraints that the checker asks.

use std::collections::HashSet;
use vstd::prelude::*;

use crate::apply::{apply, apply_tys};
use crate::ast::{NamedType, TraitDef, Type, TypeBound, TypeParam};
use crate::ast_view::{named_type_view, named_types_view, trait_def_view, type_bound_view};
use crate::ast_view::{type_bounds_view, type_param_view, type_params_view, type_return_view};
use crate::ast_view::{type_view, types_view, NamedTypeV, TraitDefV, TypeBoundV, TypeParamV, TypeV};
use crate::convert::{ty_result, tys_result, ConvV, VarNames};
use crate::error::{TypeError, TypeErrorV};
use crate::rows::FieldV;
use crate::schemes::relevant;
use crate::state::{fresh, next_var, Infer, InferV};
use crate::steps::{all_written, equate, resolved, written};
use crate::subst::{clone_indexes, Subst};
use crate::tables::NameMap;
use crate::text::{decimal, decimal_string, join, join_strings, str_eq, strings_view};
use crate::ty::{clone_tys, constraint_view, constraints_view, field_view, fields_view};
use crate::ty::{param_view, params_view, return_view, row_view, ty_eq, ty_view, tys_view};
use crate::ty::{unary_constraint, value_func_params, value_func_return, value_params_view};
use crate::ty::{value_return_view, ConstraintV, FuncParam, FuncReturn, ParamCapability, ParamV};
use crate::ty::{ReturnCapability, ReturnV, Scheme, SchemeV, TraitConstraint, Ty, TyV, TyVar};
use crate::type_syntax::{dict_indexes, selected, trait_dict_indexes};
use crate::unify::error_of;
use crate::vars::{free_type_vars, free_type_vars_into, free_vars, list_vars, occurs_in_tys};
use crate::vars::tys_vars_into;

verus! {

broadcast use vstd::std_specs::hash::group_hash_axioms;

// ---------------------------------------------------------------------------
// Shapes of types
// ---------------------------------------------------------------------------

/// A range type over integers.
pub open spec fn range_of(name: Seq<char>) -> TyV {
    TyV::App(Box::new(TyV::Con(name)), seq![TyV::Int])
}

pub fn range_ty(name: &str) -> (r: Ty)
    ensures
        r@ == range_of(name@),
{
    let args: Vec<Ty> = vec![Ty::Int];
    assert(tys_view(args@) =~= seq![TyV::Int]);
    let con = Ty::Con(name.to_owned());
    assert(con@ == TyV::Con(name@));
    Ty::App(Box::new(con), args)
}

/// The array type.
pub open spec fn array_of(element: TyV) -> TyV {
    TyV::App(Box::new(TyV::Con("Array"@)), seq![element])
}

pub fn array_ty(element: Ty) -> (r: Ty)
    ensures
        r@ == array_of(element@),
{
    let ghost elementv = element@;
    let args: Vec<Ty> = vec![element];
    assert(tys_view(args@) =~= seq![elementv]);
    let con = Ty::Con("Array".to_owned());
    assert(con@ == TyV::Con("Array"@));
    Ty::App(Box::new(con), args)
}

/// The element type of an array type.
pub open spec fn array_element(ty: TyV) -> Option<TyV> {
    match ty {
        TyV::App(con, args) => if *con == TyV::Con("Array"@) && args.len() == 1 {
            Some(args[0])
        } else {
            None
        },
        _ => None,
    }
}

/// Whether a constructor is the named one.
fn is_con(ty: &Ty, name: &str) -> (r: bool)
    ensures
        r == (ty@ == TyV::Con(name@)),
{
    match ty {
        Ty::Con(n) => str_eq(n, name),
        _ => false,
    }
}

/// The type of an optional type.
pub open spec fn opt_ty(r: Option<Ty>) -> Option<TyV> {
    match r {
        Some(t) => Some(t@),
        None => None,
    }
}

pub fn array_element_ty(ty: &Ty) -> (r: Option<Ty>)
    ensures
        opt_ty(r) == array_element(ty@),
{
    match ty {
        Ty::App(con, args) => {
            assert(tys_view(args@).len() == args@.len());
            if is_con(con, "Array") && args.len() == 1 {
                assert(tys_view(args@)[0] == args@[0]@);
                Some(args[0].clone())
            } else {
                None
            }
        },
        _ => None,
    }
}

/// An array type whose element type is open.
pub open spec fn open_array(ty: TyV) -> bool {
    ty matches TyV::App(con, args) && *con == TyV::Con("Array"@) && args.len() == 1
        && args[0] is Var
}

pub fn is_array_with_unresolved_element(ty: &Ty) -> (r: bool)
    ensures
        r == open_array(ty@),
{
    match ty {
        Ty::App(con, args) => {
            assert(tys_view(args@).len() == args@.len());
            if is_con(con, "Array") && args.len() == 1 {
                assert(tys_view(args@)[0] == args@[0]@);
                match &args[0] {
                    Ty::Var(_) => true,
                    _ => false,
                }
            } else {
                false
            }
        },
        _ => false,
    }
}

/// What parameters may be given.
pub open spec fn caps_of(ps: Seq<ParamV>) -> Seq<ParamCapability> {
    Seq::new(ps.len(), |i: int| ps[i].capability)
}

pub fn func_param_capabilities(ps: &Vec<FuncParam>) -> (r: Vec<ParamCapability>)
    ensures
        r@ == caps_of(params_view(ps@)),
{
    let mut out: Vec<ParamCapability> = Vec::new();
    let mut i: usize = 0;
    while i < ps.len()
        invariant
            i <= ps.len(),
            out@.len() == i,
            forall|j: int| 0 <= j < i ==> #[trigger] out@[j] == params_view(ps@)[j].capability,
        decreases ps.len() - i,
    {
        assert(params_view(ps@)[i as int] == param_view(ps@[i as int]));
        out.push(ps[i].capability);
        i = i + 1;
    }
    assert(out@ =~= caps_of(params_view(ps@)));
    out
}

/// What the parameters of a function type may be given.
pub open spec fn ty_caps(ty: TyV) -> Seq<ParamCapability> {
    match ty {
        TyV::Func(ps, _) => caps_of(ps),
        _ => Seq::empty(),
    }
}

pub fn ty_param_capabilities(ty: &Ty) -> (r: Vec<ParamCapability>)
    ensures
        r@ == ty_caps(ty@),
{
    match ty {
        Ty::Func(ps, _) => func_param_capabilities(ps),
        _ => Vec::new(),
    }
}

/// Whether a function type promises a fresh place.
pub open spec fn returns_fresh(ty: TyV) -> bool {
    ty matches TyV::Func(_, ret) && ret.capability == ReturnCapability::FreshPlace
}

pub fn func_returns_fresh(ty: &Ty) -> (r: bool)
    ensures
        r == returns_fresh(ty@),
{
    match ty {
        Ty::Func(_, ret) => ret.capability == ReturnCapability::FreshPlace,
        _ => false,
    }
}

/// Whether the parameter at a position must be given a mutable place.
pub open spec fn wants_place(scheme: SchemeV, idx: nat) -> bool {
    idx < ty_caps(scheme.ty).len() && ty_caps(scheme.ty)[idx as int] == ParamCapability::MutPlace
}

pub fn scheme_param_is_mut_place(scheme: &Scheme, idx: usize) -> (r: bool)
    ensures
        r == wants_place(scheme@, idx as nat),
{
    let caps = ty_param_capabilities(&scheme.ty);
    idx < caps.len() && caps[idx].is_mut_place()
}

/// Whether some capability asks for a mutable place.
pub open spec fn some_place(caps: Seq<ParamCapability>) -> bool {
    exists|i: int| 0 <= i < caps.len() && caps[i] == ParamCapability::MutPlace
}

pub fn some_mut_place(caps: &Vec<ParamCapability>) -> (r: bool)
    ensures
        r == some_place(caps@),
{
    let mut i: usize = 0;
    while i < caps.len()
        invariant
            i <= caps.len(),
            forall|j: int| 0 <= j < i ==> caps@[j] != ParamCapability::MutPlace,
        decreases caps.len() - i,
    {
        if caps[i].is_mut_place() {
            return true;
        }
        i = i + 1;
    }
    false
}

/// The parameters that a call with arguments of these types asks for.
pub open spec fn call_params(callee: TyV, tys: Seq<TyV>) -> Seq<ParamV> {
    match callee {
        TyV::Func(ps, _) => if ps.len() == tys.len() {
            Seq::new(tys.len(), |i: int| ParamV { ty: tys[i], capability: ps[i].capability })
        } else {
            value_params_view(tys)
        },
        _ => value_params_view(tys),
    }
}

pub fn expected_func_params(callee: &Ty, tys: Vec<Ty>) -> (r: Vec<FuncParam>)
    ensures
        params_view(r@) == call_params(callee@, tys_view(tys@)),
{
    match callee {
        Ty::Func(ps, _) => {
            assert(params_view(ps@).len() == ps@.len());
            assert(tys_view(tys@).len() == tys@.len());
            if ps.len() == tys.len() {
                let ghost want = call_params(callee@, tys_view(tys@));
                let mut out: Vec<FuncParam> = Vec::new();
                let mut i: usize = 0;
                while i < tys.len()
                    invariant
                        i <= tys.len(),
                        ps@.len() == tys@.len(),
                        out@.len() == i,
                        want.len() == tys@.len(),
                        forall|j: int|
                            0 <= j < tys@.len() ==> #[trigger] want[j] == (ParamV {
                                ty: tys_view(tys@)[j],
                                capability: params_view(ps@)[j].capability,
                            }),
                        forall|j: int| 0 <= j < i ==> param_view(#[trigger] out@[j]) == want[j],
                    decreases tys.len() - i,
                {
                    assert(tys_view(tys@)[i as int] == tys@[i as int]@);
                    assert(params_view(ps@)[i as int] == param_view(ps@[i as int]));
                    assert(want[i as int].ty == tys@[i as int]@);
                    out.push(FuncParam { ty: tys[i].clone(), capability: ps[i].capability });
                    i = i + 1;
                }
                assert(params_view(out@) =~= want);
                out
            } else {
                value_func_params(tys)
            }
        },
        _ => value_func_params(tys),
    }
}

/// The result that a call asks for.
pub open spec fn call_return(callee: TyV, ty: TyV) -> ReturnV {
    match callee {
        TyV::Func(_, ret) => ReturnV { ty: Box::new(ty), capability: ret.capability },
        _ => value_return_view(ty),
    }
}

pub fn expected_func_return(callee: &Ty, ty: Ty) -> (r: FuncReturn)
    ensures
        r@ == call_return(callee@, ty@),
{
    match callee {
        Ty::Func(_, ret) => FuncReturn { ty: Box::new(ty), capability: ret.capability },
        _ => value_func_return(ty),
    }
}

/// The function type that a call asks for.
pub open spec fn call_type(callee: TyV, tys: Seq<TyV>, ret: TyV) -> TyV {
    TyV::Func(call_params(callee, tys), call_return(callee, ret))
}

/// The function type of a call, with the capabilities that the callee declares.
pub fn expected_func(callee: &Ty, tys: &Vec<Ty>, ret: &Ty) -> (r: Ty)
    ensures
        r@ == call_type(callee@, tys_view(tys@), ret@),
{
    let ps = expected_func_params(callee, clone_tys(tys));
    let ret2 = expected_func_return(callee, ret.clone());
    assert(return_view(ret2) == call_return(callee@, ret@));
    Ty::Func(ps, ret2)
}

/// The function type from arguments to a result.
pub open spec fn plain_func(tys: Seq<TyV>, ret: TyV) -> TyV {
    TyV::Func(value_params_view(tys), value_return_view(ret))
}

pub fn value_func(tys: &Vec<Ty>, ret: &Ty) -> (r: Ty)
    ensures
        r@ == plain_func(tys_view(tys@), ret@),
{
    let ps = value_func_params(clone_tys(tys));
    let ret2 = value_func_return(ret.clone());
    assert(return_view(ret2) == value_return_view(ret@));
    Ty::Func(ps, ret2)
}

/// A type without its constraints.
pub open spec fn without_constraints(ty: TyV) -> TyV {
    match ty {
        TyV::Qualified(_, inner) => *inner,
        _ => ty,
    }
}

/// The constraints of a type.
pub open spec fn constraints_on(ty: TyV) -> Seq<ConstraintV> {
    match ty {
        TyV::Qualified(cs, _) => cs,
        _ => Seq::empty(),
    }
}

pub fn split_qualified(ty: Ty) -> (r: (Vec<TraitConstraint>, Ty))
    ensures
        constraints_view(r.0@) == constraints_on(ty@),
        r.1@ == without_constraints(ty@),
        r.0@.len() == constraints_on(ty@).len(),
{
    match ty {
        Ty::Qualified(cs, inner) => {
            assert(constraints_view(cs@).len() == cs@.len());
            (cs, *inner)
        },
        other => {
            let cs: Vec<TraitConstraint> = Vec::new();
            assert(constraints_view(cs@) =~= Seq::empty());
            (cs, other)
        },
    }
}

/// The name of a nominal type.
pub open spec fn nominal(ty: TyV) -> Option<Seq<char>>
    decreases ty,
{
    match ty {
        TyV::Con(name) => Some(name),
        TyV::App(con, _) => nominal(*con),
        TyV::Qualified(_, inner) => nominal(*inner),
        _ => None,
    }
}

/// The text of an optional name.
pub open spec fn opt_text(r: Option<String>) -> Option<Seq<char>> {
    match r {
        Some(s) => Some(s@),
        None => None,
    }
}

pub fn nominal_type_name_of(ty: &Ty) -> (r: Option<String>)
    ensures
        opt_text(r) == nominal(ty@),
    decreases *ty,
{
    match ty {
        Ty::Con(name) => Some(name.clone()),
        Ty::App(con, _) => nominal_type_name_of(con),
        Ty::Qualified(_, inner) => nominal_type_name_of(inner),
        _ => None,
    }
}

/// The error of a pattern with a constructor that does not exist.
pub open spec fn unknown_constructor(name: Seq<char>, scrutinee: TyV) -> TypeErrorV {
    match nominal(scrutinee) {
        Some(nominal_name) => TypeErrorV::UnknownVariant { nominal_name, variant: name },
        None => TypeErrorV::UnknownPatternConstructor { constructor: name, scrutinee },
    }
}

pub fn pattern_unknown_constructor_error(name: &str, scrutinee: &Ty) -> (r: TypeError)
    ensures
        r@ == unknown_constructor(name@, scrutinee@),
{
    match nominal_type_name_of(scrutinee) {
        Some(nominal_name) => TypeError::UnknownVariant { nominal_name, variant: name.to_owned() },
        None => TypeError::UnknownPatternConstructor {
            constructor: name.to_owned(),
            scrutinee: scrutinee.clone(),
        },
    }
}

/// The variable that an application starts with.
pub open spec fn head_var(ty: TyV) -> Option<TyVar>
    decreases ty,
{
    match ty {
        TyV::Var(v) => Some(v),
        TyV::App(con, _) => head_var(*con),
        TyV::Qualified(_, inner) => head_var(*inner),
        _ => None,
    }
}

pub fn variable_trait_target(ty: &Ty) -> (r: Option<TyVar>)
    ensures
        r == head_var(ty@),
    decreases *ty,
{
    match ty {
        Ty::Var(v) => Some(*v),
        Ty::App(con, _) => variable_trait_target(con),
        Ty::Qualified(_, inner) => variable_trait_target(inner),
        _ => None,
    }
}

/// The type of the first parameter of a function type.
pub open spec fn receiver_param(ty: TyV) -> Option<TyV>
    decreases ty,
{
    match ty {
        TyV::Func(ps, _) => if ps.len() > 0 {
            Some(ps[0].ty)
        } else {
            None
        },
        TyV::Qualified(_, inner) => receiver_param(*inner),
        _ => None,
    }
}

pub fn func_receiver_param(ty: &Ty) -> (r: Option<Ty>)
    ensures
        opt_ty(r) == receiver_param(ty@),
    decreases *ty,
{
    match ty {
        Ty::Func(ps, _) => {
            assert(params_view(ps@).len() == ps@.len());
            if ps.len() > 0 {
                assert(params_view(ps@)[0] == param_view(ps@[0]));
                Some(ps[0].ty.clone())
            } else {
                None
            }
        },
        Ty::Qualified(_, inner) => func_receiver_param(inner),
        _ => None,
    }
}

// ---------------------------------------------------------------------------
// Records
// ---------------------------------------------------------------------------

/// Whether a field has this name.
pub open spec fn has_field(fields: Seq<FieldV>, name: Seq<char>) -> bool {
    exists|i: int| 0 <= i < fields.len() && (#[trigger] fields[i]).0 == name
}

/// Fields with one more, unless its name is taken.
pub open spec fn merge_field(fields: Seq<FieldV>, name: Seq<char>, ty: TyV) -> Result<
    Seq<FieldV>,
    TypeErrorV,
> {
    if has_field(fields, name) {
        Err(TypeErrorV::DuplicateRecordField(name))
    } else {
        Ok(fields.push((name, ty)))
    }
}

pub fn merge_record_field(fields: &mut Vec<(String, Ty)>, name: String, ty: Ty) -> (r: Result<
    (),
    TypeError,
>)
    ensures
        match merge_field(fields_view(old(fields)@), name@, ty@) {
            Ok(fs) => r is Ok && fields_view(final(fields)@) == fs,
            Err(e) => r is Err && r->Err_0@ == e && *final(fields) == *old(fields),
        },
{
    let ghost all = fields_view(fields@);
    let mut i: usize = 0;
    while i < fields.len()
        invariant
            i <= fields.len(),
            *fields == *old(fields),
            all == fields_view(fields@),
            all.len() == fields@.len(),
            forall|j: int| 0 <= j < i ==> (#[trigger] all[j]).0 != name@,
        decreases fields.len() - i,
    {
        assert(all[i as int] == field_view(fields@[i as int]));
        if str_eq(&fields[i].0, &name) {
            assert(has_field(all, name@));
            return Err(TypeError::DuplicateRecordField(name));
        }
        i = i + 1;
    }
    let ghost entry = (name@, ty@);
    fields.push((name, ty));
    assert(fields_view(fields@) =~= all.push(entry));
    Ok(())
}

/// The rest of a record that is spread twice.
pub open spec fn merge_tail(st: InferV, existing: TyV, next: TyV) -> (
    InferV,
    Result<TyV, TypeErrorV>,
) {
    let a = resolved(st, existing);
    let b = resolved(st, next);
    if a == TyV::Unit {
        (st, Ok(b))
    } else if b == TyV::Unit {
        (st, Ok(a))
    } else if a is Var && a == b {
        (st, Ok(a))
    } else {
        let u = equate(st, a, b);
        match u.1 {
            Some(e) => (u.0, Err(e)),
            None => (u.0, Ok(resolved(u.0, a))),
        }
    }
}

/// The type that two branches have in common.
pub open spec fn combine(st: InferV, left: TyV, right: TyV) -> (InferV, Result<TyV, TypeErrorV>) {
    let a = resolved(st, left);
    let b = resolved(st, right);
    if a == TyV::Never {
        (st, Ok(b))
    } else if b == TyV::Never {
        (st, Ok(a))
    } else {
        let u = equate(st, a, b);
        match u.1 {
            Some(e) => (u.0, Err(e)),
            None => (u.0, Ok(resolved(u.0, a))),
        }
    }
}

impl Infer {
    pub fn merge_record_spread_tail(&mut self, existing: Ty, next: Ty) -> (r: Result<Ty, TypeError>)
        requires
            old(self).wf(),
        ensures
            final(self).wf(),
            (final(self)@, ty_result(r)) == merge_tail(old(self)@, existing@, next@),
    {
        let a = self.resolve(&existing);
        let b = self.resolve(&next);
        match &a {
            Ty::Unit => {
                return Ok(b);
            },
            _ => {},
        }
        match &b {
            Ty::Unit => {
                return Ok(a);
            },
            _ => {},
        }
        match (&a, &b) {
            (Ty::Var(v), Ty::Var(w)) => {
                if *v == *w {
                    return Ok(a);
                }
            },
            _ => {},
        }
        match self.equate(a.clone(), b) {
            Err(e) => Err(e),
            Ok(_) => Ok(self.resolve(&a)),
        }
    }

    pub fn combine_branch_types(&mut self, left: Ty, right: Ty) -> (r: Result<Ty, TypeError>)
        requires
            old(self).wf(),
        ensures
            final(self).wf(),
            (final(self)@, ty_result(r)) == combine(old(self)@, left@, right@),
    {
        let a = self.resolve(&left);
        let b = self.resolve(&right);
        match &a {
            Ty::Never => {
                return Ok(b);
            },
            _ => {},
        }
        match &b {
            Ty::Never => {
                return Ok(a);
            },
            _ => {},
        }
        match self.equate(a.clone(), b) {
            Err(e) => Err(e),
            Ok(_) => Ok(self.resolve(&a)),
        }
    }
}

// ---------------------------------------------------------------------------
// Variables that name a predicate
// ---------------------------------------------------------------------------

/// The first variable of a type, from the left. The constructor of an application
/// comes before its arguments.
pub open spec fn first_var(ty: TyV) -> Option<TyVar>
    decreases ty, 0nat,
{
    match ty {
        TyV::Var(v) => Some(v),
        TyV::Qualified(cs, inner) => match first_var(*inner) {
            Some(v) => Some(v),
            None => first_var_in_constraints(cs, 0),
        },
        TyV::Tuple(items) => first_var_in(items, 0),
        TyV::Func(ps, ret) => match first_var_in_params(ps, 0) {
            Some(v) => Some(v),
            None => first_var(*ret.ty),
        },
        TyV::App(con, args) => match first_var(*con) {
            Some(v) => Some(v),
            None => first_var_in(args, 0),
        },
        TyV::Record(row) => match first_var_in_fields(row.fields, 0) {
            Some(v) => Some(v),
            None => first_var(*row.tail),
        },
        _ => None,
    }
}

pub open spec fn first_var_in(s: Seq<TyV>, i: nat) -> Option<TyVar>
    decreases s, s.len() - i,
{
    if i >= s.len() {
        None
    } else {
        match first_var(s[i as int]) {
            Some(v) => Some(v),
            None => first_var_in(s, i + 1),
        }
    }
}

pub open spec fn first_var_in_params(s: Seq<ParamV>, i: nat) -> Option<TyVar>
    decreases s, s.len() - i,
{
    if i >= s.len() {
        None
    } else {
        match first_var(s[i as int].ty) {
            Some(v) => Some(v),
            None => first_var_in_params(s, i + 1),
        }
    }
}

pub open spec fn first_var_in_fields(s: Seq<FieldV>, i: nat) -> Option<TyVar>
    decreases s, s.len() - i,
{
    if i >= s.len() {
        None
    } else {
        match first_var(s[i as int].1) {
            Some(v) => Some(v),
            None => first_var_in_fields(s, i + 1),
        }
    }
}

pub open spec fn first_var_in_constraints(s: Seq<ConstraintV>, i: nat) -> Option<TyVar>
    decreases s, s.len() - i,
{
    if i >= s.len() {
        None
    } else {
        match first_var_in(s[i as int].args, 0) {
            Some(v) => Some(v),
            None => first_var_in_constraints(s, i + 1),
        }
    }
}

pub fn first_ty_var(ty: &Ty) -> (r: Option<TyVar>)
    ensures
        r == first_var(ty@),
    decreases *ty,
{
    match ty {
        Ty::Var(v) => Some(*v),
        Ty::Qualified(cs, inner) => match first_ty_var(inner) {
            Some(v) => Some(v),
            None => first_in_constraints(cs),
        },
        Ty::Tuple(items) => first_in_tys(items),
        Ty::Func(ps, ret) => {
            assert(return_view(*ret).ty == Box::new(ty_view(*ret.ty)));
            match first_in_params(ps) {
                Some(v) => Some(v),
                None => first_ty_var(&ret.ty),
            }
        },
        Ty::App(con, args) => match first_ty_var(con) {
            Some(v) => Some(v),
            None => first_in_tys(args),
        },
        Ty::Record(row) => {
            assert(row_view(*row).tail == Box::new(ty_view(*row.tail)));
            match first_in_fields(&row.fields) {
                Some(v) => Some(v),
                None => first_ty_var(&row.tail),
            }
        },
        _ => None,
    }
}

fn first_in_tys(s: &Vec<Ty>) -> (r: Option<TyVar>)
    ensures
        r == first_var_in(tys_view(s@), 0),
    decreases s@,
{
    let ghost all = tys_view(s@);
    let mut i: usize = 0;
    while i < s.len()
        invariant
            i <= s.len(),
            all == tys_view(s@),
            all.len() == s@.len(),
            first_var_in(all, 0) == first_var_in(all, i as nat),
        decreases s.len() - i,
    {
        assert(all[i as int] == ty_view(s@[i as int]));
        assert(decreases_to!(s@ => s@[i as int]));
        match first_ty_var(&s[i]) {
            Some(v) => {
                return Some(v);
            },
            None => {},
        }
        i = i + 1;
    }
    None
}

fn first_in_params(s: &Vec<FuncParam>) -> (r: Option<TyVar>)
    ensures
        r == first_var_in_params(params_view(s@), 0),
    decreases s@,
{
    let ghost all = params_view(s@);
    let mut i: usize = 0;
    while i < s.len()
        invariant
            i <= s.len(),
            all == params_view(s@),
            all.len() == s@.len(),
            first_var_in_params(all, 0) == first_var_in_params(all, i as nat),
        decreases s.len() - i,
    {
        assert(all[i as int] == param_view(s@[i as int]));
        assert(decreases_to!(s@ => s@[i as int]));
        assert(decreases_to!(s@[i as int] => s@[i as int].ty));
        match first_ty_var(&s[i].ty) {
            Some(v) => {
                return Some(v);
            },
            None => {},
        }
        i = i + 1;
    }
    None
}

fn first_in_fields(s: &Vec<(String, Ty)>) -> (r: Option<TyVar>)
    ensures
        r == first_var_in_fields(fields_view(s@), 0),
    decreases s@,
{
    let ghost all = fields_view(s@);
    let mut i: usize = 0;
    while i < s.len()
        invariant
            i <= s.len(),
            all == fields_view(s@),
            all.len() == s@.len(),
            first_var_in_fields(all, 0) == first_var_in_fields(all, i as nat),
        decreases s.len() - i,
    {
        assert(all[i as int] == field_view(s@[i as int]));
        assert(decreases_to!(s@ => s@[i as int]));
        assert(decreases_to!(s@[i as int] => s@[i as int].1));
        match first_ty_var(&s[i].1) {
            Some(v) => {
                return Some(v);
            },
            None => {},
        }
        i = i + 1;
    }
    None
}

fn first_in_constraints(s: &Vec<TraitConstraint>) -> (r: Option<TyVar>)
    ensures
        r == first_var_in_constraints(constraints_view(s@), 0),
    decreases s@,
{
    let ghost all = constraints_view(s@);
    let mut i: usize = 0;
    while i < s.len()
        invariant
            i <= s.len(),
            all == constraints_view(s@),
            all.len() == s@.len(),
            first_var_in_constraints(all, 0) == first_var_in_constraints(all, i as nat),
        decreases s.len() - i,
    {
        assert(all[i as int] == constraint_view(s@[i as int]));
        assert(decreases_to!(s@ => s@[i as int]));
        assert(decreases_to!(s@[i as int] => s@[i as int].args));
        assert(decreases_to!(s@[i as int].args => s@[i as int].args@));
        match first_in_tys(&s[i].args) {
            Some(v) => {
                return Some(v);
            },
            None => {},
        }
        i = i + 1;
    }
    None
}

/// The variable that names a predicate: the first that is open among the arguments
/// that determine it, or else among all of them.
pub open spec fn primary_var(args: Seq<TyV>, indexes: Seq<usize>) -> Option<TyVar> {
    match first_var_in(selected(args, indexes), 0) {
        Some(v) => Some(v),
        None => first_var_in(args, 0),
    }
}

pub fn primary_trait_var(args: &Vec<Ty>, indexes: &Vec<usize>) -> (r: Option<TyVar>)
    ensures
        r == primary_var(tys_view(args@), indexes@),
{
    let determinants = crate::dict_uses::select_tys(args, indexes);
    match first_in_tys(&determinants) {
        Some(v) => Some(v),
        None => first_in_tys(args),
    }
}

/// Whether the types at a position of both lists are the same.
pub open spec fn same_at(m: Map<TyVar, TyV>, left: Seq<TyV>, right: Seq<TyV>, index: usize) -> bool {
    &&& index < left.len()
    &&& index < right.len()
    &&& apply(m, left[index as int]) == apply(m, right[index as int])
}

/// Whether predicates speak of the same thing: their determining arguments are the
/// same, or have a variable in common.
pub open spec fn share_var(
    m: Map<TyVar, TyV>,
    left: Seq<TyV>,
    right: Seq<TyV>,
    indexes: Seq<usize>,
) -> bool {
    ||| forall|i: int| 0 <= i < indexes.len() ==> same_at(m, left, right, #[trigger] indexes[i])
    ||| exists|v: TyVar| #[trigger]
        occurs_in_tys(v, apply_tys(m, selected(left, indexes))) && occurs_in_tys(
            v,
            apply_tys(m, selected(right, indexes)),
        )
}

fn all_same(left: &Vec<Ty>, right: &Vec<Ty>, indexes: &Vec<usize>, s: &Subst) -> (r: bool)
    requires
        s.wf(),
    ensures
        r == forall|i: int|
            0 <= i < indexes@.len() ==> same_at(
                s@.map,
                tys_view(left@),
                tys_view(right@),
                #[trigger] indexes@[i],
            ),
{
    let mut i: usize = 0;
    while i < indexes.len()
        invariant
            i <= indexes.len(),
            s.wf(),
            forall|j: int|
                0 <= j < i ==> same_at(
                    s@.map,
                    tys_view(left@),
                    tys_view(right@),
                    #[trigger] indexes@[j],
                ),
        decreases indexes.len() - i,
    {
        let at: usize = indexes[i];
        assert(tys_view(left@).len() == left@.len());
        assert(tys_view(right@).len() == right@.len());
        if at >= left.len() || at >= right.len() {
            assert(!same_at(s@.map, tys_view(left@), tys_view(right@), indexes@[i as int]));
            return false;
        }
        assert(tys_view(left@)[at as int] == left@[at as int]@);
        assert(tys_view(right@)[at as int] == right@[at as int]@);
        if !ty_eq(&s.apply(&left[at]), &s.apply(&right[at])) {
            assert(!same_at(s@.map, tys_view(left@), tys_view(right@), indexes@[i as int]));
            return false;
        }
        i = i + 1;
    }
    true
}

pub fn determinants_share_var(
    left: &Vec<Ty>,
    right: &Vec<Ty>,
    indexes: &Vec<usize>,
    s: &Subst,
) -> (r: bool)
    requires
        s.wf(),
    ensures
        r == share_var(s@.map, tys_view(left@), tys_view(right@), indexes@),
{
    if all_same(left, right, indexes, s) {
        return true;
    }
    let a = s.apply_tys(&crate::dict_uses::select_tys(left, indexes));
    let b = s.apply_tys(&crate::dict_uses::select_tys(right, indexes));
    let mut in_a: HashSet<TyVar> = HashSet::new();
    tys_vars_into(&a, &mut in_a);
    let mut in_b: HashSet<TyVar> = HashSet::new();
    tys_vars_into(&b, &mut in_b);
    let r = some_shared(&in_a, &in_b);
    proof {
        assert forall|v: TyVar|
            #[trigger] in_a@.contains(v) <==> occurs_in_tys(v, tys_view(a@)) by {}
        assert forall|v: TyVar|
            #[trigger] in_b@.contains(v) <==> occurs_in_tys(v, tys_view(b@)) by {}
        if r {
            let v = choose|v: TyVar| #[trigger] in_a@.contains(v) && in_b@.contains(v);
            assert(occurs_in_tys(v, tys_view(a@)) && occurs_in_tys(v, tys_view(b@)));
        } else {
            assert forall|v: TyVar| #[trigger] occurs_in_tys(v, tys_view(a@)) implies !occurs_in_tys(
                v,
                tys_view(b@),
            ) by {
                assert(in_a@.contains(v));
            }
        }
    }
    r
}

/// Whether two sets of variables have one in common.
fn some_shared(a: &HashSet<TyVar>, b: &HashSet<TyVar>) -> (r: bool)
    ensures
        r == exists|v: TyVar| #[trigger] a@.contains(v) && b@.contains(v),
{
    let list = list_vars(a);
    let mut i: usize = 0;
    while i < list.len()
        invariant
            i <= list.len(),
            forall|v: TyVar| #[trigger] list@.contains(v) <==> a@.contains(v),
            forall|j: int| 0 <= j < i ==> !b@.contains(#[trigger] list@[j]),
        decreases list.len() - i,
    {
        if b.contains(&list[i]) {
            assert(list@.contains(list@[i as int]));
            assert(a@.contains(list@[i as int]) && b@.contains(list@[i as int]));
            return true;
        }
        i = i + 1;
    }
    proof {
        if exists|v: TyVar| #[trigger] a@.contains(v) && b@.contains(v) {
            let v = choose|v: TyVar| #[trigger] a@.contains(v) && b@.contains(v);
            assert(list@.contains(v));
            let k = choose|k: int| 0 <= k < list@.len() && list@[k] == v;
            assert(!b@.contains(list@[k]));
        }
    }
    false
}

/// Whether a constraint speaks of one of these variables.
pub open spec fn mentions_any(m: Map<TyVar, TyV>, c: ConstraintV, vars: Set<TyVar>) -> bool {
    exists|v: TyVar| #[trigger] relevant(m, c).contains(v) && vars.contains(v)
}

pub fn constraint_mentions_any_var(c: &TraitConstraint, vars: &HashSet<TyVar>, s: &Subst) -> (r:
    bool)
    requires
        s.wf(),
    ensures
        r == mentions_any(s@.map, c@, vars@),
{
    let mut found: HashSet<TyVar> = HashSet::new();
    free_type_vars_into(&s.apply(&Ty::Var(c.var)), &mut found);
    tys_vars_into(&s.apply_tys(&c.args), &mut found);
    assert(found@ =~= relevant(s@.map, c@));
    some_shared(&found, vars)
}

/// Whether a written type mentions a type variable.
pub open spec fn names_var(ty: TypeV, name: Seq<char>) -> bool
    decreases ty,
{
    match ty {
        TypeV::Var(n) => n == name,
        TypeV::App(con, args) => names_var(*con, name) || some_names_var(args, name),
        TypeV::Func(ps, ret) => some_param_names_var(ps, name) || names_var(*ret.ty, name),
        TypeV::Tuple(items) => some_names_var(items, name),
        TypeV::Record(fields, _) => some_field_names_var(fields, name),
        _ => false,
    }
}

pub open spec fn some_names_var(s: Seq<TypeV>, name: Seq<char>) -> bool
    decreases s,
{
    exists|i: int| 0 <= i < s.len() && names_var(#[trigger] s[i], name)
}

pub open spec fn some_param_names_var(s: Seq<TypeParamV>, name: Seq<char>) -> bool
    decreases s,
{
    exists|i: int| 0 <= i < s.len() && names_var((#[trigger] s[i]).ty, name)
}

pub open spec fn some_field_names_var(s: Seq<NamedTypeV>, name: Seq<char>) -> bool
    decreases s,
{
    exists|i: int| 0 <= i < s.len() && names_var((#[trigger] s[i]).ty, name)
}

pub fn type_contains_var(ty: &Type, name: &str) -> (r: bool)
    ensures
        r == names_var(ty@, name@),
    decreases *ty,
{
    match ty {
        Type::Var(n) => str_eq(n, name),
        Type::App(con, args) => type_contains_var(con, name) || any_contains_var(args, name),
        Type::Func(ps, ret) => {
            assert(type_return_view(*ret).ty == Box::new(type_view(*ret.ty)));
            any_param_contains_var(ps, name) || type_contains_var(&ret.ty, name)
        },
        Type::Tuple(items) => any_contains_var(items, name),
        Type::Record(fields, _) => any_field_contains_var(fields, name),
        _ => false,
    }
}

fn any_contains_var(s: &Vec<Type>, name: &str) -> (r: bool)
    ensures
        r == some_names_var(types_view(s@), name@),
    decreases s@,
{
    let ghost all = types_view(s@);
    let mut i: usize = 0;
    while i < s.len()
        invariant
            i <= s.len(),
            all == types_view(s@),
            forall|j: int| 0 <= j < i ==> !(names_var(#[trigger] all[j], name@)),
        decreases s.len() - i,
    {
        assert(all[i as int] == type_view(s@[i as int]));
        assert(decreases_to!(s@ => s@[i as int]));
        if type_contains_var(&s[i], name) {
            return true;
        }
        i = i + 1;
    }
    false
}

fn any_param_contains_var(s: &Vec<TypeParam>, name: &str) -> (r: bool)
    ensures
        r == some_param_names_var(type_params_view(s@), name@),
    decreases s@,
{
    let ghost all = type_params_view(s@);
    let mut i: usize = 0;
    while i < s.len()
        invariant
            i <= s.len(),
            all == type_params_view(s@),
            forall|j: int| 0 <= j < i ==> !(names_var((#[trigger] all[j]).ty, name@)),
        decreases s.len() - i,
    {
        assert(all[i as int] == type_param_view(s@[i as int]));
        assert(decreases_to!(s@ => s@[i as int]));
        assert(decreases_to!(s@[i as int] => s@[i as int].ty));
        if type_contains_var(&s[i].ty, name) {
            return true;
        }
        i = i + 1;
    }
    false
}

pub fn any_field_contains_var(s: &Vec<NamedType>, name: &str) -> (r: bool)
    ensures
        r == some_field_names_var(named_types_view(s@), name@),
    decreases s@,
{
    let ghost all = named_types_view(s@);
    let mut i: usize = 0;
    while i < s.len()
        invariant
            i <= s.len(),
            all == named_types_view(s@),
            forall|j: int| 0 <= j < i ==> !(names_var((#[trigger] all[j]).ty, name@)),
        decreases s.len() - i,
    {
        assert(all[i as int] == named_type_view(s@[i as int]));
        assert(decreases_to!(s@ => s@[i as int]));
        assert(decreases_to!(s@[i as int] => s@[i as int].ty));
        if type_contains_var(&s[i].ty, name) {
            return true;
        }
        i = i + 1;
    }
    false
}

// ---------------------------------------------------------------------------
// Declared bounds
// ---------------------------------------------------------------------------

/// The parts of an example bound: the parameters, with an arrow behind the first
/// `n` of them.
pub open spec fn example_parts(params: Seq<Seq<char>>, n: nat) -> Seq<Seq<char>>
    decreases params.len(),
{
    if params.len() == 0 {
        Seq::empty()
    } else {
        let rest = example_parts(params.drop_last(), n);
        let index = (params.len() - 1) as nat;
        if index > 0 && index == n {
            rest.push("->"@).push(params.last())
        } else {
            rest.push(params.last())
        }
    }
}

/// How a bound with a functional dependency is written.
pub open spec fn example_bound(def: TraitDefV) -> Seq<char> {
    join(example_parts(def.params, dict_indexes(def).len()), " "@) + ": "@ + def.name
}

pub fn fundep_constraint_example(def: &TraitDef) -> (r: String)
    ensures
        r@ == example_bound(def@),
{
    let indexes = trait_dict_indexes(def);
    let ghost all = strings_view(def.params@);
    let ghost n = indexes@.len();
    let mut parts: Vec<String> = Vec::new();
    let mut i: usize = 0;
    assert(strings_view(parts@) =~= Seq::empty());
    assert(all.take(0) =~= Seq::empty());
    while i < def.params.len()
        invariant
            i <= def.params.len(),
            n == indexes@.len(),
            all == strings_view(def.params@),
            strings_view(parts@) == example_parts(all.take(i as int), n),
        decreases def.params.len() - i,
    {
        proof {
            assert(all.take(i + 1).drop_last() =~= all.take(i as int));
            assert(all.take(i + 1).last() == def.params@[i as int]@);
        }
        let ghost before = strings_view(parts@);
        if i > 0 && i == indexes.len() {
            parts.push("->".to_owned());
            assert(strings_view(parts@) =~= before.push("->"@));
        }
        let ghost mid = strings_view(parts@);
        parts.push(def.params[i].clone());
        assert(strings_view(parts@) =~= mid.push(def.params@[i as int]@));
        i = i + 1;
    }
    assert(all.take(all.len() as int) =~= all);
    let mut out = join_strings(&parts, " ");
    out.append(": ");
    out.append(&def.name);
    out
}

/// Where the arrow of a bound belongs.
pub open spec fn arrow_place(what: Seq<char>, n: nat) -> Seq<char> {
    what + decimal(n) + " determinant type argument"@ + (if n == 1 {
        ""@
    } else {
        "s"@
    })
}

pub fn arrow_place_text(what: &str, n: usize) -> (r: String)
    ensures
        r@ == arrow_place(what@, n as nat),
{
    let mut out = what.to_owned();
    let d = decimal_string(n as u128);
    out.append(&d);
    out.append(" determinant type argument");
    if n == 1 {
        out.append("");
    } else {
        out.append("s");
    }
    out
}

/// The constraint that a bound states of its arguments for one trait.
pub open spec fn bound_constraint(
    st: InferV,
    arrow: Option<usize>,
    args: Seq<TyV>,
    trait_name: Seq<char>,
) -> (InferV, Result<ConstraintV, TypeErrorV>) {
    if st.traits.dom().contains(trait_name) {
        let def = st.traits[trait_name];
        let indexes = dict_indexes(def);
        if arrow is Some && def.fundeps.len() == 0 {
            (
                st,
                Err(
                    TypeErrorV::InvalidTraitConstraint {
                        trait_name,
                        message: "`->` is only valid when the trait declares a functional dependency"@,
                    },
                ),
            )
        } else if arrow is None && def.fundeps.len() > 0 {
            (
                st,
                Err(
                    TypeErrorV::InvalidTraitConstraint {
                        trait_name,
                        message: "fundep trait constraints must include `->` between determinant and dependent type arguments; write `"@
                            + example_bound(def) + "`"@,
                    },
                ),
            )
        } else if args.len() != def.params.len() {
            (
                st,
                Err(
                    TypeErrorV::TraitArityMismatch {
                        trait_name,
                        expected: def.params.len() as usize,
                        got: args.len() as usize,
                    },
                ),
            )
        } else if arrow is Some && arrow->Some_0 != indexes.len() {
            (
                st,
                Err(
                    TypeErrorV::InvalidTraitConstraint {
                        trait_name,
                        message: arrow_place("fundep constraints must place `->` after "@, indexes.len()),
                    },
                ),
            )
        } else {
            match primary_var(args, indexes) {
                Some(var) => (
                    st,
                    Ok(ConstraintV { var, trait_name, args, determinant_indexes: indexes }),
                ),
                None => (
                    fresh(st),
                    Ok(
                        ConstraintV {
                            var: next_var(st),
                            trait_name,
                            args,
                            determinant_indexes: indexes,
                        },
                    ),
                ),
            }
        }
    } else if arrow is Some || args.len() != 1 {
        (
            st,
            Err(
                TypeErrorV::TraitArityMismatch { trait_name, expected: 1, got: args.len() as usize },
            ),
        )
    } else {
        match args[0] {
            TyV::Var(var) => (st, Ok(unary_constraint(var, trait_name))),
            _ => (
                st,
                Err(
                    TypeErrorV::InvalidTraitConstraint {
                        trait_name,
                        message: "unary trait constraints must target a type variable"@,
                    },
                ),
            ),
        }
    }
}

/// The constraints that a bound states for the traits from the one at `j` on.
pub open spec fn trait_constraints(
    st: InferV,
    bound: TypeBoundV,
    args: Seq<TyV>,
    j: nat,
    done: Seq<ConstraintV>,
) -> (InferV, Result<Seq<ConstraintV>, TypeErrorV>)
    decreases bound.traits.len() - j,
{
    if j >= bound.traits.len() {
        (st, Ok(done))
    } else {
        let c = bound_constraint(st, bound.fundep_arrow_index, args, bound.traits[j as int]);
        match c.1 {
            Err(e) => (c.0, Err(e)),
            Ok(x) => trait_constraints(c.0, bound, args, j + 1, done.push(x)),
        }
    }
}

/// The constraints that bounds state, from the one at `i` on.
pub open spec fn bound_constraints(
    st: InferV,
    vars: VarNames,
    bounds: Seq<TypeBoundV>,
    i: nat,
    done: Seq<ConstraintV>,
) -> ConvV<Seq<ConstraintV>>
    decreases bounds.len() - i,
{
    if i >= bounds.len() {
        ConvV { st, vars, res: Ok(done) }
    } else {
        let a = all_written(st, vars, bounds[i as int].args);
        match a.res {
            Err(e) => ConvV { st: a.st, vars: a.vars, res: Err(e) },
            Ok(args) => {
                let c = trait_constraints(a.st, bounds[i as int], args, 0, done);
                match c.1 {
                    Err(e) => ConvV { st: c.0, vars: a.vars, res: Err(e) },
                    Ok(cs) => bound_constraints(c.0, a.vars, bounds, i + 1, cs),
                }
            },
        }
    }
}

/// The constraints that the bounds of a declaration state.
#[verifier::opaque]
pub open spec fn declared_bounds(st: InferV, vars: VarNames, bounds: Seq<TypeBoundV>) -> ConvV<
    Seq<ConstraintV>,
> {
    bound_constraints(st, vars, bounds, 0, Seq::empty())
}

/// Constraints or an error.
pub open spec fn constraints_result(r: Result<Vec<TraitConstraint>, TypeError>) -> Result<
    Seq<ConstraintV>,
    TypeErrorV,
> {
    match r {
        Ok(cs) => Ok(constraints_view(cs@)),
        Err(e) => Err(e@),
    }
}

/// A constraint or an error.
pub open spec fn constraint_result(r: Result<TraitConstraint, TypeError>) -> Result<
    ConstraintV,
    TypeErrorV,
> {
    match r {
        Ok(c) => Ok(c@),
        Err(e) => Err(e@),
    }
}

impl Infer {
    fn bound_constraint(&mut self, arrow: Option<usize>, args: &Vec<Ty>, trait_name: &String) -> (r:
        Result<TraitConstraint, TypeError>)
        requires
            old(self).wf(),
        ensures
            final(self).wf(),
            (final(self)@, constraint_result(r)) == bound_constraint(
                old(self)@,
                arrow,
                tys_view(args@),
                trait_name@,
            ),
    {
        assert(tys_view(args@).len() == args@.len());
        match self.traits.env.get(trait_name) {
            Some(def) => {
                let ghost defv = self@.traits[trait_name@];
                let indexes = trait_dict_indexes(def);
                assert(defv.fundeps.len() == def.fundeps@.len());
                assert(defv.params.len() == def.params@.len());
                if arrow.is_some() && def.fundeps.len() == 0 {
                    return Err(
                        TypeError::InvalidTraitConstraint {
                            trait_name: trait_name.clone(),
                            message: "`->` is only valid when the trait declares a functional dependency".to_owned(),
                        },
                    );
                }
                if arrow.is_none() && def.fundeps.len() > 0 {
                    let mut message = "fundep trait constraints must include `->` between determinant and dependent type arguments; write `".to_owned();
                    let example = fundep_constraint_example(def);
                    message.append(&example);
                    message.append("`");
                    return Err(
                        TypeError::InvalidTraitConstraint { trait_name: trait_name.clone(), message },
                    );
                }
                if args.len() != def.params.len() {
                    return Err(
                        TypeError::TraitArityMismatch {
                            trait_name: trait_name.clone(),
                            expected: def.params.len(),
                            got: args.len(),
                        },
                    );
                }
                if let Some(at) = arrow {
                    if at != indexes.len() {
                        return Err(
                            TypeError::InvalidTraitConstraint {
                                trait_name: trait_name.clone(),
                                message: arrow_place_text(
                                    "fundep constraints must place `->` after ",
                                    indexes.len(),
                                ),
                            },
                        );
                    }
                }
                let var = match primary_trait_var(args, &indexes) {
                    Some(v) => v,
                    None => self.fresh_var(),
                };
                Ok(TraitConstraint::predicate(trait_name, clone_tys(args), var, indexes))
            },
            None => {
                if arrow.is_some() || args.len() != 1 {
                    return Err(
                        TypeError::TraitArityMismatch {
                            trait_name: trait_name.clone(),
                            expected: 1,
                            got: args.len(),
                        },
                    );
                }
                assert(tys_view(args@)[0] == args@[0]@);
                match &args[0] {
                    Ty::Var(v) => Ok(TraitConstraint::unary(*v, trait_name)),
                    _ => Err(
                        TypeError::InvalidTraitConstraint {
                            trait_name: trait_name.clone(),
                            message: "unary trait constraints must target a type variable".to_owned(),
                        },
                    ),
                }
            },
        }
    }

    fn trait_constraints(
        &mut self,
        bound: &TypeBound,
        args: &Vec<Ty>,
        done: &mut Vec<TraitConstraint>,
    ) -> (r: Result<(), TypeError>)
        requires
            old(self).wf(),
        ensures
            final(self).wf(),
            ({
                let want = trait_constraints(
                    old(self)@,
                    bound@,
                    tys_view(args@),
                    0,
                    constraints_view(old(done)@),
                );
                final(self)@ == want.0 && match want.1 {
                    Ok(cs) => r is Ok && constraints_view(final(done)@) == cs,
                    Err(e) => r is Err && r->Err_0@ == e,
                }
            }),
    {
        let ghost want = trait_constraints(
            self@,
            bound@,
            tys_view(args@),
            0,
            constraints_view(done@),
        );
        let mut j: usize = 0;
        while j < bound.traits.len()
            invariant
                j <= bound.traits.len(),
                self.wf(),
                want == trait_constraints(
                    old(self)@,
                    bound@,
                    tys_view(args@),
                    0,
                    constraints_view(old(done)@),
                ),
                want == trait_constraints(
                    self@,
                    bound@,
                    tys_view(args@),
                    j as nat,
                    constraints_view(done@),
                ),
            decreases bound.traits.len() - j,
        {
            assert(bound@.traits.len() == bound.traits@.len());
            assert(bound@.traits[j as int] == bound.traits@[j as int]@);
            let ghost before = constraints_view(done@);
            match self.bound_constraint(bound.fundep_arrow_index, args, &bound.traits[j]) {
                Err(e) => {
                    return Err(e);
                },
                Ok(c) => {
                    let ghost cv = c@;
                    done.push(c);
                    assert(constraints_view(done@) =~= before.push(cv));
                },
            }
            j = j + 1;
        }
        Ok(())
    }

    /// The constraints that the bounds of a declaration state.
    pub fn collect_type_bound_constraints(
        &mut self,
        vars: &mut NameMap<TyVar>,
        bounds: &Vec<TypeBound>,
    ) -> (r: Result<Vec<TraitConstraint>, TypeError>)
        requires
            old(self).wf(),
        ensures
            final(self).wf(),
            (ConvV { st: final(self)@, vars: final(vars)@, res: constraints_result(r) })
                == declared_bounds(old(self)@, old(vars)@, type_bounds_view(bounds@)),
    {
        proof {
            reveal(declared_bounds);
        }
        let ghost all = type_bounds_view(bounds@);
        let ghost want = bound_constraints(self@, vars@, all, 0, Seq::empty());
        let mut done: Vec<TraitConstraint> = Vec::new();
        let mut i: usize = 0;
        assert(constraints_view(done@) =~= Seq::empty());
        while i < bounds.len()
            invariant
                i <= bounds.len(),
                self.wf(),
                all == type_bounds_view(bounds@),
                want == bound_constraints(old(self)@, old(vars)@, all, 0, Seq::empty()),
                want == bound_constraints(self@, vars@, all, i as nat, constraints_view(done@)),
            decreases bounds.len() - i,
        {
            proof {
                reveal(declared_bounds);
                assert(all.len() == bounds@.len());
                assert(all[i as int] == type_bound_view(bounds@[i as int]));
            }
            match self.all_written(&bounds[i].args, vars) {
                Err(e) => {
                    return Err(e);
                },
                Ok(args) => {
                    match self.trait_constraints(&bounds[i], &args, &mut done) {
                        Err(e) => {
                            return Err(e);
                        },
                        Ok(_) => {},
                    }
                },
            }
            i = i + 1;
        }
        assert(all.len() == bounds@.len());
        Ok(done)
    }
}

// ---------------------------------------------------------------------------
// Fresh variables for names
// ---------------------------------------------------------------------------

/// Fresh variables for names, from the one at `i` on.
pub open spec fn fresh_params(
    st: InferV,
    names: Seq<Seq<char>>,
    i: nat,
    vars: VarNames,
    tys: Seq<TyV>,
) -> ConvV<Seq<TyV>>
    decreases names.len() - i,
{
    if i >= names.len() {
        ConvV { st, vars, res: Ok(tys) }
    } else {
        fresh_params(
            fresh(st),
            names,
            i + 1,
            vars.insert(names[i as int], next_var(st)),
            tys.push(TyV::Var(next_var(st))),
        )
    }
}

/// A fresh variable for each name.
#[verifier::opaque]
pub open spec fn fresh_named(st: InferV, names: Seq<Seq<char>>, vars: VarNames) -> ConvV<
    Seq<TyV>,
> {
    fresh_params(st, names, 0, vars, Seq::empty())
}

impl Infer {
    /// A fresh variable for each name.
    pub fn fresh_named(&mut self, names: &Vec<String>, vars: &mut NameMap<TyVar>) -> (r: Vec<Ty>)
        requires
            old(self).wf(),
        ensures
            final(self).wf(),
            (ConvV { st: final(self)@, vars: final(vars)@, res: Ok(tys_view(r@)) })
                == fresh_named(old(self)@, strings_view(names@), old(vars)@),
            r@.len() == names@.len(),
    {
        proof {
            reveal(fresh_named);
        }
        let ghost all = strings_view(names@);
        let ghost want = fresh_params(self@, all, 0, vars@, Seq::empty());
        let mut out: Vec<Ty> = Vec::new();
        let mut i: usize = 0;
        assert(tys_view(out@) =~= Seq::empty());
        while i < names.len()
            invariant
                i <= names.len(),
                self.wf(),
                out@.len() == i,
                all == strings_view(names@),
                want == fresh_params(old(self)@, all, 0, old(vars)@, Seq::empty()),
                want == fresh_params(self@, all, i as nat, vars@, tys_view(out@)),
            decreases names.len() - i,
        {
            assert(all[i as int] == names@[i as int]@);
            let ghost before = tys_view(out@);
            let v = self.fresh_var();
            vars.insert(names[i].clone(), v);
            out.push(Ty::Var(v));
            assert(tys_view(out@) =~= before.push(TyV::Var(v)));
            i = i + 1;
        }
        out
    }
}

} // verus!
