//! The type variables of a type.

use std::collections::HashSet;
use vstd::prelude::*;

use crate::rows::FieldV;
use crate::ty::{constraints_view, fields_view, params_view, ty_view, tys_view, ConstraintV};
use crate::ty::{FuncParam, ParamV, TraitConstraint, Ty, TyV, TyVar};

verus! {

broadcast use vstd::std_specs::hash::group_hash_axioms;

/// Whether the variable `v` occurs in `t`.
pub open spec fn occurs(v: TyVar, t: TyV) -> bool
    decreases t,
{
    match t {
        TyV::Var(w) => v == w,
        TyV::Qualified(cs, inner) => occurs(v, *inner) || occurs_in_constraints(v, cs),
        TyV::Tuple(ts) => occurs_in_tys(v, ts),
        TyV::Func(ps, ret) => occurs(v, *ret.ty) || occurs_in_params(v, ps),
        TyV::App(con, args) => occurs(v, *con) || occurs_in_tys(v, args),
        TyV::Record(row) => occurs(v, *row.tail) || occurs_in_fields(v, row.fields),
        _ => false,
    }
}

/// Whether the variable `v` occurs in one of `ts`.
pub open spec fn occurs_in_tys(v: TyVar, ts: Seq<TyV>) -> bool
    decreases ts,
{
    exists|i: int| 0 <= i < ts.len() && occurs(v, #[trigger] ts[i])
}

/// Whether the variable `v` occurs in one of the constraints `cs`.
pub open spec fn occurs_in_constraints(v: TyVar, cs: Seq<ConstraintV>) -> bool
    decreases cs,
{
    exists|i: int|
        0 <= i < cs.len() && ((#[trigger] cs[i]).var == v || occurs_in_tys(v, cs[i].args))
}

/// Whether the variable `v` occurs in one of the parameters `ps`.
pub open spec fn occurs_in_params(v: TyVar, ps: Seq<ParamV>) -> bool
    decreases ps,
{
    exists|i: int| 0 <= i < ps.len() && occurs(v, (#[trigger] ps[i]).ty)
}

/// Whether the variable `v` occurs in one of the fields `fs`.
pub open spec fn occurs_in_fields(v: TyVar, fs: Seq<FieldV>) -> bool
    decreases fs,
{
    exists|i: int| 0 <= i < fs.len() && occurs(v, (#[trigger] fs[i]).1)
}

/// The free variables of a type.
pub open spec fn free_vars(t: TyV) -> Set<TyVar> {
    Set::new(|v: TyVar| occurs(v, t))
}

/// Whether the variable `needle` occurs in `ty`.
pub fn type_contains_var(ty: &Ty, needle: TyVar) -> (r: bool)
    ensures
        r == occurs(needle, ty@),
    decreases *ty,
{
    match ty {
        Ty::Var(v) => *v == needle,
        Ty::Qualified(constraints, inner) => {
            any_constraint_contains_var(constraints, needle) || type_contains_var(inner, needle)
        },
        Ty::Func(params, ret) => {
            any_param_contains_var(params, needle) || type_contains_var(&ret.ty, needle)
        },
        Ty::Tuple(tys) => any_ty_contains_var(tys, needle),
        Ty::App(con, args) => {
            type_contains_var(con, needle) || any_ty_contains_var(args, needle)
        },
        Ty::Record(row) => {
            any_field_contains_var(&row.fields, needle) || type_contains_var(&row.tail, needle)
        },
        Ty::Int | Ty::Float | Ty::Unit | Ty::Never | Ty::Con(_) => false,
    }
}

fn any_ty_contains_var(tys: &Vec<Ty>, needle: TyVar) -> (r: bool)
    ensures
        r == occurs_in_tys(needle, tys_view(tys@)),
    decreases tys@,
{
    let mut i: usize = 0;
    while i < tys.len()
        invariant
            i <= tys.len(),
            forall|j: int| 0 <= j < i ==> !occurs(needle, ty_view(#[trigger] tys@[j])),
        decreases tys.len() - i,
    {
        if type_contains_var(&tys[i], needle) {
            assert(tys_view(tys@)[i as int] == ty_view(tys@[i as int]));
            return true;
        }
        i = i + 1;
    }
    assert forall|j: int| 0 <= j < tys_view(tys@).len() implies !occurs(
        needle,
        #[trigger] tys_view(tys@)[j],
    ) by {
        assert(!occurs(needle, ty_view(tys@[j])));
    }
    false
}

fn any_constraint_contains_var(cs: &Vec<TraitConstraint>, needle: TyVar) -> (r: bool)
    ensures
        r == occurs_in_constraints(needle, constraints_view(cs@)),
    decreases cs@,
{
    let mut i: usize = 0;
    while i < cs.len()
        invariant
            i <= cs.len(),
            forall|j: int|
                0 <= j < i ==> (#[trigger] constraints_view(cs@)[j]).var != needle
                    && !occurs_in_tys(needle, constraints_view(cs@)[j].args),
        decreases cs.len() - i,
    {
        let c = &cs[i];
        assert(constraints_view(cs@)[i as int].args == tys_view(c.args@));
        if c.var == needle || any_ty_contains_var(&c.args, needle) {
            return true;
        }
        i = i + 1;
    }
    false
}

fn any_param_contains_var(ps: &Vec<FuncParam>, needle: TyVar) -> (r: bool)
    ensures
        r == occurs_in_params(needle, params_view(ps@)),
    decreases ps@,
{
    let mut i: usize = 0;
    while i < ps.len()
        invariant
            i <= ps.len(),
            forall|j: int| 0 <= j < i ==> !occurs(needle, (#[trigger] params_view(ps@)[j]).ty),
        decreases ps.len() - i,
    {
        assert(params_view(ps@)[i as int].ty == ty_view(ps@[i as int].ty));
        if type_contains_var(&ps[i].ty, needle) {
            return true;
        }
        i = i + 1;
    }
    false
}

fn any_field_contains_var(fs: &Vec<(String, Ty)>, needle: TyVar) -> (r: bool)
    ensures
        r == occurs_in_fields(needle, fields_view(fs@)),
    decreases fs@,
{
    let mut i: usize = 0;
    while i < fs.len()
        invariant
            i <= fs.len(),
            forall|j: int| 0 <= j < i ==> !occurs(needle, (#[trigger] fields_view(fs@)[j]).1),
        decreases fs.len() - i,
    {
        assert(decreases_to!(fs@ => fs@[i as int]));
        assert(decreases_to!(fs@[i as int] => fs@[i as int].1));
        assert(fields_view(fs@)[i as int].1 == ty_view(fs@[i as int].1));
        if type_contains_var(&fs[i].1, needle) {
            return true;
        }
        i = i + 1;
    }
    false
}

// ---------------------------------------------------------------------------
// Collecting variables into a set
// ---------------------------------------------------------------------------

/// Adds the free variables of `ty` to `vars`.
pub fn free_type_vars_into(ty: &Ty, vars: &mut HashSet<TyVar>)
    ensures
        final(vars)@ == old(vars)@.union(free_vars(ty@)),
    decreases *ty,
{
    match ty {
        Ty::Var(v) => {
            vars.insert(*v);
        },
        Ty::Qualified(constraints, inner) => {
            free_type_vars_into(inner, vars);
            constraints_vars_into(constraints, vars);
        },
        Ty::Func(params, ret) => {
            params_vars_into(params, vars);
            free_type_vars_into(&ret.ty, vars);
        },
        Ty::Tuple(tys) => {
            tys_vars_into(tys, vars);
        },
        Ty::App(con, args) => {
            free_type_vars_into(con, vars);
            tys_vars_into(args, vars);
        },
        Ty::Record(row) => {
            fields_vars_into(&row.fields, vars);
            free_type_vars_into(&row.tail, vars);
        },
        Ty::Int | Ty::Float | Ty::Unit | Ty::Never | Ty::Con(_) => {},
    }
    assert(vars@ =~= old(vars)@.union(free_vars(ty@)));
}

/// Adds the free variables of each of `tys` to `vars`.
pub fn tys_vars_into(tys: &Vec<Ty>, vars: &mut HashSet<TyVar>)
    ensures
        final(vars)@ == old(vars)@.union(Set::new(|v: TyVar| occurs_in_tys(v, tys_view(tys@)))),
    decreases tys@,
{
    let ghost all = tys_view(tys@);
    let mut i: usize = 0;
    assert(vars@ =~= old(vars)@.union(Set::new(|v: TyVar| occurs_in_tys(v, all.take(0)))));
    while i < tys.len()
        invariant
            i <= tys.len(),
            all == tys_view(tys@),
            vars@ == old(vars)@.union(
                Set::new(|v: TyVar| occurs_in_tys(v, all.take(i as int))),
            ),
        decreases tys.len() - i,
    {
        let ghost before = vars@;
        free_type_vars_into(&tys[i], vars);
        proof {
            assert(all[i as int] == ty_view(tys@[i as int]));
            assert forall|v: TyVar|
                occurs_in_tys(v, all.take(i + 1)) == (occurs_in_tys(v, all.take(i as int))
                    || occurs(v, all[i as int])) by {
                lemma_occurs_in_tys_take(v, all, i as int);
            }
            assert(vars@ =~= old(vars)@.union(
                Set::new(|v: TyVar| occurs_in_tys(v, all.take(i + 1))),
            ));
        }
        i = i + 1;
    }
    assert(all.take(tys@.len() as int) =~= all);
}

proof fn lemma_occurs_in_tys_take(v: TyVar, all: Seq<TyV>, i: int)
    requires
        0 <= i < all.len(),
    ensures
        occurs_in_tys(v, all.take(i + 1)) == (occurs_in_tys(v, all.take(i)) || occurs(
            v,
            all[i],
        )),
{
    let a = all.take(i);
    let b = all.take(i + 1);
    if occurs_in_tys(v, b) {
        let k = choose|k: int| 0 <= k < b.len() && occurs(v, #[trigger] b[k]);
        if k < i {
            assert(a[k] == b[k]);
        }
    }
    if occurs_in_tys(v, a) {
        let k = choose|k: int| 0 <= k < a.len() && occurs(v, #[trigger] a[k]);
        assert(b[k] == a[k]);
    }
    if occurs(v, all[i]) {
        assert(b[i] == all[i]);
    }
}

fn params_vars_into(ps: &Vec<FuncParam>, vars: &mut HashSet<TyVar>)
    ensures
        final(vars)@ == old(vars)@.union(
            Set::new(|v: TyVar| occurs_in_params(v, params_view(ps@))),
        ),
    decreases ps@,
{
    let ghost all = params_view(ps@);
    let mut i: usize = 0;
    assert(vars@ =~= old(vars)@.union(Set::new(|v: TyVar| occurs_in_params(v, all.take(0)))));
    while i < ps.len()
        invariant
            i <= ps.len(),
            all == params_view(ps@),
            vars@ == old(vars)@.union(
                Set::new(|v: TyVar| occurs_in_params(v, all.take(i as int))),
            ),
        decreases ps.len() - i,
    {
        free_type_vars_into(&ps[i].ty, vars);
        proof {
            assert(all[i as int].ty == ty_view(ps@[i as int].ty));
            assert forall|v: TyVar|
                occurs_in_params(v, all.take(i + 1)) == (occurs_in_params(v, all.take(i as int))
                    || occurs(v, all[i as int].ty)) by {
                let a = all.take(i as int);
                let b = all.take(i + 1);
                if occurs_in_params(v, b) {
                    let k = choose|k: int| 0 <= k < b.len() && occurs(v, (#[trigger] b[k]).ty);
                    if k < i {
                        assert(a[k] == b[k]);
                    }
                }
                if occurs_in_params(v, a) {
                    let k = choose|k: int| 0 <= k < a.len() && occurs(v, (#[trigger] a[k]).ty);
                    assert(b[k] == a[k]);
                }
                assert(b[i as int] == all[i as int]);
            }
            assert(vars@ =~= old(vars)@.union(
                Set::new(|v: TyVar| occurs_in_params(v, all.take(i + 1))),
            ));
        }
        i = i + 1;
    }
    assert(all.take(ps@.len() as int) =~= all);
}

fn fields_vars_into(fs: &Vec<(String, Ty)>, vars: &mut HashSet<TyVar>)
    ensures
        final(vars)@ == old(vars)@.union(
            Set::new(|v: TyVar| occurs_in_fields(v, fields_view(fs@))),
        ),
    decreases fs@,
{
    let ghost all = fields_view(fs@);
    let mut i: usize = 0;
    assert(vars@ =~= old(vars)@.union(Set::new(|v: TyVar| occurs_in_fields(v, all.take(0)))));
    while i < fs.len()
        invariant
            i <= fs.len(),
            all == fields_view(fs@),
            vars@ == old(vars)@.union(
                Set::new(|v: TyVar| occurs_in_fields(v, all.take(i as int))),
            ),
        decreases fs.len() - i,
    {
        assert(decreases_to!(fs@ => fs@[i as int]));
        assert(decreases_to!(fs@[i as int] => fs@[i as int].1));
        free_type_vars_into(&fs[i].1, vars);
        proof {
            assert(all[i as int].1 == ty_view(fs@[i as int].1));
            assert forall|v: TyVar|
                occurs_in_fields(v, all.take(i + 1)) == (occurs_in_fields(v, all.take(i as int))
                    || occurs(v, all[i as int].1)) by {
                let a = all.take(i as int);
                let b = all.take(i + 1);
                if occurs_in_fields(v, b) {
                    let k = choose|k: int| 0 <= k < b.len() && occurs(v, (#[trigger] b[k]).1);
                    if k < i {
                        assert(a[k] == b[k]);
                    }
                }
                if occurs_in_fields(v, a) {
                    let k = choose|k: int| 0 <= k < a.len() && occurs(v, (#[trigger] a[k]).1);
                    assert(b[k] == a[k]);
                }
                assert(b[i as int] == all[i as int]);
            }
            assert(vars@ =~= old(vars)@.union(
                Set::new(|v: TyVar| occurs_in_fields(v, all.take(i + 1))),
            ));
        }
        i = i + 1;
    }
    assert(all.take(fs@.len() as int) =~= all);
}

fn constraints_vars_into(cs: &Vec<TraitConstraint>, vars: &mut HashSet<TyVar>)
    ensures
        final(vars)@ == old(vars)@.union(
            Set::new(|v: TyVar| occurs_in_constraints(v, constraints_view(cs@))),
        ),
    decreases cs@,
{
    let ghost all = constraints_view(cs@);
    let mut i: usize = 0;
    assert(vars@ =~= old(vars)@.union(
        Set::new(|v: TyVar| occurs_in_constraints(v, all.take(0))),
    ));
    while i < cs.len()
        invariant
            i <= cs.len(),
            all == constraints_view(cs@),
            vars@ == old(vars)@.union(
                Set::new(|v: TyVar| occurs_in_constraints(v, all.take(i as int))),
            ),
        decreases cs.len() - i,
    {
        let c = &cs[i];
        vars.insert(c.var);
        tys_vars_into(&c.args, vars);
        proof {
            assert(all[i as int].args == tys_view(c.args@));
            assert(all[i as int].var == c.var);
            assert forall|v: TyVar|
                occurs_in_constraints(v, all.take(i + 1)) == (occurs_in_constraints(
                    v,
                    all.take(i as int),
                ) || all[i as int].var == v || occurs_in_tys(v, all[i as int].args)) by {
                let a = all.take(i as int);
                let b = all.take(i + 1);
                if occurs_in_constraints(v, b) {
                    let k = choose|k: int|
                        0 <= k < b.len() && ((#[trigger] b[k]).var == v || occurs_in_tys(
                            v,
                            b[k].args,
                        ));
                    if k < i {
                        assert(a[k] == b[k]);
                    }
                }
                if occurs_in_constraints(v, a) {
                    let k = choose|k: int|
                        0 <= k < a.len() && ((#[trigger] a[k]).var == v || occurs_in_tys(
                            v,
                            a[k].args,
                        ));
                    assert(b[k] == a[k]);
                }
                assert(b[i as int] == all[i as int]);
            }
            assert(vars@ =~= old(vars)@.union(
                Set::new(|v: TyVar| occurs_in_constraints(v, all.take(i + 1))),
            ));
        }
        i = i + 1;
    }
    assert(all.take(cs@.len() as int) =~= all);
}

/// The free variables of a type.
pub fn free_type_vars(ty: &Ty) -> (vars: HashSet<TyVar>)
    ensures
        vars@ == free_vars(ty@),
{
    let mut vars: HashSet<TyVar> = HashSet::new();
    free_type_vars_into(ty, &mut vars);
    assert(vars@ =~= free_vars(ty@));
    vars
}

/// Lists the variables of a set, in no particular order.
pub fn list_vars(set: &HashSet<TyVar>) -> (r: Vec<TyVar>)
    ensures
        forall|v: TyVar| #[trigger] r@.contains(v) <==> set@.contains(v),
{
    let mut r: Vec<TyVar> = Vec::new();
    let items = set.iter();
    let ghost all = vstd::std_specs::iter::IteratorSpec::remaining(&items).unref();
    for v in iter: items
        invariant
            iter.seq().unref() == all,
            r@ == all.take(iter.index()),
    {
        r.push(*v);
        assert(r@ =~= all.take(iter.index() + 1));
    }
    assert(r@ =~= all);
    assert(all.to_set() == set@);
    r
}

// ---------------------------------------------------------------------------
// Variables in the order in which they are displayed
// ---------------------------------------------------------------------------

/// `vars` with `v` behind, unless it is there already.
pub open spec fn add_var(vars: Seq<TyVar>, v: TyVar) -> Seq<TyVar> {
    if vars.contains(v) {
        vars
    } else {
        vars.push(v)
    }
}

/// `vars` followed by the variables of `t` in display order, each once. A
/// constraint comes behind its type, with its own variable before its arguments.
pub open spec fn display_vars(vars: Seq<TyVar>, t: TyV) -> Seq<TyVar>
    decreases t,
{
    match t {
        TyV::Var(v) => add_var(vars, v),
        TyV::Qualified(cs, inner) => constraints_display_vars(display_vars(vars, *inner), cs),
        TyV::Tuple(ts) => tys_display_vars(vars, ts),
        TyV::Func(ps, ret) => display_vars(params_display_vars(vars, ps), *ret.ty),
        TyV::App(con, args) => tys_display_vars(display_vars(vars, *con), args),
        TyV::Record(row) => display_vars(fields_display_vars(vars, row.fields), *row.tail),
        _ => vars,
    }
}

pub open spec fn tys_display_vars(vars: Seq<TyVar>, ts: Seq<TyV>) -> Seq<TyVar>
    decreases ts,
{
    if ts.len() == 0 {
        vars
    } else {
        display_vars(tys_display_vars(vars, ts.drop_last()), ts.last())
    }
}

pub open spec fn params_display_vars(vars: Seq<TyVar>, ps: Seq<ParamV>) -> Seq<TyVar>
    decreases ps,
{
    if ps.len() == 0 {
        vars
    } else {
        display_vars(params_display_vars(vars, ps.drop_last()), ps.last().ty)
    }
}

pub open spec fn fields_display_vars(vars: Seq<TyVar>, fs: Seq<FieldV>) -> Seq<TyVar>
    decreases fs,
{
    if fs.len() == 0 {
        vars
    } else {
        display_vars(fields_display_vars(vars, fs.drop_last()), fs.last().1)
    }
}

pub open spec fn constraints_display_vars(vars: Seq<TyVar>, cs: Seq<ConstraintV>) -> Seq<TyVar>
    decreases cs,
{
    if cs.len() == 0 {
        vars
    } else {
        tys_display_vars(
            add_var(constraints_display_vars(vars, cs.drop_last()), cs.last().var),
            cs.last().args,
        )
    }
}

/// Appends `v` to `vars`, unless it is there already.
pub fn push_new_var(vars: &mut Vec<TyVar>, v: TyVar)
    ensures
        final(vars)@ == add_var(old(vars)@, v),
{
    if !contains_var(vars, v) {
        vars.push(v);
    }
}

/// Whether `v` is one of `vars`.
pub fn contains_var(vars: &Vec<TyVar>, v: TyVar) -> (r: bool)
    ensures
        r == vars@.contains(v),
{
    let mut i: usize = 0;
    while i < vars.len()
        invariant
            i <= vars.len(),
            forall|j: int| 0 <= j < i ==> vars@[j] != v,
        decreases vars.len() - i,
    {
        if vars[i] == v {
            return true;
        }
        i = i + 1;
    }
    false
}

fn collect_display_vars(ty: &Ty, vars: &mut Vec<TyVar>)
    ensures
        final(vars)@ == display_vars(old(vars)@, ty@),
    decreases *ty,
{
    match ty {
        Ty::Var(v) => push_new_var(vars, *v),
        Ty::Qualified(constraints, inner) => {
            collect_display_vars(inner, vars);
            collect_constraints_display_vars(constraints, vars);
        },
        Ty::Tuple(items) => collect_tys_display_vars(items, vars),
        Ty::Func(params, ret) => {
            collect_params_display_vars(params, vars);
            collect_display_vars(&ret.ty, vars);
        },
        Ty::App(con, args) => {
            collect_display_vars(con, vars);
            collect_tys_display_vars(args, vars);
        },
        Ty::Record(row) => {
            collect_fields_display_vars(&row.fields, vars);
            collect_display_vars(&row.tail, vars);
        },
        Ty::Int | Ty::Float | Ty::Unit | Ty::Never | Ty::Con(_) => {},
    }
}

fn collect_constraints_display_vars(cs: &Vec<TraitConstraint>, vars: &mut Vec<TyVar>)
    ensures
        final(vars)@ == constraints_display_vars(old(vars)@, constraints_view(cs@)),
    decreases cs@,
{
    let ghost start = vars@;
    let ghost all = constraints_view(cs@);
    let mut i: usize = 0;
    while i < cs.len()
        invariant
            i <= cs.len(),
            all == constraints_view(cs@),
            vars@ == constraints_display_vars(start, all.take(i as int)),
        decreases cs.len() - i,
    {
        assert(all[i as int].args == tys_view(cs@[i as int].args@));
        push_new_var(vars, cs[i].var);
        collect_tys_display_vars(&cs[i].args, vars);
        i = i + 1;
        assert(all.take(i as int).drop_last() =~= all.take(i - 1));
    }
    assert(all.take(cs@.len() as int) =~= all);
}

fn collect_tys_display_vars(tys: &Vec<Ty>, vars: &mut Vec<TyVar>)
    ensures
        final(vars)@ == tys_display_vars(old(vars)@, tys_view(tys@)),
    decreases tys@,
{
    let ghost start = vars@;
    let ghost all = tys_view(tys@);
    let mut i: usize = 0;
    while i < tys.len()
        invariant
            i <= tys.len(),
            all == tys_view(tys@),
            vars@ == tys_display_vars(start, all.take(i as int)),
        decreases tys.len() - i,
    {
        collect_display_vars(&tys[i], vars);
        i = i + 1;
        assert(all.take(i as int).drop_last() =~= all.take(i - 1));
    }
    assert(all.take(tys@.len() as int) =~= all);
}

fn collect_params_display_vars(ps: &Vec<FuncParam>, vars: &mut Vec<TyVar>)
    ensures
        final(vars)@ == params_display_vars(old(vars)@, params_view(ps@)),
    decreases ps@,
{
    let ghost start = vars@;
    let ghost all = params_view(ps@);
    let mut i: usize = 0;
    while i < ps.len()
        invariant
            i <= ps.len(),
            all == params_view(ps@),
            vars@ == params_display_vars(start, all.take(i as int)),
        decreases ps.len() - i,
    {
        collect_display_vars(&ps[i].ty, vars);
        i = i + 1;
        assert(all.take(i as int).drop_last() =~= all.take(i - 1));
    }
    assert(all.take(ps@.len() as int) =~= all);
}

fn collect_fields_display_vars(fs: &Vec<(String, Ty)>, vars: &mut Vec<TyVar>)
    ensures
        final(vars)@ == fields_display_vars(old(vars)@, fields_view(fs@)),
    decreases fs@,
{
    let ghost start = vars@;
    let ghost all = fields_view(fs@);
    let mut i: usize = 0;
    while i < fs.len()
        invariant
            i <= fs.len(),
            all == fields_view(fs@),
            vars@ == fields_display_vars(start, all.take(i as int)),
        decreases fs.len() - i,
    {
        assert(decreases_to!(fs@ => fs@[i as int]));
        assert(decreases_to!(fs@[i as int] => fs@[i as int].1));
        collect_display_vars(&fs[i].1, vars);
        i = i + 1;
        assert(all.take(i as int).drop_last() =~= all.take(i - 1));
    }
    assert(all.take(fs@.len() as int) =~= all);
}

/// The variables of a type in the order in which it displays them, each once.
pub fn free_type_vars_in_display_order(ty: &Ty) -> (vars: Vec<TyVar>)
    ensures
        vars@ == display_vars(Seq::empty(), ty@),
{
    let mut vars: Vec<TyVar> = Vec::new();
    collect_display_vars(ty, &mut vars);
    vars
}

} // verus!
