//! Schemes: giving their variables fresh names, and quantifying types.

use std::collections::{HashMap, HashSet};
use vstd::prelude::*;

use crate::apply::{apply, apply_tys};
use crate::ast::{TraitDef, TypeBound};
use crate::ast_view::{fundeps_view, trait_def_view, type_bound_view, type_bounds_view};
use crate::ast_view::{types_view, TraitDefV, TypeBoundV};
use crate::convert::{to_tys, ConvV, VarNames, MAX_ALIAS_DEPTH};
use crate::env::TypeEnv;
use crate::error::{TypeError, TypeErrorV};
use crate::rows::FieldV;
use crate::state::{fresh, next_var, Infer, InferV};
use crate::subst::{clone_indexes, level_in, Subst, SubstV, TypeLevel};
use crate::tables::NameMap;
use crate::text::{decimal, decimal_string, join, join_strings, strings_view};
use crate::ty::{clone_constraints, clone_tys, clone_vars, constraint_eq, constraint_view};
use crate::ty::{constraints_view, field_view, fields_view, param_view, params_view, return_view};
use crate::ty::{row_view, ty_view, tys_view, unary_constraint, ConstraintV, FuncParam};
use crate::ty::{FuncReturn, ParamV, ReturnV, Row, RowV, Scheme, SchemeV, TraitConstraint, Ty};
use crate::ty::{TyV, TyVar};
use crate::type_syntax::{dict_indexes, selected, trait_dict_indexes};
use crate::vars::{contains_var, free_type_vars, free_vars, list_vars, tys_vars_into};
use crate::vars::{free_type_vars_into, occurs_in_tys};

verus! {

broadcast use vstd::std_specs::hash::group_hash_axioms;

// ---------------------------------------------------------------------------
// Instances
// ---------------------------------------------------------------------------

/// `ty` with the variables that `m` renames renamed.
pub open spec fn rename(ty: TyV, m: Map<TyVar, TyVar>) -> TyV
    decreases ty,
{
    match ty {
        TyV::Var(v) => TyV::Var(renamed_var(v, m)),
        TyV::Qualified(cs, inner) => TyV::Qualified(
            rename_constraints(cs, m),
            Box::new(rename(*inner, m)),
        ),
        TyV::Func(ps, ret) => TyV::Func(
            rename_params(ps, m),
            ReturnV { ty: Box::new(rename(*ret.ty, m)), capability: ret.capability },
        ),
        TyV::Tuple(items) => TyV::Tuple(rename_tys(items, m)),
        TyV::App(con, args) => TyV::App(Box::new(rename(*con, m)), rename_tys(args, m)),
        TyV::Record(row) => TyV::Record(
            RowV {
                fields: rename_fields(row.fields, m),
                tail: Box::new(rename(*row.tail, m)),
            },
        ),
        _ => ty,
    }
}

pub open spec fn renamed_var(v: TyVar, m: Map<TyVar, TyVar>) -> TyVar {
    if m.dom().contains(v) {
        m[v]
    } else {
        v
    }
}

pub open spec fn rename_tys(s: Seq<TyV>, m: Map<TyVar, TyVar>) -> Seq<TyV>
    decreases s,
{
    Seq::new(
        s.len(),
        |i: int|
            if 0 <= i < s.len() {
                rename(s[i], m)
            } else {
                arbitrary()
            },
    )
}

pub open spec fn rename_params(s: Seq<ParamV>, m: Map<TyVar, TyVar>) -> Seq<ParamV>
    decreases s,
{
    Seq::new(
        s.len(),
        |i: int|
            if 0 <= i < s.len() {
                ParamV { ty: rename(s[i].ty, m), capability: s[i].capability }
            } else {
                arbitrary()
            },
    )
}

pub open spec fn rename_fields(s: Seq<FieldV>, m: Map<TyVar, TyVar>) -> Seq<FieldV>
    decreases s,
{
    Seq::new(
        s.len(),
        |i: int|
            if 0 <= i < s.len() {
                (s[i].0, rename(s[i].1, m))
            } else {
                arbitrary()
            },
    )
}

/// Constraints on variables that `m` renames are renamed, others stay.
pub open spec fn rename_constraints(s: Seq<ConstraintV>, m: Map<TyVar, TyVar>) -> Seq<ConstraintV>
    decreases s,
{
    Seq::new(
        s.len(),
        |i: int|
            if 0 <= i < s.len() {
                if m.dom().contains(s[i].var) {
                    ConstraintV {
                        var: m[s[i].var],
                        trait_name: s[i].trait_name,
                        args: rename_tys(s[i].args, m),
                        determinant_indexes: s[i].determinant_indexes,
                    }
                } else {
                    s[i]
                }
            } else {
                arbitrary()
            },
    )
}

/// A fresh name for each variable from the one at `i` on.
pub open spec fn fresh_names(st: InferV, vars: Seq<TyVar>, i: nat, m: Map<TyVar, TyVar>) -> (
    InferV,
    Map<TyVar, TyVar>,
)
    decreases vars.len() - i,
{
    if i >= vars.len() {
        (st, m)
    } else {
        fresh_names(fresh(st), vars, i + 1, m.insert(vars[i as int], next_var(st)))
    }
}

/// A type and the constraints on it.
pub struct InstanceV {
    pub ty: TyV,
    pub constraints: Seq<ConstraintV>,
}

/// A type and the constraints on it.
#[derive(Debug)]
pub struct InstantiatedScheme {
    pub ty: Ty,
    pub constraints: Vec<TraitConstraint>,
}

impl View for InstantiatedScheme {
    type V = InstanceV;

    open spec fn view(&self) -> InstanceV {
        InstanceV { ty: self.ty@, constraints: constraints_view(self.constraints@) }
    }
}

/// A scheme with fresh variables in place of the quantified ones.
#[verifier::opaque]
pub open spec fn instance(st: InferV, s: SchemeV) -> (InferV, InstanceV) {
    let named = fresh_names(st, s.vars, 0, Map::empty());
    (
        named.0,
        InstanceV {
            ty: rename(s.ty, named.1),
            constraints: rename_constraints(s.constraints, named.1),
        },
    )
}

/// The type of a value of a scheme.
pub open spec fn value_of(i: InstanceV) -> TyV {
    if i.constraints.len() == 0 {
        i.ty
    } else {
        TyV::Qualified(i.constraints, Box::new(i.ty))
    }
}

fn apply_inst(ty: &Ty, m: &HashMap<TyVar, TyVar>) -> (r: Ty)
    ensures
        r@ == rename(ty@, m@),
    decreases *ty,
{
    match ty {
        Ty::Var(v) => match m.get(v) {
            Some(w) => Ty::Var(*w),
            None => Ty::Var(*v),
        },
        Ty::Qualified(cs, inner) => Ty::Qualified(
            inst_constraints(cs, m),
            Box::new(apply_inst(inner, m)),
        ),
        Ty::Func(ps, ret) => {
            assert(return_view(*ret).ty == Box::new(ty_view(*ret.ty)));
            let ret2 = FuncReturn {
                ty: Box::new(apply_inst(&ret.ty, m)),
                capability: ret.capability,
            };
            Ty::Func(inst_params(ps, m), ret2)
        },
        Ty::Tuple(items) => Ty::Tuple(inst_tys(items, m)),
        Ty::App(con, args) => Ty::App(Box::new(apply_inst(con, m)), inst_tys(args, m)),
        Ty::Record(row) => {
            assert(row_view(*row).tail == Box::new(ty_view(*row.tail)));
            let row2 = Row {
                fields: inst_fields(&row.fields, m),
                tail: Box::new(apply_inst(&row.tail, m)),
            };
            Ty::Record(row2)
        },
        _ => ty.clone(),
    }
}

fn inst_tys(s: &Vec<Ty>, m: &HashMap<TyVar, TyVar>) -> (r: Vec<Ty>)
    ensures
        tys_view(r@) == rename_tys(tys_view(s@), m@),
        r@.len() == s@.len(),
    decreases s@,
{
    let ghost all = tys_view(s@);
    let ghost want = rename_tys(all, m@);
    let mut out: Vec<Ty> = Vec::new();
    let mut i: usize = 0;
    while i < s.len()
        invariant
            i <= s.len(),
            all == tys_view(s@),
            want == rename_tys(all, m@),
            out@.len() == i,
            forall|j: int| 0 <= j < i ==> ty_view(#[trigger] out@[j]) == want[j],
        decreases s.len() - i,
    {
        assert(all[i as int] == ty_view(s@[i as int]));
        assert(decreases_to!(s@ => s@[i as int]));
        out.push(apply_inst(&s[i], m));
        i = i + 1;
    }
    assert(tys_view(out@) =~= want);
    out
}

fn inst_params(s: &Vec<FuncParam>, m: &HashMap<TyVar, TyVar>) -> (r: Vec<FuncParam>)
    ensures
        params_view(r@) == rename_params(params_view(s@), m@),
        r@.len() == s@.len(),
    decreases s@,
{
    let ghost all = params_view(s@);
    let ghost want = rename_params(all, m@);
    let mut out: Vec<FuncParam> = Vec::new();
    let mut i: usize = 0;
    while i < s.len()
        invariant
            i <= s.len(),
            all == params_view(s@),
            want == rename_params(all, m@),
            out@.len() == i,
            forall|j: int| 0 <= j < i ==> param_view(#[trigger] out@[j]) == want[j],
        decreases s.len() - i,
    {
        assert(all[i as int] == param_view(s@[i as int]));
        assert(decreases_to!(s@ => s@[i as int]));
        assert(decreases_to!(s@[i as int] => s@[i as int].ty));
        let ty = apply_inst(&s[i].ty, m);
        out.push(FuncParam { ty, capability: s[i].capability });
        i = i + 1;
    }
    assert(params_view(out@) =~= want);
    out
}

fn inst_fields(s: &Vec<(String, Ty)>, m: &HashMap<TyVar, TyVar>) -> (r: Vec<(String, Ty)>)
    ensures
        fields_view(r@) == rename_fields(fields_view(s@), m@),
        r@.len() == s@.len(),
    decreases s@,
{
    let ghost all = fields_view(s@);
    let ghost want = rename_fields(all, m@);
    let mut out: Vec<(String, Ty)> = Vec::new();
    let mut i: usize = 0;
    while i < s.len()
        invariant
            i <= s.len(),
            all == fields_view(s@),
            want == rename_fields(all, m@),
            out@.len() == i,
            forall|j: int| 0 <= j < i ==> field_view(#[trigger] out@[j]) == want[j],
        decreases s.len() - i,
    {
        assert(all[i as int] == field_view(s@[i as int]));
        assert(decreases_to!(s@ => s@[i as int]));
        assert(decreases_to!(s@[i as int] => s@[i as int].1));
        let ty = apply_inst(&s[i].1, m);
        out.push((s[i].0.clone(), ty));
        i = i + 1;
    }
    assert(fields_view(out@) =~= want);
    out
}

fn inst_constraints(s: &Vec<TraitConstraint>, m: &HashMap<TyVar, TyVar>) -> (r: Vec<TraitConstraint>)
    ensures
        constraints_view(r@) == rename_constraints(constraints_view(s@), m@),
        r@.len() == s@.len(),
    decreases s@,
{
    let ghost all = constraints_view(s@);
    let ghost want = rename_constraints(all, m@);
    let mut out: Vec<TraitConstraint> = Vec::new();
    let mut i: usize = 0;
    while i < s.len()
        invariant
            i <= s.len(),
            all == constraints_view(s@),
            want == rename_constraints(all, m@),
            out@.len() == i,
            forall|j: int| 0 <= j < i ==> constraint_view(#[trigger] out@[j]) == want[j],
        decreases s.len() - i,
    {
        assert(all[i as int] == constraint_view(s@[i as int]));
        assert(decreases_to!(s@ => s@[i as int]));
        assert(decreases_to!(s@[i as int] => s@[i as int].args));
        assert(decreases_to!(s@[i as int].args => s@[i as int].args@));
        let c = match m.get(&s[i].var) {
            Some(w) => TraitConstraint {
                var: *w,
                trait_name: s[i].trait_name.clone(),
                args: inst_tys(&s[i].args, m),
                determinant_indexes: clone_indexes(&s[i].determinant_indexes),
            },
            None => s[i].clone(),
        };
        assert(constraint_view(c) == want[i as int]);
        out.push(c);
        i = i + 1;
    }
    assert(constraints_view(out@) =~= want);
    out
}

impl Infer {
    /// A scheme with fresh variables in place of the quantified ones.
    pub fn instantiate_scheme(&mut self, scheme: &Scheme) -> (r: InstantiatedScheme)
        requires
            old(self).wf(),
        ensures
            final(self).wf(),
            (final(self)@, r@) == instance(old(self)@, scheme@),
    {
        let ghost all = scheme.vars@;
        let ghost start = self@;
        proof {
            reveal(instance);
        }
        let mut m: HashMap<TyVar, TyVar> = HashMap::new();
        let mut i: usize = 0;
        assert(m@ =~= Map::empty());
        while i < scheme.vars.len()
            invariant
                i <= scheme.vars.len(),
                self.wf(),
                all == scheme.vars@,
                start == old(self)@,
                fresh_names(start, all, 0, Map::empty()) == fresh_names(self@, all, i as nat, m@),
            decreases scheme.vars.len() - i,
        {
            let v = self.fresh_var();
            m.insert(scheme.vars[i], v);
            i = i + 1;
        }
        InstantiatedScheme {
            ty: apply_inst(&scheme.ty, &m),
            constraints: inst_constraints(&scheme.constraints, &m),
        }
    }

    /// The type of an instance of a scheme, without its constraints.
    pub fn instantiate(&mut self, scheme: &Scheme) -> (r: Ty)
        requires
            old(self).wf(),
        ensures
            final(self).wf(),
            (final(self)@, r@) == (
                instance(old(self)@, scheme@).0,
                instance(old(self)@, scheme@).1.ty,
            ),
    {
        self.instantiate_scheme(scheme).ty
    }

    /// The type of a value of a scheme.
    pub fn instantiate_value(&mut self, scheme: &Scheme) -> (r: Ty)
        requires
            old(self).wf(),
        ensures
            final(self).wf(),
            (final(self)@, r@) == (
                instance(old(self)@, scheme@).0,
                value_of(instance(old(self)@, scheme@).1),
            ),
    {
        let i = self.instantiate_scheme(scheme);
        qualified(i)
    }
}

/// The type of a value of a scheme.
pub fn qualified(i: InstantiatedScheme) -> (r: Ty)
    ensures
        r@ == value_of(i@),
{
    assert(constraints_view(i.constraints@).len() == i.constraints@.len());
    if i.constraints.len() == 0 {
        i.ty
    } else {
        Ty::Qualified(i.constraints, Box::new(i.ty))
    }
}

// ---------------------------------------------------------------------------
// Variables in order
// ---------------------------------------------------------------------------

/// Whether variables ascend.
pub open spec fn ascends(s: Seq<TyVar>) -> bool {
    forall|i: int, j: int| 0 <= i < j < s.len() ==> s[i] < s[j]
}

/// Whether `s` lists the variables of `set` in order.
pub open spec fn lists(s: Seq<TyVar>, set: Set<TyVar>) -> bool {
    ascends(s) && forall|v: TyVar| #[trigger] s.contains(v) <==> set.contains(v)
}

/// The variables of a set in ascending order.
pub open spec fn in_order(set: Set<TyVar>) -> Seq<TyVar> {
    choose|s: Seq<TyVar>| lists(s, set)
}

proof fn lemma_lists_unique(a: Seq<TyVar>, b: Seq<TyVar>, set: Set<TyVar>)
    requires
        lists(a, set),
        lists(b, set),
    ensures
        a == b,
    decreases a.len(),
{
    if a.len() == 0 {
        if b.len() > 0 {
            assert(b.contains(b[0]));
            assert(a.contains(b[0]));
        }
        assert(a =~= b);
    } else {
        let x = a.last();
        assert(a.contains(x));
        assert(b.contains(x));
        let k = choose|k: int| 0 <= k < b.len() && b[k] == x;
        let y = b.last();
        assert(b.contains(y));
        assert(a.contains(y));
        let j = choose|j: int| 0 <= j < a.len() && a[j] == y;
        assert(x == y) by {
            if k < b.len() - 1 {
                assert(b[k] < b[b.len() - 1]);
            }
            if j < a.len() - 1 {
                assert(a[j] < a[a.len() - 1]);
            }
        }
        let rest = set.remove(x);
        let a2 = a.drop_last();
        let b2 = b.drop_last();
        assert forall|v: TyVar| #[trigger] a2.contains(v) <==> rest.contains(v) by {
            if a2.contains(v) {
                let i = choose|i: int| 0 <= i < a2.len() && a2[i] == v;
                assert(a[i] == v);
                assert(a[i] < a[a.len() - 1]);
                assert(a.contains(v));
            }
            if rest.contains(v) {
                assert(a.contains(v));
                let i = choose|i: int| 0 <= i < a.len() && a[i] == v;
                assert(a2[i] == v);
            }
        }
        assert forall|v: TyVar| #[trigger] b2.contains(v) <==> rest.contains(v) by {
            if b2.contains(v) {
                let i = choose|i: int| 0 <= i < b2.len() && b2[i] == v;
                assert(b[i] == v);
                assert(b[i] < b[b.len() - 1]);
                assert(b.contains(v));
            }
            if rest.contains(v) {
                assert(b.contains(v));
                let i = choose|i: int| 0 <= i < b.len() && b[i] == v;
                assert(b2[i] == v);
            }
        }
        lemma_lists_unique(a2, b2, rest);
        assert(a =~= a2.push(x));
        assert(b =~= b2.push(x));
    }
}

/// The variables of a list, each of them once, are those of `set` in order.
pub proof fn lemma_in_order(s: Seq<TyVar>, set: Set<TyVar>)
    requires
        lists(s, set),
    ensures
        in_order(set) == s,
{
    lemma_lists_unique(in_order(set), s, set);
}

fn insert_var(s: &mut Vec<TyVar>, v: TyVar)
    requires
        ascends(old(s)@),
    ensures
        ascends(final(s)@),
        forall|w: TyVar| #[trigger] final(s)@.contains(w) <==> old(s)@.contains(w) || w == v,
{
    let ghost before = s@;
    let mut i: usize = 0;
    while i < s.len() && s[i] < v
        invariant
            i <= s.len(),
            s@ == before,
            forall|j: int| 0 <= j < i ==> s@[j] < v,
        decreases s.len() - i,
    {
        i = i + 1;
    }
    if i < s.len() && s[i] == v {
        return;
    }
    s.insert(i, v);
    proof {
        let after = s@;
        assert(after =~= before.insert(i as int, v));
        assert forall|w: TyVar| #[trigger] after.contains(w) <==> before.contains(w) || w == v by {
            if after.contains(w) {
                let k = choose|k: int| 0 <= k < after.len() && after[k] == w;
                if k < i {
                    assert(before[k] == w);
                } else if k > i {
                    assert(before[k - 1] == w);
                }
            }
            if before.contains(w) {
                let k = choose|k: int| 0 <= k < before.len() && before[k] == w;
                if k < i {
                    assert(after[k] == w);
                } else {
                    assert(after[k + 1] == w);
                }
            }
            assert(after[i as int] == v);
        }
        assert forall|a: int, b: int| 0 <= a < b < after.len() implies after[a] < after[b] by {
            let x = if a < i {
                before[a]
            } else {
                v
            };
        }
    }
}

/// The variables of a set that are not in another, in ascending order.
pub fn sorted_difference(set: &HashSet<TyVar>, other: &HashSet<TyVar>) -> (r: Vec<TyVar>)
    ensures
        r@ == in_order(set@.difference(other@)),
{
    let vars = list_vars(set);
    let ghost want = set@.difference(other@);
    let mut out: Vec<TyVar> = Vec::new();
    let mut i: usize = 0;
    while i < vars.len()
        invariant
            i <= vars.len(),
            want == set@.difference(other@),
            forall|v: TyVar| #[trigger] vars@.contains(v) <==> set@.contains(v),
            ascends(out@),
            forall|v: TyVar| #[trigger]
                out@.contains(v) <==> want.contains(v) && vars@.take(i as int).contains(v),
        decreases vars.len() - i,
    {
        let v = vars[i];
        proof {
            assert(vars@.contains(vars@[i as int]));
            assert(vars@.take(i + 1) =~= vars@.take(i as int).push(v));
            assert forall|w: TyVar| #[trigger]
                vars@.take(i + 1).contains(w) <==> vars@.take(i as int).contains(w) || w == v by {
                crate::tables::lemma_push_contains(vars@.take(i as int), v, w);
            }
        }
        if !other.contains(&v) {
            insert_var(&mut out, v);
        }
        i = i + 1;
    }
    proof {
        assert(vars@.take(vars@.len() as int) =~= vars@);
        assert(lists(out@, want));
        lemma_in_order(out@, want);
    }
    out
}

// ---------------------------------------------------------------------------
// Quantifying
// ---------------------------------------------------------------------------

/// The variables of `ty` that belong to a level inside of `ambient`.
pub open spec fn generalizable(s: SubstV, ty: TyV, ambient: TypeLevel) -> Set<TyVar> {
    Set::new(|v: TyVar| free_vars(ty).contains(v) && level_in(s.levels, v) > ambient)
}

/// `ty` with each variable of an inner level quantified.
#[verifier::opaque]
pub open spec fn generalized(st: InferV, ty: TyV, ambient: TypeLevel) -> SchemeV {
    let applied = apply(st.subst.map, ty);
    SchemeV {
        vars: in_order(generalizable(st.subst, applied, ambient)),
        constraints: Seq::empty(),
        ty: applied,
    }
}

/// The variables that a constraint speaks of.
pub open spec fn relevant(m: Map<TyVar, TyV>, c: ConstraintV) -> Set<TyVar> {
    Set::new(
        |v: TyVar|
            free_vars(apply(m, TyV::Var(c.var))).contains(v) || occurs_in_tys(
                v,
                apply_tys(m, c.args),
            ),
    )
}

/// A constraint with the substitution applied.
pub open spec fn normalized(m: Map<TyVar, TyV>, c: ConstraintV) -> ConstraintV {
    ConstraintV {
        var: match apply(m, TyV::Var(c.var)) {
            TyV::Var(v) => v,
            _ => c.var,
        },
        trait_name: c.trait_name,
        args: apply_tys(m, c.args),
        determinant_indexes: c.determinant_indexes,
    }
}

/// `cs` with `c`, unless it is there.
pub open spec fn add_constraint(cs: Seq<ConstraintV>, c: ConstraintV) -> Seq<ConstraintV> {
    if cs.contains(c) {
        cs
    } else {
        cs.push(c)
    }
}

/// Constraints that a function takes dictionaries for, and those that are left
/// to what is around it.
pub struct SplitConstraintsV {
    pub owned: Seq<ConstraintV>,
    pub bubbled: Seq<ConstraintV>,
}

/// Constraints on quantified variables alone are owned, those that speak of
/// another variable are left to what is around, and those that speak of none are
/// settled.
pub open spec fn split_constraints(m: Map<TyVar, TyV>, vars: Seq<TyVar>, cs: Seq<ConstraintV>) -> SplitConstraintsV
    decreases cs.len(),
{
    if cs.len() == 0 {
        SplitConstraintsV { owned: Seq::empty(), bubbled: Seq::empty() }
    } else {
        let rest = split_constraints(m, vars, cs.drop_last());
        let c = cs.last();
        if relevant(m, c) == Set::<TyVar>::empty() {
            rest
        } else if forall|v: TyVar| #[trigger] relevant(m, c).contains(v) ==> vars.contains(v) {
            SplitConstraintsV { owned: add_constraint(rest.owned, normalized(m, c)), ..rest }
        } else {
            SplitConstraintsV { bubbled: add_constraint(rest.bubbled, normalized(m, c)), ..rest }
        }
    }
}

/// A quantified type, the constraints it owns, and those left to what is around.
#[derive(Debug)]
pub struct FinalizedConstraints {
    pub scheme: Scheme,
    pub owned: Vec<TraitConstraint>,
    pub bubbled: Vec<TraitConstraint>,
}

/// The view of [`FinalizedConstraints`].
pub struct FinalizedV {
    pub scheme: SchemeV,
    pub owned: Seq<ConstraintV>,
    pub bubbled: Seq<ConstraintV>,
}

impl View for FinalizedConstraints {
    type V = FinalizedV;

    open spec fn view(&self) -> FinalizedV {
        FinalizedV {
            scheme: self.scheme@,
            owned: constraints_view(self.owned@),
            bubbled: constraints_view(self.bubbled@),
        }
    }
}

/// A type quantified together with the constraints that it owns.
#[verifier::opaque]
pub open spec fn finalized_at(
    st: InferV,
    ty: TyV,
    cs: Seq<ConstraintV>,
    ambient: TypeLevel,
) -> FinalizedV {
    let scheme = generalized(st, ty, ambient);
    let split = split_constraints(st.subst.map, scheme.vars, cs);
    FinalizedV {
        scheme: SchemeV { constraints: split.owned, ..scheme },
        owned: split.owned,
        bubbled: split.bubbled,
    }
}

pub fn push_constraint(cs: &mut Vec<TraitConstraint>, c: TraitConstraint)
    ensures
        constraints_view(final(cs)@) == add_constraint(constraints_view(old(cs)@), c@),
{
    let ghost all = constraints_view(cs@);
    let mut i: usize = 0;
    while i < cs.len()
        invariant
            i <= cs.len(),
            *cs == *old(cs),
            all == constraints_view(cs@),
            all.len() == cs@.len(),
            forall|j: int| 0 <= j < i ==> #[trigger] all[j] != c@,
        decreases cs.len() - i,
    {
        assert(all[i as int] == constraint_view(cs@[i as int]));
        if constraint_eq(&cs[i], &c) {
            assert(all.contains(c@));
            return;
        }
        i = i + 1;
    }
    let ghost cv = c@;
    cs.push(c);
    assert(constraints_view(cs@) =~= all.push(cv));
}

impl Infer {
    /// The variables of `ty` that belong to a level inside of `ambient`, in
    /// ascending order.
    pub fn level_generalizable_vars(&self, ty: &Ty, ambient: TypeLevel) -> (r: Vec<TyVar>)
        ensures
            r@ == in_order(generalizable(self@.subst, ty@, ambient)),
    {
        let vars = list_vars(&free_type_vars(ty));
        let ghost want = generalizable(self@.subst, ty@, ambient);
        let mut out: Vec<TyVar> = Vec::new();
        let mut i: usize = 0;
        while i < vars.len()
            invariant
                i <= vars.len(),
                want == generalizable(self@.subst, ty@, ambient),
                forall|v: TyVar| #[trigger] vars@.contains(v) <==> free_vars(ty@).contains(v),
                ascends(out@),
                forall|v: TyVar| #[trigger]
                    out@.contains(v) <==> want.contains(v) && vars@.take(i as int).contains(v),
            decreases vars.len() - i,
        {
            let v = vars[i];
            proof {
                assert(vars@.contains(vars@[i as int]));
                assert(vars@.take(i + 1) =~= vars@.take(i as int).push(v));
                assert forall|w: TyVar| #[trigger]
                    vars@.take(i + 1).contains(w) <==> vars@.take(i as int).contains(w) || w
                        == v by {
                    crate::tables::lemma_push_contains(vars@.take(i as int), v, w);
                }
            }
            if self.subst.level_of(v) > ambient {
                insert_var(&mut out, v);
            }
            i = i + 1;
        }
        proof {
            assert(vars@.take(vars@.len() as int) =~= vars@);
            assert(lists(out@, want));
            lemma_in_order(out@, want);
        }
        out
    }

    /// `ty` with each variable of a level inside of `ambient` quantified.
    pub fn generalize_at(&self, ty: &Ty, ambient: TypeLevel) -> (r: Scheme)
        requires
            self.wf(),
        ensures
            r@ == generalized(self@, ty@, ambient),
    {
        proof {
            reveal(generalized);
        }
        let applied = self.subst.apply(ty);
        let vars = self.level_generalizable_vars(&applied, ambient);
        let r = Scheme { vars, constraints: Vec::new(), ty: applied };
        assert(constraints_view(r.constraints@) =~= Seq::empty());
        r
    }

    /// The type variables of an environment as it stands, resolved.
    pub fn normalized_free_vars_syntactic(&self, env: &TypeEnv) -> (r: HashSet<TyVar>)
        requires
            self.wf(),
        ensures
            forall|w: TyVar| #[trigger]
                r@.contains(w) <==> exists|v: TyVar| #[trigger]
                    crate::env::env_free_vars_syntactic(env@).contains(v) && apply(
                        self@.subst.map,
                        TyV::Var(v),
                    ) == TyV::Var(w),
    {
        let vars = list_vars(&env.free_vars_syntactic());
        let ghost want = crate::env::env_free_vars_syntactic(env@);
        let ghost m = self@.subst.map;
        let mut out: HashSet<TyVar> = HashSet::new();
        let mut i: usize = 0;
        while i < vars.len()
            invariant
                i <= vars.len(),
                self.wf(),
                m == self@.subst.map,
                forall|v: TyVar| #[trigger] vars@.contains(v) <==> want.contains(v),
                forall|w: TyVar| #[trigger]
                    out@.contains(w) <==> exists|k: int|
                        0 <= k < i && apply(m, TyV::Var(#[trigger] vars@[k])) == TyV::Var(w),
            decreases vars.len() - i,
        {
            let ghost before = out@;
            let resolved = self.subst.apply(&Ty::Var(vars[i]));
            if let Ty::Var(w) = resolved {
                out.insert(w);
            }
            proof {
                let x = vars@[i as int];
                assert forall|w: TyVar| #[trigger]
                    out@.contains(w) <==> exists|k: int|
                        0 <= k < i + 1 && apply(m, TyV::Var(#[trigger] vars@[k])) == TyV::Var(w) by {
                    if before.contains(w) {
                        let k = choose|k: int|
                            0 <= k < i && apply(m, TyV::Var(#[trigger] vars@[k])) == TyV::Var(w);
                        assert(0 <= k < i + 1 && apply(m, TyV::Var(vars@[k])) == TyV::Var(w));
                    }
                    if exists|k: int|
                        0 <= k < i + 1 && apply(m, TyV::Var(#[trigger] vars@[k])) == TyV::Var(w) {
                        let k = choose|k: int|
                            0 <= k < i + 1 && apply(m, TyV::Var(#[trigger] vars@[k])) == TyV::Var(w);
                        if k < i {
                            assert(before.contains(w));
                        }
                    }
                }
            }
            i = i + 1;
        }
        proof {
            assert forall|w: TyVar| #[trigger]
                out@.contains(w) <==> exists|v: TyVar| #[trigger]
                    want.contains(v) && apply(m, TyV::Var(v)) == TyV::Var(w) by {
                if out@.contains(w) {
                    let k = choose|k: int|
                        0 <= k < i && apply(m, TyV::Var(#[trigger] vars@[k])) == TyV::Var(w);
                    assert(vars@.contains(vars@[k]));
                    assert(want.contains(vars@[k]));
                }
                if exists|v: TyVar| #[trigger]
                    want.contains(v) && apply(m, TyV::Var(v)) == TyV::Var(w) {
                    let v = choose|v: TyVar| #[trigger]
                        want.contains(v) && apply(m, TyV::Var(v)) == TyV::Var(w);
                    assert(vars@.contains(v));
                    let k = choose|k: int| 0 <= k < vars@.len() && vars@[k] == v;
                    assert(apply(m, TyV::Var(vars@[k])) == TyV::Var(w));
                }
            }
        }
        out
    }

    /// Quantifies a type together with the constraints that it owns.
    pub fn finalize_constraints_at(
        &self,
        ty: &Ty,
        cs: &Vec<TraitConstraint>,
        ambient: TypeLevel,
    ) -> (r: FinalizedConstraints)
        requires
            self.wf(),
        ensures
            r@ == finalized_at(self@, ty@, constraints_view(cs@), ambient),
    {
        proof {
            reveal(finalized_at);
        }
        let mut scheme = self.generalize_at(ty, ambient);
        let ghost all = constraints_view(cs@);
        let ghost m = self@.subst.map;
        let ghost vars = scheme.vars@;
        let mut owned: Vec<TraitConstraint> = Vec::new();
        let mut bubbled: Vec<TraitConstraint> = Vec::new();
        let mut i: usize = 0;
        assert(all.take(0) =~= Seq::empty());
        assert(constraints_view(owned@) =~= Seq::empty());
        assert(constraints_view(bubbled@) =~= Seq::empty());
        while i < cs.len()
            invariant
                i <= cs.len(),
                self.wf(),
                all == constraints_view(cs@),
                m == self@.subst.map,
                vars == scheme.vars@,
                constraints_view(owned@) == split_constraints(m, vars, all.take(i as int)).owned,
                constraints_view(bubbled@) == split_constraints(
                    m,
                    vars,
                    all.take(i as int),
                ).bubbled,
            decreases cs.len() - i,
        {
            let c = &cs[i];
            proof {
                assert(all.take(i + 1).drop_last() =~= all.take(i as int));
                assert(all.take(i + 1).last() == constraint_view(*c));
            }
            let var_ty = self.subst.apply(&Ty::Var(c.var));
            let args = self.subst.apply_tys(&c.args);
            let mut found: HashSet<TyVar> = HashSet::new();
            free_type_vars_into(&var_ty, &mut found);
            tys_vars_into(&args, &mut found);
            assert(found@ =~= relevant(m, c@));
            let list = list_vars(&found);
            if list.len() == 0 {
                proof {
                    assert forall|v: TyVar| !relevant(m, c@).contains(v) by {
                        assert(!list@.contains(v));
                    }
                    assert(relevant(m, c@) =~= Set::empty());
                }
            } else {
                proof {
                    assert(list@.contains(list@[0]));
                    assert(relevant(m, c@).contains(list@[0]));
                }
                let var = match var_ty {
                    Ty::Var(v) => v,
                    _ => c.var,
                };
                let normal = TraitConstraint {
                    var,
                    trait_name: c.trait_name.clone(),
                    args,
                    determinant_indexes: clone_indexes(&c.determinant_indexes),
                };
                assert(normal@ == normalized(m, c@));
                if all_listed(&list, &scheme.vars) {
                    assert forall|v: TyVar| #[trigger] relevant(m, c@).contains(v) implies vars.contains(
                        v,
                    ) by {
                        assert(list@.contains(v));
                    }
                    push_constraint(&mut owned, normal);
                } else {
                    proof {
                        let v = choose|v: TyVar| #[trigger] list@.contains(v) && !vars.contains(v);
                        assert(relevant(m, c@).contains(v));
                    }
                    push_constraint(&mut bubbled, normal);
                }
            }
            i = i + 1;
        }
        assert(all.take(all.len() as int) =~= all);
        scheme.constraints = clone_constraints(&owned);
        FinalizedConstraints { scheme, owned, bubbled }
    }
}

fn all_listed(list: &Vec<TyVar>, vars: &Vec<TyVar>) -> (r: bool)
    ensures
        r == forall|v: TyVar| #[trigger] list@.contains(v) ==> vars@.contains(v),
        !r ==> exists|v: TyVar| #[trigger] list@.contains(v) && !vars@.contains(v),
{
    let mut i: usize = 0;
    while i < list.len()
        invariant
            i <= list.len(),
            forall|j: int| 0 <= j < i ==> vars@.contains(#[trigger] list@[j]),
        decreases list.len() - i,
    {
        if !contains_var(vars, list[i]) {
            assert(list@.contains(list@[i as int]));
            return false;
        }
        i = i + 1;
    }
    true
}

} // verus!
