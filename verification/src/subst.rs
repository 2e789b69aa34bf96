//! Substitutions: the solved type variables and the supply of fresh ones.

use std::collections::{HashMap, HashSet};
use vstd::prelude::*;

use crate::apply::{acyclic, apply, apply_constraints, apply_fields, apply_params, apply_tys};
use crate::apply::{constraints_height, fields_height, height, params_height, rank, tys_height};
use crate::apply::{flat_record, law_apply_eliminates, ranks, SubstMap};
use crate::apply::{lemma_fields_height, lemma_params_height, lemma_solved_height, lemma_tys_height};
use crate::error::{TypeError, TypeErrorV};
use crate::rows::{sort_fields, sort_record_fields};
use crate::ty::{clone_constraints, clone_vars, constraint_view, constraints_view, field_view};
use crate::ty::{fields_view, param_view, params_view, row_view, ty_view, tys_view};
use crate::ty::{ConstraintV, FuncParam, FuncReturn, Row, Scheme, SchemeV, TraitConstraint, Ty};
use crate::ty::{TyV, TyVar};
use crate::vars::{free_type_vars, free_type_vars_into, free_vars, list_vars, occurs, type_contains_var};

verus! {

broadcast use vstd::std_specs::hash::group_hash_axioms;

/// How deeply nested the scope is that a type variable was made for.
pub type TypeLevel = u32;

/// The level of the outermost scope.
pub const ROOT_LEVEL: TypeLevel = 0;

/// The solved type variables, the next fresh one and the level of each.
pub struct Subst {
    map: HashMap<TyVar, Ty>,
    next_var: TyVar,
    levels: HashMap<TyVar, TypeLevel>,
}

/// The view of a [`Subst`].
pub struct SubstV {
    pub map: SubstMap,
    pub next_var: TyVar,
    pub levels: Map<TyVar, TypeLevel>,
}

/// The views of the types in a map.
pub open spec fn solved_view(m: Map<TyVar, Ty>) -> SubstMap {
    m.map_values(|t: Ty| ty_view(t))
}

impl View for Subst {
    type V = SubstV;

    closed spec fn view(&self) -> SubstV {
        SubstV {
            map: solved_view(self.map@),
            next_var: self.next_var,
            levels: self.levels@,
        }
    }
}

impl Subst {
    /// The solved variables do not chase each other in a circle.
    pub open spec fn wf(&self) -> bool {
        acyclic(self@.map) && self@.map.dom().finite()
    }
}

/// The level of a variable; one without a recorded level belongs to the
/// outermost scope.
pub open spec fn level_in(levels: Map<TyVar, TypeLevel>, v: TyVar) -> TypeLevel {
    if levels.dom().contains(v) {
        levels[v]
    } else {
        ROOT_LEVEL
    }
}

/// The levels after everything in `t` has come to belong to a scope no deeper
/// than `level`.
pub open spec fn lowered(levels: Map<TyVar, TypeLevel>, t: TyV, level: TypeLevel) -> Map<
    TyVar,
    TypeLevel,
> {
    levels.map_entries(
        |w: TyVar, l: TypeLevel|
            if occurs(w, t) && l > level {
                level
            } else {
                l
            },
    )
}

/// The substitution after a fresh variable was taken for a scope of `level`.
pub open spec fn after_fresh(s: SubstV, level: TypeLevel) -> SubstV {
    SubstV {
        next_var: s.next_var.wrapping_add(1),
        levels: s.levels.insert(s.next_var, level),
        ..s
    }
}

/// What binding `v` to `t` comes to: the substitution afterwards, and the
/// error if `v` would have to contain itself.
pub open spec fn bind(s: SubstV, v: TyVar, t: TyV) -> (SubstV, Option<TypeErrorV>) {
    let resolved = apply(s.map, t);
    if resolved == TyV::Var(v) {
        (s, None)
    } else if occurs(v, resolved) {
        (s, Some(TypeErrorV::OccursCheck(v)))
    } else {
        (
            SubstV {
                map: s.map.insert(v, resolved),
                levels: lowered(s.levels, resolved, level_in(s.levels, v)),
                ..s
            },
            None,
        )
    }
}

/// The scheme with its type resolved.
pub open spec fn apply_scheme_view(m: SubstMap, s: SchemeV) -> SchemeV {
    SchemeV { ty: apply(m, s.ty), ..s }
}

/// The empty map has no cycles.
pub proof fn lemma_empty_acyclic()
    ensures
        acyclic(Map::<TyVar, TyV>::empty()),
{
    let r = |v: TyVar| 0nat;
    assert(ranks(Map::<TyVar, TyV>::empty(), r));
}

/// Binding a variable to a resolved type that it does not occur in keeps the
/// substitution free of cycles.
pub proof fn law_bind_keeps_acyclic(m: SubstMap, v: TyVar, t: TyV)
    requires
        acyclic(m),
        !occurs(v, apply(m, t)),
    ensures
        acyclic(m.insert(v, apply(m, t))),
{
    let resolved = apply(m, t);
    let m2 = m.insert(v, resolved);
    let r = rank(m);
    assert(ranks(m, r));
    let r2 = |w: TyVar|
        if w == v {
            0nat
        } else {
            r(w) + 1
        };
    assert forall|x: TyVar, y: TyVar|
        m2.dom().contains(x) && m2.dom().contains(y) && #[trigger] occurs(y, m2[x]) implies r2(y)
        < r2(x) by {
        if x == v {
            if m.dom().contains(y) {
                law_apply_eliminates(m, t, y);
            }
        } else {
            assert(m2[x] == m[x]);
            if y != v {
                assert(r(y) < r(x));
            }
        }
    }
    assert(ranks(m2, r2));
}

impl Subst {
    pub fn new() -> (s: Self)
        ensures
            s.wf(),
            s@ == (SubstV { map: Map::empty(), next_var: 0, levels: Map::empty() }),
    {
        proof {
            lemma_empty_acyclic();
        }
        let s = Subst { map: HashMap::new(), next_var: 0, levels: HashMap::new() };
        assert(s@.map =~= Map::empty());
        s
    }

    /// Takes a fresh type variable for a scope of `level`. The counter wraps
    /// around at the end of its range.
    pub fn fresh_tyvar_at(&mut self, level: TypeLevel) -> (v: TyVar)
        ensures
            v == old(self)@.next_var,
            final(self)@ == after_fresh(old(self)@, level),
    {
        let v = self.next_var;
        self.next_var = v.wrapping_add(1);
        self.levels.insert(v, level);
        v
    }

    /// Allocate a fresh type variable ID without wrapping it in `Ty::Var`.
    pub fn fresh_tyvar(&mut self) -> (v: TyVar)
        ensures
            v == old(self)@.next_var,
            final(self)@ == after_fresh(old(self)@, ROOT_LEVEL),
    {
        self.fresh_tyvar_at(ROOT_LEVEL)
    }

    /// Allocate a fresh type variable wrapped as `Ty::Var`.
    pub fn fresh_var(&mut self) -> (t: Ty)
        ensures
            t == Ty::Var(old(self)@.next_var),
            final(self)@ == after_fresh(old(self)@, ROOT_LEVEL),
    {
        Ty::Var(self.fresh_tyvar())
    }

    /// The level that a variable belongs to.
    pub fn level_of(&self, v: TyVar) -> (level: TypeLevel)
        ensures
            level == level_in(self@.levels, v),
    {
        match self.levels.get(&v) {
            Some(level) => *level,
            None => ROOT_LEVEL,
        }
    }

    /// Snapshots the unification map so a caller can roll back the substitution after a
    /// failed inference attempt while leaving the fresh-variable counter intact.
    pub fn snapshot_map(&self) -> (m: HashMap<TyVar, Ty>)
        ensures
            solved_view(m@) == self@.map,
    {
        clone_solved(&self.map)
    }

    /// Restores a previously [`Subst::snapshot_map`]ped substitution. Does not touch the
    /// counter, so fresh variables allocated since the snapshot remain accounted for.
    pub fn restore_map(&mut self, map: HashMap<TyVar, Ty>)
        requires
            acyclic(solved_view(map@)),
        ensures
            final(self)@ == (SubstV { map: solved_view(map@), ..old(self)@ }),
            final(self).wf(),
    {
        self.map = map;
        assert(self@.map.dom() =~= map@.dom());
    }

    /// Clears solved substitutions while preserving the fresh-variable counter.
    pub fn clear_map_keep_counter(&mut self)
        ensures
            final(self)@ == (SubstV { map: Map::empty(), ..old(self)@ }),
            final(self).wf(),
    {
        self.map.clear();
        proof {
            lemma_empty_acyclic();
        }
        assert(self@.map =~= Map::empty());
    }
}

pub fn clone_solved(m: &HashMap<TyVar, Ty>) -> (r: HashMap<TyVar, Ty>)
    ensures
        solved_view(r@) == solved_view(m@),
{
    let r = m.clone();
    assert(solved_view(r@) =~= solved_view(m@));
    r
}

impl Subst {
    /// Replaces every solved variable of `ty`, through to the end.
    pub fn apply(&self, ty: &Ty) -> (r: Ty)
        requires
            self.wf(),
        ensures
            r@ == apply(self@.map, ty@),
        decreases height(rank(self@.map), self@.map.dom(), ty@), *ty,
    {
        match ty {
            Ty::Var(v) => {
                match self.map.get(v) {
                    Some(t) => {
                        proof {
                            assert(self@.map.dom().contains(*v));
                            assert(self@.map[*v] == ty_view(*t));
                            lemma_solved_height(self@.map, *v);
                        }
                        self.apply(t)
                    },
                    None => {
                        assert(!self@.map.dom().contains(*v));
                        Ty::Var(*v)
                    },
                }
            },
            Ty::Qualified(constraints, inner) => {
                Ty::Qualified(self.apply_constraints(constraints), Box::new(self.apply(inner)))
            },
            Ty::Func(params, ret) => {
                let ret2 = FuncReturn {
                    ty: Box::new(self.apply(&ret.ty)),
                    capability: ret.capability,
                };
                Ty::Func(self.apply_params(params), ret2)
            },
            Ty::Tuple(tys) => Ty::Tuple(self.apply_tys(tys)),
            Ty::App(con, args) => Ty::App(Box::new(self.apply(con)), self.apply_tys(args)),
            Ty::Record(row) => {
                let fields = self.apply_fields(&row.fields);
                let tail = self.apply(&row.tail);
                flatten_record(fields, tail)
            },
            Ty::Int => Ty::Int,
            Ty::Float => Ty::Float,
            Ty::Unit => Ty::Unit,
            Ty::Never => Ty::Never,
            Ty::Con(name) => Ty::Con(name.clone()),
        }
    }

    /// Applies the substitution to each of `tys`.
    pub fn apply_tys(&self, tys: &Vec<Ty>) -> (r: Vec<Ty>)
        requires
            self.wf(),
        ensures
            tys_view(r@) == apply_tys(self@.map, tys_view(tys@)),
            r@.len() == tys@.len(),
        decreases tys_height(rank(self@.map), self@.map.dom(), tys_view(tys@)), tys@,
    {
        let ghost all = tys_view(tys@);
        let mut out: Vec<Ty> = Vec::new();
        let mut i: usize = 0;
        while i < tys.len()
            invariant
                self.wf(),
                i <= tys.len(),
                out@.len() == i,
                all == tys_view(tys@),
                forall|j: int|
                    0 <= j < i ==> ty_view(#[trigger] out@[j]) == apply(self@.map, all[j]),
            decreases tys.len() - i,
        {
            proof {
                lemma_tys_height(rank(self@.map), self@.map.dom(), all);
                assert(all[i as int] == ty_view(tys@[i as int]));
            }
            out.push(self.apply(&tys[i]));
            i = i + 1;
        }
        assert(tys_view(out@) =~= apply_tys(self@.map, all));
        out
    }

    fn apply_params(&self, ps: &Vec<FuncParam>) -> (r: Vec<FuncParam>)
        requires
            self.wf(),
        ensures
            params_view(r@) == apply_params(self@.map, params_view(ps@)),
        decreases params_height(rank(self@.map), self@.map.dom(), params_view(ps@)), ps@,
    {
        let ghost all = params_view(ps@);
        let mut out: Vec<FuncParam> = Vec::new();
        let mut i: usize = 0;
        while i < ps.len()
            invariant
                self.wf(),
                i <= ps.len(),
                out@.len() == i,
                all == params_view(ps@),
                forall|j: int|
                    0 <= j < i ==> ty_view((#[trigger] out@[j]).ty) == apply(
                        self@.map,
                        all[j].ty,
                    ) && out@[j].capability == all[j].capability,
            decreases ps.len() - i,
        {
            proof {
                lemma_params_height(rank(self@.map), self@.map.dom(), all);
                assert(all[i as int] == param_view(ps@[i as int]));
            }
            let p = FuncParam { ty: self.apply(&ps[i].ty), capability: ps[i].capability };
            out.push(p);
            i = i + 1;
        }
        assert(params_view(out@) =~= apply_params(self@.map, all));
        out
    }

    fn apply_fields(&self, fs: &Vec<(String, Ty)>) -> (r: Vec<(String, Ty)>)
        requires
            self.wf(),
        ensures
            fields_view(r@) == apply_fields(self@.map, fields_view(fs@)),
        decreases fields_height(rank(self@.map), self@.map.dom(), fields_view(fs@)), fs@,
    {
        let ghost all = fields_view(fs@);
        let mut out: Vec<(String, Ty)> = Vec::new();
        let mut i: usize = 0;
        while i < fs.len()
            invariant
                self.wf(),
                i <= fs.len(),
                out@.len() == i,
                all == fields_view(fs@),
                forall|j: int|
                    0 <= j < i ==> (#[trigger] out@[j]).0@ == all[j].0 && ty_view(out@[j].1)
                        == apply(self@.map, all[j].1),
            decreases fs.len() - i,
        {
            proof {
                lemma_fields_height(rank(self@.map), self@.map.dom(), all);
                assert(all[i as int] == field_view(fs@[i as int]));
                assert(decreases_to!(fs@ => fs@[i as int]));
                assert(decreases_to!(fs@[i as int] => fs@[i as int].1));
            }
            out.push((fs[i].0.clone(), self.apply(&fs[i].1)));
            i = i + 1;
        }
        assert(fields_view(out@) =~= apply_fields(self@.map, all));
        out
    }

    /// Applies the substitution to each of `cs`, and drops those whose
    /// variable has become anything but a variable.
    fn apply_constraints(&self, cs: &Vec<TraitConstraint>) -> (r: Vec<TraitConstraint>)
        requires
            self.wf(),
        ensures
            constraints_view(r@) == apply_constraints(self@.map, constraints_view(cs@)),
        decreases constraints_height(rank(self@.map), self@.map.dom(), constraints_view(cs@)), cs@,
    {
        let ghost m = self@.map;
        let ghost all = constraints_view(cs@);
        let mut out: Vec<TraitConstraint> = Vec::new();
        let mut i: usize = 0;
        assert(constraints_view(out@) =~= apply_constraints(m, all.take(0)));
        while i < cs.len()
            invariant
                self.wf(),
                m == self@.map,
                i <= cs.len(),
                all == constraints_view(cs@),
                constraints_view(out@) == apply_constraints(m, all.take(i as int)),
            decreases cs.len() - i,
        {
            let c = &cs[i];
            proof {
                let next = all.take(i + 1);
                assert(next.drop_last() =~= all.take(i as int));
                assert(next.last() == all[i as int]);
                assert(all[i as int] == constraint_view(*c));
                crate::apply::lemma_constraints_height(rank(m), m.dom(), all);
                if m.dom().contains(c.var) {
                    lemma_solved_height(m, c.var);
                }
            }
            let resolved = match self.map.get(&c.var) {
                Some(t) => {
                    assert(m.dom().contains(c.var));
                    assert(m[c.var] == ty_view(*t));
                    self.apply(t)
                },
                None => {
                    assert(!m.dom().contains(c.var));
                    Ty::Var(c.var)
                },
            };
            let ghost before = constraints_view(out@);
            if let Ty::Var(w) = resolved {
                let applied = TraitConstraint {
                    var: w,
                    trait_name: c.trait_name.clone(),
                    args: self.apply_tys(&c.args),
                    determinant_indexes: clone_indexes(&c.determinant_indexes),
                };
                out.push(applied);
                assert(constraints_view(out@) =~= before.push(constraint_view(applied)));
            }
            i = i + 1;
        }
        assert(all.take(cs@.len() as int) =~= all);
        out
    }

    /// Applies the substitution to the type of a scheme.
    pub fn apply_scheme(&self, scheme: &Scheme) -> (r: Scheme)
        requires
            self.wf(),
        ensures
            r@ == apply_scheme_view(self@.map, scheme@),
    {
        Scheme {
            vars: clone_vars(&scheme.vars),
            constraints: clone_constraints(&scheme.constraints),
            ty: self.apply(&scheme.ty),
        }
    }

    /// Binds the variable `v` to `t`, unless `v` would come to contain
    /// itself. What is bound joins the scope of `v`.
    pub fn bind_ty(&mut self, v: TyVar, t: Ty) -> (r: Result<(), TypeError>)
        requires
            old(self).wf(),
        ensures
            final(self).wf(),
            final(self)@ == bind(old(self)@, v, t@).0,
            r is Ok <==> bind(old(self)@, v, t@).1 is None,
            r matches Err(e) ==> bind(old(self)@, v, t@).1 == Some(e@),
    {
        let ghost given = t@;
        let t = self.apply(&t);
        if let Ty::Var(v2) = &t {
            if v == *v2 {
                return Ok(());
            }
        }
        if type_contains_var(&t, v) {
            return Err(TypeError::OccursCheck(v));
        }
        proof {
            law_bind_keeps_acyclic(self@.map, v, given);
        }
        let level = self.level_of(v);
        self.lower_levels(&t, level);
        self.map.insert(v, t);
        assert(self@.map =~= old(self)@.map.insert(v, t@));
        Ok(())
    }

    /// Moves everything in `t` to a scope no deeper than `level`.
    fn lower_levels(&mut self, t: &Ty, level: TypeLevel)
        ensures
            final(self)@ == (SubstV {
                levels: lowered(old(self)@.levels, t@, level),
                ..old(self)@
            }),
            final(self).map@ == old(self).map@,
    {
        let vars = list_vars(&free_type_vars(t));
        let ghost before = self.levels@;
        let mut i: usize = 0;
        while i < vars.len()
            invariant
                i <= vars.len(),
                self.map@ == old(self).map@,
                self.next_var == old(self).next_var,
                self.levels@.dom() == before.dom(),
                forall|w: TyVar| #[trigger]
                    before.dom().contains(w) ==> self.levels@[w] == (if before[w] > level
                        && vars@.take(i as int).contains(w) {
                        level
                    } else {
                        before[w]
                    }),
            decreases vars.len() - i,
        {
            let v = vars[i];
            let current = self.level_of(v);
            let ghost levels0 = self.levels@;
            if current > level {
                self.levels.insert(v, level);
                assert(levels0.dom().contains(v));
            }
            proof {
                let prev = vars@.take(i as int);
                let next = vars@.take(i + 1);
                assert(next =~= prev.push(v));
                assert forall|w: TyVar| next.contains(w) == (prev.contains(w) || w == v) by {
                    if prev.contains(w) {
                        let k = choose|k: int| 0 <= k < prev.len() && prev[k] == w;
                        assert(next[k] == w);
                    }
                    assert(next[i as int] == v);
                }
                assert(self.levels@.dom() =~= before.dom());
            }
            i = i + 1;
        }
        proof {
            assert(vars@.take(vars@.len() as int) =~= vars@);
            assert forall|w: TyVar| vars@.contains(w) == occurs(w, t@) by {
                assert(free_vars(t@).contains(w) == occurs(w, t@));
            }
        }
        assert(self.levels@ =~= lowered(before, t@, level));
    }
}

/// The record of `fields` and of whatever `tail` adds to them.
fn flatten_record(fields: Vec<(String, Ty)>, tail: Ty) -> (r: Ty)
    ensures
        r@ == flat_record(fields_view(fields@), tail@),
{
    match tail {
        Ty::Record(inner) => {
            let mut all = fields;
            let mut more = inner.fields;
            all.append(&mut more);
            assert(fields_view(all@) =~= fields_view(fields@) + fields_view(inner.fields@));
            Ty::Record(Row { fields: sort_record_fields(all), tail: inner.tail })
        },
        other => Ty::Record(Row { fields: sort_record_fields(fields), tail: Box::new(other) }),
    }
}

/// The solved variables at some moment, to return to.
pub struct SubstCheckpoint {
    map: HashMap<TyVar, Ty>,
}

impl View for SubstCheckpoint {
    type V = SubstMap;

    closed spec fn view(&self) -> SubstMap {
        solved_view(self.map@)
    }
}

impl Subst {
    /// Remembers the solved variables.
    pub fn checkpoint(&self) -> (c: SubstCheckpoint)
        ensures
            c@ == self@.map,
    {
        SubstCheckpoint { map: clone_solved(&self.map) }
    }

    /// Returns to the solved variables of a checkpoint. Fresh variables taken
    /// since then remain accounted for.
    pub fn restore_checkpoint(&mut self, checkpoint: SubstCheckpoint)
        requires
            acyclic(checkpoint@),
        ensures
            final(self)@ == (SubstV { map: checkpoint@, ..old(self)@ }),
            final(self).wf(),
    {
        self.restore_map(checkpoint.map);
    }

    /// Adds to `vars` the variables that `ty` still has once it is resolved.
    pub fn free_vars_after_apply_into(&self, ty: &Ty, vars: &mut HashSet<TyVar>)
        requires
            self.wf(),
        ensures
            final(vars)@ == old(vars)@.union(free_vars(apply(self@.map, ty@))),
    {
        free_type_vars_into(&self.apply(ty), vars);
    }
}

impl Clone for Subst {
    fn clone(&self) -> (r: Self)
        ensures
            r@ == self@,
    {
        Subst {
            map: clone_solved(&self.map),
            next_var: self.next_var,
            levels: self.levels.clone(),
        }
    }
}

impl Default for Subst {
    fn default() -> (s: Self)
        ensures
            s.wf(),
            s@ == (SubstV { map: Map::empty(), next_var: 0, levels: Map::empty() }),
    {
        Subst::new()
    }
}

/// Copies a list of positions.
pub fn clone_indexes(items: &Vec<usize>) -> (r: Vec<usize>)
    ensures
        r@ == items@,
{
    let mut out: Vec<usize> = Vec::new();
    let mut i: usize = 0;
    while i < items.len()
        invariant
            i <= items.len(),
            out@ == items@.take(i as int),
        decreases items.len() - i,
    {
        out.push(items[i]);
        i = i + 1;
        assert(out@ =~= items@.take(i as int));
    }
    assert(out@ =~= items@);
    out
}

} // verus!
