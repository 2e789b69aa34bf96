//! What quantifying a type and using a scheme come to.

use vstd::prelude::*;

use crate::apply::apply;
use crate::schemes::{ascends, fresh_names, generalizable, generalized, in_order, instance};
use crate::schemes::{lists, normalized, relevant, rename, rename_constraints};
use crate::schemes::split_constraints;
use crate::state::InferV;
use crate::subst::{level_in, TypeLevel};
use crate::ty::{ConstraintV, SchemeV, TyV, TyVar};
use crate::vars::occurs;

verus! {

// ---------------------------------------------------------------------------
// Listing variables
// ---------------------------------------------------------------------------

proof fn lemma_finite(set: Set<TyVar>)
    ensures
        set.finite(),
{
    let f = |i: int| i as u32;
    let range = vstd::set_lib::set_int_range(0, 0x1_0000_0000);
    vstd::set_lib::lemma_int_range(0, 0x1_0000_0000);
    range.lemma_map_finite(f);
    assert(set.subset_of(range.map(f))) by {
        assert forall|v: TyVar| set.contains(v) implies range.map(f).contains(v) by {
            assert(range.contains(v as int));
            assert(f(v as int) == v);
        }
    }
    vstd::set_lib::lemma_len_subset(set, range.map(f));
}

proof fn lemma_largest(set: Set<TyVar>) -> (m: TyVar)
    requires
        set.finite(),
        set.len() > 0,
    ensures
        set.contains(m),
        forall|v: TyVar| set.contains(v) ==> v <= m,
    decreases set.len(),
{
    let a = set.choose();
    let rest = set.remove(a);
    if rest.len() == 0 {
        assert forall|v: TyVar| set.contains(v) implies v <= a by {
            if v != a {
                assert(rest.contains(v));
            }
        }
        a
    } else {
        let b = lemma_largest(rest);
        let m = if a >= b {
            a
        } else {
            b
        };
        assert forall|v: TyVar| set.contains(v) implies v <= m by {
            if v != a {
                assert(rest.contains(v));
            }
        }
        m
    }
}

proof fn lemma_listed(set: Set<TyVar>)
    requires
        set.finite(),
    ensures
        lists(in_order(set), set),
    decreases set.len(),
{
    if set.len() == 0 {
        let s = Seq::<TyVar>::empty();
        assert(set =~= Set::empty());
        assert(lists(s, set));
    } else {
        let m = lemma_largest(set);
        let rest = set.remove(m);
        lemma_listed(rest);
        let before = in_order(rest);
        let s = before.push(m);
        assert forall|v: TyVar| #[trigger] s.contains(v) <==> set.contains(v) by {
            crate::tables::lemma_push_contains(before, m, v);
            assert(before.contains(v) <==> rest.contains(v));
        }
        assert(ascends(s)) by {
            assert forall|i: int, j: int| 0 <= i < j < s.len() implies s[i] < s[j] by {
                assert(before.contains(before[i]));
                assert(rest.contains(before[i]));
            }
        }
        assert(lists(s, set));
    }
}

/// Quantifying a type quantifies each of its variables that belongs to an inner level,
/// once, and no other. The type is otherwise what it resolves to.
pub proof fn law_inner_variables_are_quantified(st: InferV, ty: TyV, ambient: TypeLevel)
    ensures
        generalized(st, ty, ambient).ty == apply(st.subst.map, ty),
        generalized(st, ty, ambient).constraints.len() == 0,
        forall|v: TyVar| #[trigger]
            generalized(st, ty, ambient).vars.contains(v) <==> occurs(v, apply(st.subst.map, ty))
                && level_in(st.subst.levels, v) > ambient,
        generalized(st, ty, ambient).vars.no_duplicates(),
{
    reveal(generalized);
    let set = generalizable(st.subst, apply(st.subst.map, ty), ambient);
    lemma_finite(set);
    lemma_listed(set);
    let s = in_order(set);
    assert forall|v: TyVar| #[trigger] s.contains(v) <==> occurs(v, apply(st.subst.map, ty))
        && level_in(st.subst.levels, v) > ambient by {
        assert(s.contains(v) <==> set.contains(v));
    }
}

// ---------------------------------------------------------------------------
// Constraints
// ---------------------------------------------------------------------------

/// Whether a constraint speaks of a variable, as far as it is solved.
pub open spec fn speaks_of(m: Map<TyVar, TyV>, c: ConstraintV, v: TyVar) -> bool {
    occurs(v, apply(m, TyV::Var(c.var))) || exists|i: int|
        0 <= i < c.args.len() && occurs(v, apply(m, #[trigger] c.args[i]))
}

proof fn lemma_relevant(m: Map<TyVar, TyV>, c: ConstraintV, v: TyVar)
    requires
        crate::apply::acyclic(m),
    ensures
        relevant(m, c).contains(v) == speaks_of(m, c, v),
{
    let xs = crate::apply::apply_tys(m, c.args);
    if crate::vars::occurs_in_tys(v, xs) {
        let i = choose|i: int| 0 <= i < xs.len() && occurs(v, #[trigger] xs[i]);
        assert(occurs(v, apply(m, c.args[i])));
    }
    if exists|i: int| 0 <= i < c.args.len() && occurs(v, apply(m, #[trigger] c.args[i])) {
        let i = choose|i: int| 0 <= i < c.args.len() && occurs(v, apply(m, #[trigger] c.args[i]));
        assert(occurs(v, xs[i]));
    }
}

/// Whether a constraint speaks of any variable.
pub open spec fn is_open(m: Map<TyVar, TyV>, c: ConstraintV) -> bool {
    exists|v: TyVar| speaks_of(m, c, v)
}

/// Whether a constraint speaks of no variables but these.
pub open spec fn is_about(m: Map<TyVar, TyV>, c: ConstraintV, vars: Seq<TyVar>) -> bool {
    forall|v: TyVar| speaks_of(m, c, v) ==> vars.contains(v)
}

proof fn lemma_kinds(m: Map<TyVar, TyV>, vars: Seq<TyVar>, c: ConstraintV)
    requires
        crate::apply::acyclic(m),
    ensures
        is_open(m, c) <==> relevant(m, c) != Set::<TyVar>::empty(),
        is_about(m, c, vars) <==> forall|v: TyVar| #[trigger]
            relevant(m, c).contains(v) ==> vars.contains(v),
{
    assert forall|v: TyVar| #[trigger] relevant(m, c).contains(v) == speaks_of(m, c, v) by {
        lemma_relevant(m, c, v);
    }
    if is_open(m, c) {
        let v = choose|v: TyVar| speaks_of(m, c, v);
        assert(relevant(m, c).contains(v));
    } else {
        assert forall|v: TyVar| !relevant(m, c).contains(v) by {
            assert(!speaks_of(m, c, v));
        }
        assert(relevant(m, c) =~= Set::<TyVar>::empty());
    }
    if is_about(m, c, vars) {
        assert forall|v: TyVar| #[trigger] relevant(m, c).contains(v) implies vars.contains(v) by {
            assert(speaks_of(m, c, v));
        }
    }
    if forall|v: TyVar| #[trigger] relevant(m, c).contains(v) ==> vars.contains(v) {
        assert forall|v: TyVar| speaks_of(m, c, v) implies vars.contains(v) by {
            assert(relevant(m, c).contains(v));
        }
    }
}

/// A constraint that speaks of quantified variables alone is owned; one that speaks of
/// another variable too is left to what is around; one that speaks of none is neither.
/// Nothing else is owned or left.
pub proof fn law_constraints_are_split(m: Map<TyVar, TyV>, vars: Seq<TyVar>, cs: Seq<ConstraintV>)
    requires
        crate::apply::acyclic(m),
    ensures
        forall|i: int|
            0 <= i < cs.len() && is_open(m, #[trigger] cs[i]) && is_about(m, cs[i], vars)
                ==> split_constraints(m, vars, cs).owned.contains(normalized(m, cs[i])),
        forall|i: int|
            0 <= i < cs.len() && is_open(m, #[trigger] cs[i]) && !is_about(m, cs[i], vars)
                ==> split_constraints(m, vars, cs).bubbled.contains(normalized(m, cs[i])),
        forall|d: ConstraintV| #[trigger]
            split_constraints(m, vars, cs).owned.contains(d) ==> exists|i: int|
                0 <= i < cs.len() && d == normalized(m, #[trigger] cs[i]) && is_open(m, cs[i])
                    && is_about(m, cs[i], vars),
        forall|d: ConstraintV| #[trigger]
            split_constraints(m, vars, cs).bubbled.contains(d) ==> exists|i: int|
                0 <= i < cs.len() && d == normalized(m, #[trigger] cs[i]) && !is_about(
                    m,
                    cs[i],
                    vars,
                ),
    decreases cs.len(),
{
    if cs.len() > 0 {
        let init = cs.drop_last();
        let c = cs.last();
        let rest = split_constraints(m, vars, init);
        let all = split_constraints(m, vars, cs);
        law_constraints_are_split(m, vars, init);
        let d = normalized(m, c);
        lemma_kinds(m, vars, c);
        lemma_added(rest.owned, d);
        lemma_added(rest.bubbled, d);
        assert forall|i: int|
            0 <= i < cs.len() && is_open(m, #[trigger] cs[i]) && is_about(
                m,
                cs[i],
                vars,
            ) implies all.owned.contains(normalized(m, cs[i])) by {
            if i < init.len() {
                assert(init[i] == cs[i]);
            }
        }
        assert forall|i: int|
            0 <= i < cs.len() && is_open(m, #[trigger] cs[i]) && !is_about(
                m,
                cs[i],
                vars,
            ) implies all.bubbled.contains(normalized(m, cs[i])) by {
            if i < init.len() {
                assert(init[i] == cs[i]);
            }
        }
        assert forall|x: ConstraintV| #[trigger] all.owned.contains(x) implies exists|i: int|
            0 <= i < cs.len() && x == normalized(m, #[trigger] cs[i]) && is_open(m, cs[i])
                && is_about(m, cs[i], vars) by {
            if rest.owned.contains(x) {
                let i = choose|i: int|
                    0 <= i < init.len() && x == normalized(m, #[trigger] init[i]) && is_open(
                        m,
                        init[i],
                    ) && is_about(m, init[i], vars);
                assert(cs[i] == init[i]);
            } else {
                assert(cs[cs.len() - 1] == c);
            }
        }
        assert forall|x: ConstraintV| #[trigger] all.bubbled.contains(x) implies exists|i: int|
            0 <= i < cs.len() && x == normalized(m, #[trigger] cs[i]) && !is_about(
                m,
                cs[i],
                vars,
            ) by {
            if rest.bubbled.contains(x) {
                let i = choose|i: int|
                    0 <= i < init.len() && x == normalized(m, #[trigger] init[i]) && !is_about(
                        m,
                        init[i],
                        vars,
                    );
                assert(cs[i] == init[i]);
            } else {
                assert(cs[cs.len() - 1] == c);
            }
        }
    }
}

proof fn lemma_added(cs: Seq<ConstraintV>, c: ConstraintV)
    ensures
        crate::schemes::add_constraint(cs, c).contains(c),
        crate::schemes::add_constraint(cs, c).len() <= cs.len() + 1,
        forall|x: ConstraintV| #[trigger]
            crate::schemes::add_constraint(cs, c).contains(x) <==> cs.contains(x) || x == c,
{
    if !cs.contains(c) {
        let more = cs.push(c);
        assert(more[cs.len() as int] == c);
        assert forall|x: ConstraintV| #[trigger] more.contains(x) <==> cs.contains(x) || x == c by {
            if cs.contains(x) {
                let k = choose|k: int| 0 <= k < cs.len() && cs[k] == x;
                assert(more[k] == x);
            }
        }
    }
}

// ---------------------------------------------------------------------------
// Uses
// ---------------------------------------------------------------------------

/// Whether these are new names for the variables: one for each, none twice, and none that
/// was handed out before.
pub open spec fn names_afresh(st: InferV, vars: Seq<TyVar>, names: Map<TyVar, TyVar>) -> bool {
    &&& forall|v: TyVar| #[trigger] names.dom().contains(v) <==> vars.contains(v)
    &&& forall|v: TyVar| #[trigger]
        names.dom().contains(v) ==> st.subst.next_var <= names[v] < st.subst.next_var + vars.len()
    &&& forall|v: TyVar, w: TyVar|
        #![trigger names.dom().contains(v), names.dom().contains(w)]
        names.dom().contains(v) && names.dom().contains(w) && v != w ==> names[v] != names[w]
}

proof fn lemma_fresh_names(st: InferV, vars: Seq<TyVar>, i: nat, m: Map<TyVar, TyVar>, first: int)
    requires
        i <= vars.len(),
        vars.no_duplicates(),
        first + i == st.subst.next_var,
        first + vars.len() <= u32::MAX,
        first >= 0,
        forall|v: TyVar| #[trigger] m.dom().contains(v) <==> vars.take(i as int).contains(v),
        forall|v: TyVar| #[trigger] m.dom().contains(v) ==> first <= m[v] < first + i,
        forall|v: TyVar, w: TyVar|
            #![trigger m.dom().contains(v), m.dom().contains(w)]
            m.dom().contains(v) && m.dom().contains(w) && v != w ==> m[v] != m[w],
    ensures
        ({
            let names = fresh_names(st, vars, i, m).1;
            &&& forall|v: TyVar| #[trigger] names.dom().contains(v) <==> vars.contains(v)
            &&& forall|v: TyVar| #[trigger]
                names.dom().contains(v) ==> first <= names[v] < first + vars.len()
            &&& forall|v: TyVar, w: TyVar|
                #![trigger names.dom().contains(v), names.dom().contains(w)]
                names.dom().contains(v) && names.dom().contains(w) && v != w ==> names[v]
                    != names[w]
            &&& fresh_names(st, vars, i, m).0.subst.map == st.subst.map
        }),
    decreases vars.len() - i,
{
    if i < vars.len() {
        let x = vars[i as int];
        let next = crate::state::fresh(st);
        let m2 = m.insert(x, st.subst.next_var);
        assert(vars.take((i + 1) as int) =~= vars.take(i as int).push(x));
        assert forall|v: TyVar| #[trigger] m2.dom().contains(v) <==> vars.take(
            (i + 1) as int,
        ).contains(v) by {
            crate::tables::lemma_push_contains(vars.take(i as int), x, v);
            assert(m.dom().contains(v) <==> vars.take(i as int).contains(v));
        }
        assert(!m.dom().contains(x)) by {
            if m.dom().contains(x) {
                assert(vars.take(i as int).contains(x));
                let k = choose|k: int| 0 <= k < i && vars.take(i as int)[k] == x;
                assert(vars[k] == vars[i as int]);
            }
        }
        lemma_fresh_names(next, vars, i + 1, m2, first);
    } else {
        assert(vars.take(i as int) =~= vars);
    }
}

/// A use of a scheme is the scheme's type and constraints with new names for its quantified
/// variables, each with one of its own (as long as variables last). Nothing is solved.
pub proof fn law_uses_are_renamed(st: InferV, s: SchemeV)
    requires
        s.vars.no_duplicates(),
        st.subst.next_var + s.vars.len() <= u32::MAX,
    ensures
        instance(st, s).0.subst.map == st.subst.map,
        exists|names: Map<TyVar, TyVar>|
            #![trigger rename(s.ty, names)]
            names_afresh(st, s.vars, names) && instance(st, s).1.ty == rename(s.ty, names)
                && instance(st, s).1.constraints == rename_constraints(s.constraints, names),
{
    reveal(instance);
    lemma_fresh_names(st, s.vars, 0, Map::empty(), st.subst.next_var as int);
    let names = fresh_names(st, s.vars, 0, Map::empty()).1;
    assert(names_afresh(st, s.vars, names));
    assert(instance(st, s).1.ty == rename(s.ty, names));
}

} // verus!
