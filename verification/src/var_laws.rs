//! What the order in which variables are shown lists.

use vstd::prelude::*;

use crate::rows::FieldV;
use crate::ty::{ConstraintV, ParamV, TyV, TyVar};
use crate::vars::{add_var, constraints_display_vars, display_vars, fields_display_vars};
use crate::vars::{free_vars, occurs, occurs_in_constraints, occurs_in_fields};
use crate::vars::{occurs_in_params, occurs_in_tys, params_display_vars, tys_display_vars};

verus! {

/// Whether `after` is `before` and then each variable of `more` that it lacks, once.
pub open spec fn lists_more(before: Seq<TyVar>, after: Seq<TyVar>, more: Set<TyVar>) -> bool {
    &&& after.no_duplicates()
    &&& before.len() <= after.len()
    &&& after.take(before.len() as int) == before
    &&& forall|v: TyVar| #[trigger] after.contains(v) <==> before.contains(v) || more.contains(v)
}

proof fn lemma_add_var(vars: Seq<TyVar>, v: TyVar)
    requires
        vars.no_duplicates(),
    ensures
        lists_more(vars, add_var(vars, v), set![v]),
{
    let after = add_var(vars, v);
    if vars.contains(v) {
        assert(after.take(vars.len() as int) =~= vars);
    } else {
        assert(after =~= vars.push(v));
        assert(after.take(vars.len() as int) =~= vars);
        assert forall|w: TyVar| #[trigger] after.contains(w) <==> vars.contains(w) || set![
            v,
        ].contains(w) by {
            if vars.contains(w) {
                let j = choose|j: int| 0 <= j < vars.len() && vars[j] == w;
                assert(after[j] == w);
            }
            assert(after[vars.len() as int] == v);
        }
    }
}

proof fn lemma_chain(a: Seq<TyVar>, b: Seq<TyVar>, c: Seq<TyVar>, m: Set<TyVar>, n: Set<TyVar>)
    requires
        lists_more(a, b, m),
        lists_more(b, c, n),
    ensures
        lists_more(a, c, m.union(n)),
{
    assert(c.take(a.len() as int) =~= b.take(a.len() as int)) by {
        assert(c.take(b.len() as int) == b);
        assert forall|j: int| 0 <= j < a.len() implies c[j] == b[j] by {
            assert(c.take(b.len() as int)[j] == c[j]);
        }
    }
    assert forall|v: TyVar| #[trigger] c.contains(v) <==> a.contains(v) || m.union(n).contains(v) by {
        assert(b.contains(v) <==> a.contains(v) || m.contains(v));
        assert(c.contains(v) <==> b.contains(v) || n.contains(v));
    }
}

proof fn lemma_nothing_more(vars: Seq<TyVar>, more: Set<TyVar>)
    requires
        vars.no_duplicates(),
        forall|v: TyVar| !more.contains(v),
    ensures
        lists_more(vars, vars, more),
{
    assert(vars.take(vars.len() as int) =~= vars);
}

spec fn in_tys(ts: Seq<TyV>) -> Set<TyVar> {
    Set::new(|v: TyVar| occurs_in_tys(v, ts))
}

spec fn in_params(ps: Seq<ParamV>) -> Set<TyVar> {
    Set::new(|v: TyVar| occurs_in_params(v, ps))
}

spec fn in_fields(fs: Seq<FieldV>) -> Set<TyVar> {
    Set::new(|v: TyVar| occurs_in_fields(v, fs))
}

spec fn in_constraints(cs: Seq<ConstraintV>) -> Set<TyVar> {
    Set::new(|v: TyVar| occurs_in_constraints(v, cs))
}

proof fn lemma_same_more(a: Seq<TyVar>, b: Seq<TyVar>, m: Set<TyVar>, n: Set<TyVar>)
    requires
        lists_more(a, b, m),
        m =~= n,
    ensures
        lists_more(a, b, n),
{
}

proof fn lemma_tys(vars: Seq<TyVar>, ts: Seq<TyV>)
    requires
        vars.no_duplicates(),
    ensures
        lists_more(vars, tys_display_vars(vars, ts), in_tys(ts)),
    decreases ts,
{
    if ts.len() == 0 {
        lemma_nothing_more(vars, in_tys(ts));
    } else {
        let init = ts.drop_last();
        let last = ts.last();
        lemma_tys(vars, init);
        let mid = tys_display_vars(vars, init);
        lemma_display(mid, last);
        lemma_chain(vars, mid, display_vars(mid, last), in_tys(init), free_vars(last));
        assert forall|v: TyVar|
            in_tys(init).union(free_vars(last)).contains(v) == in_tys(ts).contains(v) by {
            if occurs_in_tys(v, init) {
                let i = choose|i: int| 0 <= i < init.len() && occurs(v, #[trigger] init[i]);
                assert(occurs(v, ts[i]));
            }
            if occurs(v, last) {
                assert(occurs(v, ts[ts.len() - 1]));
            }
            if occurs_in_tys(v, ts) {
                let i = choose|i: int| 0 <= i < ts.len() && occurs(v, #[trigger] ts[i]);
                if i < init.len() {
                    assert(occurs(v, init[i]));
                }
            }
        }
        lemma_same_more(
            vars,
            display_vars(mid, last),
            in_tys(init).union(free_vars(last)),
            in_tys(ts),
        );
    }
}

proof fn lemma_params(vars: Seq<TyVar>, ps: Seq<ParamV>)
    requires
        vars.no_duplicates(),
    ensures
        lists_more(vars, params_display_vars(vars, ps), in_params(ps)),
    decreases ps,
{
    if ps.len() == 0 {
        lemma_nothing_more(vars, in_params(ps));
    } else {
        let init = ps.drop_last();
        let last = ps.last().ty;
        lemma_params(vars, init);
        let mid = params_display_vars(vars, init);
        lemma_display(mid, last);
        lemma_chain(vars, mid, display_vars(mid, last), in_params(init), free_vars(last));
        assert forall|v: TyVar|
            in_params(init).union(free_vars(last)).contains(v) == in_params(ps).contains(v) by {
            if occurs_in_params(v, init) {
                let i = choose|i: int| 0 <= i < init.len() && occurs(v, (#[trigger] init[i]).ty);
                assert(occurs(v, ps[i].ty));
            }
            if occurs(v, last) {
                assert(occurs(v, ps[ps.len() - 1].ty));
            }
            if occurs_in_params(v, ps) {
                let i = choose|i: int| 0 <= i < ps.len() && occurs(v, (#[trigger] ps[i]).ty);
                if i < init.len() {
                    assert(occurs(v, init[i].ty));
                }
            }
        }
        lemma_same_more(
            vars,
            display_vars(mid, last),
            in_params(init).union(free_vars(last)),
            in_params(ps),
        );
    }
}

proof fn lemma_fields(vars: Seq<TyVar>, fs: Seq<FieldV>)
    requires
        vars.no_duplicates(),
    ensures
        lists_more(vars, fields_display_vars(vars, fs), in_fields(fs)),
    decreases fs,
{
    if fs.len() == 0 {
        lemma_nothing_more(vars, in_fields(fs));
    } else {
        let init = fs.drop_last();
        let last = fs.last().1;
        lemma_fields(vars, init);
        let mid = fields_display_vars(vars, init);
        lemma_display(mid, last);
        lemma_chain(vars, mid, display_vars(mid, last), in_fields(init), free_vars(last));
        assert forall|v: TyVar|
            in_fields(init).union(free_vars(last)).contains(v) == in_fields(fs).contains(v) by {
            if occurs_in_fields(v, init) {
                let i = choose|i: int| 0 <= i < init.len() && occurs(v, (#[trigger] init[i]).1);
                assert(occurs(v, fs[i].1));
            }
            if occurs(v, last) {
                assert(occurs(v, fs[fs.len() - 1].1));
            }
            if occurs_in_fields(v, fs) {
                let i = choose|i: int| 0 <= i < fs.len() && occurs(v, (#[trigger] fs[i]).1);
                if i < init.len() {
                    assert(occurs(v, init[i].1));
                }
            }
        }
        lemma_same_more(
            vars,
            display_vars(mid, last),
            in_fields(init).union(free_vars(last)),
            in_fields(fs),
        );
    }
}

proof fn lemma_constraints(vars: Seq<TyVar>, cs: Seq<ConstraintV>)
    requires
        vars.no_duplicates(),
    ensures
        lists_more(vars, constraints_display_vars(vars, cs), in_constraints(cs)),
    decreases cs,
{
    if cs.len() == 0 {
        lemma_nothing_more(vars, in_constraints(cs));
    } else {
        let init = cs.drop_last();
        let last = cs.last().var;
        let args = cs.last().args;
        lemma_constraints(vars, init);
        let mid = constraints_display_vars(vars, init);
        let named = add_var(mid, last);
        let after = tys_display_vars(named, args);
        lemma_add_var(mid, last);
        lemma_tys(named, args);
        lemma_chain(vars, mid, named, in_constraints(init), set![last]);
        lemma_chain(vars, named, after, in_constraints(init).union(set![last]), in_tys(args));
        let all = in_constraints(init).union(set![last]).union(in_tys(args));
        assert forall|v: TyVar| all.contains(v) == in_constraints(cs).contains(v) by {
            if occurs_in_constraints(v, init) {
                let i = choose|i: int|
                    0 <= i < init.len() && ((#[trigger] init[i]).var == v || occurs_in_tys(
                        v,
                        init[i].args,
                    ));
                assert(cs[i] == init[i]);
            }
            if v == last || occurs_in_tys(v, args) {
                assert(cs[cs.len() - 1].var == last && cs[cs.len() - 1].args == args);
            }
            if occurs_in_constraints(v, cs) {
                let i = choose|i: int|
                    0 <= i < cs.len() && ((#[trigger] cs[i]).var == v || occurs_in_tys(
                        v,
                        cs[i].args,
                    ));
                if i < init.len() {
                    assert(init[i] == cs[i]);
                }
            }
        }
        lemma_same_more(vars, after, all, in_constraints(cs));
    }
}

proof fn lemma_display(vars: Seq<TyVar>, t: TyV)
    requires
        vars.no_duplicates(),
    ensures
        lists_more(vars, display_vars(vars, t), free_vars(t)),
    decreases t,
{
    let after = display_vars(vars, t);
    match t {
        TyV::Var(v) => {
            lemma_add_var(vars, v);
            lemma_same_more(vars, after, set![v], free_vars(t));
        },
        TyV::Qualified(cs, inner) => {
            lemma_display(vars, *inner);
            let mid = display_vars(vars, *inner);
            lemma_constraints(mid, cs);
            lemma_chain(vars, mid, after, free_vars(*inner), in_constraints(cs));
            lemma_same_more(
                vars,
                after,
                free_vars(*inner).union(in_constraints(cs)),
                free_vars(t),
            );
        },
        TyV::Tuple(ts) => {
            lemma_tys(vars, ts);
            lemma_same_more(vars, after, in_tys(ts), free_vars(t));
        },
        TyV::Func(ps, ret) => {
            lemma_params(vars, ps);
            let mid = params_display_vars(vars, ps);
            lemma_display(mid, *ret.ty);
            lemma_chain(vars, mid, after, in_params(ps), free_vars(*ret.ty));
            lemma_same_more(vars, after, in_params(ps).union(free_vars(*ret.ty)), free_vars(t));
        },
        TyV::App(con, args) => {
            lemma_display(vars, *con);
            let mid = display_vars(vars, *con);
            lemma_tys(mid, args);
            lemma_chain(vars, mid, after, free_vars(*con), in_tys(args));
            lemma_same_more(vars, after, free_vars(*con).union(in_tys(args)), free_vars(t));
        },
        TyV::Record(row) => {
            lemma_fields(vars, row.fields);
            let mid = fields_display_vars(vars, row.fields);
            lemma_display(mid, *row.tail);
            lemma_chain(vars, mid, after, in_fields(row.fields), free_vars(*row.tail));
            lemma_same_more(
                vars,
                after,
                in_fields(row.fields).union(free_vars(*row.tail)),
                free_vars(t),
            );
        },
        _ => {
            lemma_nothing_more(vars, free_vars(t));
        },
    }
}

/// The order in which the variables of a type are shown lists each free variable of the
/// type once and nothing else. The variables of a part that is shown earlier come first:
/// a part only adds behind those that are there.
pub proof fn law_display_order_lists_free_vars(t: TyV)
    ensures
        display_vars(Seq::empty(), t).no_duplicates(),
        forall|v: TyVar| #[trigger]
            display_vars(Seq::empty(), t).contains(v) <==> free_vars(t).contains(v),
{
    lemma_display(Seq::empty(), t);
}

/// What a type adds to an order comes behind what is there.
pub proof fn law_display_order_keeps_what_came_first(vars: Seq<TyVar>, t: TyV)
    requires
        vars.no_duplicates(),
    ensures
        vars.is_prefix_of(display_vars(vars, t)),
{
    lemma_display(vars, t);
    let after = display_vars(vars, t);
    assert(after.subrange(0, vars.len() as int) =~= after.take(vars.len() as int));
}

} // verus!
