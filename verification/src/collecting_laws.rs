//! What holds of programs that are checked past their first error.

use vstd::prelude::*;

use crate::ast_view::{InherentImplDefV, StmtV};
use crate::checker::inherent_run;
use crate::collecting::{bound_by, lost, rolled_back, top_one, tops_from, trial_of, used_by};
use crate::collecting::{CollectV, TopsV};
use crate::env::EnvV;
use crate::impl_parts::inherent_after;
use crate::recovery::names_overlap;
use crate::state::InferV;
use crate::stmt_parts::stmt_after;
use crate::ty::TyV;

verus! {

/// A statement that fails leaves what was solved, what is pending, what was bound and the
/// environment as they were before it. The counter of variables stays where the statement
/// left it.
pub proof fn law_failure_leaves_nothing_solved(st: InferV, env: EnvV, s: StmtV, in_test: bool)
    requires
        trial_of(st, env, s, in_test).res is Err,
    ensures
        ({
            let after = trial_of(st, env, s, in_test);
            &&& after.node.0 == env
            &&& after.st.subst.map == st.subst.map
            &&& after.st.pending == st.pending
            &&& after.st.break_tys == st.break_tys
            &&& after.st.return_tys == st.return_tys
            &&& after.st.import_bindings == st.import_bindings
            &&& after.st.field_callables == st.field_callables
            &&& after.st.methods == st.methods
            &&& exists|now: InferV| after.st == #[trigger] rolled_back(st, now)
        }),
{
    reveal(trial_of);
}

/// The methods of a type, once one of them fails, leave the tree as it was: none of them
/// has its types filled in.
pub proof fn law_failed_methods_leave_the_tree(st: InferV, env: EnvV, id: InherentImplDefV)
    requires
        trial_of(st, env, StmtV::InherentImpl(id), false).res is Err,
    ensures
        trial_of(st, env, StmtV::InherentImpl(id), false).node == (env, StmtV::InherentImpl(id)),
{
    reveal(trial_of);
    reveal(stmt_after);
    reveal(inherent_run);
    reveal(inherent_after);
}

/// A statement that speaks of a name whose declaration failed is left out: nothing is
/// checked, nothing is reported, and its own names stand for nothing either.
pub proof fn law_dependents_are_left_out(c: CollectV, s: StmtV)
    requires
        names_overlap(c.unavailable, used_by(s)),
        !(s is Type || s is Extern),
    ensures
        top_one(c, s).s == s,
        top_one(c, s).c == (CollectV { unavailable: lost(c.unavailable, bound_by(s)), ..c }),
        !top_one(c, s).done,
{
    reveal(top_one);
}

/// A statement that speaks of no such name and fails is reported, with its own error, and
/// its names stand for nothing from there on.
pub proof fn law_independent_errors_are_reported(c: CollectV, s: StmtV)
    requires
        !names_overlap(c.unavailable, used_by(s)),
        !(s is Type || s is Extern || s is TestBlock),
        trial_of(c.st, c.env, s, false).res is Err,
    ensures
        top_one(c, s).c.errors == c.errors.push(trial_of(c.st, c.env, s, false).res->Err_0),
        top_one(c, s).c.unavailable == lost(c.unavailable, bound_by(s)),
        top_one(c, s).c.env == c.env,
        !top_one(c, s).done,
{
    reveal(top_one);
    law_failure_leaves_nothing_solved(c.st, c.env, s, false);
}

/// What a statement reports comes behind what was reported before.
pub proof fn law_one_keeps_errors(c: CollectV, s: StmtV)
    ensures
        c.errors.is_prefix_of(top_one(c, s).c.errors),
{
    reveal(top_one);
    reveal(trial_of);
    let after = top_one(c, s).c.errors;
    assert(after.subrange(0, c.errors.len() as int) =~= c.errors);
}

/// What has been reported stays reported, whatever follows.
pub proof fn law_errors_stay_reported(t: TopsV, i: nat)
    ensures
        t.c.errors.is_prefix_of(tops_from(t, i).c.errors),
    decreases t.stmts.len() - i,
{
    if i < t.stmts.len() {
        let one = top_one(t.c, t.stmts[i as int]);
        law_one_keeps_errors(t.c, t.stmts[i as int]);
        let next = TopsV {
            c: one.c,
            stmts: t.stmts.update(i as int, one.s),
            value: one.value,
            done: t.done.push(one.done),
        };
        law_errors_stay_reported(next, i + 1);
        let a = t.c.errors;
        let b = one.c.errors;
        let z = tops_from(t, i).c.errors;
        assert(b.subrange(0, a.len() as int) == a);
        assert(z.subrange(0, b.len() as int) == b);
        assert(z.subrange(0, a.len() as int) =~= a) by {
            assert forall|k: int| 0 <= k < a.len() implies z[k] == a[k] by {
                assert(z.subrange(0, b.len() as int)[k] == b[k]);
                assert(b.subrange(0, a.len() as int)[k] == a[k]);
            }
        }
    } else {
        assert(t.c.errors.subrange(0, t.c.errors.len() as int) =~= t.c.errors);
    }
}

/// A program has a value other than unit only if it ends in an expression that was checked
/// without error.
pub proof fn law_value_of_failed_end_is_unit(t: TopsV, i: nat)
    requires
        i < t.stmts.len(),
        t.done.len() == i,
    ensures
        tops_from(t, i).done.len() == t.stmts.len(),
        tops_from(t, i).stmts.len() == t.stmts.len(),
        !tops_from(t, i).done.last() ==> tops_from(t, i).value == TyV::Unit,
        !(tops_from(t, i).stmts.last() is Expr) ==> tops_from(t, i).value == TyV::Unit,
    decreases t.stmts.len() - i,
{
    reveal(top_one);
    let one = top_one(t.c, t.stmts[i as int]);
    let next = TopsV {
        c: one.c,
        stmts: t.stmts.update(i as int, one.s),
        value: one.value,
        done: t.done.push(one.done),
    };
    if i + 1 < t.stmts.len() {
        law_value_of_failed_end_is_unit(next, i + 1);
    } else {
        assert(tops_from(next, i + 1) == next);
    }
}

} // verus!
