//! Which dictionaries the uses in a tree have once they are chosen.

use vstd::prelude::*;

use crate::ast_view::{BinOpV, DictRefV, ExprV, PendingDictArgV, PendingMethodV};
use crate::ast_view::ResolvedCalleeV;
use crate::dict_laws::{is_served, law_pending_is_served};
use crate::dict_uses::{all_resolved, drain, settle, settle_binary, settle_call, settle_for};
use crate::dict_uses::{settle_index, settle_kind, settle_method, settle_neg, settle_op};
use crate::dicts::ResolverV;

verus! {

/// Whether all that was pending is served: the dictionaries that are passed are those from
/// before and then one for each that was pending, in order.
pub open spec fn all_served(
    c: ResolverV,
    before: Seq<DictRefV>,
    pending: Seq<PendingDictArgV>,
    after: Seq<DictRefV>,
) -> bool {
    &&& after.len() == before.len() + pending.len()
    &&& after.take(before.len() as int) == before
    &&& forall|i: int|
        0 <= i < pending.len() ==> is_served(c, #[trigger] pending[i], after[before.len() + i])
}

/// Whether a use whose dictionary was pending calls the method of a dictionary that serves;
/// one that was not calls what it did.
pub open spec fn op_served(
    c: ResolverV,
    method: Seq<char>,
    before: Option<ResolvedCalleeV>,
    pending: Option<PendingDictArgV>,
    after: Option<ResolvedCalleeV>,
) -> bool {
    match pending {
        None => after == before,
        Some(p) => after matches Some(ResolvedCalleeV::DictMethod { dict, method: called })
            && called == method && is_served(c, p, dict),
    }
}

/// [`op_served`] for a method of a trait.
pub open spec fn method_served(
    c: ResolverV,
    before: Option<ResolvedCalleeV>,
    pending: Option<PendingMethodV>,
    after: Option<ResolvedCalleeV>,
) -> bool {
    match pending {
        None => after == before,
        Some(p) => after matches Some(ResolvedCalleeV::DictMethod { dict, method: called })
            && called == p.method && is_served(c, p.pending, dict),
    }
}

proof fn lemma_all_resolved(
    c: ResolverV,
    context: Seq<char>,
    pending: Seq<PendingDictArgV>,
    i: nat,
)
    requires
        i <= pending.len(),
        all_resolved(c, context, pending, i) is Ok,
    ensures
        all_resolved(c, context, pending, i)->Ok_0.len() == pending.len() - i,
        forall|k: int|
            i <= k < pending.len() ==> is_served(
                c,
                #[trigger] pending[k],
                all_resolved(c, context, pending, i)->Ok_0[k - i],
            ),
    decreases pending.len() - i,
{
    if i < pending.len() {
        law_pending_is_served(c, pending[i as int]);
        lemma_all_resolved(c, context, pending, i + 1);
    }
}

proof fn lemma_drained(
    c: ResolverV,
    context: Seq<char>,
    dicts: Seq<DictRefV>,
    pending: Seq<PendingDictArgV>,
)
    requires
        drain(c, context, dicts, pending, true).err is None,
    ensures
        all_served(c, dicts, pending, drain(c, context, dicts, pending, true).dicts),
{
    lemma_all_resolved(c, context, pending, 0);
    let after = drain(c, context, dicts, pending, true).dicts;
    assert(after.take(dicts.len() as int) =~= dicts);
    let more = all_resolved(c, context, pending, 0)->Ok_0;
    assert forall|i: int| 0 <= i < pending.len() implies is_served(
        c,
        #[trigger] pending[i],
        after[dicts.len() + i],
    ) by {
        assert(after[dicts.len() + i] == more[i]);
    }
}

proof fn lemma_op(
    c: ResolverV,
    method: Seq<char>,
    resolved: Option<ResolvedCalleeV>,
    pending: Option<PendingDictArgV>,
    iterator: bool,
)
    requires
        settle_op(c, method, resolved, pending, true, iterator).err is None,
    ensures
        op_served(
            c,
            method,
            resolved,
            pending,
            settle_op(c, method, resolved, pending, true, iterator).resolved,
        ),
{
    if let Some(p) = pending {
        law_pending_is_served(c, p);
    }
}

proof fn lemma_method(
    c: ResolverV,
    context: Seq<char>,
    resolved: Option<ResolvedCalleeV>,
    pending: Option<PendingMethodV>,
)
    requires
        settle_method(c, context, resolved, pending, true).err is None,
    ensures
        method_served(
            c,
            resolved,
            pending,
            settle_method(c, context, resolved, pending, true).resolved,
        ),
{
    if let Some(p) = pending {
        law_pending_is_served(c, p.pending);
    }
}

/// Once the dictionaries of a call are chosen, it passes those that it passed before and then
/// one that serves for each that was pending, in order; a method of a trait whose
/// dictionary was pending is that of a dictionary that serves.
pub proof fn law_call_is_served(e: ExprV, c: ResolverV, deep: bool)
    requires
        e.kind is Call,
        settle(e, c, deep, true).1 is None,
    ensures
        ({
            let k = settle(e, c, deep, true).0.kind;
            &&& k is Call
            &&& all_served(
                c,
                e.kind->Call_dict_args,
                e.kind->Call_pending_dict_args,
                k->Call_dict_args,
            )
            &&& method_served(
                c,
                e.kind->Call_resolved_callee,
                e.kind->Call_pending_trait_method,
                k->Call_resolved_callee,
            )
        }),
{
    reveal_with_fuel(settle, 2);
    reveal_with_fuel(settle_kind, 2);
    reveal_with_fuel(settle_call, 2);
    let k = e.kind;
    let m = settle_method(
        c,
        "method call"@,
        k->Call_resolved_callee,
        k->Call_pending_trait_method,
        true,
    );
    if m.err is None {
        lemma_method(
            c,
            "method call"@,
            k->Call_resolved_callee,
            k->Call_pending_trait_method,
        );
        if drain(c, "call"@, k->Call_dict_args, k->Call_pending_dict_args, true).err is None {
            lemma_drained(c, "call"@, k->Call_dict_args, k->Call_pending_dict_args);
        }
    }
}

/// Once the dictionaries of an operator are chosen, it passes those that it passed before and
/// then one that serves for each that was pending; the method of a trait whose dictionary
/// was pending is that of a dictionary that serves.
pub proof fn law_operator_is_served(e: ExprV, c: ResolverV, deep: bool)
    requires
        e.kind is Binary,
        settle(e, c, deep, true).1 is None,
    ensures
        ({
            let k = settle(e, c, deep, true).0.kind;
            &&& k is Binary
            &&& all_served(
                c,
                e.kind->Binary_dict_args,
                e.kind->Binary_pending_dict_args,
                k->Binary_dict_args,
            )
            &&& e.kind->Binary_op matches BinOpV::Custom(name) ==> op_served(
                c,
                name,
                e.kind->Binary_resolved_op,
                e.kind->Binary_pending_op,
                k->Binary_resolved_op,
            )
        }),
{
    reveal_with_fuel(settle, 2);
    reveal_with_fuel(settle_kind, 2);
    reveal_with_fuel(settle_binary, 2);
    let k = e.kind;
    if let BinOpV::Custom(name) = k->Binary_op {
        if settle_op(c, name, k->Binary_resolved_op, k->Binary_pending_op, true, false).err is None {
            lemma_op(c, name, k->Binary_resolved_op, k->Binary_pending_op, false);
        }
    }
    if drain(c, "call"@, k->Binary_dict_args, k->Binary_pending_dict_args, true).err is None {
        lemma_drained(c, "call"@, k->Binary_dict_args, k->Binary_pending_dict_args);
    }
}

/// Once the dictionaries of a negation are chosen, its method is that of one that serves.
pub proof fn law_negation_is_served(e: ExprV, c: ResolverV, deep: bool)
    requires
        e.kind is Neg,
        settle(e, c, deep, true).1 is None,
    ensures
        ({
            let k = settle(e, c, deep, true).0.kind;
            &&& k is Neg
            &&& op_served(
                c,
                "-"@,
                e.kind->Neg_resolved_op,
                e.kind->Neg_pending_op,
                k->Neg_resolved_op,
            )
        }),
{
    reveal_with_fuel(settle, 2);
    reveal_with_fuel(settle_kind, 2);
    reveal_with_fuel(settle_neg, 2);
    let k = e.kind;
    if settle_op(c, "-"@, k->Neg_resolved_op, k->Neg_pending_op, true, false).err is None {
        lemma_op(c, "-"@, k->Neg_resolved_op, k->Neg_pending_op, false);
    }
}

/// Once the dictionaries of a loop over something are chosen, what it goes through is given
/// by the method of one that serves.
pub proof fn law_iteration_is_served(e: ExprV, c: ResolverV, deep: bool)
    requires
        e.kind is For,
        settle(e, c, deep, true).1 is None,
    ensures
        ({
            let k = settle(e, c, deep, true).0.kind;
            &&& k is For
            &&& op_served(
                c,
                "iter"@,
                e.kind->For_resolved_iter,
                e.kind->For_pending_iter,
                k->For_resolved_iter,
            )
        }),
{
    reveal_with_fuel(settle, 2);
    reveal_with_fuel(settle_kind, 2);
    reveal_with_fuel(settle_for, 2);
    let k = e.kind;
    if settle_op(c, "iter"@, k->For_resolved_iter, k->For_pending_iter, true, true).err is None {
        lemma_op(c, "iter"@, k->For_resolved_iter, k->For_pending_iter, true);
    }
}

/// Once the dictionaries of an access by key are chosen, it passes those that it passed
/// before and then one that serves for each that was pending, and its method is that of one
/// that serves.
pub proof fn law_access_is_served(e: ExprV, c: ResolverV, deep: bool)
    requires
        e.kind is Index,
        settle(e, c, deep, true).1 is None,
    ensures
        ({
            let k = settle(e, c, deep, true).0.kind;
            &&& k is Index
            &&& all_served(
                c,
                e.kind->Index_dict_args,
                e.kind->Index_pending_dict_args,
                k->Index_dict_args,
            )
            &&& method_served(
                c,
                e.kind->Index_resolved_callee,
                e.kind->Index_pending_trait_method,
                k->Index_resolved_callee,
            )
        }),
{
    reveal_with_fuel(settle, 2);
    reveal_with_fuel(settle_kind, 2);
    reveal_with_fuel(settle_index, 2);
    let k = e.kind;
    let context = "index expression"@;
    let m = settle_method(
        c,
        context,
        k->Index_resolved_callee,
        k->Index_pending_trait_method,
        true,
    );
    if m.err is None {
        lemma_method(c, context, k->Index_resolved_callee, k->Index_pending_trait_method);
        if drain(c, context, k->Index_dict_args, k->Index_pending_dict_args, true).err is None {
            lemma_drained(c, context, k->Index_dict_args, k->Index_pending_dict_args);
        }
    }
}

} // verus!
