//! Sizes of what is left of a list.

use vstd::prelude::*;

use crate::ast_size::{array_entries_size, array_entry_size, expr_size, exprs_size};
use crate::ast_size::{inherent_method_size, inherent_methods_size, match_arm_size};
use crate::ast_size::{match_arms_size, record_entries_size, record_entry_size, stmt_size};
use crate::ast_size::stmts_size;
use crate::ast_view::{ArrayEntryV, ExprV, InherentMethodV, MatchArmV, RecordEntryV, StmtV};

verus! {

proof fn lemma_exprs_first(s: Seq<ExprV>)
    requires
        s.len() > 0,
    ensures
        exprs_size(s) == expr_size(s[0]) + 1 + exprs_size(s.skip(1)),
    decreases s.len(),
{
    if s.len() == 1 {
        assert(s.drop_last() =~= Seq::empty());
        assert(s.skip(1) =~= Seq::empty());
    } else {
        lemma_exprs_first(s.drop_last());
        assert(s.skip(1).drop_last() =~= s.drop_last().skip(1));
    }
}

/// What is left of a list shrinks by its first, whatever that is replaced by.
pub proof fn lemma_exprs_rest(s: Seq<ExprV>, i: int)
    requires
        0 <= i < s.len(),
    ensures
        expr_size(s[i]) < exprs_size(s.skip(i)),
        exprs_size(s.skip(i + 1)) < exprs_size(s.skip(i)),
        forall|x: ExprV| exprs_size(#[trigger] s.update(i, x).skip(i + 1)) < exprs_size(s.skip(i)),
{
    lemma_exprs_first(s.skip(i));
    assert(s.skip(i).skip(1) =~= s.skip(i + 1));
    assert forall|x: ExprV| exprs_size(#[trigger] s.update(i, x).skip(i + 1)) < exprs_size(
        s.skip(i),
    ) by {
        assert(s.update(i, x).skip(i + 1) =~= s.skip(i + 1));
    }
}

/// At its start, what is left of a list is the list.
pub proof fn lemma_exprs_whole(s: Seq<ExprV>)
    ensures
        exprs_size(s.skip(0)) == exprs_size(s),
{
    assert(s.skip(0) =~= s);
}

proof fn lemma_arms_first(s: Seq<MatchArmV>)
    requires
        s.len() > 0,
    ensures
        match_arms_size(s) == match_arm_size(s[0]) + 1 + match_arms_size(s.skip(1)),
    decreases s.len(),
{
    if s.len() == 1 {
        assert(s.drop_last() =~= Seq::empty());
        assert(s.skip(1) =~= Seq::empty());
    } else {
        lemma_arms_first(s.drop_last());
        assert(s.skip(1).drop_last() =~= s.drop_last().skip(1));
    }
}

/// What is left of a list shrinks by its first, whatever that is replaced by.
pub proof fn lemma_arms_rest(s: Seq<MatchArmV>, i: int)
    requires
        0 <= i < s.len(),
    ensures
        match_arm_size(s[i]) < match_arms_size(s.skip(i)),
        match_arms_size(s.skip(i + 1)) < match_arms_size(s.skip(i)),
        forall|x: MatchArmV| match_arms_size(#[trigger] s.update(i, x).skip(i + 1)) < match_arms_size(s.skip(i)),
{
    lemma_arms_first(s.skip(i));
    assert(s.skip(i).skip(1) =~= s.skip(i + 1));
    assert forall|x: MatchArmV| match_arms_size(#[trigger] s.update(i, x).skip(i + 1)) < match_arms_size(
        s.skip(i),
    ) by {
        assert(s.update(i, x).skip(i + 1) =~= s.skip(i + 1));
    }
}

/// At its start, what is left of a list is the list.
pub proof fn lemma_arms_whole(s: Seq<MatchArmV>)
    ensures
        match_arms_size(s.skip(0)) == match_arms_size(s),
{
    assert(s.skip(0) =~= s);
}

proof fn lemma_entries_first(s: Seq<ArrayEntryV>)
    requires
        s.len() > 0,
    ensures
        array_entries_size(s) == array_entry_size(s[0]) + 1 + array_entries_size(s.skip(1)),
    decreases s.len(),
{
    if s.len() == 1 {
        assert(s.drop_last() =~= Seq::empty());
        assert(s.skip(1) =~= Seq::empty());
    } else {
        lemma_entries_first(s.drop_last());
        assert(s.skip(1).drop_last() =~= s.drop_last().skip(1));
    }
}

/// What is left of a list shrinks by its first, whatever that is replaced by.
pub proof fn lemma_entries_rest(s: Seq<ArrayEntryV>, i: int)
    requires
        0 <= i < s.len(),
    ensures
        array_entry_size(s[i]) < array_entries_size(s.skip(i)),
        array_entries_size(s.skip(i + 1)) < array_entries_size(s.skip(i)),
        forall|x: ArrayEntryV| array_entries_size(#[trigger] s.update(i, x).skip(i + 1)) < array_entries_size(s.skip(i)),
{
    lemma_entries_first(s.skip(i));
    assert(s.skip(i).skip(1) =~= s.skip(i + 1));
    assert forall|x: ArrayEntryV| array_entries_size(#[trigger] s.update(i, x).skip(i + 1)) < array_entries_size(
        s.skip(i),
    ) by {
        assert(s.update(i, x).skip(i + 1) =~= s.skip(i + 1));
    }
}

/// At its start, what is left of a list is the list.
pub proof fn lemma_entries_whole(s: Seq<ArrayEntryV>)
    ensures
        array_entries_size(s.skip(0)) == array_entries_size(s),
{
    assert(s.skip(0) =~= s);
}

proof fn lemma_fields_first(s: Seq<RecordEntryV>)
    requires
        s.len() > 0,
    ensures
        record_entries_size(s) == record_entry_size(s[0]) + 1 + record_entries_size(s.skip(1)),
    decreases s.len(),
{
    if s.len() == 1 {
        assert(s.drop_last() =~= Seq::empty());
        assert(s.skip(1) =~= Seq::empty());
    } else {
        lemma_fields_first(s.drop_last());
        assert(s.skip(1).drop_last() =~= s.drop_last().skip(1));
    }
}

/// What is left of a list shrinks by its first, whatever that is replaced by.
pub proof fn lemma_fields_rest(s: Seq<RecordEntryV>, i: int)
    requires
        0 <= i < s.len(),
    ensures
        record_entry_size(s[i]) < record_entries_size(s.skip(i)),
        record_entries_size(s.skip(i + 1)) < record_entries_size(s.skip(i)),
        forall|x: RecordEntryV| record_entries_size(#[trigger] s.update(i, x).skip(i + 1)) < record_entries_size(s.skip(i)),
{
    lemma_fields_first(s.skip(i));
    assert(s.skip(i).skip(1) =~= s.skip(i + 1));
    assert forall|x: RecordEntryV| record_entries_size(#[trigger] s.update(i, x).skip(i + 1)) < record_entries_size(
        s.skip(i),
    ) by {
        assert(s.update(i, x).skip(i + 1) =~= s.skip(i + 1));
    }
}

/// At its start, what is left of a list is the list.
pub proof fn lemma_fields_whole(s: Seq<RecordEntryV>)
    ensures
        record_entries_size(s.skip(0)) == record_entries_size(s),
{
    assert(s.skip(0) =~= s);
}

proof fn lemma_stmts_first(s: Seq<StmtV>)
    requires
        s.len() > 0,
    ensures
        stmts_size(s) == stmt_size(s[0]) + 1 + stmts_size(s.skip(1)),
    decreases s.len(),
{
    if s.len() == 1 {
        assert(s.drop_last() =~= Seq::empty());
        assert(s.skip(1) =~= Seq::empty());
    } else {
        lemma_stmts_first(s.drop_last());
        assert(s.skip(1).drop_last() =~= s.drop_last().skip(1));
    }
}

/// What is left of a list shrinks by its first, whatever that is replaced by.
pub proof fn lemma_stmts_rest(s: Seq<StmtV>, i: int)
    requires
        0 <= i < s.len(),
    ensures
        stmt_size(s[i]) < stmts_size(s.skip(i)),
        stmts_size(s.skip(i + 1)) < stmts_size(s.skip(i)),
        forall|x: StmtV| stmts_size(#[trigger] s.update(i, x).skip(i + 1)) < stmts_size(s.skip(i)),
{
    lemma_stmts_first(s.skip(i));
    assert(s.skip(i).skip(1) =~= s.skip(i + 1));
    assert forall|x: StmtV| stmts_size(#[trigger] s.update(i, x).skip(i + 1)) < stmts_size(
        s.skip(i),
    ) by {
        assert(s.update(i, x).skip(i + 1) =~= s.skip(i + 1));
    }
}

/// At its start, what is left of a list is the list.
pub proof fn lemma_stmts_whole(s: Seq<StmtV>)
    ensures
        stmts_size(s.skip(0)) == stmts_size(s),
{
    assert(s.skip(0) =~= s);
}

proof fn lemma_inherent_methods_first(s: Seq<InherentMethodV>)
    requires
        s.len() > 0,
    ensures
        inherent_methods_size(s) == inherent_method_size(s[0]) + 1 + inherent_methods_size(s.skip(1)),
    decreases s.len(),
{
    if s.len() == 1 {
        assert(s.drop_last() =~= Seq::empty());
        assert(s.skip(1) =~= Seq::empty());
    } else {
        lemma_inherent_methods_first(s.drop_last());
        assert(s.skip(1).drop_last() =~= s.drop_last().skip(1));
    }
}

/// What is left of a list shrinks by its first, whatever that is replaced by.
pub proof fn lemma_inherent_methods_rest(s: Seq<InherentMethodV>, i: int)
    requires
        0 <= i < s.len(),
    ensures
        inherent_method_size(s[i]) < inherent_methods_size(s.skip(i)),
        inherent_methods_size(s.skip(i + 1)) < inherent_methods_size(s.skip(i)),
        forall|x: InherentMethodV| inherent_methods_size(#[trigger] s.update(i, x).skip(i + 1)) < inherent_methods_size(s.skip(i)),
{
    lemma_inherent_methods_first(s.skip(i));
    assert(s.skip(i).skip(1) =~= s.skip(i + 1));
    assert forall|x: InherentMethodV| inherent_methods_size(#[trigger] s.update(i, x).skip(i + 1)) < inherent_methods_size(
        s.skip(i),
    ) by {
        assert(s.update(i, x).skip(i + 1) =~= s.skip(i + 1));
    }
}

/// At its start, what is left of a list is the list.
pub proof fn lemma_inherent_methods_whole(s: Seq<InherentMethodV>)
    ensures
        inherent_methods_size(s.skip(0)) == inherent_methods_size(s),
{
    assert(s.skip(0) =~= s);
}

} // verus!
