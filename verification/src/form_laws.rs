//! What holds of an expression that is accepted and has parts: tuples, arrays, records,
//! ranges, loops, blocks and calls.

use vstd::prelude::*;

use crate::apply::{apply, lemma_extend_absorbs, SubstMap};
use crate::ast_size::{array_entry_size, expr_kind_size, expr_size, lemma_exprs_size};
use crate::ast_size::record_entry_size;
use crate::ast_view::{ArgWrapperV, ArrayEntryV, DictRefV, ExprV, PendingDictArgV};
use crate::ast_view::RecordEntryV;
use crate::call_parts::{arg_after, args_after, form_of};
use crate::checker::{agrees, all_args, apply_run, arg_run, args_run, array_run, below};
use crate::checker::{block_run, bound_run, call_run, checked, checked_args, each_run};
use crate::checker::{entries_run, entry_run, field_entry_run, field_run, field_value_run};
use crate::checker::{fields_run, final_run, infer_kind, item_run, loop_run, one_field};
use crate::checker::{plain_call_run, range_run, record_run, stmts_run, Within};
use crate::dict_laws::law_each_constraint_is_given;
use crate::dicts::AttachV;
use crate::ends::arg_end;
use crate::env::EnvV;
use crate::error::SpannedV;
use crate::finish::{finish_call, params_of};
use crate::keeps_checker::{keeps_args_run, keeps_bound_run, keeps_each_run, keeps_entries_run};
use crate::keeps_checker::{keeps_entry_run, law_checking_keeps_what_is_solved, steady};
use crate::keeps_ends::keeps_arg_end;
use crate::keeps_steps::keeps_give_dicts;
use crate::rule_laws::{gives, lemma_equal_later, lemma_equated, lemma_gives, lemma_kind};
use crate::rule_laws::lemma_solvable_later;
use crate::scopes::in_loop;
use crate::solutions::{grows, lemma_grows_reflexive, lemma_grows_transitive, solvable};
use crate::state::{fresh, known_of, next_var, InferV};
use crate::steps::{equate, give_dicts, resolved};
use crate::ty::{ConstraintV, ParamCapability, ParamV, ReturnV, TyV};
use crate::ty_helpers::{array_of, call_params, call_return, call_type, constraints_on};
use crate::ty_helpers::without_constraints;
use crate::typing::same;
use crate::unify_laws::made_equal;

verus! {

broadcast use {lemma_grows_reflexive, lemma_grows_transitive};

pub(crate) proof fn lemma_gives_later(
    from: SubstMap,
    to: SubstMap,
    to2: SubstMap,
    env: EnvV,
    e: ExprV,
    t: TyV,
)
    requires
        gives(from, to, env, e, t),
        grows(to, to2),
    ensures
        gives(from, to2, env, e, t),
{
    let (st, want) = choose|st: InferV, want: Option<TyV>|
        #![trigger checked(st, env, e, want)]
        grows(from, st.subst.map) && checked(st, env, e, want).res == Ok::<TyV, SpannedV>(t)
            && grows(checked(st, env, e, want).st.subst.map, to);
    lemma_gives(st, want, from, to2, env, e, t);
}

pub(crate) proof fn lemma_gives_earlier(
    from0: SubstMap,
    from: SubstMap,
    to: SubstMap,
    env: EnvV,
    e: ExprV,
    t: TyV,
)
    requires
        gives(from, to, env, e, t),
        grows(from0, from),
    ensures
        gives(from0, to, env, e, t),
{
    let (st, want) = choose|st: InferV, want: Option<TyV>|
        #![trigger checked(st, env, e, want)]
        grows(from, st.subst.map) && checked(st, env, e, want).res == Ok::<TyV, SpannedV>(t)
            && grows(checked(st, env, e, want).st.subst.map, to);
    lemma_gives(st, want, from0, to, env, e, t);
}

pub(crate) proof fn lemma_same_later(m: SubstMap, m2: SubstMap, a: TyV, b: TyV)
    requires
        solvable(m),
        grows(m, m2),
        same(m, a, b),
    ensures
        same(m2, a, b),
{
    reveal(grows);
    lemma_extend_absorbs(m, m2, a);
    lemma_extend_absorbs(m, m2, b);
}

// ---------------------------------------------------------------------------
// Tuples
// ---------------------------------------------------------------------------

/// Whether checking each of the expressions gave the type beside it.
pub open spec fn each_gives(
    from: SubstMap,
    to: SubstMap,
    env: EnvV,
    s: Seq<ExprV>,
    ts: Seq<TyV>,
) -> bool {
    &&& ts.len() == s.len()
    &&& forall|i: int| 0 <= i < s.len() ==> gives(from, to, env, #[trigger] s[i], ts[i])
}

proof fn lemma_each(
    within: Within,
    st: InferV,
    env: EnvV,
    s: Seq<ExprV>,
    i: nat,
    tys: Seq<TyV>,
    n: nat,
)
    requires
        steady(within),
        agrees(within, n),
        i <= s.len(),
        tys.len() == i,
        forall|k: int| i <= k < s.len() ==> expr_size(#[trigger] s[k]) <= n,
        each_run(within, st, env, s, i, tys).res is Ok,
    ensures
        ({
            let r = each_run(within, st, env, s, i, tys);
            let ts = r.res->Ok_0;
            &&& ts.len() == s.len()
            &&& forall|k: int| 0 <= k < i ==> #[trigger] ts[k] == tys[k]
            &&& forall|k: int|
                i <= k < s.len() ==> gives(
                    st.subst.map,
                    r.st.subst.map,
                    env,
                    #[trigger] s[k],
                    ts[k],
                )
        }),
    decreases s.len() - i,
{
    reveal_with_fuel(each_run, 1);
    if i < s.len() {
        let x = s[i as int];
        let r = checked(st, env, x, None);
        assert(within(st, env, x, None) == r);
        law_checking_keeps_what_is_solved(st, env, x, None);
        let ty = r.res->Ok_0;
        let next = s.update(i as int, r.node);
        assert forall|k: int| i + 1 <= k < next.len() implies expr_size(#[trigger] next[k]) <= n by {
            assert(next[k] == s[k]);
        }
        lemma_each(within, r.st, env, next, i + 1, tys.push(ty), n);
        keeps_each_run(within, r.st, env, next, i + 1, tys.push(ty));
        let z = each_run(within, st, env, s, i, tys);
        let ts = z.res->Ok_0;
        assert(ts[i as int] == tys.push(ty)[i as int]);
        lemma_gives(st, None, st.subst.map, z.st.subst.map, env, x, ty);
        assert forall|k: int| i <= k < s.len() implies gives(
            st.subst.map,
            z.st.subst.map,
            env,
            #[trigger] s[k],
            ts[k],
        ) by {
            if k > i {
                assert(next[k] == s[k]);
                lemma_gives_earlier(st.subst.map, r.st.subst.map, z.st.subst.map, env, s[k], ts[k]);
            }
        }
        assert forall|k: int| 0 <= k < i implies #[trigger] ts[k] == tys[k] by {
            assert(ts[k] == tys.push(ty)[k]);
        }
    }
}

/// A tuple that is accepted has the tuple of the types of its items for a type.
pub proof fn law_tuple_is_typed(st: InferV, env: EnvV, e: ExprV)
    requires
        e.kind is Tuple,
        checked(st, env, e, None).res is Ok,
    ensures
        checked(st, env, e, None).res->Ok_0 matches TyV::Tuple(ts) && each_gives(
            st.subst.map,
            checked(st, env, e, None).st.subst.map,
            env,
            e.kind->Tuple_0,
            ts,
        ),
{
    lemma_kind(st, env, e);
    reveal(infer_kind);
    let within = below(expr_size(e));
    let items = e.kind->Tuple_0;
    assert forall|k: int| 0 <= k < items.len() implies expr_size(#[trigger] items[k])
        <= expr_kind_size(e.kind) by {
        lemma_exprs_size(items, k);
    }
    lemma_each(within, st, env, items, 0, Seq::empty(), expr_kind_size(e.kind));
}

// ---------------------------------------------------------------------------
// Arrays
// ---------------------------------------------------------------------------

/// Whether an entry fits an array of such elements: an element has the element's type, and
/// what is spread is such an array.
pub open spec fn entry_fits(from: SubstMap, to: SubstMap, env: EnvV, entry: ArrayEntryV, elt: TyV) -> bool {
    match entry {
        ArrayEntryV::Elem(e) => exists|x: TyV|
            #![trigger gives(from, to, env, e, x)]
            gives(from, to, env, e, x) && made_equal(to, elt, x),
        ArrayEntryV::Spread(e) => exists|x: TyV|
            #![trigger gives(from, to, env, e, x)]
            gives(from, to, env, e, x) && made_equal(
                to,
                x,
                TyV::App(Box::new(TyV::Con("Array"@)), seq![elt]),
            ),
    }
}

proof fn lemma_entry_later(
    from0: SubstMap,
    from: SubstMap,
    to: SubstMap,
    to2: SubstMap,
    env: EnvV,
    entry: ArrayEntryV,
    elt: TyV,
)
    requires
        entry_fits(from, to, env, entry, elt),
        grows(from0, from),
        solvable(to),
        grows(to, to2),
    ensures
        entry_fits(from0, to2, env, entry, elt),
{
    let array = TyV::App(Box::new(TyV::Con("Array"@)), seq![elt]);
    match entry {
        ArrayEntryV::Elem(e) => {
            let x = choose|x: TyV|
                #![trigger gives(from, to, env, e, x)]
                gives(from, to, env, e, x) && made_equal(to, elt, x);
            lemma_gives_later(from, to, to2, env, e, x);
            lemma_gives_earlier(from0, from, to2, env, e, x);
            lemma_equal_later(to, to2, elt, x);
        },
        ArrayEntryV::Spread(e) => {
            let x = choose|x: TyV|
                #![trigger gives(from, to, env, e, x)]
                gives(from, to, env, e, x) && made_equal(to, x, array);
            lemma_gives_later(from, to, to2, env, e, x);
            lemma_gives_earlier(from0, from, to2, env, e, x);
            lemma_equal_later(to, to2, x, array);
        },
    }
}

proof fn lemma_entry(
    within: Within,
    st: InferV,
    env: EnvV,
    entry: ArrayEntryV,
    elt: TyV,
    is_expected: bool,
    n: nat,
)
    requires
        steady(within),
        agrees(within, n),
        solvable(st.subst.map),
        array_entry_size(entry) <= n,
        entry_run(within, st, env, entry, elt, is_expected).res is Ok,
    ensures
        solvable(entry_run(within, st, env, entry, elt, is_expected).st.subst.map),
        entry_fits(
            st.subst.map,
            entry_run(within, st, env, entry, elt, is_expected).st.subst.map,
            env,
            entry,
            elt,
        ),
{
    reveal(entry_run);
    reveal(item_run);
    let e = match entry {
        ArrayEntryV::Elem(x) => x,
        ArrayEntryV::Spread(x) => x,
    };
    let want = match entry {
        ArrayEntryV::Elem(_) => elt,
        ArrayEntryV::Spread(_) => array_of(elt),
    };
    let expected = if is_expected {
        Some(want)
    } else {
        None
    };
    let r = checked(st, env, e, expected);
    assert(within(st, env, e, expected) == r);
    law_checking_keeps_what_is_solved(st, env, e, expected);
    lemma_solvable_later(st.subst.map, r.st.subst.map);
    let x = r.res->Ok_0;
    let m = entry_run(within, st, env, entry, elt, is_expected).st.subst.map;
    match entry {
        ArrayEntryV::Elem(_) => {
            lemma_equated(r.st, elt, x);
        },
        ArrayEntryV::Spread(_) => {
            lemma_equated(r.st, x, array_of(elt));
        },
    }
    lemma_gives(st, expected, st.subst.map, m, env, e, x);
}

proof fn lemma_entries(
    within: Within,
    st: InferV,
    env: EnvV,
    s: Seq<ArrayEntryV>,
    elt: TyV,
    is_expected: bool,
    i: nat,
    n: nat,
)
    requires
        steady(within),
        agrees(within, n),
        solvable(st.subst.map),
        forall|k: int| i <= k < s.len() ==> array_entry_size(#[trigger] s[k]) <= n,
        entries_run(within, st, env, s, elt, is_expected, i).res is Ok,
    ensures
        ({
            let m = entries_run(within, st, env, s, elt, is_expected, i).st.subst.map;
            &&& solvable(m)
            &&& forall|k: int|
                i <= k < s.len() ==> entry_fits(st.subst.map, m, env, #[trigger] s[k], elt)
        }),
    decreases s.len() - i,
{
    reveal_with_fuel(entries_run, 1);
    if i < s.len() {
        let x = s[i as int];
        lemma_entry(within, st, env, x, elt, is_expected, n);
        keeps_entry_run(within, st, env, x, elt, is_expected);
        let r = entry_run(within, st, env, x, elt, is_expected);
        let next = s.update(i as int, r.node);
        assert forall|k: int| i + 1 <= k < next.len() implies array_entry_size(#[trigger] next[k])
            <= n by {
            assert(next[k] == s[k]);
        }
        lemma_entries(within, r.st, env, next, elt, is_expected, i + 1, n);
        keeps_entries_run(within, r.st, env, next, elt, is_expected, i + 1);
        let m = entries_run(within, st, env, s, elt, is_expected, i).st.subst.map;
        lemma_entry_later(st.subst.map, st.subst.map, r.st.subst.map, m, env, x, elt);
        assert forall|k: int| i <= k < s.len() implies entry_fits(
            st.subst.map,
            m,
            env,
            #[trigger] s[k],
            elt,
        ) by {
            if k > i {
                assert(next[k] == s[k]);
                lemma_entry_later(st.subst.map, r.st.subst.map, m, m, env, s[k], elt);
            }
        }
    }
}

/// An array that is accepted has elements of one type, and is an array of that type.
pub proof fn law_array_is_typed(st: InferV, env: EnvV, e: ExprV)
    requires
        solvable(st.subst.map),
        e.kind is Array,
        checked(st, env, e, None).res is Ok,
    ensures
        ({
            let m = checked(st, env, e, None).st.subst.map;
            let entries = e.kind->Array_0;
            exists|elt: TyV|
                #![trigger array_of(elt)]
                same(
                    m,
                    checked(st, env, e, None).res->Ok_0,
                    TyV::App(Box::new(TyV::Con("Array"@)), seq![elt]),
                ) && forall|k: int|
                    0 <= k < entries.len() ==> entry_fits(
                        st.subst.map,
                        m,
                        env,
                        #[trigger] entries[k],
                        elt,
                    )
        }),
{
    lemma_kind(st, env, e);
    reveal(infer_kind);
    reveal(array_run);
    reveal(resolved);
    let within = below(expr_size(e));
    let entries = e.kind->Array_0;
    let n = expr_kind_size(e.kind);
    assert forall|k: int| 0 <= k < entries.len() implies array_entry_size(#[trigger] entries[k])
        <= n by {
        crate::ast_size::lemma_array_entries_size(entries, k);
    }
    let elt = TyV::Var(next_var(st));
    let st1 = fresh(st);
    lemma_entries(within, st1, env, entries, elt, false, 0, n);
    let m = entries_run(within, st1, env, entries, elt, false, 0).st.subst.map;
    lemma_extend_absorbs(m, m, array_of(elt));
}

// ---------------------------------------------------------------------------
// Records
// ---------------------------------------------------------------------------

/// The field of a record that is accepted belongs to it: what it is the field of is a record
/// with that field, of that type.
pub proof fn law_field_belongs(st: InferV, env: EnvV, e: ExprV)
    requires
        solvable(st.subst.map),
        e.kind is FieldAccess,
        crate::places::imported_scheme(
            st,
            *e.kind->FieldAccess_expr,
            e.kind->FieldAccess_field,
        ) is None,
        checked(st, env, e, None).res is Ok,
    ensures
        ({
            let m = checked(st, env, e, None).st.subst.map;
            let base = checked(st, env, *e.kind->FieldAccess_expr, None);
            &&& base.res is Ok
            &&& exists|tail: TyV| #[trigger]
                made_equal(
                    m,
                    base.res->Ok_0,
                    TyV::Record(
                        crate::ty::RowV {
                            fields: seq![
                                (e.kind->FieldAccess_field, checked(st, env, e, None).res->Ok_0),
                            ],
                            tail: Box::new(tail),
                        },
                    ),
                )
        }),
{
    lemma_kind(st, env, e);
    reveal(infer_kind);
    reveal(field_run);
    let within = below(expr_size(e));
    let base = *e.kind->FieldAccess_expr;
    let field = e.kind->FieldAccess_field;
    let r = checked(st, env, base, None);
    assert(within(st, env, base, None) == r);
    law_checking_keeps_what_is_solved(st, env, base, None);
    lemma_solvable_later(st.subst.map, r.st.subst.map);
    let field_ty = TyV::Var(next_var(r.st));
    let st1 = fresh(r.st);
    let tail = TyV::Var(next_var(st1));
    let st2 = fresh(st1);
    lemma_equated(st2, r.res->Ok_0, one_field(field, field_ty, tail));
    assert(made_equal(
        checked(st, env, e, None).st.subst.map,
        r.res->Ok_0,
        one_field(field, field_ty, tail),
    ));
}

/// Whether a record type has a field of this name and type.
pub open spec fn has_typed_field(t: TyV, name: Seq<char>, x: TyV) -> bool {
    t matches TyV::Record(row) && row.fields.contains((name, x))
}

proof fn lemma_fields(
    within: Within,
    st: InferV,
    env: EnvV,
    s: Seq<RecordEntryV>,
    i: nat,
    fields: Seq<crate::rows::FieldV>,
    tail: TyV,
    n: nat,
)
    requires
        steady(within),
        agrees(within, n),
        forall|k: int|
            i <= k < s.len() ==> (#[trigger] s[k]) is Field && record_entry_size(s[k]) <= n,
        forall|a: int, b: int|
            0 <= a < b < fields.len() ==> (#[trigger] fields[a]).0 != (#[trigger] fields[b]).0,
        fields_run(within, st, env, s, i, fields, tail).res is Ok,
        i <= s.len(),
    ensures
        ({
            let r = fields_run(within, st, env, s, i, fields, tail);
            let fs = r.res->Ok_0.0;
            &&& r.res->Ok_0.1 == tail
            &&& fs.len() == fields.len() + s.len() - i
            &&& forall|a: int, b: int|
                0 <= a < b < fs.len() ==> (#[trigger] fs[a]).0 != (#[trigger] fs[b]).0
            &&& forall|k: int| 0 <= k < fields.len() ==> #[trigger] fs[k] == fields[k]
            &&& forall|k: int|
                i <= k < s.len() ==> fs[fields.len() + k - i].0 == (#[trigger] s[k])->Field_0
                    && gives(
                    st.subst.map,
                    r.st.subst.map,
                    env,
                    s[k]->Field_1,
                    fs[fields.len() + k - i].1,
                )
        }),
    decreases s.len() - i,
{
    reveal_with_fuel(fields_run, 1);
    reveal(field_entry_run);
    reveal(field_value_run);
    if i < s.len() {
        let x = s[i as int];
        let name = x->Field_0;
        let e = x->Field_1;
        let r = checked(st, env, e, None);
        assert(within(st, env, e, None) == r);
        law_checking_keeps_what_is_solved(st, env, e, None);
        let ty = r.res->Ok_0;
        let more = fields.push((name, ty));
        let one = field_entry_run(within, st, env, x, fields, tail);
        let next = s.update(i as int, one.node);
        assert forall|k: int| i + 1 <= k < next.len() implies (#[trigger] next[k]) is Field
            && record_entry_size(next[k]) <= n by {
            assert(next[k] == s[k]);
        }
        assert forall|a: int, b: int| 0 <= a < b < more.len() implies (#[trigger] more[a]).0 != (
        #[trigger] more[b]).0 by {
            if b == fields.len() {
                assert(fields[a].0 != name);
            } else {
                assert(fields[a].0 != fields[b].0);
            }
        }
        lemma_fields(within, r.st, env, next, i + 1, more, tail, n);
        crate::keeps_checker::keeps_fields_run(within, r.st, env, next, i + 1, more, tail);
        let z = fields_run(within, st, env, s, i, fields, tail);
        let fs = z.res->Ok_0.0;
        lemma_gives(st, None, st.subst.map, z.st.subst.map, env, e, ty);
        assert(fs[fields.len() as int] == more[fields.len() as int]);
        assert forall|k: int| i <= k < s.len() implies fs[fields.len() + k - i].0 == (
        #[trigger] s[k])->Field_0 && gives(
            st.subst.map,
            z.st.subst.map,
            env,
            s[k]->Field_1,
            fs[fields.len() + k - i].1,
        ) by {
            if k > i {
                assert(next[k] == s[k]);
                lemma_gives_earlier(
                    st.subst.map,
                    r.st.subst.map,
                    z.st.subst.map,
                    env,
                    s[k]->Field_1,
                    fs[more.len() + k - (i + 1)].1,
                );
            }
        }
        assert forall|k: int| 0 <= k < fields.len() implies #[trigger] fs[k] == fields[k] by {
            assert(fs[k] == more[k]);
        }
    }
}

/// A record of fields that is accepted repeats no name, and its type has exactly these
/// fields, each of the type of its value.
pub proof fn law_record_is_typed(st: InferV, env: EnvV, e: ExprV)
    requires
        e.kind is Record,
        forall|k: int| 0 <= k < e.kind->Record_0.len() ==> (#[trigger] e.kind->Record_0[k]) is Field,
        checked(st, env, e, None).res is Ok,
    ensures
        ({
            let m = checked(st, env, e, None).st.subst.map;
            let t = checked(st, env, e, None).res->Ok_0;
            let entries = e.kind->Record_0;
            &&& t matches TyV::Record(row) && *row.tail == TyV::Unit && row.fields.len()
                == entries.len()
            &&& forall|a: int, b: int|
                0 <= a < b < entries.len() ==> (#[trigger] entries[a])->Field_0 != (
                #[trigger] entries[b])->Field_0
            &&& forall|k: int|
                0 <= k < entries.len() ==> exists|x: TyV|
                    #![trigger gives(st.subst.map, m, env, entries[k]->Field_1, x)]
                    gives(st.subst.map, m, env, (#[trigger] entries[k])->Field_1, x)
                        && has_typed_field(t, entries[k]->Field_0, x)
        }),
{
    lemma_kind(st, env, e);
    reveal(infer_kind);
    reveal(record_run);
    let within = below(expr_size(e));
    let entries = e.kind->Record_0;
    let n = expr_kind_size(e.kind);
    assert forall|k: int| 0 <= k < entries.len() implies (#[trigger] entries[k]) is Field
        && record_entry_size(entries[k]) <= n by {
        crate::ast_size::lemma_record_entries_size(entries, k);
    }
    lemma_fields(within, st, env, entries, 0, Seq::empty(), TyV::Unit, n);
    let r = fields_run(within, st, env, entries, 0, Seq::empty(), TyV::Unit);
    let fs = r.res->Ok_0.0;
    let sorted = crate::rows::sort_fields(fs);
    let m = checked(st, env, e, None).st.subst.map;
    let t = checked(st, env, e, None).res->Ok_0;
    crate::rows::lemma_sort_fields_multiset(fs);
    fs.to_multiset_ensures();
    sorted.to_multiset_ensures();
    assert(sorted.len() == fs.len());
    assert forall|a: int, b: int| 0 <= a < b < entries.len() implies (#[trigger] entries[a])->Field_0
        != (#[trigger] entries[b])->Field_0 by {
        assert(fs[a].0 != fs[b].0);
    }
    assert forall|k: int| 0 <= k < entries.len() implies exists|x: TyV|
        #![trigger gives(st.subst.map, m, env, entries[k]->Field_1, x)]
        gives(st.subst.map, m, env, (#[trigger] entries[k])->Field_1, x) && has_typed_field(
            t,
            entries[k]->Field_0,
            x,
        ) by {
        let f = fs[k];
        assert(fs.contains(f));
        crate::rows::lemma_sort_fields_contains(fs, f);
        assert(f == (entries[k]->Field_0, f.1));
        assert(gives(st.subst.map, m, env, entries[k]->Field_1, f.1));
    }
}

// ---------------------------------------------------------------------------
// Ranges, loops and blocks
// ---------------------------------------------------------------------------

/// The bounds of a range that is accepted are whole numbers.
pub proof fn law_range_is_of_numbers(st: InferV, env: EnvV, e: ExprV)
    requires
        solvable(st.subst.map),
        e.kind is Range,
        checked(st, env, e, None).res is Ok,
    ensures
        ({
            let m = checked(st, env, e, None).st.subst.map;
            &&& e.kind->Range_start matches Some(x) ==> exists|t: TyV|
                #![trigger gives(st.subst.map, m, env, *x, t)]
                gives(st.subst.map, m, env, *x, t) && made_equal(m, t, TyV::Int)
            &&& e.kind->Range_end matches Some(x) ==> exists|t: TyV|
                #![trigger gives(st.subst.map, m, env, *x, t)]
                gives(st.subst.map, m, env, *x, t) && made_equal(m, t, TyV::Int)
        }),
{
    lemma_kind(st, env, e);
    reveal(infer_kind);
    reveal(range_run);
    reveal(bound_run);
    let within = below(expr_size(e));
    let start = e.kind->Range_start;
    let end = e.kind->Range_end;
    let m = checked(st, env, e, None).st.subst.map;
    let a = bound_run(within, st, env, start, crate::error::ContextV::RangeStart);
    keeps_bound_run(within, st, env, start, crate::error::ContextV::RangeStart);
    let b = bound_run(within, a.st, env, end, crate::error::ContextV::RangeEnd);
    keeps_bound_run(within, a.st, env, end, crate::error::ContextV::RangeEnd);
    lemma_solvable_later(st.subst.map, a.st.subst.map);
    if let Some(x) = start {
        let r = checked(st, env, *x, None);
        assert(within(st, env, *x, None) == r);
        law_checking_keeps_what_is_solved(st, env, *x, None);
        lemma_solvable_later(st.subst.map, r.st.subst.map);
        lemma_equated(r.st, r.res->Ok_0, TyV::Int);
        lemma_equal_later(a.st.subst.map, m, r.res->Ok_0, TyV::Int);
        lemma_gives(st, None, st.subst.map, m, env, *x, r.res->Ok_0);
    }
    if let Some(x) = end {
        let r = checked(a.st, env, *x, None);
        assert(within(a.st, env, *x, None) == r);
        law_checking_keeps_what_is_solved(a.st, env, *x, None);
        lemma_solvable_later(a.st.subst.map, r.st.subst.map);
        lemma_equated(r.st, r.res->Ok_0, TyV::Int);
        lemma_gives(a.st, None, st.subst.map, m, env, *x, r.res->Ok_0);
    }
}

/// The value of a loop that is accepted is what its breaks leave it with: its body was
/// checked inside a loop of that type.
pub proof fn law_loop_has_the_type_of_its_breaks(st: InferV, env: EnvV, e: ExprV)
    requires
        e.kind is Loop,
        checked(st, env, e, None).res is Ok,
    ensures
        exists|inside: InferV|
            #![trigger checked(inside, env, *e.kind->Loop_0, None)]
            checked(inside, env, *e.kind->Loop_0, None).res is Ok && inside.break_tys
                == st.break_tys.push(checked(st, env, e, None).res->Ok_0) && inside.return_tys
                == st.return_tys && inside.subst.map == st.subst.map,
{
    lemma_kind(st, env, e);
    reveal(infer_kind);
    reveal(loop_run);
    let within = below(expr_size(e));
    let body = *e.kind->Loop_0;
    let ty = TyV::Var(next_var(st));
    let inside = in_loop(fresh(st), ty);
    assert(within(inside, env, body, None) == checked(inside, env, body, None));
}

/// A block that is accepted, and that is left through its end, has the type of its last
/// expression, checked after the statements before it, or unit if there is none.
pub proof fn law_block_has_the_type_of_its_end(st: InferV, env: EnvV, e: ExprV)
    requires
        e.kind is Block,
        checked(st, env, e, None).res is Ok,
    ensures
        ({
            let within = below(expr_size(e));
            let done = checked(st, env, e, None);
            let before = stmts_run(within, st, env, e.kind->Block_stmts, 0);
            &&& before.res is Ok
            &&& before.res == Ok::<bool, SpannedV>(false) ==> match e.kind->Block_final_expr {
                Some(x) => checked(before.st, before.node.0, *x, None).res == done.res,
                None => done.res == Ok::<TyV, SpannedV>(TyV::Unit),
            }
        }),
{
    lemma_kind(st, env, e);
    reveal(infer_kind);
    reveal(block_run);
    reveal(final_run);
    let within = below(expr_size(e));
    let before = stmts_run(within, st, env, e.kind->Block_stmts, 0);
    if let Some(x) = e.kind->Block_final_expr {
        assert(within(before.st, before.node.0, *x, None) == checked(
            before.st,
            before.node.0,
            *x,
            None,
        ));
    }
}

// ---------------------------------------------------------------------------
// Calls
// ---------------------------------------------------------------------------

/// Whether checking the arguments gave these types, without the constraints on them.
pub open spec fn args_typed(
    from: SubstMap,
    to: SubstMap,
    env: EnvV,
    args: Seq<ExprV>,
    tys: Seq<TyV>,
) -> bool {
    &&& tys.len() == args.len()
    &&& forall|i: int| 0 <= i < args.len() ==> arg_typed(from, to, env, #[trigger] args[i], tys[i])
}

/// Whether checking an argument gave this type, without the constraints on it.
pub open spec fn arg_typed(from: SubstMap, to: SubstMap, env: EnvV, arg: ExprV, ty: TyV) -> bool {
    exists|x: TyV|
        #![trigger gives(from, to, env, arg, x)]
        gives(from, to, env, arg, x) && same(to, ty, without_constraints(x))
}

/// Whether something of this type can be given arguments of these types and then gives one
/// of the type `ret`.
pub open spec fn takes(m: SubstMap, callable: TyV, tys: Seq<TyV>, ret: TyV) -> bool {
    exists|ps: Seq<ParamV>, r: ReturnV|
        #![trigger made_equal(m, callable, TyV::Func(ps, r))]
        ps.len() == tys.len() && (forall|i: int|
            0 <= i < tys.len() ==> (#[trigger] ps[i]).ty == tys[i]) && made_equal(
            m,
            callable,
            TyV::Func(ps, r),
        ) && same(m, ret, *r.ty)
}

proof fn lemma_arg_typed_later(
    from0: SubstMap,
    from: SubstMap,
    to: SubstMap,
    to2: SubstMap,
    env: EnvV,
    arg: ExprV,
    ty: TyV,
)
    requires
        arg_typed(from, to, env, arg, ty),
        grows(from0, from),
        solvable(to),
        grows(to, to2),
    ensures
        arg_typed(from0, to2, env, arg, ty),
{
    let x = choose|x: TyV|
        #![trigger gives(from, to, env, arg, x)]
        gives(from, to, env, arg, x) && same(to, ty, without_constraints(x));
    lemma_gives_later(from, to, to2, env, arg, x);
    lemma_gives_earlier(from0, from, to2, env, arg, x);
    lemma_same_later(to, to2, ty, without_constraints(x));
}

proof fn lemma_arg(
    within: Within,
    st: InferV,
    env: EnvV,
    e: ExprV,
    expected: Option<TyV>,
)
    requires
        agrees(within, expr_size(e)),
        solvable(st.subst.map),
        arg_run(within, st, env, e, expected).res is Ok,
    ensures
        solvable(arg_run(within, st, env, e, expected).st.subst.map),
        grows(st.subst.map, arg_run(within, st, env, e, expected).st.subst.map),
        arg_typed(
            st.subst.map,
            arg_run(within, st, env, e, expected).st.subst.map,
            env,
            e,
            arg_run(within, st, env, e, expected).res->Ok_0.ty,
        ),
{
    reveal(arg_run);
    reveal(arg_after);
    reveal(arg_end);
    reveal(resolved);
    let want = crate::call_parts::arg_expects(e, expected);
    let r = checked(st, env, e, want);
    assert(within(st, env, e, want) == r);
    law_checking_keeps_what_is_solved(st, env, e, want);
    lemma_solvable_later(st.subst.map, r.st.subst.map);
    let x = r.res->Ok_0;
    keeps_arg_end(r.st, env, r.node, x);
    let m = arg_end(r.st, env, r.node, x).0.subst.map;
    lemma_solvable_later(r.st.subst.map, m);
    lemma_gives(st, want, st.subst.map, m, env, e, x);
    let inner = apply(r.st.subst.map, without_constraints(x));
    reveal(grows);
    lemma_extend_absorbs(r.st.subst.map, m, without_constraints(x));
    assert(same(m, inner, without_constraints(x)));
}

proof fn lemma_args(
    within: Within,
    st: InferV,
    env: EnvV,
    args: Seq<ExprV>,
    wrappers: Seq<Option<ArgWrapperV>>,
    params: Seq<ParamV>,
    offset: nat,
    i: nat,
    tys: Seq<TyV>,
    n: nat,
)
    requires
        steady(within),
        agrees(within, n),
        solvable(st.subst.map),
        i <= args.len(),
        tys.len() == i,
        forall|k: int| i <= k < args.len() ==> expr_size(#[trigger] args[k]) <= n,
        args_run(within, st, env, args, wrappers, params, offset, i, tys).res is Ok,
    ensures
        ({
            let r = args_run(within, st, env, args, wrappers, params, offset, i, tys);
            let ts = r.res->Ok_0;
            &&& solvable(r.st.subst.map)
            &&& ts.len() == args.len()
            &&& forall|k: int| 0 <= k < i ==> #[trigger] ts[k] == tys[k]
            &&& forall|k: int|
                i <= k < args.len() ==> arg_typed(
                    st.subst.map,
                    r.st.subst.map,
                    env,
                    #[trigger] args[k],
                    ts[k],
                )
        }),
    decreases args.len() - i,
{
    reveal_with_fuel(args_run, 1);
    if i < args.len() {
        let x = args[i as int];
        let want = crate::call_parts::param_at(params, (offset + i) as int);
        let r = arg_run(within, st, env, x, want);
        lemma_arg(within, st, env, x, want);
        let found = r.res->Ok_0;
        let next = args.update(i as int, r.node);
        assert forall|k: int| i + 1 <= k < next.len() implies expr_size(#[trigger] next[k]) <= n by {
            assert(next[k] == args[k]);
        }
        let more = tys.push(found.ty);
        let ws = wrappers.push(found.wrapper);
        lemma_args(within, r.st, env, next, ws, params, offset, i + 1, more, n);
        keeps_args_run(within, r.st, env, next, ws, params, offset, i + 1, more);
        let z = args_run(within, st, env, args, wrappers, params, offset, i, tys);
        let ts = z.res->Ok_0;
        assert(ts[i as int] == more[i as int]);
        lemma_arg_typed_later(
            st.subst.map,
            st.subst.map,
            r.st.subst.map,
            z.st.subst.map,
            env,
            x,
            found.ty,
        );
        assert forall|k: int| i <= k < args.len() implies arg_typed(
            st.subst.map,
            z.st.subst.map,
            env,
            #[trigger] args[k],
            ts[k],
        ) by {
            if k > i {
                assert(next[k] == args[k]);
                lemma_arg_typed_later(
                    st.subst.map,
                    r.st.subst.map,
                    z.st.subst.map,
                    z.st.subst.map,
                    env,
                    args[k],
                    ts[k],
                );
            }
        }
        assert forall|k: int| 0 <= k < i implies #[trigger] ts[k] == tys[k] by {
            assert(ts[k] == more[k]);
        }
    }
}

/// Whether a use is given what it was given before, and behind that a dictionary, or one to
/// come, for each of `n` constraints.
pub open spec fn all_given(
    dicts: Seq<DictRefV>,
    pending: Seq<PendingDictArgV>,
    dicts2: Seq<DictRefV>,
    pending2: Seq<PendingDictArgV>,
    n: nat,
) -> bool {
    dicts.is_prefix_of(dicts2) && pending.is_prefix_of(pending2) && dicts2.len() + pending2.len()
        == dicts.len() + pending.len() + n
}

/// What is called with arguments, and accepted, takes as many of those types, and the call
/// has the type that it gives. It is given a dictionary, or one to come, for each
/// constraint.
pub proof fn law_call_finishes(
    st: InferV,
    env: EnvV,
    args: Seq<ExprV>,
    tys: Seq<TyV>,
    callable: TyV,
    constraints: Seq<ConstraintV>,
    caps: Seq<ParamCapability>,
    span: Option<crate::ast::SourceSpan>,
    dict_span: Option<crate::ast::SourceSpan>,
    dicts: Seq<DictRefV>,
    pending: Seq<PendingDictArgV>,
)
    requires
        solvable(st.subst.map),
        finish_call(
            st,
            env,
            args,
            tys,
            callable,
            constraints,
            caps,
            span,
            dict_span,
            dicts,
            pending,
        ).res is Ok,
    ensures
        ({
            let f = finish_call(
                st,
                env,
                args,
                tys,
                callable,
                constraints,
                caps,
                span,
                dict_span,
                dicts,
                pending,
            );
            &&& grows(st.subst.map, f.st.subst.map)
            &&& solvable(f.st.subst.map)
            &&& takes(f.st.subst.map, callable, tys, f.res->Ok_0.ret)
            &&& callable matches TyV::Func(ps, _) ==> ps.len() == tys.len()
            &&& all_given(dicts, pending, f.dicts, f.pending, constraints.len())
        }),
{
    reveal(finish_call);
    reveal(resolved);
    let f = finish_call(
        st,
        env,
        args,
        tys,
        callable,
        constraints,
        caps,
        span,
        dict_span,
        dicts,
        pending,
    );
    let ret = TyV::Var(next_var(st));
    let ps = call_params(callable, tys);
    let r = call_return(callable, ret);
    let u = equate(fresh(st), callable, call_type(callable, tys, ret));
    lemma_equated(fresh(st), callable, call_type(callable, tys, ret));
    keeps_give_dicts(u.0, env, dicts, pending, constraints);
    assert(all_given(dicts, pending, f.dicts, f.pending, constraints.len())) by {
        reveal(give_dicts);
        let a = AttachV {
            subst: u.0.subst,
            dicts,
            pending,
            constraints: u.0.pending,
            err: None,
        };
        law_each_constraint_is_given(a, known_of(u.0, env), constraints, 0);
    }
    let m = f.st.subst.map;
    lemma_solvable_later(u.0.subst.map, m);
    lemma_equal_later(u.0.subst.map, m, callable, TyV::Func(ps, r));
    reveal(grows);
    lemma_extend_absorbs(m, m, ret);
    assert forall|i: int| 0 <= i < tys.len() implies (#[trigger] ps[i]).ty == tys[i] by {}
    assert(same(m, f.res->Ok_0.ret, *r.ty));
    assert(made_equal(m, callable, TyV::Func(ps, r)));
}

/// A plain call that is accepted calls something that takes as many arguments as it is
/// given, of their types, and has the type that this gives. (A plain call is one of a name
/// without constraints, or of an expression that is no member of anything.)
pub proof fn law_plain_call_is_typed(st: InferV, env: EnvV, e: ExprV)
    requires
        solvable(st.subst.map),
        e.kind is Call,
        form_of(env, *e.kind->Call_callee) is Plain,
        checked(st, env, e, None).res is Ok,
    ensures
        ({
            let m = checked(st, env, e, None).st.subst.map;
            let callee = checked(st, env, *e.kind->Call_callee, None);
            &&& callee.res is Ok
            &&& exists|tys: Seq<TyV>|
                #![trigger args_typed(st.subst.map, m, env, e.kind->Call_args, tys)]
                args_typed(st.subst.map, m, env, e.kind->Call_args, tys) && takes(
                    m,
                    without_constraints(apply(callee.st.subst.map, callee.res->Ok_0)),
                    tys,
                    checked(st, env, e, None).res->Ok_0,
                )
        }),
{
    lemma_kind(st, env, e);
    reveal(infer_kind);
    reveal(call_run);
    reveal(plain_call_run);
    reveal(apply_run);
    reveal(checked_args);
    reveal(all_args);
    reveal(args_after);
    reveal(resolved);
    let within = below(expr_size(e));
    let callee = *e.kind->Call_callee;
    let args = e.kind->Call_args;
    let m = checked(st, env, e, None).st.subst.map;
    let r = checked(st, env, callee, None);
    assert(within(st, env, callee, None) == r);
    law_checking_keeps_what_is_solved(st, env, callee, None);
    lemma_solvable_later(st.subst.map, r.st.subst.map);
    let whole = apply(r.st.subst.map, r.res->Ok_0);
    let callable = without_constraints(whole);
    let params = params_of(callable);
    let n = expr_kind_size(e.kind);
    assert forall|k: int| 0 <= k < args.len() implies expr_size(#[trigger] args[k]) <= n by {
        lemma_exprs_size(args, k);
    }
    let a = args_run(within, r.st, env, args, Seq::empty(), params, 0, 0, Seq::empty());
    lemma_args(within, r.st, env, args, Seq::empty(), params, 0, 0, Seq::empty(), n);
    let tys = a.res->Ok_0;
    let span = if a.node.0.len() > 0 {
        Some(a.node.0[0].span)
    } else {
        None
    };
    let caps = crate::call_parts::known_caps(r.st, callable, r.node.id);
    assert(Seq::<TyV>::empty() + tys =~= tys);
    law_call_finishes(
        a.st,
        env,
        a.node.0,
        tys,
        callable,
        constraints_on(whole),
        caps,
        span,
        Some(e.span),
        e.kind->Call_dict_args,
        e.kind->Call_pending_dict_args,
    );
    let f = finish_call(
        a.st,
        env,
        a.node.0,
        tys,
        callable,
        constraints_on(whole),
        caps,
        span,
        Some(e.span),
        e.kind->Call_dict_args,
        e.kind->Call_pending_dict_args,
    );
    assert(m == f.st.subst.map);
    assert forall|i: int| 0 <= i < args.len() implies arg_typed(
        st.subst.map,
        m,
        env,
        #[trigger] args[i],
        tys[i],
    ) by {
        lemma_arg_typed_later(
            st.subst.map,
            r.st.subst.map,
            a.st.subst.map,
            m,
            env,
            args[i],
            tys[i],
        );
    }
    assert(args_typed(st.subst.map, m, env, args, tys));
}

} // verus!
