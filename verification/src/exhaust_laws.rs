//! What an accepted match promises: some arm matches, whatever the value.

use vstd::prelude::*;

use crate::ast_view::{NumberLiteralV, PatternV};
use crate::env::VariantsV;
use crate::exhaust::{any_shape, array_verdict, constructor_shapes, depth_left, element_of};
use crate::exhaust::{first_uncovered, head_shapes, is_array, length_rows, length_verdict};
use crate::exhaust::{length_witnesses, lengths_verdict, list_shape, lists, match_verdict};
use crate::exhaust::{max_open, nominal_name, nominal_witnesses, payload_of, row_times};
use crate::exhaust::{rows_times, some_arm_covers, tuple_rows, tuples, type_args, variant_rows};
use crate::exhaust::{variants_named, witnesses, RowsV, WitnessesV, MAX_WITNESS_DEPTH};
use crate::patterns::{all_catch_all, catch_all, covers, covers_each};
use crate::ty::TyV;

verus! {

// ---------------------------------------------------------------------------
// Values
// ---------------------------------------------------------------------------

/// A value, as far as patterns can look into it.
pub enum ValueV {
    Text(Seq<char>),
    Number(NumberLiteralV),
    Bool(bool),
    Variant { name: Seq<char>, payload: Option<Box<ValueV>> },
    Tuple(Seq<ValueV>),
    List(Seq<ValueV>),
    /// A value into which no pattern looks: a function, a record, unit.
    Other(int),
}

/// Whether a value is one of the type. Of a type of which nothing is known it may be any.
pub open spec fn inhabits(v: ValueV, ty: TyV, variants: VariantsV) -> bool
    decreases v, ty,
{
    match ty {
        TyV::Tuple(items) => match v {
            ValueV::Tuple(vs) => vs.len() == items.len() && forall|i: int|
                0 <= i < vs.len() ==> inhabits(#[trigger] vs[i], items[i], variants),
            _ => false,
        },
        TyV::Int => v matches ValueV::Number(n) && n is Int,
        TyV::Float => v matches ValueV::Number(n) && n is Float,
        TyV::Never => false,
        TyV::Qualified(_, inner) => inhabits(v, *inner, variants),
        _ => if is_array(ty) || ty == TyV::Con("Array"@) {
            match v {
                ValueV::List(vs) => type_args(ty).len() > 0 ==> forall|i: int|
                    0 <= i < vs.len() ==> inhabits(#[trigger] vs[i], type_args(ty)[0], variants),
                _ => false,
            }
        } else if ty == TyV::Con("bool"@) {
            v is Bool
        } else {
            match nominal_name(ty) {
                None => true,
                Some(owner) => variants_named(variants, owner).len() == 0 || match v {
                    ValueV::Variant { name, payload } => variants_named(variants, owner).contains(
                        name,
                    ) && match (payload_of(ty, variants[name]), payload) {
                        (None, None) => true,
                        (Some(inner), Some(x)) => inhabits(*x, inner, variants),
                        _ => false,
                    },
                    _ => false,
                },
            }
        },
    }
}

/// Whether a pattern is certain to match a value. Of a quoted form that is not known.
pub open spec fn pattern_matches(p: PatternV, v: ValueV) -> bool
    decreases p,
{
    match p {
        PatternV::Wildcard => true,
        PatternV::Variable(_, _) => true,
        PatternV::Record { .. } => true,
        PatternV::StringLit(s) => v == ValueV::Text(s),
        PatternV::NumberLit(n) => v == ValueV::Number(n),
        PatternV::BoolLit(b) => v == ValueV::Bool(b),
        PatternV::SyntaxQuote(_) => false,
        PatternV::IntRange { start, end, inclusive } => match v {
            ValueV::Number(NumberLiteralV::Int(n)) => start <= n && (if inclusive {
                n <= end
            } else {
                n < end
            }),
            _ => false,
        },
        PatternV::Constructor { name, binding } => match v {
            ValueV::Variant { name: other, payload } => name == other && match binding {
                None => true,
                Some(b) => match payload {
                    Some(x) => pattern_matches(*b, *x),
                    None => pattern_matches(*b, ValueV::Other(0)),
                },
            },
            _ => false,
        },
        PatternV::Tuple(items) => match v {
            ValueV::Tuple(vs) => items.len() == vs.len() && each_matches(items, vs),
            _ => false,
        },
        PatternV::List { elements, rest } => match v {
            ValueV::List(vs) => (if rest is None {
                elements.len() == vs.len()
            } else {
                elements.len() <= vs.len()
            }) && each_matches(elements, vs),
            _ => false,
        },
    }
}

/// Whether each of `s` matches its neighbour in `vs`, as far as both go.
pub open spec fn each_matches(s: Seq<PatternV>, vs: Seq<ValueV>) -> bool
    decreases s,
{
    forall|i: int| 0 <= i < s.len() && i < vs.len() ==> pattern_matches(#[trigger] s[i], vs[i])
}

/// Whether one of the patterns matches a value.
pub open spec fn some_matches(ps: Seq<PatternV>, v: ValueV) -> bool {
    exists|i: int| 0 <= i < ps.len() && pattern_matches(#[trigger] ps[i], v)
}

/// Whether a pattern has the form that values of the type have: a tuple for a tuple of as
/// many, a list for an array.
pub open spec fn fits(p: PatternV, ty: TyV) -> bool
    decreases ty,
{
    match ty {
        TyV::Qualified(_, inner) => fits(p, *inner),
        TyV::Tuple(items) => match p {
            PatternV::Tuple(ps) => ps.len() == items.len() && forall|i: int|
                0 <= i < items.len() ==> fits(ps[i], #[trigger] items[i]),
            PatternV::List { .. } => false,
            _ => true,
        },
        _ => match p {
            PatternV::Tuple(_) => false,
            PatternV::List { .. } => is_array(ty) || ty == TyV::Con("Array"@),
            _ => true,
        },
    }
}

// ---------------------------------------------------------------------------
// Shapes and values
// ---------------------------------------------------------------------------

/// What covers a shape matches every value of that shape.
pub proof fn law_covering_matches(p: PatternV, w: PatternV, v: ValueV)
    requires
        covers(p, w),
        pattern_matches(w, v),
    ensures
        pattern_matches(p, v),
    decreases p,
{
    match p {
        PatternV::Constructor { name, binding } => {
            let w_binding = w->Constructor_binding;
            let payload = v->Variant_payload;
            if let Some(b) = binding {
                let x = match payload {
                    Some(x) => *x,
                    None => ValueV::Other(0),
                };
                match w_binding {
                    Some(c) => law_covering_matches(*b, *c, x),
                    None => law_covering_matches(*b, PatternV::Wildcard, x),
                }
            }
        },
        PatternV::Tuple(items) => {
            lemma_each_covering(items, w->Tuple_0, v->Tuple_0);
        },
        PatternV::List { elements, rest } => {
            lemma_each_covering(elements, w->List_elements, v->List_0);
        },
        _ => {},
    }
}

proof fn lemma_each_covering(s: Seq<PatternV>, ws: Seq<PatternV>, vs: Seq<ValueV>)
    requires
        covers_each(s, ws),
        each_matches(ws, vs),
        s.len() <= ws.len() <= vs.len(),
    ensures
        each_matches(s, vs),
    decreases s,
{
    assert forall|i: int| 0 <= i < s.len() && i < vs.len() implies pattern_matches(
        #[trigger] s[i],
        vs[i],
    ) by {
        assert(covers(s[i], ws[i]));
        assert(pattern_matches(ws[i], vs[i]));
        law_covering_matches(s[i], ws[i], vs[i]);
    }
}

spec fn row_matches(row: Seq<PatternV>, vs: Seq<ValueV>) -> bool {
    row.len() == vs.len() && forall|k: int|
        0 <= k < row.len() ==> pattern_matches(#[trigger] row[k], vs[k])
}

spec fn some_row(rows: Seq<Seq<PatternV>>, vs: Seq<ValueV>) -> bool {
    exists|j: int| 0 <= j < rows.len() && row_matches(#[trigger] rows[j], vs)
}

proof fn lemma_times(rows: Seq<Seq<PatternV>>, ws: Seq<PatternV>, r: int, j: int)
    requires
        0 <= r < rows.len(),
        0 <= j < ws.len(),
    ensures
        rows_times(rows, ws).contains(rows[r].push(ws[j])),
    decreases rows.len(),
{
    let init = rows_times(rows.drop_last(), ws);
    let end = row_times(rows.last(), ws);
    let row = rows[r].push(ws[j]);
    if r < rows.len() - 1 {
        assert(rows.drop_last()[r] == rows[r]);
        lemma_times(rows.drop_last(), ws, r, j);
        let k = choose|k: int| 0 <= k < init.len() && init[k] == row;
        assert((init + end)[k] == row);
    } else {
        assert(end[j] == row);
        assert((init + end)[init.len() + j] == row);
    }
}

proof fn lemma_row_extended(rows: Seq<Seq<PatternV>>, ws: Seq<PatternV>, vs: Seq<ValueV>)
    requires
        vs.len() > 0,
        some_row(rows, vs.drop_last()),
        some_matches(ws, vs.last()),
    ensures
        some_row(rows_times(rows, ws), vs),
{
    let init = vs.drop_last();
    let r = choose|r: int| 0 <= r < rows.len() && row_matches(#[trigger] rows[r], init);
    let j = choose|j: int| 0 <= j < ws.len() && pattern_matches(#[trigger] ws[j], vs.last());
    lemma_times(rows, ws, r, j);
    let all = rows_times(rows, ws);
    let row = rows[r].push(ws[j]);
    let k = choose|k: int| 0 <= k < all.len() && all[k] == row;
    assert forall|n: int| 0 <= n < row.len() implies pattern_matches(#[trigger] row[n], vs[n]) by {
        if n < init.len() {
            assert(pattern_matches(rows[r][n], init[n]));
        }
    }
    assert(row_matches(all[k], vs));
}

proof fn lemma_empty_row()
    ensures
        some_row(seq![Seq::<PatternV>::empty()], Seq::<ValueV>::empty()),
{
    let rows = seq![Seq::<PatternV>::empty()];
    assert(row_matches(rows[0], Seq::<ValueV>::empty()));
}

proof fn lemma_any(approximate: bool, v: ValueV)
    ensures
        some_matches(any_shape(approximate).patterns, v),
{
    assert(pattern_matches(any_shape(approximate).patterns[0], v));
}

/// Each value of a type has one of the shapes of the type.
pub proof fn law_values_have_shapes(v: ValueV, ty: TyV, variants: VariantsV, depth: nat)
    requires
        inhabits(v, ty, variants),
        witnesses(ty, variants, depth) is Some,
    ensures
        some_matches(witnesses(ty, variants, depth)->Some_0.patterns, v),
    decreases depth_left(depth), 2nat, ty,
{
    let ws = witnesses(ty, variants, depth)->Some_0.patterns;
    if depth > MAX_WITNESS_DEPTH {
        lemma_any(true, v);
    } else {
        match ty {
            TyV::Tuple(items) => {
                let vs = v->Tuple_0;
                match tuple_rows(items, variants, depth) {
                    RowsV::Rows(rows, _) => {
                        lemma_tuple_shapes(vs, items, variants, depth);
                        let j = choose|j: int| 0 <= j < rows.len() && row_matches(#[trigger] rows[j], vs);
                        assert(each_matches(rows[j], vs));
                        assert(tuples(rows)[j] == PatternV::Tuple(rows[j]));
                        assert(pattern_matches(ws[j], v));
                    },
                    _ => {
                        lemma_any(true, v);
                    },
                }
            },
            TyV::App(con, args) => {
                if *con == TyV::Con("Array"@) {
                    let vs = v->List_0;
                    let w = witnesses(args[0], variants, depth + 1)->Some_0;
                    let first = seq![list_shape(Seq::empty(), false)];
                    let heads = head_shapes(w.patterns);
                    if vs.len() == 0 {
                        assert(ws[0] == list_shape(Seq::empty(), false));
                        assert(each_matches(Seq::empty(), vs));
                        assert(pattern_matches(ws[0], v));
                    } else {
                        assert(inhabits(vs[0], type_args(ty)[0], variants));
                        law_values_have_shapes(vs[0], args[0], variants, depth + 1);
                        let j = choose|j: int|
                            0 <= j < w.patterns.len() && pattern_matches(
                                #[trigger] w.patterns[j],
                                vs[0],
                            );
                        assert(heads[j] == list_shape(seq![w.patterns[j]], true));
                        assert((first + heads)[1 + j] == heads[j]);
                        assert(each_matches(seq![w.patterns[j]], vs));
                        assert(pattern_matches(ws[1 + j], v));
                    }
                } else if nominal_name(ty) is Some {
                    lemma_nominal_shapes(v, ty, nominal_name(ty)->Some_0, variants, depth);
                }
            },
            TyV::Con(name) => {
                reveal_strlit("bool");
                reveal_strlit("Array");
                if name == "bool"@ {
                    assert("bool"@.len() != "Array"@.len());
                    if v == ValueV::Bool(true) {
                        assert(pattern_matches(ws[0], v));
                    } else {
                        assert(pattern_matches(ws[1], v));
                    }
                } else if name == "Array"@ {
                    let vs = v->List_0;
                    if vs.len() == 0 {
                        assert(each_matches(Seq::empty(), vs));
                        assert(pattern_matches(ws[0], v));
                    } else {
                        assert(each_matches(seq![PatternV::Wildcard], vs));
                        assert(pattern_matches(ws[1], v));
                    }
                } else {
                    lemma_nominal_shapes(v, ty, name, variants, depth);
                }
            },
            TyV::Qualified(_, inner) => {
                law_values_have_shapes(v, *inner, variants, depth);
            },
            TyV::Never => {},
            _ => {
                lemma_any(false, v);
            },
        }
    }
}

proof fn lemma_tuple_shapes(vs: Seq<ValueV>, items: Seq<TyV>, variants: VariantsV, depth: nat)
    requires
        vs.len() == items.len(),
        forall|i: int| 0 <= i < vs.len() ==> inhabits(#[trigger] vs[i], items[i], variants),
        tuple_rows(items, variants, depth) is Rows,
    ensures
        some_row(tuple_rows(items, variants, depth)->Rows_0, vs),
    decreases depth_left(depth), 2nat, items,
{
    if items.len() == 0 {
        lemma_empty_row();
        assert(vs =~= Seq::empty());
    } else {
        let n = vs.len() - 1;
        let init = vs.drop_last();
        assert forall|i: int| 0 <= i < init.len() implies inhabits(
            #[trigger] init[i],
            items.drop_last()[i],
            variants,
        ) by {
            assert(inhabits(vs[i], items[i], variants));
        }
        lemma_tuple_shapes(init, items.drop_last(), variants, depth);
        assert(inhabits(vs[n], items[n], variants));
        law_values_have_shapes(vs.last(), items.last(), variants, depth + 1);
        lemma_row_extended(
            tuple_rows(items.drop_last(), variants, depth)->Rows_0,
            witnesses(items.last(), variants, depth + 1)->Some_0.patterns,
            vs,
        );
    }
}

spec fn is_variant(v: ValueV, ty: TyV, variants: VariantsV) -> bool {
    match v {
        ValueV::Variant { name, payload } => match (payload_of(ty, variants[name]), payload) {
            (None, None) => true,
            (Some(inner), Some(x)) => inhabits(*x, inner, variants),
            _ => false,
        },
        _ => false,
    }
}

proof fn lemma_nominal_shapes(v: ValueV, ty: TyV, owner: Seq<char>, variants: VariantsV, depth: nat)
    requires
        depth <= MAX_WITNESS_DEPTH,
        variants_named(variants, owner).len() == 0 || (is_variant(v, ty, variants)
            && variants_named(variants, owner).contains(v->Variant_name)),
    ensures
        some_matches(nominal_witnesses(ty, owner, variants, depth)->Some_0.patterns, v),
    decreases depth_left(depth), 1nat, ty,
{
    let names = variants_named(variants, owner);
    if names.len() == 0 {
        lemma_any(false, v);
    } else {
        match variant_rows(ty, names, variants, depth) {
            RowsV::Rows(rows, _) => {
                lemma_variant_shapes(v, ty, names, variants, depth);
            },
            _ => {
                lemma_any(true, v);
            },
        }
    }
}

proof fn lemma_variant_shapes(
    v: ValueV,
    ty: TyV,
    names: Seq<Seq<char>>,
    variants: VariantsV,
    depth: nat,
)
    requires
        is_variant(v, ty, variants),
        variant_rows(ty, names, variants, depth) is Rows,
    ensures
        names.contains(v->Variant_name) ==> some_matches(
            variant_rows(ty, names, variants, depth)->Rows_0[0],
            v,
        ),
    decreases depth_left(depth), 0nat, names,
{
    if names.len() > 0 && names.contains(v->Variant_name) {
        let init = names.drop_last();
        let name = names.last();
        lemma_variant_shapes(v, ty, init, variants, depth);
        let before = variant_rows(ty, init, variants, depth)->Rows_0[0];
        let after = variant_rows(ty, names, variants, depth)->Rows_0[0];
        if name == v->Variant_name {
            match payload_of(ty, variants[name]) {
                None => {
                    assert(pattern_matches(after[before.len() as int], v));
                },
                Some(payload) => {
                    let x = *v->Variant_payload->Some_0;
                    let w = match witnesses(payload, variants, depth + 1) {
                        Some(w) => w,
                        None => any_shape(false),
                    };
                    if witnesses(payload, variants, depth + 1) is Some {
                        law_values_have_shapes(x, payload, variants, depth + 1);
                    } else {
                        lemma_any(false, x);
                    }
                    let j = choose|j: int|
                        0 <= j < w.patterns.len() && pattern_matches(#[trigger] w.patterns[j], x);
                    let shapes = constructor_shapes(name, w.patterns);
                    assert(shapes[j] == PatternV::Constructor {
                        name,
                        binding: Some(Box::new(w.patterns[j])),
                    });
                    assert((before + shapes)[before.len() + j] == shapes[j]);
                    assert(pattern_matches(after[before.len() + j], v));
                },
            }
        } else {
            let k = choose|k: int| 0 <= k < names.len() && names[k] == v->Variant_name;
            assert(init[k] == v->Variant_name);
            let j = choose|j: int| 0 <= j < before.len() && pattern_matches(#[trigger] before[j], v);
            assert(after[j] == before[j]);
        }
    }
}

// ---------------------------------------------------------------------------
// Matches
// ---------------------------------------------------------------------------

proof fn lemma_all_covered(arms: Seq<PatternV>, ws: Seq<PatternV>)
    ensures
        first_uncovered(arms, ws) is None <==> forall|j: int|
            0 <= j < ws.len() ==> some_arm_covers(arms, #[trigger] ws[j]),
    decreases ws.len(),
{
    if ws.len() > 0 {
        let rest = ws.skip(1);
        lemma_all_covered(arms, rest);
        assert forall|j: int| 0 <= j < rest.len() implies rest[j] == #[trigger] ws[j + 1] by {}
        if first_uncovered(arms, ws) is None {
            assert forall|j: int| 0 <= j < ws.len() implies some_arm_covers(
                arms,
                #[trigger] ws[j],
            ) by {
                if j > 0 {
                    assert(some_arm_covers(arms, rest[j - 1]));
                }
            }
        }
        if forall|j: int| 0 <= j < ws.len() ==> some_arm_covers(arms, #[trigger] ws[j]) {
            assert forall|j: int| 0 <= j < rest.len() implies some_arm_covers(
                arms,
                #[trigger] rest[j],
            ) by {
                assert(some_arm_covers(arms, ws[j + 1]));
            }
            assert(some_arm_covers(arms, ws[0]));
        }
    }
}

proof fn lemma_covered(arms: Seq<PatternV>, ws: Seq<PatternV>, v: ValueV)
    requires
        first_uncovered(arms, ws) is None,
        some_matches(ws, v),
    ensures
        some_matches(arms, v),
{
    lemma_all_covered(arms, ws);
    let j = choose|j: int| 0 <= j < ws.len() && pattern_matches(#[trigger] ws[j], v);
    assert(some_arm_covers(arms, ws[j]));
    let i = choose|i: int| 0 <= i < arms.len() && covers(#[trigger] arms[i], ws[j]);
    law_covering_matches(arms[i], ws[j], v);
}

proof fn lemma_catch_all_matches(p: PatternV, ty: TyV, v: ValueV, variants: VariantsV)
    requires
        catch_all(p),
        fits(p, ty),
        inhabits(v, ty, variants),
    ensures
        pattern_matches(p, v),
    decreases ty,
{
    match ty {
        TyV::Qualified(_, inner) => {
            lemma_catch_all_matches(p, *inner, v, variants);
        },
        TyV::Tuple(items) => {
            if let PatternV::Tuple(ps) = p {
                let vs = v->Tuple_0;
                assert(all_catch_all(ps));
                assert forall|i: int| 0 <= i < ps.len() && i < vs.len() implies pattern_matches(
                    #[trigger] ps[i],
                    vs[i],
                ) by {
                    assert(inhabits(vs[i], items[i], variants));
                    assert(fits(ps[i], items[i]));
                    assert(catch_all(ps[i]));
                    lemma_catch_all_matches(ps[i], items[i], vs[i], variants);
                }
                assert(each_matches(ps, vs));
            }
        },
        _ => {
            if let PatternV::List { elements, rest } = p {
                assert(each_matches(elements, v->List_0));
            }
        },
    }
}

proof fn lemma_length_shapes(ws: Seq<PatternV>, vs: Seq<ValueV>)
    requires
        forall|i: int| 0 <= i < vs.len() ==> some_matches(ws, #[trigger] vs[i]),
        length_rows(ws, vs.len()) is Rows,
    ensures
        some_row(length_rows(ws, vs.len())->Rows_0, vs),
    decreases vs.len(),
{
    if vs.len() == 0 {
        lemma_empty_row();
        assert(vs =~= Seq::empty());
    } else {
        let init = vs.drop_last();
        assert forall|i: int| 0 <= i < init.len() implies some_matches(ws, #[trigger] init[i]) by {
            assert(some_matches(ws, vs[i]));
        }
        lemma_length_shapes(ws, init);
        assert(some_matches(ws, vs[vs.len() - 1]));
        lemma_row_extended(length_rows(ws, init.len())->Rows_0, ws, vs);
    }
}

proof fn lemma_list_shaped(ws: Seq<PatternV>, vs: Seq<ValueV>, len: nat, open: bool)
    requires
        forall|i: int| 0 <= i < vs.len() ==> some_matches(ws, #[trigger] vs[i]),
        len == vs.len() || (open && len < vs.len()),
    ensures
        some_matches(length_witnesses(ws, len, open).patterns, ValueV::List(vs)),
{
    let v = ValueV::List(vs);
    let shapes = length_witnesses(ws, len, open).patterns;
    let start = vs.take(len as int);
    match length_rows(ws, len) {
        RowsV::Rows(rows, _) => {
            assert forall|i: int| 0 <= i < start.len() implies some_matches(
                ws,
                #[trigger] start[i],
            ) by {
                assert(some_matches(ws, vs[i]));
            }
            lemma_length_shapes(ws, start);
            let j = choose|j: int| 0 <= j < rows.len() && row_matches(#[trigger] rows[j], start);
            assert(each_matches(rows[j], vs)) by {
                assert forall|i: int| 0 <= i < rows[j].len() && i < vs.len() implies pattern_matches(
                    #[trigger] rows[j][i],
                    vs[i],
                ) by {
                    assert(start[i] == vs[i]);
                }
            }
            assert(lists(rows, open)[j] == list_shape(rows[j], open));
            assert(pattern_matches(shapes[j], v));
        },
        _ => {
            let any = Seq::new(len, |i: int| PatternV::Wildcard);
            assert(each_matches(any, vs));
            assert(shapes[0] == list_shape(any, open));
            assert(pattern_matches(shapes[0], v));
        },
    }
}

proof fn lemma_shorter(arms: Seq<PatternV>, w: WitnessesV, len: nat, n: nat)
    requires
        lengths_verdict(arms, w, len) is None,
        n < len,
    ensures
        length_verdict(arms, w, n, false) is None,
    decreases len,
{
    if n < len - 1 {
        lemma_shorter(arms, w, (len - 1) as nat, n);
    }
}

proof fn lemma_array_matched(arms: Seq<PatternV>, element: TyV, variants: VariantsV, vs: Seq<ValueV>)
    requires
        array_verdict(arms, element, variants) is None,
        forall|i: int| 0 <= i < vs.len() ==> inhabits(#[trigger] vs[i], element, variants),
    ensures
        some_matches(arms, ValueV::List(vs)),
{
    let len = max_open(arms)->Some_0;
    let w = match witnesses(element, variants, 0) {
        Some(w) => w,
        None => any_shape(false),
    };
    assert forall|i: int| 0 <= i < vs.len() implies some_matches(w.patterns, #[trigger] vs[i]) by {
        if witnesses(element, variants, 0) is Some {
            law_values_have_shapes(vs[i], element, variants, 0);
        } else {
            lemma_any(false, vs[i]);
        }
    }
    let v = ValueV::List(vs);
    if vs.len() < len {
        lemma_shorter(arms, w, len, vs.len());
        lemma_list_shaped(w.patterns, vs, vs.len(), false);
        lemma_covered(arms, length_witnesses(w.patterns, vs.len(), false).patterns, v);
    } else {
        lemma_list_shaped(w.patterns, vs, len, true);
        lemma_covered(arms, length_witnesses(w.patterns, len, true).patterns, v);
    }
}

/// A match that is accepted leaves nothing out: each value of the scrutinee's type is
/// matched by some arm, provided the arms have the form of that type.
pub proof fn law_accepted_match_covers(
    arms: Seq<PatternV>,
    scrutinee: TyV,
    variants: VariantsV,
    v: ValueV,
)
    requires
        match_verdict(arms, scrutinee, variants) is None,
        forall|i: int| 0 <= i < arms.len() ==> fits(#[trigger] arms[i], scrutinee),
        inhabits(v, scrutinee, variants),
    ensures
        some_matches(arms, v),
{
    if exists|i: int| 0 <= i < arms.len() && catch_all(#[trigger] arms[i]) {
        let i = choose|i: int| 0 <= i < arms.len() && catch_all(#[trigger] arms[i]);
        lemma_catch_all_matches(arms[i], scrutinee, v, variants);
    } else {
        match element_of(scrutinee) {
            Some(element) => {
                lemma_array_matched(arms, element, variants, v->List_0);
            },
            None => {
                law_values_have_shapes(v, scrutinee, variants, 0);
                lemma_covered(arms, witnesses(scrutinee, variants, 0)->Some_0.patterns, v);
            },
        }
    }
}

/// A match over anything but an array stays accepted when its arms come in another order
/// or more arms join them.
pub proof fn law_accepted_match_grows(
    arms: Seq<PatternV>,
    more: Seq<PatternV>,
    scrutinee: TyV,
    variants: VariantsV,
)
    requires
        element_of(scrutinee) is None,
        match_verdict(arms, scrutinee, variants) is None,
        forall|i: int| 0 <= i < arms.len() ==> more.contains(#[trigger] arms[i]),
    ensures
        match_verdict(more, scrutinee, variants) is None,
{
    if exists|i: int| 0 <= i < arms.len() && catch_all(#[trigger] arms[i]) {
        let i = choose|i: int| 0 <= i < arms.len() && catch_all(#[trigger] arms[i]);
        assert(more.contains(arms[i]));
        let j = choose|j: int| 0 <= j < more.len() && more[j] == arms[i];
        assert(catch_all(more[j]));
    } else {
        let ws = witnesses(scrutinee, variants, 0)->Some_0.patterns;
        lemma_all_covered(arms, ws);
        assert forall|k: int| 0 <= k < ws.len() implies some_arm_covers(more, #[trigger] ws[k]) by {
            assert(some_arm_covers(arms, ws[k]));
            let i = choose|i: int| 0 <= i < arms.len() && covers(#[trigger] arms[i], ws[k]);
            assert(more.contains(arms[i]));
            let j = choose|j: int| 0 <= j < more.len() && more[j] == arms[i];
            assert(covers(more[j], ws[k]));
        }
        lemma_all_covered(more, ws);
    }
}

} // verus!
