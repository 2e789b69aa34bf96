//! Whether a match covers everything its scrutinee can be.
//!
//! The values of a type are sorted into finitely many shapes, each written as
//! a pattern. A match is exhaustive if each shape is covered by an arm.

use vstd::prelude::*;

use crate::ast::Pattern;
use crate::ast_copy::clone_patterns;
use crate::ast_view::{open_rest_name_view, boxed_pattern_view, pattern_view, patterns_view};
use crate::ast_view::{PatternV, RestNameV};
use crate::env::{VariantEnv, VariantInfo, VariantInfoV, VariantsV};
use crate::error::{TypeError, TypeErrorV};
use crate::patterns::{catch_all, covers, missing_pattern_message, missing_text, pattern_covers};
use crate::patterns::pattern_is_catch_all;
use crate::rows::FieldV;
use crate::tables::sorted_names;
use crate::text::{str_eq, strings_view};
use crate::ty::{clone_constraints, constraints_view, field_view, fields_view, param_view};
use crate::ty::{params_view, ty_view, tys_view, FuncParam, FuncReturn, ParamV, ReturnV, Row};
use crate::ty::{RowV, Ty, TyV, TyVar};

verus! {

/// How deep into a type shapes are told apart.
pub const MAX_WITNESS_DEPTH: usize = 4;

/// How many shapes are told apart. When a finite product grows beyond this cap,
/// callers surface an approximation-limit diagnostic instead of pretending the
/// wildcard-shaped fallback is a precise missing witness.
pub const MAX_WITNESSES: usize = 4096;

/// The shapes of a type; approximate ones are not told apart to the end.
#[derive(Debug)]
pub struct WitnessSet {
    pub patterns: Vec<Pattern>,
    pub approximate: bool,
}

/// The view of a [`WitnessSet`].
pub struct WitnessesV {
    pub patterns: Seq<PatternV>,
    pub approximate: bool,
}

impl View for WitnessSet {
    type V = WitnessesV;

    open spec fn view(&self) -> WitnessesV {
        WitnessesV { patterns: patterns_view(self.patterns@), approximate: self.approximate }
    }
}

// ---------------------------------------------------------------------------
// Payload types
// ---------------------------------------------------------------------------

/// The first of `to` that stands for the variable `v` in `vars`, or the
/// variable itself.
pub open spec fn replaced_var(v: TyVar, vars: Seq<TyVar>, to: Seq<TyV>) -> TyV
    decreases vars.len(),
{
    if vars.len() == 0 || to.len() == 0 {
        TyV::Var(v)
    } else if vars[0] == v {
        to[0]
    } else {
        replaced_var(v, vars.skip(1), to.skip(1))
    }
}

/// `ty` with the variables `vars` replaced by `to`, outside of constraints.
pub open spec fn replace_vars(ty: TyV, vars: Seq<TyVar>, to: Seq<TyV>) -> TyV
    decreases ty,
{
    match ty {
        TyV::Var(v) => replaced_var(v, vars, to),
        TyV::Qualified(cs, inner) => TyV::Qualified(cs, Box::new(replace_vars(*inner, vars, to))),
        TyV::Tuple(items) => TyV::Tuple(replace_in_tys(items, vars, to)),
        TyV::Func(ps, ret) => TyV::Func(
            replace_in_params(ps, vars, to),
            ReturnV {
                ty: Box::new(replace_vars(*ret.ty, vars, to)),
                capability: ret.capability,
            },
        ),
        TyV::App(con, args) => TyV::App(
            Box::new(replace_vars(*con, vars, to)),
            replace_in_tys(args, vars, to),
        ),
        TyV::Record(row) => TyV::Record(
            RowV {
                fields: replace_in_fields(row.fields, vars, to),
                tail: Box::new(replace_vars(*row.tail, vars, to)),
            },
        ),
        _ => ty,
    }
}

pub open spec fn replace_in_tys(s: Seq<TyV>, vars: Seq<TyVar>, to: Seq<TyV>) -> Seq<TyV>
    decreases s,
{
    Seq::new(
        s.len(),
        |i: int|
            if 0 <= i < s.len() {
                replace_vars(s[i], vars, to)
            } else {
                arbitrary()
            },
    )
}

pub open spec fn replace_in_params(s: Seq<ParamV>, vars: Seq<TyVar>, to: Seq<TyV>) -> Seq<ParamV>
    decreases s,
{
    Seq::new(
        s.len(),
        |i: int|
            if 0 <= i < s.len() {
                ParamV { ty: replace_vars(s[i].ty, vars, to), capability: s[i].capability }
            } else {
                arbitrary()
            },
    )
}

pub open spec fn replace_in_fields(s: Seq<FieldV>, vars: Seq<TyVar>, to: Seq<TyV>) -> Seq<FieldV>
    decreases s,
{
    Seq::new(
        s.len(),
        |i: int|
            if 0 <= i < s.len() {
                (s[i].0, replace_vars(s[i].1, vars, to))
            } else {
                arbitrary()
            },
    )
}

fn find_replacement(v: TyVar, vars: &Vec<TyVar>, to: &Vec<Ty>) -> (r: Ty)
    ensures
        r@ == replaced_var(v, vars@, tys_view(to@)),
{
    let ghost all = tys_view(to@);
    let mut i: usize = 0;
    assert(vars@.skip(0) =~= vars@);
    assert(all.skip(0) =~= all);
    while i < vars.len() && i < to.len()
        invariant
            i <= vars.len(),
            i <= to.len(),
            all == tys_view(to@),
            all.len() == to@.len(),
            replaced_var(v, vars@, all) == replaced_var(
                v,
                vars@.skip(i as int),
                all.skip(i as int),
            ),
        decreases vars.len() - i,
    {
        assert(vars@.skip(i as int)[0] == vars@[i as int]);
        assert(all.skip(i as int)[0] == ty_view(to@[i as int]));
        if vars[i] == v {
            return to[i].clone();
        }
        assert(vars@.skip(i as int).skip(1) =~= vars@.skip(i + 1));
        assert(all.skip(i as int).skip(1) =~= all.skip(i + 1));
        i = i + 1;
    }
    Ty::Var(v)
}

fn apply_variant_substitutions(ty: &Ty, vars: &Vec<TyVar>, to: &Vec<Ty>) -> (r: Ty)
    ensures
        r@ == replace_vars(ty@, vars@, tys_view(to@)),
    decreases *ty,
{
    match ty {
        Ty::Var(v) => find_replacement(*v, vars, to),
        Ty::Qualified(cs, inner) => Ty::Qualified(
            clone_constraints(cs),
            Box::new(apply_variant_substitutions(inner, vars, to)),
        ),
        Ty::Tuple(items) => Ty::Tuple(substitute_tys(items, vars, to)),
        Ty::Func(ps, ret) => {
            let ret2 = FuncReturn {
                ty: Box::new(apply_variant_substitutions(&ret.ty, vars, to)),
                capability: ret.capability,
            };
            Ty::Func(substitute_params(ps, vars, to), ret2)
        },
        Ty::App(con, args) => Ty::App(
            Box::new(apply_variant_substitutions(con, vars, to)),
            substitute_tys(args, vars, to),
        ),
        Ty::Record(row) => {
            let row2 = Row {
                fields: substitute_fields(&row.fields, vars, to),
                tail: Box::new(apply_variant_substitutions(&row.tail, vars, to)),
            };
            Ty::Record(row2)
        },
        _ => ty.clone(),
    }
}

fn substitute_tys(s: &Vec<Ty>, vars: &Vec<TyVar>, to: &Vec<Ty>) -> (r: Vec<Ty>)
    ensures
        tys_view(r@) == replace_in_tys(tys_view(s@), vars@, tys_view(to@)),
        r@.len() == s@.len(),
    decreases s@,
{
    let ghost all = tys_view(s@);
    let ghost want = replace_in_tys(all, vars@, tys_view(to@));
    let mut out: Vec<Ty> = Vec::new();
    let mut i: usize = 0;
    while i < s.len()
        invariant
            i <= s.len(),
            all == tys_view(s@),
            want == replace_in_tys(all, vars@, tys_view(to@)),
            out@.len() == i,
            forall|j: int| 0 <= j < i ==> ty_view(#[trigger] out@[j]) == want[j],
        decreases s.len() - i,
    {
        assert(all[i as int] == ty_view(s@[i as int]));
        out.push(apply_variant_substitutions(&s[i], vars, to));
        i = i + 1;
    }
    assert(tys_view(out@) =~= want);
    out
}

fn substitute_params(s: &Vec<FuncParam>, vars: &Vec<TyVar>, to: &Vec<Ty>) -> (r: Vec<FuncParam>)
    ensures
        params_view(r@) == replace_in_params(params_view(s@), vars@, tys_view(to@)),
        r@.len() == s@.len(),
    decreases s@,
{
    let ghost all = params_view(s@);
    let ghost want = replace_in_params(all, vars@, tys_view(to@));
    let mut out: Vec<FuncParam> = Vec::new();
    let mut i: usize = 0;
    while i < s.len()
        invariant
            i <= s.len(),
            all == params_view(s@),
            want == replace_in_params(all, vars@, tys_view(to@)),
            out@.len() == i,
            forall|j: int| 0 <= j < i ==> param_view(#[trigger] out@[j]) == want[j],
        decreases s.len() - i,
    {
        assert(all[i as int] == param_view(s@[i as int]));
        let ty = apply_variant_substitutions(&s[i].ty, vars, to);
        out.push(FuncParam { ty, capability: s[i].capability });
        i = i + 1;
    }
    assert(params_view(out@) =~= want);
    out
}

fn substitute_fields(s: &Vec<(String, Ty)>, vars: &Vec<TyVar>, to: &Vec<Ty>) -> (r: Vec<(String, Ty)>)
    ensures
        fields_view(r@) == replace_in_fields(fields_view(s@), vars@, tys_view(to@)),
        r@.len() == s@.len(),
    decreases s@,
{
    let ghost all = fields_view(s@);
    let ghost want = replace_in_fields(all, vars@, tys_view(to@));
    let mut out: Vec<(String, Ty)> = Vec::new();
    let mut i: usize = 0;
    while i < s.len()
        invariant
            i <= s.len(),
            all == fields_view(s@),
            want == replace_in_fields(all, vars@, tys_view(to@)),
            out@.len() == i,
            forall|j: int| 0 <= j < i ==> field_view(#[trigger] out@[j]) == want[j],
        decreases s.len() - i,
    {
        assert(all[i as int] == field_view(s@[i as int]));
        assert(decreases_to!(s@ => s@[i as int]));
        assert(decreases_to!(s@[i as int] => s@[i as int].1));
        let ty = apply_variant_substitutions(&s[i].1, vars, to);
        out.push((s[i].0.clone(), ty));
        i = i + 1;
    }
    assert(fields_view(out@) =~= want);
    out
}

/// The type arguments of a type.
pub open spec fn type_args(ty: TyV) -> Seq<TyV> {
    match ty {
        TyV::App(_, args) => args,
        _ => Seq::empty(),
    }
}

/// What a variant of `ty` carries.
pub open spec fn payload_of(ty: TyV, info: VariantInfoV) -> Option<TyV> {
    match info.payload_ty {
        Some(payload) => Some(replace_vars(payload, info.type_param_vars, type_args(ty))),
        None => None,
    }
}

fn instantiated_payload_ty(ty: &Ty, info: &VariantInfo) -> (r: Option<Ty>)
    ensures
        match (r, payload_of(ty@, info@)) {
            (Some(a), Some(b)) => a@ == b,
            (None, None) => true,
            _ => false,
        },
{
    match &info.payload_ty {
        None => None,
        Some(payload) => match ty {
            Ty::App(_, args) => Some(
                apply_variant_substitutions(payload, &info.type_param_vars, args),
            ),
            _ => {
                let args: Vec<Ty> = Vec::new();
                assert(tys_view(args@) =~= Seq::empty());
                Some(apply_variant_substitutions(payload, &info.type_param_vars, &args))
            },
        },
    }
}

/// The name of a nominal type.
pub open spec fn nominal_name(ty: TyV) -> Option<Seq<char>> {
    match ty {
        TyV::Con(name) => Some(name),
        TyV::App(con, _) => match *con {
            TyV::Con(name) => Some(name),
            _ => None,
        },
        _ => None,
    }
}

fn nominal_type(ty: &Ty) -> (r: Option<String>)
    ensures
        match (r, nominal_name(ty@)) {
            (Some(a), Some(b)) => a@ == b,
            (None, None) => true,
            _ => false,
        },
{
    match ty {
        Ty::Con(name) => Some(name.clone()),
        Ty::App(con, _) => match &**con {
            Ty::Con(name) => {
                assert(ty_view(**con) == TyV::Con(name@));
                Some(name.clone())
            },
            _ => {
                assert(!(ty_view(**con) is Con));
                None
            },
        },
        _ => None,
    }
}

/// Whether a type is the array type applied to something.
pub open spec fn is_array(ty: TyV) -> bool {
    ty matches TyV::App(con, _) && *con == TyV::Con("Array"@)
}

/// The type of the elements of an array.
pub open spec fn element_of(ty: TyV) -> Option<TyV> {
    if is_array(ty) && type_args(ty).len() > 0 {
        Some(type_args(ty)[0])
    } else {
        None
    }
}

/// The array type, applied or not.
fn is_array_type(ty: &Ty) -> (r: bool)
    ensures
        r == is_array(ty@),
{
    match ty {
        Ty::App(con, _) => match &**con {
            Ty::Con(name) => {
                assert(ty_view(**con) == TyV::Con(name@));
                str_eq(name.as_str(), "Array")
            },
            _ => {
                assert(!(ty_view(**con) is Con));
                false
            },
        },
        _ => false,
    }
}

fn array_element_ty(ty: &Ty) -> (r: Option<&Ty>)
    ensures
        match (r, element_of(ty@)) {
            (Some(a), Some(b)) => a@ == b,
            (None, None) => true,
            _ => false,
        },
        r matches Some(a) ==> decreases_to!(*ty => *a),
{
    if is_array_type(ty) {
        if let Ty::App(_, args) = ty {
            assert(tys_view(args@).len() == args@.len());
            if args.len() > 0 {
                assert(tys_view(args@)[0] == ty_view(args@[0]));
                assert(decreases_to!(args@ => args@[0]));
                return Some(&args[0]);
            }
        }
    }
    None
}

// ---------------------------------------------------------------------------
// Shapes
// ---------------------------------------------------------------------------

/// A list pattern without names.
pub open spec fn list_shape(elements: Seq<PatternV>, open: bool) -> PatternV {
    PatternV::List {
        elements,
        rest: if open {
            Some(None)
        } else {
            None
        },
    }
}

/// The one shape that stands for every value.
pub open spec fn any_shape(approximate: bool) -> WitnessesV {
    WitnessesV { patterns: seq![PatternV::Wildcard], approximate }
}

/// `row` with each of `ws` at its end.
pub open spec fn row_times(row: Seq<PatternV>, ws: Seq<PatternV>) -> Seq<Seq<PatternV>> {
    Seq::new(ws.len(), |j: int| row.push(ws[j]))
}

/// Each of `rows` with each of `ws` at its end.
pub open spec fn rows_times(rows: Seq<Seq<PatternV>>, ws: Seq<PatternV>) -> Seq<Seq<PatternV>>
    decreases rows.len(),
{
    if rows.len() == 0 {
        Seq::empty()
    } else {
        rows_times(rows.drop_last(), ws) + row_times(rows.last(), ws)
    }
}

/// The combinations of shapes, as far as they can be listed.
pub enum RowsV {
    Rows(Seq<Seq<PatternV>>, bool),
    Capped,
    Unknown,
}

/// Each row as a tuple.
pub open spec fn tuples(rows: Seq<Seq<PatternV>>) -> Seq<PatternV> {
    Seq::new(rows.len(), |i: int| PatternV::Tuple(rows[i]))
}

/// The shapes of a type: `None` if nothing is known of it.
pub open spec fn witnesses(ty: TyV, variants: VariantsV, depth: nat) -> Option<WitnessesV>
    decreases depth_left(depth), 2nat, ty,
{
    if depth > MAX_WITNESS_DEPTH {
        Some(any_shape(true))
    } else {
        match ty {
            TyV::Tuple(items) => match tuple_rows(items, variants, depth) {
                RowsV::Rows(rows, approximate) => Some(
                    WitnessesV { patterns: tuples(rows), approximate },
                ),
                RowsV::Capped => Some(any_shape(true)),
                RowsV::Unknown => None,
            },
            TyV::App(con, args) => {
                if *con == TyV::Con("Array"@) {
                    if args.len() == 0 {
                        None
                    } else {
                        match witnesses(args[0], variants, depth + 1) {
                            None => None,
                            Some(w) => Some(
                                WitnessesV {
                                    patterns: seq![list_shape(Seq::empty(), false)]
                                        + head_shapes(w.patterns),
                                    approximate: w.approximate,
                                },
                            ),
                        }
                    }
                } else {
                    match nominal_name(ty) {
                        None => None,
                        Some(name) => nominal_witnesses(ty, name, variants, depth),
                    }
                }
            },
            TyV::Con(name) => {
                if name == "bool"@ {
                    Some(
                        WitnessesV {
                            patterns: seq![PatternV::BoolLit(true), PatternV::BoolLit(false)],
                            approximate: false,
                        },
                    )
                } else if name == "Array"@ {
                    Some(
                        WitnessesV {
                            patterns: seq![
                                list_shape(Seq::empty(), false),
                                list_shape(seq![PatternV::Wildcard], true),
                            ],
                            approximate: false,
                        },
                    )
                } else {
                    nominal_witnesses(ty, name, variants, depth)
                }
            },
            TyV::Never => Some(WitnessesV { patterns: Seq::empty(), approximate: false }),
            TyV::Qualified(_, inner) => witnesses(*inner, variants, depth),
            _ => Some(any_shape(false)),
        }
    }
}

/// How much deeper shapes are told apart.
pub open spec fn depth_left(depth: nat) -> nat {
    if depth > MAX_WITNESS_DEPTH {
        0
    } else {
        (MAX_WITNESS_DEPTH + 1 - depth) as nat
    }
}

/// Lists that start with one of `ws`.
pub open spec fn head_shapes(ws: Seq<PatternV>) -> Seq<PatternV> {
    Seq::new(ws.len(), |i: int| list_shape(seq![ws[i]], true))
}

/// The combinations of the shapes of `items`.
pub open spec fn tuple_rows(items: Seq<TyV>, variants: VariantsV, depth: nat) -> RowsV
    decreases depth_left(depth), 2nat, items,
{
    if depth > MAX_WITNESS_DEPTH {
        RowsV::Unknown
    } else if items.len() == 0 {
        RowsV::Rows(seq![Seq::empty()], false)
    } else {
        match tuple_rows(items.drop_last(), variants, depth) {
            RowsV::Rows(rows, approximate) => match witnesses(items.last(), variants, depth + 1) {
                None => RowsV::Unknown,
                Some(w) => {
                    let next = rows_times(rows, w.patterns);
                    if next.len() > MAX_WITNESSES {
                        RowsV::Capped
                    } else {
                        RowsV::Rows(next, approximate || w.approximate)
                    }
                },
            },
            other => other,
        }
    }
}

/// Those of `names` that are variants of the type `owner`.
pub open spec fn variants_among(names: Seq<Seq<char>>, variants: VariantsV, owner: Seq<char>) -> Seq<
    Seq<char>,
>
    decreases names.len(),
{
    if names.len() == 0 {
        Seq::empty()
    } else {
        let rest = variants_among(names.drop_last(), variants, owner);
        if variants[names.last()].nominal_name == owner {
            rest.push(names.last())
        } else {
            rest
        }
    }
}

/// The variants of the type `owner`, in dictionary order.
pub open spec fn variants_named(variants: VariantsV, owner: Seq<char>) -> Seq<Seq<char>> {
    variants_among(sorted_names(variants.dom()), variants, owner)
}

/// The shapes of a nominal type: those of each of its variants.
pub open spec fn nominal_witnesses(
    ty: TyV,
    owner: Seq<char>,
    variants: VariantsV,
    depth: nat,
) -> Option<WitnessesV>
    decreases depth_left(depth), 1nat, ty,
{
    let names = variants_named(variants, owner);
    if names.len() == 0 {
        Some(any_shape(false))
    } else {
        match variant_rows(ty, names, variants, depth) {
            RowsV::Rows(rows, approximate) => Some(
                WitnessesV { patterns: rows[0], approximate },
            ),
            _ => Some(any_shape(true)),
        }
    }
}

/// A constructor applied to each of `payloads`.
pub open spec fn constructor_shapes(name: Seq<char>, payloads: Seq<PatternV>) -> Seq<PatternV> {
    Seq::new(
        payloads.len(),
        |i: int| PatternV::Constructor { name, binding: Some(Box::new(payloads[i])) },
    )
}

/// The shapes of the variants `names`, as one row.
pub open spec fn variant_rows(
    ty: TyV,
    names: Seq<Seq<char>>,
    variants: VariantsV,
    depth: nat,
) -> RowsV
    decreases depth_left(depth), 0nat, names,
{
    if depth > MAX_WITNESS_DEPTH {
        RowsV::Unknown
    } else if names.len() == 0 {
        RowsV::Rows(seq![Seq::empty()], false)
    } else {
        match variant_rows(ty, names.drop_last(), variants, depth) {
            RowsV::Rows(rows, approximate) => {
                let name = names.last();
                match payload_of(ty, variants[name]) {
                    None => RowsV::Rows(
                        seq![rows[0].push(PatternV::Constructor { name, binding: None })],
                        approximate,
                    ),
                    Some(payload) => {
                        let w = match witnesses(payload, variants, depth + 1) {
                            Some(w) => w,
                            None => any_shape(false),
                        };
                        let next = rows[0] + constructor_shapes(name, w.patterns);
                        if w.patterns.len() > 0 && next.len() > MAX_WITNESSES {
                            RowsV::Capped
                        } else {
                            RowsV::Rows(seq![next], approximate || w.approximate)
                        }
                    },
                }
            },
            other => other,
        }
    }
}

// ---------------------------------------------------------------------------
// Executable counterparts
// ---------------------------------------------------------------------------

/// The views of rows of patterns.
pub open spec fn rows_view(s: Seq<Vec<Pattern>>) -> Seq<Seq<PatternV>> {
    Seq::new(s.len(), |i: int| patterns_view(s[i]@))
}

proof fn lemma_rows_times_grow(rows: Seq<Seq<PatternV>>, ws: Seq<PatternV>, i: int)
    requires
        0 <= i <= rows.len(),
    ensures
        rows_times(rows.take(i), ws).len() <= rows_times(rows, ws).len(),
        i < rows.len() ==> rows_times(rows.take(i), ws).len() + ws.len() <= rows_times(
            rows,
            ws,
        ).len(),
    decreases rows.len(),
{
    if i == rows.len() {
        assert(rows.take(i) =~= rows);
    } else {
        lemma_rows_times_grow(rows.drop_last(), ws, i);
        assert(rows.drop_last().take(i) =~= rows.take(i));
        if i == rows.len() - 1 {
            assert(rows.drop_last() =~= rows.take(i));
        }
    }
}

/// Adds each of `ws` to the end of each of `rows`; `None` past the cap.
fn extend_rows(rows: &Vec<Vec<Pattern>>, ws: &Vec<Pattern>) -> (r: Option<Vec<Vec<Pattern>>>)
    ensures
        r matches Some(next) ==> rows_view(next@) == rows_times(
            rows_view(rows@),
            patterns_view(ws@),
        ) && next@.len() <= MAX_WITNESSES,
        r is None ==> rows_times(rows_view(rows@), patterns_view(ws@)).len() > MAX_WITNESSES,
{
    let ghost all = rows_view(rows@);
    let ghost wv = patterns_view(ws@);
    let mut next: Vec<Vec<Pattern>> = Vec::new();
    let mut i: usize = 0;
    assert(rows_view(next@) =~= Seq::empty());
    assert(all.take(0) =~= Seq::empty());
    while i < rows.len()
        invariant
            i <= rows.len(),
            all == rows_view(rows@),
            wv == patterns_view(ws@),
            rows_view(next@) == rows_times(all.take(i as int), wv),
            next@.len() <= MAX_WITNESSES,
        decreases rows.len() - i,
    {
        let ghost done = rows_view(next@);
        let ghost row = all[i as int];
        let mut j: usize = 0;
        assert(done =~= done + row_times(row, wv).take(0));
        while j < ws.len()
            invariant
                i < rows.len(),
                j <= ws.len(),
                all == rows_view(rows@),
                wv == patterns_view(ws@),
                wv.len() == ws@.len(),
                row == all[i as int],
                done == rows_times(all.take(i as int), wv),
                rows_view(next@) == done + row_times(row, wv).take(j as int),
                next@.len() <= MAX_WITNESSES,
            decreases ws.len() - j,
        {
            let ghost before = rows_view(next@);
            let mut row2 = clone_patterns(&rows[i]);
            let ghost start = patterns_view(row2@);
            assert(start == row);
            row2.push(ws[j].clone());
            assert(patterns_view(row2@) =~= row.push(wv[j as int]));
            next.push(row2);
            proof {
                assert(rows_view(next@) =~= before.push(row.push(wv[j as int])));
                assert(rows_view(next@) =~= done + row_times(row, wv).take(j + 1));
            }
            if next.len() > MAX_WITNESSES {
                proof {
                    lemma_rows_times_grow(all, wv, i as int);
                }
                return None;
            }
            j = j + 1;
        }
        proof {
            assert(row_times(row, wv).take(j as int) =~= row_times(row, wv));
            assert(all.take(i + 1).drop_last() =~= all.take(i as int));
        }
        i = i + 1;
    }
    assert(all.take(all.len() as int) =~= all);
    Some(next)
}

fn wildcard_set(approximate: bool) -> (r: WitnessSet)
    ensures
        r@ == any_shape(approximate),
{
    let mut patterns: Vec<Pattern> = Vec::new();
    patterns.push(Pattern::Wildcard);
    assert(patterns_view(patterns@) =~= seq![PatternV::Wildcard]);
    WitnessSet { patterns, approximate }
}

fn list_pattern(elements: Vec<Pattern>, open: bool) -> (r: Pattern)
    ensures
        r@ == list_shape(patterns_view(elements@), open),
{
    if open {
        let r = Pattern::List { elements, rest: Some(None) };
        assert(open_rest_name_view(Some(None)) == Some(None::<RestNameV>));
        r
    } else {
        Pattern::List { elements, rest: None }
    }
}

/// Whether an optional set of shapes is what `want` says.
pub open spec fn shows(r: Option<WitnessSet>, want: Option<WitnessesV>) -> bool {
    match (r, want) {
        (Some(a), Some(b)) => a@ == b,
        (None, None) => true,
        _ => false,
    }
}

fn witness_patterns(ty: &Ty, variants: &VariantEnv, depth: usize) -> (r: Option<WitnessSet>)
    ensures
        shows(r, witnesses(ty@, variants@, depth as nat)),
    decreases depth_left(depth as nat), 2nat, *ty,
{
    if depth > MAX_WITNESS_DEPTH {
        return Some(wildcard_set(true));
    }
    match ty {
        Ty::Tuple(items) => tuple_witnesses(items, variants, depth),
        Ty::App(con, args) => {
            if is_array_type(ty) {
                if args.len() == 0 {
                    assert(tys_view(args@).len() == 0);
                    return None;
                }
                assert(tys_view(args@)[0] == ty_view(args@[0]));
                assert(tys_view(args@).len() == args@.len());
                match witness_patterns(&args[0], variants, depth + 1) {
                    None => None,
                    Some(w) => Some(array_witnesses(w)),
                }
            } else {
                match nominal_type(ty) {
                    None => None,
                    Some(name) => constructor_witnesses(ty, &name, variants, depth),
                }
            }
        },
        Ty::Con(name) => {
            if str_eq(name.as_str(), "bool") {
                let mut patterns: Vec<Pattern> = Vec::new();
                patterns.push(Pattern::BoolLit(true));
                patterns.push(Pattern::BoolLit(false));
                assert(patterns_view(patterns@) =~= seq![
                    PatternV::BoolLit(true),
                    PatternV::BoolLit(false),
                ]);
                Some(WitnessSet { patterns, approximate: false })
            } else if str_eq(name.as_str(), "Array") {
                let w = array_witnesses(wildcard_set(false));
                assert(w@.patterns =~= seq![
                    list_shape(Seq::empty(), false),
                    list_shape(seq![PatternV::Wildcard], true),
                ]);
                Some(w)
            } else {
                constructor_witnesses(ty, name, variants, depth)
            }
        },
        Ty::Never => {
            let patterns: Vec<Pattern> = Vec::new();
            assert(patterns_view(patterns@) =~= Seq::empty());
            Some(WitnessSet { patterns, approximate: false })
        },
        Ty::Qualified(_, inner) => witness_patterns(inner, variants, depth),
        _ => Some(wildcard_set(false)),
    }
}

fn array_witnesses(w: WitnessSet) -> (r: WitnessSet)
    ensures
        r@ == (WitnessesV {
            patterns: seq![list_shape(Seq::empty(), false)] + head_shapes(w@.patterns),
            approximate: w@.approximate,
        }),
{
    let ghost all = w@.patterns;
    let ghost first = seq![list_shape(Seq::empty(), false)];
    let mut patterns: Vec<Pattern> = Vec::new();
    let none: Vec<Pattern> = Vec::new();
    assert(patterns_view(none@) =~= Seq::empty());
    patterns.push(list_pattern(none, false));
    let mut i: usize = 0;
    assert(patterns_view(patterns@) =~= first + head_shapes(all).take(0));
    while i < w.patterns.len()
        invariant
            i <= w.patterns.len(),
            all == w@.patterns,
            all.len() == w.patterns@.len(),
            patterns_view(patterns@) == first + head_shapes(all).take(i as int),
        decreases w.patterns.len() - i,
    {
        let ghost before = patterns_view(patterns@);
        let mut elements: Vec<Pattern> = Vec::new();
        elements.push(w.patterns[i].clone());
        assert(patterns_view(elements@) =~= seq![all[i as int]]);
        patterns.push(list_pattern(elements, true));
        proof {
            assert(patterns_view(patterns@) =~= before.push(head_shapes(all)[i as int]));
            assert(patterns_view(patterns@) =~= first + head_shapes(all).take(i + 1));
        }
        i = i + 1;
    }
    assert(head_shapes(all).take(i as int) =~= head_shapes(all));
    WitnessSet { patterns, approximate: w.approximate }
}

fn tuple_witnesses(items: &Vec<Ty>, variants: &VariantEnv, depth: usize) -> (r: Option<WitnessSet>)
    requires
        depth <= MAX_WITNESS_DEPTH,
    ensures
        shows(r, witnesses(TyV::Tuple(tys_view(items@)), variants@, depth as nat)),
    decreases depth_left(depth as nat), 2nat, items@,
{
    let ghost all = tys_view(items@);
    let ghost vs = variants@;
    let ghost d = depth as nat;
    let mut rows: Vec<Vec<Pattern>> = Vec::new();
    rows.push(Vec::new());
    assert(patterns_view(rows@[0]@) =~= Seq::empty());
    assert(rows_view(rows@) =~= seq![Seq::empty()]);
    let mut approximate = false;
    let mut i: usize = 0;
    assert(all.take(0) =~= Seq::empty());
    while i < items.len()
        invariant
            i <= items.len(),
            all == tys_view(items@),
            vs == variants@,
            d == depth as nat,
            depth <= MAX_WITNESS_DEPTH,
            tuple_rows(all.take(i as int), vs, d) == RowsV::Rows(rows_view(rows@), approximate),
        decreases items.len() - i,
    {
        proof {
            assert(all[i as int] == ty_view(items@[i as int]));
            assert(all.take(i + 1).drop_last() =~= all.take(i as int));
            assert(all.take(i + 1).last() == all[i as int]);
        }
        match witness_patterns(&items[i], variants, depth + 1) {
            None => {
                proof {
                    lemma_rows_stuck(all, vs, d, i + 1);
                }
                return None;
            },
            Some(w) => match extend_rows(&rows, &w.patterns) {
                None => {
                    proof {
                        lemma_rows_stuck(all, vs, d, i + 1);
                    }
                    return Some(wildcard_set(true));
                },
                Some(next) => {
                    rows = next;
                    approximate = approximate || w.approximate;
                },
            },
        }
        i = i + 1;
    }
    assert(all.take(all.len() as int) =~= all);
    let patterns = rows_to_tuples(&rows);
    Some(WitnessSet { patterns, approximate })
}

/// Once the combinations can no longer be listed they stay so.
proof fn lemma_rows_stuck(items: Seq<TyV>, variants: VariantsV, depth: nat, i: int)
    requires
        0 <= i <= items.len(),
        depth <= MAX_WITNESS_DEPTH,
        !(tuple_rows(items.take(i), variants, depth) is Rows),
    ensures
        tuple_rows(items, variants, depth) == tuple_rows(items.take(i), variants, depth),
    decreases items.len(),
{
    if i == items.len() {
        assert(items.take(i) =~= items);
    } else {
        assert(items.drop_last().take(i) =~= items.take(i));
        lemma_rows_stuck(items.drop_last(), variants, depth, i);
    }
}

fn rows_to_tuples(rows: &Vec<Vec<Pattern>>) -> (r: Vec<Pattern>)
    ensures
        patterns_view(r@) == tuples(rows_view(rows@)),
{
    let ghost all = rows_view(rows@);
    let mut out: Vec<Pattern> = Vec::new();
    let mut i: usize = 0;
    while i < rows.len()
        invariant
            i <= rows.len(),
            all == rows_view(rows@),
            out@.len() == i,
            forall|j: int| 0 <= j < i ==> pattern_view(#[trigger] out@[j]) == tuples(all)[j],
        decreases rows.len() - i,
    {
        let items = clone_patterns(&rows[i]);
        assert(patterns_view(items@) == all[i as int]);
        out.push(Pattern::Tuple(items));
        i = i + 1;
    }
    assert(patterns_view(out@) =~= tuples(all));
    out
}

fn variants_of_type(variants: &VariantEnv, owner: &str) -> (r: Vec<String>)
    ensures
        strings_view(r@) == variants_named(variants@, owner@),
        forall|i: int|
            0 <= i < r@.len() ==> variants@.dom().contains((#[trigger] r@[i])@),
{
    let names = variants.0.names();
    let ghost all = strings_view(names@);
    let ghost vs = variants@;
    let mut out: Vec<String> = Vec::new();
    let mut i: usize = 0;
    assert(strings_view(out@) =~= Seq::empty());
    assert(all.take(0) =~= Seq::empty());
    while i < names.len()
        invariant
            i <= names.len(),
            all == strings_view(names@),
            vs == variants@,
            forall|n: Seq<char>| #[trigger] all.contains(n) <==> vs.dom().contains(n),
            strings_view(out@) == variants_among(all.take(i as int), vs, owner@),
            forall|j: int| 0 <= j < out@.len() ==> vs.dom().contains((#[trigger] out@[j])@),
        decreases names.len() - i,
    {
        let ghost before = strings_view(out@);
        assert(all[i as int] == names@[i as int]@);
        assert(all.contains(all[i as int]));
        if let Some(info) = variants.0.get(names[i].as_str()) {
            if str_eq(info.nominal_name.as_str(), owner) {
                out.push(names[i].clone());
                assert(strings_view(out@) =~= before.push(all[i as int]));
            }
        }
        assert(all.take(i + 1).drop_last() =~= all.take(i as int));
        i = i + 1;
    }
    assert(all.take(all.len() as int) =~= all);
    out
}

/// Once the shapes of variants can no longer be listed they stay so.
proof fn lemma_variants_stuck(
    ty: TyV,
    names: Seq<Seq<char>>,
    variants: VariantsV,
    depth: nat,
    i: int,
)
    requires
        0 <= i <= names.len(),
        depth <= MAX_WITNESS_DEPTH,
        !(variant_rows(ty, names.take(i), variants, depth) is Rows),
    ensures
        variant_rows(ty, names, variants, depth) == variant_rows(
            ty,
            names.take(i),
            variants,
            depth,
        ),
    decreases names.len(),
{
    if i == names.len() {
        assert(names.take(i) =~= names);
    } else {
        assert(names.drop_last().take(i) =~= names.take(i));
        lemma_variants_stuck(ty, names.drop_last(), variants, depth, i);
    }
}

fn push_constructors(out: &mut Vec<Pattern>, name: &String, payloads: &Vec<Pattern>) -> (r: bool)
    ensures
        r ==> patterns_view(final(out)@) == patterns_view(old(out)@) + constructor_shapes(
            name@,
            patterns_view(payloads@),
        ) && (payloads@.len() > 0 ==> final(out)@.len() <= MAX_WITNESSES),
        !r ==> payloads@.len() > 0 && old(out)@.len() + payloads@.len() > MAX_WITNESSES,
{
    let ghost start = patterns_view(out@);
    let ghost all = patterns_view(payloads@);
    let ghost want = constructor_shapes(name@, all);
    let mut i: usize = 0;
    assert(start =~= start + want.take(0));
    while i < payloads.len()
        invariant
            i <= payloads.len(),
            all == patterns_view(payloads@),
            want == constructor_shapes(name@, all),
            start.len() == old(out)@.len(),
            out@.len() == start.len() + i,
            patterns_view(out@) == start + want.take(i as int),
            i > 0 ==> out@.len() <= MAX_WITNESSES,
        decreases payloads.len() - i,
    {
        let ghost before = patterns_view(out@);
        let payload = payloads[i].clone();
        let p = Pattern::Constructor { name: name.clone(), binding: Some(Box::new(payload)) };
        assert(all[i as int] == payload@);
        assert(boxed_pattern_view(Some(Box::new(payload))) == Some(Box::new(payload@)));
        assert(p@ == want[i as int]);
        out.push(p);
        proof {
            assert(patterns_view(out@) =~= before.push(want[i as int]));
            assert(patterns_view(out@) =~= start + want.take(i + 1));
        }
        if out.len() > MAX_WITNESSES {
            return false;
        }
        i = i + 1;
    }
    assert(want.take(i as int) =~= want);
    true
}

fn constructor_witnesses(ty: &Ty, owner: &String, variants: &VariantEnv, depth: usize) -> (r: Option<
    WitnessSet,
>)
    requires
        depth <= MAX_WITNESS_DEPTH,
    ensures
        shows(r, nominal_witnesses(ty@, owner@, variants@, depth as nat)),
    decreases depth_left(depth as nat), 1nat, *ty,
{
    let names = variants_of_type(variants, owner.as_str());
    let ghost all = strings_view(names@);
    let ghost vs = variants@;
    let ghost d = depth as nat;
    if names.len() == 0 {
        return Some(wildcard_set(false));
    }
    let mut out: Vec<Pattern> = Vec::new();
    let mut approximate = false;
    let mut i: usize = 0;
    assert(all.take(0) =~= Seq::empty());
    assert(patterns_view(out@) =~= Seq::empty());
    while i < names.len()
        invariant
            i <= names.len(),
            all == strings_view(names@),
            vs == variants@,
            d == depth as nat,
            depth <= MAX_WITNESS_DEPTH,
            all == variants_named(vs, owner@),
            all.len() > 0,
            forall|j: int| 0 <= j < names@.len() ==> vs.dom().contains((#[trigger] names@[j])@),
            variant_rows(ty@, all.take(i as int), vs, d) == RowsV::Rows(
                seq![patterns_view(out@)],
                approximate,
            ),
        decreases names.len() - i,
    {
        let ghost before = patterns_view(out@);
        proof {
            assert(all[i as int] == names@[i as int]@);
            assert(all.take(i + 1).drop_last() =~= all.take(i as int));
            assert(all.take(i + 1).last() == all[i as int]);
            assert(vs.dom().contains(names@[i as int]@));
        }
        let info = match variants.0.get(names[i].as_str()) {
            Some(info) => info,
            None => {
                assert(false);
                return None;
            },
        };
        match instantiated_payload_ty(ty, info) {
            None => {
                let p = Pattern::Constructor { name: names[i].clone(), binding: None };
                assert(boxed_pattern_view(None) == None::<Box<PatternV>>);
                out.push(p);
                assert(patterns_view(out@) =~= before.push(
                    PatternV::Constructor { name: all[i as int], binding: None },
                ));
            },
            Some(payload) => {
                let w = match witness_patterns(&payload, variants, depth + 1) {
                    Some(w) => w,
                    None => wildcard_set(false),
                };
                if !push_constructors(&mut out, &names[i], &w.patterns) {
                    proof {
                        lemma_variants_stuck(ty@, all, vs, d, i + 1);
                    }
                    return Some(wildcard_set(true));
                }
                approximate = approximate || w.approximate;
            },
        }
        i = i + 1;
    }
    assert(all.take(all.len() as int) =~= all);
    Some(WitnessSet { patterns: out, approximate })
}

// ---------------------------------------------------------------------------
// Matches
// ---------------------------------------------------------------------------

/// Whether one of `arms` covers the shape `w`.
pub open spec fn some_arm_covers(arms: Seq<PatternV>, w: PatternV) -> bool {
    exists|i: int| 0 <= i < arms.len() && covers(#[trigger] arms[i], w)
}

/// The first of `ws` that no arm covers.
pub open spec fn first_uncovered(arms: Seq<PatternV>, ws: Seq<PatternV>) -> Option<PatternV>
    decreases ws.len(),
{
    if ws.len() == 0 {
        None
    } else if some_arm_covers(arms, ws[0]) {
        first_uncovered(arms, ws.skip(1))
    } else {
        Some(ws[0])
    }
}

fn is_covered(arms: &Vec<&Pattern>, w: &Pattern) -> (r: bool)
    ensures
        r == some_arm_covers(arms_view(arms@), w@),
{
    let ghost all = arms_view(arms@);
    let mut i: usize = 0;
    while i < arms.len()
        invariant
            i <= arms.len(),
            all == arms_view(arms@),
            forall|j: int| 0 <= j < i ==> !covers(#[trigger] all[j], w@),
        decreases arms.len() - i,
    {
        assert(all[i as int] == arms@[i as int]@);
        if pattern_covers(arms[i], w) {
            return true;
        }
        i = i + 1;
    }
    false
}

/// The views of the patterns of arms.
pub open spec fn arms_view(s: Seq<&Pattern>) -> Seq<PatternV> {
    Seq::new(s.len(), |i: int| s[i]@)
}

fn first_uncovered_witness(arms: &Vec<&Pattern>, ws: &Vec<Pattern>) -> (r: Option<usize>)
    ensures
        r matches Some(i) ==> i < ws@.len() && first_uncovered(
            arms_view(arms@),
            patterns_view(ws@),
        ) == Some(ws@[i as int]@),
        r is None ==> first_uncovered(arms_view(arms@), patterns_view(ws@)) is None,
{
    let ghost all = patterns_view(ws@);
    let ghost av = arms_view(arms@);
    let mut i: usize = 0;
    assert(all.skip(0) =~= all);
    while i < ws.len()
        invariant
            i <= ws.len(),
            all == patterns_view(ws@),
            av == arms_view(arms@),
            first_uncovered(av, all) == first_uncovered(av, all.skip(i as int)),
        decreases ws.len() - i,
    {
        assert(all.skip(i as int)[0] == pattern_view(ws@[i as int]));
        if !is_covered(arms, &ws[i]) {
            return Some(i);
        }
        assert(all.skip(i as int).skip(1) =~= all.skip(i + 1));
        i = i + 1;
    }
    None
}

/// The error of a match that leaves out `missing`.
pub open spec fn leaves_out(missing: PatternV, approximate: bool) -> TypeErrorV {
    TypeErrorV::NonExhaustiveMatch { missing: missing_text(missing, approximate) }
}

/// The lists of `len` elements, each of one of the shapes `ws`.
pub open spec fn length_rows(ws: Seq<PatternV>, len: nat) -> RowsV
    decreases len,
{
    if len == 0 {
        RowsV::Rows(seq![Seq::empty()], false)
    } else {
        match length_rows(ws, (len - 1) as nat) {
            RowsV::Rows(rows, a) => {
                let next = rows_times(rows, ws);
                if next.len() > MAX_WITNESSES {
                    RowsV::Capped
                } else {
                    RowsV::Rows(next, a)
                }
            },
            other => other,
        }
    }
}

/// Each row as a list.
pub open spec fn lists(rows: Seq<Seq<PatternV>>, open: bool) -> Seq<PatternV> {
    Seq::new(rows.len(), |i: int| list_shape(rows[i], open))
}

/// The shapes of lists of `len` elements, or of at least as many if `open`.
pub open spec fn length_witnesses(ws: Seq<PatternV>, len: nat, open: bool) -> WitnessesV {
    match length_rows(ws, len) {
        RowsV::Rows(rows, _) => WitnessesV { patterns: lists(rows, open), approximate: false },
        _ => WitnessesV {
            patterns: seq![list_shape(Seq::new(len, |i: int| PatternV::Wildcard), open)],
            approximate: true,
        },
    }
}

proof fn lemma_lengths_stuck(ws: Seq<PatternV>, i: nat, len: nat)
    requires
        i <= len,
        length_rows(ws, i) is Capped,
    ensures
        length_rows(ws, len) is Capped,
    decreases len,
{
    if i < len {
        lemma_lengths_stuck(ws, i, (len - 1) as nat);
    }
}

fn list_witnesses_of_len(ws: &Vec<Pattern>, len: usize, open: bool) -> (r: WitnessSet)
    ensures
        r@ == length_witnesses(patterns_view(ws@), len as nat, open),
{
    let ghost wv = patterns_view(ws@);
    let mut rows: Vec<Vec<Pattern>> = Vec::new();
    rows.push(Vec::new());
    assert(patterns_view(rows@[0]@) =~= Seq::empty());
    assert(rows_view(rows@) =~= seq![Seq::empty()]);
    let mut i: usize = 0;
    while i < len
        invariant
            i <= len,
            wv == patterns_view(ws@),
            length_rows(wv, i as nat) == RowsV::Rows(rows_view(rows@), false),
        decreases len - i,
    {
        match extend_rows(&rows, ws) {
            Some(next) => {
                rows = next;
            },
            None => {
                proof {
                    assert(length_rows(wv, (i + 1) as nat) is Capped);
                    lemma_lengths_stuck(wv, (i + 1) as nat, len as nat);
                }
                let elements = wildcards(len);
                let mut patterns: Vec<Pattern> = Vec::new();
                patterns.push(list_pattern(elements, open));
                assert(patterns_view(patterns@) =~= seq![
                    list_shape(Seq::new(len as nat, |i: int| PatternV::Wildcard), open),
                ]);
                return WitnessSet { patterns, approximate: true };
            },
        }
        i = i + 1;
    }
    let ghost all = rows_view(rows@);
    let mut patterns: Vec<Pattern> = Vec::new();
    let mut k: usize = 0;
    while k < rows.len()
        invariant
            k <= rows.len(),
            all == rows_view(rows@),
            patterns@.len() == k,
            forall|j: int|
                0 <= j < k ==> pattern_view(#[trigger] patterns@[j]) == lists(all, open)[j],
        decreases rows.len() - k,
    {
        let elements = clone_patterns(&rows[k]);
        assert(patterns_view(elements@) == all[k as int]);
        patterns.push(list_pattern(elements, open));
        k = k + 1;
    }
    assert(patterns_view(patterns@) =~= lists(all, open));
    WitnessSet { patterns, approximate: false }
}

fn wildcards(len: usize) -> (r: Vec<Pattern>)
    ensures
        patterns_view(r@) == Seq::new(len as nat, |i: int| PatternV::Wildcard),
{
    let mut out: Vec<Pattern> = Vec::new();
    let mut i: usize = 0;
    while i < len
        invariant
            i <= len,
            out@.len() == i,
            forall|j: int|
                0 <= j < i ==> pattern_view(#[trigger] out@[j]) == PatternV::Wildcard,
        decreases len - i,
    {
        out.push(Pattern::Wildcard);
        i = i + 1;
    }
    assert(patterns_view(out@) =~= Seq::new(len as nat, |i: int| PatternV::Wildcard));
    out
}

/// How many elements an open list pattern asks for.
pub open spec fn open_len(p: PatternV) -> Option<nat> {
    match p {
        PatternV::List { elements, rest } => if rest is Some {
            Some(elements.len())
        } else {
            None
        },
        _ => None,
    }
}

/// The most elements that an open list pattern among `arms` asks for; `None`
/// if there is no such pattern.
pub open spec fn max_open(arms: Seq<PatternV>) -> Option<nat>
    decreases arms.len(),
{
    if arms.len() == 0 {
        None
    } else {
        match (max_open(arms.drop_last()), open_len(arms.last())) {
            (Some(a), Some(b)) => Some(
                if b > a {
                    b
                } else {
                    a
                },
            ),
            (Some(a), None) => Some(a),
            (None, b) => b,
        }
    }
}

fn longest_open(arms: &Vec<&Pattern>) -> (r: Option<usize>)
    ensures
        match (r, max_open(arms_view(arms@))) {
            (Some(a), Some(b)) => a == b,
            (None, None) => true,
            _ => false,
        },
{
    let ghost all = arms_view(arms@);
    let mut best: Option<usize> = None;
    let mut i: usize = 0;
    assert(all.take(0) =~= Seq::empty());
    while i < arms.len()
        invariant
            i <= arms.len(),
            all == arms_view(arms@),
            match (best, max_open(all.take(i as int))) {
                (Some(a), Some(b)) => a == b,
                (None, None) => true,
                _ => false,
            },
        decreases arms.len() - i,
    {
        assert(all.take(i + 1).drop_last() =~= all.take(i as int));
        assert(all.take(i + 1).last() == arms@[i as int]@);
        if let Pattern::List { elements, rest } = arms[i] {
            if rest.is_some() {
                assert(open_len(arms@[i as int]@) == Some(elements@.len()));
                match best {
                    Some(b) => {
                        if elements.len() > b {
                            best = Some(elements.len());
                        }
                    },
                    None => {
                        best = Some(elements.len());
                    },
                }
            }
        }
        i = i + 1;
    }
    assert(all.take(all.len() as int) =~= all);
    best
}

/// The verdict on the lists of up to `len` elements, the shorter first.
pub open spec fn lengths_verdict(arms: Seq<PatternV>, w: WitnessesV, len: nat) -> Option<TypeErrorV>
    decreases len,
{
    if len == 0 {
        None
    } else {
        match lengths_verdict(arms, w, (len - 1) as nat) {
            Some(e) => Some(e),
            None => length_verdict(arms, w, (len - 1) as nat, false),
        }
    }
}

/// The verdict on the lists of `len` elements, or of at least as many.
pub open spec fn length_verdict(
    arms: Seq<PatternV>,
    w: WitnessesV,
    len: nat,
    open: bool,
) -> Option<TypeErrorV> {
    let shapes = length_witnesses(w.patterns, len, open);
    match first_uncovered(arms, shapes.patterns) {
        Some(missing) => Some(leaves_out(missing, w.approximate || shapes.approximate)),
        None => None,
    }
}

/// The verdict on a match over an array. List patterns only inspect a finite
/// prefix: every exact length below the longest open pattern is looked at, and
/// then one open shape of that length, which stands for all longer arrays.
pub open spec fn array_verdict(arms: Seq<PatternV>, element: TyV, variants: VariantsV) -> Option<
    TypeErrorV,
> {
    match max_open(arms) {
        None => Some(
            TypeErrorV::NonExhaustiveMatch {
                missing:
                    "non-exhaustive: arrays longer than the matched lengths are not covered — add [head, ..] or _ arm"@,
            },
        ),
        Some(len) => {
            let w = match witnesses(element, variants, 0) {
                Some(w) => w,
                None => any_shape(false),
            };
            match lengths_verdict(arms, w, len) {
                Some(e) => Some(e),
                None => length_verdict(arms, w, len, true),
            }
        },
    }
}

/// The verdict on a match: the error if it leaves something out.
pub open spec fn match_verdict(arms: Seq<PatternV>, scrutinee: TyV, variants: VariantsV) -> Option<
    TypeErrorV,
> {
    if exists|i: int| 0 <= i < arms.len() && catch_all(#[trigger] arms[i]) {
        None
    } else {
        match element_of(scrutinee) {
            Some(element) => array_verdict(arms, element, variants),
            None => match witnesses(scrutinee, variants, 0) {
                None => Some(
                    TypeErrorV::NonExhaustiveMatch {
                        missing: "non-exhaustive match — add a wildcard (_) arm"@,
                    },
                ),
                Some(w) => match first_uncovered(arms, w.patterns) {
                    Some(missing) => Some(leaves_out(missing, w.approximate)),
                    None => None,
                },
            },
        }
    }
}

/// Whether a check went as `want` says.
pub open spec fn verdict_is(r: Result<(), TypeError>, want: Option<TypeErrorV>) -> bool {
    match (r, want) {
        (Ok(_), None) => true,
        (Err(a), Some(b)) => a@ == b,
        _ => false,
    }
}

fn check_length(arms: &Vec<&Pattern>, w: &WitnessSet, len: usize, open: bool) -> (r: Result<
    (),
    TypeError,
>)
    ensures
        verdict_is(r, length_verdict(arms_view(arms@), w@, len as nat, open)),
{
    let shapes = list_witnesses_of_len(&w.patterns, len, open);
    match first_uncovered_witness(arms, &shapes.patterns) {
        Some(i) => Err(
            TypeError::NonExhaustiveMatch {
                missing: missing_pattern_message(
                    &shapes.patterns[i],
                    w.approximate || shapes.approximate,
                ),
            },
        ),
        None => Ok(()),
    }
}

proof fn lemma_lengths_verdict(arms: Seq<PatternV>, w: WitnessesV, i: nat, len: nat)
    requires
        i <= len,
        lengths_verdict(arms, w, i) is Some,
    ensures
        lengths_verdict(arms, w, len) == lengths_verdict(arms, w, i),
    decreases len,
{
    if i < len {
        lemma_lengths_verdict(arms, w, i, (len - 1) as nat);
    }
}

fn check_array_exhaustive(arms: &Vec<&Pattern>, element: &Ty, variants: &VariantEnv) -> (r: Result<
    (),
    TypeError,
>)
    ensures
        verdict_is(r, array_verdict(arms_view(arms@), element@, variants@)),
{
    let ghost av = arms_view(arms@);
    let len = match longest_open(arms) {
        Some(len) => len,
        None => {
            return Err(
                TypeError::NonExhaustiveMatch {
                    missing:
                        "non-exhaustive: arrays longer than the matched lengths are not covered — add [head, ..] or _ arm".to_owned(),
                },
            );
        },
    };
    let w = match witness_patterns(element, variants, 0) {
        Some(w) => w,
        None => wildcard_set(false),
    };
    let mut i: usize = 0;
    while i < len
        invariant
            i <= len,
            av == arms_view(arms@),
            lengths_verdict(av, w@, i as nat) is None,
            max_open(av) == Some(len as nat),
            w@ == (match witnesses(element@, variants@, 0) {
                Some(w) => w,
                None => any_shape(false),
            }),
        decreases len - i,
    {
        match check_length(arms, &w, i, false) {
            Err(e) => {
                proof {
                    assert(lengths_verdict(av, w@, (i + 1) as nat) == Some(e@));
                    lemma_lengths_verdict(av, w@, (i + 1) as nat, len as nat);
                }
                return Err(e);
            },
            Ok(_) => {},
        }
        i = i + 1;
    }
    check_length(arms, &w, len, true)
}

/// Checks that a match covers everything its scrutinee can be.
pub fn check_exhaustive_match(arms: &Vec<&Pattern>, scrutinee: &Ty, variants: &VariantEnv) -> (r: Result<
    (),
    TypeError,
>)
    ensures
        verdict_is(r, match_verdict(arms_view(arms@), scrutinee@, variants@)),
{
    let ghost av = arms_view(arms@);
    let mut i: usize = 0;
    while i < arms.len()
        invariant
            i <= arms.len(),
            av == arms_view(arms@),
            forall|j: int| 0 <= j < i ==> !catch_all(#[trigger] av[j]),
        decreases arms.len() - i,
    {
        assert(av[i as int] == arms@[i as int]@);
        if pattern_is_catch_all(arms[i]) {
            return Ok(());
        }
        i = i + 1;
    }
    if let Some(element) = array_element_ty(scrutinee) {
        return check_array_exhaustive(arms, element, variants);
    }
    match witness_patterns(scrutinee, variants, 0) {
        None => Err(
            TypeError::NonExhaustiveMatch {
                missing: "non-exhaustive match — add a wildcard (_) arm".to_owned(),
            },
        ),
        Some(w) => match first_uncovered_witness(arms, &w.patterns) {
            Some(i) => Err(
                TypeError::NonExhaustiveMatch {
                    missing: missing_pattern_message(&w.patterns[i], w.approximate),
                },
            ),
            None => Ok(()),
        },
    }
}

} // verus!
