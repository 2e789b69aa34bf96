//! The names that statements bind and mention, by which checking goes on after
//! a statement was refused.

use vstd::prelude::*;

use crate::ast::{ArrayEntry, Expr, ExprKind, FnDef, ImplMethod, InherentMethod, MatchArm};
use crate::ast::{NamedType, Param, Pattern, RecordEntry, Stmt, TraitMethod, Type, TypeBound};
use crate::ast::{TypeParam, VariantDef};
use crate::ast_view::{array_entries_view, array_entry_view, expr_kind_view, expr_view, exprs_view};
use crate::ast_view::{fn_def_view, impl_def_view, impl_method_view, impl_methods_view};
use crate::ast_view::{inherent_impl_def_view, inherent_method_view, inherent_methods_view};
use crate::ast_view::{match_arm_view, match_arms_view, named_type_view, named_types_view};
use crate::ast_view::{param_view, params_view, pattern_view, patterns_view, record_entries_view};
use crate::ast_view::{record_entry_view, some_type_return_view, some_type_view, stmt_view};
use crate::ast_view::{stmts_view, trait_def_view, trait_method_view, trait_methods_view};
use crate::ast_view::{boxed_expr_view, type_bound_view, type_bounds_view, type_def_view};
use crate::ast_view::{type_param_view, type_params_view, type_return_view, type_view, types_view};
use crate::ast_view::{variant_def_view, variant_defs_view, ArrayEntryV, ExprKindV, ExprV, FnDefV};
use crate::ast_view::{ImplMethodV, InherentMethodV, MatchArmV, NamedTypeV, ParamV, PatternV};
use crate::ast_view::{RecordEntryV, StmtV, TraitMethodV, TypeBoundV, TypeParamV, TypeReturnV};
use crate::ast_view::{TypeV, VariantDefV};
use crate::patterns::{bound_names, insert_pattern_bindings};
use crate::tables::NameSet;
use crate::text::strings_view;

verus! {

/// Top-level names tracked for recovery decisions.
///
/// Value, type, and trait namespaces are kept separate so a failed declaration
/// does not suppress an unrelated declaration with the same spelling in another
/// namespace.
#[derive(Debug)]
pub struct CollectedNames {
    pub values: NameSet,
    pub types: NameSet,
    pub traits: NameSet,
}

/// The view of [`CollectedNames`].
#[verifier::ext_equal]
pub struct NamesFoundV {
    pub values: Set<Seq<char>>,
    pub types: Set<Seq<char>>,
    pub traits: Set<Seq<char>>,
}

impl View for CollectedNames {
    type V = NamesFoundV;

    open spec fn view(&self) -> NamesFoundV {
        NamesFoundV { values: self.values@, types: self.types@, traits: self.traits@ }
    }
}

/// No names.
pub open spec fn no_names_found() -> NamesFoundV {
    NamesFoundV { values: Set::empty(), types: Set::empty(), traits: Set::empty() }
}

impl Clone for CollectedNames {
    fn clone(&self) -> (r: Self)
        ensures
            r@ == self@,
    {
        CollectedNames {
            values: self.values.clone(),
            types: self.types.clone(),
            traits: self.traits.clone(),
        }
    }
}

impl Default for CollectedNames {
    fn default() -> (r: Self)
        ensures
            r@ == no_names_found(),
    {
        CollectedNames { values: NameSet::new(), types: NameSet::new(), traits: NameSet::new() }
    }
}

impl CollectedNames {
    /// Adds the names of `other`.
    pub fn extend(&mut self, other: &CollectedNames)
        ensures
            final(self)@ == (NamesFoundV {
                values: old(self)@.values.union(other@.values),
                types: old(self)@.types.union(other@.types),
                traits: old(self)@.traits.union(other@.traits),
            }),
    {
        self.values.extend(&other.values);
        self.types.extend(&other.types);
        self.traits.extend(&other.traits);
    }

    /// Whether a name stands in both, in the same namespace.
    pub fn overlaps(&self, other: &CollectedNames) -> (r: bool)
        ensures
            r == names_overlap(self@, other@),
    {
        self.values.overlaps(&other.values) || self.types.overlaps(&other.types)
            || self.traits.overlaps(&other.traits)
    }

    /// Removes the names of `other`.
    pub fn remove_all(&mut self, other: &CollectedNames)
        ensures
            final(self)@ == (NamesFoundV {
                values: old(self)@.values.difference(other@.values),
                types: old(self)@.types.difference(other@.types),
                traits: old(self)@.traits.difference(other@.traits),
            }),
    {
        self.values.remove_all(&other.values);
        self.types.remove_all(&other.types);
        self.traits.remove_all(&other.traits);
    }
}

/// Whether a name stands in both sets.
pub open spec fn sets_overlap(a: Set<Seq<char>>, b: Set<Seq<char>>) -> bool {
    exists|n: Seq<char>| #[trigger] a.contains(n) && b.contains(n)
}

/// Whether a name stands in both, in the same namespace.
pub open spec fn names_overlap(a: NamesFoundV, b: NamesFoundV) -> bool {
    sets_overlap(a.values, b.values) || sets_overlap(a.types, b.types) || sets_overlap(
        a.traits,
        b.traits,
    )
}

/// The names in `acc` and those that a statement binds.
pub open spec fn bind_stmt(acc: NamesFoundV, stmt: StmtV) -> NamesFoundV
    decreases stmt,
{
    match stmt {
        StmtV::Let { pat, .. } => NamesFoundV { values: acc.values.union(bound_names(pat)), ..acc },
        StmtV::Fn(def) => NamesFoundV { values: acc.values.insert(def.name), ..acc },
        StmtV::Op(def) => NamesFoundV { values: acc.values.insert(def.name), ..acc },
        StmtV::Extern { name, .. } => NamesFoundV { values: acc.values.insert(name), ..acc },
        StmtV::Type(td) => bind_variants(
            NamesFoundV { types: acc.types.insert(td.name), ..acc },
            td.variants,
        ),
        StmtV::TypeAlias { name, .. } => NamesFoundV { types: acc.types.insert(name), ..acc },
        StmtV::Trait(td) => NamesFoundV { traits: acc.traits.insert(td.name), ..acc },
        StmtV::Impl(id) => NamesFoundV { traits: acc.traits.insert(id.trait_name), ..acc },
        StmtV::RecBlock { stmts, .. } => bind_stmts(acc, stmts),
        _ => acc,
    }
}

pub open spec fn bind_variants(acc: NamesFoundV, s: Seq<VariantDefV>) -> NamesFoundV
    decreases s,
{
    if s.len() == 0 {
        acc
    } else {
        let acc = bind_variants(acc, s.drop_last());
        NamesFoundV { values: acc.values.insert(s.last().name), ..acc }
    }
}

pub open spec fn bind_stmts(acc: NamesFoundV, s: Seq<StmtV>) -> NamesFoundV
    decreases s,
{
    if s.len() == 0 {
        acc
    } else {
        let acc = bind_stmts(acc, s.drop_last());
        bind_stmt(acc, s.last())
    }
}

fn insert_stmt_names(acc: &mut CollectedNames, stmt: &Stmt)
    ensures
        final(acc)@ == bind_stmt(old(acc)@, stmt@),
    decreases *stmt,
{
    match stmt {
        Stmt::Let { pat, .. } => {
            insert_pattern_bindings(&mut acc.values, pat);
        },
        Stmt::Fn(def) => {
            acc.values.insert(def.name.clone());
        },
        Stmt::Op(def) => {
            acc.values.insert(def.name.clone());
        },
        Stmt::Extern { name, .. } => {
            acc.values.insert(name.clone());
        },
        Stmt::Type(td) => {
            acc.types.insert(td.name.clone());
            insert_variant_names(acc, &td.variants);
        },
        Stmt::TypeAlias { name, .. } => {
            acc.types.insert(name.clone());
        },
        Stmt::Trait(td) => {
            acc.traits.insert(td.name.clone());
        },
        Stmt::Impl(id) => {
            acc.traits.insert(id.trait_name.clone());
        },
        Stmt::RecBlock { stmts, .. } => {
            insert_stmts_names(acc, stmts);
        },
        _ => {},
    }
}

fn insert_variant_names(acc: &mut CollectedNames, s: &Vec<VariantDef>)
    ensures
        final(acc)@ == bind_variants(old(acc)@, variant_defs_view(s@)),
    decreases s@,
{
    let ghost all = variant_defs_view(s@);
    let ghost start = acc@;
    let mut i: usize = 0;
    assert(all.take(0) =~= Seq::empty());
    while i < s.len()
        invariant
            i <= s.len(),
            all == variant_defs_view(s@),
            start == old(acc)@,
            acc@ == bind_variants(start, all.take(i as int)),
        decreases s.len() - i,
    {
        proof {
            assert(all.take(i + 1).drop_last() =~= all.take(i as int));
            assert(all.take(i + 1).last() == variant_def_view(s@[i as int]));
        }
        acc.values.insert(s[i].name.clone());
        i = i + 1;
    }
    assert(all.take(all.len() as int) =~= all);
}

fn insert_stmts_names(acc: &mut CollectedNames, s: &Vec<Stmt>)
    ensures
        final(acc)@ == bind_stmts(old(acc)@, stmts_view(s@)),
    decreases s@,
{
    let ghost all = stmts_view(s@);
    let ghost start = acc@;
    let mut i: usize = 0;
    assert(all.take(0) =~= Seq::empty());
    while i < s.len()
        invariant
            i <= s.len(),
            all == stmts_view(s@),
            start == old(acc)@,
            acc@ == bind_stmts(start, all.take(i as int)),
        decreases s.len() - i,
    {
        proof {
            assert(all.take(i + 1).drop_last() =~= all.take(i as int));
            assert(all.take(i + 1).last() == stmt_view(s@[i as int]));
        }
        assert(decreases_to!(s@ => s@[i as int]));
        insert_stmt_names(acc, &s[i]);
        i = i + 1;
    }
    assert(all.take(all.len() as int) =~= all);
}

/// The names that a statement binds.
pub fn stmt_bound_names(stmt: &Stmt) -> (r: CollectedNames)
    ensures
        r@ == bind_stmt(no_names_found(), stmt@),
{
    let mut names = CollectedNames::default();
    insert_stmt_names(&mut names, stmt);
    names
}

// ---------------------------------------------------------------------------
// Mentioned names
// ---------------------------------------------------------------------------

/// The names in `acc` and those that a written type mentions; `ts` are the
/// types of the scope.
pub open spec fn mention_type(acc: NamesFoundV, ty: TypeV, ts: Set<Seq<char>>) -> NamesFoundV
    decreases ty,
{
    match ty {
        TypeV::Ident(name) => if ts.contains(name) {
            acc
        } else {
            NamesFoundV { types: acc.types.insert(name), ..acc }
        },
        TypeV::App(con, args) => mention_types(mention_type(acc, *con, ts), args, ts),
        TypeV::Func(params, ret) => mention_type(mention_type_params(acc, params, ts), *ret.ty, ts),
        TypeV::Tuple(items) => mention_types(acc, items, ts),
        TypeV::Record(fields, _) => mention_named_types(acc, fields, ts),
        _ => acc,
    }
}

pub open spec fn mention_types(acc: NamesFoundV, s: Seq<TypeV>, ts: Set<Seq<char>>) -> NamesFoundV
    decreases s,
{
    if s.len() == 0 {
        acc
    } else {
        let acc = mention_types(acc, s.drop_last(), ts);
        mention_type(acc, s.last(), ts)
    }
}

pub open spec fn mention_type_params(acc: NamesFoundV, s: Seq<TypeParamV>, ts: Set<Seq<char>>) -> NamesFoundV
    decreases s,
{
    if s.len() == 0 {
        acc
    } else {
        let acc = mention_type_params(acc, s.drop_last(), ts);
        mention_type(acc, s.last().ty, ts)
    }
}

pub open spec fn mention_named_types(acc: NamesFoundV, s: Seq<NamedTypeV>, ts: Set<Seq<char>>) -> NamesFoundV
    decreases s,
{
    if s.len() == 0 {
        acc
    } else {
        let acc = mention_named_types(acc, s.drop_last(), ts);
        mention_type(acc, s.last().ty, ts)
    }
}

/// The names in `acc` and the constructors that a pattern mentions.
pub open spec fn mention_pattern(acc: NamesFoundV, pat: PatternV) -> NamesFoundV
    decreases pat,
{
    match pat {
        PatternV::Constructor { name, .. } => NamesFoundV {
            values: acc.values.insert(name),
            ..acc
        },
        PatternV::List { elements, .. } => mention_patterns(acc, elements),
        PatternV::Tuple(items) => mention_patterns(acc, items),
        _ => acc,
    }
}

pub open spec fn mention_patterns(acc: NamesFoundV, s: Seq<PatternV>) -> NamesFoundV
    decreases s,
{
    if s.len() == 0 {
        acc
    } else {
        let acc = mention_patterns(acc, s.drop_last());
        mention_pattern(acc, s.last())
    }
}

pub open spec fn mention_annotation(
    acc: NamesFoundV,
    ty: Option<TypeV>,
    ts: Set<Seq<char>>,
) -> NamesFoundV {
    match ty {
        Some(t) => mention_type(acc, t, ts),
        None => acc,
    }
}

pub open spec fn mention_return(
    acc: NamesFoundV,
    ty: Option<TypeReturnV>,
    ts: Set<Seq<char>>,
) -> NamesFoundV {
    match ty {
        Some(r) => mention_type(acc, *r.ty, ts),
        None => acc,
    }
}

/// The names in `acc` and those that the annotations of parameters mention.
pub open spec fn mention_params(acc: NamesFoundV, s: Seq<ParamV>, ts: Set<Seq<char>>) -> NamesFoundV
    decreases s,
{
    if s.len() == 0 {
        acc
    } else {
        let acc = mention_params(acc, s.drop_last(), ts);
        mention_annotation(acc, s.last().ty, ts)
    }
}

/// The names in `acc` and those that parameters bind.
pub open spec fn bind_params(acc: Set<Seq<char>>, s: Seq<ParamV>) -> Set<Seq<char>>
    decreases s,
{
    if s.len() == 0 {
        acc
    } else {
        let acc = bind_params(acc, s.drop_last());
        acc.union(bound_names(s.last().pat))
    }
}

/// The names in `acc` and those that a function mentions: `vs` are the values of
/// the scope it stands in.
pub open spec fn mention_function(
    acc: NamesFoundV,
    params: Seq<ParamV>,
    ret_type: Option<TypeReturnV>,
    body: ExprV,
    vs: Set<Seq<char>>,
    ts: Set<Seq<char>>,
) -> NamesFoundV
    decreases body, 1nat,
{
    mention_expr(
        mention_return(mention_params(acc, params, ts), ret_type, ts),
        body,
        bind_params(vs, params),
        ts,
    )
}

/// The names in `acc` and those that an expression mentions and that are not in
/// scope.
pub open spec fn mention_expr(
    acc: NamesFoundV,
    e: ExprV,
    vs: Set<Seq<char>>,
    ts: Set<Seq<char>>,
) -> NamesFoundV
    decreases e, 0nat,
{
    match e.kind {
        ExprKindV::Ident(name) => if vs.contains(name) {
            acc
        } else {
            NamesFoundV { values: acc.values.insert(name), ..acc }
        },
        ExprKindV::Grouped(x) => mention_expr(acc, *x, vs, ts),
        ExprKindV::Not(x) => mention_expr(acc, *x, vs, ts),
        ExprKindV::Neg { operand, .. } => mention_expr(acc, *operand, vs, ts),
        ExprKindV::Loop(x) => mention_expr(acc, *x, vs, ts),
        ExprKindV::Break(x) => mention_optional(acc, x, vs, ts),
        ExprKindV::Return(x) => mention_optional(acc, x, vs, ts),
        ExprKindV::FieldAccess { expr, .. } => {
            let acc = match expr.kind {
                ExprKindV::Ident(name) => NamesFoundV { traits: acc.traits.insert(name), ..acc },
                _ => acc,
            };
            mention_expr(acc, *expr, vs, ts)
        },
        ExprKindV::AssociatedAccess { target, .. } => mention_type(acc, target, ts),
        ExprKindV::Index { receiver, key, .. } => mention_expr(
            mention_expr(acc, *receiver, vs, ts),
            *key,
            vs,
            ts,
        ),
        ExprKindV::Assign { target, value } => mention_expr(
            mention_expr(acc, *target, vs, ts),
            *value,
            vs,
            ts,
        ),
        ExprKindV::Binary { lhs, rhs, .. } => mention_expr(
            mention_expr(acc, *lhs, vs, ts),
            *rhs,
            vs,
            ts,
        ),
        ExprKindV::Range { start, end, .. } => mention_optional(
            mention_optional(acc, start, vs, ts),
            end,
            vs,
            ts,
        ),
        ExprKindV::Call { callee, args, .. } => mention_exprs(
            mention_expr(acc, *callee, vs, ts),
            args,
            vs,
            ts,
        ),
        ExprKindV::If { cond, then_branch, else_branch } => mention_expr(
            mention_expr(mention_expr(acc, *cond, vs, ts), *then_branch, vs, ts),
            *else_branch,
            vs,
            ts,
        ),
        ExprKindV::Match { scrutinee, arms } => mention_arms(
            mention_expr(acc, *scrutinee, vs, ts),
            arms,
            vs,
            ts,
        ),
        ExprKindV::Block { stmts, final_expr } => mention_optional(
            mention_stmts(acc, stmts, vs, ts),
            final_expr,
            bind_stmts(scope_names(vs, ts), stmts).values,
            bind_stmts(scope_names(vs, ts), stmts).types,
        ),
        ExprKindV::Tuple(items) => mention_exprs(acc, items, vs, ts),
        ExprKindV::Array(entries) => mention_array_entries(acc, entries, vs, ts),
        ExprKindV::Record(entries) => mention_record_entries(acc, entries, vs, ts),
        ExprKindV::Lambda { params, body, .. } => mention_expr(
            mention_params(acc, params, ts),
            *body,
            bind_params(vs, params),
            ts,
        ),
        ExprKindV::For { pat, iterable, body, .. } => mention_expr(
            mention_pattern(mention_expr(acc, *iterable, vs, ts), pat),
            *body,
            vs.union(bound_names(pat)),
            ts,
        ),
        _ => acc,
    }
}

/// The names of a scope.
pub open spec fn scope_names(vs: Set<Seq<char>>, ts: Set<Seq<char>>) -> NamesFoundV {
    NamesFoundV { values: vs, types: ts, traits: Set::empty() }
}

pub open spec fn mention_optional(
    acc: NamesFoundV,
    e: Option<Box<ExprV>>,
    vs: Set<Seq<char>>,
    ts: Set<Seq<char>>,
) -> NamesFoundV
    decreases e, 0nat,
{
    match e {
        Some(x) => mention_expr(acc, *x, vs, ts),
        None => acc,
    }
}

pub open spec fn mention_exprs(acc: NamesFoundV, s: Seq<ExprV>, vs: Set<Seq<char>>, ts: Set<Seq<char>>) -> NamesFoundV
    decreases s, 0nat,
{
    if s.len() == 0 {
        acc
    } else {
        let acc = mention_exprs(acc, s.drop_last(), vs, ts);
        mention_expr(acc, s.last(), vs, ts)
    }
}

pub open spec fn mention_arms(acc: NamesFoundV, s: Seq<MatchArmV>, vs: Set<Seq<char>>, ts: Set<Seq<char>>) -> NamesFoundV
    decreases s, 0nat,
{
    if s.len() == 0 {
        acc
    } else {
        let acc = mention_arms(acc, s.drop_last(), vs, ts);
        mention_expr(
            mention_pattern(acc, s.last().pattern),
            s.last().body,
            vs.union(bound_names(s.last().pattern)),
            ts,
        )
    }
}

pub open spec fn mention_array_entries(acc: NamesFoundV, s: Seq<ArrayEntryV>, vs: Set<Seq<char>>, ts: Set<Seq<char>>) -> NamesFoundV
    decreases s, 0nat,
{
    if s.len() == 0 {
        acc
    } else {
        let acc = mention_array_entries(acc, s.drop_last(), vs, ts);
        match s.last() {
            ArrayEntryV::Elem(x) => mention_expr(acc, x, vs, ts),
            ArrayEntryV::Spread(x) => mention_expr(acc, x, vs, ts),
        }
    }
}

pub open spec fn mention_record_entries(acc: NamesFoundV, s: Seq<RecordEntryV>, vs: Set<Seq<char>>, ts: Set<Seq<char>>) -> NamesFoundV
    decreases s, 0nat,
{
    if s.len() == 0 {
        acc
    } else {
        let acc = mention_record_entries(acc, s.drop_last(), vs, ts);
        match s.last() {
            RecordEntryV::Field(_, x) => mention_expr(acc, x, vs, ts),
            RecordEntryV::Spread(x) => mention_expr(acc, x, vs, ts),
        }
    }
}

/// The names in `acc` and those that statements mention, each in the scope of those
/// before it.
pub open spec fn mention_stmts(acc: NamesFoundV, s: Seq<StmtV>, vs: Set<Seq<char>>, ts: Set<Seq<char>>) -> NamesFoundV
    decreases s, 0nat,
{
    if s.len() == 0 {
        acc
    } else {
        let acc = mention_stmts(acc, s.drop_last(), vs, ts);
        {
            let scope = bind_stmts(scope_names(vs, ts), s.drop_last());
            mention_stmt(acc, s.last(), scope.values, scope.types)
        }
    }
}

pub open spec fn mention_impl_methods(acc: NamesFoundV, s: Seq<ImplMethodV>, vs: Set<Seq<char>>, ts: Set<Seq<char>>) -> NamesFoundV
    decreases s, 0nat,
{
    if s.len() == 0 {
        acc
    } else {
        let acc = mention_impl_methods(acc, s.drop_last(), vs, ts);
        mention_function(acc, s.last().params, s.last().ret_type, s.last().body, vs, ts)
    }
}

pub open spec fn mention_inherent_methods(acc: NamesFoundV, s: Seq<InherentMethodV>, vs: Set<Seq<char>>, ts: Set<Seq<char>>) -> NamesFoundV
    decreases s, 0nat,
{
    if s.len() == 0 {
        acc
    } else {
        let acc = mention_inherent_methods(acc, s.drop_last(), vs, ts);
        mention_function(
            mention_bounds(acc, s.last().type_bounds, ts),
            s.last().params,
            s.last().ret_type,
            s.last().body,
            vs,
            ts,
        )
    }
}

pub open spec fn mention_trait_names(acc: NamesFoundV, s: Seq<Seq<char>>, ts: Set<Seq<char>>) -> NamesFoundV
    decreases s,
{
    if s.len() == 0 {
        acc
    } else {
        let acc = mention_trait_names(acc, s.drop_last(), ts);
        if ts.contains(s.last()) {
            acc
        } else {
            NamesFoundV { types: acc.types.insert(s.last()), ..acc }
        }
    }
}

/// The names in `acc` and the traits that bounds mention.
pub open spec fn mention_bounds(acc: NamesFoundV, s: Seq<TypeBoundV>, ts: Set<Seq<char>>) -> NamesFoundV
    decreases s,
{
    if s.len() == 0 {
        acc
    } else {
        let acc = mention_bounds(acc, s.drop_last(), ts);
        mention_trait_names(acc, s.last().traits, ts)
    }
}

pub open spec fn mention_trait_methods(acc: NamesFoundV, s: Seq<TraitMethodV>, ts: Set<Seq<char>>) -> NamesFoundV
    decreases s,
{
    if s.len() == 0 {
        acc
    } else {
        let acc = mention_trait_methods(acc, s.drop_last(), ts);
        mention_type(
            mention_named_types(acc, s.last().params, ts),
            s.last().ret_type,
            ts,
        )
    }
}

pub open spec fn mention_variants(acc: NamesFoundV, s: Seq<VariantDefV>, ts: Set<Seq<char>>) -> NamesFoundV
    decreases s,
{
    if s.len() == 0 {
        acc
    } else {
        let acc = mention_variants(acc, s.drop_last(), ts);
        mention_annotation(acc, s.last().payload, ts)
    }
}

/// The names in `acc` and those that a statement mentions and that are not in
/// scope.
pub open spec fn mention_stmt(
    acc: NamesFoundV,
    stmt: StmtV,
    vs: Set<Seq<char>>,
    ts: Set<Seq<char>>,
) -> NamesFoundV
    decreases stmt, 0nat,
{
    match stmt {
        StmtV::Let { ty, value, .. } => mention_expr(mention_annotation(acc, ty, ts), value, vs, ts),
        StmtV::Fn(def) => mention_function(
            acc,
            def.params,
            def.ret_type,
            def.body,
            vs.insert(def.name),
            ts,
        ),
        StmtV::Op(def) => mention_function(acc, def.params, def.ret_type, def.body, vs, ts),
        StmtV::Trait(td) => mention_trait_methods(acc, td.methods, ts),
        StmtV::Impl(id) => mention_impl_methods(
            mention_types(acc, id.trait_args, ts),
            id.methods,
            vs,
            ts,
        ),
        StmtV::InherentImpl(id) => mention_inherent_methods(
            mention_bounds(mention_type(acc, id.target, ts), id.type_bounds, ts.insert("Self"@)),
            id.methods,
            vs,
            ts.insert("Self"@),
        ),
        StmtV::Type(td) => mention_variants(acc, td.variants, ts.insert(td.name)),
        StmtV::TypeAlias { name, ty, .. } => mention_type(acc, ty, ts.insert(name)),
        StmtV::Extern { ty, .. } => mention_type(acc, ty, ts),
        StmtV::TestBlock { stmts, .. } => mention_stmts(acc, stmts, vs, ts),
        StmtV::RecBlock { stmts, .. } => mention_stmts(
            acc,
            stmts,
            bind_stmts(scope_names(vs, ts), stmts).values,
            ts,
        ),
        StmtV::Expr(e) => mention_expr(acc, e, vs, ts),
        _ => acc,
    }
}

fn collect_type_referenced_names(acc: &mut CollectedNames, ty: &Type, ts: &NameSet)
    ensures
        final(acc)@ == mention_type(old(acc)@, ty@, ts@),
    decreases *ty,
{
    match ty {
        Type::Ident(name) => {
            if !ts.contains(name.as_str()) {
                acc.types.insert(name.clone());
            }
        },
        Type::App(con, args) => {
            collect_type_referenced_names(acc, con, ts);
            collect_types(acc, args, ts);
        },
        Type::Func(params, ret) => {
            assert(type_return_view(*ret) == TypeReturnV {
                ty: Box::new(type_view(*ret.ty)),
                mut_place: ret.mut_place,
            });
            collect_type_params(acc, params, ts);
            collect_type_referenced_names(acc, &ret.ty, ts);
        },
        Type::Tuple(items) => {
            collect_types(acc, items, ts);
        },
        Type::Record(fields, _) => {
            collect_named_types(acc, fields, ts);
        },
        _ => {},
    }
}

fn collect_types(acc: &mut CollectedNames, s: &Vec<Type>, ts: &NameSet)
    ensures
        final(acc)@ == mention_types(old(acc)@, types_view(s@), ts@),
    decreases s@,
{
    let ghost all = types_view(s@);
    let ghost start = acc@;
    let mut i: usize = 0;
    assert(all.take(0) =~= Seq::empty());
    while i < s.len()
        invariant
            i <= s.len(),
            all == types_view(s@),
            start == old(acc)@,
            acc@ == mention_types(start, all.take(i as int), ts@),
        decreases s.len() - i,
    {
        proof {
            assert(all.take(i + 1).drop_last() =~= all.take(i as int));
            assert(all.take(i + 1).last() == type_view(s@[i as int]));
        }
        assert(decreases_to!(s@ => s@[i as int]));
        collect_type_referenced_names(acc, &s[i], ts);
        i = i + 1;
    }
    assert(all.take(all.len() as int) =~= all);
}

fn collect_type_params(acc: &mut CollectedNames, s: &Vec<TypeParam>, ts: &NameSet)
    ensures
        final(acc)@ == mention_type_params(old(acc)@, type_params_view(s@), ts@),
    decreases s@,
{
    let ghost all = type_params_view(s@);
    let ghost start = acc@;
    let mut i: usize = 0;
    assert(all.take(0) =~= Seq::empty());
    while i < s.len()
        invariant
            i <= s.len(),
            all == type_params_view(s@),
            start == old(acc)@,
            acc@ == mention_type_params(start, all.take(i as int), ts@),
        decreases s.len() - i,
    {
        proof {
            assert(all.take(i + 1).drop_last() =~= all.take(i as int));
            assert(all.take(i + 1).last() == type_param_view(s@[i as int]));
        }
        assert(decreases_to!(s@ => s@[i as int]));
        assert(decreases_to!(s@[i as int] => s@[i as int].ty));
        collect_type_referenced_names(acc, &s[i].ty, ts);
        i = i + 1;
    }
    assert(all.take(all.len() as int) =~= all);
}

fn collect_named_types(acc: &mut CollectedNames, s: &Vec<NamedType>, ts: &NameSet)
    ensures
        final(acc)@ == mention_named_types(old(acc)@, named_types_view(s@), ts@),
    decreases s@,
{
    let ghost all = named_types_view(s@);
    let ghost start = acc@;
    let mut i: usize = 0;
    assert(all.take(0) =~= Seq::empty());
    while i < s.len()
        invariant
            i <= s.len(),
            all == named_types_view(s@),
            start == old(acc)@,
            acc@ == mention_named_types(start, all.take(i as int), ts@),
        decreases s.len() - i,
    {
        proof {
            assert(all.take(i + 1).drop_last() =~= all.take(i as int));
            assert(all.take(i + 1).last() == named_type_view(s@[i as int]));
        }
        assert(decreases_to!(s@ => s@[i as int]));
        assert(decreases_to!(s@[i as int] => s@[i as int].ty));
        collect_type_referenced_names(acc, &s[i].ty, ts);
        i = i + 1;
    }
    assert(all.take(all.len() as int) =~= all);
}

fn collect_pattern_referenced_names(acc: &mut CollectedNames, pat: &Pattern)
    ensures
        final(acc)@ == mention_pattern(old(acc)@, pat@),
    decreases *pat,
{
    match pat {
        Pattern::Constructor { name, .. } => {
            acc.values.insert(name.clone());
        },
        Pattern::List { elements, .. } => {
            collect_patterns(acc, elements);
        },
        Pattern::Tuple(items) => {
            collect_patterns(acc, items);
        },
        _ => {},
    }
}

fn collect_patterns(acc: &mut CollectedNames, s: &Vec<Pattern>)
    ensures
        final(acc)@ == mention_patterns(old(acc)@, patterns_view(s@)),
    decreases s@,
{
    let ghost all = patterns_view(s@);
    let ghost start = acc@;
    let mut i: usize = 0;
    assert(all.take(0) =~= Seq::empty());
    while i < s.len()
        invariant
            i <= s.len(),
            all == patterns_view(s@),
            start == old(acc)@,
            acc@ == mention_patterns(start, all.take(i as int)),
        decreases s.len() - i,
    {
        proof {
            assert(all.take(i + 1).drop_last() =~= all.take(i as int));
            assert(all.take(i + 1).last() == pattern_view(s@[i as int]));
        }
        assert(decreases_to!(s@ => s@[i as int]));
        collect_pattern_referenced_names(acc, &s[i]);
        i = i + 1;
    }
    assert(all.take(all.len() as int) =~= all);
}

fn collect_annotation(acc: &mut CollectedNames, ty: &Option<Type>, ts: &NameSet)
    ensures
        final(acc)@ == mention_annotation(old(acc)@, some_type_view(*ty), ts@),
{
    if let Some(t) = ty {
        collect_type_referenced_names(acc, t, ts);
    }
}

fn collect_params(acc: &mut CollectedNames, s: &Vec<Param>, ts: &NameSet)
    ensures
        final(acc)@ == mention_params(old(acc)@, params_view(s@), ts@),
    decreases s@,
{
    let ghost all = params_view(s@);
    let ghost start = acc@;
    let mut i: usize = 0;
    assert(all.take(0) =~= Seq::empty());
    while i < s.len()
        invariant
            i <= s.len(),
            all == params_view(s@),
            start == old(acc)@,
            acc@ == mention_params(start, all.take(i as int), ts@),
        decreases s.len() - i,
    {
        proof {
            assert(all.take(i + 1).drop_last() =~= all.take(i as int));
            assert(all.take(i + 1).last() == param_view(s@[i as int]));
        }
        collect_annotation(acc, &s[i].ty, ts);
        i = i + 1;
    }
    assert(all.take(all.len() as int) =~= all);
}

fn insert_param_names(acc: &mut NameSet, s: &Vec<Param>)
    ensures
        final(acc)@ == bind_params(old(acc)@, params_view(s@)),
    decreases s@,
{
    let ghost all = params_view(s@);
    let ghost start = acc@;
    let mut i: usize = 0;
    assert(all.take(0) =~= Seq::empty());
    while i < s.len()
        invariant
            i <= s.len(),
            all == params_view(s@),
            start == old(acc)@,
            acc@ == bind_params(start, all.take(i as int)),
        decreases s.len() - i,
    {
        proof {
            assert(all.take(i + 1).drop_last() =~= all.take(i as int));
            assert(all.take(i + 1).last() == param_view(s@[i as int]));
        }
        insert_pattern_bindings(acc, &s[i].pat);
        i = i + 1;
    }
    assert(all.take(all.len() as int) =~= all);
}

fn collect_function(
    acc: &mut CollectedNames,
    params: &Vec<Param>,
    ret_type: &Option<crate::ast::TypeReturn>,
    body: &Expr,
    vs: &NameSet,
    ts: &NameSet,
)
    ensures
        final(acc)@ == mention_function(
            old(acc)@,
            params_view(params@),
            some_type_return_view(*ret_type),
            body@,
            vs@,
            ts@,
        ),
    decreases *body, 1nat,
{
    let mut scope = vs.clone();
    insert_param_names(&mut scope, params);
    collect_params(acc, params, ts);
    if let Some(r) = ret_type {
        assert(type_return_view(*r) == TypeReturnV {
            ty: Box::new(type_view(*r.ty)),
            mut_place: r.mut_place,
        });
        collect_type_referenced_names(acc, &r.ty, ts);
    }
    collect_expr_referenced_names(acc, body, &scope, ts);
}

#[verifier::spinoff_prover]
#[verifier::rlimit(40)]
fn collect_expr_referenced_names(acc: &mut CollectedNames, e: &Expr, vs: &NameSet, ts: &NameSet)
    ensures
        final(acc)@ == mention_expr(old(acc)@, e@, vs@, ts@),
    decreases *e, 0nat,
{
    match &e.kind {
        ExprKind::Ident(name) => {
            if !vs.contains(name.as_str()) {
                acc.values.insert(name.clone());
            }
        },
        ExprKind::Grouped(x) => collect_expr_referenced_names(acc, x, vs, ts),
        ExprKind::Not(x) => collect_expr_referenced_names(acc, x, vs, ts),
        ExprKind::Neg { operand, .. } => collect_expr_referenced_names(acc, operand, vs, ts),
        ExprKind::Loop(x) => collect_expr_referenced_names(acc, x, vs, ts),
        ExprKind::Break(x) => collect_optional(acc, x, vs, ts),
        ExprKind::Return(x) => collect_optional(acc, x, vs, ts),
        ExprKind::FieldAccess { expr, .. } => {
            if let ExprKind::Ident(name) = &expr.kind {
                assert(expr_view(**expr).kind == ExprKindV::Ident(name@));
                acc.traits.insert(name.clone());
            } else {
                assert(!(expr_view(**expr).kind is Ident));
            }
            collect_expr_referenced_names(acc, expr, vs, ts);
        },
        ExprKind::AssociatedAccess { target, .. } => collect_type_referenced_names(acc, target, ts),
        ExprKind::Index { receiver, key, .. } => {
            collect_expr_referenced_names(acc, receiver, vs, ts);
            collect_expr_referenced_names(acc, key, vs, ts);
        },
        ExprKind::Assign { target, value } => {
            collect_expr_referenced_names(acc, target, vs, ts);
            collect_expr_referenced_names(acc, value, vs, ts);
        },
        ExprKind::Binary { lhs, rhs, .. } => {
            collect_expr_referenced_names(acc, lhs, vs, ts);
            collect_expr_referenced_names(acc, rhs, vs, ts);
        },
        ExprKind::Range { start, end, .. } => {
            collect_optional(acc, start, vs, ts);
            collect_optional(acc, end, vs, ts);
        },
        ExprKind::Call { callee, args, .. } => {
            collect_expr_referenced_names(acc, callee, vs, ts);
            collect_exprs(acc, args, vs, ts);
        },
        ExprKind::If { cond, then_branch, else_branch } => {
            collect_expr_referenced_names(acc, cond, vs, ts);
            collect_expr_referenced_names(acc, then_branch, vs, ts);
            collect_expr_referenced_names(acc, else_branch, vs, ts);
        },
        ExprKind::Match { scrutinee, arms } => {
            collect_expr_referenced_names(acc, scrutinee, vs, ts);
            collect_arms(acc, arms, vs, ts);
        },
        ExprKind::Block { stmts, final_expr } => {
            collect_stmts(acc, stmts, vs, ts);
            let mut scope = CollectedNames {
                values: vs.clone(),
                types: ts.clone(),
                traits: NameSet::new(),
            };
            insert_stmts_names(&mut scope, stmts);
            collect_optional(acc, final_expr, &scope.values, &scope.types);
        },
        ExprKind::Tuple(items) => collect_exprs(acc, items, vs, ts),
        ExprKind::Array(entries) => collect_array_entries(acc, entries, vs, ts),
        ExprKind::Record(entries) => collect_record_entries(acc, entries, vs, ts),
        ExprKind::Lambda { params, body, .. } => {
            let mut scope = vs.clone();
            insert_param_names(&mut scope, params);
            collect_params(acc, params, ts);
            collect_expr_referenced_names(acc, body, &scope, ts);
        },
        ExprKind::For { pat, iterable, body, .. } => {
            collect_expr_referenced_names(acc, iterable, vs, ts);
            collect_pattern_referenced_names(acc, pat);
            let mut scope = vs.clone();
            insert_pattern_bindings(&mut scope, pat);
            collect_expr_referenced_names(acc, body, &scope, ts);
        },
        _ => {},
    }
}

fn collect_optional(acc: &mut CollectedNames, e: &Option<Box<Expr>>, vs: &NameSet, ts: &NameSet)
    ensures
        final(acc)@ == mention_optional(old(acc)@, boxed_expr_view(*e), vs@, ts@),
    decreases *e, 0nat,
{
    if let Some(x) = e {
        collect_expr_referenced_names(acc, x, vs, ts);
    }
}

fn collect_exprs(acc: &mut CollectedNames, s: &Vec<Expr>, vs: &NameSet, ts: &NameSet)
    ensures
        final(acc)@ == mention_exprs(old(acc)@, exprs_view(s@), vs@, ts@),
    decreases s@, 0nat,
{
    let ghost all = exprs_view(s@);
    let ghost start = acc@;
    let mut i: usize = 0;
    assert(all.take(0) =~= Seq::empty());
    while i < s.len()
        invariant
            i <= s.len(),
            all == exprs_view(s@),
            start == old(acc)@,
            acc@ == mention_exprs(start, all.take(i as int), vs@, ts@),
        decreases s.len() - i,
    {
        proof {
            assert(all.take(i + 1).drop_last() =~= all.take(i as int));
            assert(all.take(i + 1).last() == expr_view(s@[i as int]));
        }
        assert(decreases_to!(s@ => s@[i as int]));
        collect_expr_referenced_names(acc, &s[i], vs, ts);
        i = i + 1;
    }
    assert(all.take(all.len() as int) =~= all);
}

fn collect_arms(acc: &mut CollectedNames, s: &Vec<MatchArm>, vs: &NameSet, ts: &NameSet)
    ensures
        final(acc)@ == mention_arms(old(acc)@, match_arms_view(s@), vs@, ts@),
    decreases s@, 0nat,
{
    let ghost all = match_arms_view(s@);
    let ghost start = acc@;
    let mut i: usize = 0;
    assert(all.take(0) =~= Seq::empty());
    while i < s.len()
        invariant
            i <= s.len(),
            all == match_arms_view(s@),
            start == old(acc)@,
            acc@ == mention_arms(start, all.take(i as int), vs@, ts@),
        decreases s.len() - i,
    {
        proof {
            assert(all.take(i + 1).drop_last() =~= all.take(i as int));
            assert(all.take(i + 1).last() == match_arm_view(s@[i as int]));
        }
        assert(decreases_to!(s@ => s@[i as int]));
        assert(decreases_to!(s@[i as int] => s@[i as int].body));
        collect_pattern_referenced_names(acc, &s[i].pattern);
        let mut scope = vs.clone();
        insert_pattern_bindings(&mut scope, &s[i].pattern);
        collect_expr_referenced_names(acc, &s[i].body, &scope, ts);
        i = i + 1;
    }
    assert(all.take(all.len() as int) =~= all);
}

fn collect_array_entries(acc: &mut CollectedNames, s: &Vec<ArrayEntry>, vs: &NameSet, ts: &NameSet)
    ensures
        final(acc)@ == mention_array_entries(old(acc)@, array_entries_view(s@), vs@, ts@),
    decreases s@, 0nat,
{
    let ghost all = array_entries_view(s@);
    let ghost start = acc@;
    let mut i: usize = 0;
    assert(all.take(0) =~= Seq::empty());
    while i < s.len()
        invariant
            i <= s.len(),
            all == array_entries_view(s@),
            start == old(acc)@,
            acc@ == mention_array_entries(start, all.take(i as int), vs@, ts@),
        decreases s.len() - i,
    {
        proof {
            assert(all.take(i + 1).drop_last() =~= all.take(i as int));
            assert(all.take(i + 1).last() == array_entry_view(s@[i as int]));
        }
        assert(decreases_to!(s@ => s@[i as int]));
        match &s[i] {
            ArrayEntry::Elem(x) => collect_expr_referenced_names(acc, x, vs, ts),
            ArrayEntry::Spread(x) => collect_expr_referenced_names(acc, x, vs, ts),
        }
        i = i + 1;
    }
    assert(all.take(all.len() as int) =~= all);
}

fn collect_record_entries(acc: &mut CollectedNames, s: &Vec<RecordEntry>, vs: &NameSet, ts: &NameSet)
    ensures
        final(acc)@ == mention_record_entries(old(acc)@, record_entries_view(s@), vs@, ts@),
    decreases s@, 0nat,
{
    let ghost all = record_entries_view(s@);
    let ghost start = acc@;
    let mut i: usize = 0;
    assert(all.take(0) =~= Seq::empty());
    while i < s.len()
        invariant
            i <= s.len(),
            all == record_entries_view(s@),
            start == old(acc)@,
            acc@ == mention_record_entries(start, all.take(i as int), vs@, ts@),
        decreases s.len() - i,
    {
        proof {
            assert(all.take(i + 1).drop_last() =~= all.take(i as int));
            assert(all.take(i + 1).last() == record_entry_view(s@[i as int]));
        }
        assert(decreases_to!(s@ => s@[i as int]));
        match &s[i] {
            RecordEntry::Field(_, x) => collect_expr_referenced_names(acc, x, vs, ts),
            RecordEntry::Spread(x) => collect_expr_referenced_names(acc, x, vs, ts),
        }
        i = i + 1;
    }
    assert(all.take(all.len() as int) =~= all);
}

fn collect_impl_methods(acc: &mut CollectedNames, s: &Vec<ImplMethod>, vs: &NameSet, ts: &NameSet)
    ensures
        final(acc)@ == mention_impl_methods(old(acc)@, impl_methods_view(s@), vs@, ts@),
    decreases s@, 0nat,
{
    let ghost all = impl_methods_view(s@);
    let ghost start = acc@;
    let mut i: usize = 0;
    assert(all.take(0) =~= Seq::empty());
    while i < s.len()
        invariant
            i <= s.len(),
            all == impl_methods_view(s@),
            start == old(acc)@,
            acc@ == mention_impl_methods(start, all.take(i as int), vs@, ts@),
        decreases s.len() - i,
    {
        proof {
            assert(all.take(i + 1).drop_last() =~= all.take(i as int));
            assert(all.take(i + 1).last() == impl_method_view(s@[i as int]));
        }
        assert(decreases_to!(s@ => s@[i as int]));
        assert(decreases_to!(s@[i as int] => s@[i as int].body));
        collect_function(acc, &s[i].params, &s[i].ret_type, &s[i].body, vs, ts);
        i = i + 1;
    }
    assert(all.take(all.len() as int) =~= all);
}

fn collect_inherent_methods(acc: &mut CollectedNames, s: &Vec<InherentMethod>, vs: &NameSet, ts: &NameSet)
    ensures
        final(acc)@ == mention_inherent_methods(old(acc)@, inherent_methods_view(s@), vs@, ts@),
    decreases s@, 0nat,
{
    let ghost all = inherent_methods_view(s@);
    let ghost start = acc@;
    let mut i: usize = 0;
    assert(all.take(0) =~= Seq::empty());
    while i < s.len()
        invariant
            i <= s.len(),
            all == inherent_methods_view(s@),
            start == old(acc)@,
            acc@ == mention_inherent_methods(start, all.take(i as int), vs@, ts@),
        decreases s.len() - i,
    {
        proof {
            assert(all.take(i + 1).drop_last() =~= all.take(i as int));
            assert(all.take(i + 1).last() == inherent_method_view(s@[i as int]));
        }
        assert(decreases_to!(s@ => s@[i as int]));
        assert(decreases_to!(s@[i as int] => s@[i as int].body));
        collect_bounds(acc, &s[i].type_bounds, ts);
        collect_function(acc, &s[i].params, &s[i].ret_type, &s[i].body, vs, ts);
        i = i + 1;
    }
    assert(all.take(all.len() as int) =~= all);
}

fn collect_trait_names(acc: &mut CollectedNames, s: &Vec<String>, ts: &NameSet)
    ensures
        final(acc)@ == mention_trait_names(old(acc)@, strings_view(s@), ts@),
    decreases s@,
{
    let ghost all = strings_view(s@);
    let ghost start = acc@;
    let mut i: usize = 0;
    assert(all.take(0) =~= Seq::empty());
    while i < s.len()
        invariant
            i <= s.len(),
            all == strings_view(s@),
            start == old(acc)@,
            acc@ == mention_trait_names(start, all.take(i as int), ts@),
        decreases s.len() - i,
    {
        proof {
            assert(all.take(i + 1).drop_last() =~= all.take(i as int));
            assert(all.take(i + 1).last() == s@[i as int]@);
        }
        if !ts.contains(s[i].as_str()) {
            acc.types.insert(s[i].clone());
        }
        i = i + 1;
    }
    assert(all.take(all.len() as int) =~= all);
}

fn collect_bounds(acc: &mut CollectedNames, s: &Vec<TypeBound>, ts: &NameSet)
    ensures
        final(acc)@ == mention_bounds(old(acc)@, type_bounds_view(s@), ts@),
    decreases s@,
{
    let ghost all = type_bounds_view(s@);
    let ghost start = acc@;
    let mut i: usize = 0;
    assert(all.take(0) =~= Seq::empty());
    while i < s.len()
        invariant
            i <= s.len(),
            all == type_bounds_view(s@),
            start == old(acc)@,
            acc@ == mention_bounds(start, all.take(i as int), ts@),
        decreases s.len() - i,
    {
        proof {
            assert(all.take(i + 1).drop_last() =~= all.take(i as int));
            assert(all.take(i + 1).last() == type_bound_view(s@[i as int]));
        }
        collect_trait_names(acc, &s[i].traits, ts);
        i = i + 1;
    }
    assert(all.take(all.len() as int) =~= all);
}

fn collect_trait_methods(acc: &mut CollectedNames, s: &Vec<TraitMethod>, ts: &NameSet)
    ensures
        final(acc)@ == mention_trait_methods(old(acc)@, trait_methods_view(s@), ts@),
    decreases s@,
{
    let ghost all = trait_methods_view(s@);
    let ghost start = acc@;
    let mut i: usize = 0;
    assert(all.take(0) =~= Seq::empty());
    while i < s.len()
        invariant
            i <= s.len(),
            all == trait_methods_view(s@),
            start == old(acc)@,
            acc@ == mention_trait_methods(start, all.take(i as int), ts@),
        decreases s.len() - i,
    {
        proof {
            assert(all.take(i + 1).drop_last() =~= all.take(i as int));
            assert(all.take(i + 1).last() == trait_method_view(s@[i as int]));
        }
        collect_named_types(acc, &s[i].params, ts);
        collect_type_referenced_names(acc, &s[i].ret_type, ts);
        i = i + 1;
    }
    assert(all.take(all.len() as int) =~= all);
}

fn collect_variants(acc: &mut CollectedNames, s: &Vec<VariantDef>, ts: &NameSet)
    ensures
        final(acc)@ == mention_variants(old(acc)@, variant_defs_view(s@), ts@),
    decreases s@,
{
    let ghost all = variant_defs_view(s@);
    let ghost start = acc@;
    let mut i: usize = 0;
    assert(all.take(0) =~= Seq::empty());
    while i < s.len()
        invariant
            i <= s.len(),
            all == variant_defs_view(s@),
            start == old(acc)@,
            acc@ == mention_variants(start, all.take(i as int), ts@),
        decreases s.len() - i,
    {
        proof {
            assert(all.take(i + 1).drop_last() =~= all.take(i as int));
            assert(all.take(i + 1).last() == variant_def_view(s@[i as int]));
        }
        collect_annotation(acc, &s[i].payload, ts);
        i = i + 1;
    }
    assert(all.take(all.len() as int) =~= all);
}

fn collect_stmts(acc: &mut CollectedNames, s: &Vec<Stmt>, vs: &NameSet, ts: &NameSet)
    ensures
        final(acc)@ == mention_stmts(old(acc)@, stmts_view(s@), vs@, ts@),
    decreases s@, 0nat,
{
    let ghost all = stmts_view(s@);
    let ghost start = acc@;
    let ghost outer = scope_names(vs@, ts@);
    let mut scope = CollectedNames {
        values: vs.clone(),
        types: ts.clone(),
        traits: NameSet::new(),
    };
    let mut i: usize = 0;
    assert(all.take(0) =~= Seq::empty());
    assert(scope@ =~= bind_stmts(outer, all.take(0)));
    while i < s.len()
        invariant
            i <= s.len(),
            all == stmts_view(s@),
            start == old(acc)@,
            outer == scope_names(vs@, ts@),
            scope@ == bind_stmts(outer, all.take(i as int)),
            acc@ == mention_stmts(start, all.take(i as int), vs@, ts@),
        decreases s.len() - i,
    {
        proof {
            assert(all.take(i + 1).drop_last() =~= all.take(i as int));
            assert(all.take(i + 1).last() == stmt_view(s@[i as int]));
            assert(decreases_to!(s@ => s@[i as int]));
        }
        collect_stmt_referenced_names(acc, &s[i], &scope.values, &scope.types);
        insert_stmt_names(&mut scope, &s[i]);
        i = i + 1;
    }
    assert(all.take(all.len() as int) =~= all);
}

#[verifier::spinoff_prover]
#[verifier::rlimit(40)]
fn collect_stmt_referenced_names(
    acc: &mut CollectedNames,
    stmt: &Stmt,
    vs: &NameSet,
    ts: &NameSet,
)
    ensures
        final(acc)@ == mention_stmt(old(acc)@, stmt@, vs@, ts@),
    decreases *stmt, 0nat,
{
    match stmt {
        Stmt::Let { ty, value, .. } => {
            collect_annotation(acc, ty, ts);
            collect_expr_referenced_names(acc, value, vs, ts);
        },
        Stmt::Fn(def) => {
            let mut scope = vs.clone();
            scope.insert(def.name.clone());
            collect_function(acc, &def.params, &def.ret_type, &def.body, &scope, ts);
        },
        Stmt::Op(def) => {
            collect_function(acc, &def.params, &def.ret_type, &def.body, vs, ts);
        },
        Stmt::Trait(td) => {
            collect_trait_methods(acc, &td.methods, ts);
        },
        Stmt::Impl(id) => {
            collect_types(acc, &id.trait_args, ts);
            collect_impl_methods(acc, &id.methods, vs, ts);
        },
        Stmt::InherentImpl(id) => {
            collect_type_referenced_names(acc, &id.target, ts);
            let mut scope = ts.clone();
            scope.insert("Self".to_owned());
            collect_bounds(acc, &id.type_bounds, &scope);
            collect_inherent_methods(acc, &id.methods, vs, &scope);
        },
        Stmt::Type(td) => {
            let mut scope = ts.clone();
            scope.insert(td.name.clone());
            collect_variants(acc, &td.variants, &scope);
        },
        Stmt::TypeAlias { name, ty, .. } => {
            let mut scope = ts.clone();
            scope.insert(name.clone());
            collect_type_referenced_names(acc, ty, &scope);
        },
        Stmt::Extern { ty, .. } => {
            collect_type_referenced_names(acc, ty, ts);
        },
        Stmt::TestBlock { stmts, .. } => {
            collect_stmts(acc, stmts, vs, ts);
        },
        Stmt::RecBlock { stmts, .. } => {
            let mut scope = CollectedNames {
                values: vs.clone(),
                types: ts.clone(),
                traits: NameSet::new(),
            };
            insert_stmts_names(&mut scope, stmts);
            collect_stmts(acc, stmts, &scope.values, ts);
        },
        Stmt::Expr(e) => {
            collect_expr_referenced_names(acc, e, vs, ts);
        },
        _ => {},
    }
}

/// The names that a statement mentions and does not bind itself.
pub fn stmt_referenced_names(stmt: &Stmt) -> (r: CollectedNames)
    ensures
        r@ == mention_stmt(no_names_found(), stmt@, Set::empty(), Set::empty()),
{
    let mut refs = CollectedNames::default();
    let none = NameSet::new();
    collect_stmt_referenced_names(&mut refs, stmt, &none, &none);
    refs
}

} // verus!
