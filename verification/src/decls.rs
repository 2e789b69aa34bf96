//! What the declarations of a program say before its statements are checked.

use vstd::prelude::*;

use crate::ast::{Fundep, ImplDef, SourceSpan, Stmt, TraitDef, TraitMethod, TypeDef};
use crate::ast_view::{fundep_view, impl_def_view, stmt_view, stmts_view, trait_method_view};
use crate::ast_view::{variant_def_view, ImplDefV, StmtV, TraitDefV, TraitMethodV, TypeDefV};
use crate::ast_view::VariantDefV;
use crate::env::VariantsV;
use crate::error::{error_at, SpannedTypeError, SpannedV, TypeError, TypeErrorV};
use crate::places::spanned_error_of;
use crate::state::{Alias, AliasV, Infer, InferV};
use crate::tables::NameSet;
use crate::text::{str_eq, strings_view};
use crate::ty_helpers::{any_field_contains_var, names_var, some_field_names_var};
use crate::ty_helpers::type_contains_var;
use crate::type_syntax::{dict_name_of_keys, trait_arg_keys, trait_impl_arg_keys_from_ast};
use crate::type_syntax::trait_impl_dict_name_from_keys;

verus! {

// ---------------------------------------------------------------------------
// Traits
// ---------------------------------------------------------------------------

/// Whether a method of a trait speaks of a type parameter.
pub open spec fn method_mentions(m: TraitMethodV, param: Seq<char>) -> bool {
    some_field_names_var(m.params, param) || names_var(m.ret_type, param)
}

/// Whether a method speaks of a type parameter of its trait.
pub open spec fn has_target(def: TraitDefV, m: TraitMethodV) -> bool {
    exists|k: int| 0 <= k < def.params.len() && method_mentions(m, #[trigger] def.params[k])
}

/// Whether some method of a trait speaks of a type parameter.
pub open spec fn is_reached(def: TraitDefV, param: Seq<char>) -> bool {
    exists|k: int| 0 <= k < def.methods.len() && method_mentions(#[trigger] def.methods[k], param)
}

/// The error of a method from the one at `i` on that speaks of no type parameter.
pub open spec fn target_error(def: TraitDefV, i: nat) -> Option<SpannedV>
    decreases def.methods.len() - i,
{
    if i >= def.methods.len() {
        None
    } else if !has_target(def, def.methods[i as int]) {
        Some(
            error_at(
                TypeErrorV::TraitMethodMissingTarget {
                    trait_name: def.name,
                    method: def.methods[i as int].name,
                },
                def.methods[i as int].span,
            ),
        )
    } else {
        target_error(def, i + 1)
    }
}

/// The error of a type parameter that others determine, from the one at `j` on, and
/// that no method speaks of.
pub open spec fn reach_error(def: TraitDefV, dependents: Seq<usize>, j: nat) -> Option<SpannedV>
    decreases dependents.len() - j,
{
    if j >= dependents.len() {
        None
    } else {
        let k = dependents[j as int] as int;
        if k < def.params.len() && !is_reached(def, def.params[k]) {
            Some(
                error_at(
                    TypeErrorV::FunctionalDependencyViolation {
                        trait_name: def.name,
                        message: "dependent trait parameter `"@ + def.params[k]
                            + "` must appear in a method signature"@,
                    },
                    def.span,
                ),
            )
        } else {
            reach_error(def, dependents, j + 1)
        }
    }
}

/// The error of the dependencies of a trait from the one at `i` on.
pub open spec fn reach_errors(def: TraitDefV, i: nat) -> Option<SpannedV>
    decreases def.fundeps.len() - i,
{
    if i >= def.fundeps.len() {
        None
    } else {
        match reach_error(def, def.fundeps[i as int].dependents, 0) {
            Some(e) => Some(e),
            None => reach_errors(def, i + 1),
        }
    }
}

/// The error of a trait whose methods cannot be found by their types.
pub open spec fn trait_error(def: TraitDefV) -> Option<SpannedV> {
    match target_error(def, 0) {
        Some(e) => Some(e),
        None => reach_errors(def, 0),
    }
}

fn mentions(m: &TraitMethod, param: &str) -> (r: bool)
    ensures
        r == method_mentions(trait_method_view(*m), param@),
{
    any_field_contains_var(&m.params, param) || type_contains_var(&m.ret_type, param)
}

fn mentions_some(def: &TraitDef, m: &TraitMethod) -> (r: bool)
    ensures
        r == has_target(def@, trait_method_view(*m)),
{
    let ghost all = def@.params;
    let mut k: usize = 0;
    while k < def.params.len()
        invariant
            k <= def.params.len(),
            all == def@.params,
            all.len() == def.params@.len(),
            forall|j: int|
                0 <= j < k ==> !method_mentions(trait_method_view(*m), #[trigger] all[j]),
        decreases def.params.len() - k,
    {
        assert(all[k as int] == def.params@[k as int]@);
        if mentions(m, &def.params[k]) {
            return true;
        }
        k = k + 1;
    }
    false
}

fn reaches(def: &TraitDef, param: &str) -> (r: bool)
    ensures
        r == is_reached(def@, param@),
{
    let ghost all = def@.methods;
    let mut k: usize = 0;
    while k < def.methods.len()
        invariant
            k <= def.methods.len(),
            all == def@.methods,
            all.len() == def.methods@.len(),
            forall|j: int| 0 <= j < k ==> !method_mentions(#[trigger] all[j], param@),
        decreases def.methods.len() - k,
    {
        assert(all[k as int] == trait_method_view(def.methods@[k as int]));
        if mentions(&def.methods[k], param) {
            return true;
        }
        k = k + 1;
    }
    false
}

fn check_reach(def: &TraitDef, f: &Fundep) -> (r: Result<(), SpannedTypeError>)
    ensures
        spanned_error_of(r) == reach_error(def@, fundep_view(*f).dependents, 0),
{
    let ghost deps = fundep_view(*f).dependents;
    let mut j: usize = 0;
    while j < f.dependents.len()
        invariant
            j <= f.dependents.len(),
            deps == f.dependents@,
            reach_error(def@, deps, 0) == reach_error(def@, deps, j as nat),
        decreases f.dependents.len() - j,
    {
        let k: usize = f.dependents[j];
        assert(def@.params.len() == def.params@.len());
        if k < def.params.len() {
            assert(def@.params[k as int] == def.params@[k as int]@);
            if !reaches(def, &def.params[k]) {
                let mut message = "dependent trait parameter `".to_owned();
                message.append(&def.params[k]);
                message.append("` must appear in a method signature");
                return Err(
                    TypeError::FunctionalDependencyViolation {
                        trait_name: def.name.clone(),
                        message,
                    }.at(def.span),
                );
            }
        }
        j = j + 1;
    }
    Ok(())
}

pub fn validate_trait_methods_have_target(def: &TraitDef) -> (r: Result<(), SpannedTypeError>)
    ensures
        spanned_error_of(r) == trait_error(def@),
{
    let ghost ms = def@.methods;
    let ghost fs = def@.fundeps;
    let mut i: usize = 0;
    while i < def.methods.len()
        invariant
            i <= def.methods.len(),
            ms == def@.methods,
            ms.len() == def.methods@.len(),
            target_error(def@, 0) == target_error(def@, i as nat),
        decreases def.methods.len() - i,
    {
        assert(ms[i as int] == trait_method_view(def.methods@[i as int]));
        if !mentions_some(def, &def.methods[i]) {
            return Err(
                TypeError::TraitMethodMissingTarget {
                    trait_name: def.name.clone(),
                    method: def.methods[i].name.clone(),
                }.at(def.methods[i].span),
            );
        }
        i = i + 1;
    }
    let mut k: usize = 0;
    while k < def.fundeps.len()
        invariant
            k <= def.fundeps.len(),
            fs == def@.fundeps,
            fs.len() == def.fundeps@.len(),
            target_error(def@, 0) is None,
            reach_errors(def@, 0) == reach_errors(def@, k as nat),
        decreases def.fundeps.len() - k,
    {
        assert(fs[k as int] == fundep_view(def.fundeps@[k as int]));
        match check_reach(def, &def.fundeps[k]) {
            Err(error) => {
                return Err(error);
            },
            Ok(_) => {},
        }
        k = k + 1;
    }
    Ok(())
}

// ---------------------------------------------------------------------------
// Names
// ---------------------------------------------------------------------------

/// The type that a statement declares, if it does.
pub open spec fn type_declared(s: StmtV) -> Option<(Seq<char>, SourceSpan)> {
    match s {
        StmtV::Type(td) => Some((td.name, td.name_span)),
        StmtV::TypeAlias { name, name_span, .. } => Some((name, name_span)),
        _ => None,
    }
}

/// The trait that a statement declares, if it does.
pub open spec fn trait_declared(s: StmtV) -> Option<(Seq<char>, SourceSpan)> {
    match s {
        StmtV::Trait(td) => Some((td.name, td.name_span)),
        _ => None,
    }
}

/// Names with those of the types that the first `n` statements declare.
pub open spec fn with_types(names: Set<Seq<char>>, stmts: Seq<StmtV>, n: nat) -> Set<Seq<char>>
    decreases n,
{
    if n == 0 {
        names
    } else {
        let before = with_types(names, stmts, (n - 1) as nat);
        match type_declared(stmts[n - 1]) {
            Some(d) => before.insert(d.0),
            None => before,
        }
    }
}

/// Names with those of the traits that the first `n` statements declare.
pub open spec fn with_traits(names: Set<Seq<char>>, stmts: Seq<StmtV>, n: nat) -> Set<Seq<char>>
    decreases n,
{
    if n == 0 {
        names
    } else {
        let before = with_traits(names, stmts, (n - 1) as nat);
        match trait_declared(stmts[n - 1]) {
            Some(d) => before.insert(d.0),
            None => before,
        }
    }
}

/// The error of a type from the statement at `i` on that has the name of a trait.
pub open spec fn type_clash(stmts: Seq<StmtV>, traits: Set<Seq<char>>, i: nat) -> Option<SpannedV>
    decreases stmts.len() - i,
{
    if i >= stmts.len() {
        None
    } else {
        match type_declared(stmts[i as int]) {
            Some(d) => if traits.contains(d.0) {
                Some(error_at(TypeErrorV::DuplicateTypeTraitName(d.0), d.1))
            } else {
                type_clash(stmts, traits, i + 1)
            },
            None => type_clash(stmts, traits, i + 1),
        }
    }
}

/// The error of a trait from the statement at `i` on that has the name of a type.
pub open spec fn trait_clash(stmts: Seq<StmtV>, types: Set<Seq<char>>, i: nat) -> Option<SpannedV>
    decreases stmts.len() - i,
{
    if i >= stmts.len() {
        None
    } else {
        match trait_declared(stmts[i as int]) {
            Some(d) => if types.contains(d.0) {
                Some(error_at(TypeErrorV::DuplicateTypeTraitName(d.0), d.1))
            } else {
                trait_clash(stmts, types, i + 1)
            },
            None => trait_clash(stmts, types, i + 1),
        }
    }
}

/// The error of a program in which a type and a trait have one name.
pub open spec fn clash(st: InferV, seed: Seq<StmtV>, stmts: Seq<StmtV>) -> Option<SpannedV> {
    match type_clash(stmts, with_traits(st.traits.dom(), seed, seed.len()), 0) {
        Some(e) => Some(e),
        None => trait_clash(
            stmts,
            with_types(with_types(st.declared, seed, seed.len()), stmts, stmts.len()),
            0,
        ),
    }
}

/// The view of a declared name.
pub open spec fn declared_view(r: Option<(String, SourceSpan)>) -> Option<(Seq<char>, SourceSpan)> {
    match r {
        Some(d) => Some((d.0@, d.1)),
        None => None,
    }
}

fn declared_type(s: &Stmt) -> (r: Option<(String, SourceSpan)>)
    ensures
        declared_view(r) == type_declared(stmt_view(*s)),
{
    match s {
        Stmt::Type(td) => Some((td.name.clone(), td.name_span)),
        Stmt::TypeAlias { name, name_span, .. } => Some((name.clone(), *name_span)),
        _ => None,
    }
}

fn declared_trait(s: &Stmt) -> (r: Option<(String, SourceSpan)>)
    ensures
        declared_view(r) == trait_declared(stmt_view(*s)),
{
    match s {
        Stmt::Trait(td) => Some((td.name.clone(), td.name_span)),
        _ => None,
    }
}

fn add_types(names: &mut NameSet, stmts: &Vec<Stmt>)
    ensures
        final(names)@ == with_types(old(names)@, stmts_view(stmts@), stmts@.len()),
{
    let ghost all = stmts_view(stmts@);
    let mut i: usize = 0;
    while i < stmts.len()
        invariant
            i <= stmts.len(),
            all == stmts_view(stmts@),
            all.len() == stmts@.len(),
            names@ == with_types(old(names)@, all, i as nat),
        decreases stmts.len() - i,
    {
        assert(all[i as int] == stmt_view(stmts@[i as int]));
        if let Some((name, _)) = declared_type(&stmts[i]) {
            names.insert(name);
        }
        i = i + 1;
    }
}

fn add_traits(names: &mut NameSet, stmts: &Vec<Stmt>)
    ensures
        final(names)@ == with_traits(old(names)@, stmts_view(stmts@), stmts@.len()),
{
    let ghost all = stmts_view(stmts@);
    let mut i: usize = 0;
    while i < stmts.len()
        invariant
            i <= stmts.len(),
            all == stmts_view(stmts@),
            all.len() == stmts@.len(),
            names@ == with_traits(old(names)@, all, i as nat),
        decreases stmts.len() - i,
    {
        assert(all[i as int] == stmt_view(stmts@[i as int]));
        if let Some((name, _)) = declared_trait(&stmts[i]) {
            names.insert(name);
        }
        i = i + 1;
    }
}

fn check_types(stmts: &Vec<Stmt>, traits: &NameSet) -> (r: Result<(), SpannedTypeError>)
    ensures
        spanned_error_of(r) == type_clash(stmts_view(stmts@), traits@, 0),
{
    let ghost all = stmts_view(stmts@);
    let mut i: usize = 0;
    while i < stmts.len()
        invariant
            i <= stmts.len(),
            all == stmts_view(stmts@),
            all.len() == stmts@.len(),
            type_clash(all, traits@, 0) == type_clash(all, traits@, i as nat),
        decreases stmts.len() - i,
    {
        assert(all[i as int] == stmt_view(stmts@[i as int]));
        if let Some((name, span)) = declared_type(&stmts[i]) {
            if traits.contains(&name) {
                return Err(TypeError::DuplicateTypeTraitName(name).at(span));
            }
        }
        i = i + 1;
    }
    Ok(())
}

fn check_traits(stmts: &Vec<Stmt>, types: &NameSet) -> (r: Result<(), SpannedTypeError>)
    ensures
        spanned_error_of(r) == trait_clash(stmts_view(stmts@), types@, 0),
{
    let ghost all = stmts_view(stmts@);
    let mut i: usize = 0;
    while i < stmts.len()
        invariant
            i <= stmts.len(),
            all == stmts_view(stmts@),
            all.len() == stmts@.len(),
            trait_clash(all, types@, 0) == trait_clash(all, types@, i as nat),
        decreases stmts.len() - i,
    {
        assert(all[i as int] == stmt_view(stmts@[i as int]));
        if let Some((name, span)) = declared_trait(&stmts[i]) {
            if types.contains(&name) {
                return Err(TypeError::DuplicateTypeTraitName(name).at(span));
            }
        }
        i = i + 1;
    }
    Ok(())
}

// ---------------------------------------------------------------------------
// What is in scope
// ---------------------------------------------------------------------------

/// The parameter, from the one at `i` on, that stands among those before it.
pub open spec fn repeated(params: Seq<Seq<char>>, i: nat) -> Option<Seq<char>>
    decreases params.len() - i,
{
    if i >= params.len() {
        None
    } else if params.take(i as int).contains(params[i as int]) {
        Some(params[i as int])
    } else {
        repeated(params, i + 1)
    }
}

/// The error of a type that names a parameter twice.
pub open spec fn repeated_error(owner: Seq<char>, params: Seq<Seq<char>>, span: SourceSpan) -> Option<
    SpannedV,
> {
    match repeated(params, 0) {
        Some(p) => Some(
            error_at(TypeErrorV::DuplicateTypeParameter { owner, param: "'"@ + p }, span),
        ),
        None => None,
    }
}

/// The state with the types that the statements from the one at `i` on declare, and how
/// many arguments each takes. A type that names a parameter twice is refused.
pub open spec fn types_registered(st: InferV, stmts: Seq<StmtV>, i: nat) -> (
    InferV,
    Option<SpannedV>,
)
    decreases stmts.len() - i,
{
    if i >= stmts.len() {
        (st, None)
    } else {
        match stmts[i as int] {
            StmtV::Type(td) => match repeated_error(td.name, td.params, td.name_span) {
                Some(e) => (st, Some(e)),
                None => types_registered(
                    InferV {
                        declared: st.declared.insert(td.name),
                        arities: st.arities.insert(td.name, td.params.len() as usize),
                        ..st
                    },
                    stmts,
                    i + 1,
                ),
            },
            StmtV::TypeAlias { name, name_span, params, ty, .. } => match repeated_error(
                name,
                params,
                name_span,
            ) {
                Some(e) => (st, Some(e)),
                None => types_registered(
                    InferV {
                        declared: st.declared.insert(name),
                        aliases: st.aliases.insert(name, AliasV { params, ty }),
                        ..st
                    },
                    stmts,
                    i + 1,
                ),
            },
            _ => types_registered(st, stmts, i + 1),
        }
    }
}

/// The name of the dictionary of an implementation, where its arguments have one.
pub open spec fn impl_dict(id: ImplDefV) -> Option<Seq<char>> {
    match trait_arg_keys(id.trait_args) {
        Ok(keys) => Some(dict_name_of_keys(id.trait_name, keys)),
        Err(_) => None,
    }
}

/// The state with the dictionaries of the implementations among the first `n`
/// statements.
pub open spec fn dicts_registered(st: InferV, stmts: Seq<StmtV>, n: nat) -> InferV
    decreases n,
{
    if n == 0 {
        st
    } else {
        let before = dicts_registered(st, stmts, (n - 1) as nat);
        match stmts[n - 1] {
            StmtV::Impl(id) => match impl_dict(id) {
                Some(name) => InferV { dicts: before.dicts.insert(name), ..before },
                None => before,
            },
            _ => before,
        }
    }
}

/// The state without the dictionaries of the implementations among the first `n`
/// statements.
pub open spec fn dicts_removed(st: InferV, stmts: Seq<StmtV>, n: nat) -> InferV
    decreases n,
{
    if n == 0 {
        st
    } else {
        let before = dicts_removed(st, stmts, (n - 1) as nat);
        match stmts[n - 1] {
            StmtV::Impl(id) => match impl_dict(id) {
                Some(name) => InferV { dicts: before.dicts.remove(name), ..before },
                None => before,
            },
            _ => before,
        }
    }
}

/// Variants without the first `n` of these.
pub open spec fn variants_removed(all: VariantsV, variants: Seq<VariantDefV>, n: nat) -> VariantsV
    decreases n,
{
    if n == 0 {
        all
    } else {
        variants_removed(all, variants, (n - 1) as nat).remove(variants[n - 1].name)
    }
}

/// The state without a type and its variants.
pub open spec fn type_discarded(st: InferV, td: TypeDefV) -> InferV {
    InferV {
        declared: st.declared.remove(td.name),
        variants: variants_removed(st.variants, td.variants, td.variants.len()),
        ..st
    }
}

/// The state with the operators of a trait, from the method at `i` on, or the error of
/// one that is no operator of two arguments or belongs to another trait.
pub open spec fn operators_registered(st: InferV, def: TraitDefV, i: nat) -> (
    InferV,
    Option<SpannedV>,
)
    decreases def.methods.len() - i,
{
    if i >= def.methods.len() {
        (st, None)
    } else {
        let m = def.methods[i as int];
        if m.fixity is None {
            operators_registered(st, def, i + 1)
        } else if m.params.len() != 2 {
            (
                st,
                Some(
                    error_at(
                        TypeErrorV::TraitMethodArityMismatch {
                            trait_name: def.name,
                            method: m.name,
                            expected: 2,
                            got: m.params.len() as usize,
                        },
                        m.span,
                    ),
                ),
            )
        } else if st.op_traits.dom().contains(m.name) {
            if st.op_traits[m.name] != def.name {
                (st, Some(error_at(TypeErrorV::DuplicateOperator(m.name), def.span)))
            } else {
                operators_registered(st, def, i + 1)
            }
        } else {
            operators_registered(
                InferV { op_traits: st.op_traits.insert(m.name, def.name), ..st },
                def,
                i + 1,
            )
        }
    }
}

/// The state with the traits that the statements from the one at `i` on declare.
pub open spec fn traits_registered(st: InferV, stmts: Seq<StmtV>, i: nat) -> (
    InferV,
    Option<SpannedV>,
)
    decreases stmts.len() - i,
{
    if i >= stmts.len() {
        (st, None)
    } else {
        match stmts[i as int] {
            StmtV::Trait(def) => match trait_error(def) {
                Some(e) => (st, Some(e)),
                None => {
                    let o = operators_registered(
                        InferV { traits: st.traits.insert(def.name, def), ..st },
                        def,
                        0,
                    );
                    match o.1 {
                        Some(e) => (o.0, Some(e)),
                        None => traits_registered(o.0, stmts, i + 1),
                    }
                },
            },
            _ => traits_registered(st, stmts, i + 1),
        }
    }
}

fn check_params(owner: &String, params: &Vec<String>, span: SourceSpan) -> (r: Result<
    (),
    SpannedTypeError,
>)
    ensures
        spanned_error_of(r) == repeated_error(owner@, strings_view(params@), span),
{
    let ghost all = strings_view(params@);
    let mut seen = NameSet::new();
    let mut i: usize = 0;
    while i < params.len()
        invariant
            i <= params.len(),
            all == strings_view(params@),
            all.len() == params@.len(),
            forall|n: Seq<char>| #[trigger]
                seen@.contains(n) <==> all.take(i as int).contains(n),
            repeated(all, 0) == repeated(all, i as nat),
        decreases params.len() - i,
    {
        assert(all[i as int] == params@[i as int]@);
        if seen.contains(&params[i]) {
            let mut param = "'".to_owned();
            param.append(&params[i]);
            return Err(
                TypeError::DuplicateTypeParameter { owner: owner.clone(), param }.at(span),
            );
        }
        let ghost before = all.take(i as int);
        let ghost now = all.take(i + 1);
        seen.insert(params[i].clone());
        proof {
            assert(now =~= before.push(all[i as int]));
            assert forall|n: Seq<char>| #[trigger]
                seen@.contains(n) <==> now.contains(n) by {
                if before.contains(n) {
                    let j = choose|j: int| 0 <= j < before.len() && before[j] == n;
                    assert(now[j] == n);
                }
                if now.contains(n) {
                    let j = choose|j: int| 0 <= j < now.len() && now[j] == n;
                    if j < i {
                        assert(before[j] == n);
                    }
                }
                assert(now[i as int] == all[i as int]);
            }
        }
        i = i + 1;
    }
    Ok(())
}

fn impl_dict_name(id: &ImplDef) -> (r: Option<String>)
    ensures
        match r {
            Some(name) => impl_dict(impl_def_view(*id)) == Some(name@),
            None => impl_dict(impl_def_view(*id)) is None,
        },
{
    match trait_impl_arg_keys_from_ast(&id.trait_args) {
        Ok(keys) => Some(trait_impl_dict_name_from_keys(&id.trait_name, &keys)),
        Err(_) => None,
    }
}

impl Infer {
    /// Refuses a program in which a type and a trait have one name.
    pub fn validate_type_trait_name_collisions(&self, seed: &Vec<Stmt>, stmts: &Vec<Stmt>) -> (r:
        Result<(), SpannedTypeError>)
        ensures
            spanned_error_of(r) == clash(self@, stmts_view(seed@), stmts_view(stmts@)),
    {
        assert(stmts_view(seed@).len() == seed@.len());
        assert(stmts_view(stmts@).len() == stmts@.len());
        let mut traits = NameSet::new();
        let names = self.traits.env.names();
        let ghost all = strings_view(names@);
        let mut i: usize = 0;
        while i < names.len()
            invariant
                i <= names.len(),
                all == strings_view(names@),
                all.len() == names@.len(),
                forall|n: Seq<char>| #[trigger]
                    traits@.contains(n) <==> exists|j: int| 0 <= j < i && all[j] == n,
            decreases names.len() - i,
        {
            assert(all[i as int] == names@[i as int]@);
            traits.insert(names[i].clone());
            i = i + 1;
        }
        assert forall|n: Seq<char>| traits@.contains(n) == self@.traits.dom().contains(n) by {
            assert(all.contains(n) <==> self@.traits.dom().contains(n));
        }
        assert(traits@ =~= self@.traits.dom());
        add_traits(&mut traits, seed);
        match check_types(stmts, &traits) {
            Err(error) => {
                return Err(error);
            },
            Ok(_) => {},
        }
        let mut types = self.types.declared.clone();
        add_types(&mut types, seed);
        add_types(&mut types, stmts);
        check_traits(stmts, &types)
    }

    /// Takes note of the types that statements declare.
    pub fn register_type_declarations(&mut self, stmts: &Vec<Stmt>) -> (r: Result<
        (),
        SpannedTypeError,
    >)
        requires
            old(self).wf(),
        ensures
            final(self).wf(),
            (final(self)@, spanned_error_of(r)) == types_registered(
                old(self)@,
                stmts_view(stmts@),
                0,
            ),
    {
        let ghost all = stmts_view(stmts@);
        let mut i: usize = 0;
        while i < stmts.len()
            invariant
                i <= stmts.len(),
                self.wf(),
                all == stmts_view(stmts@),
                all.len() == stmts@.len(),
                types_registered(old(self)@, all, 0) == types_registered(self@, all, i as nat),
            decreases stmts.len() - i,
        {
            assert(all[i as int] == stmt_view(stmts@[i as int]));
            match &stmts[i] {
                Stmt::Type(td) => {
                    match check_params(&td.name, &td.params, td.name_span) {
                        Err(error) => {
                            return Err(error);
                        },
                        Ok(_) => {},
                    }
                    assert(td@.params.len() == td.params@.len());
                    self.types.declared.insert(td.name.clone());
                    self.types.constructor_arities.insert(td.name.clone(), td.params.len());
                },
                Stmt::TypeAlias { name, name_span, params, ty, .. } => {
                    match check_params(name, params, *name_span) {
                        Err(error) => {
                            return Err(error);
                        },
                        Ok(_) => {},
                    }
                    self.types.declared.insert(name.clone());
                    let alias = Alias {
                        params: crate::text::clone_strings(params),
                        ty: ty.clone(),
                    };
                    self.types.aliases.insert(name.clone(), alias);
                },
                _ => {},
            }
            i = i + 1;
        }
        Ok(())
    }

    /// Forgets the dictionaries of the implementations among statements.
    pub fn remove_program_impl_dict_names(&mut self, stmts: &Vec<Stmt>)
        requires
            old(self).wf(),
        ensures
            final(self).wf(),
            final(self)@ == dicts_removed(old(self)@, stmts_view(stmts@), stmts@.len()),
    {
        let ghost all = stmts_view(stmts@);
        let mut i: usize = 0;
        while i < stmts.len()
            invariant
                i <= stmts.len(),
                self.wf(),
                all == stmts_view(stmts@),
                all.len() == stmts@.len(),
                self@ == dicts_removed(old(self)@, all, i as nat),
            decreases stmts.len() - i,
        {
            assert(all[i as int] == stmt_view(stmts@[i as int]));
            if let Stmt::Impl(id) = &stmts[i] {
                if let Some(name) = impl_dict_name(id) {
                    self.impls.active_dicts.remove(&name);
                }
            }
            i = i + 1;
        }
    }

    /// Forgets a type whose variants are wrong.
    pub fn discard_failed_type_decl(&mut self, td: &TypeDef)
        requires
            old(self).wf(),
        ensures
            final(self).wf(),
            final(self)@ == type_discarded(old(self)@, td@),
    {
        self.types.declared.remove(&td.name);
        let ghost all = td@.variants;
        let ghost start = self@;
        let mut i: usize = 0;
        while i < td.variants.len()
            invariant
                i <= td.variants.len(),
                self.wf(),
                all == td@.variants,
                all.len() == td.variants@.len(),
                self@ == (InferV {
                    variants: variants_removed(start.variants, all, i as nat),
                    ..start
                }),
            decreases td.variants.len() - i,
        {
            assert(all[i as int] == variant_def_view(td.variants@[i as int]));
            self.types.variant_env.0.remove(&td.variants[i].name);
            i = i + 1;
        }
    }

    /// Takes note of the dictionaries of the implementations among statements.
    pub fn register_impl_dict_names(&mut self, stmts: &Vec<Stmt>)
        requires
            old(self).wf(),
        ensures
            final(self).wf(),
            final(self)@ == dicts_registered(old(self)@, stmts_view(stmts@), stmts@.len()),
    {
        let ghost all = stmts_view(stmts@);
        let mut i: usize = 0;
        while i < stmts.len()
            invariant
                i <= stmts.len(),
                self.wf(),
                all == stmts_view(stmts@),
                all.len() == stmts@.len(),
                self@ == dicts_registered(old(self)@, all, i as nat),
            decreases stmts.len() - i,
        {
            assert(all[i as int] == stmt_view(stmts@[i as int]));
            if let Stmt::Impl(id) = &stmts[i] {
                if let Some(name) = impl_dict_name(id) {
                    self.impls.active_dicts.insert(name);
                }
            }
            i = i + 1;
        }
    }

    fn register_operators(&mut self, def: &TraitDef) -> (r: Result<(), SpannedTypeError>)
        requires
            old(self).wf(),
        ensures
            final(self).wf(),
            (final(self)@, spanned_error_of(r)) == operators_registered(old(self)@, def@, 0),
    {
        let ghost ms = def@.methods;
        let mut i: usize = 0;
        while i < def.methods.len()
            invariant
                i <= def.methods.len(),
                self.wf(),
                ms == def@.methods,
                ms.len() == def.methods@.len(),
                operators_registered(old(self)@, def@, 0) == operators_registered(
                    self@,
                    def@,
                    i as nat,
                ),
            decreases def.methods.len() - i,
        {
            assert(ms[i as int] == trait_method_view(def.methods@[i as int]));
            let m = &def.methods[i];
            assert(ms[i as int].params.len() == m.params@.len());
            if m.fixity.is_some() {
                if m.params.len() != 2 {
                    return Err(
                        TypeError::TraitMethodArityMismatch {
                            trait_name: def.name.clone(),
                            method: m.name.clone(),
                            expected: 2,
                            got: m.params.len(),
                        }.at(m.span),
                    );
                }
                let taken = match self.traits.op_trait_map.get(&m.name) {
                    Some(other) => {
                        if !str_eq(other, &def.name) {
                            return Err(TypeError::DuplicateOperator(m.name.clone()).at(def.span));
                        }
                        true
                    },
                    None => false,
                };
                if !taken {
                    self.traits.op_trait_map.insert(m.name.clone(), def.name.clone());
                }
            }
            i = i + 1;
        }
        Ok(())
    }

    /// Takes note of the traits that statements declare, and of their operators.
    pub fn register_traits_and_ops(&mut self, stmts: &Vec<Stmt>) -> (r: Result<
        (),
        SpannedTypeError,
    >)
        requires
            old(self).wf(),
        ensures
            final(self).wf(),
            (final(self)@, spanned_error_of(r)) == traits_registered(
                old(self)@,
                stmts_view(stmts@),
                0,
            ),
    {
        let ghost all = stmts_view(stmts@);
        let mut i: usize = 0;
        while i < stmts.len()
            invariant
                i <= stmts.len(),
                self.wf(),
                all == stmts_view(stmts@),
                all.len() == stmts@.len(),
                traits_registered(old(self)@, all, 0) == traits_registered(self@, all, i as nat),
            decreases stmts.len() - i,
        {
            assert(all[i as int] == stmt_view(stmts@[i as int]));
            if let Stmt::Trait(def) = &stmts[i] {
                match validate_trait_methods_have_target(def) {
                    Err(error) => {
                        return Err(error);
                    },
                    Ok(_) => {},
                }
                self.traits.env.insert(def.name.clone(), def.clone());
                match self.register_operators(def) {
                    Err(error) => {
                        return Err(error);
                    },
                    Ok(_) => {},
                }
            }
            i = i + 1;
        }
        Ok(())
    }
}

} // verus!
