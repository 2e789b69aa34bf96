//! That nothing solved is lost.

use vstd::prelude::*;

use crate::apply::apply_tys;
use crate::dicts::{attach, attach_one, dict_unifying, found_at, found_by_scheme};
use crate::dicts::{found_by_shape, key_sets, param_tys, scheme_names, scheme_of, search};
use crate::dicts::{search_from, unify_each, unify_with_fields, unify_with_method, AttachV};
use crate::dicts::{Found, KeySetsV, KnownV};
use crate::rows::FieldV;
use crate::solutions::{grows, lemma_grows_reflexive, lemma_grows_transitive};
use crate::solutions::lemma_unify_grows;
use crate::subst::SubstV;
use crate::ty::{ConstraintV, SchemeV, TyV};
use crate::type_syntax::dict_name_of_keys;
use crate::unify::unify_types;

verus! {

broadcast use {lemma_grows_reflexive, lemma_grows_transitive};

/// What is found, is found without losing anything solved.
pub open spec fn kept(s: SubstV, f: Found) -> bool {
    f matches Some(found) ==> found.1 is Some && grows(s.map, (found.1->0).map)
}

pub proof fn lemma_unify_each(s: SubstV, a: Seq<TyV>, b: Seq<TyV>, i: nat)
    ensures
        unify_each(s, a, b, i) matches Some(s2) ==> grows(s.map, s2.map),
    decreases a.len() - i,
{
    if i < a.len() && i < b.len() {
        lemma_unify_grows(s, a[i as int], b[i as int]);
        lemma_unify_each(unify_types(s, a[i as int], b[i as int]).0, a, b, i + 1);
    }
}

proof fn lemma_unify_with_method(s: SubstV, field: TyV, actuals: Seq<TyV>)
    ensures
        unify_with_method(s, field, actuals) matches Some(s2) ==> grows(s.map, s2.map),
{
    if let TyV::Func(params, ret) = field {
        if actuals.len() > 0 && params.len() <= actuals.len() {
            lemma_unify_each(s, param_tys(params), actuals, 0);
            if let Some(s2) = unify_each(s, param_tys(params), actuals, 0) {
                if params.len() < actuals.len() {
                    lemma_unify_grows(s2, *ret.ty, actuals[params.len() as int]);
                }
            }
        }
    }
}

proof fn lemma_unify_with_fields(s: SubstV, fields: Seq<FieldV>, i: nat, actuals: Seq<TyV>)
    ensures
        unify_with_fields(s, fields, i, actuals) matches Some(s2) ==> grows(s.map, s2.map),
    decreases fields.len() - i,
{
    if i < fields.len() {
        lemma_unify_with_method(s, fields[i as int].1, actuals);
        lemma_unify_with_fields(s, fields, i + 1, actuals);
    }
}

proof fn lemma_found_by_scheme(k: KnownV, name: Seq<char>, scheme: SchemeV, args: Seq<TyV>, s: SubstV)
    ensures
        kept(s, found_by_scheme(k, name, scheme, args, s)),
{
    if let TyV::Record(row) = scheme.ty {
        lemma_unify_with_fields(s, row.fields, 0, args);
    }
}

proof fn lemma_found_at(
    k: KnownV,
    trait_name: Seq<char>,
    args: Seq<TyV>,
    keys: Seq<Seq<char>>,
    s: SubstV,
)
    ensures
        kept(s, found_at(k, trait_name, args, keys, Some(s))),
{
    let name = dict_name_of_keys(trait_name, keys);
    if let Some(scheme) = scheme_of(k, name) {
        lemma_found_by_scheme(k, name, scheme, args, s);
    }
}

proof fn lemma_search(
    k: KnownV,
    trait_name: Seq<char>,
    args: Seq<TyV>,
    sets: Seq<Seq<Seq<char>>>,
    keys: Seq<Seq<char>>,
    s: SubstV,
)
    ensures
        kept(s, search(k, trait_name, args, sets, keys, Some(s))),
    decreases sets.len() - keys.len(), 1nat, 0nat,
{
    if keys.len() >= sets.len() {
        lemma_found_at(k, trait_name, args, keys, s);
    } else {
        lemma_search_from(k, trait_name, args, sets, keys, 0, s);
    }
}

proof fn lemma_search_from(
    k: KnownV,
    trait_name: Seq<char>,
    args: Seq<TyV>,
    sets: Seq<Seq<Seq<char>>>,
    keys: Seq<Seq<char>>,
    j: nat,
    s: SubstV,
)
    ensures
        kept(s, search_from(k, trait_name, args, sets, keys, j, Some(s))),
    decreases sets.len() - keys.len(), 0nat, sets[keys.len() as int].len() - j,
{
    if keys.len() < sets.len() && j < sets[keys.len() as int].len() {
        let longer = keys.push(sets[keys.len() as int][j as int]);
        lemma_search(k, trait_name, args, sets, longer, s);
        lemma_search_from(k, trait_name, args, sets, keys, j + 1, s);
    }
}

proof fn lemma_found_by_shape(
    k: KnownV,
    trait_name: Seq<char>,
    args: Seq<TyV>,
    names: Seq<Seq<char>>,
    i: nat,
    s: SubstV,
)
    ensures
        kept(s, found_by_shape(k, trait_name, args, names, i, s)),
    decreases names.len() - i,
{
    if i < names.len() {
        if let Some(scheme) = scheme_of(k, names[i as int]) {
            lemma_found_by_scheme(k, names[i as int], scheme, args, s);
        }
        lemma_found_by_shape(k, trait_name, args, names, i + 1, s);
    }
}

pub proof fn lemma_dict_unifying(
    k: KnownV,
    trait_name: Seq<char>,
    args: Seq<TyV>,
    indexes: Seq<usize>,
    s: SubstV,
)
    ensures
        kept(s, dict_unifying(k, trait_name, args, indexes, s)),
{
    lemma_found_by_shape(k, trait_name, args, scheme_names(k), 0, s);
    if let KeySetsV::Sets(sets) = key_sets(args, indexes) {
        lemma_search(k, trait_name, args, sets, Seq::empty(), s);
    }
}

pub proof fn keeps_attach(a: AttachV, k: KnownV, cs: Seq<ConstraintV>, i: nat)
    ensures
        grows(a.subst.map, attach(a, k, cs, i).subst.map),
    decreases cs.len() - i,
{
    if a.err is Some || i >= cs.len() {
    } else {
        keeps_attach_one(a, k, cs[i as int]);
        keeps_attach(attach_one(a, k, cs[i as int]), k, cs, i + 1);
    }
}

pub proof fn keeps_attach_one(a: AttachV, k: KnownV, c: ConstraintV)
    ensures
        grows(a.subst.map, attach_one(a, k, c).subst.map),
{
    lemma_dict_unifying(
        k,
        c.trait_name,
        apply_tys(a.subst.map, c.args),
        c.determinant_indexes,
        a.subst,
    );
}

} // verus!
