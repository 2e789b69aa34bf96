//! What a dictionary that is found for a use of a trait has to be.

use vstd::prelude::*;

use crate::apply::{apply, apply_tys};
use crate::ast::DictTarget;
use crate::ast_view::{DictRefV, PendingDictArgV};
use crate::dict_names::param_name;
use crate::dicts::{all_bound, attach, attach_one, constraint_dicts, dict_args_for, dict_for};
use crate::dicts::{dict_for_args, dict_unifying, eq_dicts, first_dict, first_local, found_at};
use crate::dicts::{found_by_scheme, found_by_shape, key_sets, match_method, match_methods};
use crate::dicts::{match_ty, match_tys, param_tys, resolve_pending, scheme_bindings};
use crate::dicts::{scheme_names, search, search_from, AttachV, Bindings, Found, KeySetsV};
use crate::dicts::{KnownV, MAX_DICT_DEPTH, ResolverV};
use crate::rows::FieldV;
use crate::subst::SubstV;
use crate::ty::{ConstraintV, ParamV, SchemeV, TyV, TyVar};
use crate::type_syntax::{dict_name_of_keys, target_keys};

verus! {

// ---------------------------------------------------------------------------
// What implementations are known
// ---------------------------------------------------------------------------

/// Whether `s` is the scheme of the dictionary `name`. What is in scope hides the rest.
pub open spec fn known_scheme(k: KnownV, name: Seq<char>, s: SchemeV) -> bool {
    if k.env.dom().contains(name) {
        k.env[name].scheme == s
    } else {
        k.schemes.dom().contains(name) && k.schemes[name] == s
    }
}

/// Whether there is a dictionary of this name.
pub open spec fn is_present(k: KnownV, name: Seq<char>) -> bool {
    k.env.dom().contains(name) || k.dicts.contains(name)
}

/// The name of the dictionary of a trait for a key of its target.
pub open spec fn impl_name(trait_name: Seq<char>, key: Seq<char>) -> Seq<char> {
    dict_name_of_keys(trait_name, seq![key])
}

/// Whether `name` is the dictionary of a trait for the first key of a type that has one.
pub open spec fn is_named_for(k: KnownV, trait_name: Seq<char>, ty: TyV, name: Seq<char>) -> bool {
    exists|i: int|
        0 <= i < target_keys(ty).len() && name == impl_name(trait_name, #[trigger] target_keys(ty)[i])
            && is_present(k, name) && forall|j: int|
            0 <= j < i ==> !is_present(k, impl_name(trait_name, #[trigger] target_keys(ty)[j]))
}

// ---------------------------------------------------------------------------
// Matching
// ---------------------------------------------------------------------------

/// Whether `pattern` is `actual` once its variables stand for what they are bound to.
pub open spec fn stands(b: Bindings, pattern: TyV, actual: TyV) -> bool
    decreases pattern, actual,
{
    match (pattern, actual) {
        (TyV::Var(v), _) => b.dom().contains(v) && b[v] == actual,
        (TyV::App(pc, ps), TyV::App(ac, xs)) => ps.len() == xs.len() && stands(b, *pc, *ac)
            && all_stand(b, ps, xs),
        (TyV::Con(p), TyV::Con(a)) => p == a,
        (TyV::Int, TyV::Int) => true,
        (TyV::Float, TyV::Float) => true,
        (TyV::Unit, TyV::Unit) => true,
        (TyV::Qualified(_, p), _) => stands(b, *p, actual),
        (_, TyV::Qualified(_, a)) => stands(b, pattern, *a),
        _ => false,
    }
}

/// [`stands`] for each of the common part of two lists.
pub open spec fn all_stand(b: Bindings, ps: Seq<TyV>, xs: Seq<TyV>) -> bool
    decreases ps, xs,
{
    forall|i: int| 0 <= i < ps.len() && i < xs.len() ==> stands(b, #[trigger] ps[i], xs[i])
}

/// Nothing that was bound is bound otherwise.
pub open spec fn binds_more(b: Bindings, b2: Bindings) -> bool {
    forall|v: TyVar| #[trigger] b.dom().contains(v) ==> b2.dom().contains(v) && b2[v] == b[v]
}

/// Whether the method from `params` to `ret` is one for these trait arguments: its first
/// parameters, and then its result, stand for them.
pub open spec fn is_method_for(b: Bindings, params: Seq<ParamV>, ret: TyV, actuals: Seq<TyV>) -> bool {
    &&& actuals.len() > 0
    &&& forall|i: int|
        0 <= i < params.len() && i < actuals.len() ==> stands(
            b,
            (#[trigger] params[i]).ty,
            actuals[i],
        )
    &&& params.len() < actuals.len() ==> stands(b, ret, actuals[params.len() as int])
}

/// Whether the bindings come from matching a method of a dictionary with the trait
/// arguments, and bind the variable of each constraint.
pub open spec fn is_matched(dict_ty: TyV, actuals: Seq<TyV>, cs: Seq<ConstraintV>, b: Bindings) -> bool {
    &&& dict_ty matches TyV::Record(row) && exists|i: int|
        0 <= i < row.fields.len() && ((#[trigger] row.fields[i]).1 matches TyV::Func(params, ret)
            && is_method_for(b, params, *ret.ty, actuals))
    &&& forall|i: int| 0 <= i < cs.len() ==> b.dom().contains((#[trigger] cs[i]).var)
}

proof fn lemma_stands_later(b: Bindings, b2: Bindings, pattern: TyV, actual: TyV)
    requires
        stands(b, pattern, actual),
        binds_more(b, b2),
    ensures
        stands(b2, pattern, actual),
    decreases pattern, actual,
{
    match (pattern, actual) {
        (TyV::Var(v), _) => {
            assert(b.dom().contains(v));
        },
        (TyV::App(pc, ps), TyV::App(ac, xs)) => {
            lemma_stands_later(b, b2, *pc, *ac);
            assert(all_stand(b, ps, xs));
            assert forall|i: int| 0 <= i < ps.len() && i < xs.len() implies stands(
                b2,
                #[trigger] ps[i],
                xs[i],
            ) by {
                lemma_stands_later(b, b2, ps[i], xs[i]);
            }
            assert(all_stand(b2, ps, xs));
        },
        (TyV::Qualified(_, p), _) => {
            lemma_stands_later(b, b2, *p, actual);
        },
        (_, TyV::Qualified(_, a)) => {
            lemma_stands_later(b, b2, pattern, *a);
        },
        _ => {},
    }
}

/// What matching binds makes the pattern the type it is matched with, and changes no
/// binding that was there.
pub proof fn law_match_binds(pattern: TyV, actual: TyV, b: Bindings)
    requires
        match_ty(pattern, actual, b) is Some,
    ensures
        binds_more(b, match_ty(pattern, actual, b)->0),
        stands(match_ty(pattern, actual, b)->0, pattern, actual),
    decreases pattern, actual,
{
    match (pattern, actual) {
        (TyV::Var(v), _) => {},
        (TyV::App(pc, ps), TyV::App(ac, xs)) => {
            law_match_binds(*pc, *ac, b);
            let b2 = match_ty(*pc, *ac, b)->0;
            lemma_match_tys(ps, xs, b2);
            let b3 = match_tys(ps, xs, b2)->0;
            lemma_stands_later(b2, b3, *pc, *ac);
            assert(all_stand(b3, ps, xs));
        },
        (TyV::Qualified(_, p), _) => {
            law_match_binds(*p, actual, b);
        },
        (_, TyV::Qualified(_, a)) => {
            law_match_binds(pattern, *a, b);
        },
        _ => {},
    }
}

proof fn lemma_match_tys(ps: Seq<TyV>, xs: Seq<TyV>, b: Bindings)
    requires
        match_tys(ps, xs, b) is Some,
    ensures
        binds_more(b, match_tys(ps, xs, b)->0),
        forall|i: int|
            0 <= i < ps.len() && i < xs.len() ==> stands(
                match_tys(ps, xs, b)->0,
                #[trigger] ps[i],
                xs[i],
            ),
    decreases ps, xs,
{
    if ps.len() > 0 && xs.len() > 0 {
        law_match_binds(ps[0], xs[0], b);
        let b2 = match_ty(ps[0], xs[0], b)->0;
        lemma_match_tys(ps.skip(1), xs.skip(1), b2);
        let b3 = match_tys(ps, xs, b)->0;
        assert forall|i: int| 0 <= i < ps.len() && i < xs.len() implies stands(
            b3,
            #[trigger] ps[i],
            xs[i],
        ) by {
            if i == 0 {
                lemma_stands_later(b2, b3, ps[0], xs[0]);
            } else {
                assert(ps.skip(1)[i - 1] == ps[i]);
                assert(xs.skip(1)[i - 1] == xs[i]);
            }
        }
    }
}

proof fn lemma_match_method(params: Seq<ParamV>, ret: TyV, actuals: Seq<TyV>, b: Bindings)
    requires
        match_method(params, ret, actuals, b) is Some,
    ensures
        binds_more(b, match_method(params, ret, actuals, b)->0),
        is_method_for(match_method(params, ret, actuals, b)->0, params, ret, actuals),
{
    let ps = param_tys(params);
    lemma_match_tys(ps, actuals, b);
    let b2 = match_tys(ps, actuals, b)->0;
    let b3 = match_method(params, ret, actuals, b)->0;
    if params.len() < actuals.len() {
        law_match_binds(ret, actuals[params.len() as int], b2);
    }
    assert forall|i: int| 0 <= i < params.len() && i < actuals.len() implies stands(
        b3,
        (#[trigger] params[i]).ty,
        actuals[i],
    ) by {
        assert(ps[i] == params[i].ty);
        lemma_stands_later(b2, b3, ps[i], actuals[i]);
    }
}

proof fn lemma_match_methods(
    fields: Seq<FieldV>,
    i: nat,
    actuals: Seq<TyV>,
    cs: Seq<ConstraintV>,
    b: Bindings,
)
    requires
        match_methods(fields, i, actuals, cs, b) is Some,
    ensures
        exists|j: int|
            i <= j < fields.len() && ((#[trigger] fields[j]).1 matches TyV::Func(params, ret)
                && is_method_for(
                match_methods(fields, i, actuals, cs, b)->0,
                params,
                *ret.ty,
                actuals,
            )),
        all_bound(cs, match_methods(fields, i, actuals, cs, b)->0),
    decreases fields.len() - i,
{
    match fields[i as int].1 {
        TyV::Func(params, ret) => match match_method(params, *ret.ty, actuals, b) {
            Some(b2) => {
                lemma_match_method(params, *ret.ty, actuals, b);
                if all_bound(cs, b2) {
                    assert(fields[i as int].1 matches TyV::Func(p, r) && is_method_for(
                        b2,
                        p,
                        *r.ty,
                        actuals,
                    ));
                } else {
                    lemma_match_methods(fields, i + 1, actuals, cs, b2);
                }
            },
            None => {
                lemma_match_methods(fields, i + 1, actuals, cs, b);
            },
        },
        _ => {
            lemma_match_methods(fields, i + 1, actuals, cs, b);
        },
    }
}

proof fn lemma_scheme_bindings(dict_ty: TyV, actuals: Seq<TyV>, cs: Seq<ConstraintV>)
    requires
        scheme_bindings(dict_ty, actuals, cs) is Some,
    ensures
        is_matched(dict_ty, actuals, cs, scheme_bindings(dict_ty, actuals, cs)->0),
{
    if let TyV::Record(row) = dict_ty {
        lemma_match_methods(row.fields, 0, actuals, cs, Map::empty());
    }
}

// ---------------------------------------------------------------------------
// Dictionaries
// ---------------------------------------------------------------------------

/// Why a dictionary serves: the implementation, what its variables are bound to, and why
/// each dictionary that it rests on serves.
pub enum Support {
    Plain,
    Parts(Seq<Support>),
    Bound(SchemeV, Bindings, Seq<Support>),
}

/// Whether a dictionary carries, for the implementation of the scheme `s` at these trait
/// arguments, one dictionary for each constraint, in their order: that of the constraint's
/// trait at the type that matching binds its variable to.
pub open spec fn carries_by(
    k: KnownV,
    s: SchemeV,
    actuals: Seq<TyV>,
    args: Seq<DictRefV>,
    b: Bindings,
    whys: Seq<Support>,
) -> bool
    decreases args,
{
    &&& args.len() == s.constraints.len()
    &&& whys.len() == args.len()
    &&& is_matched(s.ty, actuals, s.constraints, b)
    &&& forall|i: int|
        0 <= i < args.len() ==> serves_by(
            k,
            s.constraints[i].trait_name,
            b[s.constraints[i].var],
            #[trigger] args[i],
            whys[i],
        )
}

/// Whether `why` shows that a dictionary is that of a trait for a type.
pub open spec fn serves_by(k: KnownV, trait_name: Seq<char>, ty: TyV, d: DictRefV, why: Support) -> bool
    decreases d,
{
    match d {
        DictRefV::Concrete(name) => is_named_for(k, trait_name, ty, name) && forall|s: SchemeV|
            #[trigger] known_scheme(k, name, s) ==> s.constraints.len() == 0,
        DictRefV::Applied { dict, args } => is_named_for(k, trait_name, ty, dict) && match why {
            Support::Bound(s, b, whys) => known_scheme(k, dict, s) && s.constraints.len() > 0
                && carries_by(k, s, seq![ty], args, b, whys),
            _ => false,
        },
        DictRefV::Composed(c) => match (ty, why) {
            (TyV::Tuple(items), Support::Parts(whys)) => {
                &&& trait_name == "Eq"@
                &&& c.trait_name == "Eq"@
                &&& c.target == DictTarget::Tuple(items.len() as usize)
                &&& c.args.len() == items.len()
                &&& whys.len() == items.len()
                &&& forall|i: int|
                    0 <= i < items.len() ==> serves_by(
                        k,
                        "Eq"@,
                        items[i],
                        #[trigger] c.args[i],
                        whys[i],
                    )
            },
            _ => false,
        },
        DictRefV::Param(_) => false,
    }
}

/// Whether a dictionary is that of a trait for a type: the one of the implementation for
/// the type, with a dictionary for each of its constraints. It is bare only if the
/// implementation has none. The equality of a tuple is made of those of its components.
pub open spec fn serves(k: KnownV, trait_name: Seq<char>, ty: TyV, d: DictRefV) -> bool {
    exists|why: Support| serves_by(k, trait_name, ty, d, why)
}

/// Whether the dictionaries are those that the implementation called `name` rests on at
/// these trait arguments.
pub open spec fn carries(k: KnownV, name: Seq<char>, actuals: Seq<TyV>, args: Seq<DictRefV>) -> bool {
    exists|s: SchemeV, b: Bindings, whys: Seq<Support>|
        #![trigger carries_by(k, s, actuals, args, b, whys)]
        known_scheme(k, name, s) && s.constraints.len() > 0 && carries_by(
            k,
            s,
            actuals,
            args,
            b,
            whys,
        )
}

/// Whether a dictionary is the one called `name`, with what its implementation rests on at
/// these trait arguments.
pub open spec fn is_dict_at(k: KnownV, name: Seq<char>, actuals: Seq<TyV>, d: DictRefV) -> bool {
    match d {
        DictRefV::Concrete(n) => n == name && forall|s: SchemeV| #[trigger]
            known_scheme(k, name, s) ==> s.constraints.len() == 0,
        DictRefV::Applied { dict, args } => dict == name && carries(k, name, actuals, args),
        _ => false,
    }
}

pub(crate) proof fn lemma_first_dict(k: KnownV, trait_name: Seq<char>, ty: TyV, i: nat)
    requires
        first_dict(k, trait_name, target_keys(ty), i) is Some,
        forall|j: int|
            0 <= j < i && j < target_keys(ty).len() ==> !is_present(
                k,
                impl_name(trait_name, #[trigger] target_keys(ty)[j]),
            ),
    ensures
        is_named_for(k, trait_name, ty, first_dict(k, trait_name, target_keys(ty), i)->0),
    decreases target_keys(ty).len() - i,
{
    let keys = target_keys(ty);
    let name = impl_name(trait_name, keys[i as int]);
    if is_present(k, name) {
        assert(name == impl_name(trait_name, keys[i as int]));
    } else {
        lemma_first_dict(k, trait_name, ty, i + 1);
    }
}

proof fn lemma_constraint_dicts(k: KnownV, cs: Seq<ConstraintV>, b: Bindings, left: nat)
    requires
        constraint_dicts(k, cs, b, left) is Some,
    ensures
        constraint_dicts(k, cs, b, left)->0.len() == cs.len(),
        forall|i: int|
            0 <= i < cs.len() ==> dict_for(k, (#[trigger] cs[i]).trait_name, b[cs[i].var], left)
                == Some(constraint_dicts(k, cs, b, left)->0[i]),
    decreases cs.len(),
{
    if cs.len() > 0 {
        let init = cs.drop_last();
        lemma_constraint_dicts(k, init, b, left);
        let all = constraint_dicts(k, cs, b, left)->0;
        assert forall|i: int| 0 <= i < cs.len() implies dict_for(
            k,
            (#[trigger] cs[i]).trait_name,
            b[cs[i].var],
            left,
        ) == Some(all[i]) by {
            if i < init.len() {
                assert(init[i] == cs[i]);
            }
        }
    }
}

proof fn lemma_eq_dicts(k: KnownV, items: Seq<TyV>, left: nat)
    requires
        eq_dicts(k, items, left) is Some,
    ensures
        eq_dicts(k, items, left)->0.len() == items.len(),
        forall|i: int|
            0 <= i < items.len() ==> dict_for(k, "Eq"@, #[trigger] items[i], left) == Some(
                eq_dicts(k, items, left)->0[i],
            ),
    decreases items.len(),
{
    if items.len() > 0 {
        let init = items.drop_last();
        lemma_eq_dicts(k, init, left);
        let all = eq_dicts(k, items, left)->0;
        assert forall|i: int| 0 <= i < items.len() implies dict_for(
            k,
            "Eq"@,
            #[trigger] items[i],
            left,
        ) == Some(all[i]) by {
            if i < init.len() {
                assert(init[i] == items[i]);
            }
        }
    }
}

proof fn lemma_carries(k: KnownV, s: SchemeV, actuals: Seq<TyV>, left: nat)
    requires
        s.constraints.len() > 0,
        dict_args_for(k, s, actuals, left) is Some,
    ensures
        exists|b: Bindings, whys: Seq<Support>| #[trigger]
            carries_by(k, s, actuals, dict_args_for(k, s, actuals, left)->0, b, whys),
    decreases left, 2nat, 0nat,
{
    let cs = s.constraints;
    let args = dict_args_for(k, s, actuals, left)->0;
    lemma_scheme_bindings(s.ty, actuals, cs);
    let b = scheme_bindings(s.ty, actuals, cs)->0;
    lemma_constraint_dicts(k, cs, b, left);
    let whys = Seq::new(
        args.len(),
        |i: int| choose|w: Support| serves_by(k, cs[i].trait_name, b[cs[i].var], args[i], w),
    );
    assert forall|i: int| 0 <= i < args.len() implies serves_by(
        k,
        cs[i].trait_name,
        b[cs[i].var],
        #[trigger] args[i],
        whys[i],
    ) by {
        assert(dict_for(k, cs[i].trait_name, b[cs[i].var], left) == Some(args[i]));
        law_dict_serves(k, cs[i].trait_name, b[cs[i].var], left);
    }
    assert(carries_by(k, s, actuals, args, b, whys));
}

/// The dictionary that is found for a trait at a type serves: it is that of the
/// implementation for the type and carries exactly one dictionary for each constraint of
/// the implementation, in their order, each of which serves at the type that matching
/// binds its variable to.
pub proof fn law_dict_serves(k: KnownV, trait_name: Seq<char>, ty: TyV, left: nat)
    requires
        dict_for(k, trait_name, ty, left) is Some,
    ensures
        serves(k, trait_name, ty, dict_for(k, trait_name, ty, left)->0),
    decreases left, 0nat, 0nat,
{
    let d = dict_for(k, trait_name, ty, left)->0;
    if trait_name == "Eq"@ && ty is Tuple {
        let items = ty->Tuple_0;
        let below = (left - 1) as nat;
        lemma_eq_dicts(k, items, below);
        let args = eq_dicts(k, items, below)->0;
        let whys = Seq::new(
            items.len(),
            |i: int| choose|w: Support| serves_by(k, "Eq"@, items[i], args[i], w),
        );
        assert forall|i: int| 0 <= i < items.len() implies serves_by(
            k,
            "Eq"@,
            items[i],
            #[trigger] args[i],
            whys[i],
        ) by {
            assert(dict_for(k, "Eq"@, items[i], below) == Some(args[i]));
            law_dict_serves(k, "Eq"@, items[i], below);
        }
        assert(serves_by(k, trait_name, ty, d, Support::Parts(whys)));
    } else {
        lemma_first_dict(k, trait_name, ty, 0);
        let name = first_dict(k, trait_name, target_keys(ty), 0)->0;
        if exists|s: SchemeV| known_scheme(k, name, s) && s.constraints.len() > 0 {
            let s = choose|s: SchemeV| known_scheme(k, name, s) && s.constraints.len() > 0;
            let below = (left - 1) as nat;
            lemma_carries(k, s, seq![ty], below);
            let args = dict_args_for(k, s, seq![ty], below)->0;
            let (b, whys) = choose|b: Bindings, whys: Seq<Support>| #[trigger]
                carries_by(k, s, seq![ty], args, b, whys);
            assert(args.len() > 0);
            assert(d == DictRefV::Applied { dict: name, args });
            assert(serves_by(k, trait_name, ty, d, Support::Bound(s, b, whys)));
        } else {
            if k.env.dom().contains(name) {
                assert(known_scheme(k, name, k.env[name].scheme));
            } else if k.schemes.dom().contains(name) {
                assert(known_scheme(k, name, k.schemes[name]));
            }
            assert(d == DictRefV::Concrete(name));
            assert(serves_by(k, trait_name, ty, d, Support::Plain));
        }
    }
}

/// An implementation without constraints is found for every type that it is for.
pub proof fn law_plain_dict_is_found(
    k: KnownV,
    trait_name: Seq<char>,
    ty: TyV,
    left: nat,
    name: Seq<char>,
)
    requires
        left > 0,
        !(trait_name == "Eq"@ && ty is Tuple),
        is_named_for(k, trait_name, ty, name),
        forall|s: SchemeV| #[trigger] known_scheme(k, name, s) ==> s.constraints.len() == 0,
    ensures
        dict_for(k, trait_name, ty, left) == Some(DictRefV::Concrete(name)),
{
    let i = choose|i: int|
        0 <= i < target_keys(ty).len() && name == impl_name(trait_name, #[trigger] target_keys(ty)[i])
            && is_present(k, name) && forall|j: int|
            0 <= j < i ==> !is_present(k, impl_name(trait_name, #[trigger] target_keys(ty)[j]));
    lemma_first_is(k, trait_name, ty, 0, i);
    if k.env.dom().contains(name) {
        assert(known_scheme(k, name, k.env[name].scheme));
    } else if k.schemes.dom().contains(name) {
        assert(known_scheme(k, name, k.schemes[name]));
    }
}

proof fn lemma_first_is(k: KnownV, trait_name: Seq<char>, ty: TyV, from: nat, i: int)
    requires
        from <= i < target_keys(ty).len(),
        is_present(k, impl_name(trait_name, target_keys(ty)[i])),
        forall|j: int|
            0 <= j < i ==> !is_present(k, impl_name(trait_name, #[trigger] target_keys(ty)[j])),
    ensures
        first_dict(k, trait_name, target_keys(ty), from) == Some(
            impl_name(trait_name, target_keys(ty)[i]),
        ),
    decreases i - from,
{
    if from < i {
        assert(!is_present(k, impl_name(trait_name, target_keys(ty)[from as int])));
        lemma_first_is(k, trait_name, ty, from + 1, i);
    }
}

/// Whether a dictionary is one of a trait for these arguments: for one argument it serves;
/// for several it is that of some implementation, with what it rests on at what the
/// arguments are once they are matched.
pub open spec fn serves_args(k: KnownV, trait_name: Seq<char>, args: Seq<TyV>, d: DictRefV) -> bool {
    if args.len() == 1 {
        serves(k, trait_name, args[0], d)
    } else {
        exists|name: Seq<char>| #[trigger] is_dict_at(k, name, args, d)
    }
}

proof fn lemma_dict_at(k: KnownV, name: Seq<char>, s: SchemeV, actuals: Seq<TyV>, left: nat)
    requires
        known_scheme(k, name, s),
        dict_args_for(k, s, actuals, left) is Some,
    ensures
        is_dict_at(
            k,
            name,
            actuals,
            crate::dicts::dict_with(name, dict_args_for(k, s, actuals, left)->0),
        ),
{
    let args = dict_args_for(k, s, actuals, left)->0;
    let d = crate::dicts::dict_with(name, args);
    assert forall|s2: SchemeV| #[trigger] known_scheme(k, name, s2) implies s2 == s by {}
    if s.constraints.len() > 0 {
        lemma_carries(k, s, actuals, left);
        let (b, whys) = choose|b: Bindings, whys: Seq<Support>| #[trigger]
            carries_by(k, s, actuals, args, b, whys);
        assert(args.len() == s.constraints.len());
        assert(d == DictRefV::Applied { dict: name, args });
        assert(carries_by(k, s, actuals, args, b, whys) && known_scheme(k, name, s)
            && s.constraints.len() > 0);
        assert(carries(k, name, actuals, args));
        assert(is_dict_at(k, name, actuals, d));
    } else {
        assert(args.len() == 0);
        assert forall|s2: SchemeV| #[trigger] known_scheme(k, name, s2) implies s2.constraints.len()
            == 0 by {
            assert(s2 == s);
        }
        assert(d == DictRefV::Concrete(name));
        assert(is_dict_at(k, name, actuals, d));
    }
}

proof fn lemma_found_at(k: KnownV, trait_name: Seq<char>, args: Seq<TyV>, keys: Seq<Seq<char>>)
    requires
        found_at(k, trait_name, args, keys, None) is Some,
    ensures
        is_dict_at(
            k,
            dict_name_of_keys(trait_name, keys),
            args,
            (found_at(k, trait_name, args, keys, None)->0).0,
        ),
{
    let name = dict_name_of_keys(trait_name, keys);
    if k.env.dom().contains(name) {
        lemma_dict_at(k, name, k.env[name].scheme, args, MAX_DICT_DEPTH as nat);
    } else if k.schemes.dom().contains(name) {
        lemma_dict_at(k, name, k.schemes[name], args, MAX_DICT_DEPTH as nat);
    }
}

proof fn lemma_search(
    k: KnownV,
    trait_name: Seq<char>,
    args: Seq<TyV>,
    sets: Seq<Seq<Seq<char>>>,
    keys: Seq<Seq<char>>,
)
    requires
        search(k, trait_name, args, sets, keys, None) is Some,
    ensures
        exists|name: Seq<char>| #[trigger]
            is_dict_at(k, name, args, (search(k, trait_name, args, sets, keys, None)->0).0),
    decreases sets.len() - keys.len(), 1nat, 0nat,
{
    if keys.len() >= sets.len() {
        lemma_found_at(k, trait_name, args, keys);
    } else {
        lemma_search_from(k, trait_name, args, sets, keys, 0);
    }
}

proof fn lemma_search_from(
    k: KnownV,
    trait_name: Seq<char>,
    args: Seq<TyV>,
    sets: Seq<Seq<Seq<char>>>,
    keys: Seq<Seq<char>>,
    j: nat,
)
    requires
        search_from(k, trait_name, args, sets, keys, j, None) is Some,
    ensures
        exists|name: Seq<char>| #[trigger]
            is_dict_at(k, name, args, (search_from(k, trait_name, args, sets, keys, j, None)->0).0),
    decreases sets.len() - keys.len(), 0nat, sets[keys.len() as int].len() - j,
{
    let longer = keys.push(sets[keys.len() as int][j as int]);
    if search(k, trait_name, args, sets, longer, None) is Some {
        lemma_search(k, trait_name, args, sets, longer);
    } else {
        lemma_search_from(k, trait_name, args, sets, keys, j + 1);
    }
}

/// What is found for several trait arguments is the dictionary of an implementation with
/// all that it rests on.
pub proof fn law_dict_for_args_serves(
    k: KnownV,
    trait_name: Seq<char>,
    args: Seq<TyV>,
    indexes: Seq<usize>,
)
    requires
        dict_for_args(k, trait_name, args, indexes) is Some,
    ensures
        serves_args(k, trait_name, args, dict_for_args(k, trait_name, args, indexes)->0),
{
    if args.len() == 1 {
        law_dict_serves(k, trait_name, args[0], MAX_DICT_DEPTH as nat);
    } else {
        if let KeySetsV::Sets(sets) = key_sets(args, indexes) {
            lemma_search(k, trait_name, args, sets, Seq::empty());
        }
    }
}

/// Whether a dictionary is one for what is pending: a parameter of the function whose
/// constraint it is, or a dictionary of its trait that serves.
pub open spec fn is_served(c: ResolverV, p: PendingDictArgV, d: DictRefV) -> bool {
    match d {
        DictRefV::Param(name) => exists|i: int|
            0 <= i < c.locals.len() && name == param_name(#[trigger] c.locals[i])
                && c.locals[i].trait_name == p.trait_name && c.locals[i].args.len() == p.args.len()
                && forall|j: int|
                0 <= j < p.args.len() ==> apply(c.map, c.locals[i].args[j]) == apply(
                    c.map,
                    #[trigger] p.args[j],
                ),
        _ => serves_args(c.known, p.trait_name, apply_tys(c.map, p.args), d),
    }
}

/// What is pending is given a parameter of the function whose constraint it is, or a
/// dictionary of its trait that serves.
pub proof fn law_pending_is_served(c: ResolverV, p: PendingDictArgV)
    requires
        resolve_pending(c, p) is Some,
    ensures
        is_served(c, p, resolve_pending(c, p)->0),
{
    let local = if apply(c.map, TyV::Var(p.var)) is Var {
        first_local(c.map, c.locals, p, 0)
    } else {
        None
    };
    if local is Some {
        lemma_first_local(c.map, c.locals, p, 0);
    } else {
        let args = apply_tys(c.map, p.args);
        law_dict_for_args_serves(c.known, p.trait_name, args, p.determinant_indexes);
        let d = resolve_pending(c, p)->0;
        if d is Param {
            if args.len() == 1 {
                let why = choose|why: Support| serves_by(c.known, p.trait_name, args[0], d, why);
                assert(false);
            } else {
                let name = choose|name: Seq<char>| #[trigger] is_dict_at(c.known, name, args, d);
                assert(false);
            }
        }
    }
}

proof fn lemma_first_local(m: Map<TyVar, TyV>, cs: Seq<ConstraintV>, p: PendingDictArgV, i: nat)
    requires
        first_local(m, cs, p, i) is Some,
    ensures
        exists|k: int|
            0 <= k < cs.len() && first_local(m, cs, p, i) == Some(
                DictRefV::Param(param_name(#[trigger] cs[k])),
            ) && cs[k].trait_name == p.trait_name && cs[k].args.len() == p.args.len() && forall|
                j: int,
            |
                0 <= j < p.args.len() ==> apply(m, cs[k].args[j]) == apply(m, #[trigger] p.args[j]),
    decreases cs.len() - i,
{
    if crate::dicts::local_fits(m, cs[i as int], p) {
        assert forall|j: int| 0 <= j < p.args.len() implies apply(m, cs[i as int].args[j]) == apply(
            m,
            #[trigger] p.args[j],
        ) by {
            assert(apply(m, cs[i as int].args[j]) == apply(m, p.args[j]));
        }
        assert(first_local(m, cs, p, i) == Some(DictRefV::Param(param_name(cs[i as int]))));
    } else {
        lemma_first_local(m, cs, p, i + 1);
    }
}

proof fn lemma_found_by_scheme(
    k: KnownV,
    name: Seq<char>,
    s: SchemeV,
    args: Seq<TyV>,
    sub: SubstV,
)
    requires
        known_scheme(k, name, s),
        found_by_scheme(k, name, s, args, sub) is Some,
    ensures
        ({
            let f = found_by_scheme(k, name, s, args, sub)->0;
            f.1 is Some && is_dict_at(k, name, apply_tys((f.1->0).map, args), f.0)
        }),
{
    let s2 = crate::dicts::unify_with_methods(sub, s.ty, args)->0;
    lemma_dict_at(k, name, s, apply_tys(s2.map, args), MAX_DICT_DEPTH as nat);
}

/// Whether what was found is the dictionary of some implementation, with what it rests on at
/// the arguments as they are solved then.
pub open spec fn is_found(k: KnownV, args: Seq<TyV>, f: Found) -> bool {
    f matches Some(found) ==> found.1 is Some && exists|name: Seq<char>| #[trigger]
        is_dict_at(k, name, apply_tys((found.1->0).map, args), found.0)
}

proof fn lemma_found_with(
    k: KnownV,
    trait_name: Seq<char>,
    args: Seq<TyV>,
    keys: Seq<Seq<char>>,
    sub: SubstV,
)
    ensures
        is_found(k, args, found_at(k, trait_name, args, keys, Some(sub))),
{
    let name = dict_name_of_keys(trait_name, keys);
    if found_at(k, trait_name, args, keys, Some(sub)) is Some {
        if k.env.dom().contains(name) {
            lemma_found_by_scheme(k, name, k.env[name].scheme, args, sub);
        } else if k.schemes.dom().contains(name) {
            lemma_found_by_scheme(k, name, k.schemes[name], args, sub);
        } else {
            assert(is_dict_at(k, name, apply_tys(sub.map, args), DictRefV::Concrete(name)));
        }
        let f = found_at(k, trait_name, args, keys, Some(sub))->0;
        assert(f.1 is Some);
        assert(is_dict_at(k, name, apply_tys((f.1->0).map, args), f.0));
    }
}

proof fn lemma_search_with(
    k: KnownV,
    trait_name: Seq<char>,
    args: Seq<TyV>,
    sets: Seq<Seq<Seq<char>>>,
    keys: Seq<Seq<char>>,
    sub: SubstV,
)
    ensures
        is_found(k, args, search(k, trait_name, args, sets, keys, Some(sub))),
    decreases sets.len() - keys.len(), 1nat, 0nat,
{
    if keys.len() >= sets.len() {
        lemma_found_with(k, trait_name, args, keys, sub);
    } else {
        lemma_search_from_with(k, trait_name, args, sets, keys, 0, sub);
    }
}

proof fn lemma_search_from_with(
    k: KnownV,
    trait_name: Seq<char>,
    args: Seq<TyV>,
    sets: Seq<Seq<Seq<char>>>,
    keys: Seq<Seq<char>>,
    j: nat,
    sub: SubstV,
)
    ensures
        is_found(k, args, search_from(k, trait_name, args, sets, keys, j, Some(sub))),
    decreases sets.len() - keys.len(), 0nat, sets[keys.len() as int].len() - j,
{
    if keys.len() < sets.len() && j < sets[keys.len() as int].len() {
        let longer = keys.push(sets[keys.len() as int][j as int]);
        lemma_search_with(k, trait_name, args, sets, longer, sub);
        lemma_search_from_with(k, trait_name, args, sets, keys, j + 1, sub);
    }
}

proof fn lemma_shape_with(
    k: KnownV,
    trait_name: Seq<char>,
    args: Seq<TyV>,
    names: Seq<Seq<char>>,
    i: nat,
    sub: SubstV,
)
    ensures
        is_found(k, args, found_by_shape(k, trait_name, args, names, i, sub)),
    decreases names.len() - i,
{
    if i < names.len() {
        let name = names[i as int];
        lemma_shape_with(k, trait_name, args, names, i + 1, sub);
        if let Some(s) = crate::dicts::scheme_of(k, name) {
            if found_by_scheme(k, name, s, args, sub) is Some {
                lemma_found_by_scheme(k, name, s, args, sub);
            }
        }
    }
}

/// A dictionary that is found while the trait arguments are still being solved serves: for
/// one argument it is that of the implementation for it; for several it is that of some
/// implementation with all that it rests on.
pub proof fn law_dict_found_on_the_way_serves(
    k: KnownV,
    trait_name: Seq<char>,
    args: Seq<TyV>,
    indexes: Seq<usize>,
    sub: SubstV,
)
    requires
        dict_unifying(k, trait_name, args, indexes, sub) is Some,
    ensures
        args.len() == 1 ==> serves(
            k,
            trait_name,
            args[0],
            (dict_unifying(k, trait_name, args, indexes, sub)->0).0,
        ),
        args.len() != 1 ==> is_found(k, args, dict_unifying(k, trait_name, args, indexes, sub)),
{
    if args.len() == 1 {
        law_dict_serves(k, trait_name, args[0], MAX_DICT_DEPTH as nat);
    } else {
        lemma_shape_with(k, trait_name, args, scheme_names(k), 0, sub);
        if let KeySetsV::Sets(sets) = key_sets(args, indexes) {
            lemma_search_with(k, trait_name, args, sets, Seq::empty(), sub);
        }
    }
}

/// A constraint of a use on something still unknown stays pending, as it stands; one on
/// something known is given a dictionary that serves, or is an error.
pub proof fn law_constraint_is_given(a: AttachV, k: KnownV, c: ConstraintV)
    requires
        attach_one(a, k, c).err is None,
    ensures
        ({
            let z = attach_one(a, k, c);
            let args = apply_tys(a.subst.map, c.args);
            if apply(a.subst.map, TyV::Var(c.var)) is Var {
                &&& z.dicts == a.dicts
                &&& z.pending.len() == a.pending.len() + 1
                &&& z.pending.drop_last() == a.pending
                &&& z.pending.last().trait_name == c.trait_name
                &&& z.pending.last().args == args
                &&& TyV::Var(z.pending.last().var) == apply(a.subst.map, TyV::Var(c.var))
            } else {
                &&& z.pending == a.pending
                &&& z.dicts.len() == a.dicts.len() + 1
                &&& z.dicts.drop_last() == a.dicts
                &&& args.len() == 1 ==> serves(k, c.trait_name, args[0], z.dicts.last())
                &&& args.len() != 1 ==> exists|name: Seq<char>| #[trigger]
                    is_dict_at(k, name, apply_tys(z.subst.map, args), z.dicts.last())
            }
        }),
{
    let z = attach_one(a, k, c);
    let args = apply_tys(a.subst.map, c.args);
    if apply(a.subst.map, TyV::Var(c.var)) is Var {
        assert(z.pending.drop_last() =~= a.pending);
    } else {
        law_dict_found_on_the_way_serves(k, c.trait_name, args, c.determinant_indexes, a.subst);
        let f = dict_unifying(k, c.trait_name, args, c.determinant_indexes, a.subst)->0;
        assert(z.dicts == a.dicts.push(f.0));
        assert(z.dicts.drop_last() =~= a.dicts);
        assert(z.dicts.last() == f.0);
        assert(z.subst == f.1->0);
    }
}

/// Without an error, each constraint of a use is given a dictionary or left pending, one
/// for each and none twice, behind what was there.
pub proof fn law_each_constraint_is_given(a: AttachV, k: KnownV, cs: Seq<ConstraintV>, i: nat)
    requires
        i <= cs.len(),
        attach(a, k, cs, i).err is None,
    ensures
        attach(a, k, cs, i).dicts.len() + attach(a, k, cs, i).pending.len() == a.dicts.len()
            + a.pending.len() + cs.len() - i,
        a.dicts.is_prefix_of(attach(a, k, cs, i).dicts),
        a.pending.is_prefix_of(attach(a, k, cs, i).pending),
    decreases cs.len() - i,
{
    let z = attach(a, k, cs, i);
    if a.err is None && i < cs.len() {
        let one = attach_one(a, k, cs[i as int]);
        if one.err is Some {
            assert(attach(one, k, cs, i + 1) == one);
        }
        law_each_constraint_is_given(one, k, cs, i + 1);
        assert(z.dicts.subrange(0, one.dicts.len() as int) == one.dicts);
        assert(z.pending.subrange(0, one.pending.len() as int) == one.pending);
        assert(z.dicts.subrange(0, a.dicts.len() as int) =~= a.dicts) by {
            assert forall|j: int| 0 <= j < a.dicts.len() implies z.dicts[j] == a.dicts[j] by {
                assert(z.dicts.subrange(0, one.dicts.len() as int)[j] == one.dicts[j]);
            }
        }
        assert(z.pending.subrange(0, a.pending.len() as int) =~= a.pending) by {
            assert forall|j: int| 0 <= j < a.pending.len() implies z.pending[j] == a.pending[j] by {
                assert(z.pending.subrange(0, one.pending.len() as int)[j] == one.pending[j]);
            }
        }
    } else {
        assert(a.dicts.subrange(0, a.dicts.len() as int) =~= a.dicts);
        assert(a.pending.subrange(0, a.pending.len() as int) =~= a.pending);
    }
}

} // verus!
