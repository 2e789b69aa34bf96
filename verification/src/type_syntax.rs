//! Types as they are written: filling in parameters, and the keys under which
//! implementations are filed.

use vstd::prelude::*;

use crate::ast::{NamedType, Param, Pattern, TraitDef, Type, TypeParam, TypeReturn};
use crate::ast_view::{named_type_view, named_types_view, param_view, type_param_view};
use crate::ast_view::{type_params_view, type_return_view, type_view, types_view, NamedTypeV, ParamV};
use crate::ast_view::{PatternV, TraitDefV, TypeParamV, TypeReturnV, TypeV};
use crate::error::{TypeError, TypeErrorV};
use crate::subst::clone_indexes;
use crate::tables::NameSet;
use crate::text::{clone_strings, decimal, decimal_string, join, join_strings, str_eq};
use crate::text::strings_view;
use crate::ty::{field_view, fields_view, ty_view, tys_view, Ty, TyV};

verus! {

// ---------------------------------------------------------------------------
// Filling in type parameters
// ---------------------------------------------------------------------------

/// `ty` with the type parameter `param` replaced by `target`. A parameter that
/// is applied to one argument is replaced by `target` applied to it.
pub open spec fn fill_param(ty: TypeV, param: Seq<char>, target: TypeV) -> TypeV
    decreases ty,
{
    match ty {
        TypeV::App(con, args) => {
            if *con == TypeV::Var(param) {
                if args.len() == 1 {
                    fill_hole(target, fill_param(args[0], param, target))
                } else {
                    ty
                }
            } else {
                TypeV::App(
                    Box::new(fill_param(*con, param, target)),
                    fill_params(args, param, target),
                )
            }
        },
        TypeV::Var(v) => if v == param {
            target
        } else {
            ty
        },
        TypeV::Func(params, ret) => TypeV::Func(
            fill_type_params(params, param, target),
            TypeReturnV {
                ty: Box::new(fill_param(*ret.ty, param, target)),
                mut_place: ret.mut_place,
            },
        ),
        TypeV::Tuple(items) => TypeV::Tuple(fill_params(items, param, target)),
        TypeV::Record(fields, open) => TypeV::Record(fill_named(fields, param, target), open),
        _ => ty,
    }
}

pub open spec fn fill_params(s: Seq<TypeV>, param: Seq<char>, target: TypeV) -> Seq<TypeV>
    decreases s,
{
    Seq::new(
        s.len(),
        |i: int|
            if 0 <= i < s.len() {
                fill_param(s[i], param, target)
            } else {
                arbitrary()
            },
    )
}

pub open spec fn fill_type_params(s: Seq<TypeParamV>, param: Seq<char>, target: TypeV) -> Seq<TypeParamV>
    decreases s,
{
    Seq::new(
        s.len(),
        |i: int|
            if 0 <= i < s.len() {
                TypeParamV {
                    ty: fill_param(s[i].ty, param, target),
                    mut_place: s[i].mut_place,
                }
            } else {
                arbitrary()
            },
    )
}

pub open spec fn fill_named(s: Seq<NamedTypeV>, param: Seq<char>, target: TypeV) -> Seq<NamedTypeV>
    decreases s,
{
    Seq::new(
        s.len(),
        |i: int|
            if 0 <= i < s.len() {
                NamedTypeV { name: s[i].name, ty: fill_param(s[i].ty, param, target) }
            } else {
                arbitrary()
            },
    )
}

/// `target` applied to `arg`: `arg` takes the place of the hole, if there is
/// one.
pub open spec fn fill_hole(target: TypeV, arg: TypeV) -> TypeV {
    if has_hole(target) {
        put_in_hole(target, arg)
    } else {
        TypeV::App(Box::new(target), seq![arg])
    }
}

/// Whether a type is a hole or applied to one.
pub open spec fn has_hole(ty: TypeV) -> bool
    decreases ty,
{
    match ty {
        TypeV::Hole => true,
        TypeV::App(con, args) => has_hole(*con) || any_has_hole(args),
        _ => false,
    }
}

pub open spec fn any_has_hole(s: Seq<TypeV>) -> bool
    decreases s,
{
    exists|i: int| 0 <= i < s.len() && has_hole(#[trigger] s[i])
}

/// `ty` with `arg` in place of its holes.
pub open spec fn put_in_hole(ty: TypeV, arg: TypeV) -> TypeV
    decreases ty,
{
    match ty {
        TypeV::Hole => arg,
        TypeV::App(con, args) => TypeV::App(
            Box::new(put_in_hole(*con, arg)),
            put_in_holes(args, arg),
        ),
        _ => ty,
    }
}

pub open spec fn put_in_holes(s: Seq<TypeV>, arg: TypeV) -> Seq<TypeV>
    decreases s,
{
    Seq::new(
        s.len(),
        |i: int|
            if 0 <= i < s.len() {
                put_in_hole(s[i], arg)
            } else {
                arbitrary()
            },
    )
}

/// Replaces the type parameter `param` by `target`.
pub fn subst_hkt_param(ty: &Type, param: &str, target: &Type) -> (r: Type)
    ensures
        r@ == fill_param(ty@, param@, target@),
    decreases *ty,
{
    match ty {
        Type::App(con, args) => {
            assert(types_view(args@).len() == args@.len());
            if is_type_var(con, param) {
                if args.len() == 1 {
                    assert(types_view(args@)[0] == args@[0]@);
                    let arg = subst_hkt_param(&args[0], param, target);
                    apply_hole(target, &arg)
                } else {
                    ty.clone()
                }
            } else {
                Type::App(
                    Box::new(subst_hkt_param(con, param, target)),
                    subst_hkt_params(args, param, target),
                )
            }
        },
        Type::Var(v) => {
            if str_eq(v.as_str(), param) {
                target.clone()
            } else {
                ty.clone()
            }
        },
        Type::Func(params, ret) => {
            let ret2 = TypeReturn {
                ty: Box::new(subst_hkt_param(&ret.ty, param, target)),
                mut_place: ret.mut_place,
            };
            assert(type_return_view(ret2) == TypeReturnV {
                ty: Box::new(type_view(*ret2.ty)),
                mut_place: ret.mut_place,
            });
            assert(type_return_view(*ret) == TypeReturnV {
                ty: Box::new(type_view(*ret.ty)),
                mut_place: ret.mut_place,
            });
            Type::Func(subst_hkt_type_params(params, param, target), ret2)
        },
        Type::Tuple(items) => Type::Tuple(subst_hkt_params(items, param, target)),
        Type::Record(fields, open) => Type::Record(
            subst_hkt_named(fields, param, target),
            *open,
        ),
        _ => ty.clone(),
    }
}

fn subst_hkt_params(s: &Vec<Type>, param: &str, target: &Type) -> (r: Vec<Type>)
    ensures
        types_view(r@) == fill_params(types_view(s@), param@, target@),
        r@.len() == s@.len(),
    decreases s@,
{
    let ghost all = types_view(s@);
    let ghost want = fill_params(all, param@, target@);
    let mut out: Vec<Type> = Vec::new();
    let mut i: usize = 0;
    while i < s.len()
        invariant
            i <= s.len(),
            all == types_view(s@),
            want == fill_params(all, param@, target@),
            out@.len() == i,
            forall|j: int| 0 <= j < i ==> type_view(#[trigger] out@[j]) == want[j],
        decreases s.len() - i,
    {
        assert(all[i as int] == type_view(s@[i as int]));
        out.push(subst_hkt_param(&s[i], param, target));
        i = i + 1;
    }
    assert(types_view(out@) =~= want);
    out
}

fn subst_hkt_type_params(s: &Vec<TypeParam>, param: &str, target: &Type) -> (r: Vec<TypeParam>)
    ensures
        type_params_view(r@) == fill_type_params(type_params_view(s@), param@, target@),
        r@.len() == s@.len(),
    decreases s@,
{
    let ghost all = type_params_view(s@);
    let ghost want = fill_type_params(all, param@, target@);
    let mut out: Vec<TypeParam> = Vec::new();
    let mut i: usize = 0;
    while i < s.len()
        invariant
            i <= s.len(),
            all == type_params_view(s@),
            want == fill_type_params(all, param@, target@),
            out@.len() == i,
            forall|j: int| 0 <= j < i ==> type_param_view(#[trigger] out@[j]) == want[j],
        decreases s.len() - i,
    {
        assert(all[i as int] == type_param_view(s@[i as int]));
        let ty = subst_hkt_param(&s[i].ty, param, target);
        out.push(TypeParam { ty, mut_place: s[i].mut_place });
        i = i + 1;
    }
    assert(type_params_view(out@) =~= want);
    out
}

fn subst_hkt_named(s: &Vec<NamedType>, param: &str, target: &Type) -> (r: Vec<NamedType>)
    ensures
        named_types_view(r@) == fill_named(named_types_view(s@), param@, target@),
        r@.len() == s@.len(),
    decreases s@,
{
    let ghost all = named_types_view(s@);
    let ghost want = fill_named(all, param@, target@);
    let mut out: Vec<NamedType> = Vec::new();
    let mut i: usize = 0;
    while i < s.len()
        invariant
            i <= s.len(),
            all == named_types_view(s@),
            want == fill_named(all, param@, target@),
            out@.len() == i,
            forall|j: int| 0 <= j < i ==> named_type_view(#[trigger] out@[j]) == want[j],
        decreases s.len() - i,
    {
        assert(all[i as int] == named_type_view(s@[i as int]));
        let ty = subst_hkt_param(&s[i].ty, param, target);
        out.push(NamedType { name: s[i].name.clone(), ty });
        i = i + 1;
    }
    assert(named_types_view(out@) =~= want);
    out
}

fn is_type_var(ty: &Type, name: &str) -> (r: bool)
    ensures
        r == (ty@ == TypeV::Var(name@)),
{
    match ty {
        Type::Var(v) => str_eq(v.as_str(), name),
        _ => false,
    }
}

fn apply_hole(target: &Type, arg: &Type) -> (r: Type)
    ensures
        r@ == fill_hole(target@, arg@),
{
    if type_has_hole(target) {
        substitute_hole(target, arg)
    } else {
        let mut args: Vec<Type> = Vec::new();
        args.push(arg.clone());
        assert(types_view(args@) =~= seq![arg@]);
        Type::App(Box::new(target.clone()), args)
    }
}

fn type_has_hole(ty: &Type) -> (r: bool)
    ensures
        r == has_hole(ty@),
    decreases *ty,
{
    match ty {
        Type::Hole => true,
        Type::App(con, args) => type_has_hole(con) || any_type_has_hole(args),
        _ => false,
    }
}

fn any_type_has_hole(s: &Vec<Type>) -> (r: bool)
    ensures
        r == any_has_hole(types_view(s@)),
    decreases s@,
{
    let ghost all = types_view(s@);
    let mut i: usize = 0;
    while i < s.len()
        invariant
            i <= s.len(),
            all == types_view(s@),
            forall|j: int| 0 <= j < i ==> !(has_hole(#[trigger] all[j])),
        decreases s.len() - i,
    {
        assert(all[i as int] == type_view(s@[i as int]));
        if type_has_hole(&s[i]) {
            return true;
        }
        i = i + 1;
    }
    false
}

fn substitute_hole(ty: &Type, arg: &Type) -> (r: Type)
    ensures
        r@ == put_in_hole(ty@, arg@),
    decreases *ty,
{
    match ty {
        Type::Hole => arg.clone(),
        Type::App(con, args) => Type::App(
            Box::new(substitute_hole(con, arg)),
            substitute_holes(args, arg),
        ),
        _ => ty.clone(),
    }
}

fn substitute_holes(s: &Vec<Type>, arg: &Type) -> (r: Vec<Type>)
    ensures
        types_view(r@) == put_in_holes(types_view(s@), arg@),
        r@.len() == s@.len(),
    decreases s@,
{
    let ghost all = types_view(s@);
    let ghost want = put_in_holes(all, arg@);
    let mut out: Vec<Type> = Vec::new();
    let mut i: usize = 0;
    while i < s.len()
        invariant
            i <= s.len(),
            all == types_view(s@),
            want == put_in_holes(all, arg@),
            out@.len() == i,
            forall|j: int| 0 <= j < i ==> type_view(#[trigger] out@[j]) == want[j],
        decreases s.len() - i,
    {
        assert(all[i as int] == type_view(s@[i as int]));
        out.push(substitute_hole(&s[i], arg));
        i = i + 1;
    }
    assert(types_view(out@) =~= want);
    out
}

// ---------------------------------------------------------------------------
// Types in messages
// ---------------------------------------------------------------------------

/// A written type as messages show it.
pub open spec fn written_type(ty: TypeV) -> Seq<char>
    decreases ty,
{
    match ty {
        TypeV::Ident(name) => name,
        TypeV::Var(name) => name,
        TypeV::App(con, args) => written_type(*con) + "("@ + join(written_types(args), ", "@)
            + ")"@,
        TypeV::Func(_, _) => "fn(...)"@,
        TypeV::Tuple(_) => "(...)"@,
        TypeV::Record(_, _) => "#{...}"@,
        TypeV::Unit => "()"@,
        TypeV::Never => "!"@,
        TypeV::Hole => "*"@,
    }
}

pub open spec fn written_types(s: Seq<TypeV>) -> Seq<Seq<char>>
    decreases s,
{
    Seq::new(
        s.len(),
        |i: int|
            if 0 <= i < s.len() {
                written_type(s[i])
            } else {
                arbitrary()
            },
    )
}

/// A written type as messages show it.
pub fn written_type_for_error(ty: &Type) -> (r: String)
    ensures
        r@ == written_type(ty@),
    decreases *ty,
{
    match ty {
        Type::Ident(name) => name.clone(),
        Type::Var(name) => name.clone(),
        Type::App(con, args) => {
            let mut out = written_type_for_error(con);
            let parts = written_types_for_error(args);
            out.append("(");
            out.append(join_strings(&parts, ", ").as_str());
            out.append(")");
            assert(out@ =~= written_type(ty@));
            out
        },
        Type::Func(_, _) => "fn(...)".to_owned(),
        Type::Tuple(_) => "(...)".to_owned(),
        Type::Record(_, _) => "#{...}".to_owned(),
        Type::Unit => "()".to_owned(),
        Type::Never => "!".to_owned(),
        Type::Hole => "*".to_owned(),
    }
}

fn written_types_for_error(s: &Vec<Type>) -> (r: Vec<String>)
    ensures
        strings_view(r@) == written_types(types_view(s@)),
        r@.len() == s@.len(),
    decreases s@,
{
    let ghost all = types_view(s@);
    let ghost want = written_types(all);
    let mut out: Vec<String> = Vec::new();
    let mut i: usize = 0;
    while i < s.len()
        invariant
            i <= s.len(),
            all == types_view(s@),
            want == written_types(all),
            out@.len() == i,
            forall|j: int| 0 <= j < i ==> (#[trigger] out@[j])@ == want[j],
        decreases s.len() - i,
    {
        assert(all[i as int] == all[i as int]);
        assert(all[i as int] == type_view(s@[i as int]));
        out.push(written_type_for_error(&s[i]));
        i = i + 1;
    }
    assert(strings_view(out@) =~= want);
    out
}

// ---------------------------------------------------------------------------
// Keys of implementations
// ---------------------------------------------------------------------------

/// The name of the dictionary of a trait implementation.
pub open spec fn dict_name(trait_name: Seq<char>, target_key: Seq<char>) -> Seq<char> {
    "__"@ + trait_name + "__"@ + target_key
}

pub fn trait_impl_dict_name(trait_name: &str, target_key: &str) -> (r: String)
    ensures
        r@ == dict_name(trait_name@, target_key@),
{
    let mut out = String::new();
    out.append("__");
    out.append(trait_name);
    out.append("__");
    out.append(target_key);
    assert(out@ =~= dict_name(trait_name@, target_key@));
    out
}

/// The name of the dictionary of a trait implementation for several types.
pub open spec fn dict_name_of_keys(trait_name: Seq<char>, keys: Seq<Seq<char>>) -> Seq<char> {
    dict_name(trait_name, join(keys, "__"@))
}

pub fn trait_impl_dict_name_from_keys(trait_name: &str, keys: &Vec<String>) -> (r: String)
    ensures
        r@ == dict_name_of_keys(trait_name@, strings_view(keys@)),
{
    trait_impl_dict_name(trait_name, join_strings(keys, "__").as_str())
}

/// Each of `keys` after two underscores.
pub open spec fn prefixed(keys: Seq<Seq<char>>) -> Seq<char>
    decreases keys.len(),
{
    if keys.len() == 0 {
        Seq::empty()
    } else {
        prefixed(keys.drop_last()) + "__"@ + keys.last()
    }
}

/// The key of a constructor applied to arguments.
pub open spec fn applied_key(con: Seq<char>, args: Seq<Seq<char>>) -> Seq<char> {
    con + "__app"@ + decimal(args.len()) + prefixed(args)
}

fn applied_key_string(con: &String, args: &Vec<String>) -> (r: String)
    ensures
        r@ == applied_key(con@, strings_view(args@)),
{
    let ghost all = strings_view(args@);
    let mut key = con.clone();
    key.append("__app");
    key.append(decimal_string(args.len() as u128).as_str());
    let ghost start = key@;
    let mut i: usize = 0;
    assert(key@ =~= start + prefixed(all.take(0)));
    while i < args.len()
        invariant
            i <= args.len(),
            all == strings_view(args@),
            key@ == start + prefixed(all.take(i as int)),
        decreases args.len() - i,
    {
        key.append("__");
        key.append(args[i].as_str());
        proof {
            assert(all.take(i + 1).drop_last() =~= all.take(i as int));
            assert(key@ =~= start + prefixed(all.take(i + 1)));
        }
        i = i + 1;
    }
    assert(all.take(all.len() as int) =~= all);
    assert(key@ =~= applied_key(con@, all));
    key
}

/// The key of a written type that names one type exactly.
pub open spec fn exact_key(target: TypeV) -> Result<Seq<char>, TypeErrorV>
    decreases target,
{
    match target {
        TypeV::Ident(name) => Ok(name),
        TypeV::App(con, args) => match exact_key(*con) {
            Err(e) => Err(e),
            Ok(key) => match exact_keys(args) {
                Err(e) => Err(e),
                Ok(keys) => Ok(applied_key(key, keys)),
            },
        },
        _ => Err(TypeErrorV::InvalidTraitImplTarget(written_type(target))),
    }
}

/// The keys of written types, or the error of the first that has none.
pub open spec fn exact_keys(s: Seq<TypeV>) -> Result<Seq<Seq<char>>, TypeErrorV>
    decreases s,
{
    if s.len() == 0 {
        Ok(Seq::empty())
    } else {
        match exact_keys(s.drop_last()) {
            Err(e) => Err(e),
            Ok(keys) => match exact_key(s.last()) {
                Err(e) => Err(e),
                Ok(key) => Ok(keys.push(key)),
            },
        }
    }
}

/// Whether a result says what `want` says.
pub open spec fn says<T: View>(r: Result<T, TypeError>, want: Result<T::V, TypeErrorV>) -> bool {
    match (r, want) {
        (Ok(a), Ok(b)) => a@ == b,
        (Err(a), Err(b)) => a@ == b,
        _ => false,
    }
}

pub fn exact_impl_target_key_from_ast(target: &Type) -> (r: Result<String, TypeError>)
    ensures
        says(r, exact_key(target@)),
    decreases *target,
{
    match target {
        Type::Ident(name) => Ok(name.clone()),
        Type::App(con, args) => {
            match exact_impl_target_key_from_ast(con) {
                Err(e) => Err(e),
                Ok(key) => match exact_keys_from_ast(args) {
                    Err(e) => Err(e),
                    Ok(keys) => Ok(applied_key_string(&key, &keys)),
                },
            }
        },
        _ => Err(TypeError::InvalidTraitImplTarget(written_type_for_error(target))),
    }
}

fn exact_keys_from_ast(s: &Vec<Type>) -> (r: Result<Vec<String>, TypeError>)
    ensures
        r matches Ok(keys) ==> exact_keys(types_view(s@)) == Ok::<_, TypeErrorV>(
            strings_view(keys@),
        ),
        r matches Err(e) ==> exact_keys(types_view(s@)) == Err::<Seq<Seq<char>>, _>(e@),
    decreases s@,
{
    let ghost all = types_view(s@);
    let mut keys: Vec<String> = Vec::new();
    let mut i: usize = 0;
    assert(all.take(0) =~= Seq::empty());
    assert(strings_view(keys@) =~= Seq::empty());
    while i < s.len()
        invariant
            i <= s.len(),
            all == types_view(s@),
            exact_keys(all.take(i as int)) == Ok::<_, TypeErrorV>(strings_view(keys@)),
        decreases s.len() - i,
    {
        let ghost before = strings_view(keys@);
        proof {
            assert(all[i as int] == type_view(s@[i as int]));
            assert(all.take(i + 1).drop_last() =~= all.take(i as int));
        }
        match exact_impl_target_key_from_ast(&s[i]) {
            Err(e) => {
                proof {
                    lemma_first_key_error(all, i as int);
                }
                return Err(e);
            },
            Ok(key) => {
                keys.push(key);
                assert(strings_view(keys@) =~= before.push(key@));
            },
        }
        i = i + 1;
    }
    assert(all.take(all.len() as int) =~= all);
    Ok(keys)
}

proof fn lemma_first_key_error(s: Seq<TypeV>, i: int)
    requires
        0 <= i < s.len(),
        exact_keys(s.take(i)) is Ok,
        exact_key(s[i]) is Err,
    ensures
        exact_keys(s) == Err::<Seq<Seq<char>>, _>(exact_key(s[i])->Err_0),
    decreases s.len(),
{
    if i == s.len() - 1 {
        assert(s.drop_last() =~= s.take(i));
    } else {
        assert(s.drop_last().take(i) =~= s.take(i));
        lemma_first_key_error(s.drop_last(), i);
    }
}

/// Whether arguments are variables and at most one hole, none of them twice.
pub open spec fn generic_args(args: Seq<TypeV>) -> bool {
    &&& args.len() > 0
    &&& forall|i: int| 0 <= i < args.len() ==> (#[trigger] args[i]) is Var || args[i] is Hole
    &&& forall|i: int, j: int|
        #![trigger args[i], args[j]]
        0 <= i < j < args.len() ==> args[i] != args[j]
}

fn generic_trait_impl_args(args: &Vec<Type>) -> (r: bool)
    ensures
        r == generic_args(types_view(args@)),
{
    let ghost all = types_view(args@);
    let mut vars = NameSet::new();
    let mut hole = false;
    let mut i: usize = 0;
    while i < args.len()
        invariant
            i <= args.len(),
            all == types_view(args@),
            all.len() == args@.len(),
            forall|j: int| 0 <= j < i ==> (#[trigger] all[j]) is Var || all[j] is Hole,
            forall|a: int, b: int|
                #![trigger all[a], all[b]]
                0 <= a < b < i ==> all[a] != all[b],
            forall|n: Seq<char>| #[trigger]
                vars@.contains(n) <==> exists|j: int| 0 <= j < i && all[j] == TypeV::Var(n),
            hole <==> exists|j: int| 0 <= j < i && all[j] == TypeV::Hole,
        decreases args.len() - i,
    {
        let ghost before = vars@;
        assert(all[i as int] == type_view(args@[i as int]));
        match &args[i] {
            Type::Var(name) => {
                if vars.contains(name.as_str()) {
                    let ghost k = choose|j: int| 0 <= j < i && all[j] == TypeV::Var(name@);
                    assert(all[k] == all[i as int]);
                    return false;
                }
                vars.insert(name.clone());
                proof {
                    assert forall|n: Seq<char>| #[trigger] vars@.contains(n) <==> exists|j: int|
                        0 <= j < i + 1 && all[j] == TypeV::Var(n) by {
                        assert(before.contains(n) <==> exists|j: int|
                            0 <= j < i && all[j] == TypeV::Var(n));
                        if n == name@ {
                            assert(all[i as int] == TypeV::Var(n));
                        }
                        if exists|j: int| 0 <= j < i + 1 && all[j] == TypeV::Var(n) {
                            let k = choose|j: int| 0 <= j < i + 1 && all[j] == TypeV::Var(n);
                            if k < i {
                                assert(before.contains(n));
                            }
                        }
                    }
                    assert(!before.contains(name@));
                    assert forall|a: int| 0 <= a < i implies all[a] != all[i as int] by {
                        if all[a] == all[i as int] {
                            assert(all[a] == TypeV::Var(name@));
                            assert(before.contains(name@));
                        }
                    }
                }
            },
            Type::Hole => {
                if hole {
                    let ghost k = choose|j: int| 0 <= j < i && all[j] == TypeV::Hole;
                    assert(all[k] == all[i as int]);
                    return false;
                }
                hole = true;
                proof {
                    assert forall|a: int| 0 <= a < i implies all[a] != all[i as int] by {
                        assert(all[a] != TypeV::Hole);
                    }
                    assert forall|n: Seq<char>| #[trigger] vars@.contains(n) <==> exists|j: int|
                        0 <= j < i + 1 && all[j] == TypeV::Var(n) by {
                        assert(before.contains(n) <==> exists|j: int|
                            0 <= j < i && all[j] == TypeV::Var(n));
                        if exists|j: int| 0 <= j < i + 1 && all[j] == TypeV::Var(n) {
                            let k = choose|j: int| 0 <= j < i + 1 && all[j] == TypeV::Var(n);
                            assert(k < i);
                        }
                    }
                }
            },
            _ => {
                return false;
            },
        }
        i = i + 1;
    }
    args.len() > 0
}

/// The key of the target of a trait implementation: the exact type, or the
/// constructor if the arguments are left open.
pub open spec fn trait_target_key(target: TypeV) -> Result<Seq<char>, TypeErrorV>
    decreases target,
{
    match target {
        TypeV::Ident(name) => Ok(name),
        TypeV::App(con, args) => {
            if exact_keys(args) is Ok {
                exact_key(target)
            } else if generic_args(args) {
                trait_target_key(*con)
            } else {
                Err(TypeErrorV::InvalidTraitImplTarget(written_type(target)))
            }
        },
        _ => Err(TypeErrorV::InvalidTraitImplTarget(written_type(target))),
    }
}

pub fn trait_impl_target_key_from_ast(target: &Type) -> (r: Result<String, TypeError>)
    ensures
        says(r, trait_target_key(target@)),
    decreases *target,
{
    match target {
        Type::Ident(name) => Ok(name.clone()),
        Type::App(con, args) => {
            if exact_keys_from_ast(args).is_ok() {
                exact_impl_target_key_from_ast(target)
            } else if generic_trait_impl_args(args) {
                trait_impl_target_key_from_ast(con)
            } else {
                Err(TypeError::InvalidTraitImplTarget(written_type_for_error(target)))
            }
        },
        _ => Err(TypeError::InvalidTraitImplTarget(written_type_for_error(target))),
    }
}

/// The keys of the arguments of a trait implementation, or the error of the
/// first that has none.
pub open spec fn trait_arg_keys(args: Seq<TypeV>) -> Result<Seq<Seq<char>>, TypeErrorV>
    decreases args.len(),
{
    if args.len() == 0 {
        Ok(Seq::empty())
    } else {
        match trait_arg_keys(args.drop_last()) {
            Err(e) => Err(e),
            Ok(keys) => match trait_target_key(args.last()) {
                Err(e) => Err(e),
                Ok(key) => Ok(keys.push(key)),
            },
        }
    }
}

proof fn lemma_first_trait_key_error(s: Seq<TypeV>, i: int)
    requires
        0 <= i < s.len(),
        trait_arg_keys(s.take(i)) is Ok,
        trait_target_key(s[i]) is Err,
    ensures
        trait_arg_keys(s) == Err::<Seq<Seq<char>>, _>(trait_target_key(s[i])->Err_0),
    decreases s.len(),
{
    if i == s.len() - 1 {
        assert(s.drop_last() =~= s.take(i));
    } else {
        assert(s.drop_last().take(i) =~= s.take(i));
        lemma_first_trait_key_error(s.drop_last(), i);
    }
}

pub fn trait_impl_arg_keys_from_ast(args: &Vec<Type>) -> (r: Result<Vec<String>, TypeError>)
    ensures
        r matches Ok(keys) ==> trait_arg_keys(types_view(args@)) == Ok::<_, TypeErrorV>(
            strings_view(keys@),
        ),
        r matches Err(e) ==> trait_arg_keys(types_view(args@)) == Err::<Seq<Seq<char>>, _>(e@),
{
    let ghost all = types_view(args@);
    let mut keys: Vec<String> = Vec::new();
    let mut i: usize = 0;
    assert(all.take(0) =~= Seq::empty());
    assert(strings_view(keys@) =~= Seq::empty());
    while i < args.len()
        invariant
            i <= args.len(),
            all == types_view(args@),
            trait_arg_keys(all.take(i as int)) == Ok::<_, TypeErrorV>(strings_view(keys@)),
        decreases args.len() - i,
    {
        let ghost before = strings_view(keys@);
        proof {
            assert(all[i as int] == type_view(args@[i as int]));
            assert(all.take(i + 1).drop_last() =~= all.take(i as int));
        }
        match trait_impl_target_key_from_ast(&args[i]) {
            Err(e) => {
                proof {
                    lemma_first_trait_key_error(all, i as int);
                }
                return Err(e);
            },
            Ok(key) => {
                keys.push(key);
                assert(strings_view(keys@) =~= before.push(key@));
            },
        }
        i = i + 1;
    }
    assert(all.take(all.len() as int) =~= all);
    Ok(keys)
}

/// The positions of the type arguments that select an implementation: those
/// that determine the others, or all.
pub open spec fn dict_indexes(def: TraitDefV) -> Seq<usize> {
    if def.fundeps.len() > 0 {
        def.fundeps[0].determinants
    } else {
        Seq::new(def.params.len(), |i: int| i as usize)
    }
}

pub fn trait_dict_indexes(def: &TraitDef) -> (r: Vec<usize>)
    ensures
        r@ == dict_indexes(def@),
{
    if def.fundeps.len() > 0 {
        assert(def@.fundeps[0] == def.fundeps@[0]@);
        clone_indexes(&def.fundeps[0].determinants)
    } else {
        let mut out: Vec<usize> = Vec::new();
        let mut i: usize = 0;
        while i < def.params.len()
            invariant
                i <= def.params.len(),
                out@.len() == i,
                forall|j: int| 0 <= j < i ==> #[trigger] out@[j] == j,
            decreases def.params.len() - i,
        {
            out.push(i);
            i = i + 1;
        }
        assert(out@ =~= dict_indexes(def@));
        out
    }
}

/// The arguments at `indexes`; a position past the end selects nothing.
pub open spec fn selected<A>(args: Seq<A>, indexes: Seq<usize>) -> Seq<A>
    decreases indexes.len(),
{
    if indexes.len() == 0 {
        Seq::empty()
    } else {
        let rest = selected(args, indexes.drop_last());
        if (indexes.last() as int) < args.len() {
            rest.push(args[indexes.last() as int])
        } else {
            rest
        }
    }
}

/// Copies the arguments at `indexes`.
pub fn select_types(args: &Vec<Type>, indexes: &Vec<usize>) -> (r: Vec<Type>)
    ensures
        types_view(r@) == selected(types_view(args@), indexes@),
{
    let ghost all = types_view(args@);
    let mut out: Vec<Type> = Vec::new();
    let mut i: usize = 0;
    assert(types_view(out@) =~= Seq::empty());
    assert(indexes@.take(0) =~= Seq::empty());
    while i < indexes.len()
        invariant
            i <= indexes.len(),
            all == types_view(args@),
            all.len() == args@.len(),
            types_view(out@) == selected(all, indexes@.take(i as int)),
        decreases indexes.len() - i,
    {
        let ghost before = types_view(out@);
        let k = indexes[i];
        if k < args.len() {
            out.push(args[k].clone());
            assert(all[k as int] == args@[k as int]@);
            assert(types_view(out@) =~= before.push(all[k as int]));
        }
        assert(indexes@.take(i + 1).drop_last() =~= indexes@.take(i as int));
        i = i + 1;
    }
    assert(indexes@.take(indexes@.len() as int) =~= indexes@);
    out
}

/// The name of the dictionary of a trait implementation, from the arguments
/// that select it.
pub open spec fn dict_name_for_indexes(
    trait_name: Seq<char>,
    args: Seq<TypeV>,
    indexes: Seq<usize>,
) -> Result<Seq<char>, TypeErrorV> {
    match trait_arg_keys(selected(args, indexes)) {
        Ok(keys) => Ok(dict_name_of_keys(trait_name, keys)),
        Err(e) => Err(e),
    }
}

pub fn trait_impl_dict_name_for_indexes(
    trait_name: &str,
    args: &Vec<Type>,
    indexes: &Vec<usize>,
) -> (r: Result<String, TypeError>)
    ensures
        says(r, dict_name_for_indexes(trait_name@, types_view(args@), indexes@)),
{
    let picked = select_types(args, indexes);
    match trait_impl_arg_keys_from_ast(&picked) {
        Ok(keys) => Ok(trait_impl_dict_name_from_keys(trait_name, &keys)),
        Err(e) => Err(e),
    }
}

/// The name of the dictionary of an implementation without a trait.
pub open spec fn inherent_dict_name(target: Seq<char>) -> Seq<char> {
    "__impl__"@ + target
}

pub fn inherent_impl_dict_name(target_name: &str) -> (r: String)
    ensures
        r@ == inherent_dict_name(target_name@),
{
    let mut out = String::new();
    out.append("__impl__");
    out.append(target_name);
    assert(out@ =~= inherent_dict_name(target_name@));
    out
}

/// Whether methods may be added to the type called `name`.
pub open spec fn named_target(name: Seq<char>, declared: Set<Seq<char>>) -> bool {
    name == "string"@ || name == "int"@ || name == "float"@ || name == "bool"@
        || declared.contains(name)
}

fn is_named_inherent_target(name: &str, declared: &NameSet) -> (r: bool)
    ensures
        r == named_target(name@, declared@),
{
    str_eq(name, "string") || str_eq(name, "int") || str_eq(name, "float") || str_eq(
        name,
        "bool",
    ) || declared.contains(name)
}

/// Whether arguments are variables, none of them twice.
pub open spec fn distinct_vars(args: Seq<TypeV>) -> bool {
    forall|i: int, j: int|
        #![trigger args[i], args[j]]
        0 <= i < j < args.len() ==> args[i] != args[j]
}

/// Whether arguments are variables.
pub open spec fn all_vars(args: Seq<TypeV>) -> bool {
    forall|i: int| 0 <= i < args.len() ==> (#[trigger] args[i]) is Var
}

fn args_all_vars(args: &Vec<Type>) -> (r: bool)
    ensures
        r == all_vars(types_view(args@)),
{
    let ghost all = types_view(args@);
    let mut i: usize = 0;
    while i < args.len()
        invariant
            i <= args.len(),
            all == types_view(args@),
            forall|j: int| 0 <= j < i ==> (#[trigger] all[j]) is Var,
        decreases args.len() - i,
    {
        assert(all[i as int] == type_view(args@[i as int]));
        match &args[i] {
            Type::Var(_) => {},
            _ => {
                return false;
            },
        }
        i = i + 1;
    }
    true
}

/// The key of the target of an implementation without a trait.
pub open spec fn inherent_key(target: TypeV, declared: Set<Seq<char>>) -> Result<
    Seq<char>,
    TypeErrorV,
> {
    let invalid = TypeErrorV::InvalidInherentImplTarget(written_type(target));
    match target {
        TypeV::Ident(name) => if named_target(name, declared) {
            Ok(name)
        } else {
            Err(invalid)
        },
        TypeV::App(con, args) => match *con {
            TypeV::Ident(name) => {
                if !named_target(name, declared) {
                    Err(invalid)
                } else if all_vars(args) {
                    if distinct_vars(args) {
                        Ok(name)
                    } else {
                        Err(invalid)
                    }
                } else {
                    match exact_key(target) {
                        Ok(key) => Ok(key),
                        Err(_) => Err(invalid),
                    }
                }
            },
            _ => Err(invalid),
        },
        _ => Err(invalid),
    }
}

pub fn inherent_impl_target_key_from_ast(target: &Type, declared: &NameSet) -> (r: Result<
    String,
    TypeError,
>)
    ensures
        says(r, inherent_key(target@, declared@)),
{
    match target {
        Type::Ident(name) => {
            if is_named_inherent_target(name.as_str(), declared) {
                return Ok(name.clone());
            }
        },
        Type::App(con, args) => {
            if let Type::Ident(name) = &**con {
                assert(type_view(**con) == TypeV::Ident(name@));
                if is_named_inherent_target(name.as_str(), declared) {
                    if args_all_vars(args) {
                        assert(all_vars(types_view(args@)));
                        if args.len() == 0 || generic_trait_impl_args(args) {
                            assert(types_view(args@).len() == args@.len());
                            return Ok(name.clone());
                        }
                    } else if let Ok(key) = exact_impl_target_key_from_ast(target) {
                        return Ok(key);
                    }
                }
            }
        },
        _ => {},
    }
    Err(TypeError::InvalidInherentImplTarget(written_type_for_error(target)))
}

/// The keys under which methods of a written type are looked up: the exact
/// type first, then its constructor.
pub open spec fn inherent_keys(target: TypeV, declared: Set<Seq<char>>) -> Result<
    Seq<Seq<char>>,
    TypeErrorV,
> {
    match inherent_key(target, declared) {
        Err(e) => Err(e),
        Ok(key) => match target {
            TypeV::App(con, _) => match *con {
                TypeV::Ident(name) => if key != name {
                    Ok(seq![key, name])
                } else {
                    Ok(seq![key])
                },
                _ => Ok(seq![key]),
            },
            _ => Ok(seq![key]),
        },
    }
}

pub fn inherent_impl_target_keys_from_ast(target: &Type, declared: &NameSet) -> (r: Result<
    Vec<String>,
    TypeError,
>)
    ensures
        r matches Ok(keys) ==> inherent_keys(target@, declared@) == Ok::<_, TypeErrorV>(
            strings_view(keys@),
        ) && keys@.len() > 0,
        r matches Err(e) ==> inherent_keys(target@, declared@) == Err::<Seq<Seq<char>>, _>(e@),
{
    let key = match inherent_impl_target_key_from_ast(target, declared) {
        Ok(key) => key,
        Err(e) => {
            return Err(e);
        },
    };
    let ghost first = key@;
    let mut keys: Vec<String> = Vec::new();
    if let Type::App(con, _) = target {
        if let Type::Ident(name) = &**con {
            assert(type_view(**con) == TypeV::Ident(name@));
            if !str_eq(key.as_str(), name.as_str()) {
                keys.push(key);
                keys.push(name.clone());
                assert(strings_view(keys@) =~= seq![first, name@]);
                return Ok(keys);
            }
        }
    }
    keys.push(key);
    assert(strings_view(keys@) =~= seq![first]);
    Ok(keys)
}

// ---------------------------------------------------------------------------
// Keys of inferred types
// ---------------------------------------------------------------------------

/// The key of a type that is known exactly.
pub open spec fn ty_key(ty: TyV) -> Option<Seq<char>>
    decreases ty,
{
    match ty {
        TyV::Int => Some("int"@),
        TyV::Float => Some("float"@),
        TyV::Unit => Some("Unit"@),
        TyV::Con(name) => Some(name),
        TyV::App(con, args) => match (ty_key(*con), ty_keys(args)) {
            (Some(key), Some(keys)) => Some(applied_key(key, keys)),
            _ => None,
        },
        TyV::Qualified(_, inner) => ty_key(*inner),
        _ => None,
    }
}

/// The keys of types that are all known exactly.
pub open spec fn ty_keys(s: Seq<TyV>) -> Option<Seq<Seq<char>>>
    decreases s,
{
    if s.len() == 0 {
        Some(Seq::empty())
    } else {
        match (ty_keys(s.drop_last()), ty_key(s.last())) {
            (Some(keys), Some(key)) => Some(keys.push(key)),
            _ => None,
        }
    }
}

/// Whether an optional string says what `want` says.
pub open spec fn says_text(r: Option<String>, want: Option<Seq<char>>) -> bool {
    match (r, want) {
        (Some(a), Some(b)) => a@ == b,
        (None, None) => true,
        _ => false,
    }
}

pub fn exact_impl_target_key_from_ty(ty: &Ty) -> (r: Option<String>)
    ensures
        says_text(r, ty_key(ty@)),
    decreases *ty,
{
    match ty {
        Ty::Int => Some("int".to_owned()),
        Ty::Float => Some("float".to_owned()),
        Ty::Unit => Some("Unit".to_owned()),
        Ty::Con(name) => Some(name.clone()),
        Ty::App(con, args) => {
            match exact_impl_target_key_from_ty(con) {
                None => None,
                Some(key) => match exact_keys_from_tys(args) {
                    None => None,
                    Some(keys) => Some(applied_key_string(&key, &keys)),
                },
            }
        },
        Ty::Qualified(_, inner) => exact_impl_target_key_from_ty(inner),
        _ => None,
    }
}

fn exact_keys_from_tys(s: &Vec<Ty>) -> (r: Option<Vec<String>>)
    ensures
        r matches Some(keys) ==> ty_keys(tys_view(s@)) == Some(strings_view(keys@)),
        r is None ==> ty_keys(tys_view(s@)) is None,
    decreases s@,
{
    let ghost all = tys_view(s@);
    let mut keys: Vec<String> = Vec::new();
    let mut i: usize = 0;
    assert(all.take(0) =~= Seq::empty());
    assert(strings_view(keys@) =~= Seq::empty());
    while i < s.len()
        invariant
            i <= s.len(),
            all == tys_view(s@),
            ty_keys(all.take(i as int)) == Some(strings_view(keys@)),
        decreases s.len() - i,
    {
        let ghost before = strings_view(keys@);
        proof {
            assert(all[i as int] == ty_view(s@[i as int]));
            assert(all.take(i + 1).drop_last() =~= all.take(i as int));
        }
        match exact_impl_target_key_from_ty(&s[i]) {
            None => {
                proof {
                    lemma_no_keys(all, i as int);
                }
                return None;
            },
            Some(key) => {
                keys.push(key);
                assert(strings_view(keys@) =~= before.push(key@));
            },
        }
        i = i + 1;
    }
    assert(all.take(all.len() as int) =~= all);
    Some(keys)
}

proof fn lemma_no_keys(s: Seq<TyV>, i: int)
    requires
        0 <= i < s.len(),
        ty_key(s[i]) is None,
    ensures
        ty_keys(s) is None,
    decreases s.len(),
{
    if i < s.len() - 1 {
        lemma_no_keys(s.drop_last(), i);
    }
}

/// The keys under which the implementations for a type are looked up: the
/// exact type first, then its constructor.
pub open spec fn target_keys(ty: TyV) -> Seq<Seq<char>>
    decreases ty,
{
    match ty {
        TyV::Qualified(_, inner) => target_keys(*inner),
        TyV::App(con, _) => match (ty_key(ty), ty_key(*con)) {
            (Some(exact), Some(generic)) => if exact == generic {
                seq![exact]
            } else {
                seq![exact, generic]
            },
            (Some(exact), None) => seq![exact],
            (None, Some(generic)) => seq![generic],
            (None, None) => Seq::empty(),
        },
        _ => match ty_key(ty) {
            Some(key) => seq![key],
            None => Seq::empty(),
        },
    }
}

pub fn trait_impl_target_keys_from_ty(ty: &Ty) -> (r: Vec<String>)
    ensures
        strings_view(r@) == target_keys(ty@),
        r@.len() == target_keys(ty@).len(),
    decreases *ty,
{
    let mut keys: Vec<String> = Vec::new();
    match ty {
        Ty::Qualified(_, inner) => {
            return trait_impl_target_keys_from_ty(inner);
        },
        Ty::App(con, _) => {
            let exact = exact_impl_target_key_from_ty(ty);
            let generic = exact_impl_target_key_from_ty(con);
            match exact {
                Some(exact) => {
                    match generic {
                        Some(generic) => {
                            if str_eq(exact.as_str(), generic.as_str()) {
                                keys.push(exact);
                                assert(strings_view(keys@) =~= seq![exact@]);
                            } else {
                                keys.push(exact);
                                keys.push(generic);
                                assert(strings_view(keys@) =~= seq![exact@, generic@]);
                            }
                        },
                        None => {
                            keys.push(exact);
                            assert(strings_view(keys@) =~= seq![exact@]);
                        },
                    }
                },
                None => {
                    match generic {
                        Some(generic) => {
                            keys.push(generic);
                            assert(strings_view(keys@) =~= seq![generic@]);
                        },
                        None => {
                            assert(strings_view(keys@) =~= Seq::empty());
                        },
                    }
                },
            }
        },
        _ => {
            match exact_impl_target_key_from_ty(ty) {
                Some(key) => {
                    keys.push(key);
                    assert(strings_view(keys@) =~= seq![key@]);
                },
                None => {
                    assert(strings_view(keys@) =~= Seq::empty());
                },
            }
        },
    }
    keys
}

pub fn inherent_impl_target_keys_from_ty(ty: &Ty) -> (r: Vec<String>)
    ensures
        strings_view(r@) == target_keys(ty@),
        r@.len() == target_keys(ty@).len(),
{
    trait_impl_target_keys_from_ty(ty)
}

/// The type of the first field of a record called `field`.
pub open spec fn field_ty(ty: TyV, field: Seq<char>) -> Option<TyV> {
    match ty {
        TyV::Record(row) => first_field(row.fields, field),
        _ => None,
    }
}

/// The type of the first of `fields` called `field`.
pub open spec fn first_field(fields: Seq<(Seq<char>, TyV)>, field: Seq<char>) -> Option<TyV>
    decreases fields.len(),
{
    if fields.len() == 0 {
        None
    } else if fields[0].0 == field {
        Some(fields[0].1)
    } else {
        first_field(fields.skip(1), field)
    }
}

/// Finds the type of a field of a record.
pub fn record_field_ty(ty: &Ty, field: &str) -> (r: Option<Ty>)
    ensures
        match (r, field_ty(ty@, field@)) {
            (Some(a), Some(b)) => a@ == b,
            (None, None) => true,
            _ => false,
        },
{
    match ty {
        Ty::Record(row) => find_field(&row.fields, field),
        _ => None,
    }
}

/// Finds the type of the first field with a name.
pub fn find_field(fields: &Vec<(String, Ty)>, field: &str) -> (r: Option<Ty>)
    ensures
        match (r, first_field(fields_view(fields@), field@)) {
            (Some(a), Some(b)) => a@ == b,
            (None, None) => true,
            _ => false,
        },
{
    let ghost all = fields_view(fields@);
    let mut i: usize = 0;
    assert(all.skip(0) =~= all);
    while i < fields.len()
        invariant
            i <= fields.len(),
            all == fields_view(fields@),
            first_field(all, field@) == first_field(all.skip(i as int), field@),
        decreases fields.len() - i,
    {
        assert(all[i as int] == field_view(fields@[i as int]));
        assert(all.skip(i as int)[0] == all[i as int]);
        if str_eq(fields[i].0.as_str(), field) {
            return Some(fields[i].1.clone());
        }
        assert(all.skip(i as int).skip(1) =~= all.skip(i + 1));
        i = i + 1;
    }
    None
}

/// Whether a parameter is the receiver `self`.
pub open spec fn self_param(p: ParamV) -> bool {
    p.pat matches PatternV::Variable(name, _) && name == "self"@
}

pub fn is_self_param(param: &Param) -> (r: bool)
    ensures
        r == self_param(param@),
{
    match &param.pat {
        Pattern::Variable(name, _) => str_eq(name.as_str(), "self"),
        _ => false,
    }
}

} // verus!
