//! What macros see: the types and functions of their phase, and the form of a macro.

use vstd::prelude::*;

use crate::ast::{ExprKind, MacroDef, Type};
use crate::ast_view::{ExprV, MacroDefV, TypeV, type_view, types_view};
use crate::display::ty_text;
use crate::env::{EnvV, TypeEnv};
use crate::error::{SpannedTypeError, SpannedV, TypeError, TypeErrorV, error_at};
use crate::pattern_infer::with_binding;
use crate::rows::FieldV;
use crate::state::{Alias, AliasV, Infer, InferV, TypeScope};
use crate::steps::{Run, equate, failed_at, ty_res, unit_res, written};
use crate::tables::{NameMap, lists_names};
use crate::text::{str_eq, strings_view};
use crate::ty::{EnvInfo, Scheme, Ty, TyV, TyVar, fields_view, immutable_info, mono_scheme};
use crate::ty::{ty_eq, tys_view, value_func_params, value_func_return, value_params_view};
use crate::ty::value_return_view;
use crate::ty_helpers::{array_of, array_ty};

verus! {

// ---------------------------------------------------------------------------
// Functions
// ---------------------------------------------------------------------------

/// A function that takes and gives values.
pub open spec fn func_of(params: Seq<TyV>, ret: TyV) -> TyV {
    TyV::Func(value_params_view(params), value_return_view(ret))
}

/// The type of an optional value.
pub open spec fn option_of(ty: TyV) -> TyV {
    TyV::App(Box::new(TyV::Con("Option"@)), seq![ty])
}

/// The type of a place: two lines and two columns.
pub open spec fn span_tuple() -> TyV {
    TyV::Tuple(seq![TyV::Int, TyV::Int, TyV::Int, TyV::Int])
}

/// The type of what a macro gives back.
pub open spec fn macro_result() -> TyV {
    TyV::App(
        Box::new(TyV::Con("Result"@)),
        seq![TyV::Con("Syntax"@), TyV::Con("MacroError"@)],
    )
}

/// The functions that look at syntax.
pub open spec fn reading() -> Seq<FieldV> {
    seq![
        ("syntax_children"@, func_of(seq![TyV::Con("Syntax"@)], array_of(TyV::Con("Syntax"@)))),
        ("syntax_delimiter"@, func_of(seq![TyV::Con("Syntax"@)], option_of(TyV::Con("SyntaxDelimiter"@)))),
        ("syntax_kind"@, func_of(seq![TyV::Con("Syntax"@)], TyV::Con("string"@))),
        ("syntax_span"@, func_of(seq![TyV::Con("Syntax"@)], span_tuple())),
        ("syntax_origin"@, func_of(seq![TyV::Con("Syntax"@)], TyV::Con("string"@))),
        ("syntax_token_text"@, func_of(seq![TyV::Con("Syntax"@)], option_of(TyV::Con("string"@)))),
        ("syntax_is_ident"@, func_of(seq![TyV::Con("Syntax"@), TyV::Con("string"@)], TyV::Con("bool"@))),
        ("syntax_eq_shape"@, func_of(seq![TyV::Con("Syntax"@), TyV::Con("Syntax"@)], TyV::Con("bool"@))),
        ("syntax_same_binding"@, func_of(seq![TyV::Con("Syntax"@), TyV::Con("Syntax"@)], TyV::Con("bool"@))),
    ]
}

/// The functions that make syntax.
pub open spec fn making() -> Seq<FieldV> {
    seq![
        ("syntax_token"@, func_of(seq![TyV::Con("SyntaxToken"@)], TyV::Con("Syntax"@))),
        ("syntax_tree"@, func_of(seq![TyV::Con("SyntaxDelimiter"@), array_of(TyV::Con("Syntax"@))], TyV::Con("Syntax"@))),
        ("syntax_sequence"@, func_of(seq![array_of(TyV::Con("Syntax"@))], TyV::Con("Syntax"@))),
        ("syntax_ident"@, func_of(seq![TyV::Con("string"@)], TyV::Con("Syntax"@))),
        ("syntax_literal"@, func_of(seq![TyV::Con("string"@)], TyV::Con("Syntax"@))),
        ("syntax_operator"@, func_of(seq![TyV::Con("string"@)], TyV::Con("Syntax"@))),
        ("syntax_punct"@, func_of(seq![TyV::Con("string"@)], TyV::Con("Syntax"@))),
        ("syntax_fresh_ident"@, func_of(seq![TyV::Con("string"@)], TyV::Con("Syntax"@))),
        ("syntax_ident_at_use_site"@, func_of(seq![TyV::Con("string"@)], TyV::Con("Syntax"@))),
    ]
}

/// The functions that change and search syntax.
pub open spec fn changing() -> Seq<FieldV> {
    seq![
        ("syntax_map_children"@, func_of(seq![TyV::Con("Syntax"@), func_of(seq![TyV::Con("Syntax"@)], TyV::Con("Syntax"@))], TyV::Con("Syntax"@))),
        ("syntax_find"@, func_of(seq![TyV::Con("Syntax"@), func_of(seq![TyV::Con("Syntax"@)], TyV::Con("bool"@))], option_of(TyV::Con("Syntax"@)))),
        ("syntax_replace"@, func_of(seq![TyV::Con("Syntax"@), TyV::Con("Syntax"@), TyV::Con("Syntax"@)], TyV::Con("Syntax"@))),
        ("syntax_join"@, func_of(seq![array_of(TyV::Con("Syntax"@)), TyV::Con("Syntax"@)], TyV::Con("Syntax"@))),
        ("syntax_debug"@, func_of(seq![TyV::Con("Syntax"@)], TyV::Con("string"@))),
    ]
}

/// The functions that ask what is known of syntax, and those that give the result of a macro.
pub open spec fn asking() -> Seq<FieldV> {
    seq![
        ("macro_resolve_ident"@, func_of(seq![TyV::Con("Syntax"@)], option_of(TyV::Con("string"@)))),
        ("macro_type_of"@, func_of(seq![TyV::Con("Syntax"@)], option_of(TyV::Con("string"@)))),
        ("macro_fields_of"@, func_of(seq![TyV::Con("Syntax"@)], array_of(TyV::Con("string"@)))),
        ("macro_variants_of"@, func_of(seq![TyV::Con("Syntax"@)], array_of(TyV::Con("string"@)))),
        ("macro_trait_methods_of"@, func_of(seq![TyV::Con("Syntax"@)], array_of(TyV::Con("string"@)))),
        ("macro_module_items"@, func_of(seq![TyV::Con("Syntax"@)], array_of(TyV::Con("string"@)))),
        ("Ok"@, func_of(seq![TyV::Con("Syntax"@)], macro_result())),
        ("Err"@, func_of(seq![TyV::Con("MacroError"@)], macro_result())),
        ("MacroError"@, func_of(seq![TyV::Con("string"@)], TyV::Con("MacroError"@))),
    ]
}

/// An environment with the functions from the one at `i` on that it lacks.
pub open spec fn with_missing(env: EnvV, entries: Seq<FieldV>, i: nat) -> EnvV
    decreases entries.len() - i,
{
    if i >= entries.len() {
        env
    } else if env.dom().contains(entries[i as int].0) {
        with_missing(env, entries, i + 1)
    } else {
        with_missing(
            env.insert(entries[i as int].0, immutable_info(mono_scheme(entries[i as int].1))),
            entries,
            i + 1,
        )
    }
}

/// An environment with the functions of macros that it lacks.
#[verifier::opaque]
pub open spec fn with_macro_functions(env: EnvV) -> EnvV {
    with_missing(
        with_missing(with_missing(with_missing(env, reading(), 0), making(), 0), changing(), 0),
        asking(),
        0,
    )
}

proof fn lemma_missing_keeps(env: EnvV, entries: Seq<FieldV>, i: nat, n: Seq<char>)
    requires
        env.dom().contains(n),
    ensures
        with_missing(env, entries, i).dom().contains(n),
        with_missing(env, entries, i)[n] == env[n],
    decreases entries.len() - i,
{
    if i < entries.len() {
        if env.dom().contains(entries[i as int].0) {
            lemma_missing_keeps(env, entries, i + 1, n);
        } else {
            let info = immutable_info(mono_scheme(entries[i as int].1));
            lemma_missing_keeps(env.insert(entries[i as int].0, info), entries, i + 1, n);
        }
    }
}

/// What an environment has stays as it is when the functions of macros are added.
pub proof fn law_macro_functions_replace_nothing(env: EnvV, n: Seq<char>)
    requires
        env.dom().contains(n),
    ensures
        with_macro_functions(env).dom().contains(n),
        with_macro_functions(env)[n] == env[n],
{
    reveal(with_macro_functions);
    lemma_missing_keeps(env, reading(), 0, n);
    let a = with_missing(env, reading(), 0);
    lemma_missing_keeps(a, making(), 0, n);
    let b = with_missing(a, making(), 0);
    lemma_missing_keeps(b, changing(), 0, n);
    lemma_missing_keeps(with_missing(b, changing(), 0), asking(), 0, n);
}

spec fn is_builtin_0(n: Seq<char>) -> bool {
    ||| n == "Ok"@
    ||| n == "Err"@
    ||| n == "MacroError"@
    ||| n == "syntax_children"@
    ||| n == "syntax_delimiter"@
    ||| n == "syntax_kind"@
    ||| n == "syntax_span"@
    ||| n == "syntax_origin"@
    ||| n == "syntax_token_text"@
    ||| n == "syntax_is_ident"@
    ||| n == "syntax_eq_shape"@
    ||| n == "syntax_same_binding"@
    ||| n == "syntax_token"@
    ||| n == "syntax_tree"@
}

spec fn is_builtin_1(n: Seq<char>) -> bool {
    ||| n == "syntax_sequence"@
    ||| n == "syntax_ident"@
    ||| n == "syntax_literal"@
    ||| n == "syntax_operator"@
    ||| n == "syntax_punct"@
    ||| n == "syntax_fresh_ident"@
    ||| n == "syntax_ident_at_use_site"@
    ||| n == "syntax_map_children"@
    ||| n == "syntax_find"@
    ||| n == "syntax_replace"@
    ||| n == "syntax_join"@
    ||| n == "syntax_debug"@
    ||| n == "macro_resolve_ident"@
}

spec fn is_builtin_2(n: Seq<char>) -> bool {
    ||| n == "macro_type_of"@
    ||| n == "macro_fields_of"@
    ||| n == "macro_variants_of"@
    ||| n == "macro_trait_methods_of"@
    ||| n == "macro_module_items"@
    ||| n == "Paren"@
    ||| n == "Brace"@
    ||| n == "Bracket"@
    ||| n == "Keyword"@
    ||| n == "Literal"@
    ||| n == "Operator"@
    ||| n == "Punct"@
    ||| n == "to_string"@
}

/// Whether a name is one that macros always see.
#[verifier::opaque]
pub closed spec fn is_macro_builtin(n: Seq<char>) -> bool {
    is_builtin_0(n) || is_builtin_1(n) || is_builtin_2(n)
}

/// What a macro sees of an environment.
pub open spec fn macro_sees(env: EnvV, n: Seq<char>) -> bool {
    env.dom().contains(n) && (env[n].macro_phase_available || is_macro_builtin(n))
}

/// The environment in which the body of a macro is checked.
pub open spec fn phase_env(env: EnvV) -> EnvV {
    with_macro_functions(
        Map::new(|n: Seq<char>| macro_sees(env, n), |n: Seq<char>| env[n]),
    )
}

fn named(name: &str) -> (r: Ty)
    ensures
        r@ == TyV::Con(name@),
{
    Ty::Con(name.to_owned())
}

fn one(a: Ty) -> (r: Vec<Ty>)
    ensures
        tys_view(r@) == seq![a@],
{
    let mut out: Vec<Ty> = Vec::new();
    out.push(a);
    assert(tys_view(out@) =~= seq![a@]);
    out
}

fn two(a: Ty, b: Ty) -> (r: Vec<Ty>)
    ensures
        tys_view(r@) == seq![a@, b@],
{
    let mut out: Vec<Ty> = Vec::new();
    out.push(a);
    out.push(b);
    assert(tys_view(out@) =~= seq![a@, b@]);
    out
}

fn three(a: Ty, b: Ty, c: Ty) -> (r: Vec<Ty>)
    ensures
        tys_view(r@) == seq![a@, b@, c@],
{
    let mut out: Vec<Ty> = Vec::new();
    out.push(a);
    out.push(b);
    out.push(c);
    assert(tys_view(out@) =~= seq![a@, b@, c@]);
    out
}

fn func_ty(params: Vec<Ty>, ret: Ty) -> (r: Ty)
    ensures
        r@ == func_of(tys_view(params@), ret@),
{
    Ty::Func(value_func_params(params), value_func_return(ret))
}

fn option_ty(ty: Ty) -> (r: Ty)
    ensures
        r@ == option_of(ty@),
{
    let head = named("Option");
    let args = one(ty);
    Ty::App(Box::new(head), args)
}

fn span_tuple_ty() -> (r: Ty)
    ensures
        r@ == span_tuple(),
{
    let mut parts: Vec<Ty> = Vec::new();
    parts.push(Ty::Int);
    parts.push(Ty::Int);
    parts.push(Ty::Int);
    parts.push(Ty::Int);
    assert(tys_view(parts@) =~= seq![TyV::Int, TyV::Int, TyV::Int, TyV::Int]);
    Ty::Tuple(parts)
}

pub fn macro_result_syntax_ty() -> (r: Ty)
    ensures
        r@ == macro_result(),
{
    let head = named("Result");
    let args = two(named("Syntax"), named("MacroError"));
    Ty::App(Box::new(head), args)
}

fn add_function(out: &mut Vec<(String, Ty)>, name: &str, ty: Ty)
    ensures
        fields_view(final(out)@) == fields_view(old(out)@).push((name@, ty@)),
{
    out.push((name.to_owned(), ty));
    assert(fields_view(out@) =~= fields_view(old(out)@).push((name@, ty@)));
}

fn reading_functions() -> (r: Vec<(String, Ty)>)
    ensures
        fields_view(r@) == reading(),
{
    let mut out: Vec<(String, Ty)> = Vec::new();
    assert(fields_view(out@) =~= Seq::empty());
    add_function(&mut out, "syntax_children", func_ty(one(named("Syntax")), array_ty(named("Syntax"))));
    add_function(&mut out, "syntax_delimiter", func_ty(one(named("Syntax")), option_ty(named("SyntaxDelimiter"))));
    add_function(&mut out, "syntax_kind", func_ty(one(named("Syntax")), named("string")));
    add_function(&mut out, "syntax_span", func_ty(one(named("Syntax")), span_tuple_ty()));
    add_function(&mut out, "syntax_origin", func_ty(one(named("Syntax")), named("string")));
    add_function(&mut out, "syntax_token_text", func_ty(one(named("Syntax")), option_ty(named("string"))));
    add_function(&mut out, "syntax_is_ident", func_ty(two(named("Syntax"), named("string")), named("bool")));
    add_function(&mut out, "syntax_eq_shape", func_ty(two(named("Syntax"), named("Syntax")), named("bool")));
    add_function(&mut out, "syntax_same_binding", func_ty(two(named("Syntax"), named("Syntax")), named("bool")));
    out
}

fn making_functions() -> (r: Vec<(String, Ty)>)
    ensures
        fields_view(r@) == making(),
{
    let mut out: Vec<(String, Ty)> = Vec::new();
    assert(fields_view(out@) =~= Seq::empty());
    add_function(&mut out, "syntax_token", func_ty(one(named("SyntaxToken")), named("Syntax")));
    add_function(&mut out, "syntax_tree", func_ty(two(named("SyntaxDelimiter"), array_ty(named("Syntax"))), named("Syntax")));
    add_function(&mut out, "syntax_sequence", func_ty(one(array_ty(named("Syntax"))), named("Syntax")));
    add_function(&mut out, "syntax_ident", func_ty(one(named("string")), named("Syntax")));
    add_function(&mut out, "syntax_literal", func_ty(one(named("string")), named("Syntax")));
    add_function(&mut out, "syntax_operator", func_ty(one(named("string")), named("Syntax")));
    add_function(&mut out, "syntax_punct", func_ty(one(named("string")), named("Syntax")));
    add_function(&mut out, "syntax_fresh_ident", func_ty(one(named("string")), named("Syntax")));
    add_function(&mut out, "syntax_ident_at_use_site", func_ty(one(named("string")), named("Syntax")));
    out
}

fn changing_functions() -> (r: Vec<(String, Ty)>)
    ensures
        fields_view(r@) == changing(),
{
    let mut out: Vec<(String, Ty)> = Vec::new();
    assert(fields_view(out@) =~= Seq::empty());
    add_function(&mut out, "syntax_map_children", func_ty(two(named("Syntax"), func_ty(one(named("Syntax")), named("Syntax"))), named("Syntax")));
    add_function(&mut out, "syntax_find", func_ty(two(named("Syntax"), func_ty(one(named("Syntax")), named("bool"))), option_ty(named("Syntax"))));
    add_function(&mut out, "syntax_replace", func_ty(three(named("Syntax"), named("Syntax"), named("Syntax")), named("Syntax")));
    add_function(&mut out, "syntax_join", func_ty(two(array_ty(named("Syntax")), named("Syntax")), named("Syntax")));
    add_function(&mut out, "syntax_debug", func_ty(one(named("Syntax")), named("string")));
    out
}

fn asking_functions() -> (r: Vec<(String, Ty)>)
    ensures
        fields_view(r@) == asking(),
{
    let mut out: Vec<(String, Ty)> = Vec::new();
    assert(fields_view(out@) =~= Seq::empty());
    add_function(&mut out, "macro_resolve_ident", func_ty(one(named("Syntax")), option_ty(named("string"))));
    add_function(&mut out, "macro_type_of", func_ty(one(named("Syntax")), option_ty(named("string"))));
    add_function(&mut out, "macro_fields_of", func_ty(one(named("Syntax")), array_ty(named("string"))));
    add_function(&mut out, "macro_variants_of", func_ty(one(named("Syntax")), array_ty(named("string"))));
    add_function(&mut out, "macro_trait_methods_of", func_ty(one(named("Syntax")), array_ty(named("string"))));
    add_function(&mut out, "macro_module_items", func_ty(one(named("Syntax")), array_ty(named("string"))));
    add_function(&mut out, "Ok", func_ty(one(named("Syntax")), macro_result_syntax_ty()));
    add_function(&mut out, "Err", func_ty(one(named("MacroError")), macro_result_syntax_ty()));
    add_function(&mut out, "MacroError", func_ty(one(named("string")), named("MacroError")));
    out
}

fn insert_missing(env: &mut TypeEnv, entries: &Vec<(String, Ty)>)
    ensures
        final(env)@ == with_missing(old(env)@, fields_view(entries@), 0),
{
    let ghost all = fields_view(entries@);
    let mut i: usize = 0;
    while i < entries.len()
        invariant
            i <= entries.len(),
            all == fields_view(entries@),
            all.len() == entries@.len(),
            with_missing(old(env)@, all, 0) == with_missing(env@, all, i as nat),
        decreases entries.len() - i,
    {
        assert(all[i as int] == (entries@[i as int].0@, entries@[i as int].1@));
        let is_there = env.get(&entries[i].0).is_some();
        if !is_there {
            env.insert(
                entries[i].0.clone(),
                EnvInfo::immutable(Scheme::mono(entries[i].1.clone())),
            );
        }
        i = i + 1;
    }
}

/// Adds the functions of macros that an environment lacks.
pub fn insert_syntax_builtin_schemes(env: &mut TypeEnv)
    ensures
        final(env)@ == with_macro_functions(old(env)@),
{
    proof {
        reveal(with_macro_functions);
    }
    let reading = reading_functions();
    insert_missing(env, &reading);
    let making = making_functions();
    insert_missing(env, &making);
    let changing = changing_functions();
    insert_missing(env, &changing);
    let asking = asking_functions();
    insert_missing(env, &asking);
}

fn builtin_0(name: &str) -> (r: bool)
    ensures
        r == is_builtin_0(name@),
{
    str_eq(name, "Ok")
        || str_eq(name, "Err")
        || str_eq(name, "MacroError")
        || str_eq(name, "syntax_children")
        || str_eq(name, "syntax_delimiter")
        || str_eq(name, "syntax_kind")
        || str_eq(name, "syntax_span")
        || str_eq(name, "syntax_origin")
        || str_eq(name, "syntax_token_text")
        || str_eq(name, "syntax_is_ident")
        || str_eq(name, "syntax_eq_shape")
        || str_eq(name, "syntax_same_binding")
        || str_eq(name, "syntax_token")
        || str_eq(name, "syntax_tree")
}

fn builtin_1(name: &str) -> (r: bool)
    ensures
        r == is_builtin_1(name@),
{
    str_eq(name, "syntax_sequence")
        || str_eq(name, "syntax_ident")
        || str_eq(name, "syntax_literal")
        || str_eq(name, "syntax_operator")
        || str_eq(name, "syntax_punct")
        || str_eq(name, "syntax_fresh_ident")
        || str_eq(name, "syntax_ident_at_use_site")
        || str_eq(name, "syntax_map_children")
        || str_eq(name, "syntax_find")
        || str_eq(name, "syntax_replace")
        || str_eq(name, "syntax_join")
        || str_eq(name, "syntax_debug")
        || str_eq(name, "macro_resolve_ident")
}

fn builtin_2(name: &str) -> (r: bool)
    ensures
        r == is_builtin_2(name@),
{
    str_eq(name, "macro_type_of")
        || str_eq(name, "macro_fields_of")
        || str_eq(name, "macro_variants_of")
        || str_eq(name, "macro_trait_methods_of")
        || str_eq(name, "macro_module_items")
        || str_eq(name, "Paren")
        || str_eq(name, "Brace")
        || str_eq(name, "Bracket")
        || str_eq(name, "Keyword")
        || str_eq(name, "Literal")
        || str_eq(name, "Operator")
        || str_eq(name, "Punct")
        || str_eq(name, "to_string")
}

/// Whether a name is one that macros always see.
pub fn macro_builtin_available(name: &str) -> (r: bool)
    ensures
        r == is_macro_builtin(name@),
{
    proof {
        reveal(is_macro_builtin);
    }
    builtin_0(name) || builtin_1(name) || builtin_2(name)
}

/// The environment in which the body of a macro is checked.
pub fn macro_phase_env(env: &TypeEnv) -> (r: TypeEnv)
    ensures
        r@ == phase_env(env@),
{
    let names = env.names();
    let ghost all = strings_view(names@);
    let mut out = TypeEnv::new();
    let mut i: usize = 0;
    while i < names.len()
        invariant
            i <= names.len(),
            all == strings_view(names@),
            all.len() == names@.len(),
            lists_names(all, env@.dom()),
            forall|n: Seq<char>| #[trigger]
                out@.dom().contains(n) <==> macro_sees(env@, n) && exists|j: int|
                    0 <= j < i && all[j] == n,
            forall|n: Seq<char>| #[trigger] out@.dom().contains(n) ==> out@[n] == env@[n],
        decreases names.len() - i,
    {
        assert(all[i as int] == names@[i as int]@);
        if let Some(info) = env.get(&names[i]) {
            if info.macro_phase_available || macro_builtin_available(&names[i]) {
                out.insert(names[i].clone(), info.clone());
            }
        }
        i = i + 1;
    }
    proof {
        let seen = Map::new(|n: Seq<char>| macro_sees(env@, n), |n: Seq<char>| env@[n]);
        assert forall|n: Seq<char>| out@.dom().contains(n) == seen.dom().contains(n) by {
            if macro_sees(env@, n) {
                assert(all.contains(n));
                let j = choose|j: int| 0 <= j < all.len() && all[j] == n;
                assert(0 <= j < names@.len() && all[j] == n);
            }
        }
        assert(out@ =~= seen);
    }
    insert_syntax_builtin_schemes(&mut out);
    out
}

// ---------------------------------------------------------------------------
// Types
// ---------------------------------------------------------------------------

/// The types of macros and how many arguments each takes.
pub open spec fn macro_types() -> Seq<(Seq<char>, usize)> {
    seq![
        ("Syntax"@, 0),
        ("SyntaxMeta"@, 0),
        ("SyntaxDelimiter"@, 0),
        ("SyntaxToken"@, 0),
        ("Hygiene"@, 0),
        ("MacroError"@, 0),
        ("Result"@, 2),
        ("MacroResult"@, 1),
        ("Option"@, 1),
    ]
}

/// Names with those of the types up to the one before `n`.
pub open spec fn with_type_names(
    names: Set<Seq<char>>,
    types: Seq<(Seq<char>, usize)>,
    n: nat,
) -> Set<Seq<char>>
    decreases n,
{
    if n == 0 {
        names
    } else {
        with_type_names(names, types, (n - 1) as nat).insert(types[n - 1].0)
    }
}

/// The numbers of arguments with those of the types up to the one before `n`.
pub open spec fn with_arities(
    arities: Map<Seq<char>, usize>,
    types: Seq<(Seq<char>, usize)>,
    n: nat,
) -> Map<Seq<char>, usize>
    decreases n,
{
    if n == 0 {
        arities
    } else {
        with_arities(arities, types, (n - 1) as nat).insert(types[n - 1].0, types[n - 1].1)
    }
}

/// `MacroResult`: its argument or an error.
pub open spec fn macro_result_alias() -> AliasV {
    AliasV {
        params: seq!["a"@],
        ty: TypeV::App(
            Box::new(TypeV::Ident("Result"@)),
            seq![TypeV::Var("a"@), TypeV::Ident("MacroError"@)],
        ),
    }
}

fn declare_type(types: &mut TypeScope, name: &str, arity: usize)
    ensures
        final(types).declared@ == old(types).declared@.insert(name@),
        final(types).constructor_arities@ == old(types).constructor_arities@.insert(name@, arity),
        final(types).aliases == old(types).aliases,
        final(types).variant_env == old(types).variant_env,
        final(types).scoped_declared == old(types).scoped_declared,
{
    types.declared.insert(name.to_owned());
    types.constructor_arities.insert(name.to_owned(), arity);
}

/// Declares the types of macros.
pub fn register_macro_phase_type_surface(types: &mut TypeScope)
    ensures
        final(types).declared@ == with_type_names(
            old(types).declared@,
            macro_types(),
            macro_types().len(),
        ),
        final(types).constructor_arities@ == with_arities(
            old(types).constructor_arities@,
            macro_types(),
            macro_types().len(),
        ),
        final(types).aliases@ == old(types).aliases@.insert(
            "MacroResult"@,
            macro_result_alias(),
        ),
        final(types).variant_env == old(types).variant_env,
        final(types).scoped_declared == old(types).scoped_declared,
{
    proof {
        reveal_with_fuel(with_type_names, 10);
        reveal_with_fuel(with_arities, 10);
    }
    declare_type(types, "Syntax", 0);
    declare_type(types, "SyntaxMeta", 0);
    declare_type(types, "SyntaxDelimiter", 0);
    declare_type(types, "SyntaxToken", 0);
    declare_type(types, "Hygiene", 0);
    declare_type(types, "MacroError", 0);
    declare_type(types, "Result", 2);
    declare_type(types, "MacroResult", 1);
    declare_type(types, "Option", 1);
    let mut args: Vec<Type> = Vec::new();
    args.push(Type::Var("a".to_owned()));
    args.push(Type::Ident("MacroError".to_owned()));
    assert(types_view(args@) =~= seq![TypeV::Var("a"@), TypeV::Ident("MacroError"@)]);
    let mut params: Vec<String> = Vec::new();
    params.push("a".to_owned());
    assert(strings_view(params@) =~= seq!["a"@]);
    let head = Type::Ident("Result".to_owned());
    assert(type_view(head) == TypeV::Ident("Result"@));
    assert(type_view(args@[0]) == TypeV::Var("a"@));
    assert(type_view(args@[1]) == TypeV::Ident("MacroError"@));
    let ty = Type::App(Box::new(head), args);
    assert(type_view(ty) == TypeV::App(Box::new(type_view(head)), types_view(args@)));
    let alias = Alias { params, ty };
    assert(type_view(ty) == macro_result_alias().ty);
    assert(alias@ == macro_result_alias());
    types.aliases.insert("MacroResult".to_owned(), alias);
}

// ---------------------------------------------------------------------------
// The form of a macro
// ---------------------------------------------------------------------------

/// A macro before its body is checked.
pub struct MacroHeadV {
    pub st: InferV,
    pub env: EnvV,
    pub err: Option<SpannedV>,
}

/// The error of a macro that does not have the form of one.
pub open spec fn bad_macro(what: Seq<char>, ty: TyV) -> TypeErrorV {
    TypeErrorV::InvalidMacroSignature { message: what + ty_text(Map::empty(), ty) + "`"@ }
}

/// Whether an expression is a block.
pub open spec fn is_block(e: ExprV) -> bool {
    e.kind is Block
}

/// What a macro looks like to its body: one parameter, which is syntax, a result that
/// is syntax or an error, and a block.
#[verifier::opaque]
pub open spec fn macro_head(st: InferV, env: EnvV, def: MacroDefV) -> MacroHeadV {
    let p = written(st, Map::empty(), def.param_ty);
    match p.res {
        Err(e) => MacroHeadV { st: p.st, env, err: Some(error_at(e, def.param_ty_span)) },
        Ok(param) => if param != TyV::Con("Syntax"@) {
            MacroHeadV {
                st: p.st,
                env,
                err: Some(
                    error_at(
                        bad_macro("input parameter must have type `Syntax`, got `"@, param),
                        def.param_ty_span,
                    ),
                ),
            }
        } else {
            let r = written(p.st, p.vars, def.ret_ty);
            match r.res {
                Err(e) => MacroHeadV { st: r.st, env, err: Some(error_at(e, def.ret_ty_span)) },
                Ok(ret) => if ret != macro_result() {
                    MacroHeadV {
                        st: r.st,
                        env,
                        err: Some(
                            error_at(
                                bad_macro("return type must be `MacroResult(Syntax)`, got `"@, ret),
                                def.ret_ty_span,
                            ),
                        ),
                    }
                } else if !is_block(def.body) {
                    MacroHeadV {
                        st: r.st,
                        env,
                        err: Some(
                            error_at(
                                TypeErrorV::InvalidMacroSignature {
                                    message: "body must be a block expression"@,
                                },
                                def.body.span,
                            ),
                        ),
                    }
                } else {
                    MacroHeadV {
                        st: with_binding(r.st, def.param_span, TyV::Con("Syntax"@)),
                        env: phase_env(env).insert(
                            def.param_name,
                            immutable_info(mono_scheme(TyV::Con("Syntax"@))),
                        ),
                        err: None,
                    }
                },
            }
        },
    }
}

/// A macro once its body has been checked.
#[verifier::opaque]
pub open spec fn macro_after(st: InferV, def: MacroDefV, res: Result<TyV, SpannedV>) -> Run<
    MacroDefV,
    (),
> {
    match res {
        Err(e) => Run { st, node: def, res: Err(e) },
        Ok(ty) => {
            let u = equate(st, ty, macro_result());
            match u.1 {
                Some(e) => Run { st: u.0, node: def, res: failed_at(e, def.body.span) },
                None => Run { st: u.0, node: def, res: Ok(()) },
            }
        },
    }
}

fn bad_macro_error(what: &str, ty: &Ty) -> (r: TypeError)
    ensures
        r@ == bad_macro(what@, ty@),
{
    let mut message = what.to_owned();
    message.append(&ty.to_string());
    message.append("`");
    TypeError::InvalidMacroSignature { message }
}

impl Infer {
    pub fn macro_head(&mut self, env: &TypeEnv, def: &MacroDef) -> (r: Result<
        TypeEnv,
        SpannedTypeError,
    >)
        requires
            old(self).wf(),
        ensures
            final(self).wf(),
            final(self)@ == macro_head(old(self)@, env@, def@).st,
            match macro_head(old(self)@, env@, def@).err {
                Some(e) => r is Err && r->Err_0@ == e,
                None => r is Ok && r->Ok_0@ == macro_head(old(self)@, env@, def@).env,
            },
    {
        proof {
            reveal(macro_head);
        }
        let syntax = named("Syntax");
        let mut vars: NameMap<TyVar> = NameMap::new();
        let param = match self.written(&def.param_ty, &mut vars) {
            Err(error) => {
                return Err(error.at(def.param_ty_span));
            },
            Ok(t) => t,
        };
        if !ty_eq(&param, &syntax) {
            return Err(
                bad_macro_error("input parameter must have type `Syntax`, got `", &param).at(
                    def.param_ty_span,
                ),
            );
        }
        let ret = match self.written(&def.ret_ty, &mut vars) {
            Err(error) => {
                return Err(error.at(def.ret_ty_span));
            },
            Ok(t) => t,
        };
        if !ty_eq(&ret, &macro_result_syntax_ty()) {
            return Err(
                bad_macro_error("return type must be `MacroResult(Syntax)`, got `", &ret).at(
                    def.ret_ty_span,
                ),
            );
        }
        match &def.body.kind {
            ExprKind::Block { .. } => {},
            _ => {
                return Err(
                    TypeError::InvalidMacroSignature {
                        message: "body must be a block expression".to_owned(),
                    }.at(def.body.span),
                );
            },
        }
        let mut phase = macro_phase_env(env);
        self.metadata.record_binding_type(def.param_span, syntax.clone());
        phase.insert(def.param_name.clone(), EnvInfo::immutable(Scheme::mono(syntax)));
        Ok(phase)
    }

    pub fn macro_after(&mut self, def: &MacroDef, found: Result<Ty, SpannedTypeError>) -> (r: Result<
        (),
        SpannedTypeError,
    >)
        requires
            old(self).wf(),
        ensures
            final(self).wf(),
            (Run { st: final(self)@, node: def@, res: unit_res(r) }) == macro_after(
                old(self)@,
                def@,
                ty_res(found),
            ),
    {
        proof {
            reveal(macro_after);
        }
        match found {
            Err(error) => Err(error),
            Ok(ty) => match self.equate(ty, macro_result_syntax_ty()) {
                Err(error) => Err(error.at(def.body.span)),
                Ok(_) => Ok(()),
            },
        }
    }
}

} // verus!
