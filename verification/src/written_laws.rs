//! What a type that is written stands for.

use vstd::prelude::*;

use crate::ast_view::{NamedTypeV, TraitDefV, TraitMethodV, TypeParamV, TypeV};
use crate::convert::{applied_args, applied_name, expand, fill_all, first_twin, stack_index};
use crate::convert::{to_app, to_applied, to_fields, to_params, to_ty, to_tys, written_param};
use crate::convert::{written_record, MAX_ALIAS_DEPTH, VarNames};
use crate::dispatch::{method_types, types_of};
use crate::finish::{operator_types, OperatorV};
use crate::rows::{fields_sorted, law_sort_fields_sorted, lemma_sort_fields_contains};
use crate::rows::{lemma_sort_fields_multiset, sort_fields, FieldV};
use crate::state::{fresh, next_var, AliasV, InferV};
use crate::steps::{all_written, written};
use crate::text::{lemma_lex_asymmetric, lemma_lex_total, lex_less};
use crate::ty::{ParamV, ReturnCapability, TyV};
use crate::ty_helpers::{fresh_named, fresh_params};
use crate::type_syntax::first_field;

verus! {

/// What the names in a written type stand for.
pub struct NamesV {
    pub aliases: Map<Seq<char>, AliasV>,
    pub arities: Map<Seq<char>, usize>,
    pub declared: Set<Seq<char>>,
}

/// The names that a state knows.
pub open spec fn names_of(st: InferV) -> NamesV {
    NamesV { aliases: st.aliases, arities: st.arities, declared: st.declared }
}

/// Whether a name that is no alias names this type: one that is built in, or one that was
/// declared.
pub open spec fn is_named(n: NamesV, name: Seq<char>, ty: TyV) -> bool {
    match ty {
        TyV::Int => name == "int"@,
        TyV::Float => name == "float"@,
        TyV::Unit => name == "Unit"@ || name == "()"@,
        TyV::Con(declared) => declared == name && n.declared.contains(name),
        _ => false,
    }
}

/// Whether a written type stands for `ty`, where the type variables are called as in `vars`
/// and aliases of aliases are followed no more than `left` deep.
pub open spec fn stands_for(n: NamesV, vars: VarNames, t: TypeV, ty: TyV, left: nat) -> bool
    decreases left, t,
{
    match t {
        TypeV::Ident(name) => if n.aliases.dom().contains(name) {
            n.aliases[name].params.len() == 0 && left > 0 && stands_for(
                n,
                vars,
                n.aliases[name].ty,
                ty,
                (left - 1) as nat,
            )
        } else {
            is_named(n, name, ty)
        },
        TypeV::Var(name) => vars.dom().contains(name) && ty == TyV::Var(vars[name]),
        TypeV::App(con, args) => match *con {
            TypeV::Ident(name) if n.aliases.dom().contains(name) => n.aliases[name].params.len()
                == args.len() && left > 0 && stands_for(
                n,
                vars,
                fill_all(n.aliases[name].ty, n.aliases[name].params, args, 0),
                ty,
                (left - 1) as nat,
            ),
            _ => {
                &&& ty is App
                &&& stands_for(n, vars, *con, *ty->App_0, left)
                &&& *con matches TypeV::Ident(name) ==> n.arities.dom().contains(name)
                    ==> n.arities[name] == args.len()
                &&& ty->App_1.len() == args.len()
                &&& forall|i: int|
                    0 <= i < args.len() ==> stands_for(n, vars, #[trigger] args[i], ty->App_1[i], left)
            },
        },
        TypeV::Func(params, ret) => {
            &&& ty is Func
            &&& ty->Func_0.len() == params.len()
            &&& forall|i: int|
                0 <= i < params.len() ==> stands_for(
                    n,
                    vars,
                    (#[trigger] params[i]).ty,
                    ty->Func_0[i].ty,
                    left,
                ) && (params[i].mut_place <==> ty->Func_0[i].capability is MutPlace)
            &&& stands_for(n, vars, *ret.ty, *ty->Func_1.ty, left)
            &&& ty->Func_1.capability == (if ret.mut_place {
                ReturnCapability::FreshPlace
            } else {
                ReturnCapability::Value
            })
        },
        TypeV::Tuple(items) => {
            &&& ty is Tuple
            &&& ty->Tuple_0.len() == items.len()
            &&& forall|i: int|
                0 <= i < items.len() ==> stands_for(
                    n,
                    vars,
                    #[trigger] items[i],
                    ty->Tuple_0[i],
                    left,
                )
        },
        TypeV::Record(fields, open) => {
            &&& ty is Record
            &&& ty->Record_0.fields.len() == fields.len()
            &&& forall|i: int|
                0 <= i < fields.len() ==> first_field(
                    ty->Record_0.fields,
                    (#[trigger] fields[i]).name,
                ) is Some && stands_for(
                    n,
                    vars,
                    fields[i].ty,
                    first_field(ty->Record_0.fields, fields[i].name)->0,
                    left,
                )
            &&& if open {
                *ty->Record_0.tail is Var
            } else {
                *ty->Record_0.tail is Unit
            }
        },
        TypeV::Unit => ty is Unit,
        TypeV::Never => ty is Never,
        TypeV::Hole => ty is Var,
    }
}

/// What a written type stands for does not hang on variables that are named later.
pub(crate) proof fn lemma_more_names(n: NamesV, vars: VarNames, more: VarNames, t: TypeV, ty: TyV, left: nat)
    requires
        vars.submap_of(more),
        stands_for(n, vars, t, ty, left),
    ensures
        stands_for(n, more, t, ty, left),
    decreases left, t,
{
    match t {
        TypeV::Ident(name) => {
            if n.aliases.dom().contains(name) {
                lemma_more_names(n, vars, more, n.aliases[name].ty, ty, (left - 1) as nat);
            }
        },
        TypeV::App(con, args) => {
            if (*con matches TypeV::Ident(name) && n.aliases.dom().contains(name)) {
                let name = (*con)->Ident_0;
                lemma_more_names(
                    n,
                    vars,
                    more,
                    fill_all(n.aliases[name].ty, n.aliases[name].params, args, 0),
                    ty,
                    (left - 1) as nat,
                );
            } else {
                lemma_more_names(n, vars, more, *con, *ty->App_0, left);
                assert forall|i: int| 0 <= i < args.len() implies stands_for(
                    n,
                    more,
                    #[trigger] args[i],
                    ty->App_1[i],
                    left,
                ) by {
                    lemma_more_names(n, vars, more, args[i], ty->App_1[i], left);
                }
            }
        },
        TypeV::Func(params, ret) => {
            assert forall|i: int| 0 <= i < params.len() implies stands_for(
                n,
                more,
                (#[trigger] params[i]).ty,
                ty->Func_0[i].ty,
                left,
            ) by {
                lemma_more_names(n, vars, more, params[i].ty, ty->Func_0[i].ty, left);
            }
            lemma_more_names(n, vars, more, *ret.ty, *ty->Func_1.ty, left);
        },
        TypeV::Tuple(items) => {
            assert forall|i: int| 0 <= i < items.len() implies stands_for(
                n,
                more,
                #[trigger] items[i],
                ty->Tuple_0[i],
                left,
            ) by {
                lemma_more_names(n, vars, more, items[i], ty->Tuple_0[i], left);
            }
        },
        TypeV::Record(fields, open) => {
            assert forall|i: int| 0 <= i < fields.len() implies stands_for(
                n,
                more,
                (#[trigger] fields[i]).ty,
                first_field(ty->Record_0.fields, fields[i].name)->0,
                left,
            ) by {
                let found = first_field(ty->Record_0.fields, fields[i].name)->0;
                lemma_more_names(n, vars, more, fields[i].ty, found, left);
            }
        },
        _ => {},
    }
}

proof fn lemma_no_twin(s: Seq<FieldV>, i: nat, k: int)
    requires
        first_twin(s, i) is None,
        i <= k,
        k + 1 < s.len(),
    ensures
        s[k].0 != s[k + 1].0,
    decreases k - i,
{
    if i < k {
        lemma_no_twin(s, i + 1, k);
    }
}

/// Sorted fields of which no two neighbours share a name have names of their own.
proof fn lemma_apart(s: Seq<FieldV>, i: int, j: int)
    requires
        fields_sorted(s),
        first_twin(s, 0) is None,
        0 <= i < j < s.len(),
    ensures
        s[i].0 != s[j].0,
{
    lemma_no_twin(s, 0, i);
    if s[i].0 == s[j].0 {
        let (a, b) = (s[i].0, s[i + 1].0);
        lemma_lex_total(a, b);
        if lex_less(a, b) {
            lemma_lex_asymmetric(a, b);
        } else {
            lemma_lex_asymmetric(b, a);
        }
    }
}

proof fn lemma_first_field(s: Seq<FieldV>, k: int)
    requires
        0 <= k < s.len(),
        forall|j: int| 0 <= j < k ==> (#[trigger] s[j]).0 != s[k].0,
    ensures
        first_field(s, s[k].0) == Some(s[k].1),
    decreases k,
{
    if k > 0 {
        let rest = s.drop_first();
        assert forall|j: int| 0 <= j < k - 1 implies (#[trigger] rest[j]).0 != rest[k - 1].0 by {
            assert(rest[j] == s[j + 1]);
        }
        lemma_first_field(rest, k - 1);
    }
}

/// A record type as it is written has each of its fields.
proof fn lemma_written_record(st: InferV, vars: VarNames, fields: Seq<FieldV>, open: bool)
    requires
        written_record(st, vars, fields, open).res is Ok,
    ensures
        ({
            let r = written_record(st, vars, fields, open);
            let ty = r.res->Ok_0;
            &&& r.st == (InferV { subst: r.st.subst, ..st })
            &&& r.vars == vars
            &&& ty is Record
            &&& ty->Record_0.fields.len() == fields.len()
            &&& forall|i: int|
                0 <= i < fields.len() ==> first_field(
                    ty->Record_0.fields,
                    (#[trigger] fields[i]).0,
                ) == Some(fields[i].1)
            &&& if open {
                *ty->Record_0.tail is Var
            } else {
                *ty->Record_0.tail is Unit
            }
        }),
{
    broadcast use vstd::seq_lib::group_to_multiset_ensures;

    let sorted = sort_fields(fields);
    law_sort_fields_sorted(fields);
    lemma_sort_fields_multiset(fields);
    assert(sorted.len() == fields.len());
    assert forall|i: int| 0 <= i < fields.len() implies first_field(
        sorted,
        (#[trigger] fields[i]).0,
    ) == Some(fields[i].1) by {
        lemma_sort_fields_contains(fields, fields[i]);
        assert(fields.contains(fields[i]));
        let k = choose|k: int| 0 <= k < sorted.len() && sorted[k] == fields[i];
        assert forall|j: int| 0 <= j < k implies (#[trigger] sorted[j]).0 != sorted[k].0 by {
            lemma_apart(sorted, j, k);
        }
        lemma_first_field(sorted, k);
    }
}

/// Whether reading types changed nothing but which variables there are: what each name stood
/// for it stands for still.
pub open spec fn is_read(
    st: InferV,
    vars: VarNames,
    after: InferV,
    more: VarNames,
) -> bool {
    after == (InferV { subst: after.subst, ..st }) && vars.submap_of(more)
}

pub(crate) proof fn lemma_names_kept(a: VarNames, b: VarNames, name: Seq<char>)
    requires
        a.submap_of(b),
        a.dom().contains(name),
    ensures
        b.dom().contains(name),
        b[name] == a[name],
{
    assert(b.dom().contains(name));
}

proof fn lemma_names_transitive(a: VarNames, b: VarNames, c: VarNames)
    requires
        a.submap_of(b),
        b.submap_of(c),
    ensures
        a.submap_of(c),
{
    assert forall|k: Seq<char>| #[trigger] a.dom().contains(k) implies c.dom().contains(k) && a[k]
        == c[k] by {
        assert(b.dom().contains(k));
    }
}

proof fn lemma_expand(
    st: InferV,
    vars: VarNames,
    name: Seq<char>,
    ty: TypeV,
    stack: Seq<Seq<char>>,
    left: nat,
)
    ensures
        ({
            let r = expand(st, vars, name, ty, stack, left);
            &&& is_read(st, vars, r.st, r.vars)
            &&& r.res matches Ok(t) ==> left > 0 && stands_for(
                names_of(st),
                r.vars,
                ty,
                t,
                (left - 1) as nat,
            )
        }),
    decreases left, 0nat, ty, 0nat,
{
    if stack_index(stack, name, 0) is None && left > 0 {
        lemma_to_ty(st, vars, ty, stack.push(name), (left - 1) as nat);
    }
}

proof fn lemma_to_ty(st: InferV, vars: VarNames, ty: TypeV, stack: Seq<Seq<char>>, left: nat)
    ensures
        ({
            let r = to_ty(st, vars, ty, stack, left);
            &&& is_read(st, vars, r.st, r.vars)
            &&& r.res matches Ok(t) ==> stands_for(names_of(st), r.vars, ty, t, left)
        }),
    decreases left, 1nat, ty, 2nat,
{
    let n = names_of(st);
    let r = to_ty(st, vars, ty, stack, left);
    match ty {
        TypeV::Ident(name) => {
            if st.aliases.dom().contains(name) && st.aliases[name].params.len() == 0 {
                lemma_expand(st, vars, name, st.aliases[name].ty, stack, left);
            }
        },
        TypeV::Func(params, ret) => {
            let ps = to_params(st, vars, params, 0, Seq::empty(), stack, left);
            lemma_to_params(st, vars, params, 0, Seq::empty(), stack, left);
            if ps.res is Ok {
                lemma_to_ty(ps.st, ps.vars, *ret.ty, stack, left);
                lemma_names_transitive(vars, ps.vars, r.vars);
                if r.res is Ok {
                    let t = r.res->Ok_0;
                    assert forall|i: int| 0 <= i < params.len() implies stands_for(
                        n,
                        r.vars,
                        (#[trigger] params[i]).ty,
                        t->Func_0[i].ty,
                        left,
                    ) && (params[i].mut_place <==> t->Func_0[i].capability is MutPlace) by {
                        lemma_more_names(n, ps.vars, r.vars, params[i].ty, t->Func_0[i].ty, left);
                    }
                }
            }
        },
        TypeV::App(con, args) => {
            lemma_to_app(st, vars, ty, stack, left);
        },
        TypeV::Tuple(items) => {
            lemma_to_tys(st, vars, items, 0, Seq::empty(), stack, left);
        },
        TypeV::Record(fields, open) => {
            let fs = to_fields(st, vars, fields, 0, Seq::empty(), stack, left);
            lemma_to_fields(st, vars, fields, 0, Seq::empty(), stack, left);
            if fs.res is Ok {
                let found = fs.res->Ok_0;
                if r.res is Ok {
                    lemma_written_record(fs.st, fs.vars, found, open);
                    let t = r.res->Ok_0;
                    assert forall|i: int| 0 <= i < fields.len() implies first_field(
                        t->Record_0.fields,
                        (#[trigger] fields[i]).name,
                    ) is Some && stands_for(
                        n,
                        r.vars,
                        fields[i].ty,
                        first_field(t->Record_0.fields, fields[i].name)->0,
                        left,
                    ) by {
                        assert(found[i].0 == fields[i].name);
                    }
                }
            }
        },
        _ => {},
    }
}

proof fn lemma_to_app(st: InferV, vars: VarNames, ty: TypeV, stack: Seq<Seq<char>>, left: nat)
    requires
        ty is App,
    ensures
        ({
            let r = to_app(st, vars, ty, stack, left);
            &&& is_read(st, vars, r.st, r.vars)
            &&& r.res matches Ok(t) ==> stands_for(names_of(st), r.vars, ty, t, left)
        }),
    decreases left, 1nat, ty, 1nat,
{
    let args = applied_args(ty);
    match applied_name(ty) {
        Some(name) => {
            if st.aliases.dom().contains(name) {
                let alias = st.aliases[name];
                if alias.params.len() == args.len() {
                    let filled = fill_all(alias.ty, alias.params, args, 0);
                    lemma_expand(st, vars, name, filled, stack, left);
                }
            } else if st.arities.dom().contains(name) && st.arities[name] != args.len() {
            } else {
                lemma_to_applied(st, vars, ty, stack, left);
            }
        },
        None => {
            lemma_to_applied(st, vars, ty, stack, left);
        },
    }
}

proof fn lemma_to_applied(st: InferV, vars: VarNames, ty: TypeV, stack: Seq<Seq<char>>, left: nat)
    requires
        ty is App,
        applied_name(ty) matches Some(name) ==> !st.aliases.dom().contains(name) && (
        st.arities.dom().contains(name) ==> st.arities[name] == applied_args(ty).len()),
    ensures
        ({
            let r = to_applied(st, vars, ty, stack, left);
            &&& is_read(st, vars, r.st, r.vars)
            &&& r.res matches Ok(t) ==> stands_for(names_of(st), r.vars, ty, t, left)
        }),
    decreases left, 1nat, ty, 0nat,
{
    let n = names_of(st);
    let (con, args) = (ty->App_0, ty->App_1);
    let c = to_ty(st, vars, *con, stack, left);
    lemma_to_ty(st, vars, *con, stack, left);
    if c.res is Ok {
        lemma_to_tys(c.st, c.vars, args, 0, Seq::empty(), stack, left);
        let r = to_applied(st, vars, ty, stack, left);
        lemma_names_transitive(vars, c.vars, r.vars);
        if r.res is Ok {
            lemma_more_names(n, c.vars, r.vars, *con, c.res->Ok_0, left);
        }
    }
}

proof fn lemma_to_tys(
    st: InferV,
    vars: VarNames,
    s: Seq<TypeV>,
    i: nat,
    done: Seq<TyV>,
    stack: Seq<Seq<char>>,
    left: nat,
)
    requires
        i <= s.len(),
        i == done.len(),
    ensures
        ({
            let r = to_tys(st, vars, s, i, done, stack, left);
            &&& is_read(st, vars, r.st, r.vars)
            &&& r.res matches Ok(ts) ==> ts.len() == s.len() && done.is_prefix_of(ts) && forall|
                k: int,
            | i <= k < s.len() ==> stands_for(names_of(st), r.vars, #[trigger] s[k], ts[k], left)
        }),
    decreases left, 1nat, s, s.len() - i,
{
    if i < s.len() {
        let x = to_ty(st, vars, s[i as int], stack, left);
        lemma_to_ty(st, vars, s[i as int], stack, left);
        if let Ok(t) = x.res {
            lemma_to_tys(x.st, x.vars, s, i + 1, done.push(t), stack, left);
            let r = to_tys(st, vars, s, i, done, stack, left);
            lemma_names_transitive(vars, x.vars, r.vars);
            if r.res is Ok {
                let ts = r.res->Ok_0;
                assert(ts[i as int] == done.push(t)[i as int]);
                assert(done =~= ts.take(i as int)) by {
                    assert(done.push(t).take(i as int) =~= done);
                }
                lemma_more_names(names_of(st), x.vars, r.vars, s[i as int], t, left);
            }
        }
    }
}

proof fn lemma_to_params(
    st: InferV,
    vars: VarNames,
    s: Seq<TypeParamV>,
    i: nat,
    done: Seq<ParamV>,
    stack: Seq<Seq<char>>,
    left: nat,
)
    requires
        i <= s.len(),
        i == done.len(),
    ensures
        ({
            let r = to_params(st, vars, s, i, done, stack, left);
            &&& is_read(st, vars, r.st, r.vars)
            &&& r.res matches Ok(ts) ==> ts.len() == s.len() && done.is_prefix_of(ts) && forall|
                k: int,
            |
                i <= k < s.len() ==> stands_for(
                    names_of(st),
                    r.vars,
                    (#[trigger] s[k]).ty,
                    ts[k].ty,
                    left,
                ) && (s[k].mut_place <==> ts[k].capability is MutPlace)
        }),
    decreases left, 1nat, s, s.len() - i,
{
    if i < s.len() {
        let x = to_ty(st, vars, s[i as int].ty, stack, left);
        lemma_to_ty(st, vars, s[i as int].ty, stack, left);
        if let Ok(t) = x.res {
            let p = written_param(t, s[i as int].mut_place);
            lemma_to_params(x.st, x.vars, s, i + 1, done.push(p), stack, left);
            let r = to_params(st, vars, s, i, done, stack, left);
            lemma_names_transitive(vars, x.vars, r.vars);
            if r.res is Ok {
                let ts = r.res->Ok_0;
                assert(ts[i as int] == done.push(p)[i as int]);
                assert(done =~= ts.take(i as int)) by {
                    assert(done.push(p).take(i as int) =~= done);
                }
                lemma_more_names(names_of(st), x.vars, r.vars, s[i as int].ty, t, left);
            }
        }
    }
}

proof fn lemma_to_fields(
    st: InferV,
    vars: VarNames,
    s: Seq<NamedTypeV>,
    i: nat,
    done: Seq<FieldV>,
    stack: Seq<Seq<char>>,
    left: nat,
)
    requires
        i <= s.len(),
        i == done.len(),
    ensures
        ({
            let r = to_fields(st, vars, s, i, done, stack, left);
            &&& is_read(st, vars, r.st, r.vars)
            &&& r.res matches Ok(ts) ==> ts.len() == s.len() && done.is_prefix_of(ts) && forall|
                k: int,
            |
                i <= k < s.len() ==> (#[trigger] s[k]).name == ts[k].0 && stands_for(
                    names_of(st),
                    r.vars,
                    s[k].ty,
                    ts[k].1,
                    left,
                )
        }),
    decreases left, 1nat, s, s.len() - i,
{
    if i < s.len() {
        let x = to_ty(st, vars, s[i as int].ty, stack, left);
        lemma_to_ty(st, vars, s[i as int].ty, stack, left);
        if let Ok(t) = x.res {
            let f = (s[i as int].name, t);
            lemma_to_fields(x.st, x.vars, s, i + 1, done.push(f), stack, left);
            let r = to_fields(st, vars, s, i, done, stack, left);
            lemma_names_transitive(vars, x.vars, r.vars);
            if r.res is Ok {
                let ts = r.res->Ok_0;
                assert(ts[i as int] == done.push(f)[i as int]);
                assert(done =~= ts.take(i as int)) by {
                    assert(done.push(f).take(i as int) =~= done);
                }
                lemma_more_names(names_of(st), x.vars, r.vars, s[i as int].ty, t, left);
            }
        }
    }
}

/// The type that a written type is read as is what it stands for: aliases are followed, a
/// variable that was named before keeps its meaning, and parts stand where they are
/// written.
pub proof fn law_written_type_is_read(
    st: InferV,
    vars: VarNames,
    ty: TypeV,
    stack: Seq<Seq<char>>,
    left: nat,
)
    ensures
        vars.submap_of(to_ty(st, vars, ty, stack, left).vars),
        to_ty(st, vars, ty, stack, left).res matches Ok(t) ==> stands_for(
            names_of(st),
            to_ty(st, vars, ty, stack, left).vars,
            ty,
            t,
            left,
        ),
{
    lemma_to_ty(st, vars, ty, stack, left);
}

/// [`law_written_type_is_read`] with no alias expanded yet.
pub(crate) proof fn lemma_written(st: InferV, vars: VarNames, ty: TypeV)
    ensures
        is_read(st, vars, written(st, vars, ty).st, written(st, vars, ty).vars),
        written(st, vars, ty).res matches Ok(t) ==> stands_for(
            names_of(st),
            written(st, vars, ty).vars,
            ty,
            t,
            MAX_ALIAS_DEPTH as nat,
        ),
{
    reveal(written);
    lemma_to_ty(st, vars, ty, Seq::empty(), MAX_ALIAS_DEPTH as nat);
}

/// Whether a method has these types, where the type variables are called as in `vars`.
pub open spec fn method_typed_in(
    n: NamesV,
    method: TraitMethodV,
    params: Seq<TyV>,
    ret: TyV,
    vars: VarNames,
) -> bool {
    &&& params.len() == method.params.len()
    &&& forall|i: int|
        0 <= i < params.len() ==> stands_for(
            n,
            vars,
            (#[trigger] method.params[i]).ty,
            params[i],
            MAX_ALIAS_DEPTH as nat,
        )
    &&& stands_for(n, vars, method.ret_type, ret, MAX_ALIAS_DEPTH as nat)
}

/// Whether the method of a trait has these types where the trait's parameters are `args`.
/// The type variables are called as in `vars`.
pub open spec fn method_typed_by(
    n: NamesV,
    def: TraitDefV,
    method: TraitMethodV,
    args: Seq<TyV>,
    params: Seq<TyV>,
    ret: TyV,
    vars: VarNames,
) -> bool {
    &&& args.len() == def.params.len()
    &&& def.params.no_duplicates() ==> forall|i: int|
        0 <= i < args.len() ==> vars.dom().contains(#[trigger] def.params[i]) && args[i]
            == TyV::Var(vars[def.params[i]])
    &&& method_typed_in(n, method, params, ret, vars)
}

/// Whether the method of a trait has these types where the trait's parameters are `args`:
/// they are what is written, with `args` for the names of the trait's parameters.
pub open spec fn method_typed(
    n: NamesV,
    def: TraitDefV,
    method: TraitMethodV,
    args: Seq<TyV>,
    params: Seq<TyV>,
    ret: TyV,
) -> bool {
    exists|vars: VarNames| method_typed_by(n, def, method, args, params, ret, vars)
}

pub(crate) proof fn lemma_fresh_params(
    st: InferV,
    names: Seq<Seq<char>>,
    i: nat,
    vars: VarNames,
    tys: Seq<TyV>,
)
    requires
        i <= names.len(),
        tys.len() == i,
        names.no_duplicates() ==> forall|k: int|
            0 <= k < i ==> vars.dom().contains(#[trigger] names[k]) && tys[k] == TyV::Var(
                vars[names[k]],
            ),
    ensures
        ({
            let r = fresh_params(st, names, i, vars, tys);
            &&& r.st == (InferV { subst: r.st.subst, ..st })
            &&& r.res is Ok
            &&& r.res->Ok_0.len() == names.len()
            &&& names.no_duplicates() ==> forall|k: int|
                0 <= k < names.len() ==> r.vars.dom().contains(#[trigger] names[k])
                    && r.res->Ok_0[k] == TyV::Var(r.vars[names[k]])
        }),
    decreases names.len() - i,
{
    if i < names.len() {
        let v = next_var(st);
        let more = vars.insert(names[i as int], v);
        let all = tys.push(TyV::Var(v));
        lemma_fresh_params(fresh(st), names, i + 1, more, all);
    }
}

/// A method has the types that are written for it. Gives back what the type variables are
/// called.
pub(crate) proof fn lemma_method_types(st: InferV, vars: VarNames, method: TraitMethodV) -> (more:
    VarNames)
    requires
        method_types(st, vars, types_of(method.params), method.ret_type).err is None,
    ensures
        ({
            let t = method_types(st, vars, types_of(method.params), method.ret_type);
            method_typed_in(names_of(st), method, t.params, t.ret, more)
        }),
        vars.submap_of(more),
{
    reveal(method_types);
    reveal(all_written);
    let n = names_of(st);
    let tys = types_of(method.params);
    let ps = all_written(st, vars, tys);
    lemma_to_tys(st, vars, tys, 0, Seq::empty(), Seq::empty(), MAX_ALIAS_DEPTH as nat);
    let r = written(ps.st, ps.vars, method.ret_type);
    lemma_written(ps.st, ps.vars, method.ret_type);
    let t = method_types(st, vars, tys, method.ret_type);
    lemma_names_transitive(vars, ps.vars, r.vars);
    assert forall|i: int| 0 <= i < t.params.len() implies stands_for(
        n,
        r.vars,
        (#[trigger] method.params[i]).ty,
        t.params[i],
        MAX_ALIAS_DEPTH as nat,
    ) by {
        assert(tys[i] == method.params[i].ty);
        lemma_more_names(n, ps.vars, r.vars, tys[i], t.params[i], MAX_ALIAS_DEPTH as nat);
    }
    r.vars
}

/// An operator that is a method of a trait has the types that are written for it, with new
/// variables for the parameters of the trait.
pub proof fn law_operator_is_read(st: InferV, op: OperatorV)
    requires
        operator_types(st, op).err is None,
    ensures
        ({
            let t = operator_types(st, op);
            method_typed(names_of(st), op.def, op.method, t.args, t.params, t.ret)
        }),
{
    reveal(operator_types);
    reveal(fresh_named);
    let n = names_of(st);
    let f = fresh_named(st, op.def.params, Map::empty());
    lemma_fresh_params(st, op.def.params, 0, Map::empty(), Seq::empty());
    let t = operator_types(st, op);
    let more = lemma_method_types(f.st, f.vars, op.method);
    assert forall|i: int| op.def.params.no_duplicates() && 0 <= i < t.args.len() implies
        more.dom().contains(#[trigger] op.def.params[i]) && t.args[i] == TyV::Var(
        more[op.def.params[i]],
    ) by {
        lemma_names_kept(f.vars, more, op.def.params[i]);
    }
    assert(method_typed_by(n, op.def, op.method, t.args, t.params, t.ret, more));
}

} // verus!
