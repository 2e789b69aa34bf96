//! Methods that are called on a receiver.

use std::collections::HashMap;
use vstd::prelude::*;

use crate::ast::{DictRef, ResolvedCallee, TraitDef, TraitMethod};
use crate::ast_view::{dict_ref_view, named_type_view, resolved_callee_view, some_dict_ref_view};
use crate::ast_view::{type_view, types_view, DictRefV, ResolvedCalleeV, TraitDefV, TraitMethodV};
use crate::associated::view_res;
use crate::dicts::{has_prefix, starts_with};
use crate::dispatch::{check_dict_method, equate_all, find_trait_method, method_named};
use crate::dispatch::{method_param_types, method_types, types_of};
use crate::display::{display_ty_with_var_names, letter_names, name_vars, ty_text};
use crate::env::{EnvV, TypeEnv};
use crate::error::{SpannedTypeError, SpannedV, TypeError, TypeErrorV};
use crate::state::{Infer, InferV, InherentMethodInfo, MethodInfoV, MethodsV};
use crate::steps::{all_in, equate, failed, find_dict, resolved, written};
use crate::tables::{sorted_names, NameMap, NameSet};
use crate::text::{str_eq, strings_view};
use crate::ty::{clone_tys, ty_view, tys_view, Scheme, SchemeV, Ty, TyV, TyVar};
use crate::ty_helpers::{array_of, array_ty, fresh_named, opt_ty};
use crate::type_syntax::{dict_indexes, trait_dict_indexes};
use crate::unify::error_of;
use crate::vars::{display_vars, free_type_vars_in_display_order};

verus! {

/// A type with its variables named by letters.
pub open spec fn pretty(ty: TyV) -> Seq<char> {
    ty_text(letter_names(display_vars(Seq::empty(), ty)), ty)
}

pub fn pretty_method_receiver_for_error(ty: &Ty) -> (r: String)
    ensures
        r@ == pretty(ty@),
{
    let vars = free_type_vars_in_display_order(ty);
    let names = name_vars(&vars);
    display_ty_with_var_names(ty, &names)
}

/// The type that a trait is implemented for, as an error shows it.
pub open spec fn target_text(args: Seq<TyV>, indexes: Seq<usize>) -> Seq<char> {
    if indexes.len() > 0 && indexes[0] < args.len() {
        pretty(args[indexes[0] as int])
    } else if args.len() > 0 {
        pretty(args[0])
    } else {
        "<unknown>"@
    }
}

fn format_trait_target_for_receiver_error(args: &Vec<Ty>, indexes: &Vec<usize>) -> (r: String)
    ensures
        r@ == target_text(tys_view(args@), indexes@),
{
    assert(tys_view(args@).len() == args@.len());
    if indexes.len() > 0 && indexes[0] < args.len() {
        assert(tys_view(args@)[indexes@[0] as int] == args@[indexes@[0] as int]@);
        pretty_method_receiver_for_error(&args[indexes[0]])
    } else if args.len() > 0 {
        assert(tys_view(args@)[0] == args@[0]@);
        pretty_method_receiver_for_error(&args[0])
    } else {
        "<unknown>".to_owned()
    }
}

/// A type name as an error shows it: arrays in brackets.
pub open spec fn target_name_text(target: Seq<char>) -> Seq<char>
    decreases target.len(),
{
    if target == "Array"@ {
        "['a]"@
    } else if starts_with(target, array_prefix()) && array_prefix().len() > 0 {
        "["@ + target_name_text(target.skip(array_prefix().len() as int)) + "]"@
    } else {
        target
    }
}

/// What the names of array types start with.
pub open spec fn array_prefix() -> Seq<char> {
    "Array__app1__"@
}

/// The element of an array type name.
fn array_element_name(target: &str) -> (r: Option<String>)
    ensures
        match r {
            Some(s) => starts_with(target@, array_prefix()) && s@ == target@.skip(
                array_prefix().len() as int,
            ),
            None => !starts_with(target@, array_prefix()),
        },
{
    if has_prefix(target, "Array__app1__") {
        let n: usize = target.unicode_len();
        proof {
            reveal_strlit("Array__app1__");
        }
        assert(array_prefix().len() == 13);
        let rest = target.substring_char(13, n);
        assert(rest@ =~= target@.skip(13));
        Some(rest.to_owned())
    } else {
        None
    }
}

fn format_inherent_target_for_error(target: &str) -> (r: String)
    ensures
        r@ == target_name_text(target@),
    decreases target@.len(),
{
    if str_eq(target, "Array") {
        return "['a]".to_owned();
    }
    proof {
        reveal_strlit("Array__app1__");
    }
    match array_element_name(target) {
        Some(element) => {
            let inner = format_inherent_target_for_error(&element);
            let mut out = "[".to_owned();
            out.append(&inner);
            out.append("]");
            out
        },
        None => target.to_owned(),
    }
}

/// The array type that a name stands for, where its elements are plain.
pub open spec fn array_receiver(target: Seq<char>) -> Option<TyV> {
    if starts_with(target, array_prefix()) {
        let element = target.skip(array_prefix().len() as int);
        if element == "int"@ {
            Some(array_of(TyV::Int))
        } else if element == "float"@ {
            Some(array_of(TyV::Float))
        } else if element == "string"@ {
            Some(array_of(TyV::Con("string"@)))
        } else if element == "bool"@ {
            Some(array_of(TyV::Con("bool"@)))
        } else {
            None
        }
    } else {
        None
    }
}

fn array_receiver_ty_from_target_key(target: &str) -> (r: Option<Ty>)
    ensures
        opt_ty(r) == array_receiver(target@),
{
    match array_element_name(target) {
        None => None,
        Some(element) => {
            if str_eq(&element, "int") {
                Some(array_ty(Ty::Int))
            } else if str_eq(&element, "float") {
                Some(array_ty(Ty::Float))
            } else if str_eq(&element, "string") {
                Some(array_ty(Ty::Con("string".to_owned())))
            } else if str_eq(&element, "bool") {
                Some(array_ty(Ty::Con("bool".to_owned())))
            } else {
                None
            }
        },
    }
}

/// How a method of a type is shown as a candidate.
pub open spec fn candidate_text(target: Seq<char>, method: Seq<char>) -> Seq<char> {
    target_name_text(target) + "."@ + method
}

/// Whether a table has a method with a receiver for a type.
pub open spec fn has_method(ms: Map<Seq<char>, MethodsV>, target: Seq<char>, method: Seq<char>) -> bool {
    ms.dom().contains(target) && ms[target].dom().contains(method)
        && ms[target][method].has_receiver
}

/// The methods of this name that take a receiver, of the types named before `i`.
pub open spec fn candidates_among(
    ms: Map<Seq<char>, MethodsV>,
    names: Seq<Seq<char>>,
    method: Seq<char>,
) -> Set<Seq<char>>
    decreases names.len(),
{
    if names.len() == 0 {
        Set::empty()
    } else {
        let rest = candidates_among(ms, names.drop_last(), method);
        if has_method(ms, names.last(), method) {
            rest.insert(candidate_text(names.last(), method))
        } else {
            rest
        }
    }
}

/// All methods of this name that take a receiver, in order.
#[verifier::opaque]
pub open spec fn method_candidates(st: InferV, method: Seq<char>) -> Seq<Seq<char>> {
    sorted_names(
        candidates_among(st.methods, sorted_names(st.methods.dom()), method).union(
            candidates_among(st.scoped_methods, sorted_names(st.scoped_methods.dom()), method),
        ),
    )
}

/// A trait with a method of a name.
pub struct CandidateV {
    pub def: TraitDefV,
    pub method: TraitMethodV,
}

/// A trait with a method of a name.
pub struct ReceiverTraitMethodMatch {
    pub trait_def: TraitDef,
    pub method: TraitMethod,
}

impl View for ReceiverTraitMethodMatch {
    type V = CandidateV;

    open spec fn view(&self) -> CandidateV {
        CandidateV { def: self.trait_def@, method: self.method@ }
    }
}

impl Clone for ReceiverTraitMethodMatch {
    fn clone(&self) -> (r: Self)
        ensures
            r@ == self@,
    {
        ReceiverTraitMethodMatch { trait_def: self.trait_def.clone(), method: self.method.clone() }
    }
}

/// The candidates that some matches are.
pub open spec fn candidates_view(s: Seq<ReceiverTraitMethodMatch>) -> Seq<CandidateV> {
    Seq::new(s.len(), |i: int| s[i]@)
}

/// The traits among these names that have a method of a name.
pub open spec fn traits_among(
    traits: Map<Seq<char>, TraitDefV>,
    names: Seq<Seq<char>>,
    method: Seq<char>,
) -> Seq<CandidateV>
    decreases names.len(),
{
    if names.len() == 0 {
        Seq::empty()
    } else {
        let rest = traits_among(traits, names.drop_last(), method);
        let def = traits[names.last()];
        match method_named(def.methods, method, 0) {
            Some(m) => rest.push(CandidateV { def, method: m }),
            None => rest,
        }
    }
}

/// The traits that have a method of a name, in the order of their names.
#[verifier::opaque]
pub open spec fn trait_candidates(st: InferV, method: Seq<char>) -> Seq<CandidateV> {
    traits_among(st.traits, sorted_names(st.traits.dom()), method)
}

/// A call of a trait method on a receiver.
pub struct ReceiverUseV {
    pub ret: TyV,
    pub callee: ResolvedCalleeV,
}

/// A call of a trait method on a receiver.
pub struct ReceiverTraitMethodResolution {
    pub ret_ty: Ty,
    pub resolved_callee: ResolvedCallee,
}

impl View for ReceiverTraitMethodResolution {
    type V = ReceiverUseV;

    open spec fn view(&self) -> ReceiverUseV {
        ReceiverUseV { ret: self.ret_ty@, callee: resolved_callee_view(self.resolved_callee) }
    }
}

/// Calls the method of a trait on a receiver and arguments of known types.
#[verifier::opaque]
pub open spec fn receiver_use(
    st: InferV,
    env: EnvV,
    receiver: TyV,
    args: Seq<TyV>,
    c: CandidateV,
) -> (InferV, Result<ReceiverUseV, SpannedV>) {
    if c.method.params.len() != args.len() + 1 {
        (
            st,
            failed(
                TypeErrorV::ArityMismatch {
                    expected: (if c.method.params.len() == 0 {
                        0
                    } else {
                        c.method.params.len() - 1
                    }) as usize,
                    got: args.len() as usize,
                },
            ),
        )
    } else {
        let f = fresh_named(st, c.def.params, Map::empty());
        let m = method_types(f.st, f.vars, types_of(c.method.params), c.method.ret_type);
        match m.err {
            Some(e) => (m.st, failed(e)),
            None => receiver_use_typed(m.st, env, receiver, args, c, f.res->Ok_0, m.params, m.ret),
        }
    }
}

/// The same, once the types of the method are read.
#[verifier::opaque]
pub open spec fn receiver_use_typed(
    st: InferV,
    env: EnvV,
    receiver: TyV,
    args: Seq<TyV>,
    c: CandidateV,
    vars: Seq<TyV>,
    params: Seq<TyV>,
    ret: TyV,
) -> (InferV, Result<ReceiverUseV, SpannedV>) {
    let u = equate(st, params[0], receiver);
    match u.1 {
        Some(e) => (u.0, failed(e)),
        None => {
            let v = equate_all(u.0, args, params.skip(1), false);
            match v.1 {
                Some(e) => (v.0, failed(e)),
                None => {
                    let trait_args = all_in(v.0, vars);
                    let f = find_dict(v.0, env, c.def.name, trait_args, dict_indexes(c.def));
                    match f.1 {
                        None => (
                            f.0,
                            failed(
                                TypeErrorV::MissingTraitImpl {
                                    trait_name: c.def.name,
                                    impl_target: target_text(trait_args, dict_indexes(c.def)),
                                },
                            ),
                        ),
                        Some(dict) => {
                            let k = check_dict_method(
                                f.0,
                                env,
                                dict,
                                c.def.name,
                                c.method.name,
                                seq![receiver] + args,
                            );
                            match k.1 {
                                Err(e) => (k.0, failed(e)),
                                Ok(checked) => {
                                    let w = match checked {
                                        Some(t) => equate(k.0, ret, t),
                                        None => (k.0, None),
                                    };
                                    match w.1 {
                                        Some(e) => (w.0, failed(e)),
                                        None => (
                                            w.0,
                                            Ok(
                                                ReceiverUseV {
                                                    ret: resolved(w.0, ret),
                                                    callee: ResolvedCalleeV::DictMethod {
                                                        dict,
                                                        method: c.method.name,
                                                    },
                                                },
                                            ),
                                        ),
                                    }
                                },
                            }
                        },
                    }
                },
            }
        },
    }
}

/// Whether a trait is implemented for a receiver, whatever the arguments are.
#[verifier::opaque]
pub open spec fn fits_receiver(st: InferV, env: EnvV, receiver: TyV, c: CandidateV) -> (InferV, bool) {
    if c.method.params.len() == 0 {
        (st, false)
    } else {
        let f = fresh_named(st, c.def.params, Map::empty());
        let w = written(f.st, f.vars, c.method.params[0].ty);
        match w.res {
            Err(_) => (w.st, false),
            Ok(t) => {
                let u = equate(w.st, t, receiver);
                if u.1 is Some {
                    (u.0, false)
                } else {
                    let d = find_dict(
                        u.0,
                        env,
                        c.def.name,
                        all_in(u.0, f.res->Ok_0),
                        dict_indexes(c.def),
                    );
                    (d.0, d.1 is Some)
                }
            },
        }
    }
}

/// The result of a function scheme.
pub open spec fn scheme_return(s: SchemeV) -> Option<TyV> {
    match s.ty {
        TyV::Func(_, ret) => Some(*ret.ty),
        _ => None,
    }
}

fn scheme_return_ty(s: &Scheme) -> (r: Option<Ty>)
    ensures
        opt_ty(r) == scheme_return(s@),
{
    match &s.ty {
        Ty::Func(_, ret) => {
            assert(crate::ty::return_view(*ret).ty == Box::new(ty_view(*ret.ty)));
            Some((*ret.ty).clone())
        },
        _ => None,
    }
}

/// A method of an array type.
pub struct ArrayMethodV {
    pub target: Seq<char>,
    pub info: MethodInfoV,
    pub receiver: TyV,
}

/// A method of an array type.
pub struct ArrayMethod {
    pub target: String,
    pub info: InherentMethodInfo,
    pub receiver: Ty,
}

impl View for ArrayMethod {
    type V = ArrayMethodV;

    open spec fn view(&self) -> ArrayMethodV {
        ArrayMethodV { target: self.target@, info: self.info@, receiver: self.receiver@ }
    }
}

/// The array methods that some values are.
pub open spec fn array_methods_view(s: Seq<ArrayMethod>) -> Seq<ArrayMethodV> {
    Seq::new(s.len(), |i: int| s[i]@)
}

/// The methods of array types with plain elements among these names, behind those
/// that were found. A type that was seen is not looked at again.
pub open spec fn array_methods_among(
    ms: Map<Seq<char>, MethodsV>,
    names: Seq<Seq<char>>,
    method: Seq<char>,
    i: nat,
    seen: Set<Seq<char>>,
    found: Seq<ArrayMethodV>,
) -> (Set<Seq<char>>, Seq<ArrayMethodV>)
    decreases names.len() - i,
{
    if i >= names.len() {
        (seen, found)
    } else {
        let target = names[i as int];
        match array_receiver(target) {
            Some(receiver) => if ms[target].dom().contains(method) && !seen.contains(target) {
                let info = ms[target][method];
                array_methods_among(
                    ms,
                    names,
                    method,
                    i + 1,
                    seen.insert(target),
                    if info.has_receiver {
                        found.push(ArrayMethodV { target, info, receiver })
                    } else {
                        found
                    },
                )
            } else {
                array_methods_among(ms, names, method, i + 1, seen, found)
            },
            None => array_methods_among(ms, names, method, i + 1, seen, found),
        }
    }
}

/// The methods whose results fit an expected type, from the one at `i` on. What a
/// trial solves is forgotten.
pub open spec fn fitting_methods(
    st: InferV,
    all: Seq<ArrayMethodV>,
    expected: TyV,
    i: nat,
    done: Seq<ArrayMethodV>,
) -> (InferV, Seq<ArrayMethodV>)
    decreases all.len() - i,
{
    if i >= all.len() {
        (st, done)
    } else {
        match scheme_return(all[i as int].info.scheme) {
            None => fitting_methods(st, all, expected, i + 1, done),
            Some(ret) => {
                let u = equate(st, ret, expected);
                fitting_methods(
                    forget(u.0, st),
                    all,
                    expected,
                    i + 1,
                    if u.1 is None {
                        done.push(all[i as int])
                    } else {
                        done
                    },
                )
            },
        }
    }
}

/// A state in which what was solved since an earlier one is forgotten.
pub open spec fn forget(st: InferV, before: InferV) -> InferV {
    InferV {
        subst: crate::subst::SubstV { map: before.subst.map, ..st.subst },
        ..st
    }
}

/// The array methods of a name.
pub open spec fn array_methods(st: InferV, method: Seq<char>) -> Seq<ArrayMethodV> {
    let own = array_methods_among(
        st.methods,
        sorted_names(st.methods.dom()),
        method,
        0,
        Set::empty(),
        Seq::empty(),
    );
    array_methods_among(
        st.scoped_methods,
        sorted_names(st.scoped_methods.dom()),
        method,
        0,
        own.0,
        own.1,
    ).1
}

/// The one array method whose result fits an expected type, if there is one.
#[verifier::opaque]
pub open spec fn array_method_for(st: InferV, method: Seq<char>, expected: TyV) -> (
    InferV,
    Option<ArrayMethodV>,
) {
    let f = fitting_methods(st, array_methods(st, method), expected, 0, Seq::empty());
    (
        f.0,
        if f.1.len() == 1 {
            Some(f.1[0])
        } else {
            None
        },
    )
}

impl Infer {
    fn candidates_in(ms: &NameMap<NameMap<InherentMethodInfo>>, method: &str, into: &mut NameSet)
        ensures
            final(into)@ == old(into)@.union(
                candidates_among(ms@, sorted_names(ms@.dom()), method@),
            ),
    {
        let names = ms.names();
        let ghost all = strings_view(names@);
        let ghost start = into@;
        let mut i: usize = 0;
        assert(all.take(0) =~= Seq::empty());
        assert(into@ =~= start.union(candidates_among(ms@, all.take(0), method@)));
        while i < names.len()
            invariant
                i <= names.len(),
                all == strings_view(names@),
                start == old(into)@,
                into@ == start.union(candidates_among(ms@, all.take(i as int), method@)),
            decreases names.len() - i,
        {
            proof {
                assert(all.take(i + 1).drop_last() =~= all.take(i as int));
                assert(all.take(i + 1).last() == names@[i as int]@);
            }
            let ghost before = candidates_among(ms@, all.take(i as int), method@);
            let ghost text = candidate_text(names@[i as int]@, method@);
            match ms.get(&names[i]) {
                Some(methods) => match methods.get(method) {
                    Some(info) => {
                        if info.has_receiver {
                            let mut shown = format_inherent_target_for_error(&names[i]);
                            shown.append(".");
                            shown.append(method);
                            into.insert(shown);
                            assert(into@ =~= start.union(before.insert(text)));
                        }
                    },
                    None => {},
                },
                None => {},
            }
            i = i + 1;
        }
        assert(all.take(all.len() as int) =~= all);
    }

    /// All methods of this name that take a receiver, in order.
    pub fn inherent_method_candidates(&self, method: &str) -> (r: Vec<String>)
        ensures
            strings_view(r@) == method_candidates(self@, method@),
    {
        proof {
            reveal(method_candidates);
        }
        let mut found = NameSet::new();
        Self::candidates_in(&self.inherent.methods, method, &mut found);
        Self::candidates_in(&self.inherent.scoped_methods, method, &mut found);
        assert(found@ =~= candidates_among(
            self@.methods,
            sorted_names(self@.methods.dom()),
            method@,
        ).union(
            candidates_among(
                self@.scoped_methods,
                sorted_names(self@.scoped_methods.dom()),
                method@,
            ),
        ));
        found.names()
    }

    /// The traits that have a method of a name, in the order of their names.
    pub fn receiver_trait_method_candidates(&self, method: &str) -> (r: Vec<
        ReceiverTraitMethodMatch,
    >)
        ensures
            candidates_view(r@) == trait_candidates(self@, method@),
    {
        proof {
            reveal(trait_candidates);
        }
        let names = self.traits.env.names();
        let ghost all = strings_view(names@);
        let ghost traits = self@.traits;
        let mut out: Vec<ReceiverTraitMethodMatch> = Vec::new();
        let mut i: usize = 0;
        assert(all.take(0) =~= Seq::empty());
        assert(candidates_view(out@) =~= Seq::empty());
        while i < names.len()
            invariant
                i <= names.len(),
                all == strings_view(names@),
                traits == self@.traits,
                forall|n: Seq<char>| #[trigger] all.contains(n) <==> traits.dom().contains(n),
                candidates_view(out@) == traits_among(traits, all.take(i as int), method@),
            decreases names.len() - i,
        {
            proof {
                assert(all.take(i + 1).drop_last() =~= all.take(i as int));
                assert(all[i as int] == names@[i as int]@);
                assert(all.contains(all[i as int]));
            }
            let ghost before = candidates_view(out@);
            match self.traits.env.get(&names[i]) {
                Some(def) => match find_trait_method(def, method) {
                    Some(m) => {
                        let c = ReceiverTraitMethodMatch {
                            trait_def: def.clone(),
                            method: m.clone(),
                        };
                        let ghost cv = c@;
                        out.push(c);
                        assert(candidates_view(out@) =~= before.push(cv));
                    },
                    None => {},
                },
                None => {},
            }
            i = i + 1;
        }
        assert(all.take(all.len() as int) =~= all);
        out
    }

    /// Calls the method of a trait on a receiver and arguments of known types.
    pub fn try_receiver_trait_method(
        &mut self,
        env: &TypeEnv,
        receiver: &Ty,
        args: &Vec<Ty>,
        c: &ReceiverTraitMethodMatch,
    ) -> (r: Result<ReceiverTraitMethodResolution, SpannedTypeError>)
        requires
            old(self).wf(),
        ensures
            final(self).wf(),
            (final(self)@, view_res(r)) == receiver_use(
                old(self)@,
                env@,
                receiver@,
                tys_view(args@),
                c@,
            ),
    {
        proof {
            reveal(receiver_use);
        }
        assert(tys_view(args@).len() == args@.len());
        assert(c@.method.params.len() == c.method.params@.len());
        if c.method.params.len() == 0 || c.method.params.len() - 1 != args.len() {
            let expected: usize = if c.method.params.len() == 0 {
                0
            } else {
                c.method.params.len() - 1
            };
            return Err(TypeError::ArityMismatch { expected, got: args.len() }.unspanned());
        }
        let mut vars: NameMap<TyVar> = NameMap::new();
        let trait_vars = self.fresh_named(&c.trait_def.params, &mut vars);
        let types = method_param_types(&c.method);
        match self.method_types(&types, &c.method.ret_type, &mut vars) {
            Err(e) => Err(e.unspanned()),
            Ok((params, ret)) => self.receiver_use_typed(
                env,
                receiver,
                args,
                c,
                &trait_vars,
                &params,
                &ret,
            ),
        }
    }

    fn receiver_use_typed(
        &mut self,
        env: &TypeEnv,
        receiver: &Ty,
        args: &Vec<Ty>,
        c: &ReceiverTraitMethodMatch,
        vars: &Vec<Ty>,
        params: &Vec<Ty>,
        ret: &Ty,
    ) -> (r: Result<ReceiverTraitMethodResolution, SpannedTypeError>)
        requires
            old(self).wf(),
            params@.len() > 0,
        ensures
            final(self).wf(),
            (final(self)@, view_res(r)) == receiver_use_typed(
                old(self)@,
                env@,
                receiver@,
                tys_view(args@),
                c@,
                tys_view(vars@),
                tys_view(params@),
                ret@,
            ),
    {
        proof {
            reveal(receiver_use_typed);
        }
        let (first, rest) = first_and_rest(params);
        match self.equate(first, receiver.clone()) {
            Err(e) => {
                return Err(e.unspanned());
            },
            Ok(_) => {},
        }
        match self.equate_all(args, &rest, false) {
            Err(e) => {
                return Err(e.unspanned());
            },
            Ok(_) => {},
        }
        let trait_args = self.resolve_all(vars);
        let indexes = trait_dict_indexes(&c.trait_def);
        let found = self.find_dict(env, &c.trait_def.name, &trait_args, &indexes);
        match found {
            None => Err(
                TypeError::MissingTraitImpl {
                    trait_name: c.trait_def.name.clone(),
                    impl_target: format_trait_target_for_receiver_error(&trait_args, &indexes),
                }.unspanned(),
            ),
            Some(dict) => {
                assert(some_dict_ref_view(found) == Some(dict_ref_view(dict)));
                let mut all_args: Vec<Ty> = Vec::new();
                all_args.push(receiver.clone());
                let mut rest_args = clone_tys(args);
                all_args.append(&mut rest_args);
                assert(tys_view(all_args@) =~= seq![receiver@] + tys_view(args@)) by {
                    assert(tys_view(rest_args@).len() == 0);
                }
                match self.check_dict_method(
                    env,
                    &dict,
                    &c.trait_def.name,
                    &c.method.name,
                    &all_args,
                ) {
                    Err(e) => {
                        return Err(e.unspanned());
                    },
                    Ok(Some(checked)) => {
                        match self.equate(ret.clone(), checked) {
                            Err(e) => {
                                return Err(e.unspanned());
                            },
                            Ok(_) => {},
                        }
                    },
                    Ok(None) => {},
                }
                let ret_ty = self.resolve(ret);
                let resolved_callee = ResolvedCallee::DictMethod {
                    dict,
                    method: c.method.name.clone(),
                };
                Ok(ReceiverTraitMethodResolution { ret_ty, resolved_callee })
            },
        }
    }

    /// Whether a trait is implemented for a receiver, whatever the arguments are.
    pub fn receiver_trait_method_matches_receiver(
        &mut self,
        env: &TypeEnv,
        receiver: &Ty,
        c: &ReceiverTraitMethodMatch,
    ) -> (r: bool)
        requires
            old(self).wf(),
        ensures
            final(self).wf(),
            (final(self)@, r) == fits_receiver(old(self)@, env@, receiver@, c@),
    {
        proof {
            reveal(fits_receiver);
        }
        assert(c@.method.params.len() == c.method.params@.len());
        if c.method.params.len() == 0 {
            return false;
        }
        assert(c@.method.params[0] == named_type_view(c.method.params@[0]));
        let mut vars: NameMap<TyVar> = NameMap::new();
        let trait_vars = self.fresh_named(&c.trait_def.params, &mut vars);
        match self.written(&c.method.params[0].ty, &mut vars) {
            Err(_) => false,
            Ok(t) => match self.equate(t, receiver.clone()) {
                Err(_) => false,
                Ok(_) => {
                    let trait_args = self.resolve_all(&trait_vars);
                    let indexes = trait_dict_indexes(&c.trait_def);
                    self.find_dict(env, &c.trait_def.name, &trait_args, &indexes).is_some()
                },
            },
        }
    }

    fn array_methods_in(
        ms: &NameMap<NameMap<InherentMethodInfo>>,
        method: &str,
        seen: &mut NameSet,
        found: &mut Vec<ArrayMethod>,
    )
        ensures
            (final(seen)@, array_methods_view(final(found)@)) == array_methods_among(
                ms@,
                sorted_names(ms@.dom()),
                method@,
                0,
                old(seen)@,
                array_methods_view(old(found)@),
            ),
    {
        let names = ms.names();
        let ghost all = strings_view(names@);
        let ghost want = array_methods_among(
            ms@,
            all,
            method@,
            0,
            seen@,
            array_methods_view(found@),
        );
        let mut i: usize = 0;
        while i < names.len()
            invariant
                i <= names.len(),
                all == strings_view(names@),
                forall|n: Seq<char>| #[trigger] all.contains(n) <==> ms@.dom().contains(n),
                want == array_methods_among(
                    ms@,
                    all,
                    method@,
                    i as nat,
                    seen@,
                    array_methods_view(found@),
                ),
            decreases names.len() - i,
        {
            proof {
                assert(all[i as int] == names@[i as int]@);
                assert(all.contains(all[i as int]));
            }
            let ghost before = array_methods_view(found@);
            let ghost seen_before = seen@;
            match array_receiver_ty_from_target_key(&names[i]) {
                Some(receiver) => match ms.get(&names[i]) {
                    Some(methods) => match methods.get(method) {
                        Some(info) => {
                            if seen.insert(names[i].clone()) {
                                if info.has_receiver {
                                    let m = ArrayMethod {
                                        target: names[i].clone(),
                                        info: info.clone(),
                                        receiver,
                                    };
                                    let ghost mv = m@;
                                    found.push(m);
                                    assert(array_methods_view(found@) =~= before.push(mv));
                                }
                            } else {
                                assert(seen@ =~= seen_before);
                            }
                        },
                        None => {},
                    },
                    None => {},
                },
                None => {},
            }
            i = i + 1;
        }
    }

    /// The one array method whose result fits an expected type, if there is one.
    pub fn array_method_matching_expected_return(&mut self, method: &str, expected: &Ty) -> (r:
        Option<ArrayMethod>)
        requires
            old(self).wf(),
        ensures
            final(self).wf(),
            final(self)@ == array_method_for(old(self)@, method@, expected@).0,
            match (r, array_method_for(old(self)@, method@, expected@).1) {
                (Some(a), Some(b)) => a@ == b,
                (None, None) => true,
                _ => false,
            },
    {
        proof {
            reveal(array_method_for);
        }
        let mut seen = NameSet::new();
        let mut all: Vec<ArrayMethod> = Vec::new();
        assert(array_methods_view(all@) =~= Seq::empty());
        Self::array_methods_in(&self.inherent.methods, method, &mut seen, &mut all);
        Self::array_methods_in(&self.inherent.scoped_methods, method, &mut seen, &mut all);
        let ghost allv = array_methods_view(all@);
        assert(allv == array_methods(self@, method@));
        let mut out = self.fitting(&all, expected);
        assert(array_methods_view(out@).len() == out@.len());
        if out.len() == 1 {
            assert(array_methods_view(out@)[0] == out@[0]@);
            out.pop()
        } else {
            None
        }
    }

    fn fitting(&mut self, all: &Vec<ArrayMethod>, expected: &Ty) -> (r: Vec<ArrayMethod>)
        requires
            old(self).wf(),
        ensures
            final(self).wf(),
            (final(self)@, array_methods_view(r@)) == fitting_methods(
                old(self)@,
                array_methods_view(all@),
                expected@,
                0,
                Seq::empty(),
            ),
    {
        let ghost allv = array_methods_view(all@);
        let ghost want = fitting_methods(self@, allv, expected@, 0, Seq::empty());
        let mut out: Vec<ArrayMethod> = Vec::new();
        let mut i: usize = 0;
        assert(array_methods_view(out@) =~= Seq::empty());
        while i < all.len()
            invariant
                i <= all.len(),
                self.wf(),
                allv == array_methods_view(all@),
                want == fitting_methods(old(self)@, allv, expected@, 0, Seq::empty()),
                want == fitting_methods(
                    self@,
                    allv,
                    expected@,
                    i as nat,
                    array_methods_view(out@),
                ),
            decreases all.len() - i,
        {
            assert(allv[i as int] == all@[i as int]@);
            let ghost before = array_methods_view(out@);
            match scheme_return_ty(&all[i].info.scheme) {
                None => {},
                Some(ret) => {
                    let mark = self.subst.checkpoint();
                    let matched = self.equate(ret, expected.clone()).is_ok();
                    self.subst.restore_checkpoint(mark);
                    if matched {
                        let m = ArrayMethod {
                            target: all[i].target.clone(),
                            info: all[i].info.clone(),
                            receiver: all[i].receiver.clone(),
                        };
                        let ghost mv = m@;
                        out.push(m);
                        assert(array_methods_view(out@) =~= before.push(mv));
                    }
                },
            }
            i = i + 1;
        }
        out
    }
}

/// The first of some types, and the others.
fn first_and_rest(tys: &Vec<Ty>) -> (r: (Ty, Vec<Ty>))
    requires
        tys@.len() > 0,
    ensures
        r.0@ == tys_view(tys@)[0],
        tys_view(r.1@) == tys_view(tys@).skip(1),
{
    let ghost all = tys_view(tys@);
    let mut rest: Vec<Ty> = Vec::new();
    let mut i: usize = 1;
    while i < tys.len()
        invariant
            1 <= i <= tys.len(),
            all == tys_view(tys@),
            rest@.len() == i - 1,
            forall|j: int| 0 <= j < rest@.len() ==> (#[trigger] rest@[j])@ == all[j + 1],
        decreases tys.len() - i,
    {
        assert(all[i as int] == tys@[i as int]@);
        rest.push(tys[i].clone());
        i = i + 1;
    }
    assert(tys_view(rest@) =~= all.skip(1));
    assert(all[0] == tys@[0]@);
    (tys[0].clone(), rest)
}

} // verus!
