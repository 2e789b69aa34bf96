//! Looking up `Type::member` and members of traits.

use vstd::prelude::*;

use crate::ast::{DictRef, SourceSpan, TraitDef, TraitMethod, Type};
use crate::ast_view::{dict_ref_view, some_dict_ref_view, type_view, types_view, DictRefV};
use crate::ast_view::{ResolvedCalleeV, TraitDefV, TraitMethodV, TypeV};
use crate::convert::{fill_all, fill_params_in_order, ty_result, tys_result, ConvV, VarNames};
use crate::dict_uses::{all_shown, show_types};
use crate::dispatch::{find_trait_method, method_named, method_param_types, method_types};
use crate::dispatch::{types_of, unresolved};
use crate::env::{EnvV, TypeEnv};
use crate::error::{error_at, SpannedTypeError, SpannedV, TypeError, TypeErrorV};
use crate::schemes::{instance, qualified, value_of, InstanceV, InstantiatedScheme};
use crate::state::{fresh, Infer, InferV, InherentMethodInfo, MethodInfoV};
use crate::steps::{equate, failed_at, find_dict, resolved, written};
use crate::tables::NameMap;
use crate::text::{join, join_strings, str_eq, strings_view};
use crate::ty::{clone_constraints, clone_tys, constraint_view, constraints_view, tys_view};
use crate::ty::{ty_view, ConstraintV, TraitConstraint, Ty, TyV, TyVar};
use crate::ty_helpers::{constraints_on, fresh_named, func_receiver_param, opt_ty, plain_func};
use crate::ty_helpers::{primary_trait_var, primary_var, receiver_param, split_qualified};
use crate::ty_helpers::{value_func, without_constraints};
use crate::type_syntax::{dict_indexes, inherent_impl_target_keys_from_ast, inherent_keys};
use crate::type_syntax::trait_dict_indexes;
use crate::unify::error_of;

verus! {

/// A method of a type.
pub open spec fn method_in(st: InferV, key: Seq<char>, member: Seq<char>) -> Option<MethodInfoV> {
    if st.methods.dom().contains(key) && st.methods[key].dom().contains(member) {
        Some(st.methods[key][member])
    } else if st.scoped_methods.dom().contains(key) && st.scoped_methods[key].dom().contains(
        member,
    ) {
        Some(st.scoped_methods[key][member])
    } else {
        None
    }
}

/// The first of the names of a type that has a method, from the one at `i` on.
pub open spec fn key_with_method(st: InferV, keys: Seq<Seq<char>>, member: Seq<char>, i: nat) -> Option<
    nat,
>
    decreases keys.len() - i,
{
    if i >= keys.len() {
        None
    } else if method_in(st, keys[i as int], member) is Some {
        Some(i)
    } else {
        key_with_method(st, keys, member, i + 1)
    }
}

/// A member that is defined for a type itself.
#[verifier::opaque]
pub open spec fn inherent_member(
    st: InferV,
    target: TypeV,
    target_span: SourceSpan,
    member: Seq<char>,
    member_span: SourceSpan,
) -> Result<MethodInfoV, SpannedV> {
    match inherent_keys(target, st.declared) {
        Err(e) => failed_at(e, target_span),
        Ok(keys) => match key_with_method(st, keys, member, 0) {
            Some(i) => Ok(method_in(st, keys[i as int], member)->Some_0),
            None => failed_at(
                TypeErrorV::UnknownAssociatedFunction { target: keys[0], function: member },
                member_span,
            ),
        },
    }
}

/// A use of a method of a type: its type, what it asks for, and the type of it as a
/// value.
pub struct InherentUseV {
    pub callable: TyV,
    pub constraints: Seq<ConstraintV>,
}

/// A use of a method of a type.
#[verifier::opaque]
pub open spec fn inherent_use(
    st: InferV,
    target: TypeV,
    target_span: SourceSpan,
    info: MethodInfoV,
) -> (InferV, Result<InherentUseV, SpannedV>) {
    let inst = instance(st, info.scheme);
    let constraints = inst.1.constraints + constraints_on(inst.1.ty);
    let callable = without_constraints(inst.1.ty);
    if info.has_receiver && target is App {
        let w = written(inst.0, Map::empty(), target);
        match w.res {
            Err(e) => (w.st, failed_at(e, target_span)),
            Ok(receiver) => match receiver_param(callable) {
                None => (w.st, failed_at(TypeErrorV::NotAFunction(callable), target_span)),
                Some(param) => {
                    let u = equate(w.st, param, receiver);
                    match u.1 {
                        Some(e) => (u.0, failed_at(e, target_span)),
                        None => (
                            u.0,
                            Ok(InherentUseV { callable: resolved(u.0, callable), constraints }),
                        ),
                    }
                },
            },
        }
    } else {
        (inst.0, Ok(InherentUseV { callable, constraints }))
    }
}

/// A type under constraints, if there are any.
pub open spec fn under(constraints: Seq<ConstraintV>, ty: TyV) -> TyV {
    value_of(InstanceV { ty, constraints })
}

pub fn under_constraints(constraints: &Vec<TraitConstraint>, ty: &Ty) -> (r: Ty)
    ensures
        r@ == under(constraints_view(constraints@), ty@),
{
    qualified(
        InstantiatedScheme { ty: ty.clone(), constraints: clone_constraints(constraints) },
    )
}

/// A method of a trait, and the arguments that the trait was written with.
pub struct LookupV {
    pub def: TraitDefV,
    pub method: TraitMethodV,
    pub explicit: Option<Seq<TypeV>>,
}

/// The name of a trait that a member is looked up in.
pub open spec fn trait_target(target: TypeV) -> Option<Seq<char>> {
    match target {
        TypeV::Ident(name) => Some(name),
        TypeV::App(con, _) => match *con {
            TypeV::Ident(name) => Some(name),
            _ => None,
        },
        _ => None,
    }
}

/// The arguments that a trait was written with.
pub open spec fn explicit_args(target: TypeV) -> Option<Seq<TypeV>> {
    match target {
        TypeV::App(_, args) => Some(args),
        _ => None,
    }
}

/// A member of a trait, if the target names one.
#[verifier::opaque]
pub open spec fn trait_member(
    st: InferV,
    target: TypeV,
    member: Seq<char>,
    member_span: SourceSpan,
) -> Result<Option<LookupV>, SpannedV> {
    match trait_target(target) {
        None => Ok(None),
        Some(name) => if !st.traits.dom().contains(name) {
            Ok(None)
        } else {
            match method_named(st.traits[name].methods, member, 0) {
                None => failed_at(
                    TypeErrorV::UnknownTraitMethod { trait_name: name, method: member },
                    member_span,
                ),
                Some(method) => Ok(
                    Some(
                        LookupV { def: st.traits[name], method, explicit: explicit_args(target) },
                    ),
                ),
            }
        },
    }
}

/// Reads the arguments that a trait was written with, from the one at `i` on. An
/// argument that is a variable is what the parameter stands for.
pub open spec fn read_explicit(
    st: InferV,
    vars: VarNames,
    params: Seq<Seq<char>>,
    args: Seq<TypeV>,
    i: nat,
    done: Seq<TyV>,
) -> ConvV<Seq<TyV>>
    decreases args.len() - i,
{
    if i >= args.len() {
        ConvV { st, vars, res: Ok(done) }
    } else {
        let w = written(st, vars, args[i as int]);
        match w.res {
            Err(e) => ConvV { st: w.st, vars: w.vars, res: Err(e) },
            Ok(t) => read_explicit(
                w.st,
                match t {
                    TyV::Var(v) => w.vars.insert(params[i as int], v),
                    _ => w.vars,
                },
                params,
                args,
                i + 1,
                done.push(t),
            ),
        }
    }
}

/// Types with arguments in place of parameters.
pub open spec fn all_filled(tys: Seq<TypeV>, params: Seq<Seq<char>>, args: Seq<TypeV>) -> Seq<TypeV> {
    Seq::new(tys.len(), |i: int| fill_all(tys[i], params, args, 0))
}

/// A use of a trait method as a value.
pub struct TraitUseV {
    pub callable: TyV,
    pub constraints: Seq<ConstraintV>,
    pub dict: Option<DictRefV>,
}

/// The arguments of the trait of a use.
pub open spec fn use_args(st: InferV, def: TraitDefV, explicit: Option<Seq<TypeV>>) -> ConvV<Seq<TyV>> {
    match explicit {
        Some(args) => read_explicit(st, Map::empty(), def.params, args, 0, Seq::empty()),
        None => fresh_named(st, def.params, Map::empty()),
    }
}

/// The types of the method of a use.
pub open spec fn use_types(
    st: InferV,
    vars: VarNames,
    def: TraitDefV,
    method: TraitMethodV,
    explicit: Option<Seq<TypeV>>,
) -> crate::dispatch::MethodTypesV {
    match explicit {
        Some(args) => method_types(
            st,
            vars,
            all_filled(types_of(method.params), def.params, args),
            fill_all(method.ret_type, def.params, args, 0),
        ),
        None => method_types(st, vars, types_of(method.params), method.ret_type),
    }
}

/// A use of a trait method as a value.
#[verifier::opaque]
pub open spec fn trait_use(
    st: InferV,
    env: EnvV,
    def: TraitDefV,
    method: TraitMethodV,
    explicit: Option<Seq<TypeV>>,
    span: SourceSpan,
) -> (InferV, Result<TraitUseV, SpannedV>) {
    if explicit is Some && explicit->Some_0.len() != def.params.len() {
        (
            st,
            failed_at(
                TypeErrorV::TraitArityMismatch {
                    trait_name: def.name,
                    expected: def.params.len() as usize,
                    got: explicit->Some_0.len() as usize,
                },
                span,
            ),
        )
    } else {
        let a = use_args(st, def, explicit);
        match a.res {
            Err(e) => (a.st, failed_at(e, span)),
            Ok(args) => {
                let m = use_types(a.st, a.vars, def, method, explicit);
                match m.err {
                    Some(e) => (m.st, failed_at(e, span)),
                    None => {
                        let callable = plain_func(m.params, m.ret);
                        let indexes = dict_indexes(def);
                        if explicit is Some {
                            let f = find_dict(m.st, env, def.name, args, indexes);
                            match f.1 {
                                None => (
                                    f.0,
                                    failed_at(
                                        TypeErrorV::MissingTraitImpl {
                                            trait_name: def.name,
                                            impl_target: join(all_shown(args), ", "@),
                                        },
                                        span,
                                    ),
                                ),
                                Some(dict) => (
                                    f.0,
                                    Ok(
                                        TraitUseV {
                                            callable,
                                            constraints: Seq::empty(),
                                            dict: Some(dict),
                                        },
                                    ),
                                ),
                            }
                        } else {
                            match primary_var(args, indexes) {
                                None => (
                                    m.st,
                                    failed_at(unresolved("trait method value"@, def.name), span),
                                ),
                                Some(var) => (
                                    m.st,
                                    Ok(
                                        TraitUseV {
                                            callable,
                                            constraints: seq![
                                                ConstraintV {
                                                    var,
                                                    trait_name: def.name,
                                                    args,
                                                    determinant_indexes: indexes,
                                                },
                                            ],
                                            dict: None,
                                        },
                                    ),
                                ),
                            }
                        }
                    },
                }
            },
        }
    }
}

/// A use of a method of a type.
pub struct AssociatedInherentMethodInstance {
    pub callable_ty: Ty,
    pub constraints: Vec<TraitConstraint>,
}

/// A use of a trait method as a value.
pub struct AssociatedTraitMethodInstance {
    pub callable_ty: Ty,
    pub constraints: Vec<TraitConstraint>,
    pub dict: Option<DictRef>,
}

/// A method of a trait, and the arguments that the trait was written with.
pub struct AssociatedTraitMethodLookup {
    pub trait_def: TraitDef,
    pub method: TraitMethod,
    pub explicit_args: Option<Vec<Type>>,
}

/// The views of optional types.
pub open spec fn opt_types(r: Option<Vec<Type>>) -> Option<Seq<TypeV>> {
    match r {
        Some(t) => Some(types_view(t@)),
        None => None,
    }
}

impl View for AssociatedTraitMethodLookup {
    type V = LookupV;

    open spec fn view(&self) -> LookupV {
        LookupV {
            def: self.trait_def@,
            method: self.method@,
            explicit: opt_types(self.explicit_args),
        }
    }
}

impl View for AssociatedInherentMethodInstance {
    type V = InherentUseV;

    open spec fn view(&self) -> InherentUseV {
        InherentUseV {
            callable: self.callable_ty@,
            constraints: constraints_view(self.constraints@),
        }
    }
}

impl View for AssociatedTraitMethodInstance {
    type V = TraitUseV;

    open spec fn view(&self) -> TraitUseV {
        TraitUseV {
            callable: self.callable_ty@,
            constraints: constraints_view(self.constraints@),
            dict: some_dict_ref_view(self.dict),
        }
    }
}

/// A viewed result.
pub open spec fn view_res<T: View>(r: Result<T, SpannedTypeError>) -> Result<T::V, SpannedV> {
    match r {
        Ok(x) => Ok(x@),
        Err(e) => Err(e@),
    }
}

/// A lookup or an error.
pub open spec fn lookup_res(
    r: Result<Option<AssociatedTraitMethodLookup>, SpannedTypeError>,
) -> Result<Option<LookupV>, SpannedV> {
    match r {
        Ok(Some(x)) => Ok(Some(x@)),
        Ok(None) => Ok(None),
        Err(e) => Err(e@),
    }
}

impl Infer {
    /// A method of a type.
    pub fn method_of(&self, key: &str, member: &str) -> (r: Option<InherentMethodInfo>)
        ensures
            match (r, method_in(self@, key@, member@)) {
                (Some(a), Some(b)) => a@ == b,
                (None, None) => true,
                _ => false,
            },
    {
        match self.inherent.methods.get(key) {
            Some(ms) => match ms.get(member) {
                Some(info) => {
                    return Some(info.clone());
                },
                None => {},
            },
            None => {},
        }
        match self.inherent.scoped_methods.get(key) {
            Some(ms) => match ms.get(member) {
                Some(info) => Some(info.clone()),
                None => None,
            },
            None => None,
        }
    }

    /// The first of the names of a type that has a method.
    pub fn key_with_method(&self, keys: &Vec<String>, member: &str) -> (r: Option<usize>)
        ensures
            match (r, key_with_method(self@, strings_view(keys@), member@, 0)) {
                (Some(a), Some(b)) => a == b && a < keys@.len(),
                (None, None) => true,
                _ => false,
            },
            r matches Some(a) ==> method_in(self@, keys@[a as int]@, member@) is Some,
    {
        let ghost all = strings_view(keys@);
        let mut i: usize = 0;
        while i < keys.len()
            invariant
                i <= keys.len(),
                all == strings_view(keys@),
                key_with_method(self@, all, member@, 0) == key_with_method(
                    self@,
                    all,
                    member@,
                    i as nat,
                ),
            decreases keys.len() - i,
        {
            assert(all[i as int] == keys@[i as int]@);
            if self.method_of(&keys[i], member).is_some() {
                return Some(i);
            }
            i = i + 1;
        }
        None
    }

    /// A member that is defined for a type itself.
    pub fn associated_inherent_method(
        &self,
        target: &Type,
        target_span: SourceSpan,
        member: &str,
        member_span: SourceSpan,
    ) -> (r: Result<InherentMethodInfo, SpannedTypeError>)
        ensures
            view_res(r) == inherent_member(self@, target@, target_span, member@, member_span),
    {
        proof {
            reveal(inherent_member);
        }
        match inherent_impl_target_keys_from_ast(target, &self.types.declared) {
            Err(e) => Err(e.at(target_span)),
            Ok(keys) => {
                match self.key_with_method(&keys, member) {
                    Some(i) => {
                        assert(strings_view(keys@)[i as int] == keys@[i as int]@);
                        match self.method_of(&keys[i], member) {
                            Some(info) => {
                                return Ok(info);
                            },
                            None => {},
                        }
                    },
                    None => {},
                }
                assert(strings_view(keys@)[0] == keys@[0]@);
                Err(
                    TypeError::UnknownAssociatedFunction {
                        target: keys[0].clone(),
                        function: member.to_owned(),
                    }.at(member_span),
                )
            },
        }
    }

    /// A use of a method of a type.
    pub fn instantiate_associated_inherent_method(
        &mut self,
        target: &Type,
        target_span: SourceSpan,
        info: &InherentMethodInfo,
    ) -> (r: Result<AssociatedInherentMethodInstance, SpannedTypeError>)
        requires
            old(self).wf(),
        ensures
            final(self).wf(),
            (final(self)@, view_res(r)) == inherent_use(
                old(self)@,
                target@,
                target_span,
                info@,
            ),
    {
        proof {
            reveal(inherent_use);
        }
        let inst = self.instantiate_scheme(&info.scheme);
        let ghost instv = inst@;
        let mut constraints = inst.constraints;
        let (mut existing, callable) = split_qualified(inst.ty);
        let ghost first = constraints_view(constraints@);
        let ghost second = constraints_view(existing@);
        constraints.append(&mut existing);
        assert(constraints_view(constraints@) =~= first + second);
        let applied = match target {
            Type::App(_, _) => true,
            _ => false,
        };
        if info.has_receiver && applied {
            let mut vars: NameMap<TyVar> = NameMap::new();
            match self.written(target, &mut vars) {
                Err(e) => Err(e.at(target_span)),
                Ok(receiver) => match func_receiver_param(&callable) {
                    None => Err(TypeError::NotAFunction(callable).at(target_span)),
                    Some(param) => match self.equate(param, receiver) {
                        Err(e) => Err(e.at(target_span)),
                        Ok(_) => {
                            let callable_ty = self.resolve(&callable);
                            Ok(AssociatedInherentMethodInstance { callable_ty, constraints })
                        },
                    },
                },
            }
        } else {
            Ok(AssociatedInherentMethodInstance { callable_ty: callable, constraints })
        }
    }

    /// A member of a trait, if the target names one.
    pub fn associated_trait_method(&self, target: &Type, member: &str, member_span: SourceSpan) -> (r:
        Result<Option<AssociatedTraitMethodLookup>, SpannedTypeError>)
        ensures
            lookup_res(r) == trait_member(self@, target@, member@, member_span),
    {
        proof {
            reveal(trait_member);
        }
        let name: &String = match target {
            Type::Ident(name) => name,
            Type::App(con, _) => match &**con {
                Type::Ident(name) => {
                    assert(type_view(**con) == TypeV::Ident(name@));
                    name
                },
                _ => {
                    return Ok(None);
                },
            },
            _ => {
                return Ok(None);
            },
        };
        match self.traits.env.get(name) {
            None => Ok(None),
            Some(def) => match find_trait_method(def, member) {
                None => Err(
                    TypeError::UnknownTraitMethod {
                        trait_name: name.clone(),
                        method: member.to_owned(),
                    }.at(member_span),
                ),
                Some(method) => {
                    let explicit_args = match target {
                        Type::App(_, args) => Some(clone_types(args)),
                        _ => None,
                    };
                    let found = AssociatedTraitMethodLookup {
                        trait_def: def.clone(),
                        method: method.clone(),
                        explicit_args,
                    };
                    Ok(Some(found))
                },
            },
        }
    }

    fn read_explicit(
        &mut self,
        params: &Vec<String>,
        args: &Vec<Type>,
        vars: &mut NameMap<TyVar>,
    ) -> (r: Result<Vec<Ty>, TypeError>)
        requires
            old(self).wf(),
            params@.len() == args@.len(),
        ensures
            final(self).wf(),
            (ConvV { st: final(self)@, vars: final(vars)@, res: tys_result(r) })
                == read_explicit(
                old(self)@,
                old(vars)@,
                strings_view(params@),
                types_view(args@),
                0,
                Seq::empty(),
            ),
    {
        let ghost ps = strings_view(params@);
        let ghost all = types_view(args@);
        let ghost want = read_explicit(self@, vars@, ps, all, 0, Seq::empty());
        let mut out: Vec<Ty> = Vec::new();
        let mut i: usize = 0;
        assert(tys_view(out@) =~= Seq::empty());
        while i < args.len()
            invariant
                i <= args.len(),
                params@.len() == args@.len(),
                self.wf(),
                ps == strings_view(params@),
                all == types_view(args@),
                all.len() == args@.len(),
                want == read_explicit(old(self)@, old(vars)@, ps, all, 0, Seq::empty()),
                want == read_explicit(self@, vars@, ps, all, i as nat, tys_view(out@)),
            decreases args.len() - i,
        {
            assert(all[i as int] == type_view(args@[i as int]));
            assert(ps[i as int] == params@[i as int]@);
            let ghost before = tys_view(out@);
            match self.written(&args[i], vars) {
                Err(e) => {
                    return Err(e);
                },
                Ok(t) => {
                    match &t {
                        Ty::Var(v) => {
                            vars.insert(params[i].clone(), *v);
                        },
                        _ => {},
                    }
                    let ghost tv = t@;
                    out.push(t);
                    assert(tys_view(out@) =~= before.push(tv));
                },
            }
            i = i + 1;
        }
        Ok(out)
    }

    /// A use of a trait method as a value.
    pub fn instantiate_associated_trait_method(
        &mut self,
        env: &TypeEnv,
        def: &TraitDef,
        method: &TraitMethod,
        explicit: &Option<Vec<Type>>,
        span: SourceSpan,
    ) -> (r: Result<AssociatedTraitMethodInstance, SpannedTypeError>)
        requires
            old(self).wf(),
        ensures
            final(self).wf(),
            (final(self)@, view_res(r)) == trait_use(
                old(self)@,
                env@,
                def@,
                method@,
                opt_types(*explicit),
                span,
            ),
    {
        proof {
            reveal(trait_use);
        }
        assert(def@.params.len() == def.params@.len());
        if let Some(args) = explicit {
            assert(types_view(args@).len() == args@.len());
            if args.len() != def.params.len() {
                return Err(
                    TypeError::TraitArityMismatch {
                        trait_name: def.name.clone(),
                        expected: def.params.len(),
                        got: args.len(),
                    }.at(span),
                );
            }
        }
        let mut vars: NameMap<TyVar> = NameMap::new();
        let trait_args = match explicit {
            Some(args) => match self.read_explicit(&def.params, args, &mut vars) {
                Err(e) => {
                    return Err(e.at(span));
                },
                Ok(tys) => tys,
            },
            None => self.fresh_named(&def.params, &mut vars),
        };
        let found = match explicit {
            Some(args) => {
                let types = method_param_types(method);
                let filled = fill_types(&types, &def.params, args);
                let ret = fill_params_in_order(&method.ret_type, &def.params, args);
                self.method_types(&filled, &ret, &mut vars)
            },
            None => {
                let types = method_param_types(method);
                self.method_types(&types, &method.ret_type, &mut vars)
            },
        };
        let (params, ret) = match found {
            Err(e) => {
                return Err(e.at(span));
            },
            Ok(pair) => pair,
        };
        let callable_ty = value_func(&params, &ret);
        let indexes = trait_dict_indexes(def);
        if explicit.is_some() {
            let dict = self.find_dict(env, &def.name, &trait_args, &indexes);
            match dict {
                None => {
                    let shown = show_types(&trait_args);
                    Err(
                        TypeError::MissingTraitImpl {
                            trait_name: def.name.clone(),
                            impl_target: join_strings(&shown, ", "),
                        }.at(span),
                    )
                },
                Some(d) => {
                    let constraints: Vec<TraitConstraint> = Vec::new();
                    assert(constraints_view(constraints@) =~= Seq::empty());
                    Ok(AssociatedTraitMethodInstance { callable_ty, constraints, dict: Some(d) })
                },
            }
        } else {
            match primary_trait_var(&trait_args, &indexes) {
                None => Err(
                    TypeError::UnresolvedTrait {
                        context: "trait method value".to_owned(),
                        trait_name: def.name.clone(),
                    }.at(span),
                ),
                Some(var) => {
                    let c = TraitConstraint::predicate(&def.name, trait_args, var, indexes);
                    let ghost cv = c@;
                    let constraints: Vec<TraitConstraint> = vec![c];
                    assert(constraints_view(constraints@) =~= seq![cv]);
                    Ok(AssociatedTraitMethodInstance { callable_ty, constraints, dict: None })
                },
            }
        }
    }
}

pub fn clone_types(tys: &Vec<Type>) -> (r: Vec<Type>)
    ensures
        types_view(r@) == types_view(tys@),
        r@.len() == tys@.len(),
{
    let ghost all = types_view(tys@);
    let mut out: Vec<Type> = Vec::new();
    let mut i: usize = 0;
    while i < tys.len()
        invariant
            i <= tys.len(),
            all == types_view(tys@),
            all.len() == tys@.len(),
            out@.len() == i,
            forall|j: int| 0 <= j < i ==> type_view(#[trigger] out@[j]) == all[j],
        decreases tys.len() - i,
    {
        assert(all[i as int] == type_view(tys@[i as int]));
        out.push(tys[i].clone());
        i = i + 1;
    }
    assert(types_view(out@) =~= all);
    out
}

/// Types with arguments in place of parameters.
pub fn fill_types(tys: &Vec<Type>, params: &Vec<String>, args: &Vec<Type>) -> (r: Vec<Type>)
    ensures
        types_view(r@) == all_filled(
            types_view(tys@),
            strings_view(params@),
            types_view(args@),
        ),
        r@.len() == tys@.len(),
{
    let ghost all = types_view(tys@);
    let ghost want = all_filled(all, strings_view(params@), types_view(args@));
    let mut out: Vec<Type> = Vec::new();
    let mut i: usize = 0;
    while i < tys.len()
        invariant
            i <= tys.len(),
            all == types_view(tys@),
            all.len() == tys@.len(),
            want == all_filled(all, strings_view(params@), types_view(args@)),
            out@.len() == i,
            forall|j: int| 0 <= j < i ==> type_view(#[trigger] out@[j]) == want[j],
        decreases tys.len() - i,
    {
        assert(all[i as int] == type_view(tys@[i as int]));
        out.push(fill_params_in_order(&tys[i], params, args));
        i = i + 1;
    }
    assert(types_view(out@) =~= want);
    out
}

} // verus!
