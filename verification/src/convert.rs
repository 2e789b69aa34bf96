//! Types as they are written become types as they are inferred.

use vstd::prelude::*;

use crate::ast::{NamedType, Type, TypeParam};
use crate::ast_view::{named_type_view, named_types_view, type_param_view, type_params_view};
use crate::ast_view::{type_return_view, type_view, types_view, NamedTypeV, TypeParamV};
use crate::ast_view::{TypeReturnV, TypeV};
use crate::error::{TypeError, TypeErrorV};
use crate::rows::{sort_fields, sort_record_fields, FieldV};
use crate::state::{fresh, next_var, Infer, InferV};
use crate::tables::NameMap;
use crate::text::{clone_strings, str_eq, strings_view};
use crate::ty::{field_view, fields_view, param_view, params_view, return_view, ty_view, tys_view};
use crate::ty::{FuncParam, FuncReturn, ParamCapability, ParamV, ReturnCapability, ReturnV, Row};
use crate::ty::{RowV, Ty, TyV, TyVar};
use crate::type_syntax::{fill_param, subst_hkt_param};

verus! {

/// How deep aliases of aliases are followed.
pub const MAX_ALIAS_DEPTH: u64 = 0xffff_ffff_ffff_ffff;

/// Type variables by the names they are written with.
pub type VarNames = Map<Seq<char>, TyVar>;

/// What conversion comes to: the state and the variables afterwards, and the
/// result.
pub struct ConvV<A> {
    pub st: InferV,
    pub vars: VarNames,
    pub res: Result<A, TypeErrorV>,
}

/// `ty` with the arguments from the one at `i` on in place of the parameters.
pub open spec fn fill_all(ty: TypeV, params: Seq<Seq<char>>, args: Seq<TypeV>, i: nat) -> TypeV
    decreases params.len() - i,
{
    if i >= params.len() || i >= args.len() {
        ty
    } else {
        fill_all(fill_param(ty, params[i as int], args[i as int]), params, args, i + 1)
    }
}

/// `ty` with arguments in place of parameters, one after the other.
pub fn fill_params_in_order(ty: &Type, params: &Vec<String>, args: &Vec<Type>) -> (r: Type)
    ensures
        r@ == fill_all(ty@, strings_view(params@), types_view(args@), 0),
{
    let ghost pv = strings_view(params@);
    let ghost av = types_view(args@);
    let mut out = ty.clone();
    let mut i: usize = 0;
    while i < params.len() && i < args.len()
        invariant
            i <= params.len(),
            i <= args.len(),
            pv == strings_view(params@),
            av == types_view(args@),
            pv.len() == params@.len(),
            av.len() == args@.len(),
            fill_all(ty@, pv, av, 0) == fill_all(out@, pv, av, i as nat),
        decreases params.len() - i,
    {
        assert(pv[i as int] == params@[i as int]@);
        assert(av[i as int] == type_view(args@[i as int]));
        out = subst_hkt_param(&out, params[i].as_str(), &args[i]);
        i = i + 1;
    }
    out
}

/// Where `name` stands in `stack`, from `i` on.
pub open spec fn stack_index(stack: Seq<Seq<char>>, name: Seq<char>, i: nat) -> Option<nat>
    decreases stack.len() - i,
{
    if i >= stack.len() {
        None
    } else if stack[i as int] == name {
        Some(i)
    } else {
        stack_index(stack, name, i + 1)
    }
}

/// The first name that two neighbours share, from the one at `i` on.
pub open spec fn first_twin(fields: Seq<FieldV>, i: nat) -> Option<Seq<char>>
    decreases fields.len() - i,
{
    if i + 1 >= fields.len() {
        None
    } else if fields[i as int].0 == fields[i as int + 1].0 {
        Some(fields[i as int].0)
    } else {
        first_twin(fields, i + 1)
    }
}

/// What the alias `name` stands for.
pub open spec fn expand(
    st: InferV,
    vars: VarNames,
    name: Seq<char>,
    ty: TypeV,
    stack: Seq<Seq<char>>,
    left: nat,
) -> ConvV<TyV>
    decreases left, 0nat, ty, 0nat,
{
    match stack_index(stack, name, 0) {
        Some(start) => ConvV {
            st,
            vars,
            res: Err(
                TypeErrorV::RecursiveTypeAlias {
                    name,
                    cycle: stack.skip(start as int).push(name),
                },
            ),
        },
        None => if left == 0 {
            ConvV {
                st,
                vars,
                res: Err(TypeErrorV::RecursiveTypeAlias { name, cycle: stack.push(name) }),
            }
        } else {
            to_ty(st, vars, ty, stack.push(name), (left - 1) as nat)
        },
    }
}

/// What a written type stands for. `stack` are the aliases being expanded.
pub open spec fn to_ty(
    st: InferV,
    vars: VarNames,
    ty: TypeV,
    stack: Seq<Seq<char>>,
    left: nat,
) -> ConvV<TyV>
    decreases left, 1nat, ty, 2nat,
{
    match ty {
        TypeV::Ident(name) => if st.aliases.dom().contains(name) {
            let alias = st.aliases[name];
            if alias.params.len() != 0 {
                ConvV {
                    st,
                    vars,
                    res: Err(
                        TypeErrorV::TypeAliasArityMismatch {
                            name,
                            expected: alias.params.len() as usize,
                            got: 0,
                        },
                    ),
                }
            } else {
                expand(st, vars, name, alias.ty, stack, left)
            }
        } else {
            ConvV { st, vars, res: named_ty(st, name) }
        },
        TypeV::Never => ConvV { st, vars, res: Ok(TyV::Never) },
        TypeV::Var(name) => if vars.dom().contains(name) {
            ConvV { st, vars, res: Ok(TyV::Var(vars[name])) }
        } else {
            ConvV {
                st: fresh(st),
                vars: vars.insert(name, next_var(st)),
                res: Ok(TyV::Var(next_var(st))),
            }
        },
        TypeV::Func(params, ret) => {
            let ps = to_params(st, vars, params, 0, Seq::empty(), stack, left);
            match ps.res {
                Err(e) => ConvV { st: ps.st, vars: ps.vars, res: Err(e) },
                Ok(params) => {
                    let r = to_ty(ps.st, ps.vars, *ret.ty, stack, left);
                    ConvV {
                        st: r.st,
                        vars: r.vars,
                        res: match r.res {
                            Err(e) => Err(e),
                            Ok(t) => Ok(TyV::Func(params, written_return(t, ret.mut_place))),
                        },
                    }
                },
            }
        },
        TypeV::App(_, _) => to_app(st, vars, ty, stack, left),
        TypeV::Tuple(items) => {
            let ts = to_tys(st, vars, items, 0, Seq::empty(), stack, left);
            ConvV {
                st: ts.st,
                vars: ts.vars,
                res: match ts.res {
                    Err(e) => Err(e),
                    Ok(ts) => Ok(TyV::Tuple(ts)),
                },
            }
        },
        TypeV::Record(fields, open) => {
            let fs = to_fields(st, vars, fields, 0, Seq::empty(), stack, left);
            match fs.res {
                Err(e) => ConvV { st: fs.st, vars: fs.vars, res: Err(e) },
                Ok(found) => written_record(fs.st, fs.vars, found, open),
            }
        },
        TypeV::Unit => ConvV { st, vars, res: Ok(TyV::Unit) },
        TypeV::Hole => ConvV { st: fresh(st), vars, res: Ok(TyV::Var(next_var(st))) },
    }
}

/// A type named by itself.
pub open spec fn named_ty(st: InferV, name: Seq<char>) -> Result<TyV, TypeErrorV> {
    if name == "int"@ {
        Ok(TyV::Int)
    } else if name == "float"@ {
        Ok(TyV::Float)
    } else if name == "Unit"@ || name == "()"@ {
        Ok(TyV::Unit)
    } else if st.declared.contains(name) {
        Ok(TyV::Con(name))
    } else {
        Err(TypeErrorV::UnknownType(name))
    }
}

/// The result of a function as it is written.
pub open spec fn written_return(ty: TyV, mut_place: bool) -> ReturnV {
    ReturnV {
        ty: Box::new(ty),
        capability: if mut_place {
            ReturnCapability::FreshPlace
        } else {
            ReturnCapability::Value
        },
    }
}

/// A parameter of a function as it is written.
pub open spec fn written_param(ty: TyV, mut_place: bool) -> ParamV {
    ParamV {
        ty,
        capability: if mut_place {
            ParamCapability::MutPlace
        } else {
            ParamCapability::Value
        },
    }
}

/// A record type as it is written: its fields by name, each of them once.
pub open spec fn written_record(
    st: InferV,
    vars: VarNames,
    fields: Seq<FieldV>,
    open: bool,
) -> ConvV<TyV> {
    let sorted = sort_fields(fields);
    match first_twin(sorted, 0) {
        Some(name) => ConvV { st, vars, res: Err(TypeErrorV::DuplicateRecordField(name)) },
        None => if open {
            ConvV {
                st: fresh(st),
                vars,
                res: Ok(
                    TyV::Record(RowV { fields: sorted, tail: Box::new(TyV::Var(next_var(st))) }),
                ),
            }
        } else {
            ConvV {
                st,
                vars,
                res: Ok(TyV::Record(RowV { fields: sorted, tail: Box::new(TyV::Unit) })),
            }
        },
    }
}

/// What a type applied to arguments stands for.
pub open spec fn to_app(
    st: InferV,
    vars: VarNames,
    ty: TypeV,
    stack: Seq<Seq<char>>,
    left: nat,
) -> ConvV<TyV>
    decreases left, 1nat, ty, 1nat,
{
    let args = applied_args(ty);
    match applied_name(ty) {
        Some(name) => if st.aliases.dom().contains(name) {
            let alias = st.aliases[name];
            if alias.params.len() != args.len() {
                ConvV {
                    st,
                    vars,
                    res: Err(
                        TypeErrorV::TypeAliasArityMismatch {
                            name,
                            expected: alias.params.len() as usize,
                            got: args.len() as usize,
                        },
                    ),
                }
            } else {
                expand(
                    st,
                    vars,
                    name,
                    fill_all(alias.ty, alias.params, args, 0),
                    stack,
                    left,
                )
            }
        } else if st.arities.dom().contains(name) && st.arities[name] != args.len() {
            ConvV {
                st,
                vars,
                res: Err(
                    TypeErrorV::TypeConstructorArityMismatch {
                        name,
                        expected: st.arities[name],
                        got: args.len() as usize,
                    },
                ),
            }
        } else {
            to_applied(st, vars, ty, stack, left)
        },
        None => to_applied(st, vars, ty, stack, left),
    }
}

/// The name of what is applied.
pub open spec fn applied_name(ty: TypeV) -> Option<Seq<char>> {
    match ty {
        TypeV::App(con, _) => match *con {
            TypeV::Ident(name) => Some(name),
            _ => None,
        },
        _ => None,
    }
}

/// What something is applied to.
pub open spec fn applied_args(ty: TypeV) -> Seq<TypeV> {
    match ty {
        TypeV::App(_, args) => args,
        _ => Seq::empty(),
    }
}

pub open spec fn to_applied(
    st: InferV,
    vars: VarNames,
    ty: TypeV,
    stack: Seq<Seq<char>>,
    left: nat,
) -> ConvV<TyV>
    decreases left, 1nat, ty, 0nat,
{
    match ty {
        TypeV::App(con, args) => {
            let c = to_ty(st, vars, *con, stack, left);
            match c.res {
                Err(e) => c,
                Ok(con) => {
                    let ts = to_tys(c.st, c.vars, args, 0, Seq::empty(), stack, left);
                    ConvV {
                        st: ts.st,
                        vars: ts.vars,
                        res: match ts.res {
                            Err(e) => Err(e),
                            Ok(ts) => Ok(TyV::App(Box::new(con), ts)),
                        },
                    }
                },
            }
        },
        _ => ConvV { st, vars, res: Ok(TyV::Unit) },
    }
}

pub open spec fn to_tys(
    st: InferV,
    vars: VarNames,
    s: Seq<TypeV>,
    i: nat,
    done: Seq<TyV>,
    stack: Seq<Seq<char>>,
    left: nat,
) -> ConvV<Seq<TyV>>
    decreases left, 1nat, s, s.len() - i,
{
    if i >= s.len() {
        ConvV { st, vars, res: Ok(done) }
    } else {
        let x = to_ty(st, vars, s[i as int], stack, left);
        match x.res {
            Err(e) => ConvV { st: x.st, vars: x.vars, res: Err(e) },
            Ok(t) => to_tys(x.st, x.vars, s, i + 1, done.push(t), stack, left),
        }
    }
}

pub open spec fn to_params(
    st: InferV,
    vars: VarNames,
    s: Seq<TypeParamV>,
    i: nat,
    done: Seq<ParamV>,
    stack: Seq<Seq<char>>,
    left: nat,
) -> ConvV<Seq<ParamV>>
    decreases left, 1nat, s, s.len() - i,
{
    if i >= s.len() {
        ConvV { st, vars, res: Ok(done) }
    } else {
        let x = to_ty(st, vars, s[i as int].ty, stack, left);
        match x.res {
            Err(e) => ConvV { st: x.st, vars: x.vars, res: Err(e) },
            Ok(t) => to_params(x.st, x.vars, s, i + 1, done.push(written_param(t, s[i as int].mut_place)), stack, left),
        }
    }
}

pub open spec fn to_fields(
    st: InferV,
    vars: VarNames,
    s: Seq<NamedTypeV>,
    i: nat,
    done: Seq<FieldV>,
    stack: Seq<Seq<char>>,
    left: nat,
) -> ConvV<Seq<FieldV>>
    decreases left, 1nat, s, s.len() - i,
{
    if i >= s.len() {
        ConvV { st, vars, res: Ok(done) }
    } else {
        let x = to_ty(st, vars, s[i as int].ty, stack, left);
        match x.res {
            Err(e) => ConvV { st: x.st, vars: x.vars, res: Err(e) },
            Ok(t) => to_fields(x.st, x.vars, s, i + 1, done.push((s[i as int].name, t)), stack, left),
        }
    }
}

/// Whether a conversion went as `want` says.
pub open spec fn converted<A>(
    st: InferV,
    vars: VarNames,
    res: Result<A, TypeErrorV>,
    want: ConvV<A>,
) -> bool {
    st == want.st && vars == want.vars && res == want.res
}

/// The view of a type or of the error in its place.
pub open spec fn ty_result(r: Result<Ty, TypeError>) -> Result<TyV, TypeErrorV> {
    match r {
        Ok(t) => Ok(t@),
        Err(e) => Err(e@),
    }
}

/// The view of types or of the error in their place.
pub open spec fn tys_result(r: Result<Vec<Ty>, TypeError>) -> Result<Seq<TyV>, TypeErrorV> {
    match r {
        Ok(ts) => Ok(tys_view(ts@)),
        Err(e) => Err(e@),
    }
}

pub open spec fn params_result(r: Result<Vec<FuncParam>, TypeError>) -> Result<
    Seq<ParamV>,
    TypeErrorV,
> {
    match r {
        Ok(ps) => Ok(params_view(ps@)),
        Err(e) => Err(e@),
    }
}

pub open spec fn fields_result(r: Result<Vec<(String, Ty)>, TypeError>) -> Result<
    Seq<FieldV>,
    TypeErrorV,
> {
    match r {
        Ok(fs) => Ok(fields_view(fs@)),
        Err(e) => Err(e@),
    }
}

fn find_on_stack(stack: &Vec<String>, name: &str) -> (r: Option<usize>)
    ensures
        match (r, stack_index(strings_view(stack@), name@, 0)) {
            (Some(a), Some(b)) => a == b && a < stack@.len(),
            (None, None) => true,
            _ => false,
        },
{
    let ghost all = strings_view(stack@);
    let mut i: usize = 0;
    while i < stack.len()
        invariant
            i <= stack.len(),
            all == strings_view(stack@),
            stack_index(all, name@, 0) == stack_index(all, name@, i as nat),
        decreases stack.len() - i,
    {
        assert(all[i as int] == stack@[i as int]@);
        if str_eq(stack[i].as_str(), name) {
            return Some(i);
        }
        i = i + 1;
    }
    None
}

fn find_twin(fields: &Vec<(String, Ty)>) -> (r: Option<String>)
    ensures
        match (r, first_twin(fields_view(fields@), 0)) {
            (Some(a), Some(b)) => a@ == b,
            (None, None) => true,
            _ => false,
        },
{
    let ghost all = fields_view(fields@);
    if fields.len() == 0 {
        return None;
    }
    let mut i: usize = 0;
    while i < fields.len() - 1
        invariant
            fields.len() > 0,
            i < fields.len(),
            all == fields_view(fields@),
            all.len() == fields@.len(),
            first_twin(all, 0) == first_twin(all, i as nat),
        decreases fields.len() - i,
    {
        assert(all[i as int] == field_view(fields@[i as int]));
        assert(all[i + 1] == field_view(fields@[i + 1]));
        if str_eq(fields[i].0.as_str(), fields[i + 1].0.as_str()) {
            return Some(fields[i].0.clone());
        }
        i = i + 1;
    }
    None
}

fn push_name(stack: &Vec<String>, name: &str) -> (r: Vec<String>)
    ensures
        strings_view(r@) == strings_view(stack@).push(name@),
{
    let mut out = clone_strings(stack);
    let ghost before = strings_view(out@);
    out.push(name.to_owned());
    assert(strings_view(out@) =~= before.push(name@));
    out
}

fn names_from(stack: &Vec<String>, start: usize) -> (r: Vec<String>)
    requires
        start <= stack@.len(),
    ensures
        strings_view(r@) == strings_view(stack@).skip(start as int),
{
    let ghost all = strings_view(stack@);
    let mut out: Vec<String> = Vec::new();
    let mut i: usize = start;
    while i < stack.len()
        invariant
            start <= i <= stack.len(),
            all == strings_view(stack@),
            out@.len() == i - start,
            forall|j: int| 0 <= j < out@.len() ==> (#[trigger] out@[j])@ == all[start + j],
        decreases stack.len() - i,
    {
        out.push(stack[i].clone());
        i = i + 1;
    }
    assert(strings_view(out@) =~= all.skip(start as int));
    out
}

impl Infer {
    /// What a written type stands for; `vars` are the type variables by name.
    pub fn ast_to_ty_with_vars(&mut self, ty: &Type, vars: &mut NameMap<TyVar>) -> (r: Result<
        Ty,
        TypeError,
    >)
        requires
            old(self).wf(),
        ensures
            final(self).wf(),
            converted(
                final(self)@,
                final(vars)@,
                ty_result(r),
                to_ty(
                    old(self)@,
                    old(vars)@,
                    ty@,
                    Seq::empty(),
                    MAX_ALIAS_DEPTH as nat,
                ),
            ),
    {
        let stack: Vec<String> = Vec::new();
        assert(strings_view(stack@) =~= Seq::empty());
        self.ast_to_ty_with_vars_inner(ty, vars, &stack, MAX_ALIAS_DEPTH)
    }

    /// What written types stand for, in order.
    pub fn ast_to_tys(&mut self, tys: &Vec<Type>, vars: &mut NameMap<TyVar>) -> (r: Result<
        Vec<Ty>,
        TypeError,
    >)
        requires
            old(self).wf(),
        ensures
            final(self).wf(),
            converted(
                final(self)@,
                final(vars)@,
                tys_result(r),
                to_tys(
                    old(self)@,
                    old(vars)@,
                    types_view(tys@),
                    0,
                    Seq::empty(),
                    Seq::empty(),
                    MAX_ALIAS_DEPTH as nat,
                ),
            ),
            r matches Ok(found) ==> found@.len() == tys@.len(),
    {
        let stack: Vec<String> = Vec::new();
        assert(strings_view(stack@) =~= Seq::empty());
        self.convert_tys(tys, vars, &stack, MAX_ALIAS_DEPTH)
    }

    fn expand_type_alias(
        &mut self,
        name: &str,
        ty: &Type,
        vars: &mut NameMap<TyVar>,
        stack: &Vec<String>,
        left: u64,
    ) -> (r: Result<Ty, TypeError>)
        requires
            old(self).wf(),
        ensures
            final(self).wf(),
            converted(
                final(self)@,
                final(vars)@,
                ty_result(r),
                expand(
                    old(self)@,
                    old(vars)@,
                    name@,
                    ty@,
                    strings_view(stack@),
                    left as nat,
                ),
            ),
        decreases left, 0nat, *ty, 0nat,
    {
        match find_on_stack(stack, name) {
            Some(start) => {
                let from = names_from(stack, start);
                let cycle = push_name(&from, name);
                Err(TypeError::RecursiveTypeAlias { name: name.to_owned(), cycle })
            },
            None => {
                let next = push_name(stack, name);
                if left == 0 {
                    return Err(TypeError::RecursiveTypeAlias { name: name.to_owned(), cycle: next });
                }
                self.ast_to_ty_with_vars_inner(ty, vars, &next, left - 1)
            },
        }
    }

    fn ast_to_ty_with_vars_inner(
        &mut self,
        ty: &Type,
        vars: &mut NameMap<TyVar>,
        stack: &Vec<String>,
        left: u64,
    ) -> (r: Result<Ty, TypeError>)
        requires
            old(self).wf(),
        ensures
            final(self).wf(),
            converted(
                final(self)@,
                final(vars)@,
                ty_result(r),
                to_ty(old(self)@, old(vars)@, ty@, strings_view(stack@), left as nat),
            ),
        decreases left, 1nat, *ty, 2nat,
    {
        match ty {
            Type::Ident(name) => {
                if let Some(alias) = self.types.aliases.get(name.as_str()) {
                    let alias = alias.clone();
                    assert(strings_view(alias.params@).len() == alias.params@.len());
                    if alias.params.len() != 0 {
                        return Err(
                            TypeError::TypeAliasArityMismatch {
                                name: name.clone(),
                                expected: alias.params.len(),
                                got: 0,
                            },
                        );
                    }
                    return self.expand_type_alias(name.as_str(), &alias.ty, vars, stack, left);
                }
                self.named_type(name)
            },
            Type::Never => Ok(Ty::Never),
            Type::Var(name) => {
                if let Some(v) = vars.get(name.as_str()) {
                    return Ok(Ty::Var(*v));
                }
                let v = self.fresh_var();
                vars.insert(name.clone(), v);
                Ok(Ty::Var(v))
            },
            Type::Func(params, ret) => {
                assert(type_return_view(*ret) == TypeReturnV {
                    ty: Box::new(type_view(*ret.ty)),
                    mut_place: ret.mut_place,
                });
                let ps = match self.convert_params(params, vars, stack, left) {
                    Ok(ps) => ps,
                    Err(err) => {
                        return Err(err);
                    },
                };
                match self.ast_to_ty_with_vars_inner(&ret.ty, vars, stack, left) {
                    Ok(t) => {
                        let ret2 = if ret.mut_place {
                            FuncReturn::fresh_place(t)
                        } else {
                            FuncReturn::value(t)
                        };
                        Ok(Ty::Func(ps, ret2))
                    },
                    Err(err) => Err(err),
                }
            },
            Type::App(_, _) => self.convert_app(ty, vars, stack, left),
            Type::Tuple(items) => {
                match self.convert_tys(items, vars, stack, left) {
                    Ok(ts) => Ok(Ty::Tuple(ts)),
                    Err(err) => Err(err),
                }
            },
            Type::Record(fields, open) => {
                match self.convert_fields(fields, vars, stack, left) {
                    Ok(fs) => self.record_type(fs, *open, Ghost(vars@)),
                    Err(err) => Err(err),
                }
            },
            Type::Unit => Ok(Ty::Unit),
            Type::Hole => Ok(self.fresh_ty()),
        }
    }

    fn named_type(&self, name: &String) -> (r: Result<Ty, TypeError>)
        ensures
            ty_result(r) == named_ty(self@, name@),
    {
        let text = name.as_str();
        if str_eq(text, "int") {
            Ok(Ty::Int)
        } else if str_eq(text, "float") {
            Ok(Ty::Float)
        } else if str_eq(text, "Unit") || str_eq(text, "()") {
            Ok(Ty::Unit)
        } else if self.types.declared.contains(text) {
            Ok(Ty::Con(name.clone()))
        } else {
            Err(TypeError::UnknownType(name.clone()))
        }
    }

    fn record_type(
        &mut self,
        fields: Vec<(String, Ty)>,
        open: bool,
        Ghost(vars): Ghost<VarNames>,
    ) -> (r: Result<Ty, TypeError>)
        requires
            old(self).wf(),
        ensures
            final(self).wf(),
            converted(
                final(self)@,
                vars,
                ty_result(r),
                written_record(old(self)@, vars, fields_view(fields@), open),
            ),
    {
        let sorted = sort_record_fields(fields);
        if let Some(name) = find_twin(&sorted) {
            return Err(TypeError::DuplicateRecordField(name));
        }
        let tail = if open {
            self.fresh_ty()
        } else {
            Ty::Unit
        };
        Ok(Ty::Record(Row { fields: sorted, tail: Box::new(tail) }))
    }

    fn convert_app(
        &mut self,
        ty: &Type,
        vars: &mut NameMap<TyVar>,
        stack: &Vec<String>,
        left: u64,
    ) -> (r: Result<Ty, TypeError>)
        requires
            old(self).wf(),
            ty is App,
        ensures
            final(self).wf(),
            converted(
                final(self)@,
                final(vars)@,
                ty_result(r),
                to_app(old(self)@, old(vars)@, ty@, strings_view(stack@), left as nat),
            ),
        decreases left, 1nat, *ty, 1nat,
    {
        let (con, args) = match ty {
            Type::App(con, args) => (con, args),
            _ => {
                return Ok(Ty::Unit);
            },
        };
        assert(ty@ == TypeV::App(Box::new(type_view(**con)), types_view(args@)));
        assert(types_view(args@).len() == args@.len());
        if let Type::Ident(name) = &**con {
            assert(type_view(**con) == TypeV::Ident(name@));
            if let Some(alias) = self.types.aliases.get(name.as_str()) {
                let alias = alias.clone();
                assert(strings_view(alias.params@).len() == alias.params@.len());
                if alias.params.len() != args.len() {
                    return Err(
                        TypeError::TypeAliasArityMismatch {
                            name: name.clone(),
                            expected: alias.params.len(),
                            got: args.len(),
                        },
                    );
                }
                let filled = fill_params_in_order(&alias.ty, &alias.params, args);
                return self.expand_type_alias(name.as_str(), &filled, vars, stack, left);
            }
            if let Some(expected) = self.types.constructor_arities.get(name.as_str()) {
                let expected: usize = *expected;
                if expected != args.len() {
                    return Err(
                        TypeError::TypeConstructorArityMismatch {
                            name: name.clone(),
                            expected,
                            got: args.len(),
                        },
                    );
                }
            }
        } else {
            assert(!(type_view(**con) is Ident));
        }
        let ghost mid = to_applied(self@, vars@, ty@, strings_view(stack@), left as nat);
        let c = match self.ast_to_ty_with_vars_inner(con, vars, stack, left) {
            Ok(c) => c,
            Err(err) => {
                return Err(err);
            },
        };
        match self.convert_tys(args, vars, stack, left) {
            Ok(ts) => Ok(Ty::App(Box::new(c), ts)),
            Err(err) => Err(err),
        }
    }

    fn convert_tys(
        &mut self,
        s: &Vec<Type>,
        vars: &mut NameMap<TyVar>,
        stack: &Vec<String>,
        left: u64,
    ) -> (r: Result<Vec<Ty>, TypeError>)
        requires
            old(self).wf(),
        ensures
            final(self).wf(),
            converted(
                final(self)@,
                final(vars)@,
                tys_result(r),
                to_tys(
                    old(self)@,
                    old(vars)@,
                    types_view(s@),
                    0,
                    Seq::empty(),
                    strings_view(stack@),
                    left as nat,
                ),
            ),
            r matches Ok(found) ==> found@.len() == s@.len(),
        decreases left, 1nat, s@, 0nat,
    {
        let ghost all = types_view(s@);
        let ghost sk = strings_view(stack@);
        let ghost want = to_tys(self@, vars@, all, 0, Seq::empty(), sk, left as nat);
        let mut out: Vec<Ty> = Vec::new();
        let mut i: usize = 0;
        assert(tys_view(out@) =~= Seq::empty());
        while i < s.len()
            invariant
                i <= s.len(),
                self.wf(),
                out@.len() == i,
                all == types_view(s@),
                all.len() == s@.len(),
                sk == strings_view(stack@),
                want == to_tys(
                    old(self)@,
                    old(vars)@,
                    all,
                    0,
                    Seq::empty(),
                    sk,
                    left as nat,
                ),
                want == to_tys(
                    self@,
                    vars@,
                    all,
                    i as nat,
                    tys_view(out@),
                    sk,
                    left as nat,
                ),
            decreases s.len() - i,
        {
            let ghost before = tys_view(out@);
            proof {
                assert(all[i as int] == type_view(s@[i as int]));
                assert(decreases_to!(s@ => s@[i as int]));
            }
            match self.ast_to_ty_with_vars_inner(&s[i], vars, stack, left) {
                Ok(t) => {
                    let x = t;
                    let ghost xv = ty_view(x);
                    out.push(x);
                    assert(tys_view(out@) =~= before.push(xv));
                },
                Err(err) => {
                    return Err(err);
                },
            }
            i = i + 1;
        }
        Ok(out)
    }

    fn convert_params(
        &mut self,
        s: &Vec<TypeParam>,
        vars: &mut NameMap<TyVar>,
        stack: &Vec<String>,
        left: u64,
    ) -> (r: Result<Vec<FuncParam>, TypeError>)
        requires
            old(self).wf(),
        ensures
            final(self).wf(),
            converted(
                final(self)@,
                final(vars)@,
                params_result(r),
                to_params(
                    old(self)@,
                    old(vars)@,
                    type_params_view(s@),
                    0,
                    Seq::empty(),
                    strings_view(stack@),
                    left as nat,
                ),
            ),
        decreases left, 1nat, s@, 0nat,
    {
        let ghost all = type_params_view(s@);
        let ghost sk = strings_view(stack@);
        let ghost want = to_params(self@, vars@, all, 0, Seq::empty(), sk, left as nat);
        let mut out: Vec<FuncParam> = Vec::new();
        let mut i: usize = 0;
        assert(params_view(out@) =~= Seq::empty());
        while i < s.len()
            invariant
                i <= s.len(),
                self.wf(),
                all == type_params_view(s@),
                all.len() == s@.len(),
                sk == strings_view(stack@),
                want == to_params(
                    old(self)@,
                    old(vars)@,
                    all,
                    0,
                    Seq::empty(),
                    sk,
                    left as nat,
                ),
                want == to_params(
                    self@,
                    vars@,
                    all,
                    i as nat,
                    params_view(out@),
                    sk,
                    left as nat,
                ),
            decreases s.len() - i,
        {
            let ghost before = params_view(out@);
            proof {
                assert(all[i as int] == type_param_view(s@[i as int]));
                assert(decreases_to!(s@ => s@[i as int]));
                assert(decreases_to!(s@[i as int] => s@[i as int].ty));
            }
            match self.ast_to_ty_with_vars_inner(&s[i].ty, vars, stack, left) {
                Ok(t) => {
                    let x = if s[i].mut_place {
                        FuncParam::mut_place(t)
                    } else {
                        FuncParam::value(t)
                    };
                    let ghost xv = param_view(x);
                    out.push(x);
                    assert(params_view(out@) =~= before.push(xv));
                },
                Err(err) => {
                    return Err(err);
                },
            }
            i = i + 1;
        }
        Ok(out)
    }

    fn convert_fields(
        &mut self,
        s: &Vec<NamedType>,
        vars: &mut NameMap<TyVar>,
        stack: &Vec<String>,
        left: u64,
    ) -> (r: Result<Vec<(String, Ty)>, TypeError>)
        requires
            old(self).wf(),
        ensures
            final(self).wf(),
            converted(
                final(self)@,
                final(vars)@,
                fields_result(r),
                to_fields(
                    old(self)@,
                    old(vars)@,
                    named_types_view(s@),
                    0,
                    Seq::empty(),
                    strings_view(stack@),
                    left as nat,
                ),
            ),
        decreases left, 1nat, s@, 0nat,
    {
        let ghost all = named_types_view(s@);
        let ghost sk = strings_view(stack@);
        let ghost want = to_fields(self@, vars@, all, 0, Seq::empty(), sk, left as nat);
        let mut out: Vec<(String, Ty)> = Vec::new();
        let mut i: usize = 0;
        assert(fields_view(out@) =~= Seq::empty());
        while i < s.len()
            invariant
                i <= s.len(),
                self.wf(),
                all == named_types_view(s@),
                all.len() == s@.len(),
                sk == strings_view(stack@),
                want == to_fields(
                    old(self)@,
                    old(vars)@,
                    all,
                    0,
                    Seq::empty(),
                    sk,
                    left as nat,
                ),
                want == to_fields(
                    self@,
                    vars@,
                    all,
                    i as nat,
                    fields_view(out@),
                    sk,
                    left as nat,
                ),
            decreases s.len() - i,
        {
            let ghost before = fields_view(out@);
            proof {
                assert(all[i as int] == named_type_view(s@[i as int]));
                assert(decreases_to!(s@ => s@[i as int]));
                assert(decreases_to!(s@[i as int] => s@[i as int].ty));
            }
            match self.ast_to_ty_with_vars_inner(&s[i].ty, vars, stack, left) {
                Ok(t) => {
                    let x = (s[i].name.clone(), t);
                    let ghost xv = field_view(x);
                    out.push(x);
                    assert(fields_view(out@) =~= before.push(xv));
                },
                Err(err) => {
                    return Err(err);
                },
            }
            i = i + 1;
        }
        Ok(out)
    }

}

} // verus!
