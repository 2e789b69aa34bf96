//! Types, type schemes and their mathematical views.

use vstd::prelude::*;

use crate::text::str_eq;

verus! {

/// A type variable, identified by number.
pub type TyVar = u32;

/// A trait obligation: `trait_name` must hold of `args`, filed under `var`.
/// The arguments at `determinant_indexes` select the implementation.
#[derive(Debug, PartialEq)]
pub struct TraitConstraint {
    pub var: TyVar,
    pub trait_name: String,
    pub args: Vec<Ty>,
    pub determinant_indexes: Vec<usize>,
}

#[derive(Debug, PartialEq)]
pub enum Ty {
    Int,
    Float,
    Unit,
    Never,
    Qualified(Vec<TraitConstraint>, Box<Ty>),
    Tuple(Vec<Ty>),
    Func(Vec<FuncParam>, FuncReturn),
    Var(TyVar),
    /// A concrete type constructor: `bool`, `Array`, `Option`
    Con(String),
    /// Type application: `Array[float]`, `Map[string, int]`
    App(Box<Ty>, Vec<Ty>),
    Record(Row),
}

#[derive(Debug, PartialEq)]
pub struct FuncParam {
    pub ty: Ty,
    pub capability: ParamCapability,
}

#[derive(Debug, PartialEq)]
pub struct FuncReturn {
    pub ty: Box<Ty>,
    pub capability: ReturnCapability,
}

/// The named fields of a record and what stands for the fields not named.
#[derive(Debug, PartialEq)]
pub struct Row {
    pub fields: Vec<(String, Ty)>,
    pub tail: Box<Ty>,
}

#[derive(Debug, Clone, Copy, PartialEq, Eq, Structural)]
pub enum ParamCapability {
    Value,
    MutPlace,
}

#[derive(Debug, Clone, Copy, PartialEq, Eq, Structural)]
pub enum ReturnCapability {
    Value,
    FreshPlace,
}

/// The view of a [`TraitConstraint`].
pub struct ConstraintV {
    pub var: TyVar,
    pub trait_name: Seq<char>,
    pub args: Seq<TyV>,
    pub determinant_indexes: Seq<usize>,
}

/// The view of a [`Ty`].
pub enum TyV {
    Int,
    Float,
    Unit,
    Never,
    Qualified(Seq<ConstraintV>, Box<TyV>),
    Tuple(Seq<TyV>),
    Func(Seq<ParamV>, ReturnV),
    Var(TyVar),
    Con(Seq<char>),
    App(Box<TyV>, Seq<TyV>),
    Record(RowV),
}

/// The view of a [`FuncParam`].
pub struct ParamV {
    pub ty: TyV,
    pub capability: ParamCapability,
}

/// The view of a [`FuncReturn`].
pub struct ReturnV {
    pub ty: Box<TyV>,
    pub capability: ReturnCapability,
}

/// The view of a [`Row`].
pub struct RowV {
    pub fields: Seq<(Seq<char>, TyV)>,
    pub tail: Box<TyV>,
}

pub open spec fn ty_view(t: Ty) -> TyV
    decreases t,
{
    match t {
        Ty::Int => TyV::Int,
        Ty::Float => TyV::Float,
        Ty::Unit => TyV::Unit,
        Ty::Never => TyV::Never,
        Ty::Qualified(cs, inner) => TyV::Qualified(
            constraints_view(cs@),
            Box::new(ty_view(*inner)),
        ),
        Ty::Tuple(ts) => TyV::Tuple(tys_view(ts@)),
        Ty::Func(ps, ret) => TyV::Func(
            params_view(ps@),
            ReturnV { ty: Box::new(ty_view(*ret.ty)), capability: ret.capability },
        ),
        Ty::Var(v) => TyV::Var(v),
        Ty::Con(name) => TyV::Con(name@),
        Ty::App(con, args) => TyV::App(Box::new(ty_view(*con)), tys_view(args@)),
        Ty::Record(row) => TyV::Record(
            RowV { fields: fields_view(row.fields@), tail: Box::new(ty_view(*row.tail)) },
        ),
    }
}

pub open spec fn tys_view(s: Seq<Ty>) -> Seq<TyV>
    decreases s,
{
    Seq::new(
        s.len(),
        |i: int|
            if 0 <= i < s.len() {
                ty_view(s[i])
            } else {
                arbitrary()
            },
    )
}

pub open spec fn constraint_view(c: TraitConstraint) -> ConstraintV {
    ConstraintV {
        var: c.var,
        trait_name: c.trait_name@,
        args: tys_view(c.args@),
        determinant_indexes: c.determinant_indexes@,
    }
}

pub open spec fn constraints_view(s: Seq<TraitConstraint>) -> Seq<ConstraintV>
    decreases s,
{
    Seq::new(
        s.len(),
        |i: int|
            if 0 <= i < s.len() {
                ConstraintV {
                    var: s[i].var,
                    trait_name: s[i].trait_name@,
                    args: tys_view(s[i].args@),
                    determinant_indexes: s[i].determinant_indexes@,
                }
            } else {
                arbitrary()
            },
    )
}

pub open spec fn param_view(p: FuncParam) -> ParamV {
    ParamV { ty: ty_view(p.ty), capability: p.capability }
}

pub open spec fn params_view(s: Seq<FuncParam>) -> Seq<ParamV>
    decreases s,
{
    Seq::new(
        s.len(),
        |i: int|
            if 0 <= i < s.len() {
                ParamV { ty: ty_view(s[i].ty), capability: s[i].capability }
            } else {
                arbitrary()
            },
    )
}

pub open spec fn return_view(r: FuncReturn) -> ReturnV {
    ReturnV { ty: Box::new(ty_view(*r.ty)), capability: r.capability }
}

pub open spec fn field_view(f: (String, Ty)) -> (Seq<char>, TyV) {
    (f.0@, ty_view(f.1))
}

pub open spec fn fields_view(s: Seq<(String, Ty)>) -> Seq<(Seq<char>, TyV)>
    decreases s,
{
    Seq::new(
        s.len(),
        |i: int|
            if 0 <= i < s.len() {
                (s[i].0@, ty_view(s[i].1))
            } else {
                arbitrary()
            },
    )
}

pub open spec fn row_view(r: Row) -> RowV {
    RowV { fields: fields_view(r.fields@), tail: Box::new(ty_view(*r.tail)) }
}

impl View for Ty {
    type V = TyV;

    open spec fn view(&self) -> TyV {
        ty_view(*self)
    }
}

impl View for TraitConstraint {
    type V = ConstraintV;

    open spec fn view(&self) -> ConstraintV {
        constraint_view(*self)
    }
}

impl View for FuncParam {
    type V = ParamV;

    open spec fn view(&self) -> ParamV {
        param_view(*self)
    }
}

impl View for FuncReturn {
    type V = ReturnV;

    open spec fn view(&self) -> ReturnV {
        return_view(*self)
    }
}

impl View for Row {
    type V = RowV;

    open spec fn view(&self) -> RowV {
        row_view(*self)
    }
}

// ---------------------------------------------------------------------------
// Copying
// ---------------------------------------------------------------------------

impl Clone for Ty {
    fn clone(&self) -> (r: Self)
        ensures
            r@ == self@,
    {
        clone_ty(self)
    }
}

impl Clone for TraitConstraint {
    fn clone(&self) -> (r: Self)
        ensures
            r@ == self@,
    {
        clone_constraint(self)
    }
}

impl Clone for FuncParam {
    fn clone(&self) -> (r: Self)
        ensures
            r@ == self@,
    {
        FuncParam { ty: clone_ty(&self.ty), capability: self.capability }
    }
}

impl Clone for FuncReturn {
    fn clone(&self) -> (r: Self)
        ensures
            r@ == self@,
    {
        FuncReturn { ty: Box::new(clone_ty(&self.ty)), capability: self.capability }
    }
}

impl Clone for Row {
    fn clone(&self) -> (r: Self)
        ensures
            r@ == self@,
    {
        clone_row(self)
    }
}

fn clone_ty(t: &Ty) -> (r: Ty)
    ensures
        ty_view(r) == ty_view(*t),
    decreases *t,
{
    match t {
        Ty::Int => Ty::Int,
        Ty::Float => Ty::Float,
        Ty::Unit => Ty::Unit,
        Ty::Never => Ty::Never,
        Ty::Qualified(cs, inner) => {
            Ty::Qualified(clone_constraints(cs), Box::new(clone_ty(inner)))
        },
        Ty::Tuple(ts) => Ty::Tuple(clone_tys(ts)),
        Ty::Func(ps, ret) => {
            let ret2 = FuncReturn { ty: Box::new(clone_ty(&ret.ty)), capability: ret.capability };
            Ty::Func(clone_params(ps), ret2)
        },
        Ty::Var(v) => Ty::Var(*v),
        Ty::Con(name) => Ty::Con(name.clone()),
        Ty::App(con, args) => Ty::App(Box::new(clone_ty(con)), clone_tys(args)),
        Ty::Record(row) => Ty::Record(clone_row(row)),
    }
}

/// Copies a list of types.
pub fn clone_tys(ts: &Vec<Ty>) -> (r: Vec<Ty>)
    ensures
        tys_view(r@) == tys_view(ts@),
        r@.len() == ts@.len(),
    decreases ts@,
{
    let mut out: Vec<Ty> = Vec::new();
    let mut i: usize = 0;
    while i < ts.len()
        invariant
            i <= ts.len(),
            out@.len() == i,
            forall|j: int| 0 <= j < i ==> ty_view(#[trigger] out@[j]) == ty_view(ts@[j]),
        decreases ts.len() - i,
    {
        out.push(clone_ty(&ts[i]));
        i = i + 1;
    }
    assert(tys_view(out@) =~= tys_view(ts@));
    out
}

fn clone_constraint(c: &TraitConstraint) -> (r: TraitConstraint)
    ensures
        constraint_view(r) == constraint_view(*c),
    decreases *c,
{
    let mut indexes: Vec<usize> = Vec::new();
    let mut i: usize = 0;
    while i < c.determinant_indexes.len()
        invariant
            i <= c.determinant_indexes.len(),
            indexes@ == c.determinant_indexes@.take(i as int),
        decreases c.determinant_indexes.len() - i,
    {
        indexes.push(c.determinant_indexes[i]);
        i = i + 1;
        assert(indexes@ =~= c.determinant_indexes@.take(i as int));
    }
    assert(indexes@ =~= c.determinant_indexes@);
    TraitConstraint {
        var: c.var,
        trait_name: c.trait_name.clone(),
        args: clone_tys(&c.args),
        determinant_indexes: indexes,
    }
}

/// Copies a list of constraints.
pub fn clone_constraints(cs: &Vec<TraitConstraint>) -> (r: Vec<TraitConstraint>)
    ensures
        constraints_view(r@) == constraints_view(cs@),
        r@.len() == cs@.len(),
    decreases cs@,
{
    let mut out: Vec<TraitConstraint> = Vec::new();
    let mut i: usize = 0;
    while i < cs.len()
        invariant
            i <= cs.len(),
            out@.len() == i,
            forall|j: int|
                0 <= j < i ==> constraint_view(#[trigger] out@[j]) == constraint_view(cs@[j]),
        decreases cs.len() - i,
    {
        out.push(clone_constraint(&cs[i]));
        i = i + 1;
    }
    assert(constraints_view(out@) =~= constraints_view(cs@));
    out
}

/// Copies a list of parameters.
pub fn clone_params(ps: &Vec<FuncParam>) -> (r: Vec<FuncParam>)
    ensures
        params_view(r@) == params_view(ps@),
        r@.len() == ps@.len(),
    decreases ps@,
{
    let mut out: Vec<FuncParam> = Vec::new();
    let mut i: usize = 0;
    while i < ps.len()
        invariant
            i <= ps.len(),
            out@.len() == i,
            forall|j: int| 0 <= j < i ==> param_view(#[trigger] out@[j]) == param_view(ps@[j]),
        decreases ps.len() - i,
    {
        let p = FuncParam { ty: clone_ty(&ps[i].ty), capability: ps[i].capability };
        out.push(p);
        i = i + 1;
    }
    assert(params_view(out@) =~= params_view(ps@));
    out
}

/// Copies the fields of a record.
pub fn clone_fields(fs: &Vec<(String, Ty)>) -> (r: Vec<(String, Ty)>)
    ensures
        fields_view(r@) == fields_view(fs@),
        r@.len() == fs@.len(),
    decreases fs@,
{
    let mut out: Vec<(String, Ty)> = Vec::new();
    let mut i: usize = 0;
    while i < fs.len()
        invariant
            i <= fs.len(),
            out@.len() == i,
            forall|j: int| 0 <= j < i ==> field_view(#[trigger] out@[j]) == field_view(fs@[j]),
        decreases fs.len() - i,
    {
        let f = &fs[i];
        assert(decreases_to!(fs@ => fs@[i as int]));
        assert(decreases_to!(fs@[i as int] => fs@[i as int].1));
        out.push((f.0.clone(), clone_ty(&f.1)));
        i = i + 1;
    }
    assert(fields_view(out@) =~= fields_view(fs@));
    out
}

fn clone_row(row: &Row) -> (r: Row)
    ensures
        row_view(r) == row_view(*row),
    decreases *row,
{
    Row { fields: clone_fields(&row.fields), tail: Box::new(clone_ty(&row.tail)) }
}

// ---------------------------------------------------------------------------
// Equality
// ---------------------------------------------------------------------------

/// Whether two types are the same.
pub fn ty_eq(a: &Ty, b: &Ty) -> (r: bool)
    ensures
        r == (a@ == b@),
    decreases *a,
{
    match (a, b) {
        (Ty::Int, Ty::Int) => true,
        (Ty::Float, Ty::Float) => true,
        (Ty::Unit, Ty::Unit) => true,
        (Ty::Never, Ty::Never) => true,
        (Ty::Qualified(cs1, t1), Ty::Qualified(cs2, t2)) => {
            constraints_eq(cs1, cs2) && ty_eq(t1, t2)
        },
        (Ty::Tuple(ts1), Ty::Tuple(ts2)) => tys_eq(ts1, ts2),
        (Ty::Func(ps1, r1), Ty::Func(ps2, r2)) => {
            params_eq(ps1, ps2) && ty_eq(&r1.ty, &r2.ty) && r1.capability == r2.capability
        },
        (Ty::Var(v1), Ty::Var(v2)) => *v1 == *v2,
        (Ty::Con(n1), Ty::Con(n2)) => str_eq(n1.as_str(), n2.as_str()),
        (Ty::App(c1, as1), Ty::App(c2, as2)) => ty_eq(c1, c2) && tys_eq(as1, as2),
        (Ty::Record(r1), Ty::Record(r2)) => {
            fields_eq(&r1.fields, &r2.fields) && ty_eq(&r1.tail, &r2.tail)
        },
        _ => false,
    }
}

/// Whether two lists of types are the same.
pub fn tys_eq(a: &Vec<Ty>, b: &Vec<Ty>) -> (r: bool)
    ensures
        r == (tys_view(a@) == tys_view(b@)),
    decreases a@,
{
    if a.len() != b.len() {
        assert(tys_view(a@).len() != tys_view(b@).len());
        return false;
    }
    let mut i: usize = 0;
    while i < a.len()
        invariant
            i <= a.len(),
            a.len() == b.len(),
            forall|j: int| 0 <= j < i ==> ty_view(#[trigger] a@[j]) == ty_view(b@[j]),
        decreases a.len() - i,
    {
        if !ty_eq(&a[i], &b[i]) {
            assert(tys_view(a@)[i as int] != tys_view(b@)[i as int]);
            return false;
        }
        i = i + 1;
    }
    assert(tys_view(a@) =~= tys_view(b@));
    true
}

fn indexes_eq(a: &Vec<usize>, b: &Vec<usize>) -> (r: bool)
    ensures
        r == (a@ == b@),
{
    if a.len() != b.len() {
        return false;
    }
    let mut i: usize = 0;
    while i < a.len()
        invariant
            i <= a.len(),
            a.len() == b.len(),
            forall|j: int| 0 <= j < i ==> #[trigger] a@[j] == b@[j],
        decreases a.len() - i,
    {
        if a[i] != b[i] {
            return false;
        }
        i = i + 1;
    }
    assert(a@ =~= b@);
    true
}

/// Whether two constraints are the same.
pub fn constraint_eq(a: &TraitConstraint, b: &TraitConstraint) -> (r: bool)
    ensures
        r == (a@ == b@),
    decreases *a,
{
    a.var == b.var && str_eq(a.trait_name.as_str(), b.trait_name.as_str()) && tys_eq(
        &a.args,
        &b.args,
    ) && indexes_eq(&a.determinant_indexes, &b.determinant_indexes)
}

/// Whether two lists of constraints are the same.
pub fn constraints_eq(a: &Vec<TraitConstraint>, b: &Vec<TraitConstraint>) -> (r: bool)
    ensures
        r == (constraints_view(a@) == constraints_view(b@)),
    decreases a@,
{
    if a.len() != b.len() {
        assert(constraints_view(a@).len() != constraints_view(b@).len());
        return false;
    }
    let mut i: usize = 0;
    while i < a.len()
        invariant
            i <= a.len(),
            a.len() == b.len(),
            forall|j: int|
                0 <= j < i ==> constraint_view(#[trigger] a@[j]) == constraint_view(b@[j]),
        decreases a.len() - i,
    {
        if !constraint_eq(&a[i], &b[i]) {
            assert(constraints_view(a@)[i as int] == constraint_view(a@[i as int]));
            assert(constraints_view(b@)[i as int] == constraint_view(b@[i as int]));
            return false;
        }
        i = i + 1;
    }
    assert(constraints_view(a@) =~= constraints_view(b@));
    true
}

fn params_eq(a: &Vec<FuncParam>, b: &Vec<FuncParam>) -> (r: bool)
    ensures
        r == (params_view(a@) == params_view(b@)),
    decreases a@,
{
    if a.len() != b.len() {
        assert(params_view(a@).len() != params_view(b@).len());
        return false;
    }
    let mut i: usize = 0;
    while i < a.len()
        invariant
            i <= a.len(),
            a.len() == b.len(),
            forall|j: int| 0 <= j < i ==> param_view(#[trigger] a@[j]) == param_view(b@[j]),
        decreases a.len() - i,
    {
        if a[i].capability != b[i].capability || !ty_eq(&a[i].ty, &b[i].ty) {
            assert(params_view(a@)[i as int] == param_view(a@[i as int]));
            assert(params_view(b@)[i as int] == param_view(b@[i as int]));
            return false;
        }
        i = i + 1;
    }
    assert(params_view(a@) =~= params_view(b@));
    true
}

fn fields_eq(a: &Vec<(String, Ty)>, b: &Vec<(String, Ty)>) -> (r: bool)
    ensures
        r == (fields_view(a@) == fields_view(b@)),
    decreases a@,
{
    if a.len() != b.len() {
        assert(fields_view(a@).len() != fields_view(b@).len());
        return false;
    }
    let mut i: usize = 0;
    while i < a.len()
        invariant
            i <= a.len(),
            a.len() == b.len(),
            forall|j: int| 0 <= j < i ==> field_view(#[trigger] a@[j]) == field_view(b@[j]),
        decreases a.len() - i,
    {
        let fa = &a[i];
        let fb = &b[i];
        assert(decreases_to!(a@ => a@[i as int]));
        assert(decreases_to!(a@[i as int] => a@[i as int].1));
        if !str_eq(fa.0.as_str(), fb.0.as_str()) || !ty_eq(&fa.1, &fb.1) {
            assert(fields_view(a@)[i as int] == field_view(a@[i as int]));
            assert(fields_view(b@)[i as int] == field_view(b@[i as int]));
            return false;
        }
        i = i + 1;
    }
    assert(fields_view(a@) =~= fields_view(b@));
    true
}

// ---------------------------------------------------------------------------
// Constructors
// ---------------------------------------------------------------------------

impl TraitConstraint {
    /// The constraint that `var` itself implements a one-parameter trait.
    pub fn unary(var: TyVar, trait_name: &str) -> (c: Self)
        ensures
            c@ == unary_constraint(var, trait_name@),
    {
        let mut args: Vec<Ty> = Vec::new();
        args.push(Ty::Var(var));
        let mut determinant_indexes: Vec<usize> = Vec::new();
        determinant_indexes.push(0);
        assert(tys_view(args@) =~= seq![TyV::Var(var)]);
        assert(determinant_indexes@ =~= seq![0usize]);
        TraitConstraint { var, trait_name: trait_name.to_owned(), args, determinant_indexes }
    }

    /// The constraint that a trait holds of `args`.
    pub fn predicate(
        trait_name: &str,
        args: Vec<Ty>,
        var: TyVar,
        determinant_indexes: Vec<usize>,
    ) -> (c: Self)
        ensures
            c@ == (ConstraintV {
                var,
                trait_name: trait_name@,
                args: tys_view(args@),
                determinant_indexes: determinant_indexes@,
            }),
    {
        TraitConstraint { var, trait_name: trait_name.to_owned(), args, determinant_indexes }
    }
}

pub open spec fn unary_constraint(var: TyVar, trait_name: Seq<char>) -> ConstraintV {
    ConstraintV {
        var,
        trait_name,
        args: seq![TyV::Var(var)],
        determinant_indexes: seq![0usize],
    }
}

impl FuncParam {
    pub fn value(ty: Ty) -> (p: Self)
        ensures
            p.ty == ty,
            p.capability == ParamCapability::Value,
    {
        FuncParam { ty, capability: ParamCapability::Value }
    }

    pub fn mut_place(ty: Ty) -> (p: Self)
        ensures
            p.ty == ty,
            p.capability == ParamCapability::MutPlace,
    {
        FuncParam { ty, capability: ParamCapability::MutPlace }
    }
}

impl FuncReturn {
    pub fn value(ty: Ty) -> (r: Self)
        ensures
            *r.ty == ty,
            r.capability == ReturnCapability::Value,
    {
        FuncReturn { ty: Box::new(ty), capability: ReturnCapability::Value }
    }

    pub fn fresh_place(ty: Ty) -> (r: Self)
        ensures
            *r.ty == ty,
            r.capability == ReturnCapability::FreshPlace,
    {
        FuncReturn { ty: Box::new(ty), capability: ReturnCapability::FreshPlace }
    }
}

/// Parameters of the given types, all passed by value.
pub open spec fn value_params_view(tys: Seq<TyV>) -> Seq<ParamV> {
    Seq::new(
        tys.len(),
        |i: int| ParamV { ty: tys[i], capability: ParamCapability::Value },
    )
}

/// A result of the given type, returned by value.
pub open spec fn value_return_view(ty: TyV) -> ReturnV {
    ReturnV { ty: Box::new(ty), capability: ReturnCapability::Value }
}

pub fn value_func_params(params: Vec<Ty>) -> (r: Vec<FuncParam>)
    ensures
        params_view(r@) == value_params_view(tys_view(params@)),
        r@.len() == params@.len(),
        forall|i: int|
            0 <= i < r@.len() ==> (#[trigger] r@[i]).ty@ == params@[i]@ && r@[i].capability
                == ParamCapability::Value,
{
    let mut out: Vec<FuncParam> = Vec::new();
    let mut i: usize = 0;
    while i < params.len()
        invariant
            i <= params.len(),
            out@.len() == i,
            forall|j: int|
                0 <= j < i ==> (#[trigger] out@[j]).ty@ == params@[j]@ && out@[j].capability
                    == ParamCapability::Value,
        decreases params.len() - i,
    {
        out.push(FuncParam::value(params[i].clone()));
        i = i + 1;
    }
    assert(params_view(out@) =~= value_params_view(tys_view(params@)));
    out
}

pub fn value_func_return(ret: Ty) -> (r: FuncReturn)
    ensures
        r@ == value_return_view(ret@),
        *r.ty == ret,
        r.capability == ReturnCapability::Value,
{
    FuncReturn::value(ret)
}

impl ParamCapability {
    pub fn is_mut_place(self) -> (r: bool)
        ensures
            r == (self == ParamCapability::MutPlace),
    {
        match self {
            ParamCapability::MutPlace => true,
            ParamCapability::Value => false,
        }
    }
}

// ---------------------------------------------------------------------------
// Schemes and what an environment knows of a name
// ---------------------------------------------------------------------------

#[derive(Debug, Clone, Copy, Default)]
pub struct BindingCapabilities {
    pub place_mutable: bool,
}

#[derive(Debug, Default)]
pub struct CallableCapabilities {
    pub param_capabilities: Vec<ParamCapability>,
}

/// Copies a list of capabilities.
pub fn clone_capabilities(items: &Vec<ParamCapability>) -> (r: Vec<ParamCapability>)
    ensures
        r@ == items@,
{
    let mut out: Vec<ParamCapability> = Vec::new();
    let mut i: usize = 0;
    while i < items.len()
        invariant
            i <= items.len(),
            out@ == items@.take(i as int),
        decreases items.len() - i,
    {
        out.push(items[i]);
        i = i + 1;
        assert(out@ =~= items@.take(i as int));
    }
    assert(out@ =~= items@);
    out
}

impl Clone for CallableCapabilities {
    fn clone(&self) -> (r: Self)
        ensures
            r.param_capabilities@ == self.param_capabilities@,
    {
        CallableCapabilities { param_capabilities: clone_capabilities(&self.param_capabilities) }
    }
}

/// A type with quantified variables and the constraints on them.
#[derive(Debug)]
pub struct Scheme {
    pub vars: Vec<TyVar>,
    pub constraints: Vec<TraitConstraint>,
    pub ty: Ty,
}

/// The view of a [`Scheme`].
pub struct SchemeV {
    pub vars: Seq<TyVar>,
    pub constraints: Seq<ConstraintV>,
    pub ty: TyV,
}

impl View for Scheme {
    type V = SchemeV;

    open spec fn view(&self) -> SchemeV {
        SchemeV {
            vars: self.vars@,
            constraints: constraints_view(self.constraints@),
            ty: self.ty@,
        }
    }
}

/// The scheme of a type with nothing quantified.
pub open spec fn mono_scheme(ty: TyV) -> SchemeV {
    SchemeV { vars: Seq::empty(), constraints: Seq::empty(), ty }
}

/// Copies a list of type variables.
pub fn clone_vars(vars: &Vec<TyVar>) -> (r: Vec<TyVar>)
    ensures
        r@ == vars@,
{
    let mut out: Vec<TyVar> = Vec::new();
    let mut i: usize = 0;
    while i < vars.len()
        invariant
            i <= vars.len(),
            out@ == vars@.take(i as int),
        decreases vars.len() - i,
    {
        out.push(vars[i]);
        i = i + 1;
        assert(out@ =~= vars@.take(i as int));
    }
    assert(out@ =~= vars@);
    out
}

impl Clone for Scheme {
    fn clone(&self) -> (r: Self)
        ensures
            r@ == self@,
    {
        Scheme {
            vars: clone_vars(&self.vars),
            constraints: clone_constraints(&self.constraints),
            ty: self.ty.clone(),
        }
    }
}

impl Scheme {
    pub fn mono(ty: Ty) -> (s: Self)
        ensures
            s@ == mono_scheme(ty@),
            s.ty == ty,
    {
        let s = Scheme { vars: Vec::new(), constraints: Vec::new(), ty };
        assert(constraints_view(s.constraints@) =~= Seq::empty());
        s
    }
}

#[derive(Debug)]
pub struct InherentMethodScheme {
    pub scheme: Scheme,
    pub has_receiver: bool,
}

impl Clone for InherentMethodScheme {
    fn clone(&self) -> (r: Self)
        ensures
            r.scheme@ == self.scheme@,
            r.has_receiver == self.has_receiver,
    {
        InherentMethodScheme { scheme: self.scheme.clone(), has_receiver: self.has_receiver }
    }
}

/// What an environment knows of a name: its scheme, whether it may be
/// assigned, whether the place it names may be mutated, and whether macro
/// bodies may use it.
#[derive(Debug)]
pub struct EnvInfo {
    pub scheme: Scheme,
    pub binding_mutable: bool,
    pub place_mutable: bool,
    pub macro_phase_available: bool,
}

/// The view of an [`EnvInfo`].
pub struct EnvInfoV {
    pub scheme: SchemeV,
    pub binding_mutable: bool,
    pub place_mutable: bool,
    pub macro_phase_available: bool,
}

impl View for EnvInfo {
    type V = EnvInfoV;

    open spec fn view(&self) -> EnvInfoV {
        EnvInfoV {
            scheme: self.scheme@,
            binding_mutable: self.binding_mutable,
            place_mutable: self.place_mutable,
            macro_phase_available: self.macro_phase_available,
        }
    }
}

/// An entry that may neither be assigned nor mutated in place.
pub open spec fn immutable_info(scheme: SchemeV) -> EnvInfoV {
    EnvInfoV {
        scheme,
        binding_mutable: false,
        place_mutable: false,
        macro_phase_available: false,
    }
}

impl Clone for EnvInfo {
    fn clone(&self) -> (r: Self)
        ensures
            r@ == self@,
    {
        EnvInfo {
            scheme: self.scheme.clone(),
            binding_mutable: self.binding_mutable,
            place_mutable: self.place_mutable,
            macro_phase_available: self.macro_phase_available,
        }
    }
}

impl EnvInfo {
    pub fn immutable(scheme: Scheme) -> (r: Self)
        ensures
            r@ == immutable_info(scheme@),
            r.scheme == scheme,
    {
        EnvInfo {
            scheme,
            binding_mutable: false,
            place_mutable: false,
            macro_phase_available: false,
        }
    }

    pub fn mutable_binding(scheme: Scheme) -> (r: Self)
        ensures
            r@ == (EnvInfoV { binding_mutable: true, ..immutable_info(scheme@) }),
            r.scheme == scheme,
    {
        EnvInfo {
            scheme,
            binding_mutable: true,
            place_mutable: false,
            macro_phase_available: false,
        }
    }

    pub fn mutable_place(scheme: Scheme) -> (r: Self)
        ensures
            r@ == (EnvInfoV {
                binding_mutable: true,
                place_mutable: true,
                ..immutable_info(scheme@)
            }),
            r.scheme == scheme,
    {
        EnvInfo {
            scheme,
            binding_mutable: true,
            place_mutable: true,
            macro_phase_available: false,
        }
    }

    pub fn with_place_mutable(self, place_mutable: bool) -> (r: Self)
        ensures
            r@ == (EnvInfoV { place_mutable, ..self@ }),
            r.scheme == self.scheme,
    {
        EnvInfo {
            scheme: self.scheme,
            binding_mutable: self.binding_mutable,
            place_mutable,
            macro_phase_available: self.macro_phase_available,
        }
    }

    pub fn with_macro_phase_available(self) -> (r: Self)
        ensures
            r@ == (EnvInfoV { macro_phase_available: true, ..self@ }),
            r.scheme == self.scheme,
    {
        EnvInfo {
            scheme: self.scheme,
            binding_mutable: self.binding_mutable,
            place_mutable: self.place_mutable,
            macro_phase_available: true,
        }
    }

    pub fn is_binding_mutable(&self) -> (r: bool)
        ensures
            r == self.binding_mutable,
    {
        self.binding_mutable
    }

    pub fn is_place_mutable(&self) -> (r: bool)
        ensures
            r == self.place_mutable,
    {
        self.place_mutable
    }
}

} // verus!
