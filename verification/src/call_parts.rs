//! The parts of the rules for calls that look at no argument.

use vstd::prelude::*;

use crate::ast::{ArgWrapper, Expr, ExprKind, NodeId, PendingMethod, ResolvedCallee, SourceSpan};
use crate::ast::{TraitDef, TraitMethod, Type};
use crate::ast_view::{arg_wrappers_view, some_arg_wrapper_view, ArgWrapperV};
use crate::ast_view::{some_pending_method_view, some_resolved_callee_view, ExprKindV, ExprV};
use crate::ast_view::{exprs_view, PendingMethodV, ResolvedCalleeV, TraitDefV, TraitMethodV};
use crate::ast_view::{DictRefV, PendingDictArgV, TypeV};
use crate::apply::acyclic;
use crate::dispatch::{trait_call, unresolved, Dispatch, DispatchV};
use crate::ends::{arg_end, arg_res, is_lambda_or_grouped_lambda, lambda_like};
use crate::env::{EnvV, TypeEnv};
use crate::error::{SpannedV, SpannedTypeError, TypeError, TypeErrorV};
use crate::finish::noted_caps;
use crate::items::some_error;
use crate::places::{field_caps, imported_scheme, place_errors};
use crate::receiver::{candidates_view, fits_receiver, forget, receiver_use, CandidateV};
use crate::receiver::ReceiverTraitMethodMatch;
use crate::state::{callable_at, Infer, InferV, InherentMethodInfo, MethodInfoV};
use crate::steps::{equate, failed, ty_res, tys_res, Run};
use crate::subst::SubstCheckpoint;
use crate::text::strings_view;
use crate::ty::{constraints_view, Scheme, SchemeV, TraitConstraint};
use crate::ty::{param_view, params_view, tys_view, FuncParam, ParamCapability, ParamV, Ty, TyV};
use crate::ty_helpers::{caps_of, func_param_capabilities, opt_ty, ty_caps, ty_param_capabilities};

verus! {

/// The type of the parameter at a position, if there is one.
pub open spec fn param_at(params: Seq<ParamV>, at: int) -> Option<TyV> {
    if 0 <= at < params.len() {
        Some(params[at].ty)
    } else {
        None
    }
}

pub fn param_type_at(params: &Vec<FuncParam>, offset: usize, i: usize) -> (r: Option<Ty>)
    ensures
        opt_ty(r) == param_at(params_view(params@), offset + i),
{
    assert(params_view(params@).len() == params@.len());
    if offset <= params.len() && i < params.len() - offset {
        assert(params_view(params@)[offset + i] == param_view(params@[offset + i]));
        Some(params[offset + i].ty.clone())
    } else {
        None
    }
}

/// An argument: its type, and the dictionaries that it is given before it is passed.
pub struct ArgV {
    pub ty: TyV,
    pub wrapper: Option<ArgWrapperV>,
}

/// An argument, from its parts.
pub open spec fn arg_of(r: Result<(TyV, Option<ArgWrapperV>), SpannedV>) -> Result<ArgV, SpannedV> {
    match r {
        Ok(a) => Ok(ArgV { ty: a.0, wrapper: a.1 }),
        Err(e) => Err(e),
    }
}

/// The view of an argument.
pub open spec fn arg_struct(r: Result<(Ty, Option<ArgWrapper>), SpannedTypeError>) -> Result<
    ArgV,
    SpannedV,
> {
    arg_of(arg_res(r))
}

/// An argument once it has been checked.
#[verifier::opaque]
pub open spec fn arg_after(r: Run<ExprV, TyV>, env: EnvV) -> Run<ExprV, ArgV> {
    match r.res {
        Err(e) => Run { st: r.st, node: r.node, res: Err(e) },
        Ok(ty) => {
            let a = arg_end(r.st, env, r.node, ty);
            Run { st: a.0, node: r.node, res: arg_of(a.1) }
        },
    }
}

/// Arguments and their wrappers.
pub type ArgsV = (Seq<ExprV>, Seq<Option<ArgWrapperV>>);

/// The parts of a call of a method.
pub type MethodNodeV = (
    Seq<ExprV>,
    bool,
    Seq<Option<ArgWrapperV>>,
    Option<ResolvedCalleeV>,
    Seq<DictRefV>,
    Seq<PendingDictArgV>,
);

/// All arguments once they have been checked: mutable places where they are asked for.
#[verifier::opaque]
pub open spec fn args_after(
    r: Run<ArgsV, Seq<TyV>>,
    env: EnvV,
    params: Seq<ParamV>,
    offset: nat,
) -> Run<ArgsV, Seq<TyV>> {
    match r.res {
        Err(_) => r,
        Ok(_) => match place_errors(r.st, env, r.node.0, caps_of(params), offset) {
            Some(e) => Run { st: r.st, node: r.node, res: Err(e) },
            None => r,
        },
    }
}

/// What a call of a method of a trait leads to.
pub struct TraitRun {
    pub st: InferV,
    pub resolved: Option<ResolvedCalleeV>,
    pub pending: Option<PendingMethodV>,
    pub res: Result<TyV, SpannedV>,
}

/// A call of a method of a trait once the types of its arguments are known.
#[verifier::opaque]
pub open spec fn trait_finish(
    st: InferV,
    env: EnvV,
    def: TraitDefV,
    method: TraitMethodV,
    tys: Seq<TyV>,
    resolved: Option<ResolvedCalleeV>,
    pending: Option<PendingMethodV>,
) -> TraitRun {
    let d = trait_call(st, env, def, method, tys, "trait method call"@);
    match d.1 {
        Err(e) => TraitRun { st: d.0, resolved, pending, res: Err(e) },
        Ok(DispatchV::Resolved(ty, callee)) => TraitRun {
            st: d.0,
            resolved: Some(callee),
            pending,
            res: Ok(ty),
        },
        Ok(DispatchV::Pending(ty, method)) => TraitRun {
            st: d.0,
            resolved,
            pending: Some(method),
            res: Ok(ty),
        },
        Ok(DispatchV::Unknown) => TraitRun {
            st: d.0,
            resolved,
            pending,
            res: failed(unresolved("trait method call"@, def.name)),
        },
    }
}

/// The type that an argument is checked against: that of the parameter, if the argument
/// is a function without a name.
#[verifier::opaque]
pub open spec fn arg_expects(e: ExprV, expected: Option<TyV>) -> Option<TyV> {
    if lambda_like(e) {
        expected
    } else {
        None
    }
}

pub fn expected_of_arg(e: &Expr, expected: &Option<Ty>) -> (r: Option<Ty>)
    ensures
        opt_ty(r) == arg_expects(e@, opt_ty(*expected)),
{
    proof {
        reveal(arg_expects);
    }
    if is_lambda_or_grouped_lambda(e) {
        match expected {
            Some(ty) => Some(ty.clone()),
            None => None,
        }
    } else {
        None
    }
}

/// What the parameters of a callable ask for, or what is noted of it.
pub open spec fn known_caps(st: InferV, callable: TyV, id: NodeId) -> Seq<ParamCapability> {
    if callable is Func {
        ty_caps(callable)
    } else {
        callable_at(st.meta, id)
    }
}

/// The state once it is noted what a callable field asks for.
#[verifier::opaque]
pub open spec fn receiver_noted(st: InferV, receiver: ExprV, method: Seq<char>, id: NodeId) -> InferV {
    match imported_scheme(st, receiver, method) {
        Some(s) => if s.ty is Func {
            noted_caps(st, id, ty_caps(s.ty))
        } else {
            st
        },
        None => match field_caps(st, receiver, method) {
            Some(caps) => noted_caps(st, id, caps),
            None => st,
        },
    }
}

/// The view of an argument that stands before the written ones.
pub open spec fn lead_view(lead: Option<(Ty, SourceSpan)>) -> Option<(TyV, SourceSpan)> {
    match lead {
        Some(l) => Some((l.0@, l.1)),
        None => None,
    }
}

/// The types of the arguments that stand before the written ones.
pub open spec fn lead_tys(lead: Option<(TyV, SourceSpan)>) -> Seq<TyV> {
    match lead {
        Some(l) => seq![l.0],
        None => Seq::empty(),
    }
}

/// The place of the argument that stands before the written ones.
pub open spec fn lead_span(lead: Option<(TyV, SourceSpan)>) -> Option<SourceSpan> {
    match lead {
        Some(l) => Some(l.1),
        None => None,
    }
}

pub fn lead_types(lead: &Option<(Ty, SourceSpan)>) -> (r: Vec<Ty>)
    ensures
        tys_view(r@) == lead_tys(lead_view(*lead)),
{
    let mut out: Vec<Ty> = Vec::new();
    match lead {
        Some(l) => {
            out.push(l.0.clone());
            assert(tys_view(out@) =~= seq![l.0@]);
        },
        None => {
            assert(tys_view(out@) =~= Seq::empty());
        },
    }
    out
}

pub fn lead_place(lead: &Option<(Ty, SourceSpan)>) -> (r: Option<SourceSpan>)
    ensures
        r == lead_span(lead_view(*lead)),
{
    match lead {
        Some(l) => Some(l.1),
        None => None,
    }
}

/// Types followed by others.
pub fn append_types(first: Vec<Ty>, rest: Vec<Ty>) -> (r: Vec<Ty>)
    ensures
        tys_view(r@) == tys_view(first@) + tys_view(rest@),
{
    let mut out = first;
    let ghost start = tys_view(out@);
    let mut i: usize = 0;
    while i < rest.len()
        invariant
            i <= rest.len(),
            tys_view(out@) == start + tys_view(rest@).take(i as int),
        decreases rest.len() - i,
    {
        let ghost before = tys_view(out@);
        out.push(rest[i].clone());
        assert(tys_view(rest@)[i as int] == rest@[i as int]@);
        assert(tys_view(out@) =~= before.push(rest@[i as int]@));
        assert(tys_view(rest@).take(i + 1) =~= tys_view(rest@).take(i as int).push(
            tys_view(rest@)[i as int],
        ));
        assert(tys_view(out@) =~= start + tys_view(rest@).take(i + 1));
        i = i + 1;
    }
    assert(tys_view(rest@).take(i as int) =~= tys_view(rest@));
    out
}

pub fn push_type(tys: &mut Vec<Ty>, ty: Ty)
    ensures
        tys_view(final(tys)@) == tys_view(old(tys)@).push(ty@),
{
    tys.push(ty);
    assert(tys_view(tys@) =~= tys_view(old(tys)@).push(ty@));
}

pub fn push_wrapper(wrappers: &mut Vec<Option<ArgWrapper>>, wrapper: Option<ArgWrapper>)
    ensures
        arg_wrappers_view(final(wrappers)@) == arg_wrappers_view(old(wrappers)@).push(
            some_arg_wrapper_view(wrapper),
        ),
{
    wrappers.push(wrapper);
    assert(arg_wrappers_view(wrappers@) =~= arg_wrappers_view(old(wrappers)@).push(
        some_arg_wrapper_view(wrapper),
    ));
}

/// The names of the traits of methods.
pub open spec fn trait_names(cs: Seq<CandidateV>) -> Seq<Seq<char>> {
    Seq::new(cs.len(), |i: int| cs[i].def.name)
}

/// The error of a method that several traits offer.
pub open spec fn ambiguous(method: Seq<char>, cs: Seq<CandidateV>) -> TypeErrorV {
    TypeErrorV::AmbiguousTraitMethod { method, candidates: trait_names(cs) }
}

pub fn ambiguous_error(method: &String, cs: &Vec<ReceiverTraitMethodMatch>) -> (r: TypeError)
    ensures
        r@ == ambiguous(method@, candidates_view(cs@)),
{
    let ghost want = trait_names(candidates_view(cs@));
    let mut names: Vec<String> = Vec::new();
    let mut i: usize = 0;
    while i < cs.len()
        invariant
            i <= cs.len(),
            names@.len() == i,
            want == trait_names(candidates_view(cs@)),
            forall|j: int| 0 <= j < i ==> (#[trigger] names@[j])@ == want[j],
        decreases cs.len() - i,
    {
        assert(candidates_view(cs@)[i as int] == cs@[i as int]@);
        names.push(cs[i].trait_def.name.clone());
        i = i + 1;
    }
    assert(strings_view(names@) =~= want);
    TypeError::AmbiguousTraitMethod { method: method.clone(), candidates: names }
}

/// What trying a method of a trait leads to.
pub struct Trial {
    pub st: InferV,
    pub fits: bool,
}

/// What trying the methods of traits leads to.
pub struct Probed {
    pub st: InferV,
    /// The methods that fit all arguments.
    pub found: Seq<CandidateV>,
    /// The methods that fit the receiver.
    pub fits: Seq<CandidateV>,
}

/// Tries a method of a trait on arguments that have been checked.
#[verifier::opaque]
pub open spec fn trial_after(
    r: Run<ArgsV, Seq<TyV>>,
    env: EnvV,
    receiver_ty: TyV,
    c: CandidateV,
) -> Trial {
    match r.res {
        Err(_) => Trial { st: r.st, fits: false },
        Ok(tys) => {
            let u = receiver_use(r.st, env, receiver_ty, tys, c);
            Trial { st: u.0, fits: u.1 is Ok }
        },
    }
}

/// Takes down whether a method of a trait fits. What was solved meanwhile is forgotten.
#[verifier::opaque]
pub open spec fn probed(
    before: InferV,
    t: Trial,
    env: EnvV,
    receiver_ty: TyV,
    c: CandidateV,
    found: Seq<CandidateV>,
    fits: Seq<CandidateV>,
) -> Probed {
    let st = forget(t.st, before);
    if t.fits {
        Probed { st, found: found.push(c), fits: fits.push(c) }
    } else {
        let f = fits_receiver(st, env, receiver_ty, c);
        Probed {
            st: forget(f.0, st),
            found,
            fits: if f.1 {
                fits.push(c)
            } else {
                fits
            },
        }
    }
}

/// The method of a trait that is meant, if there is one: the only one that fits all
/// arguments, or else the only one that fits the receiver.
#[verifier::opaque]
pub open spec fn pick(
    found: Seq<CandidateV>,
    fits: Seq<CandidateV>,
    method: Seq<char>,
    given: nat,
) -> Result<Option<CandidateV>, TypeErrorV> {
    if found.len() > 1 {
        Err(ambiguous(method, found))
    } else if found.len() == 1 {
        Ok(Some(found[0]))
    } else if fits.len() == 1 {
        let wanted = fits[0].method.params.len();
        if wanted != given + 1 {
            Err(
                TypeErrorV::ArityMismatch {
                    expected: if wanted == 0 {
                        0
                    } else {
                        (wanted - 1) as usize
                    },
                    got: given as usize,
                },
            )
        } else {
            Ok(Some(fits[0]))
        }
    } else {
        Ok(None)
    }
}

/// The view of the method that is meant.
pub open spec fn pick_res(r: Result<Option<ReceiverTraitMethodMatch>, TypeError>) -> Result<
    Option<CandidateV>,
    TypeErrorV,
> {
    match r {
        Err(e) => Err(e@),
        Ok(None) => Ok(None),
        Ok(Some(c)) => Ok(Some(c@)),
    }
}

pub fn pick_candidate(
    found: &Vec<ReceiverTraitMethodMatch>,
    fits: &Vec<ReceiverTraitMethodMatch>,
    method: &String,
    given: usize,
) -> (r: Result<Option<ReceiverTraitMethodMatch>, TypeError>)
    ensures
        pick_res(r) == pick(
            candidates_view(found@),
            candidates_view(fits@),
            method@,
            given as nat,
        ),
{
    proof {
        reveal(pick);
    }
    assert(candidates_view(found@).len() == found@.len());
    assert(candidates_view(fits@).len() == fits@.len());
    if found.len() > 1 {
        Err(ambiguous_error(method, found))
    } else if found.len() == 1 {
        assert(candidates_view(found@)[0] == found@[0]@);
        Ok(Some(found[0].clone()))
    } else if fits.len() == 1 {
        assert(candidates_view(fits@)[0] == fits@[0]@);
        let wanted: usize = fits[0].method.params.len();
        assert(fits@[0]@.method.params.len() == wanted);
        if wanted == 0 || wanted - 1 != given {
            Err(
                TypeError::ArityMismatch {
                    expected: if wanted == 0 {
                        0
                    } else {
                        wanted - 1
                    },
                    got: given,
                },
            )
        } else {
            Ok(Some(fits[0].clone()))
        }
    } else {
        Ok(None)
    }
}

/// A result that is there.
pub open spec fn some_after<N>(r: Run<N, TyV>) -> Run<N, Option<TyV>> {
    Run {
        st: r.st,
        node: r.node,
        res: match r.res {
            Err(e) => Err(e),
            Ok(ty) => Ok(Some(ty)),
        },
    }
}

/// A call of a method of an array: its result is what is expected.
#[verifier::opaque]
pub open spec fn array_after<N>(r: Run<N, TyV>, expected: TyV) -> Run<N, TyV> {
    match r.res {
        Err(_) => r,
        Ok(ty) => {
            let u = equate(r.st, ty, expected);
            match u.1 {
                Some(e) => Run { st: u.0, node: r.node, res: failed(e) },
                None => Run { st: u.0, node: r.node, res: Ok(ty) },
            }
        },
    }
}

/// The error of a function that is called as a method though it takes no receiver.
pub open spec fn misuse_of(info: MethodInfoV, target: Seq<char>, method: Seq<char>) -> Option<
    TypeErrorV,
> {
    if info.has_receiver {
        None
    } else {
        Some(TypeErrorV::AssociatedFunctionAsMethod { target, function: method })
    }
}

pub fn misuse_error(info: &InherentMethodInfo, target: &String, method: &String) -> (r: Option<
    TypeError,
>)
    ensures
        some_error(r) == misuse_of(info@, target@, method@),
{
    if info.has_receiver {
        None
    } else {
        Some(
            TypeError::AssociatedFunctionAsMethod {
                target: target.clone(),
                function: method.clone(),
            },
        )
    }
}

/// Whether an error says that a type has no such member.
pub open spec fn is_unknown_member(e: TypeErrorV) -> bool {
    e is UnknownAssociatedFunction || e is InvalidInherentImplTarget
}

pub fn is_unknown_member_error(e: &SpannedTypeError) -> (r: bool)
    ensures
        r == is_unknown_member(e@.error),
{
    match &*e.error {
        TypeError::UnknownAssociatedFunction { .. } => true,
        TypeError::InvalidInherentImplTarget(_) => true,
        _ => false,
    }
}

/// Constraints followed by others.
pub fn append_constraints(first: Vec<TraitConstraint>, rest: Vec<TraitConstraint>) -> (r: Vec<
    TraitConstraint,
>)
    ensures
        constraints_view(r@) == constraints_view(first@) + constraints_view(rest@),
{
    let mut out = first;
    let mut more = rest;
    out.append(&mut more);
    assert(constraints_view(out@) =~= constraints_view(first@) + constraints_view(rest@));
    out
}

pub fn is_var_type(ty: &Ty) -> (r: bool)
    ensures
        r == (ty@ is Var),
{
    match ty {
        Ty::Var(_) => true,
        _ => false,
    }
}

/// A member of a type or a trait, as it is written.
pub struct MemberV {
    pub target: TypeV,
    pub target_span: SourceSpan,
    pub member: Seq<char>,
    pub member_span: SourceSpan,
}

pub struct Member {
    pub target: Type,
    pub target_span: SourceSpan,
    pub member: String,
    pub member_span: SourceSpan,
}

impl View for Member {
    type V = MemberV;

    open spec fn view(&self) -> MemberV {
        MemberV {
            target: self.target@,
            target_span: self.target_span,
            member: self.member@,
            member_span: self.member_span,
        }
    }
}

/// The forms of calls.
pub enum FormV {
    /// A member of a type or a trait.
    Associated(MemberV),
    /// Something that follows a dot.
    Dot,
    /// A name whose scheme has constraints.
    Constrained(SchemeV),
    /// Anything else.
    Plain,
}

pub enum Form {
    Associated(Member),
    Dot,
    Constrained(Scheme),
    Plain,
}

impl View for Form {
    type V = FormV;

    open spec fn view(&self) -> FormV {
        match self {
            Form::Associated(m) => FormV::Associated(m@),
            Form::Dot => FormV::Dot,
            Form::Constrained(s) => FormV::Constrained(s@),
            Form::Plain => FormV::Plain,
        }
    }
}

/// The form of a call of this.
pub open spec fn form_of(env: EnvV, callee: ExprV) -> FormV {
    match callee.kind {
        ExprKindV::AssociatedAccess { target, target_span, member, member_span, .. } => {
            FormV::Associated(MemberV { target, target_span, member, member_span })
        },
        ExprKindV::FieldAccess { .. } => FormV::Dot,
        ExprKindV::Ident(name) => if env.dom().contains(name)
            && env[name].scheme.constraints.len() > 0 {
            FormV::Constrained(env[name].scheme)
        } else {
            FormV::Plain
        },
        _ => FormV::Plain,
    }
}

pub fn call_form(env: &TypeEnv, callee: &Expr) -> (r: Form)
    ensures
        r@ == form_of(env@, callee@),
{
    match &callee.kind {
        ExprKind::AssociatedAccess { target, target_span, member, member_span, .. } => {
            Form::Associated(
                Member {
                    target: target.clone(),
                    target_span: *target_span,
                    member: member.clone(),
                    member_span: *member_span,
                },
            )
        },
        ExprKind::FieldAccess { .. } => Form::Dot,
        ExprKind::Ident(name) => match env.get(name) {
            Some(info) => {
                assert(info@.scheme.constraints.len() == info.scheme.constraints@.len());
                if info.scheme.constraints.len() > 0 {
                    Form::Constrained(info.scheme.clone())
                } else {
                    Form::Plain
                }
            },
            None => Form::Plain,
        },
        _ => Form::Plain,
    }
}

impl Infer {
    pub fn arg_after(&mut self, env: &TypeEnv, e: &Expr, found: Result<Ty, SpannedTypeError>) -> (r:
        Result<(Ty, Option<ArgWrapper>), SpannedTypeError>)
        requires
            old(self).wf(),
        ensures
            final(self).wf(),
            (Run { st: final(self)@, node: e@, res: arg_struct(r) }) == arg_after(
                (Run { st: old(self)@, node: e@, res: ty_res(found) }),
                env@,
            ),
    {
        proof {
            reveal(arg_after);
        }
        match found {
            Err(error) => Err(error),
            Ok(ty) => self.arg_end(env, e, ty),
        }
    }

    pub fn args_after(
        &self,
        env: &TypeEnv,
        args: &Vec<Expr>,
        found: Result<Vec<Ty>, SpannedTypeError>,
        params: &Vec<FuncParam>,
        offset: usize,
    ) -> (r: Result<Vec<Ty>, SpannedTypeError>)
        ensures
            forall|w: Seq<Option<ArgWrapperV>>|
                (Run { st: self@, node: (exprs_view(args@), w), res: tys_res(r) })
                    == #[trigger] args_after(
                    (Run { st: self@, node: (exprs_view(args@), w), res: tys_res(found) }),
                    env@,
                    params_view(params@),
                    offset as nat,
                ),
    {
        proof {
            reveal(args_after);
        }
        match found {
            Err(error) => Err(error),
            Ok(tys) => {
                let caps = func_param_capabilities(params);
                match self.check_mutable_place_args_from(env, args, &caps, offset) {
                    Err(error) => Err(error),
                    Ok(_) => Ok(tys),
                }
            },
        }
    }

    pub fn trial_after(
        &mut self,
        env: &TypeEnv,
        found: Result<Vec<Ty>, SpannedTypeError>,
        receiver_ty: &Ty,
        c: &ReceiverTraitMethodMatch,
        Ghost(node): Ghost<ArgsV>,
    ) -> (r: bool)
        requires
            old(self).wf(),
        ensures
            final(self).wf(),
            (Trial { st: final(self)@, fits: r }) == trial_after(
                (Run { st: old(self)@, node, res: tys_res(found) }),
                env@,
                receiver_ty@,
                c@,
            ),
    {
        proof {
            reveal(trial_after);
        }
        match found {
            Err(_) => false,
            Ok(tys) => match self.try_receiver_trait_method(env, receiver_ty, &tys, c) {
                Err(_) => false,
                Ok(_) => true,
            },
        }
    }

    pub fn after_trial(
        &mut self,
        mark: SubstCheckpoint,
        matched: bool,
        env: &TypeEnv,
        receiver_ty: &Ty,
        c: &ReceiverTraitMethodMatch,
        found: &mut Vec<ReceiverTraitMethodMatch>,
        fits: &mut Vec<ReceiverTraitMethodMatch>,
        Ghost(before): Ghost<InferV>,
    )
        requires
            old(self).wf(),
            mark@ == before.subst.map,
            acyclic(mark@),
        ensures
            final(self).wf(),
            (Probed {
                st: final(self)@,
                found: candidates_view(final(found)@),
                fits: candidates_view(final(fits)@),
            }) == probed(
                before,
                (Trial { st: old(self)@, fits: matched }),
                env@,
                receiver_ty@,
                c@,
                candidates_view(old(found)@),
                candidates_view(old(fits)@),
            ),
    {
        proof {
            reveal(probed);
        }
        self.subst.restore_checkpoint(mark);
        assert(self@ == forget(old(self)@, before));
        if matched {
            found.push(c.clone());
            fits.push(c.clone());
            assert(candidates_view(found@) =~= candidates_view(old(found)@).push(c@));
            assert(candidates_view(fits@) =~= candidates_view(old(fits)@).push(c@));
        } else {
            let ghost middle = self@;
            let mark = self.subst.checkpoint();
            let fitting = self.receiver_trait_method_matches_receiver(env, receiver_ty, c);
            self.subst.restore_checkpoint(mark);
            assert(self@ == forget(fits_receiver(middle, env@, receiver_ty@, c@).0, middle));
            if fitting {
                fits.push(c.clone());
                assert(candidates_view(fits@) =~= candidates_view(old(fits)@).push(c@));
            }
        }
    }

    pub fn array_after(&mut self, found: Result<Ty, SpannedTypeError>, expected: &Ty) -> (r: Result<
        Ty,
        SpannedTypeError,
    >)
        requires
            old(self).wf(),
        ensures
            final(self).wf(),
            forall|node: MethodNodeV|
                (Run { st: final(self)@, node, res: ty_res(r) }) == #[trigger] array_after(
                    (Run { st: old(self)@, node, res: ty_res(found) }),
                    expected@,
                ),
    {
        proof {
            reveal(array_after);
        }
        match found {
            Err(error) => Err(error),
            Ok(ty) => match self.equate(ty.clone(), expected.clone()) {
                Err(error) => Err(error.unspanned()),
                Ok(_) => Ok(ty),
            },
        }
    }

    pub fn trait_finish(
        &mut self,
        env: &TypeEnv,
        def: &TraitDef,
        method: &TraitMethod,
        tys: &Vec<Ty>,
        resolved: &mut Option<ResolvedCallee>,
        pending: &mut Option<PendingMethod>,
    ) -> (r: Result<Ty, SpannedTypeError>)
        requires
            old(self).wf(),
        ensures
            final(self).wf(),
            (TraitRun {
                st: final(self)@,
                resolved: some_resolved_callee_view(*final(resolved)),
                pending: some_pending_method_view(*final(pending)),
                res: ty_res(r),
            }) == trait_finish(
                old(self)@,
                env@,
                def@,
                method@,
                tys_view(tys@),
                some_resolved_callee_view(*old(resolved)),
                some_pending_method_view(*old(pending)),
            ),
    {
        proof {
            reveal(trait_finish);
        }
        match self.dispatch_trait_method(env, def, method, tys, "trait method call") {
            Err(e) => Err(e),
            Ok(Dispatch::Resolved(ty, callee)) => {
                *resolved = Some(callee);
                Ok(ty)
            },
            Ok(Dispatch::Pending(ty, method)) => {
                *pending = Some(method);
                Ok(ty)
            },
            Ok(Dispatch::Unknown) => Err(
                TypeError::UnresolvedTrait {
                    context: "trait method call".to_owned(),
                    trait_name: def.name.clone(),
                }.unspanned(),
            ),
        }
    }

    pub fn known_capabilities(&self, callable: &Ty, id: NodeId) -> (r: Vec<ParamCapability>)
        ensures
            r@ == known_caps(self@, callable@, id),
    {
        match callable {
            Ty::Func(_, _) => ty_param_capabilities(callable),
            _ => self.metadata.callable_capabilities_for(id),
        }
    }

    pub fn note_receiver(&mut self, receiver: &Expr, method: &String, id: NodeId)
        requires
            old(self).wf(),
        ensures
            final(self).wf(),
            final(self)@ == receiver_noted(old(self)@, receiver@, method@, id),
    {
        proof {
            reveal(receiver_noted);
        }
        match self.imported_member_scheme(receiver, method) {
            Some(s) => match &s.ty {
                Ty::Func(_, _) => {
                    let caps = ty_param_capabilities(&s.ty);
                    self.note_capabilities(id, caps);
                },
                _ => {},
            },
            None => match self.field_capabilities(receiver, method) {
                Some(caps) => {
                    self.note_capabilities(id, caps);
                },
                None => {},
            },
        }
    }
}

} // verus!
