//! Type errors and the places they point at.

use vstd::prelude::*;

use crate::ast::SourceSpan;
use crate::text::{clone_strings, strings_view};
use crate::ty::{Ty, TyV, TyVar};

verus! {

#[derive(Debug, PartialEq)]
#[allow(inconsistent_fields)]
pub enum TypeError {
    Mismatch(Ty, Ty),
    MismatchWithContext {
        context: Vec<TypeMismatchContext>,
        expected: Ty,
        got: Ty,
    },
    OccursCheck(TyVar),
    UnboundVariable(String),
    ImmutableAssignment(String),
    ImmutablePlace(String),
    ExpectedMutablePlace {
        subject: MutablePlaceSubject,
        reason: MutablePlaceErrorReason,
    },
    MutableParamMustBindName,
    MutableFunctionCapabilityMismatch,
    NotAFunction(Ty),
    ArityMismatch {
        expected: usize,
        got: usize,
    },
    TraitArityMismatch {
        trait_name: String,
        expected: usize,
        got: usize,
    },
    FunctionalDependencyViolation {
        trait_name: String,
        message: String,
    },
    InvalidTraitImplHead {
        trait_name: String,
        message: String,
    },
    InvalidTraitConstraint {
        trait_name: String,
        message: String,
    },
    InvalidAssignmentTarget,
    NonExhaustiveMatch {
        missing: String,
    },
    DuplicateOperator(String),
    MissingTraitMethod {
        trait_name: String,
        impl_target: String,
        method: String,
    },
    TraitMethodArityMismatch {
        trait_name: String,
        method: String,
        expected: usize,
        got: usize,
    },
    TraitMethodMissingTarget {
        trait_name: String,
        method: String,
    },
    DuplicateTypeTraitName(String),
    ExtraTraitMethod {
        trait_name: String,
        method: String,
    },
    BreakOutsideLoop,
    ContinueOutsideLoop,
    ReturnOutsideFunction,
    UnresolvedTrait {
        context: String,
        trait_name: String,
    },
    UnknownTrait(String),
    UnknownTraitMethod {
        trait_name: String,
        method: String,
    },
    UnknownImport(String),
    UnknownType(String),
    TypeAliasArityMismatch {
        name: String,
        expected: usize,
        got: usize,
    },
    TypeConstructorArityMismatch {
        name: String,
        expected: usize,
        got: usize,
    },
    RecursiveTypeAlias {
        name: String,
        cycle: Vec<String>,
    },
    DuplicateTypeParameter {
        owner: String,
        param: String,
    },
    DuplicateRecordField(String),
    UnknownVariant {
        nominal_name: String,
        variant: String,
    },
    UnknownPatternConstructor {
        constructor: String,
        scrutinee: Ty,
    },
    MissingTraitImpl {
        trait_name: String,
        impl_target: String,
    },
    AmbiguousTraitMethod {
        method: String,
        candidates: Vec<String>,
    },
    UnknownMethod {
        receiver: String,
        method: String,
    },
    UnknownMethodWithCandidates {
        receiver: String,
        method: String,
        candidates: Vec<String>,
    },
    UnknownMethodOnUnresolvedArray {
        receiver: String,
        method: String,
        candidates: Vec<String>,
    },
    InvalidTraitImplTarget(String),
    UnknownAssociatedFunction {
        target: String,
        function: String,
    },
    AssociatedFunctionAsMethod {
        target: String,
        function: String,
    },
    MethodRequiresReceiver {
        target: String,
        method: String,
    },
    AmbiguousMethodReceiver {
        method: String,
    },
    InvalidInherentImplTarget(String),
    DuplicateInherentMethod {
        target: String,
        method: String,
    },
    InherentMethodMissingReceiver {
        target: String,
        method: String,
    },
    DuplicateFunctionInGroup(String),
    DuplicateTestFunction(String),
    InvalidTestFunction {
        name: String,
        message: String,
    },
    InvalidMacroSignature {
        message: String,
    },
    /// A refutable pattern was used in a function-parameter position.
    /// Only irrefutable patterns (variable, wildcard, record, `[..rest]`) are allowed.
    RefutableParamPattern,
    /// A refutable pattern was used in a `let` binding.
    /// Only irrefutable patterns are allowed here; use `match` for refutable ones.
    RefutableLetPattern,
    /// What went wrong in an implementation that was derived.
    DerivedImplFailure {
        trait_name: String,
        error: Box<TypeError>,
    },
}

/// What a mutable place was expected for.
#[derive(Debug, Clone, Copy, PartialEq, Eq, Structural)]
pub enum MutablePlaceSubject {
    /// The argument at a position, counted from one.
    Argument(usize),
    ReturnValue,
}

/// Why an expression is not the mutable place that was expected.
#[derive(Debug, PartialEq, Eq)]
pub enum MutablePlaceErrorReason {
    NotAPlace,
    NotMutable(String),
    NotFresh,
}

/// The view of a [`MutablePlaceErrorReason`].
pub enum PlaceReasonV {
    NotAPlace,
    NotMutable(Seq<char>),
    NotFresh,
}

impl View for MutablePlaceErrorReason {
    type V = PlaceReasonV;

    open spec fn view(&self) -> PlaceReasonV {
        match *self {
            MutablePlaceErrorReason::NotAPlace => PlaceReasonV::NotAPlace,
            MutablePlaceErrorReason::NotMutable(name) => PlaceReasonV::NotMutable(name@),
            MutablePlaceErrorReason::NotFresh => PlaceReasonV::NotFresh,
        }
    }
}

impl Clone for MutablePlaceErrorReason {
    fn clone(&self) -> (r: Self)
        ensures
            r@ == self@,
    {
        match self {
            MutablePlaceErrorReason::NotAPlace => MutablePlaceErrorReason::NotAPlace,
            MutablePlaceErrorReason::NotMutable(name) => MutablePlaceErrorReason::NotMutable(
                name.clone(),
            ),
            MutablePlaceErrorReason::NotFresh => MutablePlaceErrorReason::NotFresh,
        }
    }
}

/// The part of a type in which two types disagree.
#[derive(Debug, PartialEq, Eq)]
pub enum TypeMismatchContext {
    FunctionParam(usize),
    FunctionReturn,
    TupleElement(usize),
    TypeArgument(usize),
    RecordField(String),
    RangeStart,
    RangeEnd,
}

/// The view of a [`TypeMismatchContext`].
pub enum ContextV {
    FunctionParam(usize),
    FunctionReturn,
    TupleElement(usize),
    TypeArgument(usize),
    RecordField(Seq<char>),
    RangeStart,
    RangeEnd,
}

impl View for TypeMismatchContext {
    type V = ContextV;

    open spec fn view(&self) -> ContextV {
        match *self {
            TypeMismatchContext::FunctionParam(i) => ContextV::FunctionParam(i),
            TypeMismatchContext::FunctionReturn => ContextV::FunctionReturn,
            TypeMismatchContext::TupleElement(i) => ContextV::TupleElement(i),
            TypeMismatchContext::TypeArgument(i) => ContextV::TypeArgument(i),
            TypeMismatchContext::RecordField(name) => ContextV::RecordField(name@),
            TypeMismatchContext::RangeStart => ContextV::RangeStart,
            TypeMismatchContext::RangeEnd => ContextV::RangeEnd,
        }
    }
}

impl Clone for TypeMismatchContext {
    fn clone(&self) -> (r: Self)
        ensures
            r@ == self@,
    {
        match self {
            TypeMismatchContext::FunctionParam(i) => TypeMismatchContext::FunctionParam(*i),
            TypeMismatchContext::FunctionReturn => TypeMismatchContext::FunctionReturn,
            TypeMismatchContext::TupleElement(i) => TypeMismatchContext::TupleElement(*i),
            TypeMismatchContext::TypeArgument(i) => TypeMismatchContext::TypeArgument(*i),
            TypeMismatchContext::RecordField(name) => TypeMismatchContext::RecordField(
                name.clone(),
            ),
            TypeMismatchContext::RangeStart => TypeMismatchContext::RangeStart,
            TypeMismatchContext::RangeEnd => TypeMismatchContext::RangeEnd,
        }
    }
}

/// The views of a list of contexts.
pub open spec fn contexts_view(s: Seq<TypeMismatchContext>) -> Seq<ContextV> {
    Seq::new(s.len(), |i: int| s[i]@)
}

fn clone_contexts(items: &Vec<TypeMismatchContext>) -> (r: Vec<TypeMismatchContext>)
    ensures
        contexts_view(r@) == contexts_view(items@),
{
    let mut out: Vec<TypeMismatchContext> = Vec::new();
    let mut i: usize = 0;
    while i < items.len()
        invariant
            i <= items.len(),
            out@.len() == i,
            forall|j: int| 0 <= j < i ==> (#[trigger] out@[j])@ == items@[j]@,
        decreases items.len() - i,
    {
        out.push(items[i].clone());
        i = i + 1;
    }
    assert(contexts_view(out@) =~= contexts_view(items@));
    out
}

/// The view of a [`TypeError`].
#[allow(inconsistent_fields)]
pub enum TypeErrorV {
    Mismatch(TyV, TyV),
    MismatchWithContext {
        context: Seq<ContextV>,
        expected: TyV,
        got: TyV,
    },
    OccursCheck(TyVar),
    UnboundVariable(Seq<char>),
    ImmutableAssignment(Seq<char>),
    ImmutablePlace(Seq<char>),
    ExpectedMutablePlace {
        subject: MutablePlaceSubject,
        reason: PlaceReasonV,
    },
    MutableParamMustBindName,
    MutableFunctionCapabilityMismatch,
    NotAFunction(TyV),
    ArityMismatch {
        expected: usize,
        got: usize,
    },
    TraitArityMismatch {
        trait_name: Seq<char>,
        expected: usize,
        got: usize,
    },
    FunctionalDependencyViolation {
        trait_name: Seq<char>,
        message: Seq<char>,
    },
    InvalidTraitImplHead {
        trait_name: Seq<char>,
        message: Seq<char>,
    },
    InvalidTraitConstraint {
        trait_name: Seq<char>,
        message: Seq<char>,
    },
    InvalidAssignmentTarget,
    NonExhaustiveMatch {
        missing: Seq<char>,
    },
    DuplicateOperator(Seq<char>),
    MissingTraitMethod {
        trait_name: Seq<char>,
        impl_target: Seq<char>,
        method: Seq<char>,
    },
    TraitMethodArityMismatch {
        trait_name: Seq<char>,
        method: Seq<char>,
        expected: usize,
        got: usize,
    },
    TraitMethodMissingTarget {
        trait_name: Seq<char>,
        method: Seq<char>,
    },
    DuplicateTypeTraitName(Seq<char>),
    ExtraTraitMethod {
        trait_name: Seq<char>,
        method: Seq<char>,
    },
    BreakOutsideLoop,
    ContinueOutsideLoop,
    ReturnOutsideFunction,
    UnresolvedTrait {
        context: Seq<char>,
        trait_name: Seq<char>,
    },
    UnknownTrait(Seq<char>),
    UnknownTraitMethod {
        trait_name: Seq<char>,
        method: Seq<char>,
    },
    UnknownImport(Seq<char>),
    UnknownType(Seq<char>),
    TypeAliasArityMismatch {
        name: Seq<char>,
        expected: usize,
        got: usize,
    },
    TypeConstructorArityMismatch {
        name: Seq<char>,
        expected: usize,
        got: usize,
    },
    RecursiveTypeAlias {
        name: Seq<char>,
        cycle: Seq<Seq<char>>,
    },
    DuplicateTypeParameter {
        owner: Seq<char>,
        param: Seq<char>,
    },
    DuplicateRecordField(Seq<char>),
    UnknownVariant {
        nominal_name: Seq<char>,
        variant: Seq<char>,
    },
    UnknownPatternConstructor {
        constructor: Seq<char>,
        scrutinee: TyV,
    },
    MissingTraitImpl {
        trait_name: Seq<char>,
        impl_target: Seq<char>,
    },
    AmbiguousTraitMethod {
        method: Seq<char>,
        candidates: Seq<Seq<char>>,
    },
    UnknownMethod {
        receiver: Seq<char>,
        method: Seq<char>,
    },
    UnknownMethodWithCandidates {
        receiver: Seq<char>,
        method: Seq<char>,
        candidates: Seq<Seq<char>>,
    },
    UnknownMethodOnUnresolvedArray {
        receiver: Seq<char>,
        method: Seq<char>,
        candidates: Seq<Seq<char>>,
    },
    InvalidTraitImplTarget(Seq<char>),
    UnknownAssociatedFunction {
        target: Seq<char>,
        function: Seq<char>,
    },
    AssociatedFunctionAsMethod {
        target: Seq<char>,
        function: Seq<char>,
    },
    MethodRequiresReceiver {
        target: Seq<char>,
        method: Seq<char>,
    },
    AmbiguousMethodReceiver {
        method: Seq<char>,
    },
    InvalidInherentImplTarget(Seq<char>),
    DuplicateInherentMethod {
        target: Seq<char>,
        method: Seq<char>,
    },
    InherentMethodMissingReceiver {
        target: Seq<char>,
        method: Seq<char>,
    },
    DuplicateFunctionInGroup(Seq<char>),
    DuplicateTestFunction(Seq<char>),
    InvalidTestFunction {
        name: Seq<char>,
        message: Seq<char>,
    },
    InvalidMacroSignature {
        message: Seq<char>,
    },
    RefutableParamPattern,
    RefutableLetPattern,
    DerivedImplFailure {
        trait_name: Seq<char>,
        error: Box<TypeErrorV>,
    },
}

/// The view of a [`TypeError`].
pub open spec fn error_view(x: TypeError) -> TypeErrorV
    decreases x,
{
    match x {
        TypeError::Mismatch(x, y) => TypeErrorV::Mismatch(x@, y@),
        TypeError::MismatchWithContext { context, expected, got } => TypeErrorV::MismatchWithContext {
            context: contexts_view(context@),
            expected: expected@,
            got: got@,
        },
        TypeError::OccursCheck(x) => TypeErrorV::OccursCheck(x),
        TypeError::UnboundVariable(x) => TypeErrorV::UnboundVariable(x@),
        TypeError::ImmutableAssignment(x) => TypeErrorV::ImmutableAssignment(x@),
        TypeError::ImmutablePlace(x) => TypeErrorV::ImmutablePlace(x@),
        TypeError::ExpectedMutablePlace { subject, reason } => TypeErrorV::ExpectedMutablePlace {
            subject: subject,
            reason: reason@,
        },
        TypeError::MutableParamMustBindName => TypeErrorV::MutableParamMustBindName,
        TypeError::MutableFunctionCapabilityMismatch => TypeErrorV::MutableFunctionCapabilityMismatch,
        TypeError::NotAFunction(x) => TypeErrorV::NotAFunction(x@),
        TypeError::ArityMismatch { expected, got } => TypeErrorV::ArityMismatch {
            expected: expected,
            got: got,
        },
        TypeError::TraitArityMismatch { trait_name, expected, got } => TypeErrorV::TraitArityMismatch {
            trait_name: trait_name@,
            expected: expected,
            got: got,
        },
        TypeError::FunctionalDependencyViolation { trait_name, message } => TypeErrorV::FunctionalDependencyViolation {
            trait_name: trait_name@,
            message: message@,
        },
        TypeError::InvalidTraitImplHead { trait_name, message } => TypeErrorV::InvalidTraitImplHead {
            trait_name: trait_name@,
            message: message@,
        },
        TypeError::InvalidTraitConstraint { trait_name, message } => TypeErrorV::InvalidTraitConstraint {
            trait_name: trait_name@,
            message: message@,
        },
        TypeError::InvalidAssignmentTarget => TypeErrorV::InvalidAssignmentTarget,
        TypeError::NonExhaustiveMatch { missing } => TypeErrorV::NonExhaustiveMatch {
            missing: missing@,
        },
        TypeError::DuplicateOperator(x) => TypeErrorV::DuplicateOperator(x@),
        TypeError::MissingTraitMethod { trait_name, impl_target, method } => TypeErrorV::MissingTraitMethod {
            trait_name: trait_name@,
            impl_target: impl_target@,
            method: method@,
        },
        TypeError::TraitMethodArityMismatch { trait_name, method, expected, got } => TypeErrorV::TraitMethodArityMismatch {
            trait_name: trait_name@,
            method: method@,
            expected: expected,
            got: got,
        },
        TypeError::TraitMethodMissingTarget { trait_name, method } => TypeErrorV::TraitMethodMissingTarget {
            trait_name: trait_name@,
            method: method@,
        },
        TypeError::DuplicateTypeTraitName(x) => TypeErrorV::DuplicateTypeTraitName(x@),
        TypeError::ExtraTraitMethod { trait_name, method } => TypeErrorV::ExtraTraitMethod {
            trait_name: trait_name@,
            method: method@,
        },
        TypeError::BreakOutsideLoop => TypeErrorV::BreakOutsideLoop,
        TypeError::ContinueOutsideLoop => TypeErrorV::ContinueOutsideLoop,
        TypeError::ReturnOutsideFunction => TypeErrorV::ReturnOutsideFunction,
        TypeError::UnresolvedTrait { context, trait_name } => TypeErrorV::UnresolvedTrait {
            context: context@,
            trait_name: trait_name@,
        },
        TypeError::UnknownTrait(x) => TypeErrorV::UnknownTrait(x@),
        TypeError::UnknownTraitMethod { trait_name, method } => TypeErrorV::UnknownTraitMethod {
            trait_name: trait_name@,
            method: method@,
        },
        TypeError::UnknownImport(x) => TypeErrorV::UnknownImport(x@),
        TypeError::UnknownType(x) => TypeErrorV::UnknownType(x@),
        TypeError::TypeAliasArityMismatch { name, expected, got } => TypeErrorV::TypeAliasArityMismatch {
            name: name@,
            expected: expected,
            got: got,
        },
        TypeError::TypeConstructorArityMismatch { name, expected, got } => TypeErrorV::TypeConstructorArityMismatch {
            name: name@,
            expected: expected,
            got: got,
        },
        TypeError::RecursiveTypeAlias { name, cycle } => TypeErrorV::RecursiveTypeAlias {
            name: name@,
            cycle: strings_view(cycle@),
        },
        TypeError::DuplicateTypeParameter { owner, param } => TypeErrorV::DuplicateTypeParameter {
            owner: owner@,
            param: param@,
        },
        TypeError::DuplicateRecordField(x) => TypeErrorV::DuplicateRecordField(x@),
        TypeError::UnknownVariant { nominal_name, variant } => TypeErrorV::UnknownVariant {
            nominal_name: nominal_name@,
            variant: variant@,
        },
        TypeError::UnknownPatternConstructor { constructor, scrutinee } => TypeErrorV::UnknownPatternConstructor {
            constructor: constructor@,
            scrutinee: scrutinee@,
        },
        TypeError::MissingTraitImpl { trait_name, impl_target } => TypeErrorV::MissingTraitImpl {
            trait_name: trait_name@,
            impl_target: impl_target@,
        },
        TypeError::AmbiguousTraitMethod { method, candidates } => TypeErrorV::AmbiguousTraitMethod {
            method: method@,
            candidates: strings_view(candidates@),
        },
        TypeError::UnknownMethod { receiver, method } => TypeErrorV::UnknownMethod {
            receiver: receiver@,
            method: method@,
        },
        TypeError::UnknownMethodWithCandidates { receiver, method, candidates } => TypeErrorV::UnknownMethodWithCandidates {
            receiver: receiver@,
            method: method@,
            candidates: strings_view(candidates@),
        },
        TypeError::UnknownMethodOnUnresolvedArray { receiver, method, candidates } => TypeErrorV::UnknownMethodOnUnresolvedArray {
            receiver: receiver@,
            method: method@,
            candidates: strings_view(candidates@),
        },
        TypeError::InvalidTraitImplTarget(x) => TypeErrorV::InvalidTraitImplTarget(x@),
        TypeError::UnknownAssociatedFunction { target, function } => TypeErrorV::UnknownAssociatedFunction {
            target: target@,
            function: function@,
        },
        TypeError::AssociatedFunctionAsMethod { target, function } => TypeErrorV::AssociatedFunctionAsMethod {
            target: target@,
            function: function@,
        },
        TypeError::MethodRequiresReceiver { target, method } => TypeErrorV::MethodRequiresReceiver {
            target: target@,
            method: method@,
        },
        TypeError::AmbiguousMethodReceiver { method } => TypeErrorV::AmbiguousMethodReceiver {
            method: method@,
        },
        TypeError::InvalidInherentImplTarget(x) => TypeErrorV::InvalidInherentImplTarget(x@),
        TypeError::DuplicateInherentMethod { target, method } => TypeErrorV::DuplicateInherentMethod {
            target: target@,
            method: method@,
        },
        TypeError::InherentMethodMissingReceiver { target, method } => TypeErrorV::InherentMethodMissingReceiver {
            target: target@,
            method: method@,
        },
        TypeError::DuplicateFunctionInGroup(x) => TypeErrorV::DuplicateFunctionInGroup(x@),
        TypeError::DuplicateTestFunction(x) => TypeErrorV::DuplicateTestFunction(x@),
        TypeError::InvalidTestFunction { name, message } => TypeErrorV::InvalidTestFunction {
            name: name@,
            message: message@,
        },
        TypeError::InvalidMacroSignature { message } => TypeErrorV::InvalidMacroSignature {
            message: message@,
        },
        TypeError::RefutableParamPattern => TypeErrorV::RefutableParamPattern,
        TypeError::RefutableLetPattern => TypeErrorV::RefutableLetPattern,
        TypeError::DerivedImplFailure { trait_name, error } => TypeErrorV::DerivedImplFailure {
            trait_name: trait_name@,
            error: Box::new(error_view(*error)),
        },
    }
}

impl View for TypeError {
    type V = TypeErrorV;

    open spec fn view(&self) -> TypeErrorV {
        error_view(*self)
    }
}

fn clone_error(e: &TypeError) -> (r: TypeError)
    ensures
        r@ == e@,
    decreases *e,
{
    match e {
        TypeError::Mismatch(x, y) => TypeError::Mismatch(x.clone(), y.clone()),
        TypeError::MismatchWithContext { context, expected, got } => TypeError::MismatchWithContext {
            context: clone_contexts(context),
            expected: expected.clone(),
            got: got.clone(),
        },
        TypeError::OccursCheck(x) => TypeError::OccursCheck(*x),
        TypeError::UnboundVariable(x) => TypeError::UnboundVariable(x.clone()),
        TypeError::ImmutableAssignment(x) => TypeError::ImmutableAssignment(x.clone()),
        TypeError::ImmutablePlace(x) => TypeError::ImmutablePlace(x.clone()),
        TypeError::ExpectedMutablePlace { subject, reason } => TypeError::ExpectedMutablePlace {
            subject: *subject,
            reason: reason.clone(),
        },
        TypeError::MutableParamMustBindName => TypeError::MutableParamMustBindName,
        TypeError::MutableFunctionCapabilityMismatch => TypeError::MutableFunctionCapabilityMismatch,
        TypeError::NotAFunction(x) => TypeError::NotAFunction(x.clone()),
        TypeError::ArityMismatch { expected, got } => TypeError::ArityMismatch {
            expected: *expected,
            got: *got,
        },
        TypeError::TraitArityMismatch { trait_name, expected, got } => TypeError::TraitArityMismatch {
            trait_name: trait_name.clone(),
            expected: *expected,
            got: *got,
        },
        TypeError::FunctionalDependencyViolation { trait_name, message } => TypeError::FunctionalDependencyViolation {
            trait_name: trait_name.clone(),
            message: message.clone(),
        },
        TypeError::InvalidTraitImplHead { trait_name, message } => TypeError::InvalidTraitImplHead {
            trait_name: trait_name.clone(),
            message: message.clone(),
        },
        TypeError::InvalidTraitConstraint { trait_name, message } => TypeError::InvalidTraitConstraint {
            trait_name: trait_name.clone(),
            message: message.clone(),
        },
        TypeError::InvalidAssignmentTarget => TypeError::InvalidAssignmentTarget,
        TypeError::NonExhaustiveMatch { missing } => TypeError::NonExhaustiveMatch {
            missing: missing.clone(),
        },
        TypeError::DuplicateOperator(x) => TypeError::DuplicateOperator(x.clone()),
        TypeError::MissingTraitMethod { trait_name, impl_target, method } => TypeError::MissingTraitMethod {
            trait_name: trait_name.clone(),
            impl_target: impl_target.clone(),
            method: method.clone(),
        },
        TypeError::TraitMethodArityMismatch { trait_name, method, expected, got } => TypeError::TraitMethodArityMismatch {
            trait_name: trait_name.clone(),
            method: method.clone(),
            expected: *expected,
            got: *got,
        },
        TypeError::TraitMethodMissingTarget { trait_name, method } => TypeError::TraitMethodMissingTarget {
            trait_name: trait_name.clone(),
            method: method.clone(),
        },
        TypeError::DuplicateTypeTraitName(x) => TypeError::DuplicateTypeTraitName(x.clone()),
        TypeError::ExtraTraitMethod { trait_name, method } => TypeError::ExtraTraitMethod {
            trait_name: trait_name.clone(),
            method: method.clone(),
        },
        TypeError::BreakOutsideLoop => TypeError::BreakOutsideLoop,
        TypeError::ContinueOutsideLoop => TypeError::ContinueOutsideLoop,
        TypeError::ReturnOutsideFunction => TypeError::ReturnOutsideFunction,
        TypeError::UnresolvedTrait { context, trait_name } => TypeError::UnresolvedTrait {
            context: context.clone(),
            trait_name: trait_name.clone(),
        },
        TypeError::UnknownTrait(x) => TypeError::UnknownTrait(x.clone()),
        TypeError::UnknownTraitMethod { trait_name, method } => TypeError::UnknownTraitMethod {
            trait_name: trait_name.clone(),
            method: method.clone(),
        },
        TypeError::UnknownImport(x) => TypeError::UnknownImport(x.clone()),
        TypeError::UnknownType(x) => TypeError::UnknownType(x.clone()),
        TypeError::TypeAliasArityMismatch { name, expected, got } => TypeError::TypeAliasArityMismatch {
            name: name.clone(),
            expected: *expected,
            got: *got,
        },
        TypeError::TypeConstructorArityMismatch { name, expected, got } => TypeError::TypeConstructorArityMismatch {
            name: name.clone(),
            expected: *expected,
            got: *got,
        },
        TypeError::RecursiveTypeAlias { name, cycle } => TypeError::RecursiveTypeAlias {
            name: name.clone(),
            cycle: clone_strings(cycle),
        },
        TypeError::DuplicateTypeParameter { owner, param } => TypeError::DuplicateTypeParameter {
            owner: owner.clone(),
            param: param.clone(),
        },
        TypeError::DuplicateRecordField(x) => TypeError::DuplicateRecordField(x.clone()),
        TypeError::UnknownVariant { nominal_name, variant } => TypeError::UnknownVariant {
            nominal_name: nominal_name.clone(),
            variant: variant.clone(),
        },
        TypeError::UnknownPatternConstructor { constructor, scrutinee } => TypeError::UnknownPatternConstructor {
            constructor: constructor.clone(),
            scrutinee: scrutinee.clone(),
        },
        TypeError::MissingTraitImpl { trait_name, impl_target } => TypeError::MissingTraitImpl {
            trait_name: trait_name.clone(),
            impl_target: impl_target.clone(),
        },
        TypeError::AmbiguousTraitMethod { method, candidates } => TypeError::AmbiguousTraitMethod {
            method: method.clone(),
            candidates: clone_strings(candidates),
        },
        TypeError::UnknownMethod { receiver, method } => TypeError::UnknownMethod {
            receiver: receiver.clone(),
            method: method.clone(),
        },
        TypeError::UnknownMethodWithCandidates { receiver, method, candidates } => TypeError::UnknownMethodWithCandidates {
            receiver: receiver.clone(),
            method: method.clone(),
            candidates: clone_strings(candidates),
        },
        TypeError::UnknownMethodOnUnresolvedArray { receiver, method, candidates } => TypeError::UnknownMethodOnUnresolvedArray {
            receiver: receiver.clone(),
            method: method.clone(),
            candidates: clone_strings(candidates),
        },
        TypeError::InvalidTraitImplTarget(x) => TypeError::InvalidTraitImplTarget(x.clone()),
        TypeError::UnknownAssociatedFunction { target, function } => TypeError::UnknownAssociatedFunction {
            target: target.clone(),
            function: function.clone(),
        },
        TypeError::AssociatedFunctionAsMethod { target, function } => TypeError::AssociatedFunctionAsMethod {
            target: target.clone(),
            function: function.clone(),
        },
        TypeError::MethodRequiresReceiver { target, method } => TypeError::MethodRequiresReceiver {
            target: target.clone(),
            method: method.clone(),
        },
        TypeError::AmbiguousMethodReceiver { method } => TypeError::AmbiguousMethodReceiver {
            method: method.clone(),
        },
        TypeError::InvalidInherentImplTarget(x) => TypeError::InvalidInherentImplTarget(x.clone()),
        TypeError::DuplicateInherentMethod { target, method } => TypeError::DuplicateInherentMethod {
            target: target.clone(),
            method: method.clone(),
        },
        TypeError::InherentMethodMissingReceiver { target, method } => TypeError::InherentMethodMissingReceiver {
            target: target.clone(),
            method: method.clone(),
        },
        TypeError::DuplicateFunctionInGroup(x) => TypeError::DuplicateFunctionInGroup(x.clone()),
        TypeError::DuplicateTestFunction(x) => TypeError::DuplicateTestFunction(x.clone()),
        TypeError::InvalidTestFunction { name, message } => TypeError::InvalidTestFunction {
            name: name.clone(),
            message: message.clone(),
        },
        TypeError::InvalidMacroSignature { message } => TypeError::InvalidMacroSignature {
            message: message.clone(),
        },
        TypeError::RefutableParamPattern => TypeError::RefutableParamPattern,
        TypeError::RefutableLetPattern => TypeError::RefutableLetPattern,
        TypeError::DerivedImplFailure { trait_name, error } => TypeError::DerivedImplFailure {
            trait_name: trait_name.clone(),
            error: Box::new(clone_error(error)),
        },
    }
}

impl Clone for TypeError {
    fn clone(&self) -> (r: Self)
        ensures
            r@ == self@,
    {
        clone_error(self)
    }
}

/// A type error with the place in the source that it points at, if known.
#[derive(Debug, PartialEq)]
pub struct SpannedTypeError {
    pub span: Option<SourceSpan>,
    pub error: Box<TypeError>,
}

/// The view of a [`SpannedTypeError`].
pub struct SpannedV {
    pub span: Option<SourceSpan>,
    pub error: TypeErrorV,
}

impl View for SpannedTypeError {
    type V = SpannedV;

    open spec fn view(&self) -> SpannedV {
        SpannedV { span: self.span, error: self.error@ }
    }
}

impl Clone for SpannedTypeError {
    fn clone(&self) -> (r: Self)
        ensures
            r@ == self@,
    {
        SpannedTypeError { span: self.span, error: Box::new((&*self.error).clone()) }
    }
}

/// `e`, known to point at no place.
pub open spec fn unspanned_error(e: TypeErrorV) -> SpannedV {
    SpannedV { span: None, error: e }
}

/// `e`, pointing at `span`.
pub open spec fn error_at(e: TypeErrorV, span: SourceSpan) -> SpannedV {
    SpannedV { span: Some(span), error: e }
}

/// `e`, pointing at `span` unless it points somewhere already.
pub open spec fn span_if_absent(e: SpannedV, span: SourceSpan) -> SpannedV {
    if e.span is None {
        SpannedV { span: Some(span), ..e }
    } else {
        e
    }
}

/// `e` with `context` as the outermost place of a mismatch; other errors are
/// left as they are.
pub open spec fn in_context(e: TypeErrorV, context: ContextV) -> TypeErrorV {
    match e {
        TypeErrorV::Mismatch(expected, got) => TypeErrorV::MismatchWithContext {
            context: seq![context],
            expected,
            got,
        },
        TypeErrorV::MismatchWithContext { context: inner, expected, got } => {
            TypeErrorV::MismatchWithContext { context: seq![context] + inner, expected, got }
        },
        _ => e,
    }
}

impl TypeError {
    pub fn at(self, span: SourceSpan) -> (r: SpannedTypeError)
        ensures
            r@ == error_at(self@, span),
            *r.error == self,
    {
        SpannedTypeError { span: Some(span), error: Box::new(self) }
    }

    pub fn unspanned(self) -> (r: SpannedTypeError)
        ensures
            r@ == unspanned_error(self@),
            *r.error == self,
    {
        SpannedTypeError { span: None, error: Box::new(self) }
    }

    /// Names the part of the types in which a mismatch was found.
    pub fn with_mismatch_context(self, context: TypeMismatchContext) -> (r: Self)
        ensures
            r@ == in_context(self@, context@),
    {
        match self {
            TypeError::Mismatch(expected, got) => {
                let mut list: Vec<TypeMismatchContext> = Vec::new();
                list.push(context);
                assert(contexts_view(list@) =~= seq![context@]);
                TypeError::MismatchWithContext { context: list, expected, got }
            },
            TypeError::MismatchWithContext { context: inner, expected, got } => {
                let mut list = inner;
                list.insert(0, context);
                assert(contexts_view(list@) =~= seq![context@] + contexts_view(inner@));
                TypeError::MismatchWithContext { context: list, expected, got }
            },
            other => other,
        }
    }
}

impl SpannedTypeError {
    pub fn with_span_if_absent(self, span: SourceSpan) -> (r: Self)
        ensures
            r@ == span_if_absent(self@, span),
    {
        match self.span {
            Some(_) => self,
            None => SpannedTypeError { span: Some(span), error: self.error },
        }
    }
}

impl From<TypeError> for SpannedTypeError {
    fn from(error: TypeError) -> (r: Self) {
        error.unspanned()
    }
}

impl vstd::std_specs::convert::FromSpecImpl<TypeError> for SpannedTypeError {
    open spec fn obeys_from_spec() -> bool {
        true
    }

    open spec fn from_spec(error: TypeError) -> Self {
        SpannedTypeError { span: None, error: Box::new(error) }
    }
}

} // verus!
