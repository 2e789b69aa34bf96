//! What type errors say.

use vstd::prelude::*;

use crate::display::{display_ty_with_var_names, letter_names, name_vars, ty_text};
use crate::display::{contains_char, NamesV};
use crate::error::{contexts_view, ContextV, MutablePlaceErrorReason, MutablePlaceSubject};
use crate::error::{PlaceReasonV, SpannedTypeError, SpannedV, TypeError, TypeErrorV};
use crate::error::TypeMismatchContext;
use crate::text::{decimal, decimal_string, join, join_strings, strings_view};
use crate::ty::{Ty, TyV, TyVar};
use crate::vars::{display_vars, free_type_vars_in_display_order, push_new_var};

verus! {

/// The text of a context, with positions counted from one.
pub open spec fn context_text(c: ContextV) -> Seq<char> {
    match c {
        ContextV::FunctionParam(index) => "function parameter "@ + decimal((index + 1) as nat),
        ContextV::FunctionReturn => "function return"@,
        ContextV::TupleElement(index) => "tuple element "@ + decimal((index + 1) as nat),
        ContextV::TypeArgument(index) => "type argument "@ + decimal((index + 1) as nat),
        ContextV::RecordField(name) => "record field `"@ + name + "`"@,
        ContextV::RangeStart => "range start bound"@,
        ContextV::RangeEnd => "range end bound"@,
    }
}

pub open spec fn context_texts(cs: Seq<ContextV>) -> Seq<Seq<char>> {
    Seq::new(cs.len(), |i: int| context_text(cs[i]))
}

impl TypeMismatchContext {
    /// The context as text.
    pub fn to_string(&self) -> (s: String)
        ensures
            s@ == context_text(self@),
    {
        let mut out = String::new();
        match self {
            TypeMismatchContext::FunctionParam(index) => {
                out.append("function parameter ");
                out.append(decimal_string(*index as u128 + 1).as_str());
            },
            TypeMismatchContext::FunctionReturn => {
                out.append("function return");
            },
            TypeMismatchContext::TupleElement(index) => {
                out.append("tuple element ");
                out.append(decimal_string(*index as u128 + 1).as_str());
            },
            TypeMismatchContext::TypeArgument(index) => {
                out.append("type argument ");
                out.append(decimal_string(*index as u128 + 1).as_str());
            },
            TypeMismatchContext::RecordField(name) => {
                out.append("record field `");
                out.append(name.as_str());
                out.append("`");
            },
            TypeMismatchContext::RangeStart => {
                out.append("range start bound");
            },
            TypeMismatchContext::RangeEnd => {
                out.append("range end bound");
            },
        }
        assert(out@ =~= context_text(self@));
        out
    }
}

/// The variables of two types in the order in which they are read, the first
/// type first.
pub open spec fn mismatch_vars(expected: TyV, got: TyV) -> Seq<TyVar> {
    push_new_vars(display_vars(Seq::empty(), expected), display_vars(Seq::empty(), got))
}

/// `vars` followed by those of `more` that are not listed yet.
pub open spec fn push_new_vars(vars: Seq<TyVar>, more: Seq<TyVar>) -> Seq<TyVar>
    decreases more.len(),
{
    if more.len() == 0 {
        vars
    } else {
        crate::vars::add_var(push_new_vars(vars, more.drop_last()), more.last())
    }
}

/// Names shared by both types of a mismatch.
pub open spec fn mismatch_names(expected: TyV, got: TyV) -> NamesV {
    letter_names(mismatch_vars(expected, got))
}

/// The end of a mismatch: what was expected and what was found.
pub open spec fn expected_got_text(expected: TyV, got: TyV) -> Seq<char> {
    let names = mismatch_names(expected, got);
    ": expected `"@ + ty_text(names, expected) + "`, got `"@ + ty_text(names, got) + "`"@
}

fn display_mismatch_types(expected: &Ty, got: &Ty) -> (r: (String, String))
    ensures
        r.0@ == ty_text(mismatch_names(expected@, got@), expected@),
        r.1@ == ty_text(mismatch_names(expected@, got@), got@),
{
    let mut vars = free_type_vars_in_display_order(expected);
    let more = free_type_vars_in_display_order(got);
    let ghost start = vars@;
    let mut i: usize = 0;
    assert(more@.take(0) =~= Seq::empty());
    while i < more.len()
        invariant
            i <= more.len(),
            vars@ == push_new_vars(start, more@.take(i as int)),
        decreases more.len() - i,
    {
        push_new_var(&mut vars, more[i]);
        proof {
            let next = more@.take(i + 1);
            assert(next.drop_last() =~= more@.take(i as int));
        }
        i = i + 1;
    }
    assert(more@.take(more@.len() as int) =~= more@);
    let names = name_vars(&vars);
    (display_ty_with_var_names(expected, &names), display_ty_with_var_names(got, &names))
}

/// The plural ending for a count.
pub open spec fn plural_suffix(n: usize) -> Seq<char> {
    if n == 1 {
        ""@
    } else {
        "s"@
    }
}

fn plural(n: usize) -> (s: &'static str)
    ensures
        s@ == plural_suffix(n),
{
    if n == 1 {
        ""
    } else {
        "s"
    }
}

/// A note for receivers whose type still holds a variable.
pub open spec fn unresolved_note(receiver: Seq<char>) -> Seq<char> {
    if receiver.contains('\'') {
        "; the receiver type is still unresolved"@
    } else {
        ""@
    }
}

fn unresolved(receiver: &str) -> (s: &'static str)
    ensures
        s@ == unresolved_note(receiver@),
{
    if contains_char(receiver, '\'') {
        "; the receiver type is still unresolved"
    } else {
        ""
    }
}

/// What a mutable place was expected for.
pub open spec fn subject_text(s: MutablePlaceSubject) -> Seq<char> {
    match s {
        MutablePlaceSubject::Argument(position) => "argument "@ + decimal(position as nat),
        MutablePlaceSubject::ReturnValue => "return value"@,
    }
}

/// Why something is not the mutable place that was expected.
pub open spec fn reason_text(r: PlaceReasonV) -> Seq<char> {
    match r {
        PlaceReasonV::NotAPlace => " must be a mutable place"@,
        PlaceReasonV::NotMutable(name) => " must be a mutable place: `"@ + name
            + "` is not mutable"@,
        PlaceReasonV::NotFresh => " must be a fresh mutable place"@,
    }
}

/// The text of a type error, other than the failure of a derived implementation.
pub open spec fn plain_text(e: TypeErrorV) -> Seq<char> {
    match e {
        TypeErrorV::Mismatch(expected, got) => "type mismatch"@ + expected_got_text(expected, got),
        TypeErrorV::MismatchWithContext { context, expected, got } => {
            if context.len() > 0 {
                "type mismatch in "@ + join(context_texts(context), ", "@) + expected_got_text(
                    expected,
                    got,
                )
            } else {
                "type mismatch"@ + expected_got_text(expected, got)
            }
        },
        TypeErrorV::ExpectedMutablePlace { subject, reason } => subject_text(subject) + reason_text(
            reason,
        ),
        TypeErrorV::OccursCheck(x) => "infinite type: '"@ + decimal(x as nat) + " occurs in its own definition"@,
        TypeErrorV::UnboundVariable(x) => "unbound variable: `"@ + x + "`"@,
        TypeErrorV::ImmutableAssignment(x) => "cannot assign to immutable variable `"@ + x + "`"@,
        TypeErrorV::ImmutablePlace(x) => "cannot mutate fields of `"@ + x + "`: it is not an owned mutable place"@,
        TypeErrorV::MutableParamMustBindName => "mutable place parameters must bind a single name"@,
        TypeErrorV::MutableFunctionCapabilityMismatch => "mutable function parameter requirements are incompatible with this function type"@,
        TypeErrorV::NotAFunction(x) => "expected a function, got `"@ + ty_text(Map::empty(), x) + "`"@,
        TypeErrorV::ArityMismatch { expected, got } => "wrong number of arguments: expected "@ + decimal(expected as nat) + ", got "@ + decimal(got as nat),
        TypeErrorV::TraitArityMismatch { trait_name, expected, got } => "trait `"@ + trait_name + "` expects "@ + decimal(expected as nat) + " type argument"@ + plural_suffix(expected) + ", got "@ + decimal(got as nat),
        TypeErrorV::FunctionalDependencyViolation { trait_name, message } => "impl for `"@ + trait_name + "` violates functional dependency: "@ + message,
        TypeErrorV::InvalidTraitImplHead { trait_name, message } => "invalid impl head for trait `"@ + trait_name + "`: "@ + message,
        TypeErrorV::InvalidTraitConstraint { trait_name, message } => "invalid constraint for trait `"@ + trait_name + "`: "@ + message,
        TypeErrorV::InvalidAssignmentTarget => "invalid assignment target"@,
        TypeErrorV::NonExhaustiveMatch { missing } => "non-exhaustive match: "@ + missing,
        TypeErrorV::DuplicateOperator(x) => "operator `"@ + x + "` is defined in multiple traits"@,
        TypeErrorV::MissingTraitMethod { trait_name, impl_target, method } => "impl "@ + trait_name + " for "@ + impl_target + " is missing method `"@ + method + "`"@,
        TypeErrorV::TraitMethodArityMismatch { trait_name, method, expected, got } => "impl method `"@ + method + "` for trait `"@ + trait_name + "` has wrong number of arguments: expected "@ + decimal(expected as nat) + ", got "@ + decimal(got as nat),
        TypeErrorV::TraitMethodMissingTarget { trait_name, method } => "trait method `"@ + method + "` in trait `"@ + trait_name + "` must have at least one parameter"@,
        TypeErrorV::DuplicateTypeTraitName(x) => "name `"@ + x + "` is already defined as both a type and a trait in this scope"@,
        TypeErrorV::ExtraTraitMethod { trait_name, method } => "method `"@ + method + "` is not defined in trait `"@ + trait_name + "`"@,
        TypeErrorV::BreakOutsideLoop => "`break` outside of a loop"@,
        TypeErrorV::ContinueOutsideLoop => "`continue` outside of a loop"@,
        TypeErrorV::ReturnOutsideFunction => "`return` outside of a function"@,
        TypeErrorV::UnresolvedTrait { context, trait_name } => "could not resolve `"@ + trait_name + "` implementation for "@ + context + " context"@,
        TypeErrorV::UnknownTrait(x) => "unknown trait: `"@ + x + "`"@,
        TypeErrorV::UnknownTraitMethod { trait_name, method } => "trait `"@ + trait_name + "` has no method `"@ + method + "`"@,
        TypeErrorV::UnknownImport(x) => "unknown import: `"@ + x + "`"@,
        TypeErrorV::UnknownType(x) => "unknown type: `"@ + x + "`"@,
        TypeErrorV::TypeAliasArityMismatch { name, expected, got } => "type alias `"@ + name + "` expects "@ + decimal(expected as nat) + " type argument"@ + plural_suffix(expected) + ", got "@ + decimal(got as nat),
        TypeErrorV::TypeConstructorArityMismatch { name, expected, got } => "type constructor `"@ + name + "` expects "@ + decimal(expected as nat) + " type argument"@ + plural_suffix(expected) + ", got "@ + decimal(got as nat),
        TypeErrorV::RecursiveTypeAlias { cycle, .. } => "recursive type alias cycle `"@ + join(cycle, " -> "@) + "` is not supported; use a nominal type constructor instead"@,
        TypeErrorV::DuplicateTypeParameter { owner, param } => "duplicate type parameter `"@ + param + "` in `"@ + owner + "`"@,
        TypeErrorV::DuplicateRecordField(x) => "duplicate record field `"@ + x + "`"@,
        TypeErrorV::UnknownVariant { nominal_name, variant } => "type `"@ + nominal_name + "` has no variant `"@ + variant + "`"@,
        TypeErrorV::UnknownPatternConstructor { constructor, scrutinee } => "cannot match constructor `"@ + constructor + "` against `"@ + ty_text(Map::empty(), scrutinee) + "`: expected a nominal type"@,
        TypeErrorV::MissingTraitImpl { trait_name, impl_target } => "trait `"@ + trait_name + "` is not implemented for `"@ + impl_target + "`"@,
        TypeErrorV::AmbiguousTraitMethod { method, candidates } => "ambiguous method `"@ + method + "`: defined in multiple traits ("@ + join(candidates, ", "@) + "); use explicit TraitName::"@ + method + "() syntax to disambiguate"@,
        TypeErrorV::UnknownMethod { receiver, method } => "type `"@ + receiver + "` has no method `"@ + method + "`"@,
        TypeErrorV::UnknownMethodWithCandidates { receiver, method, candidates } => "type `"@ + receiver + "` has no method `"@ + method + "`"@ + unresolved_note(receiver) + "; available candidates: "@ + join(candidates, ", "@),
        TypeErrorV::UnknownMethodOnUnresolvedArray { receiver, method, candidates } => "type `"@ + receiver + "` has no method `"@ + method + "`; the array element type is unknown, so Hern cannot choose a specialized method; available candidates: "@ + join(candidates, ", "@) + "; add an element type annotation such as `[int]` or `[float]`"@,
        TypeErrorV::InvalidTraitImplTarget(x) => "invalid trait impl target `"@ + x + "`: expected a named type, type application, or tuple"@,
        TypeErrorV::UnknownAssociatedFunction { target, function } => "type `"@ + target + "` has no associated function `"@ + function + "`"@,
        TypeErrorV::AssociatedFunctionAsMethod { target, function } => "associated function `"@ + function + "` for `"@ + target + "` must be called with `"@ + target + "::"@ + function + "`"@,
        TypeErrorV::MethodRequiresReceiver { target, method } => "method `"@ + method + "` for `"@ + target + "` requires a receiver; call it with `value."@ + method + "`"@,
        TypeErrorV::AmbiguousMethodReceiver { method } => "cannot resolve method `"@ + method + "` because the receiver type is unconstrained; add a type annotation"@,
        TypeErrorV::InvalidInherentImplTarget(x) => "invalid inherent impl target `"@ + x + "`: expected a nominal type or one of `string`, `int`, `float`, `bool`"@,
        TypeErrorV::DuplicateInherentMethod { target, method } => "method `"@ + method + "` is already defined for inherent impl target `"@ + target + "`"@,
        TypeErrorV::InherentMethodMissingReceiver { target, method } => "inherent method `"@ + method + "` for `"@ + target + "` must have a first receiver parameter"@,
        TypeErrorV::DuplicateFunctionInGroup(x) => "function `"@ + x + "` is defined more than once in this group"@,
        TypeErrorV::DuplicateTestFunction(x) => "test function `"@ + x + "` is defined more than once"@,
        TypeErrorV::InvalidTestFunction { name, message } => "invalid test function `"@ + name + "`: "@ + message,
        TypeErrorV::InvalidMacroSignature { message } => "invalid macro signature: "@ + message,
        TypeErrorV::RefutableParamPattern => "refutable pattern in function parameter: only variable, wildcard, record, and rest-list patterns are allowed here; use a match expression in the body instead"@,
        TypeErrorV::RefutableLetPattern => "refutable pattern in let binding: only variable, wildcard, record, tuple, and rest-list patterns are allowed here; use match instead"@,
        TypeErrorV::DerivedImplFailure { .. } => ""@,
    }
}

/// The text of an error. A derived implementation that fails is told like what failed in it.
pub open spec fn error_text(e: TypeErrorV) -> Seq<char>
    decreases e,
{
    match e {
        TypeErrorV::DerivedImplFailure { error, .. } => error_text(*error),
        _ => plain_text(e),
    }
}

spec fn in_part_0(e: TypeErrorV) -> bool {
    match e {
        TypeErrorV::OccursCheck(..)
        | TypeErrorV::UnboundVariable(..)
        | TypeErrorV::ImmutableAssignment(..)
        | TypeErrorV::ImmutablePlace(..)
        | TypeErrorV::MutableParamMustBindName
        | TypeErrorV::MutableFunctionCapabilityMismatch
        | TypeErrorV::NotAFunction(..)
        | TypeErrorV::ArityMismatch { .. }
        | TypeErrorV::TraitArityMismatch { .. } => true,
        _ => false,
    }
}

spec fn in_part_1(e: TypeErrorV) -> bool {
    match e {
        TypeErrorV::FunctionalDependencyViolation { .. }
        | TypeErrorV::InvalidTraitImplHead { .. }
        | TypeErrorV::InvalidTraitConstraint { .. }
        | TypeErrorV::InvalidAssignmentTarget
        | TypeErrorV::NonExhaustiveMatch { .. }
        | TypeErrorV::DuplicateOperator(..)
        | TypeErrorV::MissingTraitMethod { .. }
        | TypeErrorV::TraitMethodArityMismatch { .. }
        | TypeErrorV::TraitMethodMissingTarget { .. } => true,
        _ => false,
    }
}

spec fn in_part_2(e: TypeErrorV) -> bool {
    match e {
        TypeErrorV::DuplicateTypeTraitName(..)
        | TypeErrorV::ExtraTraitMethod { .. }
        | TypeErrorV::BreakOutsideLoop
        | TypeErrorV::ContinueOutsideLoop
        | TypeErrorV::ReturnOutsideFunction
        | TypeErrorV::UnresolvedTrait { .. }
        | TypeErrorV::UnknownTrait(..)
        | TypeErrorV::UnknownTraitMethod { .. }
        | TypeErrorV::UnknownImport(..) => true,
        _ => false,
    }
}

spec fn in_part_3(e: TypeErrorV) -> bool {
    match e {
        TypeErrorV::UnknownType(..)
        | TypeErrorV::TypeAliasArityMismatch { .. }
        | TypeErrorV::TypeConstructorArityMismatch { .. }
        | TypeErrorV::RecursiveTypeAlias { .. }
        | TypeErrorV::DuplicateTypeParameter { .. }
        | TypeErrorV::DuplicateRecordField(..)
        | TypeErrorV::UnknownVariant { .. }
        | TypeErrorV::UnknownPatternConstructor { .. }
        | TypeErrorV::MissingTraitImpl { .. } => true,
        _ => false,
    }
}

spec fn in_part_4(e: TypeErrorV) -> bool {
    match e {
        TypeErrorV::AmbiguousTraitMethod { .. }
        | TypeErrorV::UnknownMethod { .. }
        | TypeErrorV::UnknownMethodWithCandidates { .. }
        | TypeErrorV::UnknownMethodOnUnresolvedArray { .. }
        | TypeErrorV::InvalidTraitImplTarget(..)
        | TypeErrorV::UnknownAssociatedFunction { .. }
        | TypeErrorV::AssociatedFunctionAsMethod { .. }
        | TypeErrorV::MethodRequiresReceiver { .. }
        | TypeErrorV::AmbiguousMethodReceiver { .. } => true,
        _ => false,
    }
}

spec fn in_part_5(e: TypeErrorV) -> bool {
    match e {
        TypeErrorV::InvalidInherentImplTarget(..)
        | TypeErrorV::DuplicateInherentMethod { .. }
        | TypeErrorV::InherentMethodMissingReceiver { .. }
        | TypeErrorV::DuplicateFunctionInGroup(..)
        | TypeErrorV::DuplicateTestFunction(..)
        | TypeErrorV::InvalidTestFunction { .. }
        | TypeErrorV::InvalidMacroSignature { .. }
        | TypeErrorV::RefutableParamPattern
        | TypeErrorV::RefutableLetPattern => true,
        _ => false,
    }
}

fn append_expected_got(out: &mut String, expected: &Ty, got: &Ty)
    ensures
        final(out)@ == old(out)@ + expected_got_text(expected@, got@),
{
    let (left, right) = display_mismatch_types(expected, got);
    out.append(": expected `");
    out.append(left.as_str());
    out.append("`, got `");
    out.append(right.as_str());
    out.append("`");
    assert(out@ =~= old(out)@ + expected_got_text(expected@, got@));
}

fn text_of_contexts(context: &Vec<TypeMismatchContext>) -> (s: String)
    ensures
        s@ == join(context_texts(contexts_view(context@)), ", "@),
{
    let mut parts: Vec<String> = Vec::new();
    let mut i: usize = 0;
    while i < context.len()
        invariant
            i <= context.len(),
            parts@.len() == i,
            forall|j: int| 0 <= j < i ==> (#[trigger] parts@[j])@ == context_text(context@[j]@),
        decreases context.len() - i,
    {
        parts.push(context[i].to_string());
        i = i + 1;
    }
    assert(strings_view(parts@) =~= context_texts(contexts_view(context@)));
    join_strings(&parts, ", ")
}

fn text_of_place(subject: &MutablePlaceSubject, reason: &MutablePlaceErrorReason) -> (s: String)
    ensures
        s@ == subject_text(*subject) + reason_text(reason@),
{
    let mut out = String::new();
    match subject {
        MutablePlaceSubject::Argument(position) => {
            out.append("argument ");
            out.append(decimal_string(*position as u128).as_str());
        },
        MutablePlaceSubject::ReturnValue => {
            out.append("return value");
        },
    }
    assert(out@ =~= subject_text(*subject));
    match reason {
        MutablePlaceErrorReason::NotAPlace => {
            out.append(" must be a mutable place");
        },
        MutablePlaceErrorReason::NotMutable(name) => {
            out.append(" must be a mutable place: `");
            out.append(name.as_str());
            out.append("` is not mutable");
        },
        MutablePlaceErrorReason::NotFresh => {
            out.append(" must be a fresh mutable place");
        },
    }
    assert(out@ =~= subject_text(*subject) + reason_text(reason@));
    out
}

/// The text of some kinds of error; `None` for the others.
fn text_part_0(error: &TypeError) -> (r: Option<String>)
    ensures
        r matches Some(s) ==> s@ == plain_text(error@),
        r is None ==> !in_part_0(error@),
{
    let mut out = String::new();
    match error {
        TypeError::OccursCheck(x) => {
            out.append("infinite type: '");
            out.append(decimal_string(*x as u128).as_str());
            out.append(" occurs in its own definition");
            assert(out@ =~= "infinite type: '"@ + decimal(*x as nat) + " occurs in its own definition"@);
        },
        TypeError::UnboundVariable(x) => {
            out.append("unbound variable: `");
            out.append(x.as_str());
            out.append("`");
            assert(out@ =~= "unbound variable: `"@ + x@ + "`"@);
        },
        TypeError::ImmutableAssignment(x) => {
            out.append("cannot assign to immutable variable `");
            out.append(x.as_str());
            out.append("`");
            assert(out@ =~= "cannot assign to immutable variable `"@ + x@ + "`"@);
        },
        TypeError::ImmutablePlace(x) => {
            out.append("cannot mutate fields of `");
            out.append(x.as_str());
            out.append("`: it is not an owned mutable place");
            assert(out@ =~= "cannot mutate fields of `"@ + x@ + "`: it is not an owned mutable place"@);
        },
        TypeError::MutableParamMustBindName => {
            out.append("mutable place parameters must bind a single name");
            assert(out@ =~= "mutable place parameters must bind a single name"@);
        },
        TypeError::MutableFunctionCapabilityMismatch => {
            out.append("mutable function parameter requirements are incompatible with this function type");
            assert(out@ =~= "mutable function parameter requirements are incompatible with this function type"@);
        },
        TypeError::NotAFunction(x) => {
            out.append("expected a function, got `");
            out.append(x.to_string().as_str());
            out.append("`");
            assert(out@ =~= "expected a function, got `"@ + ty_text(Map::empty(), x@) + "`"@);
        },
        TypeError::ArityMismatch { expected, got } => {
            out.append("wrong number of arguments: expected ");
            out.append(decimal_string(*expected as u128).as_str());
            out.append(", got ");
            out.append(decimal_string(*got as u128).as_str());
            assert(out@ =~= "wrong number of arguments: expected "@ + decimal(*expected as nat) + ", got "@ + decimal(*got as nat));
        },
        TypeError::TraitArityMismatch { trait_name, expected, got } => {
            out.append("trait `");
            out.append(trait_name.as_str());
            out.append("` expects ");
            out.append(decimal_string(*expected as u128).as_str());
            out.append(" type argument");
            out.append(plural(*expected));
            out.append(", got ");
            out.append(decimal_string(*got as u128).as_str());
            assert(out@ =~= "trait `"@ + trait_name@ + "` expects "@ + decimal(*expected as nat) + " type argument"@ + plural_suffix(*expected) + ", got "@ + decimal(*got as nat));
        },
        _ => {
            return None;
        },
    }
    Some(out)
}

/// The text of some kinds of error; `None` for the others.
fn text_part_1(error: &TypeError) -> (r: Option<String>)
    ensures
        r matches Some(s) ==> s@ == plain_text(error@),
        r is None ==> !in_part_1(error@),
{
    let mut out = String::new();
    match error {
        TypeError::FunctionalDependencyViolation { trait_name, message } => {
            out.append("impl for `");
            out.append(trait_name.as_str());
            out.append("` violates functional dependency: ");
            out.append(message.as_str());
            assert(out@ =~= "impl for `"@ + trait_name@ + "` violates functional dependency: "@ + message@);
        },
        TypeError::InvalidTraitImplHead { trait_name, message } => {
            out.append("invalid impl head for trait `");
            out.append(trait_name.as_str());
            out.append("`: ");
            out.append(message.as_str());
            assert(out@ =~= "invalid impl head for trait `"@ + trait_name@ + "`: "@ + message@);
        },
        TypeError::InvalidTraitConstraint { trait_name, message } => {
            out.append("invalid constraint for trait `");
            out.append(trait_name.as_str());
            out.append("`: ");
            out.append(message.as_str());
            assert(out@ =~= "invalid constraint for trait `"@ + trait_name@ + "`: "@ + message@);
        },
        TypeError::InvalidAssignmentTarget => {
            out.append("invalid assignment target");
            assert(out@ =~= "invalid assignment target"@);
        },
        TypeError::NonExhaustiveMatch { missing } => {
            out.append("non-exhaustive match: ");
            out.append(missing.as_str());
            assert(out@ =~= "non-exhaustive match: "@ + missing@);
        },
        TypeError::DuplicateOperator(x) => {
            out.append("operator `");
            out.append(x.as_str());
            out.append("` is defined in multiple traits");
            assert(out@ =~= "operator `"@ + x@ + "` is defined in multiple traits"@);
        },
        TypeError::MissingTraitMethod { trait_name, impl_target, method } => {
            out.append("impl ");
            out.append(trait_name.as_str());
            out.append(" for ");
            out.append(impl_target.as_str());
            out.append(" is missing method `");
            out.append(method.as_str());
            out.append("`");
            assert(out@ =~= "impl "@ + trait_name@ + " for "@ + impl_target@ + " is missing method `"@ + method@ + "`"@);
        },
        TypeError::TraitMethodArityMismatch { trait_name, method, expected, got } => {
            out.append("impl method `");
            out.append(method.as_str());
            out.append("` for trait `");
            out.append(trait_name.as_str());
            out.append("` has wrong number of arguments: expected ");
            out.append(decimal_string(*expected as u128).as_str());
            out.append(", got ");
            out.append(decimal_string(*got as u128).as_str());
            assert(out@ =~= "impl method `"@ + method@ + "` for trait `"@ + trait_name@ + "` has wrong number of arguments: expected "@ + decimal(*expected as nat) + ", got "@ + decimal(*got as nat));
        },
        TypeError::TraitMethodMissingTarget { trait_name, method } => {
            out.append("trait method `");
            out.append(method.as_str());
            out.append("` in trait `");
            out.append(trait_name.as_str());
            out.append("` must have at least one parameter");
            assert(out@ =~= "trait method `"@ + method@ + "` in trait `"@ + trait_name@ + "` must have at least one parameter"@);
        },
        _ => {
            return None;
        },
    }
    Some(out)
}

/// The text of some kinds of error; `None` for the others.
fn text_part_2(error: &TypeError) -> (r: Option<String>)
    ensures
        r matches Some(s) ==> s@ == plain_text(error@),
        r is None ==> !in_part_2(error@),
{
    let mut out = String::new();
    match error {
        TypeError::DuplicateTypeTraitName(x) => {
            out.append("name `");
            out.append(x.as_str());
            out.append("` is already defined as both a type and a trait in this scope");
            assert(out@ =~= "name `"@ + x@ + "` is already defined as both a type and a trait in this scope"@);
        },
        TypeError::ExtraTraitMethod { trait_name, method } => {
            out.append("method `");
            out.append(method.as_str());
            out.append("` is not defined in trait `");
            out.append(trait_name.as_str());
            out.append("`");
            assert(out@ =~= "method `"@ + method@ + "` is not defined in trait `"@ + trait_name@ + "`"@);
        },
        TypeError::BreakOutsideLoop => {
            out.append("`break` outside of a loop");
            assert(out@ =~= "`break` outside of a loop"@);
        },
        TypeError::ContinueOutsideLoop => {
            out.append("`continue` outside of a loop");
            assert(out@ =~= "`continue` outside of a loop"@);
        },
        TypeError::ReturnOutsideFunction => {
            out.append("`return` outside of a function");
            assert(out@ =~= "`return` outside of a function"@);
        },
        TypeError::UnresolvedTrait { context, trait_name } => {
            out.append("could not resolve `");
            out.append(trait_name.as_str());
            out.append("` implementation for ");
            out.append(context.as_str());
            out.append(" context");
            assert(out@ =~= "could not resolve `"@ + trait_name@ + "` implementation for "@ + context@ + " context"@);
        },
        TypeError::UnknownTrait(x) => {
            out.append("unknown trait: `");
            out.append(x.as_str());
            out.append("`");
            assert(out@ =~= "unknown trait: `"@ + x@ + "`"@);
        },
        TypeError::UnknownTraitMethod { trait_name, method } => {
            out.append("trait `");
            out.append(trait_name.as_str());
            out.append("` has no method `");
            out.append(method.as_str());
            out.append("`");
            assert(out@ =~= "trait `"@ + trait_name@ + "` has no method `"@ + method@ + "`"@);
        },
        TypeError::UnknownImport(x) => {
            out.append("unknown import: `");
            out.append(x.as_str());
            out.append("`");
            assert(out@ =~= "unknown import: `"@ + x@ + "`"@);
        },
        _ => {
            return None;
        },
    }
    Some(out)
}

/// The text of some kinds of error; `None` for the others.
fn text_part_3(error: &TypeError) -> (r: Option<String>)
    ensures
        r matches Some(s) ==> s@ == plain_text(error@),
        r is None ==> !in_part_3(error@),
{
    let mut out = String::new();
    match error {
        TypeError::UnknownType(x) => {
            out.append("unknown type: `");
            out.append(x.as_str());
            out.append("`");
            assert(out@ =~= "unknown type: `"@ + x@ + "`"@);
        },
        TypeError::TypeAliasArityMismatch { name, expected, got } => {
            out.append("type alias `");
            out.append(name.as_str());
            out.append("` expects ");
            out.append(decimal_string(*expected as u128).as_str());
            out.append(" type argument");
            out.append(plural(*expected));
            out.append(", got ");
            out.append(decimal_string(*got as u128).as_str());
            assert(out@ =~= "type alias `"@ + name@ + "` expects "@ + decimal(*expected as nat) + " type argument"@ + plural_suffix(*expected) + ", got "@ + decimal(*got as nat));
        },
        TypeError::TypeConstructorArityMismatch { name, expected, got } => {
            out.append("type constructor `");
            out.append(name.as_str());
            out.append("` expects ");
            out.append(decimal_string(*expected as u128).as_str());
            out.append(" type argument");
            out.append(plural(*expected));
            out.append(", got ");
            out.append(decimal_string(*got as u128).as_str());
            assert(out@ =~= "type constructor `"@ + name@ + "` expects "@ + decimal(*expected as nat) + " type argument"@ + plural_suffix(*expected) + ", got "@ + decimal(*got as nat));
        },
        TypeError::RecursiveTypeAlias { cycle, .. } => {
            out.append("recursive type alias cycle `");
            out.append(join_strings(cycle, " -> ").as_str());
            out.append("` is not supported; use a nominal type constructor instead");
            assert(out@ =~= "recursive type alias cycle `"@ + join(strings_view(cycle@), " -> "@) + "` is not supported; use a nominal type constructor instead"@);
        },
        TypeError::DuplicateTypeParameter { owner, param } => {
            out.append("duplicate type parameter `");
            out.append(param.as_str());
            out.append("` in `");
            out.append(owner.as_str());
            out.append("`");
            assert(out@ =~= "duplicate type parameter `"@ + param@ + "` in `"@ + owner@ + "`"@);
        },
        TypeError::DuplicateRecordField(x) => {
            out.append("duplicate record field `");
            out.append(x.as_str());
            out.append("`");
            assert(out@ =~= "duplicate record field `"@ + x@ + "`"@);
        },
        TypeError::UnknownVariant { nominal_name, variant } => {
            out.append("type `");
            out.append(nominal_name.as_str());
            out.append("` has no variant `");
            out.append(variant.as_str());
            out.append("`");
            assert(out@ =~= "type `"@ + nominal_name@ + "` has no variant `"@ + variant@ + "`"@);
        },
        TypeError::UnknownPatternConstructor { constructor, scrutinee } => {
            out.append("cannot match constructor `");
            out.append(constructor.as_str());
            out.append("` against `");
            out.append(scrutinee.to_string().as_str());
            out.append("`: expected a nominal type");
            assert(out@ =~= "cannot match constructor `"@ + constructor@ + "` against `"@ + ty_text(Map::empty(), scrutinee@) + "`: expected a nominal type"@);
        },
        TypeError::MissingTraitImpl { trait_name, impl_target } => {
            out.append("trait `");
            out.append(trait_name.as_str());
            out.append("` is not implemented for `");
            out.append(impl_target.as_str());
            out.append("`");
            assert(out@ =~= "trait `"@ + trait_name@ + "` is not implemented for `"@ + impl_target@ + "`"@);
        },
        _ => {
            return None;
        },
    }
    Some(out)
}

/// The text of some kinds of error; `None` for the others.
fn text_part_4(error: &TypeError) -> (r: Option<String>)
    ensures
        r matches Some(s) ==> s@ == plain_text(error@),
        r is None ==> !in_part_4(error@),
{
    let mut out = String::new();
    match error {
        TypeError::AmbiguousTraitMethod { method, candidates } => {
            out.append("ambiguous method `");
            out.append(method.as_str());
            out.append("`: defined in multiple traits (");
            out.append(join_strings(candidates, ", ").as_str());
            out.append("); use explicit TraitName::");
            out.append(method.as_str());
            out.append("() syntax to disambiguate");
            assert(out@ =~= "ambiguous method `"@ + method@ + "`: defined in multiple traits ("@ + join(strings_view(candidates@), ", "@) + "); use explicit TraitName::"@ + method@ + "() syntax to disambiguate"@);
        },
        TypeError::UnknownMethod { receiver, method } => {
            out.append("type `");
            out.append(receiver.as_str());
            out.append("` has no method `");
            out.append(method.as_str());
            out.append("`");
            assert(out@ =~= "type `"@ + receiver@ + "` has no method `"@ + method@ + "`"@);
        },
        TypeError::UnknownMethodWithCandidates { receiver, method, candidates } => {
            out.append("type `");
            out.append(receiver.as_str());
            out.append("` has no method `");
            out.append(method.as_str());
            out.append("`");
            out.append(unresolved(receiver.as_str()));
            out.append("; available candidates: ");
            out.append(join_strings(candidates, ", ").as_str());
            assert(out@ =~= "type `"@ + receiver@ + "` has no method `"@ + method@ + "`"@ + unresolved_note(receiver@) + "; available candidates: "@ + join(strings_view(candidates@), ", "@));
        },
        TypeError::UnknownMethodOnUnresolvedArray { receiver, method, candidates } => {
            out.append("type `");
            out.append(receiver.as_str());
            out.append("` has no method `");
            out.append(method.as_str());
            out.append("`; the array element type is unknown, so Hern cannot choose a specialized method; available candidates: ");
            out.append(join_strings(candidates, ", ").as_str());
            out.append("; add an element type annotation such as `[int]` or `[float]`");
            assert(out@ =~= "type `"@ + receiver@ + "` has no method `"@ + method@ + "`; the array element type is unknown, so Hern cannot choose a specialized method; available candidates: "@ + join(strings_view(candidates@), ", "@) + "; add an element type annotation such as `[int]` or `[float]`"@);
        },
        TypeError::InvalidTraitImplTarget(x) => {
            out.append("invalid trait impl target `");
            out.append(x.as_str());
            out.append("`: expected a named type, type application, or tuple");
            assert(out@ =~= "invalid trait impl target `"@ + x@ + "`: expected a named type, type application, or tuple"@);
        },
        TypeError::UnknownAssociatedFunction { target, function } => {
            out.append("type `");
            out.append(target.as_str());
            out.append("` has no associated function `");
            out.append(function.as_str());
            out.append("`");
            assert(out@ =~= "type `"@ + target@ + "` has no associated function `"@ + function@ + "`"@);
        },
        TypeError::AssociatedFunctionAsMethod { target, function } => {
            out.append("associated function `");
            out.append(function.as_str());
            out.append("` for `");
            out.append(target.as_str());
            out.append("` must be called with `");
            out.append(target.as_str());
            out.append("::");
            out.append(function.as_str());
            out.append("`");
            assert(out@ =~= "associated function `"@ + function@ + "` for `"@ + target@ + "` must be called with `"@ + target@ + "::"@ + function@ + "`"@);
        },
        TypeError::MethodRequiresReceiver { target, method } => {
            out.append("method `");
            out.append(method.as_str());
            out.append("` for `");
            out.append(target.as_str());
            out.append("` requires a receiver; call it with `value.");
            out.append(method.as_str());
            out.append("`");
            assert(out@ =~= "method `"@ + method@ + "` for `"@ + target@ + "` requires a receiver; call it with `value."@ + method@ + "`"@);
        },
        TypeError::AmbiguousMethodReceiver { method } => {
            out.append("cannot resolve method `");
            out.append(method.as_str());
            out.append("` because the receiver type is unconstrained; add a type annotation");
            assert(out@ =~= "cannot resolve method `"@ + method@ + "` because the receiver type is unconstrained; add a type annotation"@);
        },
        _ => {
            return None;
        },
    }
    Some(out)
}

/// The text of some kinds of error; `None` for the others.
fn text_part_5(error: &TypeError) -> (r: Option<String>)
    ensures
        r matches Some(s) ==> s@ == plain_text(error@),
        r is None ==> !in_part_5(error@),
{
    let mut out = String::new();
    match error {
        TypeError::InvalidInherentImplTarget(x) => {
            out.append("invalid inherent impl target `");
            out.append(x.as_str());
            out.append("`: expected a nominal type or one of `string`, `int`, `float`, `bool`");
            assert(out@ =~= "invalid inherent impl target `"@ + x@ + "`: expected a nominal type or one of `string`, `int`, `float`, `bool`"@);
        },
        TypeError::DuplicateInherentMethod { target, method } => {
            out.append("method `");
            out.append(method.as_str());
            out.append("` is already defined for inherent impl target `");
            out.append(target.as_str());
            out.append("`");
            assert(out@ =~= "method `"@ + method@ + "` is already defined for inherent impl target `"@ + target@ + "`"@);
        },
        TypeError::InherentMethodMissingReceiver { target, method } => {
            out.append("inherent method `");
            out.append(method.as_str());
            out.append("` for `");
            out.append(target.as_str());
            out.append("` must have a first receiver parameter");
            assert(out@ =~= "inherent method `"@ + method@ + "` for `"@ + target@ + "` must have a first receiver parameter"@);
        },
        TypeError::DuplicateFunctionInGroup(x) => {
            out.append("function `");
            out.append(x.as_str());
            out.append("` is defined more than once in this group");
            assert(out@ =~= "function `"@ + x@ + "` is defined more than once in this group"@);
        },
        TypeError::DuplicateTestFunction(x) => {
            out.append("test function `");
            out.append(x.as_str());
            out.append("` is defined more than once");
            assert(out@ =~= "test function `"@ + x@ + "` is defined more than once"@);
        },
        TypeError::InvalidTestFunction { name, message } => {
            out.append("invalid test function `");
            out.append(name.as_str());
            out.append("`: ");
            out.append(message.as_str());
            assert(out@ =~= "invalid test function `"@ + name@ + "`: "@ + message@);
        },
        TypeError::InvalidMacroSignature { message } => {
            out.append("invalid macro signature: ");
            out.append(message.as_str());
            assert(out@ =~= "invalid macro signature: "@ + message@);
        },
        TypeError::RefutableParamPattern => {
            out.append("refutable pattern in function parameter: only variable, wildcard, record, and rest-list patterns are allowed here; use a match expression in the body instead");
            assert(out@ =~= "refutable pattern in function parameter: only variable, wildcard, record, and rest-list patterns are allowed here; use a match expression in the body instead"@);
        },
        TypeError::RefutableLetPattern => {
            out.append("refutable pattern in let binding: only variable, wildcard, record, tuple, and rest-list patterns are allowed here; use match instead");
            assert(out@ =~= "refutable pattern in let binding: only variable, wildcard, record, tuple, and rest-list patterns are allowed here; use match instead"@);
        },
        _ => {
            return None;
        },
    }
    Some(out)
}

impl TypeError {
    /// The error as text.
    pub fn to_string(&self) -> (s: String)
        ensures
            s@ == error_text(self@),
        decreases *self,
    {
        match self {
            TypeError::DerivedImplFailure { error, .. } => error.to_string(),
            _ => self.plain_string(),
        }
    }

    fn plain_string(&self) -> (s: String)
        requires
            !(self@ is DerivedImplFailure),
        ensures
            s@ == plain_text(self@),
    {
        if let TypeError::Mismatch(expected, got) = self {
            let mut out = String::new();
            out.append("type mismatch");
            append_expected_got(&mut out, expected, got);
            assert(out@ =~= plain_text(self@));
            return out;
        }
        if let TypeError::MismatchWithContext { context, expected, got } = self {
            let mut out = String::new();
            if context.len() > 0 {
                out.append("type mismatch in ");
                out.append(text_of_contexts(context).as_str());
            } else {
                out.append("type mismatch");
            }
            append_expected_got(&mut out, expected, got);
            assert(contexts_view(context@).len() == context@.len());
            assert(out@ =~= plain_text(self@));
            return out;
        }
        if let TypeError::ExpectedMutablePlace { subject, reason } = self {
            return text_of_place(subject, reason);
        }
        if let Some(text) = text_part_0(self) {
            return text;
        }
        if let Some(text) = text_part_1(self) {
            return text;
        }
        if let Some(text) = text_part_2(self) {
            return text;
        }
        if let Some(text) = text_part_3(self) {
            return text;
        }
        if let Some(text) = text_part_4(self) {
            return text;
        }
        if let Some(text) = text_part_5(self) {
            return text;
        }
        assert(false);
        String::new()
    }
}

impl SpannedTypeError {
    /// The error as text, without its place.
    pub fn to_string(&self) -> (s: String)
        ensures
            s@ == error_text(self@.error),
    {
        self.error.to_string()
    }
}

} // verus!
