//! Mutable places, imported members and the parameters of functions.

use vstd::prelude::*;

use crate::ast::{ArrayEntry, Expr, ExprKind, MatchArm, Param, RecordEntry, SourceSpan, Type};
use crate::ast::TypeReturn;
use crate::ast_view::{array_entries_view, array_entry_view, boxed_expr_view, expr_view};
use crate::ast_view::{exprs_view, match_arm_view, match_arms_view, param_view, params_view};
use crate::ast_view::{record_entries_view, record_entry_view, some_type_return_view};
use crate::ast_view::{some_type_view, type_view, types_view, ArrayEntryV, ExprKindV, ExprV};
use crate::ast_view::{MatchArmV, ParamV, RecordEntryV, TypeReturnV, TypeV};
use crate::ast::{array_entry_expr, record_entry_expr};
use crate::convert::{ty_result, VarNames};
use crate::env::{EnvV, TypeEnv};
use crate::error::{error_at, unspanned_error, MutablePlaceErrorReason, MutablePlaceSubject};
use crate::error::{PlaceReasonV, SpannedTypeError, SpannedV, TypeError, TypeErrorV};
use crate::pattern_infer::bind_param;
use crate::patterns::{irrefutable_param, is_irrefutable_param};
use crate::state::{callable_at, fresh, next_var, Infer, InferV, MetaV, TypeMetadata};
use crate::steps::{equate, resolved, written};
use crate::tables::NameMap;
use crate::ty::{CallableCapabilities, FuncParam, FuncReturn, ParamCapability, ReturnCapability};
use crate::ty::{ReturnV, Scheme, SchemeV, Ty, TyV, TyVar};
use crate::ty_helpers::{some_mut_place, some_place};
use crate::unify::error_of;
use crate::value::{fresh_place, is_fresh_mutable_place};
use crate::walkers::{assignment_base, find_assignment_base_name};

verus! {

/// Whether the place of an expression is its own: it is built here, or was found to
/// be fresh.
pub open spec fn fresh_in(e: ExprV, m: MetaV) -> bool
    decreases e, 0nat,
{
    fresh_place(e) || m.fresh_places.contains(e.id) || fresh_kind_in(e.kind, m)
}

/// Whether all parts of an expression are fresh.
pub open spec fn fresh_kind_in(k: ExprKindV, m: MetaV) -> bool
    decreases k, 0nat,
{
    match k {
        ExprKindV::Grouped(e) => fresh_in(*e, m),
        ExprKindV::Tuple(items) => all_fresh_in(items, m),
        ExprKindV::Record(entries) => all_fields_fresh_in(entries, m),
        ExprKindV::Array(entries) => all_elements_fresh_in(entries, m),
        ExprKindV::If { then_branch, else_branch, .. } => fresh_in(*then_branch, m) && fresh_in(
            *else_branch,
            m,
        ),
        ExprKindV::Match { arms, .. } => all_arms_fresh_in(arms, m),
        ExprKindV::Block { final_expr: Some(e), .. } => fresh_in(*e, m),
        _ => false,
    }
}

/// Whether an element of an array is a name or fresh.
pub open spec fn fresh_element_in(e: ExprV, m: MetaV) -> bool
    decreases e, 1nat,
{
    e.kind is Ident || fresh_in(e, m)
}

/// The expression of an entry is fresh.
pub open spec fn field_fresh_in(e: RecordEntryV, m: MetaV) -> bool
    decreases e, 0nat,
{
    match e {
        RecordEntryV::Field(_, x) => fresh_in(x, m),
        RecordEntryV::Spread(x) => fresh_in(x, m),
    }
}

/// The expression of an entry is a name or fresh.
pub open spec fn entry_fresh_in(e: ArrayEntryV, m: MetaV) -> bool
    decreases e, 0nat,
{
    match e {
        ArrayEntryV::Elem(x) => fresh_element_in(x, m),
        ArrayEntryV::Spread(x) => fresh_element_in(x, m),
    }
}

pub open spec fn all_fresh_in(s: Seq<ExprV>, m: MetaV) -> bool
    decreases s, 0nat,
{
    forall|i: int| 0 <= i < s.len() ==> fresh_in(#[trigger] s[i], m)
}

pub open spec fn all_fields_fresh_in(s: Seq<RecordEntryV>, m: MetaV) -> bool
    decreases s, 0nat,
{
    forall|i: int| 0 <= i < s.len() ==> field_fresh_in(#[trigger] s[i], m)
}

pub open spec fn all_elements_fresh_in(s: Seq<ArrayEntryV>, m: MetaV) -> bool
    decreases s, 0nat,
{
    forall|i: int| 0 <= i < s.len() ==> entry_fresh_in(#[trigger] s[i], m)
}

pub open spec fn all_arms_fresh_in(s: Seq<MatchArmV>, m: MetaV) -> bool
    decreases s, 0nat,
{
    forall|i: int| 0 <= i < s.len() ==> fresh_in((#[trigger] s[i]).body, m)
}

fn fresh_expr(e: &Expr, m: &TypeMetadata) -> (r: bool)
    ensures
        r == fresh_in(e@, m@),
    decreases *e, 0nat,
{
    is_fresh_mutable_place(e) || m.is_fresh_place_expr(e.id) || fresh_kind(&e.kind, m)
}

fn fresh_kind(k: &ExprKind, m: &TypeMetadata) -> (r: bool)
    ensures
        r == fresh_kind_in(crate::ast_view::expr_kind_view(*k), m@),
    decreases *k, 0nat,
{
    match k {
        ExprKind::Grouped(e) => fresh_expr(e, m),
        ExprKind::Tuple(items) => all_fresh(items, m),
        ExprKind::Record(entries) => all_fields_fresh(entries, m),
        ExprKind::Array(entries) => all_elements_fresh(entries, m),
        ExprKind::If { then_branch, else_branch, .. } => fresh_expr(then_branch, m) && fresh_expr(
            else_branch,
            m,
        ),
        ExprKind::Match { arms, .. } => all_arms_fresh(arms, m),
        ExprKind::Block { final_expr, .. } => match final_expr {
            Some(e) => {
                assert(boxed_expr_view(*final_expr) == Some(Box::new(expr_view(**e))));
                fresh_expr(e, m)
            },
            None => false,
        },
        _ => false,
    }
}

fn fresh_element(e: &Expr, m: &TypeMetadata) -> (r: bool)
    ensures
        r == fresh_element_in(e@, m@),
    decreases *e, 1nat,
{
    match &e.kind {
        ExprKind::Ident(_) => true,
        _ => fresh_expr(e, m),
    }
}

fn all_fresh(s: &Vec<Expr>, m: &TypeMetadata) -> (r: bool)
    ensures
        r == all_fresh_in(exprs_view(s@), m@),
    decreases s@, 0nat,
{
    let ghost all = exprs_view(s@);
    let mut i: usize = 0;
    while i < s.len()
        invariant
            i <= s.len(),
            all == exprs_view(s@),
            forall|j: int| 0 <= j < i ==> fresh_in(#[trigger] all[j], m@),
        decreases s.len() - i,
    {
        assert(all[i as int] == expr_view(s@[i as int]));
        assert(decreases_to!(s@ => s@[i as int]));
        if !fresh_expr(&s[i], m) {
            return false;
        }
        i = i + 1;
    }
    true
}

fn all_fields_fresh(s: &Vec<RecordEntry>, m: &TypeMetadata) -> (r: bool)
    ensures
        r == all_fields_fresh_in(record_entries_view(s@), m@),
    decreases s@, 0nat,
{
    let ghost all = record_entries_view(s@);
    let mut i: usize = 0;
    while i < s.len()
        invariant
            i <= s.len(),
            all == record_entries_view(s@),
            forall|j: int| 0 <= j < i ==> field_fresh_in(#[trigger] all[j], m@),
        decreases s.len() - i,
    {
        assert(all[i as int] == record_entry_view(s@[i as int]));
        assert(decreases_to!(s@ => s@[i as int]));
        if !fresh_expr(s[i].expr(), m) {
            return false;
        }
        i = i + 1;
    }
    true
}

fn all_elements_fresh(s: &Vec<ArrayEntry>, m: &TypeMetadata) -> (r: bool)
    ensures
        r == all_elements_fresh_in(array_entries_view(s@), m@),
    decreases s@, 0nat,
{
    let ghost all = array_entries_view(s@);
    let mut i: usize = 0;
    while i < s.len()
        invariant
            i <= s.len(),
            all == array_entries_view(s@),
            forall|j: int| 0 <= j < i ==> entry_fresh_in(#[trigger] all[j], m@),
        decreases s.len() - i,
    {
        assert(all[i as int] == array_entry_view(s@[i as int]));
        assert(decreases_to!(s@ => s@[i as int]));
        if !fresh_element(s[i].expr(), m) {
            return false;
        }
        i = i + 1;
    }
    true
}

fn all_arms_fresh(s: &Vec<MatchArm>, m: &TypeMetadata) -> (r: bool)
    ensures
        r == all_arms_fresh_in(match_arms_view(s@), m@),
    decreases s@, 0nat,
{
    let ghost all = match_arms_view(s@);
    let mut i: usize = 0;
    while i < s.len()
        invariant
            i <= s.len(),
            all == match_arms_view(s@),
            forall|j: int| 0 <= j < i ==> fresh_in((#[trigger] all[j]).body, m@),
        decreases s.len() - i,
    {
        assert(all[i as int] == match_arm_view(s@[i as int]));
        assert(decreases_to!(s@ => s@[i as int]));
        assert(decreases_to!(s@[i as int] => s@[i as int].body));
        if !fresh_expr(&s[i].body, m) {
            return false;
        }
        i = i + 1;
    }
    true
}

/// Whether the place of an expression is its own.
#[verifier::opaque]
pub open spec fn own_place(st: InferV, e: ExprV) -> bool {
    fresh_in(e, st.meta)
}

/// The error of an argument that must be a mutable place.
#[verifier::opaque]
pub open spec fn place_error(st: InferV, env: EnvV, e: ExprV, idx: nat) -> Option<SpannedV> {
    if own_place(st, e) {
        None
    } else {
        match assignment_base(e) {
            None => Some(
                error_at(
                    TypeErrorV::ExpectedMutablePlace {
                        subject: MutablePlaceSubject::Argument((idx + 1) as usize),
                        reason: PlaceReasonV::NotAPlace,
                    },
                    e.span,
                ),
            ),
            Some(name) => if !env.dom().contains(name) {
                Some(error_at(TypeErrorV::UnboundVariable(name), e.span))
            } else if env[name].place_mutable {
                None
            } else {
                Some(
                    error_at(
                        TypeErrorV::ExpectedMutablePlace {
                            subject: MutablePlaceSubject::Argument((idx + 1) as usize),
                            reason: PlaceReasonV::NotMutable(name),
                        },
                        e.span,
                    ),
                )
            },
        }
    }
}

/// The first error of arguments that must be mutable places. The parameters before
/// `offset` are given no argument here.
pub open spec fn place_errors_from(
    st: InferV,
    env: EnvV,
    args: Seq<ExprV>,
    caps: Seq<ParamCapability>,
    offset: nat,
    i: nat,
) -> Option<SpannedV>
    decreases caps.len() - i,
{
    if i >= caps.len() {
        None
    } else if caps[i as int] == ParamCapability::MutPlace && i - offset < args.len() {
        match place_error(st, env, args[i - offset], i) {
            Some(e) => Some(e),
            None => place_errors_from(st, env, args, caps, offset, i + 1),
        }
    } else {
        place_errors_from(st, env, args, caps, offset, i + 1)
    }
}

/// The first error of arguments that must be mutable places.
#[verifier::opaque]
pub open spec fn place_errors(
    st: InferV,
    env: EnvV,
    args: Seq<ExprV>,
    caps: Seq<ParamCapability>,
    offset: nat,
) -> Option<SpannedV> {
    place_errors_from(st, env, args, caps, offset, offset)
}

/// The error of a check without a result.
pub open spec fn spanned_error_of(r: Result<(), SpannedTypeError>) -> Option<SpannedV> {
    match r {
        Ok(_) => None,
        Err(e) => Some(e@),
    }
}

/// The error of an expression that must be a fresh place because it is returned.
#[verifier::opaque]
pub open spec fn return_error(st: InferV, e: ExprV, ret: ReturnV) -> Option<SpannedV> {
    if ret.capability == ReturnCapability::FreshPlace && !own_place(st, e) {
        Some(
            error_at(
                TypeErrorV::ExpectedMutablePlace {
                    subject: MutablePlaceSubject::ReturnValue,
                    reason: PlaceReasonV::NotFresh,
                },
                e.span,
            ),
        )
    } else {
        None
    }
}

/// The scheme of a member of an imported module.
pub open spec fn imported_scheme(st: InferV, base: ExprV, field: Seq<char>) -> Option<SchemeV> {
    match base.kind {
        ExprKindV::Ident(name) => if st.import_bindings.dom().contains(name)
            && st.import_schemes.dom().contains(st.import_bindings[name])
            && st.import_schemes[st.import_bindings[name]].dom().contains(field) {
            Some(st.import_schemes[st.import_bindings[name]][field])
        } else {
            None
        },
        _ => None,
    }
}

/// The scheme of an optional scheme.
pub open spec fn opt_scheme(r: Option<Scheme>) -> Option<SchemeV> {
    match r {
        Some(s) => Some(s@),
        None => None,
    }
}

/// The scheme of a member access of an imported module.
pub open spec fn imported_member(st: InferV, e: ExprV) -> Option<SchemeV> {
    match e.kind {
        ExprKindV::FieldAccess { expr, field } => imported_scheme(st, *expr, field),
        _ => None,
    }
}

/// What the fields of a record that a name is bound to may be called with.
pub open spec fn field_caps(st: InferV, base: ExprV, field: Seq<char>) -> Option<
    Seq<ParamCapability>,
> {
    match base.kind {
        ExprKindV::Ident(name) => if st.field_callables.dom().contains(name)
            && st.field_callables[name].dom().contains(field) {
            Some(st.field_callables[name][field])
        } else {
            None
        },
        _ => None,
    }
}

/// What optional capabilities are.
pub open spec fn opt_caps(r: Option<Vec<ParamCapability>>) -> Option<Seq<ParamCapability>> {
    match r {
        Some(c) => Some(c@),
        None => None,
    }
}

/// The fields of a record literal that ask for mutable places when called.
pub open spec fn fields_with_places(m: MetaV, entries: Seq<RecordEntryV>) -> Map<
    Seq<char>,
    Seq<ParamCapability>,
>
    decreases entries.len(),
{
    if entries.len() == 0 {
        Map::empty()
    } else {
        let rest = fields_with_places(m, entries.drop_last());
        match entries.last() {
            RecordEntryV::Field(name, e) => if some_place(callable_at(m, e.id)) {
                rest.insert(name, callable_at(m, e.id))
            } else {
                rest
            },
            RecordEntryV::Spread(_) => rest,
        }
    }
}

/// The callable fields of a literal, if it has any.
#[verifier::opaque]
pub open spec fn literal_callables(st: InferV, e: ExprV) -> Option<
    Map<Seq<char>, Seq<ParamCapability>>,
> {
    match e.kind {
        ExprKindV::Record(entries) => {
            let fields = fields_with_places(st.meta, entries);
            if fields.dom() == Set::<Seq<char>>::empty() {
                None
            } else {
                Some(fields)
            }
        },
        _ => None,
    }
}

impl Infer {
    /// Whether the place of an expression is its own.
    pub fn is_fresh_mutable_place_expr(&self, e: &Expr) -> (r: bool)
        ensures
            r == own_place(self@, e@),
    {
        proof {
            reveal(own_place);
        }
        fresh_expr(e, &self.metadata)
    }

    /// Checks an argument that must be a mutable place.
    pub fn check_mutable_place_arg(&self, env: &TypeEnv, e: &Expr, idx: usize) -> (r: Result<
        (),
        SpannedTypeError,
    >)
        requires
            idx < usize::MAX,
        ensures
            spanned_error_of(r) == place_error(self@, env@, e@, idx as nat),
    {
        proof {
            reveal(place_error);
        }
        if self.is_fresh_mutable_place_expr(e) {
            return Ok(());
        }
        match find_assignment_base_name(e) {
            None => Err(
                TypeError::ExpectedMutablePlace {
                    subject: MutablePlaceSubject::Argument(idx + 1),
                    reason: MutablePlaceErrorReason::NotAPlace,
                }.at(e.span),
            ),
            Some(name) => match env.get(&name) {
                None => Err(TypeError::UnboundVariable(name).at(e.span)),
                Some(info) => {
                    if info.is_place_mutable() {
                        Ok(())
                    } else {
                        Err(
                            TypeError::ExpectedMutablePlace {
                                subject: MutablePlaceSubject::Argument(idx + 1),
                                reason: MutablePlaceErrorReason::NotMutable(name),
                            }.at(e.span),
                        )
                    }
                },
            },
        }
    }

    /// Checks the arguments that must be mutable places.
    pub fn check_mutable_place_args_from(
        &self,
        env: &TypeEnv,
        args: &Vec<Expr>,
        caps: &Vec<ParamCapability>,
        offset: usize,
    ) -> (r: Result<(), SpannedTypeError>)
        ensures
            spanned_error_of(r) == place_errors(
                self@,
                env@,
                exprs_view(args@),
                caps@,
                offset as nat,
            ),
    {
        proof {
            reveal(place_errors);
        }
        let ghost all = exprs_view(args@);
        let ghost off = offset as nat;
        let mut i: usize = offset;
        while i < caps.len()
            invariant
                offset <= i,
                off == offset,
                all == exprs_view(args@),
                all.len() == args@.len(),
                place_errors(self@, env@, all, caps@, off) == place_errors_from(
                    self@,
                    env@,
                    all,
                    caps@,
                    off,
                    i as nat,
                ),
            decreases caps.len() - i,
        {
            if caps[i].is_mut_place() && i - offset < args.len() {
                assert(all[i - offset] == expr_view(args@[i - offset]));
                match self.check_mutable_place_arg(env, &args[i - offset], i) {
                    Err(e) => {
                        return Err(e);
                    },
                    Ok(_) => {},
                }
            }
            i = i + 1;
        }
        Ok(())
    }

    /// Checks an expression that is returned where a fresh place is promised.
    pub fn check_fresh_return_expr(&self, e: &Expr, ret: &FuncReturn) -> (r: Result<
        (),
        SpannedTypeError,
    >)
        ensures
            spanned_error_of(r) == return_error(self@, e@, ret@),
    {
        proof {
            reveal(return_error);
        }
        if ret.capability == ReturnCapability::FreshPlace && !self.is_fresh_mutable_place_expr(e) {
            return Err(
                TypeError::ExpectedMutablePlace {
                    subject: MutablePlaceSubject::ReturnValue,
                    reason: MutablePlaceErrorReason::NotFresh,
                }.at(e.span),
            );
        }
        Ok(())
    }

    /// The scheme of a member of an imported module.
    pub fn imported_member_scheme(&self, base: &Expr, field: &str) -> (r: Option<Scheme>)
        ensures
            opt_scheme(r) == imported_scheme(self@, base@, field@),
    {
        match &base.kind {
            ExprKind::Ident(name) => match self.imports.bindings.get(name) {
                None => None,
                Some(module) => match self.imports.schemes.get(module) {
                    None => None,
                    Some(members) => match members.get(field) {
                        None => None,
                        Some(s) => Some(s.clone()),
                    },
                },
            },
            _ => None,
        }
    }

    /// The scheme of a member access of an imported module.
    pub fn imported_member_scheme_for_expr(&self, e: &Expr) -> (r: Option<Scheme>)
        ensures
            opt_scheme(r) == imported_member(self@, e@),
    {
        match &e.kind {
            ExprKind::FieldAccess { expr, field } => self.imported_member_scheme(expr, field),
            _ => None,
        }
    }

    /// What the fields of a record that a name is bound to may be called with.
    pub fn field_capabilities(&self, base: &Expr, field: &str) -> (r: Option<Vec<ParamCapability>>)
        ensures
            opt_caps(r) == field_caps(self@, base@, field@),
    {
        match &base.kind {
            ExprKind::Ident(name) => match self.inherent.record_field_callables.get(name) {
                None => None,
                Some(fields) => match fields.get(field) {
                    None => None,
                    Some(caps) => Some(crate::ty::clone_capabilities(&caps.param_capabilities)),
                },
            },
            _ => None,
        }
    }

    /// The callable fields of a record literal that ask for mutable places.
    pub fn record_literal_callable_fields(&self, e: &Expr) -> (r: Option<
        NameMap<CallableCapabilities>,
    >)
        ensures
            match (r, literal_callables(self@, e@)) {
                (Some(a), Some(b)) => a@ == b,
                (None, None) => true,
                _ => false,
            },
    {
        proof {
            reveal(literal_callables);
        }
        match &e.kind {
            ExprKind::Record(entries) => {
                let ghost all = record_entries_view(entries@);
                let ghost m = self@.meta;
                let mut fields: NameMap<CallableCapabilities> = NameMap::new();
                let mut i: usize = 0;
                assert(all.take(0) =~= Seq::empty());
                while i < entries.len()
                    invariant
                        i <= entries.len(),
                        all == record_entries_view(entries@),
                        all.len() == entries@.len(),
                        m == self@.meta,
                        fields@ == fields_with_places(m, all.take(i as int)),
                    decreases entries.len() - i,
                {
                    proof {
                        assert(all.take(i + 1).drop_last() =~= all.take(i as int));
                        assert(all.take(i + 1).last() == record_entry_view(entries@[i as int]));
                    }
                    match &entries[i] {
                        RecordEntry::Field(name, e) => {
                            let caps = self.metadata.callable_capabilities_for(e.id);
                            if some_mut_place(&caps) {
                                let info = CallableCapabilities { param_capabilities: caps };
                                assert(info@ == caps@);
                                fields.insert(name.clone(), info);
                            }
                        },
                        RecordEntry::Spread(_) => {},
                    }
                    i = i + 1;
                }
                assert(all.take(all.len() as int) =~= all);
                if fields.is_empty() {
                    None
                } else {
                    Some(fields)
                }
            },
            _ => None,
        }
    }
}

// ---------------------------------------------------------------------------
// Parameters
// ---------------------------------------------------------------------------

/// What the parameters of a function may be given.
pub open spec fn declared_caps(params: Seq<ParamV>) -> Seq<ParamCapability> {
    Seq::new(
        params.len(),
        |i: int|
            if params[i].mut_place {
                ParamCapability::MutPlace
            } else {
                ParamCapability::Value
            },
    )
}

pub fn param_capabilities(params: &Vec<Param>) -> (r: Vec<ParamCapability>)
    ensures
        r@ == declared_caps(params_view(params@)),
{
    let ghost all = params_view(params@);
    let mut out: Vec<ParamCapability> = Vec::new();
    let mut i: usize = 0;
    while i < params.len()
        invariant
            i <= params.len(),
            all == params_view(params@),
            all.len() == params@.len(),
            out@.len() == i,
            forall|j: int| 0 <= j < i ==> #[trigger] out@[j] == declared_caps(all)[j],
        decreases params.len() - i,
    {
        assert(all[i as int] == param_view(params@[i as int]));
        if params[i].mut_place {
            out.push(ParamCapability::MutPlace);
        } else {
            out.push(ParamCapability::Value);
        }
        i = i + 1;
    }
    assert(out@ =~= declared_caps(all));
    out
}

/// The parameters of the type of a function.
pub open spec fn typed_params(params: Seq<ParamV>, tys: Seq<TyV>) -> Seq<crate::ty::ParamV> {
    Seq::new(
        params.len(),
        |i: int| crate::ty::ParamV { ty: tys[i], capability: declared_caps(params)[i] },
    )
}

pub fn func_params_from_params(params: &Vec<Param>, tys: &Vec<Ty>) -> (r: Vec<FuncParam>)
    requires
        tys@.len() == params@.len(),
    ensures
        crate::ty::params_view(r@) == typed_params(
            params_view(params@),
            crate::ty::tys_view(tys@),
        ),
{
    let ghost all = params_view(params@);
    let ghost ts = crate::ty::tys_view(tys@);
    let ghost want = typed_params(all, ts);
    let mut out: Vec<FuncParam> = Vec::new();
    let mut i: usize = 0;
    while i < params.len()
        invariant
            i <= params.len(),
            tys@.len() == params@.len(),
            all == params_view(params@),
            all.len() == params@.len(),
            ts == crate::ty::tys_view(tys@),
            want == typed_params(all, ts),
            out@.len() == i,
            forall|j: int|
                0 <= j < i ==> crate::ty::param_view(#[trigger] out@[j]) == want[j],
        decreases params.len() - i,
    {
        assert(all[i as int] == param_view(params@[i as int]));
        assert(ts[i as int] == tys@[i as int]@);
        let p = if params[i].mut_place {
            FuncParam::mut_place(tys[i].clone())
        } else {
            FuncParam::value(tys[i].clone())
        };
        assert(crate::ty::param_view(p) == want[i as int]);
        out.push(p);
        i = i + 1;
    }
    assert(crate::ty::params_view(out@) =~= want);
    out
}

/// The result of the type of a function.
pub open spec fn typed_return(ret: Option<TypeReturnV>, ty: TyV) -> ReturnV {
    ReturnV {
        ty: Box::new(ty),
        capability: if ret is Some && ret->Some_0.mut_place {
            ReturnCapability::FreshPlace
        } else {
            ReturnCapability::Value
        },
    }
}

pub fn func_return_from_annotation(ret: &Option<TypeReturn>, ty: Ty) -> (r: FuncReturn)
    ensures
        r@ == typed_return(some_type_return_view(*ret), ty@),
{
    let place = match ret {
        Some(t) => {
            assert(some_type_return_view(*ret) == Some(crate::ast_view::type_return_view(*t)));
            t.mut_place
        },
        None => false,
    };
    if place {
        FuncReturn::fresh_place(ty)
    } else {
        FuncReturn::value(ty)
    }
}

/// Where the types of parameters come from besides their annotations.
pub enum SourceV {
    /// From nowhere.
    Own,
    /// From the function type that is expected.
    Expected(Seq<crate::ty::ParamV>),
    /// The first is the receiver of a method.
    Receiver(TyV),
    /// From the trait that a method belongs to, declared at a place.
    Derived(Seq<TypeV>, SourceSpan),
    /// They are known already.
    Given(Seq<TyV>),
}

/// Where the types of parameters come from besides their annotations.
pub enum ParamSource<'a> {
    Own,
    Expected(&'a Vec<FuncParam>),
    Receiver(&'a Ty),
    Derived(&'a Vec<Type>, SourceSpan),
    Given(&'a Vec<Ty>),
}

impl<'a> View for ParamSource<'a> {
    type V = SourceV;

    open spec fn view(&self) -> SourceV {
        match self {
            ParamSource::Own => SourceV::Own,
            ParamSource::Expected(ps) => SourceV::Expected(crate::ty::params_view(ps@)),
            ParamSource::Receiver(t) => SourceV::Receiver(t@),
            ParamSource::Derived(tys, span) => SourceV::Derived(types_view(tys@), *span),
            ParamSource::Given(tys) => SourceV::Given(crate::ty::tys_view(tys@)),
        }
    }
}

/// The outcome of reading a type among named variables.
pub struct ReadV<A> {
    pub st: InferV,
    pub vars: VarNames,
    pub res: Result<A, SpannedV>,
}

/// A written type, with its error at no place.
pub open spec fn read_type(st: InferV, vars: VarNames, ty: TypeV) -> ReadV<TyV> {
    let w = written(st, vars, ty);
    ReadV {
        st: w.st,
        vars: w.vars,
        res: match w.res {
            Ok(t) => Ok(t),
            Err(e) => Err(unspanned_error(e)),
        },
    }
}

/// An annotation, or a fresh type where there is none.
pub open spec fn read_annotation(st: InferV, vars: VarNames, ty: Option<TypeV>) -> ReadV<TyV> {
    match ty {
        Some(t) => read_type(st, vars, t),
        None => ReadV { st: fresh(st), vars, res: Ok(TyV::Var(next_var(st))) },
    }
}

/// A type that is made equal to an annotation, if there is one. The annotation is
/// the second of the two if `after` holds.
pub open spec fn with_annotation(
    st: InferV,
    vars: VarNames,
    given: TyV,
    ty: Option<TypeV>,
    after: bool,
    span: SourceSpan,
) -> ReadV<TyV> {
    match ty {
        None => ReadV { st, vars, res: Ok(given) },
        Some(t) => {
            let w = read_type(st, vars, t);
            match w.res {
                Err(e) => w,
                Ok(a) => {
                    let u = if after {
                        equate(w.st, given, a)
                    } else {
                        equate(w.st, a, given)
                    };
                    match u.1 {
                        Some(e) => ReadV { st: u.0, vars: w.vars, res: Err(error_at(e, span)) },
                        None => ReadV {
                            st: u.0,
                            vars: w.vars,
                            res: Ok(
                                if after {
                                    given
                                } else {
                                    a
                                },
                            ),
                        },
                    }
                },
            }
        },
    }
}

/// The type of one parameter.
pub open spec fn param_type(
    st: InferV,
    vars: VarNames,
    source: SourceV,
    p: ParamV,
    i: nat,
    span: SourceSpan,
) -> ReadV<TyV> {
    match source {
        SourceV::Own => read_annotation(st, vars, p.ty),
        SourceV::Expected(ps) => if i < ps.len() {
            with_annotation(st, vars, ps[i as int].ty, p.ty, false, span)
        } else {
            read_annotation(st, vars, p.ty)
        },
        SourceV::Receiver(t) => if i == 0 {
            with_annotation(st, vars, t, p.ty, true, span)
        } else {
            read_annotation(st, vars, p.ty)
        },
        SourceV::Derived(tys, _) => if i < tys.len() {
            let w = read_type(st, vars, tys[i as int]);
            match w.res {
                Err(_) => w,
                Ok(t) => with_annotation(w.st, w.vars, t, p.ty, true, span),
            }
        } else {
            read_annotation(st, vars, p.ty)
        },
        SourceV::Given(tys) => if i < tys.len() {
            ReadV { st, vars, res: Ok(tys[i as int]) }
        } else {
            read_annotation(st, vars, p.ty)
        },
    }
}

/// The error of the form of one parameter. `span` is where the body stands.
pub open spec fn param_error(st: InferV, source: SourceV, p: ParamV, i: nat, span: SourceSpan) -> Option<
    SpannedV,
> {
    if source is Derived && p.mut_place {
        Some(error_at(TypeErrorV::MutableFunctionCapabilityMismatch, source->Derived_1))
    } else if !irrefutable_param(p.pat, st.variants) {
        Some(error_at(TypeErrorV::RefutableParamPattern, span))
    } else if source is Expected && i < source->Expected_0.len()
        && (source->Expected_0[i as int].capability == ParamCapability::MutPlace) != p.mut_place {
        Some(error_at(TypeErrorV::MutableFunctionCapabilityMismatch, span))
    } else {
        None
    }
}

/// What binding parameters leads to.
pub struct ParamsRun {
    pub st: InferV,
    pub env: EnvV,
    pub vars: VarNames,
    pub tys: Seq<TyV>,
    pub err: Option<SpannedV>,
}

/// Binds parameters, from the one at `i` on.
pub open spec fn bind_params_from(
    st: InferV,
    env: EnvV,
    vars: VarNames,
    source: SourceV,
    params: Seq<ParamV>,
    i: nat,
    tys: Seq<TyV>,
    span: SourceSpan,
) -> ParamsRun
    decreases params.len() - i,
{
    if i >= params.len() {
        ParamsRun { st, env, vars, tys, err: None }
    } else {
        let p = params[i as int];
        match param_error(st, source, p, i, span) {
            Some(e) => ParamsRun { st, env, vars, tys, err: Some(e) },
            None => {
                let t = param_type(st, vars, source, p, i, span);
                match t.res {
                    Err(e) => ParamsRun { st: t.st, env, vars: t.vars, tys, err: Some(e) },
                    Ok(ty) => {
                        let b = bind_param(t.st, env, p.pat, ty, p.mut_place);
                        match b.err {
                            Some(e) => ParamsRun {
                                st: b.st,
                                env: b.env,
                                vars: t.vars,
                                tys: tys.push(ty),
                                err: Some(unspanned_error(e)),
                            },
                            None => bind_params_from(
                                b.st,
                                b.env,
                                t.vars,
                                source,
                                params,
                                i + 1,
                                tys.push(ty),
                                span,
                            ),
                        }
                    },
                }
            },
        }
    }
}

/// Gives parameters types and binds their names.
#[verifier::opaque]
pub open spec fn bind_params(
    st: InferV,
    env: EnvV,
    vars: VarNames,
    source: SourceV,
    params: Seq<ParamV>,
    span: SourceSpan,
) -> ParamsRun {
    bind_params_from(st, env, vars, source, params, 0, Seq::empty(), span)
}

/// The error of an optional error.
pub open spec fn read_result(r: Result<Ty, SpannedTypeError>) -> Result<TyV, SpannedV> {
    match r {
        Ok(t) => Ok(t@),
        Err(e) => Err(e@),
    }
}

impl Infer {
    /// A written type, with its error at no place.
    pub fn read_type(&mut self, ty: &Type, vars: &mut NameMap<TyVar>) -> (r: Result<
        Ty,
        SpannedTypeError,
    >)
        requires
            old(self).wf(),
        ensures
            final(self).wf(),
            (ReadV { st: final(self)@, vars: final(vars)@, res: read_result(r) }) == read_type(
                old(self)@,
                old(vars)@,
                ty@,
            ),
    {
        match self.written(ty, vars) {
            Ok(t) => Ok(t),
            Err(e) => Err(e.unspanned()),
        }
    }

    /// An annotation, or a fresh type where there is none.
    pub fn read_annotation(&mut self, ty: &Option<Type>, vars: &mut NameMap<TyVar>) -> (r: Result<
        Ty,
        SpannedTypeError,
    >)
        requires
            old(self).wf(),
        ensures
            final(self).wf(),
            (ReadV { st: final(self)@, vars: final(vars)@, res: read_result(r) })
                == read_annotation(old(self)@, old(vars)@, some_type_view(*ty)),
    {
        match ty {
            Some(t) => {
                assert(some_type_view(*ty) == Some(type_view(*t)));
                self.read_type(t, vars)
            },
            None => Ok(self.fresh_ty()),
        }
    }

    pub fn with_annotation(
        &mut self,
        given: Ty,
        ty: &Option<Type>,
        after: bool,
        span: SourceSpan,
        vars: &mut NameMap<TyVar>,
    ) -> (r: Result<Ty, SpannedTypeError>)
        requires
            old(self).wf(),
        ensures
            final(self).wf(),
            (ReadV { st: final(self)@, vars: final(vars)@, res: read_result(r) })
                == with_annotation(
                old(self)@,
                old(vars)@,
                given@,
                some_type_view(*ty),
                after,
                span,
            ),
    {
        match ty {
            None => Ok(given),
            Some(t) => {
                assert(some_type_view(*ty) == Some(type_view(*t)));
                match self.read_type(t, vars) {
                    Err(e) => Err(e),
                    Ok(a) => {
                        if after {
                            match self.equate(given.clone(), a) {
                                Err(e) => Err(e.at(span)),
                                Ok(_) => Ok(given),
                            }
                        } else {
                            match self.equate(a.clone(), given) {
                                Err(e) => Err(e.at(span)),
                                Ok(_) => Ok(a),
                            }
                        }
                    },
                }
            },
        }
    }

    fn param_type(
        &mut self,
        source: &ParamSource,
        p: &Param,
        i: usize,
        span: SourceSpan,
        vars: &mut NameMap<TyVar>,
    ) -> (r: Result<Ty, SpannedTypeError>)
        requires
            old(self).wf(),
        ensures
            final(self).wf(),
            (ReadV { st: final(self)@, vars: final(vars)@, res: read_result(r) }) == param_type(
                old(self)@,
                old(vars)@,
                source@,
                p@,
                i as nat,
                span,
            ),
    {
        match source {
            ParamSource::Own => self.read_annotation(&p.ty, vars),
            ParamSource::Expected(ps) => {
                assert(crate::ty::params_view(ps@).len() == ps@.len());
                if i < ps.len() {
                    assert(crate::ty::params_view(ps@)[i as int] == crate::ty::param_view(
                        ps@[i as int],
                    ));
                    self.with_annotation(ps[i].ty.clone(), &p.ty, false, span, vars)
                } else {
                    self.read_annotation(&p.ty, vars)
                }
            },
            ParamSource::Receiver(t) => {
                if i == 0 {
                    self.with_annotation((*t).clone(), &p.ty, true, span, vars)
                } else {
                    self.read_annotation(&p.ty, vars)
                }
            },
            ParamSource::Derived(tys, _) => {
                assert(types_view(tys@).len() == tys@.len());
                if i < tys.len() {
                    assert(types_view(tys@)[i as int] == type_view(tys@[i as int]));
                    match self.read_type(&tys[i], vars) {
                        Err(e) => Err(e),
                        Ok(t) => self.with_annotation(t, &p.ty, true, span, vars),
                    }
                } else {
                    self.read_annotation(&p.ty, vars)
                }
            },
            ParamSource::Given(tys) => {
                assert(crate::ty::tys_view(tys@).len() == tys@.len());
                if i < tys.len() {
                    assert(crate::ty::tys_view(tys@)[i as int] == tys@[i as int]@);
                    Ok(tys[i].clone())
                } else {
                    self.read_annotation(&p.ty, vars)
                }
            },
        }
    }

    fn check_param_form(&self, source: &ParamSource, p: &Param, i: usize, span: SourceSpan) -> (r:
        Result<(), SpannedTypeError>)
        ensures
            spanned_error_of(r) == param_error(self@, source@, p@, i as nat, span),
    {
        if let ParamSource::Derived(_, at) = source {
            if p.mut_place {
                return Err(TypeError::MutableFunctionCapabilityMismatch.at(*at));
            }
        }
        if !is_irrefutable_param(&p.pat, &self.types.variant_env) {
            return Err(TypeError::RefutableParamPattern.at(span));
        }
        if let ParamSource::Expected(ps) = source {
            assert(crate::ty::params_view(ps@).len() == ps@.len());
            if i < ps.len() {
                assert(crate::ty::params_view(ps@)[i as int] == crate::ty::param_view(ps@[i as int]));
                if ps[i].capability.is_mut_place() != p.mut_place {
                    return Err(TypeError::MutableFunctionCapabilityMismatch.at(span));
                }
            }
        }
        Ok(())
    }

    /// Gives parameters types and binds their names.
    pub fn bind_params(
        &mut self,
        env: &mut TypeEnv,
        vars: &mut NameMap<TyVar>,
        source: &ParamSource,
        params: &Vec<Param>,
        span: SourceSpan,
    ) -> (r: (Vec<Ty>, Result<(), SpannedTypeError>))
        requires
            old(self).wf(),
        ensures
            final(self).wf(),
            (ParamsRun {
                st: final(self)@,
                env: final(env)@,
                vars: final(vars)@,
                tys: crate::ty::tys_view(r.0@),
                err: spanned_error_of(r.1),
            }) == bind_params(
                old(self)@,
                old(env)@,
                old(vars)@,
                source@,
                params_view(params@),
                span,
            ),
            r.1 is Ok ==> r.0@.len() == params@.len(),
    {
        let ghost all = params_view(params@);
        let ghost want = bind_params(self@, env@, vars@, source@, all, span);
        let mut tys: Vec<Ty> = Vec::new();
        let mut i: usize = 0;
        proof {
            reveal(bind_params);
            assert(crate::ty::tys_view(tys@) =~= Seq::empty());
        }
        while i < params.len()
            invariant
                i <= params.len(),
                self.wf(),
                tys@.len() == i,
                all == params_view(params@),
                all.len() == params@.len(),
                want == bind_params(old(self)@, old(env)@, old(vars)@, source@, all, span),
                want == bind_params_from(
                    self@,
                    env@,
                    vars@,
                    source@,
                    all,
                    i as nat,
                    crate::ty::tys_view(tys@),
                    span,
                ),
            decreases params.len() - i,
        {
            assert(all[i as int] == param_view(params@[i as int]));
            match self.check_param_form(source, &params[i], i, span) {
                Err(e) => {
                    return (tys, Err(e));
                },
                Ok(_) => {},
            }
            let ty = match self.param_type(source, &params[i], i, span, vars) {
                Err(e) => {
                    return (tys, Err(e));
                },
                Ok(t) => t,
            };
            let ghost before = crate::ty::tys_view(tys@);
            tys.push(ty.clone());
            assert(crate::ty::tys_view(tys@) =~= before.push(ty@));
            match self.check_param_pattern(&params[i].pat, ty, env, params[i].mut_place) {
                Err(e) => {
                    return (tys, Err(e.unspanned()));
                },
                Ok(_) => {},
            }
            i = i + 1;
        }
        (tys, Ok(()))
    }
}

} // verus!
