//! Filling in pending dictionaries in syntax trees.

use vstd::prelude::*;

use crate::ast::{ArgWrapper, ArrayEntry, BinOp, DictRef, Expr, ExprKind, ImplMethod};
use crate::ast::{InherentMethod, MatchArm, PendingDictArg, PendingMethod, RecordEntry};
use crate::ast::{ResolvedCallee, Stmt};
use crate::ast_view::{arg_wrapper_view, arg_wrappers_view, array_entries_view, array_entry_view};
use crate::ast_view::{bin_op_view, boxed_expr_view, dict_ref_view, dict_refs_view};
use crate::ast_view::{expr_kind_view, expr_view, exprs_view, fn_def_view, impl_def_view};
use crate::ast_view::{impl_method_view, impl_methods_view, inherent_impl_def_view};
use crate::ast_view::{inherent_method_view, inherent_methods_view, match_arm_view};
use crate::ast_view::{match_arms_view, pending_dict_arg_view, pending_dict_args_view};
use crate::ast_view::{pending_method_view, record_entries_view, record_entry_view};
use crate::ast_view::{resolved_callee_view, some_arg_wrapper_view, some_pending_dict_arg_view};
use crate::ast_view::{some_pending_method_view, some_resolved_callee_view, stmt_view};
use crate::ast_view::{stmts_view, ArgWrapperV, ArrayEntryV, BinOpV, DictRefV, ExprKindV, ExprV};
use crate::ast_view::{FnDefV, ImplDefV, ImplMethodV, InherentImplDefV, InherentMethodV};
use crate::ast_view::{MatchArmV, PendingDictArgV, PendingMethodV, RecordEntryV};
use crate::ast_view::{ResolvedCalleeV, StmtV};
use crate::dicts::{resolve_pending, shown, Resolver, ResolverV};
use crate::error::{TypeError, TypeErrorV};
use crate::tables::lemma_list_step;
use crate::text::{join, join_strings, strings_view};
use crate::ty::{ty_view, tys_view, Ty, TyV};
use crate::type_syntax::selected;
use crate::unify::error_of;
use crate::vars::{free_type_vars, free_vars, list_vars};

verus! {

broadcast use vstd::std_specs::hash::group_hash_axioms;

/// Types as messages show them.
pub open spec fn all_shown(tys: Seq<TyV>) -> Seq<Seq<char>> {
    Seq::new(tys.len(), |i: int| shown(tys[i]))
}

/// Whether no type variable is left in any of `tys`.
pub open spec fn all_known(tys: Seq<TyV>) -> bool {
    forall|i: int| 0 <= i < tys.len() ==> free_vars(#[trigger] tys[i]) == Set::<u32>::empty()
}

/// The error of a dictionary that cannot be found: if the types that determine
/// it are known, there is none.
pub open spec fn unresolved_error(context: Seq<char>, p: PendingDictArgV) -> TypeErrorV {
    let determinants = selected(p.args, p.determinant_indexes);
    if determinants.len() > 0 && all_known(determinants) {
        TypeErrorV::MissingTraitImpl {
            trait_name: p.trait_name,
            impl_target: join(all_shown(determinants), ", "@),
        }
    } else {
        TypeErrorV::UnresolvedTrait { context, trait_name: p.trait_name }
    }
}

/// Types as messages show them.
pub fn show_types(tys: &Vec<Ty>) -> (r: Vec<String>)
    ensures
        strings_view(r@) == all_shown(tys_view(tys@)),
{
    let ghost all = tys_view(tys@);
    let mut out: Vec<String> = Vec::new();
    let mut i: usize = 0;
    while i < tys.len()
        invariant
            i <= tys.len(),
            all == tys_view(tys@),
            out@.len() == i,
            forall|j: int| 0 <= j < i ==> (#[trigger] out@[j])@ == all_shown(all)[j],
        decreases tys.len() - i,
    {
        assert(all[i as int] == ty_view(tys@[i as int]));
        out.push(tys[i].to_string());
        i = i + 1;
    }
    assert(strings_view(out@) =~= all_shown(all));
    out
}

/// The types at `indexes`.
pub fn select_tys(args: &Vec<Ty>, indexes: &Vec<usize>) -> (r: Vec<Ty>)
    ensures
        tys_view(r@) == selected(tys_view(args@), indexes@),
{
    let ghost av = tys_view(args@);
    let ghost all = indexes@;
    let mut out: Vec<Ty> = Vec::new();
    let mut i: usize = 0;
    assert(all.take(0) =~= Seq::empty());
    assert(tys_view(out@) =~= Seq::empty());
    while i < indexes.len()
        invariant
            i <= indexes.len(),
            av == tys_view(args@),
            all == indexes@,
            tys_view(out@) == selected(av, all.take(i as int)),
        decreases indexes.len() - i,
    {
        let ghost before = tys_view(out@);
        proof {
            assert(av.len() == args@.len());
            assert(all.take(i + 1).drop_last() =~= all.take(i as int));
            assert(all.take(i + 1).last() == all[i as int]);
        }
        let index = indexes[i];
        if index < args.len() {
            assert(av[index as int] == ty_view(args@[index as int]));
            out.push(args[index].clone());
            assert(tys_view(out@) =~= before.push(av[index as int]));
        }
        i = i + 1;
    }
    assert(all.take(all.len() as int) =~= all);
    out
}

pub fn types_known(tys: &Vec<Ty>) -> (r: bool)
    ensures
        r == all_known(tys_view(tys@)),
{
    let ghost all = tys_view(tys@);
    let mut i: usize = 0;
    while i < tys.len()
        invariant
            i <= tys.len(),
            all == tys_view(tys@),
            forall|j: int| 0 <= j < i ==> free_vars(#[trigger] all[j]) == Set::<u32>::empty(),
        decreases tys.len() - i,
    {
        assert(all[i as int] == ty_view(tys@[i as int]));
        let vars = list_vars(&free_type_vars(&tys[i]));
        if vars.len() != 0 {
            assert(vars@.contains(vars@[0]));
            assert(free_vars(all[i as int]).contains(vars@[0]));
            return false;
        }
        assert forall|v: u32| !free_vars(all[i as int]).contains(v) by {
            assert(!vars@.contains(v));
        }
        assert(free_vars(all[i as int]) =~= Set::empty());
        i = i + 1;
    }
    true
}

fn unresolved_pending_error(context: &str, p: &PendingDictArg) -> (r: TypeError)
    ensures
        r@ == unresolved_error(context@, p@),
{
    let determinants = select_tys(&p.args, &p.determinant_indexes);
    assert(tys_view(determinants@).len() == determinants@.len());
    if determinants.len() > 0 && types_known(&determinants) {
        let shown = show_types(&determinants);
        return TypeError::MissingTraitImpl {
            trait_name: p.trait_name.clone(),
            impl_target: join_strings(&shown, ", "),
        };
    }
    TypeError::UnresolvedTrait {
        context: context.to_owned(),
        trait_name: p.trait_name.clone(),
    }
}

// ---------------------------------------------------------------------------
// Single uses
// ---------------------------------------------------------------------------

/// An operator whose dictionary may be pending.
pub struct OpUseV {
    pub resolved: Option<ResolvedCalleeV>,
    pub pending: Option<PendingDictArgV>,
    pub err: Option<TypeErrorV>,
}

/// Fills in the dictionary of `method`. If it cannot be found and `hard`, that is
/// `error`.
pub open spec fn settle_op(
    c: ResolverV,
    method: Seq<char>,
    resolved: Option<ResolvedCalleeV>,
    pending: Option<PendingDictArgV>,
    hard: bool,
    iterator: bool,
) -> OpUseV {
    match pending {
        None => OpUseV { resolved, pending, err: None },
        Some(p) => match resolve_pending(c, p) {
            Some(dict) => OpUseV {
                resolved: Some(ResolvedCalleeV::DictMethod { dict, method }),
                pending: None,
                err: None,
            },
            None => OpUseV {
                resolved,
                pending,
                err: if !hard {
                    None
                } else if iterator {
                    Some(
                        TypeErrorV::UnresolvedTrait {
                            context: "iterator"@,
                            trait_name: p.trait_name,
                        },
                    )
                } else {
                    Some(unresolved_error("operator"@, p))
                },
            },
        },
    }
}

/// A method whose dictionary may be pending.
pub struct MethodUseV {
    pub resolved: Option<ResolvedCalleeV>,
    pub pending: Option<PendingMethodV>,
    pub err: Option<TypeErrorV>,
}

/// Fills in the dictionary of a method.
pub open spec fn settle_method(
    c: ResolverV,
    context: Seq<char>,
    resolved: Option<ResolvedCalleeV>,
    pending: Option<PendingMethodV>,
    hard: bool,
) -> MethodUseV {
    match pending {
        None => MethodUseV { resolved, pending, err: None },
        Some(p) => match resolve_pending(c, p.pending) {
            Some(dict) => MethodUseV {
                resolved: Some(ResolvedCalleeV::DictMethod { dict, method: p.method }),
                pending: None,
                err: None,
            },
            None => if hard {
                MethodUseV {
                    resolved,
                    pending: None,
                    err: Some(
                        TypeErrorV::UnresolvedTrait { context, trait_name: p.pending.trait_name },
                    ),
                }
            } else {
                MethodUseV { resolved, pending, err: None }
            },
        },
    }
}

/// Dictionaries that are passed, and those that are pending.
pub struct ArgsUseV {
    pub dicts: Seq<DictRefV>,
    pub pending: Seq<PendingDictArgV>,
    pub err: Option<TypeErrorV>,
}

/// The dictionaries for all that is pending, or the error of the first that
/// cannot be found.
pub open spec fn all_resolved(c: ResolverV, context: Seq<char>, pending: Seq<PendingDictArgV>, i: nat) -> Result<
    Seq<DictRefV>,
    TypeErrorV,
>
    decreases pending.len() - i,
{
    if i >= pending.len() {
        Ok(Seq::empty())
    } else {
        match resolve_pending(c, pending[i as int]) {
            None => Err(unresolved_error(context, pending[i as int])),
            Some(d) => match all_resolved(c, context, pending, i + 1) {
                Ok(rest) => Ok(seq![d] + rest),
                Err(e) => Err(e),
            },
        }
    }
}

/// The dictionaries for what is pending as far as they can be found, and what
/// stays pending.
pub open spec fn some_resolved(c: ResolverV, pending: Seq<PendingDictArgV>) -> (
    Seq<DictRefV>,
    Seq<PendingDictArgV>,
)
    decreases pending.len(),
{
    if pending.len() == 0 {
        (Seq::empty(), Seq::empty())
    } else {
        let rest = some_resolved(c, pending.drop_last());
        match resolve_pending(c, pending.last()) {
            Some(d) => (rest.0.push(d), rest.1),
            None => (rest.0, rest.1.push(pending.last())),
        }
    }
}

/// Fills in pending dictionaries.
pub open spec fn drain(
    c: ResolverV,
    context: Seq<char>,
    dicts: Seq<DictRefV>,
    pending: Seq<PendingDictArgV>,
    hard: bool,
) -> ArgsUseV {
    if hard {
        match all_resolved(c, context, pending, 0) {
            Ok(more) => ArgsUseV { dicts: dicts + more, pending: Seq::empty(), err: None },
            Err(e) => ArgsUseV { dicts, pending, err: Some(e) },
        }
    } else {
        let found = some_resolved(c, pending);
        ArgsUseV { dicts: dicts + found.0, pending: found.1, err: None }
    }
}

/// An argument wrapper with its pending dictionaries filled in.
pub open spec fn settle_wrapper(c: ResolverV, w: Option<ArgWrapperV>) -> Option<ArgWrapperV> {
    match w {
        None => None,
        Some(w) => {
            let found = some_resolved(c, w.pending_dict_args);
            Some(
                ArgWrapperV { dict_args: w.dict_args + found.0, pending_dict_args: found.1 },
            )
        },
    }
}

/// Argument wrappers with their pending dictionaries filled in.
pub open spec fn settle_wrappers(c: ResolverV, ws: Seq<Option<ArgWrapperV>>) -> Seq<
    Option<ArgWrapperV>,
> {
    Seq::new(ws.len(), |i: int| settle_wrapper(c, ws[i]))
}

fn settle_op_use(
    c: &Resolver,
    method: &str,
    resolved: &mut Option<ResolvedCallee>,
    pending: &mut Option<PendingDictArg>,
    hard: bool,
    iterator: bool,
) -> (r: Result<(), TypeError>)
    requires
        c.wf(),
    ensures
        (OpUseV {
            resolved: some_resolved_callee_view(*final(resolved)),
            pending: some_pending_dict_arg_view(*final(pending)),
            err: error_of(r),
        }) == settle_op(
            c@,
            method@,
            some_resolved_callee_view(*old(resolved)),
            some_pending_dict_arg_view(*old(pending)),
            hard,
            iterator,
        ),
{
    let found = match &*pending {
        None => {
            return Ok(());
        },
        Some(p) => match c.resolve_local_or_concrete(p) {
            Some(dict) => dict,
            None => {
                if !hard {
                    return Ok(());
                }
                if iterator {
                    return Err(
                        TypeError::UnresolvedTrait {
                            context: "iterator".to_owned(),
                            trait_name: p.trait_name.clone(),
                        },
                    );
                }
                return Err(unresolved_pending_error("operator", p));
            },
        },
    };
    *resolved = Some(ResolvedCallee::DictMethod { dict: found, method: method.to_owned() });
    *pending = None;
    Ok(())
}

fn settle_method_use(
    c: &Resolver,
    context: &str,
    resolved: &mut Option<ResolvedCallee>,
    pending: &mut Option<PendingMethod>,
    hard: bool,
) -> (r: Result<(), TypeError>)
    requires
        c.wf(),
    ensures
        (MethodUseV {
            resolved: some_resolved_callee_view(*final(resolved)),
            pending: some_pending_method_view(*final(pending)),
            err: error_of(r),
        }) == settle_method(
            c@,
            context@,
            some_resolved_callee_view(*old(resolved)),
            some_pending_method_view(*old(pending)),
            hard,
        ),
{
    let (found, method) = match &*pending {
        None => {
            return Ok(());
        },
        Some(p) => match c.resolve_local_or_concrete(&p.pending) {
            Some(dict) => (dict, p.method.clone()),
            None => {
                if !hard {
                    return Ok(());
                }
                let err = TypeError::UnresolvedTrait {
                    context: context.to_owned(),
                    trait_name: p.pending.trait_name.clone(),
                };
                *pending = None;
                return Err(err);
            },
        },
    };
    *resolved = Some(ResolvedCallee::DictMethod { dict: found, method });
    *pending = None;
    Ok(())
}

fn drain_pending_lenient(
    c: &Resolver,
    dicts: &mut Vec<DictRef>,
    pending: &mut Vec<PendingDictArg>,
)
    requires
        c.wf(),
    ensures
        dict_refs_view(final(dicts)@) == dict_refs_view(old(dicts)@) + some_resolved(
            c@,
            pending_dict_args_view(old(pending)@),
        ).0,
        pending_dict_args_view(final(pending)@) == some_resolved(
            c@,
            pending_dict_args_view(old(pending)@),
        ).1,
{
    let ghost all = pending_dict_args_view(pending@);
    let ghost start = dict_refs_view(dicts@);
    let mut left: Vec<PendingDictArg> = Vec::new();
    let mut i: usize = 0;
    assert(all.take(0) =~= Seq::empty());
    assert(pending_dict_args_view(left@) =~= Seq::empty());
    assert(dict_refs_view(dicts@) =~= start + some_resolved(c@, all.take(0)).0);
    while i < pending.len()
        invariant
            i <= pending.len(),
            c.wf(),
            *pending == *old(pending),
            all == pending_dict_args_view(pending@),
            start == dict_refs_view(old(dicts)@),
            dict_refs_view(dicts@) == start + some_resolved(c@, all.take(i as int)).0,
            pending_dict_args_view(left@) == some_resolved(c@, all.take(i as int)).1,
        decreases pending.len() - i,
    {
        let ghost before_d = dict_refs_view(dicts@);
        let ghost before_l = pending_dict_args_view(left@);
        proof {
            assert(all.take(i + 1).drop_last() =~= all.take(i as int));
            assert(all.take(i + 1).last() == pending_dict_arg_view(pending@[i as int]));
        }
        match c.resolve_local_or_concrete(&pending[i]) {
            Some(d) => {
                dicts.push(d);
                assert(dict_refs_view(dicts@) =~= before_d.push(d@));
                assert(dict_refs_view(dicts@) =~= start + some_resolved(c@, all.take(i + 1)).0);
            },
            None => {
                left.push(pending[i].clone());
                assert(pending_dict_args_view(left@) =~= before_l.push(all[i as int]));
            },
        }
        i = i + 1;
    }
    assert(all.take(all.len() as int) =~= all);
    *pending = left;
}

fn drain_pending(
    c: &Resolver,
    context: &str,
    dicts: &mut Vec<DictRef>,
    pending: &mut Vec<PendingDictArg>,
    hard: bool,
) -> (r: Result<(), TypeError>)
    requires
        c.wf(),
    ensures
        (ArgsUseV {
            dicts: dict_refs_view(final(dicts)@),
            pending: pending_dict_args_view(final(pending)@),
            err: error_of(r),
        }) == drain(
            c@,
            context@,
            dict_refs_view(old(dicts)@),
            pending_dict_args_view(old(pending)@),
            hard,
        ),
{
    if !hard {
        drain_pending_lenient(c, dicts, pending);
        return Ok(());
    }
    let ghost all = pending_dict_args_view(pending@);
    let ghost want = all_resolved(c@, context@, all, 0);
    let mut found: Vec<DictRef> = Vec::new();
    let mut i: usize = 0;
    assert(dict_refs_view(found@) =~= Seq::empty());
    assert(want is Ok ==> want->Ok_0 =~= Seq::empty() + want->Ok_0);
    while i < pending.len()
        invariant
            i <= pending.len(),
            c.wf(),
            hard,
            *pending == *old(pending),
            *dicts == *old(dicts),
            all == pending_dict_args_view(pending@),
            want == all_resolved(c@, context@, all, 0),
            match (want, all_resolved(c@, context@, all, i as nat)) {
                (Ok(total), Ok(rest)) => total == dict_refs_view(found@) + rest,
                (Err(a), Err(b)) => a == b,
                _ => false,
            },
        decreases pending.len() - i,
    {
        let ghost before = dict_refs_view(found@);
        assert(all[i as int] == pending_dict_arg_view(pending@[i as int]));
        match c.resolve_local_or_concrete(&pending[i]) {
            Some(d) => {
                found.push(d);
                proof {
                    assert(dict_refs_view(found@) =~= before.push(d@));
                    if let Ok(rest) = all_resolved(c@, context@, all, (i + 1) as nat) {
                        assert(before + (seq![d@] + rest) =~= before.push(d@) + rest);
                    }
                }
            },
            None => {
                return Err(unresolved_pending_error(context, &pending[i]));
            },
        }
        i = i + 1;
    }
    let ghost fv = dict_refs_view(found@);
    let ghost dv = dict_refs_view(dicts@);
    assert(fv + Seq::empty() =~= fv);
    dicts.append(&mut found);
    assert(dict_refs_view(dicts@) =~= dv + fv);
    pending.clear();
    assert(pending_dict_args_view(pending@) =~= Seq::empty());
    Ok(())
}

fn settle_arg_wrappers(c: &Resolver, ws: &mut Vec<Option<ArgWrapper>>)
    requires
        c.wf(),
    ensures
        arg_wrappers_view(final(ws)@) == settle_wrappers(c@, arg_wrappers_view(old(ws)@)),
{
    let ghost start = ws@;
    let ghost all = arg_wrappers_view(start);
    let ghost want = settle_wrappers(c@, all);
    let mut i: usize = 0;
    while i < ws.len()
        invariant
            i <= ws.len(),
            ws.len() == start.len(),
            c.wf(),
            all == arg_wrappers_view(start),
            want == settle_wrappers(c@, all),
            forall|j: int| 0 <= j < i ==> some_arg_wrapper_view(#[trigger] ws@[j]) == want[j],
            forall|j: int| i <= j < start.len() ==> #[trigger] ws@[j] == start[j],
        decreases ws.len() - i,
    {
        assert(all[i as int] == some_arg_wrapper_view(start[i as int]));
        if let Some(w) = &mut ws[i] {
            drain_pending_lenient(c, &mut w.dict_args, &mut w.pending_dict_args);
        }
        i = i + 1;
    }
    assert(arg_wrappers_view(ws@) =~= want);
}

// ---------------------------------------------------------------------------
// Trees
// ---------------------------------------------------------------------------

/// An optional expression with its pending dictionaries filled in.
pub open spec fn settle_optional(e: Option<Box<ExprV>>, c: ResolverV, deep: bool, hard: bool) -> (
    Option<Box<ExprV>>,
    Option<TypeErrorV>,
)
    decreases e, 1nat,
{
    match e {
        None => (None, None),
        Some(x) => {
            let r = settle(*x, c, deep, hard);
            (Some(Box::new(r.0)), r.1)
        },
    }
}

/// `e` with its pending dictionaries filled in: all of them if `hard`, those that
/// can be found otherwise. With `deep`, functions in blocks are entered too.
pub open spec fn settle(e: ExprV, c: ResolverV, deep: bool, hard: bool) -> (
    ExprV,
    Option<TypeErrorV>,
)
    decreases e, 0nat,
{
    let k = settle_kind(e.kind, c, deep, hard);
    (ExprV { id: e.id, span: e.span, kind: k.0 }, k.1)
}

proof fn lemma_settle(e: ExprV, c: ResolverV, deep: bool, hard: bool)
    ensures
        settle(e, c, deep, hard) == ({
            let k = settle_kind(e.kind, c, deep, hard);
            (ExprV { id: e.id, span: e.span, kind: k.0 }, k.1)
        }),
{
}

pub open spec fn settle_kind(k: ExprKindV, c: ResolverV, deep: bool, hard: bool) -> (
    ExprKindV,
    Option<TypeErrorV>,
)
    decreases k, 1nat,
{
    match k {
        ExprKindV::Binary { .. } => settle_binary(k, c, deep, hard),
        ExprKindV::Neg { .. } => settle_neg(k, c, deep, hard),
        ExprKindV::Call { .. } => settle_call(k, c, deep, hard),
        ExprKindV::Block { .. } => settle_block(k, c, deep, hard),
        ExprKindV::If { .. } => settle_if(k, c, deep, hard),
        ExprKindV::Lambda { params, return_type, body, dict_params } => {
            let x = settle(*body, c, deep, hard);
            (ExprKindV::Lambda { params, return_type, body: Box::new(x.0), dict_params }, x.1)
        },
        ExprKindV::Match { .. } => settle_match(k, c, deep, hard),
        ExprKindV::Loop(body) => {
            let x = settle(*body, c, deep, hard);
            (ExprKindV::Loop(Box::new(x.0)), x.1)
        },
        ExprKindV::Assign { .. } => settle_assign(k, c, deep, hard),
        ExprKindV::Range { .. } => settle_range(k, c, deep, hard),
        ExprKindV::Grouped(x) => {
            let x = settle(*x, c, deep, hard);
            (ExprKindV::Grouped(Box::new(x.0)), x.1)
        },
        ExprKindV::Not(x) => {
            let x = settle(*x, c, deep, hard);
            (ExprKindV::Not(Box::new(x.0)), x.1)
        },
        ExprKindV::Break(x) => {
            let x = settle_optional(x, c, deep, hard);
            (ExprKindV::Break(x.0), x.1)
        },
        ExprKindV::Return(x) => {
            let x = settle_optional(x, c, deep, hard);
            (ExprKindV::Return(x.0), x.1)
        },
        ExprKindV::Tuple(items) => {
            let xs = settle_exprs(items, 0, c, deep, hard);
            (ExprKindV::Tuple(xs.0), xs.1)
        },
        ExprKindV::Array(entries) => {
            let xs = settle_array_entries(entries, 0, c, deep, hard);
            (ExprKindV::Array(xs.0), xs.1)
        },
        ExprKindV::Record(entries) => {
            let xs = settle_record_entries(entries, 0, c, deep, hard);
            (ExprKindV::Record(xs.0), xs.1)
        },
        ExprKindV::FieldAccess { expr, field } => {
            let x = settle(*expr, c, deep, hard);
            (ExprKindV::FieldAccess { expr: Box::new(x.0), field }, x.1)
        },
        ExprKindV::Index { .. } => settle_index(k, c, deep, hard),
        ExprKindV::For { .. } => settle_for(k, c, deep, hard),
        _ => (k, None),
    }
}

pub open spec fn settle_binary(k: ExprKindV, c: ResolverV, deep: bool, hard: bool) -> (
    ExprKindV,
    Option<TypeErrorV>,
)
    decreases k, 0nat,
{
    match k {
        ExprKindV::Binary { lhs, op, rhs, resolved_op, pending_op, dict_args, pending_dict_args } => {
            let u = match op {
                BinOpV::Custom(name) => settle_op(c, name, resolved_op, pending_op, hard, false),
                _ => OpUseV { resolved: resolved_op, pending: pending_op, err: None },
            };
            let a = if u.err is Some {
                ArgsUseV { dicts: dict_args, pending: pending_dict_args, err: u.err }
            } else {
                drain(c, "call"@, dict_args, pending_dict_args, hard)
            };
            let l = if a.err is Some {
                (*lhs, a.err)
            } else {
                settle(*lhs, c, deep, hard)
            };
            let r = if l.1 is Some {
                (*rhs, l.1)
            } else {
                settle(*rhs, c, deep, hard)
            };
            (
                ExprKindV::Binary {
                    lhs: Box::new(l.0),
                    op,
                    rhs: Box::new(r.0),
                    resolved_op: u.resolved,
                    pending_op: u.pending,
                    dict_args: a.dicts,
                    pending_dict_args: a.pending,
                },
                r.1,
            )
        },
        _ => (k, None),
    }
}

pub open spec fn settle_neg(k: ExprKindV, c: ResolverV, deep: bool, hard: bool) -> (
    ExprKindV,
    Option<TypeErrorV>,
)
    decreases k, 0nat,
{
    match k {
        ExprKindV::Neg { operand, resolved_op, pending_op } => {
            let u = settle_op(c, "-"@, resolved_op, pending_op, hard, false);
            let x = if u.err is Some {
                (*operand, u.err)
            } else {
                settle(*operand, c, deep, hard)
            };
            (
                ExprKindV::Neg {
                    operand: Box::new(x.0),
                    resolved_op: u.resolved,
                    pending_op: u.pending,
                },
                x.1,
            )
        },
        _ => (k, None),
    }
}

pub open spec fn settle_call(k: ExprKindV, c: ResolverV, deep: bool, hard: bool) -> (
    ExprKindV,
    Option<TypeErrorV>,
)
    decreases k, 0nat,
{
    match k {
        ExprKindV::Call {
            callee,
            args,
            is_method_call,
            arg_wrappers,
            resolved_callee,
            pending_trait_method,
            dict_args,
            pending_dict_args,
        } => {
            let m = settle_method(c, "method call"@, resolved_callee, pending_trait_method, hard);
            let a = if m.err is Some {
                ArgsUseV { dicts: dict_args, pending: pending_dict_args, err: m.err }
            } else {
                drain(c, "call"@, dict_args, pending_dict_args, hard)
            };
            let ws = if a.err is Some {
                arg_wrappers
            } else {
                settle_wrappers(c, arg_wrappers)
            };
            let f = if a.err is Some {
                (*callee, a.err)
            } else {
                settle(*callee, c, deep, hard)
            };
            let xs = if f.1 is Some {
                (args, f.1)
            } else {
                settle_exprs(args, 0, c, deep, hard)
            };
            (
                ExprKindV::Call {
                    callee: Box::new(f.0),
                    args: xs.0,
                    is_method_call,
                    arg_wrappers: ws,
                    resolved_callee: m.resolved,
                    pending_trait_method: m.pending,
                    dict_args: a.dicts,
                    pending_dict_args: a.pending,
                },
                xs.1,
            )
        },
        _ => (k, None),
    }
}

pub open spec fn settle_block(k: ExprKindV, c: ResolverV, deep: bool, hard: bool) -> (
    ExprKindV,
    Option<TypeErrorV>,
)
    decreases k, 0nat,
{
    match k {
        ExprKindV::Block { stmts, final_expr } => {
            let s = settle_stmts(stmts, 0, c, deep, hard);
            let x = if s.1 is Some {
                (final_expr, s.1)
            } else {
                settle_optional(final_expr, c, deep, hard)
            };
            (ExprKindV::Block { stmts: s.0, final_expr: x.0 }, x.1)
        },
        _ => (k, None),
    }
}

pub open spec fn settle_if(k: ExprKindV, c: ResolverV, deep: bool, hard: bool) -> (
    ExprKindV,
    Option<TypeErrorV>,
)
    decreases k, 0nat,
{
    match k {
        ExprKindV::If { cond, then_branch, else_branch } => {
            let x = settle(*cond, c, deep, hard);
            let y = if x.1 is Some {
                (*then_branch, x.1)
            } else {
                settle(*then_branch, c, deep, hard)
            };
            let z = if y.1 is Some {
                (*else_branch, y.1)
            } else {
                settle(*else_branch, c, deep, hard)
            };
            (
                ExprKindV::If {
                    cond: Box::new(x.0),
                    then_branch: Box::new(y.0),
                    else_branch: Box::new(z.0),
                },
                z.1,
            )
        },
        _ => (k, None),
    }
}

pub open spec fn settle_match(k: ExprKindV, c: ResolverV, deep: bool, hard: bool) -> (
    ExprKindV,
    Option<TypeErrorV>,
)
    decreases k, 0nat,
{
    match k {
        ExprKindV::Match { scrutinee, arms } => {
            let x = settle(*scrutinee, c, deep, hard);
            let ys = if x.1 is Some {
                (arms, x.1)
            } else {
                settle_arms(arms, 0, c, deep, hard)
            };
            (ExprKindV::Match { scrutinee: Box::new(x.0), arms: ys.0 }, ys.1)
        },
        _ => (k, None),
    }
}

pub open spec fn settle_assign(k: ExprKindV, c: ResolverV, deep: bool, hard: bool) -> (
    ExprKindV,
    Option<TypeErrorV>,
)
    decreases k, 0nat,
{
    match k {
        ExprKindV::Assign { target, value } => {
            let x = settle(*target, c, deep, hard);
            let y = if x.1 is Some {
                (*value, x.1)
            } else {
                settle(*value, c, deep, hard)
            };
            (ExprKindV::Assign { target: Box::new(x.0), value: Box::new(y.0) }, y.1)
        },
        _ => (k, None),
    }
}

pub open spec fn settle_range(k: ExprKindV, c: ResolverV, deep: bool, hard: bool) -> (
    ExprKindV,
    Option<TypeErrorV>,
)
    decreases k, 0nat,
{
    match k {
        ExprKindV::Range { start, end, inclusive } => {
            let x = settle_optional(start, c, deep, hard);
            let y = if x.1 is Some {
                (end, x.1)
            } else {
                settle_optional(end, c, deep, hard)
            };
            (ExprKindV::Range { start: x.0, end: y.0, inclusive }, y.1)
        },
        _ => (k, None),
    }
}

pub open spec fn settle_index(k: ExprKindV, c: ResolverV, deep: bool, hard: bool) -> (
    ExprKindV,
    Option<TypeErrorV>,
)
    decreases k, 0nat,
{
    match k {
        ExprKindV::Index {
            receiver,
            key,
            resolved_callee,
            pending_trait_method,
            dict_args,
            pending_dict_args,
        } => {
            let m = settle_method(
                c,
                "index expression"@,
                resolved_callee,
                pending_trait_method,
                hard,
            );
            let a = if m.err is Some {
                ArgsUseV { dicts: dict_args, pending: pending_dict_args, err: m.err }
            } else {
                drain(c, "index expression"@, dict_args, pending_dict_args, hard)
            };
            let x = if a.err is Some {
                (*receiver, a.err)
            } else {
                settle(*receiver, c, deep, hard)
            };
            let y = if x.1 is Some {
                (*key, x.1)
            } else {
                settle(*key, c, deep, hard)
            };
            (
                ExprKindV::Index {
                    receiver: Box::new(x.0),
                    key: Box::new(y.0),
                    resolved_callee: m.resolved,
                    pending_trait_method: m.pending,
                    dict_args: a.dicts,
                    pending_dict_args: a.pending,
                },
                y.1,
            )
        },
        _ => (k, None),
    }
}

pub open spec fn settle_for(k: ExprKindV, c: ResolverV, deep: bool, hard: bool) -> (
    ExprKindV,
    Option<TypeErrorV>,
)
    decreases k, 0nat,
{
    match k {
        ExprKindV::For { pat, iterable, body, resolved_iter, pending_iter } => {
            let u = settle_op(c, "iter"@, resolved_iter, pending_iter, hard, true);
            let x = if u.err is Some {
                (*iterable, u.err)
            } else {
                settle(*iterable, c, deep, hard)
            };
            let y = if x.1 is Some {
                (*body, x.1)
            } else {
                settle(*body, c, deep, hard)
            };
            (
                ExprKindV::For {
                    pat,
                    iterable: Box::new(x.0),
                    body: Box::new(y.0),
                    resolved_iter: u.resolved,
                    pending_iter: u.pending,
                },
                y.1,
            )
        },
        _ => (k, None),
    }
}


pub open spec fn settle_exprs(s: Seq<ExprV>, i: nat, c: ResolverV, deep: bool, hard: bool) -> (Seq<ExprV>, Option<TypeErrorV>)
    decreases s, s.len() - i,
{
    if i >= s.len() {
        (Seq::empty(), None)
    } else {
        let x: (ExprV, Option<TypeErrorV>) = settle(s[i as int], c, deep, hard);
        if x.1 is Some {
            (seq![x.0] + s.skip(i as int + 1), x.1)
        } else {
            let rest = settle_exprs(s, i + 1, c, deep, hard);
            (seq![x.0] + rest.0, rest.1)
        }
    }
}

pub open spec fn settle_arms(s: Seq<MatchArmV>, i: nat, c: ResolverV, deep: bool, hard: bool) -> (Seq<MatchArmV>, Option<TypeErrorV>)
    decreases s, s.len() - i,
{
    if i >= s.len() {
        (Seq::empty(), None)
    } else {
        let x: (MatchArmV, Option<TypeErrorV>) = {
            let x = settle(s[i as int].body, c, deep, hard);
            (MatchArmV { pattern: s[i as int].pattern, body: x.0 }, x.1)
        };
        if x.1 is Some {
            (seq![x.0] + s.skip(i as int + 1), x.1)
        } else {
            let rest = settle_arms(s, i + 1, c, deep, hard);
            (seq![x.0] + rest.0, rest.1)
        }
    }
}

pub open spec fn settle_array_entries(s: Seq<ArrayEntryV>, i: nat, c: ResolverV, deep: bool, hard: bool) -> (Seq<ArrayEntryV>, Option<TypeErrorV>)
    decreases s, s.len() - i,
{
    if i >= s.len() {
        (Seq::empty(), None)
    } else {
        let x: (ArrayEntryV, Option<TypeErrorV>) = match s[i as int] {
            ArrayEntryV::Elem(e) => {
                let x = settle(e, c, deep, hard);
                (ArrayEntryV::Elem(x.0), x.1)
            },
            ArrayEntryV::Spread(e) => {
                let x = settle(e, c, deep, hard);
                (ArrayEntryV::Spread(x.0), x.1)
            },
        };
        if x.1 is Some {
            (seq![x.0] + s.skip(i as int + 1), x.1)
        } else {
            let rest = settle_array_entries(s, i + 1, c, deep, hard);
            (seq![x.0] + rest.0, rest.1)
        }
    }
}

pub open spec fn settle_record_entries(s: Seq<RecordEntryV>, i: nat, c: ResolverV, deep: bool, hard: bool) -> (Seq<RecordEntryV>, Option<TypeErrorV>)
    decreases s, s.len() - i,
{
    if i >= s.len() {
        (Seq::empty(), None)
    } else {
        let x: (RecordEntryV, Option<TypeErrorV>) = match s[i as int] {
            RecordEntryV::Field(name, e) => {
                let x = settle(e, c, deep, hard);
                (RecordEntryV::Field(name, x.0), x.1)
            },
            RecordEntryV::Spread(e) => {
                let x = settle(e, c, deep, hard);
                (RecordEntryV::Spread(x.0), x.1)
            },
        };
        if x.1 is Some {
            (seq![x.0] + s.skip(i as int + 1), x.1)
        } else {
            let rest = settle_record_entries(s, i + 1, c, deep, hard);
            (seq![x.0] + rest.0, rest.1)
        }
    }
}

pub open spec fn settle_impl_methods(s: Seq<ImplMethodV>, i: nat, c: ResolverV, deep: bool, hard: bool) -> (Seq<ImplMethodV>, Option<TypeErrorV>)
    decreases s, s.len() - i,
{
    if i >= s.len() {
        (Seq::empty(), None)
    } else {
        let x: (ImplMethodV, Option<TypeErrorV>) = {
            let x = settle(s[i as int].body, c, deep, hard);
            (ImplMethodV { body: x.0, ..s[i as int] }, x.1)
        };
        if x.1 is Some {
            (seq![x.0] + s.skip(i as int + 1), x.1)
        } else {
            let rest = settle_impl_methods(s, i + 1, c, deep, hard);
            (seq![x.0] + rest.0, rest.1)
        }
    }
}

pub open spec fn settle_inherent_methods(s: Seq<InherentMethodV>, i: nat, c: ResolverV, deep: bool, hard: bool) -> (Seq<InherentMethodV>, Option<TypeErrorV>)
    decreases s, s.len() - i,
{
    if i >= s.len() {
        (Seq::empty(), None)
    } else {
        let x: (InherentMethodV, Option<TypeErrorV>) = {
            let x = settle(s[i as int].body, c, deep, hard);
            (InherentMethodV { body: x.0, ..s[i as int] }, x.1)
        };
        if x.1 is Some {
            (seq![x.0] + s.skip(i as int + 1), x.1)
        } else {
            let rest = settle_inherent_methods(s, i + 1, c, deep, hard);
            (seq![x.0] + rest.0, rest.1)
        }
    }
}

pub open spec fn settle_stmts(s: Seq<StmtV>, i: nat, c: ResolverV, deep: bool, hard: bool) -> (Seq<StmtV>, Option<TypeErrorV>)
    decreases s, s.len() - i,
{
    if i >= s.len() {
        (Seq::empty(), None)
    } else {
        let x: (StmtV, Option<TypeErrorV>) = settle_stmt(s[i as int], c, deep, hard);
        if x.1 is Some {
            (seq![x.0] + s.skip(i as int + 1), x.1)
        } else {
            let rest = settle_stmts(s, i + 1, c, deep, hard);
            (seq![x.0] + rest.0, rest.1)
        }
    }
}

/// A statement with its pending dictionaries filled in. Functions are left alone
/// unless `deep`: their bodies are seen to where they are checked.
pub open spec fn settle_stmt(stmt: StmtV, c: ResolverV, deep: bool, hard: bool) -> (
    StmtV,
    Option<TypeErrorV>,
)
    decreases stmt, 0nat,
{
    match stmt {
        StmtV::Fn(def) => if deep {
            let x = settle(def.body, c, deep, hard);
            (StmtV::Fn(FnDefV { body: x.0, ..def }), x.1)
        } else {
            (stmt, None)
        },
        StmtV::Op(def) => if deep {
            let x = settle(def.body, c, deep, hard);
            (StmtV::Op(FnDefV { body: x.0, ..def }), x.1)
        } else {
            (stmt, None)
        },
        StmtV::Let { pat, is_mutable, ty, value, span } => {
            let x = settle(value, c, deep, hard);
            (StmtV::Let { pat, is_mutable, ty, value: x.0, span }, x.1)
        },
        StmtV::Expr(e) => {
            let x = settle(e, c, deep, hard);
            (StmtV::Expr(x.0), x.1)
        },
        StmtV::Impl(id) => {
            let xs = settle_impl_methods(id.methods, 0, c, deep, hard);
            (StmtV::Impl(ImplDefV { methods: xs.0, ..id }), xs.1)
        },
        StmtV::InherentImpl(id) => {
            let xs = settle_inherent_methods(id.methods, 0, c, deep, hard);
            (StmtV::InherentImpl(InherentImplDefV { methods: xs.0, ..id }), xs.1)
        },
        StmtV::RecBlock { stmts, span } => {
            let xs = settle_stmts(stmts, 0, c, deep, hard);
            (StmtV::RecBlock { stmts: xs.0, span }, xs.1)
        },
        _ => (stmt, None),
    }
}

fn fill_optional(e: &mut Option<Box<Expr>>, c: &Resolver, deep: bool, hard: bool) -> (r: Result<
    (),
    TypeError,
>)
    requires
        c.wf(),
    ensures
        (boxed_expr_view(*final(e)), error_of(r)) == settle_optional(
            boxed_expr_view(*old(e)),
            c@,
            deep,
            hard,
        ),
    decreases *old(e), 1nat,
{
    match e {
        Some(x) => resolve_dict_uses_expr_with_mode(x, c, deep, hard),
        None => Ok(()),
    }
}

#[verifier::spinoff_prover]
#[verifier::rlimit(20)]
fn resolve_dict_uses_expr_with_mode(e: &mut Expr, c: &Resolver, deep: bool, hard: bool) -> (r: Result<
    (),
    TypeError,
>)
    requires
        c.wf(),
    ensures
        (final(e)@, error_of(r)) == settle(old(e)@, c@, deep, hard),
    decreases *old(e), 0nat,
{
    proof {
        lemma_settle(e@, c@, deep, hard);
    }
    match &mut e.kind {
        ExprKind::Binary { .. } => fill_binary(&mut e.kind, c, deep, hard),
        ExprKind::Neg { .. } => fill_neg(&mut e.kind, c, deep, hard),
        ExprKind::Call { .. } => fill_call(&mut e.kind, c, deep, hard),
        ExprKind::Block { .. } => fill_block(&mut e.kind, c, deep, hard),
        ExprKind::If { .. } => fill_if(&mut e.kind, c, deep, hard),
        ExprKind::Lambda { body, .. } => resolve_dict_uses_expr_with_mode(body, c, deep, hard),
        ExprKind::Match { .. } => fill_match(&mut e.kind, c, deep, hard),
        ExprKind::Loop(body) => resolve_dict_uses_expr_with_mode(body, c, deep, hard),
        ExprKind::Assign { .. } => fill_assign(&mut e.kind, c, deep, hard),
        ExprKind::Range { .. } => fill_range(&mut e.kind, c, deep, hard),
        ExprKind::Grouped(x) => resolve_dict_uses_expr_with_mode(x, c, deep, hard),
        ExprKind::Not(x) => resolve_dict_uses_expr_with_mode(x, c, deep, hard),
        ExprKind::Break(x) => fill_optional(x, c, deep, hard),
        ExprKind::Return(x) => fill_optional(x, c, deep, hard),
        ExprKind::Tuple(items) => settle_expr_list(items, c, deep, hard),
        ExprKind::Array(entries) => settle_array_list(entries, c, deep, hard),
        ExprKind::Record(entries) => settle_record_list(entries, c, deep, hard),
        ExprKind::FieldAccess { expr, .. } => resolve_dict_uses_expr_with_mode(expr, c, deep, hard),
        ExprKind::Index { .. } => fill_index(&mut e.kind, c, deep, hard),
        ExprKind::For { .. } => fill_for(&mut e.kind, c, deep, hard),
        _ => Ok(()),
    }
}

fn fill_binary(k: &mut ExprKind, c: &Resolver, deep: bool, hard: bool) -> (r: Result<(), TypeError>)
    requires
        c.wf(),
    ensures
        (expr_kind_view(*final(k)), error_of(r)) == settle_binary(expr_kind_view(*old(k)), c@, deep, hard),
    decreases *old(k), 0nat,
{
    match &mut *k {
        ExprKind::Binary { lhs, op, rhs, resolved_op, pending_op, dict_args, pending_dict_args } => {
            if let BinOp::Custom(name) = &*op {
                assert(bin_op_view(*op) == BinOpV::Custom(name@));
                match settle_op_use(c, name.as_str(), resolved_op, pending_op, hard, false) {
                    Err(err) => return Err(err),
                    Ok(_) => {},
                }
            } else {
                assert(!(bin_op_view(*op) is Custom));
            }
            match drain_pending(c, "call", dict_args, pending_dict_args, hard) {
                Err(err) => return Err(err),
                Ok(_) => {},
            }
            match resolve_dict_uses_expr_with_mode(lhs, c, deep, hard) {
                Err(err) => return Err(err),
                Ok(_) => {},
            }
            resolve_dict_uses_expr_with_mode(rhs, c, deep, hard)
        },
        _ => Ok(()),
    }
}

fn fill_neg(k: &mut ExprKind, c: &Resolver, deep: bool, hard: bool) -> (r: Result<(), TypeError>)
    requires
        c.wf(),
    ensures
        (expr_kind_view(*final(k)), error_of(r)) == settle_neg(expr_kind_view(*old(k)), c@, deep, hard),
    decreases *old(k), 0nat,
{
    match &mut *k {
        ExprKind::Neg { operand, resolved_op, pending_op } => {
            match settle_op_use(c, "-", resolved_op, pending_op, hard, false) {
                Err(err) => return Err(err),
                Ok(_) => {},
            }
            resolve_dict_uses_expr_with_mode(operand, c, deep, hard)
        },
        _ => Ok(()),
    }
}

fn fill_call(k: &mut ExprKind, c: &Resolver, deep: bool, hard: bool) -> (r: Result<(), TypeError>)
    requires
        c.wf(),
    ensures
        (expr_kind_view(*final(k)), error_of(r)) == settle_call(expr_kind_view(*old(k)), c@, deep, hard),
    decreases *old(k), 0nat,
{
    match &mut *k {
        ExprKind::Call {
            callee,
            args,
            arg_wrappers,
            resolved_callee,
            pending_trait_method,
            dict_args,
            pending_dict_args,
            ..
        } => {
            match settle_method_use(c, "method call", resolved_callee, pending_trait_method, hard) {
                Err(err) => return Err(err),
                Ok(_) => {},
            }
            match drain_pending(c, "call", dict_args, pending_dict_args, hard) {
                Err(err) => return Err(err),
                Ok(_) => {},
            }
            settle_arg_wrappers(c, arg_wrappers);
            match resolve_dict_uses_expr_with_mode(callee, c, deep, hard) {
                Err(err) => return Err(err),
                Ok(_) => {},
            }
            settle_expr_list(args, c, deep, hard)
        },
        _ => Ok(()),
    }
}

fn fill_block(k: &mut ExprKind, c: &Resolver, deep: bool, hard: bool) -> (r: Result<(), TypeError>)
    requires
        c.wf(),
    ensures
        (expr_kind_view(*final(k)), error_of(r)) == settle_block(expr_kind_view(*old(k)), c@, deep, hard),
    decreases *old(k), 0nat,
{
    match &mut *k {
        ExprKind::Block { stmts, final_expr } => {
            match settle_stmt_list(stmts, c, deep, hard) {
                Err(err) => return Err(err),
                Ok(_) => {},
            }
            fill_optional(final_expr, c, deep, hard)
        },
        _ => Ok(()),
    }
}

fn fill_if(k: &mut ExprKind, c: &Resolver, deep: bool, hard: bool) -> (r: Result<(), TypeError>)
    requires
        c.wf(),
    ensures
        (expr_kind_view(*final(k)), error_of(r)) == settle_if(expr_kind_view(*old(k)), c@, deep, hard),
    decreases *old(k), 0nat,
{
    match &mut *k {
        ExprKind::If { cond, then_branch, else_branch } => {
            match resolve_dict_uses_expr_with_mode(cond, c, deep, hard) {
                Err(err) => return Err(err),
                Ok(_) => {},
            }
            match resolve_dict_uses_expr_with_mode(then_branch, c, deep, hard) {
                Err(err) => return Err(err),
                Ok(_) => {},
            }
            resolve_dict_uses_expr_with_mode(else_branch, c, deep, hard)
        },
        _ => Ok(()),
    }
}

fn fill_match(k: &mut ExprKind, c: &Resolver, deep: bool, hard: bool) -> (r: Result<(), TypeError>)
    requires
        c.wf(),
    ensures
        (expr_kind_view(*final(k)), error_of(r)) == settle_match(expr_kind_view(*old(k)), c@, deep, hard),
    decreases *old(k), 0nat,
{
    match &mut *k {
        ExprKind::Match { scrutinee, arms } => {
            match resolve_dict_uses_expr_with_mode(scrutinee, c, deep, hard) {
                Err(err) => return Err(err),
                Ok(_) => {},
            }
            settle_arm_list(arms, c, deep, hard)
        },
        _ => Ok(()),
    }
}

fn fill_assign(k: &mut ExprKind, c: &Resolver, deep: bool, hard: bool) -> (r: Result<(), TypeError>)
    requires
        c.wf(),
    ensures
        (expr_kind_view(*final(k)), error_of(r)) == settle_assign(expr_kind_view(*old(k)), c@, deep, hard),
    decreases *old(k), 0nat,
{
    match &mut *k {
        ExprKind::Assign { target, value } => {
            match resolve_dict_uses_expr_with_mode(target, c, deep, hard) {
                Err(err) => return Err(err),
                Ok(_) => {},
            }
            resolve_dict_uses_expr_with_mode(value, c, deep, hard)
        },
        _ => Ok(()),
    }
}

fn fill_range(k: &mut ExprKind, c: &Resolver, deep: bool, hard: bool) -> (r: Result<(), TypeError>)
    requires
        c.wf(),
    ensures
        (expr_kind_view(*final(k)), error_of(r)) == settle_range(expr_kind_view(*old(k)), c@, deep, hard),
    decreases *old(k), 0nat,
{
    match &mut *k {
        ExprKind::Range { start, end, .. } => {
            match fill_optional(start, c, deep, hard) {
                Err(err) => return Err(err),
                Ok(_) => {},
            }
            fill_optional(end, c, deep, hard)
        },
        _ => Ok(()),
    }
}

fn fill_index(k: &mut ExprKind, c: &Resolver, deep: bool, hard: bool) -> (r: Result<(), TypeError>)
    requires
        c.wf(),
    ensures
        (expr_kind_view(*final(k)), error_of(r)) == settle_index(expr_kind_view(*old(k)), c@, deep, hard),
    decreases *old(k), 0nat,
{
    match &mut *k {
        ExprKind::Index {
            receiver,
            key,
            resolved_callee,
            pending_trait_method,
            dict_args,
            pending_dict_args,
        } => {
            match settle_method_use(
                c,
                "index expression",
                resolved_callee,
                pending_trait_method,
                hard,
            ) {
                Err(err) => return Err(err),
                Ok(_) => {},
            }
            match drain_pending(c, "index expression", dict_args, pending_dict_args, hard) {
                Err(err) => return Err(err),
                Ok(_) => {},
            }
            match resolve_dict_uses_expr_with_mode(receiver, c, deep, hard) {
                Err(err) => return Err(err),
                Ok(_) => {},
            }
            resolve_dict_uses_expr_with_mode(key, c, deep, hard)
        },
        _ => Ok(()),
    }
}

fn fill_for(k: &mut ExprKind, c: &Resolver, deep: bool, hard: bool) -> (r: Result<(), TypeError>)
    requires
        c.wf(),
    ensures
        (expr_kind_view(*final(k)), error_of(r)) == settle_for(expr_kind_view(*old(k)), c@, deep, hard),
    decreases *old(k), 0nat,
{
    match &mut *k {
        ExprKind::For { iterable, body, resolved_iter, pending_iter, .. } => {
            match settle_op_use(c, "iter", resolved_iter, pending_iter, hard, true) {
                Err(err) => return Err(err),
                Ok(_) => {},
            }
            match resolve_dict_uses_expr_with_mode(iterable, c, deep, hard) {
                Err(err) => return Err(err),
                Ok(_) => {},
            }
            resolve_dict_uses_expr_with_mode(body, c, deep, hard)
        },
        _ => Ok(()),
    }
}


fn settle_expr_list(s: &mut Vec<Expr>, c: &Resolver, deep: bool, hard: bool) -> (r: Result<(), TypeError>)
    requires
        c.wf(),
    ensures
        (exprs_view(final(s)@), error_of(r)) == settle_exprs(exprs_view(old(s)@), 0, c@, deep, hard),
    decreases old(s)@, 0nat,
{
    let ghost start = s@;
    let ghost all = exprs_view(start);
    let ghost want = settle_exprs(all, 0, c@, deep, hard);
    let mut i: usize = 0;
    assert(all.take(0) =~= Seq::empty());
    assert(Seq::empty() + want.0 =~= want.0);
    while i < s.len()
        invariant
            i <= s.len(),
            s.len() == start.len(),
            start == old(s)@,
            all == exprs_view(start),
            all.len() == start.len(),
            want == settle_exprs(all, 0, c@, deep, hard),
            want.0 == exprs_view(s@).take(i as int) + settle_exprs(all, i as nat, c@, deep, hard).0,
            want.1 == settle_exprs(all, i as nat, c@, deep, hard).1,
            forall|j: int| i <= j < start.len() ==> #[trigger] s@[j] == start[j],
            c.wf(),
        decreases s.len() - i,
    {
        let ghost done = exprs_view(s@).take(i as int);
        proof {
            assert(all[i as int] == expr_view(start[i as int]));
            assert(decreases_to!(start => start[i as int]));
        }
        let step = resolve_dict_uses_expr_with_mode(&mut s[i], c, deep, hard);
        proof {
            let now = exprs_view(s@);
            assert(now[i as int] == expr_view(s@[i as int]));
            assert forall|j: int| i < j < start.len() implies #[trigger] now[j] == all[j] by {
                assert(s@[j] == start[j]);
            }
            lemma_list_step(
                now,
                all,
                done,
                i as int,
                settle_exprs(all, (i + 1) as nat, c@, deep, hard).0,
            );
        }
        match step {
            Err(err) => {
                return Err(err);
            },
            Ok(_) => {},
        }
        i = i + 1;
    }
    assert(exprs_view(s@) =~= exprs_view(s@).take(i as int) + Seq::empty());
    Ok(())
}

fn settle_arm_list(s: &mut Vec<MatchArm>, c: &Resolver, deep: bool, hard: bool) -> (r: Result<(), TypeError>)
    requires
        c.wf(),
    ensures
        (match_arms_view(final(s)@), error_of(r)) == settle_arms(match_arms_view(old(s)@), 0, c@, deep, hard),
    decreases old(s)@, 0nat,
{
    let ghost start = s@;
    let ghost all = match_arms_view(start);
    let ghost want = settle_arms(all, 0, c@, deep, hard);
    let mut i: usize = 0;
    assert(all.take(0) =~= Seq::empty());
    assert(Seq::empty() + want.0 =~= want.0);
    while i < s.len()
        invariant
            i <= s.len(),
            s.len() == start.len(),
            start == old(s)@,
            all == match_arms_view(start),
            all.len() == start.len(),
            want == settle_arms(all, 0, c@, deep, hard),
            want.0 == match_arms_view(s@).take(i as int) + settle_arms(all, i as nat, c@, deep, hard).0,
            want.1 == settle_arms(all, i as nat, c@, deep, hard).1,
            forall|j: int| i <= j < start.len() ==> #[trigger] s@[j] == start[j],
            c.wf(),
        decreases s.len() - i,
    {
        let ghost done = match_arms_view(s@).take(i as int);
        proof {
            assert(all[i as int] == match_arm_view(start[i as int]));
            assert(decreases_to!(start => start[i as int]));
        }
        assert(decreases_to!(start[i as int] => start[i as int].body));
        let step = {
            let arm = &mut s[i];
            resolve_dict_uses_expr_with_mode(&mut arm.body, c, deep, hard)
        };
        proof {
            let now = match_arms_view(s@);
            assert(now[i as int] == match_arm_view(s@[i as int]));
            assert forall|j: int| i < j < start.len() implies #[trigger] now[j] == all[j] by {
                assert(s@[j] == start[j]);
            }
            lemma_list_step(
                now,
                all,
                done,
                i as int,
                settle_arms(all, (i + 1) as nat, c@, deep, hard).0,
            );
        }
        match step {
            Err(err) => {
                return Err(err);
            },
            Ok(_) => {},
        }
        i = i + 1;
    }
    assert(match_arms_view(s@) =~= match_arms_view(s@).take(i as int) + Seq::empty());
    Ok(())
}

fn settle_array_list(s: &mut Vec<ArrayEntry>, c: &Resolver, deep: bool, hard: bool) -> (r: Result<(), TypeError>)
    requires
        c.wf(),
    ensures
        (array_entries_view(final(s)@), error_of(r)) == settle_array_entries(array_entries_view(old(s)@), 0, c@, deep, hard),
    decreases old(s)@, 0nat,
{
    let ghost start = s@;
    let ghost all = array_entries_view(start);
    let ghost want = settle_array_entries(all, 0, c@, deep, hard);
    let mut i: usize = 0;
    assert(all.take(0) =~= Seq::empty());
    assert(Seq::empty() + want.0 =~= want.0);
    while i < s.len()
        invariant
            i <= s.len(),
            s.len() == start.len(),
            start == old(s)@,
            all == array_entries_view(start),
            all.len() == start.len(),
            want == settle_array_entries(all, 0, c@, deep, hard),
            want.0 == array_entries_view(s@).take(i as int) + settle_array_entries(all, i as nat, c@, deep, hard).0,
            want.1 == settle_array_entries(all, i as nat, c@, deep, hard).1,
            forall|j: int| i <= j < start.len() ==> #[trigger] s@[j] == start[j],
            c.wf(),
        decreases s.len() - i,
    {
        let ghost done = array_entries_view(s@).take(i as int);
        proof {
            assert(all[i as int] == array_entry_view(start[i as int]));
            assert(decreases_to!(start => start[i as int]));
        }
        let step = match &mut s[i] {
            ArrayEntry::Elem(x) => resolve_dict_uses_expr_with_mode(x, c, deep, hard),
            ArrayEntry::Spread(x) => resolve_dict_uses_expr_with_mode(x, c, deep, hard),
        };
        proof {
            let now = array_entries_view(s@);
            assert(now[i as int] == array_entry_view(s@[i as int]));
            assert forall|j: int| i < j < start.len() implies #[trigger] now[j] == all[j] by {
                assert(s@[j] == start[j]);
            }
            lemma_list_step(
                now,
                all,
                done,
                i as int,
                settle_array_entries(all, (i + 1) as nat, c@, deep, hard).0,
            );
        }
        match step {
            Err(err) => {
                return Err(err);
            },
            Ok(_) => {},
        }
        i = i + 1;
    }
    assert(array_entries_view(s@) =~= array_entries_view(s@).take(i as int) + Seq::empty());
    Ok(())
}

fn settle_record_list(s: &mut Vec<RecordEntry>, c: &Resolver, deep: bool, hard: bool) -> (r: Result<(), TypeError>)
    requires
        c.wf(),
    ensures
        (record_entries_view(final(s)@), error_of(r)) == settle_record_entries(record_entries_view(old(s)@), 0, c@, deep, hard),
    decreases old(s)@, 0nat,
{
    let ghost start = s@;
    let ghost all = record_entries_view(start);
    let ghost want = settle_record_entries(all, 0, c@, deep, hard);
    let mut i: usize = 0;
    assert(all.take(0) =~= Seq::empty());
    assert(Seq::empty() + want.0 =~= want.0);
    while i < s.len()
        invariant
            i <= s.len(),
            s.len() == start.len(),
            start == old(s)@,
            all == record_entries_view(start),
            all.len() == start.len(),
            want == settle_record_entries(all, 0, c@, deep, hard),
            want.0 == record_entries_view(s@).take(i as int) + settle_record_entries(all, i as nat, c@, deep, hard).0,
            want.1 == settle_record_entries(all, i as nat, c@, deep, hard).1,
            forall|j: int| i <= j < start.len() ==> #[trigger] s@[j] == start[j],
            c.wf(),
        decreases s.len() - i,
    {
        let ghost done = record_entries_view(s@).take(i as int);
        proof {
            assert(all[i as int] == record_entry_view(start[i as int]));
            assert(decreases_to!(start => start[i as int]));
        }
        let step = match &mut s[i] {
            RecordEntry::Field(_, x) => resolve_dict_uses_expr_with_mode(x, c, deep, hard),
            RecordEntry::Spread(x) => resolve_dict_uses_expr_with_mode(x, c, deep, hard),
        };
        proof {
            let now = record_entries_view(s@);
            assert(now[i as int] == record_entry_view(s@[i as int]));
            assert forall|j: int| i < j < start.len() implies #[trigger] now[j] == all[j] by {
                assert(s@[j] == start[j]);
            }
            lemma_list_step(
                now,
                all,
                done,
                i as int,
                settle_record_entries(all, (i + 1) as nat, c@, deep, hard).0,
            );
        }
        match step {
            Err(err) => {
                return Err(err);
            },
            Ok(_) => {},
        }
        i = i + 1;
    }
    assert(record_entries_view(s@) =~= record_entries_view(s@).take(i as int) + Seq::empty());
    Ok(())
}

pub fn settle_impl_list(s: &mut Vec<ImplMethod>, c: &Resolver, deep: bool, hard: bool) -> (r: Result<(), TypeError>)
    requires
        c.wf(),
    ensures
        (impl_methods_view(final(s)@), error_of(r)) == settle_impl_methods(impl_methods_view(old(s)@), 0, c@, deep, hard),
    decreases old(s)@, 0nat,
{
    let ghost start = s@;
    let ghost all = impl_methods_view(start);
    let ghost want = settle_impl_methods(all, 0, c@, deep, hard);
    let mut i: usize = 0;
    assert(all.take(0) =~= Seq::empty());
    assert(Seq::empty() + want.0 =~= want.0);
    while i < s.len()
        invariant
            i <= s.len(),
            s.len() == start.len(),
            start == old(s)@,
            all == impl_methods_view(start),
            all.len() == start.len(),
            want == settle_impl_methods(all, 0, c@, deep, hard),
            want.0 == impl_methods_view(s@).take(i as int) + settle_impl_methods(all, i as nat, c@, deep, hard).0,
            want.1 == settle_impl_methods(all, i as nat, c@, deep, hard).1,
            forall|j: int| i <= j < start.len() ==> #[trigger] s@[j] == start[j],
            c.wf(),
        decreases s.len() - i,
    {
        let ghost done = impl_methods_view(s@).take(i as int);
        proof {
            assert(all[i as int] == impl_method_view(start[i as int]));
            assert(decreases_to!(start => start[i as int]));
        }
        assert(decreases_to!(start[i as int] => start[i as int].body));
        let step = {
            let method = &mut s[i];
            resolve_dict_uses_expr_with_mode(&mut method.body, c, deep, hard)
        };
        proof {
            let now = impl_methods_view(s@);
            assert(now[i as int] == impl_method_view(s@[i as int]));
            assert forall|j: int| i < j < start.len() implies #[trigger] now[j] == all[j] by {
                assert(s@[j] == start[j]);
            }
            lemma_list_step(
                now,
                all,
                done,
                i as int,
                settle_impl_methods(all, (i + 1) as nat, c@, deep, hard).0,
            );
        }
        match step {
            Err(err) => {
                return Err(err);
            },
            Ok(_) => {},
        }
        i = i + 1;
    }
    assert(impl_methods_view(s@) =~= impl_methods_view(s@).take(i as int) + Seq::empty());
    Ok(())
}

fn settle_inherent_list(s: &mut Vec<InherentMethod>, c: &Resolver, deep: bool, hard: bool) -> (r: Result<(), TypeError>)
    requires
        c.wf(),
    ensures
        (inherent_methods_view(final(s)@), error_of(r)) == settle_inherent_methods(inherent_methods_view(old(s)@), 0, c@, deep, hard),
    decreases old(s)@, 0nat,
{
    let ghost start = s@;
    let ghost all = inherent_methods_view(start);
    let ghost want = settle_inherent_methods(all, 0, c@, deep, hard);
    let mut i: usize = 0;
    assert(all.take(0) =~= Seq::empty());
    assert(Seq::empty() + want.0 =~= want.0);
    while i < s.len()
        invariant
            i <= s.len(),
            s.len() == start.len(),
            start == old(s)@,
            all == inherent_methods_view(start),
            all.len() == start.len(),
            want == settle_inherent_methods(all, 0, c@, deep, hard),
            want.0 == inherent_methods_view(s@).take(i as int) + settle_inherent_methods(all, i as nat, c@, deep, hard).0,
            want.1 == settle_inherent_methods(all, i as nat, c@, deep, hard).1,
            forall|j: int| i <= j < start.len() ==> #[trigger] s@[j] == start[j],
            c.wf(),
        decreases s.len() - i,
    {
        let ghost done = inherent_methods_view(s@).take(i as int);
        proof {
            assert(all[i as int] == inherent_method_view(start[i as int]));
            assert(decreases_to!(start => start[i as int]));
        }
        assert(decreases_to!(start[i as int] => start[i as int].body));
        let step = {
            let method = &mut s[i];
            resolve_dict_uses_expr_with_mode(&mut method.body, c, deep, hard)
        };
        proof {
            let now = inherent_methods_view(s@);
            assert(now[i as int] == inherent_method_view(s@[i as int]));
            assert forall|j: int| i < j < start.len() implies #[trigger] now[j] == all[j] by {
                assert(s@[j] == start[j]);
            }
            lemma_list_step(
                now,
                all,
                done,
                i as int,
                settle_inherent_methods(all, (i + 1) as nat, c@, deep, hard).0,
            );
        }
        match step {
            Err(err) => {
                return Err(err);
            },
            Ok(_) => {},
        }
        i = i + 1;
    }
    assert(inherent_methods_view(s@) =~= inherent_methods_view(s@).take(i as int) + Seq::empty());
    Ok(())
}

fn settle_stmt_list(s: &mut Vec<Stmt>, c: &Resolver, deep: bool, hard: bool) -> (r: Result<(), TypeError>)
    requires
        c.wf(),
    ensures
        (stmts_view(final(s)@), error_of(r)) == settle_stmts(stmts_view(old(s)@), 0, c@, deep, hard),
    decreases old(s)@, 0nat,
{
    let ghost start = s@;
    let ghost all = stmts_view(start);
    let ghost want = settle_stmts(all, 0, c@, deep, hard);
    let mut i: usize = 0;
    assert(all.take(0) =~= Seq::empty());
    assert(Seq::empty() + want.0 =~= want.0);
    while i < s.len()
        invariant
            i <= s.len(),
            s.len() == start.len(),
            start == old(s)@,
            all == stmts_view(start),
            all.len() == start.len(),
            want == settle_stmts(all, 0, c@, deep, hard),
            want.0 == stmts_view(s@).take(i as int) + settle_stmts(all, i as nat, c@, deep, hard).0,
            want.1 == settle_stmts(all, i as nat, c@, deep, hard).1,
            forall|j: int| i <= j < start.len() ==> #[trigger] s@[j] == start[j],
            c.wf(),
        decreases s.len() - i,
    {
        let ghost done = stmts_view(s@).take(i as int);
        proof {
            assert(all[i as int] == stmt_view(start[i as int]));
            assert(decreases_to!(start => start[i as int]));
        }
        let step = resolve_dict_uses_stmt_inner_with_mode(&mut s[i], c, deep, hard);
        proof {
            let now = stmts_view(s@);
            assert(now[i as int] == stmt_view(s@[i as int]));
            assert forall|j: int| i < j < start.len() implies #[trigger] now[j] == all[j] by {
                assert(s@[j] == start[j]);
            }
            lemma_list_step(
                now,
                all,
                done,
                i as int,
                settle_stmts(all, (i + 1) as nat, c@, deep, hard).0,
            );
        }
        match step {
            Err(err) => {
                return Err(err);
            },
            Ok(_) => {},
        }
        i = i + 1;
    }
    assert(stmts_view(s@) =~= stmts_view(s@).take(i as int) + Seq::empty());
    Ok(())
}

fn resolve_dict_uses_stmt_inner_with_mode(
    stmt: &mut Stmt,
    c: &Resolver,
    deep: bool,
    hard: bool,
) -> (r: Result<(), TypeError>)
    requires
        c.wf(),
    ensures
        (final(stmt)@, error_of(r)) == settle_stmt(old(stmt)@, c@, deep, hard),
    decreases *old(stmt), 0nat,
{
    match stmt {
        Stmt::Fn(def) => {
            if deep {
                resolve_dict_uses_expr_with_mode(&mut def.body, c, deep, hard)
            } else {
                Ok(())
            }
        },
        Stmt::Op(def) => {
            if deep {
                resolve_dict_uses_expr_with_mode(&mut def.body, c, deep, hard)
            } else {
                Ok(())
            }
        },
        Stmt::Let { value, .. } => resolve_dict_uses_expr_with_mode(value, c, deep, hard),
        Stmt::Expr(e) => resolve_dict_uses_expr_with_mode(e, c, deep, hard),
        Stmt::Impl(id) => settle_impl_list(&mut id.methods, c, deep, hard),
        Stmt::InherentImpl(id) => settle_inherent_list(&mut id.methods, c, deep, hard),
        Stmt::RecBlock { stmts, .. } => settle_stmt_list(stmts, c, deep, hard),
        _ => Ok(()),
    }
}

/// Fills in all pending dictionaries of an expression.
pub fn resolve_dict_uses_expr(e: &mut Expr, c: &Resolver, deep: bool) -> (r: Result<(), TypeError>)
    requires
        c.wf(),
    ensures
        (final(e)@, error_of(r)) == settle(old(e)@, c@, deep, true),
{
    resolve_dict_uses_expr_with_mode(e, c, deep, true)
}

/// Fills in the pending dictionaries of an expression that can be found.
pub fn resolve_dict_uses_expr_lenient(e: &mut Expr, c: &Resolver, deep: bool) -> (r: Result<
    (),
    TypeError,
>)
    requires
        c.wf(),
    ensures
        (final(e)@, error_of(r)) == settle(old(e)@, c@, deep, false),
{
    resolve_dict_uses_expr_with_mode(e, c, deep, false)
}

/// Fills in what is still pending in a statement once everything is checked.
pub fn final_pass_stmt(stmt: &mut Stmt, c: &Resolver) -> (r: Result<(), TypeError>)
    requires
        c.wf(),
    ensures
        (final(stmt)@, error_of(r)) == settle_stmt(old(stmt)@, c@, true, true),
{
    resolve_dict_uses_stmt_inner_with_mode(stmt, c, true, true)
}

} // verus!
