//! How programs are checked past their first error.

use vstd::prelude::*;

use crate::apply::acyclic;
use crate::ast::{Program, Stmt};
use crate::ast_view::{stmt_view, stmts_view, StmtV};
use crate::checker::{checker, stmt_run};
use crate::decls::{clash, dicts_removed, type_discarded};
use crate::definitions::{child_level, next_level, noted_scheme};
use crate::dict_uses::{final_pass_stmt, settle_stmt};
use crate::dicts::ResolverV;
use crate::env::{apply_env, build_variant_env_from_stmts, EnvV, TypeEnv, VariantEnv};
use crate::error::{error_at, SpannedTypeError, SpannedV};
use crate::items::{test_shape, validate_test_stmt_shape};
use crate::programs::{errors_view, final_resolver, no_result, program_start, push_error};
use crate::programs::{result_of, some_env, test_name_errors, traits_known, type_constructors};
use crate::programs::{types_known, validate_duplicate_test_function_names, value_of};
use crate::programs::{InferenceResult, ModuleInference, ResultV};
use crate::recovery::{bind_stmt, mention_stmt, names_overlap, no_names_found};
use crate::recovery::{stmt_bound_names, stmt_referenced_names, CollectedNames, NamesFoundV};
use crate::schemes::generalized;
use crate::scopes::at_level;
use crate::state::{added_after, extended, meta_keys, restored, returns_view, Infer, InferV};
use crate::state::{InherentMethodInfo, TypeMetadataSnapshot};
use crate::steps::{ty_res, written, Run};
use crate::subst::{SubstCheckpoint, SubstV};
use crate::tables::NameMap;
use crate::ty::{clone_constraints, clone_tys, constraints_view, immutable_info, tys_view};
use crate::ty::{CallableCapabilities, EnvInfo, FuncReturn, TraitConstraint, Ty, TyV, TyVar};

verus! {

// ---------------------------------------------------------------------------
// Going back
// ---------------------------------------------------------------------------

/// The state after a statement that failed: what was solved, what is pending and what
/// was bound is as it was `before`. The variables that were handed out stay so, and so
/// do the types of the symbols and callables that were met on the way.
pub open spec fn rolled_back(before: InferV, now: InferV) -> InferV {
    let keys = meta_keys(before.meta);
    InferV {
        subst: SubstV { map: before.subst.map, ..now.subst },
        pending: before.pending,
        break_tys: before.break_tys,
        return_tys: before.return_tys,
        import_bindings: before.import_bindings,
        field_callables: before.field_callables,
        methods: before.methods,
        meta: extended(
            restored(now.meta, keys),
            added_after(now.meta, keys, now.subst.map),
        ),
        ..now
    }
}

/// What is kept of a state to go back to.
pub struct InferSnapshot {
    pub subst: SubstCheckpoint,
    pub pending: Vec<TraitConstraint>,
    pub loop_break_tys: Vec<Ty>,
    pub fn_return_tys: Vec<FuncReturn>,
    pub metadata: TypeMetadataSnapshot,
    pub bindings: NameMap<String>,
    pub record_field_callables: NameMap<NameMap<CallableCapabilities>>,
    pub methods: NameMap<NameMap<InherentMethodInfo>>,
    pub env: TypeEnv,
}

/// Whether a snapshot keeps this state and this environment.
pub open spec fn keeps(s: InferSnapshot, st: InferV, env: EnvV) -> bool {
    &&& s.subst@ == st.subst.map
    &&& acyclic(st.subst.map)
    &&& constraints_view(s.pending@) == st.pending
    &&& tys_view(s.loop_break_tys@) == st.break_tys
    &&& returns_view(s.fn_return_tys@) == st.return_tys
    &&& s.metadata@ == meta_keys(st.meta)
    &&& s.bindings@ == st.import_bindings
    &&& s.record_field_callables@ == st.field_callables
    &&& s.methods@ == st.methods
    &&& s.env@ == env
}

fn clone_returns(rs: &Vec<FuncReturn>) -> (r: Vec<FuncReturn>)
    ensures
        returns_view(r@) == returns_view(rs@),
{
    let mut out: Vec<FuncReturn> = Vec::new();
    let mut i: usize = 0;
    while i < rs.len()
        invariant
            i <= rs.len(),
            out@.len() == i,
            forall|j: int| 0 <= j < i ==> (#[trigger] out@[j])@ == rs@[j]@,
        decreases rs.len() - i,
    {
        out.push(rs[i].clone());
        i = i + 1;
    }
    assert forall|j: int| 0 <= j < out@.len() implies returns_view(out@)[j] == returns_view(
        rs@,
    )[j] by {
        assert(out@[j]@ == rs@[j]@);
    }
    assert(returns_view(out@) =~= returns_view(rs@));
    out
}

impl Infer {
    pub fn capture(&self, env: &TypeEnv) -> (r: InferSnapshot)
        requires
            self.wf(),
        ensures
            keeps(r, self@, env@),
    {
        InferSnapshot {
            subst: self.subst.checkpoint(),
            pending: clone_constraints(&self.constraints.pending),
            loop_break_tys: clone_tys(&self.flow.loop_break_tys),
            fn_return_tys: clone_returns(&self.flow.fn_return_tys),
            metadata: self.metadata.snapshot(),
            bindings: self.imports.bindings.clone(),
            record_field_callables: self.inherent.record_field_callables.clone(),
            methods: self.inherent.methods.clone(),
            env: env.clone(),
        }
    }

    pub fn roll_back(&mut self, env: &mut TypeEnv, s: InferSnapshot, Ghost(before): Ghost<InferV>)
        requires
            old(self).wf(),
            keeps(s, before, s.env@),
        ensures
            final(self).wf(),
            final(self)@ == rolled_back(before, old(self)@),
            final(env)@ == s.env@,
    {
        let failed = self.metadata.metadata_added_after(&s.metadata, &self.subst);
        self.subst.restore_checkpoint(s.subst);
        self.constraints.pending = s.pending;
        self.flow.loop_break_tys = s.loop_break_tys;
        self.flow.fn_return_tys = s.fn_return_tys;
        self.metadata.restore(&s.metadata);
        self.metadata.extend_failed_statement(failed);
        self.imports.bindings = s.bindings;
        self.inherent.record_field_callables = s.record_field_callables;
        self.inherent.methods = s.methods;
        *env = s.env;
    }
}

// ---------------------------------------------------------------------------
// One statement
// ---------------------------------------------------------------------------

/// A statement that is checked on trial: one that fails leaves nothing behind. A
/// statement of a test block must also have the shape of one.
#[verifier::opaque]
pub open spec fn trial_of(st: InferV, env: EnvV, s: StmtV, in_test: bool) -> Run<
    (EnvV, StmtV),
    TyV,
> {
    let r = stmt_run(checker(), st, env, s);
    let res = match r.res {
        Err(e) => Err(e),
        Ok(ty) => if in_test && test_shape(r.node.0, r.node.1) is Some {
            Err(test_shape(r.node.0, r.node.1)->Some_0)
        } else {
            Ok(ty)
        },
    };
    if res is Ok {
        Run { st: r.st, node: r.node, res }
    } else {
        Run { st: rolled_back(st, r.st), node: (env, r.node.1), res }
    }
}

/// Names that stand for nothing, with more of them.
pub open spec fn lost(unavailable: NamesFoundV, bound: NamesFoundV) -> NamesFoundV {
    NamesFoundV {
        values: unavailable.values.union(bound.values),
        types: unavailable.types.union(bound.types),
        traits: unavailable.traits.union(bound.traits),
    }
}

/// Names that stand for nothing, without those that are bound again.
pub open spec fn found_again(unavailable: NamesFoundV, bound: NamesFoundV) -> NamesFoundV {
    NamesFoundV {
        values: unavailable.values.difference(bound.values),
        types: unavailable.types.difference(bound.types),
        traits: unavailable.traits.difference(bound.traits),
    }
}

/// The names that a statement binds.
pub open spec fn bound_by(s: StmtV) -> NamesFoundV {
    bind_stmt(no_names_found(), s)
}

/// The names that a statement speaks of.
pub open spec fn used_by(s: StmtV) -> NamesFoundV {
    mention_stmt(no_names_found(), s, Set::empty(), Set::empty())
}

impl Infer {
    fn infer_trial(&mut self, env: &mut TypeEnv, s: &mut Stmt, in_test: bool) -> (r: Result<
        Ty,
        SpannedTypeError,
    >)
        requires
            old(self).wf(),
        ensures
            final(self).wf(),
            (Run { st: final(self)@, node: (final(env)@, final(s)@), res: ty_res(r) })
                == trial_of(old(self)@, old(env)@, old(s)@, in_test),
    {
        proof {
            reveal(trial_of);
        }
        let ghost before = self@;
        let snapshot = self.capture(env);
        let mut res = self.infer_stmt(env, s);
        if in_test && res.is_ok() {
            match validate_test_stmt_shape(env, s) {
                Err(error) => {
                    res = Err(error);
                },
                Ok(_) => {},
            }
        }
        if res.is_err() {
            self.roll_back(env, snapshot, Ghost(before));
        }
        res
    }
}

// ---------------------------------------------------------------------------
// Test blocks
// ---------------------------------------------------------------------------

/// What checking the statements of a block comes to.
pub struct BlockRun {
    pub st: InferV,
    pub stmts: Seq<StmtV>,
    pub errors: Seq<SpannedV>,
}

/// The statements of a test block from the one at `i` on. One that speaks of a name
/// that stands for nothing is left out.
pub open spec fn block_from(
    st: InferV,
    env: EnvV,
    stmts: Seq<StmtV>,
    i: nat,
    unavailable: NamesFoundV,
    errors: Seq<SpannedV>,
) -> BlockRun
    decreases stmts.len() - i,
{
    if i >= stmts.len() {
        BlockRun { st, stmts, errors }
    } else {
        let s = stmts[i as int];
        if names_overlap(unavailable, used_by(s)) {
            block_from(st, env, stmts, i + 1, lost(unavailable, bound_by(s)), errors)
        } else {
            let r = trial_of(st, env, s, true);
            let now = stmts.update(i as int, r.node.1);
            match r.res {
                Ok(_) => block_from(
                    r.st,
                    r.node.0,
                    now,
                    i + 1,
                    found_again(unavailable, bound_by(s)),
                    errors,
                ),
                Err(e) => block_from(
                    r.st,
                    r.node.0,
                    now,
                    i + 1,
                    lost(unavailable, bound_by(s)),
                    errors.push(e),
                ),
            }
        }
    }
}

impl Infer {
    /// Checks the statements of a test block, past those that fail.
    pub fn infer_test_block_collecting(&mut self, env: &TypeEnv, s: &mut Vec<Stmt>) -> (r: Vec<
        SpannedTypeError,
    >)
        requires
            old(self).wf(),
        ensures
            final(self).wf(),
            (BlockRun {
                st: final(self)@,
                stmts: stmts_view(final(s)@),
                errors: errors_view(r@),
            }) == block_from(
                old(self)@,
                env@,
                stmts_view(old(s)@),
                0,
                no_names_found(),
                Seq::empty(),
            ),
    {
        let ghost want = block_from(
            self@,
            env@,
            stmts_view(s@),
            0,
            no_names_found(),
            Seq::empty(),
        );
        let mut inner = env.clone();
        let mut unavailable = CollectedNames::default();
        let mut errors: Vec<SpannedTypeError> = Vec::new();
        assert(errors_view(errors@) =~= Seq::empty());
        let mut i: usize = 0;
        while i < s.len()
            invariant
                i <= s.len(),
                self.wf(),
                want == block_from(
                    old(self)@,
                    env@,
                    stmts_view(old(s)@),
                    0,
                    no_names_found(),
                    Seq::empty(),
                ),
                want == block_from(
                    self@,
                    inner@,
                    stmts_view(s@),
                    i as nat,
                    unavailable@,
                    errors_view(errors@),
                ),
            decreases s.len() - i,
        {
            let ghost now = stmts_view(s@);
            assert(now.len() == s@.len());
            assert(now[i as int] == stmt_view(s@[i as int]));
            let bound = stmt_bound_names(&s[i]);
            let used = stmt_referenced_names(&s[i]);
            if unavailable.overlaps(&used) {
                unavailable.extend(&bound);
            } else {
                let step = self.infer_trial(&mut inner, &mut s[i], true);
                assert(stmts_view(s@) =~= now.update(i as int, stmt_view(s@[i as int])));
                match step {
                    Ok(_) => {
                        unavailable.remove_all(&bound);
                    },
                    Err(error) => {
                        unavailable.extend(&bound);
                        push_error(&mut errors, error);
                    },
                }
            }
            i = i + 1;
        }
        errors
    }
}

// ---------------------------------------------------------------------------
// Declarations
// ---------------------------------------------------------------------------

/// What is known while a program is checked past its errors.
pub struct CollectV {
    pub st: InferV,
    pub env: EnvV,
    pub unavailable: NamesFoundV,
    pub errors: Seq<SpannedV>,
}

/// What the statements from the one at `i` on declare. A declaration that is wrong
/// leaves its names to stand for nothing.
pub open spec fn declared_from(c: CollectV, stmts: Seq<StmtV>, i: nat) -> CollectV
    decreases stmts.len() - i,
{
    if i >= stmts.len() {
        c
    } else {
        declared_from(declared_one(c, stmts[i as int]), stmts, i + 1)
    }
}

/// What a statement declares.
#[verifier::opaque]
pub open spec fn declared_one(c: CollectV, s: StmtV) -> CollectV {
    match s {
        StmtV::Type(td) => {
            let t = type_constructors(c.st, c.env, td);
            match t.2 {
                None => CollectV { st: t.0, env: t.1, ..c },
                Some(e) => CollectV {
                    st: type_discarded(t.0, td),
                    env: t.1,
                    unavailable: lost(c.unavailable, bound_by(s)),
                    errors: c.errors.push(error_at(e, td.span)),
                },
            }
        },
        StmtV::Extern { name, name_span, ty, span } => {
            let w = written(at_level(c.st, child_level(c.st.level)), Map::empty(), ty);
            let st1 = at_level(w.st, c.st.level);
            match w.res {
                Err(e) => CollectV {
                    st: st1,
                    unavailable: lost(c.unavailable, bound_by(s)),
                    errors: c.errors.push(error_at(e, span)),
                    ..c
                },
                Ok(t) => {
                    let scheme = generalized(st1, t, c.st.level);
                    CollectV {
                        st: noted_scheme(st1, name_span, scheme),
                        env: c.env.insert(name, immutable_info(scheme)),
                        ..c
                    }
                },
            }
        },
        _ => c,
    }
}

impl Infer {
    fn declare_collecting(
        &mut self,
        env: &mut TypeEnv,
        s: &Stmt,
        unavailable: &mut CollectedNames,
        errors: &mut Vec<SpannedTypeError>,
    )
        requires
            old(self).wf(),
        ensures
            final(self).wf(),
            (CollectV {
                st: final(self)@,
                env: final(env)@,
                unavailable: final(unavailable)@,
                errors: errors_view(final(errors)@),
            }) == declared_one(
                (CollectV {
                    st: old(self)@,
                    env: old(env)@,
                    unavailable: old(unavailable)@,
                    errors: errors_view(old(errors)@),
                }),
                s@,
            ),
    {
        proof {
            reveal(declared_one);
        }
        let bound = stmt_bound_names(s);
        match s {
            Stmt::Type(td) => {
                match self.add_constructors_to_env(env, td) {
                    Ok(_) => {},
                    Err(error) => {
                        self.discard_failed_type_decl(td);
                        unavailable.extend(&bound);
                        push_error(errors, error.at(td.span));
                    },
                }
            },
            Stmt::Extern { name, name_span, ty, span } => {
                let ambient = self.current_level;
                self.set_level(next_level(ambient));
                let mut vars: NameMap<TyVar> = NameMap::new();
                let found = self.written(ty, &mut vars);
                self.set_level(ambient);
                match found {
                    Err(error) => {
                        unavailable.extend(&bound);
                        push_error(errors, error.at(*span));
                    },
                    Ok(t) => {
                        let scheme = self.generalize_at(&t, ambient);
                        env.insert(name.clone(), EnvInfo::immutable(scheme.clone()));
                        self.note_scheme(*name_span, scheme);
                    },
                }
            },
            _ => {},
        }
    }

    /// Binds the constructors of types and the values that come from elsewhere, past
    /// those that are wrong.
    pub fn add_constructors_and_externs_collecting(
        &mut self,
        env: &mut TypeEnv,
        stmts: &Vec<Stmt>,
        unavailable: &mut CollectedNames,
        errors: &mut Vec<SpannedTypeError>,
    )
        requires
            old(self).wf(),
        ensures
            final(self).wf(),
            (CollectV {
                st: final(self)@,
                env: final(env)@,
                unavailable: final(unavailable)@,
                errors: errors_view(final(errors)@),
            }) == declared_from(
                (CollectV {
                    st: old(self)@,
                    env: old(env)@,
                    unavailable: old(unavailable)@,
                    errors: errors_view(old(errors)@),
                }),
                stmts_view(stmts@),
                0,
            ),
    {
        let ghost all = stmts_view(stmts@);
        let ghost start = CollectV {
            st: self@,
            env: env@,
            unavailable: unavailable@,
            errors: errors_view(errors@),
        };
        let mut i: usize = 0;
        while i < stmts.len()
            invariant
                i <= stmts.len(),
                self.wf(),
                all == stmts_view(stmts@),
                all.len() == stmts@.len(),
                start == (CollectV {
                    st: old(self)@,
                    env: old(env)@,
                    unavailable: old(unavailable)@,
                    errors: errors_view(old(errors)@),
                }),
                declared_from(start, all, 0) == declared_from(
                    (CollectV {
                        st: self@,
                        env: env@,
                        unavailable: unavailable@,
                        errors: errors_view(errors@),
                    }),
                    all,
                    i as nat,
                ),
            decreases stmts.len() - i,
        {
            assert(all[i as int] == stmt_view(stmts@[i as int]));
            self.declare_collecting(env, &stmts[i], unavailable, errors);
            i = i + 1;
        }
    }
}

// ---------------------------------------------------------------------------
// Statements
// ---------------------------------------------------------------------------

/// A statement of a program that is checked past its errors.
pub struct TopV {
    pub c: CollectV,
    pub s: StmtV,
    pub value: TyV,
    pub done: bool,
}

/// A statement of a program. One that declares a name that stands for nothing, or that
/// speaks of one, is left out. Only an expression that is checked without error gives a
/// value other than unit.
#[verifier::opaque]
pub open spec fn top_one(c: CollectV, s: StmtV) -> TopV {
    let bound = bound_by(s);
    if (s is Type || s is Extern) && names_overlap(c.unavailable, bound) {
        TopV { c, s, value: TyV::Unit, done: false }
    } else if names_overlap(c.unavailable, used_by(s)) {
        TopV {
            c: CollectV { unavailable: lost(c.unavailable, bound), ..c },
            s,
            value: TyV::Unit,
            done: false,
        }
    } else {
        match s {
            StmtV::TestBlock { stmts, span } => {
                let b = block_from(c.st, c.env, stmts, 0, no_names_found(), Seq::empty());
                TopV {
                    c: CollectV { st: b.st, errors: c.errors + b.errors, ..c },
                    s: StmtV::TestBlock { stmts: b.stmts, span },
                    value: TyV::Unit,
                    done: b.errors.len() == 0,
                }
            },
            _ => {
                let r = trial_of(c.st, c.env, s, false);
                match r.res {
                    Ok(ty) => TopV {
                        c: CollectV {
                            st: r.st,
                            env: r.node.0,
                            unavailable: found_again(c.unavailable, bound),
                            ..c
                        },
                        s: r.node.1,
                        value: value_of(r.node.1, ty),
                        done: true,
                    },
                    Err(e) => TopV {
                        c: CollectV {
                            st: r.st,
                            env: r.node.0,
                            unavailable: lost(c.unavailable, bound),
                            errors: c.errors.push(e),
                        },
                        s: r.node.1,
                        value: TyV::Unit,
                        done: false,
                    },
                }
            },
        }
    }
}

/// The statements of a program that is checked past its errors.
pub struct TopsV {
    pub c: CollectV,
    pub stmts: Seq<StmtV>,
    pub value: TyV,
    pub done: Seq<bool>,
}

/// The statements of a program from the one at `i` on.
pub open spec fn tops_from(t: TopsV, i: nat) -> TopsV
    decreases t.stmts.len() - i,
{
    if i >= t.stmts.len() {
        t
    } else {
        let one = top_one(t.c, t.stmts[i as int]);
        tops_from(
            TopsV {
                c: one.c,
                stmts: t.stmts.update(i as int, one.s),
                value: one.value,
                done: t.done.push(one.done),
            },
            i + 1,
        )
    }
}

/// Statements with their dictionaries chosen, where they were checked without error,
/// from the one at `i` on.
pub open spec fn settled_from(
    stmts: Seq<StmtV>,
    done: Seq<bool>,
    r: ResolverV,
    i: nat,
    errors: Seq<SpannedV>,
) -> (Seq<StmtV>, Seq<SpannedV>)
    decreases stmts.len() - i,
{
    if i >= stmts.len() {
        (stmts, errors)
    } else if !done[i as int] {
        settled_from(stmts, done, r, i + 1, errors)
    } else {
        let s = settle_stmt(stmts[i as int], r, true, true);
        let now = stmts.update(i as int, s.0);
        match s.1 {
            Some(e) => settled_from(
                now,
                done,
                r,
                i + 1,
                errors.push(error_at(e, crate::ast::stmt_span(stmts[i as int]))),
            ),
            None => settled_from(now, done, r, i + 1, errors),
        }
    }
}

fn append_errors(errors: &mut Vec<SpannedTypeError>, more: Vec<SpannedTypeError>)
    ensures
        errors_view(final(errors)@) == errors_view(old(errors)@) + errors_view(more@),
{
    let mut rest = more;
    errors.append(&mut rest);
    assert(errors_view(errors@) =~= errors_view(old(errors)@) + errors_view(more@));
}

impl Infer {
    fn infer_top_collecting(
        &mut self,
        env: &mut TypeEnv,
        s: &mut Stmt,
        unavailable: &mut CollectedNames,
        errors: &mut Vec<SpannedTypeError>,
    ) -> (r: (Ty, bool))
        requires
            old(self).wf(),
        ensures
            final(self).wf(),
            (TopV {
                c: (CollectV {
                    st: final(self)@,
                    env: final(env)@,
                    unavailable: final(unavailable)@,
                    errors: errors_view(final(errors)@),
                }),
                s: final(s)@,
                value: r.0@,
                done: r.1,
            }) == top_one(
                (CollectV {
                    st: old(self)@,
                    env: old(env)@,
                    unavailable: old(unavailable)@,
                    errors: errors_view(old(errors)@),
                }),
                old(s)@,
            ),
    {
        proof {
            reveal(top_one);
        }
        let bound = stmt_bound_names(s);
        let used = stmt_referenced_names(s);
        let declares = match &*s {
            Stmt::Type(_) | Stmt::Extern { .. } => true,
            _ => false,
        };
        if declares && unavailable.overlaps(&bound) {
            return (Ty::Unit, false);
        }
        if unavailable.overlaps(&used) {
            unavailable.extend(&bound);
            return (Ty::Unit, false);
        }
        if let Stmt::TestBlock { stmts, .. } = &mut *s {
            let more = self.infer_test_block_collecting(env, stmts);
            assert(errors_view(more@).len() == more@.len());
            let fine = more.len() == 0;
            append_errors(errors, more);
            return (Ty::Unit, fine);
        }
        match self.infer_trial(env, s, false) {
            Ok(ty) => {
                unavailable.remove_all(&bound);
                let value = match &*s {
                    Stmt::Expr(_) => ty,
                    _ => Ty::Unit,
                };
                (value, true)
            },
            Err(error) => {
                unavailable.extend(&bound);
                push_error(errors, error);
                (Ty::Unit, false)
            },
        }
    }

    /// Checks the statements of a program, past those that fail.
    pub fn infer_top_level_statements_collecting(
        &mut self,
        env: &mut TypeEnv,
        s: &mut Vec<Stmt>,
        unavailable: &mut CollectedNames,
        errors: &mut Vec<SpannedTypeError>,
    ) -> (r: (Ty, Vec<bool>))
        requires
            old(self).wf(),
        ensures
            final(self).wf(),
            r.1@.len() == final(s)@.len(),
            (TopsV {
                c: (CollectV {
                    st: final(self)@,
                    env: final(env)@,
                    unavailable: final(unavailable)@,
                    errors: errors_view(final(errors)@),
                }),
                stmts: stmts_view(final(s)@),
                value: r.0@,
                done: r.1@,
            }) == tops_from(
                (TopsV {
                    c: (CollectV {
                        st: old(self)@,
                        env: old(env)@,
                        unavailable: old(unavailable)@,
                        errors: errors_view(old(errors)@),
                    }),
                    stmts: stmts_view(old(s)@),
                    value: TyV::Unit,
                    done: Seq::empty(),
                }),
                0,
            ),
    {
        let ghost start = TopsV {
            c: CollectV {
                st: self@,
                env: env@,
                unavailable: unavailable@,
                errors: errors_view(errors@),
            },
            stmts: stmts_view(s@),
            value: TyV::Unit,
            done: Seq::empty(),
        };
        let ghost want = tops_from(start, 0);
        let mut value = Ty::Unit;
        let mut done: Vec<bool> = Vec::new();
        assert(done@ =~= Seq::empty());
        let mut i: usize = 0;
        while i < s.len()
            invariant
                i <= s.len(),
                self.wf(),
                done@.len() == i,
                want == tops_from(start, 0),
                want == tops_from(
                    (TopsV {
                        c: (CollectV {
                            st: self@,
                            env: env@,
                            unavailable: unavailable@,
                            errors: errors_view(errors@),
                        }),
                        stmts: stmts_view(s@),
                        value: value@,
                        done: done@,
                    }),
                    i as nat,
                ),
            decreases s.len() - i,
        {
            let ghost now = stmts_view(s@);
            assert(now.len() == s@.len());
            assert(now[i as int] == stmt_view(s@[i as int]));
            let (next, fine) = self.infer_top_collecting(env, &mut s[i], unavailable, errors);
            assert(stmts_view(s@) =~= now.update(i as int, stmt_view(s@[i as int])));
            value = next;
            done.push(fine);
            i = i + 1;
        }
        assert(stmts_view(s@).len() == s@.len());
        (value, done)
    }

    /// Chooses the dictionaries of the statements that were checked without error.
    pub fn final_pass_succeeded_statements_collecting(
        &self,
        env: &TypeEnv,
        s: &mut Vec<Stmt>,
        done: &Vec<bool>,
        errors: &mut Vec<SpannedTypeError>,
    )
        requires
            self.wf(),
            done@.len() == old(s)@.len(),
        ensures
            (stmts_view(final(s)@), errors_view(final(errors)@)) == settled_from(
                stmts_view(old(s)@),
                done@,
                final_resolver(self@, env@),
                0,
                errors_view(old(errors)@),
            ),
    {
        let none: Vec<TraitConstraint> = Vec::new();
        assert(constraints_view(none@) =~= Seq::empty());
        let resolver = self.resolver(env, &none);
        let ghost want = settled_from(
            stmts_view(s@),
            done@,
            resolver@,
            0,
            errors_view(errors@),
        );
        let mut i: usize = 0;
        while i < s.len()
            invariant
                i <= s.len(),
                done@.len() == s@.len(),
                resolver.wf(),
                resolver@ == final_resolver(self@, env@),
                want == settled_from(
                    stmts_view(old(s)@),
                    done@,
                    resolver@,
                    0,
                    errors_view(old(errors)@),
                ),
                want == settled_from(
                    stmts_view(s@),
                    done@,
                    resolver@,
                    i as nat,
                    errors_view(errors@),
                ),
            decreases s.len() - i,
        {
            let ghost now = stmts_view(s@);
            assert(now.len() == s@.len());
            assert(now[i as int] == stmt_view(s@[i as int]));
            if done[i] {
                let span = s[i].span();
                let step = final_pass_stmt(&mut s[i], &resolver);
                assert(stmts_view(s@) =~= now.update(i as int, stmt_view(s@[i as int])));
                match step {
                    Err(error) => {
                        push_error(errors, error.at(span));
                    },
                    Ok(_) => {},
                }
            }
            i = i + 1;
        }
        assert(stmts_view(s@).len() == s@.len());
    }
}

// ---------------------------------------------------------------------------
// Programs
// ---------------------------------------------------------------------------

/// What checking a program past its errors comes to.
pub struct CollectedRun {
    pub st: InferV,
    pub stmts: Seq<StmtV>,
    pub result: ResultV,
    pub errors: Seq<SpannedV>,
}

/// A program that cannot be checked any further.
pub open spec fn nothing_found(st: InferV, stmts: Seq<StmtV>, errors: Seq<SpannedV>) -> CollectedRun {
    CollectedRun { st, stmts, result: no_result(), errors }
}

/// A program whose types and traits are known.
#[verifier::opaque]
pub open spec fn statements_collected(
    st: InferV,
    env: EnvV,
    stmts: Seq<StmtV>,
    errors: Seq<SpannedV>,
) -> CollectedRun {
    let c = declared_from(
        CollectV {
            st: dicts_removed(st, stmts, stmts.len()),
            env,
            unavailable: no_names_found(),
            errors,
        },
        stmts,
        0,
    );
    let t = tops_from(TopsV { c, stmts, value: TyV::Unit, done: Seq::empty() }, 0);
    let last = apply_env(t.c.st.subst.map, t.c.env);
    let s = settled_from(t.stmts, t.done, final_resolver(t.c.st, last), 0, t.c.errors);
    CollectedRun {
        st: t.c.st,
        stmts: s.0,
        result: result_of(t.c.st, last, t.value),
        errors: s.1,
    }
}

/// A program that is checked past its errors. Names of a type and a trait that clash,
/// types that name a parameter twice and traits that are wrong end it at once.
pub open spec fn collecting_run(st: InferV, stmts: Seq<StmtV>, seed: Seq<StmtV>, env: EnvV) -> CollectedRun {
    let st0 = program_start(st, seed, stmts);
    match clash(st0, seed, stmts) {
        Some(e) => nothing_found(st0, stmts, seq![e]),
        None => {
            let errors = test_name_errors(stmts);
            let a = types_known(st0, seed, stmts);
            match a.1 {
                Some(e) => nothing_found(a.0, stmts, errors.push(e)),
                None => {
                    let b = traits_known(a.0, seed, stmts);
                    match b.1 {
                        Some(e) => nothing_found(b.0, stmts, errors.push(e)),
                        None => statements_collected(b.0, env, stmts, errors),
                    }
                },
            }
        },
    }
}

fn empty_result() -> (r: InferenceResult)
    ensures
        r@ == no_result(),
{
    let infer = Infer::new();
    let maps = infer.metadata;
    let r = InferenceResult {
        env: TypeEnv::new(),
        variant_env: VariantEnv(NameMap::new()),
        inherent_method_schemes: NameMap::new(),
        value_ty: Ty::Unit,
        expr_types: maps.expr_types,
        symbol_types: maps.symbol_types,
        binding_types: maps.binding_types,
        definition_schemes: maps.definition_schemes,
        binding_capabilities: maps.binding_capabilities,
        syntax_captures: maps.syntax_captures,
        callable_capabilities: maps.callable_capabilities,
        fresh_place_exprs: maps.fresh_place_exprs,
    };
    assert(r@.meta == crate::state::no_meta());
    r
}

impl Infer {
    fn collect_statements(
        &mut self,
        env: TypeEnv,
        s: &mut Vec<Stmt>,
        errors: Vec<SpannedTypeError>,
    ) -> (r: (ModuleInference, Vec<SpannedTypeError>))
        requires
            old(self).wf(),
        ensures
            final(self).wf(),
            (CollectedRun {
                st: final(self)@,
                stmts: stmts_view(final(s)@),
                result: r.0@,
                errors: errors_view(r.1@),
            }) == statements_collected(
                old(self)@,
                env@,
                stmts_view(old(s)@),
                errors_view(errors@),
            ),
    {
        proof {
            reveal(statements_collected);
        }
        assert(stmts_view(s@).len() == s@.len());
        let mut env = env;
        let mut errors = errors;
        let mut unavailable = CollectedNames::default();
        self.remove_program_impl_dict_names(s);
        self.add_constructors_and_externs_collecting(&mut env, s, &mut unavailable, &mut errors);
        let (value, done) = self.infer_top_level_statements_collecting(
            &mut env,
            s,
            &mut unavailable,
            &mut errors,
        );
        env.apply_subst(&self.subst);
        self.final_pass_succeeded_statements_collecting(&env, s, &done, &mut errors);
        let result = self.result_of(env, &value);
        (result, errors)
    }

    /// Checks a program past its errors. Gives what is known of it, and its errors.
    pub fn infer_program_collecting(
        &mut self,
        program: &mut Program,
        seed_stmts: &Vec<Stmt>,
        seed_env: Option<&TypeEnv>,
    ) -> (r: (ModuleInference, Vec<SpannedTypeError>))
        ensures
            final(self).wf(),
            (CollectedRun {
                st: final(self)@,
                stmts: stmts_view(final(program).stmts@),
                result: r.0@,
                errors: errors_view(r.1@),
            }) == collecting_run(
                old(self)@,
                stmts_view(old(program).stmts@),
                stmts_view(seed_stmts@),
                some_env(seed_env),
            ),
    {
        let ghost seed = stmts_view(seed_stmts@);
        let ghost stmts = stmts_view(program.stmts@);
        self.reset_program_state();
        self.types.variant_env = build_variant_env_from_stmts(seed_stmts, &program.stmts);
        assert(self@ == program_start(old(self)@, seed, stmts));
        let env = match seed_env {
            Some(e) => e.clone(),
            None => TypeEnv::new(),
        };
        match self.validate_type_trait_name_collisions(seed_stmts, &program.stmts) {
            Err(error) => {
                let mut only: Vec<SpannedTypeError> = Vec::new();
                only.push(error);
                assert(errors_view(only@) =~= seq![error@]);
                return (empty_result(), only);
            },
            Ok(_) => {},
        }
        let mut errors = validate_duplicate_test_function_names(&program.stmts);
        match self.know_types(seed_stmts, &program.stmts) {
            Err(error) => {
                push_error(&mut errors, error);
                return (empty_result(), errors);
            },
            Ok(_) => {},
        }
        match self.know_traits(seed_stmts, &program.stmts) {
            Err(error) => {
                push_error(&mut errors, error);
                return (empty_result(), errors);
            },
            Ok(_) => {},
        }
        self.collect_statements(env, &mut program.stmts, errors)
    }
}

} // verus!
