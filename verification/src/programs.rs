//! How whole programs are checked.

use std::collections::HashSet;
use vstd::prelude::*;

use crate::ast::{NodeId, Program, Stmt, SyntaxCaptureInfo, TypeDef, VariantDef};
use crate::ast_view::{some_type_view, stmt_view, stmts_view, type_view, variant_def_view};
use crate::ast_view::{variant_defs_view, StmtV, TypeDefV, VariantDefV};
use crate::checker::{checker, stmt_run};
use crate::convert::{ConvV, VarNames};
use crate::decls::{clash, dicts_registered, traits_registered, types_registered};
use crate::definitions::{child_level, next_level, noted_scheme};
use crate::dict_uses::{final_pass_stmt, settle_stmt};
use crate::dicts::ResolverV;
use crate::env::{apply_env, build_variant_env_from_stmts, variants_of, EnvV, TypeEnv};
use crate::env::{VariantEnv, VariantInfoV, VariantsV};
use crate::error::{error_at, SpannedTypeError, SpannedV, TypeError, TypeErrorV};
use crate::macro_phase::func_of;
use crate::places::spanned_error_of;
use crate::rows::FieldV;
use crate::schemes::generalized;
use crate::scopes::at_level;
use crate::state::{exported_schemes, finalized, known_of, no_meta, reset, Infer, InferV};
use crate::state::{InherentSchemeV, MetaV};
use crate::steps::{failed, failed_at, resolved, ty_res, unit_res, written, Run};
use crate::tables::{sorted_names, NameMap, NameSet, NodeMap, SpanMap};
use crate::text::strings_view;
use crate::ty::{clone_vars, constraints_view, fields_view, immutable_info, tys_view};
use crate::ty::{value_func_params, value_func_return, BindingCapabilities};
use crate::ty::{CallableCapabilities, EnvInfo, InherentMethodScheme, Scheme, SchemeV};
use crate::ty::{TraitConstraint, Ty, TyV, TyVar};
use crate::ty_helpers::fresh_named;
use crate::unify::error_of;

verus! {

/// The schemes of the methods of types, by type and method.
pub type SchemesV = Map<Seq<char>, Map<Seq<char>, InherentSchemeV>>;

// ---------------------------------------------------------------------------
// Variants
// ---------------------------------------------------------------------------

/// The variables among types.
pub open spec fn vars_among(tys: Seq<TyV>) -> Seq<TyVar> {
    Seq::new(tys.len(), |i: int| tys[i]->Var_0)
}

/// What a fresh variable for each name gives.
pub open spec fn fresh_tys(r: ConvV<Seq<TyV>>) -> Seq<TyV> {
    match r.res {
        Ok(tys) => tys,
        Err(_) => Seq::empty(),
    }
}

/// The type that a definition defines, applied to these arguments.
pub open spec fn defined_type(name: Seq<char>, args: Seq<TyV>) -> TyV {
    if args.len() == 0 {
        TyV::Con(name)
    } else {
        TyV::App(Box::new(TyV::Con(name)), args)
    }
}

/// The constructors of the variants of a type.
pub struct ConstructorsV {
    pub st: InferV,
    pub entries: Seq<FieldV>,
    pub err: Option<TypeErrorV>,
}

/// The constructors of the variants from the one at `i` on.
pub open spec fn constructors(
    st: InferV,
    vars: VarNames,
    result: TyV,
    variants: Seq<VariantDefV>,
    i: nat,
    entries: Seq<FieldV>,
) -> ConstructorsV
    decreases variants.len() - i,
{
    if i >= variants.len() {
        ConstructorsV { st, entries, err: None }
    } else {
        let v = variants[i as int];
        match v.payload {
            None => constructors(st, vars, result, variants, i + 1, entries.push((v.name, result))),
            Some(p) => {
                let w = written(st, vars, p);
                match w.res {
                    Err(e) => ConstructorsV { st: w.st, entries, err: Some(e) },
                    Ok(ty) => constructors(
                        w.st,
                        vars,
                        result,
                        variants,
                        i + 1,
                        entries.push((v.name, func_of(seq![ty], result))),
                    ),
                }
            },
        }
    }
}

/// An environment with constructors, from the one at `i` on, for all types.
pub open spec fn with_constructors(
    env: EnvV,
    entries: Seq<FieldV>,
    vars: Seq<TyVar>,
    i: nat,
) -> EnvV
    decreases entries.len() - i,
{
    if i >= entries.len() {
        env
    } else {
        with_constructors(
            env.insert(
                entries[i as int].0,
                immutable_info(
                    SchemeV { vars, constraints: Seq::empty(), ty: entries[i as int].1 },
                ),
            ),
            entries,
            vars,
            i + 1,
        )
    }
}

/// The state with the schemes of variants, from the one at `i` on, noted.
pub open spec fn variants_noted(st: InferV, env: EnvV, variants: Seq<VariantDefV>, i: nat) -> InferV
    decreases variants.len() - i,
{
    if i >= variants.len() {
        st
    } else if env.dom().contains(variants[i as int].name) {
        variants_noted(
            noted_scheme(st, variants[i as int].name_span, env[variants[i as int].name].scheme),
            env,
            variants,
            i + 1,
        )
    } else {
        variants_noted(st, env, variants, i + 1)
    }
}

/// The constructors of a type that is defined.
#[verifier::opaque]
pub open spec fn type_constructors(st: InferV, env: EnvV, td: TypeDefV) -> (
    InferV,
    EnvV,
    Option<TypeErrorV>,
) {
    let f = fresh_named(st, td.params, Map::empty());
    let tys = fresh_tys(f);
    let c = constructors(
        f.st,
        f.vars,
        defined_type(td.name, tys),
        td.variants,
        0,
        Seq::empty(),
    );
    match c.err {
        Some(e) => (c.st, env, Some(e)),
        None => {
            let now = with_constructors(env, c.entries, vars_among(tys), 0);
            (variants_noted(c.st, now, td.variants, 0), now, None)
        },
    }
}

fn push_entry(out: &mut Vec<(String, Ty)>, name: String, ty: Ty)
    ensures
        fields_view(final(out)@) == fields_view(old(out)@).push((name@, ty@)),
        final(out)@.len() == old(out)@.len() + 1,
{
    out.push((name, ty));
    assert(fields_view(out@) =~= fields_view(old(out)@).push((name@, ty@)));
}

fn list_vars_among(tys: &Vec<Ty>) -> (r: Vec<TyVar>)
    requires
        forall|i: int| 0 <= i < tys@.len() ==> tys_view(tys@)[i] is Var,
    ensures
        r@ == vars_among(tys_view(tys@)),
{
    let ghost all = tys_view(tys@);
    let mut out: Vec<TyVar> = Vec::new();
    let mut i: usize = 0;
    while i < tys.len()
        invariant
            i <= tys.len(),
            all == tys_view(tys@),
            all.len() == tys@.len(),
            out@.len() == i,
            forall|j: int| 0 <= j < tys@.len() ==> all[j] is Var,
            forall|j: int| 0 <= j < i ==> #[trigger] out@[j] == all[j]->Var_0,
        decreases tys.len() - i,
    {
        assert(all[i as int] == tys@[i as int]@);
        match &tys[i] {
            Ty::Var(v) => {
                out.push(*v);
            },
            _ => {
                assert(false);
            },
        }
        i = i + 1;
    }
    assert(out@ =~= vars_among(all));
    out
}

fn defined(name: &String, args: Vec<Ty>) -> (r: Ty)
    ensures
        r@ == defined_type(name@, tys_view(args@)),
{
    assert(tys_view(args@).len() == args@.len());
    let head = Ty::Con(name.clone());
    if args.len() == 0 {
        head
    } else {
        assert(head@ == TyV::Con(name@));
        Ty::App(Box::new(head), args)
    }
}

proof fn lemma_fresh_vars(st: InferV, names: Seq<Seq<char>>, i: nat, vars: VarNames, tys: Seq<TyV>)
    requires
        forall|j: int| 0 <= j < tys.len() ==> #[trigger] tys[j] is Var,
    ensures
        forall|j: int|
            0 <= j < fresh_tys(crate::ty_helpers::fresh_params(st, names, i, vars, tys)).len()
                ==> #[trigger] fresh_tys(
                crate::ty_helpers::fresh_params(st, names, i, vars, tys),
            )[j] is Var,
    decreases names.len() - i,
{
    if i < names.len() {
        let v = crate::state::next_var(st);
        lemma_fresh_vars(
            crate::state::fresh(st),
            names,
            i + 1,
            vars.insert(names[i as int], v),
            tys.push(TyV::Var(v)),
        );
    }
}

impl Infer {
    fn constructor_entries(
        &mut self,
        vars: &NameMap<TyVar>,
        result: &Ty,
        variants: &Vec<VariantDef>,
    ) -> (r: (Vec<(String, Ty)>, Result<(), TypeError>))
        requires
            old(self).wf(),
        ensures
            final(self).wf(),
            (ConstructorsV {
                st: final(self)@,
                entries: fields_view(r.0@),
                err: error_of(r.1),
            }) == constructors(
                old(self)@,
                vars@,
                result@,
                variant_defs_view(variants@),
                0,
                Seq::empty(),
            ),
    {
        let ghost all = variant_defs_view(variants@);
        let ghost want = constructors(self@, vars@, result@, all, 0, Seq::empty());
        let mut out: Vec<(String, Ty)> = Vec::new();
        assert(fields_view(out@) =~= Seq::empty());
        let mut i: usize = 0;
        while i < variants.len()
            invariant
                i <= variants.len(),
                self.wf(),
                all == variant_defs_view(variants@),
                all.len() == variants@.len(),
                want == constructors(old(self)@, vars@, result@, all, 0, Seq::empty()),
                want == constructors(
                    self@,
                    vars@,
                    result@,
                    all,
                    i as nat,
                    fields_view(out@),
                ),
            decreases variants.len() - i,
        {
            assert(all[i as int] == variant_def_view(variants@[i as int]));
            let v = &variants[i];
            match &v.payload {
                None => {
                    push_entry(&mut out, v.name.clone(), result.clone());
                },
                Some(p) => {
                    assert(some_type_view(v.payload) == Some(type_view(*p)));
                    let mut own = vars.clone();
                    let ty = match self.written(p, &mut own) {
                        Err(error) => {
                            return (out, Err(error));
                        },
                        Ok(t) => t,
                    };
                    let mut params: Vec<Ty> = Vec::new();
                    params.push(ty);
                    assert(tys_view(params@) =~= seq![ty@]);
                    let made = Ty::Func(
                        value_func_params(params),
                        value_func_return(result.clone()),
                    );
                    push_entry(&mut out, v.name.clone(), made);
                },
            }
            i = i + 1;
        }
        (out, Ok(()))
    }

    fn note_variants(&mut self, env: &TypeEnv, variants: &Vec<VariantDef>)
        requires
            old(self).wf(),
        ensures
            final(self).wf(),
            final(self)@ == variants_noted(old(self)@, env@, variant_defs_view(variants@), 0),
    {
        let ghost all = variant_defs_view(variants@);
        let mut i: usize = 0;
        while i < variants.len()
            invariant
                i <= variants.len(),
                self.wf(),
                all == variant_defs_view(variants@),
                all.len() == variants@.len(),
                variants_noted(old(self)@, env@, all, 0) == variants_noted(
                    self@,
                    env@,
                    all,
                    i as nat,
                ),
            decreases variants.len() - i,
        {
            assert(all[i as int] == variant_def_view(variants@[i as int]));
            if let Some(info) = env.get(&variants[i].name) {
                let scheme = info.scheme.clone();
                self.note_scheme(variants[i].name_span, scheme);
            }
            i = i + 1;
        }
    }

    /// Binds the constructors of a type.
    pub fn add_constructors_to_env(&mut self, env: &mut TypeEnv, td: &TypeDef) -> (r: Result<
        (),
        TypeError,
    >)
        requires
            old(self).wf(),
        ensures
            final(self).wf(),
            (final(self)@, final(env)@, error_of(r)) == type_constructors(
                old(self)@,
                old(env)@,
                td@,
            ),
    {
        proof {
            reveal(type_constructors);
            reveal(fresh_named);
            lemma_fresh_vars(self@, td@.params, 0, Map::empty(), Seq::empty());
        }
        let mut vars: NameMap<TyVar> = NameMap::new();
        let tys = self.fresh_named(&td.params, &mut vars);
        let ghost f = fresh_named(old(self)@, td@.params, Map::empty());
        assert(tys_view(tys@) == fresh_tys(f));
        assert(tys_view(tys@).len() == tys@.len());
        let quantified = list_vars_among(&tys);
        let result = defined(&td.name, tys);
        let (entries, made) = self.constructor_entries(&vars, &result, &td.variants);
        match made {
            Err(error) => {
                return Err(error);
            },
            Ok(_) => {},
        }
        let ghost es = fields_view(entries@);
        let ghost want = with_constructors(env@, es, quantified@, 0);
        let mut i: usize = 0;
        while i < entries.len()
            invariant
                i <= entries.len(),
                es == fields_view(entries@),
                es.len() == entries@.len(),
                want == with_constructors(env@, es, quantified@, i as nat),
            decreases entries.len() - i,
        {
            assert(es[i as int] == (entries@[i as int].0@, entries@[i as int].1@));
            let none: Vec<TraitConstraint> = Vec::new();
            assert(constraints_view(none@) =~= Seq::empty());
            let scheme = Scheme {
                vars: clone_vars(&quantified),
                constraints: none,
                ty: entries[i].1.clone(),
            };
            env.insert(entries[i].0.clone(), EnvInfo::immutable(scheme));
            i = i + 1;
        }
        self.note_variants(env, &td.variants);
        Ok(())
    }
}

// ---------------------------------------------------------------------------
// Declared values
// ---------------------------------------------------------------------------

/// The state and the environment with what the statements from the one at `i` on
/// declare: constructors and values from elsewhere.
pub open spec fn declared_values(st: InferV, env: EnvV, stmts: Seq<StmtV>, i: nat) -> Run<EnvV, ()>
    decreases stmts.len() - i,
{
    if i >= stmts.len() {
        Run { st, node: env, res: Ok(()) }
    } else {
        match stmts[i as int] {
            StmtV::Type(td) => {
                let c = type_constructors(st, env, td);
                match c.2 {
                    Some(e) => Run { st: c.0, node: c.1, res: failed_at(e, td.span) },
                    None => declared_values(c.0, c.1, stmts, i + 1),
                }
            },
            StmtV::Extern { name, name_span, ty, span } => {
                let w = written(at_level(st, child_level(st.level)), Map::empty(), ty);
                let st1 = at_level(w.st, st.level);
                match w.res {
                    Err(e) => Run { st: st1, node: env, res: failed_at(e, span) },
                    Ok(t) => {
                        let scheme = generalized(st1, t, st.level);
                        declared_values(
                            noted_scheme(st1, name_span, scheme),
                            env.insert(name, immutable_info(scheme)),
                            stmts,
                            i + 1,
                        )
                    },
                }
            },
            _ => declared_values(st, env, stmts, i + 1),
        }
    }
}

/// The state with what a variant carries read.
pub open spec fn payload_read(st: InferV, name: Seq<char>) -> InferV {
    if !st.variants.dom().contains(name) {
        st
    } else {
        let info = st.variants[name];
        let f = fresh_named(st, info.type_params, Map::empty());
        let p = match info.payload {
            Some(ty) => written(f.st, f.vars, ty),
            None => ConvV { st: f.st, vars: f.vars, res: Err(TypeErrorV::BreakOutsideLoop) },
        };
        InferV {
            variants: p.st.variants.insert(
                name,
                VariantInfoV {
                    type_param_vars: vars_among(fresh_tys(f)),
                    payload_ty: match p.res {
                        Ok(ty) => Some(ty),
                        Err(_) => None,
                    },
                    ..info
                },
            ),
            ..p.st
        }
    }
}

/// The state with what variants carry, from the name at `i` on, read.
pub open spec fn payloads_read(st: InferV, names: Seq<Seq<char>>, i: nat) -> InferV
    decreases names.len() - i,
{
    if i >= names.len() {
        st
    } else {
        payloads_read(payload_read(st, names[i as int]), names, i + 1)
    }
}

impl Infer {
    /// Binds the constructors of types and the values that come from elsewhere.
    pub fn add_constructors_and_externs(&mut self, env: &mut TypeEnv, stmts: &Vec<Stmt>) -> (r:
        Result<(), SpannedTypeError>)
        requires
            old(self).wf(),
        ensures
            final(self).wf(),
            (Run { st: final(self)@, node: final(env)@, res: unit_res(r) }) == declared_values(
                old(self)@,
                old(env)@,
                stmts_view(stmts@),
                0,
            ),
    {
        let ghost all = stmts_view(stmts@);
        let ghost want = declared_values(self@, env@, all, 0);
        let mut i: usize = 0;
        while i < stmts.len()
            invariant
                i <= stmts.len(),
                self.wf(),
                all == stmts_view(stmts@),
                all.len() == stmts@.len(),
                want == declared_values(old(self)@, old(env)@, all, 0),
                want == declared_values(self@, env@, all, i as nat),
            decreases stmts.len() - i,
        {
            assert(all[i as int] == stmt_view(stmts@[i as int]));
            match &stmts[i] {
                Stmt::Type(td) => {
                    match self.add_constructors_to_env(env, td) {
                        Err(error) => {
                            return Err(error.at(td.span));
                        },
                        Ok(_) => {},
                    }
                },
                Stmt::Extern { name, name_span, ty, span } => {
                    let ambient = self.current_level;
                    self.set_level(next_level(ambient));
                    let mut vars: NameMap<TyVar> = NameMap::new();
                    let found = self.written(ty, &mut vars);
                    self.set_level(ambient);
                    match found {
                        Err(error) => {
                            return Err(error.at(*span));
                        },
                        Ok(t) => {
                            let scheme = self.generalize_at(&t, ambient);
                            env.insert(name.clone(), EnvInfo::immutable(scheme.clone()));
                            self.note_scheme(*name_span, scheme);
                        },
                    }
                },
                _ => {},
            }
            i = i + 1;
        }
        Ok(())
    }
}

impl Infer {
    fn read_payload(&mut self, name: &String)
        requires
            old(self).wf(),
        ensures
            final(self).wf(),
            final(self)@ == payload_read(old(self)@, name@),
    {
        let info = match self.types.variant_env.0.get(name) {
            Some(info) => info.clone(),
            None => {
                return;
            },
        };
        proof {
            reveal(fresh_named);
            lemma_fresh_vars(self@, info@.type_params, 0, Map::empty(), Seq::empty());
        }
        let mut vars: NameMap<TyVar> = NameMap::new();
        let ghost f = fresh_named(self@, info@.type_params, Map::empty());
        let tys = self.fresh_named(&info.type_params, &mut vars);
        assert(tys_view(tys@) == fresh_tys(f));
        assert(tys_view(tys@).len() == tys@.len());
        let type_param_vars = list_vars_among(&tys);
        let payload_ty = match &info.payload {
            None => None,
            Some(p) => {
                assert(some_type_view(info.payload) == Some(type_view(*p)));
                match self.written(p, &mut vars) {
                    Ok(t) => Some(t),
                    Err(_) => None,
                }
            },
        };
        let mut done = info.clone();
        done.type_param_vars = type_param_vars;
        done.payload_ty = payload_ty;
        self.types.variant_env.0.insert(name.clone(), done);
    }

    /// Reads what the variants in scope carry.
    pub fn resolve_variant_payload_types(&mut self)
        requires
            old(self).wf(),
        ensures
            final(self).wf(),
            final(self)@ == payloads_read(
                old(self)@,
                sorted_names(old(self)@.variants.dom()),
                0,
            ),
    {
        let names = self.types.variant_env.0.names();
        let ghost all = strings_view(names@);
        let mut i: usize = 0;
        while i < names.len()
            invariant
                i <= names.len(),
                self.wf(),
                all == strings_view(names@),
                all.len() == names@.len(),
                payloads_read(old(self)@, all, 0) == payloads_read(self@, all, i as nat),
            decreases names.len() - i,
        {
            assert(all[i as int] == names@[i as int]@);
            self.read_payload(&names[i]);
            i = i + 1;
        }
    }
}

// ---------------------------------------------------------------------------
// Tests
// ---------------------------------------------------------------------------

/// The names of tests that were seen, and the errors of those that were seen before.
pub struct TestsV {
    pub seen: Set<Seq<char>>,
    pub errors: Seq<SpannedV>,
}

/// The tests among the statements from the one at `i` on, with those in groups. Each
/// test whose name was seen before is an error.
pub open spec fn tests_seen(stmts: Seq<StmtV>, i: nat, t: TestsV) -> TestsV
    decreases stmts, stmts.len() - i,
{
    if i >= stmts.len() {
        t
    } else {
        match stmts[i as int] {
            StmtV::Fn(def) => if !def.is_test {
                tests_seen(stmts, i + 1, t)
            } else if t.seen.contains(def.name) {
                tests_seen(
                    stmts,
                    i + 1,
                    TestsV {
                        errors: t.errors.push(
                            error_at(TypeErrorV::DuplicateTestFunction(def.name), def.name_span),
                        ),
                        ..t
                    },
                )
            } else {
                tests_seen(stmts, i + 1, TestsV { seen: t.seen.insert(def.name), ..t })
            },
            StmtV::RecBlock { stmts: inner, .. } => tests_seen(
                stmts,
                i + 1,
                tests_seen(inner, 0, t),
            ),
            _ => tests_seen(stmts, i + 1, t),
        }
    }
}

/// The tests in the test blocks among the statements from the one at `i` on.
pub open spec fn blocks_seen(stmts: Seq<StmtV>, i: nat, t: TestsV) -> TestsV
    decreases stmts.len() - i,
{
    if i >= stmts.len() {
        t
    } else {
        match stmts[i as int] {
            StmtV::TestBlock { stmts: inner, .. } => blocks_seen(
                stmts,
                i + 1,
                tests_seen(inner, 0, t),
            ),
            _ => blocks_seen(stmts, i + 1, t),
        }
    }
}

/// The errors of the tests of a program whose names were seen before.
pub open spec fn test_name_errors(stmts: Seq<StmtV>) -> Seq<SpannedV> {
    blocks_seen(stmts, 0, TestsV { seen: Set::empty(), errors: Seq::empty() }).errors
}

/// The views of errors.
pub open spec fn errors_view(s: Seq<SpannedTypeError>) -> Seq<SpannedV> {
    Seq::new(s.len(), |i: int| s[i]@)
}

pub fn push_error(errors: &mut Vec<SpannedTypeError>, e: SpannedTypeError)
    ensures
        errors_view(final(errors)@) == errors_view(old(errors)@).push(e@),
{
    errors.push(e);
    assert(errors_view(errors@) =~= errors_view(old(errors)@).push(e@));
}

fn validate_duplicate_test_function_names_in_stmts(
    stmts: &Vec<Stmt>,
    seen: &mut NameSet,
    errors: &mut Vec<SpannedTypeError>,
)
    ensures
        (TestsV { seen: final(seen)@, errors: errors_view(final(errors)@) }) == tests_seen(
            stmts_view(stmts@),
            0,
            TestsV { seen: old(seen)@, errors: errors_view(old(errors)@) },
        ),
    decreases stmts@,
{
    let ghost all = stmts_view(stmts@);
    let ghost start = TestsV { seen: seen@, errors: errors_view(errors@) };
    let ghost want = tests_seen(all, 0, start);
    let mut i: usize = 0;
    while i < stmts.len()
        invariant
            i <= stmts.len(),
            all == stmts_view(stmts@),
            all.len() == stmts@.len(),
            start == (TestsV { seen: old(seen)@, errors: errors_view(old(errors)@) }),
            want == tests_seen(all, 0, start),
            want == tests_seen(
                all,
                i as nat,
                TestsV { seen: seen@, errors: errors_view(errors@) },
            ),
        decreases stmts.len() - i,
    {
        assert(all[i as int] == stmt_view(stmts@[i as int]));
        match &stmts[i] {
            Stmt::Fn(def) => {
                if def.is_test {
                    if seen.contains(&def.name) {
                        push_error(
                            errors,
                            TypeError::DuplicateTestFunction(def.name.clone()).at(def.name_span),
                        );
                    } else {
                        seen.insert(def.name.clone());
                    }
                }
            },
            Stmt::RecBlock { stmts: inner, .. } => {
                validate_duplicate_test_function_names_in_stmts(inner, seen, errors);
            },
            _ => {},
        }
        i = i + 1;
    }
}

/// Each test of a program whose name was seen before.
pub fn validate_duplicate_test_function_names(stmts: &Vec<Stmt>) -> (r: Vec<SpannedTypeError>)
    ensures
        errors_view(r@) == test_name_errors(stmts_view(stmts@)),
{
    let ghost all = stmts_view(stmts@);
    let mut seen = NameSet::new();
    let mut errors: Vec<SpannedTypeError> = Vec::new();
    assert(errors_view(errors@) =~= Seq::empty());
    let ghost start = TestsV { seen: Set::empty(), errors: Seq::empty() };
    let mut i: usize = 0;
    while i < stmts.len()
        invariant
            i <= stmts.len(),
            all == stmts_view(stmts@),
            all.len() == stmts@.len(),
            start == (TestsV { seen: Set::empty(), errors: Seq::empty() }),
            blocks_seen(all, 0, start) == blocks_seen(
                all,
                i as nat,
                TestsV { seen: seen@, errors: errors_view(errors@) },
            ),
        decreases stmts.len() - i,
    {
        assert(all[i as int] == stmt_view(stmts@[i as int]));
        if let Stmt::TestBlock { stmts: inner, .. } = &stmts[i] {
            validate_duplicate_test_function_names_in_stmts(inner, &mut seen, &mut errors);
        }
        i = i + 1;
    }
    errors
}

// ---------------------------------------------------------------------------
// Programs
// ---------------------------------------------------------------------------

/// The state with the types that a program and what it builds on declare.
pub open spec fn types_known(st: InferV, seed: Seq<StmtV>, stmts: Seq<StmtV>) -> (
    InferV,
    Option<SpannedV>,
) {
    let a = types_registered(st, seed, 0);
    match a.1 {
        Some(e) => (a.0, Some(e)),
        None => {
            let b = types_registered(a.0, stmts, 0);
            match b.1 {
                Some(e) => (b.0, Some(e)),
                None => (payloads_read(b.0, sorted_names(b.0.variants.dom()), 0), None),
            }
        },
    }
}

/// The state with the traits that a program and what it builds on declare.
pub open spec fn traits_known(st: InferV, seed: Seq<StmtV>, stmts: Seq<StmtV>) -> (
    InferV,
    Option<SpannedV>,
) {
    let a = traits_registered(st, seed, 0);
    match a.1 {
        Some(e) => (a.0, Some(e)),
        None => traits_registered(a.0, stmts, 0),
    }
}

/// The state with the dictionaries that a program and what it builds on declare.
pub open spec fn dicts_known(st: InferV, seed: Seq<StmtV>, stmts: Seq<StmtV>) -> InferV {
    dicts_registered(dicts_registered(st, seed, seed.len()), stmts, stmts.len())
}

/// The state for a program, with its variants.
pub open spec fn program_start(st: InferV, seed: Seq<StmtV>, stmts: Seq<StmtV>) -> InferV {
    InferV { variants: variants_of(variants_of(Map::empty(), seed), stmts), ..reset(st) }
}

/// A program before its statements are checked.
#[verifier::opaque]
pub open spec fn prepared(st: InferV, env: EnvV, seed: Seq<StmtV>, stmts: Seq<StmtV>) -> Run<
    EnvV,
    (),
> {
    let st0 = program_start(st, seed, stmts);
    match clash(st0, seed, stmts) {
        Some(e) => Run { st: st0, node: env, res: Err(e) },
        None => if test_name_errors(stmts).len() > 0 {
            Run { st: st0, node: env, res: Err(test_name_errors(stmts)[0]) }
        } else {
            let a = types_known(st0, seed, stmts);
            match a.1 {
                Some(e) => Run { st: a.0, node: env, res: Err(e) },
                None => {
                    let b = traits_known(a.0, seed, stmts);
                    match b.1 {
                        Some(e) => Run { st: b.0, node: env, res: Err(e) },
                        None => declared_values(dicts_known(b.0, seed, stmts), env, stmts, 0),
                    }
                },
            }
        },
    }
}

/// What a statement leaves as the value of a program.
pub open spec fn value_of(s: StmtV, ty: TyV) -> TyV {
    if s is Expr {
        ty
    } else {
        TyV::Unit
    }
}

/// The statements of a program from the one at `i` on.
pub open spec fn top_run(st: InferV, env: EnvV, stmts: Seq<StmtV>, i: nat, value: TyV) -> Run<
    (EnvV, Seq<StmtV>),
    TyV,
>
    decreases stmts.len() - i,
{
    if i >= stmts.len() {
        Run { st, node: (env, stmts), res: Ok(value) }
    } else {
        let r = stmt_run(checker(), st, env, stmts[i as int]);
        let now = stmts.update(i as int, r.node.1);
        match r.res {
            Err(e) => Run { st: r.st, node: (r.node.0, now), res: Err(e) },
            Ok(ty) => top_run(r.st, r.node.0, now, i + 1, value_of(r.node.1, ty)),
        }
    }
}

/// Statements from the one at `i` on, with their dictionaries chosen.
pub open spec fn stmts_settled(stmts: Seq<StmtV>, c: ResolverV, i: nat) -> (
    Seq<StmtV>,
    Option<TypeErrorV>,
)
    decreases stmts.len() - i,
{
    if i >= stmts.len() {
        (stmts, None)
    } else {
        let s = settle_stmt(stmts[i as int], c, true, true);
        let now = stmts.update(i as int, s.0);
        match s.1 {
            Some(e) => (now, Some(e)),
            None => stmts_settled(now, c, i + 1),
        }
    }
}

/// The view of an [`InferenceResult`].
pub struct ResultV {
    pub env: EnvV,
    pub variants: VariantsV,
    pub schemes: SchemesV,
    pub value: TyV,
    pub meta: MetaV,
}

/// What is known once a program is checked.
#[derive(Debug)]
pub struct InferenceResult {
    pub env: TypeEnv,
    pub variant_env: VariantEnv,
    pub inherent_method_schemes: NameMap<NameMap<InherentMethodScheme>>,
    pub value_ty: Ty,
    pub expr_types: NodeMap<Ty>,
    pub symbol_types: NodeMap<Ty>,
    pub binding_types: SpanMap<Ty>,
    pub definition_schemes: SpanMap<Scheme>,
    pub binding_capabilities: SpanMap<BindingCapabilities>,
    pub syntax_captures: SpanMap<SyntaxCaptureInfo>,
    pub callable_capabilities: NodeMap<CallableCapabilities>,
    pub fresh_place_exprs: HashSet<NodeId>,
}

/// What is known of a program that was checked past its errors.
pub type ModuleInference = InferenceResult;

impl View for InferenceResult {
    type V = ResultV;

    open spec fn view(&self) -> ResultV {
        ResultV {
            env: self.env@,
            variants: self.variant_env@,
            schemes: self.inherent_method_schemes@,
            value: self.value_ty@,
            meta: MetaV {
                expr_types: self.expr_types@,
                symbol_types: self.symbol_types@,
                binding_types: self.binding_types@,
                definition_schemes: self.definition_schemes@,
                binding_capabilities: self.binding_capabilities@,
                syntax_captures: self.syntax_captures@,
                callable_capabilities: self.callable_capabilities@,
                fresh_places: self.fresh_place_exprs@,
            },
        }
    }
}

/// What is known in a state with an environment and a value.
pub open spec fn result_of(st: InferV, env: EnvV, value: TyV) -> ResultV {
    ResultV {
        env,
        variants: st.variants,
        schemes: exported_schemes(st.methods, st.subst.map),
        value: resolved(st, value),
        meta: finalized(st.meta, st.subst.map),
    }
}

/// Statements without a program: what is known of nothing.
pub open spec fn no_result() -> ResultV {
    ResultV {
        env: Map::empty(),
        variants: Map::empty(),
        schemes: Map::empty(),
        value: TyV::Unit,
        meta: no_meta(),
    }
}

/// A program whose statements have been checked.
#[verifier::opaque]
pub open spec fn program_after(r: Run<(EnvV, Seq<StmtV>), TyV>) -> Run<Seq<StmtV>, ResultV> {
    match r.res {
        Err(e) => Run { st: r.st, node: r.node.1, res: Err(e) },
        Ok(value) => {
            let env = apply_env(r.st.subst.map, r.node.0);
            let s = stmts_settled(r.node.1, final_resolver(r.st, env), 0);
            match s.1 {
                Some(e) => Run { st: r.st, node: s.0, res: failed(e) },
                None => Run { st: r.st, node: s.0, res: Ok(result_of(r.st, env, value)) },
            }
        },
    }
}

/// How what is still pending is settled at the end.
pub open spec fn final_resolver(st: InferV, env: EnvV) -> ResolverV {
    ResolverV { locals: Seq::empty(), known: known_of(st, env), map: st.subst.map }
}

/// A program that builds on other statements and on an environment.
pub open spec fn program_run(st: InferV, stmts: Seq<StmtV>, seed: Seq<StmtV>, env: EnvV) -> Run<
    Seq<StmtV>,
    ResultV,
> {
    let p = prepared(st, env, seed, stmts);
    match p.res {
        Err(e) => Run { st: p.st, node: stmts, res: Err(e) },
        Ok(_) => program_after(top_run(p.st, p.node, stmts, 0, TyV::Unit)),
    }
}

/// The view of what is known of a program, or of its error.
pub open spec fn inference_res(r: Result<InferenceResult, SpannedTypeError>) -> Result<
    ResultV,
    SpannedV,
> {
    match r {
        Ok(x) => Ok(x@),
        Err(e) => Err(e@),
    }
}

/// What is left of the outcome of a program: its environment and its value.
pub open spec fn env_and_value(r: Result<ResultV, SpannedV>) -> Result<(EnvV, TyV), SpannedV> {
    match r {
        Ok(x) => Ok((x.env, x.value)),
        Err(e) => Err(e),
    }
}

/// The view of an environment and a type, or an error.
pub open spec fn program_res(r: Result<(TypeEnv, Ty), SpannedTypeError>) -> Result<
    (EnvV, TyV),
    SpannedV,
> {
    match r {
        Ok(x) => Ok((x.0@, x.1@)),
        Err(e) => Err(e@),
    }
}

/// The environment that a program starts from.
pub open spec fn some_env(env: Option<&TypeEnv>) -> EnvV {
    match env {
        Some(e) => e@,
        None => Map::empty(),
    }
}

/// What an earlier program declared does not change the outcome of a later one: two
/// checkers that know the same of other modules and have handed out the same variables
/// start a program alike.
pub proof fn law_programs_are_independent(
    a: InferV,
    b: InferV,
    stmts: Seq<StmtV>,
    seed: Seq<StmtV>,
    env: EnvV,
)
    requires
        reset(a) == reset(b),
    ensures
        program_run(a, stmts, seed, env) == program_run(b, stmts, seed, env),
{
    reveal(prepared);
}

impl Infer {
    pub(crate) fn know_types(&mut self, seed: &Vec<Stmt>, stmts: &Vec<Stmt>) -> (r: Result<
        (),
        SpannedTypeError,
    >)
        requires
            old(self).wf(),
        ensures
            final(self).wf(),
            (final(self)@, spanned_error_of(r)) == types_known(
                old(self)@,
                stmts_view(seed@),
                stmts_view(stmts@),
            ),
    {
        match self.register_type_declarations(seed) {
            Err(error) => {
                return Err(error);
            },
            Ok(_) => {},
        }
        match self.register_type_declarations(stmts) {
            Err(error) => {
                return Err(error);
            },
            Ok(_) => {},
        }
        self.resolve_variant_payload_types();
        Ok(())
    }

    pub(crate) fn know_traits(&mut self, seed: &Vec<Stmt>, stmts: &Vec<Stmt>) -> (r: Result<
        (),
        SpannedTypeError,
    >)
        requires
            old(self).wf(),
        ensures
            final(self).wf(),
            (final(self)@, spanned_error_of(r)) == traits_known(
                old(self)@,
                stmts_view(seed@),
                stmts_view(stmts@),
            ),
    {
        match self.register_traits_and_ops(seed) {
            Err(error) => {
                return Err(error);
            },
            Ok(_) => {},
        }
        self.register_traits_and_ops(stmts)
    }

    fn prepare(&mut self, env: &mut TypeEnv, seed: &Vec<Stmt>, stmts: &Vec<Stmt>) -> (r: Result<
        (),
        SpannedTypeError,
    >)
        ensures
            final(self).wf(),
            (Run { st: final(self)@, node: final(env)@, res: unit_res(r) }) == prepared(
                old(self)@,
                old(env)@,
                stmts_view(seed@),
                stmts_view(stmts@),
            ),
    {
        proof {
            reveal(prepared);
        }
        assert(stmts_view(seed@).len() == seed@.len());
        assert(stmts_view(stmts@).len() == stmts@.len());
        self.reset_program_state();
        self.types.variant_env = build_variant_env_from_stmts(seed, stmts);
        assert(self@ == program_start(old(self)@, stmts_view(seed@), stmts_view(stmts@)));
        match self.validate_type_trait_name_collisions(seed, stmts) {
            Err(error) => {
                return Err(error);
            },
            Ok(_) => {},
        }
        let mut repeated = validate_duplicate_test_function_names(stmts);
        if repeated.len() > 0 {
            assert(errors_view(repeated@)[0] == repeated@[0]@);
            return Err(repeated.remove(0));
        }
        match self.know_types(seed, stmts) {
            Err(error) => {
                return Err(error);
            },
            Ok(_) => {},
        }
        match self.know_traits(seed, stmts) {
            Err(error) => {
                return Err(error);
            },
            Ok(_) => {},
        }
        self.register_impl_dict_names(seed);
        self.register_impl_dict_names(stmts);
        self.add_constructors_and_externs(env, stmts)
    }

    fn infer_top_level(&mut self, env: &mut TypeEnv, s: &mut Vec<Stmt>) -> (r: Result<
        Ty,
        SpannedTypeError,
    >)
        requires
            old(self).wf(),
        ensures
            final(self).wf(),
            (Run {
                st: final(self)@,
                node: (final(env)@, stmts_view(final(s)@)),
                res: ty_res(r),
            }) == top_run(old(self)@, old(env)@, stmts_view(old(s)@), 0, TyV::Unit),
    {
        let ghost want = top_run(self@, env@, stmts_view(s@), 0, TyV::Unit);
        let mut value = Ty::Unit;
        let mut i: usize = 0;
        while i < s.len()
            invariant
                i <= s.len(),
                self.wf(),
                want == top_run(old(self)@, old(env)@, stmts_view(old(s)@), 0, TyV::Unit),
                want == top_run(self@, env@, stmts_view(s@), i as nat, value@),
            decreases s.len() - i,
        {
            let ghost now = stmts_view(s@);
            assert(now.len() == s@.len());
            assert(now[i as int] == stmt_view(s@[i as int]));
            let step = self.infer_stmt(env, &mut s[i]);
            assert(stmts_view(s@) =~= now.update(i as int, stmt_view(s@[i as int])));
            match step {
                Err(error) => {
                    return Err(error);
                },
                Ok(ty) => {
                    value = match &s[i] {
                        Stmt::Expr(_) => ty,
                        _ => Ty::Unit,
                    };
                },
            }
            i = i + 1;
        }
        Ok(value)
    }

    fn finish_program(&self, env: &TypeEnv, s: &mut Vec<Stmt>) -> (r: Result<(), TypeError>)
        requires
            self.wf(),
        ensures
            (stmts_view(final(s)@), error_of(r)) == stmts_settled(
                stmts_view(old(s)@),
                final_resolver(self@, env@),
                0,
            ),
    {
        let none: Vec<TraitConstraint> = Vec::new();
        assert(constraints_view(none@) =~= Seq::empty());
        let resolver = self.resolver(env, &none);
        let ghost want = stmts_settled(stmts_view(s@), resolver@, 0);
        let mut i: usize = 0;
        while i < s.len()
            invariant
                i <= s.len(),
                resolver.wf(),
                resolver@ == final_resolver(self@, env@),
                want == stmts_settled(stmts_view(s@), resolver@, i as nat),
                want == stmts_settled(stmts_view(old(s)@), resolver@, 0),
            decreases s.len() - i,
        {
            let ghost now = stmts_view(s@);
            assert(now.len() == s@.len());
            assert(now[i as int] == stmt_view(s@[i as int]));
            let step = final_pass_stmt(&mut s[i], &resolver);
            assert(stmts_view(s@) =~= now.update(i as int, stmt_view(s@[i as int])));
            match step {
                Err(error) => {
                    return Err(error);
                },
                Ok(_) => {},
            }
            i = i + 1;
        }
        Ok(())
    }

    pub(crate) fn result_of(&self, env: TypeEnv, value: &Ty) -> (r: InferenceResult)
        requires
            self.wf(),
        ensures
            r@ == result_of(self@, env@, value@),
    {
        let maps = self.metadata.finalize(&self.subst);
        InferenceResult {
            env,
            variant_env: self.types.variant_env.clone(),
            inherent_method_schemes: self.export_inherent_method_schemes(),
            value_ty: self.resolve(value),
            expr_types: maps.expr_types,
            symbol_types: maps.symbol_types,
            binding_types: maps.binding_types,
            definition_schemes: maps.definition_schemes,
            binding_capabilities: maps.binding_capabilities,
            syntax_captures: maps.syntax_captures,
            callable_capabilities: maps.callable_capabilities,
            fresh_place_exprs: maps.fresh_place_exprs,
        }
    }

    fn program_after(
        &self,
        env: TypeEnv,
        s: &mut Vec<Stmt>,
        found: Result<Ty, SpannedTypeError>,
    ) -> (r: Result<InferenceResult, SpannedTypeError>)
        requires
            self.wf(),
        ensures
            (Run { st: self@, node: stmts_view(final(s)@), res: inference_res(r) })
                == program_after(
                (Run { st: self@, node: (env@, stmts_view(old(s)@)), res: ty_res(found) }),
            ),
    {
        proof {
            reveal(program_after);
        }
        let value = match found {
            Err(error) => {
                return Err(error);
            },
            Ok(t) => t,
        };
        let mut done = env;
        done.apply_subst(&self.subst);
        match self.finish_program(&done, s) {
            Err(error) => Err(error.unspanned()),
            Ok(_) => Ok(self.result_of(done, &value)),
        }
    }

    /// Checks a program that builds on other statements, up to the first error.
    pub fn infer_program_with_seed_and_types(
        &mut self,
        program: &mut Program,
        seed_stmts: &Vec<Stmt>,
        seed_env: Option<&TypeEnv>,
    ) -> (r: Result<InferenceResult, SpannedTypeError>)
        ensures
            final(self).wf(),
            (Run {
                st: final(self)@,
                node: stmts_view(final(program).stmts@),
                res: inference_res(r),
            }) == program_run(
                old(self)@,
                stmts_view(old(program).stmts@),
                stmts_view(seed_stmts@),
                some_env(seed_env),
            ),
    {
        let mut env = match seed_env {
            Some(e) => e.clone(),
            None => TypeEnv::new(),
        };
        match self.prepare(&mut env, seed_stmts, &program.stmts) {
            Err(error) => {
                return Err(error);
            },
            Ok(_) => {},
        }
        let found = self.infer_top_level(&mut env, &mut program.stmts);
        self.program_after(env, &mut program.stmts, found)
    }

    /// Checks a program that builds on other statements, up to the first error. Gives
    /// what its names are and the type of its value.
    pub fn infer_program_with_seed(
        &mut self,
        program: &mut Program,
        seed_stmts: &Vec<Stmt>,
        seed_env: Option<&TypeEnv>,
    ) -> (r: Result<(TypeEnv, Ty), SpannedTypeError>)
        ensures
            final(self).wf(),
            ({
                let p = program_run(
                    old(self)@,
                    stmts_view(old(program).stmts@),
                    stmts_view(seed_stmts@),
                    some_env(seed_env),
                );
                &&& final(self)@ == p.st
                &&& stmts_view(final(program).stmts@) == p.node
                &&& program_res(r) == env_and_value(p.res)
            }),
    {
        match self.infer_program_with_seed_and_types(program, seed_stmts, seed_env) {
            Ok(found) => Ok((found.env, found.value_ty)),
            Err(error) => Err(error),
        }
    }

    /// Checks a program, up to the first error. Gives what its names are and the type of
    /// its value.
    pub fn infer_program_with_value(&mut self, program: &mut Program) -> (r: Result<
        (TypeEnv, Ty),
        SpannedTypeError,
    >)
        ensures
            final(self).wf(),
            ({
                let p = program_run(
                    old(self)@,
                    stmts_view(old(program).stmts@),
                    Seq::empty(),
                    Map::empty(),
                );
                &&& final(self)@ == p.st
                &&& stmts_view(final(program).stmts@) == p.node
                &&& program_res(r) == env_and_value(p.res)
            }),
    {
        let seed: Vec<Stmt> = Vec::new();
        assert(stmts_view(seed@) =~= Seq::empty());
        self.infer_program_with_seed(program, &seed, None)
    }

    /// Checks a program, up to the first error. Gives what its names are.
    pub fn infer_program(&mut self, program: &mut Program) -> (r: Result<TypeEnv, SpannedTypeError>)
        ensures
            final(self).wf(),
            ({
                let p = program_run(
                    old(self)@,
                    stmts_view(old(program).stmts@),
                    Seq::empty(),
                    Map::empty(),
                );
                &&& final(self)@ == p.st
                &&& stmts_view(final(program).stmts@) == p.node
                &&& match r {
                    Ok(env) => p.res is Ok && p.res->Ok_0.env == env@,
                    Err(e) => p.res == Err::<ResultV, _>(e@),
                }
            }),
    {
        match self.infer_program_with_value(program) {
            Ok((env, _)) => Ok(env),
            Err(error) => Err(error),
        }
    }
}

} // verus!
