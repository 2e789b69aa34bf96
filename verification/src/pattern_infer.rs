//! Checking patterns against types and binding their names.

use vstd::prelude::*;

use crate::ast::{MatchArm, NumberLiteral, Pattern, PatternField, RestName, SourceSpan};
use crate::ast::SyntaxCaptureInfo;
use crate::ast_copy::clone_syntax_capture;
use crate::ast_view::{boxed_pattern_view, match_arm_view, match_arms_view};
use crate::ast_view::{number_literal_view, open_rest_name_view, pattern_field_view};
use crate::ast_view::{pattern_fields_view, pattern_view, patterns_view, rest_name_view};
use crate::ast_view::{some_type_view, syntax_capture_view, syntax_captures_view, MatchArmV};
use crate::ast_view::{NumberLiteralV, PatternFieldV, PatternV, RestNameV, SyntaxCaptureV};
use crate::env::{EnvV, TypeEnv};
use crate::error::{TypeError, TypeErrorV};
use crate::exhaust::{arms_view, check_exhaustive_match, match_verdict};
use crate::rows::{sort_fields, sort_record_fields, FieldV};
use crate::state::{fresh, next_var, Infer, InferV, MetaV};
use crate::steps::{equate, resolved, written};
use crate::tables::NameMap;
use crate::text::str_eq;
use crate::ty::{clone_fields, clone_tys, fields_view, immutable_info, mono_scheme, row_view};
use crate::ty::{ty_view, tys_view, BindingCapabilities, EnvInfo, EnvInfoV, Row, RowV, Scheme};
use crate::ty::{Ty, TyV, TyVar};
use crate::ty_helpers::{array_of, array_ty, fresh_named, pattern_unknown_constructor_error};
use crate::ty_helpers::unknown_constructor;
use crate::type_syntax::{find_field, first_field};
use crate::unify::error_of;

verus! {

/// What checking a pattern leads to.
pub struct PatRun {
    pub st: InferV,
    pub env: EnvV,
    pub err: Option<TypeErrorV>,
}

/// The state with the type of a binding noted.
pub open spec fn with_binding(st: InferV, span: SourceSpan, ty: TyV) -> InferV {
    InferV {
        meta: MetaV { binding_types: st.meta.binding_types.insert(span, ty), ..st.meta },
        ..st
    }
}

/// The state with the capability of a binding noted.
pub open spec fn with_capability(st: InferV, span: SourceSpan, place_mutable: bool) -> InferV {
    InferV {
        meta: MetaV {
            binding_capabilities: st.meta.binding_capabilities.insert(span, place_mutable),
            ..st.meta
        },
        ..st
    }
}

/// The state with what a pattern captures noted.
pub open spec fn with_capture(st: InferV, c: SyntaxCaptureV) -> InferV {
    InferV {
        meta: MetaV { syntax_captures: st.meta.syntax_captures.insert(c.span, c), ..st.meta },
        ..st
    }
}

/// The type of captured syntax.
pub open spec fn capture_ty(repeat: bool) -> TyV {
    if repeat {
        array_of(TyV::Con("Syntax"@))
    } else {
        TyV::Con("Syntax"@)
    }
}

/// The type of captured syntax.
pub fn syntax_capture_ty(repeat: bool) -> (r: Ty)
    ensures
        r@ == capture_ty(repeat),
{
    let syntax = Ty::Con("Syntax".to_owned());
    if repeat {
        array_ty(syntax)
    } else {
        syntax
    }
}

/// What is known of a name that a pattern binds.
pub open spec fn bound_info(ty: TyV, mutable: bool) -> EnvInfoV {
    EnvInfoV { binding_mutable: mutable, ..immutable_info(mono_scheme(ty)) }
}

fn binding_info(ty: Ty, mutable: bool) -> (r: EnvInfo)
    ensures
        r@ == bound_info(ty@, mutable),
{
    if mutable {
        EnvInfo::mutable_binding(Scheme::mono(ty))
    } else {
        EnvInfo::immutable(Scheme::mono(ty))
    }
}

/// Binds a name.
pub open spec fn bind_name(
    st: InferV,
    env: EnvV,
    name: Seq<char>,
    span: SourceSpan,
    ty: TyV,
    mutable: bool,
) -> PatRun {
    PatRun {
        st: with_binding(st, span, ty),
        env: env.insert(name, bound_info(ty, mutable)),
        err: None,
    }
}

/// Binds the name of a rest, if it has one.
pub open spec fn bind_rest(
    st: InferV,
    env: EnvV,
    rest: Option<Option<RestNameV>>,
    ty: TyV,
    mutable: bool,
) -> PatRun {
    match rest {
        Some(Some(r)) => bind_name(st, env, r.name, r.span, ty, mutable),
        _ => PatRun { st, env, err: None },
    }
}

/// Makes the type of what is matched equal to one.
pub open spec fn expect(st: InferV, env: EnvV, scrutinee: TyV, ty: TyV) -> PatRun {
    let u = equate(st, scrutinee, ty);
    PatRun { st: u.0, env, err: u.1 }
}

/// A nominal type with arguments.
pub open spec fn nominal_ty(name: Seq<char>, args: Seq<TyV>) -> TyV {
    if args.len() == 0 {
        TyV::Con(name)
    } else {
        TyV::App(Box::new(TyV::Con(name)), args)
    }
}

pub fn nominal_type_of(name: &String, args: Vec<Ty>) -> (r: Ty)
    ensures
        r@ == nominal_ty(name@, tys_view(args@)),
{
    assert(tys_view(args@).len() == args@.len());
    if args.len() == 0 {
        Ty::Con(name.clone())
    } else {
        let con = Ty::Con(name.clone());
        assert(con@ == TyV::Con(name@));
        Ty::App(Box::new(con), args)
    }
}

/// Fresh types for the fields of a record pattern, from the one at `i` on.
pub open spec fn fresh_fields(st: InferV, fields: Seq<PatternFieldV>, i: nat, done: Seq<FieldV>) -> (
    InferV,
    Seq<FieldV>,
)
    decreases fields.len() - i,
{
    if i >= fields.len() {
        (st, done)
    } else {
        fresh_fields(
            fresh(st),
            fields,
            i + 1,
            done.push((fields[i as int].field, TyV::Var(next_var(st)))),
        )
    }
}

/// Binds the fields of a record pattern, from the one at `i` on.
pub open spec fn bind_fields(
    st: InferV,
    env: EnvV,
    fields: Seq<PatternFieldV>,
    i: nat,
    tys: Seq<FieldV>,
    mutable: bool,
) -> PatRun
    decreases fields.len() - i,
{
    if i >= fields.len() {
        PatRun { st, env, err: None }
    } else {
        let f = fields[i as int];
        if f.binding == "_"@ {
            bind_fields(st, env, fields, i + 1, tys, mutable)
        } else {
            match first_field(tys, f.field) {
                Some(ty) => {
                    let b = bind_name(st, env, f.binding, f.span, resolved(st, ty), mutable);
                    bind_fields(b.st, b.env, fields, i + 1, tys, mutable)
                },
                None => bind_fields(st, env, fields, i + 1, tys, mutable),
            }
        }
    }
}

/// Binds what a quoted form captures, from the capture at `i` on.
pub open spec fn bind_captures(
    st: InferV,
    env: EnvV,
    captures: Seq<SyntaxCaptureV>,
    i: nat,
    mutable: bool,
) -> PatRun
    decreases captures.len() - i,
{
    if i >= captures.len() {
        PatRun { st, env, err: None }
    } else {
        let c = captures[i as int];
        let b = bind_name(st, env, c.name, c.span, capture_ty(c.repeat), mutable);
        bind_captures(with_capture(b.st, c), b.env, captures, i + 1, mutable)
    }
}

/// Fresh types, `n` of them after those that are there.
pub open spec fn fresh_tys(st: InferV, n: nat, done: Seq<TyV>) -> (InferV, Seq<TyV>)
    decreases n,
{
    if n == 0 {
        (st, done)
    } else {
        fresh_tys(fresh(st), (n - 1) as nat, done.push(TyV::Var(next_var(st))))
    }
}

/// Checks a pattern against the type of what is matched, and binds its names.
pub open spec fn check(st: InferV, env: EnvV, p: PatternV, ty: TyV, mutable: bool) -> PatRun
    decreases p, 0nat,
{
    match p {
        PatternV::Wildcard => PatRun { st, env, err: None },
        PatternV::StringLit(_) => expect(st, env, ty, TyV::Con("string"@)),
        PatternV::NumberLit(NumberLiteralV::Int(_)) => expect(st, env, ty, TyV::Int),
        PatternV::IntRange { .. } => expect(st, env, ty, TyV::Int),
        PatternV::NumberLit(NumberLiteralV::Float(_)) => expect(st, env, ty, TyV::Float),
        PatternV::BoolLit(_) => expect(st, env, ty, TyV::Con("bool"@)),
        PatternV::SyntaxQuote(captures) => {
            let u = expect(st, env, ty, TyV::Con("Syntax"@));
            if u.err is Some {
                u
            } else {
                bind_captures(u.st, env, captures, 0, mutable)
            }
        },
        PatternV::Variable(name, span) => bind_name(st, env, name, span, ty, mutable),
        PatternV::Constructor { name, binding } => {
            if !st.variants.dom().contains(name) {
                PatRun { st, env, err: Some(unknown_constructor(name, resolved(st, ty))) }
            } else {
                let info = st.variants[name];
                let f = fresh_named(st, info.type_params, Map::empty());
                let u = expect(f.st, env, ty, nominal_ty(info.nominal_name, f.res->Ok_0));
                if u.err is Some {
                    u
                } else {
                    match binding {
                        None => u,
                        Some(inner) => match info.payload {
                            None => PatRun {
                                st: u.st,
                                env,
                                err: Some(
                                    TypeErrorV::UnboundVariable(
                                        "variant `"@ + name + "` has no payload to bind"@,
                                    ),
                                ),
                            },
                            Some(payload) => {
                                let w = written(u.st, f.vars, payload);
                                match w.res {
                                    Err(e) => PatRun { st: w.st, env, err: Some(e) },
                                    Ok(t) => check(w.st, env, *inner, t, mutable),
                                }
                            },
                        },
                    }
                }
            }
        },
        PatternV::Record { fields, rest } => {
            let tail_var = next_var(st);
            let tail = if rest is Some {
                TyV::Var(tail_var)
            } else {
                TyV::Unit
            };
            let f = fresh_fields(fresh(st), fields, 0, Seq::empty());
            let tys = sort_fields(f.1);
            let u = expect(
                f.0,
                env,
                ty,
                TyV::Record(RowV { fields: tys, tail: Box::new(tail) }),
            );
            if u.err is Some {
                u
            } else {
                let b = bind_fields(u.st, env, fields, 0, tys, mutable);
                bind_rest(b.st, b.env, rest, resolved(b.st, TyV::Var(tail_var)), mutable)
            }
        },
        PatternV::List { elements, rest } => {
            let element = TyV::Var(next_var(st));
            let u = expect(fresh(st), env, ty, array_of(element));
            if u.err is Some {
                u
            } else {
                let b = check_list(u.st, env, elements, 0, element, mutable);
                if b.err is Some {
                    b
                } else {
                    bind_rest(b.st, b.env, rest, array_of(element), mutable)
                }
            }
        },
        PatternV::Tuple(items) => {
            let f = fresh_tys(st, items.len(), Seq::empty());
            let u = expect(f.0, env, ty, TyV::Tuple(f.1));
            if u.err is Some {
                u
            } else {
                check_tuple(u.st, env, items, 0, f.1, mutable)
            }
        },
    }
}

/// Checks the elements of a list pattern, from the one at `i` on.
pub open spec fn check_list(
    st: InferV,
    env: EnvV,
    s: Seq<PatternV>,
    i: nat,
    ty: TyV,
    mutable: bool,
) -> PatRun
    decreases s, s.len() - i,
{
    if i >= s.len() {
        PatRun { st, env, err: None }
    } else {
        let b = check(st, env, s[i as int], ty, mutable);
        if b.err is Some {
            b
        } else {
            check_list(b.st, b.env, s, i + 1, ty, mutable)
        }
    }
}

/// Checks the items of a tuple pattern, from the one at `i` on.
pub open spec fn check_tuple(
    st: InferV,
    env: EnvV,
    s: Seq<PatternV>,
    i: nat,
    tys: Seq<TyV>,
    mutable: bool,
) -> PatRun
    decreases s, s.len() - i,
{
    if i >= s.len() {
        PatRun { st, env, err: None }
    } else {
        let b = check(st, env, s[i as int], resolved(st, tys[i as int]), mutable);
        if b.err is Some {
            b
        } else {
            check_tuple(b.st, b.env, s, i + 1, tys, mutable)
        }
    }
}

/// Checks a pattern and binds its names.
#[verifier::opaque]
pub open spec fn match_pattern(st: InferV, env: EnvV, p: PatternV, ty: TyV, mutable: bool) -> PatRun {
    check(st, env, p, ty, mutable)
}

/// Binds what a parameter names. One that takes a mutable place binds one name.
#[verifier::opaque]
pub open spec fn bind_param(st: InferV, env: EnvV, p: PatternV, ty: TyV, place: bool) -> PatRun {
    if !place {
        match_pattern(st, env, p, ty, false)
    } else {
        match p {
            PatternV::Variable(name, span) => PatRun {
                st: with_capability(with_binding(st, span, ty), span, true),
                env: env.insert(
                    name,
                    EnvInfoV { place_mutable: true, ..immutable_info(mono_scheme(ty)) },
                ),
                err: None,
            },
            _ => PatRun { st, env, err: Some(TypeErrorV::MutableParamMustBindName) },
        }
    }
}

/// The patterns of arms.
pub open spec fn arm_patterns(arms: Seq<MatchArmV>) -> Seq<PatternV> {
    Seq::new(arms.len(), |i: int| arms[i].pattern)
}

/// Whether arms leave something out, and what.
#[verifier::opaque]
pub open spec fn left_out(st: InferV, arms: Seq<MatchArmV>, ty: TyV) -> Option<TypeErrorV> {
    match_verdict(arm_patterns(arms), ty, st.variants)
}

impl Infer {
    fn bind_name(
        &mut self,
        env: &mut TypeEnv,
        name: &String,
        span: SourceSpan,
        ty: Ty,
        mutable: bool,
    )
        requires
            old(self).wf(),
        ensures
            final(self).wf(),
            (PatRun { st: final(self)@, env: final(env)@, err: None }) == bind_name(
                old(self)@,
                old(env)@,
                name@,
                span,
                ty@,
                mutable,
            ),
    {
        self.metadata.record_binding_type(span, ty.clone());
        env.insert(name.clone(), binding_info(ty, mutable));
    }

    fn bind_captures(
        &mut self,
        env: &mut TypeEnv,
        captures: &Vec<SyntaxCaptureInfo>,
        mutable: bool,
    )
        requires
            old(self).wf(),
        ensures
            final(self).wf(),
            (PatRun { st: final(self)@, env: final(env)@, err: None }) == bind_captures(
                old(self)@,
                old(env)@,
                syntax_captures_view(captures@),
                0,
                mutable,
            ),
    {
        let ghost all = syntax_captures_view(captures@);
        let ghost want = bind_captures(self@, env@, all, 0, mutable);
        let mut i: usize = 0;
        while i < captures.len()
            invariant
                i <= captures.len(),
                self.wf(),
                all == syntax_captures_view(captures@),
                all.len() == captures@.len(),
                want == bind_captures(old(self)@, old(env)@, all, 0, mutable),
                want == bind_captures(self@, env@, all, i as nat, mutable),
            decreases captures.len() - i,
        {
            let c = &captures[i];
            assert(all[i as int] == syntax_capture_view(captures@[i as int]));
            self.bind_name(env, &c.name, c.span, syntax_capture_ty(c.repeat), mutable);
            self.metadata.record_syntax_capture(clone_syntax_capture(c));
            i = i + 1;
        }
    }

    fn bind_rest(
        &mut self,
        env: &mut TypeEnv,
        rest: &Option<Option<RestName>>,
        ty: Ty,
        mutable: bool,
    )
        requires
            old(self).wf(),
        ensures
            final(self).wf(),
            (PatRun { st: final(self)@, env: final(env)@, err: None }) == bind_rest(
                old(self)@,
                old(env)@,
                open_rest_name_view(*rest),
                ty@,
                mutable,
            ),
    {
        match rest {
            Some(Some(r)) => {
                assert(open_rest_name_view(*rest) == Some(Some(rest_name_view(*r))));
                self.bind_name(env, &r.name, r.span, ty, mutable)
            },
            Some(None) => {
                assert(open_rest_name_view(*rest) == Some(None::<RestNameV>));
            },
            None => {},
        }
    }

    fn fresh_fields(&mut self, fields: &Vec<PatternField>) -> (r: Vec<(String, Ty)>)
        requires
            old(self).wf(),
        ensures
            final(self).wf(),
            (final(self)@, fields_view(r@)) == fresh_fields(
                old(self)@,
                pattern_fields_view(fields@),
                0,
                Seq::empty(),
            ),
    {
        let ghost all = pattern_fields_view(fields@);
        let ghost want = fresh_fields(self@, all, 0, Seq::empty());
        let mut out: Vec<(String, Ty)> = Vec::new();
        let mut i: usize = 0;
        assert(fields_view(out@) =~= Seq::empty());
        while i < fields.len()
            invariant
                i <= fields.len(),
                self.wf(),
                all == pattern_fields_view(fields@),
                all.len() == fields@.len(),
                want == fresh_fields(old(self)@, all, 0, Seq::empty()),
                want == fresh_fields(self@, all, i as nat, fields_view(out@)),
            decreases fields.len() - i,
        {
            assert(all[i as int] == pattern_field_view(fields@[i as int]));
            let ghost before = fields_view(out@);
            let t = self.fresh_ty();
            let ghost tv = t@;
            out.push((fields[i].field.clone(), t));
            assert(fields_view(out@) =~= before.push((all[i as int].field, tv)));
            i = i + 1;
        }
        out
    }

    fn bind_fields(
        &mut self,
        env: &mut TypeEnv,
        fields: &Vec<PatternField>,
        tys: &Vec<(String, Ty)>,
        mutable: bool,
    )
        requires
            old(self).wf(),
        ensures
            final(self).wf(),
            (PatRun { st: final(self)@, env: final(env)@, err: None }) == bind_fields(
                old(self)@,
                old(env)@,
                pattern_fields_view(fields@),
                0,
                fields_view(tys@),
                mutable,
            ),
    {
        let ghost all = pattern_fields_view(fields@);
        let ghost ts = fields_view(tys@);
        let ghost want = bind_fields(self@, env@, all, 0, ts, mutable);
        let mut i: usize = 0;
        while i < fields.len()
            invariant
                i <= fields.len(),
                self.wf(),
                all == pattern_fields_view(fields@),
                all.len() == fields@.len(),
                ts == fields_view(tys@),
                want == bind_fields(old(self)@, old(env)@, all, 0, ts, mutable),
                want == bind_fields(self@, env@, all, i as nat, ts, mutable),
            decreases fields.len() - i,
        {
            assert(all[i as int] == pattern_field_view(fields@[i as int]));
            if !str_eq(&fields[i].binding, "_") {
                match find_field(tys, &fields[i].field) {
                    Some(ty) => {
                        let t = self.resolve(&ty);
                        self.bind_name(env, &fields[i].binding, fields[i].span, t, mutable);
                    },
                    None => {},
                }
            }
            i = i + 1;
        }
    }

    fn fresh_tys(&mut self, n: usize) -> (r: Vec<Ty>)
        requires
            old(self).wf(),
        ensures
            final(self).wf(),
            (final(self)@, tys_view(r@)) == fresh_tys(old(self)@, n as nat, Seq::empty()),
            r@.len() == n,
    {
        let ghost want = fresh_tys(self@, n as nat, Seq::empty());
        let mut out: Vec<Ty> = Vec::new();
        let mut left: usize = n;
        assert(tys_view(out@) =~= Seq::empty());
        while left > 0
            invariant
                left <= n,
                self.wf(),
                out@.len() == n - left,
                want == fresh_tys(old(self)@, n as nat, Seq::empty()),
                want == fresh_tys(self@, left as nat, tys_view(out@)),
            decreases left,
        {
            let ghost before = tys_view(out@);
            let t = self.fresh_ty();
            let ghost tv = t@;
            out.push(t);
            assert(tys_view(out@) =~= before.push(tv));
            left = left - 1;
        }
        out
    }

    fn check_pattern_in(
        &mut self,
        pat: &Pattern,
        ty: Ty,
        env: &mut TypeEnv,
        mutable: bool,
    ) -> (r: Result<(), TypeError>)
        requires
            old(self).wf(),
        ensures
            final(self).wf(),
            (PatRun { st: final(self)@, env: final(env)@, err: error_of(r) }) == check(
                old(self)@,
                old(env)@,
                pat@,
                ty@,
                mutable,
            ),
        decreases *pat,
    {
        match pat {
            Pattern::Wildcard => Ok(()),
            Pattern::StringLit(_) => self.equate(ty, Ty::Con("string".to_owned())),
            Pattern::NumberLit(n) => {
                assert(pat@ == PatternV::NumberLit(number_literal_view(*n)));
                match n {
                    NumberLiteral::Int(_) => self.equate(ty, Ty::Int),
                    NumberLiteral::Float(_) => self.equate(ty, Ty::Float),
                }
            },
            Pattern::IntRange { .. } => self.equate(ty, Ty::Int),
            Pattern::BoolLit(_) => self.equate(ty, Ty::Con("bool".to_owned())),
            Pattern::SyntaxQuote(captures) => {
                match self.equate(ty, Ty::Con("Syntax".to_owned())) {
                    Err(e) => {
                        return Err(e);
                    },
                    Ok(_) => {},
                }
                self.bind_captures(env, captures, mutable);
                Ok(())
            },
            Pattern::Variable(name, span) => {
                self.bind_name(env, name, *span, ty, mutable);
                Ok(())
            },
            Pattern::Constructor { name, binding } => {
                let info = match self.types.variant_env.0.get(name) {
                    None => {
                        let shown = self.resolve(&ty);
                        return Err(pattern_unknown_constructor_error(name, &shown));
                    },
                    Some(info) => info.clone(),
                };
                let ghost infov = self@.variants[name@];
                let mut vars: NameMap<TyVar> = NameMap::new();
                let args = self.fresh_named(&info.type_params, &mut vars);
                let con = nominal_type_of(&info.nominal_name, args);
                match self.equate(ty, con) {
                    Err(e) => {
                        return Err(e);
                    },
                    Ok(_) => {},
                }
                match binding {
                    None => Ok(()),
                    Some(inner) => {
                        assert(boxed_pattern_view(*binding) == Some(
                            Box::new(pattern_view(**inner)),
                        ));
                        match &info.payload {
                            None => {
                                let mut text = "variant `".to_owned();
                                text.append(name);
                                text.append("` has no payload to bind");
                                Err(TypeError::UnboundVariable(text))
                            },
                            Some(payload) => {
                                assert(some_type_view(info.payload) == Some(payload@));
                                match self.written(payload, &mut vars) {
                                    Err(e) => Err(e),
                                    Ok(t) => self.check_pattern_in(inner, t, env, mutable),
                                }
                            },
                        }
                    },
                }
            },
            Pattern::Record { fields, rest } => {
                let tail_var = self.fresh_var();
                let tail = if rest.is_some() {
                    Ty::Var(tail_var)
                } else {
                    Ty::Unit
                };
                let found = self.fresh_fields(fields);
                let tys = sort_record_fields(found);
                let row = Row { fields: clone_fields(&tys), tail: Box::new(tail) };
                assert(row_view(row) == (RowV {
                    fields: fields_view(tys@),
                    tail: Box::new(ty_view(tail)),
                }));
                match self.equate(ty, Ty::Record(row)) {
                    Err(e) => {
                        return Err(e);
                    },
                    Ok(_) => {},
                }
                self.bind_fields(env, fields, &tys, mutable);
                let t = self.resolve(&Ty::Var(tail_var));
                self.bind_rest(env, rest, t, mutable);
                Ok(())
            },
            Pattern::List { elements, rest } => {
                let element = self.fresh_ty();
                match self.equate(ty, array_ty(element.clone())) {
                    Err(e) => {
                        return Err(e);
                    },
                    Ok(_) => {},
                }
                match self.check_list(elements, &element, env, mutable) {
                    Err(e) => {
                        return Err(e);
                    },
                    Ok(_) => {},
                }
                self.bind_rest(env, rest, array_ty(element), mutable);
                Ok(())
            },
            Pattern::Tuple(items) => {
                assert(patterns_view(items@).len() == items@.len());
                let tys = self.fresh_tys(items.len());
                match self.equate(ty, Ty::Tuple(clone_tys(&tys))) {
                    Err(e) => {
                        return Err(e);
                    },
                    Ok(_) => {},
                }
                self.check_tuple(items, &tys, env, mutable)
            },
        }
    }

    fn check_list(&mut self, s: &Vec<Pattern>, ty: &Ty, env: &mut TypeEnv, mutable: bool) -> (r:
        Result<(), TypeError>)
        requires
            old(self).wf(),
        ensures
            final(self).wf(),
            (PatRun { st: final(self)@, env: final(env)@, err: error_of(r) }) == check_list(
                old(self)@,
                old(env)@,
                patterns_view(s@),
                0,
                ty@,
                mutable,
            ),
        decreases s@,
    {
        let ghost all = patterns_view(s@);
        let ghost want = check_list(self@, env@, all, 0, ty@, mutable);
        let mut i: usize = 0;
        while i < s.len()
            invariant
                i <= s.len(),
                self.wf(),
                all == patterns_view(s@),
                all.len() == s@.len(),
                want == check_list(old(self)@, old(env)@, all, 0, ty@, mutable),
                want == check_list(self@, env@, all, i as nat, ty@, mutable),
            decreases s.len() - i,
        {
            assert(all[i as int] == pattern_view(s@[i as int]));
            assert(decreases_to!(s@ => s@[i as int]));
            match self.check_pattern_in(&s[i], ty.clone(), env, mutable) {
                Err(e) => {
                    return Err(e);
                },
                Ok(_) => {},
            }
            i = i + 1;
        }
        Ok(())
    }

    fn check_tuple(
        &mut self,
        s: &Vec<Pattern>,
        tys: &Vec<Ty>,
        env: &mut TypeEnv,
        mutable: bool,
    ) -> (r: Result<(), TypeError>)
        requires
            old(self).wf(),
            tys@.len() == s@.len(),
        ensures
            final(self).wf(),
            (PatRun { st: final(self)@, env: final(env)@, err: error_of(r) }) == check_tuple(
                old(self)@,
                old(env)@,
                patterns_view(s@),
                0,
                tys_view(tys@),
                mutable,
            ),
        decreases s@,
    {
        let ghost all = patterns_view(s@);
        let ghost ts = tys_view(tys@);
        let ghost want = check_tuple(self@, env@, all, 0, ts, mutable);
        let mut i: usize = 0;
        while i < s.len()
            invariant
                i <= s.len(),
                tys@.len() == s@.len(),
                self.wf(),
                all == patterns_view(s@),
                all.len() == s@.len(),
                ts == tys_view(tys@),
                want == check_tuple(old(self)@, old(env)@, all, 0, ts, mutable),
                want == check_tuple(self@, env@, all, i as nat, ts, mutable),
            decreases s.len() - i,
        {
            assert(all[i as int] == pattern_view(s@[i as int]));
            assert(ts[i as int] == tys@[i as int]@);
            assert(decreases_to!(s@ => s@[i as int]));
            let t = self.resolve(&tys[i]);
            match self.check_pattern_in(&s[i], t, env, mutable) {
                Err(e) => {
                    return Err(e);
                },
                Ok(_) => {},
            }
            i = i + 1;
        }
        Ok(())
    }

    /// Checks a pattern against the type of what is matched, and binds its names.
    pub fn check_pattern(&mut self, pat: &Pattern, ty: Ty, env: &mut TypeEnv, mutable: bool) -> (r:
        Result<(), TypeError>)
        requires
            old(self).wf(),
        ensures
            final(self).wf(),
            (PatRun { st: final(self)@, env: final(env)@, err: error_of(r) }) == match_pattern(
                old(self)@,
                old(env)@,
                pat@,
                ty@,
                mutable,
            ),
    {
        proof {
            reveal(match_pattern);
        }
        self.check_pattern_in(pat, ty, env, mutable)
    }

    /// Binds what a parameter names.
    pub fn check_param_pattern(
        &mut self,
        pat: &Pattern,
        ty: Ty,
        env: &mut TypeEnv,
        place: bool,
    ) -> (r: Result<(), TypeError>)
        requires
            old(self).wf(),
        ensures
            final(self).wf(),
            (PatRun { st: final(self)@, env: final(env)@, err: error_of(r) }) == bind_param(
                old(self)@,
                old(env)@,
                pat@,
                ty@,
                place,
            ),
    {
        proof {
            reveal(bind_param);
        }
        if !place {
            return self.check_pattern(pat, ty, env, false);
        }
        match pat {
            Pattern::Variable(name, span) => {
                self.metadata.record_binding_type(*span, ty.clone());
                self.metadata.record_binding_capability(
                    *span,
                    BindingCapabilities { place_mutable: true },
                );
                env.insert(
                    name.clone(),
                    EnvInfo::immutable(Scheme::mono(ty)).with_place_mutable(true),
                );
                Ok(())
            },
            _ => Err(TypeError::MutableParamMustBindName),
        }
    }

    /// Checks that the arms of a match leave nothing out.
    pub fn check_exhaustive(&self, arms: &Vec<MatchArm>, ty: &Ty) -> (r: Result<(), TypeError>)
        ensures
            error_of(r) == left_out(self@, match_arms_view(arms@), ty@),
    {
        proof {
            reveal(left_out);
        }
        let ghost all = match_arms_view(arms@);
        let mut pats: Vec<&Pattern> = Vec::new();
        let mut i: usize = 0;
        while i < arms.len()
            invariant
                i <= arms.len(),
                all == match_arms_view(arms@),
                pats@.len() == i,
                forall|j: int| 0 <= j < i ==> (#[trigger] pats@[j])@ == all[j].pattern,
            decreases arms.len() - i,
        {
            assert(all[i as int] == match_arm_view(arms@[i as int]));
            pats.push(&arms[i].pattern);
            i = i + 1;
        }
        assert(arms_view(pats@) =~= arm_patterns(all));
        check_exhaustive_match(&pats, ty, &self.types.variant_env)
    }
}

} // verus!
