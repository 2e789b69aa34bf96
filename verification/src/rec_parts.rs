//! The parts of the rules for recursive groups that come before and after their bodies.

use vstd::prelude::*;

use crate::ast::{Expr, FnDef, Stmt};
use crate::ast_size::{exprs_size, fn_def_size, stmt_size, stmts_size};
use crate::ast_view::{ExprV, FnDefV, StmtV, expr_view, exprs_view, stmt_view, stmts_view};
use crate::definitions::{Head, HeadV, RecFnInfo, RecInfoV, child_level, head_is, next_level};
use crate::definitions::{no_head, noted_scheme, rec_head};
use crate::dict_names::{dict_param_names, param_names};
use crate::env::{EnvV, TypeEnv};
use crate::error::{SpannedTypeError, SpannedV};
use crate::items::{all_functions, group_error, infos_view, lists_view};
use crate::items::{propagate_rec_block_constraints, shared_constraints};
use crate::items::validate_rec_group_function_names;
use crate::places::{ParamSource, SourceV, bind_params};
use crate::schemes::{FinalizedConstraints, FinalizedV, finalized_at};
use crate::scopes::{at_level, pending_on};
use crate::state::{Infer, InferV};
use crate::steps::{Run, attach_owned_dicts_to_recursive_self_calls, failed, passed_on};
use crate::steps::{settled, unit_res};
use crate::subst::TypeLevel;
use crate::tables::NameMap;
use crate::ty::{ConstraintV, EnvInfo, Scheme, TraitConstraint, TyVar, clone_constraints};
use crate::ty::{constraints_view, immutable_info, mono_scheme};

verus! {

/// The function that a statement is.
pub open spec fn def_of(s: StmtV) -> FnDefV {
    match s {
        StmtV::Fn(def) => def,
        _ => arbitrary(),
    }
}

/// The functions that statements are.
pub open spec fn defs_of(stmts: Seq<StmtV>) -> Seq<FnDefV> {
    Seq::new(stmts.len(), |i: int| def_of(stmts[i]))
}

/// Functions as statements.
pub open spec fn stmts_of(defs: Seq<FnDefV>) -> Seq<StmtV> {
    Seq::new(defs.len(), |i: int| StmtV::Fn(defs[i]))
}

/// The bodies of functions.
pub open spec fn def_bodies(defs: Seq<FnDefV>) -> Seq<ExprV> {
    Seq::new(defs.len(), |i: int| defs[i].body)
}

/// A function with this body.
pub open spec fn def_with(def: FnDefV, body: ExprV) -> FnDefV {
    FnDefV { body, ..def }
}

/// Functions with these bodies.
pub open spec fn with_def_bodies(defs: Seq<FnDefV>, bodies: Seq<ExprV>) -> Seq<FnDefV> {
    Seq::new(defs.len(), |i: int| def_with(defs[i], bodies[i]))
}

/// The views of functions.
pub open spec fn defs_view(s: Seq<FnDef>) -> Seq<FnDefV> {
    Seq::new(s.len(), |i: int| s[i]@)
}

/// A recursive group before the bodies of its functions are checked.
pub struct RecStartV {
    pub st: InferV,
    pub env: EnvV,
    pub infos: Seq<RecInfoV>,
    pub err: Option<SpannedV>,
}

/// The heads of the functions of a group from the one at `i` on.
pub open spec fn group_heads(
    st: InferV,
    env: EnvV,
    defs: Seq<FnDefV>,
    i: nat,
    infos: Seq<RecInfoV>,
) -> RecStartV
    decreases defs.len() - i,
{
    if i >= defs.len() {
        RecStartV { st, env, infos, err: None }
    } else {
        let def = defs[i as int];
        let h = rec_head(st, def.name, def.params, def.ret_type, def.type_bounds);
        match h.1 {
            Err(e) => RecStartV { st: h.0, env, infos, err: Some(e) },
            Ok(info) => group_heads(
                h.0,
                env.insert(def.name, immutable_info(mono_scheme(info.fn_ty))),
                defs,
                i + 1,
                infos.push(info),
            ),
        }
    }
}

/// A recursive group before the bodies of its functions are checked, one level
/// further in.
#[verifier::opaque]
pub open spec fn rec_start(st: InferV, env: EnvV, stmts: Seq<StmtV>) -> RecStartV {
    match group_error(stmts, 0, Set::empty()) {
        Some(e) => RecStartV { st, env, infos: Seq::empty(), err: Some(e) },
        None => group_heads(
            at_level(st, child_level(st.level)),
            env,
            defs_of(stmts),
            0,
            Seq::empty(),
        ),
    }
}

proof fn lemma_group_functions(stmts: Seq<StmtV>, i: nat, seen: Set<Seq<char>>)
    requires
        group_error(stmts, i, seen) is None,
    ensures
        forall|j: int| i <= j < stmts.len() ==> #[trigger] stmts[j] is Fn,
    decreases stmts.len() - i,
{
    if i < stmts.len() {
        match stmts[i as int] {
            StmtV::Fn(def) => {
                lemma_group_functions(stmts, i + 1, seen.insert(def.name));
            },
            _ => {},
        }
    }
}

proof fn lemma_def_bodies_size(stmts: Seq<StmtV>)
    requires
        all_functions(stmts),
    ensures
        exprs_size(def_bodies(defs_of(stmts))) <= stmts_size(stmts),
    decreases stmts.len(),
{
    let bodies = def_bodies(defs_of(stmts));
    if stmts.len() > 0 {
        let fewer = stmts.drop_last();
        assert(all_functions(fewer)) by {
            assert forall|j: int| 0 <= j < fewer.len() implies #[trigger] fewer[j] is Fn by {
                assert(stmts[j] is Fn);
            }
        }
        lemma_def_bodies_size(fewer);
        assert(bodies.drop_last() =~= def_bodies(defs_of(fewer)));
        assert(stmts[stmts.len() - 1] is Fn);
        assert(bodies.last() == def_of(stmts.last()).body);
        assert(stmt_size(stmts.last()) == 1 + fn_def_size(def_of(stmts.last())));
    } else {
        assert(bodies.len() == 0);
    }
}

/// The bodies of a group are not larger than the group.
pub proof fn lemma_rec_start(st: InferV, env: EnvV, stmts: Seq<StmtV>)
    ensures
        rec_start(st, env, stmts).err is None ==> exprs_size(def_bodies(defs_of(stmts)))
            <= stmts_size(stmts),
{
    reveal(rec_start);
    if group_error(stmts, 0, Set::empty()) is None {
        lemma_group_functions(stmts, 0, Set::empty());
        lemma_def_bodies_size(stmts);
    }
}

/// The head of a function of a group.
#[verifier::opaque]
pub open spec fn group_head(st: InferV, env: EnvV, def: FnDefV, info: RecInfoV) -> HeadV {
    let p = bind_params(
        st,
        env,
        Map::empty(),
        SourceV::Given(info.param_tys),
        def.params,
        def.body.span,
    );
    match p.err {
        Some(e) => no_head(p.st, e),
        None => HeadV {
            st: p.st,
            env: p.env,
            fn_ty: info.fn_ty,
            ret: info.ret,
            initial: info.initial,
            err: None,
        },
    }
}

/// The functions of a group with their constraints settled.
pub struct GroupEndV {
    pub st: InferV,
    pub ends: Seq<FinalizedV>,
}

/// Settles the constraints of the functions of a group from the one at `i` on.
pub open spec fn group_ends(
    st: InferV,
    infos: Seq<RecInfoV>,
    lists: Seq<Seq<ConstraintV>>,
    ambient: TypeLevel,
    i: nat,
    ends: Seq<FinalizedV>,
) -> GroupEndV
    decreases infos.len() - i,
{
    if i >= infos.len() {
        GroupEndV { st, ends }
    } else {
        let f = finalized_at(st, infos[i as int].fn_ty, lists[i as int], ambient);
        group_ends(
            pending_on(st, st.pending + f.bubbled),
            infos,
            lists,
            ambient,
            i + 1,
            ends.push(f),
        )
    }
}

/// Bodies in which calls of a function pass on the dictionaries that it owns.
pub open spec fn all_passed_on(bodies: Seq<ExprV>, name: Seq<char>, owned: Seq<ConstraintV>) -> Seq<
    ExprV,
> {
    Seq::new(bodies.len(), |k: int| passed_on(bodies[k], name, owned))
}

/// Bodies in which calls of the functions of a group, from the one at `i` on, pass on
/// the dictionaries that those own.
pub open spec fn group_passed_on(
    bodies: Seq<ExprV>,
    infos: Seq<RecInfoV>,
    ends: Seq<FinalizedV>,
    i: nat,
) -> Seq<ExprV>
    decreases infos.len() - i,
{
    if i >= infos.len() {
        bodies
    } else if ends[i as int].owned.len() == 0 {
        group_passed_on(bodies, infos, ends, i + 1)
    } else {
        group_passed_on(
            all_passed_on(bodies, infos[i as int].name, ends[i as int].owned),
            infos,
            ends,
            i + 1,
        )
    }
}

/// A function of a group with its dictionaries chosen.
pub open spec fn def_done(def: FnDefV, body: ExprV, owned: Seq<ConstraintV>) -> FnDefV {
    FnDefV { body, dict_params: param_names(owned), ..def }
}

/// Chooses the dictionaries of the functions of a group from the one at `i` on, and
/// binds their names.
pub open spec fn group_finish(
    st: InferV,
    env: EnvV,
    defs: Seq<FnDefV>,
    ends: Seq<FinalizedV>,
    i: nat,
) -> Run<(EnvV, Seq<FnDefV>), ()>
    decreases defs.len() - i,
{
    if i >= defs.len() {
        Run { st, node: (env, defs), res: Ok(()) }
    } else {
        let end = ends[i as int];
        let def = defs[i as int];
        let s = settled(def.body, st, env, end.owned, true);
        let now = defs.update(i as int, def_done(def, s.0, end.owned));
        match s.1 {
            Some(e) => Run { st, node: (env, now), res: failed(e) },
            None => group_finish(
                noted_scheme(st, def.name_span, end.scheme),
                env.insert(def.name, immutable_info(end.scheme)),
                now,
                ends,
                i + 1,
            ),
        }
    }
}

/// A group whose functions have their constraints settled.
#[verifier::opaque]
pub open spec fn group_end(
    st: InferV,
    env: EnvV,
    defs: Seq<FnDefV>,
    infos: Seq<RecInfoV>,
    lists: Seq<Seq<ConstraintV>>,
    ambient: TypeLevel,
) -> Run<(EnvV, Seq<FnDefV>), ()> {
    let g = group_ends(st, infos, lists, ambient, 0, Seq::empty());
    group_finish(
        g.st,
        env,
        with_def_bodies(defs, group_passed_on(def_bodies(defs), infos, g.ends, 0)),
        g.ends,
        0,
    )
}

/// A recursive group once the bodies of its functions have been checked.
#[verifier::opaque]
pub open spec fn rec_after(
    r: Run<Seq<ExprV>, Seq<Seq<ConstraintV>>>,
    env: EnvV,
    stmts: Seq<StmtV>,
    infos: Seq<RecInfoV>,
    ambient: TypeLevel,
) -> Run<(EnvV, Seq<StmtV>), ()> {
    let st = at_level(r.st, ambient);
    let defs = with_def_bodies(defs_of(stmts), r.node);
    match r.res {
        Err(e) => Run { st, node: (env, stmts_of(defs)), res: Err(e) },
        Ok(lists) => {
            let g = group_end(
                st,
                env,
                defs,
                infos,
                shared_constraints(stmts_of(defs), infos, lists),
                ambient,
            );
            Run { st: g.st, node: (g.node.0, stmts_of(g.node.1)), res: g.res }
        },
    }
}

/// The view of lists of constraints or an error.
pub open spec fn lists_res(r: Result<Vec<Vec<TraitConstraint>>, SpannedTypeError>) -> Result<
    Seq<Seq<ConstraintV>>,
    SpannedV,
> {
    match r {
        Ok(lists) => Ok(lists_view(lists@)),
        Err(e) => Err(e@),
    }
}

/// A recursive group before the bodies of its functions are checked.
pub struct RecStart {
    pub env: TypeEnv,
    pub defs: Vec<FnDef>,
    pub infos: Vec<RecFnInfo>,
}

/// Whether a group starts as it should.
pub open spec fn starts_as(
    r: Result<RecStart, SpannedTypeError>,
    st: InferV,
    want: RecStartV,
    stmts: Seq<StmtV>,
) -> bool {
    st == want.st && match want.err {
        Some(e) => r is Err && r->Err_0@ == e,
        None => r is Ok && ({
            let s = r->Ok_0;
            s.env@ == want.env && infos_view(s.infos@) == want.infos && defs_view(s.defs@)
                == defs_of(stmts) && s.infos@.len() == stmts.len() && s.defs@.len()
                == stmts.len()
        }),
    }
}

pub fn push_list(lists: &mut Vec<Vec<TraitConstraint>>, list: Vec<TraitConstraint>)
    ensures
        lists_view(final(lists)@) == lists_view(old(lists)@).push(constraints_view(list@)),
        final(lists)@.len() == old(lists)@.len() + 1,
{
    lists.push(list);
    assert(lists_view(lists@) =~= lists_view(old(lists)@).push(constraints_view(list@)));
}

fn group_defs(stmts: &Vec<Stmt>) -> (r: Vec<FnDef>)
    requires
        all_functions(stmts_view(stmts@)),
    ensures
        r@.len() == stmts@.len(),
        defs_view(r@) == defs_of(stmts_view(stmts@)),
{
    let ghost all = stmts_view(stmts@);
    let mut out: Vec<FnDef> = Vec::new();
    let mut i: usize = 0;
    while i < stmts.len()
        invariant
            i <= stmts.len(),
            out@.len() == i,
            all == stmts_view(stmts@),
            all.len() == stmts@.len(),
            all_functions(all),
            forall|j: int| 0 <= j < i ==> (#[trigger] out@[j])@ == def_of(all[j]),
        decreases stmts.len() - i,
    {
        assert(all[i as int] == stmt_view(stmts@[i as int]));
        assert(all[i as int] is Fn);
        match &stmts[i] {
            Stmt::Fn(def) => {
                out.push(def.clone());
            },
            _ => {
                assert(false);
            },
        }
        i = i + 1;
    }
    assert(defs_view(out@) =~= defs_of(all));
    out
}

pub fn bodies_of_defs(defs: &Vec<FnDef>) -> (r: Vec<Expr>)
    ensures
        r@.len() == defs@.len(),
        exprs_view(r@) == def_bodies(defs_view(defs@)),
{
    let ghost want = def_bodies(defs_view(defs@));
    let mut out: Vec<Expr> = Vec::new();
    let mut i: usize = 0;
    while i < defs.len()
        invariant
            i <= defs.len(),
            out@.len() == i,
            want == def_bodies(defs_view(defs@)),
            want.len() == defs@.len(),
            forall|j: int| 0 <= j < i ==> expr_view(#[trigger] out@[j]) == want[j],
        decreases defs.len() - i,
    {
        assert(want[i as int] == defs@[i as int]@.body);
        out.push(defs[i].body.clone());
        i = i + 1;
    }
    assert(exprs_view(out@) =~= want);
    out
}

fn put_def_bodies(defs: &Vec<FnDef>, bodies: &Vec<Expr>) -> (r: Vec<FnDef>)
    requires
        bodies@.len() == defs@.len(),
    ensures
        r@.len() == defs@.len(),
        defs_view(r@) == with_def_bodies(defs_view(defs@), exprs_view(bodies@)),
{
    let ghost want = with_def_bodies(defs_view(defs@), exprs_view(bodies@));
    let mut out: Vec<FnDef> = Vec::new();
    let mut i: usize = 0;
    while i < defs.len()
        invariant
            i <= defs.len(),
            bodies@.len() == defs@.len(),
            out@.len() == i,
            want == with_def_bodies(defs_view(defs@), exprs_view(bodies@)),
            want.len() == defs@.len(),
            forall|j: int| 0 <= j < i ==> (#[trigger] out@[j])@ == want[j],
        decreases defs.len() - i,
    {
        assert(exprs_view(bodies@)[i as int] == expr_view(bodies@[i as int]));
        assert(want[i as int] == def_with(defs@[i as int]@, expr_view(bodies@[i as int])));
        let mut def = defs[i].clone();
        def.body = bodies[i].clone();
        out.push(def);
        i = i + 1;
    }
    assert(defs_view(out@) =~= want);
    out
}

fn fn_stmts(defs: Vec<FnDef>) -> (r: Vec<Stmt>)
    ensures
        r@.len() == defs@.len(),
        stmts_view(r@) == stmts_of(defs_view(defs@)),
{
    let ghost want = stmts_of(defs_view(defs@));
    let mut out: Vec<Stmt> = Vec::new();
    let mut i: usize = 0;
    while i < defs.len()
        invariant
            i <= defs.len(),
            out@.len() == i,
            want == stmts_of(defs_view(defs@)),
            want.len() == defs@.len(),
            forall|j: int| 0 <= j < i ==> stmt_view(#[trigger] out@[j]) == want[j],
        decreases defs.len() - i,
    {
        assert(want[i as int] == StmtV::Fn(defs@[i as int]@));
        let s = Stmt::Fn(defs[i].clone());
        assert(stmt_view(s) == want[i as int]);
        out.push(s);
        i = i + 1;
    }
    assert(stmts_view(out@) =~= want);
    out
}

fn pass_on_in_all(bodies: &mut Vec<Expr>, name: &String, owned: &Vec<TraitConstraint>)
    ensures
        final(bodies)@.len() == old(bodies)@.len(),
        exprs_view(final(bodies)@) == all_passed_on(
            exprs_view(old(bodies)@),
            name@,
            constraints_view(owned@),
        ),
{
    let ghost before = exprs_view(bodies@);
    let ghost want = all_passed_on(before, name@, constraints_view(owned@));
    let mut out: Vec<Expr> = Vec::new();
    let mut i: usize = 0;
    while i < bodies.len()
        invariant
            i <= bodies.len(),
            out@.len() == i,
            before == exprs_view(bodies@),
            bodies@.len() == old(bodies)@.len(),
            want == all_passed_on(before, name@, constraints_view(owned@)),
            want.len() == bodies@.len(),
            forall|j: int| 0 <= j < i ==> expr_view(#[trigger] out@[j]) == want[j],
        decreases bodies.len() - i,
    {
        assert(before[i as int] == expr_view(bodies@[i as int]));
        let mut e = bodies[i].clone();
        attach_owned_dicts_to_recursive_self_calls(&mut e, name, owned);
        out.push(e);
        i = i + 1;
    }
    assert(exprs_view(out@) =~= want);
    *bodies = out;
}

/// The views of settled constraints.
pub open spec fn ends_view(s: Seq<FinalizedConstraints>) -> Seq<FinalizedV> {
    Seq::new(s.len(), |i: int| s[i]@)
}

impl Infer {
    pub fn rec_start(&mut self, env: &TypeEnv, stmts: &Vec<Stmt>) -> (r: Result<
        RecStart,
        SpannedTypeError,
    >)
        requires
            old(self).wf(),
        ensures
            final(self).wf(),
            starts_as(
                r,
                final(self)@,
                rec_start(old(self)@, env@, stmts_view(stmts@)),
                stmts_view(stmts@),
            ),
    {
        proof {
            reveal(rec_start);
        }
        match validate_rec_group_function_names(stmts) {
            Err(error) => {
                return Err(error);
            },
            Ok(_) => {},
        }
        self.set_level(next_level(self.current_level));
        let defs = group_defs(stmts);
        let ghost all = defs_view(defs@);
        let ghost want = group_heads(self@, env@, all, 0, Seq::empty());
        let mut rec_env = env.clone();
        let mut infos: Vec<RecFnInfo> = Vec::new();
        assert(infos_view(infos@) =~= Seq::empty());
        let mut i: usize = 0;
        while i < defs.len()
            invariant
                i <= defs.len(),
                self.wf(),
                infos@.len() == i,
                all == defs_view(defs@),
                all.len() == defs@.len(),
                want == group_heads(self@, rec_env@, all, i as nat, infos_view(infos@)),
                want == rec_start(old(self)@, env@, stmts_view(stmts@)),
            decreases defs.len() - i,
        {
            assert(all[i as int] == defs@[i as int]@);
            let def = &defs[i];
            let info = match self.prepare_rec_fn_info(
                &def.name,
                &def.params,
                &def.ret_type,
                &def.type_bounds,
            ) {
                Err(error) => {
                    return Err(error);
                },
                Ok(t) => t,
            };
            rec_env.insert(
                def.name.clone(),
                EnvInfo::immutable(Scheme::mono(info.fn_ty.clone())),
            );
            let ghost before = infos_view(infos@);
            infos.push(info);
            assert(infos_view(infos@) =~= before.push(info@));
            i = i + 1;
        }
        Ok(RecStart { env: rec_env, defs, infos })
    }

    pub fn group_head(&mut self, env: &TypeEnv, def: &FnDef, info: &RecFnInfo) -> (r: Result<
        Head,
        SpannedTypeError,
    >)
        requires
            old(self).wf(),
        ensures
            final(self).wf(),
            head_is(r, final(self)@, group_head(old(self)@, env@, def@, info@)),
    {
        proof {
            reveal(group_head);
        }
        let mut body_env = env.clone();
        let mut vars: NameMap<TyVar> = NameMap::new();
        let (_, bound) = self.bind_params(
            &mut body_env,
            &mut vars,
            &ParamSource::Given(&info.param_tys),
            &def.params,
            def.body.span,
        );
        match bound {
            Err(error) => Err(error),
            Ok(_) => Ok(
                Head {
                    env: body_env,
                    fn_ty: info.fn_ty.clone(),
                    ret: info.ret.clone(),
                    initial: clone_constraints(&info.initial),
                },
            ),
        }
    }

    fn group_ends(
        &mut self,
        infos: &Vec<RecFnInfo>,
        lists: &Vec<Vec<TraitConstraint>>,
        ambient: TypeLevel,
    ) -> (r: Vec<FinalizedConstraints>)
        requires
            old(self).wf(),
            lists@.len() == infos@.len(),
        ensures
            final(self).wf(),
            r@.len() == infos@.len(),
            (GroupEndV { st: final(self)@, ends: ends_view(r@) }) == group_ends(
                old(self)@,
                infos_view(infos@),
                lists_view(lists@),
                ambient,
                0,
                Seq::empty(),
            ),
    {
        let ghost all = infos_view(infos@);
        let ghost ls = lists_view(lists@);
        let ghost want = group_ends(self@, all, ls, ambient, 0, Seq::empty());
        let mut out: Vec<FinalizedConstraints> = Vec::new();
        assert(ends_view(out@) =~= Seq::empty());
        let mut i: usize = 0;
        while i < infos.len()
            invariant
                i <= infos.len(),
                self.wf(),
                out@.len() == i,
                all == infos_view(infos@),
                ls == lists_view(lists@),
                all.len() == infos@.len(),
                lists@.len() == infos@.len(),
                want == group_ends(old(self)@, all, ls, ambient, 0, Seq::empty()),
                want == group_ends(self@, all, ls, ambient, i as nat, ends_view(out@)),
            decreases infos.len() - i,
        {
            assert(all[i as int] == infos@[i as int]@);
            assert(ls[i as int] == constraints_view(lists@[i as int]@));
            let f = self.finalize_constraints_at(&infos[i].fn_ty, &lists[i], ambient);
            let mut bubbled = clone_constraints(&f.bubbled);
            let ghost st = self@;
            let ghost more = constraints_view(bubbled@);
            self.constraints.pending.append(&mut bubbled);
            assert(constraints_view(self.constraints.pending@) =~= st.pending + more);
            assert(self@ == pending_on(st, st.pending + more));
            let ghost before = ends_view(out@);
            out.push(f);
            assert(ends_view(out@) =~= before.push(f@));
            i = i + 1;
        }
        out
    }

    fn group_finish(
        &mut self,
        env: &mut TypeEnv,
        defs: &mut Vec<FnDef>,
        ends: &Vec<FinalizedConstraints>,
    ) -> (r: Result<(), SpannedTypeError>)
        requires
            old(self).wf(),
            ends@.len() == old(defs)@.len(),
        ensures
            final(self).wf(),
            (Run { st: final(self)@, node: (final(env)@, defs_view(final(defs)@)), res: unit_res(r) })
                == group_finish(
                old(self)@,
                old(env)@,
                defs_view(old(defs)@),
                ends_view(ends@),
                0,
            ),
    {
        let ghost es = ends_view(ends@);
        let ghost want = group_finish(self@, env@, defs_view(defs@), es, 0);
        let mut i: usize = 0;
        while i < defs.len()
            invariant
                i <= defs.len(),
                self.wf(),
                ends@.len() == defs@.len(),
                es == ends_view(ends@),
                want == group_finish(old(self)@, old(env)@, defs_view(old(defs)@), es, 0),
                want == group_finish(self@, env@, defs_view(defs@), es, i as nat),
            decreases defs.len() - i,
        {
            let ghost now = defs_view(defs@);
            assert(now[i as int] == defs@[i as int]@);
            assert(es[i as int] == ends@[i as int]@);
            let mut def = defs[i].clone();
            let step = self.settle_expr(&mut def.body, env, &ends[i].owned);
            def.dict_params = dict_param_names(&ends[i].owned);
            let name = def.name.clone();
            let span = def.name_span;
            assert(def@ == def_done(now[i as int], def@.body, es[i as int].owned));
            defs.set(i, def);
            assert(defs_view(defs@) =~= now.update(i as int, def@));
            match step {
                Err(error) => {
                    return Err(error.unspanned());
                },
                Ok(_) => {},
            }
            let scheme = ends[i].scheme.clone();
            env.insert(name, EnvInfo::immutable(scheme.clone()));
            self.note_scheme(span, scheme);
            i = i + 1;
        }
        Ok(())
    }

    fn group_end(
        &mut self,
        env: &mut TypeEnv,
        defs: &mut Vec<FnDef>,
        infos: &Vec<RecFnInfo>,
        lists: &Vec<Vec<TraitConstraint>>,
        ambient: TypeLevel,
    ) -> (r: Result<(), SpannedTypeError>)
        requires
            old(self).wf(),
            old(defs)@.len() == infos@.len(),
            lists@.len() == infos@.len(),
        ensures
            final(self).wf(),
            (Run { st: final(self)@, node: (final(env)@, defs_view(final(defs)@)), res: unit_res(r) })
                == group_end(
                old(self)@,
                old(env)@,
                defs_view(old(defs)@),
                infos_view(infos@),
                lists_view(lists@),
                ambient,
            ),
    {
        proof {
            reveal(group_end);
        }
        let ends = self.group_ends(infos, lists, ambient);
        let ghost all = infos_view(infos@);
        let ghost es = ends_view(ends@);
        let mut bodies = bodies_of_defs(defs);
        let ghost want = group_passed_on(exprs_view(bodies@), all, es, 0);
        let mut i: usize = 0;
        while i < infos.len()
            invariant
                i <= infos.len(),
                ends@.len() == infos@.len(),
                bodies@.len() == infos@.len(),
                all == infos_view(infos@),
                es == ends_view(ends@),
                all.len() == infos@.len(),
                want == group_passed_on(exprs_view(bodies@), all, es, i as nat),
            decreases infos.len() - i,
        {
            assert(all[i as int] == infos@[i as int]@);
            assert(es[i as int] == ends@[i as int]@);
            assert(es[i as int].owned == constraints_view(ends@[i as int].owned@));
            assert(es[i as int].owned.len() == ends@[i as int].owned@.len());
            if ends[i].owned.len() > 0 {
                pass_on_in_all(&mut bodies, &infos[i].name, &ends[i].owned);
            }
            i = i + 1;
        }
        let mut done = put_def_bodies(defs, &bodies);
        let r = self.group_finish(env, &mut done, &ends);
        *defs = done;
        r
    }

    pub fn rec_after(
        &mut self,
        env: &mut TypeEnv,
        stmts: &mut Vec<Stmt>,
        bodies: Vec<Expr>,
        found: Result<Vec<Vec<TraitConstraint>>, SpannedTypeError>,
        defs: &Vec<FnDef>,
        infos: &Vec<RecFnInfo>,
        ambient: TypeLevel,
    ) -> (r: Result<(), SpannedTypeError>)
        requires
            old(self).wf(),
            bodies@.len() == old(stmts)@.len(),
            defs@.len() == old(stmts)@.len(),
            infos@.len() == old(stmts)@.len(),
            defs_view(defs@) == defs_of(stmts_view(old(stmts)@)),
            found matches Ok(lists) ==> lists@.len() == infos@.len(),
        ensures
            final(self).wf(),
            (Run {
                st: final(self)@,
                node: (final(env)@, stmts_view(final(stmts)@)),
                res: unit_res(r),
            }) == rec_after(
                (Run { st: old(self)@, node: exprs_view(bodies@), res: lists_res(found) }),
                old(env)@,
                stmts_view(old(stmts)@),
                infos_view(infos@),
                ambient,
            ),
    {
        proof {
            reveal(rec_after);
        }
        self.set_level(ambient);
        let mut done = put_def_bodies(defs, &bodies);
        match found {
            Err(error) => {
                *stmts = fn_stmts(done);
                Err(error)
            },
            Ok(left) => {
                let mut lists = left;
                let group = fn_stmts(clone_defs(&done));
                propagate_rec_block_constraints(&group, infos, &mut lists);
                let r = self.group_end(env, &mut done, infos, &lists, ambient);
                *stmts = fn_stmts(done);
                r
            },
        }
    }
}

fn clone_defs(defs: &Vec<FnDef>) -> (r: Vec<FnDef>)
    ensures
        r@.len() == defs@.len(),
        defs_view(r@) == defs_view(defs@),
{
    let mut out: Vec<FnDef> = Vec::new();
    let mut i: usize = 0;
    while i < defs.len()
        invariant
            i <= defs.len(),
            out@.len() == i,
            forall|j: int| 0 <= j < i ==> (#[trigger] out@[j])@ == defs@[j]@,
        decreases defs.len() - i,
    {
        out.push(defs[i].clone());
        i = i + 1;
    }
    assert(defs_view(out@) =~= defs_view(defs@));
    out
}

} // verus!
