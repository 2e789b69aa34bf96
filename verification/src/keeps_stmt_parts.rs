//! That nothing solved is lost.

use vstd::prelude::*;

use crate::ast_view::{ExprV, FnDefV};
use crate::definitions::child_level;
use crate::env::EnvV;
use crate::error::SpannedV;
use crate::items::LetV;
use crate::keeps_definitions::{keeps_def_head, keeps_end_def};
use crate::keeps_items::keeps_let_end;
use crate::keeps_steps::keeps_equate_result;
use crate::places::SourceV;
use crate::scopes::at_level;
use crate::solutions::{grows, lemma_grows_reflexive, lemma_grows_transitive};
use crate::state::InferV;
use crate::steps::Run;
use crate::stmt_parts::{fn_after, fn_head, let_after, stmt_after, value_after, PlaceV};
use crate::subst::TypeLevel;
use crate::ty::{ConstraintV, TyV};

verus! {

broadcast use {lemma_grows_reflexive, lemma_grows_transitive};

pub proof fn keeps_value_after(r: Run<ExprV, TyV>, want: TyV)
    ensures
        grows(r.st.subst.map, value_after(r, want).st.subst.map),
{
    reveal(value_after);
    match r.res {
        Err(_) => {},
        Ok(found) => {
            keeps_equate_result(r.st, found, want);
        },
    }
}

pub proof fn keeps_let_after(r: Run<ExprV, TyV>, env: EnvV, l: LetV)
    ensures
        grows(r.st.subst.map, let_after(r, env, l).st.subst.map),
{
    reveal(let_after);
    let st = if l.general { at_level(r.st, l.ambient) } else { r.st };
    match r.res {
        Err(e) => {},
        Ok(ty) => {
            keeps_let_end(st, env, l, r.node, ty);
        },
    }
}

pub proof fn keeps_stmt_after<N>(r: Run<N, TyV>, place: PlaceV)
    ensures
        grows(r.st.subst.map, stmt_after(r, place).st.subst.map),
{
    reveal(stmt_after);
}

pub proof fn keeps_fn_head(st: InferV, env: EnvV, def: FnDefV, knows_itself: bool)
    ensures
        grows(st.subst.map, fn_head(st, env, def, knows_itself).st.subst.map),
{
    reveal(fn_head);
    keeps_def_head(at_level(st, child_level(st.level)), env, Map::empty(), Seq::empty(), SourceV::Own, def.params, def.ret_type, def.type_bounds, def.body.span, if knows_itself { Some(def.name) } else { None },);
}

pub proof fn keeps_fn_after(
    st: InferV,
    env: EnvV,
    def: FnDefV,
    res: Result<Seq<ConstraintV>, SpannedV>,
    knows_itself: bool,
    fn_ty: TyV,
    ambient: TypeLevel,
)
    ensures
        grows(st.subst.map, fn_after(st, env, def, res, knows_itself, fn_ty, ambient).st.subst.map),
{
    reveal(fn_after);
    let st1 = at_level(st, ambient);
    match res {
        Err(e) => {},
        Ok(left) => {
            keeps_end_def(st1, env, fn_ty, left, ambient, def.body, if knows_itself { Some(def.name) } else { None }, true,);
        },
    }
}

} // verus!
