//! That nothing solved is lost.

use vstd::prelude::*;

use crate::ast_view::MacroDefV;
use crate::env::EnvV;
use crate::error::SpannedV;
use crate::keeps_steps::{keeps_equate, keeps_written};
use crate::macro_phase::{macro_after, macro_head, macro_result};
use crate::solutions::{grows, lemma_grows_reflexive, lemma_grows_transitive};
use crate::state::InferV;
use crate::steps::written;
use crate::ty::TyV;

verus! {

broadcast use {lemma_grows_reflexive, lemma_grows_transitive};

pub proof fn keeps_macro_head(st: InferV, env: EnvV, def: MacroDefV)
    ensures
        grows(st.subst.map, macro_head(st, env, def).st.subst.map),
{
    reveal(macro_head);
    keeps_written(st, Map::empty(), def.param_ty);
    let p = written(st, Map::empty(), def.param_ty);
    match p.res {
        Err(e) => {},
        Ok(param) => {
            if param != TyV::Con("Syntax"@) {
            } else {
                keeps_written(p.st, p.vars, def.ret_ty);
            }
        },
    }
}

pub proof fn keeps_macro_after(st: InferV, def: MacroDefV, res: Result<TyV, SpannedV>)
    ensures
        grows(st.subst.map, macro_after(st, def, res).st.subst.map),
{
    reveal(macro_after);
    match res {
        Err(e) => {},
        Ok(ty) => {
            keeps_equate(st, ty, macro_result());
        },
    }
}

} // verus!
