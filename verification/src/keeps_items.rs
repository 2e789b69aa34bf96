//! That nothing solved is lost.

use vstd::prelude::*;

use crate::ast_view::{ExprV, PatternV};
use crate::env::EnvV;
use crate::items::{let_end, LetV};
use crate::keeps_pattern_infer::keeps_match_pattern;
use crate::patterns::irrefutable_let;
use crate::solutions::{grows, lemma_grows_reflexive, lemma_grows_transitive};
use crate::state::InferV;
use crate::ty::TyV;

verus! {

broadcast use {lemma_grows_reflexive, lemma_grows_transitive};

pub proof fn keeps_let_end(st: InferV, env: EnvV, l: LetV, value: ExprV, ty: TyV)
    ensures
        grows(st.subst.map, let_end(st, env, l, value, ty).st.subst.map),
{
    reveal(let_end);
    if !irrefutable_let(l.pat, st.variants) {
    } else {
        match l.pat {
            PatternV::Variable(name, span) => {},
            _ => {
                keeps_match_pattern(st, env, l.pat, ty, l.is_mutable);
            },
        }
    }
}

} // verus!
