//! How the definitions of several macros are checked.

use vstd::prelude::*;

use crate::ast::MacroDef;
use crate::ast_view::MacroDefV;
use crate::checker::{checker, macro_run};
use crate::env::{EnvV, TypeEnv};
use crate::error::SpannedTypeError;
use crate::state::{Infer, InferV};
use crate::steps::{Run, unit_res};

verus! {

/// The views of the definitions of macros.
pub open spec fn macro_defs_view(s: Seq<MacroDef>) -> Seq<MacroDefV> {
    Seq::new(s.len(), |i: int| s[i]@)
}

/// Macros from the one at `i` on. The first error ends it.
pub open spec fn macros_run(st: InferV, env: EnvV, defs: Seq<MacroDefV>, i: nat) -> Run<
    Seq<MacroDefV>,
    (),
>
    decreases defs.len() - i,
{
    if i >= defs.len() {
        Run { st, node: defs, res: Ok(()) }
    } else {
        let r = macro_run(checker(), st, env, defs[i as int]);
        let now = defs.update(i as int, r.node);
        match r.res {
            Err(e) => Run { st: r.st, node: now, res: Err(e) },
            Ok(_) => macros_run(r.st, env, now, i + 1),
        }
    }
}

impl Infer {
    /// Checks the definitions of macros, one after the other.
    pub fn infer_macro_defs(&mut self, env: &TypeEnv, defs: &mut Vec<MacroDef>) -> (r: Result<
        (),
        SpannedTypeError,
    >)
        requires
            old(self).wf(),
        ensures
            final(self).wf(),
            (Run { st: final(self)@, node: macro_defs_view(final(defs)@), res: unit_res(r) })
                == macros_run(old(self)@, env@, macro_defs_view(old(defs)@), 0),
    {
        let ghost want = macros_run(self@, env@, macro_defs_view(defs@), 0);
        let mut i: usize = 0;
        while i < defs.len()
            invariant
                i <= defs.len(),
                self.wf(),
                want == macros_run(old(self)@, env@, macro_defs_view(old(defs)@), 0),
                want == macros_run(self@, env@, macro_defs_view(defs@), i as nat),
            decreases defs.len() - i,
        {
            let ghost now = macro_defs_view(defs@);
            assert(now[i as int] == defs@[i as int]@);
            let step = self.infer_macro_def(env, &mut defs[i]);
            assert(macro_defs_view(defs@) =~= now.update(i as int, defs@[i as int]@));
            match step {
                Err(error) => {
                    return Err(error);
                },
                Ok(_) => {},
            }
            i = i + 1;
        }
        Ok(())
    }
}

} // verus!
