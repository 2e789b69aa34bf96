//! What is set for a while and put back: loops, functions, levels and constraints.

use vstd::prelude::*;

use crate::ast::{NodeId, SourceSpan};
use crate::definitions::noted_scheme;
use crate::finish::{noted_caps, noted_fresh, noted_symbol, noted_type};
use crate::state::{Infer, InferV};
use crate::subst::TypeLevel;
use crate::ty::{constraints_view, tys_view, ConstraintV, FuncReturn, ParamCapability, ReturnV};
use crate::ty::{Scheme, TraitConstraint, Ty, TyV};

verus! {

/// Inside a loop whose result has this type.
pub open spec fn in_loop(st: InferV, ty: TyV) -> InferV {
    InferV { break_tys: st.break_tys.push(ty), ..st }
}

/// Out of the innermost loop.
pub open spec fn out_of_loop(st: InferV) -> InferV {
    if st.break_tys.len() > 0 {
        InferV { break_tys: st.break_tys.drop_last(), ..st }
    } else {
        st
    }
}

/// Inside a function that returns this.
pub open spec fn in_function(st: InferV, ret: ReturnV) -> InferV {
    InferV { return_tys: st.return_tys.push(ret), ..st }
}

/// Out of the innermost function.
pub open spec fn out_of_function(st: InferV) -> InferV {
    if st.return_tys.len() > 0 {
        InferV { return_tys: st.return_tys.drop_last(), ..st }
    } else {
        st
    }
}

/// At this level.
pub open spec fn at_level(st: InferV, level: TypeLevel) -> InferV {
    InferV { level, ..st }
}

/// With these constraints to settle.
pub open spec fn pending_on(st: InferV, cs: Seq<ConstraintV>) -> InferV {
    InferV { pending: cs, ..st }
}

/// A loop that is entered and left leaves everything as it was.
pub proof fn law_loop_restores(st: InferV, ty: TyV)
    ensures
        out_of_loop(in_loop(st, ty)) == st,
{
    assert(st.break_tys.push(ty).drop_last() =~= st.break_tys);
}

/// A function that is entered and left leaves everything as it was.
pub proof fn law_function_restores(st: InferV, ret: ReturnV)
    ensures
        out_of_function(in_function(st, ret)) == st,
{
    assert(st.return_tys.push(ret).drop_last() =~= st.return_tys);
}

impl Infer {
    pub fn enter_loop(&mut self, ty: Ty)
        requires
            old(self).wf(),
        ensures
            final(self).wf(),
            final(self)@ == in_loop(old(self)@, ty@),
    {
        let ghost before = self.flow.loop_break_tys@;
        self.flow.loop_break_tys.push(ty);
        assert(tys_view(self.flow.loop_break_tys@) =~= tys_view(before).push(ty@));
    }

    pub fn leave_loop(&mut self)
        requires
            old(self).wf(),
        ensures
            final(self).wf(),
            final(self)@ == out_of_loop(old(self)@),
    {
        let ghost before = self.flow.loop_break_tys@;
        assert(tys_view(before).len() == before.len());
        let _last = self.flow.loop_break_tys.pop();
        assert(before.len() > 0 ==> tys_view(self.flow.loop_break_tys@) =~= tys_view(
            before,
        ).drop_last());
    }

    pub fn enter_function(&mut self, ret: FuncReturn)
        requires
            old(self).wf(),
        ensures
            final(self).wf(),
            final(self)@ == in_function(old(self)@, ret@),
    {
        let ghost before = self@.return_tys;
        self.flow.fn_return_tys.push(ret);
        assert(self@.return_tys =~= before.push(ret@));
    }

    pub fn leave_function(&mut self)
        requires
            old(self).wf(),
        ensures
            final(self).wf(),
            final(self)@ == out_of_function(old(self)@),
    {
        let ghost before = self@.return_tys;
        assert(before.len() == self.flow.fn_return_tys@.len());
        let _last = self.flow.fn_return_tys.pop();
        assert(before.len() > 0 ==> self@.return_tys =~= before.drop_last());
    }

    pub fn set_level(&mut self, level: TypeLevel)
        requires
            old(self).wf(),
        ensures
            final(self).wf(),
            final(self)@ == at_level(old(self)@, level),
    {
        self.current_level = level;
    }

    /// Puts other constraints in place of those that are left to settle.
    pub fn replace_pending(&mut self, cs: Vec<TraitConstraint>) -> (r: Vec<TraitConstraint>)
        requires
            old(self).wf(),
        ensures
            final(self).wf(),
            final(self)@ == pending_on(old(self)@, constraints_view(cs@)),
            constraints_view(r@) == old(self)@.pending,
            r@.len() == old(self)@.pending.len(),
    {
        let mut other = cs;
        assert(self.constraints.pending@.len() == constraints_view(
            self.constraints.pending@,
        ).len());
        core::mem::swap(&mut self.constraints.pending, &mut other);
        other
    }

    pub fn note_type(&mut self, id: NodeId, ty: &Ty)
        requires
            old(self).wf(),
        ensures
            final(self).wf(),
            final(self)@ == noted_type(old(self)@, id, ty@),
    {
        self.metadata.record_expr_type(id, ty.clone());
    }

    pub fn note_symbol(&mut self, id: NodeId, ty: &Ty)
        requires
            old(self).wf(),
        ensures
            final(self).wf(),
            final(self)@ == noted_symbol(old(self)@, id, ty@),
    {
        self.metadata.record_symbol_type(id, ty.clone());
    }

    pub fn note_capabilities(&mut self, id: NodeId, caps: Vec<ParamCapability>)
        requires
            old(self).wf(),
        ensures
            final(self).wf(),
            final(self)@ == noted_caps(old(self)@, id, caps@),
    {
        self.metadata.record_callable_capabilities(id, caps);
    }

    pub fn note_fresh(&mut self, id: NodeId, is_fresh: bool)
        requires
            old(self).wf(),
        ensures
            final(self).wf(),
            final(self)@ == noted_fresh(old(self)@, id, is_fresh),
    {
        if is_fresh {
            self.metadata.mark_fresh_place(id);
        }
    }

    pub fn note_scheme(&mut self, span: SourceSpan, scheme: Scheme)
        requires
            old(self).wf(),
        ensures
            final(self).wf(),
            final(self)@ == noted_scheme(old(self)@, span, scheme@),
    {
        self.metadata.record_definition_scheme(span, scheme);
    }
}

} // verus!
