//! How ranges, arrays and records are checked.

use vstd::prelude::*;

use crate::ast::{ArrayEntry, Expr, RecordEntry, SourceSpan};
use crate::ast_rest::{lemma_entries_rest, lemma_entries_whole, lemma_fields_rest};
use crate::ast_rest::lemma_fields_whole;
use crate::ast_size::{array_entries_size, array_entry_size, expr_size, optional_size};
use crate::ast_size::{record_entries_size, record_entry_size};
use crate::ast_view::{array_entries_view, array_entry_view, boxed_expr_view};
use crate::ast_view::{record_entries_view, record_entry_view};
use crate::checker::{Within, agrees, array_run, bound_run, entries_run, entry_run};
use crate::checker::{field_entry_run, field_value_run, fields_res, fields_run, item_run};
use crate::checker::{lit_res, range_run, range_type_of, record_of, record_run, spread_run};
use crate::env::TypeEnv;
use crate::error::{SpannedTypeError, TypeMismatchContext};
use crate::state::Infer;
use crate::steps::{Run, ty_res, unit_res};
use crate::ty::{Ty, TyV, fields_view};
use crate::ty_helpers::{array_element_ty, array_ty, merge_record_field, opt_ty};

verus! {

impl Infer {
    pub fn infer_int_range_bound(
        &mut self,
        Ghost(within): Ghost<Within>,
        env: &TypeEnv,
        bound: &mut Option<Box<Expr>>,
        context: TypeMismatchContext,
    ) -> (r: Result<(), SpannedTypeError>)
        requires
            old(self).wf(),
            agrees(within, optional_size(boxed_expr_view(*old(bound)))),
        ensures
            final(self).wf(),
            (Run {
                st: final(self)@,
                node: boxed_expr_view(*final(bound)),
                res: unit_res(r),
            }) == bound_run(
                within,
                old(self)@,
                env@,
                boxed_expr_view(*old(bound)),
                context@,
            ),
        decreases optional_size(boxed_expr_view(*old(bound))), 3nat, 0nat,
    {
        proof {
            reveal(bound_run);
        }
        match &mut *bound {
            Some(e) => {
                let ghost before = **e;
                let ty = match self.infer_expr(env, e) {
                    Err(err) => {
                        return Err(err);
                    },
                    Ok(t) => t,
                };
                match self.equate(ty, Ty::Int) {
                    Err(err) => {
                        return Err(err.with_mismatch_context(context).at(e.span));
                    },
                    Ok(_) => {},
                }
                Ok(())
            },
            None => {
                Ok(())
            },
        }
    }

    pub fn infer_range_expr(
        &mut self,
        Ghost(within): Ghost<Within>,
        env: &TypeEnv,
        start: &mut Option<Box<Expr>>,
        end: &mut Option<Box<Expr>>,
        inclusive: bool,
    ) -> (r: Result<Ty, SpannedTypeError>)
        requires
            old(self).wf(),
            agrees(within, optional_size(boxed_expr_view(*old(start))) + optional_size(boxed_expr_view(*old(end)))),
        ensures
            final(self).wf(),
            (Run {
                st: final(self)@,
                node: (boxed_expr_view(*final(start)), boxed_expr_view(*final(end))),
                res: ty_res(r),
            }) == range_run(
                within,
                old(self)@,
                env@,
                boxed_expr_view(*old(start)),
                boxed_expr_view(*old(end)),
                inclusive,
            ),
        decreases optional_size(boxed_expr_view(*old(start))) + optional_size(boxed_expr_view(*old(end))), 4nat, 0nat,
    {
        proof {
            reveal(range_run);
        }
        let _done = match self.infer_int_range_bound(Ghost(within), env, start, TypeMismatchContext::RangeStart) {
            Err(error) => {
                return Err(error);
            },
            Ok(t) => t,
        };
        let _done = match self.infer_int_range_bound(Ghost(within), env, end, TypeMismatchContext::RangeEnd) {
            Err(error) => {
                return Err(error);
            },
            Ok(t) => t,
        };
        Ok(range_type_of(start.is_some(), end.is_some(), inclusive))
    }

    pub fn infer_array_item(
        &mut self,
        Ghost(within): Ghost<Within>,
        env: &TypeEnv,
        e: &mut Expr,
        want: &Ty,
        is_expected: bool,
        is_spread: bool,
    ) -> (r: Result<(), SpannedTypeError>)
        requires
            old(self).wf(),
            agrees(within, expr_size(old(e)@)),
        ensures
            final(self).wf(),
            (Run {
                st: final(self)@,
                node: final(e)@,
                res: unit_res(r),
            }) == item_run(
                within,
                old(self)@,
                env@,
                old(e)@,
                want@,
                is_expected,
                is_spread,
            ),
        decreases expr_size(old(e)@), 3nat, 0nat,
    {
        proof {
            reveal(item_run);
        }
        let expected = if is_expected {
            Some(want.clone())
        } else {
            None
        };
        let ty = match self.infer_either(env, e, &expected) {
            Err(error) => {
                return Err(error);
            },
            Ok(t) => t,
        };
        let same = if is_spread {
            self.equate(ty, want.clone())
        } else {
            self.equate(want.clone(), ty)
        };
        match same {
            Err(error) => {
                return Err(error.at(e.span));
            },
            Ok(_) => {},
        }
        Ok(())
    }

    pub fn infer_array_entry(
        &mut self,
        Ghost(within): Ghost<Within>,
        env: &TypeEnv,
        entry: &mut ArrayEntry,
        elt: &Ty,
        is_expected: bool,
    ) -> (r: Result<(), SpannedTypeError>)
        requires
            old(self).wf(),
            agrees(within, array_entry_size(array_entry_view(*old(entry)))),
        ensures
            final(self).wf(),
            (Run {
                st: final(self)@,
                node: array_entry_view(*final(entry)),
                res: unit_res(r),
            }) == entry_run(
                within,
                old(self)@,
                env@,
                array_entry_view(*old(entry)),
                elt@,
                is_expected,
            ),
        decreases array_entry_size(array_entry_view(*old(entry))), 3nat, 0nat,
    {
        proof {
            reveal(entry_run);
        }
        match &mut *entry {
            ArrayEntry::Elem(e) => {
                self.infer_array_item(Ghost(within), env, e, elt, is_expected, false)
            },
            ArrayEntry::Spread(e) => {
                let whole = array_ty(elt.clone());
                self.infer_array_item(Ghost(within), env, e, &whole, is_expected, true)
            },
        }
    }

    pub fn infer_array_items(
        &mut self,
        Ghost(within): Ghost<Within>,
        env: &TypeEnv,
        s: &mut Vec<ArrayEntry>,
        elt: &Ty,
        is_expected: bool,
    ) -> (r: Result<(), SpannedTypeError>)
        requires
            old(self).wf(),
            agrees(within, array_entries_size(array_entries_view(old(s)@))),
        ensures
            final(self).wf(),
            (Run {
                st: final(self)@,
                node: array_entries_view(final(s)@),
                res: unit_res(r),
            }) == entries_run(
                within,
                old(self)@,
                env@,
                array_entries_view(old(s)@),
                elt@,
                is_expected,
                0,
            ),
        decreases array_entries_size(array_entries_view(old(s)@)), 3nat, 0nat,
    {
        proof {
            reveal(entries_run);
        }
        let ghost start = array_entries_view(s@);
        let ghost want = entries_run(within, self@, env@, array_entries_view(s@), elt@, is_expected, 0);
        let mut i: usize = 0;
        proof {
            lemma_entries_whole(start);
        }
        while i < s.len()
            invariant
                agrees(within, array_entries_size(array_entries_view(old(s)@))),
                i <= s.len(),
                self.wf(),
                start == array_entries_view(old(s)@),
                array_entries_size(array_entries_view(s@).skip(i as int)) <= array_entries_size(start),
                want == entries_run(within, old(self)@, env@, start, elt@, is_expected, 0),
                want == entries_run(within, self@, env@, array_entries_view(s@), elt@, is_expected, i as nat),
            decreases s.len() - i,
        {
            proof {
                reveal(entries_run);
            }
            let ghost now = array_entries_view(s@);
            proof {
                assert(now.len() == s@.len());
                assert(now[i as int] == array_entry_view(s@[i as int]));
                lemma_entries_rest(now, i as int);
            }
            let step = self.infer_array_entry(Ghost(within), env, &mut s[i], elt, is_expected);
            proof {
                assert(array_entries_view(s@) =~= now.update(i as int, array_entry_view(s@[i as int])));
            }
            match step {
                Err(e) => {
                    return Err(e);
                },
                Ok(_) => {},
            }
            i = i + 1;
        }
        Ok(())
    }

    pub fn infer_array_entries(
        &mut self,
        Ghost(within): Ghost<Within>,
        env: &TypeEnv,
        entries: &mut Vec<ArrayEntry>,
        expected: &Option<Ty>,
        span: SourceSpan,
    ) -> (r: Result<Ty, SpannedTypeError>)
        requires
            old(self).wf(),
            agrees(within, array_entries_size(array_entries_view(old(entries)@))),
        ensures
            final(self).wf(),
            (Run {
                st: final(self)@,
                node: array_entries_view(final(entries)@),
                res: ty_res(r),
            }) == array_run(
                within,
                old(self)@,
                env@,
                array_entries_view(old(entries)@),
                opt_ty(*expected),
                span,
            ),
        decreases array_entries_size(array_entries_view(old(entries)@)), 4nat, 0nat,
    {
        proof {
            reveal(array_run);
        }
        let known = match expected {
            Some(ty) => array_element_ty(ty),
            None => None,
        };
        let is_expected = known.is_some();
        let elt = match known {
            Some(ty) => ty,
            None => self.fresh_ty(),
        };
        let _done = match self.infer_array_items(Ghost(within), env, entries, &elt, is_expected) {
            Err(error) => {
                return Err(error);
            },
            Ok(t) => t,
        };
        let ty = array_ty(elt);
        match expected {
            Some(whole) => {
                match self.equate(ty.clone(), whole.clone()) {
                    Err(error) => {
                        return Err(error.at(span));
                    },
                    Ok(_) => {},
                }
                Ok(self.resolve(&ty))
            },
            None => {
                Ok(self.resolve(&ty))
            },
        }
    }

    pub fn infer_record_value(
        &mut self,
        Ghost(within): Ghost<Within>,
        env: &TypeEnv,
        e: &mut Expr,
        fields: Vec<(String, Ty)>,
        name: &String,
    ) -> (r: Result<Vec<(String, Ty)>, SpannedTypeError>)
        requires
            old(self).wf(),
            agrees(within, expr_size(old(e)@)),
        ensures
            final(self).wf(),
            (Run {
                st: final(self)@,
                node: final(e)@,
                res: fields_res(r),
            }) == field_value_run(
                within,
                old(self)@,
                env@,
                old(e)@,
                fields_view(fields@),
                name@,
            ),
        decreases expr_size(old(e)@), 3nat, 0nat,
    {
        proof {
            reveal(field_value_run);
        }
        let ty = match self.infer_expr(env, e) {
            Err(error) => {
                return Err(error);
            },
            Ok(t) => t,
        };
        let mut more = fields;
        match merge_record_field(&mut more, name.clone(), ty) {
            Err(error) => Err(error.at(e.span)),
            Ok(_) => Ok(more),
        }
    }

    pub fn infer_record_spread(
        &mut self,
        Ghost(within): Ghost<Within>,
        env: &TypeEnv,
        e: &mut Expr,
        fields: Vec<(String, Ty)>,
        tail: Ty,
    ) -> (r: Result<(Vec<(String, Ty)>, Ty), SpannedTypeError>)
        requires
            old(self).wf(),
            agrees(within, expr_size(old(e)@)),
        ensures
            final(self).wf(),
            (Run {
                st: final(self)@,
                node: final(e)@,
                res: lit_res(r),
            }) == spread_run(
                within,
                old(self)@,
                env@,
                old(e)@,
                fields_view(fields@),
                tail@,
            ),
        decreases expr_size(old(e)@), 3nat, 0nat,
    {
        proof {
            reveal(spread_run);
        }
        let ty = match self.infer_expr(env, e) {
            Err(error) => {
                return Err(error);
            },
            Ok(t) => t,
        };
        let mut more = fields;
        match self.spread_into(&mut more, tail, ty, e.span) {
            Err(error) => Err(error),
            Ok(rest) => Ok((more, rest)),
        }
    }

    pub fn infer_record_entry(
        &mut self,
        Ghost(within): Ghost<Within>,
        env: &TypeEnv,
        entry: &mut RecordEntry,
        fields: Vec<(String, Ty)>,
        tail: Ty,
    ) -> (r: Result<(Vec<(String, Ty)>, Ty), SpannedTypeError>)
        requires
            old(self).wf(),
            agrees(within, record_entry_size(record_entry_view(*old(entry)))),
        ensures
            final(self).wf(),
            (Run {
                st: final(self)@,
                node: record_entry_view(*final(entry)),
                res: lit_res(r),
            }) == field_entry_run(
                within,
                old(self)@,
                env@,
                record_entry_view(*old(entry)),
                fields_view(fields@),
                tail@,
            ),
        decreases record_entry_size(record_entry_view(*old(entry))), 3nat, 0nat,
    {
        proof {
            reveal(field_entry_run);
        }
        match &mut *entry {
            RecordEntry::Field(name, e) => {
                match self.infer_record_value(Ghost(within), env, e, fields, name) {
                    Err(error) => Err(error),
                    Ok(more) => Ok((more, tail)),
                }
            },
            RecordEntry::Spread(e) => {
                self.infer_record_spread(Ghost(within), env, e, fields, tail)
            },
        }
    }

    pub fn infer_record_entries(
        &mut self,
        Ghost(within): Ghost<Within>,
        env: &TypeEnv,
        s: &mut Vec<RecordEntry>,
    ) -> (r: Result<(Vec<(String, Ty)>, Ty), SpannedTypeError>)
        requires
            old(self).wf(),
            agrees(within, record_entries_size(record_entries_view(old(s)@))),
        ensures
            final(self).wf(),
            (Run {
                st: final(self)@,
                node: record_entries_view(final(s)@),
                res: lit_res(r),
            }) == fields_run(
                within,
                old(self)@,
                env@,
                record_entries_view(old(s)@),
                0,
                Seq::empty(),
                TyV::Unit,
            ),
        decreases record_entries_size(record_entries_view(old(s)@)), 3nat, 0nat,
    {
        proof {
            reveal(fields_run);
        }
        let mut fields: Vec<(String, Ty)> = Vec::new();
        let mut tail = Ty::Unit;
        assert(fields_view(fields@) =~= Seq::empty());
        let ghost start = record_entries_view(s@);
        let ghost want = fields_run(within, self@, env@, record_entries_view(s@), 0, Seq::empty(), TyV::Unit);
        let mut i: usize = 0;
        proof {
            lemma_fields_whole(start);
        }
        while i < s.len()
            invariant
                agrees(within, record_entries_size(record_entries_view(old(s)@))),
                i <= s.len(),
                self.wf(),
                start == record_entries_view(old(s)@),
                record_entries_size(record_entries_view(s@).skip(i as int)) <= record_entries_size(start),
                want == fields_run(within, old(self)@, env@, start, 0, Seq::empty(), TyV::Unit),
                want == fields_run(within, self@, env@, record_entries_view(s@), i as nat, fields_view(fields@), tail@),
            decreases s.len() - i,
        {
            proof {
                reveal(fields_run);
            }
            let ghost now = record_entries_view(s@);
            proof {
                assert(now.len() == s@.len());
                assert(now[i as int] == record_entry_view(s@[i as int]));
                lemma_fields_rest(now, i as int);
            }
            let step = self.infer_record_entry(Ghost(within), env, &mut s[i], fields, tail);
            proof {
                assert(record_entries_view(s@) =~= now.update(i as int, record_entry_view(s@[i as int])));
            }
            match step {
                Err(e) => {
                    return Err(e);
                },
                Ok((more, rest)) => {
                    fields = more;
                    tail = rest;
                },
            }
            i = i + 1;
        }
        Ok((fields, tail))
    }

    pub fn infer_record_expr(
        &mut self,
        Ghost(within): Ghost<Within>,
        env: &TypeEnv,
        entries: &mut Vec<RecordEntry>,
    ) -> (r: Result<Ty, SpannedTypeError>)
        requires
            old(self).wf(),
            agrees(within, record_entries_size(record_entries_view(old(entries)@))),
        ensures
            final(self).wf(),
            (Run {
                st: final(self)@,
                node: record_entries_view(final(entries)@),
                res: ty_res(r),
            }) == record_run(
                within,
                old(self)@,
                env@,
                record_entries_view(old(entries)@),
            ),
        decreases record_entries_size(record_entries_view(old(entries)@)), 4nat, 0nat,
    {
        proof {
            reveal(record_run);
        }
        let (fields, tail) = match self.infer_record_entries(Ghost(within), env, entries) {
            Err(e) => {
                return Err(e);
            },
            Ok(t) => t,
        };
        Ok(record_of(fields, tail))
    }
}

} // verus!
