//! Record fields in name order.

use vstd::prelude::*;

use crate::text::{lemma_lex_asymmetric, lemma_lex_irreflexive, lemma_lex_total, lemma_lex_transitive};
use crate::text::{lex_leq, lex_less, str_less};
use crate::ty::{field_view, fields_view, Ty, TyV};

verus! {

/// A field of a record type: its name and its type.
pub type FieldV = (Seq<char>, TyV);

/// Puts `f` behind every field whose name does not come after its own.
pub open spec fn insert_field(s: Seq<FieldV>, f: FieldV) -> Seq<FieldV>
    decreases s.len(),
{
    if s.len() == 0 {
        seq![f]
    } else if lex_less(f.0, s.last().0) {
        insert_field(s.drop_last(), f).push(s.last())
    } else {
        s.push(f)
    }
}

/// The fields in name order; fields of one name keep their order.
pub open spec fn sort_fields(s: Seq<FieldV>) -> Seq<FieldV>
    decreases s.len(),
{
    if s.len() == 0 {
        s
    } else {
        insert_field(sort_fields(s.drop_last()), s.last())
    }
}

/// No field comes after a later one in name order.
pub open spec fn fields_sorted(s: Seq<FieldV>) -> bool {
    forall|i: int, j: int| 0 <= i < j < s.len() ==> lex_leq(#[trigger] s[i].0, #[trigger] s[j].0)
}

proof fn lemma_insert_at(s: Seq<FieldV>, f: FieldV, p: int)
    requires
        0 <= p <= s.len(),
        forall|j: int| p <= j < s.len() ==> lex_less(f.0, #[trigger] s[j].0),
        p > 0 ==> !lex_less(f.0, s[p - 1].0),
    ensures
        insert_field(s, f) == s.insert(p, f),
    decreases s.len(),
{
    if s.len() == 0 {
        assert(s.insert(p, f) =~= seq![f]);
    } else if lex_less(f.0, s.last().0) {
        assert(p < s.len());
        lemma_insert_at(s.drop_last(), f, p);
        assert(s.insert(p, f) =~= s.drop_last().insert(p, f).push(s.last()));
    } else {
        if p < s.len() {
            assert(lex_less(f.0, s[s.len() - 1].0));
        }
        assert(s.insert(p, f) =~= s.push(f));
    }
}

/// Inserting keeps every field and adds one.
pub proof fn lemma_insert_field_multiset(s: Seq<FieldV>, f: FieldV)
    ensures
        insert_field(s, f).to_multiset() == s.to_multiset().insert(f),
        insert_field(s, f).len() == s.len() + 1,
    decreases s.len(),
{
    broadcast use vstd::seq_lib::group_to_multiset_ensures;

    if s.len() == 0 {
        assert(seq![f] =~= s.push(f));
    } else if lex_less(f.0, s.last().0) {
        lemma_insert_field_multiset(s.drop_last(), f);
        assert(s =~= s.drop_last().push(s.last()));
        assert(insert_field(s, f).to_multiset() =~= s.to_multiset().insert(f));
    }
}

/// Sorting keeps every field.
pub proof fn lemma_sort_fields_multiset(s: Seq<FieldV>)
    ensures
        sort_fields(s).to_multiset() == s.to_multiset(),
        sort_fields(s).len() == s.len(),
    decreases s.len(),
{
    broadcast use vstd::seq_lib::group_to_multiset_ensures;

    if s.len() > 0 {
        lemma_sort_fields_multiset(s.drop_last());
        lemma_insert_field_multiset(sort_fields(s.drop_last()), s.last());
        assert(s =~= s.drop_last().push(s.last()));
    }
}

/// A sorted list holds what the list held.
pub proof fn lemma_sort_fields_contains(s: Seq<FieldV>, f: FieldV)
    ensures
        sort_fields(s).contains(f) <==> s.contains(f),
{
    broadcast use vstd::seq_lib::group_to_multiset_ensures;

    lemma_sort_fields_multiset(s);
    assert(s.to_multiset().count(f) == sort_fields(s).to_multiset().count(f));
}

proof fn lemma_insert_field_sorted(s: Seq<FieldV>, f: FieldV)
    requires
        fields_sorted(s),
    ensures
        fields_sorted(insert_field(s, f)),
        forall|g: FieldV| #[trigger] insert_field(s, f).contains(g) ==> s.contains(g) || g == f,
    decreases s.len(),
{
    broadcast use vstd::seq_lib::group_to_multiset_ensures;

    lemma_insert_field_multiset(s, f);
    assert forall|g: FieldV| #[trigger] insert_field(s, f).contains(g) implies s.contains(g) || g
        == f by {
        assert(insert_field(s, f).to_multiset().count(g) > 0);
        assert(s.to_multiset().insert(f).count(g) > 0);
        if g != f {
            assert(s.to_multiset().count(g) > 0);
        }
    }
    if s.len() == 0 {
    } else if lex_less(f.0, s.last().0) {
        let init = s.drop_last();
        lemma_insert_field_sorted(init, f);
        let r = insert_field(init, f);
        assert forall|i: int, j: int| 0 <= i < j < r.push(s.last()).len() implies lex_leq(
            #[trigger] r.push(s.last())[i].0,
            #[trigger] r.push(s.last())[j].0,
        ) by {
            if j == r.len() {
                assert(r.contains(r[i]));
                if r[i] == f {
                    lemma_lex_asymmetric(f.0, s.last().0);
                } else {
                    let k = choose|k: int| 0 <= k < init.len() && init[k] == r[i];
                    assert(lex_leq(s[k].0, s[s.len() - 1].0));
                }
            }
        }
    } else {
        assert forall|i: int, j: int| 0 <= i < j < s.push(f).len() implies lex_leq(
            #[trigger] s.push(f)[i].0,
            #[trigger] s.push(f)[j].0,
        ) by {
            if j == s.len() {
                let last = s[s.len() - 1];
                assert(!lex_less(f.0, last.0));
                if i < s.len() - 1 {
                    assert(lex_leq(s[i].0, last.0));
                    if lex_less(f.0, s[i].0) {
                        lemma_lex_total(s[i].0, last.0);
                        if s[i].0 != last.0 {
                            lemma_lex_transitive(f.0, s[i].0, last.0);
                        }
                    }
                }
            }
        }
    }
}

/// Sorting puts the fields in name order.
pub proof fn law_sort_fields_sorted(s: Seq<FieldV>)
    ensures
        fields_sorted(sort_fields(s)),
    decreases s.len(),
{
    if s.len() > 0 {
        law_sort_fields_sorted(s.drop_last());
        lemma_insert_field_sorted(sort_fields(s.drop_last()), s.last());
    }
}

/// Sorting leaves a sorted list as it is.
pub proof fn law_sort_fields_idempotent(s: Seq<FieldV>)
    requires
        fields_sorted(s),
    ensures
        sort_fields(s) == s,
    decreases s.len(),
{
    if s.len() > 0 {
        let init = s.drop_last();
        assert(fields_sorted(init)) by {
            assert forall|i: int, j: int| 0 <= i < j < init.len() implies lex_leq(
                #[trigger] init[i].0,
                #[trigger] init[j].0,
            ) by {
                assert(lex_leq(s[i].0, s[j].0));
            }
        }
        law_sort_fields_idempotent(init);
        assert(s =~= init.push(s.last()));
        if init.len() > 0 {
            assert(lex_leq(s[s.len() - 2].0, s[s.len() - 1].0));
        } else {
            assert(insert_field(init, s.last()) =~= s);
        }
    }
}

/// The fields of one name, in order.
pub open spec fn fields_named(s: Seq<FieldV>, name: Seq<char>) -> Seq<FieldV>
    decreases s.len(),
{
    if s.len() == 0 {
        s
    } else if s.last().0 == name {
        fields_named(s.drop_last(), name).push(s.last())
    } else {
        fields_named(s.drop_last(), name)
    }
}

proof fn lemma_insert_field_named(s: Seq<FieldV>, f: FieldV, name: Seq<char>)
    ensures
        fields_named(insert_field(s, f), name) == (if f.0 == name {
            fields_named(s, name).push(f)
        } else {
            fields_named(s, name)
        }),
    decreases s.len(),
{
    if s.len() == 0 {
        assert(seq![f].drop_last() =~= s);
    } else if lex_less(f.0, s.last().0) {
        lemma_insert_field_named(s.drop_last(), f, name);
        let r = insert_field(s.drop_last(), f);
        assert(r.push(s.last()).drop_last() =~= r);
        lemma_lex_irreflexive(f.0);
    } else {
        assert(s.push(f).drop_last() =~= s);
    }
}

/// Sorting keeps the order of the fields of each name.
pub proof fn law_sort_fields_stable(s: Seq<FieldV>, name: Seq<char>)
    ensures
        fields_named(sort_fields(s), name) == fields_named(s, name),
    decreases s.len(),
{
    if s.len() > 0 {
        law_sort_fields_stable(s.drop_last(), name);
        lemma_insert_field_named(sort_fields(s.drop_last()), s.last(), name);
    }
}

/// The fields of a name in two lists, one behind the other.
pub proof fn lemma_fields_named_concat(a: Seq<FieldV>, b: Seq<FieldV>, name: Seq<char>)
    ensures
        fields_named(a + b, name) == fields_named(a, name) + fields_named(b, name),
    decreases b.len(),
{
    if b.len() == 0 {
        assert(a + b =~= a);
        assert(fields_named(a, name) + fields_named(b, name) =~= fields_named(a, name));
    } else {
        lemma_fields_named_concat(a, b.drop_last(), name);
        assert((a + b).drop_last() =~= a + b.drop_last());
        assert((a + b).last() == b.last());
        assert(fields_named(a + b, name) =~= fields_named(a, name) + fields_named(b, name));
    }
}

proof fn lemma_fields_named_member(s: Seq<FieldV>, i: int)
    requires
        0 <= i < s.len(),
    ensures
        fields_named(s, s[i].0).len() > 0,
    decreases s.len(),
{
    if i < s.len() - 1 {
        lemma_fields_named_member(s.drop_last(), i);
    }
}

proof fn lemma_fields_named_witness(s: Seq<FieldV>, name: Seq<char>) -> (i: int)
    requires
        fields_named(s, name).len() > 0,
    ensures
        0 <= i < s.len(),
        s[i].0 == name,
    decreases s.len(),
{
    if s.last().0 == name {
        s.len() - 1
    } else {
        lemma_fields_named_witness(s.drop_last(), name)
    }
}

proof fn lemma_sorted_init(s: Seq<FieldV>)
    requires
        fields_sorted(s),
        s.len() > 0,
    ensures
        fields_sorted(s.drop_last()),
{
    let d = s.drop_last();
    assert forall|i: int, j: int| 0 <= i < j < d.len() implies lex_leq(
        #[trigger] d[i].0,
        #[trigger] d[j].0,
    ) by {
        assert(lex_leq(s[i].0, s[j].0));
    }
}

/// Two sorted lists that agree on the fields of every name are the same.
proof fn lemma_sorted_unique(x: Seq<FieldV>, y: Seq<FieldV>)
    requires
        fields_sorted(x),
        fields_sorted(y),
        forall|n: Seq<char>| #[trigger] fields_named(x, n) == fields_named(y, n),
    ensures
        x == y,
    decreases x.len(),
{
    if x.len() == 0 {
        if y.len() > 0 {
            lemma_fields_named_member(y, y.len() - 1);
            assert(fields_named(x, y.last().0) == fields_named(y, y.last().0));
        }
        assert(x =~= y);
    } else {
        lemma_fields_named_member(x, x.len() - 1);
        let nx = x.last().0;
        assert(fields_named(x, nx) == fields_named(y, nx));
        let j = lemma_fields_named_witness(y, nx);
        lemma_fields_named_member(y, y.len() - 1);
        let ny = y.last().0;
        assert(fields_named(x, ny) == fields_named(y, ny));
        let i = lemma_fields_named_witness(x, ny);
        // nx <= ny in y, and ny <= nx in x
        if j < y.len() - 1 {
            assert(lex_leq(y[j].0, y[y.len() - 1].0));
        } else {
            lemma_lex_irreflexive(nx);
        }
        if i < x.len() - 1 {
            assert(lex_leq(x[i].0, x[x.len() - 1].0));
        } else {
            lemma_lex_irreflexive(ny);
        }
        lemma_lex_total(nx, ny);
        assert(nx == ny);
        assert(x.last() == fields_named(x, nx).last());
        assert(y.last() == fields_named(y, nx).last());
        let dx = x.drop_last();
        let dy = y.drop_last();
        lemma_sorted_init(x);
        lemma_sorted_init(y);
        assert forall|n: Seq<char>| #[trigger] fields_named(dx, n) == fields_named(dy, n) by {
            assert(fields_named(x, n) == fields_named(y, n));
            if n == nx {
                assert(fields_named(dx, n) =~= fields_named(x, n).drop_last());
                assert(fields_named(dy, n) =~= fields_named(y, n).drop_last());
            }
        }
        lemma_sorted_unique(dx, dy);
        assert(x =~= dx.push(x.last()));
        assert(y =~= dy.push(y.last()));
    }
}

/// It makes no difference whether the front part is sorted beforehand.
pub proof fn lemma_sort_front(a: Seq<FieldV>, b: Seq<FieldV>)
    ensures
        sort_fields(sort_fields(a) + b) == sort_fields(a + b),
{
    let x = sort_fields(sort_fields(a) + b);
    let y = sort_fields(a + b);
    law_sort_fields_sorted(sort_fields(a) + b);
    law_sort_fields_sorted(a + b);
    assert forall|n: Seq<char>| #[trigger] fields_named(x, n) == fields_named(y, n) by {
        law_sort_fields_stable(sort_fields(a) + b, n);
        law_sort_fields_stable(a + b, n);
        law_sort_fields_stable(a, n);
        lemma_fields_named_concat(sort_fields(a), b, n);
        lemma_fields_named_concat(a, b, n);
    }
    lemma_sorted_unique(x, y);
}

/// It makes no difference whether the back part is sorted beforehand.
pub proof fn lemma_sort_back(a: Seq<FieldV>, b: Seq<FieldV>)
    ensures
        sort_fields(a + sort_fields(b)) == sort_fields(a + b),
{
    let x = sort_fields(a + sort_fields(b));
    let y = sort_fields(a + b);
    law_sort_fields_sorted(a + sort_fields(b));
    law_sort_fields_sorted(a + b);
    assert forall|n: Seq<char>| #[trigger] fields_named(x, n) == fields_named(y, n) by {
        law_sort_fields_stable(a + sort_fields(b), n);
        law_sort_fields_stable(a + b, n);
        law_sort_fields_stable(b, n);
        lemma_fields_named_concat(a, sort_fields(b), n);
        lemma_fields_named_concat(a, b, n);
    }
    lemma_sorted_unique(x, y);
}

/// No two fields have the same name.
pub open spec fn distinct_names(s: Seq<FieldV>) -> bool {
    forall|n: Seq<char>| (#[trigger] fields_named(s, n)).len() <= 1
}

/// The fields of a name are those fields that have it.
pub proof fn lemma_fields_named_contains(s: Seq<FieldV>, name: Seq<char>, f: FieldV)
    ensures
        fields_named(s, name).contains(f) <==> s.contains(f) && f.0 == name,
    decreases s.len(),
{
    if s.len() > 0 {
        let d = s.drop_last();
        lemma_fields_named_contains(d, name, f);
        let r = fields_named(d, name);
        if s.contains(f) {
            let k = choose|k: int| 0 <= k < s.len() && s[k] == f;
            if k < d.len() {
                assert(d[k] == f);
            }
        }
        if d.contains(f) {
            let k = choose|k: int| 0 <= k < d.len() && d[k] == f;
            assert(s[k] == f);
        }
        assert(s[s.len() - 1] == s.last());
        if s.last().0 == name {
            let all = r.push(s.last());
            if all.contains(f) {
                let k = choose|k: int| 0 <= k < all.len() && all[k] == f;
                if k < r.len() {
                    assert(r[k] == f);
                }
            }
            if r.contains(f) {
                let k = choose|k: int| 0 <= k < r.len() && r[k] == f;
                assert(all[k] == f);
            }
            assert(all[r.len() as int] == s.last());
        }
    }
}

/// Two lists with the same fields sort alike, if no name repeats.
pub proof fn lemma_sort_same_fields(a: Seq<FieldV>, b: Seq<FieldV>)
    requires
        distinct_names(a),
        distinct_names(b),
        forall|f: FieldV| #[trigger] a.contains(f) <==> b.contains(f),
    ensures
        sort_fields(a) == sort_fields(b),
{
    let x = sort_fields(a);
    let y = sort_fields(b);
    law_sort_fields_sorted(a);
    law_sort_fields_sorted(b);
    assert forall|n: Seq<char>| #[trigger] fields_named(x, n) == fields_named(y, n) by {
        law_sort_fields_stable(a, n);
        law_sort_fields_stable(b, n);
        let na = fields_named(a, n);
        let nb = fields_named(b, n);
        assert(na.len() <= 1 && nb.len() <= 1);
        if na.len() == 1 {
            lemma_fields_named_contains(a, n, na[0]);
            assert(na.contains(na[0]));
            assert(a.contains(na[0]));
            lemma_fields_named_contains(b, n, na[0]);
        }
        if nb.len() == 1 {
            lemma_fields_named_contains(b, n, nb[0]);
            assert(nb.contains(nb[0]));
            assert(a.contains(nb[0]));
            lemma_fields_named_contains(a, n, nb[0]);
        }
        assert(na =~= nb);
    }
    lemma_sorted_unique(x, y);
}

/// Sorts the fields of a record by name; fields of one name keep their order.
pub fn sort_record_fields(fields: Vec<(String, Ty)>) -> (r: Vec<(String, Ty)>)
    ensures
        fields_view(r@) == sort_fields(fields_view(fields@)),
        r@.len() == fields@.len(),
{
    let mut rest = fields;
    let mut out: Vec<(String, Ty)> = Vec::new();
    let ghost all = fields_view(fields@);
    let ghost mut done: int = 0;
    assert(all.take(0) =~= Seq::<FieldV>::empty());
    assert(fields_view(out@) =~= Seq::<FieldV>::empty());
    assert(fields@.skip(0) =~= fields@);
    while rest.len() > 0
        invariant
            0 <= done <= fields@.len(),
            rest@ == fields@.skip(done),
            all == fields_view(fields@),
            out@.len() == done,
            fields_view(out@) == sort_fields(all.take(done)),
        decreases rest.len(),
    {
        let f = rest.remove(0);
        let ghost fv = field_view(f);
        let ghost sorted = fields_view(out@);
        assert(f == fields@[done]);
        let mut p: usize = out.len();
        let mut moving: bool = p > 0;
        while moving
            invariant
                p <= out.len(),
                moving ==> p > 0,
                !moving ==> (p > 0 ==> !lex_less(f.0@, out@[p - 1].0@)),
                forall|j: int| p <= j < out.len() ==> lex_less(f.0@, #[trigger] out@[j].0@),
            decreases p, (if moving { 1int } else { 0int }),
        {
            if str_less(f.0.as_str(), out[p - 1].0.as_str()) {
                p = p - 1;
                moving = p > 0;
            } else {
                moving = false;
            }
        }
        proof {
            assert forall|j: int| p <= j < sorted.len() implies lex_less(
                fv.0,
                #[trigger] sorted[j].0,
            ) by {
                assert(lex_less(f.0@, out@[j].0@));
            }
            if p > 0 {
                assert(sorted[p - 1].0 == out@[p - 1].0@);
            }
            lemma_insert_at(sorted, fv, p as int);
            assert(all.take(done + 1).drop_last() =~= all.take(done));
            assert(all.take(done + 1).last() == fv);
        }
        let ghost before = out@;
        out.insert(p, f);
        proof {
            assert(fields_view(out@) =~= sorted.insert(p as int, fv));
            assert(rest@ =~= fields@.skip(done + 1));
            done = done + 1;
        }
    }
    assert(all.take(done) =~= all);
    out
}

} // verus!
