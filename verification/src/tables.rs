//! Tables keyed by names, by source positions and by the numbers of nodes.
//!
//! A table keyed by names or positions is a list of entries; it stands for the map in
//! which a later entry replaces an earlier one with the same key.

use std::collections::HashMap;

use vstd::prelude::*;

use crate::ast::{NodeId, SourceSpan};
use crate::text::{lemma_lex_asymmetric, lemma_lex_irreflexive, lemma_lex_total};
use crate::text::{lemma_lex_transitive, lex_less, str_eq, str_less, strings_view};

verus! {

/// A value that can be copied without changing what it stands for.
pub trait Dup: View + Sized {
    fn dup(&self) -> (r: Self)
        ensures
            r@ == self@,
    ;
}

impl Dup for String {
    fn dup(&self) -> (r: Self) {
        self.clone()
    }
}

impl Dup for usize {
    fn dup(&self) -> (r: Self) {
        *self
    }
}

impl Dup for u32 {
    fn dup(&self) -> (r: Self) {
        *self
    }
}

// ---------------------------------------------------------------------------
// Names in order
// ---------------------------------------------------------------------------

/// Whether names are listed in dictionary order, each once.
pub open spec fn names_ascend(s: Seq<Seq<char>>) -> bool {
    forall|i: int, j: int| #![trigger s[i], s[j]] 0 <= i < j < s.len() ==> lex_less(s[i], s[j])
}

/// Whether a list holds the names of a set in dictionary order.
pub open spec fn lists_names(s: Seq<Seq<char>>, names: Set<Seq<char>>) -> bool {
    &&& names_ascend(s)
    &&& forall|n: Seq<char>| #[trigger] s.contains(n) <==> names.contains(n)
}

/// The names of a set in dictionary order.
pub open spec fn sorted_names(names: Set<Seq<char>>) -> Seq<Seq<char>> {
    choose|s: Seq<Seq<char>>| lists_names(s, names)
}

/// Dictionary order leaves one way to list a set of names.
pub proof fn lemma_lists_names_unique(a: Seq<Seq<char>>, b: Seq<Seq<char>>, names: Set<Seq<char>>)
    requires
        lists_names(a, names),
        lists_names(b, names),
    ensures
        a == b,
    decreases a.len(),
{
    if a.len() == 0 {
        if b.len() > 0 {
            assert(b.contains(b[0]));
            assert(names.contains(b[0]));
            assert(a.contains(b[0]));
        }
        assert(a =~= b);
    } else {
        let x = a.last();
        assert(a.contains(x));
        assert(names.contains(x));
        assert(b.contains(x));
        let k = choose|k: int| 0 <= k < b.len() && b[k] == x;
        if k < b.len() - 1 {
            let y = b.last();
            assert(lex_less(b[k], y));
            assert(b.contains(y));
            assert(names.contains(y));
            assert(a.contains(y));
            let m = choose|m: int| 0 <= m < a.len() && a[m] == y;
            if m < a.len() - 1 {
                assert(lex_less(a[m], a[a.len() - 1]));
                lemma_lex_asymmetric(x, y);
            } else {
                lemma_lex_irreflexive(x);
            }
        }
        assert(b.last() == x);
        let rest = names.remove(x);
        assert forall|n: Seq<char>| #[trigger] a.drop_last().contains(n) <==> rest.contains(n) by {
            lemma_without_last(a, names, n);
        }
        assert forall|n: Seq<char>| #[trigger] b.drop_last().contains(n) <==> rest.contains(n) by {
            lemma_without_last(b, names, n);
        }
        lemma_lists_names_unique(a.drop_last(), b.drop_last(), rest);
        assert(a =~= a.drop_last().push(x));
        assert(b =~= b.drop_last().push(x));
    }
}

proof fn lemma_without_last(a: Seq<Seq<char>>, names: Set<Seq<char>>, n: Seq<char>)
    requires
        a.len() > 0,
        lists_names(a, names),
    ensures
        a.drop_last().contains(n) <==> names.remove(a.last()).contains(n),
{
    if a.drop_last().contains(n) {
        let i = choose|i: int| 0 <= i < a.drop_last().len() && a.drop_last()[i] == n;
        assert(a[i] == n);
        assert(a.contains(n));
        assert(lex_less(a[i], a[a.len() - 1]));
        lemma_lex_irreflexive(n);
    }
    if names.remove(a.last()).contains(n) {
        assert(names.contains(n));
        assert(a.contains(n));
        let i = choose|i: int| 0 <= i < a.len() && a[i] == n;
        assert(i < a.len() - 1);
        assert(a.drop_last()[i] == n);
    }
}

/// A list of the names of a set in order is what [`sorted_names`] stands for.
pub proof fn lemma_sorted_names(s: Seq<Seq<char>>, names: Set<Seq<char>>)
    requires
        lists_names(s, names),
    ensures
        sorted_names(names) == s,
{
    let c = sorted_names(names);
    assert(lists_names(c, names));
    lemma_lists_names_unique(c, s, names);
}

/// Adds a name to a sorted list, unless it is there already.
pub fn insert_name(names: &mut Vec<String>, name: String, Ghost(set): Ghost<Set<Seq<char>>>)
    requires
        lists_names(strings_view(old(names)@), set),
    ensures
        lists_names(strings_view(final(names)@), set.insert(name@)),
{
    let ghost before = strings_view(names@);
    let mut i: usize = 0;
    while i < names.len() && str_less(names[i].as_str(), name.as_str())
        invariant
            i <= names.len(),
            before == strings_view(names@),
            forall|j: int| 0 <= j < i ==> lex_less(#[trigger] before[j], name@),
        decreases names.len() - i,
    {
        assert(before[i as int] == names@[i as int]@);
        i = i + 1;
    }
    if i < names.len() && str_eq(names[i].as_str(), name.as_str()) {
        assert(before[i as int] == name@);
        assert forall|n: Seq<char>| #[trigger] before.contains(n) <==> set.insert(name@).contains(
            n,
        ) by {
            assert(before.contains(name@));
            assert(before.contains(n) <==> set.contains(n));
        }
        return;
    }
    let ghost key = name@;
    names.insert(i, name);
    proof {
        let after = strings_view(names@);
        assert(after =~= before.insert(i as int, key));
        assert forall|a: int, b: int|
            #![trigger after[a], after[b]]
            0 <= a < b < after.len() implies lex_less(after[a], after[b]) by {
            if i < before.len() {
                lemma_lex_total(before[i as int], key);
            }
            if a < i && b < i {
                assert(lex_less(before[a], before[b]));
            } else if b == i {
                assert(after[a] == before[a]);
            } else {
                let y = before[b - 1];
                assert(after[b] == y);
                assert(lex_less(key, before[i as int]));
                if b - 1 > i {
                    assert(lex_less(before[i as int], y));
                    lemma_lex_transitive(key, before[i as int], y);
                }
                if a < i {
                    assert(after[a] == before[a]);
                    lemma_lex_transitive(before[a], key, y);
                } else if a > i {
                    assert(after[a] == before[a - 1]);
                    assert(lex_less(before[a - 1], before[b - 1]));
                }
            }
        }
        assert forall|n: Seq<char>| #[trigger] after.contains(n) <==> set.insert(key).contains(
            n,
        ) by {
            assert(before.contains(n) <==> set.contains(n));
            if after.contains(n) {
                let k = choose|k: int| 0 <= k < after.len() && after[k] == n;
                if k < i {
                    assert(before[k] == n);
                } else if k > i {
                    assert(before[k - 1] == n);
                }
            }
            if before.contains(n) {
                let k = choose|k: int| 0 <= k < before.len() && before[k] == n;
                if k < i {
                    assert(after[k] == n);
                } else {
                    assert(after[k + 1] == n);
                }
            }
            assert(after[i as int] == key);
        }
    }
}

// ---------------------------------------------------------------------------
// Sets of names
// ---------------------------------------------------------------------------

/// A set of names.
#[derive(Debug)]
pub struct NameSet {
    names: Vec<String>,
}

impl View for NameSet {
    type V = Set<Seq<char>>;

    closed spec fn view(&self) -> Set<Seq<char>> {
        strings_view(self.names@).to_set()
    }
}

impl NameSet {
    pub fn new() -> (r: Self)
        ensures
            r@ == Set::<Seq<char>>::empty(),
    {
        let r = NameSet { names: Vec::new() };
        assert(r@ =~= Set::empty());
        r
    }

    pub fn contains(&self, name: &str) -> (r: bool)
        ensures
            r == self@.contains(name@),
    {
        crate::text::contains_string(&self.names, name)
    }

    /// Adds a name; whether it was new.
    pub fn insert(&mut self, name: String) -> (r: bool)
        ensures
            final(self)@ == old(self)@.insert(name@),
            r == !old(self)@.contains(name@),
    {
        if self.contains(name.as_str()) {
            assert(self@ =~= self@.insert(name@));
            return false;
        }
        let ghost before = strings_view(self.names@);
        let ghost key = name@;
        self.names.push(name);
        proof {
            let after = strings_view(self.names@);
            assert(after =~= before.push(key));
            assert forall|n: Seq<char>| after.contains(n) <==> before.to_set().insert(key).contains(
                n,
            ) by {
                if before.contains(n) {
                    let k = choose|k: int| 0 <= k < before.len() && before[k] == n;
                    assert(after[k] == n);
                }
                if after.contains(n) {
                    let k = choose|k: int| 0 <= k < after.len() && after[k] == n;
                    if k < before.len() {
                        assert(before[k] == n);
                    }
                }
                assert(after[before.len() as int] == key);
            }
            assert(after.to_set() =~= before.to_set().insert(key));
        }
        true
    }

    /// Takes a name out.
    pub fn remove(&mut self, name: &str)
        ensures
            final(self)@ == old(self)@.remove(name@),
    {
        let mut kept: Vec<String> = Vec::new();
        let ghost all = strings_view(self.names@);
        let mut i: usize = 0;
        while i < self.names.len()
            invariant
                i <= self.names.len(),
                all == strings_view(self.names@),
                forall|n: Seq<char>| #[trigger]
                    strings_view(kept@).contains(n) <==> n != name@ && all.take(
                        i as int,
                    ).contains(n),
            decreases self.names.len() - i,
        {
            let ghost before = strings_view(kept@);
            let ghost seen = all.take(i as int);
            let ghost item = self.names@[i as int]@;
            assert(all[i as int] == item);
            assert(all.take(i + 1) =~= seen.push(item));
            if !str_eq(self.names[i].as_str(), name) {
                kept.push(self.names[i].clone());
                assert(strings_view(kept@) =~= before.push(item));
            }
            assert forall|n: Seq<char>| #[trigger]
                strings_view(kept@).contains(n) <==> n != name@ && all.take(i + 1).contains(n) by {
                lemma_push_contains(seen, item, n);
                lemma_push_contains(before, item, n);
                assert(before.contains(n) <==> n != name@ && seen.contains(n));
            }
            i = i + 1;
        }
        assert(all.take(all.len() as int) =~= all);
        self.names = kept;
        assert forall|n: Seq<char>| self@.contains(n) <==> all.to_set().remove(name@).contains(
            n,
        ) by {
            assert(strings_view(kept@).contains(n) <==> n != name@ && all.contains(n));
        }
        assert(self@ =~= all.to_set().remove(name@));
    }

    /// The names in dictionary order.
    pub fn names(&self) -> (r: Vec<String>)
        ensures
            strings_view(r@) == sorted_names(self@),
            names_ascend(strings_view(r@)),
            forall|n: Seq<char>| #[trigger] strings_view(r@).contains(n) <==> self@.contains(n),
            r@.len() == strings_view(r@).len(),
    {
        let mut out: Vec<String> = Vec::new();
        let ghost all = strings_view(self.names@);
        assert(strings_view(out@) =~= Seq::empty());
        assert(all.take(0).to_set() =~= Set::empty());
        let mut i: usize = 0;
        while i < self.names.len()
            invariant
                i <= self.names.len(),
                all == strings_view(self.names@),
                lists_names(strings_view(out@), all.take(i as int).to_set()),
            decreases self.names.len() - i,
        {
            let ghost seen = all.take(i as int);
            let ghost item = self.names@[i as int]@;
            insert_name(&mut out, self.names[i].clone(), Ghost(seen.to_set()));
            proof {
                assert(all.take(i + 1) =~= seen.push(item));
                assert forall|n: Seq<char>| all.take(i + 1).to_set().contains(n)
                    <==> seen.to_set().insert(item).contains(n) by {
                    lemma_push_contains(seen, item, n);
                }
                assert(all.take(i + 1).to_set() =~= seen.to_set().insert(item));
            }
            i = i + 1;
        }
        assert(all.take(all.len() as int) =~= all);
        proof {
            lemma_sorted_names(strings_view(out@), self@);
        }
        out
    }

    pub fn is_empty(&self) -> (r: bool)
        ensures
            r == (self@ == Set::<Seq<char>>::empty()),
    {
        if self.names.len() == 0 {
            assert(self@ =~= Set::empty());
            true
        } else {
            assert(strings_view(self.names@).contains(self.names@[0]@)) by {
                assert(strings_view(self.names@)[0] == self.names@[0]@);
            }
            assert(self@.contains(self.names@[0]@));
            false
        }
    }

    /// Adds every name of another set.
    pub fn extend(&mut self, other: &NameSet)
        ensures
            final(self)@ == old(self)@.union(other@),
    {
        let ghost start = self@;
        let ghost all = strings_view(other.names@);
        let mut i: usize = 0;
        assert(all.take(0).to_set() =~= Set::empty());
        assert(start.union(Set::empty()) =~= start);
        while i < other.names.len()
            invariant
                i <= other.names.len(),
                all == strings_view(other.names@),
                self@ == start.union(all.take(i as int).to_set()),
            decreases other.names.len() - i,
        {
            let ghost seen = all.take(i as int);
            let ghost item = other.names@[i as int]@;
            self.insert(other.names[i].clone());
            proof {
                assert(all.take(i + 1) =~= seen.push(item));
                assert forall|n: Seq<char>| all.take(i + 1).to_set().contains(n)
                    <==> seen.to_set().insert(item).contains(n) by {
                    lemma_push_contains(seen, item, n);
                }
                assert(all.take(i + 1).to_set() =~= seen.to_set().insert(item));
                assert(self@ =~= start.union(all.take(i + 1).to_set()));
            }
            i = i + 1;
        }
        assert(all.take(all.len() as int) =~= all);
    }

    /// Whether two sets have a name in common.
    pub fn overlaps(&self, other: &NameSet) -> (r: bool)
        ensures
            r == !self@.disjoint(other@),
    {
        let ghost all = strings_view(self.names@);
        let mut i: usize = 0;
        while i < self.names.len()
            invariant
                i <= self.names.len(),
                all == strings_view(self.names@),
                forall|j: int| 0 <= j < i ==> !other@.contains(#[trigger] all[j]),
            decreases self.names.len() - i,
        {
            if other.contains(self.names[i].as_str()) {
                assert(all[i as int] == self.names@[i as int]@);
                assert(self@.contains(all[i as int]));
                return true;
            }
            assert(all[i as int] == self.names@[i as int]@);
            i = i + 1;
        }
        assert forall|n: Seq<char>| self@.contains(n) implies !other@.contains(n) by {
            let k = choose|k: int| 0 <= k < all.len() && all[k] == n;
            assert(!other@.contains(all[k]));
        }
        false
    }

    /// Takes out every name of another set.
    pub fn remove_all(&mut self, other: &NameSet)
        ensures
            final(self)@ == old(self)@.difference(other@),
    {
        let ghost start = self@;
        let ghost all = strings_view(other.names@);
        let mut i: usize = 0;
        assert(all.take(0).to_set() =~= Set::empty());
        assert(start.difference(Set::empty()) =~= start);
        while i < other.names.len()
            invariant
                i <= other.names.len(),
                all == strings_view(other.names@),
                self@ == start.difference(all.take(i as int).to_set()),
            decreases other.names.len() - i,
        {
            let ghost seen = all.take(i as int);
            let ghost item = other.names@[i as int]@;
            self.remove(other.names[i].as_str());
            proof {
                assert(all.take(i + 1) =~= seen.push(item));
                assert forall|n: Seq<char>| all.take(i + 1).to_set().contains(n)
                    <==> seen.to_set().insert(item).contains(n) by {
                    lemma_push_contains(seen, item, n);
                }
                assert(all.take(i + 1).to_set() =~= seen.to_set().insert(item));
                assert(self@ =~= start.difference(all.take(i + 1).to_set()));
            }
            i = i + 1;
        }
        assert(all.take(all.len() as int) =~= all);
    }
}

impl Clone for NameSet {
    fn clone(&self) -> (r: Self)
        ensures
            r@ == self@,
    {
        NameSet { names: crate::text::clone_strings(&self.names) }
    }
}

impl Dup for NameSet {
    fn dup(&self) -> (r: Self) {
        self.clone()
    }
}

pub proof fn lemma_push_contains<A>(s: Seq<A>, x: A, n: A)
    ensures
        s.push(x).contains(n) <==> s.contains(n) || n == x,
{
    let t = s.push(x);
    if s.contains(n) {
        let k = choose|k: int| 0 <= k < s.len() && s[k] == n;
        assert(t[k] == n);
    }
    if t.contains(n) {
        let k = choose|k: int| 0 <= k < t.len() && t[k] == n;
        if k < s.len() {
            assert(s[k] == n);
        }
    }
    assert(t[s.len() as int] == x);
}

// ---------------------------------------------------------------------------
// Entries
// ---------------------------------------------------------------------------

/// The map that a list of entries stands for.
pub open spec fn entries_map<K, V>(entries: Seq<(K, V)>) -> Map<K, V>
    decreases entries.len(),
{
    if entries.len() == 0 {
        Map::empty()
    } else {
        entries_map(entries.drop_last()).insert(entries.last().0, entries.last().1)
    }
}

/// The position `i` is the last with the key `k`.
pub open spec fn last_with<K, V>(entries: Seq<(K, V)>, k: K, i: int) -> bool {
    &&& 0 <= i < entries.len()
    &&& entries[i].0 == k
    &&& forall|j: int| i < j < entries.len() ==> (#[trigger] entries[j]).0 != k
}

pub proof fn lemma_entries_last<K, V>(entries: Seq<(K, V)>, k: K, i: int)
    requires
        last_with(entries, k, i),
    ensures
        entries_map(entries).dom().contains(k),
        entries_map(entries)[k] == entries[i].1,
    decreases entries.len(),
{
    if i < entries.len() - 1 {
        assert(entries[entries.len() - 1].0 != k);
        let rest = entries.drop_last();
        assert(last_with(rest, k, i)) by {
            assert forall|j: int| i < j < rest.len() implies (#[trigger] rest[j]).0 != k by {
                assert(entries[j].0 != k);
            }
        }
        lemma_entries_last(rest, k, i);
    }
}

pub proof fn lemma_entries_absent<K, V>(entries: Seq<(K, V)>, k: K)
    requires
        forall|j: int| 0 <= j < entries.len() ==> (#[trigger] entries[j]).0 != k,
    ensures
        !entries_map(entries).dom().contains(k),
    decreases entries.len(),
{
    if entries.len() > 0 {
        let rest = entries.drop_last();
        assert forall|j: int| 0 <= j < rest.len() implies (#[trigger] rest[j]).0 != k by {
            assert(entries[j].0 != k);
        }
        assert(entries[entries.len() - 1].0 != k);
        lemma_entries_absent(rest, k);
    }
}

pub proof fn lemma_entries_push<K, V>(entries: Seq<(K, V)>, k: K, v: V)
    ensures
        entries_map(entries.push((k, v))) == entries_map(entries).insert(k, v),
{
    assert(entries.push((k, v)).drop_last() =~= entries);
}

pub proof fn lemma_entries_update<K, V>(entries: Seq<(K, V)>, k: K, v: V, i: int)
    requires
        last_with(entries, k, i),
    ensures
        entries_map(entries.update(i, (k, v))) == entries_map(entries).insert(k, v),
    decreases entries.len(),
{
    let after = entries.update(i, (k, v));
    let rest = entries.drop_last();
    if i == entries.len() - 1 {
        assert(after.drop_last() =~= rest);
        assert(entries_map(after) =~= entries_map(entries).insert(k, v));
    } else {
        assert(last_with(rest, k, i)) by {
            assert forall|j: int| i < j < rest.len() implies (#[trigger] rest[j]).0 != k by {
                assert(entries[j].0 != k);
            }
        }
        lemma_entries_update(rest, k, v, i);
        assert(after.drop_last() =~= rest.update(i, (k, v)));
        assert(entries[entries.len() - 1].0 != k);
        assert(entries_map(after) =~= entries_map(entries).insert(k, v));
    }
}

// ---------------------------------------------------------------------------
// Tables keyed by names
// ---------------------------------------------------------------------------

/// A table of values under names.
#[derive(Debug)]
pub struct NameMap<T> {
    entries: Vec<(String, T)>,
}

/// The views of the entries of a table.
pub open spec fn named_view<T: View>(s: Seq<(String, T)>) -> Seq<(Seq<char>, T::V)> {
    Seq::new(s.len(), |i: int| (s[i].0@, s[i].1@))
}

impl<T: View> View for NameMap<T> {
    type V = Map<Seq<char>, T::V>;

    closed spec fn view(&self) -> Map<Seq<char>, T::V> {
        entries_map(named_view(self.entries@))
    }
}

impl<T: View> NameMap<T> {
    pub fn new() -> (r: Self)
        ensures
            r@ == Map::<Seq<char>, T::V>::empty(),
    {
        let r = NameMap { entries: Vec::new() };
        assert(named_view(r.entries@) =~= Seq::empty());
        r
    }

    fn position(&self, name: &str) -> (r: Option<usize>)
        ensures
            r matches Some(i) ==> i < self.entries@.len() && last_with(
                named_view(self.entries@),
                name@,
                i as int,
            ),
            r is None ==> !self@.dom().contains(name@),
            r is Some ==> self@.dom().contains(name@),
    {
        let ghost all = named_view(self.entries@);
        let mut i: usize = self.entries.len();
        while i > 0
            invariant
                i <= self.entries.len(),
                all == named_view(self.entries@),
                forall|j: int| i <= j < all.len() ==> (#[trigger] all[j]).0 != name@,
            decreases i,
        {
            i = i - 1;
            assert(all[i as int].0 == self.entries@[i as int].0@);
            if str_eq(self.entries[i].0.as_str(), name) {
                proof {
                    lemma_entries_last(all, name@, i as int);
                }
                return Some(i);
            }
        }
        proof {
            lemma_entries_absent(all, name@);
        }
        None
    }

    pub fn get(&self, name: &str) -> (r: Option<&T>)
        ensures
            r matches Some(v) ==> self@.dom().contains(name@) && v@ == self@[name@],
            r is None ==> !self@.dom().contains(name@),
    {
        match self.position(name) {
            Some(i) => {
                proof {
                    lemma_entries_last(named_view(self.entries@), name@, i as int);
                }
                Some(&self.entries[i].1)
            },
            None => None,
        }
    }

    pub fn contains_key(&self, name: &str) -> (r: bool)
        ensures
            r == self@.dom().contains(name@),
    {
        match self.position(name) {
            Some(_) => true,
            None => false,
        }
    }

    pub fn insert(&mut self, name: String, value: T)
        ensures
            final(self)@ == old(self)@.insert(name@, value@),
    {
        let ghost before = named_view(self.entries@);
        let ghost k = name@;
        let ghost v = value@;
        match self.position(name.as_str()) {
            Some(i) => {
                self.entries.set(i, (name, value));
                proof {
                    lemma_entries_update(before, k, v, i as int);
                    assert(named_view(self.entries@) =~= before.update(i as int, (k, v)));
                }
            },
            None => {
                self.entries.push((name, value));
                proof {
                    lemma_entries_push(before, k, v);
                    assert(named_view(self.entries@) =~= before.push((k, v)));
                }
            },
        }
    }

    /// The names in dictionary order.
    pub fn names(&self) -> (r: Vec<String>)
        ensures
            strings_view(r@) == sorted_names(self@.dom()),
            names_ascend(strings_view(r@)),
            forall|n: Seq<char>| #[trigger]
                strings_view(r@).contains(n) <==> self@.dom().contains(n),
            r@.len() == strings_view(r@).len(),
    {
        let mut out: Vec<String> = Vec::new();
        let ghost all = named_view(self.entries@);
        assert(strings_view(out@) =~= Seq::empty());
        assert(all.take(0) =~= Seq::empty());
        assert(entries_map(all.take(0)).dom() =~= Set::empty());
        let mut i: usize = 0;
        while i < self.entries.len()
            invariant
                i <= self.entries.len(),
                all == named_view(self.entries@),
                lists_names(strings_view(out@), entries_map(all.take(i as int)).dom()),
            decreases self.entries.len() - i,
        {
            let ghost seen = all.take(i as int);
            let ghost item = all[i as int];
            insert_name(&mut out, self.entries[i].0.clone(), Ghost(entries_map(seen).dom()));
            proof {
                assert(all.take(i + 1) =~= seen.push(item));
                lemma_entries_push(seen, item.0, item.1);
                assert(entries_map(all.take(i + 1)).dom() =~= entries_map(seen).dom().insert(
                    item.0,
                ));
            }
            i = i + 1;
        }
        assert(all.take(all.len() as int) =~= all);
        proof {
            lemma_sorted_names(strings_view(out@), self@.dom());
        }
        out
    }

    pub fn is_empty(&self) -> (r: bool)
        ensures
            r == (self@.dom() == Set::<Seq<char>>::empty()),
    {
        if self.entries.len() == 0 {
            assert(named_view(self.entries@) =~= Seq::empty());
            assert(self@.dom() =~= Set::empty());
            true
        } else {
            let i = self.entries.len() - 1;
            proof {
                let all = named_view(self.entries@);
                lemma_entries_last(all, all[i as int].0, i as int);
            }
            false
        }
    }
}

impl<T: Dup> NameMap<T> {
    /// Takes a name out.
    pub fn remove(&mut self, name: &str)
        ensures
            final(self)@ == old(self)@.remove(name@),
    {
        let ghost all = named_view(self.entries@);
        let mut kept: Vec<(String, T)> = Vec::new();
        let mut i: usize = 0;
        assert(named_view(kept@) =~= Seq::empty());
        assert(all.take(0) =~= Seq::empty());
        assert(entries_map(named_view(kept@)) =~= entries_map(all.take(0)).remove(name@));
        while i < self.entries.len()
            invariant
                i <= self.entries.len(),
                all == named_view(self.entries@),
                entries_map(named_view(kept@)) == entries_map(all.take(i as int)).remove(name@),
            decreases self.entries.len() - i,
        {
            let ghost before = named_view(kept@);
            let ghost item = all[i as int];
            proof {
                assert(all.take(i + 1) =~= all.take(i as int).push(item));
                lemma_entries_push(all.take(i as int), item.0, item.1);
            }
            if !str_eq(self.entries[i].0.as_str(), name) {
                kept.push((self.entries[i].0.clone(), self.entries[i].1.dup()));
                proof {
                    assert(named_view(kept@) =~= before.push(item));
                    lemma_entries_push(before, item.0, item.1);
                }
            }
            assert(entries_map(named_view(kept@)) =~= entries_map(all.take(i + 1)).remove(name@));
            i = i + 1;
        }
        assert(all.take(all.len() as int) =~= all);
        self.entries = kept;
    }
}

impl<T: Dup> Clone for NameMap<T> {
    fn clone(&self) -> (r: Self)
        ensures
            r@ == self@,
    {
        let mut entries: Vec<(String, T)> = Vec::new();
        let mut i: usize = 0;
        while i < self.entries.len()
            invariant
                i <= self.entries.len(),
                entries@.len() == i,
                forall|j: int|
                    0 <= j < i ==> (#[trigger] entries@[j]).0@ == self.entries@[j].0@
                        && entries@[j].1@ == self.entries@[j].1@,
            decreases self.entries.len() - i,
        {
            entries.push((self.entries[i].0.clone(), self.entries[i].1.dup()));
            i = i + 1;
        }
        assert(named_view(entries@) =~= named_view(self.entries@));
        NameMap { entries }
    }
}

impl<T: Dup> Dup for NameMap<T> {
    fn dup(&self) -> (r: Self) {
        self.clone()
    }
}

// ---------------------------------------------------------------------------
// Tables keyed by source positions
// ---------------------------------------------------------------------------

/// A table of values under source positions.
#[derive(Debug)]
pub struct SpanMap<T> {
    entries: Vec<(SourceSpan, T)>,
}

/// The views of the entries of a table.
pub open spec fn spanned_view<T: View>(s: Seq<(SourceSpan, T)>) -> Seq<(SourceSpan, T::V)> {
    Seq::new(s.len(), |i: int| (s[i].0, s[i].1@))
}

impl<T: View> View for SpanMap<T> {
    type V = Map<SourceSpan, T::V>;

    closed spec fn view(&self) -> Map<SourceSpan, T::V> {
        entries_map(spanned_view(self.entries@))
    }
}

impl<T: View> SpanMap<T> {
    pub fn new() -> (r: Self)
        ensures
            r@ == Map::<SourceSpan, T::V>::empty(),
    {
        let r = SpanMap { entries: Vec::new() };
        assert(spanned_view(r.entries@) =~= Seq::empty());
        r
    }

    fn position(&self, span: SourceSpan) -> (r: Option<usize>)
        ensures
            r matches Some(i) ==> i < self.entries@.len() && last_with(
                spanned_view(self.entries@),
                span,
                i as int,
            ),
            r is None ==> !self@.dom().contains(span),
            r is Some ==> self@.dom().contains(span),
    {
        let ghost all = spanned_view(self.entries@);
        let mut i: usize = self.entries.len();
        while i > 0
            invariant
                i <= self.entries.len(),
                all == spanned_view(self.entries@),
                forall|j: int| i <= j < all.len() ==> (#[trigger] all[j]).0 != span,
            decreases i,
        {
            i = i - 1;
            assert(all[i as int].0 == self.entries@[i as int].0);
            if self.entries[i].0 == span {
                proof {
                    lemma_entries_last(all, span, i as int);
                }
                return Some(i);
            }
        }
        proof {
            lemma_entries_absent(all, span);
        }
        None
    }

    pub fn get(&self, span: &SourceSpan) -> (r: Option<&T>)
        ensures
            r matches Some(v) ==> self@.dom().contains(*span) && v@ == self@[*span],
            r is None ==> !self@.dom().contains(*span),
    {
        match self.position(*span) {
            Some(i) => {
                proof {
                    lemma_entries_last(spanned_view(self.entries@), *span, i as int);
                }
                Some(&self.entries[i].1)
            },
            None => None,
        }
    }

    pub fn insert(&mut self, span: SourceSpan, value: T)
        ensures
            final(self)@ == old(self)@.insert(span, value@),
    {
        let ghost before = spanned_view(self.entries@);
        let ghost v = value@;
        match self.position(span) {
            Some(i) => {
                self.entries.set(i, (span, value));
                proof {
                    lemma_entries_update(before, span, v, i as int);
                    assert(spanned_view(self.entries@) =~= before.update(i as int, (span, v)));
                }
            },
            None => {
                self.entries.push((span, value));
                proof {
                    lemma_entries_push(before, span, v);
                    assert(spanned_view(self.entries@) =~= before.push((span, v)));
                }
            },
        }
    }

    /// The positions of the entries, the last of each key included.
    pub fn spans(&self) -> (r: Vec<SourceSpan>)
        ensures
            forall|k: SourceSpan| #[trigger] r@.contains(k) <==> self@.dom().contains(k),
    {
        let ghost all = spanned_view(self.entries@);
        let mut out: Vec<SourceSpan> = Vec::new();
        let mut i: usize = 0;
        assert(all.take(0) =~= Seq::empty());
        while i < self.entries.len()
            invariant
                i <= self.entries.len(),
                all == spanned_view(self.entries@),
                forall|k: SourceSpan| #[trigger]
                    out@.contains(k) <==> entries_map(all.take(i as int)).dom().contains(k),
            decreases self.entries.len() - i,
        {
            let ghost seen = all.take(i as int);
            let ghost item = all[i as int];
            let ghost before = out@;
            out.push(self.entries[i].0);
            proof {
                assert(all.take(i + 1) =~= seen.push(item));
                lemma_entries_push(seen, item.0, item.1);
                assert forall|k: SourceSpan| #[trigger]
                    out@.contains(k) <==> entries_map(all.take(i + 1)).dom().contains(k) by {
                    lemma_push_contains(before, item.0, k);
                    assert(before.contains(k) <==> entries_map(seen).dom().contains(k));
                }
            }
            i = i + 1;
        }
        assert(all.take(all.len() as int) =~= all);
        out
    }
}

impl<T: Dup> Clone for SpanMap<T> {
    fn clone(&self) -> (r: Self)
        ensures
            r@ == self@,
    {
        let mut entries: Vec<(SourceSpan, T)> = Vec::new();
        let mut i: usize = 0;
        while i < self.entries.len()
            invariant
                i <= self.entries.len(),
                entries@.len() == i,
                forall|j: int|
                    0 <= j < i ==> (#[trigger] entries@[j]).0 == self.entries@[j].0
                        && entries@[j].1@ == self.entries@[j].1@,
            decreases self.entries.len() - i,
        {
            entries.push((self.entries[i].0, self.entries[i].1.dup()));
            i = i + 1;
        }
        assert(spanned_view(entries@) =~= spanned_view(self.entries@));
        SpanMap { entries }
    }
}

impl<T: Dup> SpanMap<T> {
    /// Keeps the entries under `keys` alone.
    pub fn retain_keys(&mut self, keys: &Vec<SourceSpan>)
        ensures
            final(self)@ == old(self)@.restrict(keys@.to_set()),
    {
        let ghost all = spanned_view(self.entries@);
        let ghost wanted = keys@.to_set();
        let mut kept: Vec<(SourceSpan, T)> = Vec::new();
        let mut i: usize = 0;
        assert(spanned_view(kept@) =~= Seq::empty());
        assert(all.take(0) =~= Seq::empty());
        assert(entries_map(spanned_view(kept@)) =~= entries_map(all.take(0)).restrict(wanted));
        while i < self.entries.len()
            invariant
                i <= self.entries.len(),
                all == spanned_view(self.entries@),
                wanted == keys@.to_set(),
                entries_map(spanned_view(kept@)) == entries_map(all.take(i as int)).restrict(
                    wanted,
                ),
            decreases self.entries.len() - i,
        {
            let ghost before = spanned_view(kept@);
            let ghost item = all[i as int];
            proof {
                assert(all.take(i + 1) =~= all.take(i as int).push(item));
                lemma_entries_push(all.take(i as int), item.0, item.1);
            }
            if lists_span(keys, self.entries[i].0) {
                kept.push((self.entries[i].0, self.entries[i].1.dup()));
                proof {
                    assert(spanned_view(kept@) =~= before.push(item));
                    lemma_entries_push(before, item.0, item.1);
                }
            }
            assert(entries_map(spanned_view(kept@)) =~= entries_map(all.take(i + 1)).restrict(
                wanted,
            ));
            i = i + 1;
        }
        assert(all.take(all.len() as int) =~= all);
        self.entries = kept;
    }
}

fn lists_span(keys: &Vec<SourceSpan>, key: SourceSpan) -> (r: bool)
    ensures
        r == keys@.contains(key),
{
    let mut i: usize = 0;
    while i < keys.len()
        invariant
            i <= keys.len(),
            forall|j: int| 0 <= j < i ==> keys@[j] != key,
        decreases keys.len() - i,
    {
        if keys[i] == key {
            return true;
        }
        i = i + 1;
    }
    false
}

// ---------------------------------------------------------------------------
// Tables keyed by nodes
// ---------------------------------------------------------------------------

/// A table of values under the numbers of nodes.
#[derive(Debug)]
pub struct NodeMap<T> {
    entries: HashMap<NodeId, T>,
}

/// The views of the values of a table.
pub open spec fn viewed<T: View>(m: Map<NodeId, T>) -> Map<NodeId, T::V> {
    Map::new(|k: NodeId| m.dom().contains(k), |k: NodeId| m[k]@)
}

impl<T: View> View for NodeMap<T> {
    type V = Map<NodeId, T::V>;

    closed spec fn view(&self) -> Map<NodeId, T::V> {
        viewed(self.entries@)
    }
}

impl<T: View> NodeMap<T> {
    pub fn new() -> (r: Self)
        ensures
            r@ == Map::<NodeId, T::V>::empty(),
    {
        let r = NodeMap { entries: HashMap::new() };
        assert(r@ =~= Map::<NodeId, T::V>::empty());
        r
    }

    pub fn get(&self, node: &NodeId) -> (r: Option<&T>)
        ensures
            r matches Some(v) ==> self@.dom().contains(*node) && v@ == self@[*node],
            r is None ==> !self@.dom().contains(*node),
    {
        self.entries.get(node)
    }

    pub fn insert(&mut self, node: NodeId, value: T)
        ensures
            final(self)@ == old(self)@.insert(node, value@),
    {
        self.entries.insert(node, value);
        assert(self@ =~= old(self)@.insert(node, value@));
    }

    /// The nodes that have an entry, in no particular order.
    pub fn nodes(&self) -> (r: Vec<NodeId>)
        ensures
            forall|k: NodeId| #[trigger] r@.contains(k) <==> self@.dom().contains(k),
    {
        let mut r: Vec<NodeId> = Vec::new();
        let items = self.entries.keys();
        let ghost all = vstd::std_specs::iter::IteratorSpec::remaining(&items).unref();
        for k in iter: items
            invariant
                iter.seq().unref() == all,
                r@ == all.take(iter.index()),
        {
            r.push(*k);
            assert(r@ =~= all.take(iter.index() + 1));
        }
        assert(r@ =~= all);
        assert(all.to_set() == self.entries@.dom());
        assert forall|k: NodeId| #[trigger] r@.contains(k) <==> self@.dom().contains(k) by {
            assert(all.to_set().contains(k) <==> all.contains(k));
        }
        r
    }
}

impl<T: Dup> NodeMap<T> {
    fn copy_of(&self, keys: &Vec<NodeId>) -> (r: HashMap<NodeId, T>)
        ensures
            viewed(r@) == self@.restrict(keys@.to_set()),
    {
        let mut out: HashMap<NodeId, T> = HashMap::new();
        let mut i: usize = 0;
        while i < keys.len()
            invariant
                i <= keys.len(),
                forall|k: NodeId| #[trigger]
                    out@.dom().contains(k) <==> self@.dom().contains(k) && keys@.take(
                        i as int,
                    ).contains(k),
                forall|k: NodeId| #[trigger] out@.dom().contains(k) ==> out@[k]@ == self@[k],
            decreases keys.len() - i,
        {
            let key = keys[i];
            let ghost before = out@;
            assert(keys@.take(i + 1) =~= keys@.take(i as int).push(key));
            match self.entries.get(&key) {
                Some(value) => {
                    out.insert(key, value.dup());
                },
                None => {},
            }
            assert forall|k: NodeId| #[trigger]
                out@.dom().contains(k) <==> self@.dom().contains(k) && keys@.take(i + 1).contains(
                    k,
                ) by {
                lemma_push_contains(keys@.take(i as int), key, k);
                assert(before.dom().contains(k) <==> self@.dom().contains(k) && keys@.take(
                    i as int,
                ).contains(k));
            }
            i = i + 1;
        }
        assert(keys@.take(keys@.len() as int) =~= keys@);
        assert forall|k: NodeId| keys@.to_set().contains(k) <==> keys@.contains(k) by {}
        assert(viewed(out@) =~= self@.restrict(keys@.to_set()));
        out
    }

    /// Keeps the entries under `keys` alone.
    pub fn retain_keys(&mut self, keys: &Vec<NodeId>)
        ensures
            final(self)@ == old(self)@.restrict(keys@.to_set()),
    {
        self.entries = self.copy_of(keys);
    }
}

impl<T: Dup> Clone for NodeMap<T> {
    fn clone(&self) -> (r: Self)
        ensures
            r@ == self@,
    {
        let keys = self.nodes();
        let r = NodeMap { entries: self.copy_of(&keys) };
        assert(r@ =~= self@) by {
            assert forall|k: NodeId| self@.dom().contains(k) implies keys@.to_set().contains(k) by {
                assert(keys@.contains(k));
            }
        }
        r
    }
}

/// One step of a walk that changes a list element by element.
pub proof fn lemma_list_step<A>(now: Seq<A>, all: Seq<A>, done: Seq<A>, i: int, rest: Seq<A>)
    requires
        0 <= i < all.len(),
        now.len() == all.len(),
        done.len() == i,
        forall|j: int| 0 <= j < i ==> #[trigger] now[j] == done[j],
        forall|j: int| i < j < all.len() ==> #[trigger] now[j] == all[j],
    ensures
        now.take(i + 1) == done.push(now[i]),
        now == done + (seq![now[i]] + all.skip(i + 1)),
        done + (seq![now[i]] + rest) == done.push(now[i]) + rest,
{
    assert(now.take(i + 1) =~= done.push(now[i]));
    assert(now =~= done + (seq![now[i]] + all.skip(i + 1)));
    assert(done + (seq![now[i]] + rest) =~= done.push(now[i]) + rest);
}

} // verus!
