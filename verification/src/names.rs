//! Maps keyed by names (variable names, command names).
//!
//! Entries are kept in strictly increasing key order, compared as `str`
//! compares (by code point), so each key occurs once and walking the
//! entries gives the keys sorted.

use vstd::prelude::*;
use crate::text::{chars_of, views};

verus! {

/// `a < b` in the order of `str`: lexicographic by code point, a proper
/// prefix first.
pub open spec fn lex_lt(a: Seq<char>, b: Seq<char>) -> bool
    decreases a.len(),
{
    if a.len() == 0 {
        b.len() > 0
    } else if b.len() == 0 {
        false
    } else if a[0] != b[0] {
        a[0] < b[0]
    } else {
        lex_lt(a.drop_first(), b.drop_first())
    }
}

/// Nothing is below itself.
pub proof fn lemma_lex_irrefl(a: Seq<char>)
    ensures
        !lex_lt(a, a),
    decreases a.len(),
{
    if a.len() > 0 {
        lemma_lex_irrefl(a.drop_first());
    }
}

/// The order is transitive.
pub proof fn lemma_lex_trans(a: Seq<char>, b: Seq<char>, c: Seq<char>)
    requires
        lex_lt(a, b),
        lex_lt(b, c),
    ensures
        lex_lt(a, c),
    decreases a.len(),
{
    if a.len() > 0 && b.len() > 0 && c.len() > 0 && a[0] == b[0] && b[0] == c[0] {
        lemma_lex_trans(a.drop_first(), b.drop_first(), c.drop_first());
    }
}

/// Distinct sequences are ordered one way or the other, never both.
pub proof fn lemma_lex_total(a: Seq<char>, b: Seq<char>)
    ensures
        a != b ==> (lex_lt(a, b) || lex_lt(b, a)),
        !(lex_lt(a, b) && lex_lt(b, a)),
    decreases a.len(),
{
    if a.len() > 0 && b.len() > 0 && a[0] == b[0] {
        lemma_lex_total(a.drop_first(), b.drop_first());
        if a.drop_first() == b.drop_first() {
            assert(a =~= seq![a[0]] + a.drop_first());
            assert(b =~= seq![b[0]] + b.drop_first());
        }
    } else if a.len() == 0 && b.len() == 0 {
        assert(a =~= b);
    }
}

/// Keys strictly increasing (hence pairwise distinct).
pub open spec fn strictly_sorted<V>(s: Seq<(Seq<char>, V)>) -> bool {
    forall|i: int, j: int| 0 <= i < j < s.len() ==> lex_lt(#[trigger] s[i].0, #[trigger] s[j].0)
}

/// The value of the first entry with key `k`.
pub open spec fn lookup<V>(s: Seq<(Seq<char>, V)>, k: Seq<char>) -> Option<V>
    decreases s.len(),
{
    if s.len() == 0 {
        None
    } else if s[0].0 == k {
        Some(s[0].1)
    } else {
        lookup(s.drop_first(), k)
    }
}

/// `s` with `k` bound to `v`: an entry with key `k` met before any larger
/// key is replaced, else the new entry goes before the first larger key.
pub open spec fn put<V>(s: Seq<(Seq<char>, V)>, k: Seq<char>, v: V) -> Seq<(Seq<char>, V)>
    decreases s.len(),
{
    if s.len() == 0 {
        seq![(k, v)]
    } else if s[0].0 == k {
        seq![(k, v)] + s.drop_first()
    } else if lex_lt(k, s[0].0) {
        seq![(k, v)] + s
    } else {
        seq![s[0]] + put(s.drop_first(), k, v)
    }
}

/// `s` without the entries whose key is `k`.
pub open spec fn without<V>(s: Seq<(Seq<char>, V)>, k: Seq<char>) -> Seq<(Seq<char>, V)>
    decreases s.len(),
{
    if s.len() == 0 {
        s
    } else if s[0].0 == k {
        without(s.drop_first(), k)
    } else {
        seq![s[0]] + without(s.drop_first(), k)
    }
}

/// The keys of the entries, in order.
pub open spec fn keys_of<V>(s: Seq<(Seq<char>, V)>) -> Seq<Seq<char>> {
    s.map_values(|e: (Seq<char>, V)| e.0)
}

/// Reading a key right after binding it gives the bound value.
pub proof fn law_lookup_put_same<V>(s: Seq<(Seq<char>, V)>, k: Seq<char>, v: V)
    ensures
        lookup(put(s, k, v), k) == Some(v),
    decreases s.len(),
{
    if s.len() > 0 && s[0].0 != k && !lex_lt(k, s[0].0) {
        law_lookup_put_same(s.drop_first(), k, v);
        assert((seq![s[0]] + put(s.drop_first(), k, v)).drop_first() == put(s.drop_first(), k, v));
    }
}

/// Binding a key leaves every other key's value as it was.
pub proof fn law_lookup_put_other<V>(s: Seq<(Seq<char>, V)>, k: Seq<char>, v: V, j: Seq<char>)
    requires
        j != k,
    ensures
        lookup(put(s, k, v), j) == lookup(s, j),
    decreases s.len(),
{
    if s.len() == 0 {
        let r = seq![(k, v)];
        assert(r.drop_first() =~= Seq::<(Seq<char>, V)>::empty());
        assert(lookup(r, j) == lookup(r.drop_first(), j));
    } else if s[0].0 == k {
        let r = seq![(k, v)] + s.drop_first();
        assert(r[0] == (k, v));
        assert(r.drop_first() == s.drop_first());
        assert(lookup(r, j) == lookup(r.drop_first(), j));
    } else if lex_lt(k, s[0].0) {
        let r = seq![(k, v)] + s;
        assert(r[0] == (k, v));
        assert(r.drop_first() == s);
        assert(lookup(r, j) == lookup(r.drop_first(), j));
    } else {
        law_lookup_put_other(s.drop_first(), k, v, j);
        let r = seq![s[0]] + put(s.drop_first(), k, v);
        assert(r[0] == s[0]);
        assert(r.drop_first() == put(s.drop_first(), k, v));
    }
}

/// A removed key is no longer found.
pub proof fn law_lookup_without_same<V>(s: Seq<(Seq<char>, V)>, k: Seq<char>)
    ensures
        lookup(without(s, k), k) is None,
    decreases s.len(),
{
    if s.len() > 0 {
        law_lookup_without_same(s.drop_first(), k);
        if s[0].0 != k {
            assert((seq![s[0]] + without(s.drop_first(), k)).drop_first() == without(s.drop_first(), k));
        }
    }
}

/// Removing a key leaves every other key's value as it was.
pub proof fn law_lookup_without_other<V>(s: Seq<(Seq<char>, V)>, k: Seq<char>, j: Seq<char>)
    requires
        j != k,
    ensures
        lookup(without(s, k), j) == lookup(s, j),
    decreases s.len(),
{
    if s.len() > 0 {
        law_lookup_without_other(s.drop_first(), k, j);
        if s[0].0 != k {
            assert((seq![s[0]] + without(s.drop_first(), k)).drop_first() == without(s.drop_first(), k));
        }
    }
}

/// Every key of `put(s, k, v)` is `k` or a key of `s`.
proof fn lemma_put_keys<V>(s: Seq<(Seq<char>, V)>, k: Seq<char>, v: V)
    ensures
        forall|i: int| 0 <= i < put(s, k, v).len() ==>
            (#[trigger] put(s, k, v)[i]).0 == k || exists|j: int| 0 <= j < s.len() && s[j].0 == put(s, k, v)[i].0,
        put(s, k, v).len() >= 1,
        put(s, k, v)[0].0 == k || (s.len() > 0 && put(s, k, v)[0].0 == s[0].0),
    decreases s.len(),
{
    if s.len() > 0 && s[0].0 != k && !lex_lt(k, s[0].0) {
        lemma_put_keys(s.drop_first(), k, v);
        let r = put(s, k, v);
        let t = put(s.drop_first(), k, v);
        assert forall|i: int| 0 <= i < r.len() implies
            (#[trigger] r[i]).0 == k || exists|j: int| 0 <= j < s.len() && s[j].0 == r[i].0 by {
            if i == 0 {
                assert(s[0].0 == r[0].0);
            } else {
                assert(r[i] == t[i - 1]);
                if t[i - 1].0 != k {
                    let j0 = choose|j: int| 0 <= j < s.drop_first().len() && s.drop_first()[j].0 == t[i - 1].0;
                    assert(s[j0 + 1].0 == r[i].0);
                }
            }
        }
    } else if s.len() > 0 {
        let r = put(s, k, v);
        assert forall|i: int| 0 <= i < r.len() implies
            (#[trigger] r[i]).0 == k || exists|j: int| 0 <= j < s.len() && s[j].0 == r[i].0 by {
            if i > 0 {
                if s[0].0 == k {
                    assert(s[i].0 == r[i].0);
                } else {
                    assert(s[i - 1].0 == r[i].0);
                }
            }
        }
    }
}

/// Binding a key keeps the keys strictly sorted.
pub proof fn law_put_sorted<V>(s: Seq<(Seq<char>, V)>, k: Seq<char>, v: V)
    requires
        strictly_sorted(s),
    ensures
        strictly_sorted(put(s, k, v)),
    decreases s.len(),
{
    if s.len() == 0 {
    } else if s[0].0 == k {
        let r = put(s, k, v);
        assert forall|i: int, j: int| 0 <= i < j < r.len() implies lex_lt(#[trigger] r[i].0, #[trigger] r[j].0) by {
            assert(r[j].0 == s[j].0);
            assert(r[i].0 == s[i].0);
        }
    } else if lex_lt(k, s[0].0) {
        let r = put(s, k, v);
        assert forall|i: int, j: int| 0 <= i < j < r.len() implies lex_lt(#[trigger] r[i].0, #[trigger] r[j].0) by {
            assert(r[j].0 == s[j - 1].0);
            if i == 0 {
                if j > 1 {
                    assert(lex_lt(s[0].0, s[j - 1].0));
                    lemma_lex_trans(k, s[0].0, s[j - 1].0);
                }
            } else {
                assert(r[i].0 == s[i - 1].0);
            }
        }
    } else {
        lemma_lex_total(k, s[0].0);
        let t = s.drop_first();
        assert(strictly_sorted(t)) by {
            assert forall|i: int, j: int| 0 <= i < j < t.len() implies lex_lt(#[trigger] t[i].0, #[trigger] t[j].0) by {
                assert(t[i] == s[i + 1] && t[j] == s[j + 1]);
            }
        }
        law_put_sorted(t, k, v);
        lemma_put_keys(t, k, v);
        let r = put(s, k, v);
        let pt = put(t, k, v);
        assert forall|i: int, j: int| 0 <= i < j < r.len() implies lex_lt(#[trigger] r[i].0, #[trigger] r[j].0) by {
            assert(r[j] == pt[j - 1]);
            if i == 0 {
                assert(r[0] == s[0]);
                if pt[j - 1].0 == k {
                } else {
                    let m = choose|m: int| 0 <= m < t.len() && t[m].0 == pt[j - 1].0;
                    assert(t[m] == s[m + 1]);
                }
            } else {
                assert(r[i] == pt[i - 1]);
            }
        }
    }
}

/// Removing a key keeps the keys strictly sorted.
pub proof fn law_without_sorted<V>(s: Seq<(Seq<char>, V)>, k: Seq<char>)
    requires
        strictly_sorted(s),
    ensures
        strictly_sorted(without(s, k)),
        without(s, k).len() <= s.len(),
        forall|i: int| 0 <= i < without(s, k).len() ==>
            exists|j: int| 0 <= j < s.len() && s[j] == #[trigger] without(s, k)[i],
    decreases s.len(),
{
    if s.len() > 0 {
        let t = s.drop_first();
        assert(strictly_sorted(t)) by {
            assert forall|i: int, j: int| 0 <= i < j < t.len() implies lex_lt(#[trigger] t[i].0, #[trigger] t[j].0) by {
                assert(t[i] == s[i + 1] && t[j] == s[j + 1]);
            }
        }
        law_without_sorted(t, k);
        let w = without(t, k);
        let r = without(s, k);
        if s[0].0 != k {
            assert forall|i: int| 0 <= i < r.len() implies
                exists|j: int| 0 <= j < s.len() && s[j] == #[trigger] r[i] by {
                if i == 0 {
                    assert(s[0] == r[0]);
                } else {
                    assert(r[i] == w[i - 1]);
                    let m = choose|m: int| 0 <= m < t.len() && t[m] == w[i - 1];
                    assert(s[m + 1] == r[i]);
                }
            }
            assert forall|i: int, j: int| 0 <= i < j < r.len() implies lex_lt(#[trigger] r[i].0, #[trigger] r[j].0) by {
                assert(r[j] == w[j - 1]);
                if i == 0 {
                    let m = choose|m: int| 0 <= m < t.len() && t[m] == w[j - 1];
                    assert(t[m] == s[m + 1]);
                } else {
                    assert(r[i] == w[i - 1]);
                }
            }
        } else {
            assert forall|i: int| 0 <= i < r.len() implies
                exists|j: int| 0 <= j < s.len() && s[j] == #[trigger] r[i] by {
                let m = choose|m: int| 0 <= m < t.len() && t[m] == w[i];
                assert(s[m + 1] == r[i]);
            }
        }
    }
}

/// `put` in terms of the position `p` of the first key not below `k`.
proof fn lemma_put_at<V>(s: Seq<(Seq<char>, V)>, k: Seq<char>, v: V, p: int)
    requires
        0 <= p <= s.len(),
        forall|i: int| 0 <= i < p ==> lex_lt(#[trigger] s[i].0, k),
        p < s.len() ==> !lex_lt(s[p].0, k),
    ensures
        put(s, k, v) == (if p < s.len() && s[p].0 == k {
            s.take(p) + seq![(k, v)] + s.skip(p + 1)
        } else {
            s.take(p) + seq![(k, v)] + s.skip(p)
        }),
    decreases p,
{
    if p == 0 {
        if s.len() > 0 {
            lemma_lex_total(k, s[0].0);
            assert(s.take(0) + seq![(k, v)] + s.skip(1) =~= seq![(k, v)] + s.drop_first());
            assert(s.take(0) + seq![(k, v)] + s.skip(0) =~= seq![(k, v)] + s);
        } else {
            assert(s.take(0) + seq![(k, v)] + s.skip(0) =~= seq![(k, v)]);
        }
    } else {
        lemma_lex_irrefl(k);
        lemma_lex_total(k, s[0].0);
        assert(s[0].0 != k);
        let t = s.drop_first();
        assert forall|i: int| 0 <= i < p - 1 implies lex_lt(#[trigger] t[i].0, k) by {
            assert(t[i] == s[i + 1]);
        }
        lemma_put_at(t, k, v, p - 1);
        if p < s.len() && s[p].0 == k {
            assert(seq![s[0]] + (t.take(p - 1) + seq![(k, v)] + t.skip(p)) =~= s.take(p) + seq![(k, v)] + s.skip(p + 1));
        } else {
            assert(seq![s[0]] + (t.take(p - 1) + seq![(k, v)] + t.skip(p - 1)) =~= s.take(p) + seq![(k, v)] + s.skip(p));
        }
    }
}

/// In strictly sorted entries, removing key `k` found at `p` drops just
/// that entry.
proof fn lemma_without_at<V>(s: Seq<(Seq<char>, V)>, k: Seq<char>, p: int)
    requires
        strictly_sorted(s),
        0 <= p < s.len(),
        s[p].0 == k,
    ensures
        without(s, k) == s.take(p) + s.skip(p + 1),
    decreases p,
{
    let t = s.drop_first();
    assert(strictly_sorted(t)) by {
        assert forall|i: int, j: int| 0 <= i < j < t.len() implies lex_lt(#[trigger] t[i].0, #[trigger] t[j].0) by {
            assert(t[i] == s[i + 1] && t[j] == s[j + 1]);
        }
    }
    if p == 0 {
        lemma_without_absent(t, k);
        assert(s.take(0) + s.skip(1) =~= t);
    } else {
        assert(lex_lt(s[0].0, s[p].0));
        lemma_lex_irrefl(k);
        lemma_without_at(t, k, p - 1);
        assert(seq![s[0]] + (t.take(p - 1) + t.skip(p)) =~= s.take(p) + s.skip(p + 1));
    }
}

/// Removing a key that every entry is below... or above leaves sorted
/// entries that start above it unchanged.
proof fn lemma_without_absent<V>(s: Seq<(Seq<char>, V)>, k: Seq<char>)
    requires
        strictly_sorted(s),
        s.len() > 0 ==> lex_lt(k, s[0].0),
    ensures
        without(s, k) == s,
    decreases s.len(),
{
    if s.len() > 0 {
        lemma_lex_total(k, s[0].0);
        let t = s.drop_first();
        assert(strictly_sorted(t)) by {
            assert forall|i: int, j: int| 0 <= i < j < t.len() implies lex_lt(#[trigger] t[i].0, #[trigger] t[j].0) by {
                assert(t[i] == s[i + 1] && t[j] == s[j + 1]);
            }
        }
        if t.len() > 0 {
            assert(lex_lt(s[0].0, s[1].0));
            lemma_lex_trans(k, s[0].0, s[1].0);
        }
        lemma_without_absent(t, k);
        assert(seq![s[0]] + t =~= s);
    }
}

/// No entry has key `k`: removing it changes nothing.
proof fn lemma_without_none<V>(s: Seq<(Seq<char>, V)>, k: Seq<char>)
    requires
        forall|i: int| 0 <= i < s.len() ==> #[trigger] s[i].0 != k,
    ensures
        without(s, k) == s,
    decreases s.len(),
{
    if s.len() > 0 {
        let t = s.drop_first();
        assert forall|i: int| 0 <= i < t.len() implies #[trigger] t[i].0 != k by {
            assert(t[i] == s[i + 1]);
        }
        lemma_without_none(t, k);
        assert(seq![s[0]] + t =~= s);
    }
}

/// `a < b` in `str` order.
pub fn lex_less(a: &str, b: &str) -> (r: bool)
    ensures
        r == lex_lt(a@, b@),
{
    let x = chars_of(a);
    let y = chars_of(b);
    let mut i: usize = 0;
    assert(x@.skip(0) == x@ && y@.skip(0) == y@);
    while i < x.len() && i < y.len() && x[i] == y[i]
        invariant
            i <= x.len(),
            i <= y.len(),
            lex_lt(a@, b@) == lex_lt(x@.skip(i as int), y@.skip(i as int)),
            x@ == a@,
            y@ == b@,
        decreases x.len() - i,
    {
        assert(x@.skip(i as int).drop_first() == x@.skip(i + 1));
        assert(y@.skip(i as int).drop_first() == y@.skip(i + 1));
        i = i + 1;
    }
    if i == x.len() {
        i < y.len()
    } else if i == y.len() {
        false
    } else {
        assert(x@.skip(i as int)[0] == x@[i as int]);
        assert(y@.skip(i as int)[0] == y@[i as int]);
        x[i] < y[i]
    }
}

/// Whether two strings are equal.
fn same_str(a: &str, b: &str) -> (r: bool)
    ensures
        r == (a@ == b@),
{
    crate::text::str_eq(a, b)
}

/// A map from names to values, kept sorted by name.
pub struct NameMap<V> {
    entries: Vec<(String, V)>,
}

/// The entries of a vector of named values as plain pairs.
pub open spec fn entries_view<V>(v: Seq<(String, V)>) -> Seq<(Seq<char>, V)> {
    v.map_values(|e: (String, V)| (e.0@, e.1))
}

impl<V> View for NameMap<V> {
    type V = Seq<(Seq<char>, V)>;

    closed spec fn view(&self) -> Seq<(Seq<char>, V)> {
        entries_view(self.entries@)
    }
}

impl<V> NameMap<V> {
    #[verifier::type_invariant]
    spec fn sorted_inv(self) -> bool {
        strictly_sorted(entries_view(self.entries@))
    }

    /// The empty map.
    pub fn new() -> (m: Self)
        ensures
            m@ == Seq::<(Seq<char>, V)>::empty(),
    {
        let m = NameMap { entries: Vec::new() };
        assert(m@ =~= Seq::<(Seq<char>, V)>::empty());
        m
    }

    /// The number of entries.
    pub fn len(&self) -> (n: usize)
        ensures
            n == self@.len(),
            strictly_sorted(self@),
    {
        proof { use_type_invariant(self); }
        self.entries.len()
    }

    /// Whether the map has no entries.
    pub fn is_empty(&self) -> (b: bool)
        ensures
            b == (self@.len() == 0),
    {
        self.entries.len() == 0
    }

    /// The key of entry `i`.
    pub fn key_at(&self, i: usize) -> (k: &String)
        requires
            i < self@.len(),
        ensures
            k@ == self@[i as int].0,
    {
        &self.entries[i].0
    }

    /// The value of entry `i`.
    pub fn value_at(&self, i: usize) -> (v: &V)
        requires
            i < self@.len(),
        ensures
            *v == self@[i as int].1,
    {
        &self.entries[i].1
    }

    /// The value bound to `key`.
    pub fn get(&self, key: &str) -> (r: Option<&V>)
        ensures
            match r {
                Some(v) => lookup(self@, key@) == Some(*v),
                None => lookup(self@, key@) is None,
            },
    {
        let ghost s = self@;
        let mut i: usize = 0;
        assert(s.skip(0) == s);
        while i < self.entries.len()
            invariant
                i <= self.entries.len(),
                s == self@,
                s.len() == self.entries.len(),
                lookup(s, key@) == lookup(s.skip(i as int), key@),
            decreases self.entries.len() - i,
        {
            assert(s.skip(i as int).drop_first() == s.skip(i + 1));
            assert(s.skip(i as int)[0] == s[i as int]);
            if same_str(self.entries[i].0.as_str(), key) {
                return Some(&self.entries[i].1);
            }
            i = i + 1;
        }
        None
    }

    /// Binds `key` to `value`, replacing an earlier binding.
    pub fn insert(&mut self, key: String, value: V)
        ensures
            final(self)@ == put(old(self)@, key@, value),
            strictly_sorted(final(self)@),
    {
        proof { use_type_invariant(&*self); }
        let ghost s = self@;
        let mut es: Vec<(String, V)> = Vec::new();
        std::mem::swap(&mut es, &mut self.entries);
        assert(entries_view(es@) == s);
        let mut p: usize = 0;
        while p < es.len() && lex_less(es[p].0.as_str(), key.as_str())
            invariant
                p <= es.len(),
                entries_view(es@) == s,
                forall|i: int| 0 <= i < p ==> lex_lt(#[trigger] s[i].0, key@),
            decreases es.len() - p,
        {
            p = p + 1;
        }
        proof {
            lemma_put_at(s, key@, value, p as int);
            law_put_sorted(s, key@, value);
        }
        if p < es.len() && same_str(es[p].0.as_str(), key.as_str()) {
            let ghost k = key@;
            es.remove(p);
            es.insert(p, (key, value));
            assert(entries_view(es@) =~= s.take(p as int) + seq![(k, value)] + s.skip(p + 1));
        } else {
            let ghost k = key@;
            es.insert(p, (key, value));
            assert(entries_view(es@) =~= s.take(p as int) + seq![(k, value)] + s.skip(p as int));
        }
        self.entries = es;
    }

    /// Removes the binding of `key`, if any.
    pub fn remove(&mut self, key: &str)
        ensures
            final(self)@ == without(old(self)@, key@),
            strictly_sorted(final(self)@),
    {
        proof { use_type_invariant(&*self); }
        let ghost s = self@;
        let mut es: Vec<(String, V)> = Vec::new();
        std::mem::swap(&mut es, &mut self.entries);
        let mut p: usize = 0;
        while p < es.len() && !same_str(es[p].0.as_str(), key)
            invariant
                p <= es.len(),
                entries_view(es@) == s,
                forall|i: int| 0 <= i < p ==> #[trigger] s[i].0 != key@,
            decreases es.len() - p,
        {
            p = p + 1;
        }
        proof { law_without_sorted(s, key@); }
        if p < es.len() {
            proof { lemma_without_at(s, key@, p as int); }
            es.remove(p);
            assert(entries_view(es@) =~= s.take(p as int) + s.skip(p + 1));
        } else {
            proof { lemma_without_none(s, key@); }
        }
        self.entries = es;
    }

    /// Removes every binding.
    pub fn clear(&mut self)
        ensures
            final(self)@ == Seq::<(Seq<char>, V)>::empty(),
    {
        self.entries = Vec::new();
        assert(self@ =~= Seq::<(Seq<char>, V)>::empty());
    }

    /// The keys, in increasing order.
    pub fn keys(&self) -> (r: Vec<String>)
        ensures
            views(r@) == keys_of(self@),
            strictly_sorted(self@),
    {
        proof { use_type_invariant(self); }
        let mut r: Vec<String> = Vec::new();
        let mut i: usize = 0;
        while i < self.entries.len()
            invariant
                i <= self.entries.len(),
                views(r@) == keys_of(self@).take(i as int),
            decreases self.entries.len() - i,
        {
            let k = self.entries[i].0.clone();
            assert(self@[i as int].0 == self.entries@[i as int].0@);
            let ghost before = r@;
            r.push(k);
            assert(views(r@) =~= views(before).push(k@));
            assert(keys_of(self@).take(i + 1) =~= keys_of(self@).take(i as int).push(self@[i as int].0));
            i = i + 1;
        }
        assert(keys_of(self@).take(self@.len() as int) =~= keys_of(self@));
        r
    }
}

/// Entries with string values as plain pairs.
pub open spec fn str_entries(s: Seq<(Seq<char>, String)>) -> Seq<(Seq<char>, Seq<char>)> {
    s.map_values(|e: (Seq<char>, String)| (e.0, e.1@))
}

/// The plain view of a map of names to strings.
pub open spec fn env_view(m: NameMap<String>) -> Seq<(Seq<char>, Seq<char>)> {
    str_entries(m@)
}

proof fn lemma_str_entries_lookup(s: Seq<(Seq<char>, String)>, k: Seq<char>)
    ensures
        lookup(str_entries(s), k) == (match lookup(s, k) {
            Some(v) => Some(v@),
            None => None,
        }),
    decreases s.len(),
{
    if s.len() > 0 {
        assert(str_entries(s).drop_first() == str_entries(s.drop_first()));
        lemma_str_entries_lookup(s.drop_first(), k);
    }
}

proof fn lemma_str_entries_put(s: Seq<(Seq<char>, String)>, k: Seq<char>, v: String)
    ensures
        str_entries(put(s, k, v)) == put(str_entries(s), k, v@),
    decreases s.len(),
{
    if s.len() == 0 {
        assert(str_entries(put(s, k, v)) =~= seq![(k, v@)]);
    } else {
        let t = str_entries(s);
        assert(t.drop_first() == str_entries(s.drop_first()));
        if s[0].0 == k {
            assert(str_entries(put(s, k, v)) =~= seq![(k, v@)] + t.drop_first());
        } else if lex_lt(k, s[0].0) {
            assert(str_entries(put(s, k, v)) =~= seq![(k, v@)] + t);
        } else {
            lemma_str_entries_put(s.drop_first(), k, v);
            assert(str_entries(put(s, k, v)) =~= seq![t[0]] + put(t.drop_first(), k, v@));
        }
    }
}

proof fn lemma_str_entries_without(s: Seq<(Seq<char>, String)>, k: Seq<char>)
    ensures
        str_entries(without(s, k)) == without(str_entries(s), k),
    decreases s.len(),
{
    if s.len() > 0 {
        let t = str_entries(s);
        assert(t.drop_first() == str_entries(s.drop_first()));
        lemma_str_entries_without(s.drop_first(), k);
        if s[0].0 != k {
            assert(str_entries(without(s, k)) =~= seq![t[0]] + without(t.drop_first(), k));
        }
    }
}

impl NameMap<String> {
    /// The string bound to `key`.
    pub fn get_str(&self, key: &str) -> (r: Option<&String>)
        ensures
            match r {
                Some(v) => lookup(env_view(*self), key@) == Some(v@),
                None => lookup(env_view(*self), key@) is None,
            },
    {
        proof { lemma_str_entries_lookup(self@, key@); }
        self.get(key)
    }

    /// Binds `key` to the string `value`.
    pub fn insert_str(&mut self, key: String, value: String)
        ensures
            env_view(*final(self)) == put(env_view(*old(self)), key@, value@),
    {
        proof { lemma_str_entries_put(self@, key@, value); }
        self.insert(key, value);
    }

    /// Removes the binding of `key`, if any.
    pub fn remove_str(&mut self, key: &str)
        ensures
            env_view(*final(self)) == without(env_view(*old(self)), key@),
    {
        proof { lemma_str_entries_without(self@, key@); }
        self.remove(key);
    }

    /// A copy of the map.
    pub fn duplicate(&self) -> (r: Self)
        ensures
            r@ == self@,
    {
        proof { use_type_invariant(self); }
        let mut es: Vec<(String, String)> = Vec::new();
        let mut i: usize = 0;
        while i < self.entries.len()
            invariant
                i <= self.entries.len(),
                entries_view(es@) == self@.take(i as int),
            decreases self.entries.len() - i,
        {
            let k = self.entries[i].0.clone();
            let v = self.entries[i].1.clone();
            assert(self@[i as int] == (self.entries@[i as int].0@, self.entries@[i as int].1));
            let ghost before = es@;
            es.push((k, v));
            assert(entries_view(es@) =~= entries_view(before).push((k@, v)));
            assert(self@.take(i + 1) =~= self@.take(i as int).push(self@[i as int]));
            i = i + 1;
        }
        assert(self@.take(self@.len() as int) =~= self@);
        NameMap { entries: es }
    }
}

} // verus!
