//! A finite map whose entries are kept in ascending key order, so that two
//! maps with the same content hold the same entries in the same order.

use crate::text::{
    compare_text, lemma_text_before_asymmetric, lemma_text_before_total,
    lemma_text_before_transitive, text_before, Order,
};
use vstd::prelude::*;

verus! {

/// A key type with a strict total order on its content.
pub trait Key: View + Sized {
    /// `a` comes strictly before `b`.
    spec fn before(a: Self::V, b: Self::V) -> bool;

    /// No key comes before itself, and no two keys come before each other.
    proof fn lemma_strict(a: Self::V, b: Self::V)
        ensures
            !(Self::before(a, b) && Self::before(b, a)),
            Self::before(a, b) ==> a != b,
    ;

    proof fn lemma_transitive(a: Self::V, b: Self::V, c: Self::V)
        requires
            Self::before(a, b),
            Self::before(b, c),
        ensures
            Self::before(a, c),
    ;

    /// Two different keys are ordered one way or the other.
    proof fn lemma_total(a: Self::V, b: Self::V)
        ensures
            a == b || Self::before(a, b) || Self::before(b, a),
    ;

    /// Compares two keys under `before`.
    fn compare(&self, other: &Self) -> (r: Order)
        ensures
            r == Order::Before <==> Self::before(self@, other@),
            r == Order::Same <==> self@ == other@,
            r == Order::After <==> Self::before(other@, self@),
    ;
}

/// A type whose values can be copied with their content.
pub trait Duplicate: View + Sized {
    /// A copy with the same content.
    fn duplicate(&self) -> (r: Self)
        ensures
            r@ == self@,
    ;
}

impl Key for String {
    open spec fn before(a: Seq<char>, b: Seq<char>) -> bool {
        text_before(a, b)
    }

    proof fn lemma_strict(a: Seq<char>, b: Seq<char>) {
        lemma_text_before_asymmetric(a, b);
    }

    proof fn lemma_transitive(a: Seq<char>, b: Seq<char>, c: Seq<char>) {
        lemma_text_before_transitive(a, b, c);
    }

    proof fn lemma_total(a: Seq<char>, b: Seq<char>) {
        lemma_text_before_total(a, b);
    }

    fn compare(&self, other: &String) -> (r: Order) {
        compare_text(self.as_str(), other.as_str())
    }
}

impl Duplicate for String {
    fn duplicate(&self) -> (r: String) {
        self.clone()
    }
}

/// The keys of the entries ascend strictly.
pub open spec fn ascending<K: Key, W>(s: Seq<(K::V, W)>) -> bool {
    forall|i: int, j: int|
        0 <= i < j < s.len() ==> K::before((#[trigger] s[i]).0, (#[trigger] s[j]).0)
}

/// Some entry has the key.
pub open spec fn present<A, W>(s: Seq<(A, W)>, k: A) -> bool {
    exists|i: int| 0 <= i < s.len() && (#[trigger] s[i]).0 == k
}

/// The index of an entry with the key, where there is one.
pub open spec fn position<A, W>(s: Seq<(A, W)>, k: A) -> int {
    choose|i: int| 0 <= i < s.len() && (#[trigger] s[i]).0 == k
}

/// The map that a sequence of entries stands for.
pub open spec fn as_map<A, W>(s: Seq<(A, W)>) -> Map<A, W> {
    Map::new(|k: A| present(s, k), |k: A| s[position(s, k)].1)
}

/// The entries of a map in ascending key order.
pub open spec fn sorted_entries<K: Key, W>(m: Map<K::V, W>) -> Seq<(K::V, W)> {
    choose|s: Seq<(K::V, W)>| ascending::<K, W>(s) && as_map(s) == m
}

/// The map that a sequence of entries stands for has finitely many keys.
pub proof fn lemma_as_map_finite<A, W>(s: Seq<(A, W)>)
    ensures
        as_map(s).dom().finite(),
    decreases s.len(),
{
    if s.len() == 0 {
        assert(as_map(s).dom() =~= Set::<A>::empty());
    } else {
        let front = s.drop_last();
        let last = s.last();
        lemma_as_map_finite(front);
        assert forall|x: A| present(s, x) <==> present(front, x) || x == last.0 by {
            if present(s, x) {
                let p = position(s, x);
                if p < front.len() {
                    assert(front[p].0 == x);
                }
            }
            if present(front, x) {
                let p = position(front, x);
                assert(s[p].0 == x);
            }
            if x == last.0 {
                assert(s[s.len() - 1].0 == x);
            }
        }
        assert(as_map(s).dom() =~= as_map(front).dom().insert(last.0));
    }
}

/// Every entry of an ascending sequence is in its map, under its own key.
pub proof fn lemma_entry<K: Key, W>(s: Seq<(K::V, W)>, i: int)
    requires
        ascending::<K, W>(s),
        0 <= i < s.len(),
    ensures
        present(s, s[i].0),
        position(s, s[i].0) == i,
        as_map(s).contains_key(s[i].0),
        as_map(s)[s[i].0] == s[i].1,
{
    let p = position(s, s[i].0);
    assert(s[p].0 == s[i].0);
    if p < i {
        K::lemma_strict(s[p].0, s[i].0);
    } else if i < p {
        K::lemma_strict(s[i].0, s[p].0);
    }
}

/// A key that falls strictly between two neighbours is not in the sequence.
pub proof fn lemma_absent<K: Key, W>(s: Seq<(K::V, W)>, k: K::V, at: int)
    requires
        ascending::<K, W>(s),
        0 <= at <= s.len(),
        forall|j: int| 0 <= j < at ==> K::before((#[trigger] s[j]).0, k),
        at < s.len() ==> K::before(k, s[at].0),
    ensures
        !present(s, k),
        !as_map(s).contains_key(k),
{
    if present(s, k) {
        let p = position(s, k);
        if p < at {
            K::lemma_strict(s[p].0, k);
        } else {
            if at < p {
                K::lemma_transitive(k, s[at].0, s[p].0);
            }
            K::lemma_strict(k, s[p].0);
        }
    }
}

/// Putting a new key at its place keeps the order and adds it to the map.
pub proof fn lemma_insert<K: Key, W>(s: Seq<(K::V, W)>, k: K::V, w: W, at: int)
    requires
        ascending::<K, W>(s),
        0 <= at <= s.len(),
        forall|j: int| 0 <= j < at ==> K::before((#[trigger] s[j]).0, k),
        at < s.len() ==> K::before(k, s[at].0),
    ensures
        ascending::<K, W>(s.insert(at, (k, w))),
        as_map(s.insert(at, (k, w))) == as_map(s).insert(k, w),
{
    let t = s.insert(at, (k, w));
    assert forall|i: int, j: int| 0 <= i < j < t.len() implies K::before(
        (#[trigger] t[i]).0,
        (#[trigger] t[j]).0,
    ) by {
        if j == at {
            assert(t[i] == s[i]);
        } else if i == at {
            assert(t[j] == s[j - 1]);
            if at < j - 1 {
                K::lemma_transitive(k, s[at].0, s[j - 1].0);
            }
        } else {
            let si = if i < at { i } else { i - 1 };
            let sj = if j < at { j } else { j - 1 };
            assert(t[i] == s[si]);
            assert(t[j] == s[sj]);
        }
    }
    lemma_absent::<K, W>(s, k, at);
    assert forall|x: K::V| as_map(t).contains_key(x) <==> as_map(s).insert(k, w).contains_key(
        x,
    ) by {
        if present(t, x) {
            let p = position(t, x);
            if p < at {
                assert(t[p] == s[p]);
            } else if p > at {
                assert(t[p] == s[p - 1]);
            }
        }
        if present(s, x) {
            let p = position(s, x);
            let q = if p < at { p } else { p + 1 };
            assert(t[q] == s[p]);
        }
        if x == k {
            assert(t[at].0 == k);
        }
    }
    assert forall|x: K::V| as_map(t).contains_key(x) implies as_map(t)[x] == as_map(s).insert(
        k,
        w,
    )[x] by {
        let p = position(t, x);
        lemma_entry::<K, W>(t, p);
        if p < at {
            assert(t[p] == s[p]);
            lemma_entry::<K, W>(s, p);
        } else if p > at {
            assert(t[p] == s[p - 1]);
            lemma_entry::<K, W>(s, p - 1);
        }
    }
    assert(as_map(t) =~= as_map(s).insert(k, w));
}

/// Replacing the value of an entry keeps the order and updates the map.
pub proof fn lemma_update<K: Key, W>(s: Seq<(K::V, W)>, at: int, w: W)
    requires
        ascending::<K, W>(s),
        0 <= at < s.len(),
    ensures
        ascending::<K, W>(s.update(at, (s[at].0, w))),
        as_map(s.update(at, (s[at].0, w))) == as_map(s).insert(s[at].0, w),
{
    let k = s[at].0;
    let t = s.update(at, (k, w));
    assert(t.len() == s.len());
    assert forall|i: int, j: int| 0 <= i < j < t.len() implies K::before(
        (#[trigger] t[i]).0,
        (#[trigger] t[j]).0,
    ) by {
        assert(t[i].0 == s[i].0);
        assert(t[j].0 == s[j].0);
    }
    assert forall|x: K::V| as_map(t).contains_key(x) <==> as_map(s).insert(k, w).contains_key(
        x,
    ) by {
        if present(t, x) {
            let p = position(t, x);
            assert(s[p].0 == x);
        }
        if present(s, x) {
            let p = position(s, x);
            assert(t[p].0 == x);
        }
        if x == k {
            assert(t[at].0 == k);
        }
    }
    assert forall|x: K::V| as_map(t).contains_key(x) implies as_map(t)[x] == as_map(s).insert(
        k,
        w,
    )[x] by {
        let p = position(t, x);
        lemma_entry::<K, W>(t, p);
        if p != at {
            assert(t[p] == s[p]);
            lemma_entry::<K, W>(s, p);
            if p < at {
                K::lemma_strict(s[p].0, s[at].0);
            } else {
                K::lemma_strict(s[at].0, s[p].0);
            }
        }
    }
    assert(as_map(t) =~= as_map(s).insert(k, w));
}

/// Two ascending sequences that stand for the same map are the same
/// sequence.
pub proof fn lemma_canonical<K: Key, W>(a: Seq<(K::V, W)>, b: Seq<(K::V, W)>)
    requires
        ascending::<K, W>(a),
        ascending::<K, W>(b),
        as_map(a) == as_map(b),
    ensures
        a == b,
    decreases a.len(),
{
    if a.len() == 0 {
        if b.len() > 0 {
            lemma_entry::<K, W>(b, 0);
            assert(as_map(a).contains_key(b[0].0));
        }
        assert(a =~= b);
    } else {
        lemma_entry::<K, W>(a, 0);
        assert(as_map(b).contains_key(a[0].0));
        let q = position(b, a[0].0);
        lemma_entry::<K, W>(b, 0);
        assert(as_map(a).contains_key(b[0].0));
        let p = position(a, b[0].0);
        if q > 0 {
            // b[0] < b[q] == a[0] <= a[p] == b[0]
            if p > 0 {
                K::lemma_transitive(b[0].0, a[0].0, a[p].0);
            }
            K::lemma_strict(b[0].0, a[0].0);
        }
        assert(a[0].0 == b[0].0);
        lemma_entry::<K, W>(b, 0);
        assert(a[0] == b[0]);
        let ta = a.drop_first();
        let tb = b.drop_first();
        lemma_drop_first::<K, W>(a);
        lemma_drop_first::<K, W>(b);
        lemma_canonical::<K, W>(ta, tb);
        assert(a =~= seq![a[0]] + ta);
        assert(b =~= seq![b[0]] + tb);
    }
}

/// Without its first entry an ascending sequence still ascends, and its map
/// has lost the first key.
proof fn lemma_drop_first<K: Key, W>(s: Seq<(K::V, W)>)
    requires
        ascending::<K, W>(s),
        s.len() > 0,
    ensures
        ascending::<K, W>(s.drop_first()),
        as_map(s.drop_first()) == as_map(s).remove(s[0].0),
{
    let t = s.drop_first();
    assert forall|i: int, j: int| 0 <= i < j < t.len() implies K::before(
        (#[trigger] t[i]).0,
        (#[trigger] t[j]).0,
    ) by {
        assert(t[i] == s[i + 1]);
        assert(t[j] == s[j + 1]);
    }
    assert forall|x: K::V| as_map(t).contains_key(x) <==> as_map(s).remove(s[0].0).contains_key(
        x,
    ) by {
        if present(t, x) {
            let p = position(t, x);
            assert(t[p] == s[p + 1]);
            K::lemma_strict(s[0].0, s[p + 1].0);
        }
        if present(s, x) && x != s[0].0 {
            let p = position(s, x);
            assert(t[p - 1] == s[p]);
        }
    }
    assert forall|x: K::V| as_map(t).contains_key(x) implies as_map(t)[x] == as_map(s).remove(
        s[0].0,
    )[x] by {
        let p = position(t, x);
        lemma_entry::<K, W>(t, p);
        assert(t[p] == s[p + 1]);
        lemma_entry::<K, W>(s, p + 1);
    }
    assert(as_map(t) =~= as_map(s).remove(s[0].0));
}

/// An ascending sequence is the sorted entries of its own map.
pub proof fn lemma_sorted_entries<K: Key, W>(s: Seq<(K::V, W)>)
    requires
        ascending::<K, W>(s),
    ensures
        sorted_entries::<K, W>(as_map(s)) == s,
{
    let t = sorted_entries::<K, W>(as_map(s));
    assert(ascending::<K, W>(t) && as_map(t) == as_map(s));
    lemma_canonical::<K, W>(t, s);
}

/// The map of the first `i + 1` entries is the map of the first `i` with
/// the `i`-th entry put in.
pub proof fn lemma_prefix_step<K: Key, W>(s: Seq<(K::V, W)>, i: int)
    requires
        ascending::<K, W>(s),
        0 <= i < s.len(),
    ensures
        ascending::<K, W>(s.subrange(0, i)),
        as_map(s.subrange(0, i + 1)) == as_map(s.subrange(0, i)).insert(s[i].0, s[i].1),
        !as_map(s.subrange(0, i)).contains_key(s[i].0),
{
    let p = s.subrange(0, i);
    assert forall|a: int, b: int| 0 <= a < b < p.len() implies K::before(
        (#[trigger] p[a]).0,
        (#[trigger] p[b]).0,
    ) by {
        assert(p[a] == s[a]);
        assert(p[b] == s[b]);
    }
    assert forall|j: int| 0 <= j < i implies K::before((#[trigger] p[j]).0, s[i].0) by {
        assert(p[j] == s[j]);
    }
    lemma_absent::<K, W>(p, s[i].0, i);
    lemma_insert::<K, W>(p, s[i].0, s[i].1, i);
    assert(p.insert(i, s[i]) =~= s.subrange(0, i + 1));
}

/// Where a key that is not among the entries would have to be put.
proof fn lemma_slot<K: Key, W>(s: Seq<(K::V, W)>, k: K::V) -> (at: int)
    requires
        ascending::<K, W>(s),
        !present(s, k),
    ensures
        0 <= at <= s.len(),
        forall|j: int| 0 <= j < at ==> K::before((#[trigger] s[j]).0, k),
        at < s.len() ==> K::before(k, s[at].0),
    decreases s.len(),
{
    if s.len() == 0 {
        0
    } else {
        let last = s.len() - 1;
        K::lemma_total(s[last].0, k);
        assert(s[last].0 != k);
        if K::before(s[last].0, k) {
            assert forall|j: int| 0 <= j < s.len() implies K::before((#[trigger] s[j]).0, k) by {
                if j < last {
                    K::lemma_transitive(s[j].0, s[last].0, k);
                }
            }
            s.len() as int
        } else {
            let front = s.drop_last();
            assert forall|a: int, b: int| 0 <= a < b < front.len() implies K::before(
                (#[trigger] front[a]).0,
                (#[trigger] front[b]).0,
            ) by {
                assert(front[a] == s[a]);
                assert(front[b] == s[b]);
            }
            if present(front, k) {
                let p = position(front, k);
                assert(s[p].0 == k);
            }
            let at = lemma_slot::<K, W>(front, k);
            assert forall|j: int| 0 <= j < at implies K::before((#[trigger] s[j]).0, k) by {
                assert(front[j] == s[j]);
            }
            if at < front.len() {
                assert(front[at] == s[at]);
            }
            at
        }
    }
}

/// Every finite map has its entries in ascending order: a sequence that
/// ascends and stands for the map.
pub proof fn lemma_sorted_exists<K: Key, W>(m: Map<K::V, W>)
    requires
        m.dom().finite(),
    ensures
        ascending::<K, W>(sorted_entries::<K, W>(m)),
        as_map(sorted_entries::<K, W>(m)) == m,
    decreases m.dom().len(),
{
    if m.dom().len() == 0 {
        let s = Seq::<(K::V, W)>::empty();
        assert(m.dom() =~= Set::<K::V>::empty());
        assert(as_map(s) =~= m);
        assert(ascending::<K, W>(s) && as_map(s) == m);
    } else {
        let k = m.dom().choose();
        let rest = m.remove(k);
        lemma_sorted_exists::<K, W>(rest);
        let s = sorted_entries::<K, W>(rest);
        assert(!as_map(s).contains_key(k));
        let at = lemma_slot::<K, W>(s, k);
        lemma_insert::<K, W>(s, k, m[k], at);
        let t = s.insert(at, (k, m[k]));
        assert(as_map(t) =~= m);
        assert(ascending::<K, W>(t) && as_map(t) == m);
    }
}

/// The entries whose keys are in `keep`, in their order.
pub open spec fn kept<A, W>(s: Seq<(A, W)>, keep: Set<A>) -> Seq<(A, W)>
    decreases s.len(),
{
    if s.len() == 0 {
        Seq::empty()
    } else if keep.contains(s.last().0) {
        kept(s.drop_last(), keep).push(s.last())
    } else {
        kept(s.drop_last(), keep)
    }
}

/// Every kept entry is an entry of the sequence.
pub proof fn lemma_kept_from<A, W>(s: Seq<(A, W)>, keep: Set<A>, i: int)
    requires
        0 <= i < kept(s, keep).len(),
    ensures
        keep.contains(kept(s, keep)[i].0),
        exists|j: int| 0 <= j < s.len() && #[trigger] s[j] == kept(s, keep)[i],
    decreases s.len(),
{
    if s.len() > 0 {
        let rest = kept(s.drop_last(), keep);
        if i < rest.len() {
            lemma_kept_from(s.drop_last(), keep, i);
            let j = choose|j: int| 0 <= j < s.drop_last().len() && #[trigger] s.drop_last()[j]
                == rest[i];
            assert(s[j] == kept(s, keep)[i]);
        } else {
            assert(s[s.len() - 1] == kept(s, keep)[i]);
        }
    }
}

/// Keeping some keys of an ascending sequence leaves an ascending sequence,
/// which stands for the map restricted to those keys.
pub proof fn lemma_kept<K: Key, W>(s: Seq<(K::V, W)>, keep: Set<K::V>)
    requires
        ascending::<K, W>(s),
    ensures
        ascending::<K, W>(kept(s, keep)),
        as_map(kept(s, keep)) == as_map(s).restrict(keep),
        sorted_entries::<K, W>(as_map(s).restrict(keep)) == kept(s, keep),
    decreases s.len(),
{
    let r = kept(s, keep);
    if s.len() == 0 {
        assert(as_map(r) =~= as_map(s).restrict(keep));
    } else {
        let n = s.len() - 1;
        let front = s.drop_last();
        lemma_prefix_step::<K, W>(s, n);
        assert(front =~= s.subrange(0, n));
        assert(s.subrange(0, n + 1) =~= s);
        lemma_kept::<K, W>(front, keep);
        let rest = kept(front, keep);
        if keep.contains(s[n].0) {
            assert forall|j: int| 0 <= j < rest.len() implies K::before(
                (#[trigger] rest[j]).0,
                s[n].0,
            ) by {
                lemma_kept_from(front, keep, j);
                let a = choose|a: int| 0 <= a < front.len() && #[trigger] front[a] == rest[j];
                assert(front[a] == s[a]);
            }
            lemma_insert::<K, W>(rest, s[n].0, s[n].1, rest.len() as int);
            assert(rest.insert(rest.len() as int, s[n]) =~= r);
            assert(as_map(r) =~= as_map(s).restrict(keep));
        } else {
            assert(as_map(r) =~= as_map(s).restrict(keep));
        }
    }
    lemma_sorted_entries::<K, W>(r);
}

/// A map from keys to values, ordered by key.
#[derive(Debug)]
pub struct SortedMap<K: Key, V: View> {
    entries: Vec<(K, V)>,
}

/// The content of a list of entries.
pub open spec fn entries_view<K: View, V: View>(entries: Seq<(K, V)>) -> Seq<(K::V, V::V)> {
    Seq::new(entries.len(), |i: int| (entries[i].0@, entries[i].1@))
}

impl<K: Key, V: View> View for SortedMap<K, V> {
    type V = Map<K::V, V::V>;

    closed spec fn view(&self) -> Map<K::V, V::V> {
        as_map(entries_view(self.entries@))
    }
}

impl<K: Key, V: View> SortedMap<K, V> {
    #[verifier::type_invariant]
    spec fn ordered(&self) -> bool {
        ascending::<K, V::V>(entries_view(self.entries@))
    }

    /// The entries of the map in ascending key order.
    pub open spec fn entries(&self) -> Seq<(K::V, V::V)> {
        sorted_entries::<K, V::V>(self@)
    }

    /// An empty map.
    pub fn new() -> (r: Self)
        ensures
            r@ == Map::<K::V, V::V>::empty(),
    {
        let r = SortedMap { entries: Vec::new() };
        assert(r@ =~= Map::<K::V, V::V>::empty());
        r
    }

    /// The number of entries.
    pub fn len(&self) -> (n: usize)
        ensures
            n == self.entries().len(),
            ascending::<K, V::V>(self.entries()),
            as_map(self.entries()) == self@,
            self@.dom().finite(),
    {
        proof {
            use_type_invariant(self);
            lemma_sorted_entries::<K, V::V>(entries_view(self.entries@));
            lemma_as_map_finite(entries_view(self.entries@));
        }
        self.entries.len()
    }

    /// The key of the `i`-th entry in ascending order.
    pub fn key_at(&self, i: usize) -> (r: &K)
        requires
            i < self.entries().len(),
        ensures
            r@ == self.entries()[i as int].0,
    {
        proof {
            use_type_invariant(self);
            lemma_sorted_entries::<K, V::V>(entries_view(self.entries@));
        }
        &self.entries[i].0
    }

    /// The value of the `i`-th entry in ascending order.
    pub fn value_at(&self, i: usize) -> (r: &V)
        requires
            i < self.entries().len(),
        ensures
            r@ == self.entries()[i as int].1,
    {
        proof {
            use_type_invariant(self);
            lemma_sorted_entries::<K, V::V>(entries_view(self.entries@));
        }
        &self.entries[i].1
    }

    /// Where the key is, or else where it would have to be put.
    fn find(&self, key: &K) -> (r: (bool, usize))
        ensures
            r.1 <= self.entries.len(),
            r.0 ==> r.1 < self.entries.len() && self.entries@[r.1 as int].0@ == key@,
            !r.0 ==> {
                &&& forall|j: int|
                    0 <= j < r.1 ==> K::before((#[trigger] self.entries@[j]).0@, key@)
                &&& r.1 < self.entries.len() ==> K::before(key@, self.entries@[r.1 as int].0@)
            },
    {
        let mut i: usize = 0;
        while i < self.entries.len()
            invariant
                i <= self.entries.len(),
                forall|j: int| 0 <= j < i ==> K::before((#[trigger] self.entries@[j]).0@, key@),
            decreases self.entries.len() - i,
        {
            match key.compare(&self.entries[i].0) {
                Order::Same => {
                    return (true, i);
                },
                Order::Before => {
                    return (false, i);
                },
                Order::After => {},
            }
            i += 1;
        }
        (false, i)
    }

    /// Tells whether the map has the key.
    pub fn contains_key(&self, key: &K) -> (r: bool)
        ensures
            r == self@.contains_key(key@),
    {
        let (found, at) = self.find(key);
        proof {
            use_type_invariant(self);
            let s = entries_view(self.entries@);
            if found {
                lemma_entry::<K, V::V>(s, at as int);
            } else {
                lemma_absent::<K, V::V>(s, key@, at as int);
            }
        }
        found
    }

    /// The value under the key.
    pub fn get(&self, key: &K) -> (r: Option<&V>)
        ensures
            match r {
                Some(v) => self@.contains_key(key@) && v@ == self@[key@],
                None => !self@.contains_key(key@),
            },
    {
        let (found, at) = self.find(key);
        proof {
            use_type_invariant(self);
            let s = entries_view(self.entries@);
            if found {
                lemma_entry::<K, V::V>(s, at as int);
            } else {
                lemma_absent::<K, V::V>(s, key@, at as int);
            }
        }
        if found {
            Some(&self.entries[at].1)
        } else {
            None
        }
    }

    /// Puts the value under the key and hands back the value that was there.
    pub fn insert(&mut self, key: K, value: V) -> (r: Option<V>)
        ensures
            final(self)@ == old(self)@.insert(key@, value@),
            match r {
                Some(v) => old(self)@.contains_key(key@) && v@ == old(self)@[key@],
                None => !old(self)@.contains_key(key@),
            },
    {
        let (found, at) = self.find(&key);
        proof {
            use_type_invariant(&*self);
        }
        let ghost s = entries_view(self.entries@);
        let mut entries: Vec<(K, V)> = Vec::new();
        core::mem::swap(&mut self.entries, &mut entries);
        let r = if found {
            proof {
                lemma_entry::<K, V::V>(s, at as int);
                lemma_update::<K, V::V>(s, at as int, value@);
            }
            let previous = entries.remove(at);
            entries.insert(at, (key, value));
            assert(entries_view(entries@) =~= s.update(at as int, (s[at as int].0, value@)));
            Some(previous.1)
        } else {
            proof {
                lemma_absent::<K, V::V>(s, key@, at as int);
                lemma_insert::<K, V::V>(s, key@, value@, at as int);
            }
            entries.insert(at, (key, value));
            assert(entries_view(entries@) =~= s.insert(at as int, (key@, value@)));
            None
        };
        core::mem::swap(&mut self.entries, &mut entries);
        r
    }
}

impl<K: Key + Duplicate, V: View + Duplicate> SortedMap<K, V> {
    /// Puts every entry of `other` into the map, over what is there.
    pub fn extend(&mut self, other: &SortedMap<K, V>)
        ensures
            final(self)@ == old(self)@.union_prefer_right(other@),
    {
        proof {
            use_type_invariant(other);
        }
        let ghost s = entries_view(other.entries@);
        let mut i: usize = 0;
        assert(self@ =~= old(self)@.union_prefer_right(as_map(s.subrange(0, 0))));
        while i < other.entries.len()
            invariant
                i <= other.entries.len(),
                s == entries_view(other.entries@),
                ascending::<K, V::V>(s),
                self@ == old(self)@.union_prefer_right(as_map(s.subrange(0, i as int))),
            decreases other.entries.len() - i,
        {
            proof {
                lemma_prefix_step::<K, V::V>(s, i as int);
            }
            let key = other.entries[i].0.duplicate();
            let value = other.entries[i].1.duplicate();
            let ghost before = self@;
            self.insert(key, value);
            assert(self@ =~= old(self)@.union_prefer_right(
                as_map(s.subrange(0, i as int + 1)),
            ));
            i += 1;
        }
        assert(s.subrange(0, i as int) =~= s);
    }
}

impl<K: Key + Duplicate, V: View + Duplicate> Duplicate for SortedMap<K, V> {
    fn duplicate(&self) -> (r: Self) {
        proof {
            use_type_invariant(self);
        }
        let mut entries: Vec<(K, V)> = Vec::new();
        let mut i: usize = 0;
        while i < self.entries.len()
            invariant
                i <= self.entries.len(),
                entries.len() == i,
                forall|j: int|
                    0 <= j < i ==> (#[trigger] entries@[j]).0@ == self.entries@[j].0@
                        && entries@[j].1@ == self.entries@[j].1@,
            decreases self.entries.len() - i,
        {
            entries.push((self.entries[i].0.duplicate(), self.entries[i].1.duplicate()));
            i += 1;
        }
        assert(entries_view(entries@) =~= entries_view(self.entries@));
        SortedMap { entries }
    }
}

impl<K: Key + Duplicate, V: View + Duplicate> Clone for SortedMap<K, V> {
    fn clone(&self) -> (r: Self)
        ensures
            r@ == self@,
    {
        self.duplicate()
    }
}

} // verus!
