//! A keyed table stored as a list of entries sorted by key, the in-memory
//! form of a ledger map (a later `insert` of a key replaces its value, and
//! entries are listed in key order).

use vstd::prelude::*;
use crate::text::{Text, bytes_less, lemma_bytes_less_irreflexive, lemma_bytes_less_total, lemma_bytes_less_transitive};

verus! {

/// Keys with a strict total order on their views, compared by value.
pub trait TableKey: View + Sized {
    /// The order in which keys are listed.
    spec fn key_less(a: <Self as View>::V, b: <Self as View>::V) -> bool;

    /// `key_less` is a strict total order.
    proof fn lemma_key_order(a: <Self as View>::V, b: <Self as View>::V, c: <Self as View>::V)
        ensures
            !Self::key_less(a, a),
            a != b ==> Self::key_less(a, b) || Self::key_less(b, a),
            !(Self::key_less(a, b) && Self::key_less(b, a)),
            Self::key_less(a, b) && Self::key_less(b, c) ==> Self::key_less(a, c);

    fn less_than(&self, other: &Self) -> (r: bool)
        ensures
            r == Self::key_less(self@, other@);

    fn same_key(&self, other: &Self) -> (r: bool)
        ensures
            r == (self@ == other@);

    fn copy_key(&self) -> (r: Self)
        ensures
            r@ == self@;
}

/// Values that can be stored in a table, with their own well-formedness.
pub trait TableValue: View + Sized {
    spec fn valid(&self) -> bool;

    fn copy_value(&self) -> (r: Self)
        requires
            self.valid(),
        ensures
            r@ == self@,
            r.valid();
}

impl TableKey for u64 {
    open spec fn key_less(a: u64, b: u64) -> bool {
        a < b
    }

    proof fn lemma_key_order(a: u64, b: u64, c: u64) {
    }

    fn less_than(&self, other: &u64) -> (r: bool) {
        *self < *other
    }

    fn same_key(&self, other: &u64) -> (r: bool) {
        *self == *other
    }

    fn copy_key(&self) -> (r: u64) {
        *self
    }
}

impl TableKey for Text {
    open spec fn key_less(a: Seq<u8>, b: Seq<u8>) -> bool {
        bytes_less(a, b)
    }

    proof fn lemma_key_order(a: Seq<u8>, b: Seq<u8>, c: Seq<u8>) {
        lemma_bytes_less_irreflexive(a);
        lemma_bytes_less_total(a, b);
        if bytes_less(a, b) && bytes_less(b, c) {
            lemma_bytes_less_transitive(a, b, c);
        }
    }

    fn less_than(&self, other: &Text) -> (r: bool) {
        self.precedes(other)
    }

    fn same_key(&self, other: &Text) -> (r: bool) {
        self.equals(other)
    }

    fn copy_key(&self) -> (r: Text) {
        self.duplicate()
    }
}

impl TableValue for i128 {
    open spec fn valid(&self) -> bool {
        true
    }

    fn copy_value(&self) -> (r: i128) {
        *self
    }
}

impl TableValue for Vec<u64> {
    open spec fn valid(&self) -> bool {
        true
    }

    fn copy_value(&self) -> (r: Vec<u64>) {
        let mut r: Vec<u64> = Vec::new();
        let mut i: usize = 0;
        while i < self.len()
            invariant
                i <= self@.len(),
                r@ == self@.take(i as int),
            decreases self@.len() - i,
        {
            r.push(self[i]);
            i = i + 1;
            assert(r@ =~= self@.take(i as int));
        }
        assert(self@.take(self@.len() as int) =~= self@);
        r
    }
}

impl TableValue for Text {
    open spec fn valid(&self) -> bool {
        true
    }

    fn copy_value(&self) -> (r: Text) {
        self.duplicate()
    }
}

/// The map denoted by a list of entries (a later entry for a key wins).
pub open spec fn table_map<K: View, V: View>(s: Seq<(K, V)>) -> Map<K::V, V::V>
    decreases s.len(),
{
    if s.len() == 0 {
        Map::empty()
    } else {
        table_map(s.drop_last()).insert(s.last().0@, s.last().1@)
    }
}

/// The entries' keys strictly increase.
pub open spec fn keys_sorted<K: TableKey, V>(s: Seq<(K, V)>) -> bool {
    forall|i: int, j: int| 0 <= i < j < s.len() ==> K::key_less(#[trigger] s[i].0@, #[trigger] s[j].0@)
}

/// The entries' keys are pairwise distinct.
pub open spec fn keys_distinct<K: View, V>(s: Seq<(K, V)>) -> bool {
    forall|i: int, j: int| 0 <= i < j < s.len() ==> #[trigger] s[i].0@ != #[trigger] s[j].0@
}

proof fn lemma_sorted_distinct<K: TableKey, V>(s: Seq<(K, V)>)
    requires
        keys_sorted(s),
    ensures
        keys_distinct(s),
{
    assert forall|i: int, j: int| 0 <= i < j < s.len() implies #[trigger] s[i].0@ != #[trigger] s[j].0@ by {
        K::lemma_key_order(s[i].0@, s[j].0@, s[j].0@);
    }
}

/// With distinct keys, the map holds exactly the entries.
proof fn lemma_table_map<K: View, V: View>(s: Seq<(K, V)>)
    requires
        keys_distinct(s),
    ensures
        forall|i: int| 0 <= i < s.len() ==> table_map(s).contains_key(#[trigger] s[i].0@)
            && table_map(s)[s[i].0@] == s[i].1@,
        forall|k: K::V| #[trigger] table_map(s).contains_key(k) ==> exists|i: int|
            0 <= i < s.len() && #[trigger] s[i].0@ == k,
    decreases s.len(),
{
    if s.len() > 0 {
        let p = s.drop_last();
        let n = s.len() - 1;
        assert(keys_distinct(p)) by {
            assert forall|i: int, j: int| 0 <= i < j < p.len() implies #[trigger] p[i].0@ != #[trigger] p[j].0@ by {
                assert(s[i].0@ != s[j].0@);
            }
        }
        lemma_table_map(p);
        assert forall|i: int| 0 <= i < s.len() implies table_map(s).contains_key(#[trigger] s[i].0@)
            && table_map(s)[s[i].0@] == s[i].1@ by {
            if i < n {
                assert(s[i] == p[i]);
                assert(s[i].0@ != s[n].0@);
            }
        }
        assert forall|k: K::V| #[trigger] table_map(s).contains_key(k) implies exists|i: int|
            0 <= i < s.len() && #[trigger] s[i].0@ == k by {
            if k == s[n].0@ {
                assert(s[n].0@ == k);
            } else {
                assert(table_map(p).contains_key(k));
                let w = choose|i: int| 0 <= i < p.len() && #[trigger] p[i].0@ == k;
                assert(s[w] == p[w]);
            }
        }
    }
}

/// Two lists with the same key and value views entry for entry, and
/// distinct keys, denote the same map.
proof fn lemma_table_map_same_views<K: View, V: View>(s: Seq<(K, V)>, t: Seq<(K, V)>)
    requires
        keys_distinct(s),
        s.len() == t.len(),
        forall|i: int| 0 <= i < s.len() ==> (#[trigger] s[i]).0@ == t[i].0@ && s[i].1@ == t[i].1@,
    ensures
        keys_distinct(t),
        table_map(s) == table_map(t),
{
    assert forall|i: int, j: int| 0 <= i < j < t.len() implies #[trigger] t[i].0@ != #[trigger] t[j].0@ by {
        assert(s[i].0@ != s[j].0@);
    }
    lemma_table_map(s);
    lemma_table_map(t);
    assert forall|k: K::V| #[trigger] table_map(s).contains_key(k) == table_map(t).contains_key(k) by {
        if table_map(s).contains_key(k) {
            let w = choose|i: int| 0 <= i < s.len() && #[trigger] s[i].0@ == k;
            assert(t[w].0@ == k);
        }
        if table_map(t).contains_key(k) {
            let w = choose|i: int| 0 <= i < t.len() && #[trigger] t[i].0@ == k;
            assert(s[w].0@ == k);
        }
    }
    assert forall|k: K::V| #[trigger] table_map(s).contains_key(k) implies table_map(s)[k] == table_map(t)[k] by {
        let w = choose|i: int| 0 <= i < s.len() && #[trigger] s[i].0@ == k;
        assert(t[w].0@ == k);
    }
    assert(table_map(s) =~= table_map(t));
}

/// Entries sorted by key; the table denotes the map they hold.
#[derive(Clone, Debug, PartialEq, Eq)]
pub struct Table<K, V> {
    entries: Vec<(K, V)>,
}

impl<K: View, V: View> View for Table<K, V> {
    type V = Map<K::V, V::V>;

    closed spec fn view(&self) -> Map<K::V, V::V> {
        table_map(self.entries@)
    }
}

impl<K: TableKey, V: TableValue> Table<K, V> {
    /// The entries are sorted by key and every stored value is valid.
    pub closed spec fn wf(&self) -> bool {
        &&& keys_sorted(self.entries@)
        &&& forall|i: int| 0 <= i < self.entries@.len() ==> (#[trigger] self.entries@[i]).1.valid()
    }

    proof fn lemma_entries(&self)
        requires
            self.wf(),
        ensures
            keys_distinct(self.entries@),
            forall|i: int| 0 <= i < self.entries@.len() ==> self@.contains_key(#[trigger] self.entries@[i].0@)
                && self@[self.entries@[i].0@] == self.entries@[i].1@,
            forall|k: K::V| #[trigger] self@.contains_key(k) ==> exists|i: int|
                0 <= i < self.entries@.len() && #[trigger] self.entries@[i].0@ == k,
    {
        lemma_sorted_distinct(self.entries@);
        lemma_table_map(self.entries@);
    }

    /// The empty table.
    pub fn new() -> (t: Self)
        ensures
            t.wf(),
            t@ == Map::<K::V, V::V>::empty(),
    {
        Table { entries: Vec::new() }
    }

    /// Position of the entry whose key equals `k`, if any.
    fn position(&self, k: &K) -> (r: Option<usize>)
        requires
            self.wf(),
        ensures
            match r {
                Some(i) => i < self.entries@.len() && self.entries@[i as int].0@ == k@,
                None => !self@.contains_key(k@),
            },
    {
        proof { self.lemma_entries(); }
        let mut i: usize = 0;
        while i < self.entries.len()
            invariant
                self.wf(),
                i <= self.entries@.len(),
                forall|j: int| 0 <= j < i ==> self.entries@[j].0@ != k@,
            decreases self.entries@.len() - i,
        {
            if self.entries[i].0.same_key(k) {
                return Some(i);
            }
            i = i + 1;
        }
        proof {
            if self@.contains_key(k@) {
                let w = choose|j: int| 0 <= j < self.entries@.len() && #[trigger] self.entries@[j].0@ == k@;
                assert(self.entries@[w].0@ == k@);
            }
        }
        None
    }

    /// Whether `k` has an entry.
    pub fn contains_key(&self, k: &K) -> (r: bool)
        requires
            self.wf(),
        ensures
            r == self@.contains_key(k@),
    {
        proof { self.lemma_entries(); }
        match self.position(k) {
            Some(i) => {
                assert(self.entries@[i as int].0@ == k@);
                true
            },
            None => false,
        }
    }

    /// The value stored under `k`, if any.
    pub fn get(&self, k: &K) -> (r: Option<&V>)
        requires
            self.wf(),
        ensures
            match r {
                Some(v) => self@.contains_key(k@) && v@ == self@[k@] && v.valid(),
                None => !self@.contains_key(k@),
            },
    {
        proof { self.lemma_entries(); }
        match self.position(k) {
            Some(i) => {
                assert(self.entries@[i as int].0@ == k@);
                Some(&self.entries[i].1)
            },
            None => None,
        }
    }

    /// Stores `v` under `k`, replacing any earlier value; the entries stay
    /// sorted by key.
    pub fn insert(&mut self, k: K, v: V)
        requires
            old(self).wf(),
            v.valid(),
        ensures
            final(self).wf(),
            final(self)@ == old(self)@.insert(k@, v@),
    {
        let ghost key = k@;
        let ghost val = v@;
        let ghost pre = self.entries@;
        proof { self.lemma_entries(); }
        let mut p: usize = 0;
        loop
            invariant
                self.wf(),
                self.entries@ == pre,
                key == k@,
                p <= pre.len(),
                forall|j: int| 0 <= j < p ==> K::key_less(#[trigger] pre[j].0@, key),
            ensures
                p <= pre.len(),
                forall|j: int| 0 <= j < p ==> K::key_less(#[trigger] pre[j].0@, key),
                p < pre.len() ==> !K::key_less(pre[p as int].0@, key),
            decreases pre.len() - p,
        {
            if p >= self.entries.len() {
                break;
            }
            let lt = self.entries[p].0.less_than(&k);
            if !lt {
                break;
            }
            p = p + 1;
        }
        if p < self.entries.len() && self.entries[p].0.same_key(&k) {
            self.entries.set(p, (k, v));
            proof {
                let n = self.entries@;
                assert forall|i: int, j: int| 0 <= i < j < n.len() implies K::key_less(#[trigger] n[i].0@, #[trigger] n[j].0@) by {
                    assert(n[i].0@ == pre[i].0@ && n[j].0@ == pre[j].0@);
                }
                lemma_sorted_distinct(n);
                lemma_table_map(n);
                lemma_table_map(pre);
                let m = table_map(pre).insert(key, val);
                assert forall|kk: K::V| #[trigger] table_map(n).contains_key(kk) == m.contains_key(kk) by {
                    if table_map(n).contains_key(kk) {
                        let w = choose|i: int| 0 <= i < n.len() && #[trigger] n[i].0@ == kk;
                        if w != p {
                            assert(pre[w].0@ == kk);
                        }
                    }
                    if m.contains_key(kk) && kk != key {
                        let w = choose|i: int| 0 <= i < pre.len() && #[trigger] pre[i].0@ == kk;
                        assert(n[w].0@ == kk);
                    }
                    if kk == key {
                        assert(n[p as int].0@ == kk);
                    }
                }
                assert forall|kk: K::V| #[trigger] table_map(n).contains_key(kk) implies table_map(n)[kk] == m[kk] by {
                    let w = choose|i: int| 0 <= i < n.len() && #[trigger] n[i].0@ == kk;
                    if w != p {
                        assert(pre[w] == n[w]);
                    }
                }
                assert(table_map(n) =~= m);
            }
        } else {
            self.entries.insert(p, (k, v));
            proof {
                let n = self.entries@;
                assert(forall|i: int| 0 <= i < p ==> #[trigger] n[i] == pre[i]);
                assert(forall|i: int| p < i < n.len() ==> #[trigger] n[i] == pre[i - 1]);
                assert(n[p as int].0@ == key && n[p as int].1@ == val);
                if p < pre.len() {
                    K::lemma_key_order(pre[p as int].0@, key, key);
                    assert(K::key_less(key, pre[p as int].0@));
                }
                assert forall|i: int, j: int| 0 <= i < j < n.len() implies K::key_less(#[trigger] n[i].0@, #[trigger] n[j].0@) by {
                    if j < p {
                    } else if j == p {
                        assert(K::key_less(pre[i].0@, key));
                    } else if i < p {
                        assert(K::key_less(pre[i].0@, pre[j - 1].0@));
                    } else if i == p {
                        if j - 1 > p {
                            assert(K::key_less(pre[p as int].0@, pre[j - 1].0@));
                            K::lemma_key_order(key, pre[p as int].0@, pre[j - 1].0@);
                        }
                    } else {
                        assert(K::key_less(pre[i - 1].0@, pre[j - 1].0@));
                    }
                }
                lemma_sorted_distinct(n);
                lemma_table_map(n);
                lemma_table_map(pre);
                let m = table_map(pre).insert(key, val);
                assert forall|kk: K::V| #[trigger] table_map(n).contains_key(kk) == m.contains_key(kk) by {
                    if table_map(n).contains_key(kk) {
                        let w = choose|i: int| 0 <= i < n.len() && #[trigger] n[i].0@ == kk;
                        if w < p {
                            assert(pre[w].0@ == kk);
                        } else if w > p {
                            assert(pre[w - 1].0@ == kk);
                        }
                    }
                    if m.contains_key(kk) && kk != key {
                        let w = choose|i: int| 0 <= i < pre.len() && #[trigger] pre[i].0@ == kk;
                        if w < p {
                            assert(n[w].0@ == kk);
                        } else {
                            assert(n[w + 1].0@ == kk);
                        }
                    }
                    if kk == key {
                        assert(n[p as int].0@ == kk);
                    }
                }
                assert forall|kk: K::V| #[trigger] table_map(n).contains_key(kk) implies table_map(n)[kk] == m[kk] by {
                    let w = choose|i: int| 0 <= i < n.len() && #[trigger] n[i].0@ == kk;
                    if w < p {
                        assert(pre[w] == n[w]);
                    } else if w > p {
                        assert(pre[w - 1] == n[w]);
                    }
                }
                assert(table_map(n) =~= m);
            }
        }
        proof {
            let n = self.entries@;
            assert forall|i: int| 0 <= i < n.len() implies (#[trigger] n[i]).1.valid() by {
                if i != p {
                    if n.len() == pre.len() {
                        assert(n[i] == pre[i]);
                    } else if i < p {
                        assert(n[i] == pre[i]);
                    } else {
                        assert(n[i] == pre[i - 1]);
                    }
                }
            }
        }
    }

    /// Keys of the entries, in stored order.
    pub closed spec fn listed(&self) -> Seq<K::V> {
        self.entries@.map_values(|e: (K, V)| e.0@)
    }

    /// A copy of this table, entry for entry.
    pub fn duplicate(&self) -> (t: Self)
        requires
            self.wf(),
        ensures
            t.wf(),
            t@ == self@,
            t.listed() == self.listed(),
    {
        proof { self.lemma_entries(); }
        let mut entries: Vec<(K, V)> = Vec::new();
        let mut i: usize = 0;
        while i < self.entries.len()
            invariant
                self.wf(),
                i <= self.entries@.len(),
                entries@.len() == i,
                forall|j: int| 0 <= j < i ==> (#[trigger] entries@[j]).0@ == self.entries@[j].0@
                    && entries@[j].1@ == self.entries@[j].1@ && entries@[j].1.valid(),
            decreases self.entries@.len() - i,
        {
            let k = self.entries[i].0.copy_key();
            let v = self.entries[i].1.copy_value();
            entries.push((k, v));
            i = i + 1;
        }
        let t = Table { entries };
        proof {
            lemma_table_map_same_views(self.entries@, t.entries@);
            assert forall|a: int, b: int| 0 <= a < b < t.entries@.len() implies K::key_less(#[trigger] t.entries@[a].0@, #[trigger] t.entries@[b].0@) by {
                assert(K::key_less(self.entries@[a].0@, self.entries@[b].0@));
            }
            assert(t.listed() =~= self.listed());
        }
        t
    }

    /// Number of entries.
    pub fn entry_count(&self) -> (n: usize)
        requires
            self.wf(),
        ensures
            n == self.listed().len(),
    {
        self.entries.len()
    }

    /// The `i`-th entry in key order.
    pub fn entry(&self, i: usize) -> (r: (&K, &V))
        requires
            self.wf(),
            i < self.listed().len(),
        ensures
            r.0@ == self.listed()[i as int],
            self@.contains_key(r.0@),
            self@[r.0@] == r.1@,
            r.1.valid(),
    {
        proof { self.lemma_entries(); }
        (&self.entries[i].0, &self.entries[i].1)
    }

    /// The listed keys are exactly the keys of the table, each once, in
    /// strictly increasing key order.
    pub proof fn lemma_listed(&self)
        requires
            self.wf(),
        ensures
            self.listed().no_duplicates(),
            forall|k: K::V| #[trigger] self@.contains_key(k) <==> self.listed().contains(k),
            forall|i: int, j: int|
                0 <= i < j < self.listed().len() ==> K::key_less(#[trigger] self.listed()[i], #[trigger] self.listed()[j]),
    {
        self.lemma_entries();
        assert forall|k: K::V| #[trigger] self@.contains_key(k) <==> self.listed().contains(k) by {
            if self@.contains_key(k) {
                let w = choose|j: int| 0 <= j < self.entries@.len() && #[trigger] self.entries@[j].0@ == k;
                assert(self.listed()[w] == k);
            }
            if self.listed().contains(k) {
                let w = choose|j: int| 0 <= j < self.listed().len() && self.listed()[j] == k;
                assert(self.entries@[w].0@ == k);
            }
        }
        assert forall|i: int, j: int| 0 <= i < j < self.listed().len() implies K::key_less(#[trigger] self.listed()[i], #[trigger] self.listed()[j]) by {
            assert(K::key_less(self.entries@[i].0@, self.entries@[j].0@));
        }
    }
}

} // verus!
