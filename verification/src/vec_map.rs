//! A small association list with distinct keys, viewed as a mathematical map.
//!
//! The compositor's per-output and per-window tables are updated in place,
//! filtered and migrated as whole tables. They are stored as a vector of
//! entries whose keys never repeat, so every such bulk update is a plain loop.

use vstd::prelude::*;

verus! {

/// A key that executable code can compare for equality.
pub trait MapKey: Copy + Sized {
    fn same_key(&self, other: &Self) -> (same: bool)
        ensures
            same == (*self == *other),
    ;
}

impl MapKey for u64 {
    fn same_key(&self, other: &Self) -> (same: bool) {
        *self == *other
    }
}

/// True when no two entries of `s` carry the same key.
pub open spec fn keys_distinct<K, V>(s: Seq<(K, V)>) -> bool {
    forall|i: int, j: int|
        0 <= i < s.len() && 0 <= j < s.len() && i != j ==> #[trigger] s[i].0 != #[trigger] s[j].0
}

/// True when some entry of `s` carries the key `k`.
pub open spec fn has_key<K, V>(s: Seq<(K, V)>, k: K) -> bool {
    exists|i: int| 0 <= i < s.len() && #[trigger] s[i].0 == k
}

/// The map that an entry sequence stands for.
pub open spec fn seq_map<K, V>(s: Seq<(K, V)>) -> Map<K, V> {
    Map::new(
        |k: K| has_key(s, k),
        |k: K| s[choose|i: int| 0 <= i < s.len() && #[trigger] s[i].0 == k].1,
    )
}

pub proof fn lemma_seq_map_index<K, V>(s: Seq<(K, V)>, i: int)
    requires
        keys_distinct(s),
        0 <= i < s.len(),
    ensures
        seq_map(s).contains_key(s[i].0),
        seq_map(s)[s[i].0] == s[i].1,
{
    let k = s[i].0;
    assert(has_key(s, k));
    let j = choose|j: int| 0 <= j < s.len() && #[trigger] s[j].0 == k;
    if j != i {
        assert(s[i].0 != s[j].0);
    }
}

pub proof fn lemma_seq_map_absent<K, V>(s: Seq<(K, V)>, k: K)
    requires
        forall|i: int| 0 <= i < s.len() ==> #[trigger] s[i].0 != k,
    ensures
        !seq_map(s).contains_key(k),
{
}

pub proof fn lemma_seq_map_update<K, V>(s: Seq<(K, V)>, i: int, v: V)
    requires
        keys_distinct(s),
        0 <= i < s.len(),
    ensures
        keys_distinct(s.update(i, (s[i].0, v))),
        seq_map(s.update(i, (s[i].0, v))) =~= seq_map(s).insert(s[i].0, v),
{
    let t = s.update(i, (s[i].0, v));
    assert forall|a: int, b: int|
        0 <= a < t.len() && 0 <= b < t.len() && a != b implies #[trigger] t[a].0 != #[trigger] t[b].0 by {
        assert(t[a].0 == s[a].0 && t[b].0 == s[b].0);
    }
    assert forall|k: K| #[trigger] seq_map(t).contains_key(k) <==> seq_map(s).insert(s[i].0, v).contains_key(k) by {
        if has_key(s, k) {
            let j = choose|j: int| 0 <= j < s.len() && #[trigger] s[j].0 == k;
            assert(t[j].0 == k);
        }
        if has_key(t, k) {
            let j = choose|j: int| 0 <= j < t.len() && #[trigger] t[j].0 == k;
            assert(s[j].0 == k);
        }
    }
    assert forall|k: K| #[trigger] seq_map(t).contains_key(k) implies seq_map(t)[k] == seq_map(s).insert(s[i].0, v)[k] by {
        let j = choose|j: int| 0 <= j < t.len() && #[trigger] t[j].0 == k;
        lemma_seq_map_index(t, j);
        assert(s[j].0 == k);
        lemma_seq_map_index(s, j);
        if j != i {
            assert(s[i].0 != s[j].0);
        }
    }
}

pub proof fn lemma_seq_map_push<K, V>(s: Seq<(K, V)>, k: K, v: V)
    requires
        keys_distinct(s),
        !seq_map(s).contains_key(k),
    ensures
        keys_distinct(s.push((k, v))),
        seq_map(s.push((k, v))) =~= seq_map(s).insert(k, v),
{
    let t = s.push((k, v));
    assert forall|a: int, b: int|
        0 <= a < t.len() && 0 <= b < t.len() && a != b implies #[trigger] t[a].0 != #[trigger] t[b].0 by {
        if a < s.len() && b < s.len() {
            assert(t[a].0 == s[a].0 && t[b].0 == s[b].0);
        } else if a < s.len() {
            assert(t[a].0 == s[a].0);
            assert(has_key(s, s[a].0));
        } else {
            assert(t[b].0 == s[b].0);
            assert(has_key(s, s[b].0));
        }
    }
    assert forall|q: K| #[trigger] seq_map(t).contains_key(q) <==> seq_map(s).insert(k, v).contains_key(q) by {
        if has_key(s, q) {
            let j = choose|j: int| 0 <= j < s.len() && #[trigger] s[j].0 == q;
            assert(t[j].0 == q);
        }
        if q == k {
            assert(t[s.len() as int].0 == k);
        }
        if has_key(t, q) {
            let j = choose|j: int| 0 <= j < t.len() && #[trigger] t[j].0 == q;
            if j < s.len() {
                assert(s[j].0 == q);
            }
        }
    }
    assert forall|q: K| #[trigger] seq_map(t).contains_key(q) implies seq_map(t)[q] == seq_map(s).insert(k, v)[q] by {
        let j = choose|j: int| 0 <= j < t.len() && #[trigger] t[j].0 == q;
        lemma_seq_map_index(t, j);
        if j < s.len() {
            assert(s[j].0 == q);
            lemma_seq_map_index(s, j);
        }
    }
}

pub proof fn lemma_seq_map_remove<K, V>(s: Seq<(K, V)>, i: int)
    requires
        keys_distinct(s),
        0 <= i < s.len(),
    ensures
        keys_distinct(s.remove(i)),
        seq_map(s.remove(i)) =~= seq_map(s).remove(s[i].0),
{
    let t = s.remove(i);
    let k = s[i].0;
    assert forall|a: int| 0 <= a < t.len() implies #[trigger] t[a] == s[if a < i { a } else { a + 1 }] by {}
    assert forall|a: int, b: int|
        0 <= a < t.len() && 0 <= b < t.len() && a != b implies #[trigger] t[a].0 != #[trigger] t[b].0 by {
        let sa = if a < i { a } else { a + 1 };
        let sb = if b < i { b } else { b + 1 };
        assert(t[a] == s[sa] && t[b] == s[sb]);
    }
    assert forall|q: K| #[trigger] seq_map(t).contains_key(q) <==> seq_map(s).remove(k).contains_key(q) by {
        if has_key(s, q) && q != k {
            let j = choose|j: int| 0 <= j < s.len() && #[trigger] s[j].0 == q;
            assert(j != i);
            let tj = if j < i { j } else { j - 1 };
            assert(t[tj] == s[j]);
        }
        if has_key(t, q) {
            let j = choose|j: int| 0 <= j < t.len() && #[trigger] t[j].0 == q;
            let sj = if j < i { j } else { j + 1 };
            assert(t[j] == s[sj]);
            assert(sj != i);
            assert(s[sj].0 != s[i].0);
        }
    }
    assert forall|q: K| #[trigger] seq_map(t).contains_key(q) implies seq_map(t)[q] == seq_map(s).remove(k)[q] by {
        let j = choose|j: int| 0 <= j < t.len() && #[trigger] t[j].0 == q;
        lemma_seq_map_index(t, j);
        let sj = if j < i { j } else { j + 1 };
        assert(t[j] == s[sj]);
        lemma_seq_map_index(s, sj);
    }
}

pub proof fn lemma_seq_map_insert<K, V>(s: Seq<(K, V)>, pos: int, k: K, v: V)
    requires
        keys_distinct(s),
        !seq_map(s).contains_key(k),
        0 <= pos <= s.len(),
    ensures
        keys_distinct(s.insert(pos, (k, v))),
        seq_map(s.insert(pos, (k, v))) =~= seq_map(s).insert(k, v),
{
    let t = s.insert(pos, (k, v));
    assert forall|a: int| 0 <= a < t.len() implies #[trigger] t[a] == if a < pos {
        s[a]
    } else if a == pos {
        (k, v)
    } else {
        s[a - 1]
    } by {}
    assert forall|i: int| 0 <= i < s.len() implies #[trigger] s[i].0 != k by {
        if s[i].0 == k {
            assert(has_key(s, k));
        }
    }
    assert forall|a: int, b: int|
        0 <= a < t.len() && 0 <= b < t.len() && a != b implies #[trigger] t[a].0 != #[trigger] t[b].0 by {
        let sa = if a < pos { a } else { a - 1 };
        let sb = if b < pos { b } else { b - 1 };
        if a != pos && b != pos {
            assert(t[a] == s[sa] && t[b] == s[sb]);
            assert(sa != sb);
        } else if a == pos {
            assert(t[b] == s[sb]);
        } else {
            assert(t[a] == s[sa]);
        }
    }
    assert forall|q: K| #[trigger] seq_map(t).contains_key(q) <==> seq_map(s).insert(k, v).contains_key(q) by {
        if has_key(s, q) {
            let j = choose|j: int| 0 <= j < s.len() && #[trigger] s[j].0 == q;
            let tj = if j < pos { j } else { j + 1 };
            assert(t[tj] == s[j]);
        }
        if q == k {
            assert(t[pos].0 == k);
        }
        if has_key(t, q) && q != k {
            let j = choose|j: int| 0 <= j < t.len() && #[trigger] t[j].0 == q;
            let sj = if j < pos { j } else { j - 1 };
            assert(t[j] == s[sj]);
        }
    }
    assert forall|q: K| #[trigger] seq_map(t).contains_key(q) implies seq_map(t)[q] == seq_map(s).insert(k, v)[q] by {
        let j = choose|j: int| 0 <= j < t.len() && #[trigger] t[j].0 == q;
        lemma_seq_map_index(t, j);
        if j != pos {
            let sj = if j < pos { j } else { j - 1 };
            assert(t[j] == s[sj]);
            lemma_seq_map_index(s, sj);
        }
    }
}

/// True when the keys of `s` increase strictly from first to last.
pub open spec fn keys_increasing<V>(s: Seq<(u64, V)>) -> bool {
    forall|i: int, j: int| 0 <= i < j < s.len() ==> #[trigger] s[i].0 < #[trigger] s[j].0
}

pub proof fn lemma_increasing_keys_distinct<V>(s: Seq<(u64, V)>)
    requires
        keys_increasing(s),
    ensures
        keys_distinct(s),
{
    assert forall|i: int, j: int| 0 <= i < s.len() && 0 <= j < s.len() && i != j implies #[trigger] s[i].0
        != #[trigger] s[j].0 by {
        if i < j {
            assert(s[i].0 < s[j].0);
        } else {
            assert(s[j].0 < s[i].0);
        }
    }
}

/// Inserting a key that is absent at the place its order asks for keeps the
/// keys increasing.
pub proof fn lemma_insert_keeps_increasing<V>(s: Seq<(u64, V)>, pos: int, k: u64, v: V)
    requires
        keys_increasing(s),
        0 <= pos <= s.len(),
        forall|j: int| 0 <= j < pos ==> #[trigger] s[j].0 < k,
        forall|j: int| pos <= j < s.len() ==> #[trigger] s[j].0 > k,
    ensures
        keys_increasing(s.insert(pos, (k, v))),
{
    let t = s.insert(pos, (k, v));
    assert forall|a: int, b: int| 0 <= a < b < t.len() implies #[trigger] t[a].0 < #[trigger] t[b].0 by {
        let sa = if a < pos { a } else { a - 1 };
        let sb = if b < pos { b } else { b - 1 };
        if a != pos && b != pos {
            assert(t[a] == s[sa] && t[b] == s[sb]);
            assert(sa < sb);
        } else if a == pos {
            assert(t[b] == s[sb]);
        } else {
            assert(t[a] == s[sa]);
        }
    }
}

/// The first position whose key is not below `key`.
pub fn sorted_position<V>(entries: &Vec<(u64, V)>, key: u64) -> (pos: usize)
    requires
        keys_increasing(entries@),
    ensures
        pos <= entries@.len(),
        forall|j: int| 0 <= j < pos ==> #[trigger] entries@[j].0 < key,
        forall|j: int| pos <= j < entries@.len() ==> #[trigger] entries@[j].0 >= key,
{
    let mut pos: usize = 0;
    while pos < entries.len() && entries[pos].0 < key
        invariant
            keys_increasing(entries@),
            pos <= entries@.len(),
            forall|j: int| 0 <= j < pos ==> #[trigger] entries@[j].0 < key,
        decreases entries@.len() - pos,
    {
        pos = pos + 1;
    }
    proof {
        assert forall|j: int| pos <= j < entries@.len() implies #[trigger] entries@[j].0 >= key by {
            if j > pos {
                assert(entries@[pos as int].0 < entries@[j].0);
            }
        }
    }
    pos
}

/// The entries ordered by increasing key.
pub fn sorted_by_key<V: Copy>(entries: &Vec<(u64, V)>) -> (sorted: Vec<(u64, V)>)
    requires
        keys_distinct(entries@),
    ensures
        keys_increasing(sorted@),
        keys_distinct(sorted@),
        seq_map(sorted@) == seq_map(entries@),
{
    let mut sorted: Vec<(u64, V)> = Vec::new();
    let mut i: usize = 0;
    assert(seq_map(sorted@) =~= seq_map(entries@.subrange(0, 0)));
    while i < entries.len()
        invariant
            keys_distinct(entries@),
            i <= entries@.len(),
            keys_increasing(sorted@),
            seq_map(sorted@) == seq_map(entries@.subrange(0, i as int)),
        decreases entries@.len() - i,
    {
        let (key, value) = entries[i];
        let ghost prefix = entries@.subrange(0, i as int);
        proof {
            lemma_increasing_keys_distinct(sorted@);
            assert(keys_distinct(prefix)) by {
                assert forall|a: int, b: int| 0 <= a < prefix.len() && 0 <= b < prefix.len() && a != b implies #[trigger] prefix[a].0
                    != #[trigger] prefix[b].0 by {
                    assert(prefix[a] == entries@[a] && prefix[b] == entries@[b]);
                }
            }
            assert(!seq_map(prefix).contains_key(key)) by {
                if has_key(prefix, key) {
                    let j = choose|j: int| 0 <= j < prefix.len() && #[trigger] prefix[j].0 == key;
                    assert(entries@[j].0 == entries@[i as int].0);
                }
            }
            lemma_seq_map_push(prefix, key, value);
            assert(entries@.subrange(0, i + 1) =~= prefix.push((key, value)));
        }
        let pos = sorted_position(&sorted, key);
        proof {
            assert forall|j: int| pos <= j < sorted@.len() implies #[trigger] sorted@[j].0 > key by {
                if sorted@[j].0 == key {
                    assert(has_key(sorted@, key));
                }
            }
            lemma_insert_keeps_increasing(sorted@, pos as int, key, value);
            lemma_seq_map_insert(sorted@, pos as int, key, value);
        }
        sorted.insert(pos, (key, value));
        i = i + 1;
    }
    proof {
        assert(entries@.subrange(0, entries@.len() as int) =~= entries@);
        lemma_increasing_keys_distinct(sorted@);
    }
    sorted
}

/// A map stored as a vector of entries whose keys never repeat.
pub struct VecMap<K, V> {
    entries: Vec<(K, V)>,
}

impl<K, V> View for VecMap<K, V> {
    type V = Map<K, V>;

    closed spec fn view(&self) -> Map<K, V> {
        seq_map(self.entries@)
    }
}

impl<K: MapKey, V: Copy> VecMap<K, V> {
    /// The entries in storage order.
    pub closed spec fn entry_seq(self) -> Seq<(K, V)> {
        self.entries@
    }

    /// Well-formedness: keys are distinct, so the entries describe the view.
    pub closed spec fn wf(self) -> bool {
        keys_distinct(self.entries@)
    }

    pub proof fn lemma_view(self)
        requires
            self.wf(),
        ensures
            self@ == seq_map(self.entry_seq()),
            keys_distinct(self.entry_seq()),
    {
    }

    pub fn new() -> (map: Self)
        ensures
            map.wf(),
            map@ == Map::<K, V>::empty(),
            map.entry_seq() == Seq::<(K, V)>::empty(),
    {
        let map = VecMap { entries: Vec::new() };
        assert(map@ =~= Map::<K, V>::empty());
        map
    }

    fn find(&self, key: &K) -> (index: Option<usize>)
        requires
            self.wf(),
        ensures
            match index {
                Some(i) => i < self.entries@.len() && self.entries@[i as int].0 == *key,
                None => forall|i: int| 0 <= i < self.entries@.len() ==> #[trigger] self.entries@[i].0 != *key,
            },
    {
        let mut i: usize = 0;
        while i < self.entries.len()
            invariant
                i <= self.entries@.len(),
                forall|j: int| 0 <= j < i ==> #[trigger] self.entries@[j].0 != *key,
            decreases self.entries@.len() - i,
        {
            if self.entries[i].0.same_key(key) {
                return Some(i);
            }
            i = i + 1;
        }
        None
    }

    pub fn get(&self, key: &K) -> (value: Option<V>)
        requires
            self.wf(),
        ensures
            value == (if self@.contains_key(*key) { Some(self@[*key]) } else { None::<V> }),
    {
        match self.find(key) {
            Some(i) => {
                proof {
                    lemma_seq_map_index(self.entries@, i as int);
                }
                Some(self.entries[i].1)
            },
            None => {
                proof {
                    lemma_seq_map_absent(self.entries@, *key);
                }
                None
            },
        }
    }

    pub fn contains_key(&self, key: &K) -> (present: bool)
        requires
            self.wf(),
        ensures
            present == self@.contains_key(*key),
    {
        self.get(key).is_some()
    }

    pub fn insert(&mut self, key: K, value: V)
        requires
            old(self).wf(),
        ensures
            final(self).wf(),
            final(self)@ == old(self)@.insert(key, value),
    {
        match self.find(&key) {
            Some(i) => {
                proof {
                    lemma_seq_map_update(self.entries@, i as int, value);
                }
                self.entries.set(i, (key, value));
            },
            None => {
                proof {
                    lemma_seq_map_absent(self.entries@, key);
                    lemma_seq_map_push(self.entries@, key, value);
                }
                self.entries.push((key, value));
            },
        }
    }

    pub fn remove(&mut self, key: &K) -> (removed: Option<V>)
        requires
            old(self).wf(),
        ensures
            final(self).wf(),
            final(self)@ == old(self)@.remove(*key),
            removed == (if old(self)@.contains_key(*key) { Some(old(self)@[*key]) } else { None::<V> }),
    {
        match self.find(key) {
            Some(i) => {
                proof {
                    lemma_seq_map_index(self.entries@, i as int);
                    lemma_seq_map_remove(self.entries@, i as int);
                }
                let entry = self.entries.remove(i);
                Some(entry.1)
            },
            None => {
                proof {
                    lemma_seq_map_absent(self.entries@, *key);
                    assert(self@.remove(*key) =~= self@);
                }
                None
            },
        }
    }

    pub fn clear(&mut self)
        ensures
            final(self).wf(),
            final(self)@ == Map::<K, V>::empty(),
    {
        self.entries.clear();
        assert(self@ =~= Map::<K, V>::empty());
    }

    /// Replaces every value by what `f` computes from its key and value.
    pub fn map_values<F: Fn(K, V) -> V>(&mut self, f: F)
        requires
            old(self).wf(),
            forall|k: K, v: V| #[trigger] f.requires((k, v)),
        ensures
            final(self).wf(),
            final(self)@.dom() == old(self)@.dom(),
            forall|k: K|
                #[trigger] old(self)@.contains_key(k) ==> f.ensures((k, old(self)@[k]), final(self)@[k]),
    {
        let ghost start = self@;
        let snapshot = self.entries();
        proof {
            self.lemma_view();
        }
        let mut i: usize = 0;
        while i < snapshot.len()
            invariant
                forall|k: K, v: V| #[trigger] f.requires((k, v)),
                self.wf(),
                keys_distinct(snapshot@),
                seq_map(snapshot@) == start,
                i <= snapshot@.len(),
                self@.dom() == start.dom(),
                forall|j: int| 0 <= j < i ==> f.ensures(((#[trigger] snapshot@[j]).0, snapshot@[j].1), self@[snapshot@[j].0]),
                forall|j: int| i <= j < snapshot@.len() ==> self@[(#[trigger] snapshot@[j]).0] == snapshot@[j].1,
            decreases snapshot@.len() - i,
        {
            let (key, value) = snapshot[i];
            let updated = f(key, value);
            proof {
                lemma_seq_map_index(snapshot@, i as int);
            }
            self.insert(key, updated);
            proof {
                assert forall|j: int| i < j < snapshot@.len() implies self@[(#[trigger] snapshot@[j]).0] == snapshot@[j].1 by {
                    assert(snapshot@[j].0 != snapshot@[i as int].0);
                }
                assert forall|j: int| 0 <= j < i implies f.ensures(((#[trigger] snapshot@[j]).0, snapshot@[j].1), self@[snapshot@[j].0]) by {
                    assert(snapshot@[j].0 != snapshot@[i as int].0);
                }
                assert(self@.dom() =~= start.dom());
            }
            i = i + 1;
        }
        proof {
            assert forall|k: K| #[trigger] start.contains_key(k) implies f.ensures((k, start[k]), self@[k]) by {
                let j = choose|j: int| 0 <= j < snapshot@.len() && #[trigger] snapshot@[j].0 == k;
                lemma_seq_map_index(snapshot@, j);
            }
        }
    }

    /// Keeps exactly the entries for which `keep` answers true.
    pub fn retain<F: Fn(K, V) -> bool>(&mut self, keep: F)
        requires
            old(self).wf(),
            forall|k: K, v: V| #[trigger] keep.requires((k, v)),
        ensures
            final(self).wf(),
            forall|k: K| #[trigger] final(self)@.contains_key(k) ==> old(self)@.contains_key(k) && final(self)@[k] == old(self)@[k],
            forall|k: K|
                #[trigger] old(self)@.contains_key(k) ==> keep.ensures((k, old(self)@[k]), final(self)@.contains_key(k)),
    {
        let ghost start = self@;
        let snapshot = self.entries();
        proof {
            self.lemma_view();
        }
        let mut i: usize = 0;
        while i < snapshot.len()
            invariant
                forall|k: K, v: V| #[trigger] keep.requires((k, v)),
                self.wf(),
                keys_distinct(snapshot@),
                seq_map(snapshot@) == start,
                i <= snapshot@.len(),
                forall|k: K| #[trigger] self@.contains_key(k) ==> start.contains_key(k) && self@[k] == start[k],
                forall|j: int| 0 <= j < i ==> keep.ensures(((#[trigger] snapshot@[j]).0, snapshot@[j].1), self@.contains_key(snapshot@[j].0)),
                forall|j: int| i <= j < snapshot@.len() ==> self@.contains_key((#[trigger] snapshot@[j]).0),
            decreases snapshot@.len() - i,
        {
            let (key, value) = snapshot[i];
            proof {
                lemma_seq_map_index(snapshot@, i as int);
            }
            if !keep(key, value) {
                self.remove(&key);
            }
            proof {
                assert forall|j: int| i < j < snapshot@.len() implies self@.contains_key((#[trigger] snapshot@[j]).0) by {
                    assert(snapshot@[j].0 != snapshot@[i as int].0);
                }
                assert forall|j: int| 0 <= j < i implies keep.ensures(((#[trigger] snapshot@[j]).0, snapshot@[j].1), self@.contains_key(snapshot@[j].0)) by {
                    assert(snapshot@[j].0 != snapshot@[i as int].0);
                }
            }
            i = i + 1;
        }
        proof {
            assert forall|k: K| #[trigger] start.contains_key(k) implies keep.ensures((k, start[k]), self@.contains_key(k)) by {
                let j = choose|j: int| 0 <= j < snapshot@.len() && #[trigger] snapshot@[j].0 == k;
                lemma_seq_map_index(snapshot@, j);
            }
        }
    }

    /// The number of keys.
    pub fn len(&self) -> (count: usize)
        requires
            self.wf(),
        ensures
            count == self@.dom().len(),
            self@.dom().finite(),
    {
        proof {
            let s = self.entries@;
            let keys = s.map_values(|e: (K, V)| e.0);
            assert(keys.no_duplicates()) by {
                assert forall|i: int, j: int| 0 <= i < keys.len() && 0 <= j < keys.len() && i != j
                    implies keys[i] != keys[j] by {
                    assert(s[i].0 != s[j].0);
                }
            }
            keys.unique_seq_to_set();
            vstd::seq_lib::seq_to_set_is_finite(keys);
            assert(self@.dom() =~= keys.to_set()) by {
                assert forall|k: K| self@.dom().contains(k) implies keys.to_set().contains(k) by {
                    let j = choose|j: int| 0 <= j < s.len() && #[trigger] s[j].0 == k;
                    assert(keys[j] == k);
                }
                assert forall|k: K| keys.to_set().contains(k) implies self@.dom().contains(k) by {
                    let j = choose|j: int| 0 <= j < keys.len() && keys[j] == k;
                    assert(s[j].0 == k);
                }
            }
        }
        self.entries.len()
    }

    /// The entries in storage order, each key once.
    pub fn entries(&self) -> (entries: Vec<(K, V)>)
        requires
            self.wf(),
        ensures
            entries@ == self.entry_seq(),
    {
        let mut copy: Vec<(K, V)> = Vec::new();
        let mut i: usize = 0;
        while i < self.entries.len()
            invariant
                i <= self.entries@.len(),
                copy@ == self.entries@.subrange(0, i as int),
            decreases self.entries@.len() - i,
        {
            let entry = self.entries[i];
            copy.push(entry);
            i = i + 1;
            assert(copy@ =~= self.entries@.subrange(0, i as int));
        }
        assert(copy@ =~= self.entries@);
        copy
    }
}

} // verus!
