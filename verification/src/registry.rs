//! A small keyed table from strings to values.
//!
//! Every piece of shared bookkeeping of the SQL-file routes (pending upload
//! clean-ups, running executions, progress channels, stored terminal
//! progress) is a table keyed by a path or an execution id. The table is a
//! vector of pairs whose keys are pairwise distinct; its model is a finite
//! `Map` from the key's characters to the value.
use vstd::prelude::*;

verus! {

/// True when `key` is the key of some entry of `s`.
pub open spec fn has_key<V>(s: Seq<(String, V)>, key: Seq<char>) -> bool {
    exists|i: int| 0 <= i < s.len() && #[trigger] s[i].0@ == key
}

/// No two entries of `s` share a key.
pub open spec fn keys_distinct<V>(s: Seq<(String, V)>) -> bool {
    forall|i: int, j: int|
        0 <= i < s.len() && 0 <= j < s.len() && i != j ==> #[trigger] s[i].0@ != #[trigger] s[j].0@
}

/// The map that a sequence of entries stands for.
pub open spec fn entries_map<V>(s: Seq<(String, V)>) -> Map<Seq<char>, V> {
    Map::new(
        |k: Seq<char>| has_key(s, k),
        |k: Seq<char>| s[choose|i: int| 0 <= i < s.len() && #[trigger] s[i].0@ == k].1,
    )
}

/// With distinct keys, the entry at `i` gives the map's value at its key.
pub proof fn lemma_entries_map_at<V>(s: Seq<(String, V)>, i: int)
    requires
        keys_distinct(s),
        0 <= i < s.len(),
    ensures
        entries_map(s).contains_key(s[i].0@),
        entries_map(s)[s[i].0@] == s[i].1,
{
    let k = s[i].0@;
    assert(has_key(s, k));
    let j = choose|j: int| 0 <= j < s.len() && #[trigger] s[j].0@ == k;
    assert(j == i);
}

/// The map of a sequence extended by an entry with a fresh key.
proof fn lemma_entries_map_push<V>(s: Seq<(String, V)>, key: String, value: V)
    requires
        keys_distinct(s),
        !has_key(s, key@),
    ensures
        keys_distinct(s.push((key, value))),
        entries_map(s.push((key, value))) =~= entries_map(s).insert(key@, value),
{
    let t = s.push((key, value));
    assert forall|i: int, j: int|
        0 <= i < t.len() && 0 <= j < t.len() && i != j implies #[trigger] t[i].0@ != #[trigger] t[j].0@ by {
        if i < s.len() && j < s.len() {
            assert(t[i] == s[i] && t[j] == s[j]);
        } else if i < s.len() {
            assert(t[i] == s[i]);
        } else {
            assert(t[j] == s[j]);
        }
    }
    assert forall|k: Seq<char>| #[trigger] entries_map(t).contains_key(k) <==> entries_map(s).insert(
        key@,
        value,
    ).contains_key(k) by {
        if has_key(s, k) {
            let i = choose|i: int| 0 <= i < s.len() && #[trigger] s[i].0@ == k;
            assert(t[i] == s[i]);
        }
        if k == key@ {
            assert(t[s.len() as int].0@ == k);
        }
        if has_key(t, k) && k != key@ {
            let i = choose|i: int| 0 <= i < t.len() && #[trigger] t[i].0@ == k;
            assert(i < s.len());
            assert(t[i] == s[i]);
        }
    }
    assert forall|k: Seq<char>| #[trigger] entries_map(t).contains_key(k) implies entries_map(t)[k]
        == entries_map(s).insert(key@, value)[k] by {
        let i = choose|i: int| 0 <= i < t.len() && #[trigger] t[i].0@ == k;
        lemma_entries_map_at(t, i);
        if i < s.len() {
            assert(t[i] == s[i]);
            lemma_entries_map_at(s, i);
        }
    }
}

/// The map of a sequence with the entry at `i` removed.
proof fn lemma_entries_map_remove<V>(s: Seq<(String, V)>, i: int)
    requires
        keys_distinct(s),
        0 <= i < s.len(),
    ensures
        keys_distinct(s.remove(i)),
        entries_map(s.remove(i)) =~= entries_map(s).remove(s[i].0@),
{
    let t = s.remove(i);
    let key = s[i].0@;
    assert forall|a: int, b: int|
        0 <= a < t.len() && 0 <= b < t.len() && a != b implies #[trigger] t[a].0@ != #[trigger] t[b].0@ by {
        let a2 = if a < i { a } else { a + 1 };
        let b2 = if b < i { b } else { b + 1 };
        assert(t[a] == s[a2] && t[b] == s[b2]);
    }
    assert forall|k: Seq<char>| #[trigger] entries_map(t).contains_key(k) <==> entries_map(s).remove(
        key,
    ).contains_key(k) by {
        if has_key(t, k) {
            let a = choose|a: int| 0 <= a < t.len() && #[trigger] t[a].0@ == k;
            let a2 = if a < i { a } else { a + 1 };
            assert(t[a] == s[a2]);
            assert(s[a2].0@ == k);
        }
        if has_key(s, k) && k != key {
            let a = choose|a: int| 0 <= a < s.len() && #[trigger] s[a].0@ == k;
            assert(a != i);
            let a2 = if a < i { a } else { a - 1 };
            assert(t[a2] == s[a]);
        }
    }
    assert forall|k: Seq<char>| #[trigger] entries_map(t).contains_key(k) implies entries_map(t)[k]
        == entries_map(s).remove(key)[k] by {
        let a = choose|a: int| 0 <= a < t.len() && #[trigger] t[a].0@ == k;
        lemma_entries_map_at(t, a);
        let a2 = if a < i { a } else { a + 1 };
        assert(t[a] == s[a2]);
        lemma_entries_map_at(s, a2);
    }
}

/// A table from string keys to values, with at most one value per key.
pub struct Registry<V> {
    entries: Vec<(String, V)>,
}

impl<V> View for Registry<V> {
    type V = Map<Seq<char>, V>;

    closed spec fn view(&self) -> Map<Seq<char>, V> {
        entries_map(self.entries@)
    }
}

impl<V> Registry<V> {
    /// The table's internal invariant: no key occurs twice.
    pub closed spec fn wf(&self) -> bool {
        keys_distinct(self.entries@)
    }

    /// An empty table.
    pub fn new() -> (r: Self)
        ensures
            r.wf(),
            r@ == Map::<Seq<char>, V>::empty(),
    {
        let r = Registry { entries: Vec::new() };
        assert(r@ =~= Map::<Seq<char>, V>::empty());
        r
    }

    /// The index of the entry with the given key, if there is one.
    fn position(&self, key: &String) -> (r: Option<usize>)
        requires
            self.wf(),
        ensures
            match r {
                Some(i) => i < self.entries@.len() && self.entries@[i as int].0@ == key@,
                None => !has_key(self.entries@, key@),
            },
    {
        let n = self.entries.len();
        let mut i: usize = 0;
        while i < n
            invariant
                n == self.entries@.len(),
                i <= n,
                forall|j: int| 0 <= j < i ==> #[trigger] self.entries@[j].0@ != key@,
            decreases n - i,
        {
            if self.entries[i].0 == *key {
                return Some(i);
            }
            i = i + 1;
        }
        None
    }

    /// The number of keys in the table.
    pub fn len(&self) -> (r: usize)
        requires
            self.wf(),
        ensures
            r == self@.dom().len(),
    {
        proof {
            self.lemma_len();
        }
        self.entries.len()
    }

    proof fn lemma_len(&self)
        requires
            self.wf(),
        ensures
            self@.dom().len() == self.entries@.len(),
    {
        lemma_entries_map_len(self.entries@);
    }

    /// Whether the table has an entry for `key`.
    pub fn contains_key(&self, key: &String) -> (r: bool)
        requires
            self.wf(),
        ensures
            r == self@.contains_key(key@),
    {
        match self.position(key) {
            Some(i) => {
                proof {
                    lemma_entries_map_at(self.entries@, i as int);
                }
                true
            },
            None => false,
        }
    }

    /// The value stored under `key`, if any.
    pub fn get(&self, key: &String) -> (r: Option<&V>)
        requires
            self.wf(),
        ensures
            match r {
                Some(v) => self@.contains_key(key@) && *v == self@[key@],
                None => !self@.contains_key(key@),
            },
    {
        match self.position(key) {
            Some(i) => {
                proof {
                    lemma_entries_map_at(self.entries@, i as int);
                }
                Some(&self.entries[i].1)
            },
            None => None,
        }
    }

    /// Removes the entry for `key` and hands back its value, if there was one.
    pub fn remove(&mut self, key: &String) -> (r: Option<V>)
        requires
            old(self).wf(),
        ensures
            final(self).wf(),
            final(self)@ == old(self)@.remove(key@),
            match r {
                Some(v) => old(self)@.contains_key(key@) && v == old(self)@[key@],
                None => !old(self)@.contains_key(key@),
            },
    {
        match self.position(key) {
            Some(i) => {
                proof {
                    lemma_entries_map_at(self.entries@, i as int);
                    lemma_entries_map_remove(self.entries@, i as int);
                }
                let (_, v) = self.entries.remove(i);
                Some(v)
            },
            None => {
                assert(self@ =~= old(self)@.remove(key@));
                None
            },
        }
    }

    /// Keeps the entries whose value `keep` accepts and drops the others.
    ///
    /// Each kept entry is one for which `keep` answered `true`, each dropped
    /// one an entry for which it answered `false`; kept values are unchanged.
    pub fn retain<F: Fn(&V) -> bool>(&mut self, keep: &F)
        requires
            old(self).wf(),
            forall|v: V| #[trigger] keep.requires((&v,)),
        ensures
            final(self).wf(),
            forall|k: Seq<char>| #[trigger]
                final(self)@.contains_key(k) ==> old(self)@.contains_key(k) && final(self)@[k]
                    == old(self)@[k] && keep.ensures((&old(self)@[k],), true),
            forall|k: Seq<char>|
                #[trigger] old(self)@.contains_key(k) && !final(self)@.contains_key(k) ==> keep.ensures(
                    (&old(self)@[k],),
                    false,
                ),
    {
        let ghost s = self.entries@;
        let ghost mut answers: Seq<bool> = Seq::empty();
        // origin[d]: the entry that doomed key d came from;
        // slot[a]: where the key of a rejected entry a sits among the doomed keys.
        let ghost mut origin: Seq<int> = Seq::empty();
        let ghost mut slot: Seq<int> = Seq::empty();
        let mut doomed: Vec<String> = Vec::new();
        let n = self.entries.len();
        let mut i: usize = 0;
        while i < n
            invariant
                self.entries@ == s,
                keys_distinct(s),
                n == s.len(),
                i <= n,
                answers.len() == i,
                slot.len() == i,
                origin.len() == doomed@.len(),
                forall|v: V| #[trigger] keep.requires((&v,)),
                forall|a: int| 0 <= a < i ==> keep.ensures((&s[a].1,), #[trigger] answers[a]),
                forall|d: int|
                    0 <= d < doomed@.len() ==> 0 <= #[trigger] origin[d] < i && !answers[origin[d]]
                        && doomed@[d]@ == s[origin[d]].0@,
                forall|a: int|
                    0 <= a < i && !#[trigger] answers[a] ==> 0 <= slot[a] < doomed@.len()
                        && doomed@[slot[a]]@ == s[a].0@,
            decreases n - i,
        {
            let kept = keep(&self.entries[i].1);
            proof {
                answers = answers.push(kept);
                slot = slot.push(doomed@.len() as int);
            }
            if !kept {
                let key = self.entries[i].0.clone();
                doomed.push(key);
                proof {
                    origin = origin.push(i as int);
                }
            }
            i = i + 1;
        }
        let m = doomed.len();
        let mut j: usize = 0;
        while j < m
            invariant
                m == doomed@.len(),
                j <= m,
                self.wf(),
                keys_distinct(s),
                forall|k: Seq<char>| #[trigger]
                    self@.contains_key(k) <==> (entries_map(s).contains_key(k) && !(exists|d: int|
                        0 <= d < j && #[trigger] doomed@[d]@ == k)),
                forall|k: Seq<char>| #[trigger]
                    self@.contains_key(k) ==> self@[k] == entries_map(s)[k],
            decreases m - j,
        {
            self.remove(&doomed[j]);
            proof {
                assert forall|k: Seq<char>| #[trigger] self@.contains_key(k) <==> (entries_map(
                    s,
                ).contains_key(k) && !(exists|d: int| 0 <= d < j + 1 && #[trigger] doomed@[d]@ == k)) by {
                    if exists|d: int| 0 <= d < j + 1 && #[trigger] doomed@[d]@ == k {
                        let d = choose|d: int| 0 <= d < j + 1 && #[trigger] doomed@[d]@ == k;
                        if d < j {
                        } else {
                            assert(k == doomed@[j as int]@);
                        }
                    }
                }
            }
            j = j + 1;
        }
        proof {
            assert forall|k: Seq<char>| #[trigger] self@.contains_key(k) implies old(self)@.contains_key(k)
                && self@[k] == old(self)@[k] && keep.ensures((&old(self)@[k],), true) by {
                let a = choose|a: int| 0 <= a < s.len() && #[trigger] s[a].0@ == k;
                lemma_entries_map_at(s, a);
                if !answers[a] {
                    let d = slot[a];
                    assert(doomed@[d]@ == k);
                }
            }
            assert forall|k: Seq<char>| #[trigger]
                old(self)@.contains_key(k) && !self@.contains_key(k) implies keep.ensures(
                (&old(self)@[k],),
                false,
            ) by {
                let a = choose|a: int| 0 <= a < s.len() && #[trigger] s[a].0@ == k;
                lemma_entries_map_at(s, a);
                let d = choose|d: int| 0 <= d < m && #[trigger] doomed@[d]@ == k;
                let b = origin[d];
                assert(doomed@[d]@ == s[b].0@);
                assert(a == b);
            }
        }
    }

    /// Stores `value` under `key`, replacing and handing back any value that was there.
    pub fn insert(&mut self, key: String, value: V) -> (r: Option<V>)
        requires
            old(self).wf(),
        ensures
            final(self).wf(),
            final(self)@ == old(self)@.insert(key@, value),
            match r {
                Some(v) => old(self)@.contains_key(key@) && v == old(self)@[key@],
                None => !old(self)@.contains_key(key@),
            },
    {
        let previous = self.remove(&key);
        proof {
            assert(!entries_map(self.entries@).contains_key(key@));
            lemma_entries_map_push(self.entries@, key, value);
        }
        self.entries.push((key, value));
        assert(self@ =~= old(self)@.insert(key@, value));
        previous
    }
}

/// With distinct keys, the map has as many keys as the sequence has entries.
proof fn lemma_entries_map_len<V>(s: Seq<(String, V)>)
    requires
        keys_distinct(s),
    ensures
        entries_map(s).dom().finite(),
        entries_map(s).dom().len() == s.len(),
    decreases s.len(),
{
    if s.len() == 0 {
        assert(entries_map(s).dom() =~= Set::<Seq<char>>::empty());
    } else {
        let init = s.drop_last();
        assert(keys_distinct(init)) by {
            assert forall|i: int, j: int|
                0 <= i < init.len() && 0 <= j < init.len() && i != j implies #[trigger] init[i].0@
                != #[trigger] init[j].0@ by {
                assert(init[i] == s[i] && init[j] == s[j]);
            }
        }
        assert(!has_key(init, s.last().0@)) by {
            if has_key(init, s.last().0@) {
                let i = choose|i: int| 0 <= i < init.len() && #[trigger] init[i].0@ == s.last().0@;
                assert(init[i] == s[i]);
                assert(s[i].0@ == s[s.len() - 1].0@);
            }
        }
        lemma_entries_map_len(init);
        lemma_entries_map_push(init, s.last().0, s.last().1);
        assert(init.push(s.last()) =~= s);
    }
}

} // verus!
