//! A map keyed by strings, kept as a list of entries in insertion order.
//!
//! The registries of the application state (peers, discovered devices,
//! sessions) are maps keyed by string identifiers.  This type holds them as
//! a vector of `(key, value)` entries in which no key occurs twice; its view
//! is the mathematical map from the keys' character sequences to the values.
use vstd::prelude::*;

verus! {

/// The map that a list of entries denotes (a later entry wins over an
/// earlier one with the same key).
pub open spec fn entries_map<V>(s: Seq<(String, V)>) -> Map<Seq<char>, V>
    decreases s.len(),
{
    if s.len() == 0 {
        Map::empty()
    } else {
        entries_map(s.drop_last()).insert(s.last().0@, s.last().1)
    }
}

/// No key occurs twice in the list of entries.
pub open spec fn keys_distinct<V>(s: Seq<(String, V)>) -> bool {
    forall|i: int, j: int|
        0 <= i < s.len() && 0 <= j < s.len() && i != j ==> #[trigger] s[i].0@ != #[trigger] s[j].0@
}

/// A key of the map is exactly a key of some entry.
pub proof fn lemma_entries_map_dom<V>(s: Seq<(String, V)>, k: Seq<char>)
    ensures
        entries_map(s).dom().contains(k) <==> exists|i: int| 0 <= i < s.len() && #[trigger] s[i].0@ == k,
    decreases s.len(),
{
    if s.len() > 0 {
        lemma_entries_map_dom(s.drop_last(), k);
        if entries_map(s).dom().contains(k) && s.last().0@ != k {
            let i = choose|i: int| 0 <= i < s.len() - 1 && #[trigger] s.drop_last()[i].0@ == k;
            assert(s[i].0@ == k);
        }
        if exists|i: int| 0 <= i < s.len() && #[trigger] s[i].0@ == k {
            let i = choose|i: int| 0 <= i < s.len() && #[trigger] s[i].0@ == k;
            if i < s.len() - 1 {
                assert(s.drop_last()[i].0@ == k);
            }
        }
    }
}

/// The map holds each entry's value under that entry's key.
pub proof fn lemma_entries_map_index<V>(s: Seq<(String, V)>, i: int)
    requires
        keys_distinct(s),
        0 <= i < s.len(),
    ensures
        entries_map(s).dom().contains(s[i].0@),
        entries_map(s)[s[i].0@] == s[i].1,
    decreases s.len(),
{
    if i < s.len() - 1 {
        let t = s.drop_last();
        assert(keys_distinct(t)) by {
            assert forall|a: int, b: int| 0 <= a < t.len() && 0 <= b < t.len() && a != b implies #[trigger] t[a].0@ != #[trigger] t[b].0@ by {
                assert(t[a] == s[a] && t[b] == s[b]);
            }
        }
        lemma_entries_map_index(t, i);
        assert(t[i] == s[i]);
        assert(s[i].0@ != s[s.len() - 1].0@);
    }
}

/// A list of entries denotes a finite map.
pub proof fn lemma_entries_map_finite<V>(s: Seq<(String, V)>)
    ensures
        entries_map(s).dom().finite(),
    decreases s.len(),
{
    if s.len() > 0 {
        lemma_entries_map_finite(s.drop_last());
    }
}

/// Appending an entry with a new key inserts it.
pub proof fn lemma_entries_push<V>(s: Seq<(String, V)>, e: (String, V))
    requires
        keys_distinct(s),
        !entries_map(s).dom().contains(e.0@),
    ensures
        keys_distinct(s.push(e)),
        entries_map(s.push(e)) == entries_map(s).insert(e.0@, e.1),
{
    assert(s.push(e).drop_last() =~= s);
    let t = s.push(e);
    assert forall|a: int, b: int| 0 <= a < t.len() && 0 <= b < t.len() && a != b implies #[trigger] t[a].0@ != #[trigger] t[b].0@ by {
        if a == s.len() {
            lemma_entries_map_dom(s, e.0@);
            assert(s[b] == t[b]);
        } else if b == s.len() {
            lemma_entries_map_dom(s, e.0@);
            assert(s[a] == t[a]);
        } else {
            assert(s[a] == t[a] && s[b] == t[b]);
        }
    }
}

/// Replacing an entry by one with the same key overwrites that key's value.
pub proof fn lemma_entries_update<V>(s: Seq<(String, V)>, i: int, e: (String, V))
    requires
        keys_distinct(s),
        0 <= i < s.len(),
        s[i].0@ == e.0@,
    ensures
        keys_distinct(s.update(i, e)),
        entries_map(s.update(i, e)) == entries_map(s).insert(e.0@, e.1),
    decreases s.len(),
{
    let u = s.update(i, e);
    assert forall|a: int, b: int| 0 <= a < u.len() && 0 <= b < u.len() && a != b implies #[trigger] u[a].0@ != #[trigger] u[b].0@ by {
        assert(u[a].0@ == s[a].0@);
        assert(u[b].0@ == s[b].0@);
    }
    if i == s.len() - 1 {
        assert(u.drop_last() =~= s.drop_last());
        assert(entries_map(u) =~= entries_map(s).insert(e.0@, e.1));
    } else {
        let t = s.drop_last();
        assert(keys_distinct(t)) by {
            assert forall|a: int, b: int| 0 <= a < t.len() && 0 <= b < t.len() && a != b implies #[trigger] t[a].0@ != #[trigger] t[b].0@ by {
                assert(t[a] == s[a] && t[b] == s[b]);
            }
        }
        assert(u.drop_last() =~= t.update(i, e));
        lemma_entries_update(t, i, e);
        assert(s.last().0@ != e.0@) by {
            assert(s[s.len() - 1].0@ != s[i].0@);
        }
        assert(u.last() == s.last());
        assert(entries_map(u) =~= entries_map(s).insert(e.0@, e.1));
    }
}

/// Removing an entry removes its key.
pub proof fn lemma_entries_remove<V>(s: Seq<(String, V)>, i: int)
    requires
        keys_distinct(s),
        0 <= i < s.len(),
    ensures
        keys_distinct(s.remove(i)),
        entries_map(s.remove(i)) == entries_map(s).remove(s[i].0@),
    decreases s.len(),
{
    let r = s.remove(i);
    let k = s[i].0@;
    assert forall|a: int, b: int| 0 <= a < r.len() && 0 <= b < r.len() && a != b implies #[trigger] r[a].0@ != #[trigger] r[b].0@ by {
        let sa = if a < i { a } else { a + 1 };
        let sb = if b < i { b } else { b + 1 };
        assert(r[a] == s[sa] && r[b] == s[sb]);
    }
    let t = s.drop_last();
    assert(keys_distinct(t)) by {
        assert forall|a: int, b: int| 0 <= a < t.len() && 0 <= b < t.len() && a != b implies #[trigger] t[a].0@ != #[trigger] t[b].0@ by {
            assert(t[a] == s[a] && t[b] == s[b]);
        }
    }
    if i == s.len() - 1 {
        assert(r =~= t);
        lemma_entries_map_dom(t, k);
        if entries_map(t).dom().contains(k) {
            let j = choose|j: int| 0 <= j < t.len() && #[trigger] t[j].0@ == k;
            assert(t[j] == s[j]);
        }
        assert(entries_map(r) =~= entries_map(s).remove(k));
    } else {
        assert(r.drop_last() =~= t.remove(i));
        assert(t[i] == s[i]);
        lemma_entries_remove(t, i);
        assert(r.last() == s.last());
        assert(s.last().0@ != k) by {
            assert(s[s.len() - 1].0@ != s[i].0@);
        }
        assert(entries_map(r) =~= entries_map(s).remove(k));
    }
}

/// Two lists of entries with the same keys in the same places denote maps
/// with the same keys, each holding its own list's values.
pub proof fn lemma_entries_same_keys<V, W>(s: Seq<(String, V)>, t: Seq<(String, W)>)
    requires
        keys_distinct(s),
        s.len() == t.len(),
        forall|j: int| 0 <= j < s.len() ==> #[trigger] s[j].0@ == t[j].0@,
    ensures
        keys_distinct(t),
        entries_map(s).dom() == entries_map(t).dom(),
        forall|j: int| 0 <= j < t.len() ==> #[trigger] entries_map(t)[t[j].0@] == t[j].1,
{
    assert forall|a: int, b: int| 0 <= a < t.len() && 0 <= b < t.len() && a != b implies #[trigger] t[a].0@ != #[trigger] t[b].0@ by {
        assert(s[a].0@ != s[b].0@);
    }
    assert forall|k: Seq<char>| entries_map(s).dom().contains(k) == entries_map(t).dom().contains(k) by {
        lemma_entries_map_dom(s, k);
        lemma_entries_map_dom(t, k);
        if entries_map(s).dom().contains(k) {
            let j = choose|j: int| 0 <= j < s.len() && #[trigger] s[j].0@ == k;
            assert(t[j].0@ == k);
        }
        if entries_map(t).dom().contains(k) {
            let j = choose|j: int| 0 <= j < t.len() && #[trigger] t[j].0@ == k;
            assert(s[j].0@ == k);
        }
    }
    assert(entries_map(s).dom() =~= entries_map(t).dom());
    assert forall|j: int| 0 <= j < t.len() implies #[trigger] entries_map(t)[t[j].0@] == t[j].1 by {
        lemma_entries_map_index(t, j);
    }
}

/// A map keyed by strings; `entries` lists its pairs, no key twice.
#[derive(Debug)]
pub struct StrMap<V> {
    pub entries: Vec<(String, V)>,
}

impl<V> View for StrMap<V> {
    type V = Map<Seq<char>, V>;

    open spec fn view(&self) -> Map<Seq<char>, V> {
        entries_map(self.entries@)
    }
}

impl<V> StrMap<V> {
    /// Well-formedness: no key occurs in two entries.
    pub open spec fn wf(&self) -> bool {
        keys_distinct(self.entries@)
    }

    /// The values, in the order of the entries.
    pub open spec fn value_seq(&self) -> Seq<V> {
        self.entries@.map_values(|e: (String, V)| e.1)
    }

    /// An empty map.
    pub fn new() -> (m: Self)
        ensures
            m.wf(),
            m@ == Map::<Seq<char>, V>::empty(),
            m.entries@.len() == 0,
    {
        let m = StrMap { entries: Vec::new() };
        assert(m@ =~= Map::<Seq<char>, V>::empty());
        m
    }

    /// The number of keys.
    pub fn len(&self) -> (n: usize)
        requires
            self.wf(),
        ensures
            n == self@.dom().len(),
            n == self.entries@.len(),
    {
        proof {
            self.lemma_len();
        }
        self.entries.len()
    }

    /// The map has as many keys as it has entries.
    pub proof fn lemma_len(&self)
        requires
            self.wf(),
        ensures
            self@.dom().len() == self.entries@.len(),
            self@.dom().finite(),
    {
        lemma_entries_len(self.entries@);
    }

    /// Where the key stands among the entries, if it is a key.
    pub fn find(&self, k: &str) -> (r: Option<usize>)
        requires
            self.wf(),
        ensures
            match r {
                Some(i) => i < self.entries@.len() && self.entries@[i as int].0@ == k@,
                None => !self@.dom().contains(k@),
            },
    {
        let key = k.to_owned();
        let n = self.entries.len();
        let mut i: usize = 0;
        while i < n
            invariant
                n == self.entries@.len(),
                0 <= i <= n,
                key@ == k@,
                forall|j: int| 0 <= j < i ==> #[trigger] self.entries@[j].0@ != k@,
            decreases n - i,
        {
            if self.entries[i].0 == key {
                return Some(i);
            }
            i = i + 1;
        }
        proof {
            lemma_entries_map_dom(self.entries@, k@);
        }
        None
    }

    /// Whether the key is in the map.
    pub fn contains_key(&self, k: &str) -> (b: bool)
        requires
            self.wf(),
        ensures
            b == self@.dom().contains(k@),
    {
        match self.find(k) {
            Some(i) => {
                proof {
                    lemma_entries_map_index(self.entries@, i as int);
                }
                true
            },
            None => false,
        }
    }

    /// The value held under the key, if any.
    pub fn get(&self, k: &str) -> (r: Option<&V>)
        requires
            self.wf(),
        ensures
            match r {
                Some(v) => self@.dom().contains(k@) && *v == self@[k@],
                None => !self@.dom().contains(k@),
            },
    {
        match self.find(k) {
            Some(i) => {
                proof {
                    lemma_entries_map_index(self.entries@, i as int);
                }
                Some(&self.entries[i].1)
            },
            None => None,
        }
    }

    /// Holds `v` under `k`, replacing what was there.  A new key goes last.
    pub fn insert(&mut self, k: String, v: V)
        requires
            old(self).wf(),
        ensures
            final(self).wf(),
            final(self)@ == old(self)@.insert(k@, v),
    {
        match self.find(k.as_str()) {
            Some(i) => {
                proof {
                    lemma_entries_update(self.entries@, i as int, (k, v));
                }
                self.entries[i] = (k, v);
            },
            None => {
                proof {
                    lemma_entries_push(self.entries@, (k, v));
                }
                self.entries.push((k, v));
            },
        }
    }

    /// Takes the key out of the map, and gives back its value if it was there.
    pub fn remove(&mut self, k: &str) -> (r: Option<V>)
        requires
            old(self).wf(),
        ensures
            final(self).wf(),
            final(self)@ == old(self)@.remove(k@),
            match r {
                Some(v) => old(self)@.dom().contains(k@) && v == old(self)@[k@],
                None => !old(self)@.dom().contains(k@),
            },
    {
        match self.find(k) {
            Some(i) => {
                proof {
                    lemma_entries_map_index(self.entries@, i as int);
                    lemma_entries_remove(self.entries@, i as int);
                }
                let (_, v) = self.entries.remove(i);
                Some(v)
            },
            None => {
                proof {
                    assert(old(self)@.remove(k@) =~= old(self)@);
                }
                None
            },
        }
    }
}

/// Distinct keys: the map has one key per entry.
pub proof fn lemma_entries_len<V>(s: Seq<(String, V)>)
    requires
        keys_distinct(s),
    ensures
        entries_map(s).dom().len() == s.len(),
        entries_map(s).dom().finite(),
    decreases s.len(),
{
    lemma_entries_map_finite(s);
    if s.len() > 0 {
        let t = s.drop_last();
        assert(keys_distinct(t)) by {
            assert forall|a: int, b: int| 0 <= a < t.len() && 0 <= b < t.len() && a != b implies #[trigger] t[a].0@ != #[trigger] t[b].0@ by {
                assert(t[a] == s[a] && t[b] == s[b]);
            }
        }
        lemma_entries_len(t);
        lemma_entries_map_finite(t);
        lemma_entries_map_dom(t, s.last().0@);
        if entries_map(t).dom().contains(s.last().0@) {
            let j = choose|j: int| 0 <= j < t.len() && #[trigger] t[j].0@ == s.last().0@;
            assert(t[j] == s[j]);
            assert(s[j].0@ != s[s.len() - 1].0@);
        }
    }
}

} // verus!
