//! A map from text keys to text values that keeps its entries in insertion
//! order, with at most one entry per key.
use vstd::prelude::*;

verus! {

/// The entries of a map as pairs of character sequences.
pub type Entries = Seq<(Seq<char>, Seq<char>)>;

/// No key occurs twice among the entries.
pub open spec fn keys_distinct(e: Entries) -> bool {
    forall|i: int, j: int| 0 <= i < j < e.len() ==> e[i].0 != e[j].0
}

/// Some entry has key `k`.
pub open spec fn has_key(e: Entries, k: Seq<char>) -> bool {
    exists|i: int| 0 <= i < e.len() && e[i].0 == k
}

/// The value of the last entry with key `k`, if any.
pub open spec fn value_for(e: Entries, k: Seq<char>) -> Option<Seq<char>>
    decreases e.len(),
{
    if e.len() == 0 {
        None
    } else if e.last().0 == k {
        Some(e.last().1)
    } else {
        value_for(e.drop_last(), k)
    }
}

/// `e` with key `k` bound to `v`: the entry of `k` gets the new value in
/// place, or a new entry is added at the end.
pub open spec fn with_entry(e: Entries, k: Seq<char>, v: Seq<char>) -> Entries {
    if has_key(e, k) {
        e.update(choose|i: int| 0 <= i < e.len() && e[i].0 == k, (k, v))
    } else {
        e.push((k, v))
    }
}

/// The map built by binding each pair in turn, as collecting pairs into a
/// map does: a later pair replaces the value of an earlier one with the
/// same key.
pub open spec fn from_pairs(pairs: Entries) -> Entries
    decreases pairs.len(),
{
    if pairs.len() == 0 {
        Seq::empty()
    } else {
        with_entry(from_pairs(pairs.drop_last()), pairs.last().0, pairs.last().1)
    }
}

/// The entries of a vector of string pairs, as character sequences.
pub open spec fn entry_views(e: Seq<(String, String)>) -> Entries {
    e.map_values(|p: (String, String)| (p.0@, p.1@))
}

/// With distinct keys, the value for `k` is that of the entry with key `k`.
pub proof fn lemma_value_for_entry(e: Entries, i: int)
    requires
        keys_distinct(e),
        0 <= i < e.len(),
    ensures
        value_for(e, e[i].0) == Some(e[i].1),
    decreases e.len(),
{
    if i < e.len() - 1 {
        assert(keys_distinct(e.drop_last()));
        assert(e.drop_last()[i] == e[i]);
        lemma_value_for_entry(e.drop_last(), i);
    }
}

/// Without an entry for `k` there is no value for `k`.
pub proof fn lemma_value_for_absent(e: Entries, k: Seq<char>)
    requires
        !has_key(e, k),
    ensures
        value_for(e, k) is None,
    decreases e.len(),
{
    if e.len() > 0 {
        assert(!has_key(e.drop_last(), k)) by {
            if has_key(e.drop_last(), k) {
                let i = choose|i: int| 0 <= i < e.drop_last().len() && e.drop_last()[i].0 == k;
                assert(e[i].0 == k);
            }
        }
        assert(e.last() == e[e.len() - 1]);
        lemma_value_for_absent(e.drop_last(), k);
    }
}

/// Whether there is a value for `k` is whether some entry has key `k`.
pub proof fn lemma_value_for_some(e: Entries, k: Seq<char>)
    ensures
        value_for(e, k) is Some <==> has_key(e, k),
    decreases e.len(),
{
    if has_key(e, k) {
        if e.len() > 0 && e.last().0 != k {
            let i = choose|i: int| 0 <= i < e.len() && e[i].0 == k;
            assert(e.drop_last()[i].0 == k);
            lemma_value_for_some(e.drop_last(), k);
        }
    } else {
        lemma_value_for_absent(e, k);
    }
}

/// Binding a key keeps the keys distinct, gives the key its new value and
/// leaves every other key's value as it was.
pub proof fn lemma_with_entry(e: Entries, k: Seq<char>, v: Seq<char>, k2: Seq<char>)
    requires
        keys_distinct(e),
    ensures
        keys_distinct(with_entry(e, k, v)),
        value_for(with_entry(e, k, v), k2) == if k2 == k {
            Some(v)
        } else {
            value_for(e, k2)
        },
{
    let f = with_entry(e, k, v);
    if has_key(e, k) {
        let i = choose|i: int| 0 <= i < e.len() && e[i].0 == k;
        assert(keys_distinct(f));
        if k2 == k {
            lemma_value_for_entry(f, i);
        } else if has_key(e, k2) {
            let j = choose|j: int| 0 <= j < e.len() && e[j].0 == k2;
            lemma_value_for_entry(e, j);
            lemma_value_for_entry(f, j);
        } else {
            lemma_value_for_absent(e, k2);
            assert(!has_key(f, k2)) by {
                if has_key(f, k2) {
                    let j = choose|j: int| 0 <= j < f.len() && f[j].0 == k2;
                    assert(e[j].0 == k2);
                }
            }
            lemma_value_for_absent(f, k2);
        }
    } else {
        assert(f.drop_last() =~= e);
        assert(keys_distinct(f)) by {
            assert forall|a: int, b: int| 0 <= a < b < f.len() implies f[a].0 != f[b].0 by {
                if b == f.len() - 1 {
                    assert(e[a].0 != k);
                }
            }
        }
    }
}

/// The map of a sequence of pairs has distinct keys, and holds for each
/// key the value of the last pair with that key.
pub proof fn lemma_from_pairs(pairs: Entries, k: Seq<char>)
    ensures
        keys_distinct(from_pairs(pairs)),
        value_for(from_pairs(pairs), k) == value_for(pairs, k),
    decreases pairs.len(),
{
    if pairs.len() > 0 {
        lemma_from_pairs(pairs.drop_last(), k);
        lemma_from_pairs(pairs.drop_last(), pairs.last().0);
        lemma_with_entry(from_pairs(pairs.drop_last()), pairs.last().0, pairs.last().1, k);
    }
}

/// The map built from `pairs` followed by one more pair binds that pair.
pub proof fn lemma_from_pairs_push(pairs: Entries, k: Seq<char>, v: Seq<char>)
    ensures
        from_pairs(pairs.push((k, v))) == with_entry(from_pairs(pairs), k, v),
{
    assert(pairs.push((k, v)).drop_last() =~= pairs);
}

/// A text-keyed map whose entries keep the order in which their keys were
/// first bound.
#[derive(Debug)]
pub struct StringMap {
    entries: Vec<(String, String)>,
}

impl View for StringMap {
    type V = Entries;

    closed spec fn view(&self) -> Entries {
        entry_views(self.entries@)
    }
}

impl StringMap {
    #[verifier::type_invariant]
    spec fn distinct_keys(self) -> bool {
        keys_distinct(entry_views(self.entries@))
    }

    /// An empty map.
    pub fn new() -> (m: Self)
        ensures
            m@ == Seq::<(Seq<char>, Seq<char>)>::empty(),
    {
        let m = StringMap { entries: Vec::new() };
        assert(m@ =~= Seq::<(Seq<char>, Seq<char>)>::empty());
        m
    }

    /// The number of entries.
    pub fn len(&self) -> (n: usize)
        ensures
            n == self@.len(),
    {
        self.entries.len()
    }

    /// Whether the map has no entries.
    pub fn is_empty(&self) -> (b: bool)
        ensures
            b == (self@.len() == 0),
    {
        self.entries.len() == 0
    }

    /// The entries, in order.
    pub fn entries(&self) -> (e: &Vec<(String, String)>)
        ensures
            entry_views(e@) == self@,
            keys_distinct(self@),
    {
        proof {
            use_type_invariant(self);
        }
        &self.entries
    }

    /// The entries, taken out of the map.
    pub fn into_entries(self) -> (e: Vec<(String, String)>)
        ensures
            entry_views(e@) == self@,
            keys_distinct(self@),
    {
        proof {
            use_type_invariant(&self);
        }
        self.entries
    }

    /// The position of the entry with key `key`, if there is one.
    fn position(&self, key: &str) -> (r: Option<usize>)
        ensures
            match r {
                Some(i) => i < self@.len() && self@[i as int].0 == key@,
                None => !has_key(self@, key@),
            },
    {
        let k = key.to_owned();
        let mut i: usize = 0;
        while i < self.entries.len()
            invariant
                i <= self.entries.len(),
                k@ == key@,
                forall|j: int| 0 <= j < i ==> self@[j].0 != key@,
            decreases self.entries.len() - i,
        {
            if self.entries[i].0 == k {
                return Some(i);
            }
            i = i + 1;
        }
        None
    }

    /// The value bound to `key`.
    pub fn get(&self, key: &str) -> (r: Option<&String>)
        ensures
            match r {
                Some(v) => value_for(self@, key@) == Some(v@),
                None => value_for(self@, key@) is None,
            },
    {
        proof {
            use_type_invariant(self);
        }
        match self.position(key) {
            Some(i) => {
                proof {
                    lemma_value_for_entry(self@, i as int);
                }
                Some(&self.entries[i].1)
            },
            None => {
                proof {
                    lemma_value_for_absent(self@, key@);
                }
                None
            },
        }
    }

    /// Whether some value is bound to `key`.
    pub fn contains_key(&self, key: &str) -> (b: bool)
        ensures
            b == (value_for(self@, key@) is Some),
    {
        proof {
            lemma_value_for_some(self@, key@);
        }
        self.position(key).is_some()
    }

    /// Binds `key` to `value`, replacing the value of an existing entry in
    /// place or adding an entry at the end.
    pub fn insert(&mut self, key: String, value: String)
        ensures
            final(self)@ == with_entry(old(self)@, key@, value@),
    {
        proof {
            use_type_invariant(&*self);
        }
        let ghost before = self@;
        match self.position(key.as_str()) {
            Some(i) => {
                proof {
                    let c = choose|j: int| 0 <= j < before.len() && before[j].0 == key@;
                    assert(c == i);
                }
                let mut entries: Vec<(String, String)> = Vec::new();
                std::mem::swap(&mut entries, &mut self.entries);
                entries.set(i, (key, value));
                proof {
                    assert(entry_views(entries@) =~= before.update(i as int, (key@, value@)));
                    lemma_with_entry(before, key@, value@, key@);
                }
                self.entries = entries;
            },
            None => {
                let mut entries: Vec<(String, String)> = Vec::new();
                std::mem::swap(&mut entries, &mut self.entries);
                entries.push((key, value));
                proof {
                    assert(entry_views(entries@) =~= before.push((key@, value@)));
                    lemma_with_entry(before, key@, value@, key@);
                }
                self.entries = entries;
            },
        }
    }
}

/// The map of a sequence of pairs: each pair bound in turn, a later pair
/// replacing the value of an earlier one with the same key.
pub fn map_from_pairs(pairs: Vec<(String, String)>) -> (m: StringMap)
    ensures
        m@ == from_pairs(entry_views(pairs@)),
{
    let mut map = StringMap::new();
    let mut i: usize = 0;
    proof {
        assert(entry_views(pairs@).take(0) =~= Seq::<(Seq<char>, Seq<char>)>::empty());
    }
    while i < pairs.len()
        invariant
            i <= pairs.len(),
            map@ == from_pairs(entry_views(pairs@).take(i as int)),
        decreases pairs.len() - i,
    {
        let k = pairs[i].0.clone();
        let w = pairs[i].1.clone();
        proof {
            assert(entry_views(pairs@).take(i + 1) =~= entry_views(pairs@).take(i as int).push(
                (k@, w@),
            ));
            lemma_from_pairs_push(entry_views(pairs@).take(i as int), k@, w@);
        }
        map.insert(k, w);
        i = i + 1;
    }
    proof {
        assert(entry_views(pairs@).take(i as int) =~= entry_views(pairs@));
    }
    map
}

impl Clone for StringMap {
    fn clone(&self) -> (m: Self)
        ensures
            m@ == self@,
    {
        proof {
            use_type_invariant(self);
        }
        let mut entries: Vec<(String, String)> = Vec::new();
        let mut i: usize = 0;
        while i < self.entries.len()
            invariant
                i <= self.entries.len(),
                entries.len() == i,
                entry_views(entries@) == self@.take(i as int),
                keys_distinct(self@),
            decreases self.entries.len() - i,
        {
            let k = self.entries[i].0.clone();
            let v = self.entries[i].1.clone();
            let ghost kv = (k@, v@);
            let ghost before = entries@;
            entries.push((k, v));
            proof {
                assert(self@[i as int] == kv);
                assert(entries@ == before.push(entries@[i as int]));
                assert(entry_views(entries@)[i as int] == kv);
                assert(entry_views(entries@) =~= self@.take(i + 1));
            }
            i = i + 1;
        }
        proof {
            assert(self@.take(i as int) =~= self@);
        }
        StringMap { entries }
    }
}

impl Default for StringMap {
    fn default() -> (m: Self)
        ensures
            m@ == Seq::<(Seq<char>, Seq<char>)>::empty(),
    {
        StringMap::new()
    }
}

} // verus!
