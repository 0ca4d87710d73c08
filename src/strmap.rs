//! A map keyed by strings that keeps its entries in insertion order.

use vstd::prelude::*;

verus! {

/// The map that a sequence of (key, value) pairs denotes; a later pair wins.
pub open spec fn pairs_map<V>(s: Seq<(Seq<char>, V)>) -> Map<Seq<char>, V>
    decreases s.len(),
{
    if s.len() == 0 {
        Map::empty()
    } else {
        pairs_map(s.drop_last()).insert(s.last().0, s.last().1)
    }
}

/// No key occurs twice.
pub open spec fn keys_distinct<V>(s: Seq<(Seq<char>, V)>) -> bool {
    forall|i: int, j: int| 0 <= i < j < s.len() ==> s[i].0 != s[j].0
}

pub proof fn lemma_pairs_map_contains<V>(s: Seq<(Seq<char>, V)>, k: Seq<char>)
    ensures
        pairs_map(s).contains_key(k) <==> exists|i: int| 0 <= i < s.len() && s[i].0 == k,
    decreases s.len(),
{
    if s.len() > 0 {
        lemma_pairs_map_contains(s.drop_last(), k);
        if pairs_map(s).contains_key(k) && k != s.last().0 {
            let i = choose|i: int| 0 <= i < s.len() - 1 && s.drop_last()[i].0 == k;
            assert(s[i].0 == k);
        }
        if exists|i: int| 0 <= i < s.len() && s[i].0 == k {
            let i = choose|i: int| 0 <= i < s.len() && s[i].0 == k;
            if i < s.len() - 1 {
                assert(s.drop_last()[i].0 == k);
            }
        }
    }
}

pub proof fn lemma_pairs_map_index<V>(s: Seq<(Seq<char>, V)>, i: int)
    requires
        keys_distinct(s),
        0 <= i < s.len(),
    ensures
        pairs_map(s).contains_key(s[i].0),
        pairs_map(s)[s[i].0] == s[i].1,
    decreases s.len(),
{
    if i < s.len() - 1 {
        lemma_pairs_map_index(s.drop_last(), i);
        assert(s.drop_last()[i] == s[i]);
        assert(s[i].0 != s.last().0);
    }
}

pub proof fn lemma_pairs_map_update<V>(s: Seq<(Seq<char>, V)>, i: int, v: V)
    requires
        keys_distinct(s),
        0 <= i < s.len(),
    ensures
        pairs_map(s.update(i, (s[i].0, v))) == pairs_map(s).insert(s[i].0, v),
    decreases s.len(),
{
    let t = s.update(i, (s[i].0, v));
    if i == s.len() - 1 {
        assert(t.drop_last() == s.drop_last());
    } else {
        lemma_pairs_map_update(s.drop_last(), i, v);
        assert(t.drop_last() == s.drop_last().update(i, (s[i].0, v)));
        assert(s[i].0 != s.last().0);
        assert(pairs_map(t) =~= pairs_map(s).insert(s[i].0, v));
    }
}

/// A map from strings to values, in the order in which keys were first inserted.
#[derive(Debug)]
pub struct StrMap<V> {
    entries: Vec<(String, V)>,
}

impl<V> StrMap<V> {
    /// The entries in order, each key by its characters.
    pub closed spec fn pairs(self) -> Seq<(Seq<char>, V)> {
        self.entries@.map_values(|e: (String, V)| (e.0@, e.1))
    }

    /// The keys in order.
    pub open spec fn key_seq(self) -> Seq<Seq<char>> {
        self.pairs().map_values(|e: (Seq<char>, V)| e.0)
    }

    pub open spec fn view(self) -> Map<Seq<char>, V> {
        pairs_map(self.pairs())
    }

    #[verifier::type_invariant]
    spec fn distinct_keys(self) -> bool {
        keys_distinct(self.pairs())
    }

    /// The map holds exactly the keys of its entries.
    pub proof fn lemma_keys(&self, k: Seq<char>)
        ensures
            self@.contains_key(k) <==> self.key_seq().contains(k),
    {
        lemma_pairs_map_contains(self.pairs(), k);
        if self@.contains_key(k) {
            let i = choose|i: int| 0 <= i < self.pairs().len() && self.pairs()[i].0 == k;
            assert(self.key_seq()[i] == k);
        }
        if self.key_seq().contains(k) {
            let i = choose|i: int| 0 <= i < self.key_seq().len() && self.key_seq()[i] == k;
            assert(self.pairs()[i].0 == k);
        }
    }

    /// A map is larger than each of its values, for termination measures.
    pub proof fn lemma_value_decreases(self, i: int)
        requires
            0 <= i < self.pairs().len(),
        ensures
            decreases_to!(self => self.pairs()[i].1),
    {
        assert(decreases_to!(self => self.entries));
        assert(decreases_to!(self.entries => self.entries@));
        assert(decreases_to!(self.entries@ => self.entries@[i]));
        assert(decreases_to!(self.entries@[i] => self.entries@[i].1));
    }

    /// The keys, in order.
    pub fn keys(&self) -> (r: Vec<String>)
        ensures
            strings_view(r@) == self.key_seq(),
            self.key_seq().no_duplicates(),
    {
        proof {
            use_type_invariant(self);
        }
        let mut out: Vec<String> = Vec::new();
        let mut i: usize = 0;
        while i < self.entries.len()
            invariant
                i <= self.entries.len(),
                strings_view(out@) == self.key_seq().subrange(0, i as int),
            decreases self.entries.len() - i,
        {
            assert(self.key_seq()[i as int] == self.entries@[i as int].0@);
            let ghost prev = strings_view(out@);
            let k = self.entries[i].0.clone();
            out.push(k);
            assert(strings_view(out@) =~= prev.push(k@));
            assert(self.key_seq().subrange(0, i + 1) =~= self.key_seq().subrange(0, i as int).push(
                self.key_seq()[i as int],
            ));
            i = i + 1;
        }
        assert(self.key_seq().subrange(0, i as int) =~= self.key_seq());
        assert(self.key_seq().no_duplicates()) by {
            assert forall|a: int, b: int|
                0 <= a < self.key_seq().len() && 0 <= b < self.key_seq().len() && a != b implies self.key_seq()[a]
                != self.key_seq()[b] by {
                if a < b {
                    assert(self.pairs()[a].0 != self.pairs()[b].0);
                } else {
                    assert(self.pairs()[b].0 != self.pairs()[a].0);
                }
            }
        }
        out
    }

    pub fn new() -> (r: StrMap<V>)
        ensures
            r.pairs() == Seq::<(Seq<char>, V)>::empty(),
            r@ == Map::<Seq<char>, V>::empty(),
    {
        let r = StrMap { entries: Vec::new() };
        assert(r.pairs() =~= Seq::<(Seq<char>, V)>::empty());
        r
    }

    pub fn len(&self) -> (r: usize)
        ensures
            r == self.pairs().len(),
    {
        self.entries.len()
    }

    /// The key of the `i`-th entry.
    pub fn key_at(&self, i: usize) -> (r: &String)
        requires
            i < self.pairs().len(),
        ensures
            r@ == self.pairs()[i as int].0,
    {
        &self.entries[i].0
    }

    /// The value of the `i`-th entry.
    pub fn value_at(&self, i: usize) -> (r: &V)
        requires
            i < self.pairs().len(),
        ensures
            *r == self.pairs()[i as int].1,
            self@.contains_key(self.pairs()[i as int].0),
            self@[self.pairs()[i as int].0] == *r,
    {
        proof {
            use_type_invariant(self);
            lemma_pairs_map_index(self.pairs(), i as int);
        }
        &self.entries[i].1
    }

    /// The position of `key` among the entries.
    pub fn find(&self, key: &String) -> (r: Option<usize>)
        ensures
            match r {
                Some(i) => i < self.pairs().len() && self.pairs()[i as int].0 == key@,
                None => !self@.contains_key(key@),
            },
    {
        let mut i: usize = 0;
        while i < self.entries.len()
            invariant
                i <= self.entries.len(),
                forall|j: int| 0 <= j < i ==> self.pairs()[j].0 != key@,
            decreases self.entries.len() - i,
        {
            if self.entries[i].0 == *key {
                return Some(i);
            }
            i = i + 1;
        }
        proof {
            lemma_pairs_map_contains(self.pairs(), key@);
        }
        None
    }

    pub fn get(&self, key: &String) -> (r: Option<&V>)
        ensures
            r is Some <==> self@.contains_key(key@),
            r is Some ==> *r->0 == self@[key@],
    {
        match self.find(key) {
            Some(i) => {
                proof {
                    use_type_invariant(self);
                    lemma_pairs_map_index(self.pairs(), i as int);
                }
                Some(&self.entries[i].1)
            },
            None => None,
        }
    }

    pub fn contains_key(&self, key: &String) -> (r: bool)
        ensures
            r == self@.contains_key(key@),
    {
        self.get(key).is_some()
    }

    /// Sets the value of `key`: in place if the key is there, else as a new last entry.
    pub fn insert(&mut self, key: String, value: V)
        ensures
            final(self)@ == old(self)@.insert(key@, value),
            old(self)@.contains_key(key@) ==> final(self).key_seq() == old(self).key_seq(),
            !old(self)@.contains_key(key@) ==> final(self).key_seq() == old(self).key_seq().push(
                key@,
            ),
    {
        proof {
            use_type_invariant(&*self);
        }
        match self.find(&key) {
            Some(i) => {
                let ghost old_pairs = self.pairs();
                proof {
                    lemma_pairs_map_update(old_pairs, i as int, value);
                    assert(self.key_seq()[i as int] == key@);
                    self.lemma_keys(key@);
                }
                let mut entries: Vec<(String, V)> = Vec::new();
                std::mem::swap(&mut self.entries, &mut entries);
                entries.set(i, (key, value));
                let ghost new_pairs = entries@.map_values(|e: (String, V)| (e.0@, e.1));
                assert(new_pairs =~= old_pairs.update(i as int, (old_pairs[i as int].0, value)));
                assert(keys_distinct(new_pairs)) by {
                    assert forall|a: int, b: int| 0 <= a < b < new_pairs.len() implies new_pairs[a].0
                        != new_pairs[b].0 by {
                        assert(new_pairs[a].0 == old_pairs[a].0);
                        assert(new_pairs[b].0 == old_pairs[b].0);
                    }
                }
                self.entries = entries;
                assert(self.pairs() == new_pairs);
                assert(self.key_seq() =~= old(self).key_seq());
            },
            None => {
                let ghost old_pairs = self.pairs();
                proof {
                    self.lemma_keys(key@);
                    lemma_pairs_map_contains(old_pairs, key@);
                }
                let mut entries: Vec<(String, V)> = Vec::new();
                std::mem::swap(&mut self.entries, &mut entries);
                entries.push((key, value));
                let ghost new_pairs = entries@.map_values(|e: (String, V)| (e.0@, e.1));
                assert(new_pairs =~= old_pairs.push((key@, value)));
                assert(keys_distinct(new_pairs)) by {
                    assert forall|a: int, b: int| 0 <= a < b < new_pairs.len() implies new_pairs[a].0
                        != new_pairs[b].0 by {
                        if b == old_pairs.len() {
                            assert(old_pairs[a].0 != key@);
                        } else {
                            assert(new_pairs[a] == old_pairs[a]);
                            assert(new_pairs[b] == old_pairs[b]);
                        }
                    }
                }
                self.entries = entries;
                assert(self.pairs() == new_pairs);
                assert(self.pairs().drop_last() =~= old_pairs);
                assert(self.key_seq() =~= old(self).key_seq().push(key@));
            },
        }
    }
}


impl StrMap<String> {
    /// A copy of the map, entry by entry.
    pub fn duplicate(&self) -> (r: StrMap<String>)
        ensures
            r.pairs() == self.pairs(),
            r@ == self@,
    {
        proof {
            use_type_invariant(self);
        }
        let mut entries: Vec<(String, String)> = Vec::new();
        let mut i: usize = 0;
        while i < self.entries.len()
            invariant
                i <= self.entries.len(),
                entries@.len() == i,
                forall|k: int| 0 <= k < i ==> #[trigger] entries@[k] == self.entries@[k],
            decreases self.entries.len() - i,
        {
            entries.push((self.entries[i].0.clone(), self.entries[i].1.clone()));
            i = i + 1;
        }
        assert(entries@ =~= self.entries@);
        StrMap { entries }
    }

    /// The entries of `self` overridden and extended by those of `other`.
    pub fn merged(&self, other: &StrMap<String>) -> (r: StrMap<String>)
        ensures
            r@ == self@.union_prefer_right(other@),
    {
        let mut out = self.duplicate();
        let mut i: usize = 0;
        assert(pairs_map(other.pairs().subrange(0, 0)) =~= Map::<Seq<char>, String>::empty());
        assert(out@ =~= self@.union_prefer_right(Map::<Seq<char>, String>::empty()));
        while i < other.len()
            invariant
                i <= other.pairs().len(),
                out@ == self@.union_prefer_right(pairs_map(other.pairs().subrange(0, i as int))),
            decreases other.pairs().len() - i,
        {
            let ghost prev = pairs_map(other.pairs().subrange(0, i as int));
            let k = other.key_at(i).clone();
            let v = other.value_at(i).clone();
            out.insert(k, v);
            assert(other.pairs().subrange(0, i + 1).drop_last() =~= other.pairs().subrange(
                0,
                i as int,
            ));
            assert(out@ =~= self@.union_prefer_right(prev.insert(k@, v)));
            i = i + 1;
        }
        assert(other.pairs().subrange(0, i as int) =~= other.pairs());
        out
    }
}

/// A map whose values are strings, by their characters.
pub open spec fn string_view(m: Map<Seq<char>, String>) -> Map<Seq<char>, Seq<char>> {
    m.map_values(|v: String| v@)
}

/// A sequence of strings, by their characters.
pub open spec fn strings_view(v: Seq<String>) -> Seq<Seq<char>> {
    v.map_values(|s: String| s@)
}

} // verus!
