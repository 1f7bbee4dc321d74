//! A string-keyed record store with a mathematical `Map` view.
//!
//! Each persistent table of the engine (tokens, chip packs, keys, fixed
//! collectibles, seasons) is one `StrMap`. The store keeps its entries in
//! insertion order, exposed as `key_seq` for enumeration, while `view`
//! abstracts it to a `Map` from key characters to records.

use vstd::prelude::*;

verus! {

/// No two pairs carry the same key.
spec fn keys_distinct<V>(s: Seq<(String, V)>) -> bool {
    forall|i: int, j: int| 0 <= i < j < s.len() ==> s[i].0@ != s[j].0@
}

/// The map denoted by a sequence of key-value pairs; later pairs win.
spec fn pairs_map<V>(s: Seq<(String, V)>) -> Map<Seq<char>, V>
    decreases s.len(),
{
    if s.len() == 0 {
        Map::empty()
    } else {
        pairs_map(s.drop_last()).insert(s.last().0@, s.last().1)
    }
}

proof fn lemma_pairs_map_contains<V>(s: Seq<(String, V)>, k: Seq<char>)
    ensures
        pairs_map(s).contains_key(k) <==> (exists|i: int| 0 <= i < s.len() && s[i].0@ == k),
    decreases s.len(),
{
    if s.len() > 0 {
        let t = s.drop_last();
        lemma_pairs_map_contains(t, k);
        if s.last().0@ == k {
            assert(s[s.len() - 1].0@ == k);
        } else {
            if pairs_map(s).contains_key(k) {
                let i = choose|i: int| 0 <= i < t.len() && t[i].0@ == k;
                assert(s[i].0@ == k);
            }
            if exists|i: int| 0 <= i < s.len() && s[i].0@ == k {
                let i = choose|i: int| 0 <= i < s.len() && s[i].0@ == k;
                assert(i < s.len() - 1);
                assert(t[i].0@ == k);
            }
        }
    }
}

proof fn lemma_pairs_map_index<V>(s: Seq<(String, V)>, i: int)
    requires
        keys_distinct(s),
        0 <= i < s.len(),
    ensures
        pairs_map(s).contains_key(s[i].0@),
        pairs_map(s)[s[i].0@] == s[i].1,
    decreases s.len(),
{
    let t = s.drop_last();
    if i == s.len() - 1 {
    } else {
        assert(keys_distinct(t)) by {
            assert(forall|x: int, y: int|
                0 <= x < y < t.len() ==> t[x].0@ == s[x].0@ && t[y].0@ == s[y].0@);
        }
        lemma_pairs_map_index(t, i);
        assert(s[i].0@ != s[s.len() - 1].0@);
    }
}

proof fn lemma_pairs_map_len<V>(s: Seq<(String, V)>)
    requires
        keys_distinct(s),
    ensures
        pairs_map(s).dom().finite(),
        pairs_map(s).dom().len() == s.len(),
    decreases s.len(),
{
    if s.len() > 0 {
        let t = s.drop_last();
        assert(keys_distinct(t)) by {
            assert(forall|x: int, y: int|
                0 <= x < y < t.len() ==> t[x].0@ == s[x].0@ && t[y].0@ == s[y].0@);
        }
        lemma_pairs_map_len(t);
        lemma_pairs_map_contains(t, s.last().0@);
        assert(!pairs_map(t).contains_key(s.last().0@)) by {
            assert(forall|i: int|
                0 <= i < t.len() ==> s[i].0@ != s[s.len() - 1].0@ && t[i] == s[i]);
        }
    }
}

proof fn lemma_pairs_map_update<V>(s: Seq<(String, V)>, i: int, p: (String, V))
    requires
        keys_distinct(s),
        0 <= i < s.len(),
        p.0@ == s[i].0@,
    ensures
        pairs_map(s.update(i, p)) == pairs_map(s).insert(p.0@, p.1),
        keys_distinct(s.update(i, p)),
    decreases s.len(),
{
    let u = s.update(i, p);
    assert(keys_distinct(u)) by {
        assert(forall|x: int| 0 <= x < u.len() ==> u[x].0@ == s[x].0@);
    }
    let t = s.drop_last();
    if i == s.len() - 1 {
        assert(u.drop_last() =~= t);
        assert(u.last() == p);
        assert(pairs_map(t).insert(s.last().0@, s.last().1).insert(p.0@, p.1)
            =~= pairs_map(t).insert(p.0@, p.1));
    } else {
        assert(keys_distinct(t)) by {
            assert(forall|x: int, y: int|
                0 <= x < y < t.len() ==> t[x].0@ == s[x].0@ && t[y].0@ == s[y].0@);
        }
        assert(u.drop_last() =~= t.update(i, p));
        assert(u.last() == s.last());
        lemma_pairs_map_update(t, i, p);
        assert(s[i].0@ != s.last().0@);
        assert(pairs_map(t).insert(p.0@, p.1).insert(s.last().0@, s.last().1)
            =~= pairs_map(t).insert(s.last().0@, s.last().1).insert(p.0@, p.1));
    }
}

proof fn lemma_pairs_map_remove<V>(s: Seq<(String, V)>, i: int)
    requires
        keys_distinct(s),
        0 <= i < s.len(),
    ensures
        pairs_map(s.remove(i)) == pairs_map(s).remove(s[i].0@),
        keys_distinct(s.remove(i)),
    decreases s.len(),
{
    let r = s.remove(i);
    assert(keys_distinct(r)) by {
        assert(forall|x: int| 0 <= x < r.len()
            ==> r[x] == (if x < i { s[x] } else { s[x + 1] }));
    }
    let t = s.drop_last();
    let k = s[i].0@;
    if i == s.len() - 1 {
        assert(r =~= t);
        assert(keys_distinct(t)) by {
            assert(forall|x: int, y: int|
                0 <= x < y < t.len() ==> t[x].0@ == s[x].0@ && t[y].0@ == s[y].0@);
        }
        lemma_pairs_map_contains(t, k);
        assert(!pairs_map(t).contains_key(k)) by {
            assert(forall|x: int|
                0 <= x < t.len() ==> s[x].0@ != s[s.len() - 1].0@ && t[x] == s[x]);
        }
        assert(pairs_map(t).insert(k, s.last().1).remove(k) =~= pairs_map(t));
    } else {
        assert(keys_distinct(t)) by {
            assert(forall|x: int, y: int|
                0 <= x < y < t.len() ==> t[x].0@ == s[x].0@ && t[y].0@ == s[y].0@);
        }
        assert(t[i] == s[i]);
        lemma_pairs_map_remove(t, i);
        assert(r.drop_last() =~= t.remove(i));
        assert(r.last() == s.last());
        assert(k != s.last().0@);
        assert(pairs_map(t).remove(k).insert(s.last().0@, s.last().1)
            =~= pairs_map(t).insert(s.last().0@, s.last().1).remove(k));
    }
}

/// A record store keyed by unique string ids, in insertion order.
pub struct StrMap<V> {
    pairs: Vec<(String, V)>,
}

impl<V> View for StrMap<V> {
    type V = Map<Seq<char>, V>;

    closed spec fn view(&self) -> Map<Seq<char>, V> {
        pairs_map(self.pairs@)
    }
}

impl<V> StrMap<V> {
    /// The stored keys, in insertion order.
    pub closed spec fn key_seq(&self) -> Seq<Seq<char>> {
        self.pairs@.map_values(|p: (String, V)| p.0@)
    }

    /// Well-formed: no key occurs twice.
    pub closed spec fn wf(&self) -> bool {
        keys_distinct(self.pairs@)
    }

    /// The key order carries exactly the keys of the map, without repeats.
    pub proof fn lemma_key_seq(&self)
        requires
            self.wf(),
        ensures
            forall|k: Seq<char>| self@.contains_key(k) <==> self.key_seq().contains(k),
            forall|i: int, j: int|
                0 <= i < j < self.key_seq().len() ==> self.key_seq()[i] != self.key_seq()[j],
            forall|i: int| 0 <= i < self.key_seq().len()
                ==> self@.contains_key(#[trigger] self.key_seq()[i]),
    {
        assert forall|k: Seq<char>| self@.contains_key(k) <==> self.key_seq().contains(k) by {
            lemma_pairs_map_contains(self.pairs@, k);
            if self@.contains_key(k) {
                let i = choose|i: int| 0 <= i < self.pairs@.len() && self.pairs@[i].0@ == k;
                assert(self.key_seq()[i] == k);
            }
            if self.key_seq().contains(k) {
                let i = choose|i: int|
                    0 <= i < self.key_seq().len() && self.key_seq()[i] == k;
                assert(self.pairs@[i].0@ == k);
            }
        }
        assert forall|i: int| 0 <= i < self.key_seq().len()
            implies self@.contains_key(#[trigger] self.key_seq()[i]) by {
            lemma_pairs_map_index(self.pairs@, i);
        }
    }

    /// The map's domain is finite and as large as the key order.
    pub proof fn lemma_dom_len(&self)
        requires
            self.wf(),
        ensures
            self@.dom().finite(),
            self@.dom().len() == self.key_seq().len(),
    {
        lemma_pairs_map_len(self.pairs@);
    }

    /// An empty store.
    pub fn new() -> (r: Self)
        ensures
            r.wf(),
            r@ == Map::<Seq<char>, V>::empty(),
            r.key_seq() == Seq::<Seq<char>>::empty(),
    {
        let r = StrMap { pairs: Vec::new() };
        proof {
            assert(r.key_seq() =~= Seq::<Seq<char>>::empty());
        }
        r
    }

    /// How many records are stored.
    pub fn len(&self) -> (n: usize)
        ensures
            n == self.key_seq().len(),
            self.wf() ==> n == self@.dom().len(),
    {
        proof {
            if self.wf() {
                self.lemma_dom_len();
            }
        }
        self.pairs.len()
    }

    /// The position of a key, if present.
    fn find_index(&self, key: &String) -> (r: Option<usize>)
        ensures
            match r {
                Some(i) => i < self.pairs@.len() && self.pairs@[i as int].0@ == key@,
                None => forall|i: int| 0 <= i < self.pairs@.len() ==> self.pairs@[i].0@ != key@,
            },
    {
        let n = self.pairs.len();
        for i in 0..n
            invariant
                n == self.pairs@.len(),
                forall|j: int| 0 <= j < i ==> self.pairs@[j].0@ != key@,
        {
            if self.pairs[i].0 == *key {
                return Some(i);
            }
        }
        None
    }

    /// Whether a record with this key is stored.
    pub fn contains_key(&self, key: &String) -> (r: bool)
        ensures
            r == self@.contains_key(key@),
    {
        proof {
            lemma_pairs_map_contains(self.pairs@, key@);
        }
        match self.find_index(key) {
            Some(_) => true,
            None => false,
        }
    }

    /// The record stored under a key.
    pub fn get(&self, key: &String) -> (r: Option<&V>)
        requires
            self.wf(),
        ensures
            match r {
                Some(v) => self@.contains_key(key@) && *v == self@[key@],
                None => !self@.contains_key(key@),
            },
    {
        proof {
            lemma_pairs_map_contains(self.pairs@, key@);
        }
        match self.find_index(key) {
            Some(i) => {
                proof {
                    lemma_pairs_map_index(self.pairs@, i as int);
                }
                Some(&self.pairs[i].1)
            },
            None => None,
        }
    }

    /// Stores a record, replacing any prior record under the same key.
    pub fn insert(&mut self, key: String, value: V)
        requires
            old(self).wf(),
        ensures
            final(self).wf(),
            final(self)@ == old(self)@.insert(key@, value),
            old(self)@.contains_key(key@) ==> final(self).key_seq() == old(self).key_seq(),
            !old(self)@.contains_key(key@)
                ==> final(self).key_seq() == old(self).key_seq().push(key@),
    {
        proof {
            lemma_pairs_map_contains(self.pairs@, key@);
        }
        match self.find_index(&key) {
            Some(i) => {
                proof {
                    lemma_pairs_map_update(self.pairs@, i as int, (key, value));
                }
                let entry = &mut self.pairs[i];
                *entry = (key, value);
                proof {
                    assert(final(self).key_seq() =~= old(self).key_seq());
                }
            },
            None => {
                let ghost s = self.pairs@;
                self.pairs.push((key, value));
                proof {
                    assert(self.pairs@.drop_last() =~= s);
                    assert(keys_distinct(self.pairs@)) by {
                        assert(forall|x: int| 0 <= x < s.len()
                            ==> self.pairs@[x] == s[x]);
                    }
                    assert(final(self).key_seq() =~= old(self).key_seq().push(key@));
                }
            },
        }
    }

    /// Deletes the record under a key, if present.
    pub fn remove(&mut self, key: &String)
        requires
            old(self).wf(),
        ensures
            final(self).wf(),
            final(self)@ == old(self)@.remove(key@),
            !old(self)@.contains_key(key@) ==> final(self).key_seq() == old(self).key_seq(),
            old(self)@.contains_key(key@) ==> exists|i: int|
                0 <= i < old(self).key_seq().len() && old(self).key_seq()[i] == key@
                    && final(self).key_seq() == old(self).key_seq().remove(i),
    {
        proof {
            lemma_pairs_map_contains(self.pairs@, key@);
        }
        match self.find_index(key) {
            Some(i) => {
                proof {
                    lemma_pairs_map_remove(self.pairs@, i as int);
                }
                let ghost s = self.pairs@;
                let _ = self.pairs.remove(i);
                proof {
                    assert(final(self).key_seq() =~= old(self).key_seq().remove(i as int));
                    assert(old(self).key_seq()[i as int] == key@);
                }
            },
            None => {
                proof {
                    assert(final(self)@ =~= old(self)@.remove(key@));
                }
            },
        }
    }

    /// Moves the record under a key out of the store, if present.
    pub fn take(&mut self, key: &String) -> (r: Option<V>)
        requires
            old(self).wf(),
        ensures
            final(self).wf(),
            match r {
                Some(v) => {
                    &&& old(self)@.contains_key(key@)
                    &&& v == old(self)@[key@]
                    &&& final(self)@ == old(self)@.remove(key@)
                    &&& exists|i: int|
                        0 <= i < old(self).key_seq().len() && old(self).key_seq()[i] == key@
                            && final(self).key_seq() == old(self).key_seq().remove(i)
                },
                None => {
                    &&& !old(self)@.contains_key(key@)
                    &&& *final(self) == *old(self)
                },
            },
    {
        proof {
            lemma_pairs_map_contains(self.pairs@, key@);
        }
        match self.find_index(key) {
            Some(i) => {
                proof {
                    lemma_pairs_map_index(self.pairs@, i as int);
                    lemma_pairs_map_remove(self.pairs@, i as int);
                }
                let pair = self.pairs.remove(i);
                proof {
                    assert(final(self).key_seq() =~= old(self).key_seq().remove(i as int));
                    assert(old(self).key_seq()[i as int] == key@);
                }
                Some(pair.1)
            },
            None => None,
        }
    }

    /// All stored keys, in insertion order.
    pub fn keys(&self) -> (r: Vec<String>)
        ensures
            r@.len() == self.key_seq().len(),
            forall|i: int| 0 <= i < r@.len() ==> r@[i]@ == self.key_seq()[i],
    {
        let n = self.pairs.len();
        let mut out: Vec<String> = Vec::new();
        for i in 0..n
            invariant
                n == self.pairs@.len(),
                out@.len() == i,
                forall|j: int| 0 <= j < i ==> out@[j]@ == self.pairs@[j].0@,
        {
            out.push(self.pairs[i].0.clone());
        }
        out
    }
}

} // verus!
