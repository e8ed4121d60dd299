use vstd::prelude::*;

use crate::text::str_eq;

verus! {

/// No key occurs twice in `s`.
pub open spec fn unique_keys<K, V>(s: Seq<(K, V)>) -> bool {
    forall|i: int, j: int| 0 <= i < j < s.len() ==> s[i].0 != s[j].0
}

/// The map that an association list with unique keys stands for.
pub open spec fn assoc_map<K, V>(s: Seq<(K, V)>) -> Map<K, V>
    decreases s.len(),
{
    if s.len() == 0 {
        Map::empty()
    } else {
        assoc_map(s.drop_last()).insert(s.last().0, s.last().1)
    }
}

/// The map of an association list has finitely many keys.
pub proof fn lemma_assoc_finite<K, V>(s: Seq<(K, V)>)
    ensures
        assoc_map(s).dom().finite(),
    decreases s.len(),
{
    if s.len() > 0 {
        lemma_assoc_finite(s.drop_last());
    }
}

/// The keys of an association list, in order.
pub open spec fn assoc_keys<K, V>(s: Seq<(K, V)>) -> Seq<K> {
    s.map_values(|e: (K, V)| e.0)
}

pub proof fn lemma_assoc_dom<K, V>(s: Seq<(K, V)>, k: K)
    ensures
        assoc_map(s).contains_key(k) <==> exists|i: int| 0 <= i < s.len() && s[i].0 == k,
    decreases s.len(),
{
    if s.len() > 0 {
        lemma_assoc_dom(s.drop_last(), k);
        if assoc_map(s.drop_last()).contains_key(k) {
            let i = choose|i: int| 0 <= i < s.drop_last().len() && s.drop_last()[i].0 == k;
            assert(s[i].0 == k);
        }
        if exists|i: int| 0 <= i < s.len() && s[i].0 == k {
            let i = choose|i: int| 0 <= i < s.len() && s[i].0 == k;
            if i < s.len() - 1 {
                assert(s.drop_last()[i].0 == k);
            }
        }
    }
}

pub proof fn lemma_assoc_lookup<K, V>(s: Seq<(K, V)>, i: int)
    requires
        unique_keys(s),
        0 <= i < s.len(),
    ensures
        assoc_map(s).contains_key(s[i].0),
        assoc_map(s)[s[i].0] == s[i].1,
    decreases s.len(),
{
    if i < s.len() - 1 {
        lemma_assoc_lookup(s.drop_last(), i);
        assert(s.drop_last()[i] == s[i]);
    }
}

pub proof fn lemma_assoc_update<K, V>(s: Seq<(K, V)>, j: int, v: V)
    requires
        unique_keys(s),
        0 <= j < s.len(),
    ensures
        unique_keys(s.update(j, (s[j].0, v))),
        assoc_map(s.update(j, (s[j].0, v))) == assoc_map(s).insert(s[j].0, v),
{
    let t = s.update(j, (s[j].0, v));
    let m = assoc_map(s).insert(s[j].0, v);
    assert forall|k: K| #[trigger] assoc_map(t).contains_key(k) == m.contains_key(k) by {
        lemma_assoc_dom(t, k);
        lemma_assoc_dom(s, k);
        if k == s[j].0 {
            assert(t[j].0 == k);
        } else if m.contains_key(k) {
            let i = choose|i: int| 0 <= i < s.len() && s[i].0 == k;
            assert(t[i].0 == k);
        }
        if assoc_map(t).contains_key(k) {
            let i = choose|i: int| 0 <= i < t.len() && t[i].0 == k;
            assert(s[i].0 == k);
        }
    }
    assert forall|k: K| #[trigger] m.contains_key(k) implies assoc_map(t)[k] == m[k] by {
        lemma_assoc_dom(s, k);
        if k == s[j].0 {
            lemma_assoc_lookup(t, j);
        } else {
            let i = choose|i: int| 0 <= i < s.len() && s[i].0 == k;
            lemma_assoc_lookup(t, i);
            lemma_assoc_lookup(s, i);
        }
    }
    assert(assoc_map(t) =~= m);
}

pub proof fn lemma_assoc_remove<K, V>(s: Seq<(K, V)>, j: int)
    requires
        unique_keys(s),
        0 <= j < s.len(),
    ensures
        unique_keys(s.remove(j)),
        assoc_map(s.remove(j)) == assoc_map(s).remove(s[j].0),
        assoc_keys(s.remove(j)) == assoc_keys(s).remove(j),
{
    let t = s.remove(j);
    let m = assoc_map(s).remove(s[j].0);
    assert forall|a: int, b: int| 0 <= a < b < t.len() implies t[a].0 != t[b].0 by {
        let a2 = if a < j { a } else { a + 1 };
        let b2 = if b < j { b } else { b + 1 };
        assert(t[a] == s[a2]);
        assert(t[b] == s[b2]);
    }
    assert forall|k: K| #[trigger] assoc_map(t).contains_key(k) == m.contains_key(k) by {
        lemma_assoc_dom(t, k);
        lemma_assoc_dom(s, k);
        if m.contains_key(k) {
            let i = choose|i: int| 0 <= i < s.len() && s[i].0 == k;
            assert(i != j);
            if i < j {
                assert(t[i].0 == k);
            } else {
                assert(t[i - 1].0 == k);
            }
        }
        if assoc_map(t).contains_key(k) {
            let i = choose|i: int| 0 <= i < t.len() && t[i].0 == k;
            if i < j {
                assert(s[i].0 == k);
            } else {
                assert(s[i + 1].0 == k);
            }
        }
    }
    assert forall|k: K| #[trigger] m.contains_key(k) implies assoc_map(t)[k] == m[k] by {
        lemma_assoc_dom(s, k);
        let i = choose|i: int| 0 <= i < s.len() && s[i].0 == k;
        lemma_assoc_lookup(s, i);
        if i < j {
            lemma_assoc_lookup(t, i);
        } else {
            lemma_assoc_lookup(t, i - 1);
        }
    }
    assert(assoc_map(t) =~= m);
    assert(assoc_keys(t) =~= assoc_keys(s).remove(j));
}

pub proof fn lemma_assoc_len<K, V>(s: Seq<(K, V)>)
    requires
        unique_keys(s),
    ensures
        assoc_map(s).dom().finite(),
        assoc_map(s).dom().len() == s.len(),
    decreases s.len(),
{
    if s.len() > 0 {
        let t = s.drop_last();
        assert forall|i: int, j: int| 0 <= i < j < t.len() implies t[i].0 != t[j].0 by {
            assert(t[i] == s[i] && t[j] == s[j]);
        }
        lemma_assoc_len(t);
        lemma_assoc_dom(t, s.last().0);
        if assoc_map(t).contains_key(s.last().0) {
            let i = choose|i: int| 0 <= i < t.len() && t[i].0 == s.last().0;
            assert(s[i].0 == s[s.len() - 1].0);
        }
    }
}

/// The map of the first `i + 1` entries is that of the first `i` with entry
/// `i` added.
pub proof fn lemma_assoc_take_step<K, V>(s: Seq<(K, V)>, i: int)
    requires
        0 <= i < s.len(),
    ensures
        assoc_map(s.take(i + 1)) == assoc_map(s.take(i)).insert(s[i].0, s[i].1),
        assoc_map(s.take(0)) == Map::<K, V>::empty(),
        assoc_map(s.take(s.len() as int)) == assoc_map(s),
{
    assert(s.take(i + 1).drop_last() =~= s.take(i));
    assert(s.take(0) =~= Seq::<(K, V)>::empty());
    assert(s.take(s.len() as int) =~= s);
}

pub proof fn lemma_assoc_push<K, V>(s: Seq<(K, V)>, k: K, v: V)
    requires
        unique_keys(s),
        !assoc_map(s).contains_key(k),
    ensures
        unique_keys(s.push((k, v))),
        assoc_map(s.push((k, v))) == assoc_map(s).insert(k, v),
        assoc_keys(s.push((k, v))) == assoc_keys(s).push(k),
{
    lemma_assoc_dom(s, k);
    assert(s.push((k, v)).drop_last() =~= s);
    assert(assoc_keys(s.push((k, v))) =~= assoc_keys(s).push(k));
}

/// A map from strings to values that remembers the order in which keys were
/// first inserted.
#[derive(Debug)]
pub struct StrMap<V> {
    entries: Vec<(String, V)>,
}

impl<V> StrMap<V> {
    /// The entries with their keys taken as character sequences.
    pub closed spec fn entries(&self) -> Seq<(Seq<char>, V)> {
        self.entries@.map_values(|e: (String, V)| (e.0@, e.1))
    }

    #[verifier::type_invariant]
    spec fn keys_unique(&self) -> bool {
        unique_keys(self.entries())
    }

    /// The keys in the order of first insertion.
    pub open spec fn keys(&self) -> Seq<Seq<char>> {
        assoc_keys(self.entries())
    }

    pub fn new() -> (r: Self)
        ensures
            r@ == Map::<Seq<char>, V>::empty(),
            r.entries().len() == 0,
    {
        let r = StrMap { entries: Vec::new() };
        assert(r.entries() =~= Seq::<(Seq<char>, V)>::empty());
        r
    }

    pub fn len(&self) -> (r: usize)
        ensures
            r == self.entries().len(),
            r == self@.dom().len(),
            self@.dom().finite(),
    {
        proof {
            use_type_invariant(self);
            lemma_assoc_len(self.entries());
        }
        self.entries.len()
    }

    pub fn is_empty(&self) -> (r: bool)
        ensures
            r == (self.entries().len() == 0),
            r == (self@.dom().len() == 0),
    {
        proof {
            use_type_invariant(self);
            lemma_assoc_len(self.entries());
        }
        self.entries.len() == 0
    }

    /// The keys are distinct (the type's invariant, for callers).
    pub fn keys_are_unique(&self)
        ensures
            unique_keys(self.entries()),
    {
        proof { use_type_invariant(self); }
    }

    /// The position of key `k`, if present.
    fn find(&self, k: &str) -> (r: Option<usize>)
        ensures
            match r {
                Some(i) => i < self.entries().len() && self.entries()[i as int].0 == k@,
                None => forall|i: int| 0 <= i < self.entries().len() ==> self.entries()[i].0 != k@,
            },
    {
        let mut i: usize = 0;
        while i < self.entries.len()
            invariant
                i <= self.entries@.len(),
                forall|j: int| 0 <= j < i ==> self.entries()[j].0 != k@,
            decreases self.entries@.len() - i,
        {
            if str_eq(self.entries[i].0.as_str(), k) {
                return Some(i);
            }
            i += 1;
        }
        None
    }

    pub fn contains_key(&self, k: &str) -> (r: bool)
        ensures
            r == self@.contains_key(k@),
    {
        proof { lemma_assoc_dom(self.entries(), k@); }
        self.find(k).is_some()
    }

    pub fn get(&self, k: &str) -> (r: Option<&V>)
        ensures
            match r {
                Some(v) => self@.contains_key(k@) && *v == self@[k@],
                None => !self@.contains_key(k@),
            },
    {
        proof {
            use_type_invariant(self);
            lemma_assoc_dom(self.entries(), k@);
        }
        match self.find(k) {
            Some(i) => {
                proof { lemma_assoc_lookup(self.entries(), i as int); }
                Some(&self.entries[i].1)
            },
            None => None,
        }
    }

    /// The key and value at position `i` of the insertion order.
    pub fn entry_at(&self, i: usize) -> (r: (&String, &V))
        requires
            i < self.entries().len(),
        ensures
            r.0@ == self.entries()[i as int].0,
            *r.1 == self.entries()[i as int].1,
    {
        (&self.entries[i].0, &self.entries[i].1)
    }

    /// Sets `k` to `v`; a new key goes last in the order, an existing one
    /// keeps its place. Gives back the value that `k` had.
    pub fn insert(&mut self, k: String, v: V) -> (r: Option<V>)
        ensures
            final(self)@ == old(self)@.insert(k@, v),
            match r {
                Some(w) => old(self)@.contains_key(k@) && w == old(self)@[k@]
                    && final(self).keys() == old(self).keys(),
                None => !old(self)@.contains_key(k@)
                    && final(self).keys() == old(self).keys().push(k@),
            },
    {
        proof {
            use_type_invariant(&*self);
            lemma_assoc_dom(self.entries(), k@);
        }
        match self.find(k.as_str()) {
            Some(i) => {
                let ghost s = self.entries();
                proof {
                    lemma_assoc_lookup(s, i as int);
                    lemma_assoc_update(s, i as int, v);
                }
                let mut entries: Vec<(String, V)> = Vec::new();
                std::mem::swap(&mut entries, &mut self.entries);
                let old_entry = entries.remove(i);
                entries.insert(i, (k, v));
                proof {
                    let t = entries@.map_values(|e: (String, V)| (e.0@, e.1));
                    assert(t =~= s.update(i as int, (s[i as int].0, v)));
                    assert(assoc_keys(t) =~= assoc_keys(s));
                }
                self.entries = entries;
                Some(old_entry.1)
            },
            None => {
                let ghost s = self.entries();
                proof { lemma_assoc_push(s, k@, v); }
                let mut entries: Vec<(String, V)> = Vec::new();
                std::mem::swap(&mut entries, &mut self.entries);
                entries.push((k, v));
                proof {
                    let t = entries@.map_values(|e: (String, V)| (e.0@, e.1));
                    assert(t =~= s.push((k@, v)));
                }
                self.entries = entries;
                None
            },
        }
    }

    /// Removes `k`, keeping the order of the other keys.
    pub fn remove(&mut self, k: &str) -> (r: Option<V>)
        ensures
            final(self)@ == old(self)@.remove(k@),
            match r {
                Some(w) => old(self)@.contains_key(k@) && w == old(self)@[k@],
                None => !old(self)@.contains_key(k@) && final(self).keys() == old(self).keys(),
            },
    {
        proof {
            use_type_invariant(&*self);
            lemma_assoc_dom(self.entries(), k@);
        }
        match self.find(k) {
            Some(i) => {
                let ghost s = self.entries();
                proof {
                    lemma_assoc_lookup(s, i as int);
                    lemma_assoc_remove(s, i as int);
                }
                let mut entries: Vec<(String, V)> = Vec::new();
                std::mem::swap(&mut entries, &mut self.entries);
                let old_entry = entries.remove(i);
                proof {
                    let t = entries@.map_values(|e: (String, V)| (e.0@, e.1));
                    assert(t =~= s.remove(i as int));
                }
                self.entries = entries;
                Some(old_entry.1)
            },
            None => {
                proof {
                    assert(old(self)@.remove(k@) =~= old(self)@);
                }
                None
            },
        }
    }

    pub fn clear(&mut self)
        ensures
            final(self)@ == Map::<Seq<char>, V>::empty(),
            final(self).keys().len() == 0,
    {
        self.entries = Vec::new();
        proof {
            assert(self.entries() =~= Seq::<(Seq<char>, V)>::empty());
        }
    }
}

impl<V> View for StrMap<V> {
    type V = Map<Seq<char>, V>;

    open spec fn view(&self) -> Map<Seq<char>, V> {
        assoc_map(self.entries())
    }
}

} // verus!
