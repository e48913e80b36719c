use vstd::prelude::*;

verus! {

/// Keys that can be compared at run time, with the comparison deciding
/// equality of their views.
pub trait KeyEq: View + Sized {
    fn key_eq(&self, other: &Self) -> (r: bool)
        ensures
            r == (self@ == other@),
    ;
}

/// A finite map kept as a list of pairs in which no key occurs twice.
#[derive(Debug)]
pub struct AssocList<K: KeyEq, V> {
    items: Vec<(K, V)>,
}

/// No two positions of `s` hold keys with the same view.
pub open spec fn distinct_keys<K: KeyEq, V>(s: Seq<(K, V)>) -> bool {
    forall|i: int, j: int| 0 <= i < j < s.len() ==> s[i].0@ != s[j].0@
}

/// Some position of `s` holds a key whose view is `id`.
pub open spec fn has_key<K: KeyEq, V>(s: Seq<(K, V)>, id: K::V) -> bool {
    exists|i: int| 0 <= i < s.len() && #[trigger] s[i].0@ == id
}

/// A position of `s` whose key has the view `id`, if there is one.
pub open spec fn key_index<K: KeyEq, V>(s: Seq<(K, V)>, id: K::V) -> int {
    choose|i: int| 0 <= i < s.len() && #[trigger] s[i].0@ == id
}

/// The map that a list of pairs stands for.
pub open spec fn pairs_to_map<K: KeyEq, V>(s: Seq<(K, V)>) -> Map<K::V, V> {
    Map::new(|id: K::V| has_key(s, id), |id: K::V| s[key_index(s, id)].1)
}


/// In a list without repeated keys, the pair at a position is the one that
/// the map holds for its key.
pub proof fn lemma_entry_at<K: KeyEq, V>(s: Seq<(K, V)>, i: int)
    requires
        distinct_keys(s),
        0 <= i < s.len(),
    ensures
        has_key(s, s[i].0@),
        key_index(s, s[i].0@) == i,
        pairs_to_map(s).contains_key(s[i].0@),
        pairs_to_map(s)[s[i].0@] == s[i].1,
{
    let id = s[i].0@;
    assert(0 <= i < s.len() && s[i].0@ == id);
    let j = key_index(s, id);
    assert(0 <= j < s.len() && s[j].0@ == id);
    if j < i {
        assert(s[j].0@ != s[i].0@);
    } else if i < j {
        assert(s[i].0@ != s[j].0@);
    }
}

/// A key of the map stands at some position of the list.
pub proof fn lemma_key_position<K: KeyEq, V>(s: Seq<(K, V)>, id: K::V)
    requires
        distinct_keys(s),
        pairs_to_map(s).contains_key(id),
    ensures
        0 <= key_index(s, id) < s.len(),
        s[key_index(s, id)].0@ == id,
        s[key_index(s, id)].1 == pairs_to_map(s)[id],
{
}

/// Appending a pair with a new key inserts it into the map.
pub proof fn lemma_push_entry<K: KeyEq, V>(s: Seq<(K, V)>, key: K, value: V)
    requires
        distinct_keys(s),
        !pairs_to_map(s).contains_key(key@),
    ensures
        distinct_keys(s.push((key, value))),
        pairs_to_map(s.push((key, value))) == pairs_to_map(s).insert(key@, value),
{
    let t = s.push((key, value));
    let m = pairs_to_map(s).insert(key@, value);
    assert forall|id: K::V| pairs_to_map(t).contains_key(id) <==> m.contains_key(id) by {
        if m.contains_key(id) {
            if id == key@ {
                assert(t[s.len() as int].0@ == id);
            } else {
                let i = key_index(s, id);
                assert(t[i].0@ == id);
            }
        }
    }
    assert forall|id: K::V| pairs_to_map(t).contains_key(id) implies pairs_to_map(t)[id] == m[id] by {
        let i = key_index(t, id);
        lemma_entry_at(t, i);
        if i < s.len() {
            lemma_entry_at(s, i);
        }
    }
}

/// Replacing the value at a position, under a key with the same view,
/// replaces it in the map.
pub proof fn lemma_update_entry<K: KeyEq, V>(s: Seq<(K, V)>, i: int, key: K, value: V)
    requires
        distinct_keys(s),
        0 <= i < s.len(),
        s[i].0@ == key@,
    ensures
        distinct_keys(s.update(i, (key, value))),
        pairs_to_map(s.update(i, (key, value))) == pairs_to_map(s).insert(key@, value),
{
    let t = s.update(i, (key, value));
    let m = pairs_to_map(s).insert(key@, value);
    assert forall|id: K::V| pairs_to_map(t).contains_key(id) <==> m.contains_key(id) by {
        if m.contains_key(id) {
            if id == key@ {
                assert(t[i].0@ == id);
            } else {
                let j = key_index(s, id);
                assert(t[j].0@ == id);
            }
        }
    }
    assert forall|id: K::V| pairs_to_map(t).contains_key(id) implies pairs_to_map(t)[id] == m[id] by {
        let j = key_index(t, id);
        lemma_entry_at(t, j);
        if j != i {
            lemma_entry_at(s, j);
        }
    }
}

/// Taking the pair at a position out removes its key from the map.
pub proof fn lemma_remove_entry<K: KeyEq, V>(s: Seq<(K, V)>, i: int)
    requires
        distinct_keys(s),
        0 <= i < s.len(),
    ensures
        distinct_keys(s.remove(i)),
        pairs_to_map(s.remove(i)) == pairs_to_map(s).remove(s[i].0@),
{
    let t = s.remove(i);
    assert forall|a: int, b: int| 0 <= a < b < t.len() implies t[a].0@ != t[b].0@ by {
        let a2 = if a < i { a } else { a + 1 };
        let b2 = if b < i { b } else { b + 1 };
        assert(t[a] == s[a2]);
        assert(t[b] == s[b2]);
        assert(s[a2].0@ != s[b2].0@);
    }
    let m = pairs_to_map(s).remove(s[i].0@);
    assert forall|id: K::V| pairs_to_map(t).contains_key(id) <==> m.contains_key(id) by {
        if pairs_to_map(t).contains_key(id) {
            let j = key_index(t, id);
            let j2 = if j < i { j } else { j + 1 };
            assert(t[j] == s[j2]);
            assert(s[j2].0@ == id);
            if j2 < i {
                assert(s[j2].0@ != s[i].0@);
            } else {
                assert(s[i].0@ != s[j2].0@);
            }
        }
        if m.contains_key(id) {
            let j = key_index(s, id);
            assert(j != i);
            let j1 = if j < i { j } else { j - 1 };
            assert(t[j1] == s[j]);
            assert(t[j1].0@ == id);
        }
    }
    assert forall|id: K::V| pairs_to_map(t).contains_key(id) implies pairs_to_map(t)[id] == m[id] by {
        let j = key_index(t, id);
        lemma_entry_at(t, j);
        let j2 = if j < i { j } else { j + 1 };
        assert(t[j] == s[j2]);
        lemma_entry_at(s, j2);
    }
    assert(pairs_to_map(t) =~= m);
}

/// A list without repeated keys has as many pairs as its map has keys.
pub proof fn lemma_len_is_keys<K: KeyEq, V>(s: Seq<(K, V)>)
    requires
        distinct_keys(s),
    ensures
        pairs_to_map(s).dom().finite(),
        pairs_to_map(s).dom().len() == s.len(),
    decreases s.len(),
{
    if s.len() == 0 {
        assert(pairs_to_map(s).dom() =~= Set::<K::V>::empty());
    } else {
        let front = s.drop_last();
        let last = s.last();
        lemma_len_is_keys(front);
        lemma_push_entry(front, last.0, last.1);
        assert(front.push((last.0, last.1)) =~= s);
    }
}

impl<K: KeyEq, V> View for AssocList<K, V> {
    type V = Map<K::V, V>;

    closed spec fn view(&self) -> Map<K::V, V> {
        pairs_to_map(self.items@)
    }
}

impl<K: KeyEq, V> AssocList<K, V> {
    /// The pairs in the order in which they are stored.
    pub closed spec fn entries(&self) -> Seq<(K, V)> {
        self.items@
    }

    /// No key occurs twice. Every list built through this interface is
    /// well formed, and every operation keeps it so.
    pub open spec fn wf(&self) -> bool {
        &&& distinct_keys(self.entries())
        &&& self@ == pairs_to_map(self.entries())
    }

    /// A list without pairs.
    pub fn new() -> (r: Self)
        ensures
            r.wf(),
            r@ == Map::<K::V, V>::empty(),
            r.entries() == Seq::<(K, V)>::empty(),
    {
        let r = AssocList { items: Vec::new() };
        r
    }

    /// The number of keys.
    pub fn len(&self) -> (n: usize)
        requires
            self.wf(),
        ensures
            n == self.entries().len(),
            self@.dom().finite(),
            n == self@.dom().len(),
    {
        proof {
            lemma_len_is_keys(self.items@);
        }
        self.items.len()
    }

    /// The position of the pair with the given key.
    pub fn position(&self, key: &K) -> (r: Option<usize>)
        requires
            self.wf(),
        ensures
            r is Some <==> self@.contains_key(key@),
            r matches Some(i) ==> i < self.entries().len() && self.entries()[i as int].0@ == key@
                && self.entries()[i as int].1 == self@[key@],
    {
        let mut i: usize = 0;
        while i < self.items.len()
            invariant
                self.wf(),
                i <= self.items.len(),
                forall|j: int| 0 <= j < i ==> self.items@[j].0@ != key@,
            decreases self.items.len() - i,
        {
            if self.items[i].0.key_eq(key) {
                proof {
                    lemma_entry_at(self.items@, i as int);
                }
                return Some(i);
            }
            i += 1;
        }
        None
    }

    /// The value under the given key, if there is one.
    pub fn get(&self, key: &K) -> (r: Option<&V>)
        requires
            self.wf(),
        ensures
            r is Some <==> self@.contains_key(key@),
            r matches Some(v) ==> *v == self@[key@],
    {
        match self.position(key) {
            Some(i) => Some(&self.items[i].1),
            None => None,
        }
    }

    /// Puts a value under a key, in the place of the one that was there or
    /// behind the others, and hands back the one that was there.
    pub fn insert(&mut self, key: K, value: V) -> (r: Option<V>)
        requires
            old(self).wf(),
        ensures
            final(self).wf(),
            final(self)@ == old(self)@.insert(key@, value),
            r == if old(self)@.contains_key(key@) { Some(old(self)@[key@]) } else { None::<V> },
            final(self).entries() == if old(self)@.contains_key(key@) {
                old(self).entries().update(key_index(old(self).entries(), key@), (key, value))
            } else {
                old(self).entries().push((key, value))
            },
    {
        match self.position(&key) {
            Some(i) => {
                proof {
                    lemma_update_entry(self.items@, i as int, key, value);
                }
                let old_pair = self.items.remove(i);
                self.items.insert(i, (key, value));
                assert(self.items@ =~= old(self).items@.update(i as int, (key, value)));
                Some(old_pair.1)
            },
            None => {
                proof {
                    lemma_push_entry(self.items@, key, value);
                }
                self.items.push((key, value));
                None
            },
        }
    }

    /// Whether there is a value under the given key.
    pub fn contains_key(&self, key: &K) -> (r: bool)
        requires
            self.wf(),
        ensures
            r == self@.contains_key(key@),
    {
        self.position(key).is_some()
    }

    /// Takes the pair with the given key out, if there is one.
    pub fn remove(&mut self, key: &K) -> (r: Option<V>)
        requires
            old(self).wf(),
        ensures
            final(self).wf(),
            final(self)@ == old(self)@.remove(key@),
            r == if old(self)@.contains_key(key@) { Some(old(self)@[key@]) } else { None::<V> },
            final(self).entries() == if old(self)@.contains_key(key@) {
                old(self).entries().remove(key_index(old(self).entries(), key@))
            } else {
                old(self).entries()
            },
    {
        match self.position(key) {
            Some(i) => {
                proof {
                    lemma_remove_entry(self.items@, i as int);
                }
                let old_pair = self.items.remove(i);
                Some(old_pair.1)
            },
            None => {
                None
            },
        }
    }

    /// The key at position `i`.
    pub fn key_at(&self, i: usize) -> (r: &K)
        requires
            self.wf(),
            i < self.entries().len(),
        ensures
            *r == self.entries()[i as int].0,
            self@.contains_key(r@),
    {
        proof {
            lemma_entry_at(self.items@, i as int);
        }
        &self.items[i].0
    }

    /// The value at position `i`.
    pub fn value_at(&self, i: usize) -> (r: &V)
        requires
            self.wf(),
            i < self.entries().len(),
        ensures
            *r == self.entries()[i as int].1,
            self@.contains_key(self.entries()[i as int].0@),
            self@[self.entries()[i as int].0@] == *r,
    {
        proof {
            lemma_entry_at(self.items@, i as int);
        }
        &self.items[i].1
    }

    /// Takes all pairs out.
    pub fn clear(&mut self)
        ensures
            final(self).wf(),
            final(self)@ == Map::<K::V, V>::empty(),
            final(self).entries() == Seq::<(K, V)>::empty(),
    {
        self.items.clear();
    }
}

} // verus!
