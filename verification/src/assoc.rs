//! A small map kept as a list of distinct keys with their values. The keys
//! it holds are enums and structs of this library (IP addresses, ports of a
//! bricklet) besides `u32` uids; vstd gives std's `HashMap` a contract only
//! for key types it knows to obey its key model, such as the integers, and
//! a derived `Eq`/`Hash` on a type of the library is not among them. One
//! list of pairs serves all the keys of the state alike.
use vstd::prelude::*;

verus! {

/// A key that can be compared in executable code.
pub trait ExecKey: Copy {
    fn same_key(&self, other: &Self) -> (r: bool)
        ensures
            r == (*self == *other),
    ;
}

impl ExecKey for u32 {
    fn same_key(&self, other: &Self) -> (r: bool) {
        *self == *other
    }
}

/// The map an entry list stands for (a later entry wins, but a
/// well-formed list holds each key once).
pub open spec fn assoc_map<K, V>(s: Seq<(K, V)>) -> Map<K, V>
    decreases s.len(),
{
    if s.len() == 0 {
        Map::empty()
    } else {
        assoc_map(s.drop_last()).insert(s.last().0, s.last().1)
    }
}

pub open spec fn keys_distinct<K, V>(s: Seq<(K, V)>) -> bool {
    forall|i: int, j: int| 0 <= i < j < s.len() ==> s[i].0 != s[j].0
}

/// An association list without repeated keys maps each of its keys to the
/// value stored with it.
pub proof fn lemma_assoc_contains<K, V>(s: Seq<(K, V)>, k: K)
    requires
        keys_distinct(s),
    ensures
        assoc_map(s).contains_key(k) <==> exists|i: int| 0 <= i < s.len() && s[i].0 == k,
        forall|i: int| 0 <= i < s.len() && s[i].0 == k ==> assoc_map(s)[k] == s[i].1,
    decreases s.len(),
{
    if s.len() > 0 {
        let t = s.drop_last();
        lemma_assoc_contains(t, k);
        if assoc_map(s).contains_key(k) && s.last().0 != k {
            let i = choose|i: int| 0 <= i < t.len() && t[i].0 == k;
            assert(s[i].0 == k);
        }
        assert forall|i: int| 0 <= i < s.len() && s[i].0 == k implies assoc_map(s)[k] == s[i].1 by {
            if i < s.len() - 1 {
                assert(t[i] == s[i]);
            }
        }
        if exists|i: int| 0 <= i < s.len() && s[i].0 == k {
            let i = choose|i: int| 0 <= i < s.len() && s[i].0 == k;
            if i < s.len() - 1 {
                assert(t[i].0 == k);
            }
        }
    }
}

/// Replacing the value of an entry replaces the value of its key.
pub proof fn lemma_assoc_update<K, V>(s: Seq<(K, V)>, i: int, v: V)
    requires
        keys_distinct(s),
        0 <= i < s.len(),
    ensures
        keys_distinct(s.update(i, (s[i].0, v))),
        assoc_map(s.update(i, (s[i].0, v))) == assoc_map(s).insert(s[i].0, v),
    decreases s.len(),
{
    let k = s[i].0;
    let u = s.update(i, (k, v));
    if i == s.len() - 1 {
        assert(u.drop_last() =~= s.drop_last());
    } else {
        lemma_assoc_update(s.drop_last(), i, v);
        assert(u.drop_last() =~= s.drop_last().update(i, (k, v)));
        lemma_assoc_contains(s.drop_last(), s.last().0);
        assert(s.last().0 != k);
        assert(assoc_map(u) =~= assoc_map(s).insert(k, v));
    }
}

/// Appending an entry for a new key adds that key.
pub proof fn lemma_assoc_push<K, V>(s: Seq<(K, V)>, k: K, v: V)
    requires
        keys_distinct(s),
        !assoc_map(s).contains_key(k),
    ensures
        keys_distinct(s.push((k, v))),
        assoc_map(s.push((k, v))) == assoc_map(s).insert(k, v),
{
    lemma_assoc_contains(s, k);
    assert(s.push((k, v)).drop_last() =~= s);
    assert forall|i: int, j: int| 0 <= i < j < s.push((k, v)).len() implies s.push((k, v))[i].0
        != s.push((k, v))[j].0 by {
        if j == s.len() {
            assert(s[i].0 != k);
        }
    }
}

/// Index of the entry for `k`, if there is one.
pub fn find_key<K: ExecKey, V>(entries: &Vec<(K, V)>, k: &K) -> (r: Option<usize>)
    ensures
        match r {
            Some(i) => i < entries@.len() && entries@[i as int].0 == *k,
            None => forall|i: int| 0 <= i < entries@.len() ==> entries@[i].0 != *k,
        },
{
    let mut i: usize = 0;
    while i < entries.len()
        invariant
            i <= entries@.len(),
            forall|j: int| 0 <= j < i ==> entries@[j].0 != *k,
        decreases entries.len() - i,
    {
        if entries[i].0.same_key(k) {
            return Some(i);
        }
        i = i + 1;
    }
    None
}

/// A map from distinct keys to values.
#[derive(Debug, Clone)]
pub struct AssocList<K, V> {
    pub entries: Vec<(K, V)>,
}

impl<K: ExecKey, V: Copy> AssocList<K, V> {
    pub open spec fn wf(&self) -> bool {
        keys_distinct(self.entries@)
    }

    pub open spec fn view(&self) -> Map<K, V> {
        assoc_map(self.entries@)
    }

    pub fn new() -> (m: Self)
        ensures
            m.wf(),
            m.view() == Map::<K, V>::empty(),
    {
        AssocList { entries: Vec::new() }
    }

    /// The value stored for `k`, if any.
    pub fn get(&self, k: &K) -> (r: Option<V>)
        requires
            self.wf(),
        ensures
            r == (if self.view().contains_key(*k) {
                Some(self.view()[*k])
            } else {
                None
            }),
    {
        proof {
            lemma_assoc_contains(self.entries@, *k);
        }
        match find_key(&self.entries, k) {
            Some(i) => Some(self.entries[i].1),
            None => None,
        }
    }

    /// Stores `v` for `k`, replacing what was stored.
    pub fn insert(&mut self, k: K, v: V)
        requires
            old(self).wf(),
        ensures
            final(self).wf(),
            final(self).view() == old(self).view().insert(k, v),
    {
        proof {
            lemma_assoc_contains(self.entries@, k);
        }
        match find_key(&self.entries, &k) {
            Some(i) => {
                proof {
                    lemma_assoc_update(self.entries@, i as int, v);
                }
                self.entries.set(i, (k, v));
            },
            None => {
                proof {
                    lemma_assoc_push(self.entries@, k, v);
                }
                self.entries.push((k, v));
            },
        }
    }
}

} // verus!
