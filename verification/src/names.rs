//! Lookups the sheet reader keeps: registers under the names the sheet
//! gives them, and bricklet uids read from their base58 text.
use vstd::prelude::*;
use tinkerforge_async::base58::Base58;
use crate::shelly::common::str_equals;
use crate::text::{new_string, push_char, string_of};

verus! {

/// What a name was last bound to among the first `n` bindings.
pub open spec fn lookup_spec<V>(entries: Seq<(String, V)>, name: Seq<char>, n: int) -> Option<V>
    decreases n,
{
    if n <= 0 {
        None
    } else if entries[n - 1].0@ == name {
        Some(entries[n - 1].1)
    } else {
        lookup_spec(entries, name, n - 1)
    }
}

/// Registers under names; binding a name again replaces what it stood for.
#[derive(Debug, Clone)]
pub struct NameMap<V> {
    pub entries: Vec<(String, V)>,
}

impl<V: Copy> NameMap<V> {
    /// What `name` stands for.
    pub open spec fn lookup(&self, name: Seq<char>) -> Option<V> {
        lookup_spec(self.entries@, name, self.entries@.len() as int)
    }

    /// No names.
    pub fn new() -> (m: Self)
        ensures
            forall|name: Seq<char>| m.lookup(name) is None,
    {
        NameMap { entries: Vec::new() }
    }

    /// Binds `name` to `v`.
    pub fn insert(&mut self, name: &str, v: V)
        ensures
            final(self).lookup(name@) == Some(v),
            forall|other: Seq<char>| other != name@ ==> final(self).lookup(other) == old(self).lookup(other),
    {
        let ghost before = self.entries@;
        self.entries.push((string_of(name), v));
        proof {
            assert forall|other: Seq<char>| other != name@ implies lookup_spec(
                self.entries@,
                other,
                self.entries@.len() as int,
            ) == lookup_spec(before, other, before.len() as int) by {
                lemma_lookup_prefix(self.entries@, before, other);
            }
        }
    }

    /// What `name` stands for, if anything.
    pub fn get(&self, name: &str) -> (r: Option<V>)
        ensures
            r == self.lookup(name@),
    {
        let mut i = self.entries.len();
        while i > 0
            invariant
                i <= self.entries@.len(),
                lookup_spec(self.entries@, name@, self.entries@.len() as int) == lookup_spec(
                    self.entries@,
                    name@,
                    i as int,
                ),
            decreases i,
        {
            if str_equals(self.entries[i - 1].0.as_str(), name) {
                return Some(self.entries[i - 1].1);
            }
            i = i - 1;
        }
        None
    }
}

proof fn lemma_lookup_prefix<V>(s: Seq<(String, V)>, t: Seq<(String, V)>, name: Seq<char>)
    requires
        t.len() <= s.len(),
        forall|i: int| 0 <= i < t.len() ==> s[i] == t[i],
        forall|i: int| t.len() <= i < s.len() ==> s[i].0@ != name,
    ensures
        lookup_spec(s, name, s.len() as int) == lookup_spec(t, name, t.len() as int),
{
    lemma_lookup_same(s, t, name, t.len() as int);
    lemma_lookup_tail(s, name, t.len() as int, s.len() as int);
}

proof fn lemma_lookup_same<V>(s: Seq<(String, V)>, t: Seq<(String, V)>, name: Seq<char>, n: int)
    requires
        0 <= n <= t.len(),
        n <= s.len(),
        forall|i: int| 0 <= i < n ==> s[i] == t[i],
    ensures
        lookup_spec(s, name, n) == lookup_spec(t, name, n),
    decreases n,
{
    if n > 0 {
        lemma_lookup_same(s, t, name, n - 1);
    }
}

proof fn lemma_lookup_tail<V>(s: Seq<(String, V)>, name: Seq<char>, m: int, n: int)
    requires
        0 <= m <= n <= s.len(),
        forall|i: int| m <= i < n ==> s[i].0@ != name,
    ensures
        lookup_spec(s, name, n) == lookup_spec(s, name, m),
    decreases n - m,
{
    if n > m {
        lemma_lookup_tail(s, name, m, n - 1);
    }
}

/// The uid a base58 text names, as `Base58::base58_to_u32` of
/// tinkerforge-async reads it.
pub uninterp spec fn base58_uid(text: Seq<char>) -> Option<u32>;

/// Reads a bricklet uid with `Base58::base58_to_u32`. Claimed: the result is
/// the named reading of the text, and a uid read is never zero (the
/// function returns its empty-uid error for zero).
#[verifier::external_body]
pub(crate) fn parse_uid(text: &str) -> (r: Option<u32>)
    ensures
        r == base58_uid(text@),
        r matches Some(v) ==> v != 0,
{
    text.base58_to_u32().ok()
}

/// The base58 text `u32_to_base58` of tinkerforge-async writes for a uid.
pub uninterp spec fn base58_text(uid: u32) -> Seq<char>;

/// Writes a uid with `u32_to_base58`. Claimed: the result is the named text.
#[verifier::external_body]
pub(crate) fn uid_string(uid: u32) -> (s: String)
    ensures
        s@ == base58_text(uid),
{
    tinkerforge_async::base58::u32_to_base58(uid).to_string()
}

/// The pieces of `s` between the separators `c`.
pub open spec fn split_spec(s: Seq<char>, c: char) -> Seq<Seq<char>>
    decreases s.len(),
{
    if s.len() == 0 {
        seq![seq![]]
    } else {
        let rest = split_spec(s.drop_last(), c);
        if s.last() == c {
            rest.push(seq![])
        } else {
            rest.update(rest.len() - 1, rest.last().push(s.last()))
        }
    }
}

proof fn lemma_split_nonempty(s: Seq<char>, c: char)
    ensures
        split_spec(s, c).len() >= 1,
    decreases s.len(),
{
    if s.len() > 0 {
        lemma_split_nonempty(s.drop_last(), c);
    }
}

/// Splits `s` at every `c`, as `str::split` does.
pub fn split_at_char(s: &str, c: char) -> (r: Vec<String>)
    ensures
        r@.map_values(|p: String| p@) == split_spec(s@, c),
{
    let n = s.unicode_len();
    let mut r: Vec<String> = Vec::new();
    let mut current = new_string();
    let mut i: usize = 0;
    while i < n
        invariant
            i <= n == s@.len(),
            r@.map_values(|p: String| p@).push(current@) == split_spec(s@.subrange(0, i as int), c),
        decreases n - i,
    {
        let ch = s.get_char(i);
        let ghost prefix = s@.subrange(0, i as int);
        proof {
            assert(s@.subrange(0, i + 1).drop_last() =~= prefix);
            lemma_split_nonempty(prefix, c);
        }
        if ch == c {
            let ghost before = r@;
            let ghost cur = current@;
            r.push(current);
            current = new_string();
            proof {
                assert(r@.map_values(|p: String| p@) =~= before.map_values(|p: String| p@).push(cur));
                assert(r@.map_values(|p: String| p@).push(current@) =~= split_spec(
                    s@.subrange(0, i + 1),
                    c,
                ));
            }
        } else {
            push_char(&mut current, ch);
            proof {
                assert(r@.map_values(|p: String| p@).push(current@) =~= split_spec(
                    s@.subrange(0, i + 1),
                    c,
                ));
            }
        }
        i = i + 1;
    }
    proof {
        assert(s@.subrange(0, n as int) =~= s@);
    }
    let ghost before = r@;
    let ghost cur = current@;
    r.push(current);
    proof {
        assert(r@.map_values(|p: String| p@) =~= before.map_values(|p: String| p@).push(cur));
    }
    r
}

} // verus!
