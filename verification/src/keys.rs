//! Keys written as a fixed prefix followed by a number, such as `"light:0"`.
use vstd::prelude::*;
use vstd::string::*;
use crate::text::{
    lemma_u16_text_roundtrip, nat_digits, new_string, parse_u16_range, parse_u16_spec, push_decimal,
    push_str, IntErrorKind,
};

verus! {

/// Why a text is not a prefixed key.
#[derive(Debug, Clone, Copy, PartialEq, Eq, Structural)]
pub enum ParseKeyError {
    /// The text does not start with the expected prefix.
    InvalidPrefix,
    /// What follows the prefix is no `u16`.
    CannotParseNumber(IntErrorKind),
}

pub open spec fn starts_with(s: Seq<char>, p: Seq<char>) -> bool {
    p.len() <= s.len() && s.subrange(0, p.len() as int) == p
}

/// What `parse_key` gives: the number after the prefix, or why there is none.
pub open spec fn parse_key_spec(prefix: Seq<char>, key: Seq<char>) -> Result<u16, ParseKeyError> {
    if starts_with(key, prefix) {
        match parse_u16_spec(key.subrange(prefix.len() as int, key.len() as int)) {
            Ok(v) => Ok(v),
            Err(e) => Err(ParseKeyError::CannotParseNumber(e)),
        }
    } else {
        Err(ParseKeyError::InvalidPrefix)
    }
}

/// Whether `key` starts with `prefix`.
pub fn has_prefix(prefix: &str, key: &str) -> (r: bool)
    ensures
        r == starts_with(key@, prefix@),
{
    let pl = prefix.unicode_len();
    let kl = key.unicode_len();
    if pl > kl {
        return false;
    }
    let mut i: usize = 0;
    while i < pl
        invariant
            i <= pl <= kl,
            pl == prefix@.len(),
            kl == key@.len(),
            forall|j: int| 0 <= j < i ==> key@[j] == prefix@[j],
        decreases pl - i,
    {
        if key.get_char(i) != prefix.get_char(i) {
            assert(key@.subrange(0, pl as int)[i as int] != prefix@[i as int]);
            return false;
        }
        i = i + 1;
    }
    assert(key@.subrange(0, pl as int) =~= prefix@);
    true
}

/// Strips `prefix` from `key` and parses the rest as a `u16`.
pub fn parse_key(prefix: &str, key: &str) -> (r: Result<u16, ParseKeyError>)
    ensures
        r == parse_key_spec(prefix@, key@),
{
    if has_prefix(prefix, key) {
        let pl = prefix.unicode_len();
        let kl = key.unicode_len();
        match parse_u16_range(key, pl, kl) {
            Ok(v) => Ok(v),
            Err(e) => Err(ParseKeyError::CannotParseNumber(e)),
        }
    } else {
        Err(ParseKeyError::InvalidPrefix)
    }
}

/// A key type whose text is a fixed prefix followed by its number.
pub trait PrefixedKey: Sized + Copy {
    spec fn prefix_text() -> Seq<char>;

    spec fn key_id(self) -> u16;

    fn prefix() -> (p: &'static str)
        ensures
            p@ == Self::prefix_text(),
    ;

    fn from_id(id: u16) -> (k: Self)
        ensures
            k.key_id() == id,
    ;

    fn id_value(&self) -> (i: u16)
        ensures
            i == self.key_id(),
    ;

    /// A key is given by its number.
    proof fn lemma_id_determines(a: Self, b: Self)
        requires
            a.key_id() == b.key_id(),
        ensures
            a == b,
    ;
}

/// A prefixed key that reads and writes itself as text.
#[derive(Debug, Clone, Copy, PartialEq, Eq, Structural, Hash, PartialOrd, Ord)]
pub struct SerdeStringKey<K>(pub K);

/// The text of a key: its prefix followed by its number.
pub open spec fn key_text<K: PrefixedKey>(k: K) -> Seq<char> {
    K::prefix_text() + nat_digits(k.key_id() as nat)
}

impl<K: PrefixedKey> SerdeStringKey<K> {
    /// Parses the key from its text.
    pub fn parse(s: &str) -> (r: Result<SerdeStringKey<K>, ParseKeyError>)
        ensures
            match parse_key_spec(K::prefix_text(), s@) {
                Ok(v) => r matches Ok(k) && k.0.key_id() == v,
                Err(e) => r == Err::<SerdeStringKey<K>, ParseKeyError>(e),
            },
    {
        match parse_key(K::prefix(), s) {
            Ok(v) => Ok(SerdeStringKey(K::from_id(v))),
            Err(e) => Err(e),
        }
    }

    /// The text of the key, prefix followed by the number.
    pub fn to_string(&self) -> (s: String)
        ensures
            s@ == key_text(self.0),
    {
        let mut s = new_string();
        push_str(&mut s, K::prefix());
        push_decimal(&mut s, self.0.id_value() as u64);
        assert(s@ =~= key_text(self.0));
        s
    }

    pub fn key(&self) -> (k: K)
        ensures
            k == self.0,
    {
        self.0
    }
}

/// Writing a key as text and parsing the text gives the same number back.
pub proof fn lemma_key_text_roundtrip<K: PrefixedKey>(k: K)
    ensures
        parse_key_spec(K::prefix_text(), key_text(k)) == Ok::<u16, ParseKeyError>(k.key_id()),
{
    let t = key_text(k);
    let p = K::prefix_text();
    assert(t.subrange(0, p.len() as int) =~= p);
    assert(t.subrange(p.len() as int, t.len() as int) =~= nat_digits(k.key_id() as nat));
    lemma_u16_text_roundtrip(k.key_id());
}

} // verus!
