//! Rooms ("floor.room") and the devices placed in them.
use vstd::prelude::*;
use vstd::string::*;
use crate::text::{
    int_text, is_digit, lemma_i16_text_roundtrip, lemma_nat_digits_are_digits, lemma_u16_text_roundtrip,
    nat_digits, new_string, parse_i16_range, parse_i16_spec, parse_u16_range, parse_u16_spec,
    push_char, push_decimal, push_signed_decimal, string_of, IntErrorKind,
};

verus! {

/// A room, identified by its floor and a room number on that floor.
#[derive(Copy, Clone, PartialEq, Eq, Structural, Hash, Debug, Default, Ord, PartialOrd)]
pub struct Room {
    pub floor: i16,
    pub room: u16,
}

/// The `idx`-th device of a kind in a room.
#[derive(Copy, Clone, PartialEq, Eq, Structural, Hash, Debug, Default, Ord, PartialOrd)]
pub struct DeviceInRoom {
    pub room: Room,
    pub idx: u16,
}

/// A sub-device (such as one button of a panel) of a device in a room.
#[derive(Copy, Clone, PartialEq, Eq, Structural, Hash, Debug, Default, Ord, PartialOrd)]
pub struct SubDeviceInRoom {
    pub room: Room,
    pub device_idx: u16,
    pub sub_device_idx: u16,
}

/// Why a text is no room.
#[derive(Debug, Clone)]
pub enum RoomParseError {
    /// The text (given back) holds no `.`.
    MissingDotSeparator(String),
    /// The part after the first `.` is no `u16`.
    RoomId(IntErrorKind),
    /// The part before the first `.` is no `i16`.
    FloorId(IntErrorKind),
}

/// Index of the first `c` in `s` at or after `i`, or `s.len()` when there is none.
pub open spec fn find_char_from(s: Seq<char>, c: char, i: int) -> int
    decreases s.len() - i,
{
    if i >= s.len() {
        s.len() as int
    } else if s[i] == c {
        i
    } else {
        find_char_from(s, c, i + 1)
    }
}

pub open spec fn find_char(s: Seq<char>, c: char) -> int {
    find_char_from(s, c, 0)
}

/// The text of a room, as its `Display` writes it: `"{floor}.{room}"`.
pub open spec fn room_text(r: Room) -> Seq<char> {
    int_text(r.floor as int).push('.') + nat_digits(r.room as nat)
}

/// What parsing a text as a room gives: split at the first `.`, the floor as
/// `i16` before it, the room number as `u16` after it.
pub open spec fn room_parse_spec(s: Seq<char>) -> Result<Room, RoomParseError> {
    let p = find_char(s, '.');
    if p >= s.len() {
        Err(RoomParseError::MissingDotSeparator(arbitrary()))
    } else {
        match parse_i16_spec(s.subrange(0, p)) {
            Err(e) => Err(RoomParseError::FloorId(e)),
            Ok(floor) => match parse_u16_spec(s.subrange(p + 1, s.len() as int)) {
                Err(e) => Err(RoomParseError::RoomId(e)),
                Ok(room) => Ok(Room { floor, room }),
            },
        }
    }
}

/// Result of a parse matches its description: same variant, same payload,
/// and a missing separator hands back the whole text.
pub open spec fn room_parse_matches(s: Seq<char>, r: Result<Room, RoomParseError>) -> bool {
    match (r, room_parse_spec(s)) {
        (Ok(a), Ok(b)) => a == b,
        (Err(RoomParseError::MissingDotSeparator(t)), Err(RoomParseError::MissingDotSeparator(_))) => t@
            == s,
        (Err(RoomParseError::RoomId(a)), Err(RoomParseError::RoomId(b))) => a == b,
        (Err(RoomParseError::FloorId(a)), Err(RoomParseError::FloorId(b))) => a == b,
        _ => false,
    }
}

/// Index of the first `c` in `s`, or its length when `c` does not occur.
pub fn find_char_index(s: &str, c: char) -> (i: usize)
    ensures
        i == find_char(s@, c),
        i <= s@.len(),
{
    let n = s.unicode_len();
    let mut i: usize = 0;
    while i < n
        invariant
            i <= n == s@.len(),
            find_char_from(s@, c, 0) == find_char_from(s@, c, i as int),
        decreases n - i,
    {
        if s.get_char(i) == c {
            return i;
        }
        i = i + 1;
    }
    i
}

impl Room {
    /// Parses `"floor.room"`, as `"2.4".parse::<Room>()` does.
    pub fn parse(s: &str) -> (r: Result<Room, RoomParseError>)
        ensures
            room_parse_matches(s@, r),
    {
        let n = s.unicode_len();
        let p = find_char_index(s, '.');
        if p >= n {
            return Err(RoomParseError::MissingDotSeparator(string_of(s)));
        }
        let floor = match parse_i16_range(s, 0, p) {
            Ok(f) => f,
            Err(e) => {
                return Err(RoomParseError::FloorId(e));
            },
        };
        match parse_u16_range(s, p + 1, n) {
            Ok(room) => Ok(Room { floor, room }),
            Err(e) => Err(RoomParseError::RoomId(e)),
        }
    }

    /// The text of the room, `"{floor}.{room}"`.
    pub fn to_string(&self) -> (s: String)
        ensures
            s@ == room_text(*self),
    {
        let mut s = new_string();
        push_signed_decimal(&mut s, self.floor as i64);
        push_char(&mut s, '.');
        push_decimal(&mut s, self.room as u64);
        assert(s@ =~= room_text(*self));
        s
    }
}

impl core::str::FromStr for Room {
    type Err = RoomParseError;

    fn from_str(s: &str) -> (r: Result<Room, RoomParseError>)
        ensures
            room_parse_matches(s@, r),
    {
        Room::parse(s)
    }
}

proof fn lemma_int_text_has_no_dot(v: int)
    ensures
        forall|i: int| 0 <= i < int_text(v).len() ==> #[trigger] int_text(v)[i] != '.',
{
    if v < 0 {
        let m = (-v) as nat;
        lemma_nat_digits_are_digits(m);
        assert forall|i: int| 0 <= i < int_text(v).len() implies #[trigger] int_text(v)[i] != '.' by {
            if i > 0 {
                assert(int_text(v)[i] == nat_digits(m)[i - 1]);
                assert(is_digit(nat_digits(m)[i - 1]));
            }
        }
    } else {
        lemma_nat_digits_are_digits(v as nat);
        assert forall|i: int| 0 <= i < int_text(v).len() implies #[trigger] int_text(v)[i] != '.' by {
            assert(is_digit(nat_digits(v as nat)[i]));
        }
    }
}

/// Searching for `c` from `i` finds what searching from `j` finds when no
/// `c` lies in between.
pub proof fn lemma_find_char_skips(s: Seq<char>, c: char, i: int, j: int)
    requires
        0 <= i <= j <= s.len(),
        forall|k: int| i <= k < j ==> s[k] != c,
    ensures
        find_char_from(s, c, i) == find_char_from(s, c, j),
    decreases j - i,
{
    if i < j {
        lemma_find_char_skips(s, c, i + 1, j);
    }
}

/// Writing a room as text and parsing the text gives the same room back.
pub proof fn lemma_room_text_roundtrip(r: Room)
    ensures
        room_parse_spec(room_text(r)) == Ok::<Room, RoomParseError>(r),
{
    let s = room_text(r);
    let f = int_text(r.floor as int);
    lemma_int_text_has_no_dot(r.floor as int);
    lemma_find_char_skips(s, '.', 0, f.len() as int);
    assert(s[f.len() as int] == '.');
    assert(find_char(s, '.') == f.len());
    assert(s.subrange(0, f.len() as int) =~= f);
    assert(s.subrange(f.len() as int + 1, s.len() as int) =~= nat_digits(r.room as nat));
    lemma_i16_text_roundtrip(r.floor);
    lemma_u16_text_roundtrip(r.room);
}

} // verus!
