//! Putting register keys in their natural order (room, device, key number;
//! buttons before motion detectors), as lists of keys are kept.
use vstd::prelude::*;
use vstd::relations::{sorted_by, total_ordering};
use crate::registry::{DualButtonKey, SingleButtonKey};
use crate::room::{DeviceInRoom, Room, SubDeviceInRoom};

verus! {

/// A value with a position in an order: `rank` orders values as the
/// derived order of their type does.
pub trait Ranked: Sized {
    spec fn rank(self) -> int;

    fn rank_le(&self, other: &Self) -> (r: bool)
        ensures
            r == (self.rank() <= other.rank()),
    ;
}

/// A key whose rank tells keys apart.
pub trait Keyed: Ranked {
    proof fn lemma_rank_injective(a: Self, b: Self)
        requires
            a.rank() == b.rank(),
        ensures
            a == b,
    ;
}

/// Position of a room: floor, then room number.
pub open spec fn room_rank(r: Room) -> int {
    (r.floor + 32768) * 65536 + r.room
}

/// Position of a key of a device: room, device number, key number.
pub open spec fn sub_rank(s: SubDeviceInRoom) -> int {
    (room_rank(s.room) * 65536 + s.device_idx) * 65536 + s.sub_device_idx
}

/// Position of a device: room, device number.
pub open spec fn device_rank(d: DeviceInRoom) -> int {
    room_rank(d.room) * 65536 + d.idx
}

fn room_rank_of(r: Room) -> (v: u128)
    ensures
        v == room_rank(r),
        0 <= v < 0x1_0000_0000,
{
    ((r.floor as i32 + 32768) as u128) * 65536 + r.room as u128
}

proof fn lemma_room_rank_injective(a: Room, b: Room)
    requires
        room_rank(a) == room_rank(b),
    ensures
        a == b,
{
    assert(a.floor == b.floor && a.room == b.room) by (nonlinear_arith)
        requires
            (a.floor + 32768) * 65536 + a.room == (b.floor + 32768) * 65536 + b.room,
            0 <= a.room < 65536,
            0 <= b.room < 65536,
    ;
}

proof fn lemma_sub_rank_injective(a: SubDeviceInRoom, b: SubDeviceInRoom)
    requires
        sub_rank(a) == sub_rank(b),
    ensures
        a == b,
{
    let ra = room_rank(a.room);
    let rb = room_rank(b.room);
    assert(ra == rb && a.device_idx == b.device_idx && a.sub_device_idx == b.sub_device_idx)
        by (nonlinear_arith)
        requires
            (ra * 65536 + a.device_idx) * 65536 + a.sub_device_idx == (rb * 65536 + b.device_idx)
                * 65536 + b.sub_device_idx,
            0 <= a.device_idx < 65536,
            0 <= b.device_idx < 65536,
            0 <= a.sub_device_idx < 65536,
            0 <= b.sub_device_idx < 65536,
    ;
    lemma_room_rank_injective(a.room, b.room);
}

proof fn lemma_device_rank_injective(a: DeviceInRoom, b: DeviceInRoom)
    requires
        device_rank(a) == device_rank(b),
    ensures
        a == b,
{
    let ra = room_rank(a.room);
    let rb = room_rank(b.room);
    assert(ra == rb && a.idx == b.idx) by (nonlinear_arith)
        requires
            ra * 65536 + a.idx == rb * 65536 + b.idx,
            0 <= a.idx < 65536,
            0 <= b.idx < 65536,
    ;
    lemma_room_rank_injective(a.room, b.room);
}

fn sub_rank_of(s: SubDeviceInRoom) -> (v: u128)
    ensures
        v == sub_rank(s),
        0 <= v < 0x1_0000_0000_0000_0000,
{
    let r = room_rank_of(s.room);
    assert((r * 65536 + s.device_idx) * 65536 + s.sub_device_idx < 0x1_0000_0000_0000_0000)
        by (nonlinear_arith)
        requires
            r < 0x1_0000_0000,
            s.device_idx < 65536,
            s.sub_device_idx < 65536,
    ;
    (r * 65536 + s.device_idx as u128) * 65536 + s.sub_device_idx as u128
}

fn device_rank_of(d: DeviceInRoom) -> (v: u128)
    ensures
        v == device_rank(d),
        0 <= v < 0x1_0000_0000_0000,
{
    let r = room_rank_of(d.room);
    r * 65536 + d.idx as u128
}

impl Ranked for DualButtonKey {
    open spec fn rank(self) -> int {
        sub_rank(self.0)
    }

    fn rank_le(&self, other: &Self) -> (r: bool) {
        sub_rank_of(self.0) <= sub_rank_of(other.0)
    }
}

impl Keyed for DualButtonKey {
    proof fn lemma_rank_injective(a: Self, b: Self) {
        lemma_sub_rank_injective(a.0, b.0);
    }
}

impl Ranked for SingleButtonKey {
    open spec fn rank(self) -> int {
        match self {
            SingleButtonKey::Button(s) => sub_rank(s),
            SingleButtonKey::MotionDetector(d) => 0x1_0000_0000_0000_0000 + device_rank(d),
        }
    }

    fn rank_le(&self, other: &Self) -> (r: bool) {
        single_rank_of(self) <= single_rank_of(other)
    }
}

fn single_rank_of(k: &SingleButtonKey) -> (r: u128)
    ensures
        r == k.rank(),
{
    match k {
        SingleButtonKey::Button(s) => sub_rank_of(*s),
        SingleButtonKey::MotionDetector(d) => 0x1_0000_0000_0000_0000 + device_rank_of(*d),
    }
}

impl Keyed for SingleButtonKey {
    proof fn lemma_rank_injective(a: Self, b: Self) {
        match (a, b) {
            (SingleButtonKey::Button(x), SingleButtonKey::Button(y)) => {
                lemma_sub_rank_injective(x, y);
            },
            (SingleButtonKey::MotionDetector(x), SingleButtonKey::MotionDetector(y)) => {
                lemma_device_rank_injective(x, y);
            },
            (SingleButtonKey::Button(x), SingleButtonKey::MotionDetector(y)) => {
                assert(0 <= room_rank(x.room));
                assert(sub_rank(x) < 0x1_0000_0000_0000_0000) by (nonlinear_arith)
                    requires
                        room_rank(x.room) < 0x1_0000_0000,
                        0 <= room_rank(x.room),
                        sub_rank(x) == (room_rank(x.room) * 65536 + x.device_idx) * 65536 + x.sub_device_idx,
                        x.device_idx < 65536,
                        x.sub_device_idx < 65536,
                ;
                assert(0 <= device_rank(y)) by (nonlinear_arith)
                    requires
                        0 <= room_rank(y.room),
                        device_rank(y) == room_rank(y.room) * 65536 + y.idx,
                ;
            },
            (SingleButtonKey::MotionDetector(x), SingleButtonKey::Button(y)) => {
                assert(sub_rank(y) < 0x1_0000_0000_0000_0000) by (nonlinear_arith)
                    requires
                        room_rank(y.room) < 0x1_0000_0000,
                        0 <= room_rank(y.room),
                        sub_rank(y) == (room_rank(y.room) * 65536 + y.device_idx) * 65536 + y.sub_device_idx,
                        y.device_idx < 65536,
                        y.sub_device_idx < 65536,
                ;
                assert(0 <= device_rank(x)) by (nonlinear_arith)
                    requires
                        0 <= room_rank(x.room),
                        device_rank(x) == room_rank(x.room) * 65536 + x.idx,
                ;
            },
        }
    }
}

/// The order of keys by their rank.
pub open spec fn rank_leq<T: Ranked>() -> spec_fn(T, T) -> bool {
    |a: T, b: T| a.rank() <= b.rank()
}

/// The keys of `s` in their natural order.
pub open spec fn sorted_keys<T: Keyed>(s: Seq<T>) -> Seq<T> {
    choose|t: Seq<T>| sorted_by(t, rank_leq::<T>()) && t.to_multiset() == s.to_multiset()
}

proof fn lemma_rank_total<T: Keyed>()
    ensures
        total_ordering(rank_leq::<T>()),
{
    assert forall|x: T, y: T| #[trigger] rank_leq::<T>()(x, y) && #[trigger] rank_leq::<T>()(y, x) implies x == y by {
        T::lemma_rank_injective(x, y);
    }
}

/// `x` put into `s` after every value whose rank is at most its own.
pub open spec fn insert_by_rank<T: Ranked>(s: Seq<T>, x: T) -> Seq<T>
    decreases s.len(),
{
    if s.len() == 0 {
        seq![x]
    } else if s.last().rank() <= x.rank() {
        s.push(x)
    } else {
        insert_by_rank(s.drop_last(), x).push(s.last())
    }
}

/// The values of `v` sorted by rank, values of equal rank in their order in `v`.
pub open spec fn stable_sort<T: Ranked>(v: Seq<T>) -> Seq<T>
    decreases v.len(),
{
    if v.len() == 0 {
        seq![]
    } else {
        insert_by_rank(stable_sort(v.drop_last()), v.last())
    }
}

proof fn lemma_insert_by_rank<T: Ranked>(s: Seq<T>, p: int, x: T)
    requires
        0 <= p <= s.len(),
        forall|k: int| 0 <= k < p ==> (#[trigger] s[k]).rank() <= x.rank(),
        forall|k: int| p <= k < s.len() ==> x.rank() < (#[trigger] s[k]).rank(),
    ensures
        s.insert(p, x) == insert_by_rank(s, x),
    decreases s.len(),
{
    if s.len() == 0 {
        assert(s.insert(p, x) =~= seq![x]);
    } else if p == s.len() {
        assert(s[s.len() - 1].rank() <= x.rank());
        assert(s.insert(p, x) =~= s.push(x));
    } else {
        assert(x.rank() < s[s.len() - 1].rank());
        let t = s.drop_last();
        assert forall|k: int| 0 <= k < p implies (#[trigger] t[k]).rank() <= x.rank() by {
            assert(t[k] == s[k]);
        }
        assert forall|k: int| p <= k < t.len() implies x.rank() < (#[trigger] t[k]).rank() by {
            assert(t[k] == s[k]);
        }
        lemma_insert_by_rank(t, p, x);
        assert(s.insert(p, x) =~= t.insert(p, x).push(s.last()));
    }
}

/// Sorts values by rank; values of equal rank keep their order.
pub fn sort_by_rank<T: Ranked + Copy>(v: Vec<T>) -> (r: Vec<T>)
    ensures
        r@ == stable_sort(v@),
        sorted_by(r@, rank_leq::<T>()),
        r@.to_multiset() == v@.to_multiset(),
{
    let mut r: Vec<T> = Vec::new();
    let mut i: usize = 0;
    proof {
        assert(r@ =~= v@.take(0));
    }
    while i < v.len()
        invariant
            i <= v@.len(),
            r@ == stable_sort(v@.take(i as int)),
            sorted_by(r@, rank_leq::<T>()),
            r@.to_multiset() == v@.take(i as int).to_multiset(),
        decreases v.len() - i,
    {
        let x = v[i];
        let mut p: usize = 0;
        while p < r.len() && r[p].rank_le(&x)
            invariant
                p <= r@.len(),
                forall|k: int| 0 <= k < p ==> r@[k].rank() <= x.rank(),
            decreases r.len() - p,
        {
            p = p + 1;
        }
        let ghost before = r@;
        proof {
            assert forall|k: int| p <= k < before.len() implies x.rank() < before[k].rank() by {
                assert(rank_leq::<T>()(before[p as int], before[k]));
            }
        }
        r.insert(p, x);
        proof {
            assert(v@.take(i + 1) =~= v@.take(i as int).push(x));
            lemma_insert_by_rank(before, p as int, x);
            assert(v@.take(i + 1).drop_last() =~= v@.take(i as int));
            assert(r@ == before.insert(p as int, x));
            vstd::seq_lib::to_multiset_insert(before, p as int, x);
            vstd::seq_lib::to_multiset_build(v@.take(i as int), x);
            assert(r@.to_multiset() == before.to_multiset().insert(x));
            assert forall|a: int, b: int| 0 <= a < b < r@.len() implies #[trigger] rank_leq::<T>()(r@[a], r@[b]) by {
                if b < p {
                    assert(rank_leq::<T>()(before[a], before[b]));
                } else if a > p {
                    assert(rank_leq::<T>()(before[a - 1], before[b - 1]));
                } else if a == p {
                    assert(r@[b] == before[b - 1]);
                } else {
                    assert(r@[a] == before[a]);
                    if b == p {
                    } else {
                        assert(r@[b] == before[b - 1]);
                    }
                }
            }
        }
        i = i + 1;
    }
    proof {
        assert(v@.take(v@.len() as int) =~= v@);
    }
    r
}

/// Sorts keys into their natural order.
pub fn sort_keys<T: Keyed + Copy>(v: Vec<T>) -> (r: Vec<T>)
    ensures
        r@ == sorted_keys(v@),
        sorted_by(r@, rank_leq::<T>()),
        r@.to_multiset() == v@.to_multiset(),
{
    let ghost v0 = v@;
    let r = sort_by_rank(v);
    proof {
        let t = sorted_keys(v0);
        assert(sorted_by(r@, rank_leq::<T>()) && r@.to_multiset() == v0.to_multiset());
        lemma_rank_total::<T>();
        vstd::seq_lib::lemma_sorted_unique(r@, t, rank_leq::<T>());
    }
    r
}

} // verus!
