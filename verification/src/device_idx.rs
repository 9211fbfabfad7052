//! Numbering the devices of a room: a device keeps the number its sheet row
//! holds; the others get numbers that no row keeping its number holds.
use vstd::prelude::*;
use vstd::set_lib::{lemma_int_range, lemma_len_subset, set_int_range};
use crate::room::{DeviceInRoom, Room};
use crate::sheet::{existing_idx, existing_idx_spec, override_cell, range_text, CellUpdate, CellValue, SheetCell};

verus! {

/// Whether row `j` keeps its number without a conflict: it has one and no
/// earlier row has the same.
pub open spec fn keeps_idx(existing: Seq<Option<u16>>, j: int) -> bool {
    &&& existing[j] is Some
    &&& forall|k: int| 0 <= k < j ==> existing[k] != existing[j]
}

/// Whether number `v` is held by a row that keeps its number.
pub open spec fn kept_value(existing: Seq<Option<u16>>, v: int) -> bool {
    &&& 0 <= v < 65536
    &&& exists|j: int| 0 <= j < existing.len() && #[trigger] keeps_idx(existing, j) && existing[j] == Some(v as u16)
}

/// How many of the numbers below `s` no row keeping its number holds.
pub open spec fn free_below(existing: Seq<Option<u16>>, s: int) -> int
    decreases s,
{
    if s <= 0 {
        0
    } else {
        free_below(existing, s - 1) + if kept_value(existing, s - 1) {
            0int
        } else {
            1int
        }
    }
}

/// How many rows before row `j` do not keep a number.
pub open spec fn nonkeep_before(existing: Seq<Option<u16>>, j: int) -> int
    decreases j,
{
    if j <= 0 {
        0
    } else {
        nonkeep_before(existing, j - 1) + if keeps_idx(existing, j - 1) {
            0int
        } else {
            1int
        }
    }
}

/// What numbering a room gives: `(row, number, newly given)` for every row,
/// the rows that keep their number first, then the others, each group in row
/// order. A row whose cell holds a number has it (also where an earlier row
/// holds the same). A counter walks the numbers that no row keeping its
/// number holds: the `t`-th row that does not keep a number is at its `t`-th
/// step and, where its cell holds none, takes that number as a new one.
pub open spec fn assignment_ok(existing: Seq<Option<u16>>, r: Seq<(usize, u16, bool)>) -> bool {
    &&& r.len() == existing.len()
    &&& forall|i: int| 0 <= i < r.len() ==> (#[trigger] r[i]).0 < existing.len()
    &&& forall|i: int, j: int| 0 <= i < j < r.len() ==> r[i].0 != r[j].0
    &&& forall|i: int| 0 <= i < r.len() ==> ((#[trigger] r[i]).2 == (existing[r[i].0 as int] is None))
    &&& forall|i: int|
        0 <= i < r.len() && existing[(#[trigger] r[i]).0 as int] is Some ==> existing[r[i].0 as int] == Some(
            r[i].1,
        )
    &&& forall|i: int, j: int|
        0 <= i < j < r.len() ==> (keeps_idx(existing, r[j].0 as int) ==> keeps_idx(existing, r[i].0 as int)) && (
        keeps_idx(existing, r[i].0 as int) == keeps_idx(existing, r[j].0 as int) ==> r[i].0 < r[j].0)
    &&& forall|i: int|
        0 <= i < r.len() && (#[trigger] r[i]).2 ==> !kept_value(existing, r[i].1 as int) && free_below(
            existing,
            r[i].1 as int,
        ) == nonkeep_before(existing, r[i].0 as int)
}

fn contains_id(ids: &Vec<u16>, v: u16) -> (r: bool)
    ensures
        r == ids@.contains(v),
{
    let mut i: usize = 0;
    while i < ids.len()
        invariant
            i <= ids@.len(),
            forall|k: int| 0 <= k < i ==> ids@[k] != v,
        decreases ids.len() - i,
    {
        if ids[i] == v {
            return true;
        }
        i = i + 1;
    }
    false
}

/// Whether `ids` holds number `y`.
pub open spec fn holds_id(ids: Seq<u16>, y: int) -> bool {
    ids.contains(y as u16)
}

/// Numbers `0..next` all held by entries of `ids` means there are at least `next` entries.
proof fn lemma_prefix_bound(ids: Seq<u16>, next: int)
    requires
        0 <= next <= 65536,
        forall|y: int| 0 <= y < next ==> #[trigger] holds_id(ids, y),
    ensures
        next <= ids.len(),
{
    let m = ids.map_values(|v: u16| v as int);
    m.lemma_cardinality_of_set();
    lemma_int_range(0, next);
    assert forall|y: int| set_int_range(0, next).contains(y) implies m.to_set().contains(y) by {
        assert(holds_id(ids, y));
        let k = choose|k: int| 0 <= k < ids.len() && ids[k] == y as u16;
        assert((y as u16) as int == y);
        assert(m[k] == y);
    }
    vstd::seq_lib::seq_to_set_is_finite(m);
    lemma_len_subset(set_int_range(0, next), m.to_set());
}

/// Numbers the rows of one room; `existing` holds the number each row's cell
/// holds.
pub fn assign_room_ids(existing: &Vec<Option<u16>>) -> (r: Vec<(usize, u16, bool)>)
    requires
        existing@.len() <= 65535,
    ensures
        assignment_ok(existing@, r@),
{
    let n = existing.len();
    let ghost ex = existing@;
    let mut r: Vec<(usize, u16, bool)> = Vec::new();
    let mut occupied: Vec<u16> = Vec::new();
    let mut remaining: Vec<usize> = Vec::new();
    let mut j: usize = 0;
    while j < n
        invariant
            n == ex.len() <= 65535,
            ex == existing@,
            j <= n,
            r@.len() == occupied@.len(),
            r@.len() + remaining@.len() == j,
            forall|i: int| 0 <= i < r@.len() ==> (#[trigger] r@[i]).1 == occupied@[i],
            forall|i: int|
                0 <= i < r@.len() ==> (#[trigger] r@[i]).0 < j && !r@[i].2 && keeps_idx(ex, r@[i].0 as int)
                    && ex[r@[i].0 as int] == Some(r@[i].1),
            forall|i: int, k: int| 0 <= i < k < r@.len() ==> r@[i].0 < r@[k].0,
            forall|q: int|
                0 <= q < remaining@.len() ==> (#[trigger] remaining@[q]) < j && !keeps_idx(ex, remaining@[q] as int)
                    && nonkeep_before(ex, remaining@[q] as int) == q,
            forall|q: int, k: int| 0 <= q < k < remaining@.len() ==> remaining@[q] < remaining@[k],
            remaining@.len() == nonkeep_before(ex, j as int),
            forall|m: int|
                0 <= m < j && keeps_idx(ex, m) ==> exists|i: int| 0 <= i < r@.len() && (#[trigger] r@[i]).0 == m,
            forall|m: int| 0 <= m < j && ex[m] is Some ==> occupied@.contains(ex[m]->0),
        decreases n - j,
    {
        let ghost r0 = r@;
        let ghost occ0 = occupied@;
        match existing[j] {
            Some(v) => {
                if contains_id(&occupied, v) {
                    proof {
                        let i = choose|i: int| 0 <= i < occupied@.len() && occupied@[i] == v;
                        assert(r@[i].1 == v);
                        assert(ex[r@[i].0 as int] == Some(v));
                        assert(!keeps_idx(ex, j as int));
                    }
                    remaining.push(j);
                } else {
                    proof {
                        assert forall|k: int| 0 <= k < j implies ex[k] != ex[j as int] by {
                            if ex[k] == Some(v) {
                                assert(occupied@.contains(v));
                            }
                        }
                    }
                    r.push((j, v, false));
                    occupied.push(v);
                }
            },
            None => {
                remaining.push(j);
            },
        }
        proof {
            assert forall|m: int|
                0 <= m < j + 1 && keeps_idx(ex, m) implies exists|i: int|
                    0 <= i < r@.len() && (#[trigger] r@[i]).0 == m by {
                if m < j {
                    let i = choose|i: int| 0 <= i < r0.len() && (#[trigger] r0[i]).0 == m;
                    assert(r@[i] == r0[i]);
                } else {
                    assert(r@[r@.len() - 1].0 == m);
                }
            }
            assert forall|m: int| 0 <= m < j + 1 && ex[m] is Some implies occupied@.contains(ex[m]->0) by {
                if m < j {
                    let i = choose|i: int| 0 <= i < occ0.len() && occ0[i] == ex[m]->0;
                    assert(occupied@[i] == occ0[i]);
                } else {
                    if occupied@.len() == occ0.len() {
                    } else {
                        assert(occupied@[occupied@.len() - 1] == ex[m]->0);
                    }
                }
            }
        }
        j = j + 1;
    }
    let kept_count = r.len();
    let ghost kept = occupied@;
    proof {
        assert forall|v: int| 0 <= v < 65536 implies (kept_value(ex, v) <==> kept.contains(v as u16)) by {
            if kept_value(ex, v) {
                let m = choose|m: int| 0 <= m < ex.len() && #[trigger] keeps_idx(ex, m) && ex[m] == Some(v as u16);
                let i = choose|i: int| 0 <= i < r@.len() && (#[trigger] r@[i]).0 == m;
                assert(kept[i] == v as u16);
            }
            if kept.contains(v as u16) {
                let i = choose|i: int| 0 <= i < kept.len() && kept[i] == v as u16;
                assert(r@[i].1 == kept[i]);
                assert(keeps_idx(ex, r@[i].0 as int));
            }
        }
    }
    let mut next_id: u32 = 0;
    let mut t: usize = 0;
    let ghost mut slots: Seq<u16> = Seq::empty();
    while t < remaining.len()
        invariant
            n == ex.len() <= 65535,
            ex == existing@,
            kept_count + remaining@.len() == n,
            t <= remaining@.len(),
            r@.len() == kept_count + t,
            occupied@.len() == kept_count + t,
            kept.len() == kept_count,
            forall|i: int| 0 <= i < kept_count ==> occupied@[i] == kept[i],
            forall|i: int|
                0 <= i < kept_count ==> (#[trigger] r@[i]).1 == kept[i] && r@[i].0 < n && !r@[i].2 && keeps_idx(
                    ex,
                    r@[i].0 as int,
                ) && ex[r@[i].0 as int] == Some(r@[i].1),
            forall|i: int, k: int| 0 <= i < k < kept_count ==> r@[i].0 < r@[k].0,
            forall|v: int| 0 <= v < 65536 ==> (kept_value(ex, v) <==> kept.contains(v as u16)),
            slots.len() == t,
            forall|q: int| 0 <= q < t ==> occupied@[kept_count + q] == #[trigger] slots[q],
            forall|q: int| 0 <= q < t ==> #[trigger] slots[q] < next_id,
            forall|y: int| 0 <= y < next_id ==> #[trigger] holds_id(occupied@, y),
            next_id <= 65536,
            free_below(ex, next_id as int) == t,
            forall|q: int|
                0 <= q < t ==> !kept_value(ex, #[trigger] slots[q] as int) && free_below(ex, slots[q] as int) == q,
            forall|i: int|
                kept_count <= i < r@.len() ==> {
                    let row = remaining@[i - kept_count];
                    (#[trigger] r@[i]) == (match ex[row as int] {
                        Some(x) => (row, x, false),
                        None => (row, slots[i - kept_count], true),
                    })
                },
            forall|q: int|
                0 <= q < remaining@.len() ==> (#[trigger] remaining@[q]) < n && !keeps_idx(ex, remaining@[q] as int)
                    && nonkeep_before(ex, remaining@[q] as int) == q,
            forall|q: int, k: int| 0 <= q < k < remaining@.len() ==> remaining@[q] < remaining@[k],
        decreases remaining@.len() - t,
    {
        proof {
            lemma_prefix_bound(occupied@, next_id as int);
        }
        while contains_id(&occupied, next_id as u16)
            invariant
                occupied@.len() == kept_count + t,
                kept_count + t < n <= 65535,
                kept.len() == kept_count,
                forall|i: int| 0 <= i < kept_count ==> occupied@[i] == kept[i],
                forall|v: int| 0 <= v < 65536 ==> (kept_value(ex, v) <==> kept.contains(v as u16)),
                slots.len() == t,
                forall|q: int| 0 <= q < t ==> occupied@[kept_count + q] == #[trigger] slots[q],
                forall|q: int| 0 <= q < t ==> #[trigger] slots[q] < next_id,
                forall|y: int| 0 <= y < next_id ==> #[trigger] holds_id(occupied@, y),
                next_id <= occupied@.len(),
                free_below(ex, next_id as int) == t,
            decreases 65536 - next_id,
        {
            proof {
                let i = choose|i: int| 0 <= i < occupied@.len() && occupied@[i] == next_id as u16;
                if i >= kept_count {
                    assert(occupied@[i] == slots[i - kept_count]);
                    assert(false);
                }
                assert(kept[i] == next_id as u16);
                assert(kept.contains(next_id as u16));
                assert(kept_value(ex, next_id as int));
                lemma_prefix_bound(occupied@, next_id + 1);
            }
            next_id = next_id + 1;
        }
        proof {
            if kept_value(ex, next_id as int) {
                assert(kept.contains(next_id as u16));
                let i = choose|i: int| 0 <= i < kept.len() && kept[i] == next_id as u16;
                assert(occupied@[i] == next_id as u16);
                assert(occupied@.contains(next_id as u16));
            }
        }
        let slot = next_id as u16;
        let row = remaining[t];
        let entry = match existing[row] {
            Some(x) => (row, x, false),
            None => (row, slot, true),
        };
        let ghost r0 = r@;
        let ghost occ0 = occupied@;
        let ghost old_next = next_id;
        r.push(entry);
        occupied.push(slot);
        proof {
            slots = slots.push(slot);
        }
        next_id = next_id + 1;
        t = t + 1;
        proof {
            assert forall|y: int| 0 <= y < next_id implies #[trigger] holds_id(occupied@, y) by {
                if y < old_next {
                    assert(holds_id(occ0, y));
                    let k = choose|k: int| 0 <= k < occ0.len() && occ0[k] == y as u16;
                    assert(occupied@[k] == occ0[k]);
                } else {
                    assert(occupied@[occupied@.len() - 1] == slot);
                    assert(y as u16 == slot);
                }
            }
            assert forall|i: int| 0 <= i < kept_count implies (#[trigger] r@[i]).1 == kept[i] && r@[i].0 < n
                && !r@[i].2 && keeps_idx(ex, r@[i].0 as int) && ex[r@[i].0 as int] == Some(r@[i].1) by {
                assert(r@[i] == r0[i]);
            }
            assert forall|i: int|
                kept_count <= i < r@.len() implies {
                    let row = remaining@[i - kept_count];
                    (#[trigger] r@[i]) == (match ex[row as int] {
                        Some(x) => (row, x, false),
                        None => (row, slots[i - kept_count], true),
                    })
                } by {
                if i < r0.len() {
                    assert(r@[i] == r0[i]);
                }
            }
        }
    }
    proof {
        assert forall|i: int| 0 <= i < r@.len() implies (#[trigger] r@[i]).0 < ex.len() by {
            if i >= kept_count {
                assert(remaining@[i - kept_count] < n);
            }
        }
        assert forall|i: int, k: int| 0 <= i < k < r@.len() implies r@[i].0 != r@[k].0 && (keeps_idx(
            ex,
            r@[k].0 as int,
        ) ==> keeps_idx(ex, r@[i].0 as int)) && (keeps_idx(ex, r@[i].0 as int) == keeps_idx(ex, r@[k].0 as int)
            ==> r@[i].0 < r@[k].0) by {
            if k < kept_count {
            } else if i < kept_count {
                assert(keeps_idx(ex, r@[i].0 as int));
                assert(!keeps_idx(ex, remaining@[k - kept_count] as int));
            } else {
                assert(remaining@[i - kept_count] < remaining@[k - kept_count]);
            }
        }
        assert forall|i: int| 0 <= i < r@.len() implies ((#[trigger] r@[i]).2 == (ex[r@[i].0 as int] is None)) && (
        ex[r@[i].0 as int] is Some ==> ex[r@[i].0 as int] == Some(r@[i].1)) && (r@[i].2 ==> !kept_value(
            ex,
            r@[i].1 as int,
        ) && free_below(ex, r@[i].1 as int) == nonkeep_before(ex, r@[i].0 as int)) by {
            if i >= kept_count {
                let q = i - kept_count;
                assert(nonkeep_before(ex, remaining@[q] as int) == q);
            }
        }
    }
    r
}

/// Whether row `j` keeps the number its cell holds: it holds one and no
/// earlier row of the same room holds the same.
pub open spec fn keeps_in_room(rooms: Seq<Room>, cells: Seq<SheetCell>, j: int) -> bool {
    &&& existing_idx_spec(cells[j]) is Some
    &&& forall|k: int|
        0 <= k < j && rooms[k] == rooms[j] ==> existing_idx_spec(cells[k]) != existing_idx_spec(
            cells[j],
        )
}

/// Whether number `v` is held by a row of room `room` that keeps its number.
pub open spec fn kept_in_room(rooms: Seq<Room>, cells: Seq<SheetCell>, room: Room, v: int) -> bool {
    &&& 0 <= v < 65536
    &&& exists|j: int|
        0 <= j < rooms.len() && rooms[j] == room && #[trigger] keeps_in_room(rooms, cells, j)
            && existing_idx_spec(cells[j]) == Some(v as u16)
}

/// How many of the numbers below `s` no row of room `room` keeping its number holds.
pub open spec fn free_below_in_room(rooms: Seq<Room>, cells: Seq<SheetCell>, room: Room, s: int) -> int
    decreases s,
{
    if s <= 0 {
        0
    } else {
        free_below_in_room(rooms, cells, room, s - 1) + if kept_in_room(rooms, cells, room, s - 1) {
            0int
        } else {
            1int
        }
    }
}

/// How many rows of room `room` before row `j` do not keep a number.
pub open spec fn nonkeep_before_in_room(rooms: Seq<Room>, cells: Seq<SheetCell>, room: Room, j: int) -> int
    decreases j,
{
    if j <= 0 {
        0
    } else {
        nonkeep_before_in_room(rooms, cells, room, j - 1) + if rooms[j - 1] == room && !keeps_in_room(
            rooms,
            cells,
            j - 1,
        ) {
            1int
        } else {
            0int
        }
    }
}

/// What numbering the rows gives: every row once, under its room. Within a
/// room it is what `assignment_ok` says of the room's rows: the rows that
/// keep their number come before the others, each group in row order; a row
/// whose cell holds a number has it; a row whose cell holds none is given
/// the number at the counter's step of the rows of its room that do not keep one.
pub open spec fn room_numbering_ok(
    rooms: Seq<Room>,
    cells: Seq<SheetCell>,
    r: Seq<(usize, DeviceInRoom, bool)>,
) -> bool {
    &&& forall|i: int| 0 <= i < r.len() ==> (#[trigger] r[i]).0 < rooms.len()
    &&& forall|i: int| 0 <= i < r.len() ==> (#[trigger] r[i]).1.room == rooms[r[i].0 as int]
    &&& forall|i: int, j: int| 0 <= i < j < r.len() ==> r[i].0 != r[j].0
    &&& forall|i: int|
        0 <= i < r.len() ==> ((#[trigger] r[i]).2 == (existing_idx_spec(cells[r[i].0 as int]) is None))
    &&& forall|i: int|
        0 <= i < r.len() && existing_idx_spec(cells[(#[trigger] r[i]).0 as int]) is Some ==> existing_idx_spec(
            cells[r[i].0 as int],
        ) == Some(r[i].1.idx)
    &&& forall|i: int, j: int|
        0 <= i < j < r.len() && r[i].1.room == r[j].1.room ==> (keeps_in_room(rooms, cells, r[j].0 as int)
            ==> keeps_in_room(rooms, cells, r[i].0 as int)) && (keeps_in_room(rooms, cells, r[i].0 as int)
            == keeps_in_room(rooms, cells, r[j].0 as int) ==> r[i].0 < r[j].0)
    &&& forall|i: int|
        0 <= i < r.len() && (#[trigger] r[i]).2 ==> !kept_in_room(rooms, cells, r[i].1.room, r[i].1.idx as int)
            && free_below_in_room(rooms, cells, r[i].1.room, r[i].1.idx as int) == nonkeep_before_in_room(
            rooms,
            cells,
            r[i].1.room,
            r[i].0 as int,
        )
}

/// With the same numbers kept, the count of free numbers is the same.
proof fn lemma_free_below_same(
    ex: Seq<Option<u16>>,
    rooms: Seq<Room>,
    cells: Seq<SheetCell>,
    room: Room,
    s: int,
)
    requires
        forall|v: int| kept_value(ex, v) == kept_in_room(rooms, cells, room, v),
    ensures
        free_below(ex, s) == free_below_in_room(rooms, cells, room, s),
    decreases s,
{
    if s > 0 {
        lemma_free_below_same(ex, rooms, cells, room, s - 1);
        assert(kept_value(ex, s - 1) == kept_in_room(rooms, cells, room, s - 1));
    }
}

/// Rows of other rooms do not change the count of a room's rows.
proof fn lemma_nonkeep_gap(rooms: Seq<Room>, cells: Seq<SheetCell>, room: Room, a: int, b: int)
    requires
        0 <= a <= b <= rooms.len(),
        forall|k: int| a <= k < b ==> rooms[k] != room,
    ensures
        nonkeep_before_in_room(rooms, cells, room, b) == nonkeep_before_in_room(rooms, cells, room, a),
    decreases b - a,
{
    if b > a {
        lemma_nonkeep_gap(rooms, cells, room, a, b - 1);
    }
}

/// The count of a room's rows that do not keep a number, taken over the
/// room's own rows, is the count over all rows.
proof fn lemma_local_counts(
    rooms: Seq<Room>,
    cells: Seq<SheetCell>,
    room: Room,
    ex: Seq<Option<u16>>,
    lr: Seq<usize>,
    li: int,
)
    requires
        lr.len() == ex.len(),
        0 <= li < lr.len(),
        forall|i: int| 0 <= i < lr.len() ==> (#[trigger] lr[i]) < rooms.len(),
        forall|i: int| 0 <= i < lr.len() ==> rooms[(#[trigger] lr[i]) as int] == room,
        forall|i: int, j: int| 0 <= i < j < lr.len() ==> lr[i] < lr[j],
        forall|row: int|
            0 <= row < rooms.len() && rooms[row] == room ==> exists|i: int| 0 <= i < lr.len() && (#[trigger] lr[i]) == row,
        forall|i: int| 0 <= i < lr.len() ==> keeps_idx(ex, i) == keeps_in_room(rooms, cells, #[trigger] lr[i] as int),
    ensures
        nonkeep_before(ex, li) == nonkeep_before_in_room(rooms, cells, room, lr[li] as int),
    decreases li,
{
    if li == 0 {
        assert forall|k: int| 0 <= k < lr[0] implies rooms[k] != room by {
            if rooms[k] == room {
                let i = choose|i: int| 0 <= i < lr.len() && (#[trigger] lr[i]) == k;
                if i > 0 {
                    assert(lr[0] < lr[i]);
                }
            }
        }
        lemma_nonkeep_gap(rooms, cells, room, 0, lr[0] as int);
    } else {
        lemma_local_counts(rooms, cells, room, ex, lr, li - 1);
        let p = lr[li - 1] as int;
        assert forall|k: int| p + 1 <= k < lr[li] implies rooms[k] != room by {
            if rooms[k] == room {
                let i = choose|i: int| 0 <= i < lr.len() && (#[trigger] lr[i]) == k;
                if i < li - 1 {
                    assert(lr[i] < lr[li - 1]);
                } else if i > li {
                    assert(lr[li] < lr[i]);
                }
            }
        }
        lemma_nonkeep_gap(rooms, cells, room, p + 1, lr[li] as int);
        assert(keeps_idx(ex, li - 1) == keeps_in_room(rooms, cells, lr[li - 1] as int));
        assert(nonkeep_before_in_room(rooms, cells, room, p + 1) == nonkeep_before_in_room(rooms, cells, room, p)
            + if rooms[p] == room && !keeps_in_room(rooms, cells, p) {
            1int
        } else {
            0int
        });
    }
}

/// Number of the first `n` rows that lie in `room`.
pub open spec fn room_rows(rooms: Seq<Room>, room: Room, n: int) -> int
    decreases n,
{
    if n <= 0 {
        0
    } else {
        room_rows(rooms, room, n - 1) + if rooms[n - 1] == room {
            1int
        } else {
            0int
        }
    }
}

/// Whether no room has more rows than its device numbers can count.
pub open spec fn rooms_fit(rooms: Seq<Room>) -> bool {
    forall|k: int| 0 <= k < rooms.len() ==> room_rows(rooms, #[trigger] rooms[k], rooms.len() as int) <= 65535
}

proof fn lemma_room_rows_monotone(rooms: Seq<Room>, room: Room, m: int, n: int)
    requires
        0 <= m <= n <= rooms.len(),
    ensures
        room_rows(rooms, room, m) <= room_rows(rooms, room, n),
    decreases n - m,
{
    if m < n {
        lemma_room_rows_monotone(rooms, room, m, n - 1);
    }
}

/// Numbers the rows of one room.
fn fill_room(rooms: &Vec<Room>, cells: &Vec<SheetCell>, room: Room) -> (r: Vec<(usize, DeviceInRoom, bool)>)
    requires
        rooms@.len() == cells@.len(),
        room_rows(rooms@, room, rooms@.len() as int) <= 65535,
    ensures
        room_numbering_ok(rooms@, cells@, r@),
        forall|i: int| 0 <= i < r@.len() ==> (#[trigger] r@[i]).1.room == room,
        forall|row: int| 0 <= row < rooms@.len() && rooms@[row] == room ==> exists|i: int|
            0 <= i < r@.len() && (#[trigger] r@[i]).0 == row,
{
    let n = rooms.len();
    let mut local_rows: Vec<usize> = Vec::new();
    let mut local_existing: Vec<Option<u16>> = Vec::new();
    let mut k: usize = 0;
    while k < n
        invariant
            n == rooms@.len() == cells@.len(),
            room_rows(rooms@, room, n as int) <= 65535,
            k <= n,
            local_rows@.len() == local_existing@.len() <= k,
            local_rows@.len() == room_rows(rooms@, room, k as int),
            forall|i: int| 0 <= i < local_rows@.len() ==> (#[trigger] local_rows@[i]) < k,
            forall|i: int| 0 <= i < local_rows@.len() ==> rooms@[(#[trigger] local_rows@[i]) as int] == room,
            forall|i: int|
                0 <= i < local_rows@.len() ==> #[trigger] local_existing@[i] == existing_idx_spec(
                    cells@[local_rows@[i] as int],
                ),
            forall|i: int, j: int| 0 <= i < j < local_rows@.len() ==> local_rows@[i] < local_rows@[j],
            forall|row: int|
                0 <= row < k && rooms@[row] == room ==> exists|i: int|
                    0 <= i < local_rows@.len() && (#[trigger] local_rows@[i]) == row,
        decreases n - k,
    {
        proof {
            lemma_room_rows_monotone(rooms@, room, k + 1, n as int);
        }
        if rooms[k] == room {
            let ghost before = local_rows@;
            local_rows.push(k);
            local_existing.push(existing_idx(&cells[k]));
            proof {
                assert forall|row: int|
                    0 <= row < k + 1 && rooms@[row] == room implies exists|i: int|
                        0 <= i < local_rows@.len() && (#[trigger] local_rows@[i]) == row by {
                    if row < k {
                        let i = choose|i: int| 0 <= i < before.len() && (#[trigger] before[i]) == row;
                        assert(local_rows@[i] == before[i]);
                    } else {
                        assert(local_rows@[local_rows@.len() - 1] == row);
                    }
                }
            }
        }
        k = k + 1;
    }
    let assigned = assign_room_ids(&local_existing);
    let ghost ex = local_existing@;
    let ghost lr = local_rows@;
    proof {
        assert forall|li: int| 0 <= li < lr.len() implies keeps_idx(ex, li) == keeps_in_room(
            rooms@,
            cells@,
            lr[li] as int,
        ) by {
            let row = lr[li] as int;
            if keeps_idx(ex, li) {
                assert forall|k2: int|
                    0 <= k2 < row && rooms@[k2] == rooms@[row] implies existing_idx_spec(cells@[k2])
                    != existing_idx_spec(cells@[row]) by {
                    let i = choose|i: int| 0 <= i < lr.len() && (#[trigger] lr[i]) == k2;
                    if i >= li {
                        if i > li {
                            assert(lr[li] < lr[i]);
                        }
                    }
                    assert(i < li);
                    assert(ex[i] != ex[li]);
                }
            }
            if keeps_in_room(rooms@, cells@, row) {
                assert forall|k2: int| 0 <= k2 < li implies ex[k2] != ex[li] by {
                    assert(lr[k2] < lr[li]);
                }
            }
        }
    }
    let mut r: Vec<(usize, DeviceInRoom, bool)> = Vec::new();
    let mut t: usize = 0;
    while t < assigned.len()
        invariant
            t <= assigned@.len(),
            assignment_ok(ex, assigned@),
            ex == local_existing@,
            lr == local_rows@,
            n == rooms@.len() == cells@.len(),
            lr.len() == ex.len(),
            forall|i: int| 0 <= i < lr.len() ==> (#[trigger] lr[i]) < n,
            forall|i: int| 0 <= i < lr.len() ==> rooms@[(#[trigger] lr[i]) as int] == room,
            forall|i: int| 0 <= i < lr.len() ==> #[trigger] ex[i] == existing_idx_spec(cells@[lr[i] as int]),
            forall|i: int, j: int| 0 <= i < j < lr.len() ==> lr[i] < lr[j],
            forall|li: int| 0 <= li < lr.len() ==> keeps_idx(ex, li) == keeps_in_room(
                rooms@,
                cells@,
                lr[li] as int,
            ),
            r@.len() == t,
            forall|i: int|
                0 <= i < t ==> (#[trigger] r@[i]) == (
                    lr[assigned@[i].0 as int],
                    DeviceInRoom { room, idx: assigned@[i].1 },
                    assigned@[i].2,
                ),
        decreases assigned.len() - t,
    {
        let (li, id, is_new) = assigned[t];
        r.push((local_rows[li], DeviceInRoom { room, idx: id }, is_new));
        t = t + 1;
    }
    proof {
        assert forall|i: int, j: int| 0 <= i < j < r@.len() implies r@[i].0 != r@[j].0 by {
            let a = assigned@[i].0 as int;
            let b = assigned@[j].0 as int;
            assert(a != b);
            if a < b {
                assert(lr[a] < lr[b]);
            } else {
                assert(lr[b] < lr[a]);
            }
        }
        assert forall|v: int| kept_value(ex, v) == kept_in_room(rooms@, cells@, room, v) by {
            if kept_value(ex, v) {
                let li = choose|li: int| 0 <= li < ex.len() && #[trigger] keeps_idx(ex, li) && ex[li] == Some(v as u16);
                assert(keeps_in_room(rooms@, cells@, lr[li] as int));
            }
            if kept_in_room(rooms@, cells@, room, v) {
                let row = choose|row: int|
                    0 <= row < rooms@.len() && rooms@[row] == room && #[trigger] keeps_in_room(rooms@, cells@, row)
                        && existing_idx_spec(cells@[row]) == Some(v as u16);
                let li = choose|li: int| 0 <= li < lr.len() && (#[trigger] lr[li]) == row;
                assert(keeps_idx(ex, li));
            }
        }
        assert forall|i: int| 0 <= i < r@.len() implies ((#[trigger] r@[i]).2 == (existing_idx_spec(
            cells@[r@[i].0 as int],
        ) is None)) && (existing_idx_spec(cells@[r@[i].0 as int]) is Some ==> existing_idx_spec(
            cells@[r@[i].0 as int],
        ) == Some(r@[i].1.idx)) && (r@[i].2 ==> !kept_in_room(rooms@, cells@, r@[i].1.room, r@[i].1.idx as int)
            && free_below_in_room(rooms@, cells@, r@[i].1.room, r@[i].1.idx as int) == nonkeep_before_in_room(
            rooms@,
            cells@,
            r@[i].1.room,
            r@[i].0 as int,
        )) by {
            let a = assigned@[i];
            assert(ex[a.0 as int] == existing_idx_spec(cells@[lr[a.0 as int] as int]));
            if a.2 {
                lemma_free_below_same(ex, rooms@, cells@, room, a.1 as int);
                lemma_local_counts(rooms@, cells@, room, ex, lr, a.0 as int);
            }
        }
        assert forall|i: int, j: int| 0 <= i < j < r@.len() && r@[i].1.room == r@[j].1.room implies (keeps_in_room(
            rooms@,
            cells@,
            r@[j].0 as int,
        ) ==> keeps_in_room(rooms@, cells@, r@[i].0 as int)) && (keeps_in_room(rooms@, cells@, r@[i].0 as int)
            == keeps_in_room(rooms@, cells@, r@[j].0 as int) ==> r@[i].0 < r@[j].0) by {
            let a = assigned@[i].0 as int;
            let b = assigned@[j].0 as int;
            assert(keeps_idx(ex, a) == keeps_in_room(rooms@, cells@, lr[a] as int));
            assert(keeps_idx(ex, b) == keeps_in_room(rooms@, cells@, lr[b] as int));
            if keeps_idx(ex, a) == keeps_idx(ex, b) {
                assert(a < b);
                assert(lr[a] < lr[b]);
            }
        }
        assert forall|row: int| 0 <= row < rooms@.len() && rooms@[row] == room implies exists|i: int|
            0 <= i < r@.len() && (#[trigger] r@[i]).0 == row by {
            let li = choose|li: int| 0 <= li < lr.len() && (#[trigger] lr[li]) == row;
            lemma_assignment_covers(ex, assigned@, li);
            let i = choose|i: int| 0 <= i < assigned@.len() && assigned@[i].0 == li;
            assert(r@[i].0 == row);
        }
    }
    r
}

/// Every row appears in a numbering of its room.
proof fn lemma_assignment_covers(existing: Seq<Option<u16>>, r: Seq<(usize, u16, bool)>, li: int)
    requires
        assignment_ok(existing, r),
        0 <= li < existing.len(),
    ensures
        exists|i: int| 0 <= i < r.len() && r[i].0 == li,
{
    let rows = r.map_values(|e: (usize, u16, bool)| e.0 as int);
    assert(rows.no_duplicates()) by {
        assert forall|i: int, j: int| 0 <= i < rows.len() && 0 <= j < rows.len() && i != j implies rows[i] != rows[j] by {
            if i < j {
                assert(r[i].0 != r[j].0);
            } else {
                assert(r[j].0 != r[i].0);
            }
        }
    }
    rows.unique_seq_to_set();
    vstd::seq_lib::seq_to_set_is_finite(rows);
    lemma_int_range(0, existing.len() as int);
    assert(rows.to_set().subset_of(set_int_range(0, existing.len() as int))) by {
        assert forall|x: int| rows.to_set().contains(x) implies set_int_range(0, existing.len() as int).contains(x) by {
            let i = choose|i: int| 0 <= i < rows.len() && rows[i] == x;
            assert(r[i].0 < existing.len());
        }
    }
    vstd::set_lib::lemma_subset_equality(rows.to_set(), set_int_range(0, existing.len() as int));
    assert(set_int_range(0, existing.len() as int).contains(li));
    assert(rows.to_set().contains(li));
    let i = choose|i: int| 0 <= i < rows.len() && rows[i] == li;
    assert(r[i].0 == li);
}

/// Whether row `row` has an entry in a numbering.
pub open spec fn numbered(r: Seq<(usize, DeviceInRoom, bool)>, row: int) -> bool {
    exists|i: int| 0 <= i < r.len() && (#[trigger] r[i]).0 == row
}

/// Numbers the devices of all rooms: rooms in the order they first appear,
/// each numbered as `assign_room_ids` does. Returns `(row, device, newly
/// numbered)` for every row; a newly numbered row's cell is to be written.
#[verifier::rlimit(40)]
pub fn fill_device_idx(rooms: &Vec<Room>, cells: &Vec<SheetCell>) -> (r: Vec<(usize, DeviceInRoom, bool)>)
    requires
        rooms@.len() == cells@.len(),
        rooms_fit(rooms@),
    ensures
        room_numbering_ok(rooms@, cells@, r@),
        forall|row: int| 0 <= row < rooms@.len() ==> #[trigger] numbered(r@, row),
{
    let n = rooms.len();
    let mut processed: Vec<Room> = Vec::new();
    let mut acc: Vec<(usize, DeviceInRoom, bool)> = Vec::new();
    let mut j: usize = 0;
    while j < n
        invariant
            n == rooms@.len() == cells@.len(),
            rooms_fit(rooms@),
            j <= n,
            room_numbering_ok(rooms@, cells@, acc@),
            forall|k: int| 0 <= k < j ==> processed@.contains(#[trigger] rooms@[k]),
            forall|i: int| 0 <= i < acc@.len() ==> processed@.contains((#[trigger] acc@[i]).1.room),
            forall|row: int|
                0 <= row < n && processed@.contains(#[trigger] rooms@[row]) ==> exists|i: int|
                    0 <= i < acc@.len() && (#[trigger] acc@[i]).0 == row,
        decreases n - j,
    {
        let room = rooms[j];
        let mut seen = false;
        let mut p: usize = 0;
        while p < processed.len()
            invariant
                p <= processed@.len(),
                seen == exists|q: int| 0 <= q < p && processed@[q] == room,
            decreases processed.len() - p,
        {
            if processed[p] == room {
                seen = true;
            }
            p = p + 1;
        }
        if !seen {
            let group = fill_room(rooms, cells, room);
            let ghost before = acc@;
            let ghost before_processed = processed@;
            let mut t: usize = 0;
            while t < group.len()
                invariant
                    t <= group@.len(),
                    acc@.len() == before.len() + t,
                    forall|i: int| 0 <= i < before.len() ==> acc@[i] == before[i],
                    forall|i: int| 0 <= i < t ==> acc@[before.len() + i] == group@[i],
                decreases group.len() - t,
            {
                acc.push(group[t]);
                t = t + 1;
            }
            processed.push(room);
            proof {
                let b = before.len() as int;
                assert forall|i: int| 0 <= i < acc@.len() implies (#[trigger] acc@[i]).1.room == rooms@[acc@[i].0 as int] && acc@[i].0 < n by {
                    if i < b {
                        assert(acc@[i] == before[i]);
                    } else {
                        assert(acc@[i] == group@[i - b]);
                    }
                }
                assert forall|i: int, k: int| 0 <= i < k < acc@.len() implies acc@[i].0 != acc@[k].0 && (acc@[i].1.room
                    == acc@[k].1.room ==> (keeps_in_room(rooms@, cells@, acc@[k].0 as int) ==> keeps_in_room(
                    rooms@,
                    cells@,
                    acc@[i].0 as int,
                )) && (keeps_in_room(rooms@, cells@, acc@[i].0 as int) == keeps_in_room(
                    rooms@,
                    cells@,
                    acc@[k].0 as int,
                ) ==> acc@[i].0 < acc@[k].0)) by {
                    if k < b {
                        assert(acc@[i] == before[i]);
                        assert(acc@[k] == before[k]);
                    } else if i < b {
                        assert(acc@[i] == before[i]);
                        assert(acc@[k] == group@[k - b]);
                        assert(before_processed.contains(before[i].1.room));
                        assert(before[i].1.room != room);
                    } else {
                        assert(acc@[i] == group@[i - b]);
                        assert(acc@[k] == group@[k - b]);
                    }
                }
                assert forall|i: int| 0 <= i < acc@.len() implies ((#[trigger] acc@[i]).2 == (existing_idx_spec(
                    cells@[acc@[i].0 as int],
                ) is None)) && (existing_idx_spec(cells@[acc@[i].0 as int]) is Some ==> existing_idx_spec(
                    cells@[acc@[i].0 as int],
                ) == Some(acc@[i].1.idx)) && (acc@[i].2 ==> !kept_in_room(
                    rooms@,
                    cells@,
                    acc@[i].1.room,
                    acc@[i].1.idx as int,
                ) && free_below_in_room(rooms@, cells@, acc@[i].1.room, acc@[i].1.idx as int)
                    == nonkeep_before_in_room(rooms@, cells@, acc@[i].1.room, acc@[i].0 as int)) by {
                    if i < b {
                        assert(acc@[i] == before[i]);
                    } else {
                        assert(acc@[i] == group@[i - b]);
                    }
                }
                assert forall|k: int| 0 <= k < j + 1 implies processed@.contains(#[trigger] rooms@[k]) by {
                    if k < j {
                        let q = choose|q: int| 0 <= q < before_processed.len() && before_processed[q] == rooms@[k];
                        assert(processed@[q] == before_processed[q]);
                    } else {
                        assert(processed@[processed@.len() - 1] == room);
                    }
                }
                assert forall|i: int| 0 <= i < acc@.len() implies processed@.contains((#[trigger] acc@[i]).1.room) by {
                    if i < b {
                        assert(acc@[i] == before[i]);
                        let q = choose|q: int| 0 <= q < before_processed.len() && before_processed[q] == before[i].1.room;
                        assert(processed@[q] == before_processed[q]);
                    } else {
                        assert(acc@[i] == group@[i - b]);
                        assert(processed@[processed@.len() - 1] == room);
                    }
                }
                assert forall|row: int|
                    0 <= row < n && processed@.contains(#[trigger] rooms@[row]) implies exists|i: int|
                        0 <= i < acc@.len() && (#[trigger] acc@[i]).0 == row by {
                    if rooms@[row] == room {
                        let g = choose|g: int| 0 <= g < group@.len() && (#[trigger] group@[g]).0 == row;
                        assert(acc@[b + g] == group@[g]);
                    } else {
                        let q = choose|q: int| 0 <= q < processed@.len() && processed@[q] == rooms@[row];
                        assert(q < before_processed.len());
                        assert(before_processed[q] == rooms@[row]);
                        assert(before_processed.contains(rooms@[row]));
                        let i = choose|i: int| 0 <= i < before.len() && (#[trigger] before[i]).0 == row;
                        assert(acc@[i] == before[i]);
                    }
                }
            }
        } else {
            proof {
                assert forall|k: int| 0 <= k < j + 1 implies processed@.contains(#[trigger] rooms@[k]) by {
                    if k == j {
                        let q = choose|q: int| 0 <= q < processed@.len() && processed@[q] == room;
                    }
                }
            }
        }
        j = j + 1;
    }
    proof {
        assert forall|row: int| 0 <= row < rooms@.len() implies #[trigger] numbered(acc@, row) by {
            assert(processed@.contains(rooms@[row]));
        }
    }
    acc
}

/// The entry of a numbering for row `row`.
pub open spec fn entry_of(r: Seq<(usize, u16, bool)>, row: int) -> int {
    choose|i: int| 0 <= i < r.len() && r[i].0 == row
}

/// The number a numbering gives row `row`.
pub open spec fn number_of(r: Seq<(usize, u16, bool)>, row: int) -> u16 {
    r[entry_of(r, row)].1
}

/// The numbers the rows' cells hold once the numbering is written back.
pub open spec fn written_back(r: Seq<(usize, u16, bool)>, n: int) -> Seq<Option<u16>> {
    Seq::new(n as nat, |row: int| Some(number_of(r, row)))
}

/// Numbering the rows of a room again after the numbers were written back
/// into their cells keeps every number and writes nothing.
pub proof fn lemma_renumbering_keeps_numbers(
    existing: Seq<Option<u16>>,
    r: Seq<(usize, u16, bool)>,
    again: Seq<(usize, u16, bool)>,
)
    requires
        assignment_ok(existing, r),
        assignment_ok(written_back(r, existing.len() as int), again),
    ensures
        forall|i: int|
            0 <= i < again.len() ==> !(#[trigger] again[i]).2 && again[i].1 == number_of(r, again[i].0 as int),
{
    let n = existing.len() as int;
    let w = written_back(r, n);
    assert forall|i: int| 0 <= i < again.len() implies !(#[trigger] again[i]).2 && again[i].1 == number_of(
        r,
        again[i].0 as int,
    ) by {
        assert(again[i].0 < n);
        assert(w[again[i].0 as int] == Some(number_of(r, again[i].0 as int)));
    }
}

/// The device a numbering gives row `row`.
pub open spec fn device_of_row(r: Seq<(usize, DeviceInRoom, bool)>, row: int) -> DeviceInRoom {
    r[choose|i: int| 0 <= i < r.len() && (#[trigger] r[i]).0 == row].1
}

/// Once the numbers of a numbering are written into the rows' cells, the
/// rows are numbered again with the same devices and nothing is written.
pub proof fn lemma_written_numbers_kept(
    rooms: Seq<Room>,
    cells: Seq<SheetCell>,
    r: Seq<(usize, DeviceInRoom, bool)>,
    written: Seq<SheetCell>,
    again: Seq<(usize, DeviceInRoom, bool)>,
)
    requires
        room_numbering_ok(rooms, cells, r),
        forall|row: int| 0 <= row < rooms.len() ==> #[trigger] numbered(r, row),
        written.len() == cells.len(),
        forall|row: int|
            0 <= row < rooms.len() ==> existing_idx_spec(#[trigger] written[row]) == Some(device_of_row(r, row).idx),
        room_numbering_ok(rooms, written, again),
    ensures
        forall|i: int| 0 <= i < again.len() ==> !(#[trigger] again[i]).2 && again[i].1 == device_of_row(r, again[i].0 as int),
{
    assert forall|i: int| 0 <= i < again.len() implies !(#[trigger] again[i]).2 && again[i].1 == device_of_row(
        r,
        again[i].0 as int,
    ) by {
        let row = again[i].0 as int;
        assert(row < rooms.len());
        assert(numbered(r, row));
        let k = choose|k: int| 0 <= k < r.len() && (#[trigger] r[k]).0 == row;
        assert(r[k].1.room == rooms[row]);
        assert(existing_idx_spec(written[row]) == Some(device_of_row(r, row).idx));
        assert(again[i].1.room == rooms[row]);
    }
}

} // verus!
