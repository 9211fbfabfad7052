//! Tables of the sheet: placing the cells of a row under the columns asked
//! for, and the writes that make a table show new rows.
use vstd::prelude::*;
use crate::sheet::{override_cell, range_text, CellCoordinates, CellUpdate, CellValue, SheetCell};
use crate::sheet_reader::update_view;
use crate::shelly::common::str_equals;
use crate::sheet::{cell_text, column_text, is_char_code};
use crate::text::{is_digit, lemma_nat_digits_are_digits, lemma_scan_nat_digits, nat_digits, new_string};

verus! {

/// A cell as the sheet service hands it over, before it is placed.
#[derive(Debug, Clone)]
pub struct RawCell {
    pub content: Option<String>,
    pub integer: Option<i64>,
    pub value: Option<CellValue>,
}

fn copy_raw(c: &RawCell) -> (r: RawCell)
    ensures
        r.content == c.content,
        r.integer == c.integer,
        r.value == c.value,
{
    RawCell {
        content: match &c.content {
            Some(s) => Some(s.clone()),
            None => None,
        },
        integer: c.integer,
        value: match &c.value {
            Some(CellValue::Text(t)) => Some(CellValue::Text(t.clone())),
            Some(CellValue::Integer(v)) => Some(CellValue::Integer(*v)),
            Some(CellValue::Boolean(b)) => Some(CellValue::Boolean(*b)),
            Some(CellValue::Fraction) => Some(CellValue::Fraction),
            None => None,
        },
    }
}

/// Whether column `k` of `indices` takes its cell: it is in the row and no
/// earlier column of the list took it.
pub open spec fn takes(len: int, indices: Seq<usize>, k: int) -> bool {
    indices[k] < len && forall|j: int| 0 <= j < k ==> indices[j] != indices[k]
}

/// The cells of the columns at `indices` of a row: each column takes its
/// cell out of the row, so a column named twice finds it empty the second
/// time; a column past the row's end is empty.
pub fn take_columns(
    data: &mut Vec<Option<RawCell>>,
    row: usize,
    start_column: usize,
    indices: &Vec<usize>,
) -> (r: Vec<SheetCell>)
    requires
        forall|k: int| 0 <= k < indices@.len() ==> start_column + indices@[k] <= usize::MAX,
    ensures
        r@.len() == indices@.len(),
        final(data)@.len() == old(data)@.len(),
        forall|k: int|
            0 <= k < indices@.len() ==> {
                let c = #[trigger] r@[k];
                &&& c.coordinates == (CellCoordinates { row, col: (start_column + indices@[k]) as usize })
                &&& if takes(old(data)@.len() as int, indices@, k) {
                    match old(data)@[indices@[k] as int] {
                        Some(raw) => c.content == raw.content && c.integer == raw.integer && c.value == raw.value,
                        None => c.content is None && c.integer is None && c.value is None,
                    }
                } else {
                    c.content is None && c.integer is None && c.value is None
                }
            },
        forall|i: int|
            0 <= i < old(data)@.len() ==> #[trigger] final(data)@[i] == (if exists|k: int|
                0 <= k < indices@.len() && indices@[k] == i {
                None
            } else {
                old(data)@[i]
            }),
{
    let ghost d0 = data@;
    let mut r: Vec<SheetCell> = Vec::new();
    let mut k: usize = 0;
    while k < indices.len()
        invariant
            k <= indices@.len(),
            forall|q: int| 0 <= q < indices@.len() ==> start_column + indices@[q] <= usize::MAX,
            data@.len() == d0.len(),
            r@.len() == k,
            forall|q: int|
                0 <= q < k ==> {
                    let c = #[trigger] r@[q];
                    &&& c.coordinates == (CellCoordinates { row, col: (start_column + indices@[q]) as usize })
                    &&& if takes(d0.len() as int, indices@, q) {
                        match d0[indices@[q] as int] {
                            Some(raw) => c.content == raw.content && c.integer == raw.integer && c.value == raw.value,
                            None => c.content is None && c.integer is None && c.value is None,
                        }
                    } else {
                        c.content is None && c.integer is None && c.value is None
                    }
                },
            forall|i: int|
                0 <= i < d0.len() ==> #[trigger] data@[i] == (if exists|q: int|
                    0 <= q < k && indices@[q] == i {
                    None
                } else {
                    d0[i]
                }),
        decreases indices.len() - k,
    {
        let idx = indices[k];
        let coordinates = CellCoordinates { row, col: start_column + idx };
        let ghost db = data@;
        let cell = if idx < data.len() {
            let taken = match &data[idx] {
                Some(raw) => Some(copy_raw(raw)),
                None => None,
            };
            data.set(idx, None);
            match taken {
                Some(raw) => SheetCell {
                    content: raw.content,
                    integer: raw.integer,
                    value: raw.value,
                    coordinates,
                },
                None => SheetCell { content: None, integer: None, value: None, coordinates },
            }
        } else {
            SheetCell { content: None, integer: None, value: None, coordinates }
        };
        proof {
            if idx < db.len() {
                if takes(d0.len() as int, indices@, k as int) {
                    assert(!exists|q: int| 0 <= q < k && indices@[q] == idx);
                    assert(db[idx as int] == d0[idx as int]);
                } else {
                    let j = choose|j: int| 0 <= j < k && indices@[j] == indices@[k as int];
                    assert(db[idx as int] is None);
                }
            }
            assert forall|i: int| 0 <= i < d0.len() implies #[trigger] data@[i] == (if exists|q: int|
                0 <= q < k + 1 && indices@[q] == i {
                None
            } else {
                d0[i]
            }) by {
                if i == idx as int {
                    assert(indices@[k as int] == i);
                } else {
                    assert(data@[i] == db[i]);
                    if exists|q: int| 0 <= q < k + 1 && indices@[q] == i {
                        let q = choose|q: int| 0 <= q < k + 1 && indices@[q] == i;
                        assert(q < k);
                    }
                }
            }
        }
        r.push(cell);
        k = k + 1;
    }
    r
}

/// Whether a cell's value equals the value to show (an empty text counts as
/// no value).
pub open spec fn shows_value(cell: Option<CellValue>, v: CellValue) -> bool {
    match v {
        CellValue::Text(t) => if t@.len() == 0 {
            cell is None
        } else {
            cell matches Some(CellValue::Text(c)) && c@ == t@
        },
        CellValue::Integer(n) => cell == Some(CellValue::Integer(n)),
        CellValue::Boolean(b) => cell == Some(CellValue::Boolean(b)),
        CellValue::Fraction => false,
    }
}

fn shows_value_exec(cell: &Option<CellValue>, v: &CellValue) -> (r: bool)
    ensures
        r == shows_value(*cell, *v),
{
    match v {
        CellValue::Text(t) => {
            if t.unicode_len() == 0 {
                cell.is_none()
            } else {
                match cell {
                    Some(CellValue::Text(c)) => str_equals(c.as_str(), t.as_str()),
                    _ => false,
                }
            }
        },
        CellValue::Integer(n) => match cell {
            Some(CellValue::Integer(c)) => *c == *n,
            _ => false,
        },
        CellValue::Boolean(b) => match cell {
            Some(CellValue::Boolean(c)) => *c == *b,
            _ => false,
        },
        CellValue::Fraction => false,
    }
}

/// The view of a value.
pub open spec fn value_view(v: CellValue) -> (int, Seq<char>, int) {
    match v {
        CellValue::Text(t) => (0, t@, 0),
        CellValue::Integer(n) => (1, seq![], n as int),
        CellValue::Boolean(b) => (2, seq![], if b { 1 } else { 0 }),
        CellValue::Fraction => (3, seq![], 0),
    }
}

/// The writes that make the first `n` cells of a row show `values`.
pub open spec fn row_diff_spec(sheet: Seq<char>, cells: Seq<SheetCell>, values: Seq<CellValue>, n: int) -> Seq<(Seq<char>, (int, Seq<char>, int))>
    decreases n,
{
    if n <= 0 {
        seq![]
    } else if shows_value(cells[n - 1].value, values[n - 1]) {
        row_diff_spec(sheet, cells, values, n - 1)
    } else {
        row_diff_spec(sheet, cells, values, n - 1).push(
            (range_text(sheet, cells[n - 1].coordinates), value_view(values[n - 1])),
        )
    }
}

/// The writes of a new row at `row`, into the columns at `columns`.
pub open spec fn append_spec(sheet: Seq<char>, row: usize, start_column: usize, columns: Seq<usize>, values: Seq<CellValue>) -> Seq<(Seq<char>, (int, Seq<char>, int))> {
    Seq::new(
        values.len(),
        |c: int|
            (
                range_text(sheet, CellCoordinates { row, col: (columns[c] + start_column) as usize }),
                value_view(values[c]),
            ),
    )
}

/// The writes that empty the first `n` cells of a row that show something.
pub open spec fn clean_spec(sheet: Seq<char>, cells: Seq<SheetCell>, n: int) -> Seq<(Seq<char>, (int, Seq<char>, int))>
    decreases n,
{
    if n <= 0 {
        seq![]
    } else {
        let c = cells[n - 1];
        if c.content matches Some(t) && t@.len() > 0 {
            clean_spec(sheet, cells, n - 1).push((range_text(sheet, c.coordinates), (0, seq![], 0)))
        } else {
            clean_spec(sheet, cells, n - 1)
        }
    }
}

/// The writes of the first `n` rows to show.
pub open spec fn table_rows_spec(
    sheet: Seq<char>,
    existing: Seq<Vec<SheetCell>>,
    columns: Seq<usize>,
    start_column: usize,
    next_new_row: usize,
    data: Seq<Vec<CellValue>>,
    n: int,
) -> Seq<(Seq<char>, (int, Seq<char>, int))>
    decreases n,
{
    if n <= 0 {
        seq![]
    } else {
        let prev = table_rows_spec(sheet, existing, columns, start_column, next_new_row, data, n - 1);
        let values = data[n - 1]@;
        if n - 1 < existing.len() {
            prev + row_diff_spec(sheet, existing[n - 1]@, values, values.len() as int)
        } else {
            prev + append_spec(
                sheet,
                (next_new_row + (n - 1 - existing.len())) as usize,
                start_column,
                columns,
                values,
            )
        }
    }
}

/// The writes that empty the rows from `from` to `n`.
pub open spec fn clean_rows_spec(sheet: Seq<char>, existing: Seq<Vec<SheetCell>>, from: int, n: int) -> Seq<(Seq<char>, (int, Seq<char>, int))>
    decreases n - from,
{
    if n <= from {
        seq![]
    } else {
        clean_rows_spec(sheet, existing, from, n - 1) + clean_spec(sheet, existing[n - 1]@, existing[n - 1]@.len() as int)
    }
}

/// The view of a write.
pub open spec fn write_view(u: CellUpdate) -> (Seq<char>, (int, Seq<char>, int)) {
    (u.range@, value_view(u.value))
}

fn copy_value(v: &CellValue) -> (r: CellValue)
    ensures
        value_view(r) == value_view(*v),
{
    match v {
        CellValue::Text(t) => CellValue::Text(t.clone()),
        CellValue::Integer(n) => CellValue::Integer(*n),
        CellValue::Boolean(b) => CellValue::Boolean(*b),
        CellValue::Fraction => CellValue::Fraction,
    }
}

/// Where cell `c` of the `r`-th new row goes.
pub open spec fn new_coordinates(next_new_row: usize, start_column: usize, columns: Seq<usize>, r: int, c: int) -> CellCoordinates {
    CellCoordinates { row: (next_new_row + r) as usize, col: (columns[c] + start_column) as usize }
}

/// Whether a table's cells and new rows can be addressed.
pub open spec fn table_fits(
    existing: Seq<Vec<SheetCell>>,
    columns: Seq<usize>,
    start_column: usize,
    next_new_row: usize,
    data: Seq<Vec<CellValue>>,
) -> bool {
    &&& forall|r: int| 0 <= r < existing.len() ==> (#[trigger] existing[r])@.len() == columns.len()
    &&& forall|r: int| 0 <= r < data.len() ==> (#[trigger] data[r])@.len() == columns.len()
    &&& forall|r: int, c: int|
        0 <= r < existing.len() && 0 <= c < existing[r]@.len() ==> (#[trigger] existing[r]@[c]).coordinates.writable()
    &&& forall|c: int| 0 <= c < columns.len() ==> #[trigger] columns[c] + start_column <= usize::MAX
    &&& forall|r: int, c: int|
        0 <= r < data.len() && 0 <= c < columns.len() ==> (#[trigger] new_coordinates(
            next_new_row,
            start_column,
            columns,
            r,
            c,
        )).writable()
    &&& next_new_row + data.len() <= usize::MAX
}

/// The writes that make a table show `data`: a row that exists gets the
/// cells that differ written, further rows are appended from `next_new_row`
/// on, and rows beyond the data are emptied.
pub fn override_table(
    sheet: &str,
    existing: &Vec<Vec<SheetCell>>,
    columns: &Vec<usize>,
    start_column: usize,
    next_new_row: usize,
    data: &Vec<Vec<CellValue>>,
) -> (updates: Vec<CellUpdate>)
    requires
        table_fits(existing@, columns@, start_column, next_new_row, data@),
    ensures
        updates@.map_values(|u: CellUpdate| write_view(u)) == table_rows_spec(
            sheet@,
            existing@,
            columns@,
            start_column,
            next_new_row,
            data@,
            data@.len() as int,
        ) + clean_rows_spec(sheet@, existing@, data@.len() as int, existing@.len() as int),
{
    let mut updates: Vec<CellUpdate> = Vec::new();
    let mut r: usize = 0;
    while r < data.len()
        invariant
            r <= data@.len(),
            table_fits(existing@, columns@, start_column, next_new_row, data@),
            updates@.map_values(|u: CellUpdate| write_view(u)) == table_rows_spec(
                sheet@,
                existing@,
                columns@,
                start_column,
                next_new_row,
                data@,
                r as int,
            ),
        decreases data.len() - r,
    {
        let values = &data[r];
        assert(values@.len() == columns@.len());
        if r < existing.len() {
            let cells = &existing[r];
            let ghost u0 = updates@.map_values(|u: CellUpdate| write_view(u));
            let mut c: usize = 0;
            while c < values.len()
                invariant
                    c <= values@.len(),
                    values@.len() == cells@.len(),
                    forall|q: int| 0 <= q < cells@.len() ==> (#[trigger] cells@[q]).coordinates.writable(),
                    updates@.map_values(|u: CellUpdate| write_view(u)) == u0 + row_diff_spec(sheet@, cells@, values@, c as int),
                decreases values.len() - c,
            {
                if !shows_value_exec(&cells[c].value, &values[c]) {
                    let ghost before = updates@;
                    let u = override_cell(sheet, cells[c].coordinates, copy_value(&values[c]));
                    updates.push(u);
                    proof {
                        assert(updates@.map_values(|u: CellUpdate| write_view(u)) =~= before.map_values(
                            |u: CellUpdate| write_view(u),
                        ).push(write_view(u)));
                    }
                }
                c = c + 1;
            }
        } else {
            let row = next_new_row + (r - existing.len());
            let ghost u0 = updates@.map_values(|u: CellUpdate| write_view(u));
            let mut c: usize = 0;
            while c < values.len()
                invariant
                    c <= values@.len() == columns@.len(),
                    row == next_new_row + (r - existing@.len()),
                    r < data@.len(),
                    existing@.len() <= r,
                    table_fits(existing@, columns@, start_column, next_new_row, data@),
                    updates@.map_values(|u: CellUpdate| write_view(u)) == u0 + append_spec(
                        sheet@,
                        row,
                        start_column,
                        columns@,
                        values@,
                    ).take(c as int),
                decreases values.len() - c,
            {
                let coordinates = CellCoordinates { row, col: columns[c] + start_column };
                proof {
                    assert(coordinates == new_coordinates(
                        next_new_row,
                        start_column,
                        columns@,
                        r - existing@.len(),
                        c as int,
                    ));
                    assert(coordinates.writable());
                }
                let ghost before = updates@;
                let u = override_cell(sheet, coordinates, copy_value(&values[c]));
                updates.push(u);
                proof {
                    assert(updates@.map_values(|u: CellUpdate| write_view(u)) =~= before.map_values(
                        |u: CellUpdate| write_view(u),
                    ).push(write_view(u)));
                    let ap = append_spec(sheet@, row, start_column, columns@, values@);
                    assert(ap.take(c + 1) =~= ap.take(c as int).push(ap[c as int]));
                    assert(write_view(u) == ap[c as int]);
                    assert(updates@.map_values(|u: CellUpdate| write_view(u)) =~= u0 + append_spec(
                        sheet@,
                        row,
                        start_column,
                        columns@,
                        values@,
                    ).take(c + 1));
                }
                c = c + 1;
            }
            proof {
                assert(append_spec(sheet@, row, start_column, columns@, values@).take(values@.len() as int)
                    =~= append_spec(sheet@, row, start_column, columns@, values@));
            }
        }
        r = r + 1;
    }
    let ghost t = updates@.map_values(|u: CellUpdate| write_view(u));
    let mut r2: usize = data.len();
    while r2 < existing.len()
        invariant
            data@.len() <= r2,
            r2 <= existing@.len() || r2 == data@.len(),
            table_fits(existing@, columns@, start_column, next_new_row, data@),
            updates@.map_values(|u: CellUpdate| write_view(u)) == t + clean_rows_spec(
                sheet@,
                existing@,
                data@.len() as int,
                r2 as int,
            ),
        decreases existing.len() - r2,
    {
        let cells = &existing[r2];
        let ghost u0 = updates@.map_values(|u: CellUpdate| write_view(u));
        let mut c: usize = 0;
        while c < cells.len()
            invariant
                c <= cells@.len(),
                forall|q: int| 0 <= q < cells@.len() ==> (#[trigger] cells@[q]).coordinates.writable(),
                updates@.map_values(|u: CellUpdate| write_view(u)) == u0 + clean_spec(sheet@, cells@, c as int),
            decreases cells.len() - c,
        {
            let shows = match &cells[c].content {
                Some(t) => t.unicode_len() > 0,
                None => false,
            };
            if shows {
                let ghost before = updates@;
                let u = override_cell(sheet, cells[c].coordinates, CellValue::Text(new_string()));
                updates.push(u);
                proof {
                    assert(updates@.map_values(|u: CellUpdate| write_view(u)) =~= before.map_values(
                        |u: CellUpdate| write_view(u),
                    ).push(write_view(u)));
                }
            }
            c = c + 1;
        }
        r2 = r2 + 1;
    }
    updates
}

/// Whether each row of a table shows the row of data at its place.
pub open spec fn table_shows(existing: Seq<Vec<SheetCell>>, data: Seq<Vec<CellValue>>) -> bool {
    &&& existing.len() == data.len()
    &&& forall|r: int| 0 <= r < data.len() ==> (#[trigger] existing[r])@.len() == data[r]@.len()
    &&& forall|r: int, c: int|
        0 <= r < data.len() && 0 <= c < data[r]@.len() ==> shows_value(
            (#[trigger] existing[r]@[c]).value,
            data[r]@[c],
        )
}

proof fn lemma_row_shown(sheet: Seq<char>, cells: Seq<SheetCell>, values: Seq<CellValue>, n: int)
    requires
        0 <= n <= cells.len(),
        n <= values.len(),
        forall|c: int| 0 <= c < n ==> shows_value(#[trigger] cells[c].value, values[c]),
    ensures
        row_diff_spec(sheet, cells, values, n) == Seq::<(Seq<char>, (int, Seq<char>, int))>::empty(),
    decreases n,
{
    if n > 0 {
        assert(shows_value(cells[n - 1].value, values[n - 1]));
        lemma_row_shown(sheet, cells, values, n - 1);
    }
}

proof fn lemma_rows_shown(
    sheet: Seq<char>,
    existing: Seq<Vec<SheetCell>>,
    columns: Seq<usize>,
    start_column: usize,
    next_new_row: usize,
    data: Seq<Vec<CellValue>>,
    n: int,
)
    requires
        table_shows(existing, data),
        0 <= n <= data.len(),
    ensures
        table_rows_spec(sheet, existing, columns, start_column, next_new_row, data, n)
            == Seq::<(Seq<char>, (int, Seq<char>, int))>::empty(),
    decreases n,
{
    if n > 0 {
        lemma_rows_shown(sheet, existing, columns, start_column, next_new_row, data, n - 1);
        let cells = existing[n - 1]@;
        let values = data[n - 1]@;
        assert forall|c: int| 0 <= c < values.len() implies shows_value(#[trigger] cells[c].value, values[c]) by {
            assert(shows_value(existing[n - 1]@[c].value, data[n - 1]@[c]));
        }
        lemma_row_shown(sheet, cells, values, values.len() as int);
        assert(table_rows_spec(sheet, existing, columns, start_column, next_new_row, data, n)
            =~= Seq::<(Seq<char>, (int, Seq<char>, int))>::empty());
    }
}

/// A table whose rows already show the data, and no more rows, gets no
/// writes from `override_table`.
pub proof fn lemma_shown_table_unchanged(
    sheet: Seq<char>,
    existing: Seq<Vec<SheetCell>>,
    columns: Seq<usize>,
    start_column: usize,
    next_new_row: usize,
    data: Seq<Vec<CellValue>>,
)
    requires
        table_shows(existing, data),
    ensures
        table_rows_spec(sheet, existing, columns, start_column, next_new_row, data, data.len() as int)
            + clean_rows_spec(sheet, existing, data.len() as int, existing.len() as int)
            == Seq::<(Seq<char>, (int, Seq<char>, int))>::empty(),
{
    lemma_rows_shown(sheet, existing, columns, start_column, next_new_row, data, data.len() as int);
    assert(clean_rows_spec(sheet, existing, data.len() as int, existing.len() as int)
        =~= Seq::<(Seq<char>, (int, Seq<char>, int))>::empty());
    assert(Seq::<(Seq<char>, (int, Seq<char>, int))>::empty() + Seq::<(Seq<char>, (int, Seq<char>, int))>::empty()
        =~= Seq::<(Seq<char>, (int, Seq<char>, int))>::empty());
}


/// Whether a position has an address of its own: it can be written, and its
/// column fits the 32 bits its letters are computed in.
pub open spec fn addressable(c: CellCoordinates) -> bool {
    c.writable() && c.col <= u32::MAX
}

proof fn lemma_column_letters(col: usize)
    requires
        col <= u32::MAX,
        col >= 26 ==> is_char_code(64 + (col as u32) / 26),
    ensures
        column_text(col).len() == (if col < 26 { 1int } else { 2int }),
        forall|i: int| 0 <= i < column_text(col).len() ==> !is_digit(#[trigger] column_text(col)[i]),
{
    let c = col as u32;
    assert(c as int == col as int);
    if col < 26 {
        assert(column_text(col)[0] as int == 65 + c);
    } else {
        assert(is_char_code(65 + c % 26));
        assert(column_text(col)[0] as int == 64 + c / 26);
        assert(column_text(col)[1] as int == 65 + c % 26);
    }
}

/// Two positions with the same address are the same position.
pub proof fn lemma_address_unique(sheet: Seq<char>, a: CellCoordinates, b: CellCoordinates)
    requires
        addressable(a),
        addressable(b),
        range_text(sheet, a) == range_text(sheet, b),
    ensures
        a == b,
{
    let ta = cell_text(a.row, a.col);
    let tb = cell_text(b.row, b.col);
    let pre = sheet + seq!['!'];
    assert(range_text(sheet, a) == pre + ta);
    assert((pre + ta).subrange(pre.len() as int, (pre + ta).len() as int) =~= ta);
    assert((pre + tb).subrange(pre.len() as int, (pre + tb).len() as int) =~= tb);
    assert(ta == tb);
    let la = column_text(a.col);
    let lb = column_text(b.col);
    let da = nat_digits((a.row + 1) as nat);
    let db = nat_digits((b.row + 1) as nat);
    lemma_column_letters(a.col);
    lemma_column_letters(b.col);
    lemma_nat_digits_are_digits((a.row + 1) as nat);
    lemma_nat_digits_are_digits((b.row + 1) as nat);
    assert(ta == la + da);
    assert(tb == lb + db);
    if la.len() < lb.len() {
        assert(ta[la.len() as int] == da[0]);
        assert(tb[la.len() as int] == lb[la.len() as int]);
        assert(is_digit(da[0]));
        assert(false);
    }
    if lb.len() < la.len() {
        assert(tb[lb.len() as int] == db[0]);
        assert(ta[lb.len() as int] == la[lb.len() as int]);
        assert(is_digit(db[0]));
        assert(false);
    }
    assert(la.len() == lb.len());
    assert(ta.subrange(0, la.len() as int) =~= la);
    assert(tb.subrange(0, lb.len() as int) =~= lb);
    assert(ta.subrange(la.len() as int, ta.len() as int) =~= da);
    assert(tb.subrange(lb.len() as int, tb.len() as int) =~= db);
    assert(la == lb);
    assert(da == db);
    let hi = (a.row + b.row + 2) as int;
    lemma_scan_nat_digits((a.row + 1) as nat, hi);
    lemma_scan_nat_digits((b.row + 1) as nat, hi);
    assert(a.row == b.row);
    let ca = a.col as u32;
    let cb = b.col as u32;
    assert(ca as int == a.col as int);
    assert(cb as int == b.col as int);
    if a.col < 26 {
        assert(la[0] as int == 65 + ca);
        assert(lb[0] as int == 65 + cb);
    } else {
        assert(la[0] as int == 64 + ca / 26);
        assert(lb[0] as int == 64 + cb / 26);
        assert(is_char_code(65 + ca % 26));
        assert(is_char_code(65 + cb % 26));
        assert(la[1] as int == 65 + ca % 26);
        assert(lb[1] as int == 65 + cb % 26);
        assert(ca == 26 * (ca / 26) + ca % 26);
        assert(cb == 26 * (cb / 26) + cb % 26);
    }
}


/// What the last of the writes `w` to the address `addr` writes, if any.
pub open spec fn last_write(w: Seq<(Seq<char>, (int, Seq<char>, int))>, addr: Seq<char>) -> Option<(int, Seq<char>, int)>
    decreases w.len(),
{
    if w.len() == 0 {
        None
    } else if w.last().0 == addr {
        Some(w.last().1)
    } else {
        last_write(w.drop_last(), addr)
    }
}

proof fn lemma_last_write_concat(
    a: Seq<(Seq<char>, (int, Seq<char>, int))>,
    b: Seq<(Seq<char>, (int, Seq<char>, int))>,
    addr: Seq<char>,
)
    ensures
        last_write(a + b, addr) == (match last_write(b, addr) {
            Some(x) => Some(x),
            None => last_write(a, addr),
        }),
    decreases b.len(),
{
    if b.len() == 0 {
        assert(a + b =~= a);
    } else {
        assert((a + b).drop_last() =~= a + b.drop_last());
        assert((a + b).last() == b.last());
        lemma_last_write_concat(a, b.drop_last(), addr);
    }
}

proof fn lemma_last_write_at(w: Seq<(Seq<char>, (int, Seq<char>, int))>, addr: Seq<char>, k: int)
    requires
        forall|i: int| 0 <= i < w.len() && i != k ==> (#[trigger] w[i]).0 != addr,
    ensures
        last_write(w, addr) == (if 0 <= k < w.len() && w[k].0 == addr {
            Some(w[k].1)
        } else {
            None
        }),
    decreases w.len(),
{
    if w.len() > 0 {
        let d = w.drop_last();
        assert forall|i: int| 0 <= i < d.len() && i != k implies (#[trigger] d[i]).0 != addr by {
            assert(d[i] == w[i]);
        }
        lemma_last_write_at(d, addr, k);
        if 0 <= k < d.len() {
            assert(d[k] == w[k]);
        }
    }
}

proof fn lemma_row_diff_last(sheet: Seq<char>, cells: Seq<SheetCell>, values: Seq<CellValue>, n: int, k: int, addr: Seq<char>)
    requires
        0 <= n <= cells.len(),
        n <= values.len(),
        forall|c: int| 0 <= c < n && c != k ==> range_text(sheet, (#[trigger] cells[c]).coordinates) != addr,
        0 <= k < cells.len() ==> range_text(sheet, cells[k].coordinates) == addr,
    ensures
        last_write(row_diff_spec(sheet, cells, values, n), addr) == (if 0 <= k < n && !shows_value(
            cells[k].value,
            values[k],
        ) {
            Some(value_view(values[k]))
        } else {
            None
        }),
    decreases n,
{
    if n > 0 {
        lemma_row_diff_last(sheet, cells, values, n - 1, k, addr);
        let w = row_diff_spec(sheet, cells, values, n - 1);
        if !shows_value(cells[n - 1].value, values[n - 1]) {
            let x = (range_text(sheet, cells[n - 1].coordinates), value_view(values[n - 1]));
            assert(w.push(x).drop_last() =~= w);
        }
    }
}

/// Whether a cell shows some text.
pub open spec fn shows_text(c: SheetCell) -> bool {
    c.content matches Some(t) && t@.len() > 0
}

proof fn lemma_clean_last(sheet: Seq<char>, cells: Seq<SheetCell>, n: int, k: int, addr: Seq<char>)
    requires
        0 <= n <= cells.len(),
        forall|c: int| 0 <= c < n && c != k ==> range_text(sheet, (#[trigger] cells[c]).coordinates) != addr,
        0 <= k < cells.len() ==> range_text(sheet, cells[k].coordinates) == addr,
    ensures
        last_write(clean_spec(sheet, cells, n), addr) == (if 0 <= k < n && shows_text(cells[k]) {
            Some((0int, Seq::<char>::empty(), 0int))
        } else {
            None
        }),
    decreases n,
{
    if n > 0 {
        lemma_clean_last(sheet, cells, n - 1, k, addr);
        let w = clean_spec(sheet, cells, n - 1);
        if shows_text(cells[n - 1]) {
            let x = (range_text(sheet, cells[n - 1].coordinates), (0int, Seq::<char>::empty(), 0int));
            assert(w.push(x).drop_last() =~= w);
        }
    }
}

/// The position of cell `c` of row `r` of a table: an existing row's cell
/// where it has one, else the cell of a row added from `next_new_row` on.
pub open spec fn cell_position(
    existing: Seq<Vec<SheetCell>>,
    columns: Seq<usize>,
    start_column: usize,
    next_new_row: usize,
    r: int,
    c: int,
) -> CellCoordinates {
    if r < existing.len() {
        existing[r]@[c].coordinates
    } else {
        new_coordinates(next_new_row, start_column, columns, r - existing.len(), c)
    }
}

/// The rows a table has before or after it is written.
pub open spec fn table_extent(existing: Seq<Vec<SheetCell>>, data: Seq<Vec<CellValue>>) -> int {
    if existing.len() > data.len() {
        existing.len() as int
    } else {
        data.len() as int
    }
}

/// Whether every cell of a table, and of the rows to be added, has an
/// address of its own.
pub open spec fn positions_distinct(
    existing: Seq<Vec<SheetCell>>,
    columns: Seq<usize>,
    start_column: usize,
    next_new_row: usize,
    data: Seq<Vec<CellValue>>,
) -> bool {
    let rows = table_extent(existing, data);
    &&& forall|r: int, c: int|
        0 <= r < rows && 0 <= c < columns.len() ==> addressable(
            #[trigger] cell_position(existing, columns, start_column, next_new_row, r, c),
        )
    &&& forall|r1: int, c1: int, r2: int, c2: int|
        0 <= r1 < rows && 0 <= c1 < columns.len() && 0 <= r2 < rows && 0 <= c2 < columns.len() && (r1 != r2 || c1
            != c2) ==> #[trigger] cell_position(existing, columns, start_column, next_new_row, r1, c1)
            != #[trigger] cell_position(existing, columns, start_column, next_new_row, r2, c2)
}

/// What cell `c` of row `r` gets written: the value of its row of data,
/// unless it shows it already; in a row beyond the data, an empty text where
/// it shows some.
pub open spec fn expected_write(
    existing: Seq<Vec<SheetCell>>,
    data: Seq<Vec<CellValue>>,
    r: int,
    c: int,
) -> Option<(int, Seq<char>, int)> {
    if r < data.len() {
        if r < existing.len() && shows_value(existing[r]@[c].value, data[r]@[c]) {
            None
        } else {
            Some(value_view(data[r]@[c]))
        }
    } else if shows_text(existing[r]@[c]) {
        Some((0int, Seq::<char>::empty(), 0int))
    } else {
        None
    }
}

proof fn lemma_other_address(
    sheet: Seq<char>,
    existing: Seq<Vec<SheetCell>>,
    columns: Seq<usize>,
    start_column: usize,
    next_new_row: usize,
    data: Seq<Vec<CellValue>>,
    r1: int,
    c1: int,
    r2: int,
    c2: int,
)
    requires
        positions_distinct(existing, columns, start_column, next_new_row, data),
        0 <= r1 < table_extent(existing, data),
        0 <= r2 < table_extent(existing, data),
        0 <= c1 < columns.len(),
        0 <= c2 < columns.len(),
        r1 != r2 || c1 != c2,
    ensures
        range_text(sheet, cell_position(existing, columns, start_column, next_new_row, r1, c1)) != range_text(
            sheet,
            cell_position(existing, columns, start_column, next_new_row, r2, c2),
        ),
{
    let p1 = cell_position(existing, columns, start_column, next_new_row, r1, c1);
    let p2 = cell_position(existing, columns, start_column, next_new_row, r2, c2);
    assert(addressable(p1));
    assert(addressable(p2));
    assert(p1 != p2);
    if range_text(sheet, p1) == range_text(sheet, p2) {
        lemma_address_unique(sheet, p1, p2);
    }
}

proof fn lemma_rows_last(
    sheet: Seq<char>,
    existing: Seq<Vec<SheetCell>>,
    columns: Seq<usize>,
    start_column: usize,
    next_new_row: usize,
    data: Seq<Vec<CellValue>>,
    m: int,
    r: int,
    c: int,
)
    requires
        table_fits(existing, columns, start_column, next_new_row, data),
        positions_distinct(existing, columns, start_column, next_new_row, data),
        0 <= m <= data.len(),
        0 <= r < table_extent(existing, data),
        0 <= c < columns.len(),
    ensures
        last_write(
            table_rows_spec(sheet, existing, columns, start_column, next_new_row, data, m),
            range_text(sheet, cell_position(existing, columns, start_column, next_new_row, r, c)),
        ) == (if r < m {
            expected_write(existing, data, r, c)
        } else {
            None
        }),
    decreases m,
{
    let addr = range_text(sheet, cell_position(existing, columns, start_column, next_new_row, r, c));
    if m > 0 {
        let q = m - 1;
        lemma_rows_last(sheet, existing, columns, start_column, next_new_row, data, q, r, c);
        let prev = table_rows_spec(sheet, existing, columns, start_column, next_new_row, data, q);
        let values = data[q]@;
        let k = if r == q {
            c
        } else {
            -1
        };
        if q < existing.len() {
            let cells = existing[q]@;
            let block = row_diff_spec(sheet, cells, values, values.len() as int);
            assert forall|c2: int| 0 <= c2 < values.len() && c2 != k implies range_text(
                sheet,
                (#[trigger] cells[c2]).coordinates,
            ) != addr by {
                assert(cell_position(existing, columns, start_column, next_new_row, q, c2) == cells[c2].coordinates);
                lemma_other_address(sheet, existing, columns, start_column, next_new_row, data, q, c2, r, c);
            }
            if r == q {
                assert(cell_position(existing, columns, start_column, next_new_row, q, c) == cells[c].coordinates);
            }
            lemma_row_diff_last(sheet, cells, values, values.len() as int, k, addr);
            lemma_last_write_concat(prev, block, addr);
        } else {
            let row = (next_new_row + (q - existing.len())) as usize;
            let block = append_spec(sheet, row, start_column, columns, values);
            assert forall|i: int| 0 <= i < block.len() && i != k implies (#[trigger] block[i]).0 != addr by {
                assert(cell_position(existing, columns, start_column, next_new_row, q, i) == CellCoordinates {
                    row,
                    col: (columns[i] + start_column) as usize,
                });
                lemma_other_address(sheet, existing, columns, start_column, next_new_row, data, q, i, r, c);
            }
            if r == q {
                assert(cell_position(existing, columns, start_column, next_new_row, q, c) == CellCoordinates {
                    row,
                    col: (columns[c] + start_column) as usize,
                });
            }
            lemma_last_write_at(block, addr, k);
            lemma_last_write_concat(prev, block, addr);
        }
    }
}

proof fn lemma_clean_rows_last(
    sheet: Seq<char>,
    existing: Seq<Vec<SheetCell>>,
    columns: Seq<usize>,
    start_column: usize,
    next_new_row: usize,
    data: Seq<Vec<CellValue>>,
    n: int,
    r: int,
    c: int,
)
    requires
        table_fits(existing, columns, start_column, next_new_row, data),
        positions_distinct(existing, columns, start_column, next_new_row, data),
        data.len() <= n <= existing.len(),
        0 <= r < table_extent(existing, data),
        0 <= c < columns.len(),
    ensures
        last_write(
            clean_rows_spec(sheet, existing, data.len() as int, n),
            range_text(sheet, cell_position(existing, columns, start_column, next_new_row, r, c)),
        ) == (if data.len() <= r < n && shows_text(existing[r]@[c]) {
            Some((0int, Seq::<char>::empty(), 0int))
        } else {
            None
        }),
    decreases n,
{
    let addr = range_text(sheet, cell_position(existing, columns, start_column, next_new_row, r, c));
    if n > data.len() {
        let q = n - 1;
        lemma_clean_rows_last(sheet, existing, columns, start_column, next_new_row, data, q, r, c);
        let prev = clean_rows_spec(sheet, existing, data.len() as int, q);
        let cells = existing[q]@;
        let block = clean_spec(sheet, cells, cells.len() as int);
        let k = if r == q {
            c
        } else {
            -1
        };
        assert forall|c2: int| 0 <= c2 < cells.len() && c2 != k implies range_text(
            sheet,
            (#[trigger] cells[c2]).coordinates,
        ) != addr by {
            assert(cell_position(existing, columns, start_column, next_new_row, q, c2) == cells[c2].coordinates);
            lemma_other_address(sheet, existing, columns, start_column, next_new_row, data, q, c2, r, c);
        }
        if r == q {
            assert(cell_position(existing, columns, start_column, next_new_row, q, c) == cells[c].coordinates);
        }
        lemma_clean_last(sheet, cells, cells.len() as int, k, addr);
        lemma_last_write_concat(prev, block, addr);
    } else {
        assert(clean_rows_spec(sheet, existing, data.len() as int, n) =~= Seq::<(Seq<char>, (int, Seq<char>, int))>::empty());
    }
}

/// Applying the writes of `override_table` in order makes the table show
/// its data: the last write to the address of a cell of a row of data writes
/// that cell's value, unless the cell shows it already (then none is
/// written to it); in a row beyond the data, a cell that shows text gets
/// an empty text last, and any other cell gets no write.
pub proof fn lemma_written_table_shows(
    sheet: Seq<char>,
    existing: Seq<Vec<SheetCell>>,
    columns: Seq<usize>,
    start_column: usize,
    next_new_row: usize,
    data: Seq<Vec<CellValue>>,
    r: int,
    c: int,
)
    requires
        table_fits(existing, columns, start_column, next_new_row, data),
        positions_distinct(existing, columns, start_column, next_new_row, data),
        0 <= r < table_extent(existing, data),
        0 <= c < columns.len(),
    ensures
        last_write(
            table_rows_spec(sheet, existing, columns, start_column, next_new_row, data, data.len() as int)
                + clean_rows_spec(sheet, existing, data.len() as int, existing.len() as int),
            range_text(sheet, cell_position(existing, columns, start_column, next_new_row, r, c)),
        ) == expected_write(existing, data, r, c),
{
    let addr = range_text(sheet, cell_position(existing, columns, start_column, next_new_row, r, c));
    lemma_rows_last(sheet, existing, columns, start_column, next_new_row, data, data.len() as int, r, c);
    if existing.len() >= data.len() {
        lemma_clean_rows_last(sheet, existing, columns, start_column, next_new_row, data, existing.len() as int, r, c);
    } else {
        assert(clean_rows_spec(sheet, existing, data.len() as int, existing.len() as int)
            =~= Seq::<(Seq<char>, (int, Seq<char>, int))>::empty());
    }
    lemma_last_write_concat(
        table_rows_spec(sheet, existing, columns, start_column, next_new_row, data, data.len() as int),
        clean_rows_spec(sheet, existing, data.len() as int, existing.len() as int),
        addr,
    );
}

} // verus!
