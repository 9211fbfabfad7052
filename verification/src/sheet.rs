//! The logic of reading the installation's wiring from a spreadsheet: cell
//! addresses, header lookup, numbering of devices within rooms and the
//! texts written back into the sheet.
use vstd::prelude::*;
use vstd::string::*;
use crate::text::{nat_digits, new_string, push_char, push_decimal, push_str, string_of};
use crate::shelly::common::str_equals;
use crate::state::{ConnectionState, SpitfpErrorCounters, Version};

verus! {

/// Position of a cell in a sheet, both counted from zero.
#[derive(Debug, Clone, Copy, PartialEq, Eq, Structural)]
pub struct CellCoordinates {
    pub row: usize,
    pub col: usize,
}

/// Whether a code point is a `char`.
pub open spec fn is_char_code(v: int) -> bool {
    (0 <= v < 0xD800) || (0xE000 <= v <= 0x10FFFF)
}

/// `char::from_u32`: the character with code point `v`, if there is one.
#[verifier::external_body]
fn char_from_u32(v: u32) -> (r: Option<char>)
    ensures
        (r is Some) == is_char_code(v as int),
        r matches Some(c) ==> c as int == v as int,
{
    char::from_u32(v)
}

/// Letters of a column: one letter below 26, two letters above (the first
/// counting from `A` for 26..51, the second the column modulo 26).
pub open spec fn column_text(col: usize) -> Seq<char> {
    let c = col as u32;
    if col < 26 {
        seq![(65 + c) as char]
    } else {
        seq![(64 + c / 26) as char, (65 + c % 26) as char]
    }
}

/// The A1-style address of a cell: column letters, then the row counted from one.
pub open spec fn cell_text(row: usize, col: usize) -> Seq<char> {
    column_text(col) + nat_digits((row + 1) as nat)
}

impl CellCoordinates {
    /// Whether the address can be written: the row number fits, and the
    /// first letter of a two-letter column is a character.
    pub open spec fn writable(self) -> bool {
        &&& self.row < usize::MAX
        &&& self.row < u64::MAX
        &&& self.col >= 26 ==> is_char_code(64 + (self.col as u32) / 26)
    }

    /// The A1-style address, as the `Display` of the coordinates writes it.
    pub fn format(&self) -> (s: String)
        requires
            self.writable(),
        ensures
            s@ == cell_text(self.row, self.col),
    {
        let mut s = new_string();
        let c = self.col as u32;
        if self.col < 26 {
            let ch = char_from_u32(65 + c);
            match ch {
                Some(ch) => push_char(&mut s, ch),
                None => {},
            }
        } else {
            let first = char_from_u32(64 + c / 26);
            let second = char_from_u32(65 + c % 26);
            match first {
                Some(ch) => push_char(&mut s, ch),
                None => {},
            }
            match second {
                Some(ch) => push_char(&mut s, ch),
                None => {},
            }
        }
        let ghost letters = s@;
        assert(letters =~= column_text(self.col));
        push_decimal(&mut s, (self.row + 1) as u64);
        s
    }
}

/// A cell as read from the sheet: the text it shows, the number entered in
/// it (rounded to an integer), the value it holds, and where it is.
#[derive(Debug, Clone)]
pub struct SheetCell {
    pub content: Option<String>,
    pub integer: Option<i64>,
    pub value: Option<CellValue>,
    pub coordinates: CellCoordinates,
}

/// A value held by or written into a cell: a text, an integer, a flag, or a
/// number that is not an integer (which no value written equals).
#[derive(Debug, Clone)]
pub enum CellValue {
    Text(String),
    Integer(i64),
    Boolean(bool),
    Fraction,
}

/// A write of one cell: its address as `sheet!A1`, and the value.
#[derive(Debug, Clone)]
pub struct CellUpdate {
    pub range: String,
    pub value: CellValue,
}

/// The address of a cell of a sheet, as `sheet!A1`.
pub open spec fn range_text(sheet: Seq<char>, c: CellCoordinates) -> Seq<char> {
    sheet + seq!['!'] + cell_text(c.row, c.col)
}

/// The write of `value` into the cell at `coordinates` of `sheet`.
pub fn override_cell(sheet: &str, coordinates: CellCoordinates, value: CellValue) -> (u: CellUpdate)
    requires
        coordinates.writable(),
    ensures
        u.range@ == range_text(sheet@, coordinates),
        u.value == value,
{
    let mut range = string_of(sheet);
    push_char(&mut range, '!');
    let address = coordinates.format();
    push_str(&mut range, address.as_str());
    proof {
        assert(range@ =~= range_text(sheet@, coordinates));
    }
    CellUpdate { range, value }
}

/// Whether a cell shows exactly `text`.
pub open spec fn shows(cell: SheetCell, text: Seq<char>) -> bool {
    match cell.content {
        Some(c) => c@ == text,
        None => false,
    }
}

/// The write that makes a cell show `new_value`, unless it already does.
pub fn create_content_update(sheet: &str, cell: &SheetCell, new_value: &str) -> (r: Option<CellUpdate>)
    requires
        cell.coordinates.writable(),
    ensures
        (r is None) == shows(*cell, new_value@),
        r matches Some(u) ==> u.range@ == range_text(sheet@, cell.coordinates) && (
        u.value matches CellValue::Text(t) && t@ == new_value@),
{
    let same = match &cell.content {
        Some(c) => str_equals(c.as_str(), new_value),
        None => false,
    };
    if same {
        None
    } else {
        Some(override_cell(sheet, cell.coordinates, CellValue::Text(string_of(new_value))))
    }
}

/// The device number a cell holds: its integer, narrowed to 16 bits.
pub open spec fn existing_idx_spec(cell: SheetCell) -> Option<u16> {
    match cell.integer {
        Some(v) => Some(v as u16),
        None => None,
    }
}

/// The device number a cell holds, if any.
pub fn existing_idx(cell: &SheetCell) -> (r: Option<u16>)
    ensures
        r == existing_idx_spec(*cell),
{
    match cell.integer {
        Some(v) => Some(v as u16),
        None => None,
    }
}

/// The headers that were not found in a table.
#[derive(Debug, Clone)]
pub struct HeaderError(pub Vec<String>);

/// Whether a header cell shows `title`.
pub open spec fn header_is(cell: Option<String>, title: Seq<char>) -> bool {
    match cell {
        Some(s) => s@ == title,
        None => false,
    }
}

/// The last of the first `n` columns whose header shows `title`.
pub open spec fn last_match(row: Seq<Option<String>>, title: Seq<char>, n: int) -> Option<usize>
    decreases n,
{
    if n <= 0 {
        None
    } else if header_is(row[n - 1], title) {
        Some((n - 1) as usize)
    } else {
        last_match(row, title, n - 1)
    }
}

/// For each title, the last column whose header shows it.
pub fn find_indizes_of_headers(row: &Vec<Option<String>>, header_columns: &Vec<&str>) -> (found: Vec<Option<usize>>)
    ensures
        found@.len() == header_columns@.len(),
        forall|h: int|
            0 <= h < header_columns@.len() ==> #[trigger] found@[h] == last_match(
                row@,
                header_columns@[h]@,
                row@.len() as int,
            ),
{
    let mut found: Vec<Option<usize>> = Vec::new();
    let mut h: usize = 0;
    while h < header_columns.len()
        invariant
            h <= header_columns@.len(),
            found@.len() == h,
            forall|j: int| 0 <= j < h ==> found@[j] is None,
        decreases header_columns.len() - h,
    {
        found.push(None);
        h = h + 1;
    }
    let mut c: usize = 0;
    while c < row.len()
        invariant
            c <= row@.len(),
            found@.len() == header_columns@.len(),
            forall|j: int|
                0 <= j < header_columns@.len() ==> #[trigger] found@[j] == last_match(
                    row@,
                    header_columns@[j]@,
                    c as int,
                ),
        decreases row.len() - c,
    {
        match &row[c] {
            Some(text) => {
                let mut j: usize = 0;
                while j < header_columns.len()
                    invariant
                        c < row@.len(),
                        row@[c as int] == Some(*text),
                        j <= header_columns@.len(),
                        found@.len() == header_columns@.len(),
                        forall|k: int|
                            0 <= k < j ==> #[trigger] found@[k] == last_match(
                                row@,
                                header_columns@[k]@,
                                c + 1,
                            ),
                        forall|k: int|
                            j <= k < header_columns@.len() ==> #[trigger] found@[k] == last_match(
                                row@,
                                header_columns@[k]@,
                                c as int,
                            ),
                    decreases header_columns.len() - j,
                {
                    if str_equals(header_columns[j], text.as_str()) {
                        found.set(j, Some(c));
                    }
                    j = j + 1;
                }
            },
            None => {},
        }
        c = c + 1;
    }
    found
}

/// The titles whose column was not found, in order.
pub open spec fn missing_headers(titles: Seq<Seq<char>>, found: Seq<Option<usize>>, n: int) -> Seq<Seq<char>>
    decreases n,
{
    if n <= 0 {
        seq![]
    } else if found[n - 1] is None {
        missing_headers(titles, found, n - 1).push(titles[n - 1])
    } else {
        missing_headers(titles, found, n - 1)
    }
}

/// The column of each title, or the titles that are missing.
pub fn parse_headers(row: &Vec<Option<String>>, header_columns: &Vec<&str>) -> (r: Result<Vec<usize>, HeaderError>)
    ensures
        ({
            let found = Seq::new(
                header_columns@.len(),
                |h: int| last_match(row@, header_columns@[h]@, row@.len() as int),
            );
            let titles = Seq::new(header_columns@.len(), |h: int| header_columns@[h]@);
            match r {
                Ok(cols) => {
                    &&& forall|h: int| 0 <= h < found.len() ==> found[h] is Some
                    &&& cols@.len() == header_columns@.len()
                    &&& forall|h: int|
                        0 <= h < cols@.len() ==> Some(#[trigger] cols@[h]) == found[h]
                },
                Err(HeaderError(missing)) => {
                    &&& exists|h: int| 0 <= h < found.len() && found[h] is None
                    &&& missing@.map_values(|s: String| s@) == missing_headers(
                        titles,
                        found,
                        found.len() as int,
                    )
                },
            }
        }),
{
    let found = find_indizes_of_headers(row, header_columns);
    let ghost found_spec = Seq::new(
        header_columns@.len(),
        |h: int| last_match(row@, header_columns@[h]@, row@.len() as int),
    );
    let ghost titles = Seq::new(header_columns@.len(), |h: int| header_columns@[h]@);
    assert(found@ =~= found_spec);
    let mut missing: Vec<String> = Vec::new();
    let mut cols: Vec<usize> = Vec::new();
    let mut h: usize = 0;
    while h < found.len()
        invariant
            h <= found@.len(),
            found@ == found_spec,
            found_spec.len() == header_columns@.len(),
            titles.len() == header_columns@.len(),
            forall|k: int| 0 <= k < titles.len() ==> titles[k] == header_columns@[k]@,
            missing@.map_values(|s: String| s@) == missing_headers(titles, found_spec, h as int),
            missing@.len() == 0 ==> cols@.len() == h,
            missing@.len() == 0 ==> forall|k: int|
                0 <= k < h ==> Some(#[trigger] cols@[k]) == found_spec[k],
            missing@.len() > 0 ==> exists|k: int| 0 <= k < h && found_spec[k] is None,
        decreases found.len() - h,
    {
        match found[h] {
            Some(c) => {
                let ghost before = cols@;
                cols.push(c);
                proof {
                    assert(found_spec[h as int] == Some(c));
                    if missing@.len() == 0 {
                        assert forall|k: int| 0 <= k < h + 1 implies Some(
                            #[trigger] cols@[k],
                        ) == found_spec[k] by {
                            if k < h {
                                assert(cols@[k] == before[k]);
                            }
                        }
                        assert(cols@.len() == h + 1);
                    }
                }
            },
            None => {
                let ghost before = missing@;
                missing.push(string_of(header_columns[h]));
                proof {
                    assert(missing@.map_values(|s: String| s@) =~= before.map_values(|s: String| s@).push(
                        titles[h as int],
                    ));
                    assert(missing@.len() > 0);
                }
            },
        }
        h = h + 1;
    }
    if missing.len() == 0 {
        proof {
            assert forall|k: int| 0 <= k < found_spec.len() implies found_spec[k] is Some by {
                assert(Some(cols@[k]) == found_spec[k]);
            }
        }
        Ok(cols)
    } else {
        Err(HeaderError(missing))
    }
}

/// How a sheet shows a flag: `x` when set, empty otherwise.
pub fn show_bool(value: bool) -> (s: &'static str)
    ensures
        s@ == (if value { "x"@ } else { ""@ }),
{
    if value {
        "x"
    } else {
        ""
    }
}

/// One counter of an error description: `name: n`, or `name(c): n` for
/// the counters of connection `c`, after a `, ` when something came before.
pub open spec fn counter_text(before: Seq<char>, connection: Option<char>, name: Seq<char>, counter: u32) -> Seq<char> {
    before + (if before.len() > 0 {
        seq![',', ' ']
    } else {
        seq![]
    }) + name + match connection {
        Some(ch) => seq!['(', ch, ')', ':', ' '],
        None => seq![':', ' '],
    } + nat_digits(counter as nat)
}

/// Appends one counter to an error description.
pub fn append_counter(error_description: &mut String, connection: Option<char>, counter_name: &str, counter: u32)
    ensures
        final(error_description)@ == counter_text(old(error_description)@, connection, counter_name@, counter),
{
    proof {
        reveal_strlit(", ");
        reveal_strlit("): ");
        reveal_strlit(": ");
    }
    if error_description.unicode_len() > 0 {
        push_str(error_description, ", ");
    }
    push_str(error_description, counter_name);
    match connection {
        Some(ch) => {
            push_char(error_description, '(');
            push_char(error_description, ch);
            push_str(error_description, "): ");
        },
        None => {
            push_str(error_description, ": ");
        },
    }
    push_decimal(error_description, counter as u64);
    proof {
        assert(final(error_description)@ =~= counter_text(old(error_description)@, connection, counter_name@, counter));
    }
}

/// The description after the non-zero counters of one connection: message
/// checksum, acknowledge checksum, overflow and frame errors, in that order.
pub open spec fn counters_text(before: Seq<char>, connection: Option<char>, c: SpitfpErrorCounters) -> Seq<char> {
    let t1 = if c.error_count_message_checksum > 0 {
        counter_text(before, connection, "msg"@, c.error_count_message_checksum)
    } else {
        before
    };
    let t2 = if c.error_count_ack_checksum > 0 {
        counter_text(t1, connection, "ack"@, c.error_count_ack_checksum)
    } else {
        t1
    };
    let t3 = if c.error_count_overflow > 0 {
        counter_text(t2, connection, "overflow"@, c.error_count_overflow)
    } else {
        t2
    };
    if c.error_count_frame > 0 {
        counter_text(t3, connection, "frame"@, c.error_count_frame)
    } else {
        t3
    }
}

/// The description of the first `n` connections' error counters.
pub open spec fn error_description_spec(counters: Seq<(Option<char>, SpitfpErrorCounters)>, n: int) -> Seq<char>
    decreases n,
{
    if n <= 0 {
        seq![]
    } else {
        counters_text(error_description_spec(counters, n - 1), counters[n - 1].0, counters[n - 1].1)
    }
}

/// The text the bricklet table shows for the error counters of a bricklet.
pub fn error_description(counters: &Vec<(Option<char>, SpitfpErrorCounters)>) -> (s: String)
    ensures
        s@ == error_description_spec(counters@, counters@.len() as int),
{
    let mut s = new_string();
    let mut i: usize = 0;
    while i < counters.len()
        invariant
            i <= counters@.len(),
            s@ == error_description_spec(counters@, i as int),
        decreases counters.len() - i,
    {
        let (connection, c) = counters[i];
        proof {
            reveal_strlit("msg");
            reveal_strlit("ack");
            reveal_strlit("overflow");
            reveal_strlit("frame");
        }
        if c.error_count_message_checksum > 0 {
            append_counter(&mut s, connection, "msg", c.error_count_message_checksum);
        }
        if c.error_count_ack_checksum > 0 {
            append_counter(&mut s, connection, "ack", c.error_count_ack_checksum);
        }
        if c.error_count_overflow > 0 {
            append_counter(&mut s, connection, "overflow", c.error_count_overflow);
        }
        if c.error_count_frame > 0 {
            append_counter(&mut s, connection, "frame", c.error_count_frame);
        }
        i = i + 1;
    }
    s
}

/// A version as `major.minor.release`.
pub open spec fn version_text(v: Version) -> Seq<char> {
    nat_digits(v.0 as nat) + seq!['.'] + nat_digits(v.1 as nat) + seq!['.'] + nat_digits(v.2 as nat)
}

/// Writes a version as `major.minor.release`.
pub fn version_string(v: Version) -> (s: String)
    ensures
        s@ == version_text(v),
{
    let mut s = new_string();
    push_decimal(&mut s, v.0 as u64);
    push_char(&mut s, '.');
    push_decimal(&mut s, v.1 as u64);
    push_char(&mut s, '.');
    push_decimal(&mut s, v.2 as u64);
    proof {
        assert(s@ =~= version_text(v));
    }
    s
}

} // verus!
