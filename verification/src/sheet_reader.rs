//! Reading the wiring out of the sheet's tables: which rows are taken, how
//! devices are numbered within their rooms, and what registers, bricklet
//! settings and controllers each row gives. The tables come in as rows of
//! cells in the order of the columns asked for.
use vstd::prelude::*;
use crate::device_idx::{fill_device_idx, room_numbering_ok, rooms_fit};
use crate::names::{base58_uid, parse_uid, NameMap};
use crate::registry::{
    BrightnessKey, DualButtonKey, LightColorKey, SingleButtonKey, SwitchOutputKey,
};
use crate::room::{room_parse_spec, DeviceInRoom, Room, SubDeviceInRoom};
use crate::sheet::{override_cell, CellUpdate, CellValue, SheetCell};
use crate::shelly::common::str_equals;
use crate::text::{push_str, string_of};
use crate::wiring::{
    ButtonSetting, DmxConfigEntry, DualInputDimmer, DualInputSwitch, HeatController,
    MotionDetector, MotionDetectorSettings, RelayChannelEntry, RingController, ScreenSettings,
    TemperatureSettings,
};

verus! {

/// The text a cell shows.
pub open spec fn content_of(c: SheetCell) -> Option<Seq<char>> {
    match c.content {
        Some(s) => Some(s@),
        None => None,
    }
}

/// The room a cell names, if it reads as one.
pub open spec fn room_of_spec(c: SheetCell) -> Option<Room> {
    match content_of(c) {
        Some(s) => match room_parse_spec(s) {
            Ok(r) => Some(r),
            Err(_) => None,
        },
        None => None,
    }
}

/// The room a cell names, if it reads as one.
pub fn room_of(c: &SheetCell) -> (r: Option<Room>)
    ensures
        r == room_of_spec(*c),
{
    match &c.content {
        Some(s) => match Room::parse(s.as_str()) {
            Ok(room) => Some(room),
            Err(_) => None,
        },
        None => None,
    }
}

/// The bricklet uid a cell names, if it reads as one.
pub open spec fn uid_of_spec(c: SheetCell) -> Option<u32> {
    match content_of(c) {
        Some(s) => base58_uid(s),
        None => None,
    }
}

/// The bricklet uid a cell names, if it reads as one.
pub fn uid_of(c: &SheetCell) -> (r: Option<u32>)
    ensures
        r == uid_of_spec(*c),
{
    match &c.content {
        Some(s) => parse_uid(s.as_str()),
        None => None,
    }
}

/// Whether all cells of a table can be addressed when written.
pub open spec fn table_writable(rows: Seq<Vec<SheetCell>>) -> bool {
    forall|r: int, c: int|
        0 <= r < rows.len() && 0 <= c < rows[r]@.len() ==> (#[trigger] rows[r]@[c]).coordinates.writable()
}

/// Whether every row of a table has `n` cells.
pub open spec fn table_width(rows: Seq<Vec<SheetCell>>, n: int) -> bool {
    forall|r: int| 0 <= r < rows.len() ==> (#[trigger] rows[r])@.len() == n
}

/// How a button template's buttons are built.
#[derive(Debug, Clone, Copy, PartialEq, Eq, Structural)]
pub enum ButtonStyle {
    Single,
    Dual,
}

/// A kind of button: its name, its style and the names of its keys.
#[derive(Debug, Clone)]
pub struct ButtonTemplate {
    pub name: String,
    pub style: ButtonStyle,
    pub sub_devices: Vec<String>,
}

/// The style a template discriminator names.
pub open spec fn button_style_spec(d: Seq<char>) -> Option<ButtonStyle> {
    if d == "Single"@ {
        Some(ButtonStyle::Single)
    } else if d == "Dual"@ {
        Some(ButtonStyle::Dual)
    } else {
        None
    }
}

/// What a template row `[name, sub devices, discriminator]` gives: its name,
/// style and key names (the sub devices split at commas).
pub open spec fn button_template_spec(row: Seq<SheetCell>) -> Option<(Seq<char>, ButtonStyle, Seq<Seq<char>>)> {
    match (content_of(row[0]), content_of(row[1]), content_of(row[2])) {
        (Some(name), Some(subs), Some(d)) => match button_style_spec(d) {
            Some(style) => Some((name, style, crate::names::split_spec(subs, ','))),
            None => None,
        },
        _ => None,
    }
}

/// The view of a template.
pub open spec fn template_view(t: ButtonTemplate) -> (Seq<char>, ButtonStyle, Seq<Seq<char>>) {
    (t.name@, t.style, t.sub_devices@.map_values(|s: String| s@))
}

/// The templates of the first `n` rows, in row order.
pub open spec fn button_templates_spec(rows: Seq<Vec<SheetCell>>, n: int) -> Seq<(Seq<char>, ButtonStyle, Seq<Seq<char>>)>
    decreases n,
{
    if n <= 0 {
        seq![]
    } else {
        match button_template_spec(rows[n - 1]@) {
            Some(t) => button_templates_spec(rows, n - 1).push(t),
            None => button_templates_spec(rows, n - 1),
        }
    }
}

fn button_style(d: &str) -> (r: Option<ButtonStyle>)
    ensures
        r == button_style_spec(d@),
{
    proof {
        reveal_strlit("Single");
        reveal_strlit("Dual");
    }
    if str_equals(d, "Single") {
        Some(ButtonStyle::Single)
    } else if str_equals(d, "Dual") {
        Some(ButtonStyle::Dual)
    } else {
        None
    }
}

/// Reads the button templates; a row with a missing cell or an unknown
/// discriminator is skipped.
pub fn parse_button_templates(rows: &Vec<Vec<SheetCell>>) -> (r: Vec<ButtonTemplate>)
    requires
        table_width(rows@, 3),
    ensures
        r@.map_values(|t: ButtonTemplate| template_view(t)) == button_templates_spec(
            rows@,
            rows@.len() as int,
        ),
{
    let mut r: Vec<ButtonTemplate> = Vec::new();
    let mut i: usize = 0;
    while i < rows.len()
        invariant
            i <= rows@.len(),
            table_width(rows@, 3),
            r@.map_values(|t: ButtonTemplate| template_view(t)) == button_templates_spec(
                rows@,
                i as int,
            ),
        decreases rows.len() - i,
    {
        let row = &rows[i];
        assert(row@.len() == 3);
        match (&row[0].content, &row[1].content, &row[2].content) {
            (Some(name), Some(subs), Some(d)) => {
                match button_style(d.as_str()) {
                    Some(style) => {
                        let ghost before = r@;
                        let sub_devices = crate::names::split_at_char(subs.as_str(), ',');
                        r.push(ButtonTemplate { name: string_of(name.as_str()), style, sub_devices });
                        proof {
                            assert(r@.map_values(|t: ButtonTemplate| template_view(t)) =~= before.map_values(
                                |t: ButtonTemplate| template_view(t),
                            ).push(template_view(r@[r@.len() - 1])));
                        }
                    },
                    None => {},
                }
            },
            _ => {},
        }
        i = i + 1;
    }
    r
}

/// The last of the first `n` templates with name `name`.
pub open spec fn last_template(ts: Seq<ButtonTemplate>, name: Seq<char>, n: int) -> Option<int>
    decreases n,
{
    if n <= 0 {
        None
    } else if ts[n - 1].name@ == name {
        Some(n - 1)
    } else {
        last_template(ts, name, n - 1)
    }
}

proof fn lemma_last_template_bound(ts: Seq<ButtonTemplate>, name: Seq<char>, n: int)
    requires
        n <= ts.len(),
    ensures
        last_template(ts, name, n) matches Some(i) ==> 0 <= i < n,
    decreases n,
{
    if n > 0 {
        lemma_last_template_bound(ts, name, n - 1);
    }
}

/// The template a name refers to: the last one of that name.
pub fn find_template(ts: &Vec<ButtonTemplate>, name: &str) -> (r: Option<usize>)
    ensures
        r matches Some(i) ==> i < ts@.len(),
        (match r {
            Some(i) => Some(i as int),
            None => None,
        }) == last_template(ts@, name@, ts@.len() as int),
{
    let mut i = ts.len();
    while i > 0
        invariant
            i <= ts@.len(),
            last_template(ts@, name@, ts@.len() as int) == last_template(ts@, name@, i as int),
        decreases i,
    {
        if str_equals(ts[i - 1].name.as_str(), name) {
            return Some(i - 1);
        }
        i = i - 1;
    }
    None
}

/// A button row that was taken: its room, template, id, bricklet and first
/// input channel.
#[derive(Debug, Clone)]
pub struct ButtonRow {
    pub room: Room,
    pub template: usize,
    pub button_id: String,
    pub device_address: u32,
    pub first_input_idx: u8,
}

/// What a button row `[room, id, number, type, address, first input, state]`
/// gives, if all its parts read.
pub open spec fn button_row_spec(ts: Seq<ButtonTemplate>, row: Seq<SheetCell>) -> Option<(Room, int, Seq<char>, u32, u8)> {
    match (
        room_of_spec(row[0]),
        content_of(row[1]),
        match content_of(row[3]) {
            Some(t) => last_template(ts, t, ts.len() as int),
            None => None,
        },
        uid_of_spec(row[4]),
        row[5].integer,
    ) {
        (Some(room), Some(id), Some(t), Some(uid), Some(first)) => Some((room, t, id, uid, first as u8)),
        _ => None,
    }
}

/// The input channel of the `k`-th key of a button starting at `first`
/// (channels count on past 255 from 0 again).
pub open spec fn input_channel(style: ButtonStyle, first: u8, k: int) -> u8 {
    (match style {
        ButtonStyle::Single => (first + k) % 256,
        ButtonStyle::Dual => (first + 2 * k) % 256,
    }) as u8
}

/// The `k`-th key of a device.
pub open spec fn sub_device(dev: DeviceInRoom, k: int) -> SubDeviceInRoom {
    SubDeviceInRoom { room: dev.room, device_idx: dev.idx, sub_device_idx: k as u16 }
}

/// The input settings of a numbered button: per key a single button on its
/// channel, or a dual button on its channel (down) and the next (up).
pub open spec fn button_settings_spec(style: ButtonStyle, keys: int, uid: u32, first: u8, dev: DeviceInRoom) -> Seq<(u32, ButtonSetting)> {
    Seq::new(
        keys as nat,
        |k: int|
            (
                uid,
                match style {
                    ButtonStyle::Single => ButtonSetting::Single {
                        button: input_channel(style, first, k),
                        output: SingleButtonKey::Button(sub_device(dev, k)),
                    },
                    ButtonStyle::Dual => ButtonSetting::Dual {
                        up_button: ((input_channel(style, first, k) + 1) % 256) as u8,
                        down_button: input_channel(style, first, k),
                        output: DualButtonKey(sub_device(dev, k)),
                    },
                },
            ),
    )
}

/// The name a key of a button is referred to by: `"{button id}, {key name}"`.
pub open spec fn key_name(id: Seq<char>, sub: Seq<char>) -> Seq<char> {
    id + ", "@ + sub
}

/// Output bindings of single-button keys.
pub open spec fn single_names_spec(style: ButtonStyle, id: Seq<char>, subs: Seq<Seq<char>>, dev: DeviceInRoom) -> Seq<(Seq<char>, SingleButtonKey)> {
    match style {
        ButtonStyle::Single => Seq::new(
            subs.len(),
            |k: int| (key_name(id, subs[k]), SingleButtonKey::Button(sub_device(dev, k))),
        ),
        ButtonStyle::Dual => seq![],
    }
}

/// Output bindings of dual-button keys.
pub open spec fn dual_names_spec(style: ButtonStyle, id: Seq<char>, subs: Seq<Seq<char>>, dev: DeviceInRoom) -> Seq<(Seq<char>, DualButtonKey)> {
    match style {
        ButtonStyle::Dual => Seq::new(
            subs.len(),
            |k: int| (key_name(id, subs[k]), DualButtonKey(sub_device(dev, k))),
        ),
        ButtonStyle::Single => seq![],
    }
}

/// The view of a name map's bindings.
pub open spec fn bindings<V>(m: Seq<(String, V)>) -> Seq<(Seq<char>, V)> {
    m.map_values(|e: (String, V)| (e.0@, e.1))
}

/// The text `"{id}, {sub}"`.
fn key_string(id: &str, sub: &str) -> (s: String)
    ensures
        s@ == key_name(id@, sub@),
{
    proof {
        reveal_strlit(", ");
    }
    let mut s = string_of(id);
    push_str(&mut s, ", ");
    push_str(&mut s, sub);
    s
}

/// Adds the input settings and key names of one numbered button.
#[verifier::rlimit(40)]
pub fn expand_button(
    t: &ButtonTemplate,
    button_id: &str,
    uid: u32,
    first: u8,
    dev: DeviceInRoom,
    io: &mut Vec<(u32, ButtonSetting)>,
    single_names: &mut NameMap<SingleButtonKey>,
    dual_names: &mut NameMap<DualButtonKey>,
)
    ensures
        final(io)@ == old(io)@ + button_settings_spec(t.style, t.sub_devices@.len() as int, uid, first, dev),
        bindings(final(single_names).entries@) == bindings(old(single_names).entries@)
            + single_names_spec(t.style, button_id@, t.sub_devices@.map_values(|s: String| s@), dev),
        bindings(final(dual_names).entries@) == bindings(old(dual_names).entries@)
            + dual_names_spec(t.style, button_id@, t.sub_devices@.map_values(|s: String| s@), dev),
{
    let ghost io0 = io@;
    let ghost s0 = bindings(single_names.entries@);
    let ghost d0 = bindings(dual_names.entries@);
    let ghost subs = t.sub_devices@.map_values(|s: String| s@);
    let ghost n = t.sub_devices@.len() as int;
    let mut current: u8 = first;
    let mut k: usize = 0;
    while k < t.sub_devices.len()
        invariant
            k <= t.sub_devices@.len(),
            n == t.sub_devices@.len(),
            subs == t.sub_devices@.map_values(|s: String| s@),
            current == input_channel(t.style, first, k as int),
            io@ == io0 + button_settings_spec(t.style, k as int, uid, first, dev),
            bindings(single_names.entries@) == s0 + single_names_spec(
                t.style,
                button_id@,
                subs.take(k as int),
                dev,
            ),
            bindings(dual_names.entries@) == d0 + dual_names_spec(
                t.style,
                button_id@,
                subs.take(k as int),
                dev,
            ),
        decreases t.sub_devices.len() - k,
    {
        let key = key_string(button_id, t.sub_devices[k].as_str());
        let sub = SubDeviceInRoom { room: dev.room, device_idx: dev.idx, sub_device_idx: k as u16 };
        let ghost io_before = io@;
        let ghost sn_before = single_names.entries@;
        let ghost dn_before = dual_names.entries@;
        match t.style {
            ButtonStyle::Single => {
                let output = SingleButtonKey::Button(sub);
                io.push((uid, ButtonSetting::Single { button: current, output }));
                let ghost key_view = key@;
                single_names.entries.push((key, output));
                proof {
                    assert(bindings(dual_names.entries@) == bindings(dn_before));
                    assert(bindings(single_names.entries@) =~= bindings(sn_before).push((key_view, output)));
                    assert(subs[k as int] == t.sub_devices@[k as int]@);
                    assert(single_names_spec(t.style, button_id@, subs.take(k + 1), dev) =~= single_names_spec(
                        t.style,
                        button_id@,
                        subs.take(k as int),
                        dev,
                    ).push((key_view, output)));
                    assert(dual_names_spec(t.style, button_id@, subs.take(k + 1), dev) =~= dual_names_spec(
                        t.style,
                        button_id@,
                        subs.take(k as int),
                        dev,
                    ));
                }
                current = current.wrapping_add(1);
            },
            ButtonStyle::Dual => {
                let output = DualButtonKey(sub);
                io.push(
                    (
                        uid,
                        ButtonSetting::Dual {
                            up_button: current.wrapping_add(1),
                            down_button: current,
                            output,
                        },
                    ),
                );
                let ghost key_view = key@;
                dual_names.entries.push((key, output));
                proof {
                    assert(bindings(single_names.entries@) == bindings(sn_before));
                    assert(bindings(dual_names.entries@) =~= bindings(dn_before).push((key_view, output)));
                    assert(subs[k as int] == t.sub_devices@[k as int]@);
                    assert(dual_names_spec(t.style, button_id@, subs.take(k + 1), dev) =~= dual_names_spec(
                        t.style,
                        button_id@,
                        subs.take(k as int),
                        dev,
                    ).push((key_view, output)));
                    assert(single_names_spec(t.style, button_id@, subs.take(k + 1), dev) =~= single_names_spec(
                        t.style,
                        button_id@,
                        subs.take(k as int),
                        dev,
                    ));
                }
                current = current.wrapping_add(2);
            },
        }
        proof {
            assert(io@ =~= io0 + button_settings_spec(t.style, k + 1, uid, first, dev));
            assert(subs.take(k + 1) =~= subs.take(k as int).push(subs[k as int]));
            assert(bindings(single_names.entries@) =~= s0 + single_names_spec(
                t.style,
                button_id@,
                subs.take(k + 1),
                dev,
            ));
            assert(bindings(dual_names.entries@) =~= d0 + dual_names_spec(
                t.style,
                button_id@,
                subs.take(k + 1),
                dev,
            ));
        }
        k = k + 1;
    }
    proof {
        assert(subs.take(n) =~= subs);
    }
}

/// A copy of a cell.
pub fn copy_cell(c: &SheetCell) -> (r: SheetCell)
    ensures
        r == *c,
{
    SheetCell {
        content: match &c.content {
            Some(s) => Some(s.clone()),
            None => None,
        },
        integer: c.integer,
        value: match &c.value {
            Some(CellValue::Text(t)) => Some(CellValue::Text(t.clone())),
            Some(CellValue::Integer(v)) => Some(CellValue::Integer(*v)),
            Some(CellValue::Boolean(b)) => Some(CellValue::Boolean(*b)),
            Some(CellValue::Fraction) => Some(CellValue::Fraction),
            None => None,
        },
        coordinates: c.coordinates,
    }
}

/// What the sheet reader has collected so far.
#[derive(Debug, Clone)]
pub struct WireBuilder {
    pub io_entries: Vec<(u32, ButtonSetting)>,
    pub dmx_entries: Vec<(u32, DmxConfigEntry)>,
    pub lcd_screens: Vec<(u32, ScreenSettings)>,
    pub temperature_sensors: Vec<(u32, TemperatureSettings)>,
    pub motion_detector_sensors: Vec<(u32, MotionDetectorSettings)>,
    pub relay_entries: Vec<(u32, RelayChannelEntry)>,
    pub dual_input_dimmers: Vec<DualInputDimmer>,
    pub dual_input_switches: Vec<DualInputSwitch>,
    pub motion_detectors: Vec<MotionDetector>,
    pub heat_controllers: Vec<HeatController>,
    pub ring_controllers: Vec<RingController>,
    pub single_button_adresses: NameMap<SingleButtonKey>,
    pub dual_button_adresses: NameMap<DualButtonKey>,
    pub heat_outputs_addresses: NameMap<SwitchOutputKey>,
    pub touchscreen_whitebalance_addresses: NameMap<LightColorKey>,
    pub touchscreen_brightness_addresses: NameMap<BrightnessKey>,
    pub motion_detector_adresses: NameMap<SingleButtonKey>,
    /// Cells to write.
    pub updates: Vec<CellUpdate>,
    /// Cells that show the state of a bricklet, with its uid.
    pub state_cells: Vec<(u32, SheetCell)>,
}

/// The view of a cell write.
pub open spec fn update_view(u: CellUpdate) -> (Seq<char>, CellValue) {
    (u.range@, u.value)
}

/// The writes of the numbers given anew, for the first `n` entries of a
/// numbering of rows whose number cells are `cells`.
pub open spec fn idx_updates_spec(
    sheet: Seq<char>,
    cells: Seq<SheetCell>,
    nb: Seq<(usize, DeviceInRoom, bool)>,
    n: int,
) -> Seq<(Seq<char>, CellValue)>
    decreases n,
{
    if n <= 0 {
        seq![]
    } else if nb[n - 1].2 {
        idx_updates_spec(sheet, cells, nb, n - 1).push(
            (
                crate::sheet::range_text(sheet, cells[nb[n - 1].0 as int].coordinates),
                CellValue::Integer(nb[n - 1].1.idx as i64),
            ),
        )
    } else {
        idx_updates_spec(sheet, cells, nb, n - 1)
    }
}

/// Appends the write of entry `e`'s number when it was given anew.
pub(crate) fn push_idx_update(
    sheet: &str,
    cells: &Vec<SheetCell>,
    e: (usize, DeviceInRoom, bool),
    updates: &mut Vec<CellUpdate>,
)
    requires
        e.0 < cells@.len(),
        cells@[e.0 as int].coordinates.writable(),
    ensures
        final(updates)@.map_values(|u: CellUpdate| update_view(u)) == (if e.2 {
            old(updates)@.map_values(|u: CellUpdate| update_view(u)).push(
                (
                    crate::sheet::range_text(sheet@, cells@[e.0 as int].coordinates),
                    CellValue::Integer(e.1.idx as i64),
                ),
            )
        } else {
            old(updates)@.map_values(|u: CellUpdate| update_view(u))
        }),
{
    if e.2 {
        let u = override_cell(sheet, cells[e.0].coordinates, CellValue::Integer(e.1.idx as i64));
        let ghost before = updates@;
        updates.push(u);
        proof {
            assert(updates@.map_values(|u: CellUpdate| update_view(u)) =~= before.map_values(
                |u: CellUpdate| update_view(u),
            ).push(update_view(u)));
        }
    }
}

/// The button rows taken from the first `n` rows: room, template, id, uid,
/// first input, number cell and state cell.
pub open spec fn button_rows_spec(ts: Seq<ButtonTemplate>, rows: Seq<Vec<SheetCell>>, n: int) -> Seq<(Room, int, Seq<char>, u32, u8, SheetCell, SheetCell)>
    decreases n,
{
    if n <= 0 {
        seq![]
    } else {
        let row = rows[n - 1]@;
        match button_row_spec(ts, row) {
            Some((room, t, id, uid, first)) => button_rows_spec(ts, rows, n - 1).push(
                (room, t, id, uid, first, row[2], row[6]),
            ),
            None => button_rows_spec(ts, rows, n - 1),
        }
    }
}

/// The input settings of the first `n` numbered buttons.
pub open spec fn buttons_io_spec(
    ts: Seq<ButtonTemplate>,
    cands: Seq<(Room, int, Seq<char>, u32, u8, SheetCell, SheetCell)>,
    nb: Seq<(usize, DeviceInRoom, bool)>,
    n: int,
) -> Seq<(u32, ButtonSetting)>
    decreases n,
{
    if n <= 0 {
        seq![]
    } else {
        let c = cands[nb[n - 1].0 as int];
        let t = ts[c.1];
        buttons_io_spec(ts, cands, nb, n - 1) + button_settings_spec(
            t.style,
            t.sub_devices@.len() as int,
            c.3,
            c.4,
            nb[n - 1].1,
        )
    }
}

/// The single-button key names of the first `n` numbered buttons.
pub open spec fn buttons_single_spec(
    ts: Seq<ButtonTemplate>,
    cands: Seq<(Room, int, Seq<char>, u32, u8, SheetCell, SheetCell)>,
    nb: Seq<(usize, DeviceInRoom, bool)>,
    n: int,
) -> Seq<(Seq<char>, SingleButtonKey)>
    decreases n,
{
    if n <= 0 {
        seq![]
    } else {
        let c = cands[nb[n - 1].0 as int];
        let t = ts[c.1];
        buttons_single_spec(ts, cands, nb, n - 1) + single_names_spec(
            t.style,
            c.2,
            t.sub_devices@.map_values(|s: String| s@),
            nb[n - 1].1,
        )
    }
}

/// The dual-button key names of the first `n` numbered buttons.
pub open spec fn buttons_dual_spec(
    ts: Seq<ButtonTemplate>,
    cands: Seq<(Room, int, Seq<char>, u32, u8, SheetCell, SheetCell)>,
    nb: Seq<(usize, DeviceInRoom, bool)>,
    n: int,
) -> Seq<(Seq<char>, DualButtonKey)>
    decreases n,
{
    if n <= 0 {
        seq![]
    } else {
        let c = cands[nb[n - 1].0 as int];
        let t = ts[c.1];
        buttons_dual_spec(ts, cands, nb, n - 1) + dual_names_spec(
            t.style,
            c.2,
            t.sub_devices@.map_values(|s: String| s@),
            nb[n - 1].1,
        )
    }
}

/// Whether a kept button row, its room and its number cell match a taken row.
pub open spec fn button_row_matches(
    b: ButtonRow,
    room: Room,
    cell: SheetCell,
    c: (Room, int, Seq<char>, u32, u8, SheetCell, SheetCell),
    nts: int,
) -> bool {
    &&& b.room == c.0
    &&& b.template == c.1
    &&& b.button_id@ == c.2
    &&& b.device_address == c.3
    &&& b.first_input_idx == c.4
    &&& room == c.0
    &&& cell == c.5
    &&& 0 <= c.1 < nts
    &&& c.5.coordinates.writable()
}

/// The state cells of the taken rows, with the uids they show.
pub open spec fn state_cells_of<A, B, C, D, E>(cands: Seq<(A, B, C, u32, D, E, SheetCell)>) -> Seq<(u32, SheetCell)> {
    cands.map_values(|c: (A, B, C, u32, D, E, SheetCell)| (c.3, c.6))
}

impl WireBuilder {
    /// Nothing collected.
    pub fn new() -> (b: Self)
        ensures
            b.io_entries@.len() == 0,
            b.dmx_entries@.len() == 0,
            b.lcd_screens@.len() == 0,
            b.temperature_sensors@.len() == 0,
            b.motion_detector_sensors@.len() == 0,
            b.relay_entries@.len() == 0,
            b.dual_input_dimmers@.len() == 0,
            b.dual_input_switches@.len() == 0,
            b.motion_detectors@.len() == 0,
            b.heat_controllers@.len() == 0,
            b.ring_controllers@.len() == 0,
            b.single_button_adresses.entries@.len() == 0,
            b.dual_button_adresses.entries@.len() == 0,
            b.heat_outputs_addresses.entries@.len() == 0,
            b.touchscreen_whitebalance_addresses.entries@.len() == 0,
            b.touchscreen_brightness_addresses.entries@.len() == 0,
            b.motion_detector_adresses.entries@.len() == 0,
            b.updates@.len() == 0,
            b.state_cells@.len() == 0,
    {
        WireBuilder {
            io_entries: Vec::new(),
            dmx_entries: Vec::new(),
            lcd_screens: Vec::new(),
            temperature_sensors: Vec::new(),
            motion_detector_sensors: Vec::new(),
            relay_entries: Vec::new(),
            dual_input_dimmers: Vec::new(),
            dual_input_switches: Vec::new(),
            motion_detectors: Vec::new(),
            heat_controllers: Vec::new(),
            ring_controllers: Vec::new(),
            single_button_adresses: NameMap { entries: Vec::new() },
            dual_button_adresses: NameMap { entries: Vec::new() },
            heat_outputs_addresses: NameMap { entries: Vec::new() },
            touchscreen_whitebalance_addresses: NameMap { entries: Vec::new() },
            touchscreen_brightness_addresses: NameMap { entries: Vec::new() },
            motion_detector_adresses: NameMap { entries: Vec::new() },
            updates: Vec::new(),
            state_cells: Vec::new(),
        }
    }

    /// Reads the buttons table (`[room, id, number, type, address, first
    /// input, state]`): numbers the buttons within their rooms and adds their
    /// input settings and key names. Returns the numbering of the taken rows.
    pub fn parse_buttons(
        &mut self,
        sheet: &str,
        templates: &Vec<ButtonTemplate>,
        rows: &Vec<Vec<SheetCell>>,
    ) -> (nb: Vec<(usize, DeviceInRoom, bool)>)
        requires
            table_width(rows@, 7),
            table_writable(rows@),
            rooms_fit(
                button_rows_spec(templates@, rows@, rows@.len() as int).map_values(
                    |c: (Room, int, Seq<char>, u32, u8, SheetCell, SheetCell)| c.0,
                ),
            ),
        ensures
            ({
                let cands = button_rows_spec(templates@, rows@, rows@.len() as int);
                let rooms = cands.map_values(|c: (Room, int, Seq<char>, u32, u8, SheetCell, SheetCell)| c.0);
                let cells = cands.map_values(|c: (Room, int, Seq<char>, u32, u8, SheetCell, SheetCell)| c.5);
                &&& room_numbering_ok(rooms, cells, nb@)
                &&& forall|row: int| 0 <= row < cands.len() ==> #[trigger] crate::device_idx::numbered(nb@, row)
                &&& final(self).state_cells@ == old(self).state_cells@ + state_cells_of(cands)
                &&& final(self).io_entries@ == old(self).io_entries@ + buttons_io_spec(templates@, cands, nb@, nb@.len() as int)
                &&& bindings(final(self).single_button_adresses.entries@) == bindings(old(self).single_button_adresses.entries@)
                    + buttons_single_spec(templates@, cands, nb@, nb@.len() as int)
                &&& bindings(final(self).dual_button_adresses.entries@) == bindings(old(self).dual_button_adresses.entries@)
                    + buttons_dual_spec(templates@, cands, nb@, nb@.len() as int)
                &&& final(self).updates@.map_values(|u: CellUpdate| update_view(u)) == old(self).updates@.map_values(
                    |u: CellUpdate| update_view(u),
                ) + idx_updates_spec(sheet@, cells, nb@, nb@.len() as int)
            }),
            final(self).dmx_entries == old(self).dmx_entries,
            final(self).lcd_screens == old(self).lcd_screens,
            final(self).temperature_sensors == old(self).temperature_sensors,
            final(self).motion_detector_sensors == old(self).motion_detector_sensors,
            final(self).relay_entries == old(self).relay_entries,
            final(self).dual_input_dimmers == old(self).dual_input_dimmers,
            final(self).dual_input_switches == old(self).dual_input_switches,
            final(self).motion_detectors == old(self).motion_detectors,
            final(self).heat_controllers == old(self).heat_controllers,
            final(self).ring_controllers == old(self).ring_controllers,
            final(self).heat_outputs_addresses == old(self).heat_outputs_addresses,
            final(self).touchscreen_whitebalance_addresses == old(self).touchscreen_whitebalance_addresses,
            final(self).touchscreen_brightness_addresses == old(self).touchscreen_brightness_addresses,
            final(self).motion_detector_adresses == old(self).motion_detector_adresses,
    {
        let ghost cands_spec = button_rows_spec(templates@, rows@, rows@.len() as int);
        let mut cands: Vec<ButtonRow> = Vec::new();
        let mut rooms: Vec<Room> = Vec::new();
        let mut cells: Vec<SheetCell> = Vec::new();
        let ghost state0 = self.state_cells@;
        let mut i: usize = 0;
        while i < rows.len()
            invariant
                i <= rows@.len(),
                table_width(rows@, 7),
                table_writable(rows@),
                cands@.len() == rooms@.len() == cells@.len(),
                cands@.len() <= i,
                forall|k: int| 0 <= k < cands@.len() ==> button_row_matches(
                    #[trigger] cands@[k],
                    rooms@[k],
                    cells@[k],
                    button_rows_spec(templates@, rows@, i as int)[k],
                    templates@.len() as int,
                ),
                button_rows_spec(templates@, rows@, i as int).len() == cands@.len(),
                self.state_cells@ == state0 + state_cells_of(button_rows_spec(templates@, rows@, i as int)),
                self.io_entries == old(self).io_entries,
                self.dmx_entries == old(self).dmx_entries,
                self.lcd_screens == old(self).lcd_screens,
                self.temperature_sensors == old(self).temperature_sensors,
                self.motion_detector_sensors == old(self).motion_detector_sensors,
                self.relay_entries == old(self).relay_entries,
                self.dual_input_dimmers == old(self).dual_input_dimmers,
                self.dual_input_switches == old(self).dual_input_switches,
                self.motion_detectors == old(self).motion_detectors,
                self.heat_controllers == old(self).heat_controllers,
                self.ring_controllers == old(self).ring_controllers,
                self.single_button_adresses == old(self).single_button_adresses,
                self.dual_button_adresses == old(self).dual_button_adresses,
                self.heat_outputs_addresses == old(self).heat_outputs_addresses,
                self.touchscreen_whitebalance_addresses == old(self).touchscreen_whitebalance_addresses,
                self.touchscreen_brightness_addresses == old(self).touchscreen_brightness_addresses,
                self.motion_detector_adresses == old(self).motion_detector_adresses,
                self.updates == old(self).updates,
            decreases rows.len() - i,
        {
            let row = &rows[i];
            assert(row@.len() == 7);
            let room = room_of(&row[0]);
            let template = match &row[3].content {
                Some(t) => find_template(templates, t.as_str()),
                None => None,
            };
            let uid = uid_of(&row[4]);
            proof {
                lemma_last_template_bound(templates@, content_of(row@[3])->0, templates@.len() as int);
                assert(table_writable(rows@));
                assert(rows@[i as int]@[2].coordinates.writable());
            }
            match (room, &row[1].content, template, uid, row[5].integer) {
                (Some(room), Some(id), Some(t), Some(uid), Some(first)) => {
                    let ghost sc_before = self.state_cells@;
                    let ghost (c_before, r_before, cl_before) = (cands@, rooms@, cells@);
                    cands.push(
                        ButtonRow {
                            room,
                            template: t,
                            button_id: string_of(id.as_str()),
                            device_address: uid,
                            first_input_idx: first as u8,
                        },
                    );
                    rooms.push(room);
                    cells.push(copy_cell(&row[2]));
                    self.state_cells.push((uid, copy_cell(&row[6])));
                    proof {
                        assert(self.state_cells@ =~= state0 + state_cells_of(
                            button_rows_spec(templates@, rows@, i + 1),
                        ));
                        let prev = button_rows_spec(templates@, rows@, i as int);
                        let next = button_rows_spec(templates@, rows@, i + 1);
                        assert(next.len() == prev.len() + 1);
                        assert forall|k: int| 0 <= k < cands@.len() implies button_row_matches(
                            #[trigger] cands@[k],
                            rooms@[k],
                            cells@[k],
                            next[k],
                            templates@.len() as int,
                        ) by {
                            if k < prev.len() {
                                assert(next[k] == prev[k]);
                                assert(cands@[k] == c_before[k]);
                                assert(rooms@[k] == r_before[k]);
                                assert(cells@[k] == cl_before[k]);
                            }
                        }
                    }
                },
                _ => {},
            }
            i = i + 1;
        }
        proof {
            assert forall|q: int| 0 <= q < rooms@.len() implies rooms@[q] == cands_spec[q].0 && cells@[q] == cands_spec[q].5 by {
                assert(button_row_matches(cands@[q], rooms@[q], cells@[q], cands_spec[q], templates@.len() as int));
            }
            assert(rooms@ =~= cands_spec.map_values(|c: (Room, int, Seq<char>, u32, u8, SheetCell, SheetCell)| c.0));
            assert(cells@ =~= cands_spec.map_values(|c: (Room, int, Seq<char>, u32, u8, SheetCell, SheetCell)| c.5));
        }
        let nb = fill_device_idx(&rooms, &cells);
        let ghost io0 = self.io_entries@;
        let ghost sn0 = bindings(self.single_button_adresses.entries@);
        let ghost dn0 = bindings(self.dual_button_adresses.entries@);
        let ghost up0 = self.updates@.map_values(|u: CellUpdate| update_view(u));
        let ghost sc1 = self.state_cells@;
        let mut k: usize = 0;
        while k < nb.len()
            invariant
                k <= nb@.len(),
                room_numbering_ok(rooms@, cells@, nb@),
                rooms@.len() == cells@.len() == cands@.len() == cands_spec.len(),
                forall|q: int| 0 <= q < cands@.len() ==> button_row_matches(
                    #[trigger] cands@[q],
                    rooms@[q],
                    cells@[q],
                    cands_spec[q],
                    templates@.len() as int,
                ),
                self.io_entries@ == io0 + buttons_io_spec(templates@, cands_spec, nb@, k as int),
                bindings(self.single_button_adresses.entries@) == sn0 + buttons_single_spec(templates@, cands_spec, nb@, k as int),
                bindings(self.dual_button_adresses.entries@) == dn0 + buttons_dual_spec(templates@, cands_spec, nb@, k as int),
                self.updates@.map_values(|u: CellUpdate| update_view(u)) == up0 + idx_updates_spec(sheet@, cells@, nb@, k as int),
                self.state_cells@ == sc1,
                self.dmx_entries == old(self).dmx_entries,
                self.lcd_screens == old(self).lcd_screens,
                self.temperature_sensors == old(self).temperature_sensors,
                self.motion_detector_sensors == old(self).motion_detector_sensors,
                self.relay_entries == old(self).relay_entries,
                self.dual_input_dimmers == old(self).dual_input_dimmers,
                self.dual_input_switches == old(self).dual_input_switches,
                self.motion_detectors == old(self).motion_detectors,
                self.heat_controllers == old(self).heat_controllers,
                self.ring_controllers == old(self).ring_controllers,
                self.heat_outputs_addresses == old(self).heat_outputs_addresses,
                self.touchscreen_whitebalance_addresses == old(self).touchscreen_whitebalance_addresses,
                self.touchscreen_brightness_addresses == old(self).touchscreen_brightness_addresses,
                self.motion_detector_adresses == old(self).motion_detector_adresses,
            decreases nb.len() - k,
        {
            let e = nb[k];
            let c = &cands[e.0];
            let t = &templates[c.template];
            expand_button(
                t,
                c.button_id.as_str(),
                c.device_address,
                c.first_input_idx,
                e.1,
                &mut self.io_entries,
                &mut self.single_button_adresses,
                &mut self.dual_button_adresses,
            );
            push_idx_update(sheet, &cells, e, &mut self.updates);
            proof {
                assert(self.io_entries@ =~= io0 + buttons_io_spec(templates@, cands_spec, nb@, k + 1));
                assert(bindings(self.single_button_adresses.entries@) =~= sn0 + buttons_single_spec(templates@, cands_spec, nb@, k + 1));
                assert(bindings(self.dual_button_adresses.entries@) =~= dn0 + buttons_dual_spec(templates@, cands_spec, nb@, k + 1));
                assert(self.updates@.map_values(|u: CellUpdate| update_view(u)) =~= up0 + idx_updates_spec(sheet@, cells@, nb@, k + 1));
            }
            k = k + 1;
        }
        nb
    }
}

} // verus!
