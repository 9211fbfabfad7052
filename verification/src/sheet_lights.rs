//! Reading the light tables of the sheet: light templates, and per light its
//! DMX channels and the controller that drives it from buttons or motion
//! detectors.
use vstd::prelude::*;
use crate::device_idx::{fill_device_idx, numbered, room_numbering_ok, rooms_fit};
use crate::names::NameMap;
use crate::registry::{BrightnessKey, DualButtonKey, LightColorKey, SingleButtonKey, SwitchOutputKey};
use crate::room::{DeviceInRoom, Room};
use crate::sheet::{CellUpdate, SheetCell};
use crate::sheet_devices::lookup_view;
use crate::sheet_reader::{
    bindings, content_of, copy_cell, idx_updates_spec, push_idx_update, room_of, room_of_spec,
    table_width, table_writable, uid_of, uid_of_spec, update_view, WireBuilder,
};
use crate::shelly::common::str_equals;
use crate::sorting::{sort_keys, sorted_keys};
use crate::text::string_of;
use crate::wiring::{DmxConfigEntry, DualInputDimmer, DualInputSwitch, MotionDetector};

verus! {

/// What a light template makes of a light.
#[derive(Debug, Clone, Copy, PartialEq, Eq, Structural)]
pub enum LightTemplateKind {
    Switch,
    Dimm,
    DimmWhitebalance { warm_temperature: u16, cold_temperature: u16 },
}

/// A named light template.
#[derive(Debug, Clone)]
pub struct LightTemplate {
    pub name: String,
    pub kind: LightTemplateKind,
}

/// A colour temperature in kelvin as mireds, narrowed to 16 bits.
pub open spec fn mireds(kelvin: u16) -> u16 {
    ((1000000int / (kelvin as int)) % 65536) as u16
}

/// What a template row `[name, discriminator, warm kelvin, cold kelvin]` gives.
pub open spec fn light_template_spec(row: Seq<SheetCell>) -> Option<(Seq<char>, LightTemplateKind)> {
    match (content_of(row[0]), content_of(row[1])) {
        (Some(name), Some(d)) => if d == "Switch"@ {
            Some((name, LightTemplateKind::Switch))
        } else if d == "Dimm"@ {
            Some((name, LightTemplateKind::Dimm))
        } else if d == "DimmWhitebalance"@ {
            match (row[2].integer, row[3].integer) {
                (Some(w), Some(c)) => Some(
                    (
                        name,
                        LightTemplateKind::DimmWhitebalance {
                            warm_temperature: mireds(w as u16),
                            cold_temperature: mireds(c as u16),
                        },
                    ),
                ),
                _ => None,
            }
        } else {
            None
        },
        _ => None,
    }
}

/// Whether a template row can be read without a division by zero: a
/// whitebalance template's temperatures are not zero (as 16-bit numbers).
pub open spec fn light_template_readable(row: Seq<SheetCell>) -> bool {
    (content_of(row[1]) == Some("DimmWhitebalance"@) && row[2].integer is Some && row[3].integer is Some)
        ==> (row[2].integer->0 as u16) != 0 && (row[3].integer->0 as u16) != 0
}

/// The templates of the first `n` rows, in row order.
pub open spec fn light_templates_spec(rows: Seq<Vec<SheetCell>>, n: int) -> Seq<(Seq<char>, LightTemplateKind)>
    decreases n,
{
    if n <= 0 {
        seq![]
    } else {
        match light_template_spec(rows[n - 1]@) {
            Some(t) => light_templates_spec(rows, n - 1).push(t),
            None => light_templates_spec(rows, n - 1),
        }
    }
}

/// Reads the light templates; rows that do not read are skipped.
pub fn parse_light_templates(rows: &Vec<Vec<SheetCell>>) -> (r: Vec<LightTemplate>)
    requires
        table_width(rows@, 4),
        forall|i: int| 0 <= i < rows@.len() ==> light_template_readable(#[trigger] rows@[i]@),
    ensures
        r@.map_values(|t: LightTemplate| (t.name@, t.kind)) == light_templates_spec(rows@, rows@.len() as int),
{
    let mut r: Vec<LightTemplate> = Vec::new();
    let mut i: usize = 0;
    while i < rows.len()
        invariant
            i <= rows@.len(),
            table_width(rows@, 4),
            forall|k: int| 0 <= k < rows@.len() ==> light_template_readable(#[trigger] rows@[k]@),
            r@.map_values(|t: LightTemplate| (t.name@, t.kind)) == light_templates_spec(rows@, i as int),
        decreases rows.len() - i,
    {
        let row = &rows[i];
        assert(row@.len() == 4);
        assert(light_template_readable(rows@[i as int]@));
        proof {
            reveal_strlit("Switch");
            reveal_strlit("Dimm");
            reveal_strlit("DimmWhitebalance");
        }
        let kind = match (&row[0].content, &row[1].content) {
            (Some(_), Some(d)) => if str_equals(d.as_str(), "Switch") {
                Some(LightTemplateKind::Switch)
            } else if str_equals(d.as_str(), "Dimm") {
                Some(LightTemplateKind::Dimm)
            } else if str_equals(d.as_str(), "DimmWhitebalance") {
                match (row[2].integer, row[3].integer) {
                    (Some(w), Some(c)) => Some(
                        LightTemplateKind::DimmWhitebalance {
                            warm_temperature: crate::kelvin_2_mireds(w as u16),
                            cold_temperature: crate::kelvin_2_mireds(c as u16),
                        },
                    ),
                    _ => None,
                }
            } else {
                None
            },
            _ => None,
        };
        match (kind, &row[0].content) {
            (Some(kind), Some(name)) => {
                let ghost before = r@;
                r.push(LightTemplate { name: string_of(name.as_str()), kind });
                proof {
                    assert(r@.map_values(|t: LightTemplate| (t.name@, t.kind)) =~= before.map_values(
                        |t: LightTemplate| (t.name@, t.kind),
                    ).push((name@, kind)));
                }
            },
            _ => {},
        }
        i = i + 1;
    }
    r
}

/// The last of the first `n` templates named `name`.
pub open spec fn last_light_template(ts: Seq<LightTemplate>, name: Seq<char>, n: int) -> Option<int>
    decreases n,
{
    if n <= 0 {
        None
    } else if ts[n - 1].name@ == name {
        Some(n - 1)
    } else {
        last_light_template(ts, name, n - 1)
    }
}

fn find_light_template(ts: &Vec<LightTemplate>, name: &str) -> (r: Option<usize>)
    ensures
        r matches Some(i) ==> i < ts@.len(),
        (match r {
            Some(i) => Some(i as int),
            None => None,
        }) == last_light_template(ts@, name@, ts@.len() as int),
{
    let mut i = ts.len();
    while i > 0
        invariant
            i <= ts@.len(),
            last_light_template(ts@, name@, ts@.len() as int) == last_light_template(ts@, name@, i as int),
        decreases i,
    {
        if str_equals(ts[i - 1].name.as_str(), name) {
            return Some(i - 1);
        }
        i = i - 1;
    }
    None
}

/// A row of the light table: its fixed cells `[room, number, template,
/// address, first channel, colour control, brightness control, state]`, its
/// button cells and its presence detector cells.
#[derive(Debug, Clone)]
pub struct LightTableRow {
    pub fixed: Vec<SheetCell>,
    pub buttons: Vec<SheetCell>,
    pub presence: Vec<SheetCell>,
}

/// The texts of the cells that show something.
pub open spec fn shown_names(cells: Seq<SheetCell>, n: int) -> Seq<Seq<char>>
    decreases n,
{
    if n <= 0 {
        seq![]
    } else {
        match content_of(cells[n - 1]) {
            Some(s) => if s.len() > 0 {
                shown_names(cells, n - 1).push(s)
            } else {
                shown_names(cells, n - 1)
            },
            None => shown_names(cells, n - 1),
        }
    }
}

fn collect_names(cells: &Vec<SheetCell>) -> (r: Vec<String>)
    ensures
        r@.map_values(|s: String| s@) == shown_names(cells@, cells@.len() as int),
{
    let mut r: Vec<String> = Vec::new();
    let mut i: usize = 0;
    while i < cells.len()
        invariant
            i <= cells@.len(),
            r@.map_values(|s: String| s@) == shown_names(cells@, i as int),
        decreases cells.len() - i,
    {
        match &cells[i].content {
            Some(s) => {
                if s.unicode_len() > 0 {
                    let ghost before = r@;
                    r.push(string_of(s.as_str()));
                    proof {
                        assert(r@.map_values(|s: String| s@) =~= before.map_values(|s: String| s@).push(s@));
                    }
                }
            },
            None => {},
        }
        i = i + 1;
    }
    r
}

/// A taken light row.
pub struct LightRow {
    pub room: Room,
    pub template: int,
    pub uid: u32,
    pub start: u16,
    pub buttons: Seq<Seq<char>>,
    pub presence: Seq<Seq<char>>,
    pub whitebalance: Option<Seq<char>>,
    pub brightness: Option<Seq<char>>,
    pub idx_cell: SheetCell,
    pub state_cell: SheetCell,
}

/// What a light row gives, if room, template, address and first channel read.
pub open spec fn light_row_spec(ts: Seq<LightTemplate>, row: LightTableRow) -> Option<LightRow> {
    let f = row.fixed@;
    match (
        room_of_spec(f[0]),
        match content_of(f[2]) {
            Some(t) => last_light_template(ts, t, ts.len() as int),
            None => None,
        },
        uid_of_spec(f[3]),
        f[4].integer,
    ) {
        (Some(room), Some(t), Some(uid), Some(start)) => Some(
            LightRow {
                room,
                template: t,
                uid,
                start: start as u16,
                buttons: shown_names(row.buttons@, row.buttons@.len() as int),
                presence: shown_names(row.presence@, row.presence@.len() as int),
                whitebalance: content_of(f[5]),
                brightness: content_of(f[6]),
                idx_cell: f[1],
                state_cell: f[7],
            },
        ),
        _ => None,
    }
}

/// The light rows taken from the first `n` rows.
pub open spec fn light_rows_spec(ts: Seq<LightTemplate>, rows: Seq<LightTableRow>, n: int) -> Seq<LightRow>
    decreases n,
{
    if n <= 0 {
        seq![]
    } else {
        match light_row_spec(ts, rows[n - 1]) {
            Some(l) => light_rows_spec(ts, rows, n - 1).push(l),
            None => light_rows_spec(ts, rows, n - 1),
        }
    }
}

/// The registers the first `n` names stand for, skipping unknown names.
pub open spec fn lookup_all<V>(b: Seq<(Seq<char>, V)>, names: Seq<Seq<char>>, n: int) -> Seq<V>
    decreases n,
{
    if n <= 0 {
        seq![]
    } else {
        match lookup_view(b, names[n - 1], b.len() as int) {
            Some(v) => lookup_all(b, names, n - 1).push(v),
            None => lookup_all(b, names, n - 1),
        }
    }
}

/// Milliseconds after which a light switches itself off: two minutes with no
/// buttons, two hours with buttons and no presence detectors, one hour with both.
pub open spec fn auto_off_millis(manual_empty: bool, presence_empty: bool) -> u64 {
    if manual_empty {
        120000
    } else if presence_empty {
        7200000
    } else {
        3600000
    }
}

/// The view of a motion-driven light.
pub enum MotionDetectorView {
    Switch { input: Seq<SingleButtonKey>, output: SwitchOutputKey, switch_off_time: u64 },
    Dimmer {
        input: Seq<SingleButtonKey>,
        output: BrightnessKey,
        brightness: Option<BrightnessKey>,
        switch_off_time: u64,
    },
}

pub open spec fn motion_view(m: MotionDetector) -> MotionDetectorView {
    match m {
        MotionDetector::Switch { input, output, switch_off_time } => MotionDetectorView::Switch {
            input: input@,
            output,
            switch_off_time,
        },
        MotionDetector::Dimmer { input, output, brightness, switch_off_time } => MotionDetectorView::Dimmer {
            input: input@,
            output,
            brightness,
            switch_off_time,
        },
    }
}

pub open spec fn switch_view(s: DualInputSwitch) -> (Seq<DualButtonKey>, SwitchOutputKey, u64, Seq<SingleButtonKey>) {
    (s.input@, s.output, s.auto_switch_off_time, s.presence@)
}

pub open spec fn dimmer_view(d: DualInputDimmer) -> (Seq<DualButtonKey>, BrightnessKey, u64, Seq<SingleButtonKey>) {
    (d.input@, d.output, d.auto_switch_off_time, d.presence@)
}

/// The names the light reader looks up.
pub struct LightNames {
    pub dual_buttons: Seq<(Seq<char>, DualButtonKey)>,
    pub motion: Seq<(Seq<char>, SingleButtonKey)>,
    pub whitebalance: Seq<(Seq<char>, LightColorKey)>,
    pub brightness: Seq<(Seq<char>, BrightnessKey)>,
}

/// What the first `n` numbered lights add.
pub struct LightOutputs {
    pub dmx: Seq<(u32, DmxConfigEntry)>,
    pub motion_detectors: Seq<MotionDetectorView>,
    pub switches: Seq<(Seq<DualButtonKey>, SwitchOutputKey, u64, Seq<SingleButtonKey>)>,
    pub dimmers: Seq<(Seq<DualButtonKey>, BrightnessKey, u64, Seq<SingleButtonKey>)>,
}

/// The brightness register a light's brightness control names, if known.
pub open spec fn named_brightness(names: LightNames, l: LightRow) -> Option<BrightnessKey> {
    match l.brightness {
        Some(k) => lookup_view(names.brightness, k, names.brightness.len() as int),
        None => None,
    }
}

/// What the first `n` numbered lights add: per light its DMX entry, and
/// either a button controller (with buttons) or a motion controller (with
/// only presence detectors).
pub open spec fn light_outputs_spec(
    ts: Seq<LightTemplate>,
    names: LightNames,
    ls: Seq<LightRow>,
    nb: Seq<(usize, DeviceInRoom, bool)>,
    n: int,
) -> LightOutputs
    decreases n,
{
    if n <= 0 {
        LightOutputs { dmx: seq![], motion_detectors: seq![], switches: seq![], dimmers: seq![] }
    } else {
        let prev = light_outputs_spec(ts, names, ls, nb, n - 1);
        let l = ls[nb[n - 1].0 as int];
        let dev = nb[n - 1].1;
        let manual = sorted_keys(lookup_all(names.dual_buttons, l.buttons, l.buttons.len() as int));
        let presence = sorted_keys(lookup_all(names.motion, l.presence, l.presence.len() as int));
        let time = auto_off_millis(manual.len() == 0, presence.len() == 0);
        match ts[l.template].kind {
            LightTemplateKind::Switch => {
                let register = SwitchOutputKey::Light(dev);
                LightOutputs {
                    dmx: prev.dmx.push((l.uid, DmxConfigEntry::Switch { register, channel: l.start })),
                    motion_detectors: if manual.len() == 0 && presence.len() > 0 {
                        prev.motion_detectors.push(
                            MotionDetectorView::Switch { input: presence, output: register, switch_off_time: time },
                        )
                    } else {
                        prev.motion_detectors
                    },
                    switches: if manual.len() > 0 {
                        prev.switches.push((manual, register, time, presence))
                    } else {
                        prev.switches
                    },
                    dimmers: prev.dimmers,
                }
            },
            LightTemplateKind::Dimm => {
                let register = BrightnessKey::Light(dev);
                LightOutputs {
                    dmx: prev.dmx.push((l.uid, DmxConfigEntry::Dimm { register, channel: l.start })),
                    motion_detectors: if manual.len() == 0 && presence.len() > 0 {
                        prev.motion_detectors.push(
                            MotionDetectorView::Dimmer {
                                input: presence,
                                output: register,
                                brightness: named_brightness(names, l),
                                switch_off_time: time,
                            },
                        )
                    } else {
                        prev.motion_detectors
                    },
                    switches: prev.switches,
                    dimmers: if manual.len() > 0 {
                        prev.dimmers.push((manual, register, time, presence))
                    } else {
                        prev.dimmers
                    },
                }
            },
            LightTemplateKind::DimmWhitebalance { warm_temperature, cold_temperature } => {
                let register = BrightnessKey::Light(dev);
                let wb = match l.whitebalance {
                    Some(k) => match lookup_view(names.whitebalance, k, names.whitebalance.len() as int) {
                        Some(w) => w,
                        None => LightColorKey::Light(dev),
                    },
                    None => LightColorKey::Light(dev),
                };
                LightOutputs {
                    dmx: prev.dmx.push(
                        (
                            l.uid,
                            DmxConfigEntry::DimmWhitebalance {
                                brightness_register: register,
                                whitebalance_register: wb,
                                warm_channel: l.start,
                                cold_channel: ((l.start + 1) % 65536) as u16,
                                warm_mireds: warm_temperature,
                                cold_mireds: cold_temperature,
                            },
                        ),
                    ),
                    motion_detectors: if manual.len() == 0 && presence.len() > 0 {
                        prev.motion_detectors.push(
                            MotionDetectorView::Dimmer {
                                input: presence,
                                output: register,
                                brightness: named_brightness(names, l),
                                switch_off_time: time,
                            },
                        )
                    } else {
                        prev.motion_detectors
                    },
                    switches: prev.switches,
                    dimmers: if manual.len() > 0 {
                        prev.dimmers.push((manual, register, time, presence))
                    } else {
                        prev.dimmers
                    },
                }
            },
        }
    }
}

/// Whether two builders agree on all the light table does not touch.
pub open spec fn same_but_lights(a: WireBuilder, b: WireBuilder) -> bool {
    &&& a.io_entries == b.io_entries
    &&& a.lcd_screens == b.lcd_screens
    &&& a.temperature_sensors == b.temperature_sensors
    &&& a.motion_detector_sensors == b.motion_detector_sensors
    &&& a.relay_entries == b.relay_entries
    &&& a.heat_controllers == b.heat_controllers
    &&& a.ring_controllers == b.ring_controllers
    &&& a.single_button_adresses == b.single_button_adresses
    &&& a.dual_button_adresses == b.dual_button_adresses
    &&& a.heat_outputs_addresses == b.heat_outputs_addresses
    &&& a.touchscreen_whitebalance_addresses == b.touchscreen_whitebalance_addresses
    &&& a.touchscreen_brightness_addresses == b.touchscreen_brightness_addresses
    &&& a.motion_detector_adresses == b.motion_detector_adresses
}

proof fn lemma_lookup_bindings<V>(m: Seq<(String, V)>, name: Seq<char>)
    ensures
        lookup_view(bindings(m), name, m.len() as int) == crate::names::lookup_spec(m, name, m.len() as int),
{
    lemma_lookup_bindings_n(m, name, m.len() as int);
}

proof fn lemma_lookup_bindings_n<V>(m: Seq<(String, V)>, name: Seq<char>, n: int)
    requires
        n <= m.len(),
    ensures
        lookup_view(bindings(m), name, n) == crate::names::lookup_spec(m, name, n),
    decreases n,
{
    if n > 0 {
        lemma_lookup_bindings_n(m, name, n - 1);
    }
}

/// The registers a list of names stands for, unknown names skipped.
fn lookup_names<V: Copy>(m: &NameMap<V>, names: &Vec<String>) -> (r: Vec<V>)
    ensures
        r@ == lookup_all(bindings(m.entries@), names@.map_values(|s: String| s@), names@.len() as int),
{
    let ghost nv = names@.map_values(|s: String| s@);
    let mut r: Vec<V> = Vec::new();
    let mut i: usize = 0;
    while i < names.len()
        invariant
            i <= names@.len(),
            nv == names@.map_values(|s: String| s@),
            r@ == lookup_all(bindings(m.entries@), nv, i as int),
        decreases names.len() - i,
    {
        proof {
            lemma_lookup_bindings(m.entries@, names@[i as int]@);
            assert(bindings(m.entries@).len() == m.entries@.len());
        }
        match m.get(names[i].as_str()) {
            Some(v) => r.push(v),
            None => {},
        }
        i = i + 1;
    }
    r
}

/// The data of a taken light row, kept while numbering.
struct LightData {
    template: usize,
    uid: u32,
    start: u16,
    buttons: Vec<String>,
    presence: Vec<String>,
    whitebalance: Option<String>,
    brightness: Option<String>,
}

spec fn light_data_matches(d: LightData, room: Room, cell: SheetCell, l: LightRow, nts: int) -> bool {
    &&& d.template as int == l.template
    &&& 0 <= l.template < nts
    &&& d.uid == l.uid
    &&& d.start == l.start
    &&& d.buttons@.map_values(|s: String| s@) == l.buttons
    &&& d.presence@.map_values(|s: String| s@) == l.presence
    &&& (match d.whitebalance {
        Some(s) => Some(s@),
        None => None,
    }) == l.whitebalance
    &&& (match d.brightness {
        Some(s) => Some(s@),
        None => None,
    }) == l.brightness
    &&& room == l.room
    &&& cell == l.idx_cell
    &&& l.idx_cell.coordinates.writable()
}

/// Whether all cells of the light table can be addressed when written.
pub open spec fn light_table_ok(rows: Seq<LightTableRow>) -> bool {
    forall|r: int|
        0 <= r < rows.len() ==> (#[trigger] rows[r]).fixed@.len() == 8 && forall|c: int|
            0 <= c < 8 ==> (#[trigger] rows[r].fixed@[c]).coordinates.writable()
}

fn opt_string(o: &Option<String>) -> (r: Option<String>)
    ensures
        (match r {
            Some(s) => Some(s@),
            None => None,
        }) == (match *o {
            Some(s) => Some(s@),
            None => None,
        }),
{
    match o {
        Some(s) => Some(string_of(s.as_str())),
        None => None,
    }
}

impl WireBuilder {
    /// Reads the light table: numbers the lights within their rooms, and adds
    /// each light's DMX entry and controller. Returns the numbering.
    #[verifier::rlimit(80)]
    pub fn parse_lights(&mut self, sheet: &str, templates: &Vec<LightTemplate>, rows: &Vec<LightTableRow>) -> (nb: Vec<(usize, DeviceInRoom, bool)>)
        requires
            light_table_ok(rows@),
            rooms_fit(light_rows_spec(templates@, rows@, rows@.len() as int).map_values(|l: LightRow| l.room)),
        ensures
            ({
                let ls = light_rows_spec(templates@, rows@, rows@.len() as int);
                let rooms = ls.map_values(|l: LightRow| l.room);
                let cells = ls.map_values(|l: LightRow| l.idx_cell);
                let names = LightNames {
                    dual_buttons: bindings(old(self).dual_button_adresses.entries@),
                    motion: bindings(old(self).motion_detector_adresses.entries@),
                    whitebalance: bindings(old(self).touchscreen_whitebalance_addresses.entries@),
                    brightness: bindings(old(self).touchscreen_brightness_addresses.entries@),
                };
                let out = light_outputs_spec(templates@, names, ls, nb@, nb@.len() as int);
                &&& room_numbering_ok(rooms, cells, nb@)
                &&& forall|row: int| 0 <= row < ls.len() ==> #[trigger] numbered(nb@, row)
                &&& final(self).state_cells@ == old(self).state_cells@ + ls.map_values(
                    |l: LightRow| (l.uid, l.state_cell),
                )
                &&& final(self).dmx_entries@ == old(self).dmx_entries@ + out.dmx
                &&& final(self).motion_detectors@.map_values(|m: MotionDetector| motion_view(m)) == old(
                    self,
                ).motion_detectors@.map_values(|m: MotionDetector| motion_view(m)) + out.motion_detectors
                &&& final(self).dual_input_switches@.map_values(|s: DualInputSwitch| switch_view(s)) == old(
                    self,
                ).dual_input_switches@.map_values(|s: DualInputSwitch| switch_view(s)) + out.switches
                &&& final(self).dual_input_dimmers@.map_values(|d: DualInputDimmer| dimmer_view(d)) == old(
                    self,
                ).dual_input_dimmers@.map_values(|d: DualInputDimmer| dimmer_view(d)) + out.dimmers
                &&& final(self).updates@.map_values(|u: CellUpdate| update_view(u)) == old(
                    self,
                ).updates@.map_values(|u: CellUpdate| update_view(u)) + idx_updates_spec(
                    sheet@,
                    cells,
                    nb@,
                    nb@.len() as int,
                )
            }),
            same_but_lights(*final(self), *old(self)),
    {
        let ghost ls_spec = light_rows_spec(templates@, rows@, rows@.len() as int);
        let mut data: Vec<LightData> = Vec::new();
        let mut rooms: Vec<Room> = Vec::new();
        let mut cells: Vec<SheetCell> = Vec::new();
        let ghost state0 = self.state_cells@;
        let mut i: usize = 0;
        while i < rows.len()
            invariant
                i <= rows@.len(),
                light_table_ok(rows@),
                data@.len() == rooms@.len() == cells@.len() == light_rows_spec(templates@, rows@, i as int).len(),
                data@.len() <= i,
                forall|k: int|
                    0 <= k < data@.len() ==> light_data_matches(
                        #[trigger] data@[k],
                        rooms@[k],
                        cells@[k],
                        light_rows_spec(templates@, rows@, i as int)[k],
                        templates@.len() as int,
                    ),
                self.state_cells@ == state0 + light_rows_spec(templates@, rows@, i as int).map_values(
                    |l: LightRow| (l.uid, l.state_cell),
                ),
                same_but_lights(*self, *old(self)),
                self.dmx_entries == old(self).dmx_entries,
                self.motion_detectors == old(self).motion_detectors,
                self.dual_input_switches == old(self).dual_input_switches,
                self.dual_input_dimmers == old(self).dual_input_dimmers,
                self.updates == old(self).updates,
            decreases rows.len() - i,
        {
            let row = &rows[i];
            let f = &row.fixed;
            assert(f@.len() == 8);
            proof {
                assert(rows@[i as int].fixed@[1].coordinates.writable());
            }
            let template = match &f[2].content {
                Some(t) => find_light_template(templates, t.as_str()),
                None => None,
            };
            match (room_of(&f[0]), template, uid_of(&f[3]), f[4].integer) {
                (Some(room), Some(t), Some(uid), Some(start)) => {
                    let ghost (d0, r0, c0) = (data@, rooms@, cells@);
                    let ghost prev = light_rows_spec(templates@, rows@, i as int);
                    let ghost next = light_rows_spec(templates@, rows@, i + 1);
                    let buttons = collect_names(&row.buttons);
                    let presence = collect_names(&row.presence);
                    let whitebalance = opt_string(&f[5].content);
                    let brightness = opt_string(&f[6].content);
                    data.push(
                        LightData {
                            template: t,
                            uid,
                            start: start as u16,
                            buttons,
                            presence,
                            whitebalance,
                            brightness,
                        },
                    );
                    rooms.push(room);
                    cells.push(copy_cell(&f[1]));
                    self.state_cells.push((uid, copy_cell(&f[7])));
                    proof {
                        let l = light_row_spec(templates@, rows@[i as int])->0;
                        assert(next == prev.push(l));
                        assert(self.state_cells@ =~= state0 + next.map_values(|l: LightRow| (l.uid, l.state_cell)));
                        assert forall|k: int| 0 <= k < data@.len() implies light_data_matches(
                            #[trigger] data@[k],
                            rooms@[k],
                            cells@[k],
                            next[k],
                            templates@.len() as int,
                        ) by {
                            if k < d0.len() {
                                assert(data@[k] == d0[k]);
                                assert(rooms@[k] == r0[k]);
                                assert(cells@[k] == c0[k]);
                            }
                        }
                    }
                },
                _ => {},
            }
            i = i + 1;
        }
        proof {
            assert forall|q: int| 0 <= q < rooms@.len() implies rooms@[q] == ls_spec[q].room && cells@[q]
                == ls_spec[q].idx_cell by {
                assert(light_data_matches(data@[q], rooms@[q], cells@[q], ls_spec[q], templates@.len() as int));
            }
            assert(rooms@ =~= ls_spec.map_values(|l: LightRow| l.room));
            assert(cells@ =~= ls_spec.map_values(|l: LightRow| l.idx_cell));
        }
        let nb = fill_device_idx(&rooms, &cells);
        let ghost names = LightNames {
            dual_buttons: bindings(self.dual_button_adresses.entries@),
            motion: bindings(self.motion_detector_adresses.entries@),
            whitebalance: bindings(self.touchscreen_whitebalance_addresses.entries@),
            brightness: bindings(self.touchscreen_brightness_addresses.entries@),
        };
        let ghost dmx0 = self.dmx_entries@;
        let ghost md0 = self.motion_detectors@.map_values(|m: MotionDetector| motion_view(m));
        let ghost sw0 = self.dual_input_switches@.map_values(|s: DualInputSwitch| switch_view(s));
        let ghost dm0 = self.dual_input_dimmers@.map_values(|d: DualInputDimmer| dimmer_view(d));
        let ghost up0 = self.updates@.map_values(|u: CellUpdate| update_view(u));
        let ghost st1 = self.state_cells@;
        let mut k: usize = 0;
        while k < nb.len()
            invariant
                k <= nb@.len(),
                room_numbering_ok(rooms@, cells@, nb@),
                data@.len() == rooms@.len() == cells@.len() == ls_spec.len(),
                forall|q: int|
                    0 <= q < data@.len() ==> light_data_matches(
                        #[trigger] data@[q],
                        rooms@[q],
                        cells@[q],
                        ls_spec[q],
                        templates@.len() as int,
                    ),
                names.dual_buttons == bindings(self.dual_button_adresses.entries@),
                names.motion == bindings(self.motion_detector_adresses.entries@),
                names.whitebalance == bindings(self.touchscreen_whitebalance_addresses.entries@),
                names.brightness == bindings(self.touchscreen_brightness_addresses.entries@),
                ({
                    let out = light_outputs_spec(templates@, names, ls_spec, nb@, k as int);
                    &&& self.dmx_entries@ == dmx0 + out.dmx
                    &&& self.motion_detectors@.map_values(|m: MotionDetector| motion_view(m)) == md0 + out.motion_detectors
                    &&& self.dual_input_switches@.map_values(|s: DualInputSwitch| switch_view(s)) == sw0 + out.switches
                    &&& self.dual_input_dimmers@.map_values(|d: DualInputDimmer| dimmer_view(d)) == dm0 + out.dimmers
                }),
                self.updates@.map_values(|u: CellUpdate| update_view(u)) == up0 + idx_updates_spec(
                    sheet@,
                    cells@,
                    nb@,
                    k as int,
                ),
                self.state_cells@ == st1,
                same_but_lights(*self, *old(self)),
            decreases nb.len() - k,
        {
            let e = nb[k];
            let dev = e.1;
            let d = &data[e.0];
            let ghost l = ls_spec[e.0 as int];
            proof {
                assert(light_data_matches(data@[e.0 as int], rooms@[e.0 as int], cells@[e.0 as int], l, templates@.len() as int));
            }
            let manual = sort_keys(lookup_names(&self.dual_button_adresses, &d.buttons));
            let presence = sort_keys(lookup_names(&self.motion_detector_adresses, &d.presence));
            let time: u64 = if manual.len() == 0 {
                120000
            } else if presence.len() == 0 {
                7200000
            } else {
                3600000
            };
            let ghost (sw_b, dm_b, md_b) = (self.dual_input_switches@, self.dual_input_dimmers@, self.motion_detectors@);
            proof {
                assert(d.buttons@.map_values(|s: String| s@) == l.buttons);
                assert(manual@ == sorted_keys(lookup_all(names.dual_buttons, l.buttons, l.buttons.len() as int)));
                assert(presence@ == sorted_keys(lookup_all(names.motion, l.presence, l.presence.len() as int)));
            }
            match templates[d.template].kind {
                LightTemplateKind::Switch => {
                    let register = SwitchOutputKey::Light(dev);
                    self.dmx_entries.push((d.uid, DmxConfigEntry::Switch { register, channel: d.start }));
                    if manual.len() == 0 {
                        if presence.len() > 0 {
                            let ghost pv = presence@;
                            self.motion_detectors.push(
                                MotionDetector::Switch { input: presence, output: register, switch_off_time: time },
                            );
                            proof {
                                assert(self.motion_detectors@.map_values(|m: MotionDetector| motion_view(m)) =~= md_b.map_values(
                                    |m: MotionDetector| motion_view(m),
                                ).push(MotionDetectorView::Switch { input: pv, output: register, switch_off_time: time }));
                            }
                        }
                    } else {
                        let ghost (mv, pv) = (manual@, presence@);
                        self.dual_input_switches.push(
                            DualInputSwitch { input: manual, output: register, auto_switch_off_time: time, presence },
                        );
                        proof {
                            assert(self.dual_input_switches@.map_values(|s: DualInputSwitch| switch_view(s)) =~= sw_b.map_values(
                                |s: DualInputSwitch| switch_view(s),
                            ).push((mv, register, time, pv)));
                        }
                    }
                },
                LightTemplateKind::Dimm => {
                    let register = BrightnessKey::Light(dev);
                    self.dmx_entries.push((d.uid, DmxConfigEntry::Dimm { register, channel: d.start }));
                    if manual.len() == 0 {
                        if presence.len() > 0 {
                            let brightness = match &d.brightness {
                                Some(k) => {
                                    proof {
                                        lemma_lookup_bindings(self.touchscreen_brightness_addresses.entries@, k@);
                                    }
                                    self.touchscreen_brightness_addresses.get(k.as_str())
                                },
                                None => None,
                            };
                            let ghost pv = presence@;
                            self.motion_detectors.push(
                                MotionDetector::Dimmer { input: presence, output: register, brightness, switch_off_time: time },
                            );
                            proof {
                                assert(self.motion_detectors@.map_values(|m: MotionDetector| motion_view(m)) =~= md_b.map_values(
                                    |m: MotionDetector| motion_view(m),
                                ).push(MotionDetectorView::Dimmer { input: pv, output: register, brightness, switch_off_time: time }));
                            }
                        }
                    } else {
                        let ghost (mv, pv) = (manual@, presence@);
                        self.dual_input_dimmers.push(
                            DualInputDimmer { input: manual, output: register, auto_switch_off_time: time, presence },
                        );
                        proof {
                            assert(self.dual_input_dimmers@.map_values(|d: DualInputDimmer| dimmer_view(d)) =~= dm_b.map_values(
                                |d: DualInputDimmer| dimmer_view(d),
                            ).push((mv, register, time, pv)));
                        }
                    }
                },
                LightTemplateKind::DimmWhitebalance { warm_temperature, cold_temperature } => {
                    let register = BrightnessKey::Light(dev);
                    let whitebalance_register = match &d.whitebalance {
                        Some(k) => {
                            proof {
                                lemma_lookup_bindings(self.touchscreen_whitebalance_addresses.entries@, k@);
                            }
                            match self.touchscreen_whitebalance_addresses.get(k.as_str()) {
                                Some(w) => w,
                                None => LightColorKey::Light(dev),
                            }
                        },
                        None => LightColorKey::Light(dev),
                    };
                    self.dmx_entries.push(
                        (
                            d.uid,
                            DmxConfigEntry::DimmWhitebalance {
                                brightness_register: register,
                                whitebalance_register,
                                warm_channel: d.start,
                                cold_channel: d.start.wrapping_add(1),
                                warm_mireds: warm_temperature,
                                cold_mireds: cold_temperature,
                            },
                        ),
                    );
                    if manual.len() == 0 {
                        if presence.len() > 0 {
                            let brightness = match &d.brightness {
                                Some(k) => {
                                    proof {
                                        lemma_lookup_bindings(self.touchscreen_brightness_addresses.entries@, k@);
                                    }
                                    self.touchscreen_brightness_addresses.get(k.as_str())
                                },
                                None => None,
                            };
                            let ghost pv = presence@;
                            self.motion_detectors.push(
                                MotionDetector::Dimmer { input: presence, output: register, brightness, switch_off_time: time },
                            );
                            proof {
                                assert(self.motion_detectors@.map_values(|m: MotionDetector| motion_view(m)) =~= md_b.map_values(
                                    |m: MotionDetector| motion_view(m),
                                ).push(MotionDetectorView::Dimmer { input: pv, output: register, brightness, switch_off_time: time }));
                            }
                        }
                    } else {
                        let ghost (mv, pv) = (manual@, presence@);
                        self.dual_input_dimmers.push(
                            DualInputDimmer { input: manual, output: register, auto_switch_off_time: time, presence },
                        );
                        proof {
                            assert(self.dual_input_dimmers@.map_values(|d: DualInputDimmer| dimmer_view(d)) =~= dm_b.map_values(
                                |d: DualInputDimmer| dimmer_view(d),
                            ).push((mv, register, time, pv)));
                        }
                    }
                },
            }
            push_idx_update(sheet, &cells, e, &mut self.updates);
            proof {
                let next = light_outputs_spec(templates@, names, ls_spec, nb@, k + 1);
                assert(self.dmx_entries@ =~= dmx0 + next.dmx);
                assert(self.motion_detectors@.map_values(|m: MotionDetector| motion_view(m)) =~= md0 + next.motion_detectors);
                assert(self.dual_input_switches@.map_values(|s: DualInputSwitch| switch_view(s)) =~= sw0 + next.switches);
                assert(self.dual_input_dimmers@.map_values(|d: DualInputDimmer| dimmer_view(d)) =~= dm0 + next.dimmers);
                assert(self.updates@.map_values(|u: CellUpdate| update_view(u)) =~= up0
                    + idx_updates_spec(sheet@, cells@, nb@, k + 1));
            }
            k = k + 1;
        }
        nb
    }
}

} // verus!
