//! Reading the room controller table of the sheet: touchscreens, temperature
//! sensors and the heating, colour and brightness controls they offer.
use vstd::prelude::*;
use crate::device_idx::{fill_device_idx, numbered, room_numbering_ok, rooms_fit};
use crate::registry::{BrightnessKey, ClockKeyResolution, LightColorKey, SwitchOutputKey, TemperatureKey};
use crate::room::{DeviceInRoom, Room};
use crate::sheet::{CellUpdate, SheetCell};
use crate::shelly::common::str_equals;
use crate::sheet_reader::{
    bindings, content_of, copy_cell, idx_updates_spec, push_idx_update, room_of, room_of_spec,
    table_width, table_writable, uid_of, uid_of_spec, update_view, WireBuilder,
};
use crate::text::string_of;
use crate::wiring::{HeatController, Orientation, ScreenSettings, TemperatureSettings};

verus! {

/// The mounting an orientation cell names.
pub open spec fn orientation_spec(s: Seq<char>) -> Option<Orientation> {
    if s == "Straight"@ {
        Some(Orientation::Straight)
    } else if s == "LeftDown"@ {
        Some(Orientation::LeftDown)
    } else if s == "UpsideDown"@ {
        Some(Orientation::UpsideDown)
    } else if s == "RightDown"@ {
        Some(Orientation::RightDown)
    } else {
        None
    }
}

/// Reads a mounting by its name.
pub fn orientation_of(s: &str) -> (r: Option<Orientation>)
    ensures
        r == orientation_spec(s@),
{
    proof {
        reveal_strlit("Straight");
        reveal_strlit("LeftDown");
        reveal_strlit("UpsideDown");
        reveal_strlit("RightDown");
    }
    if str_equals(s, "Straight") {
        Some(Orientation::Straight)
    } else if str_equals(s, "LeftDown") {
        Some(Orientation::LeftDown)
    } else if str_equals(s, "UpsideDown") {
        Some(Orientation::UpsideDown)
    } else if str_equals(s, "RightDown") {
        Some(Orientation::RightDown)
    } else {
        None
    }
}

/// Whether a flag cell is set: it shows some text.
pub open spec fn flag_spec(c: SheetCell) -> bool {
    match content_of(c) {
        Some(s) => s.len() > 0,
        None => false,
    }
}

fn flag(c: &SheetCell) -> (r: bool)
    ensures
        r == flag_spec(*c),
{
    match &c.content {
        Some(s) => s.unicode_len() > 0,
        None => false,
    }
}

/// A taken controller row.
pub struct ControllerRow {
    pub room: Room,
    pub id: Seq<char>,
    pub orientation: Orientation,
    pub touchscreen: Option<u32>,
    pub temp_sensor: Option<u32>,
    pub heat: bool,
    pub whitebalance: bool,
    pub brightness: bool,
    pub idx_cell: SheetCell,
    pub touchscreen_state: SheetCell,
    pub temperature_state: SheetCell,
}

/// What a controller row `[room, id, number, orientation, touchscreen,
/// temperature sensor, heat, colour, brightness, touchscreen state,
/// temperature state]` gives, if room, id and orientation read.
pub open spec fn controller_row_spec(row: Seq<SheetCell>) -> Option<ControllerRow> {
    match (room_of_spec(row[0]), content_of(row[1]), match content_of(row[3]) {
        Some(o) => orientation_spec(o),
        None => None,
    }) {
        (Some(room), Some(id), Some(orientation)) => Some(
            ControllerRow {
                room,
                id,
                orientation,
                touchscreen: uid_of_spec(row[4]),
                temp_sensor: uid_of_spec(row[5]),
                heat: flag_spec(row[6]),
                whitebalance: flag_spec(row[7]),
                brightness: flag_spec(row[8]),
                idx_cell: row[2],
                touchscreen_state: row[9],
                temperature_state: row[10],
            },
        ),
        _ => None,
    }
}

/// The controller rows taken from the first `n` rows.
pub open spec fn controller_rows_spec(rows: Seq<Vec<SheetCell>>, n: int) -> Seq<ControllerRow>
    decreases n,
{
    if n <= 0 {
        seq![]
    } else {
        match controller_row_spec(rows[n - 1]@) {
            Some(c) => controller_rows_spec(rows, n - 1).push(c),
            None => controller_rows_spec(rows, n - 1),
        }
    }
}

/// The state cells of a taken row: the touchscreen's, then the sensor's.
pub open spec fn controller_state_cells(c: ControllerRow) -> Seq<(u32, SheetCell)> {
    (match c.touchscreen {
        Some(u) => seq![(u, c.touchscreen_state)],
        None => seq![],
    }) + (match c.temp_sensor {
        Some(u) => seq![(u, c.temperature_state)],
        None => seq![],
    })
}

/// The state cells of the first `n` taken rows.
pub open spec fn controllers_state_spec(cs: Seq<ControllerRow>, n: int) -> Seq<(u32, SheetCell)>
    decreases n,
{
    if n <= 0 {
        seq![]
    } else {
        controllers_state_spec(cs, n - 1) + controller_state_cells(cs[n - 1])
    }
}

/// Whether a controller offers heating control: it asks for it and has a sensor.
pub open spec fn heats(c: ControllerRow) -> bool {
    c.heat && c.temp_sensor is Some
}

/// The screen settings of a numbered controller.
pub open spec fn screen_spec(c: ControllerRow, dev: DeviceInRoom) -> ScreenSettings {
    ScreenSettings {
        orientation: c.orientation,
        clock_key: Some(ClockKeyResolution::Minutes),
        current_temperature_key: if c.temp_sensor is Some {
            Some(TemperatureKey::CurrentTemperature(dev))
        } else {
            None
        },
        adjust_temperature_key: if heats(c) {
            Some(TemperatureKey::TargetTemperature(dev))
        } else {
            None
        },
        light_color_key: if c.whitebalance {
            Some(LightColorKey::TouchscreenController(dev))
        } else {
            None
        },
        brightness_key: if c.brightness {
            Some(BrightnessKey::TouchscreenController(dev))
        } else {
            None
        },
    }
}

/// Everything the first `n` numbered controllers add.
pub struct ControllerOutputs {
    pub temperature_sensors: Seq<(u32, TemperatureSettings)>,
    pub heat_controllers: Seq<HeatController>,
    pub heat_names: Seq<(Seq<char>, SwitchOutputKey)>,
    pub whitebalance_names: Seq<(Seq<char>, LightColorKey)>,
    pub brightness_names: Seq<(Seq<char>, BrightnessKey)>,
    pub screens: Seq<(u32, ScreenSettings)>,
}

/// Everything the first `n` numbered controllers add: a sensor registers the
/// current temperature; heating control adds a heat controller and names its
/// output; colour and brightness control name their registers; a
/// touchscreen gets its screen settings.
pub open spec fn controller_outputs_spec(
    cs: Seq<ControllerRow>,
    nb: Seq<(usize, DeviceInRoom, bool)>,
    n: int,
) -> ControllerOutputs
    decreases n,
{
    if n <= 0 {
        ControllerOutputs {
            temperature_sensors: seq![],
            heat_controllers: seq![],
            heat_names: seq![],
            whitebalance_names: seq![],
            brightness_names: seq![],
            screens: seq![],
        }
    } else {
        let prev = controller_outputs_spec(cs, nb, n - 1);
        let c = cs[nb[n - 1].0 as int];
        let dev = nb[n - 1].1;
        ControllerOutputs {
            temperature_sensors: match c.temp_sensor {
                Some(u) => prev.temperature_sensors.push(
                    (u, TemperatureSettings { output: TemperatureKey::CurrentTemperature(dev) }),
                ),
                None => prev.temperature_sensors,
            },
            heat_controllers: if heats(c) {
                prev.heat_controllers.push(
                    HeatController {
                        current_value_input: TemperatureKey::CurrentTemperature(dev),
                        target_value_input: TemperatureKey::TargetTemperature(dev),
                        output: SwitchOutputKey::Heat(dev),
                    },
                )
            } else {
                prev.heat_controllers
            },
            heat_names: if heats(c) {
                prev.heat_names.push((c.id, SwitchOutputKey::Heat(dev)))
            } else {
                prev.heat_names
            },
            whitebalance_names: if c.whitebalance {
                prev.whitebalance_names.push((c.id, LightColorKey::TouchscreenController(dev)))
            } else {
                prev.whitebalance_names
            },
            brightness_names: if c.brightness {
                prev.brightness_names.push((c.id, BrightnessKey::TouchscreenController(dev)))
            } else {
                prev.brightness_names
            },
            screens: match c.touchscreen {
                Some(u) => prev.screens.push((u, screen_spec(c, dev))),
                None => prev.screens,
            },
        }
    }
}

/// Whether two builders agree on all the controller table does not touch.
pub open spec fn same_but_controllers(a: WireBuilder, b: WireBuilder) -> bool {
    &&& a.io_entries == b.io_entries
    &&& a.dmx_entries == b.dmx_entries
    &&& a.motion_detector_sensors == b.motion_detector_sensors
    &&& a.relay_entries == b.relay_entries
    &&& a.dual_input_dimmers == b.dual_input_dimmers
    &&& a.dual_input_switches == b.dual_input_switches
    &&& a.motion_detectors == b.motion_detectors
    &&& a.ring_controllers == b.ring_controllers
    &&& a.single_button_adresses == b.single_button_adresses
    &&& a.dual_button_adresses == b.dual_button_adresses
    &&& a.motion_detector_adresses == b.motion_detector_adresses
}

/// The controller rows' own data, kept while numbering.
struct ControllerData {
    id: String,
    orientation: Orientation,
    touchscreen: Option<u32>,
    temp_sensor: Option<u32>,
    heat: bool,
    whitebalance: bool,
    brightness: bool,
}

spec fn row_matches(d: ControllerData, room: Room, cell: SheetCell, c: ControllerRow) -> bool {
    &&& data_matches(d, c)
    &&& room == c.room
    &&& cell == c.idx_cell
    &&& c.idx_cell.coordinates.writable()
}

spec fn data_matches(d: ControllerData, c: ControllerRow) -> bool {
    &&& d.id@ == c.id
    &&& d.orientation == c.orientation
    &&& d.touchscreen == c.touchscreen
    &&& d.temp_sensor == c.temp_sensor
    &&& d.heat == c.heat
    &&& d.whitebalance == c.whitebalance
    &&& d.brightness == c.brightness
}

impl WireBuilder {
    /// Reads the room controller table: numbers the controllers within their
    /// rooms and adds what each offers. Returns the numbering of the taken rows.
    #[verifier::spinoff_prover]
    #[verifier::rlimit(60)]
    pub fn parse_controllers(&mut self, sheet: &str, rows: &Vec<Vec<SheetCell>>) -> (nb: Vec<(usize, DeviceInRoom, bool)>)
        requires
            table_width(rows@, 11),
            table_writable(rows@),
            rooms_fit(controller_rows_spec(rows@, rows@.len() as int).map_values(|c: ControllerRow| c.room)),
        ensures
            ({
                let cs = controller_rows_spec(rows@, rows@.len() as int);
                let rooms = cs.map_values(|c: ControllerRow| c.room);
                let cells = cs.map_values(|c: ControllerRow| c.idx_cell);
                let out = controller_outputs_spec(cs, nb@, nb@.len() as int);
                &&& room_numbering_ok(rooms, cells, nb@)
                &&& forall|row: int| 0 <= row < cs.len() ==> #[trigger] numbered(nb@, row)
                &&& final(self).state_cells@ == old(self).state_cells@ + controllers_state_spec(cs, cs.len() as int)
                &&& final(self).temperature_sensors@ == old(self).temperature_sensors@ + out.temperature_sensors
                &&& final(self).heat_controllers@ == old(self).heat_controllers@ + out.heat_controllers
                &&& bindings(final(self).heat_outputs_addresses.entries@) == bindings(
                    old(self).heat_outputs_addresses.entries@,
                ) + out.heat_names
                &&& bindings(final(self).touchscreen_whitebalance_addresses.entries@) == bindings(
                    old(self).touchscreen_whitebalance_addresses.entries@,
                ) + out.whitebalance_names
                &&& bindings(final(self).touchscreen_brightness_addresses.entries@) == bindings(
                    old(self).touchscreen_brightness_addresses.entries@,
                ) + out.brightness_names
                &&& final(self).lcd_screens@ == old(self).lcd_screens@ + out.screens
                &&& final(self).updates@.map_values(|u: CellUpdate| update_view(u)) == old(
                    self,
                ).updates@.map_values(|u: CellUpdate| update_view(u)) + idx_updates_spec(
                    sheet@,
                    cells,
                    nb@,
                    nb@.len() as int,
                )
            }),
            same_but_controllers(*final(self), *old(self)),
    {
        let ghost cs_spec = controller_rows_spec(rows@, rows@.len() as int);
        let mut data: Vec<ControllerData> = Vec::new();
        let mut rooms: Vec<Room> = Vec::new();
        let mut cells: Vec<SheetCell> = Vec::new();
        let ghost state0 = self.state_cells@;
        let mut i: usize = 0;
        while i < rows.len()
            invariant
                i <= rows@.len(),
                table_width(rows@, 11),
                table_writable(rows@),
                data@.len() == rooms@.len() == cells@.len() == controller_rows_spec(rows@, i as int).len(),
                data@.len() <= i,
                forall|k: int|
                    0 <= k < data@.len() ==> row_matches(
                        #[trigger] data@[k],
                        rooms@[k],
                        cells@[k],
                        controller_rows_spec(rows@, i as int)[k],
                    ),
                self.state_cells@ == state0 + controllers_state_spec(
                    controller_rows_spec(rows@, i as int),
                    controller_rows_spec(rows@, i as int).len() as int,
                ),
                same_but_controllers(*self, *old(self)),
                self.temperature_sensors == old(self).temperature_sensors,
                self.heat_controllers == old(self).heat_controllers,
                self.heat_outputs_addresses == old(self).heat_outputs_addresses,
                self.touchscreen_whitebalance_addresses == old(self).touchscreen_whitebalance_addresses,
                self.touchscreen_brightness_addresses == old(self).touchscreen_brightness_addresses,
                self.lcd_screens == old(self).lcd_screens,
                self.updates == old(self).updates,
            decreases rows.len() - i,
        {
            let row = &rows[i];
            assert(row@.len() == 11);
            proof {
                assert(rows@[i as int]@[2].coordinates.writable());
            }
            let orientation = match &row[3].content {
                Some(o) => orientation_of(o.as_str()),
                None => None,
            };
            match (room_of(&row[0]), &row[1].content, orientation) {
                (Some(room), Some(id), Some(orientation)) => {
                    let touchscreen = uid_of(&row[4]);
                    let temp_sensor = uid_of(&row[5]);
                    let ghost (d0, r0, c0, s0) = (data@, rooms@, cells@, self.state_cells@);
                    let ghost prev = controller_rows_spec(rows@, i as int);
                    let ghost next = controller_rows_spec(rows@, i + 1);
                    data.push(
                        ControllerData {
                            id: string_of(id.as_str()),
                            orientation,
                            touchscreen,
                            temp_sensor,
                            heat: flag(&row[6]),
                            whitebalance: flag(&row[7]),
                            brightness: flag(&row[8]),
                        },
                    );
                    rooms.push(room);
                    cells.push(copy_cell(&row[2]));
                    match touchscreen {
                        Some(u) => self.state_cells.push((u, copy_cell(&row[9]))),
                        None => {},
                    }
                    match temp_sensor {
                        Some(u) => self.state_cells.push((u, copy_cell(&row[10]))),
                        None => {},
                    }
                    proof {
                        let c = controller_row_spec(rows@[i as int]@)->0;
                        assert(next == prev.push(c));
                        assert(self.state_cells@ =~= s0 + controller_state_cells(c));
                        assert(controllers_state_spec(next, next.len() as int) =~= controllers_state_spec(
                            prev,
                            prev.len() as int,
                        ) + controller_state_cells(c)) by {
                            lemma_state_prefix(next, prev, prev.len() as int);
                        }
                        assert forall|k: int| 0 <= k < data@.len() implies row_matches(
                            #[trigger] data@[k],
                            rooms@[k],
                            cells@[k],
                            next[k],
                        ) by {
                            if k < d0.len() {
                                assert(data@[k] == d0[k]);
                                assert(rooms@[k] == r0[k]);
                                assert(cells@[k] == c0[k]);
                            } else {
                                assert(next[k] == c);
                                assert(data@[k].id@ == c.id);
                                assert(data@[k].touchscreen == c.touchscreen);
                                assert(data@[k].temp_sensor == c.temp_sensor);
                                assert(data@[k].heat == c.heat);
                                assert(rooms@[k] == c.room);
                                assert(cells@[k] == c.idx_cell);
                                assert(c.idx_cell == rows@[i as int]@[2]);
                            }
                        }
                    }
                },
                _ => {
                    proof {
                        assert(controller_row_spec(rows@[i as int]@) is None);
                        assert(controller_rows_spec(rows@, i + 1) == controller_rows_spec(rows@, i as int));

                    }
                },
            }
            i = i + 1;
        }
        proof {
            assert forall|q: int| 0 <= q < rooms@.len() implies rooms@[q] == cs_spec[q].room && cells@[q]
                == cs_spec[q].idx_cell by {
                assert(row_matches(data@[q], rooms@[q], cells@[q], cs_spec[q]));
            }
            assert(rooms@ =~= cs_spec.map_values(|c: ControllerRow| c.room));
            assert(cells@ =~= cs_spec.map_values(|c: ControllerRow| c.idx_cell));
        }
        let nb = fill_device_idx(&rooms, &cells);
        let ghost t0 = self.temperature_sensors@;
        let ghost h0 = self.heat_controllers@;
        let ghost hn0 = bindings(self.heat_outputs_addresses.entries@);
        let ghost wn0 = bindings(self.touchscreen_whitebalance_addresses.entries@);
        let ghost bn0 = bindings(self.touchscreen_brightness_addresses.entries@);
        let ghost sc0 = self.lcd_screens@;
        let ghost up0 = self.updates@.map_values(|u: CellUpdate| update_view(u));
        let ghost st1 = self.state_cells@;
        let mut k: usize = 0;
        while k < nb.len()
            invariant
                k <= nb@.len(),
                room_numbering_ok(rooms@, cells@, nb@),
                data@.len() == rooms@.len() == cells@.len() == cs_spec.len(),
                forall|q: int|
                    0 <= q < data@.len() ==> {
                        &&& data_matches(#[trigger] data@[q], cs_spec[q])
                        &&& cells@[q] == cs_spec[q].idx_cell
                        &&& cs_spec[q].idx_cell.coordinates.writable()
                    },
                ({
                    let out = controller_outputs_spec(cs_spec, nb@, k as int);
                    &&& self.temperature_sensors@ == t0 + out.temperature_sensors
                    &&& self.heat_controllers@ == h0 + out.heat_controllers
                    &&& bindings(self.heat_outputs_addresses.entries@) == hn0 + out.heat_names
                    &&& bindings(self.touchscreen_whitebalance_addresses.entries@) == wn0 + out.whitebalance_names
                    &&& bindings(self.touchscreen_brightness_addresses.entries@) == bn0 + out.brightness_names
                    &&& self.lcd_screens@ == sc0 + out.screens
                }),
                self.updates@.map_values(|u: CellUpdate| update_view(u)) == up0 + idx_updates_spec(
                    sheet@,
                    cells@,
                    nb@,
                    k as int,
                ),
                self.state_cells@ == st1,
                same_but_controllers(*self, *old(self)),
            decreases nb.len() - k,
        {
            let e = nb[k];
            let dev = e.1;
            let d = &data[e.0];
            proof {
                assert(data_matches(data@[e.0 as int], cs_spec[e.0 as int]));
            }
            let ghost (ts0, hc0, hn_0, wn_0, bn_0, sc_0) = (
                self.temperature_sensors@,
                self.heat_controllers@,
                self.heat_outputs_addresses.entries@,
                self.touchscreen_whitebalance_addresses.entries@,
                self.touchscreen_brightness_addresses.entries@,
                self.lcd_screens@,
            );
            let current_temperature_key = match d.temp_sensor {
                Some(uid) => {
                    let output = TemperatureKey::CurrentTemperature(dev);
                    self.temperature_sensors.push((uid, TemperatureSettings { output }));
                    Some(output)
                },
                None => None,
            };
            let adjust_temperature_key = if d.heat {
                match current_temperature_key {
                    Some(current_value_input) => {
                        let target_value_input = TemperatureKey::TargetTemperature(dev);
                        let output = SwitchOutputKey::Heat(dev);
                        self.heat_controllers.push(
                            HeatController { current_value_input, target_value_input, output },
                        );
                        self.heat_outputs_addresses.entries.push((string_of(d.id.as_str()), output));
                        Some(target_value_input)
                    },
                    None => None,
                }
            } else {
                None
            };
            let light_color_key = if d.whitebalance {
                let key = LightColorKey::TouchscreenController(dev);
                self.touchscreen_whitebalance_addresses.entries.push((string_of(d.id.as_str()), key));
                Some(key)
            } else {
                None
            };
            let brightness_key = if d.brightness {
                let key = BrightnessKey::TouchscreenController(dev);
                self.touchscreen_brightness_addresses.entries.push((string_of(d.id.as_str()), key));
                Some(key)
            } else {
                None
            };
            match d.touchscreen {
                Some(uid) => {
                    self.lcd_screens.push(
                        (
                            uid,
                            ScreenSettings {
                                orientation: d.orientation,
                                clock_key: Some(ClockKeyResolution::Minutes),
                                current_temperature_key,
                                adjust_temperature_key,
                                light_color_key,
                                brightness_key,
                            },
                        ),
                    );
                },
                None => {},
            }
            push_idx_update(sheet, &cells, e, &mut self.updates);
            proof {
                let c = cs_spec[e.0 as int];
                let prev = controller_outputs_spec(cs_spec, nb@, k as int);
                let next = controller_outputs_spec(cs_spec, nb@, k + 1);
                assert(self.temperature_sensors@ =~= t0 + next.temperature_sensors);
                assert(self.heat_controllers@ =~= h0 + next.heat_controllers);
                if heats(c) {
                    assert(bindings(self.heat_outputs_addresses.entries@) =~= bindings(hn_0).push((c.id, SwitchOutputKey::Heat(dev))));
                } else {
                    assert(self.heat_outputs_addresses.entries@ == hn_0);
                }
                assert(bindings(self.heat_outputs_addresses.entries@) =~= hn0 + next.heat_names);
                if c.whitebalance {
                    assert(bindings(self.touchscreen_whitebalance_addresses.entries@) =~= bindings(wn_0).push((c.id, LightColorKey::TouchscreenController(dev))));
                }
                assert(bindings(self.touchscreen_whitebalance_addresses.entries@) =~= wn0 + next.whitebalance_names);
                if c.brightness {
                    assert(bindings(self.touchscreen_brightness_addresses.entries@) =~= bindings(bn_0).push((c.id, BrightnessKey::TouchscreenController(dev))));
                }
                assert(bindings(self.touchscreen_brightness_addresses.entries@) =~= bn0 + next.brightness_names);
                assert(self.lcd_screens@ =~= sc0 + next.screens);
                assert(self.updates@.map_values(|u: CellUpdate| update_view(u)) =~= up0
                    + idx_updates_spec(sheet@, cells@, nb@, k + 1));
            }
            k = k + 1;
        }
        nb
    }
}

proof fn lemma_state_prefix(a: Seq<ControllerRow>, b: Seq<ControllerRow>, n: int)
    requires
        0 <= n <= a.len(),
        n <= b.len(),
        forall|i: int| 0 <= i < n ==> a[i] == b[i],
    ensures
        controllers_state_spec(a, n) == controllers_state_spec(b, n),
    decreases n,
{
    if n > 0 {
        lemma_state_prefix(a, b, n - 1);
    }
}

} // verus!
