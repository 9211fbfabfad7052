//! Reading the motion detector and relay tables of the sheet.
use vstd::prelude::*;
use crate::device_idx::{fill_device_idx, numbered, room_numbering_ok, rooms_fit};
use crate::registry::{SingleButtonKey, SwitchOutputKey};
use crate::room::{DeviceInRoom, Room};
use crate::sheet::{CellUpdate, SheetCell};
use crate::sheet_reader::{
    bindings, content_of, copy_cell, idx_updates_spec, push_idx_update, room_of, room_of_spec,
    table_width, table_writable, uid_of, uid_of_spec, update_view, WireBuilder,
};
use crate::text::string_of;
use crate::wiring::{MotionDetectorSettings, RelayChannelEntry, RingController};

verus! {

/// The motion detector rows taken from the first `n` rows of
/// `[room, address, id, number, state]`: room, uid, id, number cell, state cell.
pub open spec fn motion_rows_spec(rows: Seq<Vec<SheetCell>>, n: int) -> Seq<(Room, u32, Seq<char>, SheetCell, SheetCell)>
    decreases n,
{
    if n <= 0 {
        seq![]
    } else {
        let row = rows[n - 1]@;
        match (room_of_spec(row[0]), uid_of_spec(row[1]), content_of(row[2])) {
            (Some(room), Some(uid), Some(id)) => motion_rows_spec(rows, n - 1).push(
                (room, uid, id, row[3], row[4]),
            ),
            _ => motion_rows_spec(rows, n - 1),
        }
    }
}

/// The sensor settings of the first `n` numbered motion detectors.
pub open spec fn motion_sensors_spec(
    cands: Seq<(Room, u32, Seq<char>, SheetCell, SheetCell)>,
    nb: Seq<(usize, DeviceInRoom, bool)>,
    n: int,
) -> Seq<(u32, MotionDetectorSettings)>
    decreases n,
{
    if n <= 0 {
        seq![]
    } else {
        motion_sensors_spec(cands, nb, n - 1).push(
            (
                cands[nb[n - 1].0 as int].1,
                MotionDetectorSettings { output: SingleButtonKey::MotionDetector(nb[n - 1].1) },
            ),
        )
    }
}

/// The names of the first `n` numbered motion detectors.
pub open spec fn motion_names_spec(
    cands: Seq<(Room, u32, Seq<char>, SheetCell, SheetCell)>,
    nb: Seq<(usize, DeviceInRoom, bool)>,
    n: int,
) -> Seq<(Seq<char>, SingleButtonKey)>
    decreases n,
{
    if n <= 0 {
        seq![]
    } else {
        motion_names_spec(cands, nb, n - 1).push(
            (cands[nb[n - 1].0 as int].2, SingleButtonKey::MotionDetector(nb[n - 1].1)),
        )
    }
}

/// Whether a kept motion detector row matches a taken row.
pub open spec fn motion_matches(
    uid: u32,
    id: String,
    room: Room,
    cell: SheetCell,
    c: (Room, u32, Seq<char>, SheetCell, SheetCell),
) -> bool {
    &&& uid == c.1
    &&& id@ == c.2
    &&& room == c.0
    &&& cell == c.3
    &&& c.3.coordinates.writable()
}

/// Whether a kept bell row matches a taken row.
pub open spec fn ring_matches(
    uid: u32,
    channel: u8,
    button: SingleButtonKey,
    room: Room,
    cell: SheetCell,
    r: (Room, u32, u8, SingleButtonKey, SheetCell),
) -> bool {
    &&& uid == r.1
    &&& channel == r.2
    &&& button == r.3
    &&& room == r.0
    &&& cell == r.4
    &&& r.4.coordinates.writable()
}

/// Whether two builders agree on all but the motion detector sensors and
/// names, the state cells and the writes.
pub open spec fn same_but_motion(a: WireBuilder, b: WireBuilder) -> bool {
    &&& a.io_entries == b.io_entries
    &&& a.dmx_entries == b.dmx_entries
    &&& a.lcd_screens == b.lcd_screens
    &&& a.temperature_sensors == b.temperature_sensors
    &&& a.relay_entries == b.relay_entries
    &&& a.dual_input_dimmers == b.dual_input_dimmers
    &&& a.dual_input_switches == b.dual_input_switches
    &&& a.motion_detectors == b.motion_detectors
    &&& a.heat_controllers == b.heat_controllers
    &&& a.ring_controllers == b.ring_controllers
    &&& a.single_button_adresses == b.single_button_adresses
    &&& a.dual_button_adresses == b.dual_button_adresses
    &&& a.heat_outputs_addresses == b.heat_outputs_addresses
    &&& a.touchscreen_whitebalance_addresses == b.touchscreen_whitebalance_addresses
    &&& a.touchscreen_brightness_addresses == b.touchscreen_brightness_addresses
}

/// The state cells of taken motion detector rows.
pub open spec fn motion_state_cells(cands: Seq<(Room, u32, Seq<char>, SheetCell, SheetCell)>) -> Seq<(u32, SheetCell)> {
    cands.map_values(|c: (Room, u32, Seq<char>, SheetCell, SheetCell)| (c.1, c.4))
}

impl WireBuilder {
    /// Reads the motion detector table (`[room, address, id, number, state]`):
    /// numbers the detectors within their rooms, and registers each sensor
    /// and its name. Returns the numbering of the taken rows.
    pub fn parse_motion_detectors(&mut self, sheet: &str, rows: &Vec<Vec<SheetCell>>) -> (nb: Vec<(usize, DeviceInRoom, bool)>)
        requires
            table_width(rows@, 5),
            table_writable(rows@),
            rooms_fit(
                motion_rows_spec(rows@, rows@.len() as int).map_values(
                    |c: (Room, u32, Seq<char>, SheetCell, SheetCell)| c.0,
                ),
            ),
        ensures
            ({
                let cands = motion_rows_spec(rows@, rows@.len() as int);
                let rooms = cands.map_values(|c: (Room, u32, Seq<char>, SheetCell, SheetCell)| c.0);
                let cells = cands.map_values(|c: (Room, u32, Seq<char>, SheetCell, SheetCell)| c.3);
                &&& room_numbering_ok(rooms, cells, nb@)
                &&& forall|row: int| 0 <= row < cands.len() ==> #[trigger] numbered(nb@, row)
                &&& final(self).state_cells@ == old(self).state_cells@ + motion_state_cells(cands)
                &&& final(self).motion_detector_sensors@ == old(self).motion_detector_sensors@
                    + motion_sensors_spec(cands, nb@, nb@.len() as int)
                &&& bindings(final(self).motion_detector_adresses.entries@) == bindings(
                    old(self).motion_detector_adresses.entries@,
                ) + motion_names_spec(cands, nb@, nb@.len() as int)
                &&& final(self).updates@.map_values(|u: CellUpdate| update_view(u)) == old(
                    self,
                ).updates@.map_values(|u: CellUpdate| update_view(u)) + idx_updates_spec(
                    sheet@,
                    cells,
                    nb@,
                    nb@.len() as int,
                )
            }),
            same_but_motion(*final(self), *old(self)),
    {
        let ghost cands_spec = motion_rows_spec(rows@, rows@.len() as int);
        let mut uids: Vec<u32> = Vec::new();
        let mut ids: Vec<String> = Vec::new();
        let mut rooms: Vec<Room> = Vec::new();
        let mut cells: Vec<SheetCell> = Vec::new();
        let ghost state0 = self.state_cells@;
        let mut i: usize = 0;
        while i < rows.len()
            invariant
                i <= rows@.len(),
                table_width(rows@, 5),
                table_writable(rows@),
                uids@.len() == ids@.len() == rooms@.len() == cells@.len() == motion_rows_spec(
                    rows@,
                    i as int,
                ).len(),
                uids@.len() <= i,
                forall|k: int|
                    0 <= k < uids@.len() ==> motion_matches(#[trigger] uids@[k], ids@[k], rooms@[k], cells@[k], motion_rows_spec(rows@, i as int)[k]),
                self.state_cells@ == state0 + motion_state_cells(motion_rows_spec(rows@, i as int)),
                same_but_motion(*self, *old(self)),
                self.motion_detector_sensors == old(self).motion_detector_sensors,
                self.motion_detector_adresses == old(self).motion_detector_adresses,
                self.updates == old(self).updates,
            decreases rows.len() - i,
        {
            let row = &rows[i];
            assert(row@.len() == 5);
            proof {
                assert(rows@[i as int]@[3].coordinates.writable());
            }
            match (room_of(&row[0]), uid_of(&row[1]), &row[2].content) {
                (Some(room), Some(uid), Some(id)) => {
                    let ghost (u0, i0, r0, c0) = (uids@, ids@, rooms@, cells@);
                    uids.push(uid);
                    ids.push(string_of(id.as_str()));
                    rooms.push(room);
                    cells.push(copy_cell(&row[3]));
                    self.state_cells.push((uid, copy_cell(&row[4])));
                    proof {
                        let prev = motion_rows_spec(rows@, i as int);
                        let next = motion_rows_spec(rows@, i + 1);
                        assert(next == prev.push((room, uid, id@, row@[3], row@[4])));
                        assert forall|k: int| 0 <= k < uids@.len() implies motion_matches(#[trigger] uids@[k], ids@[k], rooms@[k], cells@[k], next[k]) by {
                            if k < u0.len() {
                                assert(uids@[k] == u0[k]);
                                assert(ids@[k] == i0[k]);
                                assert(rooms@[k] == r0[k]);
                                assert(cells@[k] == c0[k]);
                                assert(next[k] == prev[k]);
                            }
                        }
                        assert(self.state_cells@ =~= state0 + motion_state_cells(
                            motion_rows_spec(rows@, i + 1),
                        ));
                    }
                },
                _ => {},
            }
            i = i + 1;
        }
        proof {
            assert forall|q: int| 0 <= q < rooms@.len() implies rooms@[q] == cands_spec[q].0 && cells@[q]
                == cands_spec[q].3 by {
                assert(uids@[q] == cands_spec[q].1);
            }
            assert(rooms@ =~= cands_spec.map_values(|c: (Room, u32, Seq<char>, SheetCell, SheetCell)| c.0));
            assert(cells@ =~= cands_spec.map_values(|c: (Room, u32, Seq<char>, SheetCell, SheetCell)| c.3));
        }
        let nb = fill_device_idx(&rooms, &cells);
        proof {
            assert forall|q: int| 0 <= q < uids@.len() implies motion_matches(#[trigger] uids@[q], ids@[q], rooms@[q], cells@[q], cands_spec[q]) by {
                assert(uids@[q] == cands_spec[q].1);
            }
        }
        let ghost ms0 = self.motion_detector_sensors@;
        let ghost mn0 = bindings(self.motion_detector_adresses.entries@);
        let ghost up0 = self.updates@.map_values(|u: CellUpdate| update_view(u));
        let ghost sc1 = self.state_cells@;
        let mut k: usize = 0;
        while k < nb.len()
            invariant
                k <= nb@.len(),
                room_numbering_ok(rooms@, cells@, nb@),
                uids@.len() == ids@.len() == rooms@.len() == cells@.len() == cands_spec.len(),
                forall|q: int|
                    0 <= q < uids@.len() ==> motion_matches(#[trigger] uids@[q], ids@[q], rooms@[q], cells@[q], cands_spec[q]),
                self.motion_detector_sensors@ == ms0 + motion_sensors_spec(cands_spec, nb@, k as int),
                bindings(self.motion_detector_adresses.entries@) == mn0 + motion_names_spec(
                    cands_spec,
                    nb@,
                    k as int,
                ),
                self.updates@.map_values(|u: CellUpdate| update_view(u)) == up0 + idx_updates_spec(
                    sheet@,
                    cells@,
                    nb@,
                    k as int,
                ),
                self.state_cells@ == sc1,
                same_but_motion(*self, *old(self)),
            decreases nb.len() - k,
        {
            let e = nb[k];
            let key = SingleButtonKey::MotionDetector(e.1);
            proof {
                assert(uids@[e.0 as int] == cands_spec[e.0 as int].1);
            }
            self.motion_detector_sensors.push((uids[e.0], MotionDetectorSettings { output: key }));
            let ghost names_before = self.motion_detector_adresses.entries@;
            self.motion_detector_adresses.entries.push((string_of(ids[e.0].as_str()), key));
            push_idx_update(sheet, &cells, e, &mut self.updates);
            proof {
                assert(bindings(self.motion_detector_adresses.entries@) =~= bindings(names_before).push(
                    (ids@[e.0 as int]@, key),
                ));
                assert(self.motion_detector_sensors@ =~= ms0 + motion_sensors_spec(cands_spec, nb@, k + 1));
                assert(bindings(self.motion_detector_adresses.entries@) =~= mn0 + motion_names_spec(
                    cands_spec,
                    nb@,
                    k + 1,
                ));
                assert(self.updates@.map_values(|u: CellUpdate| update_view(u)) =~= up0
                    + idx_updates_spec(sheet@, cells@, nb@, k + 1));
            }
            k = k + 1;
        }
        nb
    }
}

/// What a relay row `[room, number, address, channel, sensor, button, state]`
/// gives: room, uid, channel, the heating output its sensor names, the
/// button it names, number cell and state cell.
pub open spec fn relay_row_spec(
    heat: Seq<(Seq<char>, SwitchOutputKey)>,
    buttons: Seq<(Seq<char>, SingleButtonKey)>,
    row: Seq<SheetCell>,
) -> Option<(Room, u32, u8, Option<SwitchOutputKey>, Option<SingleButtonKey>, SheetCell, SheetCell)> {
    match (room_of_spec(row[0]), uid_of_spec(row[2]), row[3].integer) {
        (Some(room), Some(uid), Some(ch)) => Some(
            (
                room,
                uid,
                ch as u8,
                match content_of(row[4]) {
                    Some(k) => lookup_view(heat, k, heat.len() as int),
                    None => None,
                },
                match content_of(row[5]) {
                    Some(k) => lookup_view(buttons, k, buttons.len() as int),
                    None => None,
                },
                row[1],
                row[6],
            ),
        ),
        _ => None,
    }
}

/// What a name was last bound to, over the view of the bindings.
pub open spec fn lookup_view<V>(b: Seq<(Seq<char>, V)>, name: Seq<char>, n: int) -> Option<V>
    decreases n,
{
    if n <= 0 {
        None
    } else if b[n - 1].0 == name {
        Some(b[n - 1].1)
    } else {
        lookup_view(b, name, n - 1)
    }
}

proof fn lemma_lookup_view<V>(m: Seq<(String, V)>, name: Seq<char>, n: int)
    requires
        0 <= n <= m.len(),
    ensures
        lookup_view(bindings(m), name, n) == crate::names::lookup_spec(m, name, n),
    decreases n,
{
    if n > 0 {
        lemma_lookup_view(m, name, n - 1);
    }
}

/// The relay rows taken from the first `n` rows.
pub open spec fn relay_rows_spec(
    heat: Seq<(Seq<char>, SwitchOutputKey)>,
    buttons: Seq<(Seq<char>, SingleButtonKey)>,
    rows: Seq<Vec<SheetCell>>,
    n: int,
) -> Seq<(Room, u32, u8, Option<SwitchOutputKey>, Option<SingleButtonKey>, SheetCell, SheetCell)>
    decreases n,
{
    if n <= 0 {
        seq![]
    } else {
        match relay_row_spec(heat, buttons, rows[n - 1]@) {
            Some(r) => relay_rows_spec(heat, buttons, rows, n - 1).push(r),
            None => relay_rows_spec(heat, buttons, rows, n - 1),
        }
    }
}

/// The heating relay channels of the first `n` taken rows: rows whose sensor
/// names a heating output drive that channel from it.
pub open spec fn heat_channels_spec(
    rows: Seq<(Room, u32, u8, Option<SwitchOutputKey>, Option<SingleButtonKey>, SheetCell, SheetCell)>,
    n: int,
) -> Seq<(u32, RelayChannelEntry)>
    decreases n,
{
    if n <= 0 {
        seq![]
    } else {
        let r = rows[n - 1];
        match r.3 {
            Some(h) => heat_channels_spec(rows, n - 1).push((r.1, RelayChannelEntry { channel: r.2, input: h })),
            None => heat_channels_spec(rows, n - 1),
        }
    }
}

/// The bell rows among the first `n` taken rows: no heating output, but a
/// button.
pub open spec fn ring_rows_spec(
    rows: Seq<(Room, u32, u8, Option<SwitchOutputKey>, Option<SingleButtonKey>, SheetCell, SheetCell)>,
    n: int,
) -> Seq<(Room, u32, u8, SingleButtonKey, SheetCell)>
    decreases n,
{
    if n <= 0 {
        seq![]
    } else {
        let r = rows[n - 1];
        match (r.3, r.4) {
            (None, Some(b)) => ring_rows_spec(rows, n - 1).push((r.0, r.1, r.2, b, r.5)),
            _ => ring_rows_spec(rows, n - 1),
        }
    }
}

/// The relay channels and bell controllers of the first `n` numbered bells.
pub open spec fn ring_channels_spec(
    rings: Seq<(Room, u32, u8, SingleButtonKey, SheetCell)>,
    nb: Seq<(usize, DeviceInRoom, bool)>,
    n: int,
) -> Seq<(u32, RelayChannelEntry)>
    decreases n,
{
    if n <= 0 {
        seq![]
    } else {
        let r = rings[nb[n - 1].0 as int];
        ring_channels_spec(rings, nb, n - 1).push(
            (r.1, RelayChannelEntry { channel: r.2, input: SwitchOutputKey::Bell(nb[n - 1].1) }),
        )
    }
}

/// The bell controllers of the first `n` numbered bells.
pub open spec fn ring_controllers_spec(
    rings: Seq<(Room, u32, u8, SingleButtonKey, SheetCell)>,
    nb: Seq<(usize, DeviceInRoom, bool)>,
    n: int,
) -> Seq<RingController>
    decreases n,
{
    if n <= 0 {
        seq![]
    } else {
        let r = rings[nb[n - 1].0 as int];
        ring_controllers_spec(rings, nb, n - 1).push(
            RingController { input: r.3, output: SwitchOutputKey::Bell(nb[n - 1].1) },
        )
    }
}

/// Whether two builders agree on all but the relay channels, bell
/// controllers, state cells and writes.
pub open spec fn same_but_relays(a: WireBuilder, b: WireBuilder) -> bool {
    &&& a.io_entries == b.io_entries
    &&& a.dmx_entries == b.dmx_entries
    &&& a.lcd_screens == b.lcd_screens
    &&& a.temperature_sensors == b.temperature_sensors
    &&& a.motion_detector_sensors == b.motion_detector_sensors
    &&& a.dual_input_dimmers == b.dual_input_dimmers
    &&& a.dual_input_switches == b.dual_input_switches
    &&& a.motion_detectors == b.motion_detectors
    &&& a.heat_controllers == b.heat_controllers
    &&& a.single_button_adresses == b.single_button_adresses
    &&& a.dual_button_adresses == b.dual_button_adresses
    &&& a.heat_outputs_addresses == b.heat_outputs_addresses
    &&& a.touchscreen_whitebalance_addresses == b.touchscreen_whitebalance_addresses
    &&& a.touchscreen_brightness_addresses == b.touchscreen_brightness_addresses
    &&& a.motion_detector_adresses == b.motion_detector_adresses
}

/// The state cells of taken relay rows.
pub open spec fn relay_state_cells(
    rows: Seq<(Room, u32, u8, Option<SwitchOutputKey>, Option<SingleButtonKey>, SheetCell, SheetCell)>,
) -> Seq<(u32, SheetCell)> {
    rows.map_values(
        |r: (Room, u32, u8, Option<SwitchOutputKey>, Option<SingleButtonKey>, SheetCell, SheetCell)|
            (r.1, r.6),
    )
}

impl WireBuilder {
    /// Reads the relay table (`[room, number, address, channel, sensor,
    /// button, state]`): a channel whose sensor names a heating output is
    /// driven by it; otherwise one whose button is known rings a bell, and the
    /// bells are numbered within their rooms. Returns the numbering of the bells.
    pub fn parse_relays(&mut self, sheet: &str, rows: &Vec<Vec<SheetCell>>) -> (nb: Vec<(usize, DeviceInRoom, bool)>)
        requires
            table_width(rows@, 7),
            table_writable(rows@),
            ({
                let taken = relay_rows_spec(
                    bindings(old(self).heat_outputs_addresses.entries@),
                    bindings(old(self).single_button_adresses.entries@),
                    rows@,
                    rows@.len() as int,
                );
                rooms_fit(
                    ring_rows_spec(taken, taken.len() as int).map_values(
                        |r: (Room, u32, u8, SingleButtonKey, SheetCell)| r.0,
                    ),
                )
            }),
        ensures
            ({
                let taken = relay_rows_spec(
                    bindings(old(self).heat_outputs_addresses.entries@),
                    bindings(old(self).single_button_adresses.entries@),
                    rows@,
                    rows@.len() as int,
                );
                let rings = ring_rows_spec(taken, taken.len() as int);
                let rooms = rings.map_values(|r: (Room, u32, u8, SingleButtonKey, SheetCell)| r.0);
                let cells = rings.map_values(|r: (Room, u32, u8, SingleButtonKey, SheetCell)| r.4);
                &&& room_numbering_ok(rooms, cells, nb@)
                &&& forall|row: int| 0 <= row < rings.len() ==> #[trigger] numbered(nb@, row)
                &&& final(self).state_cells@ == old(self).state_cells@ + relay_state_cells(taken)
                &&& final(self).relay_entries@ == old(self).relay_entries@ + heat_channels_spec(
                    taken,
                    taken.len() as int,
                ) + ring_channels_spec(rings, nb@, nb@.len() as int)
                &&& final(self).ring_controllers@ == old(self).ring_controllers@
                    + ring_controllers_spec(rings, nb@, nb@.len() as int)
                &&& final(self).updates@.map_values(|u: CellUpdate| update_view(u)) == old(
                    self,
                ).updates@.map_values(|u: CellUpdate| update_view(u)) + idx_updates_spec(
                    sheet@,
                    cells,
                    nb@,
                    nb@.len() as int,
                )
            }),
            same_but_relays(*final(self), *old(self)),
    {
        let ghost heat = bindings(self.heat_outputs_addresses.entries@);
        let ghost buttons = bindings(self.single_button_adresses.entries@);
        let ghost taken_spec = relay_rows_spec(heat, buttons, rows@, rows@.len() as int);
        let ghost state0 = self.state_cells@;
        let ghost relay0 = self.relay_entries@;
        let mut n_taken: usize = 0;
        let mut ring_uids: Vec<u32> = Vec::new();
        let mut ring_channels: Vec<u8> = Vec::new();
        let mut ring_buttons: Vec<SingleButtonKey> = Vec::new();
        let mut rooms: Vec<Room> = Vec::new();
        let mut cells: Vec<SheetCell> = Vec::new();
        let mut i: usize = 0;
        while i < rows.len()
            invariant
                i <= rows@.len(),
                table_width(rows@, 7),
                table_writable(rows@),
                heat == bindings(self.heat_outputs_addresses.entries@),
                buttons == bindings(self.single_button_adresses.entries@),
                n_taken == relay_rows_spec(heat, buttons, rows@, i as int).len(),
                n_taken <= i,
                rooms@.len() <= n_taken,
                ({
                    let rings = ring_rows_spec(
                        relay_rows_spec(heat, buttons, rows@, i as int),
                        n_taken as int,
                    );
                    &&& ring_uids@.len() == ring_channels@.len() == ring_buttons@.len() == rooms@.len()
                        == cells@.len() == rings.len()
                    &&& forall|k: int|
                        0 <= k < rings.len() ==> ring_matches(#[trigger] ring_uids@[k], ring_channels@[k], ring_buttons@[k], rooms@[k], cells@[k], rings[k])
                }),
                self.state_cells@ == state0 + relay_state_cells(relay_rows_spec(heat, buttons, rows@, i as int)),
                self.relay_entries@ == relay0 + heat_channels_spec(
                    relay_rows_spec(heat, buttons, rows@, i as int),
                    n_taken as int,
                ),
                same_but_relays(*self, *old(self)),
                self.ring_controllers == old(self).ring_controllers,
                self.updates == old(self).updates,
            decreases rows.len() - i,
        {
            let row = &rows[i];
            assert(row@.len() == 7);
            proof {
                assert(rows@[i as int]@[1].coordinates.writable());
                lemma_lookup_view(self.heat_outputs_addresses.entries@, content_of(row@[4])->0, self.heat_outputs_addresses.entries@.len() as int);
                lemma_lookup_view(self.single_button_adresses.entries@, content_of(row@[5])->0, self.single_button_adresses.entries@.len() as int);
            }
            match (room_of(&row[0]), uid_of(&row[2]), row[3].integer) {
                (Some(room), Some(uid), Some(ch)) => {
                    let channel = ch as u8;
                    let temperature = match &row[4].content {
                        Some(k) => self.heat_outputs_addresses.get(k.as_str()),
                        None => None,
                    };
                    let ring_button = match &row[5].content {
                        Some(k) => self.single_button_adresses.get(k.as_str()),
                        None => None,
                    };
                    let ghost prev = relay_rows_spec(heat, buttons, rows@, i as int);
                    let ghost next = relay_rows_spec(heat, buttons, rows@, i + 1);
                    proof {
                        assert(next == prev.push(next[prev.len() as int]));
                        assert(ring_rows_spec(next, prev.len() as int) == ring_rows_spec(prev, prev.len() as int)) by {
                            lemma_ring_rows_prefix(next, prev, prev.len() as int);
                        }
                        assert(heat_channels_spec(next, prev.len() as int) == heat_channels_spec(prev, prev.len() as int)) by {
                            lemma_heat_prefix(next, prev, prev.len() as int);
                        }
                    }
                    let ghost (u0, ch0, b0, r0, c0) = (ring_uids@, ring_channels@, ring_buttons@, rooms@, cells@);
                    match temperature {
                        Some(h) => {
                            self.relay_entries.push((uid, RelayChannelEntry { channel, input: h }));
                        },
                        None => match ring_button {
                            Some(b) => {
                                ring_uids.push(uid);
                                ring_channels.push(channel);
                                ring_buttons.push(b);
                                rooms.push(room);
                                cells.push(copy_cell(&row[1]));
                            },
                            None => {},
                        },
                    }
                    proof {
                        let rings_prev = ring_rows_spec(prev, prev.len() as int);
                        let rings_next = ring_rows_spec(next, next.len() as int);
                        let last = next[prev.len() as int];
                        assert(last.3 == temperature);
                        assert(last.4 == ring_button);
                        if temperature is Some || ring_button is None {
                            assert(rings_next == rings_prev);
                        } else {
                            assert(rings_next == rings_prev.push((room, uid, channel, ring_button->0, row@[1])));
                        }
                        assert(rings_next.len() == ring_uids@.len());
                        assert forall|k: int| 0 <= k < rings_next.len() implies (ring_matches(#[trigger] ring_uids@[k], ring_channels@[k], ring_buttons@[k], rooms@[k], cells@[k], rings_next[k])) by {
                            if k < u0.len() {
                                assert(ring_uids@[k] == u0[k]);
                                assert(ring_channels@[k] == ch0[k]);
                                assert(ring_buttons@[k] == b0[k]);
                                assert(rooms@[k] == r0[k]);
                                assert(cells@[k] == c0[k]);
                                assert(rings_next[k] == rings_prev[k]);
                            }
                        }
                    }
                    self.state_cells.push((uid, copy_cell(&row[6])));
                    n_taken = n_taken + 1;
                    proof {
                        assert(self.state_cells@ =~= state0 + relay_state_cells(next));
                        assert(self.relay_entries@ =~= relay0 + heat_channels_spec(next, n_taken as int));
                    }
                },
                _ => {},
            }
            i = i + 1;
        }
        let ghost rings_spec = ring_rows_spec(taken_spec, taken_spec.len() as int);
        proof {
            assert forall|q: int| 0 <= q < rooms@.len() implies rooms@[q] == rings_spec[q].0 && cells@[q]
                == rings_spec[q].4 by {
                assert(ring_uids@[q] == rings_spec[q].1);
            }
            assert(rooms@ =~= rings_spec.map_values(|r: (Room, u32, u8, SingleButtonKey, SheetCell)| r.0));
            assert(cells@ =~= rings_spec.map_values(|r: (Room, u32, u8, SingleButtonKey, SheetCell)| r.4));
        }
        let nb = fill_device_idx(&rooms, &cells);
        let ghost relay1 = self.relay_entries@;
        let ghost rc0 = self.ring_controllers@;
        let ghost up0 = self.updates@.map_values(|u: CellUpdate| update_view(u));
        let ghost sc1 = self.state_cells@;
        let mut k: usize = 0;
        while k < nb.len()
            invariant
                k <= nb@.len(),
                room_numbering_ok(rooms@, cells@, nb@),
                ring_uids@.len() == ring_channels@.len() == ring_buttons@.len() == rooms@.len()
                    == cells@.len() == rings_spec.len(),
                forall|q: int|
                    0 <= q < rings_spec.len() ==> ring_matches(#[trigger] ring_uids@[q], ring_channels@[q], ring_buttons@[q], rooms@[q], cells@[q], rings_spec[q]),
                self.relay_entries@ == relay1 + ring_channels_spec(rings_spec, nb@, k as int),
                self.ring_controllers@ == rc0 + ring_controllers_spec(rings_spec, nb@, k as int),
                self.updates@.map_values(|u: CellUpdate| update_view(u)) == up0 + idx_updates_spec(
                    sheet@,
                    cells@,
                    nb@,
                    k as int,
                ),
                self.state_cells@ == sc1,
                same_but_relays(*self, *old(self)),
            decreases nb.len() - k,
        {
            let e = nb[k];
            let output = SwitchOutputKey::Bell(e.1);
            proof {
                assert(ring_uids@[e.0 as int] == rings_spec[e.0 as int].1);
            }
            self.ring_controllers.push(RingController { input: ring_buttons[e.0], output });
            self.relay_entries.push((ring_uids[e.0], RelayChannelEntry { channel: ring_channels[e.0], input: output }));
            push_idx_update(sheet, &cells, e, &mut self.updates);
            proof {
                assert(self.relay_entries@ =~= relay1 + ring_channels_spec(rings_spec, nb@, k + 1));
                assert(self.ring_controllers@ =~= rc0 + ring_controllers_spec(rings_spec, nb@, k + 1));
                assert(self.updates@.map_values(|u: CellUpdate| update_view(u)) =~= up0
                    + idx_updates_spec(sheet@, cells@, nb@, k + 1));
            }
            k = k + 1;
        }
        proof {
            assert(self.relay_entries@ =~= relay0 + heat_channels_spec(taken_spec, taken_spec.len() as int)
                + ring_channels_spec(rings_spec, nb@, nb@.len() as int));
        }
        nb
    }
}

proof fn lemma_ring_rows_prefix(
    a: Seq<(Room, u32, u8, Option<SwitchOutputKey>, Option<SingleButtonKey>, SheetCell, SheetCell)>,
    b: Seq<(Room, u32, u8, Option<SwitchOutputKey>, Option<SingleButtonKey>, SheetCell, SheetCell)>,
    n: int,
)
    requires
        0 <= n <= a.len(),
        n <= b.len(),
        forall|i: int| 0 <= i < n ==> a[i] == b[i],
    ensures
        ring_rows_spec(a, n) == ring_rows_spec(b, n),
    decreases n,
{
    if n > 0 {
        lemma_ring_rows_prefix(a, b, n - 1);
    }
}

proof fn lemma_heat_prefix(
    a: Seq<(Room, u32, u8, Option<SwitchOutputKey>, Option<SingleButtonKey>, SheetCell, SheetCell)>,
    b: Seq<(Room, u32, u8, Option<SwitchOutputKey>, Option<SingleButtonKey>, SheetCell, SheetCell)>,
    n: int,
)
    requires
        0 <= n <= a.len(),
        n <= b.len(),
        forall|i: int| 0 <= i < n ==> a[i] == b[i],
    ensures
        heat_channels_spec(a, n) == heat_channels_spec(b, n),
    decreases n,
{
    if n > 0 {
        lemma_heat_prefix(a, b, n - 1);
    }
}

} // verus!
