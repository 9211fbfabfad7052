//! Reading an endpoint table of the sheet (tinkerforge or shelly
//! endpoints): the addresses, the names of their places, and the texts of
//! their state cells.
use vstd::prelude::*;
use crate::sheet::{create_content_update, range_text, shows, CellUpdate, SheetCell};
use crate::sheet_reader::{content_of, WireBuilder};
use crate::sheet_table::write_view;
use crate::state::{ConnectionState, IpAddress};
use crate::text::{new_string, push_str, string_of};

verus! {

/// A row of an endpoint table: the address where its cell reads as one, the
/// state cell, the place cell, and the text the state cell is to show where
/// the endpoint's state is known.
#[derive(Debug, Clone)]
pub struct EndpointRow {
    pub address: Option<IpAddress>,
    pub state: SheetCell,
    pub place: SheetCell,
    pub shown_state: Option<String>,
}

/// The text of an endpoint's state: `"{state} at {time}"`.
pub open spec fn endpoint_state_spec(state: ConnectionState, time: Seq<char>) -> Seq<char> {
    (match state {
        ConnectionState::Connected => "Connected"@,
        ConnectionState::Disconnected => "Not Connected"@,
    }) + " at "@ + time
}

/// The text of an endpoint's state; `time` is its last change as it is shown.
pub fn endpoint_state_text(state: ConnectionState, time: &str) -> (s: String)
    ensures
        s@ == endpoint_state_spec(state, time@),
{
    proof {
        reveal_strlit(" at ");
    }
    let mut s = string_of(state.name());
    push_str(&mut s, " at ");
    push_str(&mut s, time);
    s
}

/// The addresses of the first `n` rows that have one.
pub open spec fn endpoints_spec(rows: Seq<EndpointRow>, n: int) -> Seq<IpAddress>
    decreases n,
{
    if n <= 0 {
        seq![]
    } else {
        match rows[n - 1].address {
            Some(a) => endpoints_spec(rows, n - 1).push(a),
            None => endpoints_spec(rows, n - 1),
        }
    }
}

/// The place names of the first `n` rows that have an address (empty where
/// the place cell shows nothing).
pub open spec fn endpoint_names_spec(rows: Seq<EndpointRow>, n: int) -> Seq<(IpAddress, Seq<char>)>
    decreases n,
{
    if n <= 0 {
        seq![]
    } else {
        match rows[n - 1].address {
            Some(a) => endpoint_names_spec(rows, n - 1).push(
                (
                    a,
                    match content_of(rows[n - 1].place) {
                        Some(p) => p,
                        None => seq![],
                    },
                ),
            ),
            None => endpoint_names_spec(rows, n - 1),
        }
    }
}

/// The state cell writes of the first `n` rows: a row with an address and a
/// known state whose cell does not show that state yet.
pub open spec fn endpoint_updates_spec(sheet: Seq<char>, rows: Seq<EndpointRow>, n: int) -> Seq<
    (Seq<char>, (int, Seq<char>, int)),
>
    decreases n,
{
    if n <= 0 {
        seq![]
    } else {
        let r = rows[n - 1];
        match (r.address, r.shown_state) {
            (Some(_), Some(t)) => if shows(r.state, t@) {
                endpoint_updates_spec(sheet, rows, n - 1)
            } else {
                endpoint_updates_spec(sheet, rows, n - 1).push(
                    (range_text(sheet, r.state.coordinates), (0, t@, 0)),
                )
            },
            _ => endpoint_updates_spec(sheet, rows, n - 1),
        }
    }
}

/// Whether two builders agree on all but the writes.
pub open spec fn same_but_updates(a: WireBuilder, b: WireBuilder) -> bool {
    &&& a.io_entries == b.io_entries
    &&& a.dmx_entries == b.dmx_entries
    &&& a.lcd_screens == b.lcd_screens
    &&& a.temperature_sensors == b.temperature_sensors
    &&& a.motion_detector_sensors == b.motion_detector_sensors
    &&& a.relay_entries == b.relay_entries
    &&& a.dual_input_dimmers == b.dual_input_dimmers
    &&& a.dual_input_switches == b.dual_input_switches
    &&& a.motion_detectors == b.motion_detectors
    &&& a.heat_controllers == b.heat_controllers
    &&& a.ring_controllers == b.ring_controllers
    &&& a.single_button_adresses == b.single_button_adresses
    &&& a.dual_button_adresses == b.dual_button_adresses
    &&& a.heat_outputs_addresses == b.heat_outputs_addresses
    &&& a.touchscreen_whitebalance_addresses == b.touchscreen_whitebalance_addresses
    &&& a.touchscreen_brightness_addresses == b.touchscreen_brightness_addresses
    &&& a.motion_detector_adresses == b.motion_detector_adresses
    &&& a.state_cells == b.state_cells
}

/// The endpoints of a table and the names of their places.
pub struct EndpointTable {
    pub endpoints: Vec<IpAddress>,
    pub names: Vec<(IpAddress, String)>,
}

impl WireBuilder {
    /// Reads an endpoint table: the rows whose address reads give the
    /// endpoints, in row order, and name them after their place; their state
    /// cells are written where they do not show the known state.
    pub fn parse_ip_endpoints(&mut self, sheet: &str, rows: &Vec<EndpointRow>) -> (t: EndpointTable)
        requires
            forall|i: int| 0 <= i < rows@.len() ==> (#[trigger] rows@[i]).state.coordinates.writable(),
        ensures
            t.endpoints@ == endpoints_spec(rows@, rows@.len() as int),
            t.names@.map_values(|e: (IpAddress, String)| (e.0, e.1@)) == endpoint_names_spec(
                rows@,
                rows@.len() as int,
            ),
            final(self).updates@.map_values(|u: CellUpdate| write_view(u)) == old(self).updates@.map_values(
                |u: CellUpdate| write_view(u),
            ) + endpoint_updates_spec(sheet@, rows@, rows@.len() as int),
            same_but_updates(*final(self), *old(self)),
    {
        let ghost updates0 = self.updates@.map_values(|u: CellUpdate| write_view(u));
        let mut endpoints: Vec<IpAddress> = Vec::new();
        let mut names: Vec<(IpAddress, String)> = Vec::new();
        let mut i: usize = 0;
        while i < rows.len()
            invariant
                i <= rows@.len(),
                forall|k: int| 0 <= k < rows@.len() ==> (#[trigger] rows@[k]).state.coordinates.writable(),
                endpoints@ == endpoints_spec(rows@, i as int),
                names@.map_values(|e: (IpAddress, String)| (e.0, e.1@)) == endpoint_names_spec(rows@, i as int),
                self.updates@.map_values(|u: CellUpdate| write_view(u)) == updates0 + endpoint_updates_spec(
                    sheet@,
                    rows@,
                    i as int,
                ),
                same_but_updates(*self, *old(self)),
                updates0 == old(self).updates@.map_values(|u: CellUpdate| write_view(u)),
            decreases rows.len() - i,
        {
            let row = &rows[i];
            assert(row.state.coordinates.writable());
            match row.address {
                Some(a) => {
                    endpoints.push(a);
                    let place = match &row.place.content {
                        Some(p) => string_of(p.as_str()),
                        None => new_string(),
                    };
                    let ghost names_before = names@;
                    let ghost place_view = place@;
                    names.push((a, place));
                    proof {
                        assert(names@.map_values(|e: (IpAddress, String)| (e.0, e.1@)) =~= names_before.map_values(
                            |e: (IpAddress, String)| (e.0, e.1@),
                        ).push((a, place_view)));
                    }
                    match &row.shown_state {
                        Some(t) => {
                            match create_content_update(sheet, &row.state, t.as_str()) {
                                Some(u) => {
                                    let ghost before = self.updates@;
                                    let ghost u_view = write_view(u);
                                    assert(u_view == (range_text(sheet@, row.state.coordinates), (0int, t@, 0int)));
                                    self.updates.push(u);
                                    proof {
                                        assert(self.updates@.map_values(|u: CellUpdate| write_view(u)) =~= before.map_values(
                                            |u: CellUpdate| write_view(u),
                                        ).push(u_view));
                                    }
                                },
                                None => {},
                            }
                        },
                        None => {},
                    }
                },
                None => {},
            }
            i = i + 1;
        }
        EndpointTable { endpoints, names }
    }
}

} // verus!
