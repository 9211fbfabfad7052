//! Putting the collected sheet data together: bricklet settings grouped by
//! uid in ascending order.
use vstd::prelude::*;
use crate::sheet_reader::WireBuilder;
use crate::state::IpAddress;
use crate::wiring::{
    Controllers, DmxSettings, IoSettings, RelaySettings, TinkerforgeDevices, Wiring,
};

verus! {

/// The items recorded for `uid` among the first `n` entries, in order.
pub open spec fn items_for<T>(e: Seq<(u32, T)>, uid: u32, n: int) -> Seq<T>
    decreases n,
{
    if n <= 0 {
        seq![]
    } else if e[n - 1].0 == uid {
        items_for(e, uid, n - 1).push(e[n - 1].1)
    } else {
        items_for(e, uid, n - 1)
    }
}

/// Whether some entry is recorded for `uid`.
pub open spec fn has_uid<T>(e: Seq<(u32, T)>, uid: u32) -> bool {
    exists|k: int| 0 <= k < e.len() && e[k].0 == uid
}

/// Whether `uid` has an entry in a list keyed by uid.
pub open spec fn covered<V>(r: Seq<(u32, V)>, uid: u32) -> bool {
    exists|i: int| 0 <= i < r.len() && r[i].0 == uid
}

/// What grouping by uid gives: uids ascending, each uid with entries once,
/// each with its items in order.
pub open spec fn grouped_ok<T>(e: Seq<(u32, T)>, r: Seq<(u32, Seq<T>)>) -> bool {
    &&& forall|i: int, j: int| 0 <= i < j < r.len() ==> r[i].0 < r[j].0
    &&& forall|i: int| 0 <= i < r.len() ==> has_uid(e, (#[trigger] r[i]).0)
    &&& forall|k: int| 0 <= k < e.len() ==> #[trigger] covered(r, e[k].0)
    &&& forall|i: int| 0 <= i < r.len() ==> (#[trigger] r[i]).1 == items_for(e, r[i].0, e.len() as int)
}

/// The smallest uid at least `bound` among the entries, if any.
fn next_uid<T>(e: &Vec<(u32, T)>, bound: u64) -> (r: Option<u32>)
    ensures
        match r {
            Some(u) => bound <= u && has_uid(e@, u) && forall|k: int| 0 <= k < e@.len() && bound <= e@[k].0 ==> u <= e@[k].0,
            None => forall|k: int| 0 <= k < e@.len() ==> e@[k].0 < bound,
        },
{
    let mut best: Option<u32> = None;
    let mut k: usize = 0;
    while k < e.len()
        invariant
            k <= e@.len(),
            match best {
                Some(u) => bound <= u && has_uid(e@, u) && forall|m: int| 0 <= m < k && bound <= e@[m].0 ==> u <= e@[m].0,
                None => forall|m: int| 0 <= m < k ==> e@[m].0 < bound,
            },
        decreases e.len() - k,
    {
        let u = e[k].0;
        if u as u64 >= bound {
            match best {
                Some(b) => {
                    if u < b {
                        best = Some(u);
                    }
                },
                None => {
                    best = Some(u);
                },
            }
        }
        k = k + 1;
    }
    best
}

/// The items recorded for `uid`, in order.
fn collect_for<T: Copy>(e: &Vec<(u32, T)>, uid: u32) -> (r: Vec<T>)
    ensures
        r@ == items_for(e@, uid, e@.len() as int),
{
    let mut r: Vec<T> = Vec::new();
    let mut k: usize = 0;
    while k < e.len()
        invariant
            k <= e@.len(),
            r@ == items_for(e@, uid, k as int),
        decreases e.len() - k,
    {
        if e[k].0 == uid {
            r.push(e[k].1);
        }
        k = k + 1;
    }
    r
}

/// Groups entries by uid, uids ascending.
pub fn group_by_uid<T: Copy>(e: &Vec<(u32, T)>) -> (r: Vec<(u32, Vec<T>)>)
    ensures
        grouped_ok(e@, r@.map_values(|g: (u32, Vec<T>)| (g.0, g.1@))),
{
    let mut r: Vec<(u32, Vec<T>)> = Vec::new();
    let mut bound: u64 = 0;
    loop
        invariant
            bound <= 0x1_0000_0000,
            ({
                let rv = r@.map_values(|g: (u32, Vec<T>)| (g.0, g.1@));
                &&& forall|i: int, j: int| 0 <= i < j < rv.len() ==> rv[i].0 < rv[j].0
                &&& forall|i: int| 0 <= i < rv.len() ==> rv[i].0 < bound
                &&& forall|i: int| 0 <= i < rv.len() ==> has_uid(e@, (#[trigger] rv[i]).0)
                &&& forall|k: int|
                    0 <= k < e@.len() && e@[k].0 < bound ==> #[trigger] covered(rv, e@[k].0)
                &&& forall|i: int| 0 <= i < rv.len() ==> (#[trigger] rv[i]).1 == items_for(e@, rv[i].0, e@.len() as int)
            }),
        ensures
            grouped_ok(e@, r@.map_values(|g: (u32, Vec<T>)| (g.0, g.1@))),
        decreases 0x1_0000_0000 - bound,
    {
        let ghost rv0 = r@.map_values(|g: (u32, Vec<T>)| (g.0, g.1@));
        match next_uid(e, bound) {
            None => {
                proof {
                    let rv = r@.map_values(|g: (u32, Vec<T>)| (g.0, g.1@));
                    assert(rv == rv0);
                    assert forall|k: int| 0 <= k < e@.len() implies #[trigger] covered(rv, e@[k].0) by {
                        assert(e@[k].0 < bound);
                    }
                }
                break;
            },
            Some(u) => {
                let items = collect_for(e, u);
                r.push((u, items));
                bound = u as u64 + 1;
                proof {
                    let rv = r@.map_values(|g: (u32, Vec<T>)| (g.0, g.1@));
                    assert(rv =~= rv0.push((u, items@)));
                    assert forall|k: int| 0 <= k < e@.len() && e@[k].0 < bound implies #[trigger] covered(rv, e@[k].0) by {
                        if e@[k].0 == u {
                            assert(rv[rv.len() - 1].0 == u);
                        } else {
                            assert(covered(rv0, e@[k].0));
                            let i = choose|i: int| 0 <= i < rv0.len() && rv0[i].0 == e@[k].0;
                            assert(rv[i] == rv0[i]);
                        }
                    }
                }
            },
        }
    }
    r
}

/// The last item recorded for `uid`.
pub open spec fn last_for<T>(e: Seq<(u32, T)>, uid: u32) -> T {
    items_for(e, uid, e.len() as int).last()
}

proof fn lemma_items_nonempty<T>(e: Seq<(u32, T)>, uid: u32, n: int)
    requires
        0 <= n <= e.len(),
        exists|k: int| 0 <= k < n && e[k].0 == uid,
    ensures
        items_for(e, uid, n).len() > 0,
    decreases n,
{
    if e[n - 1].0 != uid {
        let k = choose|k: int| 0 <= k < n && e[k].0 == uid;
        lemma_items_nonempty(e, uid, n - 1);
    }
}

/// Per uid (ascending) the item recorded last: a later setting for a bricklet
/// replaces an earlier one.
pub fn last_by_uid<T: Copy>(e: &Vec<(u32, T)>) -> (r: Vec<(u32, T)>)
    ensures
        forall|i: int, j: int| 0 <= i < j < r@.len() ==> r@[i].0 < r@[j].0,
        forall|i: int| 0 <= i < r@.len() ==> has_uid(e@, (#[trigger] r@[i]).0),
        forall|k: int| 0 <= k < e@.len() ==> #[trigger] covered(r@, e@[k].0),
        forall|i: int| 0 <= i < r@.len() ==> (#[trigger] r@[i]).1 == last_for(e@, r@[i].0),
{
    let groups = group_by_uid(e);
    let ghost gv = groups@.map_values(|g: (u32, Vec<T>)| (g.0, g.1@));
    let mut r: Vec<(u32, T)> = Vec::new();
    let mut i: usize = 0;
    while i < groups.len()
        invariant
            i <= groups@.len(),
            gv == groups@.map_values(|g: (u32, Vec<T>)| (g.0, g.1@)),
            grouped_ok(e@, gv),
            r@.len() == i,
            forall|q: int| 0 <= q < i ==> (#[trigger] r@[q]).0 == gv[q].0 && r@[q].1 == last_for(e@, gv[q].0),
        decreases groups.len() - i,
    {
        let (u, items) = (groups[i].0, &groups[i].1);
        proof {
            assert(gv[i as int].0 == u);
            assert(has_uid(e@, u));
            let k = choose|k: int| 0 <= k < e@.len() && e@[k].0 == u;
            lemma_items_nonempty(e@, u, e@.len() as int);
            assert(items@ == items_for(e@, u, e@.len() as int));
        }
        let last = items[items.len() - 1];
        r.push((u, last));
        i = i + 1;
    }
    proof {
        assert(grouped_ok(e@, gv));
        assert forall|k: int| 0 <= k < e@.len() implies #[trigger] covered(r@, e@[k].0) by {
            assert(covered(gv, e@[k].0));
            let i = choose|i: int| 0 <= i < gv.len() && gv[i].0 == e@[k].0;
            assert(r@[i].0 == gv[i].0);
        }
        assert forall|a: int, b: int| 0 <= a < b < r@.len() implies r@[a].0 < r@[b].0 by {
            assert(r@[a].0 == gv[a].0);
            assert(r@[b].0 == gv[b].0);
        }
        assert forall|a: int| 0 <= a < r@.len() implies has_uid(e@, (#[trigger] r@[a]).0) by {
            assert(r@[a].0 == gv[a].0);
        }
    }
    r
}

impl WireBuilder {
    /// The wiring: controllers as collected, bricklet settings grouped by uid
    /// (ascending), and the endpoints.
    pub fn build(self, tinkerforge_endpoints: Vec<IpAddress>, shelly_endpoints: Vec<IpAddress>) -> (w: Wiring)
        ensures
            w.controllers.dual_input_dimmers == self.dual_input_dimmers,
            w.controllers.dual_input_switches == self.dual_input_switches,
            w.controllers.motion_detectors == self.motion_detectors,
            w.controllers.heat_controllers == self.heat_controllers,
            w.controllers.ring_controllers == self.ring_controllers,
            w.tinkerforge_devices.endpoints == tinkerforge_endpoints,
            w.shelly_endpoints == shelly_endpoints,
            grouped_ok(self.io_entries@, w.tinkerforge_devices.io_bricklets@.map_values(|g: (u32, IoSettings)| (g.0, g.1.entries@))),
            grouped_ok(self.dmx_entries@, w.tinkerforge_devices.dmx_bricklets@.map_values(|g: (u32, DmxSettings)| (g.0, g.1.entries@))),
            grouped_ok(self.relay_entries@, w.tinkerforge_devices.relays@.map_values(|g: (u32, RelaySettings)| (g.0, g.1.entries@))),
            forall|i: int| 0 <= i < w.tinkerforge_devices.lcd_screens@.len() ==> (#[trigger] w.tinkerforge_devices.lcd_screens@[i]).1
                == last_for(self.lcd_screens@, w.tinkerforge_devices.lcd_screens@[i].0),
            forall|k: int| 0 <= k < self.lcd_screens@.len() ==> #[trigger] covered(w.tinkerforge_devices.lcd_screens@, self.lcd_screens@[k].0),
            forall|i: int| 0 <= i < w.tinkerforge_devices.temperature_sensors@.len() ==> (#[trigger] w.tinkerforge_devices.temperature_sensors@[i]).1
                == last_for(self.temperature_sensors@, w.tinkerforge_devices.temperature_sensors@[i].0),
            forall|k: int| 0 <= k < self.temperature_sensors@.len() ==> #[trigger] covered(w.tinkerforge_devices.temperature_sensors@, self.temperature_sensors@[k].0),
            forall|i: int| 0 <= i < w.tinkerforge_devices.motion_detectors@.len() ==> (#[trigger] w.tinkerforge_devices.motion_detectors@[i]).1
                == last_for(self.motion_detector_sensors@, w.tinkerforge_devices.motion_detectors@[i].0),
            forall|k: int| 0 <= k < self.motion_detector_sensors@.len() ==> #[trigger] covered(w.tinkerforge_devices.motion_detectors@, self.motion_detector_sensors@[k].0),
    {
        let io = group_by_uid(&self.io_entries);
        let dmx = group_by_uid(&self.dmx_entries);
        let relays = group_by_uid(&self.relay_entries);
        let lcd_screens = last_by_uid(&self.lcd_screens);
        let temperature_sensors = last_by_uid(&self.temperature_sensors);
        let motion_detectors = last_by_uid(&self.motion_detector_sensors);
        let mut io_bricklets: Vec<(u32, IoSettings)> = Vec::new();
        let mut i: usize = 0;
        while i < io.len()
            invariant
                i <= io@.len(),
                io_bricklets@.len() == i,
                forall|q: int| 0 <= q < i ==> (#[trigger] io_bricklets@[q]).0 == io@[q].0 && io_bricklets@[q].1.entries@ == io@[q].1@,
            decreases io.len() - i,
        {
            io_bricklets.push((io[i].0, IoSettings { entries: io[i].1.clone() }));
            i = i + 1;
        }
        let mut dmx_bricklets: Vec<(u32, DmxSettings)> = Vec::new();
        let mut i: usize = 0;
        while i < dmx.len()
            invariant
                i <= dmx@.len(),
                dmx_bricklets@.len() == i,
                forall|q: int| 0 <= q < i ==> (#[trigger] dmx_bricklets@[q]).0 == dmx@[q].0 && dmx_bricklets@[q].1.entries@ == dmx@[q].1@,
            decreases dmx.len() - i,
        {
            dmx_bricklets.push((dmx[i].0, DmxSettings { entries: dmx[i].1.clone() }));
            i = i + 1;
        }
        let mut relay_bricklets: Vec<(u32, RelaySettings)> = Vec::new();
        let mut i: usize = 0;
        while i < relays.len()
            invariant
                i <= relays@.len(),
                relay_bricklets@.len() == i,
                forall|q: int| 0 <= q < i ==> (#[trigger] relay_bricklets@[q]).0 == relays@[q].0 && relay_bricklets@[q].1.entries@ == relays@[q].1@,
            decreases relays.len() - i,
        {
            relay_bricklets.push((relays[i].0, RelaySettings { entries: relays[i].1.clone() }));
            i = i + 1;
        }
        proof {
            assert(io_bricklets@.map_values(|g: (u32, IoSettings)| (g.0, g.1.entries@)) =~= io@.map_values(|g: (u32, Vec<crate::wiring::ButtonSetting>)| (g.0, g.1@)));
            assert(dmx_bricklets@.map_values(|g: (u32, DmxSettings)| (g.0, g.1.entries@)) =~= dmx@.map_values(|g: (u32, Vec<crate::wiring::DmxConfigEntry>)| (g.0, g.1@)));
            assert(relay_bricklets@.map_values(|g: (u32, RelaySettings)| (g.0, g.1.entries@)) =~= relays@.map_values(|g: (u32, Vec<crate::wiring::RelayChannelEntry>)| (g.0, g.1@)));
        }
        Wiring {
            controllers: Controllers {
                dual_input_dimmers: self.dual_input_dimmers,
                dual_input_switches: self.dual_input_switches,
                motion_detectors: self.motion_detectors,
                heat_controllers: self.heat_controllers,
                ring_controllers: self.ring_controllers,
            },
            tinkerforge_devices: TinkerforgeDevices {
                endpoints: tinkerforge_endpoints,
                lcd_screens,
                dmx_bricklets,
                io_bricklets,
                motion_detectors,
                relays: relay_bricklets,
                temperature_sensors,
            },
            shelly_endpoints,
        }
    }
}

} // verus!
