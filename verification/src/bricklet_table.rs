//! The table of available bricklets: where each connected bricklet sits
//! (master brick and connector, through isolators), the order of the rows,
//! and what each row shows.
use vstd::prelude::*;
use vstd::relations::sorted_by;
use crate::names::{base58_text, uid_string};
use crate::sheet::{
    error_description, error_description_spec, show_bool, version_string, version_text, CellValue,
};
use crate::sheet_reader::WireBuilder;
use crate::sorting::{rank_leq, sort_by_rank, Ranked};
use crate::sheet::{CellUpdate, SheetCell};
use crate::sheet_table::{
    clean_rows_spec, new_coordinates, override_table, table_rows_spec, value_view, write_view,
};
use crate::state::{
    counters_of_spec, BrickletConnectionData, ConnectionState, IpAddress, PortKey, SpitfpErrorCounters, State,
    Version,
};
use crate::text::{new_string, push_char, push_str, string_of};
use crate::wiring::{ButtonSetting, DmxConfigEntry};

verus! {

/// Device identifier of a master brick.
pub const MASTER_BRICK_IDENTIFIER: u16 = 13;

/// Device identifier of an isolator bricklet.
pub const ISOLATOR_BRICKLET_IDENTIFIER: u16 = 2122;

/// How a brick or bricklet passes on connections: a master brick at a
/// position in its stack, or an isolator plugged into a connector of its parent.
#[derive(Debug, Clone, Copy, PartialEq, Eq, Structural)]
pub enum Connection {
    Master { position: u8 },
    Isolator { parent: u32, position: char },
}

/// The stack position of a master brick from its position character (the
/// low byte of the character, less `'0'`, counting on from 255 below zero).
pub open spec fn master_position(c: char) -> u8 {
    (((c as u32) % 256 + 256 - 48) % 256) as u8
}

/// What a known brick or bricklet passes on, if it is a master brick or an isolator.
pub open spec fn connection_of(d: BrickletConnectionData) -> Option<Connection> {
    match d.metadata {
        Some(m) => if m.device_identifier == MASTER_BRICK_IDENTIFIER {
            Some(Connection::Master { position: master_position(m.position) })
        } else if m.device_identifier == ISOLATOR_BRICKLET_IDENTIFIER {
            Some(Connection::Isolator { parent: m.connected_uid, position: m.position })
        } else {
            None
        },
        None => None,
    }
}

/// The connections of the first `n` bricklets.
pub open spec fn connections_spec(b: Seq<(u32, BrickletConnectionData)>, n: int) -> Seq<(u32, Connection)>
    decreases n,
{
    if n <= 0 {
        seq![]
    } else {
        match connection_of(b[n - 1].1) {
            Some(c) => connections_spec(b, n - 1).push((b[n - 1].0, c)),
            None => connections_spec(b, n - 1),
        }
    }
}

/// The master bricks and isolators among the known bricklets, in order.
pub fn master_positions(bricklets: &Vec<(u32, BrickletConnectionData)>) -> (r: Vec<(u32, Connection)>)
    ensures
        r@ == connections_spec(bricklets@, bricklets@.len() as int),
{
    let mut r: Vec<(u32, Connection)> = Vec::new();
    let mut i: usize = 0;
    while i < bricklets.len()
        invariant
            i <= bricklets@.len(),
            r@ == connections_spec(bricklets@, i as int),
        decreases bricklets.len() - i,
    {
        let (uid, d) = bricklets[i];
        match d.metadata {
            Some(m) => {
                if m.device_identifier == MASTER_BRICK_IDENTIFIER {
                    let low = (m.position as u32 % 256) as u8;
                    r.push((uid, Connection::Master { position: low.wrapping_sub(48) }));
                } else if m.device_identifier == ISOLATOR_BRICKLET_IDENTIFIER {
                    r.push((uid, Connection::Isolator { parent: m.connected_uid, position: m.position }));
                }
            },
            None => {},
        }
        i = i + 1;
    }
    r
}

/// What the last entry for `uid` among the first `n` says.
pub open spec fn connection_for(m: Seq<(u32, Connection)>, uid: u32, n: int) -> Option<Connection>
    decreases n,
{
    if n <= 0 {
        None
    } else if m[n - 1].0 == uid {
        Some(m[n - 1].1)
    } else {
        connection_for(m, uid, n - 1)
    }
}

/// Where something plugged into `uid` at `position` sits: the master brick's
/// stack position (if the chain of isolators ends at one) and the connector
/// on the brick it finally hangs off; `None` when the chain of isolators is
/// longer than `fuel`.
pub open spec fn find_connection_spec(m: Seq<(u32, Connection)>, uid: u32, position: char, fuel: nat) -> Option<(Option<u8>, char)>
    decreases fuel,
{
    match connection_for(m, uid, m.len() as int) {
        None => Some((None, position)),
        Some(Connection::Master { position: p }) => Some((Some(p), position)),
        Some(Connection::Isolator { parent, position: p }) => if fuel == 0 {
            None
        } else {
            find_connection_spec(m, parent, p, (fuel - 1) as nat)
        },
    }
}

fn lookup_connection(m: &Vec<(u32, Connection)>, uid: u32) -> (r: Option<Connection>)
    ensures
        r == connection_for(m@, uid, m@.len() as int),
{
    let mut i = m.len();
    while i > 0
        invariant
            i <= m@.len(),
            connection_for(m@, uid, m@.len() as int) == connection_for(m@, uid, i as int),
        decreases i,
    {
        if m[i - 1].0 == uid {
            return Some(m[i - 1].1);
        }
        i = i - 1;
    }
    None
}

/// Follows isolators up to the master brick. The chain is assumed to end
/// within as many steps as there are entries (no isolator loop).
pub fn find_connection(m: &Vec<(u32, Connection)>, connected_uid: u32, position: char) -> (r: (Option<u8>, char))
    requires
        find_connection_spec(m@, connected_uid, position, m@.len() as nat) is Some,
    ensures
        Some(r) == find_connection_spec(m@, connected_uid, position, m@.len() as nat),
{
    let ghost target = find_connection_spec(m@, connected_uid, position, m@.len() as nat);
    let mut uid = connected_uid;
    let mut pos = position;
    let mut fuel: usize = m.len();
    loop
        invariant
            fuel <= m@.len(),
            find_connection_spec(m@, uid, pos, fuel as nat) == target,
            target == find_connection_spec(m@, connected_uid, position, m@.len() as nat),
            target is Some,
        decreases fuel,
    {
        match lookup_connection(m, uid) {
            None => {
                assert(find_connection_spec(m@, uid, pos, fuel as nat) == Some((None::<u8>, pos)));
                return (None, pos);
            },
            Some(Connection::Master { position: p }) => {
                assert(find_connection_spec(m@, uid, pos, fuel as nat) == Some((Some(p), pos)));
                return (Some(p), pos);
            },
            Some(Connection::Isolator { parent, position: p }) => {
                uid = parent;
                pos = p;
                fuel = fuel - 1;
            },
        }
    }
}

/// A row of the bricklet table.
#[derive(Debug, Clone, Copy, PartialEq, Eq, Structural)]
pub struct BrickletRow {
    pub endpoint: IpAddress,
    pub master_idx: Option<u8>,
    pub connector: char,
    pub uid: u32,
    pub device_type: u16,
    pub hardware_version: Version,
    pub firmware_version: Version,
    pub connection_failed_counter: u32,
}

/// The row of a known bricklet: only a connected one with its metadata has one.
pub open spec fn bricklet_row_spec(m: Seq<(u32, Connection)>, uid: u32, d: BrickletConnectionData) -> Option<BrickletRow> {
    match d.metadata {
        Some(md) => if d.state == ConnectionState::Connected {
            let (master_idx, connector) = find_connection_spec(m, md.connected_uid, md.position, m.len() as nat)->0;
            Some(
                BrickletRow {
                    endpoint: d.endpoint,
                    master_idx,
                    connector,
                    uid,
                    device_type: md.device_identifier,
                    hardware_version: md.hardware_version,
                    firmware_version: md.firmware_version,
                    connection_failed_counter: d.connection_failed_counter,
                },
            )
        } else {
            None
        },
        None => None,
    }
}

/// Whether every connected bricklet's isolator chain ends.
pub open spec fn chains_end(m: Seq<(u32, Connection)>, b: Seq<(u32, BrickletConnectionData)>) -> bool {
    forall|i: int|
        0 <= i < b.len() ==> ((#[trigger] b[i]).1.state == ConnectionState::Connected && b[i].1.metadata is Some
            ==> find_connection_spec(
            m,
            b[i].1.metadata->0.connected_uid,
            b[i].1.metadata->0.position,
            m.len() as nat,
        ) is Some)
}

/// The rows of the first `n` bricklets.
pub open spec fn bricklet_rows_spec(m: Seq<(u32, Connection)>, b: Seq<(u32, BrickletConnectionData)>, n: int) -> Seq<BrickletRow>
    decreases n,
{
    if n <= 0 {
        seq![]
    } else {
        match bricklet_row_spec(m, b[n - 1].0, b[n - 1].1) {
            Some(r) => bricklet_rows_spec(m, b, n - 1).push(r),
            None => bricklet_rows_spec(m, b, n - 1),
        }
    }
}

/// Position of an endpoint: IPv4 addresses first, each kind by number.
pub open spec fn endpoint_rank(ip: IpAddress) -> int {
    match ip {
        IpAddress::V4(a) => a as int,
        IpAddress::V6(b) => 0x1_0000_0000 + b,
    }
}

/// Position of a master index: none first.
pub open spec fn master_rank(m: Option<u8>) -> int {
    match m {
        None => 0,
        Some(x) => 1 + x,
    }
}

/// Position of a row: by endpoint, master brick, connector, device type and uid.
pub open spec fn row_rank(r: BrickletRow) -> int {
    ((((endpoint_rank(r.endpoint) * 257 + master_rank(r.master_idx)) * 0x110000 + (r.connector as int))
        * 65536 + r.device_type) * 0x1_0000_0000) + r.uid
}

/// Comparing `a * radix + x` with `b * radix + y` is comparing `(a, x)`
/// with `(b, y)` in turn, when `x` and `y` are below the radix.
proof fn lemma_lex(a: int, x: int, b: int, y: int, radix: int)
    requires
        radix > 0,
        0 <= x < radix,
        0 <= y < radix,
    ensures
        (a * radix + x <= b * radix + y) == (a < b || (a == b && x <= y)),
{
    if a < b {
        assert(a * radix + x <= b * radix + y) by (nonlinear_arith)
            requires
                a < b,
                radix > 0,
                0 <= x < radix,
                0 <= y < radix,
        ;
    } else if a > b {
        assert(a * radix + x > b * radix + y) by (nonlinear_arith)
            requires
                a > b,
                radix > 0,
                0 <= x < radix,
                0 <= y < radix,
        ;
    }
}

fn endpoint_order(a: IpAddress, b: IpAddress) -> (r: (bool, bool))
    ensures
        r.0 == (endpoint_rank(a) < endpoint_rank(b)),
        r.1 == (endpoint_rank(a) == endpoint_rank(b)),
{
    match (a, b) {
        (IpAddress::V4(x), IpAddress::V4(y)) => (x < y, x == y),
        (IpAddress::V6(x), IpAddress::V6(y)) => (x < y, x == y),
        (IpAddress::V4(_), IpAddress::V6(_)) => (true, false),
        (IpAddress::V6(_), IpAddress::V4(_)) => (false, false),
    }
}

impl Ranked for BrickletRow {
    open spec fn rank(self) -> int {
        row_rank(self)
    }

    fn rank_le(&self, other: &Self) -> (r: bool) {
        let (ep_lt, ep_eq) = endpoint_order(self.endpoint, other.endpoint);
        let ma: u16 = match self.master_idx {
            None => 0,
            Some(x) => 1 + x as u16,
        };
        let mb: u16 = match other.master_idx {
            None => 0,
            Some(x) => 1 + x as u16,
        };
        let ca = self.connector as u32;
        let cb = other.connector as u32;
        proof {
            let e1 = endpoint_rank(self.endpoint);
            let e2 = endpoint_rank(other.endpoint);
            let k1a = e1 * 257 + master_rank(self.master_idx);
            let k1b = e2 * 257 + master_rank(other.master_idx);
            lemma_lex(e1, master_rank(self.master_idx), e2, master_rank(other.master_idx), 257);
            lemma_lex(e2, master_rank(other.master_idx), e1, master_rank(self.master_idx), 257);
            let k2a = k1a * 0x110000 + (self.connector as int);
            let k2b = k1b * 0x110000 + (other.connector as int);
            lemma_lex(k1a, self.connector as int, k1b, other.connector as int, 0x110000);
            lemma_lex(k1b, other.connector as int, k1a, self.connector as int, 0x110000);
            let k3a = k2a * 65536 + self.device_type;
            let k3b = k2b * 65536 + other.device_type;
            lemma_lex(k2a, self.device_type as int, k2b, other.device_type as int, 65536);
            lemma_lex(k2b, other.device_type as int, k2a, self.device_type as int, 65536);
            lemma_lex(k3a, self.uid as int, k3b, other.uid as int, 0x1_0000_0000);
            lemma_lex(k3b, other.uid as int, k3a, self.uid as int, 0x1_0000_0000);
        }
        if ep_lt {
            true
        } else if !ep_eq {
            false
        } else if ma < mb {
            true
        } else if ma != mb {
            false
        } else if ca < cb {
            true
        } else if ca != cb {
            false
        } else if self.device_type < other.device_type {
            true
        } else if self.device_type != other.device_type {
            false
        } else {
            self.uid <= other.uid
        }
    }
}

/// The rows of the connected bricklets, in table order.
pub fn bricklet_rows(bricklets: &Vec<(u32, BrickletConnectionData)>, m: &Vec<(u32, Connection)>) -> (r: Vec<BrickletRow>)
    requires
        chains_end(m@, bricklets@),
    ensures
        sorted_by(r@, rank_leq::<BrickletRow>()),
        r@.to_multiset() == bricklet_rows_spec(m@, bricklets@, bricklets@.len() as int).to_multiset(),
{
    let mut rows: Vec<BrickletRow> = Vec::new();
    let mut i: usize = 0;
    while i < bricklets.len()
        invariant
            i <= bricklets@.len(),
            chains_end(m@, bricklets@),
            rows@ == bricklet_rows_spec(m@, bricklets@, i as int),
        decreases bricklets.len() - i,
    {
        let (uid, d) = bricklets[i];
        proof {
            assert(chains_end(m@, bricklets@));
            let _ = bricklets@[i as int];
        }
        match d.metadata {
            Some(md) => {
                if d.state == ConnectionState::Connected {
                    let (master_idx, connector) = find_connection(m, md.connected_uid, md.position);
                    rows.push(
                        BrickletRow {
                            endpoint: d.endpoint,
                            master_idx,
                            connector,
                            uid,
                            device_type: md.device_identifier,
                            hardware_version: md.hardware_version,
                            firmware_version: md.firmware_version,
                            connection_failed_counter: d.connection_failed_counter,
                        },
                    );
                }
            },
            None => {},
        }
        i = i + 1;
    }
    sort_by_rank(rows)
}

/// The text a state cell shows for a bricklet: nothing for an unknown one,
/// else `"{state}, {time}, {endpoint}"` and, where its enumeration is known,
/// `"; {parent uid}, {position}, hw: {version}, fw: {version}"` after it.
pub open spec fn state_text_spec(d: Option<BrickletConnectionData>, time: Seq<char>, endpoint: Seq<char>) -> Seq<char> {
    match d {
        None => seq![],
        Some(d) => {
            let state = match d.state {
                ConnectionState::Connected => "Connected"@,
                ConnectionState::Disconnected => "Not Connected"@,
            };
            let head = state + ", "@ + time + ", "@ + endpoint;
            match d.metadata {
                Some(m) => head + "; "@ + base58_text(m.connected_uid) + ", "@ + seq![m.position] + ", hw: "@
                    + version_text(m.hardware_version) + ", fw: "@ + version_text(m.firmware_version),
                None => head,
            }
        },
    }
}

/// The text of the state cell of a bricklet; `time` is its last change and
/// `endpoint` the address it is connected through, both as they are shown.
pub fn bricklet_state_text(d: Option<BrickletConnectionData>, time: &str, endpoint: &str) -> (s: String)
    ensures
        s@ == state_text_spec(d, time@, endpoint@),
{
    proof {
        reveal_strlit(", ");
        reveal_strlit("; ");
        reveal_strlit(", hw: ");
        reveal_strlit(", fw: ");
    }
    match d {
        None => new_string(),
        Some(d) => {
            let mut s = string_of(d.state.name());
            push_str(&mut s, ", ");
            push_str(&mut s, time);
            push_str(&mut s, ", ");
            push_str(&mut s, endpoint);
            match d.metadata {
                Some(m) => {
                    push_str(&mut s, "; ");
                    let parent = uid_string(m.connected_uid);
                    push_str(&mut s, parent.as_str());
                    push_str(&mut s, ", ");
                    push_char(&mut s, m.position);
                    push_str(&mut s, ", hw: ");
                    let hw = version_string(m.hardware_version);
                    push_str(&mut s, hw.as_str());
                    push_str(&mut s, ", fw: ");
                    let fw = version_string(m.firmware_version);
                    push_str(&mut s, fw.as_str());
                },
                None => {},
            }
            s
        },
    }
}

/// What a name list says for an endpoint: the last name given to it.
pub open spec fn endpoint_name(names: Seq<(IpAddress, String)>, ip: IpAddress, n: int) -> Option<Seq<char>>
    decreases n,
{
    if n <= 0 {
        None
    } else if names[n - 1].0 == ip {
        Some(names[n - 1].1@)
    } else {
        endpoint_name(names, ip, n - 1)
    }
}

/// How an endpoint is shown: by its name, else by its address text.
pub fn endpoint_label(names: &Vec<(IpAddress, String)>, ip: IpAddress, ip_text: &str) -> (s: String)
    ensures
        s@ == (match endpoint_name(names@, ip, names@.len() as int) {
            Some(n) => n,
            None => ip_text@,
        }),
{
    let mut i = names.len();
    while i > 0
        invariant
            i <= names@.len(),
            endpoint_name(names@, ip, names@.len() as int) == endpoint_name(names@, ip, i as int),
        decreases i,
    {
        if names[i - 1].0 == ip {
            return string_of(names[i - 1].1.as_str());
        }
        i = i - 1;
    }
    string_of(ip_text)
}

/// Whether a flat list has an entry for `uid`.
pub open spec fn listed<T>(e: Seq<(u32, T)>, uid: u32) -> bool {
    exists|k: int| 0 <= k < e.len() && e[k].0 == uid
}

fn is_listed<T>(e: &Vec<(u32, T)>, uid: u32) -> (r: bool)
    ensures
        r == listed(e@, uid),
{
    let mut i: usize = 0;
    while i < e.len()
        invariant
            i <= e@.len(),
            forall|k: int| 0 <= k < i ==> e@[k].0 != uid,
        decreases e.len() - i,
    {
        if e[i].0 == uid {
            return true;
        }
        i = i + 1;
    }
    false
}

/// The number of channels the entries for `uid` among the first `n` use.
pub open spec fn channels_for<T>(e: Seq<(u32, T)>, uid: u32, per: spec_fn(T) -> int, n: int) -> int
    decreases n,
{
    if n <= 0 {
        0
    } else if e[n - 1].0 == uid {
        channels_for(e, uid, per, n - 1) + per(e[n - 1].1)
    } else {
        channels_for(e, uid, per, n - 1)
    }
}

proof fn lemma_channels_monotone<T>(e: Seq<(u32, T)>, uid: u32, per: spec_fn(T) -> int, i: int, n: int)
    requires
        0 <= i <= n <= e.len(),
        forall|t: T| 0 <= #[trigger] per(t),
    ensures
        0 <= channels_for(e, uid, per, i) <= channels_for(e, uid, per, n),
    decreases n,
{
    if n > 0 {
        assert(per(e[n - 1].1) >= 0);
        if i < n {
            lemma_channels_monotone(e, uid, per, i, n - 1);
        } else {
            lemma_channels_monotone(e, uid, per, n - 1, n - 1);
        }
    }
}

/// Channels a button setting uses.
pub open spec fn io_channels(s: ButtonSetting) -> int {
    crate::wiring::button_channels(s)
}

/// Channels a light uses.
pub open spec fn light_channels(s: DmxConfigEntry) -> int {
    crate::wiring::dmx_channels(s)
}

fn io_count(e: &Vec<(u32, ButtonSetting)>, uid: u32) -> (r: Option<u16>)
    requires
        channels_for(e@, uid, |s: ButtonSetting| io_channels(s), e@.len() as int) <= u16::MAX,
    ensures
        r == (if listed(e@, uid) {
            Some(channels_for(e@, uid, |s: ButtonSetting| io_channels(s), e@.len() as int) as u16)
        } else {
            None
        }),
{
    if !is_listed(e, uid) {
        return None;
    }
    let mut n: u16 = 0;
    let mut i: usize = 0;
    while i < e.len()
        invariant
            i <= e@.len(),
            n == channels_for(e@, uid, |s: ButtonSetting| io_channels(s), i as int),
            channels_for(e@, uid, |s: ButtonSetting| io_channels(s), e@.len() as int) <= u16::MAX,
        decreases e.len() - i,
    {
        proof {
            lemma_channels_monotone(e@, uid, |s: ButtonSetting| io_channels(s), i + 1, e@.len() as int);
        }
        if e[i].0 == uid {
            n = n + match e[i].1 {
                ButtonSetting::Dual { .. } => 2u16,
                ButtonSetting::Single { .. } => 1u16,
            };
        }
        i = i + 1;
    }
    Some(n)
}

fn dmx_count(e: &Vec<(u32, DmxConfigEntry)>, uid: u32) -> (r: Option<u16>)
    requires
        channels_for(e@, uid, |s: DmxConfigEntry| light_channels(s), e@.len() as int) <= u16::MAX,
    ensures
        r == (if listed(e@, uid) {
            Some(channels_for(e@, uid, |s: DmxConfigEntry| light_channels(s), e@.len() as int) as u16)
        } else {
            None
        }),
{
    if !is_listed(e, uid) {
        return None;
    }
    let mut n: u16 = 0;
    let mut i: usize = 0;
    while i < e.len()
        invariant
            i <= e@.len(),
            n == channels_for(e@, uid, |s: DmxConfigEntry| light_channels(s), i as int),
            channels_for(e@, uid, |s: DmxConfigEntry| light_channels(s), e@.len() as int) <= u16::MAX,
        decreases e.len() - i,
    {
        proof {
            lemma_channels_monotone(e@, uid, |s: DmxConfigEntry| light_channels(s), i + 1, e@.len() as int);
        }
        if e[i].0 == uid {
            n = n + match e[i].1 {
                DmxConfigEntry::Dimm { .. } => 1u16,
                DmxConfigEntry::DimmWhitebalance { .. } => 2u16,
                DmxConfigEntry::Switch { .. } => 1u16,
            };
        }
        i = i + 1;
    }
    Some(n)
}

fn count_for<T>(e: &Vec<(u32, T)>, uid: u32) -> (r: Option<u64>)
    ensures
        r == (if listed(e@, uid) {
            Some(channels_for(e@, uid, |t: T| 1int, e@.len() as int) as u64)
        } else {
            None
        }),
{
    if !is_listed(e, uid) {
        return None;
    }
    let mut n: u64 = 0;
    let mut i: usize = 0;
    while i < e.len()
        invariant
            i <= e@.len(),
            n == channels_for(e@, uid, |t: T| 1int, i as int),
            n <= i,
        decreases e.len() - i,
    {
        if e[i].0 == uid {
            n = n + 1;
        }
        i = i + 1;
    }
    Some(n)
}

/// A count as shown: the number, or empty when there is none.
pub open spec fn count_value(c: Option<int>) -> (int, Seq<char>, int) {
    match c {
        Some(n) => (1, seq![], n),
        None => (0, seq![], 0),
    }
}

/// What the row of a bricklet shows, cell by cell: endpoint, master brick,
/// connector, uid, device type, hardware and firmware version, input
/// channels, temperature sensor, motion detector, display, DMX channels,
/// relay channels, failed connections, error counters.
pub open spec fn row_values_spec(
    row: BrickletRow,
    label: Seq<char>,
    b: WireBuilder,
    counters: Seq<(Option<char>, SpitfpErrorCounters)>,
) -> Seq<(int, Seq<char>, int)> {
    seq![
        (0, label, 0),
        (1, seq![], match row.master_idx { Some(m) => m as int, None => 0 }),
        (0, seq![row.connector], 0),
        (0, base58_text(row.uid), 0),
        (1, seq![], row.device_type as int),
        (0, version_text(row.hardware_version), 0),
        (0, version_text(row.firmware_version), 0),
        count_value(if listed(b.io_entries@, row.uid) {
            Some(channels_for(b.io_entries@, row.uid, |s: ButtonSetting| io_channels(s), b.io_entries@.len() as int) as u16 as int)
        } else {
            None
        }),
        (0, if listed(b.temperature_sensors@, row.uid) { "x"@ } else { ""@ }, 0),
        (0, if listed(b.motion_detector_sensors@, row.uid) { "x"@ } else { ""@ }, 0),
        (0, if listed(b.lcd_screens@, row.uid) { "x"@ } else { ""@ }, 0),
        count_value(if listed(b.dmx_entries@, row.uid) {
            Some(channels_for(b.dmx_entries@, row.uid, |s: DmxConfigEntry| light_channels(s), b.dmx_entries@.len() as int) as u16 as int)
        } else {
            None
        }),
        count_value(if listed(b.relay_entries@, row.uid) {
            Some(channels_for(b.relay_entries@, row.uid, |t: crate::wiring::RelayChannelEntry| 1int, b.relay_entries@.len() as int) as u64 as int)
        } else {
            None
        }),
        (1, seq![], row.connection_failed_counter as int),
        (0, error_description_spec(counters, counters.len() as int), 0),
    ]
}

fn count_cell(c: Option<u64>) -> (v: CellValue)
    requires
        c matches Some(n) ==> n <= i64::MAX,
    ensures
        crate::sheet_table::value_view(v) == count_value(match c {
            Some(n) => Some(n as int),
            None => None,
        }),
{
    match c {
        Some(n) => CellValue::Integer(n as i64),
        None => CellValue::Text(new_string()),
    }
}

/// The cells of the row of a bricklet.
pub fn bricklet_row_values(
    row: &BrickletRow,
    label: &str,
    b: &WireBuilder,
    counters: &Vec<(Option<char>, SpitfpErrorCounters)>,
) -> (v: Vec<CellValue>)
    requires
        channels_for(b.io_entries@, row.uid, |s: ButtonSetting| io_channels(s), b.io_entries@.len() as int) <= u16::MAX,
        channels_for(b.dmx_entries@, row.uid, |s: DmxConfigEntry| light_channels(s), b.dmx_entries@.len() as int)
            <= u16::MAX,
        b.relay_entries@.len() <= i64::MAX,
    ensures
        v@.map_values(|c: CellValue| crate::sheet_table::value_view(c)) == row_values_spec(*row, label@, *b, counters@),
{
    let mut v: Vec<CellValue> = Vec::new();
    v.push(CellValue::Text(string_of(label)));
    v.push(CellValue::Integer(match row.master_idx {
        Some(m) => m as i64,
        None => 0,
    }));
    let mut connector = new_string();
    push_char(&mut connector, row.connector);
    v.push(CellValue::Text(connector));
    v.push(CellValue::Text(uid_string(row.uid)));
    v.push(CellValue::Integer(row.device_type as i64));
    v.push(CellValue::Text(version_string(row.hardware_version)));
    v.push(CellValue::Text(version_string(row.firmware_version)));
    let io = io_count(&b.io_entries, row.uid);
    v.push(count_cell(match io {
        Some(n) => Some(n as u64),
        None => None,
    }));
    v.push(CellValue::Text(string_of(show_bool(is_listed(&b.temperature_sensors, row.uid)))));
    v.push(CellValue::Text(string_of(show_bool(is_listed(&b.motion_detector_sensors, row.uid)))));
    v.push(CellValue::Text(string_of(show_bool(is_listed(&b.lcd_screens, row.uid)))));
    let dmx = dmx_count(&b.dmx_entries, row.uid);
    v.push(count_cell(match dmx {
        Some(n) => Some(n as u64),
        None => None,
    }));
    let relays = count_for(&b.relay_entries, row.uid);
    proof {
        lemma_channels_one(b.relay_entries@, row.uid, b.relay_entries@.len() as int);
    }
    v.push(count_cell(relays));
    v.push(CellValue::Integer(row.connection_failed_counter as i64));
    v.push(CellValue::Text(error_description(counters)));
    proof {
        reveal_strlit("x");
        reveal_strlit("");
        assert(v@.map_values(|c: CellValue| crate::sheet_table::value_view(c)) =~= row_values_spec(
            *row,
            label@,
            *b,
            counters@,
        ));
    }
    v
}

proof fn lemma_channels_one<T>(e: Seq<(u32, T)>, uid: u32, n: int)
    requires
        0 <= n <= e.len(),
    ensures
        0 <= channels_for(e, uid, |t: T| 1int, n) <= n,
    decreases n,
{
    if n > 0 {
        lemma_channels_one(e, uid, n - 1);
    }
}


/// The label a row's endpoint is shown with: its name, else the text of its
/// address (empty where no text is given).
pub open spec fn row_label(names: Seq<(IpAddress, String)>, ip_texts: Seq<(IpAddress, String)>, ip: IpAddress) -> Seq<char> {
    match endpoint_name(names, ip, names.len() as int) {
        Some(n) => n,
        None => match endpoint_name(ip_texts, ip, ip_texts.len() as int) {
            Some(t) => t,
            None => seq![],
        },
    }
}

/// What the row of a connected bricklet shows in the table of available
/// bricklets, with its error counters as the state stores them.
pub open spec fn available_row_spec(
    row: BrickletRow,
    names: Seq<(IpAddress, String)>,
    ip_texts: Seq<(IpAddress, String)>,
    b: WireBuilder,
    counters: Seq<(PortKey, SpitfpErrorCounters)>,
) -> Seq<(int, Seq<char>, int)> {
    row_values_spec(
        row,
        row_label(names, ip_texts, row.endpoint),
        b,
        counters_of_spec(counters, row.uid, counters.len() as int),
    )
}

/// The writes of the table of available bricklets: `rows` are the rows of
/// the connected bricklets in table order, `data` the cells each shows, and
/// `updates` the writes that make the table show them.
pub open spec fn available_writes(
    state: State,
    names: Seq<(IpAddress, String)>,
    ip_texts: Seq<(IpAddress, String)>,
    b: WireBuilder,
    sheet: Seq<char>,
    existing: Seq<Vec<SheetCell>>,
    columns: Seq<usize>,
    start_column: usize,
    next_new_row: usize,
    rows: Seq<BrickletRow>,
    data: Seq<Vec<CellValue>>,
    updates: Seq<CellUpdate>,
) -> bool {
    let bs = state.bricklets.entries@;
    &&& sorted_by(rows, rank_leq::<BrickletRow>())
    &&& rows.to_multiset() == bricklet_rows_spec(connections_spec(bs, bs.len() as int), bs, bs.len() as int).to_multiset()
    &&& data.len() == rows.len()
    &&& forall|i: int|
        0 <= i < data.len() ==> (#[trigger] data[i])@.map_values(|c: CellValue| value_view(c)) == available_row_spec(
            rows[i],
            names,
            ip_texts,
            b,
            state.error_counters.entries@,
        )
    &&& updates.map_values(|u: CellUpdate| write_view(u)) == table_rows_spec(
        sheet,
        existing,
        columns,
        start_column,
        next_new_row,
        data,
        data.len() as int,
    )
        + clean_rows_spec(sheet, existing, data.len() as int, existing.len() as int)
}

/// Whether the table of available bricklets can be written for the known
/// bricklets `bs`: each existing row has the table's cells, every cell and
/// every row that may be added can be addressed.
pub open spec fn available_table_fits(
    bs: Seq<(u32, BrickletConnectionData)>,
    existing: Seq<Vec<SheetCell>>,
    columns: Seq<usize>,
    start_column: usize,
    next_new_row: usize,
) -> bool {
    &&& columns.len() == 15
    &&& forall|r: int| 0 <= r < existing.len() ==> (#[trigger] existing[r])@.len() == columns.len()
    &&& forall|r: int, c: int|
        0 <= r < existing.len() && 0 <= c < existing[r]@.len() ==> (#[trigger] existing[r]@[c]).coordinates.writable()
    &&& forall|c: int| 0 <= c < columns.len() ==> #[trigger] columns[c] + start_column <= usize::MAX
    &&& forall|r: int, c: int|
        0 <= r < bs.len() && 0 <= c < columns.len() ==> (#[trigger] new_coordinates(
            next_new_row,
            start_column,
            columns,
            r,
            c,
        )).writable()
    &&& next_new_row + bs.len() <= usize::MAX
}

/// Whether the counts the row of bricklet `uid` shows fit their cells.
pub open spec fn counts_fit(b: WireBuilder, uid: u32) -> bool {
    &&& channels_for(b.io_entries@, uid, |s: ButtonSetting| io_channels(s), b.io_entries@.len() as int) <= u16::MAX
    &&& channels_for(b.dmx_entries@, uid, |s: DmxConfigEntry| light_channels(s), b.dmx_entries@.len() as int)
        <= u16::MAX
}

proof fn lemma_rows_spec_len(m: Seq<(u32, Connection)>, b: Seq<(u32, BrickletConnectionData)>, n: int)
    requires
        0 <= n,
    ensures
        bricklet_rows_spec(m, b, n).len() <= n,
    decreases n,
{
    if n > 0 {
        lemma_rows_spec_len(m, b, n - 1);
    }
}

proof fn lemma_rows_spec_from(m: Seq<(u32, Connection)>, b: Seq<(u32, BrickletConnectionData)>, n: int, x: BrickletRow)
    requires
        0 <= n <= b.len(),
        bricklet_rows_spec(m, b, n).contains(x),
    ensures
        exists|k: int| 0 <= k < n && (#[trigger] b[k]).0 == x.uid && b[k].1.endpoint == x.endpoint,
    decreases n,
{
    if n > 0 {
        let prev = bricklet_rows_spec(m, b, n - 1);
        match bricklet_row_spec(m, b[n - 1].0, b[n - 1].1) {
            Some(r) => {
                if r == x {
                    let _ = b[n - 1];
                } else {
                    let i = choose|i: int| 0 <= i < prev.push(r).len() && prev.push(r)[i] == x;
                    assert(prev[i] == x);
                    lemma_rows_spec_from(m, b, n - 1, x);
                }
            },
            None => {
                lemma_rows_spec_from(m, b, n - 1, x);
            },
        }
    }
}

/// The writes that make the table of available bricklets show the connected
/// bricklets: their rows in table order, each with its endpoint's label (the
/// name `names` gives it, else its address text from `ip_texts`), master
/// brick, connector, uid, device type, versions, what the wiring has on it,
/// failed connections and error counters; rows of the table beyond them
/// are emptied.
pub fn available_bricklet_updates(
    sheet: &str,
    existing: &Vec<Vec<SheetCell>>,
    columns: &Vec<usize>,
    start_column: usize,
    next_new_row: usize,
    state: &State,
    names: &Vec<(IpAddress, String)>,
    ip_texts: &Vec<(IpAddress, String)>,
    b: &WireBuilder,
) -> (updates: Vec<CellUpdate>)
    requires
        state.wf(),
        chains_end(
            connections_spec(state.bricklets.entries@, state.bricklets.entries@.len() as int),
            state.bricklets.entries@,
        ),
        forall|k: int|
            0 <= k < state.bricklets.entries@.len() ==> counts_fit(*b, (#[trigger] state.bricklets.entries@[k]).0),
        b.relay_entries@.len() <= i64::MAX,
        available_table_fits(state.bricklets.entries@, existing@, columns@, start_column, next_new_row),
    ensures
        exists|rows: Seq<BrickletRow>, data: Seq<Vec<CellValue>>|
            #[trigger] available_writes(
                *state,
                names@,
                ip_texts@,
                *b,
                sheet@,
                existing@,
                columns@,
                start_column,
                next_new_row,
                rows,
                data,
                updates@,
            ),
{
    let bs = &state.bricklets.entries;
    let m = master_positions(bs);
    let rows = bricklet_rows(bs, &m);
    let ghost spec_rows = bricklet_rows_spec(m@, bs@, bs@.len() as int);
    proof {
        broadcast use vstd::seq_lib::group_to_multiset_ensures;
        lemma_rows_spec_len(m@, bs@, bs@.len() as int);
        assert(rows@.len() == rows@.to_multiset().len());
        assert(spec_rows.len() == spec_rows.to_multiset().len());
    }
    let mut data: Vec<Vec<CellValue>> = Vec::new();
    let mut i: usize = 0;
    while i < rows.len()
        invariant
            i <= rows@.len(),
            rows@.len() <= bs@.len(),
            bs@ == state.bricklets.entries@,
            state.wf(),
            rows@.to_multiset() == spec_rows.to_multiset(),
            spec_rows == bricklet_rows_spec(m@, bs@, bs@.len() as int),
            forall|k: int| 0 <= k < bs@.len() ==> counts_fit(*b, (#[trigger] bs@[k]).0),
            b.relay_entries@.len() <= i64::MAX,
            data@.len() == i,
            forall|j: int|
                0 <= j < i ==> (#[trigger] data@[j])@.map_values(|c: CellValue| value_view(c))
                    == available_row_spec(rows@[j], names@, ip_texts@, *b, state.error_counters.entries@),
        decreases rows.len() - i,
    {
        let row = rows[i];
        proof {
            broadcast use vstd::seq_lib::group_to_multiset_ensures;
            assert(rows@.contains(row));
            assert(rows@.to_multiset().count(row) > 0);
            assert(spec_rows.contains(row));
            lemma_rows_spec_from(m@, bs@, bs@.len() as int, row);
            let k = choose|k: int| 0 <= k < bs@.len() && (#[trigger] bs@[k]).0 == row.uid && bs@[k].1.endpoint == row.endpoint;
            assert(counts_fit(*b, bs@[k].0));
        }
        let ip_text = endpoint_label(ip_texts, row.endpoint, "");
        let label = endpoint_label(names, row.endpoint, ip_text.as_str());
        proof {
            reveal_strlit("");
            assert(label@ == row_label(names@, ip_texts@, row.endpoint));
        }
        let counters = state.error_counters_of(row.uid);
        let values = bricklet_row_values(&row, label.as_str(), b, &counters);
        data.push(values);
        proof {
            assert(data@[i as int] == values);
        }
        i = i + 1;
    }
    proof {
        let d = data@;
        assert forall|r: int| 0 <= r < d.len() implies (#[trigger] d[r])@.len() == columns@.len() by {
            assert(d[r]@.map_values(|c: CellValue| value_view(c)).len() == 15);
        }
        assert(crate::sheet_table::table_fits(existing@, columns@, start_column, next_new_row, d));
    }
    let updates = override_table(sheet, existing, columns, start_column, next_new_row, &data);
    proof {
        assert(available_writes(
            *state,
            names@,
            ip_texts@,
            *b,
            sheet@,
            existing@,
            columns@,
            start_column,
            next_new_row,
            rows@,
            data@,
            updates@,
        ));
    }
    updates
}

} // verus!
