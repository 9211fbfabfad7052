//! What the controller knows about the connected endpoints and bricklets,
//! and how status messages update that knowledge.
use vstd::prelude::*;
use crate::assoc::{
    assoc_map, find_key, keys_distinct, lemma_assoc_contains, lemma_assoc_push, AssocList, ExecKey,
};

verus! {

/// An IP address (of an endpoint), version 4 or 6, as a number.
#[derive(Debug, Clone, Copy, PartialEq, Eq, Structural, Hash, PartialOrd, Ord)]
pub enum IpAddress {
    V4(u32),
    V6(u128),
}

impl ExecKey for IpAddress {
    fn same_key(&self, other: &Self) -> (r: bool) {
        *self == *other
    }
}

/// Whether something is connected.
#[derive(Debug, Clone, Copy, PartialEq, Eq, Structural, Hash, PartialOrd, Ord)]
pub enum ConnectionState {
    Connected,
    Disconnected,
}

impl ConnectionState {
    /// The text the state is shown with.
    pub fn name(&self) -> (s: &'static str)
        ensures
            s@ == (match *self {
                ConnectionState::Connected => "Connected"@,
                ConnectionState::Disconnected => "Not Connected"@,
            }),
    {
        match self {
            ConnectionState::Connected => "Connected",
            ConnectionState::Disconnected => "Not Connected",
        }
    }
}

/// Error counters of the SPI/TFP link of a bricklet.
#[derive(Debug, Clone, Copy, PartialEq, Eq, Structural)]
pub struct SpitfpErrorCounters {
    pub error_count_ack_checksum: u32,
    pub error_count_message_checksum: u32,
    pub error_count_frame: u32,
    pub error_count_overflow: u32,
}

/// A change of connection state of something identified by `id`.
#[derive(Debug, Clone, Copy, PartialEq, Eq, Structural)]
pub struct ConnectionStateMsg<ID> {
    pub state: ConnectionState,
    pub id: ID,
}

/// What is known about an endpoint; `last_change` is a point in time in
/// milliseconds since the epoch.
#[derive(Debug, Clone, Copy, PartialEq, Eq, Structural)]
pub struct ConnectionData {
    pub state: ConnectionState,
    pub last_change: u64,
}

/// A hardware or firmware version.
#[derive(Debug, Clone, Copy, PartialEq, Eq, Structural, Hash, PartialOrd, Ord)]
pub struct Version(pub u8, pub u8, pub u8);

/// What an enumeration tells about a bricklet.
#[derive(Debug, Clone, Copy, PartialEq, Eq, Structural)]
pub struct BrickletMetadata {
    pub connected_uid: u32,
    pub position: char,
    pub hardware_version: Version,
    pub firmware_version: Version,
    pub device_identifier: u16,
}

/// What is known about a bricklet (its error counters are kept beside it).
#[derive(Debug, Clone, Copy, PartialEq, Eq, Structural)]
pub struct BrickletConnectionData {
    pub state: ConnectionState,
    pub last_change: u64,
    pub endpoint: IpAddress,
    pub metadata: Option<BrickletMetadata>,
    pub connection_failed_counter: u32,
    pub session: u32,
}

/// The error counters of one port of one bricklet (`None`: its own link).
#[derive(Debug, Clone, Copy, PartialEq, Eq, Structural, Hash)]
pub struct PortKey {
    pub uid: u32,
    pub port: Option<char>,
}

impl ExecKey for PortKey {
    fn same_key(&self, other: &Self) -> (r: bool) {
        *self == *other
    }
}

/// A status message from a device handler.
#[derive(Debug, Clone, Copy, PartialEq, Eq, Structural)]
pub enum StateUpdateMessage {
    EndpointConnected(IpAddress),
    EndpointDisconnected(IpAddress),
    BrickletConnected { uid: u32, endpoint: IpAddress, metadata: BrickletMetadata, session: u32 },
    BrickletDisconnected { uid: u32, endpoint: IpAddress, session: u32 },
    SpitfpMetrics { uid: u32, port: Option<char>, counters: SpitfpErrorCounters },
    CommunicationFailed { uid: u32 },
}

/// The counters of bricklet `uid` among the first `n` stored entries, port
/// by port in the order they are stored.
pub open spec fn counters_of_spec(
    e: Seq<(PortKey, SpitfpErrorCounters)>,
    uid: u32,
    n: int,
) -> Seq<(Option<char>, SpitfpErrorCounters)>
    decreases n,
{
    if n <= 0 {
        seq![]
    } else if e[n - 1].0.uid == uid {
        counters_of_spec(e, uid, n - 1).push((e[n - 1].0.port, e[n - 1].1))
    } else {
        counters_of_spec(e, uid, n - 1)
    }
}

/// The known state of all endpoints and bricklets.
#[derive(Debug, Clone)]
pub struct State {
    pub endpoints: AssocList<IpAddress, ConnectionData>,
    pub bricklets: AssocList<u32, BrickletConnectionData>,
    pub error_counters: AssocList<PortKey, SpitfpErrorCounters>,
}

/// The known state as maps.
pub struct StateView {
    pub endpoints: Map<IpAddress, ConnectionData>,
    pub bricklets: Map<u32, BrickletConnectionData>,
    pub error_counters: Map<PortKey, SpitfpErrorCounters>,
}

/// The error counters with those of bricklet `uid` dropped.
pub open spec fn without_counters_of(
    m: Map<PortKey, SpitfpErrorCounters>,
    uid: u32,
) -> Map<PortKey, SpitfpErrorCounters> {
    Map::new(|k: PortKey| m.contains_key(k) && k.uid != uid, |k: PortKey| m[k])
}

/// Whether a connection message for a known bricklet tells something new.
pub open spec fn bricklet_connected_differs(
    e: BrickletConnectionData,
    endpoint: IpAddress,
    metadata: BrickletMetadata,
    session: u32,
) -> bool {
    e.state != ConnectionState::Connected || e.metadata != Some(metadata) || e.endpoint != endpoint
        || e.session != session
}

/// What a message does to the known state at time `now`, and whether it
/// changed anything.
pub open spec fn process_spec(s: StateView, msg: StateUpdateMessage, now: u64) -> (StateView, bool) {
    match msg {
        StateUpdateMessage::EndpointConnected(ip) => {
            if s.endpoints.contains_key(ip) && s.endpoints[ip].state == ConnectionState::Connected {
                (s, false)
            } else {
                (
                    StateView {
                        endpoints: s.endpoints.insert(
                            ip,
                            ConnectionData { state: ConnectionState::Connected, last_change: now },
                        ),
                        ..s
                    },
                    true,
                )
            }
        },
        StateUpdateMessage::EndpointDisconnected(ip) => {
            if s.endpoints.contains_key(ip) && s.endpoints[ip].state
                != ConnectionState::Disconnected {
                (
                    StateView {
                        endpoints: s.endpoints.insert(
                            ip,
                            ConnectionData { state: ConnectionState::Disconnected, last_change: now },
                        ),
                        ..s
                    },
                    true,
                )
            } else {
                (s, false)
            }
        },
        StateUpdateMessage::BrickletConnected { uid, endpoint, metadata, session } => {
            if s.bricklets.contains_key(uid) && !bricklet_connected_differs(
                s.bricklets[uid],
                endpoint,
                metadata,
                session,
            ) {
                (s, false)
            } else {
                let counter = if s.bricklets.contains_key(uid) {
                    (s.bricklets[uid].connection_failed_counter + 1) as u32
                } else {
                    0u32
                };
                (
                    StateView {
                        bricklets: s.bricklets.insert(
                            uid,
                            BrickletConnectionData {
                                state: ConnectionState::Connected,
                                last_change: now,
                                endpoint,
                                metadata: Some(metadata),
                                connection_failed_counter: counter,
                                session,
                            },
                        ),
                        error_counters: without_counters_of(s.error_counters, uid),
                        ..s
                    },
                    true,
                )
            }
        },
        StateUpdateMessage::BrickletDisconnected { uid, endpoint, session } => {
            if s.bricklets.contains_key(uid) && s.bricklets[uid].state
                != ConnectionState::Disconnected && s.bricklets[uid].endpoint == endpoint
                && s.bricklets[uid].session == session {
                (
                    StateView {
                        bricklets: s.bricklets.insert(
                            uid,
                            BrickletConnectionData {
                                state: ConnectionState::Disconnected,
                                last_change: now,
                                ..s.bricklets[uid]
                            },
                        ),
                        ..s
                    },
                    true,
                )
            } else {
                (s, false)
            }
        },
        StateUpdateMessage::SpitfpMetrics { uid, port, counters } => {
            let k = PortKey { uid, port };
            if !s.bricklets.contains_key(uid) || (s.error_counters.contains_key(k)
                && s.error_counters[k] == counters) {
                (s, false)
            } else {
                (StateView { error_counters: s.error_counters.insert(k, counters), ..s }, true)
            }
        },
        StateUpdateMessage::CommunicationFailed { uid } => {
            if s.bricklets.contains_key(uid) {
                (
                    StateView {
                        bricklets: s.bricklets.insert(
                            uid,
                            BrickletConnectionData {
                                connection_failed_counter: (s.bricklets[uid].connection_failed_counter
                                    + 1) as u32,
                                ..s.bricklets[uid]
                            },
                        ),
                        ..s
                    },
                    true,
                )
            } else {
                (s, false)
            }
        },
    }
}

/// Whether a message can be taken without its failure counter overflowing
/// (the counter is increased when a known bricklet reconnects differently
/// or fails to communicate).
pub open spec fn message_acceptable(s: StateView, msg: StateUpdateMessage) -> bool {
    match msg {
        StateUpdateMessage::BrickletConnected { uid, endpoint, metadata, session } => (
        s.bricklets.contains_key(uid) && bricklet_connected_differs(
            s.bricklets[uid],
            endpoint,
            metadata,
            session,
        )) ==> s.bricklets[uid].connection_failed_counter < u32::MAX,
        StateUpdateMessage::CommunicationFailed { uid } => s.bricklets.contains_key(uid)
            ==> s.bricklets[uid].connection_failed_counter < u32::MAX,
        _ => true,
    }
}

impl State {
    pub open spec fn wf(&self) -> bool {
        &&& self.endpoints.wf()
        &&& self.bricklets.wf()
        &&& self.error_counters.wf()
    }

    pub open spec fn view(&self) -> StateView {
        StateView {
            endpoints: self.endpoints.view(),
            bricklets: self.bricklets.view(),
            error_counters: self.error_counters.view(),
        }
    }

    /// Nothing known yet.
    pub fn new() -> (s: State)
        ensures
            s.wf(),
            s.view().endpoints == Map::<IpAddress, ConnectionData>::empty(),
            s.view().bricklets == Map::<u32, BrickletConnectionData>::empty(),
            s.view().error_counters == Map::<PortKey, SpitfpErrorCounters>::empty(),
    {
        State { endpoints: AssocList::new(), bricklets: AssocList::new(), error_counters: AssocList::new() }
    }

    /// What is known about an endpoint.
    pub fn endpoint(&self, ip: &IpAddress) -> (r: Option<ConnectionData>)
        requires
            self.wf(),
        ensures
            r == (if self.view().endpoints.contains_key(*ip) {
                Some(self.view().endpoints[*ip])
            } else {
                None
            }),
    {
        self.endpoints.get(ip)
    }

    /// What is known about a bricklet.
    pub fn bricklet(&self, uid: u32) -> (r: Option<BrickletConnectionData>)
        requires
            self.wf(),
        ensures
            r == (if self.view().bricklets.contains_key(uid) {
                Some(self.view().bricklets[uid])
            } else {
                None
            }),
    {
        self.bricklets.get(&uid)
    }

    /// The error counters of a bricklet, port by port.
    pub fn error_counters_of(&self, uid: u32) -> (r: Vec<(Option<char>, SpitfpErrorCounters)>)
        requires
            self.wf(),
        ensures
            forall|i: int|
                0 <= i < r@.len() ==> {
                    let k = PortKey { uid, port: #[trigger] r@[i].0 };
                    self.view().error_counters.contains_key(k) && self.view().error_counters[k]
                        == r@[i].1
                },
            forall|k: PortKey|
                #![trigger self.view().error_counters.contains_key(k)]
                self.view().error_counters.contains_key(k) && k.uid == uid ==> exists|i: int|
                    0 <= i < r@.len() && r@[i].0 == k.port,
            forall|i: int, j: int| 0 <= i < j < r@.len() ==> r@[i].0 != r@[j].0,
            r@ == counters_of_spec(self.error_counters.entries@, uid, self.error_counters.entries@.len() as int),
    {
        let entries = &self.error_counters.entries;
        let ghost src = entries@;
        let mut r: Vec<(Option<char>, SpitfpErrorCounters)> = Vec::new();
        let mut i: usize = 0;
        while i < entries.len()
            invariant
                i <= src.len(),
                entries@ == src,
                keys_distinct(src),
                forall|j: int|
                    0 <= j < r@.len() ==> {
                        let k = PortKey { uid, port: #[trigger] r@[j].0 };
                        assoc_map(src.take(i as int)).contains_key(k) && assoc_map(
                            src.take(i as int),
                        )[k] == r@[j].1
                    },
                forall|k: PortKey|
                    #![trigger assoc_map(src.take(i as int)).contains_key(k)]
                    assoc_map(src.take(i as int)).contains_key(k) && k.uid == uid ==> exists|
                        j: int,
                    | 0 <= j < r@.len() && r@[j].0 == k.port,
                forall|a: int, b: int| 0 <= a < b < r@.len() ==> r@[a].0 != r@[b].0,
                r@ == counters_of_spec(src, uid, i as int),
            decreases src.len() - i,
        {
            let (k, c) = entries[i];
            let ghost before = r@;
            proof {
                lemma_take_step(src, i as int);
                lemma_assoc_contains(src.take(i as int), k);
                assert forall|m: int| 0 <= m < src.take(i as int).len() implies src.take(i as int)[m].0 != k by {
                    assert(src[m].0 != src[i as int].0);
                }
            }
            if k.uid == uid {
                proof {
                    assert forall|j: int| 0 <= j < before.len() implies before[j].0 != k.port by {
                        let kk = PortKey { uid, port: before[j].0 };
                        assert(assoc_map(src.take(i as int)).contains_key(kk));
                    }
                }
                r.push((k.port, c));
            }
            proof {
                let m0 = assoc_map(src.take(i as int));
                let m1 = assoc_map(src.take(i + 1));
                assert forall|j: int| 0 <= j < r@.len() implies {
                    let kk = PortKey { uid, port: #[trigger] r@[j].0 };
                    m1.contains_key(kk) && m1[kk] == r@[j].1
                } by {
                    if j < before.len() {
                        assert(r@[j] == before[j]);
                    }
                }
                assert forall|kk: PortKey|
                    #![trigger m1.contains_key(kk)]
                    m1.contains_key(kk) && kk.uid == uid implies exists|j: int|
                        0 <= j < r@.len() && r@[j].0 == kk.port by {
                    if kk == k {
                        assert(r@[r@.len() - 1].0 == kk.port);
                    } else {
                        assert(m0.contains_key(kk));
                        let j = choose|j: int| 0 <= j < before.len() && before[j].0 == kk.port;
                        assert(r@[j] == before[j]);
                    }
                }
            }
            i = i + 1;
        }
        proof {
            assert(src.take(src.len() as int) =~= src);
        }
        r
    }

    /// Takes a status message received at time `now`; returns whether the
    /// known state changed.
    pub fn process_msg(&mut self, msg: StateUpdateMessage, now: u64) -> (changed: bool)
        requires
            old(self).wf(),
            message_acceptable(old(self).view(), msg),
        ensures
            final(self).wf(),
            final(self).view() == process_spec(old(self).view(), msg, now).0,
            changed == process_spec(old(self).view(), msg, now).1,
    {
        match msg {
            StateUpdateMessage::EndpointConnected(ip) => {
                match self.endpoints.get(&ip) {
                    Some(e) => {
                        if e.state != ConnectionState::Connected {
                            self.endpoints.insert(
                                ip,
                                ConnectionData { state: ConnectionState::Connected, last_change: now },
                            );
                            true
                        } else {
                            false
                        }
                    },
                    None => {
                        self.endpoints.insert(
                            ip,
                            ConnectionData { state: ConnectionState::Connected, last_change: now },
                        );
                        true
                    },
                }
            },
            StateUpdateMessage::EndpointDisconnected(ip) => {
                match self.endpoints.get(&ip) {
                    Some(e) => {
                        if e.state != ConnectionState::Disconnected {
                            self.endpoints.insert(
                                ip,
                                ConnectionData {
                                    state: ConnectionState::Disconnected,
                                    last_change: now,
                                },
                            );
                            true
                        } else {
                            false
                        }
                    },
                    None => false,
                }
            },
            StateUpdateMessage::BrickletConnected { uid, endpoint, metadata, session } => {
                match self.bricklets.get(&uid) {
                    Some(e) => {
                        if e.state != ConnectionState::Connected || e.metadata != Some(metadata)
                            || e.endpoint != endpoint || e.session != session {
                            self.bricklets.insert(
                                uid,
                                BrickletConnectionData {
                                    state: ConnectionState::Connected,
                                    last_change: now,
                                    endpoint,
                                    metadata: Some(metadata),
                                    connection_failed_counter: e.connection_failed_counter + 1,
                                    session,
                                },
                            );
                            self.drop_counters_of(uid);
                            true
                        } else {
                            false
                        }
                    },
                    None => {
                        self.bricklets.insert(
                            uid,
                            BrickletConnectionData {
                                state: ConnectionState::Connected,
                                last_change: now,
                                endpoint,
                                metadata: Some(metadata),
                                connection_failed_counter: 0,
                                session,
                            },
                        );
                        self.drop_counters_of(uid);
                        true
                    },
                }
            },
            StateUpdateMessage::BrickletDisconnected { uid, endpoint, session } => {
                match self.bricklets.get(&uid) {
                    Some(e) => {
                        if e.state != ConnectionState::Disconnected && e.endpoint == endpoint
                            && e.session == session {
                            self.bricklets.insert(
                                uid,
                                BrickletConnectionData {
                                    state: ConnectionState::Disconnected,
                                    last_change: now,
                                    ..e
                                },
                            );
                            true
                        } else {
                            false
                        }
                    },
                    None => false,
                }
            },
            StateUpdateMessage::SpitfpMetrics { uid, port, counters } => {
                match self.bricklets.get(&uid) {
                    Some(_) => {
                        let k = PortKey { uid, port };
                        if self.error_counters.get(&k) == Some(counters) {
                            false
                        } else {
                            self.error_counters.insert(k, counters);
                            true
                        }
                    },
                    None => false,
                }
            },
            StateUpdateMessage::CommunicationFailed { uid } => {
                match self.bricklets.get(&uid) {
                    Some(e) => {
                        self.bricklets.insert(
                            uid,
                            BrickletConnectionData {
                                connection_failed_counter: e.connection_failed_counter + 1,
                                ..e
                            },
                        );
                        true
                    },
                    None => false,
                }
            },
        }
    }

    /// Forgets the error counters of bricklet `uid`.
    fn drop_counters_of(&mut self, uid: u32)
        requires
            old(self).wf(),
        ensures
            final(self).wf(),
            final(self).endpoints == old(self).endpoints,
            final(self).bricklets == old(self).bricklets,
            final(self).view().error_counters == without_counters_of(
                old(self).view().error_counters,
                uid,
            ),
    {
        let ghost src = self.error_counters.entries@;
        let mut out: Vec<(PortKey, SpitfpErrorCounters)> = Vec::new();
        let mut i: usize = 0;
        while i < self.error_counters.entries.len()
            invariant
                i <= src.len(),
                self.error_counters.entries@ == src,
                keys_distinct(src),
                keys_distinct(out@),
                assoc_map(out@) == without_counters_of(assoc_map(src.take(i as int)), uid),
            decreases src.len() - i,
        {
            let e = self.error_counters.entries[i];
            proof {
                lemma_take_step(src, i as int);
                lemma_assoc_contains(src.take(i as int), e.0);
                assert forall|m: int| 0 <= m < src.take(i as int).len() implies src.take(i as int)[m].0 != e.0 by {
                    assert(src[m].0 != src[i as int].0);
                }
            }
            if e.0.uid != uid {
                proof {
                    lemma_assoc_push(out@, e.0, e.1);
                }
                out.push(e);
            }
            proof {
                assert(assoc_map(out@) =~= without_counters_of(assoc_map(src.take(i + 1)), uid));
            }
            i = i + 1;
        }
        proof {
            assert(src.take(src.len() as int) =~= src);
        }
        self.error_counters = AssocList { entries: out };
    }
}

/// Taking one more entry of a list adds that entry to the map it stands for.
proof fn lemma_take_step<K, V>(s: Seq<(K, V)>, i: int)
    requires
        0 <= i < s.len(),
    ensures
        assoc_map(s.take(i + 1)) == assoc_map(s.take(i)).insert(s[i].0, s[i].1),
{
    assert(s.take(i + 1).drop_last() =~= s.take(i));
}

/// A message reports a change exactly when it changes the known state.
pub proof fn lemma_changed_iff_state_differs(s: StateView, msg: StateUpdateMessage, now: u64)
    ensures
        process_spec(s, msg, now).1 <==> process_spec(s, msg, now).0 != s,
{
    let (t, changed) = process_spec(s, msg, now);
    if changed {
        match msg {
            StateUpdateMessage::EndpointConnected(ip) => {
                assert(t.endpoints[ip].state == ConnectionState::Connected);
            },
            StateUpdateMessage::EndpointDisconnected(ip) => {
                assert(t.endpoints[ip].state == ConnectionState::Disconnected);
            },
            StateUpdateMessage::BrickletConnected { uid, endpoint, metadata, session } => {
                if s.bricklets.contains_key(uid) {
                    assert(t.bricklets[uid] != s.bricklets[uid]);
                } else {
                    assert(t.bricklets.contains_key(uid));
                }
            },
            StateUpdateMessage::BrickletDisconnected { uid, endpoint, session } => {
                assert(t.bricklets[uid].state == ConnectionState::Disconnected);
            },
            StateUpdateMessage::SpitfpMetrics { uid, port, counters } => {
                let k = PortKey { uid, port };
                assert(t.error_counters.contains_key(k) && t.error_counters[k] == counters);
            },
            StateUpdateMessage::CommunicationFailed { uid } => {
                let x = s.bricklets[uid].connection_failed_counter;
                assert(((x + 1) as u32) != x) by (bit_vector);
                assert(t.bricklets[uid].connection_failed_counter != x);
            },
        }
    }
}

/// Taking the same message twice changes nothing the second time, except a
/// communication failure, which is counted each time.
pub proof fn lemma_repeated_message_is_noop(s: StateView, msg: StateUpdateMessage, now1: u64, now2: u64)
    requires
        !(msg is CommunicationFailed),
    ensures
        !process_spec(process_spec(s, msg, now1).0, msg, now2).1,
        process_spec(process_spec(s, msg, now1).0, msg, now2).0 == process_spec(s, msg, now1).0,
{
}

/// Each communication failure of a known bricklet raises its failure counter by one.
pub proof fn lemma_failure_counted(s: StateView, uid: u32, now: u64)
    requires
        s.bricklets.contains_key(uid),
        s.bricklets[uid].connection_failed_counter < u32::MAX,
    ensures
        ({
            let t = process_spec(s, StateUpdateMessage::CommunicationFailed { uid }, now).0;
            t.bricklets[uid].connection_failed_counter == s.bricklets[uid].connection_failed_counter
                + 1
        }),
{
}

} // verus!
