//! Driving a DMX bus: the channel values kept for the bus, which 60-byte
//! frames a command makes dirty, and the warm/cold split of a tunable white light.
use vstd::prelude::*;

verus! {

/// Number of channels in a frame written to the bus.
pub const DMX_PACKET_SIZE: u16 = 60;

/// Number of channels kept for the bus.
pub const DMX_CHANNEL_COUNT: usize = 480;

/// A request to the bus task.
#[derive(Debug, Clone, Copy, PartialEq, Eq, Structural)]
pub enum DmxCommand {
    SetSingleChannel { channel: u16, value: u8 },
    SetDualChannel { lower_channel: u16, lower_value: u8, higher_channel: u16, higher_value: u8 },
    Exit,
}

impl DmxCommand {
    /// Sets one channel.
    pub fn single(channel: u16, value: u8) -> (c: Self)
        ensures
            c == (DmxCommand::SetSingleChannel { channel, value }),
    {
        DmxCommand::SetSingleChannel { channel, value }
    }

    /// Sets two channels; the lower channel number comes first.
    pub fn dual(channel1: u16, value1: u8, channel2: u16, value2: u8) -> (c: Self)
        ensures
            c == (if channel1 < channel2 {
                DmxCommand::SetDualChannel {
                    lower_channel: channel1,
                    lower_value: value1,
                    higher_channel: channel2,
                    higher_value: value2,
                }
            } else {
                DmxCommand::SetDualChannel {
                    lower_channel: channel2,
                    lower_value: value2,
                    higher_channel: channel1,
                    higher_value: value1,
                }
            }),
    {
        if channel1 < channel2 {
            DmxCommand::SetDualChannel {
                lower_channel: channel1,
                lower_value: value1,
                higher_channel: channel2,
                higher_value: value2,
            }
        } else {
            DmxCommand::SetDualChannel {
                lower_channel: channel2,
                lower_value: value2,
                higher_channel: channel1,
                higher_value: value1,
            }
        }
    }

    /// Whether the command can be taken: a dual command names its channels in order.
    pub open spec fn well_ordered(self) -> bool {
        match self {
            DmxCommand::SetDualChannel { lower_channel, higher_channel, .. } => lower_channel
                <= higher_channel,
            _ => true,
        }
    }
}

/// Start of the frame that holds a channel.
pub open spec fn packet_offset(channel: u16) -> u16 {
    (channel - channel % 60) as u16
}

/// The channel values after setting `channel` to `value` (channels past the
/// end are ignored).
pub open spec fn set_channel(values: Seq<u8>, channel: u16, value: u8) -> Seq<u8> {
    if channel < values.len() {
        values.update(channel as int, value)
    } else {
        values
    }
}

/// Whether setting `channel` to `value` changes anything.
pub open spec fn channel_changes(values: Seq<u8>, channel: u16, value: u8) -> bool {
    channel < values.len() && values[channel as int] != value
}

/// The channel values after a command.
pub open spec fn dmx_values_after(values: Seq<u8>, cmd: DmxCommand) -> Seq<u8> {
    match cmd {
        DmxCommand::SetSingleChannel { channel, value } => set_channel(values, channel, value),
        DmxCommand::SetDualChannel { lower_channel, lower_value, higher_channel, higher_value } => {
            set_channel(set_channel(values, lower_channel, lower_value), higher_channel, higher_value)
        },
        DmxCommand::Exit => values,
    }
}

/// The offsets of the frames a command makes dirty, in the order they are written.
pub open spec fn dmx_writes(values: Seq<u8>, cmd: DmxCommand) -> Seq<u16> {
    match cmd {
        DmxCommand::SetSingleChannel { channel, value } => {
            if channel_changes(values, channel, value) {
                seq![packet_offset(channel)]
            } else {
                seq![]
            }
        },
        DmxCommand::SetDualChannel { lower_channel, lower_value, higher_channel, higher_value } => {
            let lower_changed = channel_changes(values, lower_channel, lower_value);
            let higher_changed = channel_changes(
                set_channel(values, lower_channel, lower_value),
                higher_channel,
                higher_value,
            );
            if lower_changed && higher_changed {
                if higher_channel - lower_channel < 60 {
                    seq![(if higher_channel >= 60 { higher_channel - 60 } else { 0 }) as u16]
                } else {
                    seq![packet_offset(lower_channel), packet_offset(higher_channel)]
                }
            } else if lower_changed {
                seq![packet_offset(lower_channel)]
            } else if higher_changed {
                seq![packet_offset(higher_channel)]
            } else {
                seq![]
            }
        },
        DmxCommand::Exit => seq![],
    }
}

/// Whether the frame starting at `offset` holds channel `c`.
pub open spec fn frame_holds(offset: u16, c: int) -> bool {
    offset <= c < offset + DMX_PACKET_SIZE
}

/// Whether one of the frames starting at `offsets` holds channel `c`.
pub open spec fn some_frame_holds(offsets: Seq<u16>, c: int) -> bool {
    exists|i: int| 0 <= i < offsets.len() && #[trigger] frame_holds(offsets[i], c)
}

/// Whether `c` is the higher channel of a pair command that changes both of
/// its channels, less than a frame apart, with the higher one at 60 or past:
/// the one frame written for such a pair ends just before the higher channel.
pub open spec fn is_near_pair_tail(values: Seq<u8>, cmd: DmxCommand, c: int) -> bool {
    match cmd {
        DmxCommand::SetDualChannel { lower_channel, lower_value, higher_channel, higher_value } => {
            &&& channel_changes(values, lower_channel, lower_value)
            &&& channel_changes(
                set_channel(values, lower_channel, lower_value),
                higher_channel,
                higher_value,
            )
            &&& higher_channel - lower_channel < DMX_PACKET_SIZE
            &&& higher_channel >= DMX_PACKET_SIZE
            &&& c == higher_channel
        },
        _ => false,
    }
}

/// The values of all channels of the bus.
#[derive(Debug, Clone)]
pub struct DmxChannels {
    pub values: Vec<u8>,
}

impl DmxChannels {
    pub open spec fn wf(&self) -> bool {
        self.values@.len() == DMX_CHANNEL_COUNT
    }

    /// All channels off.
    pub fn new() -> (d: Self)
        ensures
            d.wf(),
            forall|i: int| 0 <= i < DMX_CHANNEL_COUNT ==> d.values@[i] == 0,
    {
        let mut values: Vec<u8> = Vec::new();
        let mut i: usize = 0;
        while i < DMX_CHANNEL_COUNT
            invariant
                i <= DMX_CHANNEL_COUNT,
                values@.len() == i,
                forall|j: int| 0 <= j < i ==> values@[j] == 0,
            decreases DMX_CHANNEL_COUNT - i,
        {
            values.push(0);
            i = i + 1;
        }
        DmxChannels { values }
    }

    /// Sets a channel; returns whether its value changed.
    fn set(&mut self, channel: u16, value: u8) -> (changed: bool)
        requires
            old(self).wf(),
        ensures
            final(self).wf(),
            final(self).values@ == set_channel(old(self).values@, channel, value),
            changed == channel_changes(old(self).values@, channel, value),
    {
        let c = channel as usize;
        if c < self.values.len() {
            if self.values[c] != value {
                self.values.set(c, value);
                true
            } else {
                false
            }
        } else {
            false
        }
    }

    /// Takes a command; returns the offsets of the frames to write, in order.
    pub fn apply(&mut self, cmd: DmxCommand) -> (writes: Vec<u16>)
        requires
            old(self).wf(),
            cmd.well_ordered(),
        ensures
            final(self).wf(),
            final(self).values@ == dmx_values_after(old(self).values@, cmd),
            writes@ == dmx_writes(old(self).values@, cmd),
            forall|i: int|
                0 <= i < writes@.len() ==> writes@[i] + DMX_PACKET_SIZE <= DMX_CHANNEL_COUNT,
            forall|c: int|
                0 <= c < DMX_CHANNEL_COUNT && old(self).values@[c] != final(self).values@[c]
                    && !is_near_pair_tail(old(self).values@, cmd, c) ==> some_frame_holds(
                    writes@,
                    c,
                ),
    {
        let mut writes: Vec<u16> = Vec::new();
        match cmd {
            DmxCommand::SetSingleChannel { channel, value } => {
                if self.set(channel, value) {
                    writes.push(channel - channel % DMX_PACKET_SIZE);
                }
            },
            DmxCommand::SetDualChannel {
                lower_channel,
                lower_value,
                higher_channel,
                higher_value,
            } => {
                let lower_changed = self.set(lower_channel, lower_value);
                let higher_changed = self.set(higher_channel, higher_value);
                if lower_changed && higher_changed {
                    if higher_channel - lower_channel < DMX_PACKET_SIZE {
                        writes.push(higher_channel.saturating_sub(DMX_PACKET_SIZE));
                    } else {
                        writes.push(lower_channel - lower_channel % DMX_PACKET_SIZE);
                        writes.push(higher_channel - higher_channel % DMX_PACKET_SIZE);
                    }
                } else if lower_changed {
                    writes.push(lower_channel - lower_channel % DMX_PACKET_SIZE);
                } else if higher_changed {
                    writes.push(higher_channel - higher_channel % DMX_PACKET_SIZE);
                }
            },
            DmxCommand::Exit => {},
        }
        proof {
            assert(writes@ =~= dmx_writes(old(self).values@, cmd));
            assert forall|c: int|
                0 <= c < DMX_CHANNEL_COUNT && old(self).values@[c] != self.values@[c]
                    && !is_near_pair_tail(old(self).values@, cmd, c) implies some_frame_holds(
                writes@,
                c,
            ) by {
                lemma_changed_channel_written(old(self).values@, cmd, c);
            }
        }
        writes
    }

    /// The frame of 60 channels starting at `offset`.
    pub fn frame(&self, offset: u16) -> (f: Vec<u8>)
        requires
            self.wf(),
            offset + DMX_PACKET_SIZE <= DMX_CHANNEL_COUNT,
        ensures
            f@ == self.values@.subrange(offset as int, offset + DMX_PACKET_SIZE),
    {
        let mut f: Vec<u8> = Vec::new();
        let start = offset as usize;
        let end = start + DMX_PACKET_SIZE as usize;
        let mut i: usize = start;
        while i < end
            invariant
                start <= i <= end,
                end == start + DMX_PACKET_SIZE,
                end <= self.values@.len(),
                f@ == self.values@.subrange(start as int, i as int),
            decreases end - i,
        {
            f.push(self.values[i]);
            i = i + 1;
            proof {
                assert(f@ =~= self.values@.subrange(start as int, i as int));
            }
        }
        f
    }
}

/// An update to a tunable white light: a new brightness or a new colour
/// temperature in mireds.
#[derive(Debug, Clone, Copy, PartialEq, Eq, Structural)]
pub enum DimmColorUpdate {
    Brightness(u8),
    Color(u16),
}

/// `a - b`, or 0 where that is negative.
pub open spec fn sat_sub_u16(a: u16, b: u16) -> u16 {
    if a >= b {
        (a - b) as u16
    } else {
        0
    }
}

/// `v` held within `[min, max]`.
pub open spec fn clamp_u16(v: u16, min: u16, max: u16) -> u16 {
    if v < min {
        min
    } else if v > max {
        max
    } else {
        v
    }
}

/// What a tunable white light currently shows. Its colour runs from
/// `cold_mireds` to `warm_mireds`.
#[derive(Debug, Clone, Copy, PartialEq, Eq, Structural)]
pub struct WhitebalanceState {
    pub brightness: u8,
    pub whitebalance: u16,
    pub warm_mireds: u16,
    pub cold_mireds: u16,
}

/// The shares of the warm and of the cold channel, before they are scaled to
/// the brightness: how far the colour is from the cold end and from the warm end.
#[derive(Debug, Clone, Copy, PartialEq, Eq, Structural)]
pub struct WhitebalanceParts {
    pub brightness: u8,
    pub warm_part: u16,
    pub cold_part: u16,
}

impl WhitebalanceState {
    pub open spec fn wf(self) -> bool {
        self.cold_mireds <= self.warm_mireds
    }

    /// Dark, with the colour halfway between the two ends.
    pub fn new(warm_mireds: u16, cold_mireds: u16) -> (s: Self)
        requires
            cold_mireds <= warm_mireds,
            cold_mireds + warm_mireds <= u16::MAX,
        ensures
            s.wf(),
            s == (WhitebalanceState {
                brightness: 0,
                whitebalance: ((cold_mireds + warm_mireds) / 2) as u16,
                warm_mireds,
                cold_mireds,
            }),
    {
        WhitebalanceState {
            brightness: 0,
            whitebalance: (cold_mireds + warm_mireds) / 2,
            warm_mireds,
            cold_mireds,
        }
    }

    /// Takes an update (a colour is held within the light's range) and
    /// returns the channel shares.
    pub fn update(&mut self, u: DimmColorUpdate) -> (p: WhitebalanceParts)
        requires
            old(self).wf(),
        ensures
            final(self).wf(),
            final(self).warm_mireds == old(self).warm_mireds,
            final(self).cold_mireds == old(self).cold_mireds,
            final(self).brightness == (match u {
                DimmColorUpdate::Brightness(b) => b,
                DimmColorUpdate::Color(_) => old(self).brightness,
            }),
            final(self).whitebalance == (match u {
                DimmColorUpdate::Brightness(_) => old(self).whitebalance,
                DimmColorUpdate::Color(c) => clamp_u16(c, old(self).cold_mireds, old(self).warm_mireds),
            }),
            p.brightness == final(self).brightness,
            p.warm_part == sat_sub_u16(final(self).whitebalance, final(self).cold_mireds),
            p.cold_part == sat_sub_u16(final(self).warm_mireds, final(self).whitebalance),
    {
        match u {
            DimmColorUpdate::Brightness(b) => {
                self.brightness = b;
            },
            DimmColorUpdate::Color(c) => {
                self.whitebalance = if c < self.cold_mireds {
                    self.cold_mireds
                } else if c > self.warm_mireds {
                    self.warm_mireds
                } else {
                    c
                };
            },
        }
        WhitebalanceParts {
            brightness: self.brightness,
            warm_part: self.whitebalance.saturating_sub(self.cold_mireds),
            cold_part: self.warm_mireds.saturating_sub(self.whitebalance),
        }
    }
}

/// The value a switch sets its channel to.
pub fn switch_channel_value(on: bool) -> (v: u8)
    ensures
        v == (if on { 255u8 } else { 0u8 }),
{
    if on {
        255
    } else {
        0
    }
}

/// A single-channel command that changes its channel writes exactly one
/// frame, and that frame holds the channel.
pub proof fn lemma_single_write_covers(values: Seq<u8>, channel: u16, value: u8)
    requires
        channel_changes(values, channel, value),
    ensures
        dmx_writes(values, DmxCommand::SetSingleChannel { channel, value }).len() == 1,
        packet_offset(channel) <= channel < packet_offset(channel) + DMX_PACKET_SIZE,
{
}

/// Every channel that a command changes lies in a frame that the command
/// writes, but for the higher channel of a pair of changed channels less than
/// a frame apart, the higher at 60 or past: that pair's one frame ends just
/// before it.
pub proof fn lemma_changed_channel_written(values: Seq<u8>, cmd: DmxCommand, c: int)
    requires
        cmd.well_ordered(),
        0 <= c < values.len(),
        values[c] != dmx_values_after(values, cmd)[c],
        !is_near_pair_tail(values, cmd, c),
    ensures
        some_frame_holds(dmx_writes(values, cmd), c),
{
    let w = dmx_writes(values, cmd);
    match cmd {
        DmxCommand::SetSingleChannel { channel, value } => {
            assert(c == channel);
            assert(frame_holds(w[0], c));
        },
        DmxCommand::SetDualChannel { lower_channel, lower_value, higher_channel, higher_value } => {
            let mid = set_channel(values, lower_channel, lower_value);
            let lower_changed = channel_changes(values, lower_channel, lower_value);
            let higher_changed = channel_changes(mid, higher_channel, higher_value);
            assert(c == lower_channel || c == higher_channel);
            if c != higher_channel {
                assert(dmx_values_after(values, cmd)[c] == mid[c]);
                assert(lower_changed);
            } else if c != lower_channel {
                assert(mid[c] == values[c]);
                assert(higher_changed);
            } else {
                assert(lower_changed || higher_changed);
            }
            if lower_changed && higher_changed {
                if higher_channel - lower_channel < 60 {
                    assert(frame_holds(w[0], c));
                } else if c == lower_channel {
                    assert(frame_holds(w[0], c));
                } else {
                    assert(frame_holds(w[1], c));
                }
            } else {
                assert(frame_holds(w[0], c));
            }
        },
        DmxCommand::Exit => {},
    }
}

/// A command that leaves the channel values as they were writes no frame
/// (for a pair of two distinct channels).
pub proof fn lemma_unchanged_writes_nothing(values: Seq<u8>, cmd: DmxCommand)
    requires
        dmx_values_after(values, cmd) == values,
        !(cmd matches DmxCommand::SetDualChannel { lower_channel, higher_channel, .. }
            && lower_channel == higher_channel),
    ensures
        dmx_writes(values, cmd).len() == 0,
{
    match cmd {
        DmxCommand::SetSingleChannel { channel, value } => {
            if channel_changes(values, channel, value) {
                assert(dmx_values_after(values, cmd)[channel as int] == value);
            }
        },
        DmxCommand::SetDualChannel { lower_channel, lower_value, higher_channel, higher_value } => {
            let mid = set_channel(values, lower_channel, lower_value);
            if channel_changes(mid, higher_channel, higher_value) {
                assert(dmx_values_after(values, cmd)[higher_channel as int] == higher_value);
            }
            if channel_changes(values, lower_channel, lower_value) {
                assert(dmx_values_after(values, cmd)[lower_channel as int] == lower_value);
            }
        },
        DmxCommand::Exit => {},
    }
}

} // verus!
