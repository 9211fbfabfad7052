//! Buttons wired to the inputs of IO-16 bricklets: decoding of interrupt
//! masks, the channel table and the press / long-press / release machine.
use vstd::prelude::*;

verus! {

/// What happens on an input channel.
#[derive(Debug, Clone, Copy, PartialEq, Eq, Structural)]
pub enum IoMessage {
    Close,
    Press(u8),
    LongPress(u8),
    Release(u8),
}

/// Number of bits up to and including the highest set bit.
pub open spec fn bit_len(m: u8) -> nat
    decreases m,
{
    if m == 0 {
        0
    } else {
        proof {
            lemma_shift_smaller(m);
        }
        1 + bit_len(m >> 1)
    }
}

/// Shifting a non-zero byte right makes it smaller.
pub proof fn lemma_shift_smaller(m: u8)
    requires
        m != 0,
    ensures
        (m >> 1) < m,
{
    assert((m >> 1) < m) by (bit_vector)
        requires
            m != 0,
    ;
}

/// The message for one interrupting input: a high level is a release, a
/// low one a press.
pub open spec fn mask_event(value: u8, index: int) -> IoMessage {
    if value & 1 == 1 {
        IoMessage::Release(index as u8)
    } else {
        IoMessage::Press(index as u8)
    }
}

/// The messages of an interrupt: for each bit set in `mask`, from the
/// lowest, a release or press of input `index + bit` by the bit of `value`.
pub open spec fn mask_events(value: u8, mask: u8, index: int) -> Seq<IoMessage>
    decreases mask,
{
    if mask == 0 {
        Seq::<IoMessage>::empty()
    } else {
        proof {
            lemma_shift_smaller(mask);
        }
        if mask & 1 == 0 {
            mask_events(value >> 1, mask >> 1, index + 1)
        } else {
            seq![mask_event(value, index)] + mask_events(value >> 1, mask >> 1, index + 1)
        }
    }
}

/// Walks the bits of an interrupt mask, yielding one message per set bit.
#[derive(Debug, Clone, Copy, PartialEq, Eq, Structural)]
pub struct ByteMaskIterator {
    pub value: u8,
    pub mask: u8,
    pub index: u8,
}

impl ByteMaskIterator {
    /// The input numbers stay below 256 while the mask is walked.
    pub open spec fn wf(self) -> bool {
        self.index + bit_len(self.mask) <= 255
    }

    pub open spec fn remaining(self) -> Seq<IoMessage> {
        mask_events(self.value, self.mask, self.index as int)
    }

    /// The next message, skipping unset bits.
    pub fn next(&mut self) -> (r: Option<IoMessage>)
        requires
            old(self).wf(),
        ensures
            final(self).wf(),
            old(self).remaining().len() == 0 ==> r is None && final(self).remaining().len() == 0,
            old(self).remaining().len() > 0 ==> r == Some(old(self).remaining()[0])
                && final(self).remaining() == old(self).remaining().drop_first(),
    {
        while self.mask != 0 && self.mask & 1 == 0
            invariant
                self.wf(),
                self.remaining() == old(self).remaining(),
            decreases self.mask,
        {
            let m = self.mask;
            proof {
                lemma_shift_smaller(m);
            }
            self.index = self.index + 1;
            self.mask = self.mask >> 1;
            self.value = self.value >> 1;
        }
        if self.mask == 0 {
            None
        } else {
            let event = if self.value & 1 == 1 {
                IoMessage::Release(self.index)
            } else {
                IoMessage::Press(self.index)
            };
            let ghost before = self.remaining();
            let m = self.mask;
            proof {
                lemma_shift_smaller(m);
            }
            self.index = self.index + 1;
            self.mask = self.mask >> 1;
            self.value = self.value >> 1;
            assert(before == seq![event] + self.remaining());
            assert(self.remaining() =~= before.drop_first());
            Some(event)
        }
    }

    /// All remaining messages, in order.
    pub fn collect_events(self) -> (v: Vec<IoMessage>)
        requires
            self.wf(),
        ensures
            v@ == self.remaining(),
    {
        let mut it = self;
        let mut v: Vec<IoMessage> = Vec::new();
        loop
            invariant
                it.wf(),
                self.remaining() == v@ + it.remaining(),
            decreases it.remaining().len(),
        {
            let ghost before = it.remaining();
            match it.next() {
                Some(e) => {
                    v.push(e);
                    assert(self.remaining() =~= v@ + it.remaining());
                },
                None => {
                    assert(v@ + it.remaining() =~= v@);
                    return v;
                },
            }
        }
    }
}

/// `k` one bits: `2^k - 1`.
pub open spec fn ones(k: nat) -> int
    decreases k,
{
    if k == 0 {
        0
    } else {
        2 * ones((k - 1) as nat) + 1
    }
}

/// A mask no larger than `k` one bits has at most `k` bits.
pub proof fn lemma_bit_len_bound(m: u8, k: nat)
    requires
        m as int <= ones(k),
    ensures
        bit_len(m) <= k,
    decreases k,
{
    if m != 0 {
        assert(m >> 1 == m / 2) by (bit_vector);
        lemma_bit_len_bound(m >> 1, (k - 1) as nat);
    }
}

/// The input a port's lowest bit stands for: port `a` holds inputs 0 to 7,
/// port `b` inputs 8 to 15.
pub open spec fn port_start_spec(port: char) -> Option<u8> {
    if port == 'a' {
        Some(0u8)
    } else if port == 'b' {
        Some(8u8)
    } else {
        None
    }
}

/// The messages of an interrupt of port `port`: for each input whose bit is
/// set in `interrupt_mask`, a press or a release by its bit of `value_mask`;
/// none for a port other than `a` and `b`.
pub fn interrupt_events(port: char, interrupt_mask: u8, value_mask: u8) -> (v: Vec<IoMessage>)
    ensures
        v@ == match port_start_spec(port) {
            Some(start) => mask_events(value_mask, interrupt_mask, start as int),
            None => Seq::<IoMessage>::empty(),
        },
{
    let start: u8 = if port == 'a' {
        0
    } else if port == 'b' {
        8
    } else {
        return Vec::new();
    };
    proof {
        reveal_with_fuel(ones, 9);
        lemma_bit_len_bound(interrupt_mask, 8);
    }
    let it = ByteMaskIterator { value: value_mask, mask: interrupt_mask, index: start };
    it.collect_events()
}

} // verus!
