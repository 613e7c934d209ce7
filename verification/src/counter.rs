//! The per-direction packet counter that numbers outgoing frames.

use vstd::prelude::*;

verus! {

/// The packet number that follows `c`: counters run through `1..=u32::MAX`
/// and then start again at `1`.
pub open spec fn next_packet(c: u32) -> u32 {
    ((c % u32::MAX) + 1) as u32
}

/// Packet numbers count up by one, and after `u32::MAX` start again at `1`;
/// `0` is never a packet number.
pub proof fn lemma_next_packet_counts_up(c: u32)
    ensures
        c < u32::MAX ==> next_packet(c) == c + 1,
        c == u32::MAX ==> next_packet(c) == 1,
        next_packet(c) != 0,
{
}

/// Numbers the frames that one side of the tunnel sends.
pub struct PacketCounter {
    pub value: u32,
}

impl PacketCounter {
    /// A counter that has numbered nothing yet.
    pub fn new() -> (c: Self)
        ensures
            c.value == 0,
    {
        PacketCounter { value: 0 }
    }

    /// Steps the counter and returns the number for the next frame.
    pub fn advance(&mut self) -> (packet: u32)
        ensures
            packet == next_packet(old(self).value),
            final(self).value == packet,
            1 <= packet,
            packet == (if old(self).value == u32::MAX { 1 } else { old(self).value + 1 }),
    {
        self.value = self.value % u32::MAX;
        self.value = self.value + 1;
        self.value
    }
}

} // verus!
