//! Receive-side filtering of the frames that arrive over both links.
//!
//! Every frame is sent on two links, so each packet number normally arrives
//! twice. The receiver passes a frame only when its number is ahead of the
//! last one it passed by less than [`PACKET_WINDOW`].

use vstd::prelude::*;
use crate::counter::next_packet;

verus! {

/// A frame passes when its number is ahead of the last passed one by less
/// than this.
pub const PACKET_WINDOW: u32 = 5;

/// Whether a receiver that last passed `last` passes the frame `packet`.
pub open spec fn accepts(last: u32, packet: u32) -> bool {
    last < packet && packet - last < PACKET_WINDOW
}

/// What a receiver remembers after passing `packet`: the number itself, with
/// `u32::MAX` folded to `0` so that the numbering can start again at `1`.
pub open spec fn last_after(packet: u32) -> u32 {
    (packet % u32::MAX) as u32
}

/// The receive-side state: the last packet number passed on.
pub struct PacketFilter {
    pub last: u32,
}

impl PacketFilter {
    /// A filter that has passed nothing yet.
    pub fn new() -> (f: Self)
        ensures
            f.last == 0,
    {
        PacketFilter { last: 0 }
    }

    /// Decides whether the frame numbered `packet` is passed on, and
    /// remembers it if so.
    pub fn accept(&mut self, packet: u32) -> (passed: bool)
        ensures
            passed == accepts(old(self).last, packet),
            passed ==> final(self).last == last_after(packet),
            !passed ==> final(self).last == old(self).last,
            passed <==> (old(self).last < packet && packet - old(self).last <= 4),
            passed ==> final(self).last == (if packet == u32::MAX { 0 } else { packet }),
    {
        proof {
            lemma_accepts_only_ahead(old(self).last, packet);
        }
        if self.last < packet && packet - self.last < PACKET_WINDOW {
            self.last = packet % u32::MAX;
            true
        } else {
            false
        }
    }
}

/// A frame is passed exactly when its number is ahead of the last passed one
/// by one to four; a number equal to or behind the last passed one is never
/// passed. After passing `packet` the receiver remembers `packet` itself, or
/// `0` for `u32::MAX`.
pub proof fn lemma_accepts_only_ahead(last: u32, packet: u32)
    ensures
        accepts(last, packet) <==> (last < packet && packet - last <= 4),
        packet <= last ==> !accepts(last, packet),
        last_after(packet) == (if packet == u32::MAX { 0 } else { packet }),
{
}

/// A receiver that is in step with a sender (it last passed the sender's
/// last number) passes the sender's next frame, stays in step after it, and
/// refuses the copy of that frame that arrives over the other link.
pub proof fn lemma_in_step(sent: u32)
    ensures
        accepts(last_after(sent), next_packet(sent)),
        !accepts(last_after(next_packet(sent)), next_packet(sent)),
{
}

/// A frame that has been passed is never passed a second time right after.
pub proof fn lemma_duplicate_refused(packet: u32)
    ensures
        !accepts(last_after(packet), packet),
{
}

/// Up to three frames may be missed: a receiver in step with a sender passes
/// any of the sender's next four frame numbers, as long as the numbering does
/// not start again at `1` among them.
pub proof fn lemma_window(sent: u32)
    requires
        sent + 4 <= u32::MAX || sent == u32::MAX,
    ensures
        accepts(last_after(sent), next_packet(sent)),
        accepts(last_after(sent), next_packet(next_packet(sent))),
        accepts(last_after(sent), next_packet(next_packet(next_packet(sent)))),
        accepts(last_after(sent), next_packet(next_packet(next_packet(next_packet(sent))))),
{
}

} // verus!
