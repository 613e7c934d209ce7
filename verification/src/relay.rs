//! What a tunnel end does with each frame that arrives over the links.

use vstd::prelude::*;
use crate::arguments::Commands;
use crate::counter::next_packet;
use crate::frame::{
    control_header, data_frame_bytes, header_bytes, lemma_header_roundtrip, parse_header,
    FrameHeader, BUF_SIZE, HEADER_LEN, INFO_CLOSE, INFO_DATA, INFO_OPEN,
};
use crate::sequence::{accepts, last_after, PacketFilter};

verus! {

/// The reaction to one incoming frame.
pub enum InboundAction {
    /// The frame repeats one already passed, or is outside the window: it is
    /// dropped.
    Duplicate,
    /// Connect to `target` for the new connection `connection`; the frame
    /// loop stops after this.
    OpenTarget { connection: u8, target: String },
    /// Close the connection `connection` and stop its reader.
    Close { connection: u8 },
    /// Write the `size` bytes of the body to the connection `connection`.
    Deliver { connection: u8, size: u16 },
    /// The frame is passed but asks for nothing at this end.
    Nothing,
}

/// The reaction of an end running as `mode`, which last passed the frame
/// numbered `last`, to a frame with header `h`.
pub open spec fn inbound_action(mode: Commands, last: u32, h: FrameHeader) -> InboundAction {
    if !accepts(last, h.packet) {
        InboundAction::Duplicate
    } else if mode is Server && h.info == INFO_OPEN {
        InboundAction::OpenTarget { connection: h.connection, target: mode->target }
    } else if h.info == INFO_CLOSE {
        InboundAction::Close { connection: h.connection }
    } else if h.info == INFO_DATA {
        InboundAction::Deliver { connection: h.connection, size: h.size }
    } else {
        InboundAction::Nothing
    }
}

/// What each frame leads to, by its distance from the last passed number and
/// its kind: a frame not one to four ahead is dropped; a passed data frame is
/// delivered in full, whatever its distance within the window; a passed close
/// frame closes its connection; a passed announcement opens a connection to
/// the target at a server end and asks nothing of a client end; any other
/// kind asks nothing.
pub proof fn lemma_inbound_action_cases(mode: Commands, last: u32, h: FrameHeader)
    ensures
        !(last < h.packet && h.packet - last <= 4) ==> inbound_action(mode, last, h)
            == InboundAction::Duplicate,
        (last < h.packet && h.packet - last <= 4) ==> {
            &&& h.info == 1 ==> inbound_action(mode, last, h) == InboundAction::Deliver {
                connection: h.connection,
                size: h.size,
            }
            &&& h.info == 3 ==> inbound_action(mode, last, h) == InboundAction::Close {
                connection: h.connection,
            }
            &&& (h.info == 2 && mode is Server) ==> inbound_action(mode, last, h)
                == InboundAction::OpenTarget { connection: h.connection, target: mode->target }
            &&& (h.info == 2 && mode is Client) ==> inbound_action(mode, last, h)
                == InboundAction::Nothing
            &&& (h.info != 1 && h.info != 2 && h.info != 3) ==> inbound_action(mode, last, h)
                == InboundAction::Nothing
        },
{
}

/// Decides what to do with the frame whose header is `h`, and updates the
/// duplicate filter.
pub fn on_frame(mode: &Commands, filter: &mut PacketFilter, h: FrameHeader) -> (action:
    InboundAction)
    ensures
        action == inbound_action(*mode, old(filter).last, h),
        final(filter).last == (if accepts(old(filter).last, h.packet) {
            last_after(h.packet)
        } else {
            old(filter).last
        }),
        !(old(filter).last < h.packet && h.packet - old(filter).last <= 4) ==> action
            == InboundAction::Duplicate,
        (old(filter).last < h.packet && h.packet - old(filter).last <= 4) ==> {
            &&& h.info == 1 ==> action == InboundAction::Deliver {
                connection: h.connection,
                size: h.size,
            }
            &&& h.info == 3 ==> action == InboundAction::Close { connection: h.connection }
            &&& (h.info == 2 && mode is Server) ==> action == InboundAction::OpenTarget {
                connection: h.connection,
                target: mode->target,
            }
            &&& (h.info == 2 && mode is Client) ==> action == InboundAction::Nothing
            &&& (h.info != 1 && h.info != 2 && h.info != 3) ==> action == InboundAction::Nothing
        },
{
    proof {
        lemma_inbound_action_cases(*mode, old(filter).last, h);
    }
    if !filter.accept(h.packet) {
        return InboundAction::Duplicate;
    }
    if let Commands::Server { target } = mode {
        if h.info == INFO_OPEN {
            return InboundAction::OpenTarget { connection: h.connection, target: target.clone() };
        }
    }
    if h.info == INFO_CLOSE {
        InboundAction::Close { connection: h.connection }
    } else if h.info == INFO_DATA {
        InboundAction::Deliver { connection: h.connection, size: h.size }
    } else {
        InboundAction::Nothing
    }
}

/// Frames sent by one end reach an end that is in step with the sender as
/// what they were sent for: a close frame closes the connection, a data frame
/// delivers a body of the chunk's size, and an announcement opens a
/// connection to the target at the server end and asks nothing of a client
/// end. The copy of each frame that arrives over the other link is dropped.
pub proof fn lemma_frames_reach_peer(mode: Commands, sent: u32, connection: u8, chunk: Seq<u8>)
    requires
        1 <= chunk.len() <= BUF_SIZE - HEADER_LEN,
    ensures
        ({
            let p: u32 = next_packet(sent);
            let close = parse_header(header_bytes(control_header(p, connection, INFO_CLOSE)));
            let open = parse_header(header_bytes(control_header(p, connection, INFO_OPEN)));
            let data = parse_header(data_frame_bytes(p, connection, chunk));
            &&& inbound_action(mode, last_after(sent), close) == InboundAction::Close { connection }
            &&& inbound_action(mode, last_after(sent), data) == InboundAction::Deliver {
                connection,
                size: chunk.len() as u16,
            }
            &&& mode is Server ==> inbound_action(mode, last_after(sent), open)
                == InboundAction::OpenTarget { connection, target: mode->target }
            &&& mode is Client ==> inbound_action(mode, last_after(sent), open)
                == InboundAction::Nothing
            &&& inbound_action(mode, last_after(p), close) == InboundAction::Duplicate
            &&& inbound_action(mode, last_after(p), open) == InboundAction::Duplicate
            &&& inbound_action(mode, last_after(p), data) == InboundAction::Duplicate
        }),
{
    let p: u32 = next_packet(sent);
    let dh = FrameHeader { packet: p, connection, info: INFO_DATA, size: chunk.len() as u16 };
    lemma_header_roundtrip(control_header(p, connection, INFO_CLOSE));
    lemma_header_roundtrip(control_header(p, connection, INFO_OPEN));
    lemma_header_roundtrip(dh);
    let frame = data_frame_bytes(p, connection, chunk);
    assert(forall|i: int| 0 <= i < 8 ==> frame[i] == header_bytes(dh)[i]);
    assert(parse_header(frame) == parse_header(header_bytes(dh)));
}

} // verus!
