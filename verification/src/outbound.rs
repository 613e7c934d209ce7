//! What a tunnel end sends over the links for its local connections.

use vstd::prelude::*;
use crate::counter::{next_packet, PacketCounter};
use crate::frame::{
    control_frame, control_header, data_frame, data_frame_bytes, header_bytes, BUF_SIZE,
    HEADER_LEN, INFO_CLOSE, INFO_OPEN,
};
use crate::table::{chosen_id, ConnectionTable};

verus! {

/// What to send after reading from a local connection.
pub enum OutboundStep {
    /// Send this frame on both links and keep reading.
    Forward(Vec<u8>),
    /// The connection has ended: send this close frame on both links, drop
    /// the connection and stop reading it.
    Closed([u8; 8]),
}

/// Turns what one read from the local connection `connection` returned into
/// the frame to send, numbering it with the next packet number.
pub fn on_local_read(counter: &mut PacketCounter, connection: u8, chunk: &[u8]) -> (step:
    OutboundStep)
    requires
        chunk@.len() <= BUF_SIZE - HEADER_LEN,
    ensures
        final(counter).value == next_packet(old(counter).value),
        match step {
            OutboundStep::Closed(f) => chunk@.len() == 0 && f@ == header_bytes(
                control_header(final(counter).value, connection, INFO_CLOSE),
            ),
            OutboundStep::Forward(f) => chunk@.len() > 0 && f@ == data_frame_bytes(
                final(counter).value,
                connection,
                chunk@,
            ),
        },
{
    let packet: u32 = counter.advance();
    if chunk.len() == 0 {
        OutboundStep::Closed(control_frame(packet, connection, INFO_CLOSE))
    } else {
        OutboundStep::Forward(data_frame(packet, connection, chunk))
    }
}

/// Registers a newly accepted local connection: gives it the smallest free
/// id (or `0` when all are taken), records its writer under that id, and
/// returns the id with the frame that announces it.
pub fn on_accept<W>(writers: &mut ConnectionTable<W>, writer: W, counter: &mut PacketCounter) -> (opened: (
    u8,
    [u8; 8],
))
    ensures
        chosen_id(old(writers)@, opened.0),
        final(writers)@ == old(writers)@.insert(opened.0, writer),
        final(counter).value == next_packet(old(counter).value),
        opened.1@ == header_bytes(control_header(final(counter).value, opened.0, INFO_OPEN)),
{
    let id: u8 = writers.first_free_id();
    writers.insert(id, writer);
    let packet: u32 = counter.advance();
    (id, control_frame(packet, id, INFO_OPEN))
}

/// Forgets the connection `id` in both tables and hands back its reader, so
/// that the caller can stop it.
pub fn close_connection<W, R>(
    writers: &mut ConnectionTable<W>,
    readers: &mut ConnectionTable<R>,
    id: u8,
) -> (reader: Option<R>)
    ensures
        final(writers)@ == old(writers)@.remove(id),
        final(readers)@ == old(readers)@.remove(id),
        match reader {
            Some(r) => old(readers)@.contains_key(id) && r == old(readers)@[id],
            None => !old(readers)@.contains_key(id),
        },
{
    writers.remove(id);
    readers.remove(id)
}

} // verus!
