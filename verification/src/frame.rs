//! The wire format of a tunnel frame: an eight-byte header followed by a body.
//!
//! Header layout: the packet number (big-endian `u32`), the connection id,
//! the kind of frame, and the body size (big-endian `u16`).

use vstd::prelude::*;

verus! {

/// Length of a frame header in bytes.
pub const HEADER_LEN: usize = 8;

/// Size of the buffers that frames are read into and built in.
pub const BUF_SIZE: usize = 32 * 1024;

/// Kind byte of a frame that carries bytes of a connection.
pub const INFO_DATA: u8 = 1;

/// Kind byte of a frame that announces a new connection.
pub const INFO_OPEN: u8 = 2;

/// Kind byte of a frame that closes a connection.
pub const INFO_CLOSE: u8 = 3;

/// The decoded header of a frame.
#[derive(Clone, Copy, Debug, PartialEq, Eq, Structural)]
pub struct FrameHeader {
    pub packet: u32,
    pub connection: u8,
    pub info: u8,
    pub size: u16,
}

/// The four big-endian bytes of `x`.
pub open spec fn be32_bytes(x: u32) -> Seq<u8> {
    seq![
        (x / 0x100_0000) as u8,
        (x / 0x1_0000 % 0x100) as u8,
        (x / 0x100 % 0x100) as u8,
        (x % 0x100) as u8,
    ]
}

/// The two big-endian bytes of `x`.
pub open spec fn be16_bytes(x: u16) -> Seq<u8> {
    seq![(x / 0x100) as u8, (x % 0x100) as u8]
}

/// The number that the big-endian bytes `b0 b1 b2 b3` stand for.
pub open spec fn be32_value(b0: u8, b1: u8, b2: u8, b3: u8) -> int {
    b0 * 0x100_0000 + b1 * 0x1_0000 + b2 * 0x100 + b3
}

/// The number that the big-endian bytes `b0 b1` stand for.
pub open spec fn be16_value(b0: u8, b1: u8) -> int {
    b0 * 0x100 + b1
}

/// The eight bytes that encode `h`.
pub open spec fn header_bytes(h: FrameHeader) -> Seq<u8> {
    be32_bytes(h.packet) + seq![h.connection, h.info] + be16_bytes(h.size)
}

/// The header that the first eight bytes of `b` encode.
pub open spec fn parse_header(b: Seq<u8>) -> FrameHeader {
    FrameHeader {
        packet: be32_value(b[0], b[1], b[2], b[3]) as u32,
        connection: b[4],
        info: b[5],
        size: be16_value(b[6], b[7]) as u16,
    }
}

/// The header of a frame of the kind `info` with an empty body.
pub open spec fn control_header(packet: u32, connection: u8, info: u8) -> FrameHeader {
    FrameHeader { packet, connection, info, size: 0 }
}

/// The bytes sent for a chunk of a connection: the header, whose size field
/// counts the whole chunk, then the chunk without its final byte.
pub open spec fn data_frame_bytes(packet: u32, connection: u8, chunk: Seq<u8>) -> Seq<u8> {
    let h = FrameHeader { packet, connection, info: INFO_DATA, size: chunk.len() as u16 };
    (header_bytes(h) + chunk).take(chunk.len() + 7int)
}

/// Decoding the big-endian bytes of a `u32` gives the number back.
pub proof fn lemma_be32_roundtrip(x: u32)
    ensures
        be32_bytes(x).len() == 4,
        be32_value(be32_bytes(x)[0], be32_bytes(x)[1], be32_bytes(x)[2], be32_bytes(x)[3]) == x,
{
    assert(x == ((x / 0x100_0000) as u8 as u32) * 0x100_0000 + ((x / 0x1_0000 % 0x100) as u8
        as u32) * 0x1_0000 + ((x / 0x100 % 0x100) as u8 as u32) * 0x100 + ((x % 0x100) as u8
        as u32)) by (bit_vector);
}

/// Decoding the big-endian bytes of a `u16` gives the number back.
pub proof fn lemma_be16_roundtrip(x: u16)
    ensures
        be16_bytes(x).len() == 2,
        be16_value(be16_bytes(x)[0], be16_bytes(x)[1]) == x,
{
    assert(x == ((x / 0x100) as u8 as u16) * 0x100 + ((x % 0x100) as u8 as u16)) by (bit_vector);
}

/// Encoding the number that four bytes stand for gives the bytes back.
pub proof fn lemma_be32_bytes_of_value(b0: u8, b1: u8, b2: u8, b3: u8)
    ensures
        0 <= be32_value(b0, b1, b2, b3) <= u32::MAX,
        be32_bytes(be32_value(b0, b1, b2, b3) as u32) == seq![b0, b1, b2, b3],
{
    assert(((b0 as u32) * 0x100_0000 + (b1 as u32) * 0x1_0000 + (b2 as u32) * 0x100 + (b3
        as u32)) <= 0xffff_ffff) by (bit_vector);
    assert({
        let x: u32 = ((b0 as u32) * 0x100_0000 + (b1 as u32) * 0x1_0000 + (b2 as u32) * 0x100 + (b3
            as u32)) as u32;
        &&& (x / 0x100_0000) as u8 == b0
        &&& (x / 0x1_0000 % 0x100) as u8 == b1
        &&& (x / 0x100 % 0x100) as u8 == b2
        &&& (x % 0x100) as u8 == b3
    }) by (bit_vector);
    assert(be32_bytes(be32_value(b0, b1, b2, b3) as u32) =~= seq![b0, b1, b2, b3]);
}

/// Encoding the number that two bytes stand for gives the bytes back.
pub proof fn lemma_be16_bytes_of_value(b0: u8, b1: u8)
    ensures
        0 <= be16_value(b0, b1) <= u16::MAX,
        be16_bytes(be16_value(b0, b1) as u16) == seq![b0, b1],
{
    assert(((b0 as u16) * 0x100 + (b1 as u16)) <= 0xffff) by (bit_vector);
    assert({
        let x: u16 = ((b0 as u16) * 0x100 + (b1 as u16)) as u16;
        (x / 0x100) as u8 == b0 && (x % 0x100) as u8 == b1
    }) by (bit_vector);
    assert(be16_bytes(be16_value(b0, b1) as u16) =~= seq![b0, b1]);
}

/// A header survives encoding and decoding unchanged.
pub proof fn lemma_header_roundtrip(h: FrameHeader)
    ensures
        header_bytes(h).len() == HEADER_LEN,
        parse_header(header_bytes(h)) == h,
{
    lemma_be32_roundtrip(h.packet);
    lemma_be16_roundtrip(h.size);
    let b = header_bytes(h);
    let p = be32_bytes(h.packet);
    let s = be16_bytes(h.size);
    assert(b[0] == p[0] && b[1] == p[1] && b[2] == p[2] && b[3] == p[3]);
    assert(b[4] == h.connection && b[5] == h.info);
    assert(b[6] == s[0] && b[7] == s[1]);
}

/// The first eight bytes of any buffer are the encoding of the header that
/// they decode to.
pub proof fn lemma_header_bytes_of_parse(b: Seq<u8>)
    requires
        b.len() >= HEADER_LEN,
    ensures
        header_bytes(parse_header(b)) == b.take(8),
{
    lemma_be32_bytes_of_value(b[0], b[1], b[2], b[3]);
    lemma_be16_bytes_of_value(b[6], b[7]);
    assert(header_bytes(parse_header(b)) =~= b.take(8));
}

/// The byte layout of a header: the packet number from its most significant
/// byte down, the connection id, the kind, then the body size from its most
/// significant byte down.
pub proof fn lemma_header_layout(h: FrameHeader)
    ensures
        header_bytes(h).len() == 8,
        header_bytes(h)[0] == h.packet / 0x100_0000,
        header_bytes(h)[1] == h.packet / 0x1_0000 % 0x100,
        header_bytes(h)[2] == h.packet / 0x100 % 0x100,
        header_bytes(h)[3] == h.packet % 0x100,
        header_bytes(h)[4] == h.connection,
        header_bytes(h)[5] == h.info,
        header_bytes(h)[6] == h.size / 0x100,
        header_bytes(h)[7] == h.size % 0x100,
{
    let x = h.packet;
    let y = h.size;
    assert(((x / 0x100_0000) as u8) as u32 == x / 0x100_0000) by (bit_vector);
    assert(((x / 0x1_0000 % 0x100) as u8) as u32 == x / 0x1_0000 % 0x100) by (bit_vector);
    assert(((x / 0x100 % 0x100) as u8) as u32 == x / 0x100 % 0x100) by (bit_vector);
    assert(((x % 0x100) as u8) as u32 == x % 0x100) by (bit_vector);
    assert(((y / 0x100) as u8) as u16 == y / 0x100) by (bit_vector);
    assert(((y % 0x100) as u8) as u16 == y % 0x100) by (bit_vector);
}

/// What the first eight bytes of a buffer decode to: the packet number is
/// read from its most significant byte down, then come the connection id and
/// the kind, then the body size from its most significant byte down.
pub proof fn lemma_parse_layout(b: Seq<u8>)
    requires
        b.len() >= 8,
    ensures
        parse_header(b).packet == b[0] * 0x100_0000 + b[1] * 0x1_0000 + b[2] * 0x100 + b[3],
        parse_header(b).connection == b[4],
        parse_header(b).info == b[5],
        parse_header(b).size == b[6] * 0x100 + b[7],
{
    lemma_be32_bytes_of_value(b[0], b[1], b[2], b[3]);
    lemma_be16_bytes_of_value(b[6], b[7]);
}

/// A control frame is a header with an empty body: its size bytes are zero,
/// whatever the packet number, connection and kind.
pub proof fn lemma_control_frame_layout(packet: u32, connection: u8, info: u8)
    ensures
        header_bytes(control_header(packet, connection, info)).len() == 8,
        header_bytes(control_header(packet, connection, info))[0] == packet / 0x100_0000,
        header_bytes(control_header(packet, connection, info))[1] == packet / 0x1_0000 % 0x100,
        header_bytes(control_header(packet, connection, info))[2] == packet / 0x100 % 0x100,
        header_bytes(control_header(packet, connection, info))[3] == packet % 0x100,
        header_bytes(control_header(packet, connection, info))[4] == connection,
        header_bytes(control_header(packet, connection, info))[5] == info,
        header_bytes(control_header(packet, connection, info))[6] == 0,
        header_bytes(control_header(packet, connection, info))[7] == 0,
{
    lemma_header_layout(control_header(packet, connection, info));
}

/// A data frame starts with a data header that numbers the packet, names the
/// connection and counts the whole chunk, and its body is the chunk's own
/// bytes, in order, up to the chunk's final byte.
pub proof fn lemma_data_frame_layout(packet: u32, connection: u8, chunk: Seq<u8>)
    requires
        1 <= chunk.len() <= BUF_SIZE - HEADER_LEN,
    ensures
        data_frame_bytes(packet, connection, chunk).len() == chunk.len() + 7,
        data_frame_bytes(packet, connection, chunk)[0] == packet / 0x100_0000,
        data_frame_bytes(packet, connection, chunk)[1] == packet / 0x1_0000 % 0x100,
        data_frame_bytes(packet, connection, chunk)[2] == packet / 0x100 % 0x100,
        data_frame_bytes(packet, connection, chunk)[3] == packet % 0x100,
        data_frame_bytes(packet, connection, chunk)[4] == connection,
        data_frame_bytes(packet, connection, chunk)[5] == 1,
        data_frame_bytes(packet, connection, chunk)[6] == chunk.len() / 0x100,
        data_frame_bytes(packet, connection, chunk)[7] == chunk.len() % 0x100,
        forall|i: int|
            0 <= i < chunk.len() - 1 ==> #[trigger] data_frame_bytes(packet, connection, chunk)[8
                + i] == chunk[i],
{
    let h = FrameHeader { packet, connection, info: INFO_DATA, size: chunk.len() as u16 };
    lemma_header_layout(h);
    let f = data_frame_bytes(packet, connection, chunk);
    let full = header_bytes(h) + chunk;
    assert(f == full.take(chunk.len() + 7int));
    assert forall|i: int| 0 <= i < chunk.len() - 1 implies #[trigger] f[8 + i] == chunk[i] by {
        assert(f[8 + i] == full[8 + i]);
    }
}

/// Writes the big-endian bytes of `x` into `out` from `at` on.
fn put_be32(out: &mut [u8; 8], at: usize, x: u32)
    requires
        at + 4 <= 8,
    ensures
        final(out)@ == old(out)@.update(at as int, be32_bytes(x)[0]).update(
            at + 1,
            be32_bytes(x)[1],
        ).update(at + 2, be32_bytes(x)[2]).update(at + 3, be32_bytes(x)[3]),
{
    out[at] = (x / 0x100_0000) as u8;
    out[at + 1] = (x / 0x1_0000 % 0x100) as u8;
    out[at + 2] = (x / 0x100 % 0x100) as u8;
    out[at + 3] = (x % 0x100) as u8;
}

/// The eight header bytes that encode `h`.
pub fn encode_header(h: FrameHeader) -> (b: [u8; 8])
    ensures
        b@ == header_bytes(h),
        b@[0] == h.packet / 0x100_0000,
        b@[1] == h.packet / 0x1_0000 % 0x100,
        b@[2] == h.packet / 0x100 % 0x100,
        b@[3] == h.packet % 0x100,
        b@[4] == h.connection,
        b@[5] == h.info,
        b@[6] == h.size / 0x100,
        b@[7] == h.size % 0x100,
{
    proof {
        lemma_header_layout(h);
    }
    let mut b = [0u8; 8];
    put_be32(&mut b, 0, h.packet);
    b[4] = h.connection;
    b[5] = h.info;
    b[6] = (h.size / 0x100) as u8;
    b[7] = (h.size % 0x100) as u8;
    assert(b@ =~= header_bytes(h));
    b
}

/// The header at the start of `bytes`.
pub fn decode_header(bytes: &[u8]) -> (h: FrameHeader)
    requires
        bytes@.len() >= HEADER_LEN,
    ensures
        h == parse_header(bytes@),
        h.packet == bytes@[0] * 0x100_0000 + bytes@[1] * 0x1_0000 + bytes@[2] * 0x100 + bytes@[3],
        h.connection == bytes@[4],
        h.info == bytes@[5],
        h.size == bytes@[6] * 0x100 + bytes@[7],
{
    proof {
        lemma_parse_layout(bytes@);
    }
    let packet: u32 = (bytes[0] as u32) * 0x100_0000 + (bytes[1] as u32) * 0x1_0000 + (bytes[2]
        as u32) * 0x100 + (bytes[3] as u32);
    let size: u16 = (bytes[6] as u16) * 0x100 + (bytes[7] as u16);
    FrameHeader { packet, connection: bytes[4], info: bytes[5], size }
}

/// The header-only frame of the kind `info` for `connection`.
pub fn control_frame(packet: u32, connection: u8, info: u8) -> (b: [u8; 8])
    ensures
        b@ == header_bytes(control_header(packet, connection, info)),
        b@[0] == packet / 0x100_0000,
        b@[1] == packet / 0x1_0000 % 0x100,
        b@[2] == packet / 0x100 % 0x100,
        b@[3] == packet % 0x100,
        b@[4] == connection,
        b@[5] == info,
        b@[6] == 0,
        b@[7] == 0,
{
    proof {
        lemma_control_frame_layout(packet, connection, info);
    }
    encode_header(FrameHeader { packet, connection, info, size: 0 })
}

/// The frame that carries `chunk`, read from `connection`, as packet
/// `packet`: the header, whose size field counts the whole chunk, followed
/// by the chunk without its final byte.
pub fn data_frame(packet: u32, connection: u8, chunk: &[u8]) -> (frame: Vec<u8>)
    requires
        1 <= chunk@.len() <= BUF_SIZE - HEADER_LEN,
    ensures
        frame@ == data_frame_bytes(packet, connection, chunk@),
        frame@.len() == chunk@.len() + 7,
        frame@[0] == packet / 0x100_0000,
        frame@[1] == packet / 0x1_0000 % 0x100,
        frame@[2] == packet / 0x100 % 0x100,
        frame@[3] == packet % 0x100,
        frame@[4] == connection,
        frame@[5] == 1,
        frame@[6] == chunk@.len() / 0x100,
        frame@[7] == chunk@.len() % 0x100,
        forall|i: int| 0 <= i < chunk@.len() - 1 ==> #[trigger] frame@[8 + i] == chunk@[i],
{
    proof {
        lemma_data_frame_layout(packet, connection, chunk@);
    }
    let n: usize = chunk.len();
    let header = encode_header(
        FrameHeader { packet, connection, info: INFO_DATA, size: n as u16 },
    );
    let ghost h = FrameHeader { packet, connection, info: INFO_DATA, size: n as u16 };
    let ghost full = header_bytes(h) + chunk@;
    let mut frame: Vec<u8> = Vec::new();
    let mut i: usize = 0;
    while i < HEADER_LEN
        invariant
            i <= HEADER_LEN,
            header@ == header_bytes(h),
            frame@ == header@.take(i as int),
        decreases HEADER_LEN - i,
    {
        frame.push(header[i]);
        i = i + 1;
        assert(frame@ =~= header@.take(i as int));
    }
    let mut j: usize = 0;
    while j + 1 < n
        invariant
            n == chunk@.len(),
            1 <= n <= BUF_SIZE - HEADER_LEN,
            j + 1 <= n,
            header@ == header_bytes(h),
            full == header_bytes(h) + chunk@,
            frame@ == full.take(HEADER_LEN + j),
        decreases n - j,
    {
        frame.push(chunk[j]);
        j = j + 1;
        assert(frame@ =~= full.take(HEADER_LEN + j));
    }
    assert(frame@ =~= data_frame_bytes(packet, connection, chunk@));
    frame
}

/// Whether a body of the size that `h` announces fits in a frame buffer
/// after the header.
pub fn body_fits(h: &FrameHeader) -> (fits: bool)
    ensures
        fits == (HEADER_LEN + h.size <= BUF_SIZE),
{
    (h.size as usize) <= BUF_SIZE - HEADER_LEN
}

} // verus!
