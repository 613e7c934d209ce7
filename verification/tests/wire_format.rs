use dual_ssh::counter::PacketCounter;
use dual_ssh::frame::{
    body_fits, control_frame, data_frame, decode_header, encode_header, FrameHeader, BUF_SIZE,
    HEADER_LEN, INFO_CLOSE, INFO_DATA, INFO_OPEN,
};

#[test]
fn counter_starts_at_zero_and_numbers_from_one() {
    let mut c = PacketCounter::new();
    assert_eq!(c.value, 0);
    assert_eq!(c.advance(), 1);
    assert_eq!(c.advance(), 2);
    assert_eq!(c.value, 2);
}

#[test]
fn counter_wraps_to_one_after_max() {
    let mut c = PacketCounter { value: u32::MAX - 1 };
    assert_eq!(c.advance(), u32::MAX);
    assert_eq!(c.advance(), 1);
    assert_eq!(c.advance(), 2);
}

#[test]
fn header_encodes_big_endian() {
    let h = FrameHeader { packet: 0x0102_0304, connection: 7, info: INFO_DATA, size: 0x0a0b };
    assert_eq!(encode_header(h), [1, 2, 3, 4, 7, 1, 0x0a, 0x0b]);
}

#[test]
fn header_round_trip() {
    let h = FrameHeader { packet: 0xdead_beef, connection: 255, info: 9, size: 0xffff };
    let bytes = encode_header(h);
    assert_eq!(decode_header(&bytes), h);
    let raw = [0x80u8, 0, 0, 1, 2, 3, 0x7f, 0xfe, 42, 43];
    let d = decode_header(&raw);
    assert_eq!(d, FrameHeader { packet: 0x8000_0001, connection: 2, info: 3, size: 0x7ffe });
    assert_eq!(encode_header(d), [0x80, 0, 0, 1, 2, 3, 0x7f, 0xfe]);
}

#[test]
fn control_frames_have_empty_bodies() {
    assert_eq!(control_frame(5, 9, INFO_OPEN), [0, 0, 0, 5, 9, 2, 0, 0]);
    assert_eq!(control_frame(0x0100_0000, 0, INFO_CLOSE), [1, 0, 0, 0, 0, 3, 0, 0]);
}

#[test]
fn data_frame_counts_whole_chunk_and_carries_all_but_last_byte() {
    let f = data_frame(1, 3, &[10, 20, 30]);
    assert_eq!(f, vec![0, 0, 0, 1, 3, 1, 0, 3, 10, 20]);
    let single = data_frame(0x0102_0304, 4, &[99]);
    assert_eq!(single, vec![1, 2, 3, 4, 4, 1, 0, 1]);
    assert_eq!(decode_header(&single).size, 1);
}

#[test]
fn data_frame_of_largest_chunk() {
    let chunk = vec![7u8; BUF_SIZE - HEADER_LEN];
    let f = data_frame(2, 1, &chunk);
    assert_eq!(f.len(), BUF_SIZE - 1);
    let h = decode_header(&f);
    assert_eq!(h, FrameHeader { packet: 2, connection: 1, info: INFO_DATA, size: 32760 });
}

#[test]
fn body_fits_in_buffer() {
    let fits = FrameHeader { packet: 1, connection: 0, info: INFO_DATA, size: 32760 };
    let too_big = FrameHeader { packet: 1, connection: 0, info: INFO_DATA, size: 32761 };
    assert!(body_fits(&fits));
    assert!(!body_fits(&too_big));
}
