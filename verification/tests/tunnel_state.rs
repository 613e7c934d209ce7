use dual_ssh::arguments::{Cli, Commands};
use dual_ssh::counter::PacketCounter;
use dual_ssh::frame::{decode_header, FrameHeader, INFO_CLOSE, INFO_DATA, INFO_OPEN};
use dual_ssh::link::LinkState;
use dual_ssh::outbound::{close_connection, on_accept, on_local_read, OutboundStep};
use dual_ssh::relay::{on_frame, InboundAction};
use dual_ssh::sequence::PacketFilter;
use dual_ssh::table::ConnectionTable;

fn header(packet: u32, connection: u8, info: u8, size: u16) -> FrameHeader {
    FrameHeader { packet, connection, info, size }
}

#[test]
fn filter_passes_each_packet_once() {
    let mut f = PacketFilter::new();
    assert!(f.accept(1));
    assert!(!f.accept(1));
    assert!(f.accept(3));
    assert!(!f.accept(2));
    assert!(!f.accept(8));
    assert!(f.accept(7));
    assert_eq!(f.last, 7);
}

#[test]
fn filter_follows_the_wrap_of_the_numbering() {
    let mut f = PacketFilter { last: u32::MAX - 1 };
    assert!(f.accept(u32::MAX));
    assert_eq!(f.last, 0);
    assert!(!f.accept(u32::MAX));
    assert!(f.accept(1));
}

#[test]
fn filter_refuses_numbers_behind_the_last_one() {
    let mut f = PacketFilter { last: u32::MAX - 1 };
    assert!(!f.accept(1));
    assert_eq!(f.last, u32::MAX - 1);
}

#[test]
fn filter_window_is_four_ahead() {
    let mut f = PacketFilter { last: 10 };
    assert!(!f.accept(15));
    assert!(f.accept(14));
}

#[test]
fn both_links_deliver_each_frame_once() {
    let mut counter = PacketCounter::new();
    let mut filter = PacketFilter::new();
    for _ in 0..10 {
        let p = counter.advance();
        assert!(filter.accept(p));
        assert!(!filter.accept(p));
    }
}

#[test]
fn table_gives_smallest_free_id() {
    let mut t: ConnectionTable<String> = ConnectionTable::new();
    assert_eq!(t.first_free_id(), 0);
    t.insert(0, "a".to_string());
    t.insert(1, "b".to_string());
    t.insert(3, "d".to_string());
    assert_eq!(t.first_free_id(), 2);
    assert!(t.contains(3));
    assert_eq!(t.get(1), Some(&"b".to_string()));
    assert_eq!(t.remove(1), Some("b".to_string()));
    assert_eq!(t.remove(1), None);
    assert_eq!(t.get(1), None);
    assert_eq!(t.first_free_id(), 1);
}

#[test]
fn full_table_gives_id_zero() {
    let mut t: ConnectionTable<u8> = ConnectionTable::new();
    for k in 0..=255u8 {
        t.insert(k, k);
    }
    assert_eq!(t.first_free_id(), 0);
}

#[test]
fn accept_registers_and_announces() {
    let mut writers: ConnectionTable<&str> = ConnectionTable::new();
    let mut counter = PacketCounter::new();
    let (id, frame) = on_accept(&mut writers, "first", &mut counter);
    assert_eq!(id, 0);
    assert_eq!(frame, [0, 0, 0, 1, 0, 2, 0, 0]);
    let (id2, frame2) = on_accept(&mut writers, "second", &mut counter);
    assert_eq!(id2, 1);
    assert_eq!(frame2, [0, 0, 0, 2, 1, 2, 0, 0]);
    assert_eq!(writers.get(1), Some(&"second"));
}

#[test]
fn local_read_forwards_or_closes() {
    let mut counter = PacketCounter { value: 41 };
    match on_local_read(&mut counter, 6, &[1, 2, 3, 4]) {
        OutboundStep::Forward(f) => assert_eq!(f, vec![0, 0, 0, 42, 6, 1, 0, 4, 1, 2, 3]),
        OutboundStep::Closed(_) => panic!("a non-empty read is forwarded"),
    }
    match on_local_read(&mut counter, 6, &[]) {
        OutboundStep::Closed(f) => assert_eq!(f, [0, 0, 0, 43, 6, 3, 0, 0]),
        OutboundStep::Forward(_) => panic!("an empty read closes"),
    }
    assert_eq!(counter.value, 43);
}

#[test]
fn close_connection_forgets_both_sides() {
    let mut writers: ConnectionTable<u32> = ConnectionTable::new();
    let mut readers: ConnectionTable<u64> = ConnectionTable::new();
    writers.insert(4, 40);
    readers.insert(4, 400);
    writers.insert(5, 50);
    assert_eq!(close_connection(&mut writers, &mut readers, 4), Some(400));
    assert!(!writers.contains(4));
    assert!(!readers.contains(4));
    assert!(writers.contains(5));
    assert_eq!(close_connection(&mut writers, &mut readers, 5), None);
    assert!(!writers.contains(5));
}

#[test]
fn server_opens_target_on_announcement() {
    let cli = Cli { command: Commands::Server { target: "127.0.0.1:22".to_string() } };
    let mut filter = PacketFilter::new();
    let a = on_frame(&cli.command, &mut filter, header(1, 5, INFO_OPEN, 0));
    assert!(matches!(a, InboundAction::OpenTarget { connection: 5, ref target } if target == "127.0.0.1:22"));
    let again = on_frame(&cli.command, &mut filter, header(1, 5, INFO_OPEN, 0));
    assert!(matches!(again, InboundAction::Duplicate));
}

#[test]
fn client_ignores_announcement() {
    let mode = Commands::Client { listener: "127.0.0.1:2222".to_string() };
    let mut filter = PacketFilter::new();
    assert!(matches!(on_frame(&mode, &mut filter, header(1, 5, INFO_OPEN, 0)), InboundAction::Nothing));
    assert_eq!(filter.last, 1);
}

#[test]
fn frames_become_actions() {
    let mode = Commands::Client { listener: "l".to_string() };
    let mut filter = PacketFilter::new();
    assert!(matches!(
        on_frame(&mode, &mut filter, header(1, 2, INFO_DATA, 300)),
        InboundAction::Deliver { connection: 2, size: 300 }
    ));
    assert!(matches!(
        on_frame(&mode, &mut filter, header(2, 2, INFO_CLOSE, 0)),
        InboundAction::Close { connection: 2 }
    ));
    assert!(matches!(on_frame(&mode, &mut filter, header(3, 2, 9, 0)), InboundAction::Nothing));
    assert!(matches!(on_frame(&mode, &mut filter, header(2, 2, INFO_DATA, 1)), InboundAction::Duplicate));
    assert_eq!(filter.last, 3);
}

#[test]
fn sent_frames_reach_the_peer() {
    let server = Commands::Server { target: "t".to_string() };
    let mut counter = PacketCounter::new();
    let mut filter = PacketFilter::new();
    let mut writers: ConnectionTable<()> = ConnectionTable::new();
    let (id, open) = on_accept(&mut writers, (), &mut counter);
    assert!(matches!(
        on_frame(&server, &mut filter, decode_header(&open)),
        InboundAction::OpenTarget { connection: 0, .. }
    ));
    let data = match on_local_read(&mut counter, id, &[5, 6, 7]) {
        OutboundStep::Forward(f) => f,
        OutboundStep::Closed(_) => panic!("data expected"),
    };
    assert!(matches!(
        on_frame(&server, &mut filter, decode_header(&data)),
        InboundAction::Deliver { connection: 0, size: 3 }
    ));
    assert!(matches!(on_frame(&server, &mut filter, decode_header(&data)), InboundAction::Duplicate));
}

#[test]
fn link_goes_down_on_short_write_or_empty_read() {
    let mut l = LinkState::new();
    assert!(l.may_transfer());
    assert!(!l.after_write(10, 10));
    assert!(l.may_transfer());
    assert!(l.after_write(10, 4));
    assert!(!l.may_transfer());
    l.reconnected();
    assert!(l.may_transfer());
    assert!(!l.after_read(3));
    assert!(l.after_read(0));
    assert!(!l.connected);
}
