use probe_rs::gdb::gdb_sanitize_file;

#[test]
fn whole_document_is_last_piece() {
    let r = gdb_sanitize_file(b"<memory-map/>".to_vec(), 0, 1000);
    assert_eq!(r, b"l<memory-map/>".to_vec());
}

#[test]
fn inner_piece_is_marked_more() {
    let r = gdb_sanitize_file(b"abcdefgh".to_vec(), 2, 3);
    assert_eq!(r, b"mcde".to_vec());
}

#[test]
fn piece_reaching_the_end_exactly_is_more() {
    let r = gdb_sanitize_file(b"abcdefgh".to_vec(), 5, 3);
    assert_eq!(r, b"mfgh".to_vec());
}

#[test]
fn offset_past_the_end() {
    assert_eq!(gdb_sanitize_file(b"abc".to_vec(), 4, 3), b"l".to_vec());
    assert_eq!(gdb_sanitize_file(b"abc".to_vec(), 3, 3), b"l".to_vec());
}

use probe_rs::gdb::{
    ack_scan, encode, gdb_action, memory_map_reply, memory_reply, parse_hex_u32, register_reply,
    GdbAction, HaltWatch, PacketKind, MEMORY_MAP_XML,
};

fn reply_of(p: &[u8]) -> Vec<u8> {
    match gdb_action(p) {
        GdbAction::Reply(b) => b,
        _ => panic!("expected a reply"),
    }
}

#[test]
fn constant_replies() {
    assert_eq!(
        reply_of(b"qSupported:multiprocess+"),
        b"PacketSize=2048;swbreak-;hwbreak+;vContSupported+;qXfer:memory-map:read+".to_vec()
    );
    assert_eq!(reply_of(b"vMustReplyEmpty"), b"".to_vec());
    assert_eq!(reply_of(b"qAttached"), b"1".to_vec());
    assert_eq!(reply_of(b"?"), b"S05".to_vec());
    assert_eq!(reply_of(b"g"), b"xxxxxxxx".to_vec());
    assert_eq!(reply_of(b"qC"), b"".to_vec());
    assert_eq!(reply_of(b"vCont?"), b"vCont;c;t;s".to_vec());
    assert_eq!(reply_of(b"Z0,1000,2"), b"".to_vec());
    assert_eq!(reply_of(b"Hg0"), b"OK".to_vec());
    assert_eq!(reply_of(b""), b"OK".to_vec());
}

#[test]
fn requests_with_fields() {
    assert!(matches!(gdb_action(b"pf"), GdbAction::ReadRegister(15)));
    assert!(matches!(gdb_action(b"p1A"), GdbAction::ReadRegister(26)));
    assert!(matches!(gdb_action(b"p100"), GdbAction::Malformed));
    assert!(matches!(gdb_action(b"p"), GdbAction::Malformed));
    assert!(matches!(
        gdb_action(b"m20000000,4"),
        GdbAction::ReadMemory { address: 0x2000_0000, length: 4 }
    ));
    assert!(matches!(gdb_action(b"m2000,"), GdbAction::Malformed));
    assert!(matches!(gdb_action(b"m100000000,4"), GdbAction::Malformed));
    assert!(matches!(gdb_action(b"Z1,8000400,2"), GdbAction::SetBreakpoint(0x800_0400)));
    assert!(matches!(gdb_action(b"z1,8000400,2"), GdbAction::ClearBreakpoint(0x800_0400)));
    assert!(matches!(gdb_action(b"Z1,xyz,2"), GdbAction::Malformed));
    match gdb_action(b"X20000000,3:abc") {
        GdbAction::WriteMemory { address, data } => {
            assert_eq!(address, 0x2000_0000);
            assert_eq!(data, b"abc".to_vec());
        }
        _ => panic!("expected a write"),
    }
    assert!(matches!(gdb_action(b"X20000000,30:abc"), GdbAction::Malformed));
}

#[test]
fn execution_control() {
    assert!(matches!(gdb_action(b"vCont;c"), GdbAction::Continue));
    assert!(matches!(gdb_action(b"c"), GdbAction::Continue));
    assert!(matches!(gdb_action(b"vCont;t"), GdbAction::Halt));
    assert!(matches!(gdb_action(b"vCont;s"), GdbAction::Step));
    assert!(matches!(gdb_action(b"s"), GdbAction::Step));
    assert!(matches!(gdb_action(&[3]), GdbAction::Interrupt));
    assert!(matches!(gdb_action(b"D"), GdbAction::Detach));
    assert!(matches!(gdb_action(b"qXfer:memory-map:read::0,fff"), GdbAction::MemoryMap));
}

#[test]
fn memory_map_is_one_piece() {
    let r = memory_map_reply();
    assert_eq!(r[0], b'l');
    assert_eq!(&r[1..], MEMORY_MAP_XML.as_bytes());
}

#[test]
fn hex_fields() {
    assert_eq!(parse_hex_u32(b"xffffffffx", 1, 9), Some(u32::MAX));
    assert_eq!(parse_hex_u32(b"1ffffffff", 0, 9), None);
    assert_eq!(parse_hex_u32(b"00000000010", 0, 11), Some(16));
    assert_eq!(parse_hex_u32(b"12g", 0, 3), None);
    assert_eq!(parse_hex_u32(b"12", 1, 1), None);
}

#[test]
fn replies_in_hex() {
    assert_eq!(register_reply(0x1234_ABCD), b"cdab3412".to_vec());
    assert_eq!(memory_reply(&[0x00, 0x0a, 0xff]), b"000aff".to_vec());
    assert_eq!(memory_reply(&[]), b"".to_vec());
}

#[test]
fn acknowledgements() {
    assert_eq!(ack_scan(b"+$qC#b4"), (1, true));
    assert_eq!(ack_scan(b"--+"), (3, true));
    assert_eq!(ack_scan(b"--"), (2, false));
    assert_eq!(ack_scan(b"$m0,4#fd"), (0, false));
    assert_eq!(ack_scan(b""), (0, false));
}

#[test]
fn packets_are_escaped() {
    assert_eq!(encode(PacketKind::Packet, b"OK", b"9a"), b"$OK#9a".to_vec());
    assert_eq!(encode(PacketKind::Notification, b"a#b", b"00"), b"%a}\x03b#00".to_vec());
    assert_eq!(encode(PacketKind::Packet, b"$}*x", b"11"), b"$}\x04}]}\x0ax#11".to_vec());
    assert_eq!(encode(PacketKind::Packet, b"", b"00"), b"$#00".to_vec());
}

#[test]
fn stop_reply_after_continue() {
    let mut watch = HaltWatch::new();
    assert_eq!(watch.poll(true), None);
    watch.after_action(&gdb_action(b"c"));
    assert!(watch.awaits_halt);
    assert_eq!(watch.poll(false), None);
    assert_eq!(watch.poll(true), Some(b"T05hwbreak:;".to_vec()));
    assert_eq!(watch.poll(true), None);
    watch.after_action(&gdb_action(b"vCont;c"));
    watch.after_action(&gdb_action(b"vCont;t"));
    assert!(!watch.awaits_halt);
    watch.after_action(&gdb_action(b"c"));
    watch.after_action(&gdb_action(b"qC"));
    assert!(watch.awaits_halt);
}
