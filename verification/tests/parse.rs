use btsnoop::hci::Command;
use btsnoop::{
    parse_uart_packet, Btsnoop, CommandFlag, DatalinkType, DirectionFlag, Header, PacketFlags,
    ParseError, UartData, UartPacketType,
};

const MAGIC: [u8; 8] = [0x62, 0x74, 0x73, 0x6e, 0x6f, 0x6f, 0x70, 0x00];

fn header_bytes(version: u32, link_type: u32) -> Vec<u8> {
    let mut buf = Vec::new();
    buf.extend_from_slice(&MAGIC);
    buf.extend_from_slice(&version.to_be_bytes());
    buf.extend_from_slice(&link_type.to_be_bytes());
    buf
}

fn push_record(
    buf: &mut Vec<u8>,
    original_length: u32,
    flags: u32,
    cumulative_drops: u32,
    timestamp: i64,
    data: &[u8],
) {
    buf.extend_from_slice(&original_length.to_be_bytes());
    buf.extend_from_slice(&(data.len() as u32).to_be_bytes());
    buf.extend_from_slice(&flags.to_be_bytes());
    buf.extend_from_slice(&cumulative_drops.to_be_bytes());
    buf.extend_from_slice(&timestamp.to_be_bytes());
    buf.extend_from_slice(data);
}

fn sample_capture() -> Vec<u8> {
    let mut buf = header_bytes(1, 1002);
    push_record(&mut buf, 4, 2, 0, 1_000_000, &[1, 0x01, 0x02, 0x00]);
    push_record(&mut buf, 3, 1, 0, 2_000_000, &[2, 0xaa, 0xbb]);
    push_record(&mut buf, 0, 0, 0, 3_000_000, &[]);
    push_record(&mut buf, 6, 2, 1, -5, &[1, 0x03, 0x0c, 0x02, 0x11, 0x22]);
    buf
}

#[test]
fn read_test() {
    let f: Vec<u8> = sample_capture();
    let bs = Btsnoop::parse(&f).unwrap();
    let mut count = 0;
    for pkt in &bs.packets {
        if count > 1000 {
            break;
        }
        count += 1;
        println!("{:?}", pkt);
        if let Ok(cmd) = parse_uart_packet(pkt) {
            if let UartData::Command(_) = cmd {
                println!("{:?}", cmd)
            }
        }
    }
}

#[test]
fn header_round_trips_version_and_link_type() {
    let buf = header_bytes(7, 1002);
    let (header, end) = Header::parse(&buf, 0).unwrap();
    assert_eq!(end, 16);
    assert_eq!(header.version, 7);
    assert_eq!(header.datalink_type, DatalinkType::Uart);
    assert_eq!(header.identification_pattern(), "btsnoop");
}

#[test]
fn header_with_wrong_magic_is_malformed() {
    let mut buf = header_bytes(1, 1002);
    buf[6] = b'q';
    assert_eq!(Header::parse(&buf, 0), Err(ParseError::MalformedHeader));
    assert_eq!(Btsnoop::parse(&buf).unwrap_err(), ParseError::MalformedHeader);
}

#[test]
fn header_too_short_is_truncated() {
    assert_eq!(Header::parse(&[], 0), Err(ParseError::Truncated));
    let buf = header_bytes(1, 1002);
    assert_eq!(Header::parse(&buf[..10], 0), Err(ParseError::Truncated));
    assert_eq!(Btsnoop::parse(&[]).unwrap_err(), ParseError::Truncated);
}

#[test]
fn link_type_codes_map_to_variants() {
    assert_eq!(DatalinkType::from(0), DatalinkType::Reserved(0));
    assert_eq!(DatalinkType::from(1000), DatalinkType::Reserved(1000));
    assert_eq!(DatalinkType::from(1001), DatalinkType::UnencapsulatedHci);
    assert_eq!(DatalinkType::from(1002), DatalinkType::Uart);
    assert_eq!(DatalinkType::from(1003), DatalinkType::Bscp);
    assert_eq!(DatalinkType::from(1004), DatalinkType::Serial);
    assert_eq!(DatalinkType::from(1005), DatalinkType::Unassigned(1005));
    assert_eq!(DatalinkType::from(u32::MAX), DatalinkType::Unassigned(u32::MAX));
}

#[test]
fn flag_bits_decode_independently() {
    for raw in [0u32, 4, 0xffff_fffc] {
        assert_eq!(PacketFlags(raw).direction(), DirectionFlag::Sent);
        assert_eq!(PacketFlags(raw).command_flag(), CommandFlag::Data);
        assert_eq!(PacketFlags(raw | 1).direction(), DirectionFlag::Received);
        assert_eq!(PacketFlags(raw | 1).command_flag(), CommandFlag::Data);
        assert_eq!(PacketFlags(raw | 2).direction(), DirectionFlag::Sent);
        assert_eq!(PacketFlags(raw | 2).command_flag(), CommandFlag::CommandOrEvent);
        assert_eq!(PacketFlags(raw | 3).direction(), DirectionFlag::Received);
        assert_eq!(PacketFlags(raw | 3).command_flag(), CommandFlag::CommandOrEvent);
        assert_eq!(PacketFlags(raw).0, raw);
    }
    assert_eq!(DirectionFlag::try_from(0), Ok(DirectionFlag::Sent));
    assert_eq!(DirectionFlag::try_from(0xfd), Ok(DirectionFlag::Received));
    assert_eq!(CommandFlag::try_from(0xfd), Ok(CommandFlag::Data));
    assert_eq!(CommandFlag::try_from(2), Ok(CommandFlag::CommandOrEvent));
}

#[test]
fn header_followed_by_nothing_is_an_empty_log() {
    let buf = header_bytes(1, 1001);
    let log = Btsnoop::parse(&buf).unwrap();
    assert_eq!(log.header.version, 1);
    assert_eq!(log.header.datalink_type, DatalinkType::UnencapsulatedHci);
    assert_eq!(log.packets.len(), 0);
}

#[test]
fn trailing_bytes_shorter_than_a_record_end_the_log() {
    let mut buf = header_bytes(1, 1002);
    push_record(&mut buf, 5, 3, 2, 42, &[0xde, 0xad, 0xbe, 0xef, 0x00]);
    buf.extend_from_slice(&[0x01, 0x02, 0x03]);
    let log = Btsnoop::parse(&buf).unwrap();
    assert_eq!(log.packets.len(), 1);
    let packet = &log.packets[0];
    assert_eq!(packet.description.original_length, 5);
    assert_eq!(packet.description.included_length, 5);
    assert_eq!(packet.description.flags, PacketFlags(3));
    assert_eq!(packet.description.cumulative_drops, 2);
    assert_eq!(packet.description.timestamp, 42);
    assert_eq!(packet.data.0, vec![0xde, 0xad, 0xbe, 0xef, 0x00]);
}

#[test]
fn record_cut_mid_data_ends_the_log() {
    let mut buf = header_bytes(1, 1002);
    push_record(&mut buf, 5, 0, 0, 0, &[0xde, 0xad, 0xbe, 0xef, 0x00]);
    buf.truncate(buf.len() - 3);
    let log = Btsnoop::parse(&buf).unwrap();
    assert_eq!(log.packets.len(), 0);
}

#[test]
fn description_fields_read_big_endian() {
    let mut buf = header_bytes(2, 1004);
    push_record(&mut buf, 0x0102_0304, 0x8000_0001, 9, -1_000_000, &[]);
    let log = Btsnoop::parse(&buf).unwrap();
    assert_eq!(log.header.datalink_type, DatalinkType::Serial);
    assert_eq!(log.packets.len(), 1);
    let d = &log.packets[0].description;
    assert_eq!(d.original_length, 0x0102_0304);
    assert_eq!(d.included_length, 0);
    assert_eq!(d.flags.0, 0x8000_0001);
    assert_eq!(d.flags.direction(), DirectionFlag::Received);
    assert_eq!(d.flags.command_flag(), CommandFlag::Data);
    assert_eq!(d.cumulative_drops, 9);
    assert_eq!(d.timestamp, -1_000_000);
}

#[test]
fn empty_payload_dispatches_to_unhandled() {
    let mut buf = header_bytes(1, 1002);
    push_record(&mut buf, 0, 0, 0, 0, &[]);
    let log = Btsnoop::parse(&buf).unwrap();
    let frame = parse_uart_packet(&log.packets[0]).unwrap();
    assert!(matches!(frame, UartData::Todos));
}

#[test]
fn command_packet_decodes_opcode_and_params() {
    let mut buf = header_bytes(1, 1002);
    push_record(&mut buf, 4, 2, 0, 0, &[1, 0x01, 0x02, 0x00]);
    let log = Btsnoop::parse(&buf).unwrap();
    let frame = parse_uart_packet(&log.packets[0]).unwrap();
    match frame {
        UartData::Command(cmd) => {
            // raw opcode 0x0201, read little-endian from [0x01, 0x02]
            assert_eq!(cmd.opcode.ocf(), 0x0201u16 & 0x3ff);
            assert_eq!(cmd.opcode.ogf(), (0x0201u16 >> 10) as u8);
            assert_eq!(cmd.params_len, 0);
            assert_eq!(cmd.params, &[] as &[u8]);
        }
        UartData::Todos => panic!("expected a command frame"),
    }
}

#[test]
fn undefined_type_byte_is_invalid_but_record_survives() {
    let mut buf = header_bytes(1, 1002);
    push_record(&mut buf, 2, 0, 0, 7, &[9, 0x55]);
    let log = Btsnoop::parse(&buf).unwrap();
    let packet = &log.packets[0];
    assert_eq!(parse_uart_packet(packet).unwrap_err(), ParseError::InvalidPacketType);
    assert_eq!(packet.description.timestamp, 7);
    assert_eq!(packet.data.0, vec![9, 0x55]);
}

#[test]
fn recognized_non_command_types_are_unhandled() {
    for tp in 2u8..=5 {
        let mut buf = header_bytes(1, 1002);
        push_record(&mut buf, 2, 0, 0, 0, &[tp, 0x42]);
        let log = Btsnoop::parse(&buf).unwrap();
        let frame = parse_uart_packet(&log.packets[0]).unwrap();
        assert!(matches!(frame, UartData::Todos));
    }
    assert_eq!(UartPacketType::try_from(1), Ok(UartPacketType::Cmd));
    assert_eq!(UartPacketType::try_from(5), Ok(UartPacketType::Iso));
    assert_eq!(UartPacketType::try_from(0), Err(ParseError::InvalidPacketType));
    assert_eq!(UartPacketType::try_from(6), Err(ParseError::InvalidPacketType));
}

#[test]
fn command_buffer_shorter_than_prefix_fails() {
    let mut buf = header_bytes(1, 1002);
    push_record(&mut buf, 2, 0, 0, 0, &[1, 0x2a]);
    let log = Btsnoop::parse(&buf).unwrap();
    assert_eq!(parse_uart_packet(&log.packets[0]).unwrap_err(), ParseError::ShortCommandBuffer);
    assert!(matches!(Command::from(&[0x01, 0x02]), Err(ParseError::ShortCommandBuffer)));
}

#[test]
fn command_params_are_not_cut_to_declared_length() {
    // declared parameter length 1, but three bytes follow the prefix
    let data = [0x34u8, 0x12, 1, 0xaa, 0xbb, 0xcc];
    let cmd = Command::from(&data).unwrap();
    assert_eq!(cmd.opcode.ocf(), 0x1234u16 & 0x3ff);
    assert_eq!(cmd.opcode.ogf(), (0x1234u16 >> 10) as u8);
    assert_eq!(cmd.params_len, 1);
    assert_eq!(cmd.params, &[0xaa, 0xbb, 0xcc][..]);
}
