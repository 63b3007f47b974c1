//! Decoder for a Bluetooth capture log: a fixed 16-byte file header followed
//! by length-prefixed packet records, each wrapping a link-layer payload whose
//! first byte selects an embedded sub-protocol decoder.

use vstd::prelude::*;

pub mod endian;
pub mod hci;

use crate::endian::{
    be_i64_of, be_u32_bytes, be_u32_of, le_u16_of, lemma_be_u32_round_trip, read_be_u32,
    read_be_u64,
};

verus! {

/// How a decode step fails.
///
/// `Truncated` doubles as the record loop's normal terminator: the container
/// parser treats it as end of source, every other variant aborts the parse.
#[derive(Debug, Clone, Copy, PartialEq, Eq, Structural)]
pub enum ParseError {
    /// The 8 magic bytes at the start of the stream are wrong.
    MalformedHeader,
    /// Fewer bytes are available than a fixed field or a declared length needs.
    Truncated,
    /// The first payload byte is not one of the five defined packet types.
    InvalidPacketType,
    /// An embedded command buffer is shorter than its 3-byte fixed prefix.
    ShortCommandBuffer,
}

/// The 8 magic bytes that open every capture file: ASCII "btsnoop" and one
/// null octet.
pub open spec fn spec_magic() -> Seq<u8> {
    seq![0x62u8, 0x74u8, 0x73u8, 0x6eu8, 0x6fu8, 0x6fu8, 0x70u8, 0x00u8]
}

/// 64 bit 62 74 73 6E 6F 6F 70 00 (aka. b"btsnoop\0")
#[derive(Debug, Clone, Copy, PartialEq, Eq, Structural)]
pub struct IdentificationPattern;

impl IdentificationPattern {
    /// Validates 8 bytes against the magic pattern.
    pub fn try_from(value: [u8; 8]) -> (r: Result<IdentificationPattern, ParseError>)
        ensures
            r is Ok <==> value@ == spec_magic(),
            r is Err ==> r == Err::<IdentificationPattern, ParseError>(ParseError::MalformedHeader),
    {
        if value[0] == 0x62 && value[1] == 0x74 && value[2] == 0x73 && value[3] == 0x6e
            && value[4] == 0x6f && value[5] == 0x6f && value[6] == 0x70 && value[7] == 0x00 {
            proof {
                assert(value@ =~= spec_magic());
            }
            Ok(IdentificationPattern)
        } else {
            proof {
                assert(value@ != spec_magic());
            }
            Err(ParseError::MalformedHeader)
        }
    }
}

/// | Datalink Type | Code |
/// | --- | --- |
/// | Reserved | 0 - 1000 |
/// | Un-encapsulated HCI (H1) | 1001 |
/// | HCI UART (H4) | 1002 |
/// | HCI BSCP | 1003 |
/// | HCI Serial (H5) | 1004 |
/// | Unassigned | 1005 - 4294967295 |
#[derive(Debug, Clone, Copy, PartialEq, Eq, Structural)]
pub enum DatalinkType {
    /// Codes 0 through 1000, raw value kept.
    Reserved(u32),
    UnencapsulatedHci,
    /// aka H4
    Uart,
    Bscp,
    /// aka Three Wire
    Serial,
    /// Codes 1005 and above, raw value kept.
    Unassigned(u32),
}

/// The total mapping from a raw 32-bit link-type code to its interpretation.
pub open spec fn spec_link_type(code: u32) -> DatalinkType {
    if code <= 1000 {
        DatalinkType::Reserved(code)
    } else if code == 1001 {
        DatalinkType::UnencapsulatedHci
    } else if code == 1002 {
        DatalinkType::Uart
    } else if code == 1003 {
        DatalinkType::Bscp
    } else if code == 1004 {
        DatalinkType::Serial
    } else {
        DatalinkType::Unassigned(code)
    }
}

impl DatalinkType {
    /// Interprets a raw link-type code; defined for every u32.
    pub fn from(value: u32) -> (r: DatalinkType)
        ensures
            r == spec_link_type(value),
    {
        if value <= 1000 {
            DatalinkType::Reserved(value)
        } else if value == 1001 {
            DatalinkType::UnencapsulatedHci
        } else if value == 1002 {
            DatalinkType::Uart
        } else if value == 1003 {
            DatalinkType::Bscp
        } else if value == 1004 {
            DatalinkType::Serial
        } else {
            DatalinkType::Unassigned(value)
        }
    }
}

/// ```text
/// ----------------------------------------
/// | identification pattern 64 bit        |
/// ----------------------------------------
/// | version number 32 bit                |
/// ----------------------------------------
/// | datalink type 32 bit                 |
/// ----------------------------------------
/// ```
#[derive(Debug, Clone, Copy, PartialEq, Eq, Structural)]
pub struct Header {
    pub identification_pattern: IdentificationPattern,
    pub version: u32,
    pub datalink_type: DatalinkType,
}

/// The stream carries the magic pattern at `pos`.
pub open spec fn spec_magic_at(b: Seq<u8>, pos: int) -> bool {
    b.subrange(pos, pos + 8) == spec_magic()
}

/// The version field of the header that starts at `pos`.
pub open spec fn spec_header_version(b: Seq<u8>, pos: int) -> u32 {
    be_u32_of(b.subrange(pos + 8, pos + 12))
}

/// The interpreted link-type field of the header that starts at `pos`.
pub open spec fn spec_header_link_type(b: Seq<u8>, pos: int) -> DatalinkType {
    spec_link_type(be_u32_of(b.subrange(pos + 12, pos + 16)))
}

/// A header written from the valid magic and any version and link-type code
/// parses back to exactly those values, whatever follows it.
pub proof fn lemma_header_round_trip(version: u32, code: u32, rest: Seq<u8>)
    ensures
        ({
            let b = spec_magic() + be_u32_bytes(version) + be_u32_bytes(code) + rest;
            &&& b.len() >= 16
            &&& spec_magic_at(b, 0)
            &&& spec_header_version(b, 0) == version
            &&& spec_header_link_type(b, 0) == spec_link_type(code)
        }),
{
    let b = spec_magic() + be_u32_bytes(version) + be_u32_bytes(code) + rest;
    assert(b.subrange(0, 8) =~= spec_magic());
    assert(b.subrange(8, 12) =~= be_u32_bytes(version));
    assert(b.subrange(12, 16) =~= be_u32_bytes(code));
    lemma_be_u32_round_trip(version);
    lemma_be_u32_round_trip(code);
}

/// The first 8 bytes alone decide whether a stream opens with the magic
/// pattern: a stream opening with any other 8-byte sequence does not, and so
/// parses as a malformed header.
pub proof fn lemma_magic_decides_header(opening: Seq<u8>, rest: Seq<u8>)
    requires
        opening.len() == 8,
    ensures
        spec_magic_at(opening + rest, 0) <==> opening == spec_magic(),
{
    assert((opening + rest).subrange(0, 8) =~= opening);
}

impl Header {
    /// Parses the 16-byte file header at `pos`: 8 magic bytes checked
    /// verbatim, then a big-endian version and link-type code. Succeeds
    /// exactly when 16 bytes are available and the magic matches; a wrong
    /// magic (with its 8 bytes present) is `MalformedHeader`, anything
    /// shorter is `Truncated`.
    pub fn parse(bytes: &[u8], pos: usize) -> (r: Result<(Header, usize), ParseError>)
        requires
            pos <= bytes@.len(),
        ensures
            r is Ok <==> bytes@.len() - pos >= 16 && spec_magic_at(bytes@, pos as int),
            r matches Ok((h, end)) ==> {
                &&& h.version == spec_header_version(bytes@, pos as int)
                &&& h.datalink_type == spec_header_link_type(bytes@, pos as int)
                &&& end == pos + 16
            },
            bytes@.len() - pos < 8 ==> r == Err::<(Header, usize), ParseError>(
                ParseError::Truncated,
            ),
            bytes@.len() - pos >= 8 && !spec_magic_at(bytes@, pos as int) ==> r == Err::<
                (Header, usize),
                ParseError,
            >(ParseError::MalformedHeader),
            bytes@.len() - pos >= 8 && spec_magic_at(bytes@, pos as int) && bytes@.len() - pos < 16
                ==> r == Err::<(Header, usize), ParseError>(ParseError::Truncated),
    {
        let n = bytes.len();
        if n - pos < 8 {
            return Err(ParseError::Truncated);
        }
        let id_pat = [
            bytes[pos],
            bytes[pos + 1],
            bytes[pos + 2],
            bytes[pos + 3],
            bytes[pos + 4],
            bytes[pos + 5],
            bytes[pos + 6],
            bytes[pos + 7],
        ];
        proof {
            assert(id_pat@ =~= bytes@.subrange(pos as int, pos as int + 8));
        }
        let identification_pattern = match IdentificationPattern::try_from(id_pat) {
            Ok(p) => p,
            Err(e) => {
                return Err(e);
            },
        };
        if n - pos < 16 {
            return Err(ParseError::Truncated);
        }
        let version = read_be_u32(bytes, pos + 8);
        let datalink_type = DatalinkType::from(read_be_u32(bytes, pos + 12));
        Ok((Header { identification_pattern, version, datalink_type }, pos + 16))
    }

    /// The ASCII name the magic pattern spells.
    pub fn identification_pattern(&self) -> (r: &'static str)
        ensures
            r@ == "btsnoop"@,
    {
        "btsnoop"
    }
}

/// | Bit No. | Definition |
/// | --- | --- |
/// | 0 | Direction flag 0 = Sent, 1 = Received |
/// | 1 | Command flag 0 = Data, 1 = Command/Event |
/// | 2 - 31 | Reserved |
///
/// The raw word is kept verbatim; only bits 0 and 1 are interpreted.
#[derive(Debug, Clone, Copy, PartialEq, Eq, Structural)]
pub struct PacketFlags(pub u32);

/// Whether the host or the controller sent the packet (bit 0).
#[derive(Debug, Clone, Copy, PartialEq, Eq, Structural)]
pub enum DirectionFlag {
    Sent,
    Received,
}

/// Whether the packet carries data or a command/event (bit 1).
///
/// Some datalink types already encode some or all of this within the packet
/// data; there these flags are informational only and the packet data takes
/// precedence.
#[derive(Debug, Clone, Copy, PartialEq, Eq, Structural)]
pub enum CommandFlag {
    Data,
    CommandOrEvent,
}

/// The direction encoded in bit 0 of a flags word.
pub open spec fn spec_direction(v: u32) -> DirectionFlag {
    if v & 1 == 1 {
        DirectionFlag::Received
    } else {
        DirectionFlag::Sent
    }
}

/// The packet class encoded in bit 1 of a flags word.
pub open spec fn spec_command_flag(v: u32) -> CommandFlag {
    if (v >> 1) & 1 == 1 {
        CommandFlag::CommandOrEvent
    } else {
        CommandFlag::Data
    }
}

/// Bit 0 alone decides the direction and bit 1 alone the class: two flag
/// words that agree on one of those bits decode that field the same way,
/// whatever their other 31 bits hold.
pub proof fn lemma_flag_bits_independent(a: u32, b: u32)
    ensures
        a & 1 == b & 1 ==> spec_direction(a) == spec_direction(b),
        (a >> 1) & 1 == (b >> 1) & 1 ==> spec_command_flag(a) == spec_command_flag(b),
{
}

impl PacketFlags {
    /// Decodes bit 0; total over all flag words.
    pub fn direction(&self) -> (r: DirectionFlag)
        ensures
            r == spec_direction(self.0),
    {
        if self.0 & 1 == 1 {
            DirectionFlag::Received
        } else {
            DirectionFlag::Sent
        }
    }

    /// Decodes bit 1; total over all flag words.
    pub fn command_flag(&self) -> (r: CommandFlag)
        ensures
            r == spec_command_flag(self.0),
    {
        if (self.0 >> 1u32) & 1 == 1 {
            CommandFlag::CommandOrEvent
        } else {
            CommandFlag::Data
        }
    }
}

impl DirectionFlag {
    /// Decodes bit 0 of a byte-sized flags value; never fails, since the
    /// masked bit is always 0 or 1.
    pub fn try_from(value: u8) -> (r: Result<DirectionFlag, ParseError>)
        ensures
            r == Ok::<DirectionFlag, ParseError>(spec_direction(value as u32)),
    {
        proof {
            let v = value;
            assert(v & 1 == ((v as u32) & 1) as u8 && v & 1 <= 1) by (bit_vector);
        }
        if value & 1 == 1 {
            Ok(DirectionFlag::Received)
        } else {
            Ok(DirectionFlag::Sent)
        }
    }
}

impl CommandFlag {
    /// Decodes bit 1 of a byte-sized flags value; never fails, since the
    /// masked bit is always 0 or 1.
    pub fn try_from(value: u8) -> (r: Result<CommandFlag, ParseError>)
        ensures
            r == Ok::<CommandFlag, ParseError>(spec_command_flag(value as u32)),
    {
        proof {
            let v = value;
            assert((v >> 1) & 1 == (((v as u32) >> 1) & 1) as u8 && (v >> 1) & 1 <= 1)
                by (bit_vector);
        }
        if (value >> 1u8) & 1 == 1 {
            Ok(CommandFlag::CommandOrEvent)
        } else {
            Ok(CommandFlag::Data)
        }
    }
}

/// ```text
/// --------------------------
/// | original length 32 bit |
/// --------------------------
/// | included length 32 bit |
/// --------------------------
/// | packet flags 32 bit    |
/// --------------------------
/// | cumulative drops 32 bit|
/// --------------------------
/// | timestamp 64 bit       |
/// --------------------------
/// | packet data            |
/// --------------------------
/// ```
#[derive(Debug)]
pub struct Packet {
    pub description: PacketDescription,
    pub data: PacketData,
}

#[derive(Debug)]
pub struct PacketDescription {
    /// Length in octets of the captured packet as received via a network.
    pub original_length: u32,
    /// Length of the packet data field: how many octets of the captured
    /// packet this record includes. Less than the original length when the
    /// received packet was truncated. Not cross-checked against
    /// `original_length` here; callers wanting that validation apply it
    /// themselves.
    pub included_length: u32,
    pub flags: PacketFlags,
    /// How many packets the capturing system lost between the first record
    /// of the file and this one.
    pub cumulative_drops: u32,
    /// Signed microseconds.
    pub timestamp: i64,
}

/// The captured payload, beginning with its datalink header; exactly
/// `included_length` octets. Interpreting it is deferred to the datalink
/// dispatch.
#[derive(Debug, Clone)]
pub struct PacketData(pub Vec<u8>);

/// The mathematical shape of one parsed record: the five description fields
/// and the payload bytes.
#[verifier::ext_equal]
pub ghost struct PacketModel {
    pub original_length: u32,
    pub included_length: u32,
    pub flags: u32,
    pub cumulative_drops: u32,
    pub timestamp: i64,
    pub data: Seq<u8>,
}

impl View for Packet {
    type V = PacketModel;

    open spec fn view(&self) -> PacketModel {
        PacketModel {
            original_length: self.description.original_length,
            included_length: self.description.included_length,
            flags: self.description.flags.0,
            cumulative_drops: self.description.cumulative_drops,
            timestamp: self.description.timestamp,
            data: self.data.0@,
        }
    }
}

/// The included-length field of the record that starts at `pos`.
pub open spec fn spec_included_length(b: Seq<u8>, pos: int) -> u32 {
    be_u32_of(b.subrange(pos + 4, pos + 8))
}

/// The stream holds a whole record at `pos`: the 24-byte description block
/// and as many data octets as it declares.
pub open spec fn spec_packet_fits(b: Seq<u8>, pos: int) -> bool {
    &&& pos + 24 <= b.len()
    &&& pos + 24 + spec_included_length(b, pos) <= b.len()
}

/// Where the record that starts at `pos` ends.
pub open spec fn spec_packet_end(b: Seq<u8>, pos: int) -> int {
    pos + 24 + spec_included_length(b, pos)
}

/// The record denoted by the bytes at `pos`.
pub open spec fn spec_packet_at(b: Seq<u8>, pos: int) -> PacketModel
    recommends
        spec_packet_fits(b, pos),
{
    PacketModel {
        original_length: be_u32_of(b.subrange(pos, pos + 4)),
        included_length: spec_included_length(b, pos),
        flags: be_u32_of(b.subrange(pos + 8, pos + 12)),
        cumulative_drops: be_u32_of(b.subrange(pos + 12, pos + 16)),
        timestamp: be_i64_of(b.subrange(pos + 16, pos + 24)),
        data: b.subrange(pos + 24, spec_packet_end(b, pos)),
    }
}

impl PacketDescription {
    /// Parses the fixed 24-byte description block at `pos`, all fields
    /// big-endian. Succeeds exactly when 24 bytes are available; anything
    /// shorter is `Truncated`.
    pub fn parse(bytes: &[u8], pos: usize) -> (r: Result<(PacketDescription, usize), ParseError>)
        requires
            pos <= bytes@.len(),
        ensures
            r is Ok <==> bytes@.len() - pos >= 24,
            r matches Ok((d, end)) ==> {
                &&& d.original_length == be_u32_of(bytes@.subrange(pos as int, pos as int + 4))
                &&& d.included_length == spec_included_length(bytes@, pos as int)
                &&& d.flags.0 == be_u32_of(bytes@.subrange(pos as int + 8, pos as int + 12))
                &&& d.cumulative_drops == be_u32_of(
                    bytes@.subrange(pos as int + 12, pos as int + 16),
                )
                &&& d.timestamp == be_i64_of(bytes@.subrange(pos as int + 16, pos as int + 24))
                &&& end == pos + 24
            },
            r is Err ==> r == Err::<(PacketDescription, usize), ParseError>(ParseError::Truncated),
    {
        let n = bytes.len();
        if n - pos < 24 {
            return Err(ParseError::Truncated);
        }
        let original_length = read_be_u32(bytes, pos);
        let included_length = read_be_u32(bytes, pos + 4);
        let flags = PacketFlags(read_be_u32(bytes, pos + 8));
        let cumulative_drops = read_be_u32(bytes, pos + 12);
        let timestamp = read_be_u64(bytes, pos + 16) as i64;
        Ok(
            (
                PacketDescription {
                    original_length,
                    included_length,
                    flags,
                    cumulative_drops,
                    timestamp,
                },
                pos + 24,
            ),
        )
    }
}

impl Packet {
    /// Parses one record at `pos`: the 24-byte description, then exactly
    /// `included_length` octets of data. Succeeds exactly when the whole
    /// record fits in the remaining bytes; any shortfall is `Truncated`,
    /// which the container loop reads as end of source.
    pub fn parse(bytes: &[u8], pos: usize) -> (r: Result<(Packet, usize), ParseError>)
        requires
            pos <= bytes@.len(),
        ensures
            r is Ok <==> spec_packet_fits(bytes@, pos as int),
            r matches Ok((p, end)) ==> {
                &&& p@ == spec_packet_at(bytes@, pos as int)
                &&& end == spec_packet_end(bytes@, pos as int)
            },
            r is Err ==> r == Err::<(Packet, usize), ParseError>(ParseError::Truncated),
    {
        let (description, data_pos) = match PacketDescription::parse(bytes, pos) {
            Ok(x) => x,
            Err(e) => {
                return Err(e);
            },
        };
        let data_len = description.included_length as usize;
        let n = bytes.len();
        if n - data_pos < data_len {
            return Err(ParseError::Truncated);
        }
        let data_slice = vstd::slice::slice_subrange(bytes, data_pos, data_pos + data_len);
        let data = PacketData(vstd::slice::slice_to_vec(data_slice));
        let packet = Packet { description, data };
        proof {
            assert(packet@ =~= spec_packet_at(bytes@, pos as int));
        }
        Ok((packet, data_pos + data_len))
    }
}

/// ```text
/// -----------------------
/// | header              |
/// -----------------------
/// | packet record nbr 1 |
/// -----------------------
/// | packet record nbr 2 |
/// -----------------------
/// | ...                 |
/// -----------------------
/// | packet record nbr n |
/// -----------------------
/// ```
#[derive(Debug)]
pub struct Btsnoop {
    pub header: Header,
    pub packets: Vec<Packet>,
}

/// Every whole record the stream holds from `pos` on, in order, up to the
/// first position where a record no longer fits; whatever trails there is
/// end of source, not part of the log.
pub open spec fn spec_packets_from(b: Seq<u8>, pos: int) -> Seq<PacketModel>
    decreases b.len() - pos,
        when 0 <= pos <= b.len()
{
    if spec_packet_fits(b, pos) {
        seq![spec_packet_at(b, pos)] + spec_packets_from(b, spec_packet_end(b, pos))
    } else {
        Seq::<PacketModel>::empty()
    }
}

/// The records a vector of parsed packets denotes.
pub open spec fn packets_view(s: Seq<Packet>) -> Seq<PacketModel> {
    s.map_values(|p: Packet| p@)
}

impl Btsnoop {
    /// Parses a whole capture: the 16-byte header, then records until the
    /// remaining bytes no longer hold one. Trailing truncation ends the log
    /// without error: the result owns exactly the records that fit, in
    /// stream order. Header failures (short stream or wrong magic) abort the
    /// parse.
    pub fn parse(bytes: &[u8]) -> (r: Result<Btsnoop, ParseError>)
        ensures
            r is Ok <==> bytes@.len() >= 16 && spec_magic_at(bytes@, 0),
            r matches Ok(log) ==> {
                &&& log.header.version == spec_header_version(bytes@, 0)
                &&& log.header.datalink_type == spec_header_link_type(bytes@, 0)
                &&& packets_view(log.packets@) == spec_packets_from(bytes@, 16)
            },
            bytes@.len() < 8 ==> r == Err::<Btsnoop, ParseError>(ParseError::Truncated),
            bytes@.len() >= 8 && !spec_magic_at(bytes@, 0) ==> r == Err::<Btsnoop, ParseError>(
                ParseError::MalformedHeader,
            ),
            bytes@.len() >= 8 && spec_magic_at(bytes@, 0) && bytes@.len() < 16 ==> r == Err::<
                Btsnoop,
                ParseError,
            >(ParseError::Truncated),
    {
        let (header, start) = match Header::parse(bytes, 0) {
            Ok(x) => x,
            Err(e) => {
                return Err(e);
            },
        };
        let mut pos: usize = start;
        let mut packets: Vec<Packet> = Vec::new();
        loop
            invariant
                16 <= pos <= bytes@.len(),
                spec_packets_from(bytes@, 16) == packets_view(packets@) + spec_packets_from(
                    bytes@,
                    pos as int,
                ),
            ensures
                spec_packets_from(bytes@, 16) == packets_view(packets@),
            decreases bytes@.len() - pos,
        {
            match Packet::parse(bytes, pos) {
                Ok((packet, end)) => {
                    proof {
                        assert(packets_view(packets@.push(packet)) =~= packets_view(
                            packets@,
                        ).push(packet@));
                        assert(packets_view(packets@) + spec_packets_from(bytes@, pos as int)
                            =~= packets_view(packets@.push(packet)) + spec_packets_from(
                            bytes@,
                            end as int,
                        ));
                    }
                    packets.push(packet);
                    pos = end;
                },
                Err(e) => {
                    match e {
                        ParseError::Truncated => {
                            proof {
                                assert(packets_view(packets@) + spec_packets_from(
                                    bytes@,
                                    pos as int,
                                ) =~= packets_view(packets@));
                            }
                            break ;
                        },
                        _ => {
                            return Err(e);
                        },
                    }
                },
            }
        }
        Ok(Btsnoop { header, packets })
    }
}

/// The packet-type discriminant carried in the first byte of a UART-framed
/// payload.
#[derive(Debug, Clone, Copy, PartialEq, Eq, Structural)]
pub enum UartPacketType {
    Cmd,
    Acl,
    Sco,
    Evt,
    Iso,
}

/// The packet type a discriminant byte selects: 1 through 5 name the five
/// defined types, every other value is undefined.
pub open spec fn spec_uart_packet_type(v: u8) -> Option<UartPacketType> {
    if v == 1 {
        Some(UartPacketType::Cmd)
    } else if v == 2 {
        Some(UartPacketType::Acl)
    } else if v == 3 {
        Some(UartPacketType::Sco)
    } else if v == 4 {
        Some(UartPacketType::Evt)
    } else if v == 5 {
        Some(UartPacketType::Iso)
    } else {
        None
    }
}

impl UartPacketType {
    /// Reads a discriminant byte; an undefined code is `InvalidPacketType`.
    pub fn try_from(value: u8) -> (r: Result<UartPacketType, ParseError>)
        ensures
            r == match spec_uart_packet_type(value) {
                Some(t) => Ok::<UartPacketType, ParseError>(t),
                None => Err::<UartPacketType, ParseError>(ParseError::InvalidPacketType),
            },
    {
        if value == 1 {
            Ok(UartPacketType::Cmd)
        } else if value == 2 {
            Ok(UartPacketType::Acl)
        } else if value == 3 {
            Ok(UartPacketType::Sco)
        } else if value == 4 {
            Ok(UartPacketType::Evt)
        } else if value == 5 {
            Ok(UartPacketType::Iso)
        } else {
            Err(ParseError::InvalidPacketType)
        }
    }
}

/// One record's payload as UART framing reads it: a decoded command, or a
/// recognized type whose payload decoding is an open extension point.
#[derive(Debug)]
pub enum UartData<'a> {
    Command(hci::Command<'a>),
    Todos,
}

/// Reads one record's payload under UART framing: the first byte selects the
/// packet type. An empty payload is `Todos`, not an error; an undefined type
/// byte is `InvalidPacketType`; a command packet hands the rest of the
/// buffer to the embedded-command decoder, every other defined type is left
/// as `Todos`. The record itself stays valid whatever this returns.
pub fn parse_uart_packet<'a>(packet: &'a Packet) -> (r: Result<UartData<'a>, ParseError>)
    ensures
        ({
            let d = packet@.data;
            &&& d.len() == 0 ==> r == Ok::<UartData<'a>, ParseError>(UartData::Todos)
            &&& d.len() > 0 && spec_uart_packet_type(d[0]) is None ==> r == Err::<
                UartData<'a>,
                ParseError,
            >(ParseError::InvalidPacketType)
            &&& d.len() > 0 && (spec_uart_packet_type(d[0]) matches Some(t) && t
                != UartPacketType::Cmd) ==> r == Ok::<UartData<'a>, ParseError>(UartData::Todos)
            &&& d.len() > 0 && d[0] == 1 && d.len() < 4 ==> r == Err::<UartData<'a>, ParseError>(
                ParseError::ShortCommandBuffer,
            )
            &&& d.len() > 0 && d[0] == 1 && d.len() >= 4 ==> {
                &&& r matches Ok(u)
                &&& u matches UartData::Command(c)
                &&& c.opcode.raw() == le_u16_of(d.subrange(1, 3))
                &&& c.params_len == d[3]
                &&& c.params@ == d.subrange(4, d.len() as int)
            }
        }),
{
    let data = &packet.data.0;
    if data.len() == 0 {
        return Ok(UartData::Todos);
    }
    let tp = data[0];
    let uart_type = match UartPacketType::try_from(tp) {
        Ok(t) => t,
        Err(e) => {
            return Err(e);
        },
    };
    match uart_type {
        UartPacketType::Cmd => {
            let rest = vstd::slice::slice_subrange(data.as_slice(), 1, data.len());
            match hci::Command::from(rest) {
                Ok(cmd) => {
                    proof {
                        let d = packet@.data;
                        assert(rest@.subrange(0, 2) =~= d.subrange(1, 3));
                        assert(rest@.subrange(3, rest@.len() as int) =~= d.subrange(
                            4,
                            d.len() as int,
                        ));
                    }
                    Ok(UartData::Command(cmd))
                },
                Err(e) => Err(e),
            }
        },
        _ => Ok(UartData::Todos),
    }
}

} // verus!
