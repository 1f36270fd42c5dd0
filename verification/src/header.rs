//! The 48-byte detector header and the 8240-byte packet that carries it.
//!
//! A packet is one UDP datagram: the header, then 8192 bytes of image data.
//! All header fields are little-endian and packed in declaration order, with
//! no padding.

use vstd::prelude::*;
use crate::wire::{append_le, le_bytes, le_value, lemma_le_bytes_len, lemma_le_bytes_of_value,
    lemma_le_value_bound, lemma_le_value_of_bytes, lemma_radix_values, read_le};

verus! {

/// Bytes of an encoded header.
pub const HEADER_SIZE: usize = 48;

/// Bytes of image data in one packet.
pub const PAYLOAD_SIZE: usize = 8192;

/// Bytes of one packet on the wire.
pub const PACKET_SIZE: usize = 8240;

/// Packets that make up one frame.
pub const PACKETS_PER_FRAME: u32 = 64;

/// The header at the front of every detector packet.
#[derive(Clone, Copy, Debug, PartialEq, Eq, Structural)]
pub struct SlsDetectorHeader {
    /// Frame number to which the packet belongs.
    pub frame_number: u64,
    /// Measured exposure time of the frame, in units of 100 ns.
    pub exposure_length: u32,
    /// Index of the packet within its frame.
    pub packet_number: u32,
    /// Bunch identification number received by the detector at the moment of
    /// frame acquisition.
    pub bunch_id: u64,
    /// Time at the start of the exposure since the start of the measurement,
    /// in units of 100 ns.
    pub timestamp: u64,
    /// Identifier of the module that sent the packet.
    pub module_id: u16,
    /// Row of the module in the detector tiling.
    pub row: u16,
    /// Column of the module in the detector tiling.
    pub column: u16,
    /// Reserved.
    pub det_spec_2: u16,
    /// Metadata of the data acquisition side.
    pub daq_info: u32,
    /// Reserved.
    pub det_spec_4: u16,
    /// Code of the detector family.
    pub det_type: u8,
    /// Version of the header layout.
    pub version: u8,
}

/// Why a datagram is not a packet.
#[derive(Clone, Copy, Debug, PartialEq, Eq, Structural)]
pub enum PacketError {
    /// The datagram is not 8240 bytes long.
    WrongLength,
    /// The header names a packet number of 64 or more.
    PacketNumberOutOfRange,
}

/// The number held by the `width` bytes of `bytes` that start at `offset`.
pub open spec fn field(bytes: Seq<u8>, offset: int, width: int) -> nat {
    le_value(bytes.subrange(offset, offset + width))
}

impl SlsDetectorHeader {
    /// The header with every field zero.
    pub open spec fn zero() -> SlsDetectorHeader {
        SlsDetectorHeader {
            frame_number: 0,
            exposure_length: 0,
            packet_number: 0,
            bunch_id: 0,
            timestamp: 0,
            module_id: 0,
            row: 0,
            column: 0,
            det_spec_2: 0,
            daq_info: 0,
            det_spec_4: 0,
            det_type: 0,
            version: 0,
        }
    }

    /// The 48 bytes that stand for this header on the wire.
    pub open spec fn encoding(self) -> Seq<u8> {
        le_bytes(self.frame_number as nat, 8) + le_bytes(self.exposure_length as nat, 4)
            + le_bytes(self.packet_number as nat, 4) + le_bytes(self.bunch_id as nat, 8)
            + le_bytes(self.timestamp as nat, 8) + le_bytes(self.module_id as nat, 2) + le_bytes(
            self.row as nat,
            2,
        ) + le_bytes(self.column as nat, 2) + le_bytes(self.det_spec_2 as nat, 2) + le_bytes(
            self.daq_info as nat,
            4,
        ) + le_bytes(self.det_spec_4 as nat, 2) + le_bytes(self.det_type as nat, 1) + le_bytes(
            self.version as nat,
            1,
        )
    }

    /// The header that the first 48 bytes of `bytes` stand for.
    pub open spec fn decoding(bytes: Seq<u8>) -> SlsDetectorHeader {
        SlsDetectorHeader {
            frame_number: field(bytes, 0, 8) as u64,
            exposure_length: field(bytes, 8, 4) as u32,
            packet_number: field(bytes, 12, 4) as u32,
            bunch_id: field(bytes, 16, 8) as u64,
            timestamp: field(bytes, 24, 8) as u64,
            module_id: field(bytes, 32, 2) as u16,
            row: field(bytes, 34, 2) as u16,
            column: field(bytes, 36, 2) as u16,
            det_spec_2: field(bytes, 38, 2) as u16,
            daq_info: field(bytes, 40, 4) as u32,
            det_spec_4: field(bytes, 44, 2) as u16,
            det_type: field(bytes, 46, 1) as u8,
            version: field(bytes, 47, 1) as u8,
        }
    }

    /// Returns the header with every field zero.
    pub fn zeroed() -> (header: SlsDetectorHeader)
        ensures
            header == SlsDetectorHeader::zero(),
    {
        SlsDetectorHeader {
            frame_number: 0,
            exposure_length: 0,
            packet_number: 0,
            bunch_id: 0,
            timestamp: 0,
            module_id: 0,
            row: 0,
            column: 0,
            det_spec_2: 0,
            daq_info: 0,
            det_spec_4: 0,
            det_type: 0,
            version: 0,
        }
    }

    /// Appends the 48 bytes of this header to `out`.
    pub fn encode_into(&self, out: &mut Vec<u8>)
        ensures
            final(out)@ == old(out)@ + self.encoding(),
    {
        append_le(out, self.frame_number as u128, 8);
        append_le(out, self.exposure_length as u128, 4);
        append_le(out, self.packet_number as u128, 4);
        append_le(out, self.bunch_id as u128, 8);
        append_le(out, self.timestamp as u128, 8);
        append_le(out, self.module_id as u128, 2);
        append_le(out, self.row as u128, 2);
        append_le(out, self.column as u128, 2);
        append_le(out, self.det_spec_2 as u128, 2);
        append_le(out, self.daq_info as u128, 4);
        append_le(out, self.det_spec_4 as u128, 2);
        append_le(out, self.det_type as u128, 1);
        append_le(out, self.version as u128, 1);
        assert(out@ =~= old(out)@ + self.encoding());
    }

    /// Returns the 48 bytes that stand for this header on the wire.
    pub fn encode(&self) -> (bytes: Vec<u8>)
        ensures
            bytes@ == self.encoding(),
            bytes@.len() == HEADER_SIZE,
    {
        let mut bytes: Vec<u8> = Vec::new();
        self.encode_into(&mut bytes);
        proof {
            lemma_encoding_len(*self);
            assert(bytes@ =~= self.encoding());
        }
        bytes
    }

    /// Reads a header from exactly 48 bytes: `None` for any other length.
    pub fn decode(bytes: &[u8]) -> (header: Option<SlsDetectorHeader>)
        ensures
            bytes@.len() == HEADER_SIZE ==> header == Some(SlsDetectorHeader::decoding(bytes@)),
            bytes@.len() != HEADER_SIZE ==> header.is_none(),
    {
        if bytes.len() != HEADER_SIZE {
            return None;
        }
        Some(SlsDetectorHeader::decode_prefix(bytes))
    }

    /// Reads a header from the first 48 bytes of `bytes`.
    pub fn decode_prefix(bytes: &[u8]) -> (header: SlsDetectorHeader)
        requires
            bytes@.len() >= HEADER_SIZE,
        ensures
            header == SlsDetectorHeader::decoding(bytes@),
    {
        proof {
            lemma_radix_values();
        }
        SlsDetectorHeader {
            frame_number: read_le(bytes, 0, 8) as u64,
            exposure_length: read_le(bytes, 8, 4) as u32,
            packet_number: read_le(bytes, 12, 4) as u32,
            bunch_id: read_le(bytes, 16, 8) as u64,
            timestamp: read_le(bytes, 24, 8) as u64,
            module_id: read_le(bytes, 32, 2) as u16,
            row: read_le(bytes, 34, 2) as u16,
            column: read_le(bytes, 36, 2) as u16,
            det_spec_2: read_le(bytes, 38, 2) as u16,
            daq_info: read_le(bytes, 40, 4) as u32,
            det_spec_4: read_le(bytes, 44, 2) as u16,
            det_type: read_le(bytes, 46, 1) as u8,
            version: read_le(bytes, 47, 1) as u8,
        }
    }
}

/// What is wrong with a datagram, if anything: the length is tested first,
/// then the packet number.
pub open spec fn packet_fault(datagram: Seq<u8>) -> Option<PacketError> {
    if datagram.len() != PACKET_SIZE {
        Some(PacketError::WrongLength)
    } else if SlsDetectorHeader::decoding(datagram).packet_number >= PACKETS_PER_FRAME {
        Some(PacketError::PacketNumberOutOfRange)
    } else {
        None
    }
}

/// The image data that a packet carries: everything behind the header.
pub open spec fn packet_payload(datagram: Seq<u8>) -> Seq<u8> {
    datagram.subrange(HEADER_SIZE as int, datagram.len() as int)
}

/// The datagram that carries `payload` under `header`.
pub open spec fn packet_bytes(header: SlsDetectorHeader, payload: Seq<u8>) -> Seq<u8> {
    header.encoding() + payload
}

/// Splits a datagram into its header and its payload, without copying the
/// payload. A datagram of another length than 8240 bytes is refused, and so
/// is one whose packet number is 64 or more.
pub fn decode_packet(datagram: &[u8]) -> (result: Result<(SlsDetectorHeader, &[u8]), PacketError>)
    ensures
        match packet_fault(datagram@) {
            Some(fault) => result == Err::<(SlsDetectorHeader, &[u8]), PacketError>(fault),
            None => result matches Ok((header, payload)) && header == SlsDetectorHeader::decoding(
                datagram@,
            ) && payload@ == packet_payload(datagram@),
        },
{
    if datagram.len() != PACKET_SIZE {
        return Err(PacketError::WrongLength);
    }
    let header = SlsDetectorHeader::decode_prefix(datagram);
    if header.packet_number >= PACKETS_PER_FRAME {
        return Err(PacketError::PacketNumberOutOfRange);
    }
    let payload = vstd::slice::slice_subrange(datagram, HEADER_SIZE, PACKET_SIZE);
    Ok((header, payload))
}

/// Builds the datagram that carries `payload` under `header`.
pub fn encode_packet(header: &SlsDetectorHeader, payload: &[u8]) -> (datagram: Vec<u8>)
    ensures
        datagram@ == packet_bytes(*header, payload@),
        datagram@.len() == HEADER_SIZE + payload@.len(),
{
    let mut datagram: Vec<u8> = Vec::new();
    header.encode_into(&mut datagram);
    proof {
        lemma_encoding_len(*header);
        assert(datagram@ =~= header.encoding());
    }
    let count: usize = payload.len();
    let mut at: usize = 0;
    while at < count
        invariant
            at <= count == payload@.len(),
            datagram@ == header.encoding() + payload@.subrange(0, at as int),
        decreases count - at,
    {
        datagram.push(payload[at]);
        at = at + 1;
        assert(datagram@ =~= header.encoding() + payload@.subrange(0, at as int));
    }
    assert(payload@.subrange(0, count as int) =~= payload@);
    datagram
}

/// An encoded header is 48 bytes long.
pub proof fn lemma_encoding_len(header: SlsDetectorHeader)
    ensures
        header.encoding().len() == HEADER_SIZE,
{
    lemma_field_bytes(header);
}

/// Each field lies at its offset in the encoded header.
pub proof fn lemma_field_bytes(header: SlsDetectorHeader)
    ensures
        header.encoding().len() == 48,
        header.encoding().subrange(0, 8) == le_bytes(header.frame_number as nat, 8),
        header.encoding().subrange(8, 12) == le_bytes(header.exposure_length as nat, 4),
        header.encoding().subrange(12, 16) == le_bytes(header.packet_number as nat, 4),
        header.encoding().subrange(16, 24) == le_bytes(header.bunch_id as nat, 8),
        header.encoding().subrange(24, 32) == le_bytes(header.timestamp as nat, 8),
        header.encoding().subrange(32, 34) == le_bytes(header.module_id as nat, 2),
        header.encoding().subrange(34, 36) == le_bytes(header.row as nat, 2),
        header.encoding().subrange(36, 38) == le_bytes(header.column as nat, 2),
        header.encoding().subrange(38, 40) == le_bytes(header.det_spec_2 as nat, 2),
        header.encoding().subrange(40, 44) == le_bytes(header.daq_info as nat, 4),
        header.encoding().subrange(44, 46) == le_bytes(header.det_spec_4 as nat, 2),
        header.encoding().subrange(46, 47) == le_bytes(header.det_type as nat, 1),
        header.encoding().subrange(47, 48) == le_bytes(header.version as nat, 1),
{
    lemma_le_bytes_len(header.frame_number as nat, 8);
    lemma_le_bytes_len(header.exposure_length as nat, 4);
    lemma_le_bytes_len(header.packet_number as nat, 4);
    lemma_le_bytes_len(header.bunch_id as nat, 8);
    lemma_le_bytes_len(header.timestamp as nat, 8);
    lemma_le_bytes_len(header.module_id as nat, 2);
    lemma_le_bytes_len(header.row as nat, 2);
    lemma_le_bytes_len(header.column as nat, 2);
    lemma_le_bytes_len(header.det_spec_2 as nat, 2);
    lemma_le_bytes_len(header.daq_info as nat, 4);
    lemma_le_bytes_len(header.det_spec_4 as nat, 2);
    lemma_le_bytes_len(header.det_type as nat, 1);
    lemma_le_bytes_len(header.version as nat, 1);
    let bytes = header.encoding();
    assert(bytes.subrange(0, 8) =~= le_bytes(header.frame_number as nat, 8));
    assert(bytes.subrange(8, 12) =~= le_bytes(header.exposure_length as nat, 4));
    assert(bytes.subrange(12, 16) =~= le_bytes(header.packet_number as nat, 4));
    assert(bytes.subrange(16, 24) =~= le_bytes(header.bunch_id as nat, 8));
    assert(bytes.subrange(24, 32) =~= le_bytes(header.timestamp as nat, 8));
    assert(bytes.subrange(32, 34) =~= le_bytes(header.module_id as nat, 2));
    assert(bytes.subrange(34, 36) =~= le_bytes(header.row as nat, 2));
    assert(bytes.subrange(36, 38) =~= le_bytes(header.column as nat, 2));
    assert(bytes.subrange(38, 40) =~= le_bytes(header.det_spec_2 as nat, 2));
    assert(bytes.subrange(40, 44) =~= le_bytes(header.daq_info as nat, 4));
    assert(bytes.subrange(44, 46) =~= le_bytes(header.det_spec_4 as nat, 2));
    assert(bytes.subrange(46, 47) =~= le_bytes(header.det_type as nat, 1));
    assert(bytes.subrange(47, 48) =~= le_bytes(header.version as nat, 1));
}

/// Decoding an encoded header gives the header back, and the encoding is 48
/// bytes long.
pub proof fn lemma_header_round_trip(header: SlsDetectorHeader)
    ensures
        header.encoding().len() == HEADER_SIZE,
        SlsDetectorHeader::decoding(header.encoding()) == header,
{
    lemma_field_bytes(header);
    lemma_radix_values();
    lemma_le_value_of_bytes(header.frame_number as nat, 8);
    lemma_le_value_of_bytes(header.exposure_length as nat, 4);
    lemma_le_value_of_bytes(header.packet_number as nat, 4);
    lemma_le_value_of_bytes(header.bunch_id as nat, 8);
    lemma_le_value_of_bytes(header.timestamp as nat, 8);
    lemma_le_value_of_bytes(header.module_id as nat, 2);
    lemma_le_value_of_bytes(header.row as nat, 2);
    lemma_le_value_of_bytes(header.column as nat, 2);
    lemma_le_value_of_bytes(header.det_spec_2 as nat, 2);
    lemma_le_value_of_bytes(header.daq_info as nat, 4);
    lemma_le_value_of_bytes(header.det_spec_4 as nat, 2);
    lemma_le_value_of_bytes(header.det_type as nat, 1);
    lemma_le_value_of_bytes(header.version as nat, 1);
}

/// Encoding the header decoded from 48 bytes gives the bytes back: no two
/// byte strings stand for one header.
pub proof fn lemma_bytes_round_trip(bytes: Seq<u8>)
    requires
        bytes.len() == HEADER_SIZE,
    ensures
        SlsDetectorHeader::decoding(bytes).encoding() == bytes,
{
    lemma_radix_values();
    lemma_part_round_trip(bytes, 0, 8);
    lemma_part_round_trip(bytes, 8, 4);
    lemma_part_round_trip(bytes, 12, 4);
    lemma_part_round_trip(bytes, 16, 8);
    lemma_part_round_trip(bytes, 24, 8);
    lemma_part_round_trip(bytes, 32, 2);
    lemma_part_round_trip(bytes, 34, 2);
    lemma_part_round_trip(bytes, 36, 2);
    lemma_part_round_trip(bytes, 38, 2);
    lemma_part_round_trip(bytes, 40, 4);
    lemma_part_round_trip(bytes, 44, 2);
    lemma_part_round_trip(bytes, 46, 1);
    lemma_part_round_trip(bytes, 47, 1);
    assert(SlsDetectorHeader::decoding(bytes).encoding() =~= bytes);
}

/// The bytes of one field are the bytes of the number they hold.
proof fn lemma_part_round_trip(bytes: Seq<u8>, offset: int, width: int)
    requires
        0 <= offset,
        0 <= width,
        offset + width <= bytes.len(),
    ensures
        le_bytes(field(bytes, offset, width), width as nat) == bytes.subrange(
            offset,
            offset + width,
        ),
        field(bytes, offset, width) < crate::wire::radix(width as nat),
{
    lemma_le_bytes_of_value(bytes.subrange(offset, offset + width));
    lemma_le_value_bound(bytes.subrange(offset, offset + width));
}

/// A datagram built from a header with a packet number below 64 and a payload
/// of 8192 bytes is a packet, and it decodes to that header and payload.
pub proof fn lemma_packet_round_trip(header: SlsDetectorHeader, payload: Seq<u8>)
    requires
        header.packet_number < PACKETS_PER_FRAME,
        payload.len() == PAYLOAD_SIZE,
    ensures
        packet_bytes(header, payload).len() == PACKET_SIZE,
        packet_fault(packet_bytes(header, payload)).is_none(),
        SlsDetectorHeader::decoding(packet_bytes(header, payload)) == header,
        packet_payload(packet_bytes(header, payload)) == payload,
{
    let encoded = header.encoding();
    let datagram = packet_bytes(header, payload);
    assert(encoded.len() == HEADER_SIZE) by {
        lemma_encoding_len(header);
    }
    lemma_concat_parts(encoded, payload);
    assert(SlsDetectorHeader::decoding(datagram) == header) by {
        lemma_decoding_reads_prefix(datagram, encoded);
        lemma_header_round_trip(header);
    }
}

/// The two parts of a concatenation, read back from it.
proof fn lemma_concat_parts(front: Seq<u8>, back: Seq<u8>)
    ensures
        (front + back).len() == front.len() + back.len(),
        (front + back).subrange(0, front.len() as int) == front,
        (front + back).subrange(front.len() as int, (front + back).len() as int) == back,
{
    assert((front + back).subrange(0, front.len() as int) =~= front);
    assert((front + back).subrange(front.len() as int, (front + back).len() as int) =~= back);
}

/// Decoding looks at the first 48 bytes only.
pub proof fn lemma_decoding_reads_prefix(bytes: Seq<u8>, prefix: Seq<u8>)
    requires
        prefix.len() == HEADER_SIZE,
        bytes.len() >= HEADER_SIZE,
        bytes.subrange(0, HEADER_SIZE as int) == prefix,
    ensures
        SlsDetectorHeader::decoding(bytes) == SlsDetectorHeader::decoding(prefix),
{
    assert(bytes.subrange(0, 8) =~= prefix.subrange(0, 8));
    assert(bytes.subrange(8, 12) =~= prefix.subrange(8, 12));
    assert(bytes.subrange(12, 16) =~= prefix.subrange(12, 16));
    assert(bytes.subrange(16, 24) =~= prefix.subrange(16, 24));
    assert(bytes.subrange(24, 32) =~= prefix.subrange(24, 32));
    assert(bytes.subrange(32, 34) =~= prefix.subrange(32, 34));
    assert(bytes.subrange(34, 36) =~= prefix.subrange(34, 36));
    assert(bytes.subrange(36, 38) =~= prefix.subrange(36, 38));
    assert(bytes.subrange(38, 40) =~= prefix.subrange(38, 40));
    assert(bytes.subrange(40, 44) =~= prefix.subrange(40, 44));
    assert(bytes.subrange(44, 46) =~= prefix.subrange(44, 46));
    assert(bytes.subrange(46, 47) =~= prefix.subrange(46, 47));
    assert(bytes.subrange(47, 48) =~= prefix.subrange(47, 48));
}

} // verus!
