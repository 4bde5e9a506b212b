//! The minimal RTP framing in front of every audio shard: a 12-byte
//! header with big-endian sequence number, timestamp and SSRC.

use vstd::prelude::*;
use crate::wire;

verus! {

/// Bytes of the serialized RTP header.
pub const RTP_HEADER_SIZE: usize = 12;

/// The payload type byte of an RTP packet.
#[derive(Clone, Copy, Debug, PartialEq, Eq, Structural)]
pub enum PacketType {
    Video,
    Audio,
}

/// The wire byte of a packet type (`Audio` is 0x61).
pub open spec fn spec_packet_type_value(t: PacketType) -> u8 {
    match t {
        PacketType::Video => 0x00,
        PacketType::Audio => 0x61,
    }
}

/// One RTP header, as it stands in front of a payload shard.
#[derive(Clone, Copy, Debug, PartialEq, Eq, Structural)]
pub struct RtpHeader {
    /// Flags byte; always 0x80 on this stream.
    pub header: u8,
    /// Payload type.
    pub packet_type: PacketType,
    /// Per-datagram sequence number.
    pub sequence_number: u16,
    /// Per-encoded-packet timestamp; all shards of a packet share it.
    pub timestamp: u32,
    /// Synchronization source; always 0 on this stream.
    pub ssrc: u32,
}

/// The 12 bytes a header serializes to.
pub open spec fn spec_serialize_rtp(h: RtpHeader) -> Seq<u8> {
    seq![h.header, spec_packet_type_value(h.packet_type)] + wire::spec_u16_to_be_bytes(
        h.sequence_number,
    ) + wire::spec_u32_to_be_bytes(h.timestamp) + wire::spec_u32_to_be_bytes(h.ssrc)
}

/// The header at the front of `s`, when `s` is long enough and its
/// payload type byte is registered.
pub open spec fn spec_parse_rtp(s: Seq<u8>) -> Option<RtpHeader> {
    if s.len() < 12 {
        None
    } else if s[1] != 0x00 && s[1] != 0x61 {
        None
    } else {
        Some(RtpHeader {
            header: s[0],
            packet_type: if s[1] == 0x00 {
                PacketType::Video
            } else {
                PacketType::Audio
            },
            sequence_number: wire::spec_u16_from_be_bytes(s.subrange(2, 4)),
            timestamp: wire::spec_u32_from_be_bytes(s.subrange(4, 8)),
            ssrc: wire::spec_u32_from_be_bytes(s.subrange(8, 12)),
        })
    }
}

impl RtpHeader {
    /// Append the 12 serialized header bytes to `buffer`.
    pub fn serialize(&self, buffer: &mut Vec<u8>)
        ensures
            final(buffer)@ == old(buffer)@ + spec_serialize_rtp(*self),
    {
        buffer.push(self.header);
        match self.packet_type {
            PacketType::Video => buffer.push(0x00),
            PacketType::Audio => buffer.push(0x61),
        }
        wire::push_u16_be(buffer, self.sequence_number);
        wire::push_u32_be(buffer, self.timestamp);
        wire::push_u32_be(buffer, self.ssrc);
        proof {
            assert(buffer@ =~= old(buffer)@ + spec_serialize_rtp(*self));
        }
    }

    /// Read the header off the front of a datagram.
    pub fn parse(buffer: &[u8]) -> (r: Result<RtpHeader, ()>)
        ensures
            (r is Ok) == (spec_parse_rtp(buffer@) is Some),
            r matches Ok(h) ==> spec_parse_rtp(buffer@) == Some(h),
    {
        if buffer.len() < 12 {
            return Err(());
        }
        let packet_type = if buffer[1] == 0x00 {
            PacketType::Video
        } else if buffer[1] == 0x61 {
            PacketType::Audio
        } else {
            return Err(());
        };
        Ok(RtpHeader {
            header: buffer[0],
            packet_type,
            sequence_number: wire::u16_from_be_pair(buffer, 2),
            timestamp: wire::u32_from_be_quad(buffer, 4),
            ssrc: wire::u32_from_be_quad(buffer, 8),
        })
    }
}

/// Serializing a header and parsing the bytes back yields the same
/// header, whatever payload follows.
pub proof fn lemma_rtp_round_trip(h: RtpHeader, rest: Seq<u8>)
    ensures
        spec_parse_rtp(spec_serialize_rtp(h) + rest) == Some(h),
{
    let s = spec_serialize_rtp(h) + rest;
    assert(s.len() >= 12);
    assert(s[0] == h.header);
    assert(s[1] == spec_packet_type_value(h.packet_type));
    assert(s.subrange(2, 4) =~= wire::spec_u16_to_be_bytes(h.sequence_number));
    assert(s.subrange(4, 8) =~= wire::spec_u32_to_be_bytes(h.timestamp));
    assert(s.subrange(8, 12) =~= wire::spec_u32_to_be_bytes(h.ssrc));
    wire::lemma_u16_be_round_trip(h.sequence_number);
    wire::lemma_u32_be_round_trip(h.timestamp);
    wire::lemma_u32_be_round_trip(h.ssrc);
    match h.packet_type {
        PacketType::Video => {
            assert(s[1] == 0x00);
        },
        PacketType::Audio => {
            assert(s[1] == 0x61);
        },
    }
}

} // verus!
