//! The audio stream's verified half: choosing encoder parameters,
//! recognizing the client's PING, and turning each encoded packet into
//! its six RTP-framed FEC shards. The socket, the clock and the codec
//! stay with the runtime around the library.

use vstd::prelude::*;
use crate::fec;
use crate::rtp;
use crate::wire;

verus! {

/// Settings of one audio stream.
#[derive(Clone, Default)]
pub struct AudioStreamConfig {
    /// How much the RTP timestamp advances per encoded packet.
    pub packet_duration: u32,
}

/// Pick the sample rate to encode at: the highest the codec reports,
/// or 44100 Hz when it reports no explicit list.
pub fn select_sample_rate(supported_samplerates: &Vec<u32>) -> (r: u32)
    ensures
        supported_samplerates@.len() == 0 ==> r == 44100,
        supported_samplerates@.len() > 0 ==> supported_samplerates@.contains(r) && (forall|i: int|
            0 <= i < supported_samplerates@.len() ==> supported_samplerates@[i] <= r),
{
    if supported_samplerates.len() == 0 {
        return 44100;
    }
    let mut best: u32 = supported_samplerates[0];
    let mut i: usize = 1;
    while i < supported_samplerates.len()
        invariant
            1 <= i <= supported_samplerates@.len(),
            supported_samplerates@.contains(best),
            forall|j: int| 0 <= j < i ==> supported_samplerates@[j] <= best,
        decreases supported_samplerates@.len() - i,
    {
        if supported_samplerates[i] > best {
            best = supported_samplerates[i];
        }
        i = i + 1;
    }
    best
}

/// Pick the channel layout to encode with, by channel count: the
/// layout with the most channels, or stereo when the codec reports no
/// explicit list.
pub fn select_channel_layout(channel_counts: &Vec<u32>) -> (r: u32)
    ensures
        channel_counts@.len() == 0 ==> r == 2,
        channel_counts@.len() > 0 ==> channel_counts@.contains(r) && (forall|i: int|
            0 <= i < channel_counts@.len() ==> channel_counts@[i] <= r),
{
    if channel_counts.len() == 0 {
        return 2;
    }
    let mut best: u32 = channel_counts[0];
    let mut i: usize = 1;
    while i < channel_counts.len()
        invariant
            1 <= i <= channel_counts@.len(),
            channel_counts@.contains(best),
            forall|j: int| 0 <= j < i ==> channel_counts@[j] <= best,
        decreases channel_counts@.len() - i,
    {
        if channel_counts[i] > best {
            best = channel_counts[i];
        }
        i = i + 1;
    }
    best
}

/// What one poll of the audio encoder yielded.
pub enum EncoderPoll {
    /// A finished compressed packet came out.
    Packet(Vec<u8>),
    /// The encoder needs more input before it can emit a packet.
    NeedsMoreInput,
    /// The encoder reached the end of its stream.
    EndOfStream,
    /// The encoder failed in any other way.
    Failed,
}

/// What the stream loop must do after one poll of the encoder.
pub enum EncoderDecision {
    /// Frame and transmit this packet, then poll again.
    SendPacket(Vec<u8>),
    /// A transient: return and retry at the next tick.
    WaitForMoreInput,
    /// Shut the stream down cleanly.
    FinishCleanly,
    /// Fail the stream.
    FailStream,
}

/// The stream's rule for each encoder outcome: a packet is sent,
/// "needs more input" is a transient to retry next tick, end of
/// stream shuts down cleanly, and any other error fails the stream.
pub fn encoder_step(poll: EncoderPoll) -> (r: EncoderDecision)
    ensures
        match poll {
            EncoderPoll::Packet(p) => r matches EncoderDecision::SendPacket(q) && q@ == p@,
            EncoderPoll::NeedsMoreInput => r is WaitForMoreInput,
            EncoderPoll::EndOfStream => r is FinishCleanly,
            EncoderPoll::Failed => r is FailStream,
        },
{
    match poll {
        EncoderPoll::Packet(packet) => EncoderDecision::SendPacket(packet),
        EncoderPoll::NeedsMoreInput => EncoderDecision::WaitForMoreInput,
        EncoderPoll::EndOfStream => EncoderDecision::FinishCleanly,
        EncoderPoll::Failed => EncoderDecision::FailStream,
    }
}

/// The four bytes of the client's discovery datagram, `PING`.
pub open spec fn spec_ping_message() -> Seq<u8> {
    seq![0x50u8, 0x49u8, 0x4eu8, 0x47u8]
}

/// A datagram on the audio socket announces the client exactly when it
/// is the four bytes `PING`.
pub fn is_audio_ping(data: &[u8]) -> (r: bool)
    ensures
        r == (data@ == spec_ping_message()),
{
    if data.len() != 4 {
        proof {
            assert(data@ != spec_ping_message());
        }
        return false;
    }
    let r = data[0] == 0x50 && data[1] == 0x49 && data[2] == 0x4e && data[3] == 0x47;
    proof {
        if r {
            assert(data@ =~= spec_ping_message());
        } else {
            assert(data@ != spec_ping_message());
        }
    }
    r
}

/// The RTP header of shard `i` of a packet sent at sequence number
/// `seq` and timestamp `ts`.
pub open spec fn spec_shard_header(seq: u16, ts: u32, i: int) -> rtp::RtpHeader {
    rtp::RtpHeader {
        header: 0x80,
        packet_type: rtp::PacketType::Audio,
        sequence_number: wire::spec_wrapping_add_u16(seq, i),
        timestamp: ts,
        ssrc: 0,
    }
}

/// The framing state of one audio stream: sequence number and
/// timestamp advance monotonically as packets go out.
pub struct AudioPacketizer {
    /// Next datagram's sequence number.
    pub sequence_number: u16,
    /// Next packet's timestamp.
    pub timestamp: u32,
    /// The stream's settings.
    pub config: AudioStreamConfig,
}

impl AudioPacketizer {
    /// A fresh stream starts at sequence number 0 and timestamp 0.
    pub fn new(config: AudioStreamConfig) -> (r: AudioPacketizer)
        ensures
            r.sequence_number == 0,
            r.timestamp == 0,
            r.config.packet_duration == config.packet_duration,
    {
        AudioPacketizer { sequence_number: 0, timestamp: 0, config }
    }

    /// Frame one encoded packet: exactly 6 datagrams, each an RTP
    /// header in front of one shard of the packet's codeword, all
    /// sharing this packet's timestamp, with consecutive sequence
    /// numbers. The sequence number advances by 6 and the timestamp by
    /// one packet duration, both wrapping.
    pub fn packetize(&mut self, packet: &[u8]) -> (r: Vec<Vec<u8>>)
        requires
            packet@.len() > 0,
            packet@.len() + 3 <= usize::MAX,
        ensures
            r@.len() == 6,
            forall|i: int|
                0 <= i < 6 ==> (#[trigger] r@[i])@ == rtp::spec_serialize_rtp(
                    spec_shard_header(old(self).sequence_number, old(self).timestamp, i),
                ) + fec::rs_code_4_2(fec::spec_data_shards(packet@))[i],
            forall|i: int|
                0 <= i < 6 ==> (#[trigger] r@[i])@.len() == rtp::RTP_HEADER_SIZE
                    + fec::spec_shard_size(packet@.len() as int),
            final(self).sequence_number == wire::spec_wrapping_add_u16(old(self).sequence_number, 6),
            final(self).timestamp == wire::spec_wrapping_add_u32(
                old(self).timestamp,
                old(self).config.packet_duration as int,
            ),
            final(self).config == old(self).config,
    {
        let shards = fec::fec_shards(packet);
        let mut datagrams: Vec<Vec<u8>> = Vec::new();
        let mut i: usize = 0;
        while i < 6
            invariant
                i <= 6,
                shards@.len() == 6,
                packet@.len() > 0,
                packet@.len() + 3 <= usize::MAX,
                fec::shard_views(shards@) == fec::rs_code_4_2(fec::spec_data_shards(packet@)),
                forall|k: int|
                    0 <= k < 6 ==> (#[trigger] shards@[k])@.len() == fec::spec_shard_size(
                        packet@.len() as int,
                    ),
                datagrams@.len() == i,
                *self == *old(self),
                forall|k: int|
                    0 <= k < i ==> (#[trigger] datagrams@[k])@ == rtp::spec_serialize_rtp(
                        spec_shard_header(old(self).sequence_number, old(self).timestamp, k),
                    ) + fec::rs_code_4_2(fec::spec_data_shards(packet@))[k],
            decreases 6 - i,
        {
            let header = rtp::RtpHeader {
                header: 0x80,
                packet_type: rtp::PacketType::Audio,
                sequence_number: wire::wrapping_add_u16(self.sequence_number, i as u16),
                timestamp: self.timestamp,
                ssrc: 0,
            };
            let mut buffer: Vec<u8> = Vec::new();
            header.serialize(&mut buffer);
            wire::append_bytes(&mut buffer, shards[i].as_slice());
            proof {
                assert(header == spec_shard_header(old(self).sequence_number, old(self).timestamp, i as int));
                assert(shards@[i as int]@ == fec::shard_views(shards@)[i as int]);
            }
            datagrams.push(buffer);
            i = i + 1;
        }
        self.sequence_number = wire::wrapping_add_u16(self.sequence_number, 6);
        self.timestamp = wire::wrapping_add_u32(self.timestamp, self.config.packet_duration);
        proof {
            assert forall|k: int| 0 <= k < 6 implies (#[trigger] datagrams@[k])@.len()
                == rtp::RTP_HEADER_SIZE + fec::spec_shard_size(packet@.len() as int) by {
                assert(datagrams@[k]@ == rtp::spec_serialize_rtp(
                    spec_shard_header(old(self).sequence_number, old(self).timestamp, k),
                ) + fec::rs_code_4_2(fec::spec_data_shards(packet@))[k]);
                assert(fec::rs_code_4_2(fec::spec_data_shards(packet@))[k] == fec::shard_views(
                    shards@,
                )[k]);
                assert(fec::shard_views(shards@)[k] == shards@[k]@);
                assert(rtp::spec_serialize_rtp(
                    spec_shard_header(old(self).sequence_number, old(self).timestamp, k),
                ).len() == 12);
            }
        }
        datagrams
    }
}

} // verus!
