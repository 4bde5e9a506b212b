use moonshine::audio::{
    encoder_step, is_audio_ping, select_channel_layout, select_sample_rate, AudioPacketizer,
    AudioStreamConfig, EncoderDecision, EncoderPoll,
};
use moonshine::crypto::ecb_round_trip;
use moonshine::fec::{fec_shards, recover_shards};
use moonshine::rtp::{PacketType, RtpHeader};
use moonshine::session::{apply_command, SessionAction, SessionCommand, SessionContext, SessionKeys, SessionState};

fn sample_packet(len: usize) -> Vec<u8> {
    (0..len).map(|i| (i * 7 + 3) as u8).collect()
}

#[test]
fn rtp_header_round_trips() {
    let header = RtpHeader {
        header: 0x80,
        packet_type: PacketType::Audio,
        sequence_number: 0xbeef,
        timestamp: 0x01020304,
        ssrc: 0,
    };
    let mut buffer = Vec::new();
    header.serialize(&mut buffer);
    assert_eq!(buffer.len(), 12);
    assert_eq!(buffer[0], 0x80);
    assert_eq!(buffer[1], 0x61);
    assert_eq!(&buffer[2..4], &[0xbe, 0xef]);
    assert_eq!(&buffer[4..8], &[0x01, 0x02, 0x03, 0x04]);
    assert_eq!(&buffer[8..12], &[0, 0, 0, 0]);
    let parsed = RtpHeader::parse(&buffer).unwrap();
    assert_eq!(parsed, header);

    // a payload after the header does not disturb parsing
    buffer.extend_from_slice(&[9, 9, 9]);
    assert_eq!(RtpHeader::parse(&buffer).unwrap(), header);

    // short buffers and unknown payload types are refused
    assert!(RtpHeader::parse(&buffer[..11]).is_err());
    let mut bad = buffer.clone();
    bad[1] = 0x33;
    assert!(RtpHeader::parse(&bad).is_err());
}

#[test]
fn packetize_emits_six_datagrams_of_the_right_size() {
    let packet = sample_packet(100);
    let config = AudioStreamConfig { packet_duration: 5 };
    let mut packetizer = AudioPacketizer::new(config);
    let datagrams = packetizer.packetize(&packet);
    // ceil(100 / 4) = 25 payload bytes behind a 12-byte header
    assert_eq!(datagrams.len(), 6);
    for datagram in &datagrams {
        assert_eq!(datagram.len(), 12 + 25);
    }
    // an uneven packet length pads the last shard
    let packet = sample_packet(13);
    let datagrams = packetizer.packetize(&packet);
    assert_eq!(datagrams.len(), 6);
    for datagram in &datagrams {
        assert_eq!(datagram.len(), 12 + 4);
    }
}

#[test]
fn packetize_carries_the_packet_bytes_in_the_data_shards() {
    let packet = sample_packet(64);
    let config = AudioStreamConfig { packet_duration: 5 };
    let mut packetizer = AudioPacketizer::new(config);
    let datagrams = packetizer.packetize(&packet);
    let mut rebuilt = Vec::new();
    for datagram in datagrams.iter().take(4) {
        rebuilt.extend_from_slice(&datagram[12..]);
    }
    assert_eq!(rebuilt, packet);
}

#[test]
fn packetize_sequences_and_timestamps_advance() {
    let packet = sample_packet(40);
    let config = AudioStreamConfig { packet_duration: 7 };
    let mut packetizer = AudioPacketizer::new(config);

    let first = packetizer.packetize(&packet);
    let second = packetizer.packetize(&packet);
    let mut expected_sequence = 0u16;
    for datagram in first.iter().chain(second.iter()) {
        let header = RtpHeader::parse(datagram).unwrap();
        assert_eq!(header.header, 0x80);
        assert_eq!(header.packet_type, PacketType::Audio);
        assert_eq!(header.ssrc, 0);
        assert_eq!(header.sequence_number, expected_sequence);
        expected_sequence += 1;
    }
    // all shards of a packet share its timestamp; it advances by one
    // packet duration per packet
    let ts_first = RtpHeader::parse(&first[0]).unwrap().timestamp;
    for datagram in &first {
        assert_eq!(RtpHeader::parse(datagram).unwrap().timestamp, ts_first);
    }
    let ts_second = RtpHeader::parse(&second[0]).unwrap().timestamp;
    assert_eq!(ts_first, 0);
    assert_eq!(ts_second, 7);
    assert_eq!(packetizer.sequence_number, 12);
    assert_eq!(packetizer.timestamp, 14);
}

#[test]
fn fec_parity_matches_the_coding_crate() {
    let packet = sample_packet(32);
    let shards = fec_shards(&packet);
    assert_eq!(shards.len(), 6);
    // the first four shards carry the packet, the parity differs from
    // plain data
    let rs = reed_solomon_erasure::galois_8::ReedSolomon::new(4, 2).unwrap();
    let mut expected: Vec<Vec<u8>> = (0..4).map(|i| packet[i * 8..(i + 1) * 8].to_vec()).collect();
    expected.push(vec![0u8; 8]);
    expected.push(vec![0u8; 8]);
    rs.encode(&mut expected).unwrap();
    assert_eq!(shards, expected);
    assert!(rs.verify(&shards).unwrap());
}

#[test]
fn erasing_any_two_shards_reconstructs_the_packet() {
    let packet = sample_packet(41);
    let shards = fec_shards(&packet);
    for first in 0..6 {
        for second in (first + 1)..6 {
            let mut damaged: Vec<Option<Vec<u8>>> = shards.iter().cloned().map(Some).collect();
            damaged[first] = None;
            damaged[second] = None;
            recover_shards(&mut damaged).unwrap();
            for i in 0..6 {
                assert_eq!(damaged[i].as_ref().unwrap(), &shards[i]);
            }
        }
    }
}

#[test]
fn too_few_shards_cannot_be_reconstructed() {
    let packet = sample_packet(41);
    let shards = fec_shards(&packet);
    let mut damaged: Vec<Option<Vec<u8>>> = shards.iter().cloned().map(Some).collect();
    damaged[0] = None;
    damaged[2] = None;
    damaged[5] = None;
    assert!(recover_shards(&mut damaged).is_err());

    // shards of unequal length are refused
    let mut uneven: Vec<Option<Vec<u8>>> = shards.iter().cloned().map(Some).collect();
    uneven[3] = Some(vec![0u8; 1]);
    assert!(recover_shards(&mut uneven).is_err());
}

#[test]
fn aes_ecb_round_trip_returns_the_plaintext() {
    let key = [0x42u8; 16];
    for blocks in [1usize, 2, 4] {
        let plaintext = sample_packet(16 * blocks);
        assert_eq!(ecb_round_trip(&plaintext, &key), plaintext);
    }
}

#[test]
fn sample_rate_prefers_the_highest() {
    assert_eq!(select_sample_rate(&vec![]), 44100);
    assert_eq!(select_sample_rate(&vec![8000, 48000, 44100]), 48000);
    assert_eq!(select_sample_rate(&vec![22050]), 22050);
}

#[test]
fn channel_layout_prefers_the_most_channels() {
    assert_eq!(select_channel_layout(&vec![]), 2);
    assert_eq!(select_channel_layout(&vec![1, 6, 2]), 6);
}

#[test]
fn ping_datagram_is_recognized() {
    assert!(is_audio_ping(b"PING"));
    assert!(!is_audio_ping(b"PONG"));
    assert!(!is_audio_ping(b"PIN"));
    assert!(!is_audio_ping(b"PINGG"));
    assert!(!is_audio_ping(b""));
}

#[test]
fn encoder_outcomes_map_to_their_decisions() {
    match encoder_step(EncoderPoll::Packet(vec![1, 2, 3])) {
        EncoderDecision::SendPacket(packet) => assert_eq!(packet, vec![1, 2, 3]),
        _ => panic!("expected the packet to be sent"),
    }
    assert!(matches!(
        encoder_step(EncoderPoll::NeedsMoreInput),
        EncoderDecision::WaitForMoreInput
    ));
    assert!(matches!(
        encoder_step(EncoderPoll::EndOfStream),
        EncoderDecision::FinishCleanly
    ));
    assert!(matches!(
        encoder_step(EncoderPoll::Failed),
        EncoderDecision::FailStream
    ));
}

#[test]
fn session_commands_drive_the_streams() {
    let context = SessionContext {
        application_id: 1,
        resolution: (1920, 1080),
        refresh_rate: 60,
        keys: SessionKeys {
            remote_input_key: vec![0u8; 16],
            remote_input_key_id: 0,
        },
    };
    let mut state = SessionState {
        context,
        has_video: false,
        has_audio: false,
        has_control: false,
    };

    // keys cannot be updated before the streams exist
    let new_keys = SessionKeys {
        remote_input_key: vec![9u8; 16],
        remote_input_key_id: 1,
    };
    let action = apply_command(&mut state, SessionCommand::UpdateKeys(new_keys.duplicate()));
    assert!(matches!(action, SessionAction::Ignore));
    assert_eq!(state.context.keys.remote_input_key, vec![0u8; 16]);

    let action = apply_command(&mut state, SessionCommand::StartStream);
    assert!(matches!(action, SessionAction::CreateStreams));
    assert!(state.has_video && state.has_audio && state.has_control);

    let action = apply_command(&mut state, SessionCommand::UpdateKeys(new_keys));
    match action {
        SessionAction::ForwardKeys(forwarded) => {
            assert_eq!(forwarded.remote_input_key, vec![9u8; 16]);
            assert_eq!(forwarded.remote_input_key_id, 1);
        }
        _ => panic!("expected the keys to be forwarded"),
    }
    assert_eq!(state.context.keys.remote_input_key, vec![9u8; 16]);

    let action = apply_command(&mut state, SessionCommand::StopStream);
    assert!(matches!(action, SessionAction::TriggerShutdown));
}
