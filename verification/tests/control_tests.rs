use moonshine::control::{
    ControlAction, ControlMessage, ControlMessageType, ControlStreamState,
};
use moonshine::session::SessionKeys;

fn keys(key: &[u8]) -> SessionKeys {
    SessionKeys {
        remote_input_key: key.to_vec(),
        remote_input_key_id: 0,
    }
}

/// Frame a payload-free message of the given wire type.
fn bare_message(type_value: u16) -> Vec<u8> {
    let mut out = Vec::new();
    out.extend_from_slice(&type_value.to_le_bytes());
    out.extend_from_slice(&0u16.to_le_bytes());
    out
}

/// Build an encrypted envelope around `plaintext` with AES-128-GCM.
fn envelope(plaintext: &[u8], key: &[u8], sequence_number: u32) -> Vec<u8> {
    let mut iv = [0u8; 16];
    iv[0] = sequence_number as u8;
    let mut tag = [0u8; 16];
    let ciphertext = openssl::symm::encrypt_aead(
        openssl::symm::Cipher::aes_128_gcm(),
        key,
        Some(&iv),
        &[],
        plaintext,
        &mut tag,
    )
    .unwrap();
    let mut out = Vec::new();
    out.extend_from_slice(&1u16.to_le_bytes());
    let length = (4 + 16 + ciphertext.len()) as u16;
    out.extend_from_slice(&length.to_le_bytes());
    out.extend_from_slice(&sequence_number.to_le_bytes());
    out.extend_from_slice(&tag);
    out.extend_from_slice(&ciphertext);
    out
}

#[test]
fn try_from_knows_the_registry() {
    assert!(matches!(
        ControlMessageType::try_from(0x0001),
        Ok(ControlMessageType::Encrypted)
    ));
    assert!(matches!(
        ControlMessageType::try_from(0x0200),
        Ok(ControlMessageType::Ping)
    ));
    assert!(matches!(
        ControlMessageType::try_from(0x0307),
        Ok(ControlMessageType::StartB)
    ));
    assert!(ControlMessageType::try_from(0x0002).is_err());
    assert!(ControlMessageType::try_from(0xffff).is_err());
}

#[test]
fn from_bytes_parses_bare_messages() {
    assert!(matches!(
        ControlMessage::from_bytes(&bare_message(0x0200)),
        Ok(ControlMessage::Ping)
    ));
    assert!(matches!(
        ControlMessage::from_bytes(&bare_message(0x0100)),
        Ok(ControlMessage::Termination)
    ));
    assert!(matches!(
        ControlMessage::from_bytes(&bare_message(0x0302)),
        Ok(ControlMessage::RequestIdrFrame)
    ));
    assert!(matches!(
        ControlMessage::from_bytes(&bare_message(0x0307)),
        Ok(ControlMessage::StartB)
    ));
}

#[test]
fn from_bytes_rejects_malformed_buffers() {
    // too short for a header
    assert!(ControlMessage::from_bytes(&[0x00, 0x02, 0x00]).is_err());
    // reported length disagrees with the buffer
    assert!(ControlMessage::from_bytes(&[0x00, 0x02, 0x01, 0x00]).is_err());
    // unknown type
    assert!(ControlMessage::from_bytes(&[0x02, 0x00, 0x00, 0x00]).is_err());
    // encrypted envelope below the minimum length
    let mut short = Vec::new();
    short.extend_from_slice(&1u16.to_le_bytes());
    short.extend_from_slice(&20u16.to_le_bytes());
    short.extend_from_slice(&[0u8; 20]);
    assert!(ControlMessage::from_bytes(&short).is_err());
}

#[test]
fn from_bytes_reads_an_input_event() {
    let mut buffer = Vec::new();
    buffer.extend_from_slice(&0x0206u16.to_le_bytes());
    buffer.extend_from_slice(&8u16.to_le_bytes());
    buffer.extend_from_slice(&4u32.to_be_bytes());
    buffer.extend_from_slice(&[0xde, 0xad, 0xbe, 0xef]);
    match ControlMessage::from_bytes(&buffer).unwrap() {
        ControlMessage::InputData(payload) => {
            assert_eq!(payload, vec![0xde, 0xad, 0xbe, 0xef]);
        }
        _ => panic!("expected an input event"),
    }

    // the big-endian prefix must match the remaining bytes
    let mut wrong = Vec::new();
    wrong.extend_from_slice(&0x0206u16.to_le_bytes());
    wrong.extend_from_slice(&8u16.to_le_bytes());
    wrong.extend_from_slice(&5u32.to_be_bytes());
    wrong.extend_from_slice(&[0xde, 0xad, 0xbe, 0xef]);
    assert!(ControlMessage::from_bytes(&wrong).is_err());
}

#[test]
fn from_bytes_reads_an_encrypted_envelope() {
    let key = [7u8; 16];
    let buffer = envelope(&bare_message(0x0200), &key, 0x01020304);
    match ControlMessage::from_bytes(&buffer).unwrap() {
        ControlMessage::Encrypted(message) => {
            assert_eq!(message.sequence_number, 0x01020304);
            assert_eq!(message.tag.len(), 16);
            assert_eq!(message.payload.len(), 4);
            assert_eq!(message.length as usize, buffer.len() - 4);
        }
        _ => panic!("expected an encrypted envelope"),
    }
}

#[test]
fn encrypted_ping_resets_the_deadline() {
    let key = [0x11u8; 16];
    let mut state = ControlStreamState::new(keys(&key), 2000, 0);
    assert_eq!(state.stop_deadline_ms, 2000);
    let datagram = envelope(&bare_message(0x0200), &key, 5);
    let action = state.handle_datagram(1500, &datagram);
    assert!(matches!(action, ControlAction::Ignored));
    assert_eq!(state.stop_deadline_ms, 3500);
}

#[test]
fn envelope_sequence_numbers_may_arrive_in_any_order() {
    // the IV is derived per message, so later sequence numbers decrypt
    // fine before earlier ones
    let key = [0x22u8; 16];
    let mut state = ControlStreamState::new(keys(&key), 2000, 0);
    for sequence in [9u32, 3, 200, 4, 4] {
        let datagram = envelope(&bare_message(0x0200), &key, sequence);
        let action = state.handle_datagram(100, &datagram);
        assert!(matches!(action, ControlAction::Ignored));
    }
}

#[test]
fn bad_tag_is_dropped_without_state_change() {
    let key = [0x33u8; 16];
    let mut state = ControlStreamState::new(keys(&key), 2000, 0);
    let mut datagram = envelope(&bare_message(0x0200), &key, 1);
    let last = datagram.len() - 1;
    datagram[last] ^= 0xff;
    let action = state.handle_datagram(1500, &datagram);
    assert!(matches!(action, ControlAction::Rejected));
    assert_eq!(state.stop_deadline_ms, 2000);
}

#[test]
fn wrong_key_fails_decryption() {
    let key = [0x44u8; 16];
    let other = [0x55u8; 16];
    let mut state = ControlStreamState::new(keys(&other), 2000, 0);
    let datagram = envelope(&bare_message(0x0200), &key, 1);
    let action = state.handle_datagram(1500, &datagram);
    assert!(matches!(action, ControlAction::Rejected));
}

#[test]
fn key_rotation_switches_the_decryption_key() {
    let old_key = [0x66u8; 16];
    let new_key = [0x77u8; 16];
    let mut state = ControlStreamState::new(keys(&old_key), 2000, 0);
    state.update_keys(keys(&new_key));
    // a ciphertext under the new key now decrypts
    let datagram = envelope(&bare_message(0x0200), &new_key, 1);
    assert!(matches!(
        state.handle_datagram(100, &datagram),
        ControlAction::Ignored
    ));
    // one under the old key no longer does
    let datagram = envelope(&bare_message(0x0200), &old_key, 2);
    assert!(matches!(
        state.handle_datagram(100, &datagram),
        ControlAction::Rejected
    ));
}

#[test]
fn dispatch_routes_each_message() {
    let key = [0x42u8; 16];
    let mut state = ControlStreamState::new(keys(&key), 2000, 0);

    assert!(matches!(
        state.handle_datagram(0, &bare_message(0x0302)),
        ControlAction::RequestIdr
    ));
    assert!(matches!(
        state.handle_datagram(0, &bare_message(0x0301)),
        ControlAction::RequestIdr
    ));
    assert!(matches!(
        state.handle_datagram(0, &bare_message(0x0307)),
        ControlAction::StartStreams
    ));
    assert!(matches!(
        state.handle_datagram(0, &bare_message(0x0100)),
        ControlAction::Ignored
    ));
    assert!(matches!(
        state.handle_datagram(0, &bare_message(0x0305)),
        ControlAction::Ignored
    ));

    let mut input = Vec::new();
    input.extend_from_slice(&0x0206u16.to_le_bytes());
    input.extend_from_slice(&8u16.to_le_bytes());
    input.extend_from_slice(&4u32.to_be_bytes());
    input.extend_from_slice(&[1, 2, 3, 4]);
    match state.handle_datagram(0, &input) {
        ControlAction::ForwardInput(payload) => assert_eq!(payload, vec![1, 2, 3, 4]),
        _ => panic!("expected the input payload"),
    }

    // an encrypted input event is forwarded after decryption
    let datagram = envelope(&input, &key, 9);
    match state.handle_datagram(0, &datagram) {
        ControlAction::ForwardInput(payload) => assert_eq!(payload, vec![1, 2, 3, 4]),
        _ => panic!("expected the decrypted input payload"),
    }
}

#[test]
fn nested_envelope_is_rejected() {
    let key = [0x13u8; 16];
    let mut state = ControlStreamState::new(keys(&key), 2000, 0);
    let inner = envelope(&bare_message(0x0200), &key, 1);
    let outer = envelope(&inner, &key, 2);
    assert!(matches!(
        state.handle_datagram(0, &outer),
        ControlAction::Rejected
    ));
}

#[test]
fn keepalive_deadline_expires_without_ping() {
    let key = [0x01u8; 16];
    let state = ControlStreamState::new(keys(&key), 2000, 0);
    assert!(!state.should_stop(1999));
    assert!(!state.should_stop(2000));
    assert!(state.should_stop(2001));
}

#[test]
fn ping_keeps_the_session_alive() {
    let key = [0x02u8; 16];
    let mut state = ControlStreamState::new(keys(&key), 2000, 0);
    let action = state.handle_datagram(1800, &bare_message(0x0200));
    assert!(matches!(action, ControlAction::Ignored));
    assert!(!state.should_stop(2001));
    assert!(state.should_stop(3801));
}
