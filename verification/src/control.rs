//! The control channel's wire protocol: framing, the encrypted
//! envelope, and the dispatch decisions of the control loop. Every
//! message starts with a 16-bit little-endian type and a 16-bit
//! little-endian payload length.

use vstd::prelude::*;
use crate::crypto;
use crate::session::SessionKeys;
use crate::wire;

verus! {

/// Bytes of the GCM authentication tag in an encrypted envelope.
pub const ENCRYPTION_TAG_LENGTH: usize = 16;

/// Header, sequence number, tag and at least a message id: the least an
/// encrypted envelope's reported length may be.
pub const MINIMUM_ENCRYPTED_LENGTH: usize = 24;

/// The registered control message types.
#[derive(Clone, Copy, Debug, PartialEq, Eq, Structural)]
pub enum ControlMessageType {
    Encrypted,
    Ping,
    Termination,
    RumbleData,
    LossStats,
    FrameStats,
    InputData,
    InvalidateReferenceFrames,
    RequestIdrFrame,
    StartA,
    StartB,
}

/// The 16-bit wire identifier of each message type.
pub open spec fn spec_type_value(t: ControlMessageType) -> u16 {
    match t {
        ControlMessageType::Encrypted => 0x0001,
        ControlMessageType::Ping => 0x0200,
        ControlMessageType::Termination => 0x0100,
        ControlMessageType::RumbleData => 0x010b,
        ControlMessageType::LossStats => 0x0201,
        ControlMessageType::FrameStats => 0x0204,
        ControlMessageType::InputData => 0x0206,
        ControlMessageType::InvalidateReferenceFrames => 0x0301,
        ControlMessageType::RequestIdrFrame => 0x0302,
        ControlMessageType::StartA => 0x0305,
        ControlMessageType::StartB => 0x0307,
    }
}

/// `v` is the wire identifier of some registered type.
pub open spec fn spec_known_type(v: u16) -> bool {
    exists|t: ControlMessageType| spec_type_value(t) == v
}

impl ControlMessageType {
    /// The type a wire identifier denotes, when it denotes one.
    pub fn try_from(v: u16) -> (r: Result<ControlMessageType, ()>)
        ensures
            (r is Ok) == spec_known_type(v),
            r matches Ok(t) ==> spec_type_value(t) == v,
    {
        proof {
            assert(spec_type_value(ControlMessageType::Encrypted) == 0x0001);
            assert(spec_type_value(ControlMessageType::Ping) == 0x0200);
            assert(spec_type_value(ControlMessageType::Termination) == 0x0100);
            assert(spec_type_value(ControlMessageType::RumbleData) == 0x010b);
            assert(spec_type_value(ControlMessageType::LossStats) == 0x0201);
            assert(spec_type_value(ControlMessageType::FrameStats) == 0x0204);
            assert(spec_type_value(ControlMessageType::InputData) == 0x0206);
            assert(spec_type_value(ControlMessageType::InvalidateReferenceFrames) == 0x0301);
            assert(spec_type_value(ControlMessageType::RequestIdrFrame) == 0x0302);
            assert(spec_type_value(ControlMessageType::StartA) == 0x0305);
            assert(spec_type_value(ControlMessageType::StartB) == 0x0307);
        }
        if v == 0x0001 {
            Ok(ControlMessageType::Encrypted)
        } else if v == 0x0200 {
            Ok(ControlMessageType::Ping)
        } else if v == 0x0100 {
            Ok(ControlMessageType::Termination)
        } else if v == 0x010b {
            Ok(ControlMessageType::RumbleData)
        } else if v == 0x0201 {
            Ok(ControlMessageType::LossStats)
        } else if v == 0x0204 {
            Ok(ControlMessageType::FrameStats)
        } else if v == 0x0206 {
            Ok(ControlMessageType::InputData)
        } else if v == 0x0301 {
            Ok(ControlMessageType::InvalidateReferenceFrames)
        } else if v == 0x0302 {
            Ok(ControlMessageType::RequestIdrFrame)
        } else if v == 0x0305 {
            Ok(ControlMessageType::StartA)
        } else if v == 0x0307 {
            Ok(ControlMessageType::StartB)
        } else {
            proof {
                if spec_known_type(v) {
                    let t = choose|t: ControlMessageType| spec_type_value(t) == v;
                    match t {
                        ControlMessageType::Encrypted => assert(v == 0x0001),
                        ControlMessageType::Ping => assert(v == 0x0200),
                        ControlMessageType::Termination => assert(v == 0x0100),
                        ControlMessageType::RumbleData => assert(v == 0x010b),
                        ControlMessageType::LossStats => assert(v == 0x0201),
                        ControlMessageType::FrameStats => assert(v == 0x0204),
                        ControlMessageType::InputData => assert(v == 0x0206),
                        ControlMessageType::InvalidateReferenceFrames => assert(v == 0x0301),
                        ControlMessageType::RequestIdrFrame => assert(v == 0x0302),
                        ControlMessageType::StartA => assert(v == 0x0305),
                        ControlMessageType::StartB => assert(v == 0x0307),
                    }
                }
            }
            Err(())
        }
    }
}

/// An encrypted envelope: sequence number, GCM tag and ciphertext.
pub struct EncryptedControlMessage {
    /// The reported payload length from the outer header.
    pub length: u16,
    /// 32-bit little-endian sequence number; the IV is derived from it.
    pub sequence_number: u32,
    /// 16-byte GCM authentication tag.
    pub tag: Vec<u8>,
    /// The ciphertext; itself a control message once decrypted.
    pub payload: Vec<u8>,
}

/// A parsed control message.
pub enum ControlMessage {
    Encrypted(EncryptedControlMessage),
    Ping,
    Termination,
    RumbleData,
    LossStats,
    FrameStats,
    InputData(Vec<u8>),
    InvalidateReferenceFrames,
    RequestIdrFrame,
    StartA,
    StartB,
}

/// The wire type field of a framed message.
pub open spec fn wire_type(s: Seq<u8>) -> u16 {
    wire::spec_u16_from_le_bytes(s.subrange(0, 2))
}

/// The wire length field of a framed message.
pub open spec fn wire_length(s: Seq<u8>) -> u16 {
    wire::spec_u16_from_le_bytes(s.subrange(2, 4))
}

/// `s` is a well-formed control message: the reported length equals the
/// remaining buffer, the type is registered, an encrypted envelope has
/// room for sequence number, tag and an inner message, and an input
/// event's big-endian length prefix matches what follows it.
pub open spec fn control_wire_ok(s: Seq<u8>) -> bool {
    &&& s.len() >= 4
    &&& wire_length(s) == s.len() - 4
    &&& spec_known_type(wire_type(s))
    &&& (wire_type(s) == 0x0001 ==> s.len() >= 28)
    &&& (wire_type(s) == 0x0206 ==> s.len() >= 8 && wire::spec_u32_from_be_bytes(s.subrange(4, 8))
        == s.len() - 8)
}

/// `m` is the message the well-formed buffer `s` denotes.
pub open spec fn control_message_denotes(s: Seq<u8>, m: ControlMessage) -> bool {
    match m {
        ControlMessage::Encrypted(e) => {
            &&& wire_type(s) == 0x0001
            &&& e.length == wire_length(s)
            &&& e.sequence_number == wire::spec_u32_from_le_bytes(s.subrange(4, 8))
            &&& e.tag@ == s.subrange(8, 24)
            &&& e.payload@ == s.subrange(24, s.len() as int)
        },
        ControlMessage::Ping => wire_type(s) == 0x0200,
        ControlMessage::Termination => wire_type(s) == 0x0100,
        ControlMessage::RumbleData => wire_type(s) == 0x010b,
        ControlMessage::LossStats => wire_type(s) == 0x0201,
        ControlMessage::FrameStats => wire_type(s) == 0x0204,
        ControlMessage::InputData(p) => wire_type(s) == 0x0206 && p@ == s.subrange(8, s.len() as int),
        ControlMessage::InvalidateReferenceFrames => wire_type(s) == 0x0301,
        ControlMessage::RequestIdrFrame => wire_type(s) == 0x0302,
        ControlMessage::StartA => wire_type(s) == 0x0305,
        ControlMessage::StartB => wire_type(s) == 0x0307,
    }
}

impl ControlMessage {
    /// Parse a framed control message. A buffer is accepted exactly
    /// when it is well formed; a malformed one is reported for the
    /// caller to drop, never to act on.
    pub fn from_bytes(buffer: &[u8]) -> (r: Result<ControlMessage, ()>)
        ensures
            (r is Ok) == control_wire_ok(buffer@),
            r matches Ok(m) ==> control_message_denotes(buffer@, m),
    {
        if buffer.len() < 4 {
            return Err(());
        }
        let length = wire::u16_from_le_pair(buffer, 2);
        if length as usize != buffer.len() - 4 {
            return Err(());
        }
        let type_value = wire::u16_from_le_pair(buffer, 0);
        let message_type = match ControlMessageType::try_from(type_value) {
            Ok(t) => t,
            Err(()) => {
                return Err(());
            },
        };
        match message_type {
            ControlMessageType::Encrypted => {
                if buffer.len() < MINIMUM_ENCRYPTED_LENGTH {
                    return Err(());
                }
                if (length as usize) < MINIMUM_ENCRYPTED_LENGTH {
                    return Err(());
                }
                let sequence_number = wire::u32_from_le_quad(buffer, 4);
                let tag = wire::bytes_range(buffer, 8, 8 + ENCRYPTION_TAG_LENGTH);
                let payload = wire::bytes_range(buffer, 8 + ENCRYPTION_TAG_LENGTH, buffer.len());
                Ok(ControlMessage::Encrypted(EncryptedControlMessage {
                    length,
                    sequence_number,
                    tag,
                    payload,
                }))
            },
            ControlMessageType::Ping => Ok(ControlMessage::Ping),
            ControlMessageType::Termination => Ok(ControlMessage::Termination),
            ControlMessageType::RumbleData => Ok(ControlMessage::RumbleData),
            ControlMessageType::LossStats => Ok(ControlMessage::LossStats),
            ControlMessageType::FrameStats => Ok(ControlMessage::FrameStats),
            ControlMessageType::InputData => {
                if buffer.len() < 8 {
                    return Err(());
                }
                let event_length = wire::u32_from_be_quad(buffer, 4);
                if event_length as usize != buffer.len() - 8 {
                    return Err(());
                }
                Ok(ControlMessage::InputData(wire::bytes_range(buffer, 8, buffer.len())))
            },
            ControlMessageType::InvalidateReferenceFrames => Ok(
                ControlMessage::InvalidateReferenceFrames,
            ),
            ControlMessageType::RequestIdrFrame => Ok(ControlMessage::RequestIdrFrame),
            ControlMessageType::StartA => Ok(ControlMessage::StartA),
            ControlMessageType::StartB => Ok(ControlMessage::StartB),
        }
    }
}

/// The 16-byte GCM IV for sequence number `seq`: its low byte, then
/// fifteen zero bytes.
pub open spec fn spec_gcm_iv(seq: u32) -> Seq<u8> {
    Seq::new(16, |i: int| if i == 0 { (seq % 256) as u8 } else { 0u8 })
}

/// Build the IV an envelope's sequence number dictates.
pub fn gcm_iv(seq: u32) -> (r: Vec<u8>)
    ensures
        r@ == spec_gcm_iv(seq),
{
    let mut iv: Vec<u8> = Vec::new();
    iv.push((seq % 256) as u8);
    let mut i: usize = 1;
    while i < 16
        invariant
            1 <= i <= 16,
            iv@.len() == i,
            forall|j: int| 0 <= j < i ==> iv@[j] == spec_gcm_iv(seq)[j],
        decreases 16 - i,
    {
        iv.push(0u8);
        i = i + 1;
    }
    proof {
        assert(iv@ =~= spec_gcm_iv(seq));
    }
    iv
}

/// Decrypt an encrypted envelope under the session key, deriving the
/// IV from the envelope's own sequence number; a tag mismatch is an
/// error for the caller to drop.
pub fn decrypt_message(message: &EncryptedControlMessage, key: &[u8]) -> (r: Result<Vec<u8>, ()>)
    requires
        key@.len() == 16,
        message.tag@.len() == 16,
    ensures
        (r is Ok) == (crypto::aes_gcm_open(
            key@,
            spec_gcm_iv(message.sequence_number),
            message.payload@,
            message.tag@,
        ) is Some),
        r matches Ok(v) ==> v@ == crypto::aes_gcm_open(
            key@,
            spec_gcm_iv(message.sequence_number),
            message.payload@,
            message.tag@,
        )->Some_0,
{
    let iv = gcm_iv(message.sequence_number);
    crypto::aes_128_gcm_decrypt(key, iv.as_slice(), message.payload.as_slice(), message.tag.as_slice())
}

/// What the control loop tracks between datagrams.
pub struct ControlStreamState {
    /// The session keys current decryptions use.
    pub keys: SessionKeys,
    /// When, in loop-clock milliseconds, the session times out.
    pub stop_deadline_ms: u64,
    /// The keepalive window in milliseconds.
    pub timeout_ms: u64,
}

/// What the control loop must do with one datagram.
pub enum ControlAction {
    /// The datagram is malformed, failed decryption, or nested an
    /// envelope in an envelope: drop it and carry on.
    Rejected,
    /// A known message with nothing to forward.
    Ignored,
    /// Forward an IDR-frame request to the video stream.
    RequestIdr,
    /// Start the audio stream with the current keys, then the video
    /// stream.
    StartStreams,
    /// Hand this input event to the input handler.
    ForwardInput(Vec<u8>),
}

/// The plaintext control message a datagram amounts to under `key`:
/// the datagram itself when well formed and unencrypted; for an
/// envelope, the decryption when the key fits, the tag verifies, and
/// the plaintext is itself a well-formed, unencrypted message.
pub open spec fn effective_plaintext(s: Seq<u8>, key: Seq<u8>) -> Option<Seq<u8>> {
    if !control_wire_ok(s) {
        None
    } else if wire_type(s) == 0x0001 {
        if key.len() != 16 {
            None
        } else {
            match crypto::aes_gcm_open(
                key,
                spec_gcm_iv(wire::spec_u32_from_le_bytes(s.subrange(4, 8))),
                s.subrange(24, s.len() as int),
                s.subrange(8, 24),
            ) {
                Some(pt) => if control_wire_ok(pt) && wire_type(pt) != 0x0001 {
                    Some(pt)
                } else {
                    None
                },
                None => None,
            }
        }
    } else {
        Some(s)
    }
}

impl ControlStreamState {
    /// A fresh control stream: the keepalive deadline starts one full
    /// window from now.
    pub fn new(keys: SessionKeys, timeout_ms: u64, now_ms: u64) -> (r: ControlStreamState)
        ensures
            r.keys@ == keys@,
            r.timeout_ms == timeout_ms,
            r.stop_deadline_ms == wire::spec_sat_add_u64(now_ms, timeout_ms),
    {
        ControlStreamState { keys, stop_deadline_ms: wire::sat_add_u64(now_ms, timeout_ms), timeout_ms }
    }

    /// Replace the session keys; later decryptions use the new key.
    pub fn update_keys(&mut self, keys: SessionKeys)
        ensures
            final(self).keys@ == keys@,
            final(self).stop_deadline_ms == old(self).stop_deadline_ms,
            final(self).timeout_ms == old(self).timeout_ms,
    {
        self.keys = keys;
    }

    /// The keepalive window has passed without a ping.
    pub fn should_stop(&self, now_ms: u64) -> (r: bool)
        ensures
            r == (now_ms > self.stop_deadline_ms),
    {
        now_ms > self.stop_deadline_ms
    }

    /// Take one datagram: parse it, decrypt an envelope under the
    /// current keys, and dispatch. A ping resets the keepalive
    /// deadline; nothing else moves it. Whatever cannot be read is
    /// rejected for the loop to drop; rejection never changes state.
    pub fn handle_datagram(&mut self, now_ms: u64, data: &[u8]) -> (r: ControlAction)
        ensures
            final(self).keys@ == old(self).keys@,
            final(self).timeout_ms == old(self).timeout_ms,
            (r is Rejected) == (effective_plaintext(data@, old(self).keys.remote_input_key@) is None),
            effective_plaintext(data@, old(self).keys.remote_input_key@) is None ==> final(self).stop_deadline_ms
                == old(self).stop_deadline_ms,
            effective_plaintext(data@, old(self).keys.remote_input_key@) matches Some(m) ==> {
                &&& (wire_type(m) == 0x0200 ==> final(self).stop_deadline_ms == wire::spec_sat_add_u64(
                    now_ms,
                    old(self).timeout_ms,
                ) && r is Ignored)
                &&& (wire_type(m) != 0x0200 ==> final(self).stop_deadline_ms == old(self).stop_deadline_ms)
                &&& ((wire_type(m) == 0x0302 || wire_type(m) == 0x0301) ==> r is RequestIdr)
                &&& (wire_type(m) == 0x0307 ==> r is StartStreams)
                &&& (wire_type(m) == 0x0206 ==> (r matches ControlAction::ForwardInput(p) && p@
                    == m.subrange(8, m.len() as int)))
                &&& ((wire_type(m) == 0x0100 || wire_type(m) == 0x010b || wire_type(m) == 0x0201
                    || wire_type(m) == 0x0204 || wire_type(m) == 0x0305) ==> r is Ignored)
            },
    {
        let parsed = match ControlMessage::from_bytes(data) {
            Ok(m) => m,
            Err(()) => {
                return ControlAction::Rejected;
            },
        };
        let message = match parsed {
            ControlMessage::Encrypted(envelope) => {
                if self.keys.remote_input_key.len() != 16 {
                    return ControlAction::Rejected;
                }
                let plaintext = match decrypt_message(&envelope, self.keys.remote_input_key.as_slice()) {
                    Ok(p) => p,
                    Err(()) => {
                        return ControlAction::Rejected;
                    },
                };
                let inner = match ControlMessage::from_bytes(plaintext.as_slice()) {
                    Ok(m) => m,
                    Err(()) => {
                        return ControlAction::Rejected;
                    },
                };
                match inner {
                    ControlMessage::Encrypted(_) => {
                        // an envelope inside an envelope is a protocol
                        // error; the datagram is dropped
                        return ControlAction::Rejected;
                    },
                    other => other,
                }
            },
            other => other,
        };
        match message {
            ControlMessage::Encrypted(_) => ControlAction::Rejected,
            ControlMessage::Ping => {
                self.stop_deadline_ms = wire::sat_add_u64(now_ms, self.timeout_ms);
                ControlAction::Ignored
            },
            ControlMessage::RequestIdrFrame | ControlMessage::InvalidateReferenceFrames => ControlAction::RequestIdr,
            ControlMessage::StartB => ControlAction::StartStreams,
            ControlMessage::InputData(payload) => ControlAction::ForwardInput(payload),
            _ => ControlAction::Ignored,
        }
    }
}

} // verus!
