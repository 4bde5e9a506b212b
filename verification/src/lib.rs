//! Core of a self-hosted game-streaming host compatible with Moonlight
//! clients: the pairing state machine, the control-channel wire protocol
//! with its encryption sublayer, and the audio packetizer with
//! Reed-Solomon forward error correction and RTP framing.

pub mod audio;
pub mod control;
pub mod crypto;
pub mod fec;
pub mod hexcode;
pub mod pairing;
pub mod rtp;
pub mod session;
pub mod wire;
