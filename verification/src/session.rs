//! Per-session state: the streaming context with its keys, and the
//! decisions the session manager takes on each command it receives.

use vstd::prelude::*;

verus! {

/// Encryption keys protecting a session's control traffic.
pub struct SessionKeys {
    /// AES-128-GCM key used for decoding control messages.
    pub remote_input_key: Vec<u8>,
    /// Monotonically growing key id; carried for forward compatibility,
    /// not consulted by dispatch.
    pub remote_input_key_id: i64,
}

/// The mathematical value of `SessionKeys`.
pub struct SessionKeysView {
    pub remote_input_key: Seq<u8>,
    pub remote_input_key_id: i64,
}

impl View for SessionKeys {
    type V = SessionKeysView;

    open spec fn view(&self) -> SessionKeysView {
        SessionKeysView {
            remote_input_key: self.remote_input_key@,
            remote_input_key_id: self.remote_input_key_id,
        }
    }
}

impl SessionKeys {
    /// An equal, independently owned copy of the keys.
    pub fn duplicate(&self) -> (r: SessionKeys)
        ensures
            r@ == self@,
    {
        SessionKeys {
            remote_input_key: crate::wire::bytes_of(self.remote_input_key.as_slice()),
            remote_input_key_id: self.remote_input_key_id,
        }
    }
}

/// What a client asked a session to launch.
pub struct SessionContext {
    /// Id of the application to launch.
    pub application_id: u32,
    /// Resolution of the video stream.
    pub resolution: (u32, u32),
    /// Refresh rate of the video stream.
    pub refresh_rate: u32,
    /// Encryption keys for the session's traffic.
    pub keys: SessionKeys,
}

/// The mathematical value of a `SessionContext`.
pub struct SessionContextView {
    pub application_id: u32,
    pub resolution: (u32, u32),
    pub refresh_rate: u32,
    pub keys: SessionKeysView,
}

impl View for SessionContext {
    type V = SessionContextView;

    open spec fn view(&self) -> SessionContextView {
        SessionContextView {
            application_id: self.application_id,
            resolution: self.resolution,
            refresh_rate: self.refresh_rate,
            keys: self.keys@,
        }
    }
}

/// A command sent into a session's command queue.
pub enum SessionCommand {
    /// Construct the video, audio and control streams.
    StartStream,
    /// Trigger the shared shutdown handle.
    StopStream,
    /// Replace the session keys and forward them to the streams.
    UpdateKeys(SessionKeys),
}

/// What the session loop must do after a command is applied.
pub enum SessionAction {
    /// Build the three streams and hand each the shutdown handle.
    CreateStreams,
    /// Trigger the cooperative shutdown token.
    TriggerShutdown,
    /// Hand these keys to the audio and control streams.
    ForwardKeys(SessionKeys),
    /// Nothing to do; the command was logged and dropped.
    Ignore,
}

/// What the session manager tracks about one session.
pub struct SessionState {
    /// The session's context, kept current as keys rotate.
    pub context: SessionContext,
    /// A video stream exists.
    pub has_video: bool,
    /// An audio stream exists.
    pub has_audio: bool,
    /// A control stream exists.
    pub has_control: bool,
}

/// Apply one command to the session state and say what the loop must
/// do: starting creates the three streams, stopping triggers the shared
/// shutdown, and a key update is forwarded only when both the audio and
/// the control stream are there to take it.
pub fn apply_command(state: &mut SessionState, command: SessionCommand) -> (r: SessionAction)
    ensures
        match command {
            SessionCommand::StartStream => {
                &&& r is CreateStreams
                &&& final(state).context@ == old(state).context@
                &&& final(state).has_video && final(state).has_audio && final(state).has_control
            },
            SessionCommand::StopStream => r is TriggerShutdown && *final(state) == *old(state),
            SessionCommand::UpdateKeys(keys) => {
                if old(state).has_audio && old(state).has_control {
                    &&& r matches SessionAction::ForwardKeys(k) && k@ == keys@
                    &&& final(state).context.keys@ == keys@
                    &&& final(state).context.application_id == old(state).context.application_id
                    &&& final(state).context.resolution == old(state).context.resolution
                    &&& final(state).context.refresh_rate == old(state).context.refresh_rate
                    &&& final(state).has_video == old(state).has_video
                    &&& final(state).has_audio == old(state).has_audio
                    &&& final(state).has_control == old(state).has_control
                } else {
                    r is Ignore && *final(state) == *old(state)
                }
            },
        },
{
    match command {
        SessionCommand::StartStream => {
            state.has_video = true;
            state.has_audio = true;
            state.has_control = true;
            SessionAction::CreateStreams
        },
        SessionCommand::StopStream => SessionAction::TriggerShutdown,
        SessionCommand::UpdateKeys(keys) => {
            if state.has_audio && state.has_control {
                let forwarded = keys.duplicate();
                state.context.keys = keys;
                SessionAction::ForwardKeys(forwarded)
            } else {
                SessionAction::Ignore
            }
        },
    }
}

} // verus!
