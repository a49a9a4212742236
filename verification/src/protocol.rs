//! Messages that are exchanged with a Sendspin server beside audio: commands to
//! the server's controller, and what the server tells about its state.
use vstd::prelude::*;

verus! {

/// A command that controls playback.
#[derive(Debug, Clone, Copy, PartialEq, Eq, Structural)]
pub enum MediaCommand {
    Play,
    Pause,
    Stop,
    Next,
    Previous,
    Volume,
    Mute,
}

/// A command to the controller, with the value that goes with it.
#[derive(Debug, Clone, Copy, PartialEq, Eq, Structural)]
pub struct ControllerCommandPayload {
    pub command: MediaCommand,
    /// The level to set, left out of every command but `Volume`.
    pub volume: Option<u8>,
    /// Whether to mute, left out of every command but `Mute`.
    pub mute: Option<bool>,
}

/// What a `client/command` message carries.
#[derive(Debug, Clone, Copy, PartialEq, Eq, Structural)]
pub struct ClientCommandPayload {
    pub controller: Option<ControllerCommandPayload>,
}

/// A `client/command` message.
#[derive(Debug, Clone, PartialEq, Eq)]
pub struct ClientCommandMessage {
    pub msg_type: String,
    pub payload: ClientCommandPayload,
}

/// Whether `message` is a command to the controller.
pub open spec fn is_command(
    message: ClientCommandMessage,
    command: MediaCommand,
    volume: Option<u8>,
    mute: Option<bool>,
) -> bool {
    &&& message.msg_type@ == "client/command"@
    &&& message.payload.controller == Some(ControllerCommandPayload { command, volume, mute })
}

impl ClientCommandMessage {
    /// A command without a value.
    pub fn new(command: MediaCommand) -> (r: Self)
        ensures
            is_command(r, command, None, None),
    {
        ClientCommandMessage {
            msg_type: "client/command".to_owned(),
            payload: ClientCommandPayload {
                controller: Some(ControllerCommandPayload { command, volume: None, mute: None }),
            },
        }
    }

    /// The command to set the volume.
    pub fn volume(level: u8) -> (r: Self)
        ensures
            is_command(r, MediaCommand::Volume, Some(level), None),
    {
        ClientCommandMessage {
            msg_type: "client/command".to_owned(),
            payload: ClientCommandPayload {
                controller: Some(
                    ControllerCommandPayload {
                        command: MediaCommand::Volume,
                        volume: Some(level),
                        mute: None,
                    },
                ),
            },
        }
    }

    /// The command to mute or unmute.
    pub fn mute(muted: bool) -> (r: Self)
        ensures
            is_command(r, MediaCommand::Mute, None, Some(muted)),
    {
        ClientCommandMessage {
            msg_type: "client/command".to_owned(),
            payload: ClientCommandPayload {
                controller: Some(
                    ControllerCommandPayload {
                        command: MediaCommand::Mute,
                        volume: None,
                        mute: Some(muted),
                    },
                ),
            },
        }
    }
}

/// How far a track has been played.
#[derive(Debug, Clone, Copy, PartialEq, Eq, Structural)]
pub struct Progress {
    /// Progress in milliseconds.
    pub track_progress: i64,
    /// Duration in milliseconds, zero where it is not known or there is no end.
    pub track_duration: i64,
    /// Thousand times the playback speed: 1000 is normal, 0 is paused.
    pub playback_speed: i32,
}

impl Default for Progress {
    fn default() -> (r: Self)
        ensures
            r == (Progress { track_progress: 0, track_duration: 0, playback_speed: 0 }),
    {
        Progress { track_progress: 0, track_duration: 0, playback_speed: 0 }
    }
}

/// What the server tells about what it plays.
#[derive(Debug, Clone, PartialEq, Eq)]
pub struct SessionMetadata {
    /// Server time in microseconds.
    pub timestamp: i64,
    pub title: Option<String>,
    pub artist: Option<String>,
    pub album_artist: Option<String>,
    pub album: Option<String>,
    pub artwork_url: Option<String>,
    pub year: Option<i32>,
    pub track: Option<i32>,
    pub progress: Option<Progress>,
    pub repeat: Option<String>,
    pub shuffle: Option<bool>,
}

impl Default for SessionMetadata {
    fn default() -> (r: Self)
        ensures
            r.timestamp == 0,
            r.title is None && r.artist is None && r.album_artist is None && r.album is None,
            r.artwork_url is None && r.year is None && r.track is None && r.progress is None,
            r.repeat is None && r.shuffle is None,
    {
        SessionMetadata {
            timestamp: 0,
            title: None,
            artist: None,
            album_artist: None,
            album: None,
            artwork_url: None,
            year: None,
            track: None,
            progress: None,
            repeat: None,
            shuffle: None,
        }
    }
}

/// What a `server/state` message carries.
#[derive(Debug, Clone, PartialEq, Eq)]
pub struct ServerStatePayload {
    pub metadata: Option<SessionMetadata>,
}

/// A `server/state` message.
#[derive(Debug, Clone, PartialEq, Eq)]
pub struct ServerStateMessage {
    pub msg_type: String,
    pub payload: ServerStatePayload,
}

/// What a `group/update` message carries.
#[derive(Debug, Clone, PartialEq, Eq)]
pub struct GroupUpdatePayload {
    pub name: Option<String>,
    pub state: Option<String>,
}

/// A `group/update` message.
#[derive(Debug, Clone, PartialEq, Eq)]
pub struct GroupUpdateMessage {
    pub msg_type: String,
    pub payload: GroupUpdatePayload,
}

/// A command without a value carries the command alone, and one with a value
/// carries its own value and not the other's.
pub proof fn commands_carry_their_value(
    command: MediaCommand,
    level: u8,
    muted: bool,
    plain: ClientCommandMessage,
    volume: ClientCommandMessage,
    mute: ClientCommandMessage,
)
    requires
        call_ensures(ClientCommandMessage::new, (command,), plain),
        call_ensures(ClientCommandMessage::volume, (level,), volume),
        call_ensures(ClientCommandMessage::mute, (muted,), mute),
    ensures
        plain.msg_type@ == "client/command"@ && volume.msg_type@ == "client/command"@
            && mute.msg_type@ == "client/command"@,
        plain.payload.controller matches Some(c) && c.command == command && c.volume is None
            && c.mute is None,
        volume.payload.controller matches Some(c) && c.command is Volume && c.volume == Some(level)
            && c.mute is None,
        mute.payload.controller matches Some(c) && c.command is Mute && c.volume is None && c.mute
            == Some(muted),
{
}

/// Where nothing was told, there is nothing: no progress, and no metadata.
pub proof fn defaults_tell_nothing(progress: Progress, metadata: SessionMetadata)
    requires
        call_ensures(Progress::default, (), progress),
        call_ensures(SessionMetadata::default, (), metadata),
    ensures
        progress.track_progress == 0 && progress.track_duration == 0 && progress.playback_speed == 0,
        metadata.timestamp == 0,
        metadata.title is None && metadata.artist is None && metadata.album_artist is None,
        metadata.album is None && metadata.artwork_url is None && metadata.year is None,
        metadata.track is None && metadata.progress is None && metadata.repeat is None,
        metadata.shuffle is None,
{
}

} // verus!
