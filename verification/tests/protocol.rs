use companion::protocol::{
    ClientCommandMessage, ControllerCommandPayload, MediaCommand, Progress, SessionMetadata,
};

#[test]
fn plain_command_carries_no_value() {
    for command in [
        MediaCommand::Play,
        MediaCommand::Pause,
        MediaCommand::Stop,
        MediaCommand::Next,
        MediaCommand::Previous,
    ] {
        let message = ClientCommandMessage::new(command);
        assert_eq!(message.msg_type, "client/command");
        assert_eq!(
            message.payload.controller,
            Some(ControllerCommandPayload {
                command,
                volume: None,
                mute: None,
            })
        );
    }
}

#[test]
fn volume_command_carries_the_level() {
    let message = ClientCommandMessage::volume(75);
    assert_eq!(message.msg_type, "client/command");
    assert_eq!(
        message.payload.controller,
        Some(ControllerCommandPayload {
            command: MediaCommand::Volume,
            volume: Some(75),
            mute: None,
        })
    );
}

#[test]
fn mute_command_carries_the_switch() {
    let message = ClientCommandMessage::mute(true);
    assert_eq!(message.msg_type, "client/command");
    assert_eq!(
        message.payload.controller,
        Some(ControllerCommandPayload {
            command: MediaCommand::Mute,
            volume: None,
            mute: Some(true),
        })
    );
}

#[test]
fn defaults_are_blank() {
    assert_eq!(
        Progress::default(),
        Progress {
            track_progress: 0,
            track_duration: 0,
            playback_speed: 0,
        }
    );
    let metadata = SessionMetadata::default();
    assert_eq!(metadata.timestamp, 0);
    assert_eq!(metadata.title, None);
    assert_eq!(metadata.progress, None);
    assert_eq!(metadata.shuffle, None);
}
