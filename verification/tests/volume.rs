use companion::volume::{
    accept_com, accept_default_device, accept_volume_support, change_action, change_step,
    check_call, check_status, initial_values, is_available, mute_step, require_endpoint,
    restart_steps, shutdown_steps, AudioCall, Change, ChangeAction, ChangeEvent, ChangePhase,
    MuteEvent, MutePhase, PollAction, PollEvent, Poller, WorkerStep,
};

fn err<T>(message: &str) -> Result<T, String> {
    Err(message.to_string())
}

fn woke(now_ms: u64, last_self_change_ms: u64) -> PollEvent {
    PollEvent::Woke {
        stop: false,
        now_ms,
        last_self_change_ms,
    }
}

fn readings(volume: u8, muted: bool) -> PollEvent {
    PollEvent::Readings {
        volume: Some(volume),
        muted: Some(muted),
    }
}

#[test]
fn status_of_every_call_is_put_into_words() {
    assert_eq!(check_status(AudioCall::SetVolume, 0), Ok(()));
    let cases = [
        (
            AudioCall::GetDefaultOutputDevice,
            "Failed to get default output device: -50",
        ),
        (AudioCall::SetVolume, "Failed to set volume: -50"),
        (AudioCall::GetVolume, "Failed to get volume: -50"),
        (AudioCall::SetMute, "Failed to set mute: -50"),
        (AudioCall::GetMute, "Failed to get mute state: -50"),
        (AudioCall::InitializeCom, "Failed to initialize COM: -50"),
        (
            AudioCall::CreateDeviceEnumerator,
            "Failed to create device enumerator: -50",
        ),
        (
            AudioCall::GetDefaultAudioEndpoint,
            "Failed to get default audio endpoint: -50",
        ),
        (
            AudioCall::ActivateEndpointVolume,
            "Failed to activate endpoint volume: -50",
        ),
    ];
    for (call, words) in cases {
        assert_eq!(check_status(call, -50), err(words));
        assert_eq!(check_call::<u8>(call, err("-50")), err(words));
        assert_eq!(check_call(call, Ok(3u8)), Ok(3));
    }
}

#[test]
fn statuses_are_written_in_decimal() {
    for status in [1, 9, 10, 99, 100, 1_852_797_029, i32::MAX, i32::MIN, -1, -10] {
        assert_eq!(
            check_status(AudioCall::GetMute, status),
            Err(format!("Failed to get mute state: {}", status))
        );
    }
}

#[test]
fn default_device_is_accepted_or_refused() {
    assert_eq!(accept_default_device(0, 42), Ok(42));
    assert_eq!(
        accept_default_device(-1, 42),
        err("Failed to get default output device: -1")
    );
    assert_eq!(
        accept_default_device(0, 0),
        err("No default output device found")
    );
    assert_eq!(accept_volume_support(42, true), Ok(42));
    assert_eq!(
        accept_volume_support(42, false),
        err("Default output device does not support volume control")
    );
}

/// Makes a change on an audio system that is there or not and that answers so;
/// gives what was done, and what came of it.
fn run(
    change: Change,
    available: bool,
    answer: fn() -> ChangeEvent,
) -> (Vec<ChangeAction>, Result<(), String>) {
    let mut done = Vec::new();
    let mut phase = ChangePhase::Recording;
    loop {
        let action = change_action(change, &phase);
        let event = match &action {
            ChangeAction::RecordTime => ChangeEvent::Recorded,
            ChangeAction::Probe => ChangeEvent::Probed { available },
            ChangeAction::Finish { outcome } => return (done, outcome.clone()),
            _ => answer(),
        };
        done.push(action);
        phase = change_step(change, phase, event);
    }
}

fn success() -> ChangeEvent {
    ChangeEvent::Status { status: 0 }
}

fn status_five() -> ChangeEvent {
    ChangeEvent::Status { status: 5 }
}

fn answer_ok() -> ChangeEvent {
    ChangeEvent::Answer { answer: Ok(()) }
}

fn answer_denied() -> ChangeEvent {
    ChangeEvent::Answer {
        answer: err("denied"),
    }
}

#[test]
fn mute_switch_may_be_missing() {
    for muted in [true, false] {
        let change = Change::DeviceMute { muted };
        let value = u32::from(muted);
        let steps = |written: bool| {
            let mut steps = vec![ChangeAction::RecordTime, ChangeAction::Probe];
            if written {
                steps.push(ChangeAction::WriteSwitch { value });
            }
            steps
        };
        assert_eq!(
            run(change, false, success),
            (steps(false), err("Device does not support mute"))
        );
        assert_eq!(run(change, true, success), (steps(true), Ok(())));
        assert_eq!(
            run(change, true, status_five),
            (steps(true), err("Failed to set mute: 5"))
        );
    }
}

#[test]
fn volume_of_a_device_is_written_at_once() {
    let change = Change::DeviceVolume { percent: 42 };
    let steps = || {
        vec![
            ChangeAction::RecordTime,
            ChangeAction::WriteVolume { percent: 42 },
        ]
    };
    assert_eq!(run(change, false, success), (steps(), Ok(())));
    assert_eq!(
        run(change, false, status_five),
        (steps(), err("Failed to set volume: 5"))
    );
}

#[test]
fn endpoint_may_be_missing() {
    let mute = Change::EndpointMute { muted: true };
    let volume = Change::EndpointVolume { percent: 7 };
    for change in [mute, volume] {
        assert_eq!(
            run(change, false, answer_ok),
            (
                vec![ChangeAction::RecordTime, ChangeAction::Probe],
                err("Endpoint volume not available")
            )
        );
        assert_eq!(run(change, true, answer_ok).1, Ok(()));
    }
    assert_eq!(
        run(mute, true, answer_denied),
        (
            vec![
                ChangeAction::RecordTime,
                ChangeAction::Probe,
                ChangeAction::WriteMute { muted: true }
            ],
            err("Failed to set mute: denied")
        )
    );
    assert_eq!(
        run(volume, true, answer_denied),
        (
            vec![
                ChangeAction::RecordTime,
                ChangeAction::Probe,
                ChangeAction::WriteVolume { percent: 7 }
            ],
            err("Failed to set volume: denied")
        )
    );
}

#[test]
fn change_is_not_moved_by_what_does_not_belong() {
    let change = Change::DeviceMute { muted: true };
    assert_eq!(
        change_step(change, ChangePhase::Recording, success()),
        ChangePhase::Recording
    );
    assert_eq!(
        change_step(change, ChangePhase::Probing, ChangeEvent::Recorded),
        ChangePhase::Probing
    );
    let finished = || ChangePhase::Done { outcome: Ok(()) };
    assert_eq!(change_step(change, finished(), status_five()), finished());
}

#[test]
fn mute_switch_is_read_where_there_is_one() {
    assert_eq!(
        mute_step(MutePhase::Probing, MuteEvent::Probed { available: false }),
        MutePhase::Done { outcome: Ok(false) }
    );
    assert_eq!(
        mute_step(MutePhase::Probing, MuteEvent::Probed { available: true }),
        MutePhase::Reading
    );
    let read = |status: i32, value: u32| {
        mute_step(MutePhase::Reading, MuteEvent::Read { status, value })
    };
    assert_eq!(read(0, 0), MutePhase::Done { outcome: Ok(false) });
    assert_eq!(read(0, 7), MutePhase::Done { outcome: Ok(true) });
    assert_eq!(
        read(5, 1),
        MutePhase::Done {
            outcome: err("Failed to get mute state: 5")
        }
    );
}

#[test]
fn com_may_already_be_initialized() {
    assert_eq!(accept_com(0, "S_OK"), Ok(()));
    assert_eq!(accept_com(1, "S_FALSE"), Ok(()));
    assert_eq!(
        accept_com(-1, "HRESULT(0xFFFFFFFF)"),
        err("Failed to initialize COM: HRESULT(0xFFFFFFFF)")
    );
}

#[test]
fn endpoint_is_required() {
    assert_eq!(require_endpoint(Some(1)), Ok(1));
    assert_eq!(
        require_endpoint::<u8>(None),
        err("Endpoint volume not available")
    );
    assert!(is_available(true, true));
    assert!(!is_available(true, false));
    assert!(!is_available(false, true));
}

#[test]
fn watcher_is_restarted_step_by_step() {
    assert_eq!(
        restart_steps(true, true),
        vec![
            WorkerStep::SignalStop,
            WorkerStep::Join,
            WorkerStep::RenewSignal,
            WorkerStep::ReadInitial,
            WorkerStep::Spawn,
        ]
    );
    assert_eq!(
        restart_steps(false, false),
        vec![WorkerStep::SignalStop, WorkerStep::RenewSignal]
    );
}

#[test]
fn everything_is_let_go_of_in_order() {
    assert_eq!(
        shutdown_steps(true, true),
        vec![
            WorkerStep::SignalStop,
            WorkerStep::Join,
            WorkerStep::ReleaseEndpoint,
            WorkerStep::UninitializeCom,
        ]
    );
    assert_eq!(
        shutdown_steps(false, false),
        vec![WorkerStep::SignalStop, WorkerStep::ReleaseEndpoint]
    );
}

#[test]
fn initial_values_need_both_readings() {
    assert_eq!(initial_values(Ok(30), Ok(true)), Some((30, true)));
    assert_eq!(initial_values(err("x"), Ok(true)), None);
    assert_eq!(initial_values(Ok(30), err("x")), None);
}

#[test]
fn unchanged_values_are_not_reported() {
    let mut poller = Poller::new(Some((30, false)));
    assert_eq!(poller.step(woke(5_000, 0)), PollAction::Read);
    assert_eq!(poller.step(readings(30, false)), PollAction::Sleep);
    assert_eq!(poller.step(woke(7_000, 0)), PollAction::Read);
    assert_eq!(
        poller.step(readings(30, true)),
        PollAction::Notify {
            volume: 30,
            muted: true
        }
    );
    assert_eq!(
        poller.step(PollEvent::Sent { delivered: true }),
        PollAction::Sleep
    );
    assert_eq!(poller.last_values, Some((30, true)));
    assert_eq!(poller.step(woke(9_000, 0)), PollAction::Read);
    assert_eq!(poller.step(readings(30, true)), PollAction::Sleep);
}

#[test]
fn watcher_without_initial_values_reports_at_once() {
    let mut poller = Poller::new(None);
    poller.step(woke(5_000, 0));
    assert_eq!(
        poller.step(readings(0, false)),
        PollAction::Notify {
            volume: 0,
            muted: false
        }
    );
}

#[test]
fn failed_readings_are_passed_over() {
    let mut poller = Poller::new(None);
    for (volume, muted) in [(None, Some(true)), (Some(1), None), (None, None)] {
        assert_eq!(poller.step(woke(5_000, 0)), PollAction::Read);
        assert_eq!(
            poller.step(PollEvent::Readings { volume, muted }),
            PollAction::Sleep
        );
    }
    assert_eq!(poller.last_values, None);
}

#[test]
fn own_change_is_left_alone_for_a_second() {
    let mut poller = Poller::new(None);
    assert_eq!(poller.step(woke(10_000, 10_000)), PollAction::Sleep);
    assert_eq!(poller.step(woke(10_999, 10_000)), PollAction::Sleep);
    assert_eq!(poller.step(woke(9_000, 10_000)), PollAction::Sleep);
    assert_eq!(poller.step(woke(11_000, 10_000)), PollAction::Read);
}

#[test]
fn watcher_ends_on_signal_or_without_a_receiver() {
    let mut poller = Poller::new(None);
    assert_eq!(
        poller.step(PollEvent::Woke {
            stop: true,
            now_ms: 0,
            last_self_change_ms: 0
        }),
        PollAction::Exit
    );
    assert_eq!(poller.step(woke(5_000, 0)), PollAction::Exit);

    let mut poller = Poller::new(Some((1, false)));
    poller.step(woke(5_000, 0));
    poller.step(readings(2, false));
    assert_eq!(
        poller.step(PollEvent::Sent { delivered: false }),
        PollAction::Exit
    );
    assert_eq!(poller.last_values, Some((1, false)));
}
