use companion::discord_rpc::{
    calculate_discord_timestamps, clear_activity, extract_discord_fields, rpc_step,
    timestamps_fit, update_discord_activity, ActivityButton, Artwork, ClientSlot,
    DiscordActivity, DiscordUpdate, RpcAction, RpcEvent, RpcPhase, StatusDisplay,
};
use companion::now_playing::NowPlaying;

fn millis(secs: Option<f64>) -> Option<i64> {
    secs.map(|s| (s * 1000.0) as i64)
}

fn playing() -> NowPlaying {
    NowPlaying {
        is_playing: true,
        track: Some("T".to_string()),
        artist: Some("A".to_string()),
        album: Some("L".to_string()),
        image_url: Some("http://i".to_string()),
        ..Default::default()
    }
}

#[test]
fn test_calculate_discord_timestamps() {
    let t = 100_000i64;
    // (elapsed, duration, current_time, expected_start, expected_end)
    let cases: Vec<(Option<f64>, Option<f64>, i64, i64, i64)> = vec![
        // Normal playback: 30s into a 180s track
        (Some(30.0), Some(180.0), t, t - 30_000, t + 150_000),
        // No duration
        (Some(30.0), None, t, t - 30_000, 0),
        // Zero duration
        (Some(30.0), Some(0.0), t, t - 30_000, 0),
        // No elapsed, no duration
        (None, None, t, t, 0),
        // Elapsed exceeds duration (track overran)
        (Some(180.0), Some(120.0), t, t - 180_000, t - 60_000),
        // Large values (1hr into 2hr track)
        (
            Some(3600.0),
            Some(7200.0),
            1_000_000_000,
            1_000_000_000 - 3_600_000,
            1_000_000_000 + 3_600_000,
        ),
    ];
    for (elapsed, duration, now, exp_start, exp_end) in cases {
        assert!(timestamps_fit(millis(elapsed), millis(duration), now));
        let (started, end) =
            calculate_discord_timestamps(millis(elapsed), millis(duration), now);
        assert_eq!(
            started, exp_start,
            "start: elapsed={elapsed:?} duration={duration:?}"
        );
        assert_eq!(
            end, exp_end,
            "end: elapsed={elapsed:?} duration={duration:?}"
        );
    }
}

#[test]
fn times_that_cannot_be_represented_are_told_apart() {
    assert!(!timestamps_fit(Some(i64::MIN), None, 0));
    assert!(timestamps_fit(Some(i64::MIN), None, -1));
    assert!(!timestamps_fit(Some(-1), Some(i64::MAX), 0));
    assert!(!timestamps_fit(Some(0), Some(i64::MAX), 1));
    assert!(timestamps_fit(Some(0), Some(i64::MAX), 0));
    assert!(timestamps_fit(Some(i64::MAX), Some(i64::MIN), 0));
    assert_eq!(
        calculate_discord_timestamps(Some(0), Some(i64::MAX), 0),
        (0, i64::MAX)
    );
}

#[test]
fn missing_fields_have_something_to_show() {
    assert_eq!(
        extract_discord_fields(&NowPlaying::default()),
        ("Unknown Track", "Unknown Artist", "", "")
    );
    assert_eq!(extract_discord_fields(&playing()), ("T", "A", "L", "http://i"));
}

#[test]
fn activity_shows_what_is_playing() {
    assert_eq!(
        update_discord_activity(&playing(), Some(1_000), Some(5_000), 10_000),
        DiscordUpdate::Show(DiscordActivity {
            state: "A".to_string(),
            details: "T".to_string(),
            artwork: Some(Artwork {
                large_image: "http://i".to_string(),
                large_text: "L".to_string(),
            }),
            buttons: vec![ActivityButton {
                label: "Download companion".to_string(),
                url: "https://music-assistant.io/companion-app/".to_string(),
            }],
            start: 9_000,
            end: 14_000,
            status_display: StatusDisplay::Details,
        })
    );
}

#[test]
fn activity_without_a_picture_has_no_caption() {
    for image in [None, Some(String::new())] {
        let mut np = playing();
        np.image_url = image;
        match update_discord_activity(&np, None, None, 5) {
            DiscordUpdate::Show(activity) => {
                assert_eq!(activity.artwork, None);
                assert_eq!((activity.start, activity.end), (5, 0));
            }
            DiscordUpdate::Clear => panic!("expected an activity"),
        }
    }
}

#[test]
fn activity_is_cleared_when_nothing_plays() {
    let mut np = playing();
    np.is_playing = false;
    assert_eq!(
        update_discord_activity(&np, Some(i64::MIN), None, 0),
        DiscordUpdate::Clear
    );
}

#[test]
fn kept_connection_is_told_to_clear() {
    assert_eq!(clear_activity(ClientSlot::Held), Some(DiscordUpdate::Clear));
    assert_eq!(clear_activity(ClientSlot::Empty), None);
    assert_eq!(clear_activity(ClientSlot::Unreachable), None);
}

#[test]
fn integration_runs_its_course() {
    let changed = |enabled: bool, is_playing: bool| {
        let mut np = playing();
        np.is_playing = is_playing;
        RpcEvent::Changed {
            enabled,
            now_playing: np,
            elapsed_ms: None,
            duration_ms: None,
            now_ms: 1,
        }
    };
    let (phase, action) = rpc_step(RpcPhase::Connecting, RpcEvent::Connected { ok: true });
    assert_eq!((phase, action), (RpcPhase::Preparing, RpcAction::Prepare));
    let (phase, action) = rpc_step(phase, RpcEvent::Prepared);
    assert_eq!((phase, action), (RpcPhase::Listening, RpcAction::Listen));
    let (phase, action) = rpc_step(phase, changed(false, true));
    assert_eq!((phase, action), (RpcPhase::Listening, RpcAction::Listen));
    let (phase, action) = rpc_step(phase, changed(true, false));
    assert_eq!(
        (phase, action),
        (RpcPhase::Listening, RpcAction::Tell(DiscordUpdate::Clear))
    );
    let (phase, action) = rpc_step(phase, changed(true, true));
    assert_eq!(phase, RpcPhase::Listening);
    assert!(matches!(action, RpcAction::Tell(DiscordUpdate::Show(_))));
    let (phase, action) = rpc_step(phase, RpcEvent::Closed);
    assert_eq!((phase, action), (RpcPhase::Ended, RpcAction::End));
    let (phase, action) = rpc_step(phase, changed(true, true));
    assert_eq!((phase, action), (RpcPhase::Ended, RpcAction::End));
}

#[test]
fn integration_ends_without_discord() {
    assert_eq!(
        rpc_step(RpcPhase::Connecting, RpcEvent::Connected { ok: false }),
        (RpcPhase::Ended, RpcAction::End)
    );
    assert_eq!(
        rpc_step(RpcPhase::Connecting, RpcEvent::Closed),
        (RpcPhase::Connecting, RpcAction::Connect)
    );
}
