use companion::now_playing::{
    format_now_playing, format_now_playing_with_player, get_now_playing, on_now_playing_change,
    update_now_playing, NowPlaying, NowPlayingState, Seconds,
};

fn some(s: &str) -> Option<String> {
    Some(s.to_string())
}

#[test]
fn test_update_skips_playing_without_track() {
    let mut state = NowPlayingState::new();
    update_now_playing(
        &mut state,
        NowPlaying {
            is_playing: false,
            track: some("SomeTrack"),
            ..Default::default()
        },
    );

    let before_update = get_now_playing(&state);
    let before_track = before_update.track.clone();
    assert_eq!(before_track, some("SomeTrack"));

    let update = NowPlaying {
        is_playing: true,
        track: None,
        ..Default::default()
    };
    assert!(update_now_playing(&mut state, update).is_none());

    let after_update = get_now_playing(&state);
    assert_eq!(
        after_update.track, before_track,
        "track should remain unchanged"
    );
    assert!(!after_update.is_playing, "is_playing should remain false");
}

#[test]
fn test_callback_invoked_on_update() {
    let mut state = NowPlayingState::new();
    on_now_playing_change(&mut state, 1);

    let update = NowPlaying {
        is_playing: true,
        track: some("Test Track"),
        ..Default::default()
    };
    let broadcast = update_now_playing(&mut state, update).unwrap();

    let mut callback_invoked = false;
    for subscriber in broadcast.subscribers {
        if subscriber == 1 {
            callback_invoked = true;
        }
    }
    assert!(callback_invoked);
    assert_eq!(broadcast.now_playing.track, some("Test Track"));
}

#[test]
fn subscribers_are_told_in_the_order_of_registration() {
    let mut state = NowPlayingState::new();
    on_now_playing_change(&mut state, 7);
    on_now_playing_change(&mut state, 3);
    on_now_playing_change(&mut state, 7);
    let update = NowPlaying {
        is_playing: true,
        track: some("t"),
        elapsed: Some(Seconds { bits: 12.5f64.to_bits() }),
        can_next: true,
        ..Default::default()
    };
    let broadcast = update_now_playing(&mut state, update.clone()).unwrap();
    assert_eq!(broadcast.subscribers, vec![7, 3, 7]);
    assert_eq!(broadcast.now_playing, update);
    assert_eq!(get_now_playing(&state), update);
    let pause = NowPlaying::default();
    assert_eq!(
        update_now_playing(&mut state, pause).unwrap().subscribers,
        vec![7, 3, 7]
    );
    assert_eq!(get_now_playing(&state), NowPlaying::default());
}

#[test]
fn state_starts_out_blank() {
    assert_eq!(get_now_playing(&NowPlayingState::new()), NowPlaying::default());
}

#[test]
fn last_complete_update_is_what_counts() {
    let mut state = NowPlayingState::new();
    let playing = |track: Option<String>| NowPlaying {
        is_playing: true,
        track,
        ..Default::default()
    };
    assert!(update_now_playing(&mut state, playing(some("a"))).is_some());
    assert!(update_now_playing(&mut state, playing(some("b"))).is_some());
    assert!(update_now_playing(&mut state, playing(None)).is_none());
    assert!(update_now_playing(&mut state, playing(None)).is_none());
    assert_eq!(get_now_playing(&state), playing(some("b")));
}

#[test]
fn test_format_now_playing_with_player_all_branches() {
    let np1 = NowPlaying {
        is_playing: true,
        artist: Some("Artist1".to_string()),
        track: Some("Track1".to_string()),
        player_name: Some("Player1".to_string()),
        ..Default::default()
    };
    assert_eq!(
        format_now_playing_with_player(&np1),
        "Artist1 - Track1\nPlayer1"
    );

    let np2 = NowPlaying {
        is_playing: true,
        artist: Some("Artist2".to_string()),
        track: Some("Track2".to_string()),
        player_name: None,
        ..Default::default()
    };
    assert_eq!(format_now_playing_with_player(&np2), "Artist2 - Track2");

    let np3 = NowPlaying {
        is_playing: true,
        artist: None,
        track: Some("Track3".to_string()),
        player_name: Some("Player3".to_string()),
        ..Default::default()
    };
    assert_eq!(format_now_playing_with_player(&np3), "Track3\nPlayer3");

    let np4 = NowPlaying {
        is_playing: true,
        artist: None,
        track: Some("Track4".to_string()),
        player_name: None,
        ..Default::default()
    };
    assert_eq!(format_now_playing_with_player(&np4), "Track4");

    let np5 = NowPlaying {
        is_playing: true,
        artist: Some("Artist5".to_string()),
        track: None,
        player_name: None,
        ..Default::default()
    };
    assert_eq!(format_now_playing_with_player(&np5), "Unknown Track");

    let np6 = NowPlaying {
        is_playing: true,
        artist: None,
        track: None,
        player_name: None,
        ..Default::default()
    };
    assert_eq!(format_now_playing_with_player(&np6), "Unknown Track");

    let np7 = NowPlaying {
        is_playing: false,
        player_name: Some("MyPlayer".to_string()),
        ..Default::default()
    };
    assert_eq!(
        format_now_playing_with_player(&np7),
        "MyPlayer - Not Playing"
    );

    let np8 = NowPlaying {
        is_playing: false,
        player_name: None,
        ..Default::default()
    };
    assert_eq!(format_now_playing_with_player(&np8), "Music Assistant");
}

#[test]
fn words_without_the_player() {
    let np = |is_playing: bool, artist: Option<&str>, track: Option<&str>| NowPlaying {
        is_playing,
        artist: artist.map(|s| s.to_string()),
        track: track.map(|s| s.to_string()),
        player_name: Some("P".to_string()),
        ..Default::default()
    };
    assert_eq!(
        format_now_playing(&np(false, Some("A"), Some("T"))),
        "Music Assistant - Not Playing"
    );
    assert_eq!(format_now_playing(&np(true, Some("A"), Some("T"))), "A - T");
    assert_eq!(format_now_playing(&np(true, None, Some("T"))), "T");
    assert_eq!(
        format_now_playing(&np(true, Some("A"), None)),
        "Music Assistant - Playing"
    );
    assert_eq!(
        format_now_playing(&np(true, None, None)),
        "Music Assistant - Playing"
    );
}
