//! What Discord is told about what is playing, and when.
use vstd::prelude::*;
use crate::now_playing::NowPlaying;

verus! {

/// The application that Discord knows the companion by.
pub const CLIENT_ID: &'static str = "1107294634507518023";

/// What is shown for a part of the track's description that may be missing.
pub open spec fn text_or(t: Option<String>, default: Seq<char>) -> Seq<char> {
    match t {
        Some(s) => s@,
        None => default,
    }
}

/// What is shown for a part of the track's description that may be missing.
fn text_or_default<'a>(t: &'a Option<String>, default: &'a str) -> (r: &'a str)
    ensures
        r@ == text_or(*t, default@),
{
    match t {
        Some(s) => s.as_str(),
        None => default,
    }
}

/// Track, artist, album and image URL, with something to show in place of each
/// that is missing.
pub fn extract_discord_fields(np: &NowPlaying) -> (r: (&str, &str, &str, &str))
    ensures
        r.0@ == text_or(np.track, "Unknown Track"@),
        r.1@ == text_or(np.artist, "Unknown Artist"@),
        r.2@ == text_or(np.album, ""@),
        r.3@ == text_or(np.image_url, ""@),
{
    (
        text_or_default(&np.track, "Unknown Track"),
        text_or_default(&np.artist, "Unknown Artist"),
        text_or_default(&np.album, ""),
        text_or_default(&np.image_url, ""),
    )
}

/// A number of milliseconds that may be missing.
pub open spec fn millis_or_zero(ms: Option<i64>) -> int {
    match ms {
        Some(value) => value as int,
        None => 0,
    }
}

/// When the track started.
pub open spec fn start_time(elapsed_ms: Option<i64>, now_ms: i64) -> int {
    now_ms - millis_or_zero(elapsed_ms)
}

/// When the track will end; zero where its length is not known.
pub open spec fn end_time(elapsed_ms: Option<i64>, duration_ms: Option<i64>, now_ms: i64) -> int {
    if millis_or_zero(duration_ms) > 0 {
        now_ms + (millis_or_zero(duration_ms) - millis_or_zero(elapsed_ms))
    } else {
        0
    }
}

/// Whether `t` is a time in milliseconds that can be represented.
pub open spec fn is_time(t: int) -> bool {
    i64::MIN <= t <= i64::MAX
}

/// Whether start and end, and what is left of the track, can be represented.
pub open spec fn times_fit(
    elapsed_ms: Option<i64>,
    duration_ms: Option<i64>,
    now_ms: i64,
) -> bool {
    &&& is_time(start_time(elapsed_ms, now_ms))
    &&& is_time(end_time(elapsed_ms, duration_ms, now_ms))
    &&& millis_or_zero(duration_ms) > 0 ==> is_time(
        millis_or_zero(duration_ms) - millis_or_zero(elapsed_ms),
    )
}

/// The value, or zero where it is missing.
fn or_zero(ms: Option<i64>) -> (r: i64)
    ensures
        r == millis_or_zero(ms),
{
    match ms {
        Some(value) => value,
        None => 0,
    }
}

/// Whether start and end can be represented.
pub fn timestamps_fit(elapsed_ms: Option<i64>, duration_ms: Option<i64>, now_ms: i64) -> (r: bool)
    ensures
        r <==> times_fit(elapsed_ms, duration_ms, now_ms),
{
    let elapsed: i64 = or_zero(elapsed_ms);
    let duration: i64 = or_zero(duration_ms);
    if now_ms.checked_sub(elapsed).is_none() {
        return false;
    }
    if duration > 0 {
        match duration.checked_sub(elapsed) {
            Some(left) => now_ms.checked_add(left).is_some(),
            None => false,
        }
    } else {
        true
    }
}

/// When the track started and when it will end, in milliseconds since the epoch,
/// from how long it has been playing, how long it is and what time it is.
pub fn calculate_discord_timestamps(
    elapsed_ms: Option<i64>,
    duration_ms: Option<i64>,
    current_time_ms: i64,
) -> (r: (i64, i64))
    requires
        times_fit(elapsed_ms, duration_ms, current_time_ms),
    ensures
        r.0 == start_time(elapsed_ms, current_time_ms),
        r.1 == end_time(elapsed_ms, duration_ms, current_time_ms),
{
    let elapsed: i64 = or_zero(elapsed_ms);
    let duration: i64 = or_zero(duration_ms);
    let started: i64 = current_time_ms - elapsed;
    let end: i64 = if duration > 0 {
        current_time_ms + (duration - elapsed)
    } else {
        0
    };
    (started, end)
}

/// A picture with a caption.
#[derive(Debug, PartialEq, Eq)]
pub struct Artwork {
    pub large_image: String,
    pub large_text: String,
}

/// A link that can be clicked.
#[derive(Debug, PartialEq, Eq)]
pub struct ActivityButton {
    pub label: String,
    pub url: String,
}

/// Which line of an activity is shown as the user's status.
#[derive(Debug, Clone, Copy, PartialEq, Eq, Structural)]
pub enum StatusDisplay {
    Name,
    State,
    Details,
}

/// What Discord shows while something is playing.
#[derive(Debug, PartialEq, Eq)]
pub struct DiscordActivity {
    pub state: String,
    pub details: String,
    pub artwork: Option<Artwork>,
    pub buttons: Vec<ActivityButton>,
    pub start: i64,
    pub end: i64,
    pub status_display: StatusDisplay,
}

/// What Discord is told.
#[derive(Debug, PartialEq, Eq)]
pub enum DiscordUpdate {
    /// That nothing is playing any more.
    Clear,
    /// What is playing.
    Show(DiscordActivity),
}

/// Whether `activity` shows what is playing: the artist as its state, the track
/// as its details and as the user's status, the album as the caption of the
/// picture where there is one, and a link to the companion.
pub open spec fn shows(
    np: NowPlaying,
    elapsed_ms: Option<i64>,
    duration_ms: Option<i64>,
    now_ms: i64,
    activity: DiscordActivity,
) -> bool {
    &&& activity.state@ == text_or(np.artist, "Unknown Artist"@)
    &&& activity.details@ == text_or(np.track, "Unknown Track"@)
    &&& match activity.artwork {
        Some(artwork) => {
            &&& text_or(np.image_url, ""@).len() > 0
            &&& artwork.large_image@ == text_or(np.image_url, ""@)
            &&& artwork.large_text@ == text_or(np.album, ""@)
        },
        None => text_or(np.image_url, ""@).len() == 0,
    }
    &&& activity.buttons@.len() == 1
    &&& activity.buttons@[0].label@ == "Download companion"@
    &&& activity.buttons@[0].url@ == "https://music-assistant.io/companion-app/"@
    &&& activity.start == start_time(elapsed_ms, now_ms)
    &&& activity.end == end_time(elapsed_ms, duration_ms, now_ms)
    &&& activity.status_display == StatusDisplay::Details
}

/// Whether `update` is what Discord is told.
pub open spec fn is_update_for(
    np: NowPlaying,
    elapsed_ms: Option<i64>,
    duration_ms: Option<i64>,
    now_ms: i64,
    update: DiscordUpdate,
) -> bool {
    if np.is_playing {
        update matches DiscordUpdate::Show(activity) && shows(
            np,
            elapsed_ms,
            duration_ms,
            now_ms,
            activity,
        )
    } else {
        update is Clear
    }
}

/// What Discord is told, from what is playing, the two times of it that are in
/// seconds turned into milliseconds, and the time of day.
pub fn update_discord_activity(
    np: &NowPlaying,
    elapsed_ms: Option<i64>,
    duration_ms: Option<i64>,
    current_time_ms: i64,
) -> (r: DiscordUpdate)
    requires
        np.is_playing ==> times_fit(elapsed_ms, duration_ms, current_time_ms),
    ensures
        is_update_for(*np, elapsed_ms, duration_ms, current_time_ms, r),
{
    if !np.is_playing {
        return DiscordUpdate::Clear;
    }
    let (track_name, artist_name, album_name, image_url) = extract_discord_fields(np);
    let (start, end): (i64, i64) = calculate_discord_timestamps(
        elapsed_ms,
        duration_ms,
        current_time_ms,
    );
    let artwork = if image_url.is_empty() {
        None
    } else {
        Some(Artwork { large_image: image_url.to_owned(), large_text: album_name.to_owned() })
    };
    let mut buttons: Vec<ActivityButton> = Vec::new();
    buttons.push(
        ActivityButton {
            label: "Download companion".to_owned(),
            url: "https://music-assistant.io/companion-app/".to_owned(),
        },
    );
    DiscordUpdate::Show(
        DiscordActivity {
            state: artist_name.to_owned(),
            details: track_name.to_owned(),
            artwork,
            buttons,
            start,
            end,
            status_display: StatusDisplay::Details,
        },
    )
}

/// What has become of the connection that is kept for clearing the activity.
#[derive(Debug, Clone, Copy, PartialEq, Eq, Structural)]
pub enum ClientSlot {
    /// It cannot be reached.
    Unreachable,
    /// There is none yet.
    Empty,
    /// There is one.
    Held,
}

/// What Discord is told on the kept connection, if anything, when the user turns
/// the integration off.
pub fn clear_activity(client: ClientSlot) -> (r: Option<DiscordUpdate>)
    ensures
        client == ClientSlot::Held ==> r == Some(DiscordUpdate::Clear),
        client != ClientSlot::Held ==> r is None,
{
    match client {
        ClientSlot::Held => Some(DiscordUpdate::Clear),
        _ => None,
    }
}

/// How far the integration has come.
#[derive(Debug, Clone, Copy, PartialEq, Eq, Structural)]
pub enum RpcPhase {
    /// It is connecting to Discord.
    Connecting,
    /// It sets aside a connection for clearing, and subscribes to changes.
    Preparing,
    /// It waits for changes.
    Listening,
    /// It has ended.
    Ended,
}

/// What happens to the integration.
#[derive(Debug, PartialEq, Eq)]
pub enum RpcEvent {
    /// Discord has answered, or cannot be reached.
    Connected { ok: bool },
    /// The integration has subscribed to changes.
    Prepared,
    /// Something else is playing.
    Changed {
        enabled: bool,
        now_playing: NowPlaying,
        elapsed_ms: Option<i64>,
        duration_ms: Option<i64>,
        now_ms: i64,
    },
    /// There will be no more changes.
    Closed,
}

/// What the integration does next.
#[derive(Debug, PartialEq, Eq)]
pub enum RpcAction {
    Connect,
    Prepare,
    Listen,
    /// Tell Discord this, whether or not that succeeds, and listen on.
    Tell(DiscordUpdate),
    End,
}

/// How far the integration has come after an event. One that does not belong to
/// the phase changes nothing.
pub open spec fn phase_after(phase: RpcPhase, event: RpcEvent) -> RpcPhase {
    match (phase, event) {
        (RpcPhase::Connecting, RpcEvent::Connected { ok }) => if ok {
            RpcPhase::Preparing
        } else {
            RpcPhase::Ended
        },
        (RpcPhase::Preparing, RpcEvent::Prepared) => RpcPhase::Listening,
        (RpcPhase::Listening, RpcEvent::Closed) => RpcPhase::Ended,
        _ => phase,
    }
}

/// What the integration does on entering a phase.
pub open spec fn is_action_in(phase: RpcPhase, action: RpcAction) -> bool {
    match phase {
        RpcPhase::Connecting => action is Connect,
        RpcPhase::Preparing => action is Prepare,
        RpcPhase::Listening => action is Listen,
        RpcPhase::Ended => action is End,
    }
}

/// Whether Discord is told something in answer to an event.
pub open spec fn is_told(phase: RpcPhase, event: RpcEvent) -> bool {
    phase == RpcPhase::Listening && (event matches RpcEvent::Changed { enabled, .. } && enabled)
}

/// Whether `action` is what is done in answer to an event.
pub open spec fn is_answer(phase: RpcPhase, event: RpcEvent, action: RpcAction) -> bool {
    if is_told(phase, event) {
        event matches RpcEvent::Changed { now_playing, elapsed_ms, duration_ms, now_ms, .. }
            && action matches RpcAction::Tell(update) && is_update_for(
            now_playing,
            elapsed_ms,
            duration_ms,
            now_ms,
            update,
        )
    } else {
        is_action_in(phase_after(phase, event), action)
    }
}

/// Whether the times that an event brings can be represented where they are used.
pub open spec fn event_fits(phase: RpcPhase, event: RpcEvent) -> bool {
    is_told(phase, event) ==> (event matches RpcEvent::Changed {
        now_playing,
        elapsed_ms,
        duration_ms,
        now_ms,
        ..
    } && (now_playing.is_playing ==> times_fit(elapsed_ms, duration_ms, now_ms)))
}

/// Takes the integration one step further: how far it has come then, and what it
/// does next.
pub fn rpc_step(phase: RpcPhase, event: RpcEvent) -> (r: (RpcPhase, RpcAction))
    requires
        event_fits(phase, event),
    ensures
        r.0 == phase_after(phase, event),
        is_answer(phase, event, r.1),
{
    match (phase, event) {
        (RpcPhase::Connecting, RpcEvent::Connected { ok }) => if ok {
            (RpcPhase::Preparing, RpcAction::Prepare)
        } else {
            (RpcPhase::Ended, RpcAction::End)
        },
        (RpcPhase::Preparing, RpcEvent::Prepared) => (RpcPhase::Listening, RpcAction::Listen),
        (RpcPhase::Listening, RpcEvent::Closed) => (RpcPhase::Ended, RpcAction::End),
        (
            RpcPhase::Listening,
            RpcEvent::Changed { enabled, now_playing, elapsed_ms, duration_ms, now_ms },
        ) => if enabled {
            let update = update_discord_activity(&now_playing, elapsed_ms, duration_ms, now_ms);
            (RpcPhase::Listening, RpcAction::Tell(update))
        } else {
            (RpcPhase::Listening, RpcAction::Listen)
        },
        (RpcPhase::Connecting, _) => (RpcPhase::Connecting, RpcAction::Connect),
        (RpcPhase::Preparing, _) => (RpcPhase::Preparing, RpcAction::Prepare),
        (RpcPhase::Listening, _) => (RpcPhase::Listening, RpcAction::Listen),
        (RpcPhase::Ended, _) => (RpcPhase::Ended, RpcAction::End),
    }
}

/// Where the length of the track is known, it is the time between start and end;
/// where it is not, no end is given.
pub proof fn times_span_the_track(elapsed_ms: Option<i64>, duration_ms: Option<i64>, now_ms: i64)
    ensures
        millis_or_zero(duration_ms) > 0 ==> end_time(elapsed_ms, duration_ms, now_ms) - start_time(
            elapsed_ms,
            now_ms,
        ) == millis_or_zero(duration_ms),
        millis_or_zero(duration_ms) <= 0 ==> end_time(elapsed_ms, duration_ms, now_ms) == 0,
{
}

/// How far the integration has come after several events.
pub open spec fn phase_after_all(phase: RpcPhase, events: Seq<RpcEvent>) -> RpcPhase
    decreases events.len(),
{
    if events.len() == 0 {
        phase
    } else {
        phase_after(phase_after_all(phase, events.drop_last()), events.last())
    }
}

/// An integration that cannot reach Discord ends, and one that has ended never
/// tells Discord anything again.
pub proof fn ended_integration_is_silent(events: Seq<RpcEvent>, event: RpcEvent)
    ensures
        phase_after(RpcPhase::Connecting, RpcEvent::Connected { ok: false }) == RpcPhase::Ended,
        phase_after_all(RpcPhase::Ended, events) == RpcPhase::Ended,
        !is_told(phase_after_all(RpcPhase::Ended, events), event),
    decreases events.len(),
{
    if events.len() > 0 {
        ended_integration_is_silent(events.drop_last(), event);
    }
}

/// Discord is told something only by an integration that has connected, has
/// subscribed, and is enabled at that moment.
pub proof fn nothing_is_told_unasked(events: Seq<RpcEvent>, event: RpcEvent)
    requires
        is_told(phase_after_all(RpcPhase::Connecting, events), event),
    ensures
        event matches RpcEvent::Changed { enabled, .. } && enabled,
        events.contains(RpcEvent::Connected { ok: true }),
        events.contains(RpcEvent::Prepared),
{
    listening_was_prepared(events);
}

/// What must have happened for the integration to have come so far.
proof fn listening_was_prepared(events: Seq<RpcEvent>)
    ensures
        ({
            let phase = phase_after_all(RpcPhase::Connecting, events);
            &&& phase is Preparing || phase is Listening ==> events.contains(
                RpcEvent::Connected { ok: true },
            )
            &&& phase is Listening ==> events.contains(RpcEvent::Prepared)
        }),
    decreases events.len(),
{
    if events.len() > 0 {
        let rest = events.drop_last();
        listening_was_prepared(rest);
        assert(events.contains(events.last()));
        assert forall|e: RpcEvent| #[trigger] rest.contains(e) implies events.contains(e) by {
            let i = choose|i: int| 0 <= i < rest.len() && rest[i] == e;
            assert(events[i] == e);
        }
    }
}

/// Whatever comes while the integration listens, it goes on listening until there
/// are no more changes.
pub proof fn listening_goes_on(event: RpcEvent)
    ensures
        phase_after(RpcPhase::Listening, event) == (if event is Closed {
            RpcPhase::Ended
        } else {
            RpcPhase::Listening
        }),
{
}

/// What is shown of a track is what is known of it, each part for itself, with
/// something to show in place of a missing track or artist, and nothing in place
/// of a missing album or picture.
pub proof fn known_fields_are_shown<'a>(np: &'a NowPlaying, r: (&'a str, &'a str, &'a str, &'a str))
    requires
        call_ensures(extract_discord_fields, (np,), r),
    ensures
        r.0@ == (if np.track is Some {
            np.track->Some_0@
        } else {
            "Unknown Track"@
        }),
        r.1@ == (if np.artist is Some {
            np.artist->Some_0@
        } else {
            "Unknown Artist"@
        }),
        r.2@ == (if np.album is Some {
            np.album->Some_0@
        } else {
            ""@
        }),
        r.3@ == (if np.image_url is Some {
            np.image_url->Some_0@
        } else {
            ""@
        }),
{
}

/// The start lies as far back as the track has been playing. Where the track has a
/// length, the end comes that length after the start; else there is none.
pub proof fn track_runs_from_start_to_end(
    elapsed_ms: Option<i64>,
    duration_ms: Option<i64>,
    now_ms: i64,
    times: (i64, i64),
)
    requires
        call_ensures(calculate_discord_timestamps, (elapsed_ms, duration_ms, now_ms), times),
    ensures
        elapsed_ms matches Some(e) ==> times.0 + e == now_ms,
        elapsed_ms is None ==> times.0 == now_ms,
        duration_ms matches Some(d) ==> d > 0 ==> times.1 == times.0 + d,
        duration_ms matches Some(d) ==> d <= 0 ==> times.1 == 0,
        duration_ms is None ==> times.1 == 0,
{
}

/// The times fit exactly where start and, for a track that has a length, the rest
/// of it and the end do not overflow.
pub proof fn times_fit_where_nothing_overflows(
    elapsed_ms: Option<i64>,
    duration_ms: Option<i64>,
    now_ms: i64,
    fit: bool,
)
    requires
        call_ensures(timestamps_fit, (elapsed_ms, duration_ms, now_ms), fit),
    ensures
        ({
            let e: int = if elapsed_ms is Some {
                elapsed_ms->Some_0 as int
            } else {
                0
            };
            let d: int = if duration_ms is Some {
                duration_ms->Some_0 as int
            } else {
                0
            };
            fit <==> i64::MIN <= now_ms - e <= i64::MAX && (d > 0 ==> i64::MIN <= d - e <= i64::MAX
                && i64::MIN <= now_ms + (d - e) <= i64::MAX)
        }),
{
}

/// What Discord is told: that nothing is shown while nothing plays. Else the
/// artist, the track, which is the user's status too, the picture with the album
/// where there is a picture, one link, and when the track started and ends.
pub proof fn discord_is_told_what_plays(
    np: NowPlaying,
    elapsed_ms: Option<i64>,
    duration_ms: Option<i64>,
    now_ms: i64,
    update: DiscordUpdate,
)
    requires
        call_ensures(update_discord_activity, (&np, elapsed_ms, duration_ms, now_ms), update),
    ensures
        update is Clear <==> !np.is_playing,
        update matches DiscordUpdate::Show(shown) ==> {
            let e: int = if elapsed_ms is Some {
                elapsed_ms->Some_0 as int
            } else {
                0
            };
            &&& np.artist is Some ==> shown.state@ == np.artist->Some_0@
            &&& np.artist is None ==> shown.state@ == "Unknown Artist"@
            &&& np.track is Some ==> shown.details@ == np.track->Some_0@
            &&& np.track is None ==> shown.details@ == "Unknown Track"@
            &&& shown.artwork is Some <==> np.image_url is Some && np.image_url->Some_0@.len() > 0
            &&& shown.artwork matches Some(picture) ==> picture.large_image@
                == np.image_url->Some_0@ && (np.album is Some ==> picture.large_text@
                == np.album->Some_0@) && (np.album is None ==> picture.large_text@.len() == 0)
            &&& shown.buttons@.len() == 1 && shown.buttons@[0].label@ == "Download companion"@
                && shown.buttons@[0].url@ == "https://music-assistant.io/companion-app/"@
            &&& shown.status_display is Details
            &&& shown.start == now_ms - e
            &&& duration_ms is Some && duration_ms->Some_0 > 0 ==> shown.end == shown.start
                + duration_ms->Some_0
            &&& duration_ms is None || duration_ms->Some_0 <= 0 ==> shown.end == 0
        },
{
    reveal_strlit("");
}

/// On the kept connection the activity is cleared where there is one, and nothing
/// is told where there is none.
pub proof fn kept_connection_is_used_for_clearing(client: ClientSlot, r: Option<DiscordUpdate>)
    requires
        call_ensures(clear_activity, (client,), r),
    ensures
        client is Held ==> (r matches Some(update) && update is Clear),
        client is Empty || client is Unreachable ==> r is None,
{
}

/// The course of the integration: it connects, and ends where that fails; it
/// prepares; it listens until there are no more changes. Of each change it tells
/// Discord exactly where it is enabled, and it listens on.
pub proof fn integration_takes_its_course(
    phase: RpcPhase,
    event: RpcEvent,
    r: (RpcPhase, RpcAction),
)
    requires
        call_ensures(rpc_step, (phase, event), r),
    ensures
        phase is Connecting && event == (RpcEvent::Connected { ok: true }) ==> r.0 is Preparing
            && r.1 is Prepare,
        phase is Connecting && event == (RpcEvent::Connected { ok: false }) ==> r.0 is Ended
            && r.1 is End,
        phase is Preparing && event is Prepared ==> r.0 is Listening && r.1 is Listen,
        phase is Listening && event is Closed ==> r.0 is Ended && r.1 is End,
        phase is Listening && event is Changed ==> r.0 is Listening,
        phase is Listening ==> (event matches RpcEvent::Changed {
            enabled,
            now_playing,
            elapsed_ms,
            duration_ms,
            now_ms,
        } ==> {
            &&& !enabled ==> r.1 is Listen
            &&& enabled ==> (r.1 matches RpcAction::Tell(update) && is_update_for(
                now_playing,
                elapsed_ms,
                duration_ms,
                now_ms,
                update,
            ))
            &&& enabled && !now_playing.is_playing ==> r.1 == RpcAction::Tell(DiscordUpdate::Clear)
            &&& enabled && now_playing.is_playing ==> (r.1 matches RpcAction::Tell(update)
                && update is Show)
        }),
        phase is Ended ==> r.0 is Ended && r.1 is End,
        r.1 is Tell ==> phase is Listening && event is Changed,
        phase is Connecting && !(event is Connected) ==> r.0 is Connecting && r.1 is Connect,
        phase is Preparing && !(event is Prepared) ==> r.0 is Preparing && r.1 is Prepare,
        phase is Listening && (event is Connected || event is Prepared) ==> r.0 is Listening
            && r.1 is Listen,
{
}

/// Discord knows the companion by one number.
pub proof fn companion_has_one_client_id()
    ensures
        CLIENT_ID@ == "1107294634507518023"@,
{
}

/// Times are taken wherever start, rest and end do not overflow, and where nothing
/// is playing, or Discord is not told, they do not matter.
pub proof fn times_are_taken_where_nothing_overflows(
    np: NowPlaying,
    elapsed_ms: Option<i64>,
    duration_ms: Option<i64>,
    now_ms: i64,
    phase: RpcPhase,
    enabled: bool,
    other: RpcEvent,
)
    ensures
        ({
            let e: int = if elapsed_ms is Some {
                elapsed_ms->Some_0 as int
            } else {
                0
            };
            let d: int = if duration_ms is Some {
                duration_ms->Some_0 as int
            } else {
                0
            };
            let fit = i64::MIN <= now_ms - e <= i64::MAX && (d > 0 ==> i64::MIN <= d - e <= i64::MAX
                && i64::MIN <= now_ms + (d - e) <= i64::MAX);
            &&& fit ==> call_requires(
                calculate_discord_timestamps,
                (elapsed_ms, duration_ms, now_ms),
            )
            &&& fit || !np.is_playing ==> call_requires(
                update_discord_activity,
                (&np, elapsed_ms, duration_ms, now_ms),
            )
            &&& fit || !np.is_playing || !enabled || !(phase is Listening) ==> call_requires(
                rpc_step,
                (
                    phase,
                    RpcEvent::Changed { enabled, now_playing: np, elapsed_ms, duration_ms, now_ms },
                ),
            )
            &&& !(other is Changed) ==> call_requires(rpc_step, (phase, other))
        }),
{
}

} // verus!
