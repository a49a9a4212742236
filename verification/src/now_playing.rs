//! What is playing: the remembered state, who is told of changes, and how the
//! state is put into words.
use vstd::prelude::*;
use crate::text;
use crate::text::{clone_text, join, join3};

verus! {

/// A number of seconds, held as the bit pattern of an IEEE 754 double. It is
/// carried along and never looked into.
#[derive(Debug, Clone, Copy, PartialEq, Eq, Structural)]
pub struct Seconds {
    pub bits: u64,
}

/// What is playing now.
#[derive(Debug, PartialEq, Eq)]
pub struct NowPlaying {
    /// Whether something is playing.
    pub is_playing: bool,
    /// Track name.
    pub track: Option<String>,
    /// Artist name.
    pub artist: Option<String>,
    /// Album name.
    pub album: Option<String>,
    /// Image URL.
    pub image_url: Option<String>,
    /// Player name.
    pub player_name: Option<String>,
    /// Player ID.
    pub player_id: Option<String>,
    /// Length of the track.
    pub duration: Option<Seconds>,
    /// How much of the track has been played.
    pub elapsed: Option<Seconds>,
    /// Whether play is available.
    pub can_play: bool,
    /// Whether pause is available.
    pub can_pause: bool,
    /// Whether the next track is available.
    pub can_next: bool,
    /// Whether the previous track is available.
    pub can_previous: bool,
}

/// Nothing is playing, and nothing is known.
pub open spec fn is_blank(np: NowPlaying) -> bool {
    &&& !np.is_playing
    &&& np.track is None && np.artist is None && np.album is None && np.image_url is None
    &&& np.player_name is None && np.player_id is None
    &&& np.duration is None && np.elapsed is None
    &&& !np.can_play && !np.can_pause && !np.can_next && !np.can_previous
}

impl Default for NowPlaying {
    fn default() -> (r: Self)
        ensures
            is_blank(r),
    {
        NowPlaying {
            is_playing: false,
            track: None,
            artist: None,
            album: None,
            image_url: None,
            player_name: None,
            player_id: None,
            duration: None,
            elapsed: None,
            can_play: false,
            can_pause: false,
            can_next: false,
            can_previous: false,
        }
    }
}

impl Clone for NowPlaying {
    fn clone(&self) -> (r: Self)
        ensures
            r == *self,
    {
        NowPlaying {
            is_playing: self.is_playing,
            track: clone_text(&self.track),
            artist: clone_text(&self.artist),
            album: clone_text(&self.album),
            image_url: clone_text(&self.image_url),
            player_name: clone_text(&self.player_name),
            player_id: clone_text(&self.player_id),
            duration: self.duration,
            elapsed: self.elapsed,
            can_play: self.can_play,
            can_pause: self.can_pause,
            can_next: self.can_next,
            can_previous: self.can_previous,
        }
    }
}

/// Whether an update is still incomplete: something plays, but it is not known
/// what. Such an update comes while the data are still loading.
pub open spec fn is_incomplete(np: NowPlaying) -> bool {
    np.is_playing && np.track is None
}

/// What is remembered after an update: the update, unless it is incomplete.
pub open spec fn remembered(current: NowPlaying, update: NowPlaying) -> NowPlaying {
    if is_incomplete(update) {
        current
    } else {
        update
    }
}

/// What is remembered after several updates.
pub open spec fn remembered_after(current: NowPlaying, updates: Seq<NowPlaying>) -> NowPlaying
    decreases updates.len(),
{
    if updates.len() == 0 {
        current
    } else {
        remembered(remembered_after(current, updates.drop_last()), updates.last())
    }
}

/// The remembered state and those who are told when it changes.
pub struct NowPlayingState {
    current: NowPlaying,
    subscribers: Vec<u64>,
}

/// Whom an accepted update is passed on to, in this order, and what they are told.
#[derive(Debug, PartialEq, Eq)]
pub struct Broadcast {
    pub now_playing: NowPlaying,
    pub subscribers: Vec<u64>,
}

impl NowPlayingState {
    /// What is remembered.
    pub closed spec fn current(self) -> NowPlaying {
        self.current
    }

    /// Who is told of changes, in the order in which they asked for it.
    pub closed spec fn subscribers(self) -> Seq<u64> {
        self.subscribers@
    }

    /// What is remembered is never incomplete.
    #[verifier::type_invariant]
    closed spec fn remembers_complete(self) -> bool {
        !is_incomplete(self.current)
    }

    /// Nothing is playing yet, and nobody has asked to be told.
    pub fn new() -> (r: Self)
        ensures
            is_blank(r.current()),
            r.subscribers() == Seq::<u64>::empty(),
    {
        NowPlayingState { current: NowPlaying::default(), subscribers: Vec::new() }
    }
}

/// What is playing now.
pub fn get_now_playing(state: &NowPlayingState) -> (r: NowPlaying)
    ensures
        r == state.current(),
        !is_incomplete(r),
        r.is_playing ==> r.track is Some,
{
    proof {
        use_type_invariant(state);
    }
    state.current.clone()
}

/// Has a subscriber told of every change from now on, after all who asked before.
pub fn on_now_playing_change(state: &mut NowPlayingState, subscriber: u64)
    ensures
        final(state).current() == old(state).current(),
        final(state).subscribers() == old(state).subscribers().push(subscriber),
{
    proof {
        use_type_invariant(&*state);
    }
    let mut subscribers: Vec<u64> = Vec::new();
    std::mem::swap(&mut subscribers, &mut state.subscribers);
    subscribers.push(subscriber);
    state.subscribers = subscribers;
}

/// Takes an update: unless it is incomplete, it is remembered, and all
/// subscribers are told.
pub fn update_now_playing(state: &mut NowPlayingState, now_playing: NowPlaying) -> (r: Option<
    Broadcast,
>)
    ensures
        final(state).subscribers() == old(state).subscribers(),
        final(state).current() == remembered(old(state).current(), now_playing),
        is_incomplete(now_playing) ==> r is None,
        now_playing.is_playing && now_playing.track is None ==> r is None && final(state).current()
            == old(state).current(),
        !now_playing.is_playing || now_playing.track is Some ==> final(state).current()
            == now_playing,
        !is_incomplete(now_playing) || !now_playing.is_playing || now_playing.track is Some ==> {
            &&& r matches Some(broadcast)
            &&& broadcast.now_playing == now_playing
            &&& broadcast.subscribers@ == old(state).subscribers()
        },
{
    if now_playing.is_playing && now_playing.track.is_none() {
        return None;
    }
    let mut subscribers: Vec<u64> = Vec::new();
    let mut k: usize = 0;
    while k < state.subscribers.len()
        invariant
            k <= state.subscribers@.len(),
            subscribers@ == state.subscribers@.take(k as int),
            *state == *old(state),
        decreases state.subscribers@.len() - k,
    {
        subscribers.push(state.subscribers[k]);
        assert(subscribers@ =~= state.subscribers@.take(k + 1));
        k = k + 1;
    }
    assert(subscribers@ =~= state.subscribers@);
    let copy = now_playing.clone();
    state.current = copy;
    Some(Broadcast { now_playing, subscribers })
}

/// The words for what plays, where the track is known: artist and track, or the
/// track alone.
pub open spec fn title(np: NowPlaying) -> Option<Seq<char>> {
    match (np.artist, np.track) {
        (Some(artist), Some(track)) => Some(artist@ + " - "@ + track@),
        (None, Some(track)) => Some(track@),
        _ => None,
    }
}

/// The words for the state, the player left out.
pub open spec fn plain_words(np: NowPlaying) -> Seq<char> {
    if !np.is_playing {
        "Music Assistant - Not Playing"@
    } else {
        match title(np) {
            Some(words) => words,
            None => "Music Assistant - Playing"@,
        }
    }
}

/// The words for the state, with the player where it is known.
pub open spec fn words_with_player(np: NowPlaying) -> Seq<char> {
    if np.is_playing {
        let track_info = match title(np) {
            Some(words) => words,
            None => "Unknown Track"@,
        };
        match np.player_name {
            Some(name) => track_info + "\n"@ + name@,
            None => track_info,
        }
    } else {
        match np.player_name {
            Some(name) => name@ + " - Not Playing"@,
            None => "Music Assistant"@,
        }
    }
}

/// The words for what plays, where the track is known.
fn title_text(np: &NowPlaying) -> (r: Option<String>)
    ensures
        text::opt_text(r) == title(*np),
{
    match (&np.artist, &np.track) {
        (Some(artist), Some(track)) => Some(join3(artist.as_str(), " - ", track.as_str())),
        (None, Some(track)) => Some(track.clone()),
        _ => None,
    }
}

/// Puts the state into words, for a tooltip.
pub fn format_now_playing(np: &NowPlaying) -> (r: String)
    ensures
        r@ == plain_words(*np),
{
    if !np.is_playing {
        return "Music Assistant - Not Playing".to_owned();
    }
    match title_text(np) {
        Some(words) => words,
        None => "Music Assistant - Playing".to_owned(),
    }
}

/// Puts the state into words, with the player where it is known.
pub fn format_now_playing_with_player(np: &NowPlaying) -> (r: String)
    ensures
        r@ == words_with_player(*np),
{
    if np.is_playing {
        let track_info = match title_text(np) {
            Some(words) => words,
            None => "Unknown Track".to_owned(),
        };
        match &np.player_name {
            Some(name) => join3(track_info.as_str(), "\n", name.as_str()),
            None => track_info,
        }
    } else {
        match &np.player_name {
            Some(name) => join(name.as_str(), " - Not Playing"),
            None => "Music Assistant".to_owned(),
        }
    }
}

/// After any updates the last complete one is remembered, or what was remembered
/// before them where none was complete.
pub proof fn last_complete_update_is_remembered(
    current: NowPlaying,
    updates: Seq<NowPlaying>,
    last: int,
)
    requires
        -1 <= last < updates.len(),
        last >= 0 ==> !is_incomplete(updates[last]),
        forall|i: int| last < i < updates.len() ==> is_incomplete(#[trigger] updates[i]),
    ensures
        remembered_after(current, updates) == (if last >= 0 {
            updates[last]
        } else {
            current
        }),
    decreases updates.len(),
{
    if updates.len() > 0 && last < updates.len() - 1 {
        let rest = updates.drop_last();
        assert(is_incomplete(updates[updates.len() - 1]));
        assert forall|i: int| last < i < rest.len() implies is_incomplete(#[trigger] rest[i]) by {
            assert(rest[i] == updates[i]);
        }
        last_complete_update_is_remembered(current, rest, last);
    }
}

/// A state that is remembered has a title to show while something is playing:
/// no placeholder is ever put into words for it.
pub proof fn remembered_state_has_a_title(np: NowPlaying)
    requires
        !is_incomplete(np),
        np.is_playing,
    ensures
        title(np) is Some,
        plain_words(np) == title(np)->Some_0,
        words_with_player(np) == (match np.player_name {
            Some(name) => title(np)->Some_0 + "\n"@ + name@,
            None => title(np)->Some_0,
        }),
{
}

/// An update is remembered exactly where nothing plays or the track is known,
/// whatever else it holds; else what was remembered stays.
pub proof fn update_is_remembered_unless_the_track_is_missing(
    current: NowPlaying,
    update: NowPlaying,
)
    ensures
        !update.is_playing || update.track is Some ==> remembered(current, update) == update,
        update.is_playing && update.track is None ==> remembered(current, update) == current,
        is_incomplete(update) <==> update.is_playing && update.track is None,
{
}

/// What is read back, as far as something plays, has a track.
pub proof fn what_plays_has_a_track(state: NowPlayingState, np: NowPlaying)
    requires
        call_ensures(get_now_playing, (&state,), np),
    ensures
        np == state.current(),
        np.is_playing ==> np.track is Some,
{
}

/// Whether two states tell the same.
pub open spec fn tells_the_same(a: NowPlaying, b: NowPlaying) -> bool {
    &&& a.is_playing == b.is_playing
    &&& a.track == b.track && a.artist == b.artist && a.album == b.album
    &&& a.image_url == b.image_url && a.player_name == b.player_name && a.player_id == b.player_id
    &&& a.duration == b.duration && a.elapsed == b.elapsed
    &&& a.can_play == b.can_play && a.can_pause == b.can_pause
    &&& a.can_next == b.can_next && a.can_previous == b.can_previous
}

/// A copy tells the same in every field, and to begin with nothing is playing and
/// nothing is known.
pub proof fn copies_tell_the_same(
    np: NowPlaying,
    copy: NowPlaying,
    blank: NowPlaying,
    fresh: NowPlayingState,
)
    requires
        call_ensures(NowPlaying::clone, (&np,), copy),
        call_ensures(NowPlaying::default, (), blank),
        call_ensures(NowPlayingState::new, (), fresh),
    ensures
        tells_the_same(np, copy),
        !blank.is_playing && blank.track is None && blank.artist is None && blank.album is None,
        blank.image_url is None && blank.player_name is None && blank.player_id is None,
        blank.duration is None && blank.elapsed is None,
        !blank.can_play && !blank.can_pause && !blank.can_next && !blank.can_previous,
        tells_the_same(fresh.current(), blank),
        fresh.subscribers().len() == 0,
{
}

/// The words for the state, the player left out: that nothing plays; or artist and
/// track, or the track alone; or that something plays, where the track is not
/// known. Nothing else about the state matters.
pub proof fn words_tell_artist_and_track(np: NowPlaying, words: String)
    requires
        call_ensures(format_now_playing, (&np,), words),
    ensures
        !np.is_playing ==> words@ == "Music Assistant - Not Playing"@,
        np.is_playing && np.track is None ==> words@ == "Music Assistant - Playing"@,
        np.is_playing && np.track is Some && np.artist is None ==> words@ == np.track->Some_0@,
        np.is_playing && np.track is Some && np.artist is Some ==> words@ == np.artist->Some_0@
            + " - "@ + np.track->Some_0@,
{
}

/// The words for the state with the player: while something plays, artist and track
/// as far as they are known, and the player on a line of its own where it is
/// known; else the player, and that it does not play.
pub proof fn words_tell_the_player_too(np: NowPlaying, words: String)
    requires
        call_ensures(format_now_playing_with_player, (&np,), words),
    ensures
        !np.is_playing && np.player_name is None ==> words@ == "Music Assistant"@,
        !np.is_playing && np.player_name is Some ==> words@ == np.player_name->Some_0@
            + " - Not Playing"@,
        np.is_playing ==> ({
            let about = if np.track is None {
                "Unknown Track"@
            } else if np.artist is None {
                np.track->Some_0@
            } else {
                np.artist->Some_0@ + " - "@ + np.track->Some_0@
            };
            &&& np.player_name is None ==> words@ == about
            &&& np.player_name is Some ==> words@ == about + "\n"@ + np.player_name->Some_0@
        }),
{
}

/// Taking an update: where nothing plays or the track is known, it is remembered
/// and passed on as it is to all subscribers, in their order; else nothing changes
/// and nobody is told. Who is told of updates stays the same.
pub proof fn accepted_update_is_remembered_and_told(
    state: &mut NowPlayingState,
    update: NowPlaying,
    told: Option<Broadcast>,
)
    requires
        call_ensures(update_now_playing, (state, update), told),
    ensures
        final(state).subscribers() == old(state).subscribers(),
        !update.is_playing || update.track is Some ==> final(state).current() == update && (
        told matches Some(broadcast) && broadcast.now_playing == update
            && broadcast.subscribers@ == old(state).subscribers()),
        update.is_playing && update.track is None ==> final(state).current()
            == old(state).current() && told is None,
{
}

/// One who asks to be told is told of every later update, after all who asked
/// before; what is remembered stays.
pub proof fn subscriber_is_told_last(state: &mut NowPlayingState, subscriber: u64, k: int)
    requires
        call_ensures(on_now_playing_change, (state, subscriber), ()),
    ensures
        final(state).current() == old(state).current(),
        final(state).subscribers().len() == old(state).subscribers().len() + 1,
        final(state).subscribers().last() == subscriber,
        0 <= k < old(state).subscribers().len() ==> final(state).subscribers()[k] == old(
            state,
        ).subscribers()[k],
{
}

} // verus!
