//! The playback session: per-track commands, one sink per playable track in
//! playlist order, the choice of the sink whose end the session awaits, and
//! the wait itself.
//!
//! The driver that owns decoders and sinks runs the session as a loop: it asks
//! [`Session::next_action`] what to do, opens what it is told to open, and
//! reports back with [`Session::opened`] or [`Session::open_failed`].

use crate::clock::{offset_seconds, time_failure_message};
use crate::playlist::{joined_path, Playlist, PlaylistView};
use vstd::prelude::*;

verus! {

/// What the driver must do to play one track.
#[derive(Debug)]
pub struct TrackCommand {
    /// Index of the track in the playlist.
    pub track: usize,
    /// The file, joined to the playlist's base path.
    pub path: String,
    /// Seconds to seek before playback.
    pub seek_secs: u64,
    /// Seconds trimmed after the seek.
    pub skip_secs: u64,
    /// Milliseconds to play; zero for the whole remaining stream.
    pub take_ms: u64,
    /// Whether the trimmed window repeats without end.
    pub looped: bool,
    /// Linear gain as decimal text.
    pub volume: String,
}

pub struct CommandView {
    pub track: usize,
    pub path: Seq<char>,
    pub seek_secs: u64,
    pub skip_secs: u64,
    pub take_ms: u64,
    pub looped: bool,
    pub volume: Seq<char>,
}

impl View for TrackCommand {
    type V = CommandView;

    open spec fn view(&self) -> CommandView {
        CommandView {
            track: self.track,
            path: self.path@,
            seek_secs: self.seek_secs,
            skip_secs: self.skip_secs,
            take_ms: self.take_ms,
            looped: self.looped,
            volume: self.volume@,
        }
    }
}

/// The command for track `i` of `pl`: none where its start position or its
/// playback duration is not a valid time string.
pub open spec fn command_of(pl: PlaylistView, i: int) -> Option<CommandView> {
    let t = pl.tracks[i];
    match (offset_seconds(t.start_position), offset_seconds(t.playback_duration)) {
        (Some(seek), Some(take)) => Some(
            CommandView {
                track: i as usize,
                path: joined_path(pl.base_path, t.file),
                seek_secs: seek as u64,
                skip_secs: t.skip,
                take_ms: (take * 1000) as u64,
                looped: pl.repeat,
                volume: pl.volume,
            },
        ),
        _ => None,
    }
}

/// Derives the command for track `i`: seek to its start position, trim its
/// skip, play its playback duration, loop if the playlist repeats. Fails with
/// the diagnostic of the first time string that cannot be read.
pub fn track_command(playlist: &Playlist, i: usize) -> (r: Result<TrackCommand, String>)
    requires
        i < playlist@.tracks.len(),
    ensures
        r is Ok <==> command_of(playlist@, i as int) is Some,
        r matches Ok(c) ==> c@ == command_of(playlist@, i as int)->Some_0,
        r matches Err(m) ==> m@ == (if offset_seconds(playlist@.tracks[i as int].start_position) is None {
            time_failure_message(playlist@.tracks[i as int].start_position)
        } else {
            time_failure_message(playlist@.tracks[i as int].playback_duration)
        }),
{
    let tracks = playlist.tracks();
    assert(tracks@.map_values(|t: crate::playlist::Track| t@)[i as int] == tracks@[i as int]@);
    let track = &tracks[i];
    let seek = match track.start_position() {
        Ok(s) => s,
        Err(m) => {
            return Err(m);
        },
    };
    let take = match track.take_seconds() {
        Ok(t) => t,
        Err(m) => {
            return Err(m);
        },
    };
    Ok(
        TrackCommand {
            track: i,
            path: track.path(playlist.base_path()),
            seek_secs: seek,
            skip_secs: track.skip(),
            take_ms: take * 1000,
            looped: playlist.repeat(),
            volume: String::from_str(playlist.volume()),
        },
    )
}

/// The length of a take window: the command's own, or, where it asks for the
/// whole stream, the duration that the decoder reports, zero if it reports none.
pub open spec fn window_of(take_ms: u64, reported_ms: Option<u64>) -> u64 {
    if take_ms > 0 {
        take_ms
    } else {
        match reported_ms {
            Some(ms) => ms,
            None => 0,
        }
    }
}

pub fn take_window_ms(take_ms: u64, reported_ms: Option<u64>) -> (r: u64)
    ensures
        r == window_of(take_ms, reported_ms),
{
    if take_ms > 0 {
        take_ms
    } else {
        match reported_ms {
            Some(ms) => ms,
            None => 0,
        }
    }
}

/// One sink of the session.
#[derive(Clone, Copy, PartialEq, Eq, Debug)]
pub struct SinkPlan {
    /// Index of the track it plays.
    pub track: usize,
    /// Milliseconds of its take window.
    pub window_ms: u64,
    /// Whether the window repeats without end.
    pub looped: bool,
}

pub open spec fn windows_of(sinks: Seq<SinkPlan>) -> Seq<u64> {
    sinks.map_values(|s: SinkPlan| s.window_ms)
}

/// `k` is the primary among windows `ws`: the longest, the earliest of equals.
pub open spec fn is_primary(ws: Seq<u64>, k: int) -> bool {
    &&& 0 <= k < ws.len()
    &&& forall|j: int| 0 <= j < ws.len() ==> ws[j] <= ws[k]
    &&& forall|j: int| 0 <= j < k ==> ws[j] < ws[k]
}

/// The sink whose end the session awaits: the one with the longest take window,
/// the earliest of several equally long ones.
pub fn primary_sink(sinks: &Vec<SinkPlan>) -> (r: usize)
    requires
        sinks@.len() > 0,
    ensures
        is_primary(windows_of(sinks@), r as int),
{
    let mut best: usize = 0;
    let mut i: usize = 1;
    while i < sinks.len()
        invariant
            1 <= i <= sinks@.len(),
            best < i,
            forall|j: int| 0 <= j < i ==> sinks@[j].window_ms <= sinks@[best as int].window_ms,
            forall|j: int| 0 <= j < best ==> sinks@[j].window_ms < sinks@[best as int].window_ms,
        decreases sinks@.len() - i,
    {
        if sinks[i].window_ms > sinks[best].window_ms {
            best = i;
        }
        i = i + 1;
    }
    best
}

/// The primary rule picks one sink at most: the longest window, the earliest
/// of equals, is unique.
pub proof fn lemma_primary_unique(ws: Seq<u64>, a: int, b: int)
    requires
        is_primary(ws, a),
        is_primary(ws, b),
    ensures
        a == b,
{
    if a < b {
        assert(ws[a] < ws[b]);
        assert(ws[a] >= ws[b]);
    } else if b < a {
        assert(ws[b] < ws[a]);
        assert(ws[b] >= ws[a]);
    }
}

/// What the driver found when it opened a track.
#[derive(Debug)]
pub enum TrackOutcome {
    /// The file could not be opened, decoded or seeked.
    Unplayable,
    /// A sink was set up; the decoder reported this total duration, if any.
    Playable { reported_ms: Option<u64> },
}

/// Track `i` ends up with a sink: its command exists and the driver opened it.
pub open spec fn playable(pl: PlaylistView, outcomes: Seq<TrackOutcome>, i: int) -> bool {
    command_of(pl, i) is Some && outcomes[i] is Playable
}

/// The sinks of the first `k` tracks, given what the driver found for each.
pub open spec fn sink_plans(pl: PlaylistView, outcomes: Seq<TrackOutcome>, k: int) -> Seq<
    SinkPlan,
>
    decreases k,
{
    if k <= 0 {
        Seq::empty()
    } else {
        let before = sink_plans(pl, outcomes, k - 1);
        if playable(pl, outcomes, k - 1) {
            before.push(
                SinkPlan {
                    track: (k - 1) as usize,
                    window_ms: window_of(
                        command_of(pl, k - 1)->Some_0.take_ms,
                        outcomes[k - 1]->reported_ms,
                    ),
                    looped: pl.repeat,
                },
            )
        } else {
            before
        }
    }
}

/// The tracks, among the first `k`, that get no sink, in order.
pub open spec fn failed_tracks(pl: PlaylistView, outcomes: Seq<TrackOutcome>, k: int) -> Seq<usize>
    decreases k,
{
    if k <= 0 {
        Seq::empty()
    } else if playable(pl, outcomes, k - 1) {
        failed_tracks(pl, outcomes, k - 1)
    } else {
        failed_tracks(pl, outcomes, k - 1).push((k - 1) as usize)
    }
}

/// What the driver is to do next.
#[derive(Debug)]
pub enum Action {
    /// Open this track and report with [`Session::opened`] or
    /// [`Session::open_failed`].
    Open(TrackCommand),
    /// Every track is set up: await the end of sink `sink`, the one of track
    /// `track`, which never comes for a looped one, and keep all sinks alive
    /// meanwhile.
    Await { sink: usize, track: usize, looped: bool },
    /// Every track is set up and not one could be played.
    NothingPlayable,
}

/// A failure that kept one track from playing.
#[derive(Debug)]
pub struct TrackFailure {
    pub track: usize,
    pub cause: String,
}

pub struct SessionView {
    pub playlist: PlaylistView,
    pub outcomes: Seq<TrackOutcome>,
    pub pending: Option<CommandView>,
    pub sinks: Seq<SinkPlan>,
    pub failed: Seq<usize>,
}

/// The scheduler's state: tracks are decided in playlist order, each either
/// getting a sink or being recorded as failed.
pub struct Session {
    playlist: Playlist,
    count: usize,
    next: usize,
    pending: Option<TrackCommand>,
    sinks: Vec<SinkPlan>,
    failures: Vec<TrackFailure>,
    outcomes: Ghost<Seq<TrackOutcome>>,
}

impl View for Session {
    type V = SessionView;

    closed spec fn view(&self) -> SessionView {
        SessionView {
            playlist: self.playlist@,
            outcomes: self.outcomes@,
            pending: match self.pending {
                Some(c) => Some(c@),
                None => None,
            },
            sinks: self.sinks@,
            failed: self.failures@.map_values(|f: TrackFailure| f.track),
        }
    }
}

/// A well-formed session view: the sinks and the failures are those of the
/// tracks decided so far, and a pending command is that of the next track.
pub open spec fn session_wf(s: SessionView) -> bool {
    &&& s.outcomes.len() <= s.playlist.tracks.len()
    &&& s.sinks == sink_plans(s.playlist, s.outcomes, s.outcomes.len() as int)
    &&& s.failed == failed_tracks(s.playlist, s.outcomes, s.outcomes.len() as int)
    &&& s.pending matches Some(c) ==> s.outcomes.len() < s.playlist.tracks.len() && command_of(
        s.playlist,
        s.outcomes.len() as int,
    ) == Some(c)
}

impl Session {
    /// Well-formed: [`session_wf`] holds of the view, and the private counters
    /// agree with it.
    pub closed spec fn wf(&self) -> bool {
        &&& session_wf(self@)
        &&& self.next == self.outcomes@.len()
        &&& self.count == self.playlist@.tracks.len()
    }

    /// A session over `playlist` with no track decided yet.
    pub fn new(playlist: Playlist) -> (r: Session)
        ensures
            r.wf(),
            session_wf(r@),
            r@.playlist == playlist@,
            r@.outcomes == Seq::<TrackOutcome>::empty(),
            r@.pending is None,
    {
        let count = playlist.tracks().len();
        let r = Session {
            playlist,
            count,
            next: 0,
            pending: None,
            sinks: Vec::new(),
            failures: Vec::new(),
            outcomes: Ghost(Seq::empty()),
        };
        assert(r.sinks@ == sink_plans(r.playlist@, r.outcomes@, 0));
        assert(r@.failed =~= failed_tracks(r.playlist@, r.outcomes@, 0));
        r
    }

    /// Decides tracks up to the next one to open, recording those whose
    /// command cannot be derived as failed; once all are decided, names the
    /// sink to await.
    pub fn next_action(&mut self) -> (r: Action)
        requires
            old(self).wf(),
            old(self)@.pending is None,
        ensures
            final(self).wf(),
            session_wf(final(self)@),
            final(self)@.playlist == old(self)@.playlist,
            old(self)@.outcomes.len() <= final(self)@.outcomes.len(),
            final(self)@.outcomes.subrange(0, old(self)@.outcomes.len() as int) == old(self)@.outcomes,
            forall|i: int|
                old(self)@.outcomes.len() <= i < final(self)@.outcomes.len() ==> command_of(
                    final(self)@.playlist,
                    i,
                ) is None,
            r matches Action::Open(c) ==> final(self)@.pending == Some(c@),
            !(r is Open) ==> final(self)@.pending is None && final(self)@.outcomes.len()
                == final(self)@.playlist.tracks.len(),
            r matches Action::Await { sink, track, looped } ==> is_primary(
                windows_of(final(self)@.sinks),
                sink as int,
            ) && track == final(self)@.sinks[sink as int].track
                && looped == final(self)@.sinks[sink as int].looped,
            r is NothingPlayable <==> !(r is Open) && final(self)@.sinks.len() == 0,
    {
        let ghost start = self.outcomes@;
        let n = self.count;
        while self.next < n
            invariant
                n == self.playlist@.tracks.len(),
                self.wf(),
                self@.pending is None,
                self.playlist@ == old(self)@.playlist,
                start == old(self)@.outcomes,
                start.len() <= self.outcomes@.len(),
                self.outcomes@.subrange(0, start.len() as int) == start,
                forall|i: int|
                    start.len() <= i < self.outcomes@.len() ==> command_of(self.playlist@, i) is None,
            decreases n - self.next,
        {
            match track_command(&self.playlist, self.next) {
                Ok(c) => {
                    self.pending = Some(c.clone_command());
                    return Action::Open(c);
                },
                Err(cause) => {
                    let ghost before = self.outcomes@;
                    let ghost failed_before = self@.failed;
                    self.failures.push(TrackFailure { track: self.next, cause });
                    assert(self@.failed =~= failed_before.push(self.next as usize));
                    self.outcomes = Ghost(self.outcomes@.push(TrackOutcome::Unplayable));
                    self.next = self.next + 1;
                    assert(self.outcomes@.subrange(0, start.len() as int) == start) by {
                        assert(before.subrange(0, start.len() as int) == start);
                    }
                    assert(forall|i: int| 0 <= i < before.len() ==> self.outcomes@[i] == before[i]);
                    proof {
                        lemma_sink_plans_prefix(self.playlist@, before, self.outcomes@, before.len() as int);
                    }
                },
            }
        }
        if self.sinks.len() == 0 {
            Action::NothingPlayable
        } else {
            let k = primary_sink(&self.sinks);
            Action::Await { sink: k, track: self.sinks[k].track, looped: self.sinks[k].looped }
        }
    }

    /// Reports that the pending track was opened and given a sink; returns
    /// that sink's plan, whose window the driver applies.
    pub fn opened(&mut self, reported_ms: Option<u64>) -> (r: SinkPlan)
        requires
            old(self).wf(),
            old(self)@.pending is Some,
        ensures
            final(self).wf(),
            session_wf(final(self)@),
            final(self)@.playlist == old(self)@.playlist,
            final(self)@.pending is None,
            final(self)@.outcomes == old(self)@.outcomes.push(TrackOutcome::Playable { reported_ms }),
            final(self)@.sinks == old(self)@.sinks.push(r),
            r == (SinkPlan {
                track: old(self)@.outcomes.len() as usize,
                window_ms: window_of(old(self)@.pending->Some_0.take_ms, reported_ms),
                looped: old(self)@.playlist.repeat,
            }),
    {
        let c = self.pending.take().unwrap();
        let plan = SinkPlan {
            track: self.next,
            window_ms: take_window_ms(c.take_ms, reported_ms),
            looped: c.looped,
        };
        let ghost before = self.outcomes@;
        self.sinks.push(plan);
        self.outcomes = Ghost(self.outcomes@.push(TrackOutcome::Playable { reported_ms }));
        self.next = self.next + 1;
        proof {
            lemma_sink_plans_prefix(self.playlist@, before, self.outcomes@, before.len() as int);
        }
        plan
    }

    /// Reports that the pending track could not be opened, decoded or seeked:
    /// it is recorded as failed and gets no sink.
    pub fn open_failed(&mut self, cause: String)
        requires
            old(self).wf(),
            old(self)@.pending is Some,
        ensures
            final(self).wf(),
            session_wf(final(self)@),
            final(self)@.playlist == old(self)@.playlist,
            final(self)@.pending is None,
            final(self)@.outcomes == old(self)@.outcomes.push(TrackOutcome::Unplayable),
            final(self)@.sinks == old(self)@.sinks,
    {
        self.pending = None;
        let ghost before = self.outcomes@;
        let ghost failed_before = self@.failed;
        self.failures.push(TrackFailure { track: self.next, cause });
        assert(self@.failed =~= failed_before.push(self.next as usize));
        self.outcomes = Ghost(self.outcomes@.push(TrackOutcome::Unplayable));
        self.next = self.next + 1;
        proof {
            lemma_sink_plans_prefix(self.playlist@, before, self.outcomes@, before.len() as int);
        }
    }

    /// The sinks set up so far, in track order.
    pub fn sinks(&self) -> (r: &Vec<SinkPlan>)
        requires
            self.wf(),
        ensures
            r@ == self@.sinks,
    {
        &self.sinks
    }

    /// The failures recorded so far, in track order.
    pub fn failures(&self) -> (r: &Vec<TrackFailure>)
        requires
            self.wf(),
        ensures
            r@.map_values(|f: TrackFailure| f.track) == failed_tracks(
                self@.playlist,
                self@.outcomes,
                self@.outcomes.len() as int,
            ),
    {
        &self.failures
    }
}

impl TrackCommand {
    pub fn clone_command(&self) -> (r: TrackCommand)
        ensures
            r@ == self@,
    {
        TrackCommand {
            track: self.track,
            path: self.path.clone(),
            seek_secs: self.seek_secs,
            skip_secs: self.skip_secs,
            take_ms: self.take_ms,
            looped: self.looped,
            volume: self.volume.clone(),
        }
    }
}

/// Sink plans and failures depend only on the outcomes of the tracks they cover.
proof fn lemma_sink_plans_prefix(
    pl: PlaylistView,
    a: Seq<TrackOutcome>,
    b: Seq<TrackOutcome>,
    k: int,
)
    requires
        0 <= k <= a.len(),
        k <= b.len(),
        forall|i: int| 0 <= i < k ==> a[i] == b[i],
    ensures
        sink_plans(pl, a, k) == sink_plans(pl, b, k),
        failed_tracks(pl, a, k) == failed_tracks(pl, b, k),
    decreases k,
{
    if k > 0 {
        lemma_sink_plans_prefix(pl, a, b, k - 1);
    }
}

/// The indices of the tracks, among the first `k`, that end up with a sink.
pub open spec fn playable_tracks(pl: PlaylistView, outcomes: Seq<TrackOutcome>, k: int) -> Seq<
    int,
> {
    Seq::new(k as nat, |i: int| i).filter(|i: int| playable(pl, outcomes, i))
}

/// Tracks that cannot be played are left out, and nothing else is: the sinks
/// belong to the playable tracks, one each, in playlist order, whatever failed
/// around them.
pub proof fn lemma_sinks_are_playable_tracks(
    pl: PlaylistView,
    outcomes: Seq<TrackOutcome>,
    k: int,
)
    requires
        0 <= k <= outcomes.len(),
        k <= usize::MAX,
    ensures
        sink_plans(pl, outcomes, k).map_values(|s: SinkPlan| s.track as int) == playable_tracks(
            pl,
            outcomes,
            k,
        ),
    decreases k,
{
    reveal(Seq::filter);
    let ids = Seq::new(k as nat, |i: int| i);
    let pred = |i: int| playable(pl, outcomes, i);
    let tracks_of = |s: SinkPlan| s.track as int;
    if k == 0 {
        assert(ids.filter(pred) =~= Seq::empty());
        assert(sink_plans(pl, outcomes, k).map_values(tracks_of) =~= Seq::empty());
    } else {
        lemma_sinks_are_playable_tracks(pl, outcomes, k - 1);
        assert(ids.drop_last() == Seq::new((k - 1) as nat, |i: int| i));
        assert(ids.last() == k - 1);
        let before = sink_plans(pl, outcomes, k - 1);
        assert(before.map_values(tracks_of) == ids.drop_last().filter(pred));
        if playable(pl, outcomes, k - 1) {
            let plan = sink_plans(pl, outcomes, k).last();
            assert(sink_plans(pl, outcomes, k) == before.push(plan));
            assert(ids.filter(pred) == ids.drop_last().filter(pred).push(k - 1));
            assert(before.push(plan).map_values(tracks_of) =~= before.map_values(tracks_of).push(
                k - 1,
            ));
        } else {
            assert(ids.filter(pred) == ids.drop_last().filter(pred));
        }
    }
}

/// The take window of track `i`, as its command and the driver's report give it.
pub open spec fn track_window(pl: PlaylistView, outcomes: Seq<TrackOutcome>, i: int) -> u64 {
    window_of(command_of(pl, i)->Some_0.take_ms, outcomes[i]->reported_ms)
}

/// What every sink plan of the first `k` tracks is: a playable track among
/// them, with its window; the tracks rise strictly; every playable one has a
/// sink.
proof fn lemma_sink_plans_facts(pl: PlaylistView, outcomes: Seq<TrackOutcome>, k: int)
    requires
        0 <= k <= outcomes.len(),
        k <= usize::MAX,
    ensures
        forall|j: int|
            0 <= j < sink_plans(pl, outcomes, k).len() ==> {
                let p = #[trigger] sink_plans(pl, outcomes, k)[j];
                &&& 0 <= p.track < k
                &&& playable(pl, outcomes, p.track as int)
                &&& p.window_ms == track_window(pl, outcomes, p.track as int)
            },
        forall|j1: int, j2: int|
            0 <= j1 < j2 < sink_plans(pl, outcomes, k).len() ==> sink_plans(pl, outcomes, k)[j1].track
                < sink_plans(pl, outcomes, k)[j2].track,
        forall|i: int|
            0 <= i < k && playable(pl, outcomes, i) ==> exists|j: int|
                0 <= j < sink_plans(pl, outcomes, k).len() && (#[trigger] sink_plans(
                    pl,
                    outcomes,
                    k,
                )[j]).track == i,
    decreases k,
{
    if k > 0 {
        lemma_sink_plans_facts(pl, outcomes, k - 1);
        let before = sink_plans(pl, outcomes, k - 1);
        let now = sink_plans(pl, outcomes, k);
        if playable(pl, outcomes, k - 1) {
            assert(now == before.push(now.last()));
            assert forall|i: int| 0 <= i < k && playable(pl, outcomes, i) implies exists|j: int|
                0 <= j < now.len() && (#[trigger] now[j]).track == i by {
                if i == k - 1 {
                    assert(now[now.len() - 1].track == i);
                } else {
                    let j = choose|j: int| 0 <= j < before.len() && (#[trigger] before[j]).track == i;
                    assert(now[j] == before[j]);
                }
            }
        }
    }
}

/// The awaited sink belongs to the playable track with the longest take
/// window, the earliest of equals: tracks that got no sink take no part in
/// the choice.
pub proof fn lemma_primary_among_playable(pl: PlaylistView, outcomes: Seq<TrackOutcome>, k: int)
    requires
        outcomes.len() <= usize::MAX,
        is_primary(windows_of(sink_plans(pl, outcomes, outcomes.len() as int)), k),
    ensures
        playable(pl, outcomes, awaited_track(pl, outcomes, k)),
        forall|i: int|
            0 <= i < outcomes.len() && playable(pl, outcomes, i) ==> track_window(pl, outcomes, i)
                <= track_window(pl, outcomes, awaited_track(pl, outcomes, k)),
        forall|i: int|
            0 <= i < awaited_track(pl, outcomes, k) && playable(pl, outcomes, i) ==> track_window(
                pl,
                outcomes,
                i,
            ) < track_window(pl, outcomes, awaited_track(pl, outcomes, k)),
{
    let n = outcomes.len() as int;
    let s = sink_plans(pl, outcomes, n);
    lemma_sink_plans_facts(pl, outcomes, n);
    let t = awaited_track(pl, outcomes, k);
    assert(s[k].track == t);
    assert(windows_of(s)[k] == s[k].window_ms);
    assert forall|i: int| 0 <= i < n && playable(pl, outcomes, i) implies track_window(pl, outcomes, i)
        <= track_window(pl, outcomes, t) && (i < t ==> track_window(pl, outcomes, i) < track_window(
        pl,
        outcomes,
        t,
    )) by {
        let j = choose|j: int| 0 <= j < s.len() && (#[trigger] s[j]).track == i;
        assert(windows_of(s)[j] == s[j].window_ms);
        if i < t && k <= j {
            if k < j {
                assert(s[k].track < s[j].track);
            }
        }
    }
}

/// The track of the `k`-th sink once every track is decided.
pub open spec fn awaited_track(pl: PlaylistView, outcomes: Seq<TrackOutcome>, k: int) -> int {
    sink_plans(pl, outcomes, outcomes.len() as int)[k].track as int
}

/// What the awaiting driver observes.
#[derive(Debug)]
pub enum WaitEvent {
    /// The awaited sink has played everything it was given.
    Drained,
    /// A stop request arrived from outside.
    Stop,
}

pub struct WaitView {
    pub looped: bool,
    pub done: bool,
}

/// The wait after one more event: a stop ends it; the awaited sink draining
/// ends it unless that sink loops, which never ends by itself.
pub open spec fn wait_step(w: WaitView, e: WaitEvent) -> WaitView {
    match e {
        WaitEvent::Stop => WaitView { looped: w.looped, done: true },
        WaitEvent::Drained => WaitView { looped: w.looped, done: w.done || !w.looped },
    }
}

/// The wait after the events `es`, in order.
pub open spec fn wait_run(w: WaitView, es: Seq<WaitEvent>) -> WaitView {
    es.fold_left(w, |acc: WaitView, e: WaitEvent| wait_step(acc, e))
}

/// The session's final, blocking wait on its primary sink.
#[derive(Debug)]
pub struct Completion {
    looped: bool,
    done: bool,
}

impl View for Completion {
    type V = WaitView;

    closed spec fn view(&self) -> WaitView {
        WaitView { looped: self.looped, done: self.done }
    }
}

impl Completion {
    /// The wait on a primary sink that loops or not.
    pub fn new(looped: bool) -> (r: Completion)
        ensures
            r@ == (WaitView { looped, done: false }),
    {
        Completion { looped, done: false }
    }

    /// Takes in one event; returns whether the wait is over.
    pub fn observe(&mut self, e: WaitEvent) -> (r: bool)
        ensures
            final(self)@ == wait_step(old(self)@, e),
            r == final(self)@.done,
    {
        match e {
            WaitEvent::Stop => {
                self.done = true;
            },
            WaitEvent::Drained => {
                if !self.looped {
                    self.done = true;
                }
            },
        }
        self.done
    }

    pub fn is_done(&self) -> (r: bool)
        ensures
            r == self@.done,
    {
        self.done
    }
}

/// The wait ends exactly when a stop request comes, or when the awaited sink
/// drains and does not loop. So a wait on a looping sink ends on a stop and on
/// nothing else.
pub proof fn lemma_wait_ends(looped: bool, es: Seq<WaitEvent>)
    ensures
        wait_run(WaitView { looped, done: false }, es).done <==> (es.contains(WaitEvent::Stop) || (
        !looped && es.contains(WaitEvent::Drained))),
        wait_run(WaitView { looped, done: false }, es).looped == looped,
    decreases es.len(),
{
    if es.len() > 0 {
        let rest = es.drop_last();
        lemma_wait_ends(looped, rest);
        assert forall|e: WaitEvent| es.contains(e) <==> (rest.contains(e) || es.last() == e) by {
            if es.contains(e) {
                let i = choose|i: int| 0 <= i < es.len() && es[i] == e;
                if i < es.len() - 1 {
                    assert(rest[i] == e);
                }
            }
            if rest.contains(e) {
                let i = choose|i: int| 0 <= i < rest.len() && rest[i] == e;
                assert(es[i] == e);
            }
            if es.last() == e {
                assert(es[es.len() - 1] == e);
            }
        }
    }
}

} // verus!
