//! Tracks and playlists: what a resolved playlist holds.

use crate::clock::{offset_seconds, seconds_or_zero, time_failure_message};
use vstd::prelude::*;

verus! {

/// What a track holds, as plain values.
pub struct TrackView {
    pub file: Seq<char>,
    pub start_position: Seq<char>,
    pub rank: u64,
    pub playback_duration: Seq<char>,
    pub skip: u64,
}

/// One playable unit of a playlist.
///
/// `start_position` and `playback_duration` are time strings (`HH:MM:SS`, or
/// empty for none); `skip` is a number of seconds trimmed after the seek; `rank`
/// is an ordering hint, zero where the source gives none.
#[derive(Debug)]
pub struct Track {
    file: String,
    start_position: String,
    rank: u64,
    playback_duration: String,
    skip: u64,
}

impl View for Track {
    type V = TrackView;

    closed spec fn view(&self) -> TrackView {
        TrackView {
            file: self.file@,
            start_position: self.start_position@,
            rank: self.rank,
            playback_duration: self.playback_duration@,
            skip: self.skip,
        }
    }
}

/// `file` joined to `base`: an absolute `file`, or any `file` on an empty base,
/// stands alone; otherwise one `/` separates the two.
pub open spec fn joined_path(base: Seq<char>, file: Seq<char>) -> Seq<char> {
    if base.len() == 0 || (file.len() > 0 && file[0] == '/') {
        file
    } else if base.last() == '/' {
        base + file
    } else {
        base + seq!['/'] + file
    }
}

impl Track {
    pub fn new(
        file: String,
        start_position: String,
        rank: u64,
        playback_duration: String,
        skip: u64,
    ) -> (r: Track)
        ensures
            r@ == (TrackView {
                file: file@,
                start_position: start_position@,
                rank,
                playback_duration: playback_duration@,
                skip,
            }),
    {
        Track { file, start_position, rank, playback_duration, skip }
    }

    pub fn file(&self) -> (r: &str)
        ensures
            r@ == self@.file,
    {
        self.file.as_str()
    }

    /// The seek offset in seconds: zero for an empty start position.
    pub fn start_position(&self) -> (r: Result<u64, String>)
        ensures
            r is Ok <==> offset_seconds(self@.start_position) is Some,
            r matches Ok(v) ==> v == offset_seconds(self@.start_position)->Some_0,
            r matches Err(m) ==> m@ == time_failure_message(self@.start_position),
    {
        seconds_or_zero(self.start_position.as_str())
    }

    pub fn rank(&self) -> (r: u64)
        ensures
            r == self@.rank,
    {
        self.rank
    }

    pub fn playback_duration(&self) -> (r: &str)
        ensures
            r@ == self@.playback_duration,
    {
        self.playback_duration.as_str()
    }

    /// The take window in seconds: zero, for an empty playback duration, means
    /// the whole remaining stream.
    pub fn take_seconds(&self) -> (r: Result<u64, String>)
        ensures
            r is Ok <==> offset_seconds(self@.playback_duration) is Some,
            r matches Ok(v) ==> v == offset_seconds(self@.playback_duration)->Some_0,
            r matches Err(m) ==> m@ == time_failure_message(self@.playback_duration),
    {
        seconds_or_zero(self.playback_duration.as_str())
    }

    pub fn skip(&self) -> (r: u64)
        ensures
            r == self@.skip,
    {
        self.skip
    }

    /// The track's file joined to `base_path`.
    pub fn path(&self, base_path: &str) -> (r: String)
        ensures
            r@ == joined_path(base_path@, self@.file),
    {
        let file = self.file.as_str();
        let n = base_path.unicode_len();
        if n == 0 {
            return String::from_str(file);
        }
        if file.unicode_len() > 0 && file.get_char(0) == '/' {
            return String::from_str(file);
        }
        let base = String::from_str(base_path);
        if base_path.get_char(n - 1) == '/' {
            base.concat(file)
        } else {
            let r = base.concat("/");
            proof {
                reveal_strlit("/");
                assert("/"@ == seq!['/']);
            }
            r.concat(file)
        }
    }
}

/// What a playlist holds, as plain values.
pub struct PlaylistView {
    pub base_path: Seq<char>,
    pub tracks: Seq<TrackView>,
    pub repeat: bool,
    pub volume: Seq<char>,
}

/// A resolved playlist: ordered tracks and the settings shared by all of them.
///
/// `volume` is the linear gain as decimal text (`1` is full volume), handed to
/// every sink alike.
#[derive(Debug)]
pub struct Playlist {
    base_path: String,
    tracks: Vec<Track>,
    repeat: bool,
    volume: String,
}

impl View for Playlist {
    type V = PlaylistView;

    closed spec fn view(&self) -> PlaylistView {
        PlaylistView {
            base_path: self.base_path@,
            tracks: self.tracks@.map_values(|t: Track| t@),
            repeat: self.repeat,
            volume: self.volume@,
        }
    }
}

impl Playlist {
    pub fn new(base_path: String, tracks: Vec<Track>, repeat: bool, volume: String) -> (r:
        Playlist)
        ensures
            r@ == (PlaylistView {
                base_path: base_path@,
                tracks: tracks@.map_values(|t: Track| t@),
                repeat,
                volume: volume@,
            }),
    {
        Playlist { base_path, tracks, repeat, volume }
    }

    pub fn base_path(&self) -> (r: &str)
        ensures
            r@ == self@.base_path,
    {
        self.base_path.as_str()
    }

    pub fn tracks(&self) -> (r: &Vec<Track>)
        ensures
            r@.map_values(|t: Track| t@) == self@.tracks,
    {
        &self.tracks
    }

    pub fn repeat(&self) -> (r: bool)
        ensures
            r == self@.repeat,
    {
        self.repeat
    }

    pub fn volume(&self) -> (r: &str)
        ensures
            r@ == self@.volume,
    {
        self.volume.as_str()
    }
}

} // verus!
