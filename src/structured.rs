//! The strict playlist document: an object with `base_path`, `tracks`,
//! `repeat` and `volume`, each track an object with `file`, `start_position`,
//! `rank` and `playback_duration`.

use crate::clock::{is_digit, is_digit_char};
use crate::document::{same_text, JsonValue};
use crate::playlist::{Playlist, PlaylistView, Track, TrackView};
use vstd::prelude::*;

verus! {

/// The value of the first member of `ms` named `key`.
pub open spec fn member(ms: Seq<(String, JsonValue)>, key: Seq<char>) -> Option<JsonValue>
    decreases ms.len(),
{
    if ms.len() == 0 {
        None
    } else if ms[0].0@ == key {
        Some(ms[0].1)
    } else {
        member(ms.drop_first(), key)
    }
}

/// The text of the member `key` of `ms`, where it is a string.
pub open spec fn member_text(ms: Seq<(String, JsonValue)>, key: Seq<char>) -> Option<Seq<char>> {
    match member(ms, key) {
        Some(JsonValue::Str(s)) => Some(s@),
        _ => None,
    }
}

/// The value of the decimal digits `s`.
pub open spec fn digits_value(s: Seq<char>) -> int
    decreases s.len(),
{
    if s.len() == 0 {
        0
    } else {
        10 * digits_value(s.drop_last()) + (s.last() as int - '0' as int)
    }
}

pub open spec fn all_digits(s: Seq<char>) -> bool {
    forall|i: int| 0 <= i < s.len() ==> is_digit(#[trigger] s[i])
}

/// The unsigned 64-bit integer that the number text `s` spells, if any.
pub open spec fn decimal_u64(s: Seq<char>) -> Option<u64> {
    if s.len() > 0 && all_digits(s) && digits_value(s) <= u64::MAX {
        Some(digits_value(s) as u64)
    } else {
        None
    }
}

/// The rank member of a track object: a number that is an unsigned integer.
pub open spec fn member_rank(ms: Seq<(String, JsonValue)>) -> Option<u64> {
    match member(ms, "rank"@) {
        Some(JsonValue::Number(t)) => decimal_u64(t@),
        _ => None,
    }
}

/// The track that a track object stands for.
pub open spec fn track_view_of(v: JsonValue) -> Option<TrackView> {
    match v {
        JsonValue::Object(ms) => {
            let file = member_text(ms@, "file"@);
            let start = member_text(ms@, "start_position"@);
            let rank = member_rank(ms@);
            let duration = member_text(ms@, "playback_duration"@);
            if file is Some && start is Some && rank is Some && duration is Some {
                Some(
                    TrackView {
                        file: file->Some_0,
                        start_position: start->Some_0,
                        rank: rank->Some_0,
                        playback_duration: duration->Some_0,
                        skip: 0,
                    },
                )
            } else {
                None
            }
        },
        _ => None,
    }
}

/// The tracks that a run of track objects stands for: none if any one fails.
pub open spec fn track_views_of(items: Seq<JsonValue>) -> Option<Seq<TrackView>>
    decreases items.len(),
{
    if items.len() == 0 {
        Some(Seq::empty())
    } else {
        match (track_views_of(items.drop_last()), track_view_of(items.last())) {
            (Some(ts), Some(t)) => Some(ts.push(t)),
            _ => None,
        }
    }
}

/// The playlist that a strict playlist document stands for, if it is one.
pub open spec fn structured_view(v: JsonValue) -> Option<PlaylistView> {
    match v {
        JsonValue::Object(ms) => {
            let base = member_text(ms@, "base_path"@);
            let tracks = match member(ms@, "tracks"@) {
                Some(JsonValue::Array(items)) => track_views_of(items@),
                _ => None,
            };
            let repeat = match member(ms@, "repeat"@) {
                Some(JsonValue::Bool(b)) => Some(b),
                _ => None,
            };
            let volume = match member(ms@, "volume"@) {
                Some(JsonValue::Number(t)) => Some(t@),
                _ => None,
            };
            if base is Some && tracks is Some && repeat is Some && volume is Some {
                Some(
                    PlaylistView {
                        base_path: base->Some_0,
                        tracks: tracks->Some_0,
                        repeat: repeat->Some_0,
                        volume: volume->Some_0,
                    },
                )
            } else {
                None
            }
        },
        _ => None,
    }
}

/// The first member of `ms` named `key`.
fn find_member<'a>(ms: &'a Vec<(String, JsonValue)>, key: &str) -> (r: Option<&'a JsonValue>)
    ensures
        r matches Some(x) ==> member(ms@, key@) == Some(*x),
        r is None ==> member(ms@, key@) is None,
{
    let mut i: usize = 0;
    assert(ms@.skip(0) == ms@);
    while i < ms.len()
        invariant
            i <= ms@.len(),
            member(ms@, key@) == member(ms@.skip(i as int), key@),
        decreases ms@.len() - i,
    {
        assert(ms@.skip(i as int)[0] == ms@[i as int]);
        if same_text(&ms[i].0, key) {
            return Some(&ms[i].1);
        }
        assert(ms@.skip(i as int).drop_first() == ms@.skip(i + 1));
        i = i + 1;
    }
    None
}

fn find_text<'a>(ms: &'a Vec<(String, JsonValue)>, key: &str) -> (r: Option<&'a String>)
    ensures
        r matches Some(s) ==> member_text(ms@, key@) == Some(s@),
        r is None ==> member_text(ms@, key@) is None,
{
    match find_member(ms, key) {
        Some(JsonValue::Str(s)) => Some(s),
        _ => None,
    }
}

proof fn lemma_digits_value_grows(s: Seq<char>, k: int)
    requires
        all_digits(s),
        0 <= k <= s.len(),
    ensures
        0 <= digits_value(s.take(k)) <= digits_value(s),
    decreases s.len(),
{
    if s.len() > 0 {
        assert(all_digits(s.drop_last()));
        if k == s.len() {
            assert(s.take(k) == s);
            lemma_digits_value_grows(s.drop_last(), k - 1);
        } else {
            assert(s.drop_last().take(k) == s.take(k));
            lemma_digits_value_grows(s.drop_last(), k);
        }
        assert(s.drop_last().take(s.len() - 1) == s.drop_last());
    } else {
        assert(s.take(k) == s);
    }
}

/// Reads an unsigned decimal integer that fills the whole of `s`.
pub fn parse_decimal_u64(s: &str) -> (r: Option<u64>)
    ensures
        r == decimal_u64(s@),
{
    let n = s.unicode_len();
    if n == 0 {
        return None;
    }
    let mut v: u64 = 0;
    let mut i: usize = 0;
    while i < n
        invariant
            i <= n,
            n == s@.len(),
            all_digits(s@.take(i as int)),
            v == digits_value(s@.take(i as int)),
        decreases n - i,
    {
        let c = s.get_char(i);
        if !is_digit_char(c) {
            return None;
        }
        let ghost next = s@.take(i + 1);
        assert(next.drop_last() == s@.take(i as int));
        assert(all_digits(next));
        let d = (c as u32 - '0' as u32) as u64;
        let scaled = v.checked_mul(10);
        let sum = match scaled {
            Some(m) => m.checked_add(d),
            None => None,
        };
        match sum {
            Some(w) => {
                v = w;
            },
            None => {
                proof {
                    if all_digits(s@) {
                        lemma_digits_value_grows(s@, i + 1);
                    }
                }
                return None;
            },
        }
        i = i + 1;
    }
    assert(s@.take(n as int) == s@);
    Some(v)
}

fn find_rank(ms: &Vec<(String, JsonValue)>) -> (r: Option<u64>)
    ensures
        r == member_rank(ms@),
{
    match find_member(ms, "rank") {
        Some(JsonValue::Number(t)) => parse_decimal_u64(t.as_str()),
        _ => None,
    }
}

fn track_of(v: &JsonValue) -> (r: Option<Track>)
    ensures
        r matches Some(t) ==> track_view_of(*v) == Some(t@),
        r is None ==> track_view_of(*v) is None,
{
    match v {
        JsonValue::Object(ms) => {
            let file = find_text(ms, "file");
            let start = find_text(ms, "start_position");
            let rank = find_rank(ms);
            let duration = find_text(ms, "playback_duration");
            match (file, start, rank, duration) {
                (Some(f), Some(s), Some(k), Some(d)) => Some(
                    Track::new(f.clone(), s.clone(), k, d.clone(), 0),
                ),
                _ => None,
            }
        },
        _ => None,
    }
}

fn tracks_of(items: &Vec<JsonValue>) -> (r: Option<Vec<Track>>)
    ensures
        r matches Some(ts) ==> track_views_of(items@) == Some(ts@.map_values(|t: Track| t@)),
        r is None ==> track_views_of(items@) is None,
{
    let mut tracks: Vec<Track> = Vec::new();
    let mut i: usize = 0;
    while i < items.len()
        invariant
            i <= items@.len(),
            track_views_of(items@.take(i as int)) == Some(tracks@.map_values(|t: Track| t@)),
        decreases items@.len() - i,
    {
        let ghost before = tracks@;
        assert(items@.take(i + 1).drop_last() == items@.take(i as int));
        match track_of(&items[i]) {
            Some(t) => {
                tracks.push(t);
                assert(tracks@.map_values(|t: Track| t@) == before.map_values(|t: Track| t@).push(
                    t@,
                ));
            },
            None => {
                proof {
                    lemma_track_views_prefix(items@, i + 1);
                }
                return None;
            },
        }
        i = i + 1;
    }
    assert(items@.take(i as int) == items@);
    Some(tracks)
}

/// Once a prefix of the track objects fails, the whole run fails.
proof fn lemma_track_views_prefix(items: Seq<JsonValue>, k: int)
    requires
        0 <= k <= items.len(),
        track_views_of(items.take(k)) is None,
    ensures
        track_views_of(items) is None,
    decreases items.len(),
{
    if k < items.len() {
        assert(items.drop_last().take(k) == items.take(k));
        lemma_track_views_prefix(items.drop_last(), k);
    } else {
        assert(items.take(k) == items);
    }
}

/// Reads a strict playlist document. On failure the error says what is
/// missing or of the wrong kind.
pub fn structured_playlist(doc: &JsonValue) -> (r: Result<Playlist, String>)
    ensures
        r is Ok <==> structured_view(*doc) is Some,
        r matches Ok(p) ==> p@ == structured_view(*doc)->Some_0,
{
    let ms = match doc {
        JsonValue::Object(ms) => ms,
        _ => {
            return Err(String::from_str("invalid type: expected a playlist object"));
        },
    };
    let base = match find_text(ms, "base_path") {
        Some(b) => b,
        None => {
            return Err(String::from_str("missing or mistyped field `base_path`"));
        },
    };
    let tracks = match find_member(ms, "tracks") {
        Some(JsonValue::Array(items)) => match tracks_of(items) {
            Some(ts) => ts,
            None => {
                return Err(String::from_str("a member of `tracks` is not a valid track"));
            },
        },
        _ => {
            return Err(String::from_str("missing or mistyped field `tracks`"));
        },
    };
    let repeat = match find_member(ms, "repeat") {
        Some(JsonValue::Bool(b)) => *b,
        _ => {
            return Err(String::from_str("missing or mistyped field `repeat`"));
        },
    };
    let volume = match find_member(ms, "volume") {
        Some(JsonValue::Number(t)) => t.clone(),
        _ => {
            return Err(String::from_str("missing or mistyped field `volume`"));
        },
    };
    Ok(Playlist::new(base.clone(), tracks, repeat, volume))
}

} // verus!
