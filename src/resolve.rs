//! Turning a declarative track list, from flat per-file parameters or from a
//! playlist document, into a [`Playlist`].

use crate::document::{
    harvest, harvest_document, json_document, parse_document, texts_of, Harvest, JsonValue,
};
use crate::playlist::{Playlist, PlaylistView, Track, TrackView};
use crate::structured::{structured_playlist, structured_view};
use vstd::prelude::*;

verus! {

/// Why a playlist could not be resolved.
#[derive(Debug)]
pub enum PlaylistError {
    /// The playlist source could not be read.
    Io { path: String, cause: String },
    /// The document is not JSON, or neither a playlist nor a document that
    /// names any file.
    Format { cause: String },
    /// A per-file list was given but holds fewer values than there are files.
    Contract { field: String, supplied: usize, files: usize },
}

/// Per-file parameters, correlated by index with `files`. An empty list means
/// "none given"; a list that is given covers every file.
#[derive(Debug)]
pub struct FlatParams {
    pub files: Vec<String>,
    /// Seek offsets, as time strings.
    pub positions: Vec<String>,
    /// Seconds trimmed after the seek.
    pub skips: Vec<u64>,
    /// Take windows, as time strings.
    pub takes: Vec<String>,
    pub repeat: bool,
    /// Linear gain as decimal text.
    pub volume: String,
    pub base_path: String,
}

pub struct FlatView {
    pub files: Seq<Seq<char>>,
    pub positions: Seq<Seq<char>>,
    pub skips: Seq<u64>,
    pub takes: Seq<Seq<char>>,
    pub repeat: bool,
    pub volume: Seq<char>,
    pub base_path: Seq<char>,
}

impl View for FlatParams {
    type V = FlatView;

    open spec fn view(&self) -> FlatView {
        FlatView {
            files: texts_of(self.files@),
            positions: texts_of(self.positions@),
            skips: self.skips@,
            takes: texts_of(self.takes@),
            repeat: self.repeat,
            volume: self.volume@,
            base_path: self.base_path@,
        }
    }
}

/// A per-file list of length `len` is usable for `n` files: absent, or long
/// enough.
pub open spec fn covers(len: nat, n: nat) -> bool {
    len == 0 || len >= n
}

/// The first per-file list, in the order positions, skips, takes, that is given
/// but too short: its name and length.
pub open spec fn shortfall(p: FlatView) -> Option<(Seq<char>, nat)> {
    let n = p.files.len();
    if !covers(p.positions.len(), n) {
        Some(("positions"@, p.positions.len()))
    } else if !covers(p.skips.len(), n) {
        Some(("skips"@, p.skips.len()))
    } else if !covers(p.takes.len(), n) {
        Some(("takes"@, p.takes.len()))
    } else {
        None
    }
}

/// The `i`-th entry of a per-file list, or `default` when none was given.
pub open spec fn entry_or<T>(s: Seq<T>, i: int, default: T) -> T {
    if s.len() == 0 {
        default
    } else {
        s[i]
    }
}

/// The track that flat parameters give for file `i`.
pub open spec fn flat_track(p: FlatView, i: int) -> TrackView {
    TrackView {
        file: p.files[i],
        start_position: entry_or(p.positions, i, Seq::empty()),
        rank: 0,
        playback_duration: entry_or(p.takes, i, Seq::empty()),
        skip: entry_or(p.skips, i, 0),
    }
}

/// The playlist that flat parameters give, one track per file in order.
pub open spec fn flat_view(p: FlatView) -> PlaylistView {
    PlaylistView {
        base_path: p.base_path,
        tracks: Seq::new(p.files.len(), |i: int| flat_track(p, i)),
        repeat: p.repeat,
        volume: p.volume,
    }
}

/// What resolving flat parameters `p` yields: the playlist of [`flat_view`], or
/// the contract error that names the first short list.
pub open spec fn flat_outcome(r: Result<Playlist, PlaylistError>, p: FlatView) -> bool {
    match shortfall(p) {
        None => r matches Ok(pl) && pl@ == flat_view(p),
        Some((name, len)) => r matches Err(PlaylistError::Contract { field, supplied, files })
            && field@ == name && supplied == len && files == p.files.len(),
    }
}

/// The volume of a document that gives none: full gain.
pub open spec fn default_volume() -> Seq<char> {
    "1"@
}

/// Flat parameters of a loosely structured document: what its walk gathered
/// replaces files, positions, takes, repeat, volume and base path; the skips
/// are those given beside it.
pub open spec fn harvested_params(h: Harvest, flat: FlatView) -> FlatView {
    FlatView {
        files: h.files,
        positions: h.positions,
        skips: flat.skips,
        takes: h.takes,
        repeat: match h.repeat {
            Some(b) => b,
            None => false,
        },
        volume: match h.volume {
            Some(v) => v,
            None => default_volume(),
        },
        base_path: match h.base_path {
            Some(b) => b,
            None => Seq::empty(),
        },
    }
}

/// What resolving the document `doc`, with flat parameters `flat` beside it,
/// yields: a strict playlist document stands as it is; otherwise the fields
/// gathered from anywhere in it, if they name a file; otherwise the flat
/// parameters, if they name one; otherwise a format error.
pub open spec fn document_outcome(
    r: Result<Playlist, PlaylistError>,
    doc: JsonValue,
    flat: FlatView,
) -> bool {
    match structured_view(doc) {
        Some(p) => r matches Ok(pl) && pl@ == p,
        None => if harvest(doc).files.len() > 0 {
            flat_outcome(r, harvested_params(harvest(doc), flat))
        } else if flat.files.len() > 0 {
            flat_outcome(r, flat)
        } else {
            r is Err && r->Err_0 is Format
        },
    }
}

fn covers_exec(len: usize, n: usize) -> (r: bool)
    ensures
        r == covers(len as nat, n as nat),
{
    len == 0 || len >= n
}

/// Builds the playlist of flat parameters: one track per file, each taking the
/// entry at its index from every per-file list that is given. Fails with a
/// contract error where a list is given but shorter than the file list.
pub fn resolve_flat(params: &FlatParams) -> (r: Result<Playlist, PlaylistError>)
    ensures
        flat_outcome(r, params@),
{
    let n = params.files.len();
    if !covers_exec(params.positions.len(), n) {
        return Err(
            PlaylistError::Contract {
                field: String::from_str("positions"),
                supplied: params.positions.len(),
                files: n,
            },
        );
    }
    if !covers_exec(params.skips.len(), n) {
        return Err(
            PlaylistError::Contract {
                field: String::from_str("skips"),
                supplied: params.skips.len(),
                files: n,
            },
        );
    }
    if !covers_exec(params.takes.len(), n) {
        return Err(
            PlaylistError::Contract {
                field: String::from_str("takes"),
                supplied: params.takes.len(),
                files: n,
            },
        );
    }
    let ghost p = params@;
    let mut tracks: Vec<Track> = Vec::new();
    let mut i: usize = 0;
    while i < n
        invariant
            n == params.files@.len(),
            p == params@,
            shortfall(p) is None,
            i <= n,
            tracks@.len() == i,
            forall|j: int| 0 <= j < i ==> (#[trigger] tracks@[j])@ == flat_track(p, j),
        decreases n - i,
    {
        let start = if params.positions.len() == 0 {
            String::new()
        } else {
            params.positions[i].clone()
        };
        let take = if params.takes.len() == 0 {
            String::new()
        } else {
            params.takes[i].clone()
        };
        let skip = if params.skips.len() == 0 {
            0
        } else {
            params.skips[i]
        };
        let t = Track::new(params.files[i].clone(), start, 0, take, skip);
        tracks.push(t);
        i = i + 1;
    }
    let r = Playlist::new(params.base_path.clone(), tracks, params.repeat, params.volume.clone());
    assert(r@.tracks =~= flat_view(p).tracks);
    Ok(r)
}

fn text_or(s: &Option<String>, default: &str) -> (r: String)
    ensures
        r@ == (match s {
            Some(t) => t@,
            None => default@,
        }),
{
    match s {
        Some(t) => t.clone(),
        None => String::from_str(default),
    }
}

/// Resolves a parsed playlist document, with flat parameters beside it.
///
/// A strict playlist document is read as it is. Any other document is walked
/// for `base_path`, `file`, `position`, `take`, `repeat` and `volume` members;
/// if it names at least one file, what it gathered replaces the flat
/// parameters (their skips stay). Failing that, the flat parameters are used if
/// they name a file, and the document is refused with a format error if not.
pub fn resolve_document(doc: &JsonValue, flat: &FlatParams) -> (r: Result<Playlist, PlaylistError>)
    ensures
        document_outcome(r, *doc, flat@),
{
    let cause = match structured_playlist(doc) {
        Ok(p) => {
            return Ok(p);
        },
        Err(cause) => cause,
    };
    let fields = harvest_document(doc);
    if fields.files.len() > 0 {
        let params = FlatParams {
            files: fields.files,
            positions: fields.positions,
            skips: flat.skips.clone(),
            takes: fields.takes,
            repeat: match fields.repeat {
                Some(b) => b,
                None => false,
            },
            volume: text_or(&fields.volume, "1"),
            base_path: text_or(&fields.base_path, ""),
        };
        proof {
            reveal_strlit("");
        }
        assert(params@.skips == flat@.skips);
        assert(params@.volume == harvested_params(harvest(*doc), flat@).volume);
        assert(params@.base_path == harvested_params(harvest(*doc), flat@).base_path);
        assert(params@ == harvested_params(harvest(*doc), flat@));
        resolve_flat(&params)
    } else if flat.files.len() > 0 {
        resolve_flat(flat)
    } else {
        Err(PlaylistError::Format { cause })
    }
}

/// What resolving the text of a playlist document yields: the outcome of
/// [`document_outcome`] on the document it holds, or, for text that is not
/// JSON, a format error carrying the parser's diagnostic.
pub open spec fn text_outcome(r: Result<Playlist, PlaylistError>, text: Seq<char>, flat: FlatView) -> bool {
    match json_document(text) {
        Ok(doc) => document_outcome(r, doc, flat),
        Err(cause) => r matches Err(PlaylistError::Format { cause: c }) && c@ == cause,
    }
}

/// Resolves a playlist from the text of a playlist document. Text that is not
/// JSON is refused with a format error; a JSON document is resolved as
/// [`resolve_document`] says.
pub fn resolve_text(text: &str, flat: &FlatParams) -> (r: Result<Playlist, PlaylistError>)
    ensures
        text_outcome(r, text@, flat@),
{
    match parse_document(text) {
        Ok(doc) => resolve_document(&doc, flat),
        Err(cause) => Err(PlaylistError::Format { cause }),
    }
}

/// Resolves a playlist file from the outcome of reading it: a failed read is an
/// I/O error that names the path; text is resolved as [`resolve_text`] says.
pub fn resolve_read(path: &str, read: Result<String, String>, flat: &FlatParams) -> (r: Result<
    Playlist,
    PlaylistError,
>)
    ensures
        read is Err ==> (r matches Err(PlaylistError::Io { path: p, cause }) && p@ == path@
            && cause == read->Err_0),
        read matches Ok(text) ==> text_outcome(r, text@, flat@),
{
    match read {
        Ok(text) => resolve_text(text.as_str(), flat),
        Err(cause) => Err(PlaylistError::Io { path: String::from_str(path), cause }),
    }
}

} // verus!
