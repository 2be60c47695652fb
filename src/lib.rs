//! Playlist resolution and playback-session scheduling for a command-line
//! audio player.
//!
//! A declarative track list, given as flat per-file parameters or as a JSON
//! playlist document, is resolved into a [`Playlist`]; a [`Session`] then turns
//! each track into a command for the audio driver, keeps one sink per playable
//! track, and names the sink whose end the session awaits.

pub mod clock;
pub mod document;
pub mod playlist;
pub mod resolve;
pub mod session;
pub mod structured;

pub use clock::{seconds_or_zero, time_string_to_seconds};
pub use document::{harvest_document, parse_document, DocumentFields, JsonValue};
pub use playlist::{Playlist, Track};
pub use resolve::{
    resolve_document, resolve_flat, resolve_read, resolve_text, FlatParams, PlaylistError,
};
pub use session::{
    primary_sink, take_window_ms, track_command, Action, Completion, Session, SinkPlan,
    TrackCommand, TrackFailure, TrackOutcome, WaitEvent,
};
pub use structured::{parse_decimal_u64, structured_playlist};
