use mp3player::{
    harvest_document, parse_decimal_u64, parse_document, resolve_document, resolve_flat,
    resolve_read, resolve_text, structured_playlist, FlatParams, JsonValue, PlaylistError,
};

const PLAYLIST: &str = r#"{
  "base_path": "/foo",
  "tracks": [
    {"file": "assets/tracks/MusMus-BGM-136.mp3", "start_position": "00:02:20", "rank": 1, "playback_duration": "00:00:10"},
    {"file": "assets/tracks/MusMus-BGM-162.mp3", "start_position": "00:02:30", "rank": 2, "playback_duration": "00:00:20"}
  ],
  "repeat": false,
  "volume": 0.1
}"#;

fn no_flat() -> FlatParams {
    FlatParams {
        files: vec![],
        positions: vec![],
        skips: vec![],
        takes: vec![],
        repeat: false,
        volume: "1".to_string(),
        base_path: String::new(),
    }
}

fn strings(items: &[&str]) -> Vec<String> {
    items.iter().map(|s| s.to_string()).collect()
}

#[test]
fn structured_playlist_is_read_as_given() {
    let playlist = resolve_text(PLAYLIST, &no_flat()).unwrap();
    assert_eq!(playlist.base_path(), "/foo");
    assert_eq!(playlist.repeat(), false);
    assert_eq!(playlist.volume(), "0.1");
    let tracks = playlist.tracks();
    assert_eq!(tracks.len(), 2);
    assert_eq!(tracks[0].file(), "assets/tracks/MusMus-BGM-136.mp3");
    assert_eq!(tracks[0].start_position(), Ok(140));
    assert_eq!(tracks[0].rank(), 1);
    assert_eq!(tracks[0].playback_duration(), "00:00:10");
    assert_eq!(tracks[1].file(), "assets/tracks/MusMus-BGM-162.mp3");
    assert_eq!(tracks[1].start_position(), Ok(150));
    assert_eq!(tracks[1].rank(), 2);
    assert_eq!(tracks[1].playback_duration(), "00:00:20");
}

#[test]
fn missing_playlist_file_is_an_io_error_naming_the_path() {
    let read = Err("Os { code: 2, kind: NotFound, message: \"No such file or directory\" }".to_string());
    match resolve_read("nonexistent_file.json", read, &no_flat()) {
        Err(PlaylistError::Io { path, cause }) => {
            assert_eq!(path, "nonexistent_file.json");
            assert!(cause.contains("NotFound"));
        }
        _ => panic!("expected an I/O error"),
    }
}

#[test]
fn read_playlist_text_is_resolved() {
    let playlist = resolve_read("playlist.json", Ok(PLAYLIST.to_string()), &no_flat()).unwrap();
    assert_eq!(playlist.tracks().len(), 2);
}

#[test]
fn text_that_is_not_json_is_a_format_error() {
    match resolve_text("dummy\n", &no_flat()) {
        Err(PlaylistError::Format { cause }) => {
            assert_eq!(cause, "Error(\"expected value\", line: 1, column: 1)");
        }
        _ => panic!("expected a format error"),
    }
}

#[test]
fn json_naming_no_file_is_a_format_error() {
    assert!(matches!(
        resolve_text("{\"tracks\": 3}", &no_flat()),
        Err(PlaylistError::Format { .. })
    ));
    assert!(matches!(resolve_text("[1, 2]", &no_flat()), Err(PlaylistError::Format { .. })));
}

#[test]
fn short_position_list_is_a_contract_error() {
    let params = FlatParams {
        files: strings(&["a.mp3", "b.mp3"]),
        positions: strings(&["00:00:10"]),
        ..no_flat()
    };
    match resolve_flat(&params) {
        Err(PlaylistError::Contract { field, supplied, files }) => {
            assert_eq!(field, "positions");
            assert_eq!(supplied, 1);
            assert_eq!(files, 2);
        }
        _ => panic!("expected a contract error"),
    }
}

#[test]
fn short_skip_and_take_lists_are_contract_errors() {
    let params = FlatParams {
        files: strings(&["a.mp3", "b.mp3", "c.mp3"]),
        skips: vec![1, 2],
        ..no_flat()
    };
    assert!(matches!(
        resolve_flat(&params),
        Err(PlaylistError::Contract { ref field, supplied: 2, files: 3 }) if field == "skips"
    ));
    let params = FlatParams {
        files: strings(&["a.mp3", "b.mp3"]),
        takes: strings(&["00:00:01"]),
        ..no_flat()
    };
    assert!(matches!(
        resolve_flat(&params),
        Err(PlaylistError::Contract { ref field, supplied: 1, files: 2 }) if field == "takes"
    ));
}

#[test]
fn flat_parameters_give_one_track_per_file() {
    let params = FlatParams {
        files: strings(&["a.mp3", "b.mp3"]),
        positions: strings(&["00:00:10", "00:01:00"]),
        skips: vec![],
        takes: strings(&["00:00:05", ""]),
        repeat: true,
        volume: "0.5".to_string(),
        base_path: "/music".to_string(),
    };
    let playlist = resolve_flat(&params).unwrap();
    assert_eq!(playlist.base_path(), "/music");
    assert!(playlist.repeat());
    assert_eq!(playlist.volume(), "0.5");
    let tracks = playlist.tracks();
    assert_eq!(tracks.len(), 2);
    assert_eq!(tracks[0].file(), "a.mp3");
    assert_eq!(tracks[0].start_position(), Ok(10));
    assert_eq!(tracks[0].take_seconds(), Ok(5));
    assert_eq!(tracks[0].skip(), 0);
    assert_eq!(tracks[0].rank(), 0);
    assert_eq!(tracks[1].start_position(), Ok(60));
    assert_eq!(tracks[1].take_seconds(), Ok(0));
}

#[test]
fn longer_lists_and_no_files_are_accepted() {
    let params = FlatParams {
        files: strings(&["a.mp3"]),
        skips: vec![3, 4],
        ..no_flat()
    };
    let playlist = resolve_flat(&params).unwrap();
    assert_eq!(playlist.tracks().len(), 1);
    assert_eq!(playlist.tracks()[0].skip(), 3);
    assert_eq!(playlist.tracks()[0].start_position(), Ok(0));
    assert_eq!(resolve_flat(&no_flat()).unwrap().tracks().len(), 0);
}

const LOOSE: &str = r#"{
  "session": {"base_path": "/loose", "repeat": true, "volume": 2},
  "items": [
    {"file": "one.mp3", "position": "00:00:01", "take": "00:00:02"},
    [{"wrapped": {"file": "two.mp3", "position": "00:00:03", "take": "00:00:04", "skip": 9}}]
  ]
}"#;

#[test]
fn loose_document_is_walked_depth_first() {
    let doc = parse_document(LOOSE).unwrap();
    let fields = harvest_document(&doc);
    assert_eq!(fields.files, strings(&["one.mp3", "two.mp3"]));
    assert_eq!(fields.positions, strings(&["00:00:01", "00:00:03"]));
    assert_eq!(fields.takes, strings(&["00:00:02", "00:00:04"]));
    assert_eq!(fields.base_path, Some("/loose".to_string()));
    assert_eq!(fields.repeat, Some(true));
    assert_eq!(fields.volume, Some("2".to_string()));
}

#[test]
fn loose_document_replaces_flat_parameters() {
    let flat = FlatParams {
        files: strings(&["ignored.mp3"]),
        positions: strings(&["00:00:30"]),
        skips: vec![7, 8],
        takes: vec![],
        repeat: false,
        volume: "0.3".to_string(),
        base_path: "/flat".to_string(),
    };
    let playlist = resolve_text(LOOSE, &flat).unwrap();
    assert_eq!(playlist.base_path(), "/loose");
    assert!(playlist.repeat());
    assert_eq!(playlist.volume(), "2");
    let tracks = playlist.tracks();
    assert_eq!(tracks.len(), 2);
    assert_eq!(tracks[0].file(), "one.mp3");
    assert_eq!(tracks[0].start_position(), Ok(1));
    assert_eq!(tracks[0].take_seconds(), Ok(2));
    assert_eq!(tracks[0].skip(), 7);
    assert_eq!(tracks[1].file(), "two.mp3");
    assert_eq!(tracks[1].start_position(), Ok(3));
    assert_eq!(tracks[1].skip(), 8);
}

#[test]
fn loose_document_without_settings_takes_defaults() {
    let playlist = resolve_text(r#"[{"file": "x.mp3"}]"#, &no_flat()).unwrap();
    assert_eq!(playlist.base_path(), "");
    assert!(!playlist.repeat());
    assert_eq!(playlist.volume(), "1");
    assert_eq!(playlist.tracks().len(), 1);
}

#[test]
fn loose_document_with_short_positions_is_a_contract_error() {
    let text = r#"{"a": {"file": "x.mp3", "position": "00:00:01"}, "b": {"file": "y.mp3"}}"#;
    assert!(matches!(
        resolve_text(text, &no_flat()),
        Err(PlaylistError::Contract { supplied: 1, files: 2, .. })
    ));
}

#[test]
fn document_naming_no_file_falls_back_to_flat_parameters() {
    let flat = FlatParams { files: strings(&["a.mp3"]), ..no_flat() };
    let playlist = resolve_text("{\"other\": 1}", &flat).unwrap();
    assert_eq!(playlist.tracks().len(), 1);
    assert_eq!(playlist.tracks()[0].file(), "a.mp3");
}

#[test]
fn strict_playlist_needs_every_field() {
    let missing_volume = r#"{"base_path": "", "tracks": [], "repeat": false}"#;
    let doc = parse_document(missing_volume).unwrap();
    assert!(structured_playlist(&doc).is_err());
    let bad_rank = r#"{"base_path": "", "tracks": [{"file": "a", "start_position": "", "rank": -1, "playback_duration": ""}], "repeat": false, "volume": 1}"#;
    let doc = parse_document(bad_rank).unwrap();
    assert!(structured_playlist(&doc).is_err());
    let float_rank = r#"{"base_path": "", "tracks": [{"file": "a", "start_position": "", "rank": 1.5, "playback_duration": ""}], "repeat": false, "volume": 1}"#;
    let doc = parse_document(float_rank).unwrap();
    assert!(structured_playlist(&doc).is_err());
    let good = r#"{"base_path": "", "tracks": [{"file": "a", "start_position": "", "rank": 7, "playback_duration": ""}], "repeat": true, "volume": 1, "extra": null}"#;
    let doc = parse_document(good).unwrap();
    let playlist = structured_playlist(&doc).unwrap();
    assert_eq!(playlist.tracks()[0].rank(), 7);
    assert!(playlist.repeat());
}

#[test]
fn document_values_keep_their_kind() {
    let doc = parse_document(r#"{"b": [true, null, "s", 12], "a": {}}"#).unwrap();
    match doc {
        JsonValue::Object(members) => {
            assert_eq!(members.len(), 2);
            assert_eq!(members[0].0, "a");
            assert_eq!(members[1].0, "b");
            match &members[1].1 {
                JsonValue::Array(items) => {
                    assert!(matches!(items[0], JsonValue::Bool(true)));
                    assert!(matches!(items[1], JsonValue::Null));
                    assert!(matches!(&items[2], JsonValue::Str(s) if s == "s"));
                    assert!(matches!(&items[3], JsonValue::Number(t) if t == "12"));
                }
                _ => panic!("expected an array"),
            }
        }
        _ => panic!("expected an object"),
    }
    assert!(parse_document("{").is_err());
}

#[test]
fn strict_document_wins_over_flat_parameters() {
    let flat = FlatParams { files: strings(&["a.mp3"]), ..no_flat() };
    let doc = parse_document(PLAYLIST).unwrap();
    let playlist = resolve_document(&doc, &flat).unwrap();
    assert_eq!(playlist.tracks().len(), 2);
    assert_eq!(playlist.base_path(), "/foo");
}

#[test]
fn decimal_ranks_are_read_exactly() {
    assert_eq!(parse_decimal_u64("0"), Some(0));
    assert_eq!(parse_decimal_u64("42"), Some(42));
    assert_eq!(parse_decimal_u64("18446744073709551615"), Some(u64::MAX));
    assert_eq!(parse_decimal_u64("18446744073709551616"), None);
    assert_eq!(parse_decimal_u64(""), None);
    assert_eq!(parse_decimal_u64("1.0"), None);
    assert_eq!(parse_decimal_u64("-1"), None);
}
