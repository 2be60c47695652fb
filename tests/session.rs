use mp3player::{
    primary_sink, take_window_ms, track_command, Action, Completion, Playlist, Session, SinkPlan,
    Track, WaitEvent,
};

fn track(file: &str, start: &str, take: &str) -> Track {
    Track::new(file.to_string(), start.to_string(), 0, take.to_string(), 0)
}

fn playlist(tracks: Vec<Track>, repeat: bool) -> Playlist {
    Playlist::new("/base".to_string(), tracks, repeat, "0.5".to_string())
}

fn plan(track: usize, window_ms: u64) -> SinkPlan {
    SinkPlan { track, window_ms, looped: false }
}

#[test]
fn primary_is_the_longest_window() {
    assert_eq!(primary_sink(&vec![plan(0, 10_000), plan(1, 30_000), plan(2, 20_000)]), 1);
}

#[test]
fn primary_tie_goes_to_the_earliest() {
    assert_eq!(primary_sink(&vec![plan(0, 30_000), plan(1, 20_000), plan(2, 30_000)]), 0);
    assert_eq!(primary_sink(&vec![plan(0, 5), plan(1, 5), plan(2, 5)]), 0);
    assert_eq!(primary_sink(&vec![plan(0, 0)]), 0);
}

#[test]
fn take_window_falls_back_to_the_reported_duration() {
    assert_eq!(take_window_ms(10_000, Some(99_000)), 10_000);
    assert_eq!(take_window_ms(0, Some(99_000)), 99_000);
    assert_eq!(take_window_ms(0, None), 0);
}

#[test]
fn track_command_derives_seek_take_and_loop() {
    let pl = playlist(vec![track("a.mp3", "00:01:00", "00:00:30"), track("/abs/b.mp3", "", "")], true);
    let c = track_command(&pl, 0).unwrap();
    assert_eq!(c.track, 0);
    assert_eq!(c.path, "/base/a.mp3");
    assert_eq!(c.seek_secs, 60);
    assert_eq!(c.skip_secs, 0);
    assert_eq!(c.take_ms, 30_000);
    assert!(c.looped);
    assert_eq!(c.volume, "0.5");
    let c = track_command(&pl, 1).unwrap();
    assert_eq!(c.path, "/abs/b.mp3");
    assert_eq!(c.seek_secs, 0);
    assert_eq!(c.take_ms, 0);
}

#[test]
fn track_command_fails_on_a_bad_time_string() {
    let pl = playlist(vec![track("a.mp3", "00:99:00", "")], false);
    let message = track_command(&pl, 0).err().unwrap();
    assert!(message.contains("\"00:99:00\""));
}

fn expect_open(session: &mut Session) -> mp3player::TrackCommand {
    match session.next_action() {
        Action::Open(c) => c,
        _ => panic!("expected a track to open"),
    }
}

#[test]
fn unplayable_track_is_skipped_and_the_rest_still_play() {
    let pl = playlist(
        vec![
            track("a.mp3", "", "00:00:10"),
            track("missing.mp3", "", "00:00:50"),
            track("c.mp3", "", "00:00:30"),
        ],
        false,
    );
    let mut session = Session::new(pl);
    let c = expect_open(&mut session);
    assert_eq!(c.track, 0);
    let s = session.opened(None);
    assert_eq!(s, SinkPlan { track: 0, window_ms: 10_000, looped: false });
    let c = expect_open(&mut session);
    assert_eq!(c.track, 1);
    session.open_failed("No such file or directory".to_string());
    let c = expect_open(&mut session);
    assert_eq!(c.track, 2);
    session.opened(Some(1_000));
    match session.next_action() {
        Action::Await { sink, track, looped } => {
            assert_eq!(sink, 1);
            assert_eq!(track, 2);
            assert!(!looped);
        }
        _ => panic!("expected the session to await a sink"),
    }
    let sinks = session.sinks();
    assert_eq!(sinks.len(), 2);
    assert_eq!(sinks[0].track, 0);
    assert_eq!(sinks[1].track, 2);
    assert_eq!(session.failures().len(), 1);
    assert_eq!(session.failures()[0].track, 1);
}

#[test]
fn longest_playable_track_is_awaited_when_another_fails() {
    let pl = playlist(
        vec![
            track("a.mp3", "", "00:00:10"),
            track("b.mp3", "", "00:00:30"),
            track("missing.mp3", "", "00:01:00"),
        ],
        false,
    );
    let mut session = Session::new(pl);
    expect_open(&mut session);
    session.opened(None);
    expect_open(&mut session);
    session.opened(None);
    expect_open(&mut session);
    session.open_failed("No such file or directory".to_string());
    assert!(matches!(session.next_action(), Action::Await { sink: 1, track: 1, looped: false }));
    let pl = playlist(
        vec![
            track("missing.mp3", "", "00:00:40"),
            track("b.mp3", "", "00:00:20"),
            track("c.mp3", "", "00:00:20"),
        ],
        false,
    );
    let mut session = Session::new(pl);
    expect_open(&mut session);
    session.open_failed("No such file or directory".to_string());
    expect_open(&mut session);
    session.opened(None);
    expect_open(&mut session);
    session.opened(None);
    assert!(matches!(session.next_action(), Action::Await { sink: 0, track: 1, looped: false }));
}

#[test]
fn tracks_with_bad_time_strings_are_recorded_without_opening() {
    let pl = playlist(
        vec![track("a.mp3", "bad", ""), track("b.mp3", "", ""), track("c.mp3", "", "x")],
        true,
    );
    let mut session = Session::new(pl);
    let c = expect_open(&mut session);
    assert_eq!(c.track, 1);
    let s = session.opened(Some(42_000));
    assert_eq!(s, SinkPlan { track: 1, window_ms: 42_000, looped: true });
    match session.next_action() {
        Action::Await { sink, track, looped } => {
            assert_eq!(sink, 0);
            assert_eq!(track, 1);
            assert!(looped);
        }
        _ => panic!("expected the session to await a sink"),
    }
    let failed: Vec<usize> = session.failures().iter().map(|f| f.track).collect();
    assert_eq!(failed, vec![0, 2]);
}

#[test]
fn session_with_nothing_playable_says_so() {
    let pl = playlist(vec![track("a.mp3", "", ""), track("b.mp3", "", "")], false);
    let mut session = Session::new(pl);
    expect_open(&mut session);
    session.open_failed("cannot decode".to_string());
    expect_open(&mut session);
    session.open_failed("cannot decode".to_string());
    assert!(matches!(session.next_action(), Action::NothingPlayable));
    let mut empty = Session::new(playlist(vec![], false));
    assert!(matches!(empty.next_action(), Action::NothingPlayable));
}

#[test]
fn primary_follows_the_longest_playable_window() {
    let pl = playlist(
        vec![track("a.mp3", "", "00:00:10"), track("b.mp3", "", "00:00:30"), track("c.mp3", "", "00:00:20")],
        false,
    );
    let mut session = Session::new(pl);
    for _ in 0..3 {
        expect_open(&mut session);
        session.opened(None);
    }
    assert!(matches!(session.next_action(), Action::Await { sink: 1, track: 1, looped: false }));
}

#[test]
fn looping_wait_ends_only_on_stop() {
    let mut wait = Completion::new(true);
    assert!(!wait.is_done());
    assert!(!wait.observe(WaitEvent::Drained));
    assert!(!wait.observe(WaitEvent::Drained));
    assert!(wait.observe(WaitEvent::Stop));
    assert!(wait.is_done());
}

#[test]
fn plain_wait_ends_when_the_sink_drains() {
    let mut wait = Completion::new(false);
    assert!(wait.observe(WaitEvent::Drained));
    let mut wait = Completion::new(false);
    assert!(wait.observe(WaitEvent::Stop));
}
