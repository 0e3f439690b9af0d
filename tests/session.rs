use nightcore::Session;

#[test]
fn new_session_is_idle() {
    let s = Session::new();
    assert!(!s.processing && !s.playing);
    assert_eq!(s.preview_len, 0);
    assert!(!s.can_play());
    assert!(s.can_process(true));
    assert!(!s.can_process(false));
}

#[test]
fn processing_stops_playback_first() {
    let mut s = Session::new();
    s.finish_processing(Some(8));
    s.start_playing();
    assert!(s.playing);
    assert!(s.begin_processing());
    assert!(s.processing && !s.playing);
    assert!(!s.can_process(true));
    assert!(!s.can_play());
}

#[test]
fn processing_while_silent_stops_nothing() {
    let mut s = Session::new();
    assert!(!s.begin_processing());
    assert!(s.processing);
}

#[test]
fn finished_run_replaces_preview() {
    let mut s = Session::new();
    s.begin_processing();
    s.finish_processing(Some(96000));
    assert!(!s.processing);
    assert_eq!(s.preview_len, 96000);
    assert!(s.can_play());
}

#[test]
fn failed_run_keeps_old_preview() {
    let mut s = Session::new();
    s.begin_processing();
    s.finish_processing(Some(4));
    s.begin_processing();
    s.finish_processing(None);
    assert_eq!(s.preview_len, 4);
    assert!(s.can_play());
}

#[test]
fn empty_result_cannot_be_played() {
    let mut s = Session::new();
    s.begin_processing();
    s.finish_processing(Some(0));
    assert!(!s.can_play());
}

#[test]
fn stop_is_always_allowed() {
    let mut s = Session::new();
    s.stop_playing();
    assert!(!s.playing);
    s.finish_processing(Some(2));
    s.start_playing();
    assert!(!s.can_play());
    s.stop_playing();
    assert!(!s.playing && s.can_play());
}
