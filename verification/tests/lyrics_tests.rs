use wiremann::lyrics::{
    active_line, display_line, line_focus, line_position, word_progress, LyricLine, LyricWord, LyricsStateInner,
    LyricsStatus, WordProgress,
};

const MS: u128 = 1_000_000;

fn line(start: Option<u128>, end: Option<u128>) -> LyricLine {
    LyricLine { start_ns: start.map(|s| s * MS), end_ns: end.map(|e| e * MS), text: String::new(), words: None }
}

#[test]
fn new_state_has_no_lyrics() {
    let s = LyricsStateInner::new();
    assert_eq!(s.status, LyricsStatus::Unavailable);
    assert!(s.lyrics.is_none());
    assert!(s.track_id.is_none());
}

#[test]
fn active_line_is_last_started() {
    let lines = vec![line(Some(0), Some(900)), line(Some(1000), Some(1900)), line(None, None), line(Some(3000), None)];
    assert_eq!(active_line(&lines, 0), 0);
    assert_eq!(active_line(&lines, 999 * MS), 0);
    assert_eq!(active_line(&lines, 1000 * MS), 1);
    assert_eq!(active_line(&lines, 2999 * MS), 1);
    assert_eq!(active_line(&lines, 5000 * MS), 3);
    assert_eq!(active_line(&[], 5000 * MS), 0);
    let late = vec![line(Some(500), None), line(Some(900), None)];
    assert_eq!(active_line(&late, 10 * MS), 0);
}

#[test]
fn display_line_moves_on_after_line_end() {
    let lines = vec![line(Some(0), Some(900)), line(Some(1000), Some(1900)), line(Some(3000), Some(3500))];
    assert_eq!(display_line(&lines, 500 * MS), 0);
    assert_eq!(display_line(&lines, 950 * MS), 1);
    assert_eq!(display_line(&lines, 1950 * MS), 2);
    assert_eq!(display_line(&lines, 4000 * MS), 2);
    assert_eq!(display_line(&[], 4000 * MS), 0);
    let unsynced = vec![line(None, None), line(None, None)];
    assert_eq!(display_line(&unsynced, 10 * MS), 0);
}

#[test]
fn word_progress_phases() {
    let words = vec![
        LyricWord { start_ns: 100 * MS, end_ns: 150 * MS, text: "a".to_string() },
        LyricWord { start_ns: 200 * MS, end_ns: 260 * MS, text: "b".to_string() },
    ];
    assert_eq!(word_progress(&words, 0, 50 * MS), WordProgress::Before);
    assert_eq!(word_progress(&words, 0, 150 * MS), WordProgress::Partial { elapsed: 50 * MS, span: 100 * MS });
    assert_eq!(word_progress(&words, 0, 200 * MS), WordProgress::Done);
    assert_eq!(word_progress(&words, 1, 230 * MS), WordProgress::Partial { elapsed: 30 * MS, span: 60 * MS });
    assert_eq!(word_progress(&words, 1, 260 * MS), WordProgress::Done);
}

#[test]
fn default_state_is_new_state() {
    let d = LyricsStateInner::default();
    assert_eq!(d.status, LyricsStatus::Unavailable);
    assert!(d.lyrics.is_none());
    assert!(d.track_id.is_none());
}

#[test]
fn times_below_a_millisecond_count() {
    let lines = vec![line(Some(0), None), line(Some(1000), None)];
    assert_eq!(active_line(&lines, 1000 * MS - 1), 0);
    assert_eq!(active_line(&lines, 1000 * MS), 1);
}

#[test]
fn lines_look_eighty_milliseconds_ahead() {
    assert_eq!(line_position(5 * MS), 85 * MS);
    let lines = vec![line(Some(0), None), line(Some(1000), None), line(Some(2000), None), line(Some(3000), None)];
    assert_eq!(line_focus(&lines, 1, 919 * MS), (false, 1));
    assert_eq!(line_focus(&lines, 1, 920 * MS), (true, 0));
    assert_eq!(line_focus(&lines, 3, 920 * MS), (false, 2));
    assert_eq!(line_focus(&lines, 0, 2950 * MS), (false, 3));
}
