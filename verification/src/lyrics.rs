//! Lyrics of the playing track, and which line and word are being sung.
//! Times are nanoseconds from the start of the track, as exact as the
//! durations they stand for.

use crate::ids::TrackId;
use vstd::prelude::*;

verus! {

/// Whether lyrics are being fetched, are there, or are not to be had.
#[derive(Clone, Copy, PartialEq, Eq, Debug, Structural)]
pub enum LyricsStatus {
    Fetching,
    Available,
    Unavailable,
}

/// How finely the lyrics are timed.
#[derive(Clone, Copy, PartialEq, Eq, Debug, Structural)]
pub enum SyncType {
    Line,
    Word,
    Unsynced,
}

/// A timed word of a line.
pub struct LyricWord {
    pub start_ns: u128,
    pub end_ns: u128,
    pub text: String,
}

/// A line of lyrics, with its start and end when they are known.
pub struct LyricLine {
    pub start_ns: Option<u128>,
    pub end_ns: Option<u128>,
    pub text: String,
    pub words: Option<Vec<LyricWord>>,
}

/// The lyrics of a track.
pub struct Lyrics {
    pub lines: Vec<LyricLine>,
    pub sync_type: SyncType,
}

/// The lyrics state of the player: its status, the lyrics, and the track
/// they belong to.
pub struct LyricsStateInner {
    pub status: LyricsStatus,
    pub lyrics: Option<Lyrics>,
    pub track_id: Option<TrackId>,
}

impl LyricsStateInner {
    /// No lyrics, for no track.
    pub fn new() -> (s: Self)
        ensures
            s.status == LyricsStatus::Unavailable,
            s.lyrics is None,
            s.track_id is None,
    {
        LyricsStateInner { status: LyricsStatus::Unavailable, lyrics: None, track_id: None }
    }
}

impl Default for LyricsStateInner {
    /// The same state as `new`: no lyrics, for no track.
    fn default() -> (s: Self)
        ensures
            s.status == LyricsStatus::Unavailable,
            s.lyrics is None,
            s.track_id is None,
    {
        Self::new()
    }
}

/// The line has a start, and playback has reached it.
pub open spec fn line_started(line: LyricLine, playback: u128) -> bool {
    line.start_ns matches Some(s) && playback >= s
}

/// The line being sung at `playback`: the last line whose start playback has
/// reached, or the first line when there is none.
pub fn active_line(lines: &[LyricLine], playback: u128) -> (r: usize)
    ensures
        (forall|j: int| 0 <= j < lines@.len() ==> !line_started(#[trigger] lines@[j], playback)) ==> r == 0,
        (exists|j: int| 0 <= j < lines@.len() && line_started(#[trigger] lines@[j], playback)) ==> {
            &&& r < lines@.len()
            &&& line_started(lines@[r as int], playback)
            &&& forall|j: int| r < j < lines@.len() ==> !line_started(#[trigger] lines@[j], playback)
        },
{
    let mut i: usize = lines.len();
    while i > 0
        invariant
            i <= lines@.len(),
            forall|j: int| i <= j < lines@.len() ==> !line_started(#[trigger] lines@[j], playback),
        decreases i,
    {
        i = i - 1;
        let started = match lines[i].start_ns {
            Some(s) => playback >= s,
            None => false,
        };
        if started {
            return i;
        }
    }
    0
}

/// The line to scroll to at `playback`: the line being sung, or the line after
/// it (the last line at most) once playback has passed the end of the line
/// being sung.
pub fn display_line(lines: &[LyricLine], playback: u128) -> (r: usize)
    ensures
        ({
            let a = active_line_spec(lines@, playback);
            r == if a < lines@.len() && (lines@[a].end_ns matches Some(e) && playback >= e) {
                if a + 1 < lines@.len() {
                    a + 1
                } else {
                    lines@.len() - 1
                }
            } else {
                a
            }
        }),
{
    let a = active_line(lines, playback);
    proof {
        lemma_active_line_spec(lines@, playback, a);
    }
    if a < lines.len() {
        match lines[a].end_ns {
            Some(e) => {
                if playback >= e {
                    let last = lines.len() - 1;
                    if a + 1 < last {
                        a + 1
                    } else {
                        last
                    }
                } else {
                    a
                }
            },
            None => a,
        }
    } else {
        a
    }
}

/// The line being sung at `playback`, as a spec function: the last line whose
/// start playback has reached, or 0.
pub open spec fn active_line_spec(lines: Seq<LyricLine>, playback: u128) -> int
    decreases lines.len(),
{
    if lines.len() == 0 {
        0
    } else if line_started(lines.last(), playback) {
        lines.len() - 1
    } else {
        active_line_spec(lines.drop_last(), playback)
    }
}

/// What `active_line` returns is `active_line_spec`.
pub proof fn lemma_active_line_spec(lines: Seq<LyricLine>, playback: u128, r: usize)
    requires
        (forall|j: int| 0 <= j < lines.len() ==> !line_started(#[trigger] lines[j], playback)) ==> r == 0,
        (exists|j: int| 0 <= j < lines.len() && line_started(#[trigger] lines[j], playback)) ==> {
            &&& r < lines.len()
            &&& line_started(lines[r as int], playback)
            &&& forall|j: int| r < j < lines.len() ==> !line_started(#[trigger] lines[j], playback)
        },
    ensures
        r == active_line_spec(lines, playback),
    decreases lines.len(),
{
    if lines.len() > 0 {
        if line_started(lines.last(), playback) {
            assert(line_started(lines[lines.len() - 1], playback));
        } else {
            let d = lines.drop_last();
            if exists|j: int| 0 <= j < lines.len() && line_started(#[trigger] lines[j], playback) {
                assert(r != lines.len() - 1);
                assert(line_started(d[r as int], playback));
                assert forall|j: int| r < j < d.len() implies !line_started(#[trigger] d[j], playback) by {
                    assert(d[j] == lines[j]);
                }
            } else {
                assert forall|j: int| 0 <= j < d.len() implies !line_started(#[trigger] d[j], playback) by {
                    assert(d[j] == lines[j]);
                }
            }
            lemma_active_line_spec(d, playback, r);
        }
    }
}

/// How far ahead of the playback position a lyric line looks when it decides
/// whether it is the one being sung: 80 milliseconds, in nanoseconds.
pub const LINE_LOOKAHEAD_NS: u128 = 80_000_000;

/// The longest duration there is, in nanoseconds: `u64::MAX` seconds and
/// 999 999 999 nanoseconds.
pub const MAX_DURATION_NS: u128 = 18_446_744_073_709_551_615_999_999_999;

/// The position a lyric line judges by: the playback position plus the
/// look-ahead. The sum must stay a duration.
pub fn line_position(position: u128) -> (p: u128)
    requires
        position + LINE_LOOKAHEAD_NS <= MAX_DURATION_NS,
    ensures
        p == position + LINE_LOOKAHEAD_NS,
{
    position + LINE_LOOKAHEAD_NS
}

/// Whether line `idx` is the one being sung at the playback position
/// `position`, looking 80 milliseconds ahead, and how many lines away from
/// that line it stands.
pub fn line_focus(lines: &[LyricLine], idx: usize, position: u128) -> (r: (bool, usize))
    requires
        position + LINE_LOOKAHEAD_NS <= MAX_DURATION_NS,
    ensures
        ({
            let a = active_line_spec(lines@, (position + LINE_LOOKAHEAD_NS) as u128);
            &&& r.0 == (idx == a)
            &&& r.1 == if idx >= a { idx - a } else { a - idx }
        }),
{
    let p = line_position(position);
    let a = active_line(lines, p);
    proof {
        lemma_active_line_spec(lines@, p, a);
    }
    let d = if idx >= a {
        idx - a
    } else {
        a - idx
    };
    (idx == a, d)
}

/// How far the singing of a word has come.
#[derive(Clone, Copy, PartialEq, Eq, Debug, Structural)]
pub enum WordProgress {
    /// Playback has not reached the word.
    Before,
    /// The word has been sung.
    Done,
    /// `elapsed` of the word's `span` nanoseconds have been sung, with
    /// `elapsed < span`.
    Partial { elapsed: u128, span: u128 },
}

/// How far the singing of word `idx` has come at `playback`: a word lasts from
/// its start to the start of the next word, or to its own end for the last
/// word of the line.
pub fn word_progress(words: &[LyricWord], idx: usize, playback: u128) -> (r: WordProgress)
    requires
        idx < words@.len(),
    ensures
        ({
            let w = words@[idx as int];
            let next = if idx + 1 < words@.len() { words@[idx + 1].start_ns } else { w.end_ns };
            r == if playback < w.start_ns {
                WordProgress::Before
            } else if playback >= next {
                WordProgress::Done
            } else {
                WordProgress::Partial {
                    elapsed: (playback - w.start_ns) as u128,
                    span: (next - w.start_ns) as u128,
                }
            }
        }),
        r matches WordProgress::Partial { elapsed, span } ==> elapsed < span,
{
    let start = words[idx].start_ns;
    let next = if idx + 1 < words.len() {
        words[idx + 1].start_ns
    } else {
        words[idx].end_ns
    };
    if playback < start {
        WordProgress::Before
    } else if playback >= next {
        WordProgress::Done
    } else {
        let span = next - start;
        let elapsed = playback - start;
        if span == 0 {
            WordProgress::Done
        } else {
            WordProgress::Partial { elapsed, span }
        }
    }
}

} // verus!
