//! What the queue and the lyrics panel do when the player's state changes:
//! rebuild their rows, and scroll to the entry that is playing or sung.

use crate::ids::TrackId;
use crate::layout::same_track;
use vstd::prelude::*;

verus! {

/// Two lists of tracks hold the same identifiers in the same order.
pub open spec fn same_tracks(a: Seq<TrackId>, b: Seq<TrackId>) -> bool {
    a.len() == b.len() && forall|i: int| 0 <= i < a.len() ==> #[trigger] a[i].0@ == b[i].0@
}

/// Two optional tracks are both absent or the same track.
pub open spec fn same_current(a: Option<TrackId>, b: Option<TrackId>) -> bool {
    match (a, b) {
        (None, None) => true,
        (Some(x), Some(y)) => x.0@ == y.0@,
        _ => false,
    }
}

fn tracks_equal(a: &Vec<TrackId>, b: &[TrackId]) -> (r: bool)
    ensures
        r == same_tracks(a@, b@),
{
    if a.len() != b.len() {
        return false;
    }
    let mut i: usize = 0;
    while i < a.len()
        invariant
            a@.len() == b@.len(),
            i <= a@.len(),
            forall|j: int| 0 <= j < i ==> #[trigger] a@[j].0@ == b@[j].0@,
        decreases a@.len() - i,
    {
        if !same_track(&a[i], &b[i]) {
            return false;
        }
        i = i + 1;
    }
    true
}

fn order_equal(a: &Vec<usize>, b: &[usize]) -> (r: bool)
    ensures
        r == (a@ == b@),
{
    if a.len() != b.len() {
        return false;
    }
    let mut i: usize = 0;
    while i < a.len()
        invariant
            a@.len() == b@.len(),
            i <= a@.len(),
            forall|j: int| 0 <= j < i ==> a@[j] == b@[j],
        decreases a@.len() - i,
    {
        if a[i] != b[i] {
            return false;
        }
        i = i + 1;
    }
    assert(a@ =~= b@);
    true
}

fn current_equal(a: Option<TrackId>, b: Option<TrackId>) -> (r: bool)
    ensures
        r == same_current(a, b),
{
    match (a, b) {
        (None, None) => true,
        (Some(x), Some(y)) => same_track(&x, &y),
        _ => false,
    }
}

fn copy_vec<T: Copy>(s: &[T]) -> (v: Vec<T>)
    ensures
        v@ == s@,
{
    let mut v: Vec<T> = Vec::new();
    let mut i: usize = 0;
    while i < s.len()
        invariant
            i <= s@.len(),
            v@ =~= s@.take(i as int),
        decreases s@.len() - i,
    {
        v.push(s[i]);
        i = i + 1;
    }
    assert(s@.take(s@.len() as int) =~= s@);
    v
}

/// The queue differs from the one last shown: other tracks, or another order.
pub open spec fn queue_differs(last_tracks: Seq<TrackId>, last_order: Seq<usize>, tracks: Seq<TrackId>, order: Seq<usize>) -> bool {
    !same_tracks(last_tracks, tracks) || last_order != order
}

/// What the queue does after a change of the player's state.
#[derive(Clone, Copy, PartialEq, Eq, Debug, Structural)]
pub struct QueueUpdate {
    /// The queue's rows are rebuilt.
    pub clear_views: bool,
    /// The queue scrolls to the track that is playing.
    pub scroll: bool,
}

/// The queue and current track that the queue panel last showed.
pub struct QueueSync {
    pub last_tracks: Vec<TrackId>,
    pub last_order: Vec<usize>,
    pub last_current: Option<TrackId>,
}

impl QueueSync {
    /// Nothing shown yet.
    pub fn new() -> (q: Self)
        ensures
            q.last_tracks@.len() == 0,
            q.last_order@.len() == 0,
            q.last_current is None,
    {
        QueueSync { last_tracks: Vec::new(), last_order: Vec::new(), last_current: None }
    }

    /// Takes in the queue's tracks, their play order and the current track.
    /// A changed queue rebuilds the rows; a changed queue or current track
    /// scrolls to the current track, unless the pointer rests on the queue,
    /// in which case the current track is taken in later.
    pub fn observe(&mut self, tracks: &[TrackId], order: &[usize], current: Option<TrackId>, stop_auto_scroll: bool) -> (r: QueueUpdate)
        ensures
            ({
                let queue_changed = queue_differs(old(self).last_tracks@, old(self).last_order@, tracks@, order@);
                let current_changed = !same_current(old(self).last_current, current);
                &&& r.clear_views == queue_changed
                &&& r.scroll == ((queue_changed || current_changed) && !stop_auto_scroll)
                &&& if queue_changed {
                    final(self).last_tracks@ == tracks@ && final(self).last_order@ == order@
                } else {
                    final(self).last_tracks@ == old(self).last_tracks@ && final(self).last_order@ == old(self).last_order@
                }
                &&& final(self).last_current == if r.scroll { current } else { old(self).last_current }
            }),
    {
        let queue_changed = !tracks_equal(&self.last_tracks, tracks) || !order_equal(&self.last_order, order);
        let current_changed = !current_equal(self.last_current, current);
        if queue_changed {
            self.last_tracks = copy_vec(tracks);
            self.last_order = copy_vec(order);
        }
        let scroll = (queue_changed || current_changed) && !stop_auto_scroll;
        if scroll {
            self.last_current = current;
        }
        QueueUpdate { clear_views: queue_changed, scroll }
    }
}

/// Once the queue panel has taken in a state while free to scroll, taking in
/// the same state again neither rebuilds nor scrolls: the state it keeps then
/// matches the state taken in.
pub proof fn law_queue_sync_settles(
    t0: Seq<TrackId>,
    o0: Seq<usize>,
    c0: Option<TrackId>,
    tracks: Seq<TrackId>,
    order: Seq<usize>,
    current: Option<TrackId>,
)
    ensures
        ({
            let qc = queue_differs(t0, o0, tracks, order);
            let t1 = if qc { tracks } else { t0 };
            let o1 = if qc { order } else { o0 };
            let c1 = if qc || !same_current(c0, current) { current } else { c0 };
            &&& !queue_differs(t1, o1, tracks, order)
            &&& same_current(c1, current)
        }),
{
    let qc = queue_differs(t0, o0, tracks, order);
    if qc {
        assert(same_tracks(tracks, tracks));
    }
    if let Some(x) = current {
        assert(x.0@ == x.0@);
    }
}

/// What the lyrics panel does after a change of the player's state.
#[derive(Clone, Copy, PartialEq, Eq, Debug, Structural)]
pub struct FollowUpdate {
    /// The lyrics belong to another track: the panel drops its lines and
    /// measurements and scrolls back to the top.
    pub reset: bool,
    /// The line to scroll to next, if the line to show has changed.
    pub scroll_to: Option<usize>,
}

/// The line and track that the lyrics panel last showed.
pub struct LyricsFollow {
    pub last_active_line: usize,
    pub last_track_id: Option<TrackId>,
}

impl LyricsFollow {
    /// No track and the first line.
    pub fn new() -> (f: Self)
        ensures
            f.last_active_line == 0,
            f.last_track_id is None,
    {
        LyricsFollow { last_active_line: 0, last_track_id: None }
    }

    /// Takes in the track whose lyrics are loaded and the line to show.
    pub fn observe(&mut self, track_id: Option<TrackId>, display: usize) -> (r: FollowUpdate)
        ensures
            ({
                let changed = !same_current(old(self).last_track_id, track_id);
                let base = if changed { 0 } else { old(self).last_active_line };
                &&& r.reset == changed
                &&& r.scroll_to == if display != base { Some(display) } else { None::<usize> }
                &&& final(self).last_active_line == display
                &&& final(self).last_track_id == if changed { track_id } else { old(self).last_track_id }
            }),
    {
        let changed = !current_equal(self.last_track_id, track_id);
        if changed {
            self.last_track_id = track_id;
            self.last_active_line = 0;
        }
        let scroll_to = if display != self.last_active_line {
            self.last_active_line = display;
            Some(display)
        } else {
            None
        };
        FollowUpdate { reset: changed, scroll_to }
    }
}

/// Once the lyrics panel has taken in a track and a line, taking in the same
/// track and line again neither resets nor scrolls.
pub proof fn law_lyrics_follow_settles(last_line: usize, last_track: Option<TrackId>, track_id: Option<TrackId>, display: usize)
    ensures
        ({
            let changed = !same_current(last_track, track_id);
            let track1 = if changed { track_id } else { last_track };
            let changed2 = !same_current(track1, track_id);
            let base2 = if changed2 { 0 } else { display };
            &&& !changed2
            &&& base2 == display
        }),
{
    if let Some(x) = track_id {
        assert(x.0@ == x.0@);
    }
}

} // verus!
