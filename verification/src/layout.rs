//! Positions in the scrolling lists and grids: which queue entry to scroll
//! to, which thumbnails to fetch around the visible rows, and how a grid of
//! cards is cut into rows.

use crate::ids::TrackId;
use vstd::prelude::*;

verus! {

/// How many rows beyond the visible ones have their thumbnails fetched, on
/// each side.
pub const THUMBNAIL_MARGIN: usize = 16;

/// How many cards a row of a grid holds.
pub const GRID_COLUMNS: usize = 4;

/// Whether two track identifiers are the same.
pub fn same_track(a: &TrackId, b: &TrackId) -> (r: bool)
    ensures
        r == (a.0@ == b.0@),
{
    let mut i: usize = 0;
    while i < 16
        invariant
            i <= 16,
            a.0@.len() == 16,
            b.0@.len() == 16,
            forall|j: int| 0 <= j < i ==> a.0@[j] == b.0@[j],
        decreases 16 - i,
    {
        if a.0[i] != b.0[i] {
            return false;
        }
        i = i + 1;
    }
    assert(a.0@ =~= b.0@);
    true
}

/// Whether the queue entry at position `j` of `order` is the track `cur`,
/// the entry pointing into `tracks`.
pub open spec fn entry_is(tracks: Seq<TrackId>, order: Seq<usize>, j: int, cur: TrackId) -> bool {
    order[j] < tracks.len() && tracks[order[j] as int].0@ == cur.0@
}

/// The queue position to scroll to: the first position of `order` whose track
/// is the current one, or the top when there is no current track or it is not
/// queued. The positions before the current track point into `tracks`.
pub fn queue_scroll_index(tracks: &[TrackId], order: &[usize], current: Option<TrackId>) -> (r: usize)
    requires
        current matches Some(cur) ==> forall|j: int|
            0 <= j < order@.len() && (forall|q: int| 0 <= q < j ==> !entry_is(tracks@, order@, q, cur))
                ==> #[trigger] order@[j] < tracks@.len(),
    ensures
        current is None ==> r == 0,
        current matches Some(cur) ==> {
            ||| (r < order@.len() && entry_is(tracks@, order@, r as int, cur) && forall|q: int|
                0 <= q < r ==> !entry_is(tracks@, order@, q, cur))
            ||| (r == 0 && forall|q: int| 0 <= q < order@.len() ==> !entry_is(tracks@, order@, q, cur))
        },
{
    match current {
        None => 0,
        Some(cur) => {
            let mut j: usize = 0;
            while j < order.len()
                invariant
                    current == Some(cur),
                    j <= order@.len(),
                    forall|q: int| 0 <= q < j ==> !entry_is(tracks@, order@, q, cur),
                    forall|k: int|
                        0 <= k < order@.len() && (forall|q: int| 0 <= q < k ==> !entry_is(tracks@, order@, q, cur))
                            ==> #[trigger] order@[k] < tracks@.len(),
                decreases order@.len() - j,
            {
                let idx = order[j];
                if same_track(&tracks[idx], &cur) {
                    return j;
                }
                j = j + 1;
            }
            0
        },
    }
}

/// The rows whose thumbnails are fetched for the visible rows `start .. end`
/// of a list of `len` rows: the margin before and after, within the list.
pub fn thumbnail_window(start: usize, end: usize, len: usize) -> (r: (usize, usize))
    requires
        end + THUMBNAIL_MARGIN <= usize::MAX,
    ensures
        r.0 == (if start >= THUMBNAIL_MARGIN { start - THUMBNAIL_MARGIN } else { 0 }),
        r.1 == (if end + THUMBNAIL_MARGIN <= len { end + THUMBNAIL_MARGIN } else { len as int }),
{
    let lo = start.saturating_sub(THUMBNAIL_MARGIN);
    let hi = if end + THUMBNAIL_MARGIN <= len {
        end + THUMBNAIL_MARGIN
    } else {
        len
    };
    (lo, hi)
}

/// How many rows a grid of `item_count` cards takes.
pub fn grid_row_count(item_count: usize) -> (r: usize)
    ensures
        r == (item_count + GRID_COLUMNS - 1) / GRID_COLUMNS as int,
        r * GRID_COLUMNS >= item_count,
        r * GRID_COLUMNS < item_count + GRID_COLUMNS,
{
    item_count / GRID_COLUMNS + if item_count % GRID_COLUMNS == 0 {
        0
    } else {
        1
    }
}

/// The cards of row `row` of a grid of `item_count` cards.
pub fn grid_row_items(row: usize, item_count: usize) -> (r: (usize, usize))
    requires
        row * GRID_COLUMNS + GRID_COLUMNS <= usize::MAX,
    ensures
        r.0 == row * GRID_COLUMNS,
        r.1 == (if row * GRID_COLUMNS + GRID_COLUMNS <= item_count {
            row * GRID_COLUMNS + GRID_COLUMNS
        } else {
            item_count as int
        }),
{
    let start = row * GRID_COLUMNS;
    let end = if start + GRID_COLUMNS <= item_count {
        start + GRID_COLUMNS
    } else {
        item_count
    };
    (start, end)
}

} // verus!
