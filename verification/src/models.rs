//! Plain records and markers of the interface: library rows as the tables
//! show them, the sides of resize handles, scrollbar padding, and the
//! sections that carry no state of their own.

use crate::ids::{ImageId, PlaylistId, TrackId};
use vstd::prelude::*;

verus! {

/// A track as a table of the library shows it.
pub struct LibraryTrackRow {
    pub id: TrackId,
    pub title: String,
    pub artists: String,
    pub album: String,
    pub duration_ms: i64,
    pub image_id: Option<ImageId>,
}

/// A playlist as a grid of the library shows it.
pub struct LibraryPlaylistRow {
    pub id: PlaylistId,
    pub name: String,
    pub track_count: usize,
    pub image_id: Option<ImageId>,
}

/// What a row of the play queue shows of its track.
pub struct ItemData {
    pub id: TrackId,
    pub title: String,
    pub artist: String,
    pub image_id: Option<ImageId>,
}

/// A row of the play queue.
pub struct Item {
    pub data: ItemData,
    pub idx: usize,
}

impl Item {
    /// The queue row at position `idx` for a track.
    pub fn new(data: ItemData, idx: usize) -> (r: Self)
        ensures
            r.data == data,
            r.idx == idx,
    {
        Item { data, idx }
    }
}

/// The side of a panel that a resize handle sits on.
#[derive(Clone, Copy, PartialEq, Eq, Debug, Structural)]
pub enum ResizeSide {
    Left,
    Right,
}

/// Whether a floating scrollbar keeps a gap from the right edge.
#[derive(Clone, Copy, PartialEq, Eq, Debug, Structural)]
pub enum RightPad {
    NoPad,
    Pad,
}

/// The gap in pixels between a floating scrollbar and the right edge.
pub fn right_offset(pad: RightPad) -> (px: u32)
    ensures
        px == (if pad == RightPad::Pad { 4u32 } else { 0u32 }),
{
    match pad {
        RightPad::Pad => 4,
        RightPad::NoPad => 0,
    }
}

/// The sidebar of the library page.
#[derive(Clone, Copy, Debug)]
pub struct Sidebar;

/// The albums section of the library page.
#[derive(Clone, Copy, Debug)]
pub struct AlbumsSection;

} // verus!
