//! The rows of the playlist page, kept between frames and built again only
//! when the library's tracks, its playlists or the selection change.

use crate::fingerprint::{
    be_value, fingerprint_playlists, fingerprint_tracks, playlist_keys, track_keys, u128_from_be_bytes,
    xor_all,
};
use crate::ids::{PlaylistId, TrackId};
use crate::rows::{
    build_playlist_rows, playlist_row_height, playlist_rows, PlaylistsRow, SelectedPlaylist, TrackEntry,
};
use vstd::prelude::*;

verus! {

/// The number a selected playlist adds to the page's fingerprint: its UUID
/// read as a big-endian number, or zero when none is selected.
pub open spec fn selection_key(selected: Option<PlaylistId>) -> u128 {
    match selected {
        Some(p) => be_value(p.0@) as u128,
        None => 0,
    }
}

/// The fingerprint of what the playlist page shows: the fingerprints of the
/// library's tracks and playlists and the selected playlist, combined by
/// exclusive-or.
pub open spec fn page_fingerprint(
    tracks: Seq<TrackId>,
    playlists: Seq<PlaylistId>,
    selected: Option<PlaylistId>,
) -> u128 {
    xor_all(track_keys(tracks)) ^ xor_all(playlist_keys(playlists)) ^ selection_key(selected)
}

/// The view of the selected playlist that the rows are built from.
pub open spec fn selected_view(selected: Option<&SelectedPlaylist>) -> Option<(usize, Seq<TrackEntry>)> {
    match selected {
        Some(p) => Some((p.listed, p.found@)),
        None => None,
    }
}

/// The fingerprint a cache keyed by `last_fp` is keyed by after a refresh
/// that saw the fingerprint `fp`: the new one when they differ.
pub open spec fn fp_after_refresh(fp: u128, last_fp: u128) -> u128 {
    if fp != last_fp {
        fp
    } else {
        last_fp
    }
}

/// The rows of the playlist page, their heights, and the fingerprint they
/// were built for.
pub struct PlaylistRowsCache {
    pub last_fp: u128,
    pub rows: Vec<PlaylistsRow>,
    pub heights: Vec<u32>,
}

impl PlaylistRowsCache {
    /// Nothing built yet, for the fingerprint zero.
    pub fn new() -> (c: Self)
        ensures
            c.last_fp == 0,
            c.rows@.len() == 0,
            c.heights@.len() == 0,
    {
        PlaylistRowsCache { last_fp: 0, rows: Vec::new(), heights: Vec::new() }
    }

    /// Builds the rows again when the fingerprint of the library's tracks,
    /// its playlists and the selection differs from the one they were built
    /// for, and keeps them otherwise; returns whether it built them.
    pub fn refresh(
        &mut self,
        tracks: &[TrackId],
        playlists: &[PlaylistId],
        selected_id: Option<PlaylistId>,
        selected: Option<&SelectedPlaylist>,
    ) -> (rebuilt: bool)
        ensures
            rebuilt == (page_fingerprint(tracks@, playlists@, selected_id) != old(self).last_fp),
            final(self).last_fp == fp_after_refresh(
                page_fingerprint(tracks@, playlists@, selected_id),
                old(self).last_fp,
            ),
            rebuilt ==> final(self).rows@ == playlist_rows(selected_view(selected)),
            rebuilt ==> final(self).heights@ == final(self).rows@.map_values(
                |r: PlaylistsRow| playlist_row_height(r),
            ),
            !rebuilt ==> final(self).rows@ == old(self).rows@,
            !rebuilt ==> final(self).heights@ == old(self).heights@,
    {
        let tracks_fp = fingerprint_tracks(tracks);
        let playlists_fp = fingerprint_playlists(playlists);
        let selected_key: u128 = match selected_id {
            Some(p) => u128_from_be_bytes(&p.0),
            None => 0,
        };
        let combined = tracks_fp ^ playlists_fp ^ selected_key;
        if combined != self.last_fp {
            let (rows, heights) = build_playlist_rows(selected);
            self.rows = rows;
            self.heights = heights;
            self.last_fp = combined;
            true
        } else {
            false
        }
    }
}

/// After a refresh the cache is keyed by the current fingerprint, so a second
/// refresh with nothing changed builds nothing.
pub proof fn law_refresh_settles(fp: u128, last_fp: u128)
    ensures
        fp_after_refresh(fp, last_fp) == fp,
        !(fp != fp_after_refresh(fp, last_fp)),
{
}

} // verus!
