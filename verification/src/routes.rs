//! The sections of the library page and the direction of the slide between them.

use crate::ids::{AlbumId, ArtistId, PlaylistId};
use vstd::array::group_array_axioms;
use vstd::prelude::*;

verus! {

/// A section of the library page.
#[derive(Clone, Copy, PartialEq, Eq, Debug)]
pub enum LibraryRoutes {
    Home,
    Favorites,
    Tracks,
    Albums,
    Artists,
    Playlists,
    Album(AlbumId),
    Artist(ArtistId),
    Playlist(PlaylistId),
    Settings,
    Plugins,
}

/// The position of a section in the sidebar, from the top.
pub open spec fn route_index(r: LibraryRoutes) -> i32 {
    match r {
        LibraryRoutes::Home => 0,
        LibraryRoutes::Favorites => 1,
        LibraryRoutes::Tracks => 2,
        LibraryRoutes::Albums => 3,
        LibraryRoutes::Artists => 4,
        LibraryRoutes::Playlists => 5,
        LibraryRoutes::Album(_) => 6,
        LibraryRoutes::Artist(_) => 7,
        LibraryRoutes::Playlist(_) => 8,
        LibraryRoutes::Settings => 9,
        LibraryRoutes::Plugins => 10,
    }
}

impl LibraryRoutes {
    /// The position of the section in the sidebar, from the top.
    pub fn index(self) -> (i: i32)
        ensures
            i == route_index(self),
    {
        match self {
            Self::Home => 0,
            Self::Favorites => 1,
            Self::Tracks => 2,
            Self::Albums => 3,
            Self::Artists => 4,
            Self::Playlists => 5,
            Self::Album(_) => 6,
            Self::Artist(_) => 7,
            Self::Playlist(_) => 8,
            Self::Settings => 9,
            Self::Plugins => 10,
        }
    }
}

/// The direction in which the library page slides when it moves from `prev`
/// to `next`: 1 when the new section stands lower in the sidebar, -1 when it
/// stands higher, 0 when it stands at the same place.
pub open spec fn slide_direction(prev: LibraryRoutes, next: LibraryRoutes) -> i32 {
    let d = route_index(next) - route_index(prev);
    if d > 0 {
        1
    } else if d < 0 {
        -1i32
    } else {
        0
    }
}

/// Computes the direction of the slide from `prev` to `next`.
pub fn transition_direction(prev: LibraryRoutes, next: LibraryRoutes) -> (d: i32)
    ensures
        d == slide_direction(prev, next),
{
    let diff = next.index() - prev.index();
    if diff > 0 {
        1
    } else if diff < 0 {
        -1
    } else {
        0
    }
}

/// Sections stand at places 0 to 10, and two sections stand at the same place
/// exactly when they are of the same kind; going back slides the other way.
pub proof fn law_route_index(a: LibraryRoutes, b: LibraryRoutes)
    ensures
        0 <= route_index(a) <= 10,
        (route_index(a) == route_index(b)) <==> (a == b || (a is Album && b is Album) || (a is Artist
            && b is Artist) || (a is Playlist && b is Playlist)),
        slide_direction(a, b) == -slide_direction(b, a),
        slide_direction(a, a) == 0,
{
}

/// Whether two playlist identifiers are the same.
pub fn same_playlist(a: &PlaylistId, b: &PlaylistId) -> (r: bool)
    ensures
        r == (*a == *b),
{
    broadcast use group_array_axioms;

    let mut i: usize = 0;
    while i < 16
        invariant
            i <= 16,
            forall|j: int| 0 <= j < i ==> a.0[j] == b.0[j],
        decreases 16 - i,
    {
        if a.0[i] != b.0[i] {
            return false;
        }
        i = i + 1;
    }
    assert(a.0 =~= b.0);
    true
}

/// Whether two sections are the same section, showing the same album,
/// artist or playlist where they show one.
pub fn same_route(a: LibraryRoutes, b: LibraryRoutes) -> (r: bool)
    ensures
        r == (a == b),
{
    match (a, b) {
        (LibraryRoutes::Album(x), LibraryRoutes::Album(y)) => x.0 == y.0,
        (LibraryRoutes::Artist(x), LibraryRoutes::Artist(y)) => x.0 == y.0,
        (LibraryRoutes::Playlist(x), LibraryRoutes::Playlist(y)) => same_playlist(&x, &y),
        _ => a.index() == b.index(),
    }
}

/// The album, artist and playlist that the views of single items show, and
/// whether the playlist view's menu is open.
#[derive(Clone, Copy, PartialEq, Eq, Debug)]
pub struct ItemViews {
    pub album_id: Option<AlbumId>,
    pub artist_id: Option<ArtistId>,
    pub playlist_id: Option<PlaylistId>,
    pub menu_open: bool,
}

impl ItemViews {
    /// Nothing shown yet, the menu closed.
    pub fn new() -> (v: Self)
        ensures
            v.album_id is None,
            v.artist_id is None,
            v.playlist_id is None,
            !v.menu_open,
    {
        ItemViews { album_id: None, artist_id: None, playlist_id: None, menu_open: false }
    }

    /// Points the view of the item that `route` shows at that item: an album
    /// or an artist is set; a playlist is set and its menu closed when it is
    /// not the playlist already shown, and everything stays when it is. The
    /// other sections change nothing.
    pub fn show(&mut self, route: LibraryRoutes)
        ensures
            match route {
                LibraryRoutes::Album(id) => *final(self) == ItemViews { album_id: Some(id), ..*old(self) },
                LibraryRoutes::Artist(id) => *final(self) == ItemViews { artist_id: Some(id), ..*old(self) },
                LibraryRoutes::Playlist(id) => if old(self).playlist_id == Some(id) {
                    *final(self) == *old(self)
                } else {
                    *final(self) == ItemViews { playlist_id: Some(id), menu_open: false, ..*old(self) }
                },
                _ => *final(self) == *old(self),
            },
    {
        match route {
            LibraryRoutes::Album(id) => {
                self.album_id = Some(id);
            },
            LibraryRoutes::Artist(id) => {
                self.artist_id = Some(id);
            },
            LibraryRoutes::Playlist(id) => {
                let same = match self.playlist_id {
                    Some(cur) => same_playlist(&cur, &id),
                    None => false,
                };
                if !same {
                    self.playlist_id = Some(id);
                    self.menu_open = false;
                }
            },
            _ => {},
        }
    }
}

} // verus!
