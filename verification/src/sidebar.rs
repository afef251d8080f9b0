//! The entries of the library sidebar: group headers and the sections they
//! lead to, and which entry is highlighted.

use crate::icons::Icons;
use crate::routes::{same_route, LibraryRoutes};
use vstd::prelude::*;

verus! {

/// An entry of the library sidebar: a group header, or an item with its icon
/// and label that leads to a section.
#[derive(Clone, Copy, PartialEq, Eq, Debug)]
pub enum SidebarEntry {
    Header(&'static str),
    Item(Icons, &'static str, LibraryRoutes),
}

/// The view of a sidebar entry, its texts taken as characters.
pub open spec fn entry_view(e: SidebarEntry) -> (Seq<char>, Option<(Icons, LibraryRoutes)>) {
    match e {
        SidebarEntry::Header(t) => (t@, None),
        SidebarEntry::Item(i, t, r) => (t@, Some((i, r))),
    }
}

/// The entries of the sidebar, from the top: the discovery group, the
/// collection group and the system group.
pub open spec fn sidebar_spec() -> Seq<(Seq<char>, Option<(Icons, LibraryRoutes)>)> {
    seq![
        ("DISCOVERY"@, None),
        ("Home"@, Some((Icons::Home, LibraryRoutes::Home))),
        ("Favorites"@, Some((Icons::Heart, LibraryRoutes::Favorites))),
        ("COLLECTION"@, None),
        ("Tracks"@, Some((Icons::Music, LibraryRoutes::Tracks))),
        ("Albums"@, Some((Icons::MusicList, LibraryRoutes::Albums))),
        ("Artists"@, Some((Icons::User, LibraryRoutes::Artists))),
        ("Playlists"@, Some((Icons::Playlist, LibraryRoutes::Playlists))),
        ("SYSTEM"@, None),
        ("Plugins"@, Some((Icons::Plugins, LibraryRoutes::Plugins))),
        ("Settings"@, Some((Icons::Settings, LibraryRoutes::Settings))),
    ]
}

/// Lists the entries of the sidebar.
pub fn sidebar_entries() -> (v: Vec<SidebarEntry>)
    ensures
        v@.map_values(|e: SidebarEntry| entry_view(e)) == sidebar_spec(),
{
    let mut v: Vec<SidebarEntry> = Vec::new();
    v.push(SidebarEntry::Header("DISCOVERY"));
    v.push(SidebarEntry::Item(Icons::Home, "Home", LibraryRoutes::Home));
    v.push(SidebarEntry::Item(Icons::Heart, "Favorites", LibraryRoutes::Favorites));
    v.push(SidebarEntry::Header("COLLECTION"));
    v.push(SidebarEntry::Item(Icons::Music, "Tracks", LibraryRoutes::Tracks));
    v.push(SidebarEntry::Item(Icons::MusicList, "Albums", LibraryRoutes::Albums));
    v.push(SidebarEntry::Item(Icons::User, "Artists", LibraryRoutes::Artists));
    v.push(SidebarEntry::Item(Icons::Playlist, "Playlists", LibraryRoutes::Playlists));
    v.push(SidebarEntry::Header("SYSTEM"));
    v.push(SidebarEntry::Item(Icons::Plugins, "Plugins", LibraryRoutes::Plugins));
    v.push(SidebarEntry::Item(Icons::Settings, "Settings", LibraryRoutes::Settings));
    assert(v@.map_values(|e: SidebarEntry| entry_view(e)) =~= sidebar_spec());
    v
}

/// A section that a sidebar item can lead to: one that shows no single
/// album, artist or playlist.
pub open spec fn is_top_section(r: LibraryRoutes) -> bool {
    !(r is Album || r is Artist || r is Playlist)
}

/// Whether the sidebar item leading to `section` is highlighted while the
/// library shows `current`: exactly when they are the same section.
pub fn item_active(section: LibraryRoutes, current: LibraryRoutes) -> (r: bool)
    ensures
        r == (section == current),
{
    same_route(section, current)
}

/// The section that the sidebar entry at `k` leads to, if it is an item.
pub open spec fn item_route(k: int) -> Option<LibraryRoutes> {
    match sidebar_spec()[k].1 {
        Some((_, s)) => Some(s),
        None => None,
    }
}

/// Each section that the sidebar can lead to has exactly one item, and every
/// item leads to such a section.
pub proof fn law_sidebar_items(r: LibraryRoutes)
    ensures
        is_top_section(r) ==> exists|k: int| 0 <= k < sidebar_spec().len() && #[trigger] item_route(k) == Some(r),
        forall|k: int, l: int|
            0 <= k < l < sidebar_spec().len() && item_route(k) is Some ==> #[trigger] item_route(k) != #[trigger] item_route(l),
        forall|k: int|
            0 <= k < sidebar_spec().len() && #[trigger] item_route(k) is Some ==> is_top_section(item_route(k)->0),
{
    if is_top_section(r) {
        match r {
            LibraryRoutes::Home => assert(item_route(1) == Some(r)),
            LibraryRoutes::Favorites => assert(item_route(2) == Some(r)),
            LibraryRoutes::Tracks => assert(item_route(4) == Some(r)),
            LibraryRoutes::Albums => assert(item_route(5) == Some(r)),
            LibraryRoutes::Artists => assert(item_route(6) == Some(r)),
            LibraryRoutes::Playlists => assert(item_route(7) == Some(r)),
            LibraryRoutes::Plugins => assert(item_route(9) == Some(r)),
            LibraryRoutes::Settings => assert(item_route(10) == Some(r)),
            _ => {},
        }
    }
}

} // verus!
