use wiremann::icons::Icons;
use wiremann::ids::AlbumId;
use wiremann::routes::LibraryRoutes;
use wiremann::sidebar::{item_active, sidebar_entries, SidebarEntry};

#[test]
fn sidebar_groups_and_items() {
    let v = sidebar_entries();
    assert_eq!(
        v,
        vec![
            SidebarEntry::Header("DISCOVERY"),
            SidebarEntry::Item(Icons::Home, "Home", LibraryRoutes::Home),
            SidebarEntry::Item(Icons::Heart, "Favorites", LibraryRoutes::Favorites),
            SidebarEntry::Header("COLLECTION"),
            SidebarEntry::Item(Icons::Music, "Tracks", LibraryRoutes::Tracks),
            SidebarEntry::Item(Icons::MusicList, "Albums", LibraryRoutes::Albums),
            SidebarEntry::Item(Icons::User, "Artists", LibraryRoutes::Artists),
            SidebarEntry::Item(Icons::Playlist, "Playlists", LibraryRoutes::Playlists),
            SidebarEntry::Header("SYSTEM"),
            SidebarEntry::Item(Icons::Plugins, "Plugins", LibraryRoutes::Plugins),
            SidebarEntry::Item(Icons::Settings, "Settings", LibraryRoutes::Settings),
        ]
    );
}

#[test]
fn highlighted_item() {
    assert!(item_active(LibraryRoutes::Albums, LibraryRoutes::Albums));
    assert!(!item_active(LibraryRoutes::Albums, LibraryRoutes::Album(AlbumId(3))));
    assert!(!item_active(LibraryRoutes::Home, LibraryRoutes::Favorites));
    assert!(item_active(LibraryRoutes::Settings, LibraryRoutes::Settings));
}
