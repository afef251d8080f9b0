use wiremann::icons::Icons;
use wiremann::ids::{AlbumId, ArtistId, PlaylistId, TrackId};
use wiremann::routes::{same_playlist, same_route, ItemViews, LibraryRoutes};
use wiremann::rows::{first_by_key, select_playlist, TrackEntry};
use wiremann::sidebar::item_active;

fn pid(n: u8) -> PlaylistId {
    PlaylistId([n; 16])
}

fn tid(n: u8) -> TrackId {
    TrackId([n; 16])
}

#[test]
fn routes_compare_by_section_and_item() {
    assert!(same_route(LibraryRoutes::Home, LibraryRoutes::Home));
    assert!(!same_route(LibraryRoutes::Home, LibraryRoutes::Tracks));
    assert!(same_route(LibraryRoutes::Album(AlbumId(4)), LibraryRoutes::Album(AlbumId(4))));
    assert!(!same_route(LibraryRoutes::Album(AlbumId(4)), LibraryRoutes::Album(AlbumId(5))));
    assert!(!same_route(LibraryRoutes::Album(AlbumId(4)), LibraryRoutes::Artist(ArtistId(4))));
    assert!(same_route(LibraryRoutes::Playlist(pid(2)), LibraryRoutes::Playlist(pid(2))));
    assert!(!same_route(LibraryRoutes::Playlist(pid(2)), LibraryRoutes::Playlist(pid(3))));
    assert!(same_playlist(&pid(7), &pid(7)));
    assert!(!same_playlist(&pid(7), &pid(8)));
}

#[test]
fn sidebar_highlight_on_item_routes() {
    assert!(item_active(LibraryRoutes::Playlist(pid(1)), LibraryRoutes::Playlist(pid(1))));
    assert!(!item_active(LibraryRoutes::Playlist(pid(1)), LibraryRoutes::Playlists));
}

#[test]
fn item_views_follow_the_route() {
    let mut v = ItemViews::new();
    v.menu_open = true;
    v.show(LibraryRoutes::Album(AlbumId(9)));
    assert_eq!(v.album_id, Some(AlbumId(9)));
    assert!(v.menu_open);
    v.show(LibraryRoutes::Artist(ArtistId(3)));
    assert_eq!(v.artist_id, Some(ArtistId(3)));
    v.show(LibraryRoutes::Playlist(pid(1)));
    assert_eq!(v.playlist_id, Some(pid(1)));
    assert!(!v.menu_open);
    v.menu_open = true;
    v.show(LibraryRoutes::Playlist(pid(1)));
    assert!(v.menu_open);
    v.show(LibraryRoutes::Playlist(pid(2)));
    assert_eq!(v.playlist_id, Some(pid(2)));
    assert!(!v.menu_open);
    let before = v;
    v.show(LibraryRoutes::Home);
    assert_eq!(v, before);
}

#[test]
fn playlist_tracks_found_in_library_order_of_playlist() {
    let library = vec![
        TrackEntry { id: tid(1), title: "one".to_string() },
        TrackEntry { id: tid(2), title: "two".to_string() },
    ];
    let p = select_playlist(&[tid(2), tid(9), tid(1), tid(2)], &library);
    assert_eq!(p.listed, 4);
    let ids: Vec<TrackId> = p.found.iter().map(|e| e.id).collect();
    assert_eq!(ids, vec![tid(2), tid(1), tid(2)]);
    assert_eq!(p.found[0].title, "two");
}

#[test]
fn ordering_by_given_keys() {
    let entries = vec![(1, "b".to_string()), (2, "B".to_string()), (3, "a".to_string())];
    assert_eq!(first_by_key(&entries, 10), vec![2, 3, 1]);
    assert_eq!(first_by_key(&entries, 1), vec![2]);
}

#[test]
fn icon_files_are_distinct_svgs() {
    let all = [
        Icons::Music, Icons::MusicList, Icons::WinClose, Icons::WinMax, Icons::WinRes, Icons::WinMin,
        Icons::Settings, Icons::Play, Icons::Pause, Icons::Next, Icons::Prev, Icons::Shuffle, Icons::Repeat,
        Icons::Volume0, Icons::Volume1, Icons::Volume2, Icons::VolumeMute, Icons::Menu, Icons::Ellipsis,
        Icons::Search, Icons::ToastInfo, Icons::ToastSuccess, Icons::ToastError, Icons::Loader, Icons::Scan,
        Icons::PanelRight, Icons::Home, Icons::Disc, Icons::Playlist, Icons::Plugins, Icons::User, Icons::Heart,
        Icons::FolderOpen, Icons::Trash, Icons::Chart, Icons::PopOut,
    ];
    for (a, i) in all.iter().enumerate() {
        assert!(i.path().starts_with("icons/") && i.path().ends_with(".svg"));
        for j in all.iter().skip(a + 1) {
            let shared = (*i == Icons::MusicList && *j == Icons::Playlist) || (*i == Icons::Playlist && *j == Icons::MusicList);
            assert_eq!(i.path() == j.path(), shared);
        }
    }
}
