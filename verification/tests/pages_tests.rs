use wiremann::ids::{AlbumId, ArtistId, PlaylistId};
use wiremann::pages::{
    cycle_next, cycle_prev, highlight_offset, play_pause, seek_back, seek_forward, NavBar, Page, PlayPause,
    PlaybackStatus, SEEK_STEP,
};
use wiremann::routes::{transition_direction, LibraryRoutes};

#[test]
fn page_cycle_goes_round() {
    assert_eq!(cycle_next(Page::Library), Page::Player);
    assert_eq!(cycle_next(Page::Player), Page::Playlists);
    assert_eq!(cycle_next(Page::Playlists), Page::Library);
    assert_eq!(cycle_prev(Page::Library), Page::Playlists);
    assert_eq!(cycle_prev(Page::Player), Page::Library);
    assert_eq!(cycle_prev(Page::Playlists), Page::Player);
    for p in [Page::Library, Page::Player, Page::Playlists] {
        assert_eq!(cycle_prev(cycle_next(p)), p);
        assert_eq!(cycle_next(cycle_prev(p)), p);
        assert_eq!(cycle_next(cycle_next(cycle_next(p))), p);
    }
}

#[test]
fn highlight_sits_under_the_page_button() {
    assert_eq!(highlight_offset(Page::Library), 0);
    assert_eq!(highlight_offset(Page::Player), 96);
    assert_eq!(highlight_offset(Page::Playlists), 192);
    let _ = NavBar::new();
}

#[test]
fn play_pause_key() {
    assert_eq!(play_pause(PlaybackStatus::Playing), PlayPause::Pause);
    assert_eq!(play_pause(PlaybackStatus::Paused), PlayPause::Play);
    assert_eq!(play_pause(PlaybackStatus::Stopped), PlayPause::Play);
}

#[test]
fn seek_keys_saturate() {
    assert_eq!(SEEK_STEP, 5);
    assert_eq!(seek_forward(10), 15);
    assert_eq!(seek_back(10), 5);
    assert_eq!(seek_back(3), 0);
    assert_eq!(seek_forward(u64::MAX - 2), u64::MAX);
    assert_eq!(seek_back(seek_forward(100)), 100);
    assert_eq!(seek_forward(seek_back(100)), 100);
}

#[test]
fn route_indices_and_slide_direction() {
    let routes = [
        LibraryRoutes::Home,
        LibraryRoutes::Favorites,
        LibraryRoutes::Tracks,
        LibraryRoutes::Albums,
        LibraryRoutes::Artists,
        LibraryRoutes::Playlists,
        LibraryRoutes::Album(AlbumId(3)),
        LibraryRoutes::Artist(ArtistId(4)),
        LibraryRoutes::Playlist(PlaylistId([1; 16])),
        LibraryRoutes::Settings,
        LibraryRoutes::Plugins,
    ];
    for (i, r) in routes.iter().enumerate() {
        assert_eq!(r.index(), i as i32);
    }
    assert_eq!(LibraryRoutes::Album(AlbumId(1)).index(), LibraryRoutes::Album(AlbumId(2)).index());
    assert_eq!(transition_direction(LibraryRoutes::Home, LibraryRoutes::Tracks), 1);
    assert_eq!(transition_direction(LibraryRoutes::Plugins, LibraryRoutes::Tracks), -1);
    assert_eq!(transition_direction(LibraryRoutes::Artists, LibraryRoutes::Artists), 0);
    assert_eq!(transition_direction(LibraryRoutes::Album(AlbumId(1)), LibraryRoutes::Album(AlbumId(9))), 0);
}

#[test]
fn play_button_shows_pause_while_playing() {
    assert_eq!(
        wiremann::pages::play_button_icon(PlaybackStatus::Playing),
        wiremann::icons::Icons::Pause
    );
    assert_eq!(
        wiremann::pages::play_button_icon(PlaybackStatus::Paused),
        wiremann::icons::Icons::Play
    );
    assert_eq!(
        wiremann::pages::play_button_icon(PlaybackStatus::Stopped),
        wiremann::icons::Icons::Play
    );
}

#[test]
fn page_slides_follow_the_switcher() {
    let cases = [
        (Page::Library, Page::Player, 1),
        (Page::Player, Page::Playlists, 1),
        (Page::Playlists, Page::Player, -1),
        (Page::Player, Page::Library, -1),
        (Page::Library, Page::Playlists, 0),
        (Page::Playlists, Page::Library, 0),
        (Page::Player, Page::Player, 0),
    ];
    for (a, b, d) in cases {
        assert_eq!(wiremann::pages::page_direction(a, b), d);
    }
}

#[test]
fn side_panel_state() {
    let mut p = wiremann::pages::PanelState::new();
    assert!(p.shown);
    assert_eq!(p.current, wiremann::pages::Panel::Queue);
    p.select(wiremann::pages::Panel::Lyrics);
    assert_eq!(p.current, wiremann::pages::Panel::Lyrics);
    p.toggle_shown();
    assert!(!p.shown);
    assert_eq!(p.current, wiremann::pages::Panel::Lyrics);
    p.toggle_shown();
    assert!(p.shown);
    assert_eq!(wiremann::pages::tab_underline_offset(wiremann::pages::Panel::Queue), 0);
    assert_eq!(wiremann::pages::tab_underline_offset(wiremann::pages::Panel::Lyrics), 72);
}
