use wiremann::dashboard::{
    first_listen_label, home_header, home_rows, join_names, library_caption, listening_caption,
    plays_label, rank_label, stats_rows, top_artist_lines, top_track_lines, tracks_label,
    HomeContent, HomeRow, StatsRow,
};
use wiremann::routes::LibraryRoutes;

fn content(track_count: usize, total_plays: u64) -> HomeContent {
    HomeContent {
        track_count,
        total_plays,
        top_tracks: 3,
        recently_played: 2,
        top_artists: 1,
        albums: 4,
        artists: 5,
        playlists: 6,
    }
}

#[test]
fn empty_library_shows_only_the_notice() {
    assert_eq!(home_rows(&content(0, 10)), vec![HomeRow::EmptyLibrary]);
}

#[test]
fn full_home_section() {
    assert_eq!(
        home_rows(&content(7, 10)),
        vec![
            HomeRow::ListeningSummary,
            HomeRow::TopTracks,
            HomeRow::RecentlyPlayed,
            HomeRow::TopArtists,
            HomeRow::Albums,
            HomeRow::Artists,
            HomeRow::Playlists,
        ]
    );
}

#[test]
fn home_rows_skip_what_is_empty() {
    let mut c = content(7, 0);
    c.recently_played = 0;
    c.artists = 0;
    assert_eq!(
        home_rows(&c),
        vec![HomeRow::TopTracks, HomeRow::TopArtists, HomeRow::Albums, HomeRow::Playlists]
    );
}

#[test]
fn home_headers_link_to_sections() {
    assert_eq!(home_header(HomeRow::TopTracks), Some(("Top Tracks", LibraryRoutes::Tracks)));
    assert_eq!(home_header(HomeRow::RecentlyPlayed), Some(("Recently Played", LibraryRoutes::Tracks)));
    assert_eq!(home_header(HomeRow::TopArtists), Some(("Top Artists", LibraryRoutes::Artists)));
    assert_eq!(home_header(HomeRow::Albums), Some(("Albums", LibraryRoutes::Albums)));
    assert_eq!(home_header(HomeRow::Artists), Some(("Artists", LibraryRoutes::Artists)));
    assert_eq!(home_header(HomeRow::Playlists), Some(("Playlists", LibraryRoutes::Playlists)));
    assert_eq!(home_header(HomeRow::EmptyLibrary), None);
    assert_eq!(home_header(HomeRow::ListeningSummary), None);
}

#[test]
fn stats_section_rows() {
    assert_eq!(stats_rows(0, 5, 5, 5), vec![StatsRow::NoStats]);
    assert_eq!(
        stats_rows(12, 5, 0, 2),
        vec![StatsRow::Banner, StatsRow::StatGrid, StatsRow::TopTracks, StatsRow::TopAlbums]
    );
    assert_eq!(stats_rows(1, 0, 0, 0), vec![StatsRow::Banner, StatsRow::StatGrid]);
}

#[test]
fn captions() {
    assert_eq!(
        library_caption(12, 3, 4, 1),
        "12 tracks \u{b7} 3 albums \u{b7} 4 artists \u{b7} 1 playlists"
    );
    assert_eq!(listening_caption(12, 40, None), "across 12 tracks \u{b7} 40 plays");
    assert_eq!(
        listening_caption(12, 40, Some(3)),
        "across 12 tracks \u{b7} 40 plays \u{b7} 3 skips"
    );
    assert_eq!(plays_label(7), "7 plays");
    assert_eq!(plays_label(0), "0 plays");
    assert_eq!(tracks_label(9), "9 Tracks");
}

#[test]
fn ranks_are_padded() {
    assert_eq!(rank_label(0), "01");
    assert_eq!(rank_label(8), "09");
    assert_eq!(rank_label(9), "10");
    assert_eq!(rank_label(99), "100");
}

#[test]
fn first_listen() {
    assert_eq!(first_listen_label(None), "\u{2014}");
    assert_eq!(first_listen_label(Some(0)), "Jan 1 1970");
    assert_eq!(first_listen_label(Some(1_700_000_000)), "Nov 14 2023");
}

#[test]
fn banner_pills() {
    assert_eq!(
        top_artist_lines(Some(("Nina".to_string(), 31))),
        vec!["Nina".to_string(), "31 plays".to_string()]
    );
    assert!(top_artist_lines(None).is_empty());
    assert_eq!(
        top_track_lines(Some(("Song".to_string(), "A, B".to_string(), 4))),
        vec!["Song".to_string(), "A, B \u{b7} 4 plays".to_string()]
    );
    assert!(top_track_lines(None).is_empty());
}

#[test]
fn artist_names_are_joined() {
    assert_eq!(join_names(&[]), "");
    assert_eq!(join_names(&["Solo".to_string()]), "Solo");
    assert_eq!(
        join_names(&["A".to_string(), "B".to_string(), "C".to_string()]),
        "A, B, C"
    );
}
