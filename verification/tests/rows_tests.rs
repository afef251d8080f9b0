use wiremann::ids::{PlaylistId, TrackId};
use wiremann::rows::{
    build_playlist_rows, build_rows, chunk_playlists, first_by_name, HeaderKind, LibraryRow, PlaylistsRow,
    SelectedPlaylist, TrackEntry, ROW_COUNT,
};

fn tid(n: u8) -> TrackId {
    TrackId([n; 16])
}

fn pid(n: u8) -> PlaylistId {
    PlaylistId([n; 16])
}

fn entry(n: u8, title: &str) -> TrackEntry {
    TrackEntry { id: tid(n), title: title.to_string() }
}

fn describe(r: &LibraryRow) -> String {
    match r {
        LibraryRow::Header(k) => format!("H{:?}", k),
        LibraryRow::PlaylistGridRow(v) => format!("G{}", v.iter().map(|p| p.0[0].to_string()).collect::<Vec<_>>().join(",")),
        LibraryRow::TrackTableHeader => "T".to_string(),
        LibraryRow::TrackRow(i, id) => format!("R{}:{}", i, id.0[0]),
        LibraryRow::Empty(k) => format!("E{:?}", k),
    }
}

#[test]
fn empty_library_shows_placeholders() {
    let (rows, heights) = build_rows(&[], &[], 3);
    let d: Vec<String> = rows.iter().map(describe).collect();
    assert_eq!(d, vec!["HPlaylists", "EPlaylists", "HTracks", "ETracks"]);
    assert_eq!(heights, vec![60, 192, 60, 192]);
}

#[test]
fn playlists_fill_grid_rows_and_tracks_sort_by_title() {
    let pls = [pid(1), pid(2), pid(3), pid(4), pid(5)];
    let tracks = [entry(1, "beta"), entry(2, "Alpha"), entry(3, "alpha"), entry(4, "beta"), entry(5, "")];
    let (rows, heights) = build_rows(&pls, &tracks, 2);
    let d: Vec<String> = rows.iter().map(describe).collect();
    assert_eq!(
        d,
        vec!["HPlaylists", "G1,2", "G3,4", "G5", "HTracks", "T", "R1:5", "R2:2", "R3:3", "R4:1", "R5:4"]
    );
    assert_eq!(heights, vec![60, 280, 280, 280, 60, 40, 60, 60, 60, 60, 60]);
}

#[test]
fn track_order_matches_std_sort() {
    let titles = ["Zebra", "apple", "Äpfel", "apple pie", "apple", "123", "Zeb", "éclair"];
    let tracks: Vec<TrackEntry> = titles.iter().enumerate().map(|(i, t)| entry(i as u8, t)).collect();
    let (rows, _) = build_rows(&[], &tracks, 4);
    let got: Vec<u8> = rows
        .iter()
        .filter_map(|r| if let LibraryRow::TrackRow(_, id) = r { Some(id.0[0]) } else { None })
        .collect();
    let mut expect: Vec<(String, u8)> = titles.iter().enumerate().map(|(i, t)| (t.to_string(), i as u8)).collect();
    expect.sort_by(|a, b| a.0.cmp(&b.0));
    let expect: Vec<u8> = expect.into_iter().map(|(_, i)| i).collect();
    assert_eq!(got, expect);
}

#[test]
fn exact_multiple_of_columns_makes_full_rows() {
    let pls = [pid(1), pid(2), pid(3), pid(4)];
    let chunks = chunk_playlists(&pls, 2);
    assert_eq!(chunks.len(), 2);
    assert_eq!(chunks[0], vec![pid(1), pid(2)]);
    assert_eq!(chunks[1], vec![pid(3), pid(4)]);
    let one = chunk_playlists(&pls, 0);
    assert_eq!(one, vec![pls.to_vec()]);
    let wide = chunk_playlists(&pls, 10);
    assert_eq!(wide, vec![pls.to_vec()]);
    assert!(chunk_playlists(&[], 3).is_empty());
}

#[test]
fn playlist_page_rows() {
    let (rows, heights) = build_playlist_rows(None);
    assert_eq!(rows, vec![PlaylistsRow::Header]);
    assert_eq!(heights, vec![240]);

    let empty = SelectedPlaylist { listed: 0, found: vec![] };
    let (rows, _) = build_playlist_rows(Some(&empty));
    assert_eq!(rows, vec![PlaylistsRow::Header]);

    let missing = SelectedPlaylist { listed: 2, found: vec![] };
    let (rows, heights) = build_playlist_rows(Some(&missing));
    assert_eq!(rows, vec![PlaylistsRow::Header, PlaylistsRow::TrackTableHeader]);
    assert_eq!(heights, vec![240, 40]);

    let some = SelectedPlaylist { listed: 3, found: vec![entry(7, "b"), entry(8, "a")] };
    let (rows, heights) = build_playlist_rows(Some(&some));
    assert_eq!(
        rows,
        vec![
            PlaylistsRow::Header,
            PlaylistsRow::TrackTableHeader,
            PlaylistsRow::TrackRow(1, tid(8)),
            PlaylistsRow::TrackRow(2, tid(7)),
        ]
    );
    assert_eq!(heights, vec![240, 40, 60, 60]);
}

#[test]
fn home_rows_take_first_by_lowercase_name() {
    let entries: Vec<(u64, String)> = vec![
        (1, "banana".to_string()),
        (2, "Apple".to_string()),
        (3, "cherry".to_string()),
        (4, "apple".to_string()),
    ];
    assert_eq!(first_by_name(&entries, 3), vec![2, 4, 1]);
    assert_eq!(first_by_name(&entries, ROW_COUNT), vec![2, 4, 1, 3]);
    assert_eq!(first_by_name(&entries, 0), Vec::<u64>::new());
    let mixed: Vec<(u64, String)> = vec![
        (1, "banana".to_string()),
        (2, "Cherry".to_string()),
        (3, "apple".to_string()),
        (4, "Zed".to_string()),
    ];
    assert_eq!(first_by_name(&mixed, 4), vec![3, 1, 2, 4]);
    assert_eq!(ROW_COUNT, 12);
}

#[test]
fn header_kinds_compare() {
    assert_ne!(HeaderKind::Playlists, HeaderKind::Albums);
}
