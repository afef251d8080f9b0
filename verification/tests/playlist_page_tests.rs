use wiremann::fingerprint::{fingerprint_playlists, fingerprint_tracks, u128_from_be_bytes};
use wiremann::ids::{PlaylistId, TrackId};
use wiremann::playlist_page::PlaylistRowsCache;
use wiremann::rows::{PlaylistsRow, SelectedPlaylist, TrackEntry};

fn tid(n: u8) -> TrackId {
    TrackId([n; 16])
}

fn pid(n: u8) -> PlaylistId {
    let mut b = [0u8; 16];
    b[15] = n;
    PlaylistId(b)
}

#[test]
fn uuid_bytes_read_big_endian() {
    let mut b = [0u8; 16];
    b[15] = 1;
    assert_eq!(u128_from_be_bytes(&b), 1);
    b[0] = 1;
    assert_eq!(u128_from_be_bytes(&b), (1u128 << 120) | 1);
    let raw = [0x12u8, 0x34, 0x56, 0x78, 0x9a, 0xbc, 0xde, 0xf0, 1, 2, 3, 4, 5, 6, 7, 8];
    assert_eq!(u128_from_be_bytes(&raw), u128::from_be_bytes(raw));
}

#[test]
fn rows_are_built_once_per_change() {
    let mut cache = PlaylistRowsCache::new();
    let tracks = vec![tid(1), tid(2)];
    let playlists = vec![pid(1)];
    let sel = SelectedPlaylist {
        listed: 2,
        found: vec![
            TrackEntry { id: tid(2), title: "b".to_string() },
            TrackEntry { id: tid(1), title: "a".to_string() },
        ],
    };
    assert!(cache.refresh(&tracks, &playlists, Some(pid(1)), Some(&sel)));
    assert_eq!(
        cache.rows,
        vec![
            PlaylistsRow::Header,
            PlaylistsRow::TrackTableHeader,
            PlaylistsRow::TrackRow(1, tid(1)),
            PlaylistsRow::TrackRow(2, tid(2)),
        ]
    );
    assert_eq!(cache.heights, vec![240, 40, 60, 60]);
    let expected = fingerprint_tracks(&tracks) ^ fingerprint_playlists(&playlists) ^ 1;
    assert_eq!(cache.last_fp, expected);
    assert!(!cache.refresh(&tracks, &playlists, Some(pid(1)), Some(&sel)));
    assert!(cache.refresh(&tracks, &playlists, None, None));
    assert_eq!(cache.rows, vec![PlaylistsRow::Header]);
    assert_eq!(cache.heights, vec![240]);
}

#[test]
fn empty_page_keyed_by_zero_is_not_built() {
    let mut cache = PlaylistRowsCache::new();
    assert!(!cache.refresh(&[], &[], None, None));
    assert!(cache.rows.is_empty());
}
