use wiremann::ids::TrackId;
use wiremann::tracklist::{album_label, count_label, present_favorites};

fn t(b: u8) -> TrackId {
    TrackId([b; 16])
}

#[test]
fn favorites_missing_from_the_library_are_left_out() {
    let favorites = vec![t(3), t(9), t(1), t(7)];
    let library = vec![t(1), t(2), t(3), t(7)];
    assert_eq!(present_favorites(&favorites, &library), vec![t(3), t(1), t(7)]);
}

#[test]
fn no_favorites_or_empty_library() {
    assert!(present_favorites(&[], &[t(1)]).is_empty());
    assert!(present_favorites(&[t(1), t(2)], &[]).is_empty());
}

#[test]
fn album_falls_back_to_unknown() {
    assert_eq!(album_label(Some("Blue".to_string())), "Blue");
    assert_eq!(album_label(None), "Unknown");
}

#[test]
fn track_counts() {
    assert_eq!(count_label(0), "0 tracks");
    assert_eq!(count_label(42), "42 tracks");
}
