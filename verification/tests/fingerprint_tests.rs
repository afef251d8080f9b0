use wiremann::fingerprint::{fingerprint_playlists, fingerprint_tracks, u128_from_le_bytes};
use wiremann::ids::{PlaylistId, TrackId};

fn tid(first: u8, last: u8) -> TrackId {
    let mut b = [0u8; 16];
    b[0] = first;
    b[15] = last;
    TrackId(b)
}

#[test]
fn le_bytes_match_std() {
    let mut b = [0u8; 16];
    for (i, x) in b.iter_mut().enumerate() {
        *x = (i as u8).wrapping_mul(37).wrapping_add(11);
    }
    assert_eq!(u128_from_le_bytes(&b), u128::from_le_bytes(b));
    assert_eq!(u128_from_le_bytes(&[0xff; 16]), u128::MAX);
    assert_eq!(u128_from_le_bytes(&[0; 16]), 0);
    let mut one = [0u8; 16];
    one[0] = 1;
    assert_eq!(u128_from_le_bytes(&one), 1);
    let mut top = [0u8; 16];
    top[15] = 1;
    assert_eq!(u128_from_le_bytes(&top), 1u128 << 120);
}

#[test]
fn fingerprint_of_nothing_is_zero() {
    assert_eq!(fingerprint_tracks(&[]), 0);
    assert_eq!(fingerprint_playlists(&[]), 0);
}

#[test]
fn fingerprint_is_xor_of_identifiers() {
    let a = tid(1, 0);
    let b = tid(0, 2);
    assert_eq!(fingerprint_tracks(&[a]), 1);
    assert_eq!(fingerprint_tracks(&[a, b]), 1 ^ (2u128 << 120));
    let p = PlaylistId([7; 16]);
    assert_eq!(fingerprint_playlists(&[p]), u128::from_le_bytes([7; 16]));
}

#[test]
fn fingerprint_ignores_order() {
    let ids = [tid(1, 9), tid(2, 8), tid(3, 7), tid(4, 6)];
    let mut rev = ids;
    rev.reverse();
    assert_eq!(fingerprint_tracks(&ids), fingerprint_tracks(&rev));
    let shuffled = [ids[2], ids[0], ids[3], ids[1]];
    assert_eq!(fingerprint_tracks(&ids), fingerprint_tracks(&shuffled));
}

#[test]
fn fingerprint_of_concatenation_is_xor() {
    let a = [tid(1, 1), tid(2, 2)];
    let b = [tid(5, 0), tid(0, 5), tid(9, 9)];
    let all = [a[0], a[1], b[0], b[1], b[2]];
    assert_eq!(fingerprint_tracks(&all), fingerprint_tracks(&a) ^ fingerprint_tracks(&b));
}

#[test]
fn fingerprint_changes_when_track_added_and_cancels_twice() {
    let a = [tid(1, 1), tid(2, 2)];
    let x = tid(3, 4);
    assert_ne!(fingerprint_tracks(&[a[0], a[1], x]), fingerprint_tracks(&a));
    assert_eq!(fingerprint_tracks(&[a[0], a[1], x, x]), fingerprint_tracks(&a));
    let zero = TrackId([0; 16]);
    assert_eq!(fingerprint_tracks(&[a[0], a[1], zero]), fingerprint_tracks(&a));
}
