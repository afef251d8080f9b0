use wiremann::covers::{cover_image, TrackImage};
use wiremann::ids::{ImageId, TrackId};

fn t(b: u8) -> TrackId {
    TrackId([b; 16])
}

fn library() -> Vec<TrackImage> {
    vec![
        TrackImage { id: t(1), image: Some(ImageId(10)) },
        TrackImage { id: t(2), image: None },
        TrackImage { id: t(3), image: Some(ImageId(30)) },
    ]
}

#[test]
fn own_image_wins() {
    assert_eq!(cover_image(Some(ImageId(5)), &[t(3)], &library()), Some(ImageId(5)));
}

#[test]
fn first_track_image_stands_in() {
    assert_eq!(cover_image(None, &[t(3), t(1)], &library()), Some(ImageId(30)));
    assert_eq!(cover_image(None, &[t(2), t(1)], &library()), None);
}

#[test]
fn no_tracks_or_unknown_first_track() {
    assert_eq!(cover_image(None, &[], &library()), None);
    assert_eq!(cover_image(None, &[t(9), t(1)], &library()), None);
}
