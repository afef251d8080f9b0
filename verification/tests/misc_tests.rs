use wiremann::icons::Icons;
use wiremann::ids::TrackId;
use wiremann::layout::{grid_row_count, grid_row_items, queue_scroll_index, same_track, thumbnail_window};
use wiremann::ids::ImageId;
use wiremann::models::{right_offset, Item, ItemData, RightPad};
use wiremann::scanning::{scan_message, ScanningStatusInner, ScanningStatusToast};
use wiremann::worker_config::{calculate_worker_config, worker_config_for, WorkerConfig};

fn cfg(metadata: usize, thumbnail: usize, cacher: usize) -> WorkerConfig {
    WorkerConfig { metadata, thumbnail, cacher }
}

#[test]
fn worker_counts() {
    assert_eq!(worker_config_for(0), cfg(1, 1, 1));
    assert_eq!(worker_config_for(1), cfg(1, 1, 1));
    assert_eq!(worker_config_for(2), cfg(1, 1, 1));
    assert_eq!(worker_config_for(4), cfg(2, 2, 1));
    assert_eq!(worker_config_for(8), cfg(6, 6, 1));
    assert_eq!(worker_config_for(10), cfg(7, 7, 2));
    assert_eq!(worker_config_for(16), cfg(8, 8, 3));
    assert_eq!(worker_config_for(64), cfg(8, 8, 14));
    assert_eq!(worker_config_for(usize::MAX).metadata, 8);
}

#[test]
fn worker_counts_match_float_rule() {
    for n in 1usize..5000 {
        let usable = (((n as f32) * 0.9).floor() as usize).max(2);
        let cacher = (usable / 4).max(1);
        let scanners = usable - cacher;
        assert_eq!(worker_config_for(n), cfg(scanners.min(8), scanners.min(8), cacher), "n = {n}");
    }
}

#[test]
fn this_machine_gets_workers() {
    let c = calculate_worker_config();
    assert!(c.cacher >= 1 && c.metadata >= 1 && c.metadata <= 8 && c.thumbnail == c.metadata);
}

#[test]
fn icon_paths() {
    assert_eq!(Icons::Music.path(), "icons/music.svg");
    assert_eq!(Icons::MusicList.path(), "icons/playlist.svg");
    assert_eq!(Icons::Playlist.path(), "icons/playlist.svg");
    assert_eq!(Icons::VolumeMute.path(), "icons/volume-mute.svg");
    assert_eq!(Icons::PopOut.path(), "icons/pop-out.svg");
    assert_eq!(Icons::ToastError.path(), "icons/toast_error.svg");
}

#[test]
fn queue_scrolls_to_current_track() {
    let tracks = [TrackId([1; 16]), TrackId([2; 16]), TrackId([3; 16])];
    let order = [2usize, 0, 1];
    assert_eq!(queue_scroll_index(&tracks, &order, Some(TrackId([1; 16]))), 1);
    assert_eq!(queue_scroll_index(&tracks, &order, Some(TrackId([3; 16]))), 0);
    assert_eq!(queue_scroll_index(&tracks, &order, Some(TrackId([9; 16]))), 0);
    assert_eq!(queue_scroll_index(&tracks, &order, None), 0);
    assert!(same_track(&tracks[0], &TrackId([1; 16])));
    assert!(!same_track(&tracks[0], &tracks[1]));
}

#[test]
fn thumbnail_windows_and_grids() {
    assert_eq!(thumbnail_window(0, 10, 100), (0, 26));
    assert_eq!(thumbnail_window(40, 50, 60), (24, 60));
    assert_eq!(grid_row_count(0), 0);
    assert_eq!(grid_row_count(4), 1);
    assert_eq!(grid_row_count(5), 2);
    assert_eq!(grid_row_items(1, 6), (4, 6));
    assert_eq!(grid_row_items(0, 6), (0, 4));
}

#[test]
fn scan_messages() {
    let mut s = ScanningStatusInner::new();
    assert_eq!(scan_message(&s), "Preparing scan\u{2026}");
    s.is_discovering = true;
    s.discovered = 42;
    assert_eq!(scan_message(&s), "Scanning for files\u{2026} (42 found)");
    s.is_discovering = false;
    s.is_processing = true;
    s.processed = 7;
    s.total = 120;
    assert_eq!(scan_message(&s), "Processing 7 of 120 tracks");
    let _ = ScanningStatusToast::new();
}

#[test]
fn scrollbar_pad() {
    assert_eq!(right_offset(RightPad::Pad), 4);
    assert_eq!(right_offset(RightPad::NoPad), 0);
}

#[test]
fn queue_item_keeps_its_data() {
    let item = Item::new(
        ItemData { id: TrackId([3; 16]), title: "t".to_string(), artist: "a".to_string(), image_id: Some(ImageId(9)) },
        4,
    );
    assert_eq!(item.idx, 4);
    assert_eq!(item.data.title, "t");
    assert_eq!(item.data.image_id, Some(ImageId(9)));
}
