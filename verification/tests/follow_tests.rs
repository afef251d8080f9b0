use wiremann::follow::{FollowUpdate, LyricsFollow, QueueSync, QueueUpdate};
use wiremann::ids::TrackId;
use wiremann::popout::PopOutState;
use wiremann::toasts::{toast_motion, ToastMotion, ToastPhase};

fn t(n: u8) -> TrackId {
    TrackId([n; 16])
}

#[test]
fn queue_rebuilds_and_scrolls_on_change() {
    let mut q = QueueSync::new();
    let tracks = [t(1), t(2)];
    let order = [1usize, 0];
    assert_eq!(q.observe(&tracks, &order, Some(t(2)), false), QueueUpdate { clear_views: true, scroll: true });
    assert_eq!(q.observe(&tracks, &order, Some(t(2)), false), QueueUpdate { clear_views: false, scroll: false });
    assert_eq!(q.observe(&tracks, &order, Some(t(1)), false), QueueUpdate { clear_views: false, scroll: true });
    assert_eq!(q.observe(&tracks, &[0, 1], Some(t(1)), false), QueueUpdate { clear_views: true, scroll: true });
}

#[test]
fn hovered_queue_defers_scroll() {
    let mut q = QueueSync::new();
    let tracks = [t(1), t(2)];
    let order = [0usize, 1];
    q.observe(&tracks, &order, Some(t(1)), false);
    assert_eq!(q.observe(&tracks, &order, Some(t(2)), true), QueueUpdate { clear_views: false, scroll: false });
    assert_eq!(q.last_current, Some(t(1)));
    // the pointer leaves: the change of track is taken in now
    assert_eq!(q.observe(&tracks, &order, Some(t(2)), false), QueueUpdate { clear_views: false, scroll: true });
    assert_eq!(q.last_current, Some(t(2)));
}

#[test]
fn lyrics_follow_resets_on_new_track() {
    let mut f = LyricsFollow::new();
    assert_eq!(f.observe(Some(t(1)), 0), FollowUpdate { reset: true, scroll_to: None });
    assert_eq!(f.observe(Some(t(1)), 3), FollowUpdate { reset: false, scroll_to: Some(3) });
    assert_eq!(f.observe(Some(t(1)), 3), FollowUpdate { reset: false, scroll_to: None });
    assert_eq!(f.observe(Some(t(2)), 3), FollowUpdate { reset: true, scroll_to: Some(3) });
    assert_eq!(f.last_active_line, 3);
}

#[test]
fn toast_motions() {
    assert_eq!(toast_motion(ToastPhase::Entering, ToastPhase::Entering), ToastMotion::Hidden);
    assert_eq!(toast_motion(ToastPhase::Idle, ToastPhase::Idle), ToastMotion::Shown);
    assert_eq!(toast_motion(ToastPhase::Exiting, ToastPhase::Exiting), ToastMotion::Hidden);
    assert_eq!(toast_motion(ToastPhase::Entering, ToastPhase::Idle), ToastMotion::SlideIn);
    assert_eq!(toast_motion(ToastPhase::Idle, ToastPhase::Exiting), ToastMotion::SlideOut);
    assert_eq!(toast_motion(ToastPhase::Entering, ToastPhase::Exiting), ToastMotion::Unstyled);
}

#[test]
fn pop_out_round_trip() {
    let mut p: PopOutState<(u32, u32)> = PopOutState::new();
    assert_eq!(p.toggle((1200, 800), (460, 717)), (460, 717));
    assert!(p.enabled);
    assert_eq!(p.previous_size, Some((1200, 800)));
    assert_eq!(p.toggle((460, 717), (460, 717)), (1200, 800));
    assert!(!p.enabled);
    assert_eq!(p.previous_size, None);
    let mut q: PopOutState<(u32, u32)> = PopOutState { enabled: true, previous_size: None };
    assert_eq!(q.toggle((10, 10), (460, 717)), (460, 717));
}

#[test]
fn pop_out_now_playing_lines() {
    let (t, a) = wiremann::popout::now_playing(Some((
        "Song".to_string(),
        vec!["A".to_string(), "B".to_string()],
    )));
    assert_eq!(t, "Song");
    assert_eq!(a, "A, B");
    let (t, a) = wiremann::popout::now_playing(None);
    assert_eq!(t, "No track selected");
    assert_eq!(a, "Browse your library to find music");
}
