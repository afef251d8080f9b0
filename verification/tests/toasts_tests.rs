use wiremann::toasts::{Toast, ToastKind, ToastManager, ToastPhase, ERROR_TOAST_MS, INFO_TOAST_MS, TOAST_ANIMATION_MS};

fn phases(m: &ToastManager) -> Vec<(u64, ToastPhase)> {
    m.toasts.iter().map(|t: &Toast| (t.id, t.phase)).collect()
}

#[test]
fn spawned_toasts_get_increasing_ids() {
    let mut m = ToastManager::new();
    assert_eq!(m.info("a".to_string(), 0), 0);
    assert_eq!(m.success("b".to_string(), 5), 1);
    assert_eq!(m.error("c".to_string(), 9), 2);
    assert_eq!(m.scanning_status(10), 3);
    assert_eq!(m.next_id, 4);
    assert_eq!(m.toasts.len(), 4);
    assert_eq!(m.toasts[0].duration, Some(INFO_TOAST_MS));
    assert_eq!(m.toasts[1].duration, Some(4000));
    assert_eq!(m.toasts[2].duration, Some(ERROR_TOAST_MS));
    assert_eq!(m.toasts[3].duration, None);
    assert!(matches!(m.toasts[3].kind, ToastKind::ScanProgress));
    assert!(m.toasts.iter().all(|t| t.phase == ToastPhase::Entering && t.anim_phase == ToastPhase::Entering));
}

#[test]
fn toast_life_cycle() {
    let mut m = ToastManager::new();
    m.info("hello".to_string(), 1000);
    m.tick(1250);
    assert_eq!(phases(&m), vec![(0, ToastPhase::Entering)]);
    m.tick(1251);
    assert_eq!(phases(&m), vec![(0, ToastPhase::Idle)]);
    m.tick(4999);
    assert_eq!(phases(&m), vec![(0, ToastPhase::Idle)]);
    m.tick(5000);
    assert_eq!(phases(&m), vec![(0, ToastPhase::Exiting)]);
    assert_eq!(m.toasts[0].exiting_at, Some(5000));
    m.tick(5000 + TOAST_ANIMATION_MS - 1);
    assert_eq!(m.toasts.len(), 1);
    m.tick(5000 + TOAST_ANIMATION_MS);
    assert!(m.toasts.is_empty());
}

#[test]
fn clicking_dismisses_and_scan_toast_stays_until_clicked() {
    let mut m = ToastManager::new();
    let a = m.error("boom".to_string(), 0);
    let s = m.scanning_status(0);
    m.tick(100_000);
    // the error toast timed out and left; the scan toast has no duration
    assert_eq!(phases(&m), vec![(a, ToastPhase::Exiting), (s, ToastPhase::Idle)]);
    m.tick(100_300);
    assert_eq!(phases(&m), vec![(s, ToastPhase::Idle)]);
    m.dismiss(s, 100_400);
    assert_eq!(phases(&m), vec![(s, ToastPhase::Exiting)]);
    // a dismissed scan toast records no time of leaving
    assert_eq!(m.toasts[0].exiting_at, None);
    m.tick(200_000);
    assert_eq!(m.toasts.len(), 1);
}

#[test]
fn dismissing_a_message_toast_starts_its_exit() {
    let mut m = ToastManager::new();
    let a = m.info("x".to_string(), 0);
    let b = m.info("y".to_string(), 0);
    m.dismiss(a, 300);
    assert_eq!(m.toasts[0].exiting_at, Some(300));
    assert_eq!(m.toasts[1].phase, ToastPhase::Entering);
    m.tick(550);
    assert_eq!(phases(&m), vec![(b, ToastPhase::Idle)]);
}

#[test]
fn animation_settles_on_phase() {
    let mut m = ToastManager::new();
    let a = m.info("x".to_string(), 0);
    m.tick(300);
    assert_eq!(m.toasts[0].anim_phase, ToastPhase::Entering);
    m.settle_animation(a);
    assert_eq!(m.toasts[0].anim_phase, ToastPhase::Idle);
}

#[test]
fn clock_going_backwards_counts_as_no_time() {
    let mut m = ToastManager::new();
    m.info("x".to_string(), 10_000);
    m.tick(0);
    assert_eq!(phases(&m), vec![(0, ToastPhase::Entering)]);
}

#[test]
fn sweeps_every_128_ms_never_go_back() {
    let mut m = ToastManager::new();
    m.info("a".to_string(), 0);
    m.scanning_status(0);
    let rank = |p: ToastPhase| match p {
        ToastPhase::Entering => 0,
        ToastPhase::Idle => 1,
        ToastPhase::Exiting => 2,
    };
    let mut last = vec![0, 0];
    let mut now = 0;
    while now < 10_000 {
        now += 128;
        m.tick(now);
        for t in &m.toasts {
            let r = rank(t.phase);
            assert!(r >= last[t.id as usize]);
            last[t.id as usize] = r;
        }
        assert!(m.toasts.iter().any(|t| t.id == 1 && t.exiting_at.is_none()));
    }
    assert_eq!(m.toasts.len(), 1);
}
