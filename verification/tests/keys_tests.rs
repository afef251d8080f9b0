use wiremann::keys::{key_bindings, KeyAction};

#[test]
fn shortcuts_elsewhere() {
    let v = key_bindings(false);
    let expected = vec![
        ("space", KeyAction::PlayPause),
        ("k", KeyAction::PlayPause),
        ("ctrl-left", KeyAction::Prev),
        ("ctrl-right", KeyAction::Next),
        ("left", KeyAction::SeekBack),
        ("right", KeyAction::SeekForward),
        ("shift-s", KeyAction::Shuffle),
        ("shift-r", KeyAction::Repeat),
        ("ctrl-tab", KeyAction::CycleNext),
        ("ctrl-shift-tab", KeyAction::CyclePrev),
        ("ctrl-1", KeyAction::Library),
        ("ctrl-2", KeyAction::Player),
        ("ctrl-3", KeyAction::Playlists),
    ];
    assert_eq!(v, expected);
}

#[test]
fn shortcuts_on_macos_use_cmd() {
    let v = key_bindings(true);
    assert_eq!(v.len(), 13);
    assert_eq!(v[2], ("cmd-left", KeyAction::Prev));
    assert_eq!(v[3], ("cmd-right", KeyAction::Next));
    assert_eq!(v[9], ("cmd-shift-tab", KeyAction::CyclePrev));
    assert_eq!(v[12], ("cmd-3", KeyAction::Playlists));
    assert_eq!(v[0], ("space", KeyAction::PlayPause));
}

#[test]
fn every_keystroke_is_bound_once() {
    for macos in [false, true] {
        let v = key_bindings(macos);
        for i in 0..v.len() {
            for j in (i + 1)..v.len() {
                assert_ne!(v[i].0, v[j].0);
            }
        }
        let all = [
            KeyAction::PlayPause,
            KeyAction::Next,
            KeyAction::Prev,
            KeyAction::Shuffle,
            KeyAction::Repeat,
            KeyAction::SeekBack,
            KeyAction::SeekForward,
            KeyAction::CycleNext,
            KeyAction::CyclePrev,
            KeyAction::Library,
            KeyAction::Player,
            KeyAction::Playlists,
        ];
        for a in all {
            assert!(v.iter().any(|b| b.1 == a));
        }
    }
}

#[test]
fn help_lists_the_shortcuts() {
    let h = wiremann::keys::shortcut_help();
    assert_eq!(h.len(), 13);
    assert_eq!(h[0], ("Space / K", "Play / Pause"));
    assert_eq!(h[3], ("Left", "Seek Back 5s"));
    assert_eq!(h[12], ("?", "Toggle This Help"));
}

#[test]
fn help_overlay_toggles() {
    let mut o = wiremann::keys::KeybindsOverlay::new();
    assert!(!o.visible);
    o.toggle();
    assert!(o.visible);
    o.toggle();
    assert!(!o.visible);
    o.toggle();
    o.close();
    assert!(!o.visible);
}
