//! The keyboard shortcuts of the player and the actions they trigger.

use crate::assets::starts_with;
use vstd::prelude::*;

verus! {

/// An action that a keyboard shortcut triggers.
#[derive(Clone, Copy, PartialEq, Eq, Debug, Structural)]
pub enum KeyAction {
    PlayPause,
    Next,
    Prev,
    Shuffle,
    Repeat,
    SeekBack,
    SeekForward,
    CycleNext,
    CyclePrev,
    Library,
    Player,
    Playlists,
}

/// The shortcuts, as keystrokes and the actions they trigger; `cmd` stands
/// in for `ctrl` on macOS.
pub open spec fn bindings_spec(macos: bool) -> Seq<(Seq<char>, KeyAction)> {
    if macos {
        seq![
            ("space"@, KeyAction::PlayPause),
            ("k"@, KeyAction::PlayPause),
            ("cmd-left"@, KeyAction::Prev),
            ("cmd-right"@, KeyAction::Next),
            ("left"@, KeyAction::SeekBack),
            ("right"@, KeyAction::SeekForward),
            ("shift-s"@, KeyAction::Shuffle),
            ("shift-r"@, KeyAction::Repeat),
            ("cmd-tab"@, KeyAction::CycleNext),
            ("cmd-shift-tab"@, KeyAction::CyclePrev),
            ("cmd-1"@, KeyAction::Library),
            ("cmd-2"@, KeyAction::Player),
            ("cmd-3"@, KeyAction::Playlists),
        ]
    } else {
        seq![
            ("space"@, KeyAction::PlayPause),
            ("k"@, KeyAction::PlayPause),
            ("ctrl-left"@, KeyAction::Prev),
            ("ctrl-right"@, KeyAction::Next),
            ("left"@, KeyAction::SeekBack),
            ("right"@, KeyAction::SeekForward),
            ("shift-s"@, KeyAction::Shuffle),
            ("shift-r"@, KeyAction::Repeat),
            ("ctrl-tab"@, KeyAction::CycleNext),
            ("ctrl-shift-tab"@, KeyAction::CyclePrev),
            ("ctrl-1"@, KeyAction::Library),
            ("ctrl-2"@, KeyAction::Player),
            ("ctrl-3"@, KeyAction::Playlists),
        ]
    }
}

/// The views of a list of shortcuts.
pub open spec fn bindings_view(v: Seq<(&'static str, KeyAction)>) -> Seq<(Seq<char>, KeyAction)> {
    v.map_values(|b: (&'static str, KeyAction)| (b.0@, b.1))
}

/// The keyboard shortcuts of the player on macOS or elsewhere.
pub fn key_bindings(macos: bool) -> (v: Vec<(&'static str, KeyAction)>)
    ensures
        bindings_view(v@) == bindings_spec(macos),
{
    let t: u8 = if macos {
        0
    } else {
        1
    };
    let mut v: Vec<(&'static str, KeyAction)> = Vec::new();
    v.push(("space", KeyAction::PlayPause));
    v.push(("k", KeyAction::PlayPause));
    if t == 0 {
        v.push(("cmd-left", KeyAction::Prev));
        v.push(("cmd-right", KeyAction::Next));
    } else {
        v.push(("ctrl-left", KeyAction::Prev));
        v.push(("ctrl-right", KeyAction::Next));
    }
    v.push(("left", KeyAction::SeekBack));
    v.push(("right", KeyAction::SeekForward));
    v.push(("shift-s", KeyAction::Shuffle));
    v.push(("shift-r", KeyAction::Repeat));
    if t == 0 {
        v.push(("cmd-tab", KeyAction::CycleNext));
        v.push(("cmd-shift-tab", KeyAction::CyclePrev));
        v.push(("cmd-1", KeyAction::Library));
        v.push(("cmd-2", KeyAction::Player));
        v.push(("cmd-3", KeyAction::Playlists));
    } else {
        v.push(("ctrl-tab", KeyAction::CycleNext));
        v.push(("ctrl-shift-tab", KeyAction::CyclePrev));
        v.push(("ctrl-1", KeyAction::Library));
        v.push(("ctrl-2", KeyAction::Player));
        v.push(("ctrl-3", KeyAction::Playlists));
    }
    assert(bindings_view(v@) =~= bindings_spec(macos));
    v
}

/// Some shortcut of `b` triggers `a`.
pub open spec fn has_binding(b: Seq<(Seq<char>, KeyAction)>, a: KeyAction) -> bool {
    exists|i: int| 0 <= i < b.len() && b[i].1 == a
}

/// Every action has a shortcut, and no keystroke triggers two actions.
pub proof fn law_key_bindings(macos: bool)
    ensures
        forall|a: KeyAction| #[trigger] has_binding(bindings_spec(macos), a),
        forall|i: int, j: int|
            0 <= i < j < bindings_spec(macos).len() ==> #[trigger] bindings_spec(macos)[i].0 != #[trigger] bindings_spec(macos)[j].0,
{
    let b = bindings_spec(macos);
    assert forall|a: KeyAction| #[trigger] has_binding(b, a) by {
        match a {
            KeyAction::PlayPause => assert(b[0].1 == a),
            KeyAction::Prev => assert(b[2].1 == a),
            KeyAction::Next => assert(b[3].1 == a),
            KeyAction::SeekBack => assert(b[4].1 == a),
            KeyAction::SeekForward => assert(b[5].1 == a),
            KeyAction::Shuffle => assert(b[6].1 == a),
            KeyAction::Repeat => assert(b[7].1 == a),
            KeyAction::CycleNext => assert(b[8].1 == a),
            KeyAction::CyclePrev => assert(b[9].1 == a),
            KeyAction::Library => assert(b[10].1 == a),
            KeyAction::Player => assert(b[11].1 == a),
            KeyAction::Playlists => assert(b[12].1 == a),
        }
    }
    assert forall|i: int, j: int| 0 <= i < j < b.len() implies #[trigger] b[i].0 != #[trigger] b[j].0 by {
        reveal_strlit("space");
        reveal_strlit("k");
        reveal_strlit("cmd-left");
        reveal_strlit("cmd-right");
        reveal_strlit("left");
        reveal_strlit("right");
        reveal_strlit("shift-s");
        reveal_strlit("shift-r");
        reveal_strlit("cmd-tab");
        reveal_strlit("cmd-shift-tab");
        reveal_strlit("cmd-1");
        reveal_strlit("cmd-2");
        reveal_strlit("cmd-3");
        reveal_strlit("ctrl-left");
        reveal_strlit("ctrl-right");
        reveal_strlit("ctrl-tab");
        reveal_strlit("ctrl-shift-tab");
        reveal_strlit("ctrl-1");
        reveal_strlit("ctrl-2");
        reveal_strlit("ctrl-3");
        if b[i].0 == b[j].0 {
            assert(b[i].0.len() == b[j].0.len());
            assert(b[i].0[b[i].0.len() - 1] == b[j].0[b[j].0.len() - 1]);
            assert(b[i].0[0] == b[j].0[0]);
        }
    }
}

/// The modifier key of the shortcuts: `cmd` on macOS, `ctrl` elsewhere.
pub open spec fn modifier(macos: bool) -> Seq<char> {
    if macos {
        "cmd"@
    } else {
        "ctrl"@
    }
}

/// The keystroke of the modifier key with the digit `d`, such as "ctrl-1".
pub open spec fn digit_key(macos: bool, d: char) -> Seq<char> {
    modifier(macos) + seq!['-', d]
}

/// The page that the digit `d` leads to: 1 the library, 2 the player, 3 the
/// playlists.
pub open spec fn digit_page(d: char) -> KeyAction {
    if d == '1' {
        KeyAction::Library
    } else if d == '2' {
        KeyAction::Player
    } else {
        KeyAction::Playlists
    }
}

/// On every platform the modifier with a digit opens the same page: 1 the
/// library, 2 the player, 3 the playlists; each such keystroke is bound, and
/// every binding of it triggers that page.
pub proof fn law_digit_shortcuts(macos: bool, d: char)
    requires
        d == '1' || d == '2' || d == '3',
    ensures
        exists|i: int| 0 <= i < bindings_spec(macos).len() && #[trigger] bindings_spec(macos)[i].0 == digit_key(macos, d),
        forall|i: int|
            0 <= i < bindings_spec(macos).len() && #[trigger] bindings_spec(macos)[i].0 == digit_key(macos, d)
                ==> bindings_spec(macos)[i].1 == digit_page(d),
{
    let b = bindings_spec(macos);
    let k = digit_key(macos, d);
    let w: int = if d == '1' { 10 } else if d == '2' { 11 } else { 12 };
    assert(b[w].0 == k) by {
        reveal_strlit("space");
        reveal_strlit("k");
        reveal_strlit("cmd-left");
        reveal_strlit("cmd-right");
        reveal_strlit("left");
        reveal_strlit("right");
        reveal_strlit("shift-s");
        reveal_strlit("shift-r");
        reveal_strlit("cmd-tab");
        reveal_strlit("cmd-shift-tab");
        reveal_strlit("cmd-1");
        reveal_strlit("cmd-2");
        reveal_strlit("cmd-3");
        reveal_strlit("ctrl-left");
        reveal_strlit("ctrl-right");
        reveal_strlit("ctrl-tab");
        reveal_strlit("ctrl-shift-tab");
        reveal_strlit("ctrl-1");
        reveal_strlit("ctrl-2");
        reveal_strlit("ctrl-3");
        reveal_strlit("cmd");
        reveal_strlit("ctrl");
        assert(b[w].0 =~= k);
    }
    assert forall|i: int| 0 <= i < b.len() && #[trigger] b[i].0 == k implies b[i].1 == digit_page(d) by {
        reveal_strlit("space");
        reveal_strlit("k");
        reveal_strlit("cmd-left");
        reveal_strlit("cmd-right");
        reveal_strlit("left");
        reveal_strlit("right");
        reveal_strlit("shift-s");
        reveal_strlit("shift-r");
        reveal_strlit("cmd-tab");
        reveal_strlit("cmd-shift-tab");
        reveal_strlit("cmd-1");
        reveal_strlit("cmd-2");
        reveal_strlit("cmd-3");
        reveal_strlit("ctrl-left");
        reveal_strlit("ctrl-right");
        reveal_strlit("ctrl-tab");
        reveal_strlit("ctrl-shift-tab");
        reveal_strlit("ctrl-1");
        reveal_strlit("ctrl-2");
        reveal_strlit("ctrl-3");
        reveal_strlit("cmd");
        reveal_strlit("ctrl");
        assert(k.len() == b[i].0.len());
        assert(k[0] == b[i].0[0]);
        assert(k[k.len() - 1] == b[i].0[k.len() - 1]);
        assert(k[k.len() - 2] == b[i].0[k.len() - 2]);
    }
}

/// The shortcuts on macOS are those of the other platforms, in the same order
/// and triggering the same actions, with `cmd` in place of `ctrl`.
pub proof fn law_platform_bindings()
    ensures
        bindings_spec(true).len() == bindings_spec(false).len(),
        forall|i: int| 0 <= i < bindings_spec(false).len() ==> {
            &&& #[trigger] bindings_spec(true)[i].1 == bindings_spec(false)[i].1
            &&& if starts_with(bindings_spec(false)[i].0, "ctrl"@) {
                bindings_spec(true)[i].0 == "cmd"@ + bindings_spec(false)[i].0.skip(4)
            } else {
                bindings_spec(true)[i].0 == bindings_spec(false)[i].0
            }
        },
{
    let m = bindings_spec(true);
    let o = bindings_spec(false);
    assert forall|i: int| 0 <= i < o.len() implies {
        &&& #[trigger] m[i].1 == o[i].1
        &&& if starts_with(o[i].0, "ctrl"@) {
            m[i].0 == "cmd"@ + o[i].0.skip(4)
        } else {
            m[i].0 == o[i].0
        }
    } by {
        reveal_strlit("space");
        reveal_strlit("k");
        reveal_strlit("cmd-left");
        reveal_strlit("cmd-right");
        reveal_strlit("left");
        reveal_strlit("right");
        reveal_strlit("shift-s");
        reveal_strlit("shift-r");
        reveal_strlit("cmd-tab");
        reveal_strlit("cmd-shift-tab");
        reveal_strlit("cmd-1");
        reveal_strlit("cmd-2");
        reveal_strlit("cmd-3");
        reveal_strlit("ctrl-left");
        reveal_strlit("ctrl-right");
        reveal_strlit("ctrl-tab");
        reveal_strlit("ctrl-shift-tab");
        reveal_strlit("ctrl-1");
        reveal_strlit("ctrl-2");
        reveal_strlit("ctrl-3");
        reveal_strlit("cmd");
        reveal_strlit("ctrl");
        if i == 0 {
            assert(o[0].0.len() < 4 || o[0].0.take(4)[0] != "ctrl"@[0]); assert(m[0].0 =~= o[0].0);
        }
        if i == 1 {
            assert(o[1].0.len() < 4 || o[1].0.take(4)[0] != "ctrl"@[0]); assert(m[1].0 =~= o[1].0);
        }
        if i == 2 {
            assert(o[2].0.take(4) =~= "ctrl"@); assert(m[2].0 =~= "cmd"@ + o[2].0.skip(4));
        }
        if i == 3 {
            assert(o[3].0.take(4) =~= "ctrl"@); assert(m[3].0 =~= "cmd"@ + o[3].0.skip(4));
        }
        if i == 4 {
            assert(o[4].0.len() < 4 || o[4].0.take(4)[0] != "ctrl"@[0]); assert(m[4].0 =~= o[4].0);
        }
        if i == 5 {
            assert(o[5].0.len() < 4 || o[5].0.take(4)[0] != "ctrl"@[0]); assert(m[5].0 =~= o[5].0);
        }
        if i == 6 {
            assert(o[6].0.len() < 4 || o[6].0.take(4)[0] != "ctrl"@[0]); assert(m[6].0 =~= o[6].0);
        }
        if i == 7 {
            assert(o[7].0.len() < 4 || o[7].0.take(4)[0] != "ctrl"@[0]); assert(m[7].0 =~= o[7].0);
        }
        if i == 8 {
            assert(o[8].0.take(4) =~= "ctrl"@); assert(m[8].0 =~= "cmd"@ + o[8].0.skip(4));
        }
        if i == 9 {
            assert(o[9].0.take(4) =~= "ctrl"@); assert(m[9].0 =~= "cmd"@ + o[9].0.skip(4));
        }
        if i == 10 {
            assert(o[10].0.take(4) =~= "ctrl"@); assert(m[10].0 =~= "cmd"@ + o[10].0.skip(4));
        }
        if i == 11 {
            assert(o[11].0.take(4) =~= "ctrl"@); assert(m[11].0 =~= "cmd"@ + o[11].0.skip(4));
        }
        if i == 12 {
            assert(o[12].0.take(4) =~= "ctrl"@); assert(m[12].0 =~= "cmd"@ + o[12].0.skip(4));
        }
    }
}

/// The lines of the shortcut help: the keys, then what they do.
pub open spec fn shortcut_help_spec() -> Seq<(Seq<char>, Seq<char>)> {
    seq![
        ("Space / K"@, "Play / Pause"@),
        ("Ctrl+Left"@, "Previous Track"@),
        ("Ctrl+Right"@, "Next Track"@),
        ("Left"@, "Seek Back 5s"@),
        ("Right"@, "Seek Forward 5s"@),
        ("Shift+S"@, "Toggle Shuffle"@),
        ("Shift+R"@, "Toggle Repeat"@),
        ("Ctrl+Tab"@, "Next Page"@),
        ("Ctrl+Shift+Tab"@, "Previous Page"@),
        ("Ctrl+1"@, "Library Page"@),
        ("Ctrl+2"@, "Player Page"@),
        ("Ctrl+3"@, "Playlists Page"@),
        ("?"@, "Toggle This Help"@),
    ]
}

/// The views of the lines of a help table.
pub open spec fn help_view(v: Seq<(&'static str, &'static str)>) -> Seq<(Seq<char>, Seq<char>)> {
    v.map_values(|h: (&'static str, &'static str)| (h.0@, h.1@))
}

/// Lists the lines of the shortcut help.
pub fn shortcut_help() -> (v: Vec<(&'static str, &'static str)>)
    ensures
        help_view(v@) == shortcut_help_spec(),
{
    let mut v: Vec<(&'static str, &'static str)> = Vec::new();
    v.push(("Space / K", "Play / Pause"));
    v.push(("Ctrl+Left", "Previous Track"));
    v.push(("Ctrl+Right", "Next Track"));
    v.push(("Left", "Seek Back 5s"));
    v.push(("Right", "Seek Forward 5s"));
    v.push(("Shift+S", "Toggle Shuffle"));
    v.push(("Shift+R", "Toggle Repeat"));
    v.push(("Ctrl+Tab", "Next Page"));
    v.push(("Ctrl+Shift+Tab", "Previous Page"));
    v.push(("Ctrl+1", "Library Page"));
    v.push(("Ctrl+2", "Player Page"));
    v.push(("Ctrl+3", "Playlists Page"));
    v.push(("?", "Toggle This Help"));
    assert(help_view(v@) =~= shortcut_help_spec());
    v
}

/// Whether the shortcut help is shown over the window.
#[derive(Clone, Copy, PartialEq, Eq, Debug, Structural)]
pub struct KeybindsOverlay {
    pub visible: bool,
}

impl KeybindsOverlay {
    /// The help starts hidden.
    pub fn new() -> (o: Self)
        ensures
            !o.visible,
    {
        KeybindsOverlay { visible: false }
    }

    /// Shows the help when hidden, hides it when shown.
    pub fn toggle(&mut self)
        ensures
            final(self).visible == !old(self).visible,
    {
        self.visible = !self.visible;
    }

    /// Hides the help, as a click outside it does.
    pub fn close(&mut self)
        ensures
            !final(self).visible,
    {
        self.visible = false;
    }
}

} // verus!
