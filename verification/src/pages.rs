//! The pages of the main window, the keyboard decisions that move between
//! them, and the playback keys.

use crate::icons::Icons;
use vstd::prelude::*;

verus! {

/// The page shown in the main window.
#[derive(Clone, Copy, PartialEq, Eq, Debug, Structural)]
pub enum Page {
    Library,
    Player,
    Playlists,
}

/// The page after `page` when cycling forward: Library, Player, Playlists,
/// then Library again.
pub fn cycle_next(page: Page) -> (next: Page)
    ensures
        next == next_page(page),
{
    match page {
        Page::Library => Page::Player,
        Page::Player => Page::Playlists,
        Page::Playlists => Page::Library,
    }
}

/// The page before `page` when cycling backward.
pub fn cycle_prev(page: Page) -> (prev: Page)
    ensures
        prev == prev_page(page),
{
    match page {
        Page::Library => Page::Playlists,
        Page::Player => Page::Library,
        Page::Playlists => Page::Player,
    }
}

/// The forward page in the cycle, as a spec function.
pub open spec fn next_page(page: Page) -> Page {
    match page {
        Page::Library => Page::Player,
        Page::Player => Page::Playlists,
        Page::Playlists => Page::Library,
    }
}

/// The backward page in the cycle, as a spec function.
pub open spec fn prev_page(page: Page) -> Page {
    match page {
        Page::Library => Page::Playlists,
        Page::Player => Page::Library,
        Page::Playlists => Page::Player,
    }
}

/// Cycling backward undoes cycling forward and the other way round, and three
/// steps forward come back to the page where they started.
pub proof fn law_page_cycle(page: Page)
    ensures
        prev_page(next_page(page)) == page,
        next_page(prev_page(page)) == page,
        next_page(next_page(next_page(page))) == page,
        next_page(page) != page,
{
}

/// The direction in which the window's content slides when the page changes
/// from `prev` to `next`: 1 for a step right along Library, Player,
/// Playlists, -1 for a step left, 0 otherwise (no change, or a jump between
/// the two ends).
pub open spec fn page_slide(prev: Page, next: Page) -> i32 {
    match (prev, next) {
        (Page::Library, Page::Player) | (Page::Player, Page::Playlists) => 1,
        (Page::Playlists, Page::Player) | (Page::Player, Page::Library) => -1i32,
        _ => 0,
    }
}

/// Computes the direction of the slide from page `prev` to page `next`.
pub fn page_direction(prev: Page, next: Page) -> (d: i32)
    ensures
        d == page_slide(prev, next),
{
    match (prev, next) {
        (Page::Library, Page::Player) | (Page::Player, Page::Playlists) => 1,
        (Page::Playlists, Page::Player) | (Page::Player, Page::Library) => -1,
        _ => 0,
    }
}

/// Going back slides the other way, and staying put does not slide.
pub proof fn law_page_slide(a: Page, b: Page)
    ensures
        page_slide(a, b) == -page_slide(b, a),
        page_slide(a, a) == 0,
        page_slide(a, next_page(a)) != -1,
{
}

/// The panel beside the player: the queue or the lyrics.
#[derive(Clone, Copy, PartialEq, Eq, Debug, Structural)]
pub enum Panel {
    Lyrics,
    Queue,
}

/// Whether the side panel of the player is shown, and which one.
#[derive(Clone, Copy, PartialEq, Eq, Debug, Structural)]
pub struct PanelState {
    pub shown: bool,
    pub current: Panel,
}

impl PanelState {
    /// The panel starts shown, on the queue.
    pub fn new() -> (s: Self)
        ensures
            s == (PanelState { shown: true, current: Panel::Queue }),
    {
        PanelState { shown: true, current: Panel::Queue }
    }

    /// Shows the panel when hidden, hides it when shown, keeping its tab.
    pub fn toggle_shown(&mut self)
        ensures
            final(self).shown == !old(self).shown,
            final(self).current == old(self).current,
    {
        self.shown = !self.shown;
    }

    /// Switches to the tab `p`, keeping the panel shown or hidden.
    pub fn select(&mut self, p: Panel)
        ensures
            final(self).current == p,
            final(self).shown == old(self).shown,
    {
        self.current = p;
    }
}

/// Left offset in pixels of the underline of the active tab of the panel.
pub fn tab_underline_offset(p: Panel) -> (x: u32)
    ensures
        x == (if p == Panel::Queue { 0u32 } else { 72u32 }),
{
    match p {
        Panel::Queue => 0,
        Panel::Lyrics => 72,
    }
}

/// Left offset in pixels of the highlight pill of the page switcher, whose
/// buttons are 96 pixels wide.
pub fn highlight_offset(page: Page) -> (x: u32)
    ensures
        x == match page {
            Page::Library => 0u32,
            Page::Player => 96u32,
            Page::Playlists => 192u32,
        },
{
    match page {
        Page::Library => 0,
        Page::Player => 96,
        Page::Playlists => 192,
    }
}

/// The page switcher of the title bar.
#[derive(Clone, Copy, Debug)]
pub struct NavBar;

impl NavBar {
    /// Creates the page switcher.
    pub fn new() -> (r: Self)
        ensures
            r == NavBar,
    {
        NavBar
    }
}

/// Whether the player is playing, paused or stopped.
#[derive(Clone, Copy, PartialEq, Eq, Debug, Structural)]
pub enum PlaybackStatus {
    Playing,
    Paused,
    Stopped,
}

/// What the play/pause key asks the player to do.
#[derive(Clone, Copy, PartialEq, Eq, Debug, Structural)]
pub enum PlayPause {
    Play,
    Pause,
}

/// The play/pause key plays when the player is paused or stopped, and pauses
/// when it is playing.
pub fn play_pause(status: PlaybackStatus) -> (r: PlayPause)
    ensures
        r == (if status == PlaybackStatus::Playing { PlayPause::Pause } else { PlayPause::Play }),
{
    if status == PlaybackStatus::Paused || status == PlaybackStatus::Stopped {
        PlayPause::Play
    } else {
        PlayPause::Pause
    }
}

/// The icon of the play button: pause while playing, play otherwise.
pub fn play_button_icon(status: PlaybackStatus) -> (i: Icons)
    ensures
        i == (if status == PlaybackStatus::Playing { Icons::Pause } else { Icons::Play }),
{
    if status == PlaybackStatus::Playing {
        Icons::Pause
    } else {
        Icons::Play
    }
}

/// How many seconds the seek keys move the playback position.
pub const SEEK_STEP: u64 = 5;

/// Five seconds on from `position`, or the largest position when that overflows.
pub open spec fn forward_target(position: u64) -> u64 {
    if position + SEEK_STEP <= u64::MAX {
        (position + SEEK_STEP) as u64
    } else {
        u64::MAX
    }
}

/// Five seconds back from `position`, or the start when it is earlier than that.
pub open spec fn back_target(position: u64) -> u64 {
    if position >= SEEK_STEP {
        (position - SEEK_STEP) as u64
    } else {
        0
    }
}

/// The position that the seek-forward key seeks to.
pub fn seek_forward(position: u64) -> (r: u64)
    ensures
        r == forward_target(position),
{
    position.saturating_add(SEEK_STEP)
}

/// The position that the seek-back key seeks to.
pub fn seek_back(position: u64) -> (r: u64)
    ensures
        r == back_target(position),
{
    position.saturating_sub(SEEK_STEP)
}

/// Seeking back undoes seeking forward, away from the largest position; and
/// seeking forward undoes seeking back, away from the start.
pub proof fn law_seek_round_trip(position: u64)
    ensures
        position + SEEK_STEP <= u64::MAX ==> back_target(forward_target(position)) == position,
        position >= SEEK_STEP ==> forward_target(back_target(position)) == position,
        forward_target(position) >= position,
        back_target(position) <= position,
{
}

} // verus!
