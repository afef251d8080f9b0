//! The compact pop-out player: switching the window into it and back.

use crate::dashboard::{join_names, joined, texts};
use vstd::prelude::*;
use vstd::string::*;

verus! {

/// Whether the window shows the pop-out player, and the size to give the
/// window back when it leaves it.
pub struct PopOutState<S> {
    pub enabled: bool,
    pub previous_size: Option<S>,
}

impl<S: Copy> PopOutState<S> {
    /// The full player, with no size remembered.
    pub fn new() -> (p: Self)
        ensures
            !p.enabled,
            p.previous_size is None,
    {
        PopOutState { enabled: false, previous_size: None }
    }

    /// Switches between the full player and the pop-out player, and returns
    /// the size to give the window: entering remembers the window's size and
    /// takes the pop-out size; leaving gives back the remembered size, or the
    /// pop-out size when none is remembered.
    pub fn toggle(&mut self, window_size: S, pop_out_size: S) -> (target: S)
        ensures
            (final(self).enabled, final(self).previous_size, target) == toggled(
                old(self).enabled,
                old(self).previous_size,
                window_size,
                pop_out_size,
            ),
    {
        if self.enabled {
            self.enabled = false;
            let size = match self.previous_size {
                Some(s) => s,
                None => pop_out_size,
            };
            self.previous_size = None;
            size
        } else {
            self.enabled = true;
            self.previous_size = Some(window_size);
            pop_out_size
        }
    }
}

/// The state after a toggle, and the size it gives the window.
pub open spec fn toggled<S>(enabled: bool, previous: Option<S>, window_size: S, pop_out_size: S) -> (bool, Option<S>, S) {
    if enabled {
        (
            false,
            None,
            match previous {
                Some(s) => s,
                None => pop_out_size,
            },
        )
    } else {
        (true, Some(window_size), pop_out_size)
    }
}

/// Entering the pop-out player and leaving it again gives the window back
/// the size it had, and leaves nothing remembered.
pub proof fn law_pop_out_round_trip<S>(previous: Option<S>, window_size: S, pop_out_size: S, later_size: S)
    ensures
        ({
            let (e1, p1, t1) = toggled(false, previous, window_size, pop_out_size);
            let (e2, p2, t2) = toggled(e1, p1, later_size, pop_out_size);
            &&& e1 && t1 == pop_out_size
            &&& !e2 && p2 is None && t2 == window_size
        }),
{
}

/// The two lines of the pop-out player: the current track's title and its
/// artists joined by commas, or a prompt when no track is loaded.
pub open spec fn now_playing_spec(current: Option<(String, Seq<String>)>) -> (Seq<char>, Seq<char>) {
    match current {
        Some((title, artists)) => (title@, joined(texts(artists))),
        None => ("No track selected"@, "Browse your library to find music"@),
    }
}

/// Writes the two lines of the pop-out player from the current track's title
/// and the names of its artists.
pub fn now_playing(current: Option<(String, Vec<String>)>) -> (r: (String, String))
    ensures
        (r.0@, r.1@) == now_playing_spec(
            match current {
                Some((t, a)) => Some((t, a@)),
                None => None,
            },
        ),
{
    match current {
        Some((title, artists)) => {
            let line = join_names(artists.as_slice());
            (title, line)
        },
        None => (
            String::from_str("No track selected"),
            String::from_str("Browse your library to find music"),
        ),
    }
}

} // verus!
