//! The track tables of the library: which favorites are listed, and the
//! labels of their rows and headers.

use crate::ids::TrackId;
use crate::layout::same_track;
use crate::timefmt::{decimal, push_decimal};
use vstd::prelude::*;
use vstd::string::*;

verus! {

/// The library holds a track with the identifier `id`.
pub open spec fn in_library(library: Seq<TrackId>, id: TrackId) -> bool {
    exists|k: int| 0 <= k < library.len() && (#[trigger] library[k]).0@ == id.0@
}

/// The favorites that the library still holds, in the order of the favorites.
pub open spec fn kept_favorites(favorites: Seq<TrackId>, library: Seq<TrackId>) -> Seq<TrackId>
    decreases favorites.len(),
{
    if favorites.len() == 0 {
        Seq::empty()
    } else {
        let rest = kept_favorites(favorites.drop_last(), library);
        if in_library(library, favorites.last()) {
            rest.push(favorites.last())
        } else {
            rest
        }
    }
}

/// Whether the library holds the track `id`.
fn holds(library: &[TrackId], id: &TrackId) -> (r: bool)
    ensures
        r == in_library(library@, *id),
{
    let mut k: usize = 0;
    while k < library.len()
        invariant
            k <= library@.len(),
            forall|j: int| 0 <= j < k ==> (#[trigger] library@[j]).0@ != id.0@,
        decreases library@.len() - k,
    {
        if same_track(&library[k], id) {
            return true;
        }
        k = k + 1;
    }
    false
}

/// Lists the favorites that the library still holds, in their order.
pub fn present_favorites(favorites: &[TrackId], library: &[TrackId]) -> (r: Vec<TrackId>)
    ensures
        r@ == kept_favorites(favorites@, library@),
{
    let mut r: Vec<TrackId> = Vec::new();
    let mut i: usize = 0;
    while i < favorites.len()
        invariant
            i <= favorites@.len(),
            r@ == kept_favorites(favorites@.take(i as int), library@),
        decreases favorites@.len() - i,
    {
        assert(favorites@.take(i as int + 1).drop_last() =~= favorites@.take(i as int));
        if holds(library, &favorites[i]) {
            r.push(favorites[i]);
        }
        i = i + 1;
    }
    assert(favorites@.take(favorites@.len() as int) =~= favorites@);
    r
}

/// The favorites listed are exactly those that the library holds: each listed
/// track is a favorite held by the library, each favorite held by the library
/// is listed, and none is listed more often than it is a favorite.
pub proof fn law_present_favorites(favorites: Seq<TrackId>, library: Seq<TrackId>)
    ensures
        forall|t: TrackId| #[trigger] kept_favorites(favorites, library).contains(t) <==> (favorites.contains(t)
            && in_library(library, t)),
        kept_favorites(favorites, library).len() <= favorites.len(),
    decreases favorites.len(),
{
    if favorites.len() > 0 {
        let init = favorites.drop_last();
        law_present_favorites(init, library);
        assert forall|t: TrackId| #[trigger] kept_favorites(favorites, library).contains(t) <==> (
        favorites.contains(t) && in_library(library, t)) by {
            assert(favorites =~= init.push(favorites.last()));
            if favorites.contains(t) && !init.contains(t) {
                let k = choose|k: int| 0 <= k < favorites.len() && favorites[k] == t;
                if k < init.len() {
                    assert(init[k] == t);
                }
                assert(t == favorites.last());
            }
            if init.contains(t) {
                let k = choose|k: int| 0 <= k < init.len() && init[k] == t;
                assert(favorites[k] == t);
            }
            let rest = kept_favorites(init, library);
            if in_library(library, favorites.last()) {
                if rest.push(favorites.last()).contains(t) && !rest.contains(t) {
                    let k = choose|k: int| 0 <= k < rest.len() + 1 && rest.push(favorites.last())[k] == t;
                    if k < rest.len() {
                        assert(rest[k] == t);
                    }
                }
                if rest.contains(t) {
                    let k = choose|k: int| 0 <= k < rest.len() && rest[k] == t;
                    assert(rest.push(favorites.last())[k] == t);
                }
                if t == favorites.last() {
                    assert(rest.push(favorites.last())[rest.len() as int] == t);
                }
            }
        }
    }
}

/// The album shown for a track, or "Unknown" when it has none.
pub fn album_label(album: Option<String>) -> (r: String)
    ensures
        match album {
            Some(name) => r@ == name@,
            None => r@ == "Unknown"@,
        },
{
    match album {
        Some(name) => name,
        None => String::from_str("Unknown"),
    }
}

/// The count of tracks over a table: "12 tracks".
pub open spec fn count_text(n: nat) -> Seq<char> {
    decimal(n) + " tracks"@
}

/// Writes the count of tracks over a table.
pub fn count_label(n: usize) -> (r: String)
    ensures
        r@ == count_text(n as nat),
{
    let mut s = String::new();
    push_decimal(&mut s, n as u64);
    s.append(" tracks");
    s
}

} // verus!
