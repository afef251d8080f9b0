//! Which image stands for an album, an artist or a playlist on its card.

use crate::ids::{ImageId, TrackId};
use crate::layout::same_track;
use vstd::prelude::*;

verus! {

/// A track of the library and the image it carries, if any.
#[derive(Clone, Copy, PartialEq, Eq, Debug)]
pub struct TrackImage {
    pub id: TrackId,
    pub image: Option<ImageId>,
}

/// The image of the first track in `library` whose identifier is `id`, or
/// none when no such track carries one.
pub open spec fn image_of(library: Seq<TrackImage>, id: TrackId) -> Option<ImageId>
    decreases library.len(),
{
    if library.len() == 0 {
        None
    } else if library[0].id.0@ == id.0@ {
        library[0].image
    } else {
        image_of(library.drop_first(), id)
    }
}

/// The image of a card: the item's own image; else that of its first track,
/// when the library holds that track and it carries one; else none.
pub open spec fn cover_spec(own: Option<ImageId>, tracks: Seq<TrackId>, library: Seq<TrackImage>) -> Option<
    ImageId,
> {
    match own {
        Some(i) => Some(i),
        None => if tracks.len() == 0 {
            None
        } else {
            image_of(library, tracks[0])
        },
    }
}

/// Looks up the image of the track `id` in the library.
fn lookup_image(library: &[TrackImage], id: &TrackId) -> (r: Option<ImageId>)
    ensures
        r == image_of(library@, *id),
{
    let mut k: usize = 0;
    assert(library@.skip(0) =~= library@);
    while k < library.len()
        invariant
            k <= library@.len(),
            image_of(library@, *id) == image_of(library@.skip(k as int), *id),
        decreases library@.len() - k,
    {
        assert(library@.skip(k as int).drop_first() =~= library@.skip(k as int + 1));
        if same_track(&library[k].id, id) {
            return library[k].image;
        }
        k = k + 1;
    }
    None
}

/// Chooses the image of a card for an item with its own image `own` and its
/// tracks `tracks`, in order.
pub fn cover_image(own: Option<ImageId>, tracks: &[TrackId], library: &[TrackImage]) -> (r: Option<
    ImageId,
>)
    ensures
        r == cover_spec(own, tracks@, library@),
{
    match own {
        Some(i) => Some(i),
        None => {
            if tracks.len() == 0 {
                None
            } else {
                lookup_image(library, &tracks[0])
            }
        },
    }
}

} // verus!
