//! Identifiers of library entities, held as their raw bytes or numbers.

use vstd::prelude::*;

verus! {

/// Identifier of a track: sixteen opaque bytes.
#[derive(Clone, Copy, PartialEq, Eq, Debug, Default, Hash)]
pub struct TrackId(pub [u8; 16]);

/// Identifier of a playlist: the sixteen bytes of its UUID.
#[derive(Clone, Copy, PartialEq, Eq, Debug, Default, Hash)]
pub struct PlaylistId(pub [u8; 16]);

/// Identifier of an album.
#[derive(Clone, Copy, PartialEq, Eq, Debug, Default, Hash, Structural)]
pub struct AlbumId(pub u64);

/// Identifier of an artist.
#[derive(Clone, Copy, PartialEq, Eq, Debug, Default, Hash, Structural)]
pub struct ArtistId(pub u64);

/// Identifier of a cached image.
#[derive(Clone, Copy, PartialEq, Eq, Debug, Default, Hash, Structural)]
pub struct ImageId(pub u64);

} // verus!
