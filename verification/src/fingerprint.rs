//! Order-independent fingerprints of sets of identifiers.
//!
//! A fingerprint is the exclusive-or of the identifiers, each read as a
//! little-endian 128-bit number. It changes whenever an identifier is added or
//! removed, and it does not depend on the order in which the identifiers come.

use crate::ids::{PlaylistId, TrackId};
use vstd::prelude::*;

verus! {

/// The number whose little-endian base-256 digits are `bytes`.
pub open spec fn le_value(bytes: Seq<u8>) -> nat
    decreases bytes.len(),
{
    if bytes.len() == 0 {
        0
    } else {
        bytes[0] as nat + 256 * le_value(bytes.drop_first())
    }
}

/// `256` raised to `n`.
pub open spec fn pow256(n: nat) -> nat
    decreases n,
{
    if n == 0 {
        1
    } else {
        256 * pow256((n - 1) as nat)
    }
}

/// A little-endian number of `n` bytes is below `256^n`.
pub proof fn lemma_le_value_bound(bytes: Seq<u8>)
    ensures
        le_value(bytes) < pow256(bytes.len()),
    decreases bytes.len(),
{
    if bytes.len() > 0 {
        lemma_le_value_bound(bytes.drop_first());
        let r = le_value(bytes.drop_first());
        let p = pow256((bytes.len() - 1) as nat);
        assert(bytes[0] as nat + 256 * r < 256 * p) by (nonlinear_arith)
            requires
                r < p,
                bytes[0] < 256,
        ;
    }
}

/// The 128-bit number that sixteen bytes stand for, least significant byte first.
pub open spec fn le_u128(bytes: Seq<u8>) -> u128 {
    le_value(bytes) as u128
}

/// Reads sixteen bytes as a little-endian 128-bit number.
pub fn u128_from_le_bytes(bytes: &[u8; 16]) -> (r: u128)
    ensures
        r as nat == le_value(bytes@),
        r == le_u128(bytes@),
{
    let mut acc: u128 = 0;
    let mut i: usize = 16;
    assert(bytes@.subrange(16, 16) =~= Seq::<u8>::empty());
    while i > 0
        invariant
            i <= 16,
            bytes@.len() == 16,
            acc as nat == le_value(bytes@.subrange(i as int, 16)),
            acc < pow256((16 - i) as nat),
        decreases i,
    {
        i = i - 1;
        let ghost tail = bytes@.subrange(i as int + 1, 16);
        let ghost cur = bytes@.subrange(i as int, 16);
        assert(cur.drop_first() =~= tail);
        assert(cur[0] == bytes@[i as int]);
        let b = bytes[i];
        proof {
            lemma_le_value_bound(cur);
            lemma_pow256_16();
            lemma_pow256_mono((16 - i) as nat, 16);
        }
        acc = (b as u128) + 256 * acc;
    }
    assert(bytes@.subrange(0, 16) =~= bytes@);
    acc
}

/// The number whose big-endian base-256 digits are `bytes`.
pub open spec fn be_value(bytes: Seq<u8>) -> nat
    decreases bytes.len(),
{
    if bytes.len() == 0 {
        0
    } else {
        256 * be_value(bytes.drop_last()) + bytes.last() as nat
    }
}

/// A big-endian number of `n` bytes is below `256^n`.
pub proof fn lemma_be_value_bound(bytes: Seq<u8>)
    ensures
        be_value(bytes) < pow256(bytes.len()),
    decreases bytes.len(),
{
    if bytes.len() > 0 {
        lemma_be_value_bound(bytes.drop_last());
        let r = be_value(bytes.drop_last());
        let p = pow256((bytes.len() - 1) as nat);
        assert(256 * r + (bytes.last() as nat) < 256 * p) by (nonlinear_arith)
            requires
                r < p,
                bytes.last() < 256,
        ;
    }
}

/// Reads sixteen bytes as a big-endian 128-bit number, as a UUID's bytes are
/// packed into one number.
pub fn u128_from_be_bytes(bytes: &[u8; 16]) -> (r: u128)
    ensures
        r as nat == be_value(bytes@),
{
    let mut acc: u128 = 0;
    let mut i: usize = 0;
    assert(bytes@.take(0) =~= Seq::<u8>::empty());
    while i < 16
        invariant
            i <= 16,
            bytes@.len() == 16,
            acc as nat == be_value(bytes@.take(i as int)),
        decreases 16 - i,
    {
        let ghost next = bytes@.take(i as int + 1);
        assert(next.drop_last() =~= bytes@.take(i as int));
        proof {
            lemma_be_value_bound(next);
            lemma_pow256_16();
            lemma_pow256_mono(i as nat + 1, 16);
        }
        let b = bytes[i];
        acc = 256 * acc + (b as u128);
        i = i + 1;
    }
    assert(bytes@.take(16) =~= bytes@);
    acc
}

/// `256^16` is one more than the largest 128-bit number.
pub proof fn lemma_pow256_16()
    ensures
        pow256(16) == u128::MAX + 1,
{
    reveal_with_fuel(pow256, 17);
}

/// `pow256` grows with its exponent.
pub proof fn lemma_pow256_mono(a: nat, b: nat)
    requires
        a <= b,
    ensures
        pow256(a) <= pow256(b),
    decreases b,
{
    if a < b {
        lemma_pow256_mono(a, (b - 1) as nat);
    }
}

/// Exclusive-or of all numbers of `s`, taken from first to last.
pub open spec fn xor_all(s: Seq<u128>) -> u128
    decreases s.len(),
{
    if s.len() == 0 {
        0
    } else {
        xor_all(s.drop_last()) ^ s.last()
    }
}

/// The numbers that a sequence of track identifiers stands for.
pub open spec fn track_keys(ids: Seq<TrackId>) -> Seq<u128> {
    ids.map_values(|id: TrackId| le_u128(id.0@))
}

/// The numbers that a sequence of playlist identifiers stands for.
pub open spec fn playlist_keys(ids: Seq<PlaylistId>) -> Seq<u128> {
    ids.map_values(|id: PlaylistId| le_u128(id.0@))
}

/// Fingerprint of a collection of tracks: the exclusive-or of their identifiers
/// read as little-endian 128-bit numbers.
pub fn fingerprint_tracks(ids: &[TrackId]) -> (acc: u128)
    ensures
        acc == xor_all(track_keys(ids@)),
{
    let mut acc: u128 = 0;
    let mut i: usize = 0;
    while i < ids.len()
        invariant
            i <= ids@.len(),
            acc == xor_all(track_keys(ids@.take(i as int))),
        decreases ids@.len() - i,
    {
        let v = u128_from_le_bytes(&ids[i].0);
        proof {
            assert(track_keys(ids@.take(i as int + 1)).drop_last() =~= track_keys(ids@.take(i as int)));
        }
        acc = acc ^ v;
        i = i + 1;
    }
    assert(ids@.take(ids@.len() as int) =~= ids@);
    acc
}

/// Fingerprint of a collection of playlists: the exclusive-or of their UUIDs
/// read as little-endian 128-bit numbers.
pub fn fingerprint_playlists(ids: &[PlaylistId]) -> (acc: u128)
    ensures
        acc == xor_all(playlist_keys(ids@)),
{
    let mut acc: u128 = 0;
    let mut i: usize = 0;
    while i < ids.len()
        invariant
            i <= ids@.len(),
            acc == xor_all(playlist_keys(ids@.take(i as int))),
        decreases ids@.len() - i,
    {
        let v = u128_from_le_bytes(&ids[i].0);
        proof {
            assert(playlist_keys(ids@.take(i as int + 1)).drop_last() =~= playlist_keys(ids@.take(i as int)));
        }
        acc = acc ^ v;
        i = i + 1;
    }
    assert(ids@.take(ids@.len() as int) =~= ids@);
    acc
}


/// Exclusive-or is commutative and associative, has zero as its unit, and
/// cancels a number with itself.
pub proof fn lemma_xor_facts(a: u128, b: u128, c: u128)
    ensures
        a ^ b == b ^ a,
        (a ^ b) ^ c == a ^ (b ^ c),
        a ^ 0 == a,
        a ^ a == 0,
{
    assert(a ^ b == b ^ a) by (bit_vector);
    assert((a ^ b) ^ c == a ^ (b ^ c)) by (bit_vector);
    assert(a ^ 0 == a) by (bit_vector);
    assert(a ^ a == 0) by (bit_vector);
}

/// Taking one number out of the sequence and folding it in last gives the same result.
pub proof fn lemma_xor_all_remove(s: Seq<u128>, i: int)
    requires
        0 <= i < s.len(),
    ensures
        xor_all(s) == xor_all(s.remove(i)) ^ s[i],
    decreases s.len(),
{
    if i == s.len() - 1 {
        assert(s.remove(i) =~= s.drop_last());
    } else {
        let d = s.drop_last();
        lemma_xor_all_remove(d, i);
        assert(d.remove(i) =~= s.remove(i).drop_last());
        assert(s.remove(i).last() == s.last());
        lemma_xor_facts(xor_all(d.remove(i)), s[i], s.last());
        lemma_xor_facts(xor_all(d.remove(i)), s.last(), s[i]);
        lemma_xor_facts(s[i], s.last(), 0);
    }
}

/// Folding two sequences one after the other is the exclusive-or of their folds.
pub proof fn lemma_xor_all_concat(a: Seq<u128>, b: Seq<u128>)
    ensures
        xor_all(a + b) == xor_all(a) ^ xor_all(b),
    decreases b.len(),
{
    if b.len() == 0 {
        assert(a + b =~= a);
        lemma_xor_facts(xor_all(a), 0, 0);
    } else {
        lemma_xor_all_concat(a, b.drop_last());
        assert((a + b).drop_last() =~= a + b.drop_last());
        lemma_xor_facts(xor_all(a), xor_all(b.drop_last()), b.last());
    }
}

/// The fold of the images of two sequences with the same elements is the same.
pub proof fn lemma_xor_all_permutation<A>(a: Seq<A>, b: Seq<A>, f: spec_fn(A) -> u128)
    requires
        a.to_multiset() =~= b.to_multiset(),
    ensures
        xor_all(a.map_values(f)) == xor_all(b.map_values(f)),
    decreases a.len(),
{
    broadcast use vstd::seq_lib::group_to_multiset_ensures;

    if a.len() == 0 {
        assert(b.len() == b.to_multiset().len());
        assert(a.len() == a.to_multiset().len());
        assert(b.len() == 0);
        assert(b.map_values(f) =~= Seq::<u128>::empty());
        assert(a.map_values(f) =~= Seq::<u128>::empty());
    } else {
        let x = a.last();
        assert(a.to_multiset().count(x) > 0) by {
            assert(a.contains(x)) by {
                assert(a[a.len() - 1] == x);
            }
        }
        assert(b.contains(x));
        let j = choose|j: int| 0 <= j < b.len() && b[j] == x;
        assert(a.remove(a.len() - 1) =~= a.drop_last());
        assert(a.drop_last().to_multiset() =~= b.remove(j).to_multiset());
        lemma_xor_all_permutation(a.drop_last(), b.remove(j), f);
        assert(a.map_values(f).drop_last() =~= a.drop_last().map_values(f));
        assert(b.map_values(f).remove(j) =~= b.remove(j).map_values(f));
        lemma_xor_all_remove(b.map_values(f), j);
    }
}

/// The fingerprint of a collection of tracks does not depend on the order in
/// which the tracks come: two sequences holding the same identifiers, each as
/// often, have the same fingerprint.
pub proof fn law_track_fingerprint_order_independent(a: Seq<TrackId>, b: Seq<TrackId>)
    requires
        a.to_multiset() =~= b.to_multiset(),
    ensures
        xor_all(track_keys(a)) == xor_all(track_keys(b)),
{
    lemma_xor_all_permutation(a, b, |id: TrackId| le_u128(id.0@));
}

/// The fingerprint of a collection of playlists does not depend on the order in
/// which the playlists come.
pub proof fn law_playlist_fingerprint_order_independent(a: Seq<PlaylistId>, b: Seq<PlaylistId>)
    requires
        a.to_multiset() =~= b.to_multiset(),
    ensures
        xor_all(playlist_keys(a)) == xor_all(playlist_keys(b)),
{
    lemma_xor_all_permutation(a, b, |id: PlaylistId| le_u128(id.0@));
}

/// The fingerprint of two collections of tracks taken together is the
/// exclusive-or of their fingerprints.
pub proof fn law_track_fingerprint_concat(a: Seq<TrackId>, b: Seq<TrackId>)
    ensures
        xor_all(track_keys(a + b)) == xor_all(track_keys(a)) ^ xor_all(track_keys(b)),
{
    assert(track_keys(a + b) =~= track_keys(a) + track_keys(b));
    lemma_xor_all_concat(track_keys(a), track_keys(b));
}

/// Adding a track to a collection changes its fingerprint exactly when the
/// track's identifier is not all zero bytes; adding it twice leaves the
/// fingerprint as it was.
pub proof fn law_track_fingerprint_add(s: Seq<TrackId>, id: TrackId)
    ensures
        (xor_all(track_keys(s.push(id))) == xor_all(track_keys(s))) <==> le_u128(id.0@) == 0,
        xor_all(track_keys(s.push(id).push(id))) == xor_all(track_keys(s)),
{
    let f = xor_all(track_keys(s));
    let k = le_u128(id.0@);
    assert(track_keys(s.push(id)).drop_last() =~= track_keys(s));
    assert(track_keys(s.push(id).push(id)).drop_last() =~= track_keys(s.push(id)));
    assert((f ^ k == f) <==> k == 0) by (bit_vector);
    assert((f ^ k) ^ k == f) by (bit_vector);
}

} // verus!
