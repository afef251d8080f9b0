//! The cache of decoded images, least recently used out first, and the record
//! of images that have been asked for and have not come yet.
//!
//! An image is held by the handle under which the rendering layer keeps it.

use crate::ids::ImageId;
use lru::LruCache;
use std::collections::hash_map::RandomState;
use vstd::hash_set::HashSetWithView;
use vstd::prelude::*;

verus! {

#[verifier::external_type_specification]
#[verifier::external_body]
#[verifier::reject_recursive_types(K)]
#[verifier::reject_recursive_types(V)]
#[verifier::reject_recursive_types(S)]
pub struct ExLruCache<K, V, S>(lru::LruCache<K, V, S>);

/// The entries of an LRU cache, most recently used first.
pub uninterp spec fn lru_entries(c: LruCache<u64, u64, RandomState>) -> Seq<(u64, u64)>;

/// The number of entries that an LRU cache was made to hold.
pub uninterp spec fn lru_capacity(c: LruCache<u64, u64, RandomState>) -> nat;

/// The keys of a list of entries.
pub open spec fn entry_keys(e: Seq<(u64, u64)>) -> Seq<u64> {
    e.map_values(|p: (u64, u64)| p.0)
}

/// The entries have distinct keys, and there are no more than `cap` of them.
pub open spec fn entries_valid(e: Seq<(u64, u64)>, cap: nat) -> bool {
    &&& cap >= 1
    &&& e.len() <= cap
    &&& entry_keys(e).no_duplicates()
}

/// The entries after putting `v` under `k`: the pair comes first; an entry
/// already under `k` goes; otherwise, in a full cache, the least recently used
/// entry goes.
pub open spec fn put_entries(e: Seq<(u64, u64)>, cap: nat, k: u64, v: u64) -> Seq<(u64, u64)> {
    if entry_keys(e).contains(k) {
        seq![(k, v)] + e.remove(entry_keys(e).index_of(k))
    } else if e.len() < cap {
        seq![(k, v)] + e
    } else {
        seq![(k, v)] + e.drop_last()
    }
}

/// The entries after a look-up of `k`: an entry under `k` moves to the front.
pub open spec fn touch_entries(e: Seq<(u64, u64)>, k: u64) -> Seq<(u64, u64)> {
    if entry_keys(e).contains(k) {
        let i = entry_keys(e).index_of(k);
        seq![e[i]] + e.remove(i)
    } else {
        e
    }
}

/// The value under `k`, if any.
pub open spec fn lookup(e: Seq<(u64, u64)>, k: u64) -> Option<u64> {
    if entry_keys(e).contains(k) {
        Some(e[entry_keys(e).index_of(k)].1)
    } else {
        None
    }
}

/// Calls `LruCache::with_hasher`: an empty cache that holds at most `cap` entries.
#[verifier::external_body]
fn lru_new(cap: usize) -> (c: LruCache<u64, u64, RandomState>)
    requires
        cap >= 1,
    ensures
        lru_entries(c) == Seq::<(u64, u64)>::empty(),
        lru_capacity(c) == cap,
{
    LruCache::with_hasher(std::num::NonZeroUsize::new(cap).unwrap(), RandomState::new())
}

/// Calls `LruCache::get`: the value under `k`, which becomes the most
/// recently used entry.
#[verifier::external_body]
fn lru_get(c: &mut LruCache<u64, u64, RandomState>, k: u64) -> (r: Option<u64>)
    requires
        entries_valid(lru_entries(*old(c)), lru_capacity(*old(c))),
    ensures
        r == lookup(lru_entries(*old(c)), k),
        lru_entries(*final(c)) == touch_entries(lru_entries(*old(c)), k),
        lru_capacity(*final(c)) == lru_capacity(*old(c)),
        entries_valid(lru_entries(*final(c)), lru_capacity(*final(c))),
{
    c.get(&k).copied()
}

/// Calls `LruCache::put`: puts `v` under `k` as the most recently used entry,
/// and returns the value that was under `k` before, if any.
#[verifier::external_body]
fn lru_put(c: &mut LruCache<u64, u64, RandomState>, k: u64, v: u64) -> (r: Option<u64>)
    requires
        entries_valid(lru_entries(*old(c)), lru_capacity(*old(c))),
    ensures
        r == lookup(lru_entries(*old(c)), k),
        lru_entries(*final(c)) == put_entries(lru_entries(*old(c)), lru_capacity(*old(c)), k, v),
        lru_capacity(*final(c)) == lru_capacity(*old(c)),
        entries_valid(lru_entries(*final(c)), lru_capacity(*final(c))),
{
    c.put(k, v)
}

/// Calls `LruCache::contains`: whether an entry is under `k`; the order of
/// the entries does not change.
#[verifier::external_body]
fn lru_contains(c: &LruCache<u64, u64, RandomState>, k: u64) -> (r: bool)
    ensures
        r == entry_keys(lru_entries(*c)).contains(k),
{
    c.contains(&k)
}

/// Calls `LruCache::clear`: no entries are left.
#[verifier::external_body]
fn lru_clear(c: &mut LruCache<u64, u64, RandomState>)
    ensures
        lru_entries(*final(c)) == Seq::<(u64, u64)>::empty(),
        lru_capacity(*final(c)) == lru_capacity(*old(c)),
{
    c.clear()
}

/// How many images the cache holds at most.
pub const IMAGE_CACHE_CAPACITY: usize = 128;

/// Decoded images by identifier, the image on show, and the images asked for.
pub struct ImageCache {
    current: Option<u64>,
    images: LruCache<u64, u64, RandomState>,
    inflight: HashSetWithView<u64>,
}

impl ImageCache {
    /// The cached images, most recently used first, as identifier and handle.
    pub closed spec fn entries(&self) -> Seq<(u64, u64)> {
        lru_entries(self.images)
    }

    /// The handle of the image on show, if any.
    pub closed spec fn shown(&self) -> Option<u64> {
        self.current
    }

    /// The handle of the image on show, if any.
    pub fn current(&self) -> (r: Option<u64>)
        ensures
            r == self.shown(),
    {
        self.current
    }

    /// Puts the image with handle `image` on show, or none.
    pub fn set_current(&mut self, image: Option<u64>)
        requires
            old(self).wf(),
        ensures
            final(self).wf(),
            final(self).shown() == image,
            final(self).entries() == old(self).entries(),
            final(self).pending() == old(self).pending(),
    {
        self.current = image;
    }

    /// The images asked for that have not come yet.
    pub closed spec fn pending(&self) -> Set<u64> {
        self.inflight@
    }

    /// The cache holds at most its capacity of images, each once.
    pub closed spec fn wf(&self) -> bool {
        &&& entries_valid(lru_entries(self.images), lru_capacity(self.images))
        &&& lru_capacity(self.images) == IMAGE_CACHE_CAPACITY
    }

    /// An empty cache, with nothing asked for.
    pub fn new() -> (c: Self)
        ensures
            c.wf(),
            c.entries() == Seq::<(u64, u64)>::empty(),
            c.pending() == Set::<u64>::empty(),
            c.shown() is None,
    {
        broadcast use vstd::std_specs::hash::group_hash_axioms;

        let images = lru_new(IMAGE_CACHE_CAPACITY);
        assert(entry_keys(lru_entries(images)) =~= Seq::<u64>::empty());
        ImageCache { current: None, images, inflight: HashSetWithView::new() }
    }

    /// The handle of the image with identifier `id`, if it is cached; it
    /// becomes the most recently used image.
    pub fn get(&mut self, id: &ImageId) -> (r: Option<u64>)
        requires
            old(self).wf(),
        ensures
            final(self).wf(),
            r == lookup(old(self).entries(), id.0),
            final(self).entries() == touch_entries(old(self).entries(), id.0),
            final(self).pending() == old(self).pending(),
            final(self).shown() == old(self).shown(),
    {
        lru_get(&mut self.images, id.0)
    }

    /// Drops all cached images.
    pub fn clear(&mut self)
        requires
            old(self).wf(),
        ensures
            final(self).wf(),
            final(self).entries() == Seq::<(u64, u64)>::empty(),
            final(self).pending() == old(self).pending(),
            final(self).shown() == old(self).shown(),
    {
        lru_clear(&mut self.images);
        assert(entry_keys(lru_entries(self.images)) =~= Seq::<u64>::empty());
    }

    /// Caches the image that has come for `id` under `image`, and records that
    /// it is no longer awaited; returns the handle that was cached for `id`
    /// before, if any.
    pub fn add(&mut self, id: ImageId, image: u64) -> (r: Option<u64>)
        requires
            old(self).wf(),
        ensures
            final(self).wf(),
            r == lookup(old(self).entries(), id.0),
            final(self).entries() == put_entries(old(self).entries(), IMAGE_CACHE_CAPACITY as nat, id.0, image),
            final(self).pending() == old(self).pending().remove(id.0),
            final(self).shown() == old(self).shown(),
    {
        let evicted = lru_put(&mut self.images, id.0, image);
        self.inflight.remove(&id.0);
        evicted
    }

    /// The images among `ids` that are neither cached nor asked for yet, each
    /// once, in the order in which they first come; they are recorded as asked
    /// for. The caller asks for them when there are any.
    pub fn request(&mut self, ids: &[ImageId]) -> (r: Vec<ImageId>)
        requires
            old(self).wf(),
        ensures
            final(self).wf(),
            final(self).entries() == old(self).entries(),
            final(self).shown() == old(self).shown(),
            final(self).pending() == old(self).pending().union(r@.map_values(|i: ImageId| i.0).to_set()),
            r@ == new_requests(ids@.map_values(|i: ImageId| i.0), entry_keys(old(self).entries()).to_set(), old(self).pending()).map_values(
                |k: u64| ImageId(k),
            ),
    {
        let ghost keys = ids@.map_values(|i: ImageId| i.0);
        let ghost cached = entry_keys(self.entries()).to_set();
        let ghost pending0 = self.pending();
        let mut out: Vec<ImageId> = Vec::new();
        let mut i: usize = 0;
        while i < ids.len()
            invariant
                i <= ids@.len(),
                keys == ids@.map_values(|i: ImageId| i.0),
                cached == entry_keys(lru_entries(self.images)).to_set(),
                lru_entries(self.images) == old(self).entries(),
                lru_capacity(self.images) == IMAGE_CACHE_CAPACITY,
                self.current == old(self).current,
                self.inflight@ == pending0.union(out@.map_values(|x: ImageId| x.0).to_set()),
                out@ == new_requests(keys.take(i as int), cached, pending0).map_values(|k: u64| ImageId(k)),
            decreases ids@.len() - i,
        {
            let k = ids[i].0;
            proof {
                assert(keys.take(i as int + 1) =~= keys.take(i as int).push(k));
                lemma_new_requests_push(keys.take(i as int), cached, pending0, k);
            }
            if lru_contains(&self.images, k) || self.inflight.contains(&k) {
                proof {
                    assert(cached.contains(k) || pending0.union(out@.map_values(|x: ImageId| x.0).to_set()).contains(k));
                }
            } else {
                let ghost before = out@;
                proof {
                    let prev = new_requests(keys.take(i as int), cached, pending0);
                    assert(before.map_values(|x: ImageId| x.0) =~= prev);
                    if prev.contains(k) {
                        assert(before.map_values(|x: ImageId| x.0).to_set().contains(k));
                    }
                    assert(!cached.contains(k));
                }
                self.inflight.insert(k);
                out.push(ImageId(k));
                proof {
                    assert(out@.map_values(|x: ImageId| x.0) =~= before.map_values(|x: ImageId| x.0).push(k));
                    before.map_values(|x: ImageId| x.0).lemma_push_to_set_commute(k);
                    assert(self.inflight@ =~= pending0.union(out@.map_values(|x: ImageId| x.0).to_set()));
                    assert(out@ =~= new_requests(keys.take(i as int + 1), cached, pending0).map_values(|k: u64| ImageId(k)));
                }
            }
            i = i + 1;
        }
        assert(keys.take(ids@.len() as int) =~= keys);
        out
    }
}

/// The keys among `ks` that are neither in `cached` nor in `pending`, each
/// once, in the order in which they first come.
pub open spec fn new_requests(ks: Seq<u64>, cached: Set<u64>, pending: Set<u64>) -> Seq<u64>
    decreases ks.len(),
{
    if ks.len() == 0 {
        Seq::empty()
    } else {
        let prev = new_requests(ks.drop_last(), cached, pending);
        let k = ks.last();
        if cached.contains(k) || pending.contains(k) || prev.contains(k) {
            prev
        } else {
            prev.push(k)
        }
    }
}

/// One more key: it is asked for when it is new.
proof fn lemma_new_requests_push(ks: Seq<u64>, cached: Set<u64>, pending: Set<u64>, k: u64)
    ensures
        new_requests(ks.push(k), cached, pending) == if cached.contains(k) || pending.contains(k)
            || new_requests(ks, cached, pending).contains(k) {
            new_requests(ks, cached, pending)
        } else {
            new_requests(ks, cached, pending).push(k)
        },
{
    assert(ks.push(k).drop_last() =~= ks);
}

/// What is asked for is neither cached nor already asked for, comes among the
/// given identifiers, and is asked for once; every given identifier that is
/// neither cached nor asked for is asked for.
pub proof fn law_new_requests(ks: Seq<u64>, cached: Set<u64>, pending: Set<u64>)
    ensures
        new_requests(ks, cached, pending).no_duplicates(),
        forall|k: u64| #[trigger] new_requests(ks, cached, pending).contains(k) <==> (ks.contains(k)
            && !cached.contains(k) && !pending.contains(k)),
    decreases ks.len(),
{
    if ks.len() > 0 {
        law_new_requests(ks.drop_last(), cached, pending);
        let prev = new_requests(ks.drop_last(), cached, pending);
        let k = ks.last();
        assert forall|x: u64| #[trigger] new_requests(ks, cached, pending).contains(x) <==> (ks.contains(x)
            && !cached.contains(x) && !pending.contains(x)) by {
            if ks.contains(x) && x != k {
                let i = choose|i: int| 0 <= i < ks.len() && ks[i] == x;
                assert(ks.drop_last()[i] == x);
            }
            if ks.drop_last().contains(x) {
                let i = choose|i: int| 0 <= i < ks.drop_last().len() && ks.drop_last()[i] == x;
                assert(ks[i] == x);
            }
            assert(ks[ks.len() - 1] == k);
            if !(cached.contains(k) || pending.contains(k) || prev.contains(k)) {
                assert(prev.push(k)[prev.len() as int] == k);
                if prev.push(k).contains(x) && x != k {
                    let i = choose|i: int| 0 <= i < prev.push(k).len() && prev.push(k)[i] == x;
                    assert(prev[i] == x);
                }
                if prev.contains(x) {
                    let i = choose|i: int| 0 <= i < prev.len() && prev[i] == x;
                    assert(prev.push(k)[i] == x);
                }
            }
        }
    }
}

/// Asking again for the same images, once the first request is recorded as
/// pending, asks for nothing.
pub proof fn law_request_idempotent(ks: Seq<u64>, cached: Set<u64>, pending: Set<u64>)
    ensures
        new_requests(ks, cached, pending.union(new_requests(ks, cached, pending).to_set())).len() == 0,
{
    let r = new_requests(ks, cached, pending);
    let p2 = pending.union(r.to_set());
    law_new_requests(ks, cached, pending);
    law_new_requests(ks, cached, p2);
    let r2 = new_requests(ks, cached, p2);
    if r2.len() > 0 {
        let x = r2[0];
        assert(r2.contains(x));
        assert(ks.contains(x) && !cached.contains(x) && !pending.contains(x));
        assert(r.contains(x));
        assert(r.to_set().contains(x));
    }
}

/// In a sequence without duplicates, the index of an element is where it stands.
proof fn lemma_index_of_unique(s: Seq<u64>, i: int)
    requires
        s.no_duplicates(),
        0 <= i < s.len(),
    ensures
        s.index_of(s[i]) == i,
{
    assert(s.contains(s[i]));
    let j = s.index_of(s[i]);
    assert(s[j] == s[i]);
}

/// The keys left after putting `k`: the keys of the old entries, less `k`, or
/// less the least recently used key when the cache was full.
proof fn lemma_put_entries_shape(e: Seq<(u64, u64)>, cap: nat, k: u64, v: u64)
    requires
        entries_valid(e, cap),
    ensures
        entries_valid(put_entries(e, cap, k, v), cap),
        put_entries(e, cap, k, v)[0] == (k, v),
{
    let ek = entry_keys(e);
    let p = put_entries(e, cap, k, v);
    let rest = if ek.contains(k) {
        e.remove(ek.index_of(k))
    } else if e.len() < cap {
        e
    } else {
        e.drop_last()
    };
    assert(p =~= seq![(k, v)] + rest);
    let rk = entry_keys(rest);
    assert(rk.no_duplicates()) by {
        assert forall|a: int, b: int| 0 <= a < rk.len() && 0 <= b < rk.len() && a != b implies rk[a] != rk[b] by {
            if ek.contains(k) {
                let x = ek.index_of(k);
                let a0 = if a < x { a } else { a + 1 };
                let b0 = if b < x { b } else { b + 1 };
                assert(e[a0] == rest[a] && e[b0] == rest[b]);
                assert(ek[a0] != ek[b0]);
            } else {
                assert(e[a] == rest[a] && e[b] == rest[b]);
                assert(ek[a] != ek[b]);
            }
        }
    }
    assert(!rk.contains(k)) by {
        if rk.contains(k) {
            let a = choose|a: int| 0 <= a < rk.len() && rk[a] == k;
            if ek.contains(k) {
                let x = ek.index_of(k);
                assert(ek[x] == k);
                let a0 = if a < x { a } else { a + 1 };
                assert(e[a0] == rest[a]);
                assert(ek[a0] == k);
            } else {
                assert(e[a] == rest[a]);
                assert(ek.contains(k)) by {
                    assert(ek[a] == k);
                }
            }
        }
    }
    let pk = entry_keys(p);
    assert(pk =~= seq![k] + rk);
    assert(pk.no_duplicates()) by {
        assert forall|a: int, b: int| 0 <= a < pk.len() && 0 <= b < pk.len() && a != b implies pk[a] != pk[b] by {
            if a == 0 {
                assert(rk[b - 1] == pk[b]);
            } else if b == 0 {
                assert(rk[a - 1] == pk[a]);
            } else {
                assert(rk[a - 1] != rk[b - 1]);
            }
        }
    }
}

/// A look-up right after an image is cached under an identifier finds that
/// image; the cache never holds more than its capacity; and an image cached
/// under another identifier stays, unless the cache was full and it was the
/// least recently used.
pub proof fn law_put_then_lookup(e: Seq<(u64, u64)>, cap: nat, k: u64, v: u64, k2: u64)
    requires
        entries_valid(e, cap),
    ensures
        lookup(put_entries(e, cap, k, v), k) == Some(v),
        entries_valid(put_entries(e, cap, k, v), cap),
        k2 != k && lookup(e, k2) is Some && !(!entry_keys(e).contains(k) && e.len() == cap
            && e.last().0 == k2) ==> lookup(put_entries(e, cap, k, v), k2) == lookup(e, k2),
{
    lemma_put_entries_shape(e, cap, k, v);
    let p = put_entries(e, cap, k, v);
    let pk = entry_keys(p);
    assert(pk[0] == k);
    lemma_index_of_unique(pk, 0);
    if k2 != k && lookup(e, k2) is Some && !(!entry_keys(e).contains(k) && e.len() == cap && e.last().0 == k2) {
        let ek = entry_keys(e);
        let j = ek.index_of(k2);
        assert(ek[j] == k2);
        if ek.contains(k) {
            let x = ek.index_of(k);
            assert(ek[x] == k);
            let rest = e.remove(x);
            assert(p =~= seq![(k, v)] + rest);
            let j2: int = if x < j { j - 1 } else { j };
            assert(rest[j2] == e[j]);
            assert(pk[j2 + 1] == k2);
            lemma_index_of_unique(pk, j2 + 1);
        } else if e.len() < cap {
            assert(p =~= seq![(k, v)] + e);
            assert(pk[j + 1] == k2);
            lemma_index_of_unique(pk, j + 1);
        } else {
            let rest = e.drop_last();
            assert(p =~= seq![(k, v)] + rest);
            assert(j != e.len() - 1);
            assert(rest[j] == e[j]);
            assert(pk[j + 1] == k2);
            lemma_index_of_unique(pk, j + 1);
        }
    }
}

} // verus!
