//! Ordering of titles and names, and the stable ordering of a list by them.
//!
//! Titles compare character by character by code point, a shorter title
//! before every longer title that it begins; this is the order that Rust's
//! `Ord` for `String` gives, since UTF-8 keeps the order of code points.

use vstd::prelude::*;
use vstd::string::*;

verus! {

/// `a` comes before or equals `b` in the order of titles.
pub open spec fn lex_le(a: Seq<char>, b: Seq<char>) -> bool
    decreases a.len(),
{
    if a.len() == 0 {
        true
    } else if b.len() == 0 {
        false
    } else if a[0] != b[0] {
        (a[0] as int) < (b[0] as int)
    } else {
        lex_le(a.drop_first(), b.drop_first())
    }
}

/// Any two titles are ordered one way or the other.
pub proof fn lemma_lex_total(a: Seq<char>, b: Seq<char>)
    ensures
        lex_le(a, b) || lex_le(b, a),
    decreases a.len(),
{
    if a.len() > 0 && b.len() > 0 && a[0] == b[0] {
        lemma_lex_total(a.drop_first(), b.drop_first());
    }
}

/// Every title comes before or equals itself.
pub proof fn lemma_lex_refl(a: Seq<char>)
    ensures
        lex_le(a, a),
    decreases a.len(),
{
    if a.len() > 0 {
        lemma_lex_refl(a.drop_first());
    }
}

/// The order of titles is transitive.
pub proof fn lemma_lex_trans(a: Seq<char>, b: Seq<char>, c: Seq<char>)
    requires
        lex_le(a, b),
        lex_le(b, c),
    ensures
        lex_le(a, c),
    decreases a.len(),
{
    if a.len() > 0 && b.len() > 0 && c.len() > 0 && a[0] == b[0] && b[0] == c[0] {
        lemma_lex_trans(a.drop_first(), b.drop_first(), c.drop_first());
    }
}

/// Two titles that each come before or equal the other are equal.
pub proof fn lemma_lex_antisym(a: Seq<char>, b: Seq<char>)
    requires
        lex_le(a, b),
        lex_le(b, a),
    ensures
        a == b,
    decreases a.len(),
{
    if a.len() == 0 {
        assert(b.len() == 0);
        assert(a =~= b);
    } else {
        assert(b.len() > 0);
        assert(a[0] == b[0]);
        lemma_lex_antisym(a.drop_first(), b.drop_first());
        assert(a.drop_first() == b.drop_first());
        assert(a.drop_first().len() == b.drop_first().len());
        assert(a.len() == b.len());
        assert(a =~= b) by {
            assert forall|i: int| 0 <= i < a.len() implies a[i] == b[i] by {
                if i > 0 {
                    assert(a[i] == a.drop_first()[i - 1]);
                    assert(b[i] == b.drop_first()[i - 1]);
                }
            }
        }
    }
}

/// Compares two titles: whether `a` comes before or equals `b`.
pub fn chars_le(a: &Vec<char>, b: &Vec<char>) -> (r: bool)
    ensures
        r == lex_le(a@, b@),
{
    let mut i: usize = 0;
    assert(a@.skip(0) =~= a@);
    assert(b@.skip(0) =~= b@);
    while i < a.len() && i < b.len()
        invariant
            i <= a@.len(),
            i <= b@.len(),
            lex_le(a@, b@) == lex_le(a@.skip(i as int), b@.skip(i as int)),
        decreases a@.len() - i,
    {
        let x = a[i];
        let y = b[i];
        assert(a@.skip(i as int)[0] == x);
        assert(b@.skip(i as int)[0] == y);
        if x != y {
            return x < y;
        }
        assert(a@.skip(i as int).drop_first() =~= a@.skip(i as int + 1));
        assert(b@.skip(i as int).drop_first() =~= b@.skip(i as int + 1));
        i = i + 1;
    }
    i == a.len()
}

/// The characters of a string, in order.
pub fn chars_of(s: &str) -> (r: Vec<char>)
    ensures
        r@ == s@,
{
    let n = s.unicode_len();
    let mut r: Vec<char> = Vec::new();
    let mut i: usize = 0;
    while i < n
        invariant
            n == s@.len(),
            i <= n,
            r@ =~= s@.take(i as int),
        decreases n - i,
    {
        let c = s.get_char(i);
        r.push(c);
        i = i + 1;
    }
    assert(s@.take(n as int) =~= s@);
    r
}

/// Entry `i` of `keys` comes before entry `j` in the stable order by key: its
/// key is smaller, or the keys are equal and `i` came first.
pub open spec fn key_before(keys: Seq<Seq<char>>, i: int, j: int) -> bool {
    &&& lex_le(keys[i], keys[j])
    &&& lex_le(keys[j], keys[i]) ==> i < j
}

/// `p` lists the positions of `keys` in the stable order by key.
pub open spec fn is_sorted_order(keys: Seq<Seq<char>>, p: Seq<usize>) -> bool {
    &&& p.len() == keys.len()
    &&& forall|k: int| 0 <= k < p.len() ==> #[trigger] p[k] < keys.len()
    &&& forall|k: int, l: int|
        0 <= k < l < p.len() ==> key_before(keys, #[trigger] p[k] as int, #[trigger] p[l] as int)
}

/// The views of a list of character vectors.
pub open spec fn keys_view(keys: Seq<Vec<char>>) -> Seq<Seq<char>> {
    keys.map_values(|v: Vec<char>| v@)
}

/// The first `n` positions of `keys` (`p` lists them in the stable order by
/// key) stay in that order when position `n` is put at `j`, past the entries
/// whose keys come before or equal its key and before those whose keys come
/// after.
pub proof fn lemma_insert_sorted(keys: Seq<Seq<char>>, p: Seq<usize>, n: int, j: int)
    requires
        0 <= n < keys.len(),
        keys.len() <= usize::MAX,
        p.len() == n,
        forall|k: int| 0 <= k < p.len() ==> #[trigger] p[k] < n,
        forall|k: int, l: int| 0 <= k < l < p.len() ==> key_before(keys, #[trigger] p[k] as int, #[trigger] p[l] as int),
        0 <= j <= p.len(),
        forall|q: int| 0 <= q < j ==> lex_le(keys[#[trigger] p[q] as int], keys[n]),
        j < p.len() ==> !lex_le(keys[p[j] as int], keys[n]),
    ensures
        ({
            let p2 = p.insert(j, n as usize);
            &&& p2.len() == n + 1
            &&& forall|k: int| 0 <= k < p2.len() ==> #[trigger] p2[k] < n + 1
            &&& forall|k: int, l: int|
                0 <= k < l < p2.len() ==> key_before(keys, #[trigger] p2[k] as int, #[trigger] p2[l] as int)
        }),
{
    let p2 = p.insert(j, n as usize);
    assert forall|k: int| 0 <= k < p2.len() implies #[trigger] p2[k] < n + 1 by {
        if k < j {
            assert(p2[k] == p[k]);
        } else if k > j {
            assert(p2[k] == p[k - 1]);
        }
    }
    assert forall|k: int, l: int| 0 <= k < l < p2.len() implies key_before(
        keys,
        #[trigger] p2[k] as int,
        #[trigger] p2[l] as int,
    ) by {
        let a = p2[k] as int;
        let b = p2[l] as int;
        if l < j {
            assert(a == p[k] && b == p[l]);
        } else if l == j {
            assert(a == p[k]);
            assert(lex_le(keys[a], keys[n]));
        } else if k > j {
            assert(a == p[k - 1] && b == p[l - 1]);
        } else if k == j {
            assert(b == p[l - 1]);
            let c = p[j] as int;
            if l - 1 > j {
                assert(key_before(keys, p[j] as int, p[l - 1] as int));
            } else {
                lemma_lex_refl(keys[c]);
            }
            if lex_le(keys[b], keys[n]) {
                lemma_lex_trans(keys[c], keys[b], keys[n]);
            }
            lemma_lex_total(keys[b], keys[n]);
        } else {
            assert(a == p[k] && b == p[l - 1]);
        }
    }
}

/// Where position `i` goes among `p`: past the first run of entries, from
/// `q` on, whose keys come before or equal its key.
pub open spec fn insert_point(keys: Seq<Seq<char>>, p: Seq<usize>, i: int, q: int) -> int
    decreases p.len() - q,
{
    if q < 0 || q >= p.len() {
        q
    } else if lex_le(keys[p[q] as int], keys[i]) {
        insert_point(keys, p, i, q + 1)
    } else {
        q
    }
}

/// The first `n` positions of `keys` in the stable order by key, built by
/// inserting one position after the other.
pub open spec fn insertion_order(keys: Seq<Seq<char>>, n: nat) -> Seq<usize>
    decreases n,
{
    if n == 0 {
        Seq::empty()
    } else {
        let p = insertion_order(keys, (n - 1) as nat);
        p.insert(insert_point(keys, p, n - 1, 0), (n - 1) as usize)
    }
}

proof fn lemma_insert_point(keys: Seq<Seq<char>>, p: Seq<usize>, i: int, q: int)
    requires
        0 <= q <= p.len(),
        forall|r: int| 0 <= r < q ==> lex_le(keys[#[trigger] p[r] as int], keys[i]),
    ensures
        q <= insert_point(keys, p, i, q) <= p.len(),
        forall|r: int| 0 <= r < insert_point(keys, p, i, q) ==> lex_le(keys[#[trigger] p[r] as int], keys[i]),
        insert_point(keys, p, i, q) < p.len() ==> !lex_le(keys[p[insert_point(keys, p, i, q)] as int], keys[i]),
    decreases p.len() - q,
{
    if q < p.len() && lex_le(keys[p[q] as int], keys[i]) {
        lemma_insert_point(keys, p, i, q + 1);
    }
}

proof fn lemma_insertion_order(keys: Seq<Seq<char>>, n: nat)
    requires
        n <= keys.len(),
        keys.len() <= usize::MAX,
    ensures
        insertion_order(keys, n).len() == n,
        forall|k: int| 0 <= k < n ==> #[trigger] insertion_order(keys, n)[k] < n,
        forall|k: int, l: int|
            0 <= k < l < n ==> key_before(
                keys,
                #[trigger] insertion_order(keys, n)[k] as int,
                #[trigger] insertion_order(keys, n)[l] as int,
            ),
    decreases n,
{
    if n > 0 {
        let m = (n - 1) as nat;
        lemma_insertion_order(keys, m);
        let p = insertion_order(keys, m);
        lemma_insert_point(keys, p, m as int, 0);
        lemma_insert_sorted(keys, p, m as int, insert_point(keys, p, m as int, 0));
    }
}

/// Every list of keys that fits in memory has a stable order by key.
pub proof fn law_sorted_order_exists(keys: Seq<Seq<char>>)
    requires
        keys.len() <= usize::MAX,
    ensures
        is_sorted_order(keys, insertion_order(keys, keys.len())),
{
    lemma_insertion_order(keys, keys.len());
}

/// The positions of `keys` in the stable order by key: what a stable sort of
/// the entries by their keys puts first, second, and so on.
pub fn sorted_order(keys: &Vec<Vec<char>>) -> (p: Vec<usize>)
    ensures
        is_sorted_order(keys_view(keys@), p@),
{
    let ghost ks = keys_view(keys@);
    let n = keys.len();
    let mut p: Vec<usize> = Vec::new();
    let mut i: usize = 0;
    while i < n
        invariant
            n == keys@.len(),
            ks == keys_view(keys@),
            i <= n,
            p@.len() == i,
            forall|k: int| 0 <= k < p@.len() ==> #[trigger] p@[k] < i,
            forall|k: int, l: int|
                0 <= k < l < p@.len() ==> key_before(ks, #[trigger] p@[k] as int, #[trigger] p@[l] as int),
        decreases n - i,
    {
        let mut j: usize = 0;
        while j < p.len() && chars_le(&keys[p[j]], &keys[i])
            invariant
                n == keys@.len(),
                ks == keys_view(keys@),
                i < n,
                j <= p@.len(),
                forall|k: int| 0 <= k < p@.len() ==> #[trigger] p@[k] < i,
                forall|q: int| 0 <= q < j ==> lex_le(ks[#[trigger] p@[q] as int], ks[i as int]),
            decreases p@.len() - j,
        {
            j = j + 1;
        }
        let ghost old_p = p@;
        proof {
            assert(ks[i as int] == keys@[i as int]@);
            if j < old_p.len() {
                assert(ks[old_p[j as int] as int] == keys@[old_p[j as int] as int]@);
            }
            lemma_insert_sorted(ks, old_p, i as int, j as int);
        }
        p.insert(j, i);
        i = i + 1;
    }
    p
}


/// A sorted order lists every position exactly once.
pub proof fn lemma_sorted_order_covers(keys: Seq<Seq<char>>, p: Seq<usize>, v: int)
    requires
        is_sorted_order(keys, p),
        0 <= v < keys.len(),
    ensures
        exists|k: int| 0 <= k < p.len() && p[k] == v,
{
    let pi = p.map_values(|x: usize| x as int);
    assert(pi.no_duplicates()) by {
        assert forall|k: int, l: int| 0 <= k < l < pi.len() implies pi[k] != pi[l] by {
            assert(key_before(keys, p[k] as int, p[l] as int));
            lemma_lex_refl(keys[p[k] as int]);
        }
    }
    pi.unique_seq_to_set();
    vstd::set_lib::lemma_int_range(0, keys.len() as int);
    let r = vstd::set_lib::set_int_range(0, keys.len() as int);
    assert(pi.to_set().subset_of(r)) by {
        assert forall|x: int| pi.to_set().contains(x) implies r.contains(x) by {
            assert(pi.contains(x));
            let k = choose|k: int| 0 <= k < pi.len() && pi[k] == x;
            assert(p[k] < keys.len());
        }
    }
    vstd::seq_lib::seq_to_set_is_finite(pi);
    vstd::set_lib::lemma_subset_equality(pi.to_set(), r);
    assert(r.contains(v));
    assert(pi.to_set().contains(v));
    assert(pi.contains(v));
    let k = choose|k: int| 0 <= k < pi.len() && pi[k] == v;
    assert(p[k] == v);
}

/// Positions `0 .. j` of two sorted orders of the same keys agree.
proof fn lemma_sorted_order_prefix(keys: Seq<Seq<char>>, p: Seq<usize>, q: Seq<usize>, j: int)
    requires
        is_sorted_order(keys, p),
        is_sorted_order(keys, q),
        0 <= j <= p.len(),
    ensures
        forall|k: int| 0 <= k < j ==> p[k] == q[k],
    decreases j,
{
    if j > 0 {
        lemma_sorted_order_prefix(keys, p, q, j - 1);
        let k = j - 1;
        let x = p[k] as int;
        let y = q[k] as int;
        if x != y {
            lemma_sorted_order_covers(keys, p, y);
            lemma_sorted_order_covers(keys, q, x);
            let m = choose|m: int| 0 <= m < p.len() && p[m] == y;
            let n = choose|n: int| 0 <= n < q.len() && q[n] == x;
            lemma_lex_refl(keys[x]);
            lemma_lex_refl(keys[y]);
            if m < k {
                assert(q[m] == y);
                assert(key_before(keys, q[m] as int, q[k] as int));
            }
            if n < k {
                assert(p[n] == x);
                assert(key_before(keys, p[n] as int, p[k] as int));
            }
            assert(m > k && n > k);
            assert(key_before(keys, p[k] as int, p[m] as int));
            assert(key_before(keys, q[k] as int, q[n] as int));
        }
    }
}

/// The stable order by key is unique: two orders that both list the positions
/// of the same keys in the stable order are the same.
pub proof fn law_sorted_order_unique(keys: Seq<Seq<char>>, p: Seq<usize>, q: Seq<usize>)
    requires
        is_sorted_order(keys, p),
        is_sorted_order(keys, q),
    ensures
        p == q,
{
    lemma_sorted_order_prefix(keys, p, q, p.len() as int);
    assert(p =~= q);
}

} // verus!
