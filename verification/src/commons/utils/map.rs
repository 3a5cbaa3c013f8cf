//! An open-addressing map that is keyed directly by pre-computed 64-bit hashes.
//!
//! Callers hand in identifiers that are already hashed, so the map never hashes
//! anything itself. A bucket index is the hash masked by the capacity, collisions
//! are resolved by probing forward (wrapping at the end of the table), and erased
//! buckets are kept as tombstones so that probe chains stay unbroken.

use vstd::prelude::*;
use vstd::arithmetic::power2::is_pow2;

verus! {

/// One slot of the table. A live bucket carries the fingerprint of its key
/// (the seven high bits of the hash) beside the entry itself.
#[derive(Debug)]
enum Bucket<V> {
    Empty,
    Tombstone,
    Live(u8, (u64, V)),
}

/// The fingerprint of a hash: its seven most significant bits.
pub open spec fn spec_fingerprint(hash: u64) -> u8 {
    (hash >> 57) as u8
}

/// The bucket at which probing for `hash` starts in a table of `cap` buckets.
pub open spec fn spec_index(hash: u64, cap: int) -> int {
    (hash & ((cap - 1) as u64)) as int
}

/// The `i`-th bucket visited when probing from bucket `h`.
spec fn probe(h: int, i: int, cap: int) -> int {
    if h + i < cap {
        h + i
    } else {
        h + i - cap
    }
}

/// The number of probing steps that lead from bucket `h` to bucket `j`.
spec fn dist(h: int, j: int, cap: int) -> int {
    if j >= h {
        j - h
    } else {
        j - h + cap
    }
}

spec fn probe_slot<V>(s: Seq<Bucket<V>>, h: int, i: int) -> Bucket<V> {
    s[probe(h, i, s.len() as int)]
}

spec fn is_live<V>(s: Seq<Bucket<V>>, j: int) -> bool {
    0 <= j < s.len() && s[j] is Live
}

spec fn key_at<V>(s: Seq<Bucket<V>>, j: int) -> u64 {
    s[j]->Live_1.0
}

spec fn value_at<V>(s: Seq<Bucket<V>>, j: int) -> V {
    s[j]->Live_1.1
}

spec fn holds<V>(s: Seq<Bucket<V>>, j: int, key: u64) -> bool {
    is_live(s, j) && key_at(s, j) == key
}

/// No bucket among the first `d` probed from `h` is empty.
spec fn clear_run<V>(s: Seq<Bucket<V>>, h: int, d: int) -> bool {
    forall|i: int| 0 <= i < d ==> !(#[trigger] probe_slot(s, h, i) is Empty)
}

spec fn weight<V>(b: Bucket<V>) -> nat {
    if b is Empty {
        0
    } else {
        1
    }
}

/// The number of buckets that are live or tombstones.
spec fn occupied<V>(s: Seq<Bucket<V>>) -> nat
    decreases s.len(),
{
    if s.len() == 0 {
        0
    } else {
        occupied(s.drop_last()) + weight(s.last())
    }
}

/// The structural invariant of a table.
spec fn valid<V>(s: Seq<Bucket<V>>, load: int) -> bool {
    &&& 1 <= s.len() <= usize::MAX
    &&& is_pow2(s.len() as int)
    &&& load == occupied(s)
    &&& forall|j: int| #[trigger] is_live(s, j) ==> s[j]->Live_0 == spec_fingerprint(key_at(s, j))
    &&& forall|j: int| #[trigger]
        is_live(s, j) ==> clear_run(
            s,
            spec_index(key_at(s, j), s.len() as int),
            dist(spec_index(key_at(s, j), s.len() as int), j, s.len() as int),
        )
    &&& forall|j: int, k: int|
        #[trigger] is_live(s, j) && #[trigger] is_live(s, k) && key_at(s, j) == key_at(s, k) ==> j
            == k
}

spec fn slot_of<V>(s: Seq<Bucket<V>>, key: u64) -> int {
    choose|j: int| holds(s, j, key)
}

spec fn present<V>(s: Seq<Bucket<V>>, key: u64) -> bool {
    exists|j: int| holds(s, j, key)
}

spec fn table_view<V>(s: Seq<Bucket<V>>) -> Map<u64, V> {
    Map::new(|k: u64| present(s, k), |k: u64| value_at(s, slot_of(s, k)))
}

proof fn lemma_index_in_range(hash: u64, cap: usize)
    requires
        cap >= 1,
    ensures
        0 <= spec_index(hash, cap as int) < cap,
{
    let m = (cap - 1) as u64;
    assert(hash & m <= m) by (bit_vector);
}

proof fn lemma_probe_dist(h: int, j: int, cap: int)
    requires
        0 <= h < cap,
        0 <= j < cap,
    ensures
        0 <= dist(h, j, cap) < cap,
        probe(h, dist(h, j, cap), cap) == j,
{
}

proof fn lemma_occupied_bound<V>(s: Seq<Bucket<V>>)
    ensures
        occupied(s) <= s.len(),
    decreases s.len(),
{
    if s.len() > 0 {
        lemma_occupied_bound(s.drop_last());
    }
}

proof fn lemma_occupied_full<V>(s: Seq<Bucket<V>>)
    requires
        forall|j: int| 0 <= j < s.len() ==> !(#[trigger] s[j] is Empty),
    ensures
        occupied(s) == s.len(),
    decreases s.len(),
{
    if s.len() > 0 {
        lemma_occupied_full(s.drop_last());
    }
}

proof fn lemma_occupied_blank<V>(s: Seq<Bucket<V>>)
    requires
        forall|j: int| 0 <= j < s.len() ==> #[trigger] s[j] is Empty,
    ensures
        occupied(s) == 0,
    decreases s.len(),
{
    if s.len() > 0 {
        lemma_occupied_blank(s.drop_last());
    }
}

proof fn lemma_occupied_update<V>(s: Seq<Bucket<V>>, p: int, b: Bucket<V>)
    requires
        0 <= p < s.len(),
    ensures
        occupied(s.update(p, b)) == occupied(s) - weight(s[p]) + weight(b),
    decreases s.len(),
{
    let t = s.update(p, b);
    if p == s.len() - 1 {
        assert(t.drop_last() =~= s.drop_last());
    } else {
        lemma_occupied_update(s.drop_last(), p, b);
        assert(t.drop_last() =~= s.drop_last().update(p, b));
    }
}

proof fn lemma_double_pow2(n: int)
    requires
        is_pow2(n),
    ensures
        is_pow2(2 * n),
{
    reveal(is_pow2);
    assert(is_pow2(2 * n)) by {
        reveal(is_pow2);
        assert(n >= 1);
        assert((2 * n) % 2 == 0);
        assert((2 * n) / 2 == n);
    }
}

/// A bucket that holds `key` is the one the view reads its value from.
proof fn lemma_slot_unique<V>(s: Seq<Bucket<V>>, load: int, j: int, key: u64)
    requires
        valid(s, load),
        holds(s, j, key),
    ensures
        present(s, key),
        slot_of(s, key) == j,
        table_view(s).contains_key(key),
        table_view(s)[key] == value_at(s, j),
{
    let k = slot_of(s, key);
    assert(holds(s, k, key));
    assert(is_live(s, j) && is_live(s, k));
}

/// Replacing a bucket by one that is not empty keeps every clear run clear.
proof fn lemma_clear_run_kept<V>(s: Seq<Bucket<V>>, p: int, b: Bucket<V>, h: int, d: int)
    requires
        0 <= p < s.len(),
        !(b is Empty),
        clear_run(s, h, d),
        0 <= h < s.len(),
        0 <= d <= s.len(),
    ensures
        clear_run(s.update(p, b), h, d),
{
    let t = s.update(p, b);
    assert forall|i: int| 0 <= i < d implies !(#[trigger] probe_slot(t, h, i) is Empty) by {
        let q = probe(h, i, s.len() as int);
        if q != p {
            assert(probe_slot(s, h, i) == s[q]);
        }
    }
}

/// Writing a fresh key into a free bucket that its probe run reaches.
proof fn lemma_put_fresh<V>(s: Seq<Bucket<V>>, load: int, p: int, key: u64, val: V)
    requires
        valid(s, load),
        !present(s, key),
        0 <= p < s.len(),
        !(s[p] is Live),
        clear_run(
            s,
            spec_index(key, s.len() as int),
            dist(spec_index(key, s.len() as int), p, s.len() as int),
        ),
    ensures
        valid(
            s.update(p, Bucket::Live(spec_fingerprint(key), (key, val))),
            load - weight(s[p]) + 1,
        ),
        table_view(s.update(p, Bucket::Live(spec_fingerprint(key), (key, val)))) =~= table_view(
            s,
        ).insert(key, val),
{
    let b = Bucket::Live(spec_fingerprint(key), (key, val));
    let t = s.update(p, b);
    let cap = s.len() as int;
    lemma_occupied_update(s, p, b);
    assert forall|j: int| #[trigger] is_live(t, j) implies clear_run(
        t,
        spec_index(key_at(t, j), cap),
        dist(spec_index(key_at(t, j), cap), j, cap),
    ) by {
        let h = spec_index(key_at(t, j), cap);
        lemma_index_in_range(key_at(t, j), s.len() as usize);
        lemma_probe_dist(h, j, cap);
        if j != p {
            assert(is_live(s, j));
        }
        lemma_clear_run_kept(s, p, b, h, dist(h, j, cap));
    }
    assert forall|j: int, k: int|
        #[trigger] is_live(t, j) && #[trigger] is_live(t, k) && key_at(t, j) == key_at(
            t,
            k,
        ) implies j == k by {
        if j == p && k != p {
            assert(holds(s, k, key));
        } else if j != p && k == p {
            assert(holds(s, j, key));
        } else if j != p && k != p {
            assert(is_live(s, j) && is_live(s, k));
        }
    }
    assert forall|j: int| #[trigger] is_live(t, j) implies t[j]->Live_0 == spec_fingerprint(
        key_at(t, j),
    ) by {
        if j != p {
            assert(is_live(s, j));
        }
    }
    assert(valid(t, load - weight(s[p]) + 1));
    assert(holds(t, p, key));
    lemma_slot_unique(t, load - weight(s[p]) + 1, p, key);
    assert forall|k: u64| table_view(t).contains_key(k) <==> table_view(s).insert(
        key,
        val,
    ).contains_key(k) by {
        if k != key {
            if present(t, k) {
                let j = slot_of(t, k);
                assert(holds(t, j, k));
                assert(holds(s, j, k));
            }
            if present(s, k) {
                let j = slot_of(s, k);
                assert(holds(s, j, k));
                assert(holds(t, j, k));
            }
        }
    }
    assert forall|k: u64| table_view(t).contains_key(k) implies table_view(t)[k] == table_view(
        s,
    ).insert(key, val)[k] by {
        if k != key {
            let j = slot_of(t, k);
            assert(holds(t, j, k));
            assert(holds(s, j, k));
            lemma_slot_unique(s, load, j, k);
        }
    }
}

/// Replacing the value of a key that is present.
proof fn lemma_put_over<V>(s: Seq<Bucket<V>>, load: int, p: int, key: u64, val: V)
    requires
        valid(s, load),
        holds(s, p, key),
    ensures
        valid(s.update(p, Bucket::Live(spec_fingerprint(key), (key, val))), load),
        table_view(s.update(p, Bucket::Live(spec_fingerprint(key), (key, val)))) =~= table_view(
            s,
        ).insert(key, val),
{
    let b = Bucket::Live(spec_fingerprint(key), (key, val));
    let t = s.update(p, b);
    let cap = s.len() as int;
    lemma_occupied_update(s, p, b);
    assert forall|j: int| is_live(t, j) <==> is_live(s, j) by {}
    assert forall|j: int| is_live(t, j) implies key_at(t, j) == key_at(s, j) by {}
    assert forall|j: int| #[trigger] is_live(t, j) implies clear_run(
        t,
        spec_index(key_at(t, j), cap),
        dist(spec_index(key_at(t, j), cap), j, cap),
    ) by {
        let h = spec_index(key_at(t, j), cap);
        lemma_index_in_range(key_at(t, j), s.len() as usize);
        lemma_probe_dist(h, j, cap);
        assert(is_live(s, j));
        lemma_clear_run_kept(s, p, b, h, dist(h, j, cap));
    }
    assert forall|j: int, k: int|
        #[trigger] is_live(t, j) && #[trigger] is_live(t, k) && key_at(t, j) == key_at(
            t,
            k,
        ) implies j == k by {
        assert(is_live(s, j) && is_live(s, k));
    }
    assert forall|j: int| #[trigger] is_live(t, j) implies t[j]->Live_0 == spec_fingerprint(
        key_at(t, j),
    ) by {
        assert(is_live(s, j));
    }
    assert(valid(t, load));
    assert(holds(t, p, key));
    lemma_slot_unique(t, load, p, key);
    lemma_slot_unique(s, load, p, key);
    assert forall|k: u64| table_view(t).contains_key(k) <==> table_view(s).insert(
        key,
        val,
    ).contains_key(k) by {
        if present(t, k) {
            let j = slot_of(t, k);
            assert(holds(t, j, k));
            assert(holds(s, j, k));
        }
        if present(s, k) {
            let j = slot_of(s, k);
            assert(holds(s, j, k));
            assert(holds(t, j, k));
        }
    }
    assert forall|k: u64| table_view(t).contains_key(k) implies table_view(t)[k] == table_view(
        s,
    ).insert(key, val)[k] by {
        if k != key {
            let j = slot_of(t, k);
            assert(holds(t, j, k));
            assert(holds(s, j, k));
            lemma_slot_unique(s, load, j, k);
        }
    }
}

/// Turning the bucket of a key into a tombstone.
proof fn lemma_erase<V>(s: Seq<Bucket<V>>, load: int, p: int, key: u64)
    requires
        valid(s, load),
        holds(s, p, key),
    ensures
        valid(s.update(p, Bucket::Tombstone), load),
        table_view(s.update(p, Bucket::Tombstone)) =~= table_view(s).remove(key),
{
    let b = Bucket::<V>::Tombstone;
    let t = s.update(p, b);
    let cap = s.len() as int;
    lemma_occupied_update(s, p, b);
    assert forall|j: int| #[trigger] is_live(t, j) implies clear_run(
        t,
        spec_index(key_at(t, j), cap),
        dist(spec_index(key_at(t, j), cap), j, cap),
    ) by {
        let h = spec_index(key_at(t, j), cap);
        lemma_index_in_range(key_at(t, j), s.len() as usize);
        lemma_probe_dist(h, j, cap);
        assert(is_live(s, j));
        lemma_clear_run_kept(s, p, b, h, dist(h, j, cap));
    }
    assert forall|j: int, k: int|
        #[trigger] is_live(t, j) && #[trigger] is_live(t, k) && key_at(t, j) == key_at(
            t,
            k,
        ) implies j == k by {
        assert(is_live(s, j) && is_live(s, k));
    }
    assert forall|j: int| #[trigger] is_live(t, j) implies t[j]->Live_0 == spec_fingerprint(
        key_at(t, j),
    ) by {
        assert(is_live(s, j));
    }
    assert(valid(t, load));
    lemma_slot_unique(s, load, p, key);
    assert forall|k: u64| table_view(t).contains_key(k) <==> table_view(s).remove(
        key,
    ).contains_key(k) by {
        if present(t, k) {
            let j = slot_of(t, k);
            assert(holds(t, j, k));
            assert(holds(s, j, k));
            if k == key {
                assert(is_live(s, j) && is_live(s, p));
            }
        }
        if present(s, k) && k != key {
            let j = slot_of(s, k);
            assert(holds(s, j, k));
            assert(holds(t, j, k));
        }
    }
    assert forall|k: u64| table_view(t).contains_key(k) implies table_view(t)[k] == table_view(
        s,
    ).remove(key)[k] by {
        let j = slot_of(t, k);
        assert(holds(t, j, k));
        assert(holds(s, j, k));
        lemma_slot_unique(s, load, j, k);
    }
}

/// A table of empty buckets holds nothing.
proof fn lemma_blank<V>(s: Seq<Bucket<V>>)
    requires
        1 <= s.len() <= usize::MAX,
        is_pow2(s.len() as int),
        forall|j: int| 0 <= j < s.len() ==> #[trigger] s[j] is Empty,
    ensures
        valid(s, 0),
        table_view(s) =~= Map::<u64, V>::empty(),
{
    lemma_occupied_blank(s);
    assert forall|k: u64| !present(s, k) by {
        if present(s, k) {
            let j = slot_of(s, k);
            assert(holds(s, j, k));
        }
    }
}

/// What probing for a key ends in.
enum Lookup {
    /// The key lives in this bucket.
    Found(usize),
    /// The key is absent; this bucket is the first one that can take it.
    Vacant(usize),
    /// The key is absent and every bucket is live.
    Full,
}

/// Buckets and the count of those that are not empty.
#[derive(Debug)]
struct Table<V> {
    buckets: Vec<Bucket<V>>,
    load: usize,
}

impl<V> Table<V> {
    spec fn ok(&self) -> bool {
        valid(self.buckets@, self.load as int)
    }

    /// Below the load at which the table is grown.
    spec fn roomy(&self) -> bool {
        self.load * 100 < self.buckets@.len() * 85
    }

    /// A table of exactly `cap` empty buckets.
    fn blank(cap: u128) -> (t: Self)
        requires
            cap >= 1,
            is_pow2(cap as int),
        ensures
            t.ok(),
            t.roomy(),
            t.load == 0,
            t.buckets@.len() == cap,
            table_view(t.buckets@) =~= Map::<u64, V>::empty(),
    {
        let mut buckets: Vec<Bucket<V>> = Vec::new();
        while (buckets.len() as u128) < cap
            invariant
                buckets@.len() <= cap,
                forall|j: int| 0 <= j < buckets@.len() ==> #[trigger] buckets@[j] is Empty,
            decreases cap - buckets@.len(),
        {
            buckets.push(Bucket::Empty);
        }
        proof {
            lemma_blank(buckets@);
        }
        Table { buckets, load: 0 }
    }

    fn index_of(&self, hash: u64) -> (r: usize)
        requires
            self.ok(),
        ensures
            r == spec_index(hash, self.buckets@.len() as int),
            r < self.buckets@.len(),
    {
        let cap: usize = self.buckets.len();
        proof {
            lemma_index_in_range(hash, cap);
        }
        (hash & ((cap - 1) as u64)) as usize
    }

    /// Probes for `key` from its home bucket, once round the table at most.
    fn find(&self, key: u64) -> (r: Lookup)
        requires
            self.ok(),
        ensures
            match r {
                Lookup::Found(p) => holds(self.buckets@, p as int, key),
                Lookup::Vacant(p) => {
                    &&& !present(self.buckets@, key)
                    &&& p < self.buckets@.len()
                    &&& !(self.buckets@[p as int] is Live)
                    &&& clear_run(
                        self.buckets@,
                        spec_index(key, self.buckets@.len() as int),
                        dist(
                            spec_index(key, self.buckets@.len() as int),
                            p as int,
                            self.buckets@.len() as int,
                        ),
                    )
                },
                Lookup::Full => {
                    &&& !present(self.buckets@, key)
                    &&& forall|j: int|
                        0 <= j < self.buckets@.len() ==> #[trigger] self.buckets@[j] is Live
                },
            },
    {
        let cap: usize = self.buckets.len();
        let home: usize = self.index_of(key);
        assert((key >> 57) < 128) by (bit_vector);
        let fingerprint: u8 = (key >> 57) as u8;
        let ghost s = self.buckets@;
        let ghost h = home as int;
        let mut free: Option<usize> = None;
        let mut i: usize = 0;
        while i < cap
            invariant
                self.ok(),
                s == self.buckets@,
                cap == s.len(),
                h == home as int,
                h == spec_index(key, cap as int),
                0 <= h < cap,
                fingerprint == spec_fingerprint(key),
                0 <= i <= cap,
                forall|n: int| 0 <= n < i ==> !holds(s, #[trigger] probe(h, n, cap as int), key),
                forall|n: int| 0 <= n < i ==> !(#[trigger] probe_slot(s, h, n) is Empty),
                match free {
                    Some(f) => f < cap && s[f as int] is Tombstone && dist(h, f as int, cap as int)
                        < i,
                    None => forall|n: int| 0 <= n < i ==> #[trigger] probe_slot(s, h, n) is Live,
                },
            decreases cap - i,
        {
            let p: usize = if i < cap - home {
                home + i
            } else {
                i - (cap - home)
            };
            assert(p as int == probe(h, i as int, cap as int));
            assert(probe_slot(s, h, i as int) == s[p as int]);
            proof {
                lemma_probe_dist(h, p as int, cap as int);
            }
            match &self.buckets[p] {
                Bucket::Empty => {
                    proof {
                        assert forall|j: int| !holds(s, j, key) by {
                            if holds(s, j, key) {
                                lemma_probe_dist(h, j, cap as int);
                                let d = dist(h, j, cap as int);
                                if d < i {
                                    assert(!holds(s, probe(h, d, cap as int), key));
                                } else if d > i {
                                    assert(is_live(s, j));
                                    assert(!(probe_slot(s, h, i as int) is Empty));
                                }
                            }
                        }
                    }
                    match free {
                        Some(f) => {
                            proof {
                                assert(clear_run(s, h, dist(h, f as int, cap as int)));
                            }
                            return Lookup::Vacant(f);
                        },
                        None => {
                            proof {
                                assert(clear_run(s, h, dist(h, p as int, cap as int)));
                            }
                            return Lookup::Vacant(p);
                        },
                    }
                },
                Bucket::Tombstone => {
                    if free.is_none() {
                        free = Some(p);
                    }
                },
                Bucket::Live(fp, entry) => {
                    if *fp == fingerprint && entry.0 == key {
                        assert(is_live(s, p as int));
                        return Lookup::Found(p);
                    }
                },
            }
            i += 1;
        }
        proof {
            assert forall|j: int| !holds(s, j, key) by {
                if holds(s, j, key) {
                    lemma_probe_dist(h, j, cap as int);
                    assert(!holds(s, probe(h, dist(h, j, cap as int), cap as int), key));
                }
            }
        }
        match free {
            Some(f) => {
                proof {
                    assert(clear_run(s, h, dist(h, f as int, cap as int)));
                }
                Lookup::Vacant(f)
            },
            None => {
                proof {
                    assert forall|j: int| 0 <= j < s.len() implies #[trigger] s[j] is Live by {
                        lemma_probe_dist(h, j, cap as int);
                        assert(probe_slot(s, h, dist(h, j, cap as int)) is Live);
                    }
                }
                Lookup::Full
            },
        }
    }

    /// Writes an absent key into the free bucket that probing found for it.
    fn fill(&mut self, p: usize, key: u64, val: V)
        requires
            old(self).ok(),
            old(self).load < old(self).buckets@.len(),
            !present(old(self).buckets@, key),
            p < old(self).buckets@.len(),
            !(old(self).buckets@[p as int] is Live),
            clear_run(
                old(self).buckets@,
                spec_index(key, old(self).buckets@.len() as int),
                dist(
                    spec_index(key, old(self).buckets@.len() as int),
                    p as int,
                    old(self).buckets@.len() as int,
                ),
            ),
        ensures
            final(self).ok(),
            final(self).buckets@.len() == old(self).buckets@.len(),
            old(self).load <= final(self).load <= old(self).load + 1,
            table_view(final(self).buckets@) =~= table_view(old(self).buckets@).insert(key, val),
    {
        assert((key >> 57) < 128) by (bit_vector);
        let fingerprint: u8 = (key >> 57) as u8;
        let was_empty: bool = match &self.buckets[p] {
            Bucket::Empty => true,
            _ => false,
        };
        proof {
            lemma_put_fresh(old(self).buckets@, old(self).load as int, p as int, key, val);
        }
        self.buckets[p] = Bucket::Live(fingerprint, (key, val));
        if was_empty {
            self.load = self.load + 1;
        }
    }

    /// Doubles the number of buckets and moves every live entry over, by its own
    /// hash; tombstones are left behind.
    fn grow(&mut self)
        requires
            old(self).ok(),
        ensures
            final(self).ok(),
            final(self).roomy(),
            final(self).buckets@.len() == 2 * old(self).buckets@.len(),
            table_view(final(self).buckets@) =~= table_view(old(self).buckets@),
    {
        let old_cap: usize = self.buckets.len();
        let ghost orig = self.buckets@;
        let ghost orig_load = self.load as int;
        proof {
            lemma_double_pow2(old_cap as int);
            lemma_occupied_bound(orig);
        }
        let mut fresh: Table<V> = Table::blank(2 * (old_cap as u128));
        let mut rest: Vec<Bucket<V>> = Vec::new();
        core::mem::swap(&mut self.buckets, &mut rest);
        assert(rest@ =~= orig);
        assert(rest@ =~= orig.take(rest@.len() as int));
        while rest.len() > 0
            invariant
                valid(orig, orig_load),
                orig.len() == old_cap,
                fresh.ok(),
                fresh.buckets@.len() == 2 * old_cap,
                rest@.len() <= orig.len(),
                rest@ =~= orig.take(rest@.len() as int),
                fresh.load + occupied(rest@) <= orig_load,
                orig_load <= old_cap,
                forall|j: int|
                    rest@.len() <= j && #[trigger] is_live(orig, j) ==> table_view(
                        fresh.buckets@,
                    ).contains_key(key_at(orig, j)) && table_view(fresh.buckets@)[key_at(orig, j)]
                        == value_at(orig, j),
                forall|k: u64| #[trigger]
                    table_view(fresh.buckets@).contains_key(k) ==> exists|j: int|
                        rest@.len() <= j && holds(orig, j, k),
            decreases rest@.len(),
        {
            let ghost n = rest@.len() - 1;
            let ghost before = fresh.buckets@;
            assert(rest@.drop_last() =~= orig.take(n));
            assert(rest@.last() == orig[n]);
            let bucket = rest.pop().unwrap();
            match bucket {
                Bucket::Live(_, entry) => {
                    let key: u64 = entry.0;
                    proof {
                        assert(is_live(orig, n));
                        if present(before, key) {
                            assert(table_view(before).contains_key(key));
                            let j = choose|j: int| n + 1 <= j && holds(orig, j, key);
                            assert(is_live(orig, j) && is_live(orig, n));
                        }
                    }
                    match fresh.find(key) {
                        Lookup::Vacant(p) => {
                            fresh.fill(p, key, entry.1);
                        },
                        Lookup::Found(_) => {
                            proof {
                                assert(false);
                            }
                        },
                        Lookup::Full => {
                            proof {
                                lemma_occupied_full(before);
                                assert(false);
                            }
                        },
                    }
                    proof {
                        assert forall|j: int| n <= j && #[trigger] is_live(orig, j) implies table_view(
                            fresh.buckets@,
                        ).contains_key(key_at(orig, j)) && table_view(fresh.buckets@)[key_at(
                            orig,
                            j,
                        )] == value_at(orig, j) by {
                            if j != n {
                                assert(is_live(orig, j) && is_live(orig, n));
                            }
                        }
                        assert forall|k: u64| #[trigger]
                            table_view(fresh.buckets@).contains_key(k) implies exists|j: int|
                            n <= j && holds(orig, j, k) by {
                            if k == key {
                                assert(holds(orig, n, k));
                            } else {
                                assert(table_view(before).contains_key(k));
                                let j = choose|j: int| n + 1 <= j && holds(orig, j, k);
                                assert(n <= j && holds(orig, j, k));
                            }
                        }
                    }
                },
                _ => {
                    proof {
                        assert forall|k: u64| #[trigger]
                            table_view(fresh.buckets@).contains_key(k) implies exists|j: int|
                            n <= j && holds(orig, j, k) by {
                            let j = choose|j: int| n + 1 <= j && holds(orig, j, k);
                            assert(n <= j && holds(orig, j, k));
                        }
                    }
                },
            }
        }
        proof {
            assert forall|k: u64| table_view(fresh.buckets@).contains_key(k) <==> table_view(
                orig,
            ).contains_key(k) by {
                if table_view(fresh.buckets@).contains_key(k) {
                    let j = choose|j: int| 0 <= j && holds(orig, j, k);
                    assert(holds(orig, j, k));
                }
                if present(orig, k) {
                    let j = slot_of(orig, k);
                    assert(holds(orig, j, k));
                    assert(is_live(orig, j));
                }
            }
            assert forall|k: u64| table_view(fresh.buckets@).contains_key(k) implies table_view(
                fresh.buckets@,
            )[k] == table_view(orig)[k] by {
                let j = slot_of(orig, k);
                assert(holds(orig, j, k));
                assert(is_live(orig, j));
            }
        }
        *self = fresh;
    }

    /// Whether the load has reached 85 % of the capacity.
    fn crowded(&self) -> (r: bool)
        ensures
            r == (self.load * 100 >= self.buckets@.len() * 85),
    {
        (self.load as u128) * 100 >= (self.buckets.len() as u128) * 85
    }

    /// Binds `key` to `val`, replacing what it was bound to, and grows the table
    /// when that brings the load to 85 %.
    fn store(&mut self, key: u64, val: V)
        requires
            old(self).ok(),
            old(self).roomy(),
        ensures
            final(self).ok(),
            final(self).roomy(),
            table_view(final(self).buckets@) =~= table_view(old(self).buckets@).insert(key, val),
            final(self).buckets@.len() == old(self).buckets@.len() || final(self).buckets@.len()
                == 2 * old(self).buckets@.len(),
            final(self).buckets@.len() == 2 * old(self).buckets@.len() ==> (old(self).load + 1) * 100
                >= old(self).buckets@.len() * 85,
            final(self).buckets@.len() == old(self).buckets@.len() ==> old(self).load <= final(self).load <= old(self).load + 1,
    {
        assert((key >> 57) < 128) by (bit_vector);
        let fingerprint: u8 = (key >> 57) as u8;
        match self.find(key) {
            Lookup::Found(p) => {
                proof {
                    lemma_put_over(self.buckets@, self.load as int, p as int, key, val);
                }
                self.buckets[p] = Bucket::Live(fingerprint, (key, val));
            },
            Lookup::Vacant(p) => {
                self.fill(p, key, val);
                if self.crowded() {
                    self.grow();
                }
            },
            Lookup::Full => {
                proof {
                    lemma_occupied_full(self.buckets@);
                    assert(false);
                }
            },
        }
    }

    /// Unbinds `key`, leaving a tombstone in its bucket.
    fn remove(&mut self, key: u64)
        requires
            old(self).ok(),
            old(self).roomy(),
        ensures
            final(self).ok(),
            final(self).roomy(),
            final(self).buckets@.len() == old(self).buckets@.len(),
            final(self).load == old(self).load,
            table_view(final(self).buckets@) =~= table_view(old(self).buckets@).remove(key),
    {
        match self.find(key) {
            Lookup::Found(p) => {
                proof {
                    lemma_erase(self.buckets@, self.load as int, p as int, key);
                }
                self.buckets[p] = Bucket::Tombstone;
            },
            _ => {
                assert(!table_view(self.buckets@).contains_key(key));
            },
        }
    }
}

/// A map from pre-computed 64-bit hashes to values.
///
/// Its view is the mathematical map of the live entries; buckets, fingerprints
/// and tombstones do not show in it.
#[derive(Debug)]
pub struct HashedMap<V> {
    table: Table<V>,
}

impl<V> View for HashedMap<V> {
    type V = Map<u64, V>;

    closed spec fn view(&self) -> Map<u64, V> {
        table_view(self.table.buckets@)
    }
}

/// What `put` makes of a map.
pub open spec fn spec_put<V>(m: Map<u64, V>, hash: u64, val: V) -> Map<u64, V> {
    m.insert(hash, val)
}

/// What `get` reads from a map.
pub open spec fn spec_get<V>(m: Map<u64, V>, hash: u64) -> Option<V> {
    if m.contains_key(hash) {
        Some(m[hash])
    } else {
        None
    }
}

/// What `erase` makes of a map.
pub open spec fn spec_erase<V>(m: Map<u64, V>, hash: u64) -> Map<u64, V> {
    m.remove(hash)
}

impl<V> HashedMap<V> {
    /// Either the table is in order and below the load at which it grows, or its
    /// buckets are lent out for the time of an update.
    #[verifier::type_invariant]
    spec fn well_formed(self) -> bool {
        self.table.buckets@.len() == 0 || (self.table.ok() && self.table.roomy())
    }

    /// The number of buckets.
    pub closed spec fn spec_capacity(&self) -> nat {
        if self.table.buckets@.len() == 0 {
            1
        } else {
            self.table.buckets@.len()
        }
    }

    /// The number of buckets that are live or tombstones.
    pub closed spec fn spec_load(&self) -> nat {
        if self.table.buckets@.len() == 0 {
            0
        } else {
            self.table.load as nat
        }
    }

    /// An empty map with room for `capacity` buckets, rounded up to a power of two
    /// (and to one bucket at least).
    pub fn new(capacity: usize) -> (m: Self)
        ensures
            m@ == Map::<u64, V>::empty(),
            m.spec_load() == 0,
            m.spec_capacity() >= capacity,
            m.spec_capacity() >= 1,
            is_pow2(m.spec_capacity() as int),
            m.spec_capacity() == 1 || m.spec_capacity() < 2 * capacity,
    {
        let mut cap: u128 = 1;
        proof {
            reveal(is_pow2);
        }
        while cap < capacity as u128
            invariant
                1 <= cap,
                cap == 1 || cap < 2 * capacity,
                is_pow2(cap as int),
            decreases (if cap < capacity { capacity - cap } else { 0 }),
        {
            proof {
                lemma_double_pow2(cap as int);
            }
            cap = cap * 2;
        }
        HashedMap { table: Table::blank(cap) }
    }

    /// Takes the table out for an update, leaving no buckets behind.
    fn lend(&mut self) -> (t: Table<V>)
        ensures
            t.ok(),
            t.roomy(),
            table_view(t.buckets@) == old(self)@,
            t.buckets@.len() == old(self).spec_capacity(),
            t.load == old(self).spec_load(),
            final(self).table.buckets@.len() == 0,
    {
        proof {
            use_type_invariant(&*self);
        }
        let mut t: Table<V> = Table { buckets: Vec::new(), load: 0 };
        core::mem::swap(&mut self.table, &mut t);
        if t.buckets.len() == 0 {
            proof {
                reveal(is_pow2);
                assert(table_view(t.buckets@) =~= Map::<u64, V>::empty()) by {
                    assert forall|k: u64| !present(t.buckets@, k) by {
                        if present(t.buckets@, k) {
                            assert(holds(t.buckets@, slot_of(t.buckets@, k), k));
                        }
                    }
                }
            }
            t = Table::blank(1);
        }
        t
    }

    /// Puts an updated table back.
    fn settle(&mut self, t: Table<V>)
        requires
            t.ok(),
            t.roomy(),
        ensures
            final(self)@ == table_view(t.buckets@),
            final(self).spec_capacity() == t.buckets@.len(),
            final(self).spec_load() == t.load,
    {
        let mut t = t;
        core::mem::swap(&mut self.table, &mut t);
    }

    /// Binds `key` to `val`; what `key` was bound to before is replaced. The number
    /// of buckets doubles when the insertion brings the load to 85 %, and only
    /// then: every live entry is kept, by its own hash, and the new one is there.
    pub fn put(&mut self, key: u64, val: V)
        ensures
            final(self)@ == spec_put(old(self)@, key, val),
            final(self).spec_capacity() == old(self).spec_capacity()
                || final(self).spec_capacity() == 2 * old(self).spec_capacity(),
            final(self).spec_capacity() == 2 * old(self).spec_capacity() ==> (old(self).spec_load()
                + 1) * 100 >= old(self).spec_capacity() * 85,
            final(self).spec_capacity() == old(self).spec_capacity() ==> old(self).spec_load()
                <= final(self).spec_load() <= old(self).spec_load() + 1,
            final(self).spec_load() * 100 < final(self).spec_capacity() * 85,
    {
        let mut t = self.lend();
        t.store(key, val);
        self.settle(t);
    }

    /// The value bound to `key`, if there is one.
    pub fn get(&self, key: u64) -> (r: Option<&V>)
        ensures
            match r {
                Some(v) => spec_get(self@, key) == Some(*v),
                None => spec_get(self@, key).is_none(),
            },
    {
        proof {
            use_type_invariant(self);
        }
        if self.table.buckets.len() == 0 {
            proof {
                if present(self.table.buckets@, key) {
                    assert(holds(self.table.buckets@, slot_of(self.table.buckets@, key), key));
                }
            }
            return None;
        }
        match self.table.find(key) {
            Lookup::Found(p) => {
                proof {
                    lemma_slot_unique(self.table.buckets@, self.table.load as int, p as int, key);
                }
                match &self.table.buckets[p] {
                    Bucket::Live(_, entry) => Some(&entry.1),
                    _ => None,
                }
            },
            _ => None,
        }
    }

    /// Unbinds `key`. The bucket becomes a tombstone, which later insertions may
    /// reuse; the number of buckets stays.
    pub fn erase(&mut self, key: u64)
        ensures
            final(self)@ == spec_erase(old(self)@, key),
            final(self).spec_capacity() == old(self).spec_capacity(),
            final(self).spec_load() == old(self).spec_load(),
    {
        let mut t = self.lend();
        t.remove(key);
        self.settle(t);
    }

    /// The live entries, each once, in no particular order.
    pub fn entries(&self) -> (r: Vec<&(u64, V)>)
        ensures
            forall|i: int|
                0 <= i < r@.len() ==> self@.contains_key((#[trigger] r@[i]).0) && self@[r@[i].0]
                    == r@[i].1,
            forall|k: u64| #[trigger]
                self@.contains_key(k) ==> exists|i: int| 0 <= i < r@.len() && r@[i].0 == k,
            forall|i: int, j: int| 0 <= i < j < r@.len() ==> r@[i].0 != r@[j].0,
    {
        proof {
            use_type_invariant(self);
        }
        let ghost s = self.table.buckets@;
        let ghost load = self.table.load as int;
        let mut out: Vec<&(u64, V)> = Vec::new();
        let ghost mut from: Seq<int> = Seq::empty();
        let cap: usize = self.table.buckets.len();
        let mut j: usize = 0;
        while j < cap
            invariant
                cap > 0 ==> valid(s, load),
                s == self.table.buckets@,
                cap == s.len(),
                0 <= j <= cap,
                out@.len() == from.len(),
                forall|i: int|
                    0 <= i < from.len() ==> 0 <= #[trigger] from[i] < j && is_live(s, from[i])
                        && *out@[i] == s[from[i]]->Live_1,
                forall|a: int, b: int| 0 <= a < b < from.len() ==> from[a] < from[b],
                forall|n: int|
                    0 <= n < j && #[trigger] is_live(s, n) ==> exists|i: int|
                        0 <= i < from.len() && from[i] == n,
            decreases cap - j,
        {
            match &self.table.buckets[j] {
                Bucket::Live(_, entry) => {
                    out.push(entry);
                    proof {
                        let ghost prev = from;
                        from = from.push(j as int);
                        assert forall|n: int| 0 <= n < j + 1 && #[trigger] is_live(s, n) implies exists|
                            i: int,
                        | 0 <= i < from.len() && from[i] == n by {
                            if n < j {
                                let i = choose|i: int| 0 <= i < prev.len() && prev[i] == n;
                                assert(from[i] == n);
                            } else {
                                assert(from[prev.len() as int] == n);
                            }
                        }
                    }
                },
                _ => {},
            }
            j += 1;
        }
        proof {
            assert forall|i: int| 0 <= i < out@.len() implies self@.contains_key(
                (#[trigger] out@[i]).0,
            ) && self@[out@[i].0] == out@[i].1 by {
                assert(is_live(s, from[i]));
                lemma_slot_unique(s, load, from[i], key_at(s, from[i]));
            }
            assert forall|k: u64| #[trigger] self@.contains_key(k) implies exists|i: int|
                0 <= i < out@.len() && out@[i].0 == k by {
                let n = slot_of(s, k);
                assert(holds(s, n, k));
                assert(is_live(s, n));
                let i = choose|i: int| 0 <= i < from.len() && from[i] == n;
                assert(out@[i].0 == k);
            }
            assert forall|a: int, b: int| 0 <= a < b < out@.len() implies out@[a].0 != out@[b].0 by {
                assert(is_live(s, from[a]) && is_live(s, from[b]));
                assert(from[a] < from[b]);
            }
        }
        out
    }

    /// Whether the load has reached 85 % of the capacity, the point at which `put`
    /// grows the table.
    pub fn check_for_map_load(&self) -> (r: bool)
        ensures
            r == (self.spec_load() * 100 >= self.spec_capacity() * 85),
    {
        if self.table.buckets.len() == 0 {
            false
        } else {
            self.table.crowded()
        }
    }

    /// The bucket at which probing for `hash` starts: the hash masked by the
    /// capacity less one.
    pub fn index_from_hash(&self, hash: u64) -> (r: usize)
        ensures
            r == spec_index(hash, self.spec_capacity() as int),
            r < self.spec_capacity(),
    {
        proof {
            use_type_invariant(self);
        }
        if self.table.buckets.len() == 0 {
            assert(hash & 0 == 0) by (bit_vector);
            0
        } else {
            self.table.index_of(hash)
        }
    }

    /// The fingerprint of `hash`: its seven most significant bits.
    pub fn fingerprint_from_hash(&self, hash: u64) -> (r: u8)
        ensures
            r == spec_fingerprint(hash),
            r < 128,
    {
        assert((hash >> 57) < 128) by (bit_vector);
        (hash >> 57) as u8
    }
}

/// Round trip: what was put under a hash last is what `get` returns for it.
pub proof fn law_put_then_get<V>(m: Map<u64, V>, hash: u64, val: V)
    ensures
        spec_get(spec_put(m, hash, val), hash) == Some(val),
{
}

/// No cross-contamination: putting under one hash leaves what `get` returns for
/// every other hash as it was.
pub proof fn law_put_leaves_others<V>(m: Map<u64, V>, hash1: u64, hash2: u64, val: V)
    requires
        hash1 != hash2,
    ensures
        spec_get(spec_put(m, hash1, val), hash2) == spec_get(m, hash2),
{
}

/// Tombstones: an erased hash is absent, and stays absent when another hash,
/// whatever its fingerprint or home bucket, is put afterwards.
pub proof fn law_erase_then_get<V>(m: Map<u64, V>, hash: u64, other: u64, val: V)
    requires
        other != hash,
    ensures
        spec_get(spec_erase(m, hash), hash).is_none(),
        spec_get(spec_put(spec_erase(m, hash), other, val), hash).is_none(),
{
}

/// Erasing one hash leaves every other binding as it was.
pub proof fn law_erase_leaves_others<V>(m: Map<u64, V>, hash1: u64, hash2: u64)
    requires
        hash1 != hash2,
    ensures
        spec_get(spec_erase(m, hash1), hash2) == spec_get(m, hash2),
{
}

} // verus!
