//! The schema cache.
//!
//! Discovered graph schemas are kept in a bounded key-value store from graph
//! identifier to schema text, with least-recently-used eviction under
//! pressure and explicit invalidation by key.  The model is a sequence of
//! key-value pairs ordered from least to most recently used, with unique
//! keys and length bounded by the capacity.  Looking a key up scans the
//! sequence; inserting moves or places the key at the most-recent end,
//! evicting the least-recent entry when a new key arrives at capacity.

use vstd::prelude::*;

verus! {

/// One cached pair: graph identifier and schema text.
pub type EntryV = (Seq<char>, Seq<char>);

/// The mathematical value of a cache: its entries from least to most
/// recently used, and its capacity.
#[verifier::ext_equal]
pub struct CacheV {
    pub entries: Seq<EntryV>,
    pub capacity: nat,
}

/// Keys occur at most once.
pub open spec fn unique_keys(s: Seq<EntryV>) -> bool {
    forall|i: int, j: int| 0 <= i < j < s.len() ==> s[i].0 != s[j].0
}

/// A well-formed cache: positive capacity, bounded, unique keys.
pub open spec fn cache_wf(c: CacheV) -> bool {
    &&& c.capacity >= 1
    &&& c.entries.len() <= c.capacity
    &&& unique_keys(c.entries)
}

/// The schema stored under a key, scanning from the least recent end.
pub open spec fn lookup(s: Seq<EntryV>, k: Seq<char>) -> Option<Seq<char>>
    decreases s.len(),
{
    if s.len() == 0 {
        None
    } else if s[0].0 == k {
        Some(s[0].1)
    } else {
        lookup(s.skip(1), k)
    }
}

/// The entries with any pair keyed by `k` removed.
pub open spec fn remove_key(s: Seq<EntryV>, k: Seq<char>) -> Seq<EntryV>
    decreases s.len(),
{
    if s.len() == 0 {
        s
    } else if s[0].0 == k {
        remove_key(s.skip(1), k)
    } else {
        seq![s[0]] + remove_key(s.skip(1), k)
    }
}

/// The cache after an insertion: the key moves to the most-recent end; when
/// a new key arrives at capacity, the least-recent entry leaves.
pub open spec fn cache_insert(c: CacheV, k: Seq<char>, v: Seq<char>) -> CacheV {
    let kept = remove_key(c.entries, k);
    let room = if kept.len() < c.capacity {
        kept
    } else {
        kept.skip(1)
    };
    CacheV { entries: room.push((k, v)), capacity: c.capacity }
}

/// The cache after an invalidation.
pub open spec fn cache_invalidate(c: CacheV, k: Seq<char>) -> CacheV {
    CacheV { entries: remove_key(c.entries, k), capacity: c.capacity }
}

/// Removal never grows the entries.
proof fn lemma_remove_key_len(s: Seq<EntryV>, k: Seq<char>)
    ensures
        remove_key(s, k).len() <= s.len(),
    decreases s.len(),
{
    if s.len() > 0 {
        lemma_remove_key_len(s.skip(1), k);
    }
}

/// What removal leaves: exactly the pairs with other keys, in order.
proof fn lemma_remove_key_membership(s: Seq<EntryV>, k: Seq<char>)
    ensures
        forall|i: int|
            0 <= i < remove_key(s, k).len() ==> remove_key(s, k)[i].0 != k && s.contains(
                #[trigger] remove_key(s, k)[i],
            ),
        forall|p: EntryV| s.contains(p) && p.0 != k ==> remove_key(s, k).contains(p),
    decreases s.len(),
{
    if s.len() > 0 {
        lemma_remove_key_membership(s.skip(1), k);
        assert forall|i: int| 0 <= i < remove_key(s, k).len() implies remove_key(s, k)[i].0 != k
            && s.contains(#[trigger] remove_key(s, k)[i]) by {
            if s[0].0 == k {
                assert(s.skip(1).contains(remove_key(s.skip(1), k)[i]));
                let w = choose|w: int|
                    0 <= w < s.skip(1).len() && s.skip(1)[w] == remove_key(s.skip(1), k)[i];
                assert(s[w + 1] == remove_key(s, k)[i]);
            } else {
                if i > 0 {
                    assert(remove_key(s, k)[i] == remove_key(s.skip(1), k)[i - 1]);
                    assert(s.skip(1).contains(remove_key(s.skip(1), k)[i - 1]));
                    let w = choose|w: int|
                        0 <= w < s.skip(1).len() && s.skip(1)[w] == remove_key(s.skip(1), k)[i - 1];
                    assert(s[w + 1] == remove_key(s, k)[i]);
                } else {
                    assert(remove_key(s, k)[0] == s[0]);
                }
            }
        }
        assert forall|p: EntryV| s.contains(p) && p.0 != k implies remove_key(s, k).contains(p) by {
            let w = choose|w: int| 0 <= w < s.len() && s[w] == p;
            if w == 0 {
                if s[0].0 != k {
                    assert(remove_key(s, k)[0] == p);
                }
            } else {
                assert(s.skip(1)[w - 1] == p);
                assert(s.skip(1).contains(p));
                assert(remove_key(s.skip(1), k).contains(p));
                let u = choose|u: int|
                    0 <= u < remove_key(s.skip(1), k).len() && remove_key(s.skip(1), k)[u] == p;
                if s[0].0 == k {
                } else {
                    assert(remove_key(s, k)[u + 1] == p);
                }
            }
        }
    }
}

/// Removal keeps keys unique.
proof fn lemma_remove_key_unique(s: Seq<EntryV>, k: Seq<char>)
    requires
        unique_keys(s),
    ensures
        unique_keys(remove_key(s, k)),
    decreases s.len(),
{
    if s.len() > 0 {
        assert(forall|i: int, j: int|
            0 <= i < j < s.skip(1).len() ==> s.skip(1)[i].0 != s.skip(1)[j].0);
        lemma_remove_key_unique(s.skip(1), k);
        if s[0].0 != k {
            lemma_remove_key_membership(s.skip(1), k);
            assert forall|i: int, j: int|
                0 <= i < j < remove_key(s, k).len() implies remove_key(s, k)[i].0 != remove_key(
                s,
                k,
            )[j].0 by {
                if i == 0 {
                    let q = remove_key(s, k)[j];
                    assert(q == remove_key(s.skip(1), k)[j - 1]);
                    assert(s.skip(1).contains(q));
                    let w = choose|w: int| 0 <= w < s.skip(1).len() && s.skip(1)[w] == q;
                    assert(s[0].0 != s[w + 1].0);
                } else {
                    assert(remove_key(s, k)[i] == remove_key(s.skip(1), k)[i - 1]);
                    assert(remove_key(s, k)[j] == remove_key(s.skip(1), k)[j - 1]);
                }
            }
        }
    }
}

/// A key no longer looked up after its removal.
pub proof fn lemma_lookup_remove_key(s: Seq<EntryV>, k: Seq<char>)
    ensures
        lookup(remove_key(s, k), k) is None,
    decreases s.len(),
{
    if s.len() > 0 {
        lemma_lookup_remove_key(s.skip(1), k);
        if s[0].0 != k {
            let r = seq![s[0]] + remove_key(s.skip(1), k);
            assert(r[0] == s[0]);
            assert(r.skip(1) =~= remove_key(s.skip(1), k));
        }
    }
}

/// Other keys look up unchanged after a removal.
pub proof fn lemma_lookup_remove_other(s: Seq<EntryV>, k: Seq<char>, k2: Seq<char>)
    requires
        k2 != k,
    ensures
        lookup(remove_key(s, k), k2) == lookup(s, k2),
    decreases s.len(),
{
    if s.len() > 0 {
        lemma_lookup_remove_other(s.skip(1), k, k2);
        if s[0].0 != k {
            let r = seq![s[0]] + remove_key(s.skip(1), k);
            assert(r[0] == s[0]);
            assert(r.skip(1) =~= remove_key(s.skip(1), k));
        }
    }
}

/// A key appended at the end is found if no earlier entry carries it.
proof fn lemma_lookup_push(s: Seq<EntryV>, k: Seq<char>, v: Seq<char>)
    requires
        lookup(s, k) is None,
    ensures
        lookup(s.push((k, v)), k) == Some(v),
    decreases s.len(),
{
    if s.len() == 0 {
        assert(s.push((k, v))[0] == (k, v));
    } else {
        assert(s.push((k, v))[0] == s[0]);
        assert(s.push((k, v)).skip(1) =~= s.skip(1).push((k, v)));
        lemma_lookup_push(s.skip(1), k, v);
    }
}

/// Looking up scans only the keys, so a missing key misses every prefix cut
/// too.
proof fn lemma_lookup_skip(s: Seq<EntryV>, k: Seq<char>, n: int)
    requires
        0 <= n <= s.len(),
        lookup(s, k) is None,
    ensures
        lookup(s.skip(n), k) is None,
    decreases n,
{
    if n > 0 {
        assert(s.skip(1).skip(n - 1) =~= s.skip(n));
        lemma_lookup_skip(s.skip(1), k, n - 1);
    } else {
        assert(s.skip(0) =~= s);
    }
}

/// After an insertion the inserted key maps to the inserted schema.  This is
/// the discovery round trip at the level of the cache model.
pub proof fn lemma_lookup_insert(c: CacheV, k: Seq<char>, v: Seq<char>)
    requires
        cache_wf(c),
    ensures
        lookup(cache_insert(c, k, v).entries, k) == Some(v),
{
    lemma_lookup_remove_key(c.entries, k);
    lemma_remove_key_len(c.entries, k);
    let kept = remove_key(c.entries, k);
    if kept.len() < c.capacity {
        lemma_lookup_push(kept, k, v);
    } else {
        lemma_lookup_skip(kept, k, 1);
        lemma_lookup_push(kept.skip(1), k, v);
    }
}

/// Invalidation always makes a subsequent lookup of that key miss, whether
/// or not an entry existed.
pub proof fn lemma_invalidate_then_lookup(c: CacheV, k: Seq<char>)
    ensures
        lookup(cache_invalidate(c, k).entries, k) is None,
{
    lemma_lookup_remove_key(c.entries, k);
}

/// Insertion preserves well-formedness.
pub proof fn lemma_cache_insert_wf(c: CacheV, k: Seq<char>, v: Seq<char>)
    requires
        cache_wf(c),
    ensures
        cache_wf(cache_insert(c, k, v)),
{
    lemma_remove_key_len(c.entries, k);
    lemma_remove_key_unique(c.entries, k);
    lemma_remove_key_membership(c.entries, k);
    let kept = remove_key(c.entries, k);
    let room = if kept.len() < c.capacity {
        kept
    } else {
        kept.skip(1)
    };
    assert(unique_keys(room));
    assert(forall|i: int| 0 <= i < room.len() ==> room[i].0 != k);
    let r = room.push((k, v));
    assert forall|i: int, j: int| 0 <= i < j < r.len() implies r[i].0 != r[j].0 by {
        if j == r.len() - 1 {
            assert(r[i] == room[i]);
        }
    }
}

/// Invalidation preserves well-formedness.
pub proof fn lemma_cache_invalidate_wf(c: CacheV, k: Seq<char>)
    requires
        cache_wf(c),
    ensures
        cache_wf(cache_invalidate(c, k)),
{
    lemma_remove_key_len(c.entries, k);
    lemma_remove_key_unique(c.entries, k);
}

/// The bounded schema cache.
pub struct SchemaCache {
    entries: Vec<(String, String)>,
    capacity: usize,
}

impl View for SchemaCache {
    type V = CacheV;

    closed spec fn view(&self) -> CacheV {
        CacheV {
            entries: self.entries@.map_values(|p: (String, String)| (p.0@, p.1@)),
            capacity: self.capacity as nat,
        }
    }
}

/// Removing one mid-sequence pair whose key is the only match equals the
/// model-level removal.
proof fn lemma_remove_key_at(s: Seq<EntryV>, k: Seq<char>, i: int)
    requires
        0 <= i < s.len(),
        s[i].0 == k,
        forall|j: int| 0 <= j < i ==> s[j].0 != k,
        unique_keys(s),
    ensures
        remove_key(s, k) == s.subrange(0, i) + s.skip(i + 1),
    decreases i,
{
    if i == 0 {
        assert forall|j: int| 0 <= j < s.skip(1).len() implies s.skip(1)[j].0 != k by {
            assert(s.skip(1)[j] == s[j + 1]);
        }
        lemma_remove_key_absent(s.skip(1), k);
        assert(s.subrange(0, 0) + s.skip(1) =~= s.skip(1));
    } else {
        let t = s.skip(1);
        assert(forall|j: int, l: int| 0 <= j < l < t.len() ==> t[j].0 != t[l].0);
        assert(t[i - 1] == s[i]);
        assert(forall|j: int| 0 <= j < i - 1 ==> t[j] == s[j + 1] && t[j].0 != k);
        lemma_remove_key_at(t, k, i - 1);
        assert(seq![s[0]] + (t.subrange(0, i - 1) + t.skip(i)) =~= s.subrange(0, i) + s.skip(
            i + 1,
        ));
    }
}

/// Removal is the identity when no entry carries the key.
proof fn lemma_remove_key_absent(s: Seq<EntryV>, k: Seq<char>)
    requires
        forall|j: int| 0 <= j < s.len() ==> s[j].0 != k,
    ensures
        remove_key(s, k) == s,
    decreases s.len(),
{
    if s.len() > 0 {
        assert(forall|j: int| 0 <= j < s.skip(1).len() ==> s.skip(1)[j] == s[j + 1]);
        lemma_remove_key_absent(s.skip(1), k);
        assert(seq![s[0]] + s.skip(1) =~= s);
    }
}

/// A found index with a miss on every earlier index matches the model
/// lookup.
proof fn lemma_lookup_at(s: Seq<EntryV>, k: Seq<char>, i: int)
    requires
        0 <= i < s.len(),
        s[i].0 == k,
        forall|j: int| 0 <= j < i ==> s[j].0 != k,
    ensures
        lookup(s, k) == Some(s[i].1),
    decreases i,
{
    if i > 0 {
        let t = s.skip(1);
        assert(t[i - 1] == s[i]);
        assert(forall|j: int| 0 <= j < i - 1 ==> t[j] == s[j + 1] && t[j].0 != k);
        lemma_lookup_at(t, k, i - 1);
    }
}

/// A miss on every index is a model-level miss.
proof fn lemma_lookup_none(s: Seq<EntryV>, k: Seq<char>)
    requires
        forall|j: int| 0 <= j < s.len() ==> s[j].0 != k,
    ensures
        lookup(s, k) is None,
    decreases s.len(),
{
    if s.len() > 0 {
        assert(forall|j: int| 0 <= j < s.skip(1).len() ==> s.skip(1)[j] == s[j + 1]);
        lemma_lookup_none(s.skip(1), k);
    }
}

impl SchemaCache {
    /// A cache holding at most `capacity` schemas.
    pub fn new(capacity: usize) -> (r: SchemaCache)
        requires
            capacity >= 1,
        ensures
            cache_wf(r@),
            r@.entries == Seq::<EntryV>::empty(),
            r@.capacity == capacity as nat,
    {
        let r = SchemaCache { entries: Vec::new(), capacity };
        proof {
            assert(r@.entries =~= Seq::<EntryV>::empty());
        }
        r
    }

    /// The position of a key, with every earlier position a miss.
    fn find(&self, key: &String) -> (r: Option<usize>)
        ensures
            match r {
                Some(i) => i < self@.entries.len() && self@.entries[i as int].0 == key@ && forall|
                    j: int,
                |
                    0 <= j < i ==> self@.entries[j].0 != key@,
                None => forall|j: int| 0 <= j < self@.entries.len() ==> self@.entries[j].0 != key@,
            },
    {
        let n = self.entries.len();
        let mut i: usize = 0;
        while i < n
            invariant
                i <= n,
                n == self.entries@.len(),
                forall|j: int| 0 <= j < i ==> self@.entries[j].0 != key@,
            decreases n - i,
        {
            if self.entries[i].0.eq(key) {
                return Some(i);
            }
            i = i + 1;
        }
        None
    }

    /// The schema cached under a graph identifier, if any.
    pub fn get(&self, key: &String) -> (r: Option<String>)
        ensures
            match r {
                Some(v) => lookup(self@.entries, key@) == Some(v@),
                None => lookup(self@.entries, key@) is None,
            },
    {
        match self.find(key) {
            Some(i) => {
                proof {
                    lemma_lookup_at(self@.entries, key@, i as int);
                }
                Some(self.entries[i].1.clone())
            },
            None => {
                proof {
                    lemma_lookup_none(self@.entries, key@);
                }
                None
            },
        }
    }

    /// Caches a schema under a graph identifier, as the most recent entry.
    pub fn insert(&mut self, key: String, value: String)
        requires
            cache_wf(old(self)@),
        ensures
            cache_wf(final(self)@),
            final(self)@ == cache_insert(old(self)@, key@, value@),
    {
        let ghost pre = self@;
        match self.find(&key) {
            Some(i) => {
                proof {
                    lemma_remove_key_at(pre.entries, key@, i as int);
                }
                self.entries.remove(i);
            },
            None => {
                proof {
                    lemma_remove_key_absent(pre.entries, key@);
                }
            },
        }
        proof {
            assert(self@.entries =~= remove_key(pre.entries, key@));
        }
        if self.entries.len() >= self.capacity {
            self.entries.remove(0);
            proof {
                assert(self@.entries =~= remove_key(pre.entries, key@).skip(1));
            }
        }
        self.entries.push((key, value));
        proof {
            lemma_cache_insert_wf(pre, key@, value@);
            assert(self@.entries =~= cache_insert(pre, key@, value@).entries);
            assert(self@ =~= cache_insert(pre, key@, value@));
        }
    }

    /// Forgets the schema cached under a graph identifier; a no-op when the
    /// key is absent.
    pub fn invalidate(&mut self, key: &String)
        requires
            cache_wf(old(self)@),
        ensures
            cache_wf(final(self)@),
            final(self)@ == cache_invalidate(old(self)@, key@),
    {
        let ghost pre = self@;
        match self.find(key) {
            Some(i) => {
                proof {
                    lemma_remove_key_at(pre.entries, key@, i as int);
                }
                self.entries.remove(i);
            },
            None => {
                proof {
                    lemma_remove_key_absent(pre.entries, key@);
                }
            },
        }
        proof {
            lemma_cache_invalidate_wf(pre, key@);
            assert(self@.entries =~= cache_invalidate(pre, key@).entries);
            assert(self@ =~= cache_invalidate(pre, key@));
        }
    }

    /// How many schemas are cached.
    pub fn len(&self) -> (r: usize)
        ensures
            r == self@.entries.len(),
    {
        self.entries.len()
    }
}

/// Clears one graph's schema from the cache, out of band.
pub fn process_clear_schema_cache(cache: &mut SchemaCache, graph_name: &String)
    requires
        cache_wf(old(cache)@),
    ensures
        cache_wf(final(cache)@),
        final(cache)@ == cache_invalidate(old(cache)@, graph_name@),
        lookup(final(cache)@.entries, graph_name@) is None,
{
    cache.invalidate(graph_name);
    proof {
        lemma_invalidate_then_lookup(old(cache)@, graph_name@);
    }
}

} // verus!
