//! The cache store: a key-to-entry table with a fixed time-to-live and a
//! bounded capacity, evicted by flushing the whole table once it is full.

use vstd::prelude::*;
use vstd::slice::slice_to_vec;

verus! {

/// Mathematical model of one cached response.
#[verifier::ext_equal]
pub ghost struct EntryModel {
    pub body: Seq<u8>,
    pub status: u16,
    pub headers: Seq<(Seq<char>, Seq<u8>)>,
    pub created_at: u64,
}

/// Mathematical model of the whole store.
#[verifier::ext_equal]
pub ghost struct StoreModel {
    pub entries: Map<Seq<char>, EntryModel>,
    pub ttl: u64,
    pub capacity: nat,
}

/// The headers of a response, as a sequence of name/value pairs.
pub open spec fn headers_model(h: Seq<(String, Vec<u8>)>) -> Seq<(Seq<char>, Seq<u8>)> {
    h.map_values(|p: (String, Vec<u8>)| (p.0@, p.1@))
}

/// An immutable snapshot of one successful upstream response.
pub struct CacheEntry {
    pub response_body: Vec<u8>,
    pub status_code: u16,
    pub headers: Vec<(String, Vec<u8>)>,
    pub created_at: u64,
}

impl View for CacheEntry {
    type V = EntryModel;

    open spec fn view(&self) -> EntryModel {
        EntryModel {
            body: self.response_body@,
            status: self.status_code,
            headers: headers_model(self.headers@),
            created_at: self.created_at,
        }
    }
}

/// An entry is expired when strictly more than `ttl` time units have passed
/// since it was created.
pub open spec fn spec_expired(e: EntryModel, ttl: u64, now: u64) -> bool {
    now > e.created_at + ttl
}

/// Copies a byte vector.
pub fn clone_bytes(v: &Vec<u8>) -> (r: Vec<u8>)
    ensures
        r@ == v@,
{
    slice_to_vec(v.as_slice())
}

/// Copies a header list.
pub fn clone_headers(h: &Vec<(String, Vec<u8>)>) -> (r: Vec<(String, Vec<u8>)>)
    ensures
        headers_model(r@) == headers_model(h@),
{
    let mut out: Vec<(String, Vec<u8>)> = Vec::new();
    let mut i: usize = 0;
    while i < h.len()
        invariant
            i <= h@.len(),
            out@.len() == i,
            forall|j: int|
                0 <= j < i ==> (#[trigger] out@[j]).0@ == h@[j].0@ && out@[j].1@ == h@[j].1@,
        decreases h@.len() - i,
    {
        let name = h[i].0.clone();
        let value = clone_bytes(&h[i].1);
        out.push((name, value));
        i += 1;
    }
    proof {
        assert(headers_model(out@) =~= headers_model(h@));
    }
    out
}

impl CacheEntry {
    /// Captures a response snapshot at time `created_at`.
    pub fn new(
        response_body: Vec<u8>,
        status_code: u16,
        headers: Vec<(String, Vec<u8>)>,
        created_at: u64,
    ) -> (r: Self)
        ensures
            r@ == (EntryModel {
                body: response_body@,
                status: status_code,
                headers: headers_model(headers@),
                created_at: created_at,
            }),
    {
        Self { response_body, status_code, headers, created_at }
    }

    /// Whether the entry's age at time `now` exceeds `ttl`.
    pub fn is_expired(&self, ttl: u64, now: u64) -> (r: bool)
        ensures
            r == spec_expired(self@, ttl, now),
    {
        if now <= self.created_at {
            false
        } else {
            now - self.created_at > ttl
        }
    }
}

impl Clone for CacheEntry {
    /// Hands out an identical snapshot, so callers never alias stored state.
    fn clone(&self) -> (r: Self)
        ensures
            r@ == self@,
    {
        CacheEntry {
            response_body: clone_bytes(&self.response_body),
            status_code: self.status_code,
            headers: clone_headers(&self.headers),
            created_at: self.created_at,
        }
    }
}

/// The table that a sequence of key/entry pairs stands for: later pairs win.
pub open spec fn map_of(s: Seq<(String, CacheEntry)>) -> Map<Seq<char>, EntryModel>
    decreases s.len(),
{
    if s.len() == 0 {
        Map::empty()
    } else {
        map_of(s.drop_last()).insert(s.last().0@, s.last().1@)
    }
}

/// No two pairs in the sequence share a key.
pub open spec fn unique_keys(s: Seq<(String, CacheEntry)>) -> bool {
    forall|i: int, j: int|
        0 <= i < j < s.len() ==> (#[trigger] s[i]).0@ != (#[trigger] s[j]).0@
}

proof fn lemma_map_of_contains(s: Seq<(String, CacheEntry)>)
    ensures
        map_of(s).dom().finite(),
        forall|k: Seq<char>|
            #[trigger] map_of(s).contains_key(k) <==> (exists|i: int|
                0 <= i < s.len() && (#[trigger] s[i]).0@ == k),
    decreases s.len(),
{
    if s.len() == 0 {
    } else {
        lemma_map_of_contains(s.drop_last());
        assert forall|k: Seq<char>| #[trigger]
            map_of(s).contains_key(k) implies (exists|i: int|
            0 <= i < s.len() && (#[trigger] s[i]).0@ == k) by {
            if k == s.last().0@ {
                assert(s[s.len() - 1].0@ == k);
            } else {
                let i = choose|i: int| 0 <= i < s.drop_last().len() && (#[trigger] s.drop_last()[i]).0@ == k;
                assert(s[i].0@ == k);
            }
        }
        assert forall|k: Seq<char>|
            (exists|i: int| 0 <= i < s.len() && (#[trigger] s[i]).0@ == k) implies #[trigger]
            map_of(s).contains_key(k) by {
            let i = choose|i: int| 0 <= i < s.len() && (#[trigger] s[i]).0@ == k;
            if i < s.len() - 1 {
                assert(s.drop_last()[i].0@ == k);
            }
        }
    }
}

proof fn lemma_map_of_index(s: Seq<(String, CacheEntry)>, i: int)
    requires
        unique_keys(s),
        0 <= i < s.len(),
    ensures
        map_of(s).contains_key(s[i].0@),
        map_of(s)[s[i].0@] == s[i].1@,
    decreases s.len(),
{
    if i == s.len() - 1 {
    } else {
        assert(s[i].0@ != s[s.len() - 1].0@);
        assert(s.drop_last()[i] == s[i]);
        lemma_map_of_index(s.drop_last(), i);
    }
}

proof fn lemma_map_of_len(s: Seq<(String, CacheEntry)>)
    requires
        unique_keys(s),
    ensures
        map_of(s).dom().finite(),
        map_of(s).dom().len() == s.len(),
    decreases s.len(),
{
    broadcast use vstd::set::axiom_set_insert_len;

    lemma_map_of_contains(s);
    if s.len() == 0 {
        assert(map_of(s).dom() =~= Set::<Seq<char>>::empty());
    } else {
        lemma_map_of_len(s.drop_last());
        lemma_map_of_contains(s.drop_last());
        // the last key is new to the table of the shorter sequence
        assert(!map_of(s.drop_last()).contains_key(s.last().0@)) by {
            if map_of(s.drop_last()).contains_key(s.last().0@) {
                let i = choose|i: int|
                    0 <= i < s.drop_last().len() && (#[trigger] s.drop_last()[i]).0@ == s.last().0@;
                assert(s[i].0@ == s[s.len() - 1].0@);
            }
        }
        assert(map_of(s).dom() =~= map_of(s.drop_last()).dom().insert(s.last().0@));
    }
}

proof fn lemma_map_of_update(s: Seq<(String, CacheEntry)>, i: int, p: (String, CacheEntry))
    requires
        unique_keys(s),
        0 <= i < s.len(),
        p.0@ == s[i].0@,
    ensures
        map_of(s.update(i, p)) == map_of(s).insert(p.0@, p.1@),
    decreases s.len(),
{
    let t = s.update(i, p);
    if i == s.len() - 1 {
        assert(t.drop_last() =~= s.drop_last());
        assert(t.last() == p);
        assert(map_of(s.drop_last()).insert(s.last().0@, s.last().1@).insert(p.0@, p.1@)
            =~= map_of(s.drop_last()).insert(p.0@, p.1@));
    } else {
        assert(t.drop_last() =~= s.drop_last().update(i, p));
        assert(t.last() == s.last());
        assert(s.drop_last()[i] == s[i]);
        lemma_map_of_update(s.drop_last(), i, p);
        // the updated key differs from the last key, so the two inserts commute
        assert(p.0@ != s.last().0@) by {
            assert(s[i].0@ != s[s.len() - 1].0@);
        }
        assert(map_of(s.drop_last()).insert(p.0@, p.1@).insert(s.last().0@, s.last().1@)
            =~= map_of(s.drop_last()).insert(s.last().0@, s.last().1@).insert(p.0@, p.1@));
    }
}

/// What a lookup of `k` at time `now` yields: the stored entry, unless it is
/// absent or expired.
pub open spec fn spec_get(m: StoreModel, k: Seq<char>, now: u64) -> Option<EntryModel> {
    if m.entries.contains_key(k) && !spec_expired(m.entries[k], m.ttl, now) {
        Some(m.entries[k])
    } else {
        None
    }
}

/// What an insertion of `e` under `k` does to the table: if the table is at
/// or above capacity it is flushed first, then the entry lands.
pub open spec fn spec_set(m: StoreModel, k: Seq<char>, e: EntryModel) -> StoreModel {
    if m.entries.dom().len() >= m.capacity {
        StoreModel { entries: Map::empty().insert(k, e), ..m }
    } else {
        StoreModel { entries: m.entries.insert(k, e), ..m }
    }
}

/// Law: an entry stored under key `k` is returned intact — same status,
/// headers and body — by a lookup of `k` at any time at which it has not yet
/// expired.
pub proof fn lemma_set_then_get(m: StoreModel, k: Seq<char>, e: EntryModel, now: u64)
    requires
        !spec_expired(e, m.ttl, now),
    ensures
        spec_get(spec_set(m, k, e), k, now) == Some(e),
{
}

/// Law: a lookup strictly after the entry's time-to-live has elapsed reports
/// absence, even though the entry may still be physically resident.
pub proof fn lemma_expired_get_absent(m: StoreModel, k: Seq<char>, now: u64)
    requires
        m.entries.contains_key(k),
        spec_expired(m.entries[k], m.ttl, now),
    ensures
        spec_get(m, k, now) is None,
{
}

/// Law: an insertion never leaves more than `capacity` keys resident, and an
/// insertion into a full table leaves exactly the one new entry.
pub proof fn lemma_capacity_bound(m: StoreModel, k: Seq<char>, e: EntryModel)
    requires
        m.entries.dom().finite(),
        m.entries.dom().len() <= m.capacity,
        m.capacity >= 1,
    ensures
        spec_set(m, k, e).entries.dom().finite(),
        spec_set(m, k, e).entries.dom().len() <= m.capacity,
        m.entries.dom().len() >= m.capacity ==> spec_set(m, k, e).entries == Map::empty().insert(
            k,
            e,
        ),
{
    broadcast use vstd::set::axiom_set_insert_len;
    broadcast use vstd::set::axiom_set_insert_finite;

    if m.entries.dom().len() >= m.capacity {
        assert(spec_set(m, k, e).entries.dom() =~= Set::<Seq<char>>::empty().insert(k));
        assert(Map::<Seq<char>, EntryModel>::empty().dom() =~= Set::<Seq<char>>::empty());
    } else {
        assert(spec_set(m, k, e).entries.dom() =~= m.entries.dom().insert(k));
    }
}

fn find_index(entries: &Vec<(String, CacheEntry)>, key: &String) -> (r: Option<usize>)
    ensures
        match r {
            Some(i) => i < entries@.len() && entries@[i as int].0@ == key@,
            None => forall|j: int|
                0 <= j < entries@.len() ==> (#[trigger] entries@[j]).0@ != key@,
        },
{
    let mut i: usize = 0;
    while i < entries.len()
        invariant
            i <= entries@.len(),
            forall|j: int| 0 <= j < i ==> (#[trigger] entries@[j]).0@ != key@,
        decreases entries@.len() - i,
    {
        if entries[i].0 == *key {
            return Some(i);
        }
        i += 1;
    }
    None
}

/// A mapping from cache key to cached response, bounded in size, with a
/// fixed time-to-live applied on every read.
pub struct MemoryCache {
    entries: Vec<(String, CacheEntry)>,
    default_ttl: u64,
    max_entries: usize,
}

impl View for MemoryCache {
    type V = StoreModel;

    closed spec fn view(&self) -> StoreModel {
        StoreModel {
            entries: map_of(self.entries@),
            ttl: self.default_ttl,
            capacity: self.max_entries as nat,
        }
    }
}

impl MemoryCache {
    /// The store's internal invariant: distinct keys, within capacity.
    #[verifier::type_invariant]
    spec fn wf(&self) -> bool {
        &&& unique_keys(self.entries@)
        &&& self.entries@.len() <= self.max_entries
        &&& self.max_entries >= 1
    }

    /// An empty store with the given time-to-live and capacity.
    pub fn new(default_ttl: u64, max_entries: usize) -> (r: Self)
        requires
            max_entries >= 1,
        ensures
            r@.entries == Map::<Seq<char>, EntryModel>::empty(),
            r@.ttl == default_ttl,
            r@.capacity == max_entries as nat,
    {
        let r = Self { entries: Vec::new(), default_ttl, max_entries };
        r
    }

    /// Returns a copy of the entry under `key` if one is present and not
    /// expired at time `now`; otherwise reports absence. Never mutates the
    /// store and never removes a stale entry.
    pub fn get(&self, key: &String, now: u64) -> (r: Option<CacheEntry>)
        ensures
            match r {
                Some(e) => spec_get(self@, key@, now) == Some(e@),
                None => spec_get(self@, key@, now) is None,
            },
    {
        proof {
            use_type_invariant(&*self);
        }
        match find_index(&self.entries, key) {
            Some(i) => {
                proof {
                    lemma_map_of_index(self.entries@, i as int);
                }
                let entry = &self.entries[i].1;
                if !entry.is_expired(self.default_ttl, now) {
                    Some(entry.clone())
                } else {
                    None
                }
            },
            None => {
                proof {
                    lemma_map_of_contains(self.entries@);
                }
                None
            },
        }
    }

    /// Inserts `entry` under `key`. If the store is at capacity, the whole
    /// table is discarded first, so the count never exceeds the capacity.
    pub fn set(&mut self, key: String, entry: CacheEntry)
        ensures
            final(self)@ == spec_set(old(self)@, key@, entry@),
            final(self)@.entries.dom().finite(),
            final(self)@.entries.dom().len() <= final(self)@.capacity,
    {
        proof {
            use_type_invariant(&*self);
            lemma_map_of_len(self.entries@);
        }
        let ghost k: Seq<char> = key@;
        let ghost e: EntryModel = entry@;
        let mut es: Vec<(String, CacheEntry)> = Vec::new();
        core::mem::swap(&mut es, &mut self.entries);
        let ghost s0 = es@;
        if es.len() >= self.max_entries {
            es.clear();
            es.push((key, entry));
            proof {
                assert(es@.drop_last() =~= Seq::<(String, CacheEntry)>::empty());
                assert(map_of(Seq::<(String, CacheEntry)>::empty())
                    =~= Map::<Seq<char>, EntryModel>::empty());
                assert(map_of(es@) =~= Map::empty().insert(k, e));
            }
        } else {
            match find_index(&es, &key) {
                Some(i) => {
                    es[i] = (key, entry);
                    proof {
                        assert(es@ == s0.update(i as int, es@[i as int]));
                        lemma_map_of_update(s0, i as int, es@[i as int]);
                        assert forall|a: int, b: int|
                            0 <= a < b < es@.len() implies (#[trigger] es@[a]).0@
                            != (#[trigger] es@[b]).0@ by {
                            assert(s0[a].0@ != s0[b].0@);
                        }
                        assert(map_of(es@) =~= map_of(s0).insert(k, e));
                    }
                },
                None => {
                    es.push((key, entry));
                    proof {
                        assert(es@.drop_last() =~= s0);
                        assert forall|a: int, b: int|
                            0 <= a < b < es@.len() implies (#[trigger] es@[a]).0@
                            != (#[trigger] es@[b]).0@ by {
                            if b < es@.len() - 1 {
                                assert(s0[a].0@ != s0[b].0@);
                            } else {
                                assert(s0[a].0@ != k);
                            }
                        }
                    }
                },
            }
        }
        proof {
            lemma_map_of_len(es@);
        }
        self.entries = es;
        proof {
            assert(self@ =~= spec_set(old(self)@, k, e));
        }
    }

    /// Removes every entry unconditionally and reports how many were removed.
    pub fn clear(&mut self) -> (removed: usize)
        ensures
            removed == old(self)@.entries.dom().len(),
            final(self)@.entries == Map::<Seq<char>, EntryModel>::empty(),
            final(self)@.ttl == old(self)@.ttl,
            final(self)@.capacity == old(self)@.capacity,
    {
        proof {
            use_type_invariant(&*self);
            lemma_map_of_len(self.entries@);
        }
        let removed = self.entries.len();
        self.entries = Vec::new();
        proof {
            assert(self@.entries =~= Map::<Seq<char>, EntryModel>::empty());
        }
        removed
    }

    /// The number of entries currently resident, expired ones included.
    pub fn size(&self) -> (r: usize)
        ensures
            r == self@.entries.dom().len(),
    {
        proof {
            use_type_invariant(&*self);
            lemma_map_of_len(self.entries@);
        }
        self.entries.len()
    }
}

} // verus!
