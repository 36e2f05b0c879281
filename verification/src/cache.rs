//! A bounded, identifier-keyed cache of records with first-in-first-out
//! eviction.
//!
//! The cache is modelled as a sequence of key/record pairs held in
//! insertion order, oldest first. The sequence carries both roles the
//! cache has: it is the map (keys are distinct, so each key names at most
//! one record) and it is the eviction order (the front is evicted first).
//! Keeping one sequence for both makes the required bijection between map
//! membership and eviction-order membership hold by construction, and the
//! lemmas below state it explicitly.

use vstd::prelude::*;

use crate::record::Record;
use crate::record::RecordV;

verus! {

/// The mathematical value of one cache entry: the key as a character
/// sequence and the record value stored under it.
pub struct EntryV {
    pub key: Seq<char>,
    pub record: RecordV,
}

/// The keys of a cache model, in eviction order (oldest first).
pub open spec fn entry_keys(s: Seq<EntryV>) -> Seq<Seq<char>> {
    s.map_values(|e: EntryV| e.key)
}

/// Whether some entry of `s` carries the key `k`.
pub open spec fn has_key(s: Seq<EntryV>, k: Seq<char>) -> bool {
    exists|i: int| 0 <= i < s.len() && s[i].key == k
}

/// The record stored under `k`, reading the entries oldest first.
/// With distinct keys this is the only entry carrying `k`.
pub open spec fn lookup(s: Seq<EntryV>, k: Seq<char>) -> Option<RecordV>
    decreases s.len(),
{
    if s.len() == 0 {
        None
    } else if s[0].key == k {
        Some(s[0].record)
    } else {
        lookup(s.drop_first(), k)
    }
}

/// No two entries of `s` carry the same key.
pub open spec fn distinct_keys(s: Seq<EntryV>) -> bool {
    forall|i: int, j: int| 0 <= i < j < s.len() ==> s[i].key != s[j].key
}

/// What one insertion does to the cache model: nothing if the key is
/// already present; otherwise the new entry goes to the back, and if the
/// capacity is now exceeded the oldest entry leaves the front.
pub open spec fn fifo_insert(s: Seq<EntryV>, cap: nat, k: Seq<char>, v: RecordV) -> Seq<EntryV> {
    if has_key(s, k) {
        s
    } else {
        let t = s.push(EntryV { key: k, record: v });
        if t.len() > cap {
            t.drop_first()
        } else {
            t
        }
    }
}

struct CacheEntry {
    key: String,
    record: Record,
}

/// An identifier-keyed map of records holding at most `capacity` entries,
/// evicting the oldest-inserted entry once an insertion would exceed the
/// bound. A capacity of zero is legal and makes every insertion evict the
/// entry it just added.
pub struct BoundedCache {
    entries: Vec<CacheEntry>,
    capacity: usize,
}

impl View for BoundedCache {
    type V = Seq<EntryV>;

    closed spec fn view(&self) -> Seq<EntryV> {
        self.entries@.map_values(|e: CacheEntry| EntryV { key: e.key@, record: e.record@ })
    }
}

impl BoundedCache {
    /// The maximum number of entries the cache may hold, fixed at
    /// construction.
    pub closed spec fn capacity(self) -> usize {
        self.capacity
    }

    /// Well-formedness: keys are distinct and the capacity bound holds.
    pub open spec fn wf(self) -> bool {
        &&& distinct_keys(self@)
        &&& self@.len() <= self.capacity()
    }

    /// An empty cache with the given capacity.
    pub fn new(capacity: usize) -> (c: BoundedCache)
        ensures
            c.wf(),
            c.capacity() == capacity,
            c@ == Seq::<EntryV>::empty(),
    {
        let c = BoundedCache { entries: Vec::new(), capacity };
        proof {
            assert(c@ =~= Seq::<EntryV>::empty());
        }
        c
    }

    /// The number of entries the cache holds right now.
    pub fn len(&self) -> (n: usize)
        ensures
            n == self@.len(),
    {
        self.entries.len()
    }

    /// The maximum number of entries, as configured at construction.
    pub fn max_entries(&self) -> (c: usize)
        ensures
            c == self.capacity(),
    {
        self.capacity
    }

    /// The cached keys in eviction order, oldest first: the key at the
    /// front is the next to be evicted.
    pub fn eviction_order(&self) -> (keys: Vec<String>)
        ensures
            keys@.len() == self@.len(),
            forall|i: int| 0 <= i < keys@.len() ==> keys@[i]@ == self@[i].key,
    {
        let mut keys: Vec<String> = Vec::new();
        let n = self.entries.len();
        let mut i: usize = 0;
        while i < n
            invariant
                n == self.entries@.len(),
                self@.len() == n,
                i <= n,
                keys@.len() == i,
                forall|j: int| 0 <= j < i ==> keys@[j]@ == self@[j].key,
            decreases n - i,
        {
            keys.push(self.entries[i].key.clone());
            i += 1;
        }
        keys
    }

    /// Whether a record is cached under `key`.
    pub fn contains_key(&self, key: &String) -> (r: bool)
        ensures
            r == has_key(self@, key@),
    {
        let n = self.entries.len();
        let mut i: usize = 0;
        while i < n
            invariant
                n == self.entries@.len(),
                i <= n,
                self@.len() == n,
                forall|j: int| 0 <= j < i ==> self@[j].key != key@,
            decreases n - i,
        {
            if self.entries[i].key == *key {
                assert(self@[i as int].key == key@);
                return true;
            }
            i += 1;
        }
        false
    }

    /// A copy of the record cached under `key`, if any. A hit has no side
    /// effect: the eviction order reflects insertion order only, never
    /// access order.
    pub fn get(&self, key: &String) -> (r: Option<Record>)
        ensures
            match r {
                Some(rec) => lookup(self@, key@) == Some(rec@),
                None => lookup(self@, key@) is None,
            },
            r is Some <==> has_key(self@, key@),
    {
        let n = self.entries.len();
        let mut i: usize = 0;
        while i < n
            invariant
                n == self.entries@.len(),
                i <= n,
                self@.len() == n,
                forall|j: int| 0 <= j < i ==> self@[j].key != key@,
            decreases n - i,
        {
            if self.entries[i].key == *key {
                let rec = self.entries[i].record.clone();
                proof {
                    assert(self@[i as int].key == key@);
                    lemma_lookup_at_first_index(self@, key@, i as int);
                }
                return Some(rec);
            }
            i += 1;
        }
        proof {
            lemma_lookup_absent(self@, key@);
        }
        None
    }

    /// Insert `record` under `key`. If the key is already present the
    /// call is a no-op (the coordinator only inserts after a confirmed
    /// miss, and a concurrent duplicate insertion must not displace the
    /// entry already there). Otherwise the entry joins the back of the
    /// eviction order, and if the bound is now exceeded the oldest entry
    /// is evicted.
    pub fn insert(&mut self, key: String, record: Record)
        requires
            old(self).wf(),
        ensures
            final(self).wf(),
            final(self).capacity() == old(self).capacity(),
            final(self)@ == fifo_insert(old(self)@, old(self).capacity() as nat, key@, record@),
    {
        if self.contains_key(&key) {
            return;
        }
        let ghost s0 = self@;
        let ghost pushed = s0.push(EntryV { key: key@, record: record@ });
        self.entries.push(CacheEntry { key, record });
        proof {
            assert(self@ =~= pushed);
            assert forall|i: int, j: int| 0 <= i < j < pushed.len() implies pushed[i].key
                != pushed[j].key by {
                if j < pushed.len() - 1 {
                    assert(s0[i].key != s0[j].key);
                } else {
                    assert(!has_key(s0, pushed[j].key));
                    assert(pushed[i].key == s0[i].key);
                }
            }
        }
        if self.entries.len() > self.capacity {
            self.entries.remove(0);
            proof {
                assert(self@ =~= pushed.drop_first());
                assert forall|i: int, j: int| 0 <= i < j < pushed.drop_first().len() implies
                    pushed.drop_first()[i].key != pushed.drop_first()[j].key by {
                    assert(pushed[i + 1].key != pushed[j + 1].key);
                }
            }
        }
    }
}

/// If the first entry carrying `k` stands at position `i`, the lookup for
/// `k` yields that entry's record.
pub proof fn lemma_lookup_at_first_index(s: Seq<EntryV>, k: Seq<char>, i: int)
    requires
        0 <= i < s.len(),
        s[i].key == k,
        forall|j: int| 0 <= j < i ==> s[j].key != k,
    ensures
        lookup(s, k) == Some(s[i].record),
    decreases i,
{
    if i > 0 {
        lemma_lookup_at_first_index(s.drop_first(), k, i - 1);
    }
}

/// If no entry carries `k`, the lookup for `k` yields nothing.
pub proof fn lemma_lookup_absent(s: Seq<EntryV>, k: Seq<char>)
    requires
        forall|j: int| 0 <= j < s.len() ==> s[j].key != k,
    ensures
        lookup(s, k) is None,
    decreases s.len(),
{
    if s.len() > 0 {
        lemma_lookup_absent(s.drop_first(), k);
    }
}

/// The cache model after a whole run of insertions, applied oldest
/// first.
pub open spec fn insert_all(s: Seq<EntryV>, cap: nat, es: Seq<EntryV>) -> Seq<EntryV>
    decreases es.len(),
{
    if es.len() == 0 {
        s
    } else {
        insert_all(fifo_insert(s, cap, es[0].key, es[0].record), cap, es.drop_first())
    }
}

/// One insertion keeps the cache model well formed: keys stay distinct
/// and the entry count never passes the capacity.
pub proof fn lemma_fifo_insert_wf(s: Seq<EntryV>, cap: nat, k: Seq<char>, v: RecordV)
    requires
        distinct_keys(s),
        s.len() <= cap,
    ensures
        distinct_keys(fifo_insert(s, cap, k, v)),
        fifo_insert(s, cap, k, v).len() <= cap,
{
    if !has_key(s, k) {
        let t = s.push(EntryV { key: k, record: v });
        assert forall|i: int, j: int| 0 <= i < j < t.len() implies t[i].key != t[j].key by {
            if j < t.len() - 1 {
                assert(s[i].key != s[j].key);
            } else {
                assert(t[i].key == s[i].key);
            }
        }
        if t.len() > cap {
            assert forall|i: int, j: int| 0 <= i < j < t.drop_first().len() implies t.drop_first()[i].key
                != t.drop_first()[j].key by {
                assert(t[i + 1].key != t[j + 1].key);
            }
        }
    }
}

/// Capacity bound law: whatever run of insertions built the cache, the
/// model never holds more than the capacity allows, and a capacity of
/// zero retains nothing.
pub proof fn lemma_capacity_bound(s: Seq<EntryV>, cap: nat, es: Seq<EntryV>)
    requires
        distinct_keys(s),
        s.len() <= cap,
    ensures
        insert_all(s, cap, es).len() <= cap,
        distinct_keys(insert_all(s, cap, es)),
        cap == 0 ==> insert_all(s, cap, es).len() == 0,
    decreases es.len(),
{
    if es.len() > 0 {
        lemma_fifo_insert_wf(s, cap, es[0].key, es[0].record);
        lemma_capacity_bound(fifo_insert(s, cap, es[0].key, es[0].record), cap, es.drop_first());
    }
}

/// Cache bijection law: a key is found by the map lookup exactly when it
/// stands in the eviction-order key sequence, and it stands there at
/// exactly one position.
pub proof fn lemma_cache_bijection(c: BoundedCache)
    requires
        c.wf(),
    ensures
        forall|k: Seq<char>|
            #![trigger lookup(c@, k)]
            #![trigger entry_keys(c@).contains(k)]
            lookup(c@, k) is Some <==> entry_keys(c@).contains(k),
        forall|i: int, j: int|
            0 <= i < c@.len() && 0 <= j < c@.len() && c@[i].key == c@[j].key ==> i == j,
{
    assert forall|k: Seq<char>|
        #![trigger lookup(c@, k)]
        #![trigger entry_keys(c@).contains(k)]
        lookup(c@, k) is Some <==> entry_keys(c@).contains(k) by {
        lemma_lookup_some_iff_has_key(c@, k);
        if has_key(c@, k) {
            let i = choose|i: int| 0 <= i < c@.len() && c@[i].key == k;
            assert(entry_keys(c@)[i] == k);
        }
        if entry_keys(c@).contains(k) {
            let i = choose|i: int| 0 <= i < entry_keys(c@).len() && entry_keys(c@)[i] == k;
            assert(c@[i].key == k);
        }
    }
    assert forall|i: int, j: int|
        0 <= i < c@.len() && 0 <= j < c@.len() && c@[i].key == c@[j].key implies i == j by {
        if i < j {
            assert(c@[i].key != c@[j].key);
        } else if j < i {
            assert(c@[j].key != c@[i].key);
        }
    }
}

/// Appending one more insertion to a run performs it on the run's
/// result.
pub proof fn lemma_insert_all_push(s: Seq<EntryV>, cap: nat, es: Seq<EntryV>, e: EntryV)
    ensures
        insert_all(s, cap, es.push(e)) == fifo_insert(insert_all(s, cap, es), cap, e.key, e.record),
    decreases es.len(),
{
    if es.len() == 0 {
        assert(es.push(e)[0] == e);
        assert(es.push(e).drop_first() =~= Seq::<EntryV>::empty());
        let s1 = fifo_insert(s, cap, e.key, e.record);
        assert(insert_all(s, cap, es.push(e)) == insert_all(s1, cap, Seq::<EntryV>::empty()));
        assert(insert_all(s1, cap, Seq::<EntryV>::empty()) == s1);
        assert(insert_all(s, cap, es) == s);
    } else {
        let s1 = fifo_insert(s, cap, es[0].key, es[0].record);
        assert(es.push(e)[0] == es[0]);
        assert(es.push(e).drop_first() =~= es.drop_first().push(e));
        assert(insert_all(s, cap, es.push(e)) == insert_all(s1, cap, es.drop_first().push(e)));
        lemma_insert_all_push(s1, cap, es.drop_first(), e);
        assert(insert_all(s, cap, es) == insert_all(s1, cap, es.drop_first()));
    }
}

/// A run of insertions of fresh, distinct keys that stays within the
/// capacity evicts nothing: the entries line up behind the ones already
/// there, in insertion order.
pub proof fn lemma_insert_all_fills(s: Seq<EntryV>, cap: nat, es: Seq<EntryV>)
    requires
        distinct_keys(s),
        distinct_keys(es),
        forall|i: int| 0 <= i < es.len() ==> !has_key(s, #[trigger] es[i].key),
        s.len() + es.len() <= cap,
    ensures
        insert_all(s, cap, es) == s + es,
    decreases es.len(),
{
    if es.len() == 0 {
        assert(s + es =~= s);
    } else {
        let e = es[0];
        assert(!has_key(s, e.key));
        let t = s.push(e);
        assert(fifo_insert(s, cap, e.key, e.record) == t) by {
            assert(EntryV { key: e.key, record: e.record } == e);
        }
        assert forall|i: int, j: int| 0 <= i < j < t.len() implies t[i].key != t[j].key by {
            if j < t.len() - 1 {
                assert(s[i].key != s[j].key);
            } else {
                assert(t[i].key == s[i].key);
            }
        }
        assert forall|i: int| 0 <= i < es.drop_first().len() implies !has_key(
            t,
            #[trigger] es.drop_first()[i].key,
        ) by {
            let k = es.drop_first()[i].key;
            assert(es[i + 1].key == k);
            assert(es[0].key != es[i + 1].key);
            if has_key(t, k) {
                let w = choose|w: int| 0 <= w < t.len() && t[w].key == k;
                if w < t.len() - 1 {
                    assert(s[w].key == k);
                    assert(has_key(s, k));
                }
            }
        }
        lemma_insert_all_fills(t, cap, es.drop_first());
        assert(t + es.drop_first() =~= s + es);
    }
}

/// First-in-first-out eviction law: starting empty with capacity `cap`,
/// inserting `cap + 1` entries with distinct keys in order leaves
/// exactly the entries after the first, in order; the oldest is the one
/// evicted.
pub proof fn lemma_fifo_eviction(cap: nat, es: Seq<EntryV>)
    requires
        es.len() == cap + 1,
        distinct_keys(es),
    ensures
        insert_all(Seq::<EntryV>::empty(), cap, es) == es.drop_first(),
{
    let front = es.take(cap as int);
    let e = es[cap as int];
    assert(es =~= front.push(e));
    lemma_insert_all_push(Seq::<EntryV>::empty(), cap, front, e);
    assert forall|i: int| 0 <= i < front.len() implies !has_key(
        Seq::<EntryV>::empty(),
        #[trigger] front[i].key,
    ) by {}
    lemma_insert_all_fills(Seq::<EntryV>::empty(), cap, front);
    let filled = insert_all(Seq::<EntryV>::empty(), cap, front);
    assert(filled =~= front);
    assert(!has_key(front, e.key)) by {
        if has_key(front, e.key) {
            let w = choose|w: int| 0 <= w < front.len() && front[w].key == e.key;
            assert(es[w].key == es[cap as int].key);
        }
    }
    let t = front.push(EntryV { key: e.key, record: e.record });
    assert(t =~= es);
    assert(insert_all(Seq::<EntryV>::empty(), cap, es) == es.drop_first());
}

/// After inserting a fresh key into a cache with room for at least one
/// entry, that key is retrievable and yields the record just inserted.
pub proof fn lemma_fifo_insert_lookup(s: Seq<EntryV>, cap: nat, k: Seq<char>, v: RecordV)
    requires
        distinct_keys(s),
        s.len() <= cap,
        !has_key(s, k),
        cap >= 1,
    ensures
        lookup(fifo_insert(s, cap, k, v), k) == Some(v),
{
    let t = s.push(EntryV { key: k, record: v });
    assert forall|j: int| 0 <= j < t.len() - 1 implies t[j].key != k by {
        assert(t[j].key == s[j].key);
    }
    if t.len() > cap {
        let d = t.drop_first();
        assert(d[d.len() - 1] == t[t.len() - 1]);
        assert forall|j: int| 0 <= j < d.len() - 1 implies d[j].key != k by {
            assert(d[j].key == t[j + 1].key);
        }
        lemma_lookup_at_first_index(d, k, d.len() - 1);
    } else {
        lemma_lookup_at_first_index(t, k, t.len() - 1);
    }
}

/// A lookup finds a record exactly when some entry carries the key.
pub proof fn lemma_lookup_some_iff_has_key(s: Seq<EntryV>, k: Seq<char>)
    ensures
        lookup(s, k) is Some <==> has_key(s, k),
    decreases s.len(),
{
    if s.len() == 0 {
    } else if s[0].key == k {
        assert(has_key(s, k));
    } else {
        lemma_lookup_some_iff_has_key(s.drop_first(), k);
        if has_key(s.drop_first(), k) {
            let i = choose|i: int| 0 <= i < s.drop_first().len() && s.drop_first()[i].key == k;
            assert(s[i + 1].key == k);
        }
        if has_key(s, k) {
            let i = choose|i: int| 0 <= i < s.len() && s[i].key == k;
            assert(s.drop_first()[i - 1].key == k);
        }
    }
}

} // verus!
