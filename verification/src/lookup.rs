//! The lookup coordinator: cache first, store second.
//!
//! One lookup runs through these states: the cache is checked; a hit
//! returns a copy of the cached record and ends the call without
//! touching the store; a miss has the caller fetch from the store once
//! and hand the outcome back, upon which a found record populates the
//! cache and is returned, while a not-found answer and a store failure
//! are mapped to the caller-facing error and leave the cache untouched.
//!
//! The store fetch itself suspends on network input and output, so it is
//! driven from outside this crate: [`ItemServer::get_item_cached`] is
//! the first half of a lookup, and [`ItemServer::on_store_result`] is
//! the second half, run only when the first half came back empty.

use vstd::prelude::*;

use crate::cache::BoundedCache;
use crate::cache::EntryV;
use crate::cache::distinct_keys;
use crate::cache::fifo_insert;
use crate::cache::has_key;
use crate::cache::lemma_fifo_insert_lookup;
use crate::cache::lemma_lookup_some_iff_has_key;
use crate::cache::lookup;
use crate::record::Record;
use crate::record::RecordV;
use crate::store::StoreError;

verus! {

/// What a lookup reports when it cannot return a record: the store
/// confirmed that no record exists for the identifier, or the store
/// itself failed and the cause is carried along for logging, not for
/// the remote caller.
#[derive(Clone, Copy, Debug, PartialEq, Eq, Structural)]
pub enum LookupError {
    NotFound,
    Upstream(StoreError),
}

/// The lookup coordinator: a bounded record cache keyed by identifier,
/// shared by every lookup the service runs. Access is serialized through
/// one owner — a hit borrows the coordinator, cache population borrows
/// it exclusively — so overlapping lookups can never observe or produce
/// a half-updated cache. Two lookups that miss on the same identifier at
/// once may both fetch from the store; the duplicate insertion that
/// follows is a no-op, so redundant fetches cost time but never
/// correctness.
pub struct ItemServer {
    cache: BoundedCache,
}

impl View for ItemServer {
    type V = Seq<EntryV>;

    closed spec fn view(&self) -> Seq<EntryV> {
        self.cache@
    }
}

impl ItemServer {
    /// The capacity of the record cache, fixed at construction.
    pub closed spec fn capacity(self) -> usize {
        self.cache.capacity()
    }

    /// Well-formedness: the cache keys are distinct and the capacity
    /// bound holds.
    pub open spec fn wf(self) -> bool {
        &&& distinct_keys(self@)
        &&& self@.len() <= self.capacity()
    }

    /// Whether a lookup for `ident` has to consult the store: exactly
    /// when no cache entry carries the identifier.
    pub open spec fn needs_store_fetch(self, ident: Seq<char>) -> bool {
        !has_key(self@, ident)
    }

    /// A coordinator with an empty cache of the given capacity.
    pub fn new(capacity: usize) -> (s: ItemServer)
        ensures
            s.wf(),
            s.capacity() == capacity,
            s@ == Seq::<EntryV>::empty(),
    {
        ItemServer { cache: BoundedCache::new(capacity) }
    }

    /// The first half of a lookup: a copy of the cached record if the
    /// identifier is cached, and nothing otherwise. A hit bypasses the
    /// store and has no side effect; a miss obliges the caller to fetch
    /// from the store once and hand the outcome to
    /// [`ItemServer::on_store_result`].
    pub fn get_item_cached(&self, ident: &String) -> (r: Option<Record>)
        ensures
            match r {
                Some(rec) => lookup(self@, ident@) == Some(rec@),
                None => lookup(self@, ident@) is None,
            },
            r is None <==> self.needs_store_fetch(ident@),
    {
        self.cache.get(ident)
    }

    /// The second half of a lookup that missed the cache, given what the
    /// one store fetch came back with. A found record is inserted into
    /// the cache and returned; a not-found answer maps to
    /// [`LookupError::NotFound`] and a store failure to
    /// [`LookupError::Upstream`], and neither touches the cache.
    pub fn on_store_result(&mut self, ident: String, fetched: Result<Option<Record>, StoreError>) -> (r:
        Result<Record, LookupError>)
        requires
            old(self).wf(),
        ensures
            final(self).wf(),
            final(self).capacity() == old(self).capacity(),
            match fetched {
                Ok(Some(rec)) => (r matches Ok(out) && out == rec && final(self)@ == fifo_insert(
                    old(self)@,
                    old(self).capacity() as nat,
                    ident@,
                    rec@,
                )),
                Ok(None) => r == Err::<Record, LookupError>(LookupError::NotFound) && final(self)@
                    == old(self)@,
                Err(e) => r == Err::<Record, LookupError>(LookupError::Upstream(e))
                    && final(self)@ == old(self)@,
            },
    {
        match fetched {
            Ok(Some(rec)) => {
                let out = rec.clone();
                self.cache.insert(ident, rec);
                Ok(out)
            },
            Ok(None) => Err(LookupError::NotFound),
            Err(e) => Err(LookupError::Upstream(e)),
        }
    }
}

/// Cache hit bypasses store law: once a lookup for an identifier yields
/// a cached record, no store fetch is needed for it; and because the hit
/// path never changes the cache ([`ItemServer::get_item_cached`] only
/// borrows the coordinator), repeated lookups for that identifier keep
/// hitting until the entry is evicted.
pub proof fn lemma_cache_hit_bypasses_store(s: ItemServer, ident: Seq<char>)
    requires
        lookup(s@, ident) is Some,
    ensures
        !s.needs_store_fetch(ident),
{
    lemma_lookup_some_iff_has_key(s@, ident);
}

/// Miss-then-found populates the cache law: when a lookup had to
/// consult the store and the store found the record, the cache the
/// coordinator is left with — [`ItemServer::on_store_result`] ensures it
/// is exactly `fifo_insert` of the old one — serves the identifier from
/// then on, so the next lookup needs no store fetch. This holds for
/// every capacity of at least one; a capacity of zero retains nothing
/// by design.
pub proof fn lemma_miss_then_found_populates(s: ItemServer, ident: Seq<char>, v: RecordV)
    requires
        s.wf(),
        s.needs_store_fetch(ident),
        s.capacity() >= 1,
    ensures
        lookup(fifo_insert(s@, s.capacity() as nat, ident, v), ident) == Some(v),
        has_key(fifo_insert(s@, s.capacity() as nat, ident, v), ident),
{
    lemma_fifo_insert_lookup(s@, s.capacity() as nat, ident, v);
    lemma_lookup_some_iff_has_key(fifo_insert(s@, s.capacity() as nat, ident, v), ident);
}

} // verus!
