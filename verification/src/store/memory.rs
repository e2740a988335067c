//! The transient backend: an in-memory collection of cached values.
use crate::assoc::{bytes_to_vec, AssocVec};
use crate::cache::KeyValueCollection;
use crate::clock::unix_millis;
use crate::store::entry::{
    expires_after, expiry_for, is_expired, stays_live, CacheEntry, CacheEntryView,
};
use vstd::prelude::*;

verus! {

/// What a read at time `now` finds under `key`: the stored value, unless
/// there is none or it has lapsed.
pub open spec fn live_value(
    contents: Map<Seq<u8>, CacheEntryView>,
    key: Seq<u8>,
    now: u64,
) -> Option<Seq<u8>> {
    if contents.contains_key(key) && !is_expired(contents[key].expires_at, now) {
        Some(contents[key].value)
    } else {
        None
    }
}

/// The view of an optional byte vector.
pub open spec fn bytes_view(r: Option<Vec<u8>>) -> Option<Seq<u8>> {
    match r {
        Some(v) => Some(v@),
        None => None,
    }
}

/// An in-memory cache of byte values keyed by byte strings. Entries lapse
/// lazily: a lapsed entry stays stored until it is overwritten or removed,
/// but is never handed out.
pub struct MemoryCollection {
    entries: AssocVec<Vec<u8>, CacheEntry>,
}

impl MemoryCollection {
    /// The representation invariant: no key is stored twice.
    pub closed spec fn wf(&self) -> bool {
        self.entries.wf()
    }

    /// The stored entries, lapsed ones included.
    pub closed spec fn view(&self) -> Map<Seq<u8>, CacheEntryView> {
        self.entries@.map_values(|e: CacheEntry| e@)
    }

    /// An empty collection.
    pub fn new() -> (r: Self)
        ensures
            r.wf(),
            r@ == Map::<Seq<u8>, CacheEntryView>::empty(),
    {
        let r = MemoryCollection { entries: AssocVec::new() };
        assert(r@ =~= Map::<Seq<u8>, CacheEntryView>::empty());
        r
    }

    /// The value stored under `key` as seen at time `now`.
    pub fn get_at(&self, key: &[u8], now: u64) -> (r: Option<Vec<u8>>)
        requires
            self.wf(),
        ensures
            bytes_view(r) == live_value(self@, key@, now),
    {
        let owned = bytes_to_vec(key);
        match self.entries.get(&owned) {
            Some(entry) => {
                if entry.expired_at(now) {
                    None
                } else {
                    Some(bytes_to_vec(entry.value.as_slice()))
                }
            },
            None => None,
        }
    }

    /// Stores `value` under `key` at time `now`, to lapse after `ttl_ms`
    /// milliseconds, or never when `ttl_ms` is `None`.
    pub fn put_at(&mut self, key: &[u8], value: &[u8], ttl_ms: Option<u64>, now: u64)
        requires
            old(self).wf(),
        ensures
            final(self).wf(),
            final(self)@ == old(self)@.insert(
                key@,
                CacheEntryView { value: value@, expires_at: expires_after(ttl_ms, now) },
            ),
            forall|later: u64| #[trigger]
                live_value(final(self)@, key@, later) == if stays_live(ttl_ms, now, later) {
                    Some(value@)
                } else {
                    None
                },
    {
        let entry = CacheEntry { value: bytes_to_vec(value), expires_at: expiry_for(ttl_ms, now) };
        let ghost before = self.entries@;
        self.entries.insert(bytes_to_vec(key), entry);
        assert(before.insert(key@, entry).map_values(|e: CacheEntry| e@) =~= before.map_values(
            |e: CacheEntry| e@,
        ).insert(key@, entry@));
    }

    /// Number of stored entries, lapsed ones included.
    pub fn stored_len(&self) -> (n: usize)
        requires
            self.wf(),
        ensures
            n == self@.dom().len(),
    {
        proof {
            self.entries.lemma_len_is_domain_size();
            assert(self@.dom() =~= self.entries@.dom());
        }
        self.entries.len()
    }
}

impl Default for MemoryCollection {
    /// An empty collection.
    fn default() -> (r: Self)
        ensures
            r.wf(),
            r@ == Map::<Seq<u8>, CacheEntryView>::empty(),
    {
        MemoryCollection::new()
    }
}

impl KeyValueCollection for MemoryCollection {
    open spec fn valid(&self) -> bool {
        self.wf()
    }

    /// Reads the clock and returns what is live under `key` at that time.
    fn get(&mut self, key: &[u8]) -> (r: Option<Vec<u8>>)
        ensures
            final(self)@ == old(self)@,
            exists|now: u64| bytes_view(r) == live_value(old(self)@, key@, now),
    {
        let now = unix_millis();
        self.get_at(key, now)
    }

    /// Reads the clock and stores `value` under `key`, to lapse `ttl_ms`
    /// milliseconds after that time.
    fn put(&mut self, key: &[u8], value: &[u8], ttl_ms: Option<u64>)
        ensures
            exists|now: u64|
                final(self)@ == old(self)@.insert(
                    key@,
                    CacheEntryView { value: value@, expires_at: expires_after(ttl_ms, now) },
                ),
    {
        let now = unix_millis();
        self.put_at(key, value, ttl_ms, now);
    }

    fn remove(&mut self, key: &[u8])
        ensures
            final(self)@ == old(self)@.remove(key@),
    {
        let owned = bytes_to_vec(key);
        let ghost before = self.entries@;
        let _ = self.entries.remove(&owned);
        assert(before.remove(key@).map_values(|e: CacheEntry| e@) =~= before.map_values(
            |e: CacheEntry| e@,
        ).remove(key@));
    }

    fn clear(&mut self)
        ensures
            final(self)@ == Map::<Seq<u8>, CacheEntryView>::empty(),
    {
        self.entries.clear();
        assert(self@ =~= Map::<Seq<u8>, CacheEntryView>::empty());
    }
}

/// A value that was put is read back until its time-to-live has run out, and
/// not after: a read at `later` finds it exactly when `later` is no more than
/// `ttl_ms` past the time of the write, or when it was put without a
/// time-to-live.
pub proof fn lemma_put_then_get(
    contents: Map<Seq<u8>, CacheEntryView>,
    key: Seq<u8>,
    value: Seq<u8>,
    ttl_ms: Option<u64>,
    now: u64,
    later: u64,
)
    ensures
        ({
            let after = contents.insert(
                key,
                CacheEntryView { value, expires_at: expires_after(ttl_ms, now) },
            );
            &&& live_value(after, key, now) == Some(value)
            &&& live_value(after, key, later) == if stays_live(ttl_ms, now, later) {
                Some(value)
            } else {
                None
            }
        }),
{
}

} // verus!
