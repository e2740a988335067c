//! The durable backend's record logic: how a value is wrapped before it is
//! written, and what a read makes of the bytes it finds.
//!
//! The physical store itself is owned by the caller; this module decides.
use crate::assoc::bytes_to_vec;
use crate::store::entry::{
    decode_spec, encode_spec, expires_after, expiry_for, is_expired, lemma_decode_encode,
    stays_live, CacheEntry, CacheEntryView,
};
use crate::store::memory::bytes_view;
use vstd::prelude::*;

verus! {

/// The outcome of reading one key of the durable backend.
#[derive(Debug)]
pub struct DiskRead {
    /// The value to hand to the reader, if the record is live.
    pub value: Option<Vec<u8>>,
    /// Whether the physical record has lapsed and is to be deleted.
    pub remove: bool,
}

/// The record written for `value` at time `now` with the given time-to-live.
pub open spec fn record_spec(value: Seq<u8>, ttl_ms: Option<u64>, now: u64) -> Seq<u8> {
    encode_spec(CacheEntryView { value, expires_at: expires_after(ttl_ms, now) })
}

/// What a reader gets at time `now` from the bytes found under a key.
pub open spec fn read_value_spec(stored: Option<Seq<u8>>, now: u64) -> Option<Seq<u8>> {
    match stored {
        Some(bytes) => match decode_spec(bytes) {
            Some(e) => if is_expired(e.expires_at, now) {
                None
            } else {
                Some(e.value)
            },
            None => None,
        },
        None => None,
    }
}

/// Whether the bytes found under a key are a lapsed record, which a read
/// deletes.
pub open spec fn read_removes_spec(stored: Option<Seq<u8>>, now: u64) -> bool {
    match stored {
        Some(bytes) => match decode_spec(bytes) {
            Some(e) => is_expired(e.expires_at, now),
            None => false,
        },
        None => false,
    }
}

/// The view of an optional byte slice.
pub open spec fn slice_view(stored: Option<&[u8]>) -> Option<Seq<u8>> {
    match stored {
        Some(bytes) => Some(bytes@),
        None => None,
    }
}

/// Wraps `value` with its expiry for the physical write.
pub fn write_record(value: &[u8], ttl_ms: Option<u64>, now: u64) -> (out: Vec<u8>)
    ensures
        out@ == record_spec(value@, ttl_ms, now),
        forall|later: u64| #[trigger]
            read_value_spec(Some(out@), later) == if stays_live(ttl_ms, now, later) {
                Some(value@)
            } else {
                None
            },
        forall|later: u64| #[trigger]
            read_removes_spec(Some(out@), later) == !stays_live(ttl_ms, now, later),
{
    let entry = CacheEntry { value: bytes_to_vec(value), expires_at: expiry_for(ttl_ms, now) };
    let out = entry.encode();
    proof {
        assert forall|later: u64| #[trigger]
            read_value_spec(Some(out@), later) == if stays_live(ttl_ms, now, later) {
                Some(value@)
            } else {
                None
            } by {
            lemma_write_then_read(value@, ttl_ms, now, later);
        }
        assert forall|later: u64| #[trigger]
            read_removes_spec(Some(out@), later) == !stays_live(ttl_ms, now, later) by {
            lemma_write_then_read(value@, ttl_ms, now, later);
        }
    }
    out
}

/// Decides a read at time `now` from what the physical store holds under the
/// key: a missing or unreadable record is a miss, a lapsed record is a miss
/// and is to be deleted, a live record yields its value.
pub fn read_record(stored: Option<&[u8]>, now: u64) -> (r: DiskRead)
    ensures
        bytes_view(r.value) == read_value_spec(slice_view(stored), now),
        r.remove == read_removes_spec(slice_view(stored), now),
{
    match stored {
        Some(bytes) => match CacheEntry::decode(bytes) {
            Some(entry) => {
                if entry.expired_at(now) {
                    DiskRead { value: None, remove: true }
                } else {
                    DiskRead { value: Some(entry.value), remove: false }
                }
            },
            None => DiskRead { value: None, remove: false },
        },
        None => DiskRead { value: None, remove: false },
    }
}

/// A record that was written is read back until its time-to-live has run
/// out, and is deleted by the first read after that.
pub proof fn lemma_write_then_read(value: Seq<u8>, ttl_ms: Option<u64>, now: u64, later: u64)
    ensures
        ({
            let stored = Some(record_spec(value, ttl_ms, now));
            let live = stays_live(ttl_ms, now, later);
            &&& read_value_spec(stored, now) == Some(value)
            &&& read_value_spec(stored, later) == if live {
                Some(value)
            } else {
                None
            }
            &&& read_removes_spec(stored, later) == !live
        }),
{
    lemma_decode_encode(CacheEntryView { value, expires_at: expires_after(ttl_ms, now) });
}

} // verus!
