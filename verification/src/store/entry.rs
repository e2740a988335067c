//! A cached value with its optional expiry, and its stored byte form.
//!
//! The stored form is one tag byte, then for an expiring entry the expiry
//! time as eight little-endian bytes, then the value bytes.
use vstd::bytes::*;
use vstd::prelude::*;
use vstd::slice::slice_subrange;

verus! {

/// Tag byte of an entry that never expires.
pub const TAG_FOREVER: u8 = 0;

/// Tag byte of an entry that carries an expiry time.
pub const TAG_EXPIRING: u8 = 1;

/// A cached value together with the time at which it lapses, in
/// milliseconds since the Unix epoch.
#[derive(Debug)]
pub struct CacheEntry {
    pub value: Vec<u8>,
    pub expires_at: Option<u64>,
}

/// The mathematical content of a `CacheEntry`.
pub struct CacheEntryView {
    pub value: Seq<u8>,
    pub expires_at: Option<u64>,
}

impl View for CacheEntry {
    type V = CacheEntryView;

    open spec fn view(&self) -> CacheEntryView {
        CacheEntryView { value: self.value@, expires_at: self.expires_at }
    }
}

/// The expiry time of an entry written at `now` with the given time-to-live.
/// A time that would lie beyond the representable range is held at the
/// largest representable time.
pub open spec fn expires_after(ttl_ms: Option<u64>, now: u64) -> Option<u64> {
    match ttl_ms {
        Some(ttl) => Some(
            if now + ttl > u64::MAX {
                u64::MAX
            } else {
                (now + ttl) as u64
            },
        ),
        None => None,
    }
}

/// Whether an entry with the given expiry has lapsed at time `now`: it has
/// once `now` is strictly later than the expiry time.
pub open spec fn is_expired(expires_at: Option<u64>, now: u64) -> bool {
    match expires_at {
        Some(at) => at < now,
        None => false,
    }
}

/// Whether an entry written at `written` with the given time-to-live is
/// still live at `read`: it is until the time-to-live has run out, and for
/// ever without one.
pub open spec fn stays_live(ttl_ms: Option<u64>, written: u64, read: u64) -> bool {
    match ttl_ms {
        Some(ttl) => read <= written + ttl,
        None => true,
    }
}

/// An entry lapses exactly when it no longer stays live.
pub proof fn lemma_expiry_is_end_of_life(ttl_ms: Option<u64>, written: u64, read: u64)
    ensures
        is_expired(expires_after(ttl_ms, written), read) == !stays_live(ttl_ms, written, read),
{
}

/// The stored byte form of an entry.
pub open spec fn encode_spec(e: CacheEntryView) -> Seq<u8> {
    match e.expires_at {
        Some(at) => seq![TAG_EXPIRING] + spec_u64_to_le_bytes(at) + e.value,
        None => seq![TAG_FOREVER] + e.value,
    }
}

/// The entry that a stored byte form stands for, if it is well formed.
pub open spec fn decode_spec(bytes: Seq<u8>) -> Option<CacheEntryView> {
    if bytes.len() >= 1 && bytes[0] == TAG_FOREVER {
        Some(CacheEntryView { value: bytes.subrange(1, bytes.len() as int), expires_at: None })
    } else if bytes.len() >= 9 && bytes[0] == TAG_EXPIRING {
        Some(
            CacheEntryView {
                value: bytes.subrange(9, bytes.len() as int),
                expires_at: Some(spec_u64_from_le_bytes(bytes.subrange(1, 9))),
            },
        )
    } else {
        None
    }
}

/// Decoding the stored form of an entry gives the entry back.
pub proof fn lemma_decode_encode(e: CacheEntryView)
    ensures
        decode_spec(encode_spec(e)) == Some(e),
{
    lemma_auto_spec_u64_to_from_le_bytes();
    let bytes = encode_spec(e);
    match e.expires_at {
        Some(at) => {
            assert(spec_u64_to_le_bytes(at).len() == 8);
            assert(bytes[0] == TAG_EXPIRING);
            assert(bytes.subrange(1, 9) =~= spec_u64_to_le_bytes(at));
            assert(bytes.subrange(9, bytes.len() as int) =~= e.value);
        },
        None => {
            assert(bytes[0] == TAG_FOREVER);
            assert(bytes.subrange(1, bytes.len() as int) =~= e.value);
        },
    }
}

/// Computes the expiry time of an entry written at `now`.
pub fn expiry_for(ttl_ms: Option<u64>, now: u64) -> (r: Option<u64>)
    ensures
        r == expires_after(ttl_ms, now),
{
    match ttl_ms {
        Some(ttl) => Some(now.saturating_add(ttl)),
        None => None,
    }
}

/// Appends every byte of `src` to `dst`.
pub fn append_bytes(dst: &mut Vec<u8>, src: &[u8])
    ensures
        final(dst)@ == old(dst)@ + src@,
{
    let ghost before = dst@;
    let mut i: usize = 0;
    while i < src.len()
        invariant
            i <= src.len(),
            dst@ == before + src@.subrange(0, i as int),
        decreases src.len() - i,
    {
        dst.push(src[i]);
        assert(before + src@.subrange(0, i + 1) =~= (before + src@.subrange(0, i as int)).push(
            src@[i as int],
        ));
        i += 1;
    }
    assert(src@.subrange(0, src.len() as int) =~= src@);
}

impl CacheEntry {
    /// Whether the entry has lapsed at time `now`.
    pub fn expired_at(&self, now: u64) -> (b: bool)
        ensures
            b == is_expired(self.expires_at, now),
    {
        match self.expires_at {
            Some(at) => at < now,
            None => false,
        }
    }

    /// The stored byte form of the entry.
    pub fn encode(&self) -> (out: Vec<u8>)
        ensures
            out@ == encode_spec(self@),
    {
        let mut out: Vec<u8> = Vec::new();
        match self.expires_at {
            Some(at) => {
                out.push(TAG_EXPIRING);
                let stamp = u64_to_le_bytes(at);
                append_bytes(&mut out, stamp.as_slice());
            },
            None => {
                out.push(TAG_FOREVER);
            },
        }
        append_bytes(&mut out, self.value.as_slice());
        assert(out@ =~= encode_spec(self@));
        out
    }

    /// Reads an entry back from its stored byte form; `None` when the bytes
    /// are not a stored entry.
    pub fn decode(bytes: &[u8]) -> (r: Option<CacheEntry>)
        ensures
            match r {
                Some(e) => decode_spec(bytes@) == Some(e@),
                None => decode_spec(bytes@).is_none(),
            },
    {
        let n = bytes.len();
        if n >= 1 && bytes[0] == TAG_FOREVER {
            let value = crate::assoc::bytes_to_vec(slice_subrange(bytes, 1, n));
            Some(CacheEntry { value, expires_at: None })
        } else if n >= 9 && bytes[0] == TAG_EXPIRING {
            let at = u64_from_le_bytes(slice_subrange(bytes, 1, 9));
            let value = crate::assoc::bytes_to_vec(slice_subrange(bytes, 9, n));
            Some(CacheEntry { value, expires_at: Some(at) })
        } else {
            None
        }
    }
}

} // verus!
