//! The pure side of the provider adapters: request addresses, cache keys
//! and lifetimes, and the making of price results from what a provider
//! sent. Sending the requests is the caller's work.
pub mod amfi;
pub mod yahoo;

use crate::assoc::bytes_to_vec;
use vstd::prelude::*;
use vstd::string::StringSliceAdditionalSpecFns;

verus! {

/// The key under which the answer for an identifier is cached: the bytes
/// of the identifier.
pub fn cache_key(identifier: &str) -> (key: Vec<u8>)
    ensures
        key@ == identifier.spec_bytes(),
{
    bytes_to_vec(identifier.as_bytes())
}

} // verus!
