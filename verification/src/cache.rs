//! The interfaces of the cache layer: a store of named collections, and a
//! collection of byte values with optional expiry.
use vstd::prelude::*;

verus! {

/// A store of named collections.
pub trait Store {
    /// A collection as the store hands it out.
    type Collection;

    /// A durable backend, opened by the caller for one collection name.
    type Durable;

    /// The representation invariant of the implementing type.
    spec fn valid(&self) -> bool;

    /// Whether a collection is registered under `name`.
    spec fn has(&self, name: Seq<char>) -> bool;

    /// Whether the collection registered under `name` is a persistent one.
    spec fn is_durable(&self, name: Seq<char>) -> bool;

    /// The collection registered under `name`, created first when
    /// `create_if_missing` is set and there is none. `opened` is the durable
    /// backend to create a persistent collection from. `None` is returned
    /// when there is no such collection and none was created. A collection
    /// that exists must have been created with the same `persist` flag.
    fn get_collection(
        &mut self,
        name: &str,
        persist: bool,
        create_if_missing: bool,
        opened: Option<Self::Durable>,
    ) -> (r: Option<&mut Self::Collection>)
        requires
            old(self).valid(),
            old(self).has(name@) ==> old(self).is_durable(name@) == persist,
    ;

    /// Removes the collection registered under `name`; says whether there
    /// was one.
    fn remove_collection(&mut self, name: &str) -> (existed: bool)
        requires
            old(self).valid(),
        ensures
            final(self).valid(),
            existed == old(self).has(name@),
            !final(self).has(name@),
    ;
}

/// A cache with key-based access and optional time-to-live per entry.
///
/// Implementations read the clock themselves; time-to-live is given in
/// milliseconds, and `None` means the entry never expires.
pub trait KeyValueCollection {
    /// The representation invariant of the implementing type. Every method
    /// expects it and keeps it; nothing else is promised at this level. A
    /// type without an invariant leaves it as it is.
    open spec fn valid(&self) -> bool {
        true
    }

    /// The value stored under `key`, if present and not expired.
    fn get(&mut self, key: &[u8]) -> (r: Option<Vec<u8>>)
        requires
            old(self).valid(),
        ensures
            final(self).valid(),
    ;

    /// Stores `value` under `key`.
    fn put(&mut self, key: &[u8], value: &[u8], ttl_ms: Option<u64>)
        requires
            old(self).valid(),
        ensures
            final(self).valid(),
    ;

    /// Removes the entry stored under `key`.
    fn remove(&mut self, key: &[u8])
        requires
            old(self).valid(),
        ensures
            final(self).valid(),
    ;

    /// Removes every entry.
    fn clear(&mut self)
        requires
            old(self).valid(),
        ensures
            final(self).valid(),
    ;
}

} // verus!
