//! The key-value store: a registry of named collections of cached byte
//! values, each either transient (in memory) or persistent (durable).
//!
//! The registry creates a collection at most once per name and never moves a
//! collection from one backend to the other. Opening a durable backend is
//! the caller's work: the registry says when one is needed and takes the
//! opened backend, or the failure to open it, as an argument.
pub mod disk;
pub mod entry;
pub mod memory;

use crate::assoc::AssocVec;
use crate::cache::{KeyValueCollection, Store};
use crate::store::entry::{expires_after, CacheEntryView};
use crate::store::memory::{bytes_view, live_value, MemoryCollection};
use vstd::prelude::*;
use vstd::string::StringExecFns;

verus! {

/// A collection of the store: transient, or persistent with a durable
/// backend of type `D`.
pub enum Collection<D> {
    Memory(MemoryCollection),
    Disk(D),
}

impl<D> Collection<D> {
    /// Whether the collection is a persistent one.
    pub open spec fn persistent(&self) -> bool {
        self is Disk
    }

    /// The representation invariant of the collection.
    pub open spec fn wf(&self) -> bool {
        match self {
            Collection::Memory(m) => m.wf(),
            Collection::Disk(_) => true,
        }
    }

    /// The stored entries of a transient collection.
    pub open spec fn memory_contents(&self) -> Option<Map<Seq<u8>, CacheEntryView>> {
        match self {
            Collection::Memory(m) => Some(m@),
            Collection::Disk(_) => None,
        }
    }

    /// Whether the collection is an empty transient one.
    pub open spec fn is_fresh_memory(&self) -> bool {
        match self {
            Collection::Memory(m) => m.wf() && m@ == Map::<Seq<u8>, CacheEntryView>::empty(),
            Collection::Disk(_) => false,
        }
    }

    /// Whether the collection is a persistent one.
    pub fn is_persistent(&self) -> (b: bool)
        ensures
            b == self.persistent(),
    {
        match self {
            Collection::Memory(_) => false,
            Collection::Disk(_) => true,
        }
    }
}

impl<D: KeyValueCollection> KeyValueCollection for Collection<D> {
    /// A transient collection is valid when it is well formed, a
    /// persistent one when its backend is.
    open spec fn valid(&self) -> bool {
        match self {
            Collection::Memory(m) => m.wf(),
            Collection::Disk(d) => d.valid(),
        }
    }

    /// Reads from whichever backend the collection has. A transient
    /// collection stays as it is and hands out what is live at the time of
    /// the read.
    fn get(&mut self, key: &[u8]) -> (r: Option<Vec<u8>>)
        ensures
            final(self).persistent() == old(self).persistent(),
            old(self).memory_contents() matches Some(before) ==> {
                &&& final(self).memory_contents() == Some(before)
                &&& exists|now: u64| bytes_view(r) == live_value(before, key@, now)
            },
    {
        match self {
            Collection::Memory(m) => m.get(key),
            Collection::Disk(d) => d.get(key),
        }
    }

    /// Writes to whichever backend the collection has. A transient
    /// collection gains the entry, to lapse `ttl_ms` milliseconds after the
    /// time of the write.
    fn put(&mut self, key: &[u8], value: &[u8], ttl_ms: Option<u64>)
        ensures
            final(self).persistent() == old(self).persistent(),
            old(self).memory_contents() matches Some(before) ==> exists|now: u64|
                final(self).memory_contents() == Some(
                    before.insert(
                        key@,
                        CacheEntryView { value: value@, expires_at: expires_after(ttl_ms, now) },
                    ),
                ),
    {
        match self {
            Collection::Memory(m) => m.put(key, value, ttl_ms),
            Collection::Disk(d) => d.put(key, value, ttl_ms),
        }
    }

    /// Removes from whichever backend the collection has.
    fn remove(&mut self, key: &[u8])
        ensures
            final(self).persistent() == old(self).persistent(),
            old(self).memory_contents() matches Some(before) ==> {
                final(self).memory_contents() == Some(before.remove(key@))
            },
    {
        match self {
            Collection::Memory(m) => m.remove(key),
            Collection::Disk(d) => d.remove(key),
        }
    }

    /// Clears whichever backend the collection has.
    fn clear(&mut self)
        ensures
            final(self).persistent() == old(self).persistent(),
            old(self).memory_contents().is_some() ==> {
                final(self).memory_contents() == Some(Map::<Seq<u8>, CacheEntryView>::empty())
            },
    {
        match self {
            Collection::Memory(m) => m.clear(),
            Collection::Disk(d) => d.clear(),
        }
    }
}

/// Whether a request for `name` makes the registry create a collection.
pub open spec fn creates<D>(
    before: Map<Seq<char>, Collection<D>>,
    name: Seq<char>,
    persist: bool,
    create_if_missing: bool,
    opened: Option<D>,
) -> bool {
    create_if_missing && !before.contains_key(name) && (!persist || opened.is_some())
}

/// Whether `after` is the registry that a request leaves behind, before the
/// caller has touched the collection handed out: an existing collection is
/// never replaced; a missing one is created only on request, a transient one
/// empty, a persistent one from the backend that was opened for it.
pub open spec fn registered<D>(
    before: Map<Seq<char>, Collection<D>>,
    after: Map<Seq<char>, Collection<D>>,
    name: Seq<char>,
    persist: bool,
    create_if_missing: bool,
    opened: Option<D>,
) -> bool {
    if creates(before, name, persist, create_if_missing, opened) {
        &&& after.contains_key(name)
        &&& after == before.insert(name, after[name])
        &&& if persist {
            after[name] == Collection::Disk(opened.unwrap())
        } else {
            after[name].is_fresh_memory()
        }
    } else {
        after == before
    }
}

/// A registry of named collections.
pub struct KeyValueStore<D> {
    collections: AssocVec<String, Collection<D>>,
}

impl<D> KeyValueStore<D> {
    /// The registered collections by name.
    pub closed spec fn view(&self) -> Map<Seq<char>, Collection<D>> {
        self.collections@
    }

    /// The registered names, in order of registration.
    pub closed spec fn names(&self) -> Seq<Seq<char>> {
        self.collections.spec_keys()
    }

    /// The representation invariant: no name is registered twice, and every
    /// registered collection is well formed.
    pub closed spec fn wf(&self) -> bool {
        &&& self.collections.wf()
        &&& forall|i: int|
            0 <= i < self.collections.spec_vals().len() ==> (
            #[trigger] self.collections.spec_vals()[i]).wf()
    }

    /// Every collection of a well-formed registry is well formed, and the
    /// registered names are the keys of the registry.
    pub proof fn lemma_wf(&self)
        requires
            self.wf(),
        ensures
            forall|n: Seq<char>| #[trigger] self@.contains_key(n) ==> self@[n].wf(),
            forall|n: Seq<char>| self@.contains_key(n) <==> self.names().contains(n),
            self.names().no_duplicates(),
    {
        self.collections.lemma_wf();
        let keys = self.collections.spec_keys();
        assert forall|n: Seq<char>| #[trigger] self@.contains_key(n) implies self@[n].wf() by {
            let i = keys.index_of(n);
            assert(0 <= i < keys.len() && keys[i] == n);
            assert(self.collections.spec_vals()[i].wf());
        }
    }

    /// An empty registry.
    pub fn new() -> (r: Self)
        ensures
            r.wf(),
            r@ == Map::<Seq<char>, Collection<D>>::empty(),
            r.names() == Seq::<Seq<char>>::empty(),
    {
        KeyValueStore { collections: AssocVec::new() }
    }

    /// Number of registered collections.
    pub fn len(&self) -> (n: usize)
        requires
            self.wf(),
        ensures
            n == self.names().len(),
    {
        self.collections.len()
    }

    /// Whether a collection is registered under `name`.
    pub fn contains(&self, name: &str) -> (b: bool)
        requires
            self.wf(),
        ensures
            b == self@.contains_key(name@),
    {
        let key = String::from_str(name);
        self.collections.position(&key).is_some()
    }

    /// Whether a collection is registered under `name` and is persistent;
    /// `None` when none is registered.
    pub fn kind_of(&self, name: &str) -> (r: Option<bool>)
        requires
            self.wf(),
        ensures
            r == if self@.contains_key(name@) {
                Some(self@[name@].persistent())
            } else {
                None
            },
    {
        let key = String::from_str(name);
        match self.collections.get(&key) {
            Some(c) => Some(c.is_persistent()),
            None => None,
        }
    }

    /// Whether a request with these arguments needs a durable backend to be
    /// opened for `name` first.
    pub fn needs_disk_open(&self, name: &str, persist: bool, create_if_missing: bool) -> (b: bool)
        requires
            self.wf(),
        ensures
            b == (persist && create_if_missing && !self@.contains_key(name@)),
    {
        persist && create_if_missing && !self.contains(name)
    }

    /// Creates the collection `name` if the request asks for it and it is
    /// missing. Returns whether the request can be served: it cannot when a
    /// persistent collection was to be created and no backend was opened.
    fn register(
        &mut self,
        name: &str,
        persist: bool,
        create_if_missing: bool,
        opened: Option<D>,
    ) -> (served: bool)
        requires
            old(self).wf(),
        ensures
            final(self).wf(),
            registered(old(self)@, final(self)@, name@, persist, create_if_missing, opened),
            served == !(persist && create_if_missing && !old(self)@.contains_key(name@)
                && opened.is_none()),
            creates(old(self)@, name@, persist, create_if_missing, opened) ==> final(self).names()
                == old(self).names().push(name@),
            !creates(old(self)@, name@, persist, create_if_missing, opened) ==> {
                final(self).names() == old(self).names()
            },
    {
        if !create_if_missing || self.contains(name) {
            return true;
        }
        let fresh = if persist {
            match opened {
                Some(backend) => Collection::Disk(backend),
                None => {
                    return false;
                },
            }
        } else {
            Collection::Memory(MemoryCollection::new())
        };
        let ghost before = self.collections.spec_vals();
        self.collections.insert(String::from_str(name), fresh);
        proof {
            assert(self.collections.spec_vals() == before.push(fresh));
            assert(self@[name@] == fresh);
        }
        true
    }

    /// Mutable access to the collection registered under `name`.
    pub fn collection_mut(&mut self, name: &str) -> (r: Option<&mut Collection<D>>)
        requires
            old(self).wf(),
        ensures
            match r {
                Some(c) => {
                    &&& old(self)@.contains_key(name@)
                    &&& *c == old(self)@[name@]
                    &&& c.wf()
                    &&& final(self)@ == old(self)@.insert(name@, *final(c))
                    &&& final(self).names() == old(self).names()
                    &&& final(c).wf() ==> final(self).wf()
                },
                None => {
                    &&& !old(self)@.contains_key(name@)
                    &&& *final(self) == *old(self)
                },
            },
    {
        let key = String::from_str(name);
        match self.collections.position(&key) {
            Some(i) => {
                proof {
                    self.collections.lemma_wf();
                    assert(self.collections.spec_vals()[i as int].wf());
                }
                Some(self.collections.value_mut(i))
            },
            None => None,
        }
    }

    /// Whether a request was served as it is owed: `handle` holds the
    /// collection as it was handed out and as the borrower left it, or is
    /// `None` when nothing was handed out; `after` is the registry once the
    /// borrower is done.
    ///
    /// A collection is handed out exactly when one was registered under the
    /// name or the request created one. It is of the kind asked for and
    /// well formed, and the registry holds under the name what the borrower
    /// leaves there. A collection that existed is handed out as it was; one
    /// that was created is empty if transient and made of the opened
    /// backend if persistent. Every other name keeps its collection. When
    /// nothing is handed out, the registry is unchanged.
    pub open spec fn served(
        before: Self,
        after: Self,
        name: Seq<char>,
        persist: bool,
        create_if_missing: bool,
        opened: Option<D>,
        handle: Option<(Collection<D>, Collection<D>)>,
    ) -> bool {
        &&& handle.is_some() == (before@.contains_key(name) || creates(
            before@,
            name,
            persist,
            create_if_missing,
            opened,
        ))
        &&& match handle {
            Some((handed, left)) => {
                &&& handed.persistent() == persist
                &&& handed.wf()
                &&& after@.contains_key(name)
                &&& after@[name] == left
                &&& left.wf() ==> after.wf()
                &&& creates(before@, name, persist, create_if_missing, opened) ==> {
                    &&& after@.remove(name) == before@
                    &&& if persist {
                        handed == Collection::Disk(opened.unwrap())
                    } else {
                        handed.is_fresh_memory()
                    }
                }
                &&& before@.contains_key(name) ==> {
                    &&& handed == before@[name]
                    &&& after@ == before@.insert(name, left)
                }
            },
            None => after.wf() && after@ == before@,
        }
    }

    /// The collection registered under `name`, created first if the request
    /// asks for it and it is missing.
    ///
    /// A transient collection is created empty. A persistent one is created
    /// from `opened`, the durable backend that the caller opened for this
    /// name; when that is `None` the request fails and nothing is
    /// registered. An existing collection must have been created with the
    /// same `persist` flag.
    pub fn get_collection(
        &mut self,
        name: &str,
        persist: bool,
        create_if_missing: bool,
        opened: Option<D>,
    ) -> (r: Option<&mut Collection<D>>)
        requires
            old(self).wf(),
            old(self)@.contains_key(name@) ==> old(self)@[name@].persistent() == persist,
        ensures
            Self::served(
                *old(self),
                *final(self),
                name@,
                persist,
                create_if_missing,
                opened,
                match r {
                    Some(c) => Some((*c, *final(c))),
                    None => None,
                },
            ),
    {
        if !self.register(name, persist, create_if_missing, opened) {
            return None;
        }
        let ghost mid = self@;
        match self.collection_mut(name) {
            Some(c) => {
                proof {
                    if creates(old(self)@, name@, persist, create_if_missing, opened) {
                        assert(mid == old(self)@.insert(name@, mid[name@]));
                        assert(mid.insert(name@, *final(c)).remove(name@) =~= old(self)@);
                    }
                }
                Some(c)
            },
            None => None,
        }
    }

    /// Removes the collection registered under `name`; says whether there
    /// was one.
    pub fn remove_collection(&mut self, name: &str) -> (existed: bool)
        requires
            old(self).wf(),
        ensures
            final(self).wf(),
            existed == old(self)@.contains_key(name@),
            final(self)@ == old(self)@.remove(name@),
    {
        let key = String::from_str(name);
        match self.collections.position(&key) {
            Some(i) => {
                let ghost before = self.collections.spec_vals();
                proof {
                    self.collections.lemma_wf();
                    before.remove_ensures(i as int);
                }
                let _ = self.collections.remove_at(i);
                proof {
                    assert forall|j: int|
                        0 <= j < self.collections.spec_vals().len() implies (
                    #[trigger] self.collections.spec_vals()[j]).wf() by {
                        let src = if j < i {
                            j
                        } else {
                            j + 1
                        };
                        assert(self.collections.spec_vals()[j] == before[src]);
                    }
                }
                true
            },
            None => {
                assert(self@.remove(name@) =~= self@);
                false
            },
        }
    }

    /// Drops every persistent collection from the registry and leaves the
    /// transient ones as they are.
    pub fn clear_persistent_cache(&mut self)
        requires
            old(self).wf(),
        ensures
            final(self).wf(),
            forall|n: Seq<char>|
                final(self)@.contains_key(n) <==> {
                    old(self)@.contains_key(n) && !old(self)@[n].persistent()
                },
            forall|n: Seq<char>| #[trigger]
                final(self)@.contains_key(n) ==> final(self)@[n] == old(self)@[n],
    {
        let mut i: usize = 0;
        while i < self.collections.len()
            invariant
                self.wf(),
                i <= self.collections.spec_keys().len(),
                forall|j: int|
                    0 <= j < i ==> !(#[trigger] self.collections.spec_vals()[j]).persistent(),
                forall|n: Seq<char>| #[trigger]
                    self@.contains_key(n) ==> {
                        old(self)@.contains_key(n) && self@[n] == old(self)@[n]
                    },
                forall|n: Seq<char>| #[trigger]
                    old(self)@.contains_key(n) && !old(self)@[n].persistent()
                        ==> self@.contains_key(n),
            decreases self.collections.spec_keys().len() - i,
        {
            if self.collections.value_at(i).is_persistent() {
                let ghost before = self.collections.spec_vals();
                let ghost dropped = self.collections.spec_keys()[i as int];
                let ghost mid = self@;
                proof {
                    self.collections.lemma_wf();
                    before.remove_ensures(i as int);
                    crate::assoc::lemma_index_of_unique(self.collections.spec_keys(), i as int);
                    assert(self@[dropped] == before[i as int]);
                }
                let _ = self.collections.remove_at(i);
                proof {
                    assert forall|j: int|
                        0 <= j < self.collections.spec_vals().len() implies (
                    #[trigger] self.collections.spec_vals()[j]).wf() && (j < i
                        ==> !self.collections.spec_vals()[j].persistent()) by {
                        let src = if j < i {
                            j
                        } else {
                            j + 1
                        };
                        assert(self.collections.spec_vals()[j] == before[src]);
                    }
                    assert(self@ == mid.remove(dropped));
                    assert forall|n: Seq<char>| self@.contains_key(n) implies {
                        old(self)@.contains_key(n) && self@[n] == old(self)@[n]
                    } by {
                        assert(mid.contains_key(n));
                    }
                    assert forall|n: Seq<char>|
                        old(self)@.contains_key(n) && !old(self)@[n].persistent()
                            implies self@.contains_key(n) by {
                        assert(mid.contains_key(n));
                        assert(n != dropped);
                    }
                }
            } else {
                i += 1;
            }
        }
        proof {
            self.collections.lemma_wf();
            let keys = self.collections.spec_keys();
            assert forall|n: Seq<char>| self@.contains_key(n) implies {
                !old(self)@[n].persistent()
            } by {
                let j = keys.index_of(n);
                assert(0 <= j < keys.len() && keys[j] == n);
                crate::assoc::lemma_index_of_unique(keys, j);
                assert(self@[n] == self.collections.spec_vals()[j]);
            }
        }
    }
}

impl<D> Default for KeyValueStore<D> {
    /// An empty registry.
    fn default() -> (r: Self)
        ensures
            r.wf(),
            r@ == Map::<Seq<char>, Collection<D>>::empty(),
    {
        KeyValueStore::new()
    }
}

impl<D> Store for KeyValueStore<D> {
    type Collection = Collection<D>;

    type Durable = D;

    open spec fn valid(&self) -> bool {
        self.wf()
    }

    open spec fn has(&self, name: Seq<char>) -> bool {
        self@.contains_key(name)
    }

    open spec fn is_durable(&self, name: Seq<char>) -> bool {
        self@[name].persistent()
    }

    fn get_collection(
        &mut self,
        name: &str,
        persist: bool,
        create_if_missing: bool,
        opened: Option<D>,
    ) -> (r: Option<&mut Collection<D>>)
        ensures
            Self::served(
                *old(self),
                *final(self),
                name@,
                persist,
                create_if_missing,
                opened,
                match r {
                    Some(c) => Some((*c, *final(c))),
                    None => None,
                },
            ),
    {
        KeyValueStore::get_collection(self, name, persist, create_if_missing, opened)
    }

    fn remove_collection(&mut self, name: &str) -> (existed: bool) {
        KeyValueStore::remove_collection(self, name)
    }
}

} // verus!
