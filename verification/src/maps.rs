//! Named kernel map handles and the process-id metadata map.

use vstd::prelude::*;
use core::marker::PhantomData;
use std::collections::HashMap;

verus! {

broadcast use vstd::std_specs::hash::group_hash_axioms;

/// A named handle for a kernel map with the given key and value types.
pub struct EbpfMap<K, V> {
    name: String,
    _key: PhantomData<K>,
    _value: PhantomData<V>,
}

impl<K, V> EbpfMap<K, V> {
    /// The handle's map name.
    pub closed spec fn name_view(&self) -> Seq<char> {
        self.name@
    }

    /// A handle for the map of the given name.
    pub fn new(name: String) -> (r: Self)
        ensures
            r.name_view() == name@,
    {
        EbpfMap { name, _key: PhantomData, _value: PhantomData }
    }

    /// The map's name.
    pub fn name(&self) -> (r: &str)
        ensures
            r@ == self.name_view(),
    {
        self.name.as_str()
    }
}

/// Metadata about the pod a process belongs to.
#[derive(Debug, Clone)]
pub struct PodMetadata {
    pub name: String,
    pub namespace: String,
    pub uid: String,
}

/// Pod metadata keyed by process id.
pub struct PodMetadataMap {
    inner: HashMap<u32, PodMetadata>,
}

impl PodMetadataMap {
    /// The stored entries.
    pub closed spec fn entries(&self) -> Map<u32, PodMetadata> {
        self.inner@
    }

    /// An empty map.
    pub fn new() -> (r: Self)
        ensures
            r.entries() == Map::<u32, PodMetadata>::empty(),
    {
        PodMetadataMap { inner: HashMap::new() }
    }

    /// Store metadata for a process id, replacing any prior entry.
    pub fn insert(&mut self, pid: u32, metadata: PodMetadata) -> (r: Result<
        (),
        crate::error::Orb8Error,
    >)
        ensures
            r is Ok,
            final(self).entries() == old(self).entries().insert(pid, metadata),
    {
        self.inner.insert(pid, metadata);
        Ok(())
    }

    /// The metadata stored for a process id.
    pub fn get(&self, pid: &u32) -> (r: Option<&PodMetadata>)
        ensures
            match r {
                Some(v) => self.entries().contains_key(*pid) && *v == self.entries()[*pid],
                None => !self.entries().contains_key(*pid),
            },
    {
        self.inner.get(pid)
    }

    /// Take the metadata for a process id out of the map.
    pub fn remove(&mut self, pid: &u32) -> (r: Option<PodMetadata>)
        ensures
            final(self).entries() == old(self).entries().remove(*pid),
            match r {
                Some(v) => old(self).entries().contains_key(*pid) && v == old(
                    self,
                ).entries().index(*pid),
                None => !old(self).entries().contains_key(*pid),
            },
    {
        self.inner.remove(pid)
    }
}

} // verus!
