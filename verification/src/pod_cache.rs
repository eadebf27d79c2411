//! Pod metadata cache: concurrent maps from cgroup id and from pod IP to
//! pod metadata, kept eventually consistent with the orchestrator.
//!
//! The maps are dashmap's concurrent hash maps; each call into dashmap goes
//! through a trusted wrapper whose contract speaks of `pod_entries`, the
//! map's contents as a mathematical `Map`.

use vstd::prelude::*;
use vstd::string::StringExecFns;
use crate::common::NetworkFlowEvent;
use crate::decimal::{dec_rep, u64_to_dec};

verus! {

/// Metadata about an orchestrator pod container.
#[derive(Debug, Clone)]
pub struct PodMetadata {
    pub namespace: String,
    pub pod_name: String,
    pub pod_uid: String,
    pub container_name: String,
    pub container_id: String,
}

/// The mathematical image of `PodMetadata`: each field as its character
/// sequence.
pub ghost struct PodMetadataV {
    pub namespace: Seq<char>,
    pub pod_name: Seq<char>,
    pub pod_uid: Seq<char>,
    pub container_name: Seq<char>,
    pub container_id: Seq<char>,
}

impl View for PodMetadata {
    type V = PodMetadataV;

    open spec fn view(&self) -> PodMetadataV {
        PodMetadataV {
            namespace: self.namespace@,
            pod_name: self.pod_name@,
            pod_uid: self.pod_uid@,
            container_name: self.container_name@,
            container_id: self.container_id@,
        }
    }
}

/// dashmap's concurrent hash map, the backing store of the cache and of
/// the flow table.
#[verifier::external_type_specification]
#[verifier::external_body]
#[verifier::reject_recursive_types(K)]
#[verifier::reject_recursive_types(V)]
#[verifier::reject_recursive_types(S)]
pub struct ExDashMap<K, V, S>(dashmap::DashMap<K, V, S>);

/// The contents of a metadata map: each stored key mapped to the image of
/// its stored value.
pub uninterp spec fn pod_entries(m: dashmap::DashMap<u64, PodMetadata>) -> Map<u64, PodMetadataV>;

/// The empty metadata-map contents.
pub open spec fn no_pod_entries() -> Map<u64, PodMetadataV> {
    Map::empty()
}

/// Relies on dashmap::DashMap::new: a fresh map holds no entries.
#[verifier::external_body]
fn pod_map_new() -> (r: dashmap::DashMap<u64, PodMetadata>)
    ensures
        pod_entries(r) == no_pod_entries(),
{
    dashmap::DashMap::new()
}

/// Relies on dashmap::DashMap::insert: stores the value under the key,
/// replacing any prior value for that key and touching no other entry.
#[verifier::external_body]
fn pod_map_insert(m: &mut dashmap::DashMap<u64, PodMetadata>, k: u64, v: PodMetadata)
    ensures
        pod_entries(*final(m)) == pod_entries(*old(m)).insert(k, v@),
{
    m.insert(k, v);
}

/// Relies on dashmap::DashMap::get: returns a clone of the value stored
/// under the key, or nothing when the key is absent.
#[verifier::external_body]
fn pod_map_get(m: &dashmap::DashMap<u64, PodMetadata>, k: u64) -> (r: Option<PodMetadata>)
    ensures
        match r {
            Some(v) => pod_entries(*m).contains_key(k) && v@ == pod_entries(*m)[k],
            None => !pod_entries(*m).contains_key(k),
        },
{
    m.get(&k).map(|e| e.value().clone())
}

/// Relies on dashmap::DashMap::remove: takes the entry for the key out of
/// the map and returns its value, touching no other entry.
#[verifier::external_body]
fn pod_map_remove(m: &mut dashmap::DashMap<u64, PodMetadata>, k: u64) -> (r: Option<PodMetadata>)
    ensures
        pod_entries(*final(m)) == pod_entries(*old(m)).remove(k),
        match r {
            Some(v) => pod_entries(*old(m)).contains_key(k) && v@ == pod_entries(*old(m))[k],
            None => !pod_entries(*old(m)).contains_key(k),
        },
{
    m.remove(&k).map(|(_, v)| v)
}

/// True when the entry's pod UID differs from the given UID; the retain
/// wrapper below hands this predicate to dashmap.
fn keeps_uid(v: &PodMetadata, uid: &String) -> (r: bool)
    ensures
        r == (v@.pod_uid != uid@),
{
    !(v.pod_uid == *uid)
}

/// Relies on dashmap::DashMap::retain: keeps exactly the entries on which
/// the predicate returns true, and keeps them unchanged; the predicate
/// here is `keeps_uid`.
#[verifier::external_body]
fn pod_map_retain_uid_ne(m: &mut dashmap::DashMap<u64, PodMetadata>, uid: &String)
    ensures
        forall|k: u64|
            pod_entries(*final(m)).contains_key(k) <==> (pod_entries(*old(m)).contains_key(k)
                && pod_entries(*old(m))[k].pod_uid != uid@),
        forall|k: u64|
            pod_entries(*final(m)).contains_key(k) ==> pod_entries(*final(m))[k] == pod_entries(
                *old(m),
            )[k],
{
    m.retain(|_, v| keeps_uid(v, uid));
}

/// Relies on dashmap::DashMap::clear: removes every entry.
#[verifier::external_body]
fn pod_map_clear(m: &mut dashmap::DashMap<u64, PodMetadata>)
    ensures
        pod_entries(*final(m)) == no_pod_entries(),
{
    m.clear();
}

/// Relies on dashmap::DashMap::len: the number of entries in the map.
#[verifier::external_body]
fn pod_map_len(m: &dashmap::DashMap<u64, PodMetadata>) -> (r: usize)
    ensures
        r == pod_entries(*m).len(),
{
    m.len()
}

/// Relies on dashmap::DashMap::iter: yields each entry exactly once, in an
/// unspecified order; values come out as clones.
#[verifier::external_body]
fn pod_map_pairs(m: &dashmap::DashMap<u64, PodMetadata>) -> (r: Vec<(u64, PodMetadata)>)
    ensures
        forall|i: int|
            0 <= i < r@.len() ==> pod_entries(*m).contains_key(#[trigger] r@[i].0) && r@[i].1@
                == pod_entries(*m)[r@[i].0],
        forall|k: u64|
            pod_entries(*m).contains_key(k) ==> exists|i: int|
                0 <= i < r@.len() && #[trigger] r@[i].0 == k,
        forall|i: int, j: int| 0 <= i < j < r@.len() ==> r@[i].0 != r@[j].0,
{
    m.iter().map(|e| (*e.key(), e.value().clone())).collect()
}

/// Cache of pod metadata under two independent keys: container cgroup
/// inode, and pod IPv4 address (first octet in the least-significant
/// byte, widened to 64 bits).
pub struct PodCache {
    by_cgroup: dashmap::DashMap<u64, PodMetadata>,
    by_ip: dashmap::DashMap<u64, PodMetadata>,
}

impl PodCache {
    /// The entries keyed by cgroup id.
    pub closed spec fn cgroup_view(&self) -> Map<u64, PodMetadataV> {
        pod_entries(self.by_cgroup)
    }

    /// The entries keyed by pod IP.
    pub closed spec fn ip_view(&self) -> Map<u64, PodMetadataV> {
        pod_entries(self.by_ip)
    }

    /// Both maps have finitely many entries.
    pub closed spec fn wf(&self) -> bool {
        self.cgroup_view().dom().finite() && self.ip_view().dom().finite()
    }

    /// Create a new empty pod cache.
    pub fn new() -> (r: Self)
        ensures
            r.wf(),
            r.cgroup_view() == Map::<u64, PodMetadataV>::empty(),
            r.ip_view() == Map::<u64, PodMetadataV>::empty(),
    {
        PodCache { by_cgroup: pod_map_new(), by_ip: pod_map_new() }
    }

    /// Insert or update the mapping from a cgroup id, overwriting any
    /// prior value.
    pub fn insert(&mut self, cgroup_id: u64, metadata: PodMetadata)
        requires
            old(self).wf(),
        ensures
            final(self).wf(),
            final(self).cgroup_view() == old(self).cgroup_view().insert(cgroup_id, metadata@),
            final(self).ip_view() == old(self).ip_view(),
    {
        pod_map_insert(&mut self.by_cgroup, cgroup_id, metadata);
    }

    /// Insert or update the mapping from a pod IP, overwriting any prior
    /// value.
    pub fn insert_by_ip(&mut self, pod_ip: u32, metadata: PodMetadata)
        requires
            old(self).wf(),
        ensures
            final(self).wf(),
            final(self).ip_view() == old(self).ip_view().insert(pod_ip as u64, metadata@),
            final(self).cgroup_view() == old(self).cgroup_view(),
    {
        pod_map_insert(&mut self.by_ip, pod_ip as u64, metadata);
    }

    /// Look up pod metadata by cgroup id; returns a cloned snapshot.
    pub fn get(&self, cgroup_id: u64) -> (r: Option<PodMetadata>)
        ensures
            match r {
                Some(v) => self.cgroup_view().contains_key(cgroup_id) && v@
                    == self.cgroup_view().index(cgroup_id),
                None => !self.cgroup_view().contains_key(cgroup_id),
            },
    {
        pod_map_get(&self.by_cgroup, cgroup_id)
    }

    /// Look up pod metadata by pod IP; returns a cloned snapshot.
    pub fn get_by_ip(&self, pod_ip: u32) -> (r: Option<PodMetadata>)
        ensures
            match r {
                Some(v) => self.ip_view().contains_key(pod_ip as u64) && v@
                    == self.ip_view().index(pod_ip as u64),
                None => !self.ip_view().contains_key(pod_ip as u64),
            },
    {
        pod_map_get(&self.by_ip, pod_ip as u64)
    }

    /// Remove the mapping for a cgroup id, returning the removed value.
    pub fn remove(&mut self, cgroup_id: u64) -> (r: Option<PodMetadata>)
        requires
            old(self).wf(),
        ensures
            final(self).wf(),
            final(self).cgroup_view() == old(self).cgroup_view().remove(cgroup_id),
            final(self).ip_view() == old(self).ip_view(),
            match r {
                Some(v) => old(self).cgroup_view().contains_key(cgroup_id) && v@ == old(
                    self,
                ).cgroup_view()[cgroup_id],
                None => !old(self).cgroup_view().contains_key(cgroup_id),
            },
    {
        pod_map_remove(&mut self.by_cgroup, cgroup_id)
    }

    /// Remove every entry, in either map, whose metadata carries the given
    /// pod UID. Afterwards no cached entry carries that UID, and every
    /// entry with a different UID is untouched.
    pub fn remove_pod(&mut self, pod_uid: &str)
        requires
            old(self).wf(),
        ensures
            final(self).wf(),
            forall|k: u64|
                final(self).cgroup_view().contains_key(k) <==> (old(
                    self,
                ).cgroup_view().contains_key(k) && old(self).cgroup_view()[k].pod_uid != pod_uid@),
            forall|k: u64|
                final(self).cgroup_view().contains_key(k) ==> final(self).cgroup_view()[k] == old(
                    self,
                ).cgroup_view()[k],
            forall|k: u64|
                final(self).ip_view().contains_key(k) <==> (old(self).ip_view().contains_key(k)
                    && old(self).ip_view()[k].pod_uid != pod_uid@),
            forall|k: u64|
                final(self).ip_view().contains_key(k) ==> final(self).ip_view()[k] == old(
                    self,
                ).ip_view()[k],
    {
        let uid = String::from_str(pod_uid);
        pod_map_retain_uid_ne(&mut self.by_cgroup, &uid);
        pod_map_retain_uid_ne(&mut self.by_ip, &uid);
        proof {
            vstd::set_lib::lemma_len_subset(
                self.cgroup_view().dom(),
                old(self).cgroup_view().dom(),
            );
            vstd::set_lib::lemma_len_subset(self.ip_view().dom(), old(self).ip_view().dom());
        }
    }

    /// The number of entries keyed by cgroup id.
    pub fn len(&self) -> (r: usize)
        ensures
            r == self.cgroup_view().len(),
    {
        pod_map_len(&self.by_cgroup)
    }

    /// Whether the cache holds no entry keyed by cgroup id.
    pub fn is_empty(&self) -> (r: bool)
        requires
            self.wf(),
        ensures
            r == (self.cgroup_view().len() == 0),
    {
        self.len() == 0
    }

    /// All entries keyed by cgroup id, each exactly once, in an
    /// unspecified order.
    pub fn entries(&self) -> (r: Vec<(u64, PodMetadata)>)
        ensures
            forall|i: int|
                0 <= i < r@.len() ==> self.cgroup_view().contains_key(#[trigger] r@[i].0)
                    && r@[i].1@ == self.cgroup_view()[r@[i].0],
            forall|k: u64|
                self.cgroup_view().contains_key(k) ==> exists|i: int|
                    0 <= i < r@.len() && #[trigger] r@[i].0 == k,
            forall|i: int, j: int| 0 <= i < j < r@.len() ==> r@[i].0 != r@[j].0,
    {
        pod_map_pairs(&self.by_cgroup)
    }

    /// Remove every entry from both maps.
    pub fn clear(&mut self)
        ensures
            final(self).wf(),
            final(self).cgroup_view() == no_pod_entries(),
            final(self).ip_view() == no_pod_entries(),
    {
        pod_map_clear(&mut self.by_cgroup);
        pod_map_clear(&mut self.by_ip);
    }
}

/// Event enriched with the pod metadata it was attributed to.
#[derive(Debug, Clone)]
pub struct EnrichedEvent {
    pub timestamp_ns: u64,
    pub namespace: String,
    pub pod_name: String,
    pub container_name: String,
    pub src_ip: u32,
    pub dst_ip: u32,
    pub src_port: u16,
    pub dst_port: u16,
    pub protocol: u8,
    pub direction: u8,
    pub packet_len: u16,
}

impl EnrichedEvent {
    /// Create an enriched event from a raw flow event and, when the cache
    /// had one, its pod metadata. Without metadata the event is labelled
    /// namespace "unknown" and pod "cgroup-<id>".
    pub fn from_flow(event: &NetworkFlowEvent, metadata: Option<&PodMetadata>) -> (r: Self)
        ensures
            r.timestamp_ns == event.timestamp_ns,
            r.src_ip == event.src_ip,
            r.dst_ip == event.dst_ip,
            r.src_port == event.src_port,
            r.dst_port == event.dst_port,
            r.protocol == event.protocol,
            r.direction == event.direction,
            r.packet_len == event.packet_len,
            match metadata {
                Some(m) => r.namespace@ == m.namespace@ && r.pod_name@ == m.pod_name@
                    && r.container_name@ == m.container_name@,
                None => r.namespace@ == "unknown"@ && r.pod_name@ == "cgroup-"@ + dec_rep(
                    event.cgroup_id as nat,
                ) && r.container_name@ == "unknown"@,
            },
    {
        let (namespace, pod_name, container_name) = match metadata {
            Some(m) => (m.namespace.clone(), m.pod_name.clone(), m.container_name.clone()),
            None => {
                let mut pod_label = String::from_str("cgroup-");
                let id_dec = u64_to_dec(event.cgroup_id);
                pod_label.append(id_dec.as_str());
                (String::from_str("unknown"), pod_label, String::from_str("unknown"))
            },
        };
        EnrichedEvent {
            timestamp_ns: event.timestamp_ns,
            namespace,
            pod_name,
            container_name,
            src_ip: event.src_ip,
            dst_ip: event.dst_ip,
            src_port: event.src_port,
            dst_port: event.dst_port,
            protocol: event.protocol,
            direction: event.direction,
            packet_len: event.packet_len,
        }
    }
}

} // verus!
