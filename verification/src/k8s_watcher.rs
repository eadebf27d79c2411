//! Pod watcher logic: how orchestrator pod lifecycle events drive the
//! pod cache.
//!
//! The watch loop itself lives with the caller (it suspends on a network
//! stream); everything it decides is here: how one pod event changes the
//! cache, how a full list resynchronizes it after a reconnect, and how
//! the reconnect backoff grows.

use vstd::prelude::*;
use crate::cgroup::{resolve_spec, CgroupResolver, CgroupTree};
use crate::pod_cache::{PodCache, PodMetadata, PodMetadataV};

verus! {

/// The first reconnect delay, in seconds.
pub const INITIAL_BACKOFF_SECS: u64 = 1;

/// The largest reconnect delay, in seconds.
pub const MAX_BACKOFF_SECS: u64 = 30;

/// The delay after one more failure: doubled, capped at the maximum.
pub fn next_backoff_secs(current: u64) -> (r: u64)
    ensures
        r == if current * 2 <= MAX_BACKOFF_SECS {
            (current * 2) as u64
        } else {
            MAX_BACKOFF_SECS as u64
        },
{
    if current <= MAX_BACKOFF_SECS / 2 {
        current * 2
    } else {
        MAX_BACKOFF_SECS
    }
}

/// How one round of watching the pod stream ended.
pub enum WatchOutcome {
    /// The stream ended cleanly; reconnect at once and start the backoff
    /// over.
    Ended,
    /// The watch failed; sleep out the current backoff and double it.
    Failed,
}

/// What the watch loop does before reconnecting: how long to sleep and
/// the backoff to carry forward. A full resync follows either way, since
/// reconnection is the only path that can lose events.
pub fn reconnect_plan(backoff_secs: u64, outcome: &WatchOutcome) -> (r: (u64, u64))
    ensures
        match *outcome {
            WatchOutcome::Ended => r.0 == 0 && r.1 == INITIAL_BACKOFF_SECS,
            WatchOutcome::Failed => r.0 == backoff_secs && r.1 == (if backoff_secs * 2
                <= MAX_BACKOFF_SECS {
                (backoff_secs * 2) as u64
            } else {
                MAX_BACKOFF_SECS as u64
            }),
        },
{
    match outcome {
        WatchOutcome::Ended => (0, INITIAL_BACKOFF_SECS),
        WatchOutcome::Failed => (backoff_secs, next_backoff_secs(backoff_secs)),
    }
}

/// One container of a pod, as the orchestrator reports it: its name and,
/// once the runtime has started it, its container id.
pub struct ContainerInfo {
    pub name: String,
    pub container_id: Option<String>,
}

/// The mathematical image of a `ContainerInfo`.
pub ghost struct ContainerInfoV {
    pub name: Seq<char>,
    pub container_id: Option<Seq<char>>,
}

impl View for ContainerInfo {
    type V = ContainerInfoV;

    open spec fn view(&self) -> ContainerInfoV {
        ContainerInfoV {
            name: self.name@,
            container_id: match self.container_id {
                Some(ref id) => Some(id@),
                None => None,
            },
        }
    }
}

/// A pod's identity as the watcher needs it: names, UID, the pod IP when
/// assigned (first octet in the least-significant byte), and the
/// containers.
pub struct PodUpdate {
    pub namespace: String,
    pub pod_name: String,
    pub pod_uid: String,
    pub pod_ip: Option<u32>,
    pub containers: Vec<ContainerInfo>,
}

/// The metadata stored for one of the pod's containers.
pub open spec fn container_meta(pod: &PodUpdate, c: ContainerInfoV, cid: Seq<char>) -> PodMetadataV {
    PodMetadataV {
        namespace: pod.namespace@,
        pod_name: pod.pod_name@,
        pod_uid: pod.pod_uid@,
        container_name: c.name,
        container_id: cid,
    }
}

/// The metadata stored under the pod's IP: the pod's names without
/// container detail.
pub open spec fn ip_meta(pod: &PodUpdate) -> PodMetadataV {
    PodMetadataV {
        namespace: pod.namespace@,
        pod_name: pod.pod_name@,
        pod_uid: pod.pod_uid@,
        container_name: Seq::empty(),
        container_id: Seq::empty(),
    }
}

/// The cgroup map after the pod's first `n` containers are applied: each
/// container with an id whose cgroup resolves gains an entry.
pub open spec fn containers_applied(
    m: Map<u64, PodMetadataV>,
    pod: &PodUpdate,
    root: Seq<char>,
    entries: Seq<(String, u64)>,
    n: int,
) -> Map<u64, PodMetadataV>
    decreases n,
        when 0 <= n <= pod.containers@.len()
{
    if n == 0 {
        m
    } else {
        let prev = containers_applied(m, pod, root, entries, n - 1);
        let c = pod.containers@[n - 1]@;
        match c.container_id {
            None => prev,
            Some(cid) => match resolve_spec(root, pod.pod_uid@, cid, entries) {
                None => prev,
                Some(g) => prev.insert(g, container_meta(pod, c, cid)),
            },
        }
    }
}

/// The IP map after a pod is applied: one entry under its IP, when it
/// has one.
pub open spec fn ip_applied(m: Map<u64, PodMetadataV>, pod: &PodUpdate) -> Map<u64, PodMetadataV> {
    match pod.pod_ip {
        Some(ip) => m.insert(ip as u64, ip_meta(pod)),
        None => m,
    }
}

/// A map with every entry carrying the given pod UID taken out.
pub open spec fn uid_removed(m: Map<u64, PodMetadataV>, uid: Seq<char>) -> Map<u64, PodMetadataV> {
    Map::new(|k: u64| m.contains_key(k) && m[k].pod_uid != uid, |k: u64| m[k])
}

/// Apply a pod to the cache: resolve each of its containers to a cgroup
/// inode and store the metadata there, and store the pod under its IP
/// when it has one. A pod without a UID is ignored.
pub fn handle_pod_apply(
    cache: &mut PodCache,
    pod: &PodUpdate,
    resolver: &CgroupResolver,
    tree: &CgroupTree,
)
    requires
        old(cache).wf(),
    ensures
        final(cache).wf(),
        pod.pod_uid@.len() == 0 ==> final(cache).cgroup_view() == old(cache).cgroup_view()
            && final(cache).ip_view() == old(cache).ip_view(),
        pod.pod_uid@.len() > 0 ==> final(cache).cgroup_view() == containers_applied(
            old(cache).cgroup_view(),
            pod,
            resolver.root(),
            tree.entries@,
            pod.containers@.len() as int,
        ),
        pod.pod_uid@.len() > 0 ==> final(cache).ip_view() == ip_applied(
            old(cache).ip_view(),
            pod,
        ),
{
    if pod.pod_uid.as_str().unicode_len() == 0 {
        return ;
    }
    let mut i: usize = 0;
    while i < pod.containers.len()
        invariant
            cache.wf(),
            0 <= i <= pod.containers@.len(),
            cache.cgroup_view() == containers_applied(
                old(cache).cgroup_view(),
                pod,
                resolver.root(),
                tree.entries@,
                i as int,
            ),
            cache.ip_view() == old(cache).ip_view(),
        decreases pod.containers@.len() - i,
    {
        if let Some(ref cid) = pod.containers[i].container_id {
            if let Some(cgroup_id) = resolver.resolve(pod.pod_uid.as_str(), cid.as_str(), tree) {
                let metadata = PodMetadata {
                    namespace: pod.namespace.clone(),
                    pod_name: pod.pod_name.clone(),
                    pod_uid: pod.pod_uid.clone(),
                    container_name: pod.containers[i].name.clone(),
                    container_id: cid.clone(),
                };
                cache.insert(cgroup_id, metadata);
            }
        }
        i += 1;
    }
    if let Some(ip) = pod.pod_ip {
        let metadata = PodMetadata {
            namespace: pod.namespace.clone(),
            pod_name: pod.pod_name.clone(),
            pod_uid: pod.pod_uid.clone(),
            container_name: String::new(),
            container_id: String::new(),
        };
        cache.insert_by_ip(ip, metadata);
    }
}

/// Remove a deleted pod from the cache: every entry under either key
/// whose metadata carries its UID goes away. A pod without a UID is
/// ignored.
pub fn handle_pod_delete(cache: &mut PodCache, pod: &PodUpdate)
    requires
        old(cache).wf(),
    ensures
        final(cache).wf(),
        pod.pod_uid@.len() == 0 ==> final(cache).cgroup_view() == old(cache).cgroup_view()
            && final(cache).ip_view() == old(cache).ip_view(),
        pod.pod_uid@.len() > 0 ==> final(cache).cgroup_view() == uid_removed(
            old(cache).cgroup_view(),
            pod.pod_uid@,
        ),
        pod.pod_uid@.len() > 0 ==> final(cache).ip_view() == uid_removed(
            old(cache).ip_view(),
            pod.pod_uid@,
        ),
{
    if pod.pod_uid.as_str().unicode_len() == 0 {
        return ;
    }
    cache.remove_pod(pod.pod_uid.as_str());
    proof {
        assert(cache.cgroup_view() =~= uid_removed(old(cache).cgroup_view(), pod.pod_uid@));
        assert(cache.ip_view() =~= uid_removed(old(cache).ip_view(), pod.pod_uid@));
    }
}

/// One event of the orchestrator's pod watch stream.
pub enum PodWatchEvent {
    /// The stream (re)started.
    Init,
    /// A pod reported during the initial listing.
    InitApply(PodUpdate),
    /// A pod created or updated.
    Apply(PodUpdate),
    /// A pod deleted.
    Delete(PodUpdate),
    /// The initial listing is complete.
    InitDone,
}

/// Whether the new cache views are the old ones with the pod applied.
pub open spec fn applied_views(
    old_cg: Map<u64, PodMetadataV>,
    old_ip: Map<u64, PodMetadataV>,
    new_cg: Map<u64, PodMetadataV>,
    new_ip: Map<u64, PodMetadataV>,
    pod: &PodUpdate,
    root: Seq<char>,
    entries: Seq<(String, u64)>,
) -> bool {
    if pod.pod_uid@.len() == 0 {
        new_cg == old_cg && new_ip == old_ip
    } else {
        new_cg == containers_applied(old_cg, pod, root, entries, pod.containers@.len() as int)
            && new_ip == ip_applied(old_ip, pod)
    }
}

/// Whether the new cache views are the old ones with the pod's UID
/// removed.
pub open spec fn deleted_views(
    old_cg: Map<u64, PodMetadataV>,
    old_ip: Map<u64, PodMetadataV>,
    new_cg: Map<u64, PodMetadataV>,
    new_ip: Map<u64, PodMetadataV>,
    pod: &PodUpdate,
) -> bool {
    if pod.pod_uid@.len() == 0 {
        new_cg == old_cg && new_ip == old_ip
    } else {
        new_cg == uid_removed(old_cg, pod.pod_uid@) && new_ip == uid_removed(old_ip, pod.pod_uid@)
    }
}

/// Apply one watch event to the cache. `Apply` and `InitApply` act the
/// same way; `Init` and `InitDone` change nothing.
pub fn handle_watch_event(
    cache: &mut PodCache,
    event: &PodWatchEvent,
    resolver: &CgroupResolver,
    tree: &CgroupTree,
)
    requires
        old(cache).wf(),
    ensures
        final(cache).wf(),
        match *event {
            PodWatchEvent::Apply(ref pod) => applied_views(
                old(cache).cgroup_view(),
                old(cache).ip_view(),
                final(cache).cgroup_view(),
                final(cache).ip_view(),
                pod,
                resolver.root(),
                tree.entries@,
            ),
            PodWatchEvent::InitApply(ref pod) => applied_views(
                old(cache).cgroup_view(),
                old(cache).ip_view(),
                final(cache).cgroup_view(),
                final(cache).ip_view(),
                pod,
                resolver.root(),
                tree.entries@,
            ),
            PodWatchEvent::Delete(ref pod) => deleted_views(
                old(cache).cgroup_view(),
                old(cache).ip_view(),
                final(cache).cgroup_view(),
                final(cache).ip_view(),
                pod,
            ),
            PodWatchEvent::Init | PodWatchEvent::InitDone => final(cache).cgroup_view() == old(
                cache,
            ).cgroup_view() && final(cache).ip_view() == old(cache).ip_view(),
        },
{
    match event {
        PodWatchEvent::Apply(pod) => handle_pod_apply(cache, pod, resolver, tree),
        PodWatchEvent::InitApply(pod) => handle_pod_apply(cache, pod, resolver, tree),
        PodWatchEvent::Delete(pod) => handle_pod_delete(cache, pod),
        PodWatchEvent::Init => (),
        PodWatchEvent::InitDone => (),
    }
}

/// The cgroup map after a full pod list is applied to an empty cache.
pub open spec fn resync_cgroup_view(
    pods: Seq<PodUpdate>,
    root: Seq<char>,
    entries: Seq<(String, u64)>,
) -> Map<u64, PodMetadataV>
    decreases pods.len(),
{
    if pods.len() == 0 {
        Map::empty()
    } else {
        let prev = resync_cgroup_view(pods.drop_last(), root, entries);
        let pod = pods.last();
        if pod.pod_uid@.len() == 0 {
            prev
        } else {
            containers_applied(prev, &pod, root, entries, pod.containers@.len() as int)
        }
    }
}

/// The IP map after a full pod list is applied to an empty cache.
pub open spec fn resync_ip_view(pods: Seq<PodUpdate>) -> Map<u64, PodMetadataV>
    decreases pods.len(),
{
    if pods.len() == 0 {
        Map::empty()
    } else {
        let prev = resync_ip_view(pods.drop_last());
        let pod = pods.last();
        if pod.pod_uid@.len() == 0 {
            prev
        } else {
            ip_applied(prev, &pod)
        }
    }
}

/// Rebuild the cache from a full pod list, as after a reconnect: the
/// cache is cleared and the listed pods applied in order, so afterwards
/// it reflects exactly that list.
pub fn resync_all(
    cache: &mut PodCache,
    pods: &Vec<PodUpdate>,
    resolver: &CgroupResolver,
    tree: &CgroupTree,
)
    requires
        old(cache).wf(),
    ensures
        final(cache).wf(),
        final(cache).cgroup_view() == resync_cgroup_view(pods@, resolver.root(), tree.entries@),
        final(cache).ip_view() == resync_ip_view(pods@),
{
    cache.clear();
    let mut i: usize = 0;
    while i < pods.len()
        invariant
            cache.wf(),
            0 <= i <= pods@.len(),
            cache.cgroup_view() == resync_cgroup_view(
                pods@.subrange(0, i as int),
                resolver.root(),
                tree.entries@,
            ),
            cache.ip_view() == resync_ip_view(pods@.subrange(0, i as int)),
        decreases pods@.len() - i,
    {
        proof {
            assert(pods@.subrange(0, i + 1).drop_last() =~= pods@.subrange(0, i as int));
            assert(pods@.subrange(0, i + 1).last() == pods@[i as int]);
        }
        handle_pod_apply(cache, &pods[i], resolver, tree);
        i += 1;
    }
    proof {
        assert(pods@.subrange(0, pods@.len() as int) =~= pods@);
    }
}

/// Applying a pod's containers only adds entries carrying that pod's
/// UID; everything else stays as it was.
proof fn lemma_containers_applied_uids(
    m: Map<u64, PodMetadataV>,
    pod: &PodUpdate,
    root: Seq<char>,
    entries: Seq<(String, u64)>,
    n: int,
)
    requires
        0 <= n <= pod.containers@.len(),
    ensures
        forall|k: u64|
            #![trigger containers_applied(m, pod, root, entries, n).contains_key(k)]
            containers_applied(m, pod, root, entries, n).contains_key(k) ==> (containers_applied(
                m,
                pod,
                root,
                entries,
                n,
            )[k].pod_uid == pod.pod_uid@ || (m.contains_key(k) && containers_applied(
                m,
                pod,
                root,
                entries,
                n,
            )[k] == m[k])),
    decreases n,
{
    if n > 0 {
        lemma_containers_applied_uids(m, pod, root, entries, n - 1);
        let prev = containers_applied(m, pod, root, entries, n - 1);
        let cur = containers_applied(m, pod, root, entries, n);
        assert forall|k: u64| cur.contains_key(k) implies (cur[k].pod_uid == pod.pod_uid@ || (
        m.contains_key(k) && cur[k] == m[k])) by {
            assert(prev.contains_key(k) ==> (prev[k].pod_uid == pod.pod_uid@ || (m.contains_key(k)
                && prev[k] == m[k])));
        }
    }
}

/// Law: resynchronisation converges. After a resync from a full pod
/// list, no cached entry carries the UID of a pod absent from that list
/// — in particular, a pod deleted during a disconnect is gone.
pub proof fn lemma_resync_no_stale_uid(
    pods: Seq<PodUpdate>,
    root: Seq<char>,
    entries: Seq<(String, u64)>,
    uid: Seq<char>,
)
    requires
        forall|i: int| 0 <= i < pods.len() ==> (#[trigger] pods[i].pod_uid)@ != uid,
    ensures
        forall|k: u64|
            resync_cgroup_view(pods, root, entries).contains_key(k) ==> resync_cgroup_view(
                pods,
                root,
                entries,
            )[k].pod_uid != uid,
        forall|k: u64|
            resync_ip_view(pods).contains_key(k) ==> resync_ip_view(pods)[k].pod_uid != uid,
    decreases pods.len(),
{
    if pods.len() > 0 {
        assert(forall|i: int| 0 <= i < pods.len() - 1 ==> pods.drop_last()[i] == pods[i]);
        lemma_resync_no_stale_uid(pods.drop_last(), root, entries, uid);
        let pod = pods.last();
        assert(pods[pods.len() - 1].pod_uid@ != uid);
        let prev_cg = resync_cgroup_view(pods.drop_last(), root, entries);
        let cur_cg = resync_cgroup_view(pods, root, entries);
        let prev_ip = resync_ip_view(pods.drop_last());
        let cur_ip = resync_ip_view(pods);
        if pod.pod_uid@.len() > 0 {
            lemma_containers_applied_uids(
                prev_cg,
                &pod,
                root,
                entries,
                pod.containers@.len() as int,
            );
            assert(cur_cg == containers_applied(
                prev_cg,
                &pod,
                root,
                entries,
                pod.containers@.len() as int,
            ));
            assert forall|k: u64| cur_cg.contains_key(k) implies cur_cg[k].pod_uid != uid by {
                assert(prev_cg.contains_key(k) ==> prev_cg[k].pod_uid != uid);
                assert(cur_cg[k].pod_uid == pod.pod_uid@ || (prev_cg.contains_key(k) && cur_cg[k]
                    == prev_cg[k]));
            }
            assert forall|k: u64| cur_ip.contains_key(k) implies cur_ip[k].pod_uid != uid by {
                assert(prev_ip.contains_key(k) ==> prev_ip[k].pod_uid != uid);
            }
        } else {
            assert(cur_cg == prev_cg);
            assert(cur_ip == prev_ip);
            assert forall|k: u64| cur_cg.contains_key(k) implies cur_cg[k].pod_uid != uid by {
                assert(prev_cg.contains_key(k) ==> prev_cg[k].pod_uid != uid);
            }
            assert forall|k: u64| cur_ip.contains_key(k) implies cur_ip[k].pod_uid != uid by {
                assert(prev_ip.contains_key(k) ==> prev_ip[k].pod_uid != uid);
            }
        }
    }
}

} // verus!
