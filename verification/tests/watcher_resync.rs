use orb8::cgroup::{CgroupResolver, CgroupTree};
use orb8::k8s_watcher::{
    handle_pod_apply, handle_pod_delete, handle_watch_event, next_backoff_secs, reconnect_plan,
    resync_all, ContainerInfo, PodUpdate, PodWatchEvent, WatchOutcome,
};
use orb8::pod_cache::PodCache;

fn pod(ns: &str, name: &str, uid: &str, ip: Option<u32>, cid: Option<&str>) -> PodUpdate {
    PodUpdate {
        namespace: ns.to_string(),
        pod_name: name.to_string(),
        pod_uid: uid.to_string(),
        pod_ip: ip,
        containers: vec![ContainerInfo {
            name: "main".to_string(),
            container_id: cid.map(|s| s.to_string()),
        }],
    }
}

fn tree_for(uid_with_underscores: &str, cid: &str, inode: u64) -> CgroupTree {
    let mut tree = CgroupTree::new();
    tree.add(
        format!(
            "/sys/fs/cgroup/kubepods.slice/kubepods-pod{}.slice/cri-containerd-{}.scope",
            uid_with_underscores, cid
        ),
        inode,
    );
    tree
}

#[test]
fn test_backoff_doubles_to_cap() {
    assert_eq!(next_backoff_secs(1), 2);
    assert_eq!(next_backoff_secs(2), 4);
    assert_eq!(next_backoff_secs(8), 16);
    assert_eq!(next_backoff_secs(16), 30);
    assert_eq!(next_backoff_secs(30), 30);
}

#[test]
fn test_reconnect_plan() {
    let (sleep, backoff) = reconnect_plan(8, &WatchOutcome::Failed);
    assert_eq!(sleep, 8);
    assert_eq!(backoff, 16);
    let (sleep, backoff) = reconnect_plan(8, &WatchOutcome::Ended);
    assert_eq!(sleep, 0);
    assert_eq!(backoff, 1);
    let (_, capped) = reconnect_plan(30, &WatchOutcome::Failed);
    assert_eq!(capped, 30);
}

#[test]
fn test_apply_resolves_and_caches() {
    let resolver = CgroupResolver::new();
    let tree = tree_for("u_1", "c1", 501);
    let mut cache = PodCache::new();
    handle_pod_apply(&mut cache, &pod("ns", "web", "u-1", Some(7), Some("containerd://c1")), &resolver, &tree);
    let by_cg = cache.get(501).expect("cgroup entry");
    assert_eq!(by_cg.namespace, "ns");
    assert_eq!(by_cg.pod_name, "web");
    assert_eq!(by_cg.container_name, "main");
    let by_ip = cache.get_by_ip(7).expect("ip entry");
    assert_eq!(by_ip.pod_name, "web");
}

#[test]
fn test_apply_without_uid_is_ignored() {
    let resolver = CgroupResolver::new();
    let tree = tree_for("u_1", "c1", 501);
    let mut cache = PodCache::new();
    handle_pod_apply(&mut cache, &pod("ns", "web", "", Some(7), Some("c1")), &resolver, &tree);
    assert!(cache.is_empty());
    assert!(cache.get_by_ip(7).is_none());
}

#[test]
fn test_delete_event_clears_pod() {
    let resolver = CgroupResolver::new();
    let tree = tree_for("u_1", "c1", 501);
    let mut cache = PodCache::new();
    let p = pod("ns", "web", "u-1", Some(7), Some("c1"));
    handle_watch_event(&mut cache, &PodWatchEvent::Apply(p), &resolver, &tree);
    assert_eq!(cache.len(), 1);
    let gone = pod("ns", "web", "u-1", None, None);
    handle_pod_delete(&mut cache, &gone);
    assert!(cache.is_empty());
    assert!(cache.get_by_ip(7).is_none());
}

#[test]
fn test_resync_drops_pods_deleted_while_disconnected() {
    let resolver = CgroupResolver::new();
    let tree = tree_for("u_2", "c2", 600);
    let mut cache = PodCache::new();
    // the stale pod was applied before the disconnect
    handle_pod_apply(&mut cache, &pod("old", "gone", "u-stale", Some(9), None), &resolver, &tree);
    assert!(cache.get_by_ip(9).is_some());
    // the full list after reconnect no longer holds it
    let listed = vec![pod("ns", "kept", "u-2", Some(11), Some("c2"))];
    resync_all(&mut cache, &listed, &resolver, &tree);
    assert!(cache.get_by_ip(9).is_none());
    assert!(cache.get_by_ip(11).is_some());
    let kept = cache.get(600).expect("resolved after resync");
    assert_eq!(kept.pod_name, "kept");
}

#[test]
fn test_init_events_change_nothing() {
    let resolver = CgroupResolver::new();
    let tree = CgroupTree::new();
    let mut cache = PodCache::new();
    handle_watch_event(&mut cache, &PodWatchEvent::Init, &resolver, &tree);
    handle_watch_event(&mut cache, &PodWatchEvent::InitDone, &resolver, &tree);
    assert!(cache.is_empty());
}
