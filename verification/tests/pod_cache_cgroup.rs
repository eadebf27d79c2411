use orb8::cgroup::{extract_pod_uid_from_path, CgroupResolver, CgroupTree, clean_container_id};
use orb8::pod_cache::{PodCache, PodMetadata};

fn meta(ns: &str, pod: &str, uid: &str, cname: &str, cid: &str) -> PodMetadata {
    PodMetadata {
        namespace: ns.to_string(),
        pod_name: pod.to_string(),
        pod_uid: uid.to_string(),
        container_name: cname.to_string(),
        container_id: cid.to_string(),
    }
}

#[test]
fn test_extract_pod_uid_simple() {
    let path = "/sys/fs/cgroup/kubepods.slice/kubepods-pod12345.slice/container.scope";
    let uid = extract_pod_uid_from_path(path);
    assert_eq!(uid, Some("12345".to_string()));
}

#[test]
fn test_extract_pod_uid_with_qos() {
    let path = "/sys/fs/cgroup/kubepods.slice/kubepods-burstable.slice/kubepods-burstable-pod12345_6789.slice/container.scope";
    let uid = extract_pod_uid_from_path(path);
    assert_eq!(uid, Some("12345-6789".to_string()));
}

#[test]
fn test_extract_pod_uid_no_match() {
    assert_eq!(extract_pod_uid_from_path("/sys/fs/cgroup/system.slice/ssh.service"), None);
    assert_eq!(extract_pod_uid_from_path(""), None);
}

#[test]
fn test_pod_cache_insert_get() {
    let mut cache = PodCache::new();

    let metadata = meta("default", "nginx", "abc-123", "nginx", "container123");

    cache.insert(12345, metadata.clone());

    let retrieved = cache.get(12345).expect("Should find entry");
    assert_eq!(retrieved.namespace, "default");
    assert_eq!(retrieved.pod_name, "nginx");
}

#[test]
fn test_pod_cache_remove_pod() {
    let mut cache = PodCache::new();

    let metadata1 = meta("default", "nginx", "pod-1", "nginx", "c1");
    let metadata2 = meta("default", "nginx", "pod-1", "sidecar", "c2");
    let metadata3 = meta("other", "redis", "pod-2", "redis", "c3");

    cache.insert(1, metadata1);
    cache.insert(2, metadata2);
    cache.insert(3, metadata3);

    assert_eq!(cache.len(), 3);

    cache.remove_pod("pod-1");

    assert_eq!(cache.len(), 1);
    assert!(cache.get(1).is_none());
    assert!(cache.get(2).is_none());
    assert!(cache.get(3).is_some());
}

#[test]
fn test_pod_cache_remove_pod_clears_ip_side() {
    let mut cache = PodCache::new();
    cache.insert_by_ip(0x0100000A, meta("ns", "pod", "uid-9", "", ""));
    assert!(cache.get_by_ip(0x0100000A).is_some());
    cache.remove_pod("uid-9");
    assert!(cache.get_by_ip(0x0100000A).is_none());
}

#[test]
fn test_pod_cache_remove_and_entries() {
    let mut cache = PodCache::new();
    cache.insert(7, meta("a", "p", "u", "c", "i"));
    let removed = cache.remove(7).expect("entry present");
    assert_eq!(removed.namespace, "a");
    assert!(cache.is_empty());
    assert_eq!(cache.entries().len(), 0);
}

#[test]
fn test_clean_container_id() {
    assert_eq!(clean_container_id("containerd://abcdef").as_str(), "abcdef");
    assert_eq!(clean_container_id("abcdef").as_str(), "abcdef");
    assert_eq!(clean_container_id("cri-o://x://y").as_str(), "y");
}

#[test]
fn test_resolver_candidate_paths_and_resolve() {
    let resolver = CgroupResolver::new();
    let paths = resolver.candidate_paths("abc-123", "containerd://deadbeef");
    assert_eq!(
        paths[0].as_str(),
        "/sys/fs/cgroup/kubepods.slice/kubepods-podabc_123.slice/cri-containerd-deadbeef.scope"
    );
    assert_eq!(
        paths[1].as_str(),
        "/sys/fs/cgroup/kubepods.slice/kubepods-burstable.slice/kubepods-burstable-podabc_123.slice/cri-containerd-deadbeef.scope"
    );
    assert_eq!(
        paths[2].as_str(),
        "/sys/fs/cgroup/kubepods.slice/kubepods-besteffort.slice/kubepods-besteffort-podabc_123.slice/cri-containerd-deadbeef.scope"
    );

    let mut tree = CgroupTree::new();
    tree.add(paths[1].clone(), 4242);
    let resolver2 = CgroupResolver::new();
    assert_eq!(resolver2.resolve("abc-123", "containerd://deadbeef", &tree), Some(4242));
    assert_eq!(resolver2.resolve("abc-999", "containerd://deadbeef", &tree), None);
}

#[test]
fn test_scan_all_recovers_reverse_map() {
    let resolver = CgroupResolver::new();
    let mut tree = CgroupTree::new();
    tree.add(
        "/sys/fs/cgroup/kubepods.slice/kubepods-pod11_22.slice/cri-containerd-feed.scope"
            .to_string(),
        77,
    );
    tree.add("/sys/fs/cgroup/kubepods.slice".to_string(), 1);
    let found = resolver.scan_all(&tree);
    assert_eq!(found.len(), 1);
    assert_eq!(found[0].0, 77);
    assert_eq!(found[0].1.as_str(), "11-22");
    assert_eq!(found[0].2.as_str(), "feed");
}
