use orb8::aggregator::FlowAggregator;
use orb8::common::NetworkFlowEvent;
use orb8::grpc_server::{event_matches, make_status, query_flows};
use orb8::pod_cache::{EnrichedEvent, PodCache, PodMetadata};

fn event(src_ip: u32, dst_ip: u32, src_port: u16, dst_port: u16, len: u16) -> NetworkFlowEvent {
    NetworkFlowEvent {
        timestamp_ns: 1_000,
        cgroup_id: 0,
        src_ip,
        dst_ip,
        src_port,
        dst_port,
        protocol: 6,
        direction: 1,
        packet_len: len,
    }
}

fn meta(ns: &str, pod: &str, uid: &str) -> PodMetadata {
    PodMetadata {
        namespace: ns.to_string(),
        pod_name: pod.to_string(),
        pod_uid: uid.to_string(),
        container_name: "c".to_string(),
        container_id: "id".to_string(),
    }
}

#[test]
fn test_aggregation_three_packets_one_flow() {
    let cache = PodCache::new();
    let mut agg = FlowAggregator::new();
    let ev = event(0x0100000A, 0x0200000A, 80, 5000, 100);
    for _ in 0..3 {
        agg.process_event(&cache, &ev, 10);
    }
    let flows = agg.get_flows(&[]);
    assert_eq!(flows.len(), 1);
    assert_eq!(flows[0].1.bytes, 300);
    assert_eq!(flows[0].1.packets, 3);
    assert_eq!(agg.active_flow_count(), 1);
    assert_eq!(agg.events_processed(), 3);
}

#[test]
fn test_attribution_fallback_external_unknown() {
    let cache = PodCache::new();
    let mut agg = FlowAggregator::new();
    let ev = event(0x0100000A, 0x0200000A, 80, 5000, 100);
    let enriched: EnrichedEvent = agg.process_event(&cache, &ev, 10);
    assert_eq!(enriched.namespace, "external");
    assert_eq!(enriched.pod_name, "unknown");
}

#[test]
fn test_attribution_cgroup_label_fallback() {
    let cache = PodCache::new();
    let mut agg = FlowAggregator::new();
    let mut ev = event(0x0100000A, 0x0200000A, 80, 5000, 100);
    ev.cgroup_id = 5;
    let enriched = agg.process_event(&cache, &ev, 10);
    assert_eq!(enriched.namespace, "unknown");
    assert_eq!(enriched.pod_name, "cgroup-5");
}

#[test]
fn test_attribution_by_cgroup_then_ip() {
    let mut cache = PodCache::new();
    cache.insert(9, meta("team-a", "web", "u1"));
    cache.insert_by_ip(0x0200000A, meta("team-b", "db", "u2"));

    let mut agg = FlowAggregator::new();

    let mut by_cgroup = event(0x0100000A, 0x0200000A, 80, 5000, 10);
    by_cgroup.cgroup_id = 9;
    let e1 = agg.process_event(&cache, &by_cgroup, 1);
    assert_eq!(e1.namespace, "team-a");
    assert_eq!(e1.pod_name, "web");

    // ingress: the destination side is looked up first
    let mut by_ip = event(0x0300000A, 0x0200000A, 80, 5000, 10);
    by_ip.direction = 0;
    let e2 = agg.process_event(&cache, &by_ip, 1);
    assert_eq!(e2.namespace, "team-b");
    assert_eq!(e2.pod_name, "db");

    // egress with only the destination cached: the other side still hits
    let mut other_side = event(0x0300000A, 0x0200000A, 80, 5000, 10);
    other_side.direction = 1;
    let e3 = agg.process_event(&cache, &other_side, 1);
    assert_eq!(e3.namespace, "team-b");
}

#[test]
fn test_expire_old_flows_idempotent() {
    let cache = PodCache::new();
    let mut agg = FlowAggregator::new();
    agg.process_event(&cache, &event(1, 2, 80, 81, 10), 1_000);
    agg.process_event(&cache, &event(3, 4, 80, 81, 10), 50_000);
    // timeout is 30 s: at t=60 s the first flow is idle, the second is not
    let expired = agg.expire_old_flows(60_000);
    assert_eq!(expired, 1);
    assert_eq!(agg.active_flow_count(), 1);
    let expired_again = agg.expire_old_flows(60_000);
    assert_eq!(expired_again, 0);
    assert_eq!(agg.active_flow_count(), 1);
}

#[test]
fn test_self_traffic_suppressed() {
    let cache = PodCache::new();
    let mut agg = FlowAggregator::new();
    let batch = vec![
        event(1, 2, 9090, 81, 10),
        event(1, 2, 80, 9090, 10),
        event(1, 2, 80, 81, 10),
    ];
    let enriched = agg.process_batch(&cache, &batch, 9090, 5);
    assert_eq!(enriched.len(), 1);
    let flows = agg.get_flows(&[]);
    assert_eq!(flows.len(), 1);
    for (key, _) in &flows {
        assert!(key.src_port != 9090 && key.dst_port != 9090);
    }
    assert_eq!(agg.events_processed(), 1);
}

#[test]
fn test_query_filters_and_sorts() {
    let mut cache = PodCache::new();
    cache.insert_by_ip(1, meta("a", "pod-a1", "u1"));
    cache.insert_by_ip(2, meta("b", "pod-b1", "u2"));

    let mut agg = FlowAggregator::new();
    // destination ip 1: namespace "a"; three packets of 100 bytes
    let mut to_a = event(9, 1, 80, 5000, 100);
    to_a.direction = 0;
    for _ in 0..3 {
        agg.process_event(&cache, &to_a, 1);
    }
    // a second, larger flow in namespace "a"
    let mut to_a_big = event(9, 1, 81, 5000, 900);
    to_a_big.direction = 0;
    agg.process_event(&cache, &to_a_big, 1);
    // namespace "b"
    let mut to_b = event(9, 2, 80, 5000, 100);
    to_b.direction = 0;
    agg.process_event(&cache, &to_b, 1);

    let only_a = query_flows(&agg, &["a".to_string()], &[], 0);
    assert_eq!(only_a.len(), 2);
    assert!(only_a.iter().all(|f| f.namespace == "a"));
    assert!(only_a[0].bytes >= only_a[1].bytes);
    assert_eq!(only_a[0].bytes, 900);
    assert_eq!(only_a[1].bytes, 300);

    let capped = query_flows(&agg, &[], &[], 2);
    assert_eq!(capped.len(), 2);
    assert!(capped[0].bytes >= capped[1].bytes);

    let by_pod = query_flows(&agg, &[], &["pod-b1".to_string()], 0);
    assert_eq!(by_pod.len(), 1);
    assert_eq!(by_pod[0].namespace, "b");
    assert_eq!(by_pod[0].src_ip, "9.0.0.0".to_string());
}

#[test]
fn test_status_reports_counters() {
    let mut cache = PodCache::new();
    cache.insert(1, meta("a", "p", "u"));
    let mut agg = FlowAggregator::new();
    agg.process_event(&cache, &event(1, 2, 80, 81, 10), 1);
    agg.record_dropped(4);
    let status = make_status(&agg, &cache, "node-1".to_string(), "0.1.0".to_string(), 12);
    assert_eq!(status.node_name, "node-1");
    assert!(status.healthy);
    assert_eq!(status.health_message, "OK");
    assert_eq!(status.events_processed, 1);
    assert_eq!(status.events_dropped, 4);
    assert_eq!(status.pods_tracked, 1);
    assert_eq!(status.active_flows, 1);
    assert_eq!(status.uptime_seconds, 12);
}

#[test]
fn test_event_matches_filter() {
    let ns = vec!["a".to_string(), "b".to_string()];
    assert!(event_matches(&ns, &"a".to_string()));
    assert!(!event_matches(&ns, &"c".to_string()));
    assert!(event_matches(&[], &"c".to_string()));
}

#[test]
fn test_enriched_event_from_flow() {
    let mut ev = event(1, 2, 80, 81, 10);
    ev.cgroup_id = 5;
    let fallback = EnrichedEvent::from_flow(&ev, None);
    assert_eq!(fallback.namespace, "unknown");
    assert_eq!(fallback.pod_name, "cgroup-5");
    assert_eq!(fallback.container_name, "unknown");
    assert_eq!(fallback.packet_len, 10);

    let m = meta("ns1", "pod1", "u1");
    let named = EnrichedEvent::from_flow(&ev, Some(&m));
    assert_eq!(named.namespace, "ns1");
    assert_eq!(named.pod_name, "pod1");
    assert_eq!(named.container_name, "c");
}

#[test]
fn test_flow_stats_track_extremes() {
    let cache = PodCache::new();
    let mut agg = FlowAggregator::new();
    let mut early = event(1, 2, 80, 81, 10);
    early.timestamp_ns = 100;
    let mut late = event(1, 2, 80, 81, 10);
    late.timestamp_ns = 900;
    // deliver out of order: the late record first
    agg.process_event(&cache, &late, 1);
    agg.process_event(&cache, &early, 2);
    let flows = agg.get_flows(&[]);
    assert_eq!(flows.len(), 1);
    assert_eq!(flows[0].1.first_seen_ns, 100);
    assert_eq!(flows[0].1.last_seen_ns, 900);
    assert_eq!(flows[0].1.packets, 2);
}
