use orb8::cli::{parse_duration, truncate};
use orb8::collector::Metrics;
use orb8::error::Orb8Error;
use orb8::events::{Event, EventProcessor, GpuEvent, GpuEventType, NetworkEvent, Protocol};
use orb8::k8s_types::gpu_in_limits;
use orb8::loader::ProbeLoader;
use orb8::maps::{EbpfMap, PodMetadata, PodMetadataMap};
use orb8::probe_loader::{
    check_kernel_version, parse_default_route, parse_kernel_version, run_preflight_checks,
    select_interfaces,
};

#[test]
fn test_error_types() {
    let err = Orb8Error::PodNotFound {
        name: "test-pod".to_string(),
        namespace: "default".to_string(),
    };

    assert!(err.message().contains("test-pod"));
    assert!(err.message().contains("default"));
}

#[test]
fn test_error_messages_exact() {
    let e = Orb8Error::EbpfError("boom".to_string());
    assert_eq!(e.message(), "eBPF error: boom");
    let k = Orb8Error::KernelVersionTooOld {
        version: "4.19".to_string(),
        min_version: "5.8".to_string(),
    };
    assert_eq!(k.message(), "Kernel version 4.19 is too old. Minimum required: 5.8");
    assert_eq!(
        Orb8Error::BtfNotAvailable.message(),
        "BTF not available. Ensure kernel is compiled with CONFIG_DEBUG_INFO_BTF"
    );
}

#[test]
fn test_version_const() {
    assert!(!orb8::VERSION.is_empty());
}

#[test]
fn test_truncate() {
    assert_eq!(truncate("short", 10), "short");
    assert_eq!(truncate("a-rather-long-name", 10), "a-rathe...");
    assert_eq!(truncate("abc", 3), "abc");
}

#[test]
fn test_parse_duration() {
    assert_eq!(parse_duration("30s"), Some(30_000));
    assert_eq!(parse_duration("5m"), Some(300_000));
    assert_eq!(parse_duration("1h"), Some(3_600_000));
    assert_eq!(parse_duration("500ms"), Some(500));
    assert_eq!(parse_duration("  30s  "), Some(30_000));
    assert_eq!(parse_duration("30"), None);
    assert_eq!(parse_duration("s"), None);
    assert_eq!(parse_duration("ms"), None);
    assert_eq!(parse_duration("3x"), None);
    assert_eq!(parse_duration(""), None);
}

#[test]
fn test_kernel_version_parsing() {
    assert_eq!(parse_kernel_version("5.15.0-89-generic"), Some((5, 15)));
    assert_eq!(parse_kernel_version("6.2"), Some((6, 2)));
    assert_eq!(parse_kernel_version("five.eight"), None);
    assert_eq!(parse_kernel_version("5"), None);
}

#[test]
fn test_kernel_version_check() {
    assert!(check_kernel_version("5.8.0").is_ok());
    assert!(check_kernel_version("6.1.0-generic").is_ok());
    let old = check_kernel_version("5.7.19").unwrap_err();
    assert!(old.message().contains("too old"));
    let unparsed = check_kernel_version("garbage").unwrap_err();
    assert!(unparsed.message().contains("Configuration error"));
    assert!(run_preflight_checks("5.15.0", true, 0).is_ok());
    assert!(run_preflight_checks("4.4.0", true, 0).is_err());
}

#[test]
fn test_parse_default_route() {
    let content = "Iface\tDestination\tGateway\n\
                   lo\t00000000\t00000000\n\
                   eth0\t00000000\t0101A8C0\n\
                   eth0\t0000FEA9\t00000000\n";
    assert_eq!(parse_default_route(content).as_deref(), Some("eth0"));
    let no_default = "Iface\tDestination\n\
                      eth1\t0000FEA9\n";
    assert_eq!(parse_default_route(no_default), None);
    assert_eq!(parse_default_route(""), None);
}

#[test]
fn test_select_interfaces() {
    let chosen = select_interfaces(Some("ens5".to_string()), false, true, false, false, None);
    assert_eq!(chosen, vec!["ens5".to_string(), "cni0".to_string()]);
    let fallback = select_interfaces(None, true, false, false, true, Some("br-77".to_string()));
    assert_eq!(fallback, vec!["eth0".to_string(), "cbr0".to_string(), "br-77".to_string()]);
    let dup = select_interfaces(Some("br-77".to_string()), false, false, false, false, Some("br-77".to_string()));
    assert_eq!(dup, vec!["br-77".to_string()]);
    let nothing = select_interfaces(None, false, false, false, false, None);
    assert_eq!(nothing, vec!["lo".to_string()]);
}

#[test]
fn test_metrics_fold_events() {
    let mut m = Metrics::default();
    m.apply_event(&Event::Network(NetworkEvent {
        timestamp_ns: 1,
        src_ip: "10.0.0.1".to_string(),
        dst_ip: "10.0.0.2".to_string(),
        src_port: 1,
        dst_port: 2,
        protocol: Protocol::Tcp,
        bytes: 500,
    }));
    m.apply_event(&Event::Gpu(GpuEvent {
        timestamp_ns: 2,
        event_type: GpuEventType::Alloc,
        size: 1024,
        device_id: 0,
    }));
    m.apply_event(&Event::Gpu(GpuEvent {
        timestamp_ns: 3,
        event_type: GpuEventType::Free,
        size: 2048,
        device_id: 0,
    }));
    assert_eq!(m.network_packets_total, 1);
    assert_eq!(m.network_bytes_total, 500);
    assert_eq!(m.gpu_allocations_total, 1);
    // freeing more than allocated never goes below zero
    assert_eq!(m.gpu_memory_allocated, 1024);
}

#[test]
fn test_protocol_names() {
    assert_eq!(Protocol::Tcp.name(), "TCP");
    assert_eq!(Protocol::Udp.name(), "UDP");
    assert_eq!(Protocol::Icmp.name(), "ICMP");
    assert_eq!(Protocol::Other(42).name(), "Protocol(42)");
}

#[test]
fn test_event_processor_flush() {
    let mut p = EventProcessor::new();
    assert!(p.process_raw_event(bytes::Bytes::from_static(&[1, 2, 3])).is_none());
    assert!(p.flush().is_empty());
}

#[test]
fn test_probe_loader_paths() {
    let loader = ProbeLoader::with_default_path();
    let probe = loader.load_probe("network", true).expect("exists");
    assert_eq!(probe.name, "network");
    assert_eq!(probe.path, "/usr/lib/orb8/probes/network.o");
    assert!(!probe.attached);
    let missing = loader.load_probe("network", false).unwrap_err();
    assert_eq!(
        missing.message(),
        "Failed to load eBPF program: Probe file not found: /usr/lib/orb8/probes/network.o"
    );
}

#[test]
fn test_loaded_probe_attach_detach() {
    let loader = ProbeLoader::new("/tmp/probes".to_string());
    let mut probe = loader.load_probe("net", true).unwrap();
    assert!(probe.attach().is_ok());
    assert!(probe.attached);
    assert!(probe.detach().is_ok());
    assert!(!probe.attached);
}

#[test]
fn test_pod_metadata_map() {
    let mut map = PodMetadataMap::new();
    let meta = PodMetadata {
        name: "web".to_string(),
        namespace: "ns".to_string(),
        uid: "u1".to_string(),
    };
    assert!(map.insert(42, meta).is_ok());
    assert_eq!(map.get(&42).unwrap().name, "web");
    assert!(map.get(&43).is_none());
    let removed = map.remove(&42).unwrap();
    assert_eq!(removed.uid, "u1");
    assert!(map.get(&42).is_none());
}

#[test]
fn test_ebpf_map_name() {
    let map: EbpfMap<u32, u64> = EbpfMap::new("EVENTS".to_string());
    assert_eq!(map.name(), "EVENTS");
}

#[test]
fn test_gpu_in_limits() {
    let keys = vec!["cpu".to_string(), "nvidia.com/gpu".to_string()];
    assert!(gpu_in_limits(&keys));
    let no_gpu = vec!["cpu".to_string(), "memory".to_string()];
    assert!(!gpu_in_limits(&no_gpu));
}

#[test]
fn test_dashboard_toggle() {
    let mut d = orb8::dashboard::Dashboard::new();
    assert!(!d.is_enabled());
    d.enable();
    assert!(d.is_enabled());
    d.disable();
    assert!(!d.is_enabled());
}
