//! The query surface: what the remote query, stream and status calls
//! compute. The wire transport around these lives with the caller; the
//! filtering, formatting, ordering and truncation are all here.

use vstd::prelude::*;
use vstd::seq_lib::group_to_multiset_ensures;
use crate::aggregator::{
    contains_string, direction_rep, format_direction, format_protocol, ns_match, protocol_rep,
    FlowAggregator, FlowKey, FlowKeyV, FlowStats,
};
use vstd::string::StringExecFns;
use crate::ipv4::{format_ipv4, ipv4_rep};
use crate::pod_cache::PodCache;

verus! {

/// The port the agent's query endpoint listens on.
pub const LISTEN_PORT: u16 = 9090;

/// The flow count a query returns when it asks for no particular limit.
pub const DEFAULT_QUERY_LIMIT: u32 = 1000;

/// One aggregated flow as a query returns it: addresses and labels
/// formatted as text, counters as numbers.
#[derive(Debug, Clone)]
pub struct NetworkFlow {
    pub namespace: String,
    pub pod_name: String,
    pub src_ip: String,
    pub dst_ip: String,
    pub src_port: u32,
    pub dst_port: u32,
    pub protocol: String,
    pub direction: String,
    pub bytes: u64,
    pub packets: u64,
    pub first_seen_ns: i64,
    pub last_seen_ns: i64,
}

/// The mathematical image of a `NetworkFlow`.
pub ghost struct NetworkFlowV {
    pub namespace: Seq<char>,
    pub pod_name: Seq<char>,
    pub src_ip: Seq<char>,
    pub dst_ip: Seq<char>,
    pub src_port: u32,
    pub dst_port: u32,
    pub protocol: Seq<char>,
    pub direction: Seq<char>,
    pub bytes: u64,
    pub packets: u64,
    pub first_seen_ns: i64,
    pub last_seen_ns: i64,
}

impl View for NetworkFlow {
    type V = NetworkFlowV;

    open spec fn view(&self) -> NetworkFlowV {
        NetworkFlowV {
            namespace: self.namespace@,
            pod_name: self.pod_name@,
            src_ip: self.src_ip@,
            dst_ip: self.dst_ip@,
            src_port: self.src_port,
            dst_port: self.dst_port,
            protocol: self.protocol@,
            direction: self.direction@,
            bytes: self.bytes,
            packets: self.packets,
            first_seen_ns: self.first_seen_ns,
            last_seen_ns: self.last_seen_ns,
        }
    }
}

/// The query record of one flow table entry.
pub open spec fn record_of(k: FlowKeyV, s: FlowStats) -> NetworkFlowV {
    NetworkFlowV {
        namespace: k.namespace,
        pod_name: k.pod_name,
        src_ip: ipv4_rep(k.src_ip),
        dst_ip: ipv4_rep(k.dst_ip),
        src_port: k.src_port as u32,
        dst_port: k.dst_port as u32,
        protocol: protocol_rep(k.protocol),
        direction: direction_rep(k.direction),
        bytes: s.bytes,
        packets: s.packets,
        first_seen_ns: s.first_seen_ns as i64,
        last_seen_ns: s.last_seen_ns as i64,
    }
}

/// Build the query record of one flow.
fn make_flow(k: &FlowKey, s: &FlowStats) -> (r: NetworkFlow)
    ensures
        r@ == record_of(k@, *s),
{
    NetworkFlow {
        namespace: k.namespace.clone(),
        pod_name: k.pod_name.clone(),
        src_ip: format_ipv4(k.src_ip),
        dst_ip: format_ipv4(k.dst_ip),
        src_port: k.src_port as u32,
        dst_port: k.dst_port as u32,
        protocol: String::from_str(format_protocol(k.protocol)),
        direction: String::from_str(format_direction(k.direction)),
        bytes: s.bytes,
        packets: s.packets,
        first_seen_ns: s.first_seen_ns as i64,
        last_seen_ns: s.last_seen_ns as i64,
    }
}

/// Sort flows by cumulative bytes, largest first: the result holds
/// exactly the given flows, ordered.
fn sort_flows_desc(v: Vec<NetworkFlow>) -> (r: Vec<NetworkFlow>)
    ensures
        r@.len() == v@.len(),
        r@.to_multiset() == v@.to_multiset(),
        forall|i: int, j: int| 0 <= i < j < r@.len() ==> r@[i].bytes >= r@[j].bytes,
{
    broadcast use group_to_multiset_ensures;

    let mut rest = v;
    let mut out: Vec<NetworkFlow> = Vec::new();
    while rest.len() > 0
        invariant
            out@.to_multiset().add(rest@.to_multiset()) =~= v@.to_multiset(),
            out@.len() + rest@.len() == v@.len(),
            forall|i: int, j: int| 0 <= i < j < out@.len() ==> out@[i].bytes >= out@[j].bytes,
            forall|i: int, j: int|
                0 <= i < out@.len() && 0 <= j < rest@.len() ==> out@[i].bytes >= rest@[j].bytes,
        decreases rest@.len(),
    {
        // find the largest remaining entry
        let mut m: usize = 0;
        let mut idx: usize = 1;
        while idx < rest.len()
            invariant
                0 <= m < idx <= rest@.len(),
                rest@.len() > 0,
                forall|j: int| 0 <= j < idx ==> rest@[m as int].bytes >= rest@[j].bytes,
            decreases rest@.len() - idx,
        {
            if rest[idx].bytes > rest[m].bytes {
                m = idx;
            }
            idx += 1;
        }
        let ghost rest_prev = rest@;
        let ghost out_prev = out@;
        let x = rest.remove(m);
        out.push(x);
        proof {
            rest_prev.to_multiset_ensures();
            out_prev.to_multiset_ensures();
            assert(x == rest_prev[m as int]);
            assert(rest@ == rest_prev.remove(m as int));
            assert(out@ == out_prev.push(x));
            assert(rest_prev.remove(m as int).to_multiset() =~= rest_prev.to_multiset().remove(
                rest_prev[m as int],
            ));
            assert(out_prev.push(x).to_multiset() =~= out_prev.to_multiset().insert(x));
            assert(rest_prev.contains(x));
            assert(rest_prev.to_multiset().count(x) > 0);
            assert(out@.to_multiset().add(rest@.to_multiset()) =~= v@.to_multiset());
            assert(forall|j: int| 0 <= j < rest@.len() ==> x.bytes >= rest@[j].bytes);
        }
    }
    out
}

/// The effective limit of a query: a zero limit asks for the default.
pub open spec fn spec_limit(limit: u32) -> int {
    if limit == 0 {
        DEFAULT_QUERY_LIMIT as int
    } else {
        limit as int
    }
}

/// Whether a flow key passes the query's two filters.
pub open spec fn key_matches(k: FlowKeyV, namespaces: Seq<String>, pod_names: Seq<String>) -> bool {
    ns_match(namespaces, k.namespace) && ns_match(pod_names, k.pod_name)
}

/// Whether a record is the image of some flow table entry that passes
/// the filters.
pub open spec fn sound_record(
    flows: Map<FlowKeyV, FlowStats>,
    namespaces: Seq<String>,
    pod_names: Seq<String>,
    rv: NetworkFlowV,
) -> bool {
    exists|k: FlowKeyV|
        flows.contains_key(k) && key_matches(k, namespaces, pod_names) && rv == record_of(
            k,
            #[trigger] flows[k],
        )
}

/// Whether some element of the result reads as the given record.
pub open spec fn appears(r: Seq<NetworkFlow>, rv: NetworkFlowV) -> bool {
    exists|i: int| 0 <= i < r.len() && (#[trigger] r[i])@ == rv
}

/// Answer a flow query: every flow that passes the namespace and pod
/// filters (an empty filter passes everything), as formatted records,
/// sorted by cumulative bytes descending and cut to the limit. Every
/// matching flow appears unless the result is full at the limit.
pub fn query_flows(
    aggregator: &FlowAggregator,
    namespaces: &[String],
    pod_names: &[String],
    limit: u32,
) -> (r: Vec<NetworkFlow>)
    ensures
        r@.len() <= spec_limit(limit),
        forall|i: int, j: int| 0 <= i < j < r@.len() ==> r@[i].bytes >= r@[j].bytes,
        forall|i: int|
            0 <= i < r@.len() ==> sound_record(
                aggregator.flow_view(),
                namespaces@,
                pod_names@,
                (#[trigger] r@[i])@,
            ),
        forall|k: FlowKeyV|
            aggregator.flow_view().contains_key(k) && key_matches(k, namespaces@, pod_names@)
                ==> (appears(r@, record_of(k, #[trigger] aggregator.flow_view()[k])) || r@.len()
                == spec_limit(limit)),
{
    broadcast use group_to_multiset_ensures;

    let flows = aggregator.get_flows(namespaces);
    let mut records: Vec<NetworkFlow> = Vec::new();
    let mut i: usize = 0;
    while i < flows.len()
        invariant
            0 <= i <= flows@.len(),
            forall|l: int|
                0 <= l < flows@.len() ==> aggregator.flow_view().contains_key(
                    #[trigger] flows@[l].0@,
                ) && flows@[l].1 == aggregator.flow_view()[flows@[l].0@] && ns_match(
                    namespaces@,
                    flows@[l].0@.namespace,
                ),
            forall|k: FlowKeyV|
                aggregator.flow_view().contains_key(k) && ns_match(namespaces@, k.namespace)
                    ==> exists|l: int| 0 <= l < flows@.len() && #[trigger] flows@[l].0@ == k,
            forall|l: int|
                0 <= l < records@.len() ==> sound_record(
                    aggregator.flow_view(),
                    namespaces@,
                    pod_names@,
                    (#[trigger] records@[l])@,
                ),
            forall|l: int|
                0 <= l < i && ns_match(pod_names@, (#[trigger] flows@[l]).0@.pod_name) ==> appears(
                    records@,
                    record_of(flows@[l].0@, aggregator.flow_view()[flows@[l].0@]),
                ),
        decreases flows@.len() - i,
    {
        let keep = pod_names.len() == 0 || contains_string(pod_names, &flows[i].0.pod_name);
        if keep {
            let rec = make_flow(&flows[i].0, &flows[i].1);
            let ghost prev = records@;
            records.push(rec);
            proof {
                let gi = i as int;
                assert(forall|l: int| 0 <= l < prev.len() ==> records@[l] == prev[l]);
                assert(records@[records@.len() - 1] == rec);
                assert(key_matches(flows@[gi].0@, namespaces@, pod_names@));
                assert(sound_record(aggregator.flow_view(), namespaces@, pod_names@, rec@));
                assert(appears(
                    records@,
                    record_of(flows@[gi].0@, aggregator.flow_view()[flows@[gi].0@]),
                ));
                assert forall|l: int|
                    0 <= l < i + 1 && ns_match(
                        pod_names@,
                        (#[trigger] flows@[l]).0@.pod_name,
                    ) implies appears(
                    records@,
                    record_of(flows@[l].0@, aggregator.flow_view()[flows@[l].0@]),
                ) by {
                    if l < gi {
                        assert(appears(
                            prev,
                            record_of(flows@[l].0@, aggregator.flow_view()[flows@[l].0@]),
                        ));
                        let w = choose|w: int|
                            0 <= w < prev.len() && (#[trigger] prev[w])@ == record_of(
                                flows@[l].0@,
                                aggregator.flow_view()[flows@[l].0@],
                            );
                        assert(records@[w]@ == record_of(
                            flows@[l].0@,
                            aggregator.flow_view()[flows@[l].0@],
                        ));
                    }
                }
            }
        } else {
            proof {
                assert(!ns_match(pod_names@, flows@[i as int].0@.pod_name));
            }
        }
        i += 1;
    }
    let mut sorted = sort_flows_desc(records);
    let limit_n: usize = if limit == 0 {
        1000
    } else {
        limit as usize
    };
    let ghost presort = sorted@;
    if sorted.len() > limit_n {
        sorted.truncate(limit_n);
        proof {
            assert(sorted@ == presort.subrange(0, limit_n as int));
        }
    }
    proof {
        assert forall|l: int| 0 <= l < sorted@.len() implies sound_record(
            aggregator.flow_view(),
            namespaces@,
            pod_names@,
            (#[trigger] sorted@[l])@,
        ) by {
            let x = sorted@[l];
            assert(presort[l] == x);
            assert(presort.contains(x));
            assert(presort.to_multiset().count(x) > 0);
            assert(records@.to_multiset().count(x) > 0);
            assert(records@.contains(x));
            let l2 = choose|l2: int| 0 <= l2 < records@.len() && records@[l2] == x;
            assert(sound_record(aggregator.flow_view(), namespaces@, pod_names@, records@[l2]@));
        }
        assert forall|k: FlowKeyV|
            aggregator.flow_view().contains_key(k) && key_matches(
                k,
                namespaces@,
                pod_names@,
            ) implies (appears(sorted@, record_of(k, #[trigger] aggregator.flow_view()[k]))
            || sorted@.len() == spec_limit(limit)) by {
            if sorted@.len() < spec_limit(limit) {
                assert(sorted@ == presort);
                let rv = record_of(k, aggregator.flow_view()[k]);
                let l = choose|l: int|
                    0 <= l < flows@.len() && #[trigger] flows@[l].0@ == k;
                assert(ns_match(pod_names@, flows@[l].0@.pod_name));
                assert(appears(records@, rv));
                let w = choose|w: int|
                    0 <= w < records@.len() && (#[trigger] records@[w])@ == rv;
                let x = records@[w];
                assert(records@.contains(x));
                assert(records@.to_multiset().count(x) > 0);
                assert(presort.to_multiset().count(x) > 0);
                assert(presort.contains(x));
                let w2 = choose|w2: int| 0 <= w2 < presort.len() && presort[w2] == x;
                assert((sorted@[w2])@ == rv);
                assert(appears(sorted@, rv));
            }
        }
    }
    sorted
}

/// The agent's status as the status call reports it.
#[derive(Debug, Clone)]
pub struct AgentStatus {
    pub node_name: String,
    pub version: String,
    pub healthy: bool,
    pub health_message: String,
    pub events_processed: u64,
    pub events_dropped: u64,
    pub pods_tracked: u32,
    pub active_flows: u32,
    pub uptime_seconds: i64,
}

/// Assemble the agent's status: the counters read from the aggregator,
/// the pod count from the cache, and the identity and uptime the caller
/// knows.
pub fn make_status(
    aggregator: &FlowAggregator,
    cache: &PodCache,
    node_name: String,
    version: String,
    uptime_seconds: i64,
) -> (r: AgentStatus)
    ensures
        r.node_name@ == node_name@,
        r.version@ == version@,
        r.healthy == true,
        r.health_message@ == "OK"@,
        r.events_processed == aggregator.processed(),
        r.events_dropped == aggregator.dropped(),
        r.pods_tracked == cache.cgroup_view().len() as u32,
        r.active_flows == aggregator.flow_view().len() as u32,
        r.uptime_seconds == uptime_seconds,
{
    AgentStatus {
        node_name,
        version,
        healthy: true,
        health_message: String::from_str("OK"),
        events_processed: aggregator.events_processed(),
        events_dropped: aggregator.events_dropped(),
        pods_tracked: #[verifier::truncate] (cache.len() as u32),
        active_flows: #[verifier::truncate] (aggregator.active_flow_count() as u32),
        uptime_seconds,
    }
}

/// Whether a streamed event passes a subscriber's namespace filter: an
/// empty filter passes everything.
pub fn event_matches(namespaces: &[String], event_namespace: &String) -> (r: bool)
    ensures
        r == ns_match(namespaces@, event_namespace@),
{
    namespaces.len() == 0 || contains_string(namespaces, event_namespace)
}

} // verus!
