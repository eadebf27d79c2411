//! Flow aggregator: folds packet events into 5-tuple flows.
//!
//! Events are attributed to a pod through the pod cache, grouped under a
//! `FlowKey`, and accumulated into `FlowStats`. The flow table is
//! dashmap's concurrent hash map behind trusted wrappers, exactly as in
//! the pod cache; every update is stated against `flow_entries`, the
//! table's contents as a mathematical `Map`.

use vstd::prelude::*;
use vstd::set_lib::lemma_len_subset;
use vstd::string::StringExecFns;
use crate::common::NetworkFlowEvent;
use crate::decimal::dec_rep;
use crate::decimal::u64_to_dec;
use crate::direction::INGRESS;
use crate::pod_cache::{EnrichedEvent, PodCache, PodMetadataV};
use crate::protocol::{ICMP, TCP, UDP};

verus! {

/// Key for flow aggregation. Namespace and pod name are part of the key
/// because attribution changes the flow identity.
#[derive(Debug, Clone, Hash, Eq, PartialEq)]
pub struct FlowKey {
    pub namespace: String,
    pub pod_name: String,
    pub src_ip: u32,
    pub dst_ip: u32,
    pub src_port: u16,
    pub dst_port: u16,
    pub protocol: u8,
    pub direction: u8,
}

/// The mathematical image of a `FlowKey`: strings as character sequences.
pub ghost struct FlowKeyV {
    pub namespace: Seq<char>,
    pub pod_name: Seq<char>,
    pub src_ip: u32,
    pub dst_ip: u32,
    pub src_port: u16,
    pub dst_port: u16,
    pub protocol: u8,
    pub direction: u8,
}

impl View for FlowKey {
    type V = FlowKeyV;

    open spec fn view(&self) -> FlowKeyV {
        FlowKeyV {
            namespace: self.namespace@,
            pod_name: self.pod_name@,
            src_ip: self.src_ip,
            dst_ip: self.dst_ip,
            src_port: self.src_port,
            dst_port: self.dst_port,
            protocol: self.protocol,
            direction: self.direction,
        }
    }
}

/// Aggregated flow statistics. `first_seen` and `last_seen` are
/// wall-clock instants in milliseconds as handed in by the caller;
/// `first_seen_ns` and `last_seen_ns` are kernel capture timestamps.
#[derive(Debug, Clone, Copy, PartialEq, Eq, Structural)]
pub struct FlowStats {
    pub bytes: u64,
    pub packets: u64,
    pub first_seen: u64,
    pub last_seen: u64,
    pub first_seen_ns: u64,
    pub last_seen_ns: u64,
}

/// Addition that stops at the top of the 64-bit range.
pub open spec fn sat_add(a: u64, b: u64) -> u64 {
    if a + b <= u64::MAX {
        (a + b) as u64
    } else {
        u64::MAX
    }
}

/// Executable saturating addition.
pub fn sat_add_exec(a: u64, b: u64) -> (r: u64)
    ensures
        r == sat_add(a, b),
{
    if a <= u64::MAX - b {
        a + b
    } else {
        u64::MAX
    }
}

impl FlowStats {
    /// The statistics of a flow on its first observed packet.
    pub open spec fn init_spec(ev: NetworkFlowEvent, now: u64) -> FlowStats {
        FlowStats {
            bytes: ev.packet_len as u64,
            packets: 1,
            first_seen: now,
            last_seen: now,
            first_seen_ns: ev.timestamp_ns,
            last_seen_ns: ev.timestamp_ns,
        }
    }

    /// The statistics after one more packet: counters accumulate, the
    /// first-seen capture timestamp takes the minimum and the last-seen
    /// values take the maximum, so an update arriving out of order never
    /// regresses them.
    pub open spec fn update_spec(self, ev: NetworkFlowEvent, now: u64) -> FlowStats {
        FlowStats {
            bytes: sat_add(self.bytes, ev.packet_len as u64),
            packets: sat_add(self.packets, 1),
            first_seen: self.first_seen,
            last_seen: if now > self.last_seen {
                now
            } else {
                self.last_seen
            },
            first_seen_ns: if ev.timestamp_ns < self.first_seen_ns {
                ev.timestamp_ns
            } else {
                self.first_seen_ns
            },
            last_seen_ns: if ev.timestamp_ns > self.last_seen_ns {
                ev.timestamp_ns
            } else {
                self.last_seen_ns
            },
        }
    }

    /// Create the statistics for a newly observed flow.
    pub fn new(event: &NetworkFlowEvent, now: u64) -> (r: FlowStats)
        ensures
            r == FlowStats::init_spec(*event, now),
    {
        FlowStats {
            bytes: event.packet_len as u64,
            packets: 1,
            first_seen: now,
            last_seen: now,
            first_seen_ns: event.timestamp_ns,
            last_seen_ns: event.timestamp_ns,
        }
    }

    /// Fold one more packet into the statistics.
    pub fn update(&mut self, event: &NetworkFlowEvent, now: u64)
        ensures
            *final(self) == old(self).update_spec(*event, now),
    {
        self.bytes = sat_add_exec(self.bytes, event.packet_len as u64);
        self.packets = sat_add_exec(self.packets, 1);
        if now > self.last_seen {
            self.last_seen = now;
        }
        if event.timestamp_ns < self.first_seen_ns {
            self.first_seen_ns = event.timestamp_ns;
        }
        if event.timestamp_ns > self.last_seen_ns {
            self.last_seen_ns = event.timestamp_ns;
        }
    }
}

/// Law: statistics move one way. An update never decreases the byte or
/// packet counters or the last-seen instants, and never moves the
/// first-seen capture timestamp forward — whatever timestamp the update
/// carries.
pub proof fn lemma_stats_monotonic(s: FlowStats, ev: NetworkFlowEvent, now: u64)
    ensures
        s.update_spec(ev, now).bytes >= s.bytes,
        s.update_spec(ev, now).packets >= s.packets,
        s.update_spec(ev, now).last_seen >= s.last_seen,
        s.update_spec(ev, now).last_seen_ns >= s.last_seen_ns,
        s.update_spec(ev, now).first_seen_ns <= s.first_seen_ns,
        s.update_spec(ev, now).first_seen == s.first_seen,
{
}

/// The contents of a flow table: each stored key's image mapped to the
/// stored statistics.
pub uninterp spec fn flow_entries(m: dashmap::DashMap<FlowKey, FlowStats>) -> Map<
    FlowKeyV,
    FlowStats,
>;

/// The empty flow-table contents.
pub open spec fn no_flow_entries() -> Map<FlowKeyV, FlowStats> {
    Map::empty()
}

/// Relies on dashmap::DashMap::new: a fresh map holds no entries.
#[verifier::external_body]
fn flow_map_new() -> (r: dashmap::DashMap<FlowKey, FlowStats>)
    ensures
        flow_entries(r) == no_flow_entries(),
{
    dashmap::DashMap::new()
}

/// Relies on dashmap::DashMap::get: returns the statistics stored under a
/// key equal to the given one, or nothing when no such key is stored.
#[verifier::external_body]
fn flow_map_get(m: &dashmap::DashMap<FlowKey, FlowStats>, k: &FlowKey) -> (r: Option<FlowStats>)
    ensures
        match r {
            Some(v) => flow_entries(*m).contains_key(k@) && v == flow_entries(*m)[k@],
            None => !flow_entries(*m).contains_key(k@),
        },
{
    m.get(k).map(|e| *e.value())
}

/// Relies on dashmap::DashMap::insert: stores the statistics under the
/// key, replacing any prior entry for an equal key and touching no other.
#[verifier::external_body]
fn flow_map_insert(m: &mut dashmap::DashMap<FlowKey, FlowStats>, k: FlowKey, v: FlowStats)
    ensures
        flow_entries(*final(m)) == flow_entries(*old(m)).insert(k@, v),
{
    m.insert(k, v);
}

/// True when the flow was last seen after the cutoff; the retain wrapper
/// below hands this predicate to dashmap.
fn stats_recent(s: &FlowStats, cutoff: u64) -> (r: bool)
    ensures
        r == (s.last_seen > cutoff),
{
    s.last_seen > cutoff
}

/// Relies on dashmap::DashMap::retain: keeps exactly the entries on which
/// the predicate returns true, and keeps them unchanged; the predicate
/// here is `stats_recent`.
#[verifier::external_body]
fn flow_map_retain_recent(m: &mut dashmap::DashMap<FlowKey, FlowStats>, cutoff: u64)
    ensures
        forall|k: FlowKeyV|
            flow_entries(*final(m)).contains_key(k) <==> (flow_entries(*old(m)).contains_key(k)
                && flow_entries(*old(m))[k].last_seen > cutoff),
        forall|k: FlowKeyV|
            flow_entries(*final(m)).contains_key(k) ==> flow_entries(*final(m))[k] == flow_entries(
                *old(m),
            )[k],
{
    m.retain(|_, v| stats_recent(v, cutoff));
}

/// Relies on dashmap::DashMap::len: the number of entries in the map.
#[verifier::external_body]
fn flow_map_len(m: &dashmap::DashMap<FlowKey, FlowStats>) -> (r: usize)
    ensures
        r == flow_entries(*m).len(),
{
    m.len()
}

/// Relies on dashmap::DashMap::iter: yields each entry exactly once, in
/// an unspecified order; keys come out as clones.
#[verifier::external_body]
fn flow_map_pairs(m: &dashmap::DashMap<FlowKey, FlowStats>) -> (r: Vec<(FlowKey, FlowStats)>)
    ensures
        forall|i: int|
            0 <= i < r@.len() ==> flow_entries(*m).contains_key(#[trigger] r@[i].0@) && r@[i].1
                == flow_entries(*m)[r@[i].0@],
        forall|k: FlowKeyV|
            flow_entries(*m).contains_key(k) ==> exists|i: int|
                0 <= i < r@.len() && #[trigger] r@[i].0@ == k,
        forall|i: int, j: int| 0 <= i < j < r@.len() ==> r@[i].0@ != r@[j].0@,
{
    m.iter().map(|e| (e.key().clone(), *e.value())).collect()
}

/// The namespace and pod name an event is attributed to, following the
/// resolution order of the aggregator: the cgroup id when it is nonzero
/// and cached; else the pod IP on the side named by the direction
/// (ingress reads the destination, egress the source), then the other
/// side; else a label built from the cgroup id when there is one, and
/// ("external", "unknown") when there is nothing at all to go by.
pub open spec fn attribution(
    by_cgroup: Map<u64, PodMetadataV>,
    by_ip: Map<u64, PodMetadataV>,
    ev: NetworkFlowEvent,
) -> (Seq<char>, Seq<char>) {
    if ev.cgroup_id != 0 && by_cgroup.contains_key(ev.cgroup_id) {
        (by_cgroup[ev.cgroup_id].namespace, by_cgroup[ev.cgroup_id].pod_name)
    } else {
        let primary = if ev.direction == INGRESS {
            ev.dst_ip
        } else {
            ev.src_ip
        };
        let other = if ev.direction == INGRESS {
            ev.src_ip
        } else {
            ev.dst_ip
        };
        if by_ip.contains_key(primary as u64) {
            (by_ip[primary as u64].namespace, by_ip[primary as u64].pod_name)
        } else if by_ip.contains_key(other as u64) {
            (by_ip[other as u64].namespace, by_ip[other as u64].pod_name)
        } else if ev.cgroup_id != 0 {
            ("unknown"@, "cgroup-"@ + dec_rep(ev.cgroup_id as nat))
        } else {
            ("external"@, "unknown"@)
        }
    }
}

/// The flow key an event lands under, given the cache contents.
pub open spec fn event_key(
    by_cgroup: Map<u64, PodMetadataV>,
    by_ip: Map<u64, PodMetadataV>,
    ev: NetworkFlowEvent,
) -> FlowKeyV {
    let names = attribution(by_cgroup, by_ip, ev);
    FlowKeyV {
        namespace: names.0,
        pod_name: names.1,
        src_ip: ev.src_ip,
        dst_ip: ev.dst_ip,
        src_port: ev.src_port,
        dst_port: ev.dst_port,
        protocol: ev.protocol,
        direction: ev.direction,
    }
}

/// One step of aggregation: the event's key is created or updated.
pub open spec fn apply_event(
    flows: Map<FlowKeyV, FlowStats>,
    by_cgroup: Map<u64, PodMetadataV>,
    by_ip: Map<u64, PodMetadataV>,
    ev: NetworkFlowEvent,
    now: u64,
) -> Map<FlowKeyV, FlowStats> {
    let k = event_key(by_cgroup, by_ip, ev);
    if flows.contains_key(k) {
        flows.insert(k, flows[k].update_spec(ev, now))
    } else {
        flows.insert(k, FlowStats::init_spec(ev, now))
    }
}

/// Resolve the namespace and pod name for an event from the cache,
/// together with the container name when the cgroup id was the match.
fn resolve_attribution(cache: &PodCache, event: &NetworkFlowEvent) -> (r: (String, String, String))
    ensures
        (r.0@, r.1@) == attribution(cache.cgroup_view(), cache.ip_view(), *event),
        r.2@ == (if event.cgroup_id != 0 && cache.cgroup_view().contains_key(event.cgroup_id) {
            cache.cgroup_view()[event.cgroup_id].container_name
        } else {
            "unknown"@
        }),
{
    if event.cgroup_id != 0 {
        if let Some(m) = cache.get(event.cgroup_id) {
            return (m.namespace, m.pod_name, m.container_name);
        }
    }
    let primary = if event.direction == INGRESS {
        event.dst_ip
    } else {
        event.src_ip
    };
    let other = if event.direction == INGRESS {
        event.src_ip
    } else {
        event.dst_ip
    };
    if let Some(m) = cache.get_by_ip(primary) {
        return (m.namespace, m.pod_name, String::from_str("unknown"));
    }
    if let Some(m) = cache.get_by_ip(other) {
        return (m.namespace, m.pod_name, String::from_str("unknown"));
    }
    if event.cgroup_id != 0 {
        let mut pod_label = String::from_str("cgroup-");
        let id_dec = u64_to_dec(event.cgroup_id);
        pod_label.append(id_dec.as_str());
        (String::from_str("unknown"), pod_label, String::from_str("unknown"))
    } else {
        (String::from_str("external"), String::from_str("unknown"), String::from_str("unknown"))
    }
}

/// True when the namespace filter accepts the namespace: an empty filter
/// accepts everything.
pub open spec fn ns_match(filter: Seq<String>, ns: Seq<char>) -> bool {
    filter.len() == 0 || exists|i: int| 0 <= i < filter.len() && filter[i]@ == ns
}

/// Whether one of the strings in the list reads the same as the given one.
pub(crate) fn contains_string(list: &[String], s: &String) -> (r: bool)
    ensures
        r == exists|i: int| 0 <= i < list@.len() && list@[i]@ == s@,
{
    let mut idx: usize = 0;
    while idx < list.len()
        invariant
            0 <= idx <= list@.len(),
            forall|i: int| 0 <= i < idx ==> list@[i]@ != s@,
        decreases list@.len() - idx,
    {
        if list[idx] == *s {
            return true;
        }
        idx += 1;
    }
    false
}

/// Flow aggregator: exclusively owns the flow table and the event
/// counters. Pod attribution reads a cache handed in by the caller.
pub struct FlowAggregator {
    flows: dashmap::DashMap<FlowKey, FlowStats>,
    events_processed: u64,
    events_dropped: u64,
    flow_timeout_ms: u64,
}

impl FlowAggregator {
    /// The aggregated flows.
    pub closed spec fn flow_view(&self) -> Map<FlowKeyV, FlowStats> {
        flow_entries(self.flows)
    }

    /// How many events have been folded in.
    pub closed spec fn processed(&self) -> u64 {
        self.events_processed
    }

    /// How many events were dropped before aggregation.
    pub closed spec fn dropped(&self) -> u64 {
        self.events_dropped
    }

    /// The idle timeout, in milliseconds, after which a flow expires.
    pub closed spec fn timeout_ms(&self) -> u64 {
        self.flow_timeout_ms
    }

    /// The flow table has finitely many entries.
    pub closed spec fn wf(&self) -> bool {
        self.flow_view().dom().finite()
    }

    /// Create a new flow aggregator with the default 30-second timeout.
    pub fn new() -> (r: Self)
        ensures
            r.wf(),
            r.flow_view() == no_flow_entries(),
            r.processed() == 0,
            r.dropped() == 0,
            r.timeout_ms() == 30_000,
    {
        FlowAggregator {
            flows: flow_map_new(),
            events_processed: 0,
            events_dropped: 0,
            flow_timeout_ms: 30_000,
        }
    }

    /// Fold one event into the flow table: attribute it through the
    /// cache, create or update its flow, count it, and hand back the
    /// enriched event for broadcasting.
    pub fn process_event(
        &mut self,
        cache: &PodCache,
        event: &NetworkFlowEvent,
        now_ms: u64,
    ) -> (r: EnrichedEvent)
        requires
            old(self).wf(),
        ensures
            final(self).wf(),
            final(self).flow_view() == apply_event(
                old(self).flow_view(),
                cache.cgroup_view(),
                cache.ip_view(),
                *event,
                now_ms,
            ),
            final(self).processed() == sat_add(old(self).processed(), 1),
            final(self).dropped() == old(self).dropped(),
            final(self).timeout_ms() == old(self).timeout_ms(),
            (r.namespace@, r.pod_name@) == attribution(
                cache.cgroup_view(),
                cache.ip_view(),
                *event,
            ),
            r.container_name@ == (if event.cgroup_id != 0 && cache.cgroup_view().contains_key(
                event.cgroup_id,
            ) {
                cache.cgroup_view()[event.cgroup_id].container_name
            } else {
                "unknown"@
            }),
            r.timestamp_ns == event.timestamp_ns,
            r.src_ip == event.src_ip && r.dst_ip == event.dst_ip,
            r.src_port == event.src_port && r.dst_port == event.dst_port,
            r.protocol == event.protocol && r.direction == event.direction,
            r.packet_len == event.packet_len,
    {
        self.events_processed = sat_add_exec(self.events_processed, 1);
        let names = resolve_attribution(cache, event);
        let key = FlowKey {
            namespace: names.0.clone(),
            pod_name: names.1.clone(),
            src_ip: event.src_ip,
            dst_ip: event.dst_ip,
            src_port: event.src_port,
            dst_port: event.dst_port,
            protocol: event.protocol,
            direction: event.direction,
        };
        let stats = match flow_map_get(&self.flows, &key) {
            Some(mut s) => {
                s.update(event, now_ms);
                s
            },
            None => FlowStats::new(event, now_ms),
        };
        flow_map_insert(&mut self.flows, key, stats);
        EnrichedEvent {
            timestamp_ns: event.timestamp_ns,
            namespace: names.0,
            pod_name: names.1,
            container_name: names.2,
            src_ip: event.src_ip,
            dst_ip: event.dst_ip,
            src_port: event.src_port,
            dst_port: event.dst_port,
            protocol: event.protocol,
            direction: event.direction,
            packet_len: event.packet_len,
        }
    }

    /// All flows whose namespace the filter accepts, each exactly once,
    /// in an unspecified order. An empty filter accepts every flow.
    pub fn get_flows(&self, namespaces: &[String]) -> (r: Vec<(FlowKey, FlowStats)>)
        ensures
            forall|i: int|
                0 <= i < r@.len() ==> self.flow_view().contains_key(#[trigger] r@[i].0@) && r@[i].1
                    == self.flow_view()[r@[i].0@] && ns_match(namespaces@, r@[i].0@.namespace),
            forall|k: FlowKeyV|
                self.flow_view().contains_key(k) && ns_match(namespaces@, k.namespace)
                    ==> exists|i: int| 0 <= i < r@.len() && #[trigger] r@[i].0@ == k,
            forall|i: int, j: int| 0 <= i < j < r@.len() ==> r@[i].0@ != r@[j].0@,
    {
        let pairs = flow_map_pairs(&self.flows);
        let mut r: Vec<(FlowKey, FlowStats)> = Vec::new();
        let mut idx: usize = 0;
        while idx < pairs.len()
            invariant
                0 <= idx <= pairs@.len(),
                forall|i: int|
                    0 <= i < pairs@.len() ==> self.flow_view().contains_key(#[trigger] pairs@[i].0@)
                        && pairs@[i].1 == self.flow_view()[pairs@[i].0@],
                forall|k: FlowKeyV|
                    self.flow_view().contains_key(k) ==> exists|i: int|
                        0 <= i < pairs@.len() && #[trigger] pairs@[i].0@ == k,
                forall|i: int, j: int| 0 <= i < j < pairs@.len() ==> pairs@[i].0@ != pairs@[j].0@,
                forall|i: int|
                    0 <= i < r@.len() ==> self.flow_view().contains_key(#[trigger] r@[i].0@)
                        && r@[i].1 == self.flow_view()[r@[i].0@] && ns_match(
                        namespaces@,
                        r@[i].0@.namespace,
                    ),
                forall|j: int|
                    0 <= j < idx && ns_match(namespaces@, pairs@[j].0@.namespace) ==> exists|i: int|
                        0 <= i < r@.len() && #[trigger] r@[i].0@ == pairs@[j].0@,
                forall|i: int|
                    0 <= i < r@.len() ==> exists|j: int|
                        0 <= j < idx && #[trigger] r@[i].0@ == pairs@[j].0@,
                forall|i: int, j: int| 0 <= i < j < r@.len() ==> r@[i].0@ != r@[j].0@,
            decreases pairs@.len() - idx,
        {
            let ghost r_prev = r@;
            let keep = namespaces.len() == 0 || contains_string(
                namespaces,
                &pairs[idx].0.namespace,
            );
            if keep {
                let k = &pairs[idx].0;
                let entry_key = FlowKey {
                    namespace: k.namespace.clone(),
                    pod_name: k.pod_name.clone(),
                    src_ip: k.src_ip,
                    dst_ip: k.dst_ip,
                    src_port: k.src_port,
                    dst_port: k.dst_port,
                    protocol: k.protocol,
                    direction: k.direction,
                };
                proof {
                    assert(entry_key@ == pairs@[idx as int].0@);
                }
                r.push((entry_key, pairs[idx].1));
                proof {
                    let last = r@.len() - 1;
                    assert(forall|i: int| 0 <= i < r_prev.len() ==> r@[i] == r_prev[i]);
                    assert(r@[last].0@ == pairs@[idx as int].0@);
                    assert forall|i: int| 0 <= i < last implies r@[i].0@ != r@[last].0@ by {
                        let j = choose|j: int|
                            0 <= j < idx && #[trigger] r_prev[i].0@ == pairs@[j].0@;
                        assert(pairs@[j].0@ != pairs@[idx as int].0@);
                    }
                    assert forall|j: int|
                        0 <= j < idx + 1 && ns_match(
                            namespaces@,
                            pairs@[j].0@.namespace,
                        ) implies exists|i: int|
                        0 <= i < r@.len() && #[trigger] r@[i].0@ == pairs@[j].0@ by {
                        if j < idx {
                            let i = choose|i: int|
                                0 <= i < r_prev.len() && #[trigger] r_prev[i].0@ == pairs@[j].0@;
                            assert(r@[i].0@ == pairs@[j].0@);
                        } else {
                            assert(r@[last].0@ == pairs@[j].0@);
                        }
                    }
                }
            } else {
                proof {
                    assert(!ns_match(namespaces@, pairs@[idx as int].0@.namespace));
                }
            }
            idx += 1;
        }
        r
    }

    /// The number of active flows.
    pub fn active_flow_count(&self) -> (r: usize)
        ensures
            r == self.flow_view().len(),
    {
        flow_map_len(&self.flows)
    }

    /// The total number of events folded in.
    pub fn events_processed(&self) -> (r: u64)
        ensures
            r == self.processed(),
    {
        self.events_processed
    }

    /// The total number of events dropped before aggregation.
    pub fn events_dropped(&self) -> (r: u64)
        ensures
            r == self.dropped(),
    {
        self.events_dropped
    }

    /// Count events that were dropped before aggregation (malformed ring
    /// records, self-traffic is not counted here).
    pub fn record_dropped(&mut self, n: u64)
        requires
            old(self).wf(),
        ensures
            final(self).wf(),
            final(self).dropped() == sat_add(old(self).dropped(), n),
            final(self).flow_view() == old(self).flow_view(),
            final(self).processed() == old(self).processed(),
            final(self).timeout_ms() == old(self).timeout_ms(),
    {
        self.events_dropped = sat_add_exec(self.events_dropped, n);
    }

    /// Drop every flow idle since the cutoff: entries whose last-seen
    /// instant is at or before `now - timeout` go away, the rest stay
    /// untouched. Returns how many entries went away.
    pub fn expire_old_flows(&mut self, now_ms: u64) -> (r: usize)
        requires
            old(self).wf(),
        ensures
            final(self).wf(),
            final(self).flow_view() == live_flows(
                old(self).flow_view(),
                expire_cutoff(now_ms, old(self).timeout_ms()),
            ),
            final(self).processed() == old(self).processed(),
            final(self).dropped() == old(self).dropped(),
            final(self).timeout_ms() == old(self).timeout_ms(),
            r == old(self).flow_view().len() - final(self).flow_view().len(),
    {
        let cutoff = if now_ms >= self.flow_timeout_ms {
            now_ms - self.flow_timeout_ms
        } else {
            0
        };
        let before = flow_map_len(&self.flows);
        flow_map_retain_recent(&mut self.flows, cutoff);
        let after = flow_map_len(&self.flows);
        proof {
            lemma_len_subset(self.flow_view().dom(), old(self).flow_view().dom());
            assert(self.flow_view() =~= live_flows(old(self).flow_view(), cutoff));
        }
        before - after
    }
}

/// True when the event's source or destination port equals the agent's
/// own listen port: observing it would feed the observer back into the
/// flow table.
pub open spec fn self_traffic(ev: NetworkFlowEvent, listen_port: u16) -> bool {
    ev.src_port == listen_port || ev.dst_port == listen_port
}

/// Whether the event is the agent's own traffic.
pub fn is_self_traffic(event: &NetworkFlowEvent, listen_port: u16) -> (r: bool)
    ensures
        r == self_traffic(*event, listen_port),
{
    event.src_port == listen_port || event.dst_port == listen_port
}

/// A batch of events folded left to right, skipping self-traffic.
pub open spec fn apply_batch(
    flows: Map<FlowKeyV, FlowStats>,
    by_cgroup: Map<u64, PodMetadataV>,
    by_ip: Map<u64, PodMetadataV>,
    evs: Seq<NetworkFlowEvent>,
    now: u64,
    listen_port: u16,
) -> Map<FlowKeyV, FlowStats>
    decreases evs.len(),
{
    if evs.len() == 0 {
        flows
    } else {
        let prior = apply_batch(flows, by_cgroup, by_ip, evs.drop_last(), now, listen_port);
        if self_traffic(evs.last(), listen_port) {
            prior
        } else {
            apply_event(prior, by_cgroup, by_ip, evs.last(), now)
        }
    }
}

/// How many events of a batch are not self-traffic.
pub open spec fn non_self_count(evs: Seq<NetworkFlowEvent>, listen_port: u16) -> int
    decreases evs.len(),
{
    if evs.len() == 0 {
        0
    } else {
        non_self_count(evs.drop_last(), listen_port) + if self_traffic(evs.last(), listen_port) {
            0int
        } else {
            1int
        }
    }
}

/// The processed counter after a batch: one per event that is not
/// self-traffic, saturating at the top of the range.
pub open spec fn processed_after(p: u64, evs: Seq<NetworkFlowEvent>, listen_port: u16) -> u64
    decreases evs.len(),
{
    if evs.len() == 0 {
        p
    } else {
        let q = processed_after(p, evs.drop_last(), listen_port);
        if self_traffic(evs.last(), listen_port) {
            q
        } else {
            sat_add(q, 1)
        }
    }
}

impl FlowAggregator {
    /// Fold a drained batch into the flow table: self-traffic is
    /// discarded before aggregation, every other event is attributed,
    /// counted and folded in; the enriched events come back for
    /// broadcasting, in batch order.
    pub fn process_batch(
        &mut self,
        cache: &PodCache,
        events: &Vec<NetworkFlowEvent>,
        listen_port: u16,
        now_ms: u64,
    ) -> (r: Vec<EnrichedEvent>)
        requires
            old(self).wf(),
        ensures
            final(self).wf(),
            final(self).flow_view() == apply_batch(
                old(self).flow_view(),
                cache.cgroup_view(),
                cache.ip_view(),
                events@,
                now_ms,
                listen_port,
            ),
            final(self).processed() == processed_after(
                old(self).processed(),
                events@,
                listen_port,
            ),
            final(self).dropped() == old(self).dropped(),
            final(self).timeout_ms() == old(self).timeout_ms(),
            r@.len() == non_self_count(events@, listen_port),
    {
        let mut out: Vec<EnrichedEvent> = Vec::new();
        let mut i: usize = 0;
        while i < events.len()
            invariant
                old(self).wf(),
                self.wf(),
                0 <= i <= events@.len(),
                self.flow_view() == apply_batch(
                    old(self).flow_view(),
                    cache.cgroup_view(),
                    cache.ip_view(),
                    events@.subrange(0, i as int),
                    now_ms,
                    listen_port,
                ),
                self.processed() == processed_after(
                    old(self).processed(),
                    events@.subrange(0, i as int),
                    listen_port,
                ),
                self.dropped() == old(self).dropped(),
                self.timeout_ms() == old(self).timeout_ms(),
                out@.len() == non_self_count(events@.subrange(0, i as int), listen_port),
            decreases events@.len() - i,
        {
            proof {
                assert(events@.subrange(0, i + 1).drop_last() =~= events@.subrange(0, i as int));
                assert(events@.subrange(0, i + 1).last() == events@[i as int]);
            }
            if !is_self_traffic(&events[i], listen_port) {
                let enriched = self.process_event(cache, &events[i], now_ms);
                out.push(enriched);
            }
            i += 1;
        }
        proof {
            assert(events@.subrange(0, events@.len() as int) =~= events@);
        }
        out
    }
}

/// Law: self-traffic suppression. When no flow in the table touches the
/// listen port, folding in any batch leaves the table still free of it:
/// an event on the listen port never appears in a snapshot.
pub proof fn lemma_no_self_traffic_in_flows(
    flows: Map<FlowKeyV, FlowStats>,
    by_cgroup: Map<u64, PodMetadataV>,
    by_ip: Map<u64, PodMetadataV>,
    evs: Seq<NetworkFlowEvent>,
    now: u64,
    listen_port: u16,
)
    requires
        forall|k: FlowKeyV|
            flows.contains_key(k) ==> k.src_port != listen_port && k.dst_port != listen_port,
    ensures
        forall|k: FlowKeyV|
            apply_batch(flows, by_cgroup, by_ip, evs, now, listen_port).contains_key(k)
                ==> k.src_port != listen_port && k.dst_port != listen_port,
    decreases evs.len(),
{
    if evs.len() > 0 {
        lemma_no_self_traffic_in_flows(
            flows,
            by_cgroup,
            by_ip,
            evs.drop_last(),
            now,
            listen_port,
        );
        let prior = apply_batch(flows, by_cgroup, by_ip, evs.drop_last(), now, listen_port);
        let ev = evs.last();
        if !self_traffic(ev, listen_port) {
            let k = event_key(by_cgroup, by_ip, ev);
            assert(k.src_port == ev.src_port && k.dst_port == ev.dst_port);
        }
    }
}

/// The statistics after a first event and a sequence of further events,
/// each paired with the wall-clock instant at which it was folded in.
pub open spec fn stats_fold(
    first: NetworkFlowEvent,
    first_now: u64,
    rest: Seq<(NetworkFlowEvent, u64)>,
) -> FlowStats
    decreases rest.len(),
{
    if rest.len() == 0 {
        FlowStats::init_spec(first, first_now)
    } else {
        stats_fold(first, first_now, rest.drop_last()).update_spec(rest.last().0, rest.last().1)
    }
}

/// Total wire length of a first event and the events after it.
pub open spec fn total_len(first: NetworkFlowEvent, rest: Seq<(NetworkFlowEvent, u64)>) -> int
    decreases rest.len(),
{
    if rest.len() == 0 {
        first.packet_len as int
    } else {
        total_len(first, rest.drop_last()) + rest.last().0.packet_len
    }
}

/// Law: for any sequence of events folded into one flow, the final
/// statistics hold the byte total, the packet count, and the least and
/// greatest capture timestamps of the whole sequence — whatever order
/// the events arrived in.
pub proof fn lemma_flow_stats_accumulate(
    first: NetworkFlowEvent,
    first_now: u64,
    rest: Seq<(NetworkFlowEvent, u64)>,
)
    requires
        total_len(first, rest) <= u64::MAX,
        1 + rest.len() <= u64::MAX,
    ensures
        stats_fold(first, first_now, rest).bytes == total_len(first, rest),
        stats_fold(first, first_now, rest).packets == 1 + rest.len(),
        stats_fold(first, first_now, rest).first_seen_ns <= first.timestamp_ns,
        stats_fold(first, first_now, rest).last_seen_ns >= first.timestamp_ns,
        forall|i: int|
            0 <= i < rest.len() ==> stats_fold(first, first_now, rest).first_seen_ns <= #[trigger] rest[i].0.timestamp_ns
                && stats_fold(first, first_now, rest).last_seen_ns >= rest[i].0.timestamp_ns,
        stats_fold(first, first_now, rest).first_seen_ns == first.timestamp_ns || exists|i: int|
            0 <= i < rest.len() && #[trigger] rest[i].0.timestamp_ns == stats_fold(
                first,
                first_now,
                rest,
            ).first_seen_ns,
        stats_fold(first, first_now, rest).last_seen_ns == first.timestamp_ns || exists|i: int|
            0 <= i < rest.len() && #[trigger] rest[i].0.timestamp_ns == stats_fold(
                first,
                first_now,
                rest,
            ).last_seen_ns,
    decreases rest.len(),
{
    if rest.len() > 0 {
        let prefix = rest.drop_last();
        assert(total_len(first, rest) == total_len(first, prefix) + rest.last().0.packet_len);
        lemma_flow_stats_accumulate(first, first_now, prefix);
        let s = stats_fold(first, first_now, prefix);
        let t = stats_fold(first, first_now, rest);
        assert(t == s.update_spec(rest.last().0, rest.last().1));
        assert(forall|i: int| 0 <= i < prefix.len() ==> prefix[i] == rest[i]);
        if t.first_seen_ns != first.timestamp_ns {
            if s.first_seen_ns == t.first_seen_ns {
                let i = choose|i: int|
                    0 <= i < prefix.len() && #[trigger] prefix[i].0.timestamp_ns == s.first_seen_ns;
                assert(rest[i].0.timestamp_ns == t.first_seen_ns);
            } else {
                assert(rest[rest.len() - 1].0.timestamp_ns == t.first_seen_ns);
            }
        }
        if t.last_seen_ns != first.timestamp_ns {
            if s.last_seen_ns == t.last_seen_ns {
                let i = choose|i: int|
                    0 <= i < prefix.len() && #[trigger] prefix[i].0.timestamp_ns == s.last_seen_ns;
                assert(rest[i].0.timestamp_ns == t.last_seen_ns);
            } else {
                assert(rest[rest.len() - 1].0.timestamp_ns == t.last_seen_ns);
            }
        }
    }
}

/// Aggregation of a sequence of events, each paired with its arrival
/// instant.
pub open spec fn apply_events(
    flows: Map<FlowKeyV, FlowStats>,
    by_cgroup: Map<u64, PodMetadataV>,
    by_ip: Map<u64, PodMetadataV>,
    evs: Seq<(NetworkFlowEvent, u64)>,
) -> Map<FlowKeyV, FlowStats>
    decreases evs.len(),
{
    if evs.len() == 0 {
        flows
    } else {
        apply_event(
            apply_events(flows, by_cgroup, by_ip, evs.drop_last()),
            by_cgroup,
            by_ip,
            evs.last().0,
            evs.last().1,
        )
    }
}

/// Law: a sequence of events that all land under one fresh flow key
/// accumulates into exactly the fold of their statistics, and no other
/// flow is touched.
pub proof fn lemma_same_key_accumulates(
    flows: Map<FlowKeyV, FlowStats>,
    by_cgroup: Map<u64, PodMetadataV>,
    by_ip: Map<u64, PodMetadataV>,
    first: NetworkFlowEvent,
    first_now: u64,
    rest: Seq<(NetworkFlowEvent, u64)>,
)
    requires
        !flows.contains_key(event_key(by_cgroup, by_ip, first)),
        forall|i: int|
            0 <= i < rest.len() ==> event_key(by_cgroup, by_ip, #[trigger] rest[i].0) == event_key(
                by_cgroup,
                by_ip,
                first,
            ),
    ensures
        apply_events(flows, by_cgroup, by_ip, seq![(first, first_now)] + rest).contains_key(
            event_key(by_cgroup, by_ip, first),
        ),
        apply_events(flows, by_cgroup, by_ip, seq![(first, first_now)] + rest)[event_key(
            by_cgroup,
            by_ip,
            first,
        )] == stats_fold(first, first_now, rest),
        forall|k2: FlowKeyV|
            k2 != event_key(by_cgroup, by_ip, first) ==> ((#[trigger] apply_events(
                flows,
                by_cgroup,
                by_ip,
                seq![(first, first_now)] + rest,
            ).contains_key(k2)) <==> flows.contains_key(k2)),
        forall|k2: FlowKeyV|
            k2 != event_key(by_cgroup, by_ip, first) && flows.contains_key(k2)
                ==> #[trigger] apply_events(
                flows,
                by_cgroup,
                by_ip,
                seq![(first, first_now)] + rest,
            )[k2] == flows[k2],
    decreases rest.len(),
{
    let all = seq![(first, first_now)] + rest;
    let k = event_key(by_cgroup, by_ip, first);
    let m = apply_events(flows, by_cgroup, by_ip, all);
    if rest.len() == 0 {
        assert(all.drop_last() =~= Seq::<(NetworkFlowEvent, u64)>::empty());
        assert(apply_events(flows, by_cgroup, by_ip, all.drop_last()) == flows);
        assert(all.last().0 == first && all.last().1 == first_now);
        assert(m == flows.insert(k, FlowStats::init_spec(first, first_now)));
        assert(m[k] == stats_fold(first, first_now, rest));
        assert forall|k2: FlowKeyV| k2 != k implies ((m.contains_key(k2) <==> flows.contains_key(
            k2,
        )) && (flows.contains_key(k2) ==> m[k2] == flows[k2])) by {}
    } else {
        assert(all.drop_last() =~= seq![(first, first_now)] + rest.drop_last());
        assert(forall|i: int| 0 <= i < rest.len() - 1 ==> rest.drop_last()[i] == rest[i]);
        lemma_same_key_accumulates(flows, by_cgroup, by_ip, first, first_now, rest.drop_last());
        let mprev = apply_events(flows, by_cgroup, by_ip, seq![(first, first_now)] + rest.drop_last());
        assert(mprev == apply_events(flows, by_cgroup, by_ip, all.drop_last()));
        assert(mprev.contains_key(k));
        assert(mprev[k] == stats_fold(first, first_now, rest.drop_last()));
        assert(all.last() == rest.last());
        assert(event_key(by_cgroup, by_ip, rest[rest.len() - 1].0) == k);
        assert(m == apply_event(mprev, by_cgroup, by_ip, rest.last().0, rest.last().1));
        assert(m == mprev.insert(k, mprev[k].update_spec(rest.last().0, rest.last().1)));
        assert(m[k] == stats_fold(first, first_now, rest));
        assert forall|k2: FlowKeyV| k2 != k implies ((m.contains_key(k2) <==> flows.contains_key(
            k2,
        )) && (flows.contains_key(k2) ==> m[k2] == flows[k2])) by {
            assert(mprev.contains_key(k2) <==> flows.contains_key(k2));
            if flows.contains_key(k2) {
                assert(mprev[k2] == flows[k2]);
            }
        }
    }
    assert(m.contains_key(k));
}

/// The expiry cutoff: `now - timeout`, stopping at zero.
pub open spec fn expire_cutoff(now: u64, timeout: u64) -> u64 {
    if now >= timeout {
        (now - timeout) as u64
    } else {
        0
    }
}

/// The flows still live at a cutoff: exactly those last seen after it.
pub open spec fn live_flows(m: Map<FlowKeyV, FlowStats>, cutoff: u64) -> Map<FlowKeyV, FlowStats> {
    Map::new(|k: FlowKeyV| m.contains_key(k) && m[k].last_seen > cutoff, |k: FlowKeyV| m[k])
}

/// Law: the expirer is idempotent. A second sweep at the same cutoff,
/// with no new events in between, leaves the table exactly as the first
/// sweep left it.
pub proof fn lemma_expire_idempotent(m: Map<FlowKeyV, FlowStats>, cutoff: u64)
    ensures
        live_flows(live_flows(m, cutoff), cutoff) == live_flows(m, cutoff),
{
    assert(live_flows(live_flows(m, cutoff), cutoff) =~= live_flows(m, cutoff));
}

/// The conventional name of a protocol number.
pub open spec fn protocol_rep(p: u8) -> Seq<char> {
    if p == ICMP {
        "ICMP"@
    } else if p == TCP {
        "TCP"@
    } else if p == UDP {
        "UDP"@
    } else {
        "OTHER"@
    }
}

/// The word for a direction flag.
pub open spec fn direction_rep(d: u8) -> Seq<char> {
    if d == 0 {
        "ingress"@
    } else if d == 1 {
        "egress"@
    } else {
        "unknown"@
    }
}

/// Format a protocol number as its conventional name.
pub fn format_protocol(protocol: u8) -> (r: &'static str)
    ensures
        r@ == protocol_rep(protocol),
{
    if protocol == ICMP {
        "ICMP"
    } else if protocol == TCP {
        "TCP"
    } else if protocol == UDP {
        "UDP"
    } else {
        "OTHER"
    }
}

/// Format a direction flag as a word.
pub fn format_direction(direction: u8) -> (r: &'static str)
    ensures
        r@ == direction_rep(direction),
{
    if direction == 0 {
        "ingress"
    } else if direction == 1 {
        "egress"
    } else {
        "unknown"
    }
}

} // verus!
