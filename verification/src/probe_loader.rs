//! Around the kernel probes: decoding drained ring records, the
//! pre-flight kernel check, and the choice of interfaces to monitor.
//!
//! The callers hand in plain values — the raw byte records drained from
//! the kernel ring, the kernel release string, which interfaces exist —
//! and every decision on them is made here.

use vstd::prelude::*;
use vstd::string::StringExecFns;
use crate::aggregator::contains_string;
use crate::common::{decode_event, record_of_bytes, NetworkFlowEvent, EVENT_SIZE};
use crate::decimal::numeral_val;
use crate::error::Orb8Error;
use crate::ipv4::digit_run_end;

verus! {

/// The most records one poll tick decodes.
pub const MAX_BATCH_SIZE: usize = 1024;

/// The records decoded from a drained batch: each 32-byte item in order;
/// items of any other size are malformed and skipped.
pub open spec fn decoded_events(items: Seq<Vec<u8>>) -> Seq<NetworkFlowEvent>
    decreases items.len(),
{
    if items.len() == 0 {
        Seq::empty()
    } else {
        let prev = decoded_events(items.drop_last());
        if items.last()@.len() == EVENT_SIZE {
            prev.push(record_of_bytes(items.last()@))
        } else {
            prev
        }
    }
}

/// How many items of a drained batch are malformed.
pub open spec fn malformed_count(items: Seq<Vec<u8>>) -> int
    decreases items.len(),
{
    if items.len() == 0 {
        0
    } else {
        malformed_count(items.drop_last()) + if items.last()@.len() == EVENT_SIZE {
            0int
        } else {
            1int
        }
    }
}

/// The part of a batch one tick takes: everything, up to the batch cap.
pub open spec fn batch_prefix(items: Seq<Vec<u8>>) -> Seq<Vec<u8>> {
    if items.len() <= MAX_BATCH_SIZE {
        items
    } else {
        items.subrange(0, MAX_BATCH_SIZE as int)
    }
}

/// Decode one tick's worth of drained ring records: at most the batch
/// cap, each well-formed record decoded in order, malformed records
/// counted and skipped.
pub fn poll_events(batch: &Vec<Vec<u8>>) -> (r: (Vec<NetworkFlowEvent>, u64))
    ensures
        r.0@ == decoded_events(batch_prefix(batch@)),
        r.1 == malformed_count(batch_prefix(batch@)),
{
    let mut events: Vec<NetworkFlowEvent> = Vec::new();
    let mut malformed: u64 = 0;
    let mut i: usize = 0;
    let n = if batch.len() <= MAX_BATCH_SIZE {
        batch.len()
    } else {
        MAX_BATCH_SIZE
    };
    while i < n
        invariant
            0 <= i <= n <= batch@.len(),
            n == batch_prefix(batch@).len(),
            events@ == decoded_events(batch@.subrange(0, i as int)),
            malformed == malformed_count(batch@.subrange(0, i as int)),
            malformed <= i,
        decreases n - i,
    {
        proof {
            assert(batch@.subrange(0, i + 1).drop_last() =~= batch@.subrange(0, i as int));
            assert(batch@.subrange(0, i + 1).last() == batch@[i as int]);
        }
        match decode_event(batch[i].as_slice()) {
            Some(ev) => {
                events.push(ev);
            },
            None => {
                malformed = malformed + 1;
            },
        }
        i += 1;
    }
    proof {
        assert(batch@.subrange(0, n as int) =~= batch_prefix(batch@));
    }
    (events, malformed)
}

/// The number read from the digit run starting at `start`, when there is
/// one and it fits in 32 bits.
pub open spec fn u32_at(s: Seq<char>, start: int) -> Option<(u32, int)> {
    let end = digit_run_end(s, start);
    if end == start {
        None
    } else if numeral_val(s.subrange(start, end)) > u32::MAX {
        None
    } else {
        Some((numeral_val(s.subrange(start, end)) as u32, end))
    }
}

/// Read the number starting at `start`.
fn scan_u32(s: &str, start: usize, len: usize) -> (r: Option<(u32, usize)>)
    requires
        len == s@.len(),
        start <= len,
    ensures
        match r {
            Some(p) => u32_at(s@, start as int) == Some((p.0, p.1 as int)) && start < p.1 <= len,
            None => u32_at(s@, start as int) is None,
        },
{
    proof {
        crate::ipv4::lemma_digit_run_end(s@, start as int);
    }
    let end = crate::ipv4::run_end(s, start, len);
    if end == start {
        return None;
    }
    let ghost run = s@.subrange(start as int, end as int);
    // accumulate; anything past the 32-bit range collapses to a flag
    let mut val: u64 = 0;
    let mut over = false;
    let mut i = start;
    while i < end
        invariant
            start <= i <= end <= len,
            len == s@.len(),
            run == s@.subrange(start as int, end as int),
            forall|j: int| start <= j < end ==> crate::decimal::is_dec_digit(#[trigger] s@[j]),
            !over ==> val == numeral_val(s@.subrange(start as int, i as int)) && val <= u32::MAX,
            over ==> numeral_val(s@.subrange(start as int, i as int)) > u32::MAX,
        decreases end - i,
    {
        let c = s.get_char(i);
        proof {
            let prefix = s@.subrange(start as int, i as int);
            let next = s@.subrange(start as int, i + 1);
            assert(next.drop_last() =~= prefix);
            assert(next.last() == s@[i as int]);
        }
        let d = match crate::ipv4::char_to_digit(c) {
            Some(d) => d,
            None => {
                proof {
                    assert(false);
                }
                0
            },
        };
        if !over {
            val = val * 10 + (d as u64);
            if val > 0xFFFF_FFFF {
                over = true;
                proof {
                    assert(numeral_val(s@.subrange(start as int, i + 1)) > u32::MAX);
                }
            }
        } else {
            proof {
                let prefix = s@.subrange(start as int, i as int);
                let next = s@.subrange(start as int, i + 1);
                let v = numeral_val(prefix);
                assert(numeral_val(next) == v * 10 + crate::decimal::char_val(s@[i as int]));
                assert(v * 10 >= v) by (nonlinear_arith)
                    requires
                        v >= 0,
                ;
            }
        }
        i += 1;
    }
    if over {
        None
    } else {
        Some((val as u32, end))
    }
}

/// The major and minor numbers of a kernel release string such as
/// "5.15.0-89-generic": the number before the first dot, and the number
/// right after it.
pub open spec fn kernel_version_spec(s: Seq<char>) -> Option<(u32, u32)> {
    match u32_at(s, 0) {
        None => None,
        Some((major, e1)) => if e1 < s.len() && s[e1] == '.' {
            match u32_at(s, e1 + 1) {
                None => None,
                Some((minor, _e2)) => Some((major, minor)),
            }
        } else {
            None
        },
    }
}

/// Parse the major and minor numbers out of a kernel release string.
pub fn parse_kernel_version(version: &str) -> (r: Option<(u32, u32)>)
    ensures
        r == kernel_version_spec(version@),
{
    let len = version.unicode_len();
    let (major, e1) = match scan_u32(version, 0, len) {
        Some(p) => p,
        None => {
            return None;
        },
    };
    if e1 == len || version.get_char(e1) != '.' {
        return None;
    }
    let (minor, _e2) = match scan_u32(version, e1 + 1, len) {
        Some(p) => p,
        None => {
            return None;
        },
    };
    Some((major, minor))
}

/// Whether a kernel version carries the classifier machinery the agent
/// needs: 5.8 or later.
pub open spec fn kernel_supported(major: u32, minor: u32) -> bool {
    major > 5 || (major == 5 && minor >= 8)
}

/// Check a kernel release string: parse failures and versions before
/// 5.8 are errors a human must fix.
pub fn check_kernel_version(version: &str) -> (r: Result<(), Orb8Error>)
    ensures
        r is Ok <==> (kernel_version_spec(version@) matches Some(v) && kernel_supported(
            v.0,
            v.1,
        )),
        r matches Err(e) ==> match e {
            Orb8Error::ConfigError(s) => kernel_version_spec(version@) is None && s@ == version@,
            Orb8Error::KernelVersionTooOld { version: v, min_version } => (
            kernel_version_spec(version@) matches Some(p) && !kernel_supported(p.0, p.1)) && v@
                == version@ && min_version@ == "5.8"@,
            _ => false,
        },
{
    match parse_kernel_version(version) {
        None => Err(Orb8Error::ConfigError(String::from_str(version))),
        Some((major, minor)) => {
            if major > 5 || (major == 5 && minor >= 8) {
                Ok(())
            } else {
                Err(
                    Orb8Error::KernelVersionTooOld {
                        version: String::from_str(version),
                        min_version: String::from_str("5.8"),
                    },
                )
            }
        },
    }
}

/// Run the pre-flight checks on what the caller read from the host: the
/// kernel version decides; missing type information and a non-root
/// effective user only degrade, they do not stop the agent.
pub fn run_preflight_checks(kernel_release: &str, btf_present: bool, euid: u32) -> (r: Result<
    (),
    Orb8Error,
>)
    ensures
        r is Ok <==> (kernel_version_spec(kernel_release@) matches Some(v) && kernel_supported(
            v.0,
            v.1,
        )),
{
    let _ = btf_present;
    let _ = euid;
    match check_kernel_version(kernel_release) {
        Ok(()) => Ok(()),
        Err(e) => Err(e),
    }
}

/// The first position at or past `i` holding a newline, or the end.
pub open spec fn find_nl(s: Seq<char>, i: int) -> int
    decreases s.len() - i,
        when 0 <= i <= s.len()
{
    if i < s.len() && s[i] != '\n' {
        find_nl(s, i + 1)
    } else {
        i
    }
}

/// The first position at or past `i` holding blank space, or the end:
/// where the token starting at `i` stops.
pub open spec fn token_end(s: Seq<char>, i: int) -> int
    decreases s.len() - i,
        when 0 <= i <= s.len()
{
    if i < s.len() && !crate::cli::is_space(s[i]) {
        token_end(s, i + 1)
    } else {
        i
    }
}

/// The first whitespace-separated token of a line.
pub open spec fn first_token(line: Seq<char>) -> Seq<char> {
    let a = crate::cli::space_run_end(line, 0);
    line.subrange(a, token_end(line, a))
}

/// The second whitespace-separated token of a line.
pub open spec fn second_token(line: Seq<char>) -> Seq<char> {
    let a = crate::cli::space_run_end(line, 0);
    let b = crate::cli::space_run_end(line, token_end(line, a));
    line.subrange(b, token_end(line, b))
}

/// Whether a route-table row names the default route of an interface
/// other than loopback: its destination field reads all zero.
pub open spec fn default_route_line(line: Seq<char>) -> bool {
    &&& first_token(line).len() > 0
    &&& second_token(line) == "00000000"@
    &&& first_token(line) != "lo"@
}

/// The interface named by the first default-route row at or after
/// position `i` of the route table text.
pub open spec fn route_from(s: Seq<char>, i: int) -> Option<Seq<char>>
    decreases s.len() - i,
        when 0 <= i <= s.len()
    via route_from_decreases
{
    if i >= s.len() {
        None
    } else {
        let e = find_nl(s, i);
        let line = s.subrange(i, e);
        if default_route_line(line) {
            Some(first_token(line))
        } else if e >= s.len() {
            None
        } else {
            route_from(s, e + 1)
        }
    }
}

#[via_fn]
proof fn route_from_decreases(s: Seq<char>, i: int) {
    lemma_find_nl_bounds(s, i);
}

/// The run up to a newline stays inside the string.
pub proof fn lemma_find_nl_bounds(s: Seq<char>, i: int)
    requires
        0 <= i <= s.len(),
    ensures
        i <= find_nl(s, i) <= s.len(),
    decreases s.len() - i,
{
    if i < s.len() && s[i] != '\n' {
        lemma_find_nl_bounds(s, i + 1);
    }
}

/// The interface carrying the default route, read from the route table
/// text: the first row after the header whose destination is all zero
/// and whose interface is not loopback.
pub open spec fn default_route_spec(s: Seq<char>) -> Option<Seq<char>> {
    let e0 = find_nl(s, 0);
    if e0 >= s.len() {
        None
    } else {
        route_from(s, e0 + 1)
    }
}

/// Walk to the end of the newline-free run starting at `i`.
fn find_nl_exec(s: &str, i: usize, len: usize) -> (r: usize)
    requires
        len == s@.len(),
        i <= len,
    ensures
        r == find_nl(s@, i as int),
        i <= r <= len,
    decreases len - i,
{
    if i < len {
        if s.get_char(i) != '\n' {
            find_nl_exec(s, i + 1, len)
        } else {
            i
        }
    } else {
        i
    }
}

/// Walk to the end of the token starting at `i`.
fn token_end_exec(s: &str, i: usize, len: usize) -> (r: usize)
    requires
        len == s@.len(),
        i <= len,
    ensures
        r == token_end(s@, i as int),
        i <= r <= len,
    decreases len - i,
{
    if i < len {
        let c = s.get_char(i);
        if !(c == ' ' || c == '\t' || c == '\n' || c == '\r') {
            token_end_exec(s, i + 1, len)
        } else {
            i
        }
    } else {
        i
    }
}

/// Examine the line starting at `i`; on no match continue at the next.
fn route_from_exec(s: &str, i: usize, len: usize) -> (r: Option<String>)
    requires
        len == s@.len(),
        i <= len,
    ensures
        match r {
            Some(iface) => route_from(s@, i as int) == Some(iface@),
            None => route_from(s@, i as int) is None,
        },
    decreases len - i,
{
    if i >= len {
        return None;
    }
    let e = find_nl_exec(s, i, len);
    let line = s.substring_char(i, e);
    let llen = e - i;
    proof {
        assert(line@ == s@.subrange(i as int, e as int));
        assert(line@.len() == llen);
    }
    let a = crate::cli::space_end_exec(line, 0, llen);
    let t1_end = token_end_exec(line, a, llen);
    let b = crate::cli::space_end_exec(line, t1_end, llen);
    let t2_end = token_end_exec(line, b, llen);
    if t1_end > a && t2_end > b {
        let t1 = line.substring_char(a, t1_end);
        let t2 = line.substring_char(b, t2_end);
        let dest_zero = String::from_str(t2) == String::from_str("00000000");
        let is_lo = String::from_str(t1) == String::from_str("lo");
        proof {
            assert(first_token(line@) == t1@);
            assert(second_token(line@) == t2@);
        }
        if dest_zero && !is_lo {
            proof {
                assert(default_route_line(line@));
            }
            return Some(String::from_str(t1));
        }
        proof {
            if !dest_zero {
                assert(second_token(line@) != "00000000"@);
            } else {
                assert(first_token(line@) == "lo"@);
            }
            assert(!default_route_line(line@));
        }
    } else {
        proof {
            reveal_strlit("00000000");
            assert(first_token(line@) == line@.subrange(a as int, t1_end as int));
            assert(second_token(line@) == line@.subrange(b as int, t2_end as int));
            if t1_end == a {
                assert(first_token(line@).len() == 0);
            } else {
                assert(second_token(line@).len() == 0);
                assert(second_token(line@) != "00000000"@);
            }
            assert(!default_route_line(line@));
        }
    }
    if e >= len {
        None
    } else {
        route_from_exec(s, e + 1, len)
    }
}

/// Find the default-route interface in the route table text: the first
/// row after the header with an all-zero destination and an interface
/// other than loopback.
pub fn parse_default_route(content: &str) -> (r: Option<String>)
    ensures
        match r {
            Some(iface) => default_route_spec(content@) == Some(iface@),
            None => default_route_spec(content@) is None,
        },
{
    let len = content.unicode_len();
    let e0 = find_nl_exec(content, 0, len);
    if e0 >= len {
        return None;
    }
    route_from_exec(content, e0 + 1, len)
}

/// The interfaces the agent monitors, given what the caller discovered:
/// the default-route interface (or eth0 when none was found and eth0
/// exists), the first container bridge of cni0, docker0, cbr0 that
/// exists, any br- bridge not already chosen, and loopback when nothing
/// at all was found.
pub open spec fn select_spec(
    default_route: Option<String>,
    eth0_exists: bool,
    cni0_exists: bool,
    docker0_exists: bool,
    cbr0_exists: bool,
    docker_bridge: Option<String>,
) -> Seq<Seq<char>> {
    let base: Seq<Seq<char>> = match default_route {
        Some(p) => seq![p@],
        None => if eth0_exists {
            seq!["eth0"@]
        } else {
            Seq::empty()
        },
    };
    let with_bridge: Seq<Seq<char>> = if cni0_exists {
        base.push("cni0"@)
    } else if docker0_exists {
        base.push("docker0"@)
    } else if cbr0_exists {
        base.push("cbr0"@)
    } else {
        base
    };
    let with_docker: Seq<Seq<char>> = match docker_bridge {
        Some(b) => if with_bridge.contains(b@) {
            with_bridge
        } else {
            with_bridge.push(b@)
        },
        None => with_bridge,
    };
    if with_docker.len() == 0 {
        seq!["lo"@]
    } else {
        with_docker
    }
}

/// Choose the interfaces to monitor from what was discovered.
pub fn select_interfaces(
    default_route: Option<String>,
    eth0_exists: bool,
    cni0_exists: bool,
    docker0_exists: bool,
    cbr0_exists: bool,
    docker_bridge: Option<String>,
) -> (r: Vec<String>)
    ensures
        r@.map_values(|s: String| s@) == select_spec(
            default_route,
            eth0_exists,
            cni0_exists,
            docker0_exists,
            cbr0_exists,
            docker_bridge,
        ),
{
    let ghost g_route = default_route;
    let ghost g_docker = docker_bridge;
    let mut r: Vec<String> = Vec::new();
    match default_route {
        Some(p) => {
            r.push(p);
        },
        None => {
            if eth0_exists {
                r.push(String::from_str("eth0"));
            }
        },
    }
    proof {
        assert(r@.map_values(|s: String| s@) =~= (match g_route {
            Some(p) => seq![p@],
            None => if eth0_exists {
                seq!["eth0"@]
            } else {
                Seq::<Seq<char>>::empty()
            },
        }));
    }
    let ghost base = r@.map_values(|s: String| s@);
    if cni0_exists {
        r.push(String::from_str("cni0"));
    } else if docker0_exists {
        r.push(String::from_str("docker0"));
    } else if cbr0_exists {
        r.push(String::from_str("cbr0"));
    }
    proof {
        assert(r@.map_values(|s: String| s@) =~= (if cni0_exists {
            base.push("cni0"@)
        } else if docker0_exists {
            base.push("docker0"@)
        } else if cbr0_exists {
            base.push("cbr0"@)
        } else {
            base
        }));
    }
    let ghost with_bridge = r@.map_values(|s: String| s@);
    match docker_bridge {
        Some(b) => {
            if !contains_string(r.as_slice(), &b) {
                r.push(b);
                proof {
                    assert(!with_bridge.contains(g_docker->Some_0@)) by {
                        assert(forall|i: int|
                            0 <= i < with_bridge.len() ==> with_bridge[i] == r@.map_values(
                                |s: String| s@,
                            )[i]);
                    }
                    assert(r@.map_values(|s: String| s@) =~= with_bridge.push(g_docker->Some_0@));
                }
            } else {
                proof {
                    assert(with_bridge.contains(g_docker->Some_0@)) by {
                        let i = choose|i: int|
                            0 <= i < r@.len() && r@[i]@ == g_docker->Some_0@;
                        assert(with_bridge[i] == r@[i]@);
                    }
                }
            }
        },
        None => {},
    }
    if r.len() == 0 {
        r.push(String::from_str("lo"));
        proof {
            assert(r@.map_values(|s: String| s@) =~= seq!["lo"@]);
        }
    }
    proof {
        assert(r@.map_values(|s: String| s@) =~= select_spec(
            g_route,
            eth0_exists,
            cni0_exists,
            docker0_exists,
            cbr0_exists,
            g_docker,
        ));
    }
    r
}

} // verus!
