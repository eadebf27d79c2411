//! Command-line data types and the small pure helpers behind the
//! command-line front end: truncating labels for display and reading
//! duration arguments such as "30s" or "5m".

use vstd::prelude::*;
use vstd::string::{StrSliceExecFns, StringExecFns};
use crate::decimal::{all_digits, char_val, numeral_val};
use crate::ipv4::char_to_digit;

verus! {

/// The command-line arguments.
pub struct Cli {
    pub verbose: bool,
    pub command: Option<Commands>,
}

/// The top-level commands.
pub enum Commands {
    Trace { trace_type: TraceType },
    Info { namespace: Option<String> },
    Export { format: String, output: Option<String> },
}

/// What a trace command watches.
pub enum TraceType {
    Network { namespace: Option<String>, pod: Option<String>, all_namespaces: bool },
    Dns { namespace: Option<String>, all_namespaces: bool },
    Syscall { pod: String, namespace: Option<String> },
    Gpu { namespace: Option<String>, pod: Option<String> },
    GpuMemory { pod: String, namespace: Option<String> },
}

/// Cut a label for display: a string longer than the width keeps its
/// head and gains an ellipsis. Lengths count characters.
pub fn truncate(s: &str, max_len: usize) -> (r: String)
    requires
        max_len >= 3,
    ensures
        s@.len() <= max_len ==> r@ == s@,
        s@.len() > max_len ==> r@ == s@.subrange(0, max_len - 3) + "..."@,
{
    let len = s.unicode_len();
    if len <= max_len {
        String::from_str(s)
    } else {
        let head = s.substring_char(0, max_len - 3);
        let mut r = String::from_str(head);
        r.append("...");
        r
    }
}

/// Whether the character is blank space.
pub open spec fn is_space(c: char) -> bool {
    c == ' ' || c == '\t' || c == '\n' || c == '\r'
}

/// The first position at or past `i` holding no space.
pub open spec fn space_run_end(s: Seq<char>, i: int) -> int
    decreases s.len() - i,
        when 0 <= i <= s.len()
{
    if i < s.len() && is_space(s[i]) {
        space_run_end(s, i + 1)
    } else {
        i
    }
}

/// The last position at or before `i` holding no space, or -1.
pub open spec fn last_non_space(s: Seq<char>, i: int) -> int
    decreases i + 1,
        when i < s.len()
{
    if i < 0 {
        -1
    } else if is_space(s[i]) {
        last_non_space(s, i - 1)
    } else {
        i
    }
}

/// The string with blank space cut from both ends.
pub open spec fn trim_spec(s: Seq<char>) -> Seq<char> {
    let a = space_run_end(s, 0);
    let b = last_non_space(s, s.len() - 1);
    if a <= b {
        s.subrange(a, b + 1)
    } else {
        Seq::empty()
    }
}

/// Walk past leading spaces.
pub(crate) fn space_end_exec(s: &str, i: usize, len: usize) -> (r: usize)
    requires
        len == s@.len(),
        i <= len,
    ensures
        r == space_run_end(s@, i as int),
        i <= r <= len,
    decreases len - i,
{
    if i < len {
        let c = s.get_char(i);
        if c == ' ' || c == '\t' || c == '\n' || c == '\r' {
            space_end_exec(s, i + 1, len)
        } else {
            i
        }
    } else {
        i
    }
}

/// Walk back over trailing spaces; `None` stands for falling off the
/// front.
fn last_non_space_exec(s: &str, i: usize, some_i: bool, len: usize) -> (r: Option<usize>)
    requires
        len == s@.len(),
        some_i ==> i < len,
        !some_i ==> i == 0,
    ensures
        match r {
            Some(j) => some_i && last_non_space(s@, i as int) == j as int && j < len,
            None => !some_i || last_non_space(s@, i as int) == -1,
        },
    decreases i + 1,
{
    if !some_i {
        return None;
    }
    let c = s.get_char(i);
    if !(c == ' ' || c == '\t' || c == '\n' || c == '\r') {
        return Some(i);
    }
    if i == 0 {
        proof {
            assert(last_non_space(s@, -1) == -1);
        }
        None
    } else {
        last_non_space_exec(s, i - 1, true, len)
    }
}

/// The numeral and the milliseconds-per-unit a duration string breaks
/// into, by its suffix: "ms", "s", "m" or "h".
pub open spec fn duration_parts(t: Seq<char>) -> Option<(Seq<char>, int)> {
    if t.len() >= 2 && t[t.len() - 2] == 'm' && t[t.len() - 1] == 's' {
        Some((t.subrange(0, t.len() - 2), 1int))
    } else if t.len() >= 1 && t[t.len() - 1] == 's' {
        Some((t.subrange(0, t.len() - 1), 1000int))
    } else if t.len() >= 1 && t[t.len() - 1] == 'm' {
        Some((t.subrange(0, t.len() - 1), 60_000int))
    } else if t.len() >= 1 && t[t.len() - 1] == 'h' {
        Some((t.subrange(0, t.len() - 1), 3_600_000int))
    } else {
        None
    }
}

/// The milliseconds a duration string such as "30s", "5m", "1h" or
/// "500ms" names: blank space around it is ignored, the numeral must be
/// all digits, and the result must fit in 64 bits.
pub open spec fn parse_duration_spec(s: Seq<char>) -> Option<u64> {
    let t = trim_spec(s);
    match duration_parts(t) {
        None => None,
        Some((num, unit)) => if num.len() >= 1 && all_digits(num) && numeral_val(num) * unit
            <= u64::MAX {
            Some((numeral_val(num) * unit) as u64)
        } else {
            None
        },
    }
}

/// Read the all-digit numeral that spans the whole string; anything past
/// the 64-bit range collapses to `None`.
fn parse_u64_full(s: &str, start: usize, end: usize, len: usize) -> (r: Option<u64>)
    requires
        len == s@.len(),
        start <= end <= len,
    ensures
        ({
            let num = s@.subrange(start as int, end as int);
            match r {
                Some(v) => num.len() >= 1 && all_digits(num) && v == numeral_val(num),
                None => !(num.len() >= 1 && all_digits(num) && numeral_val(num) <= u64::MAX),
            }
        }),
{
    if start == end {
        return None;
    }
    let ghost num = s@.subrange(start as int, end as int);
    let mut val: u64 = 0;
    let mut over = false;
    let mut i = start;
    while i < end
        invariant
            start <= i <= end <= len,
            len == s@.len(),
            num == s@.subrange(start as int, end as int),
            all_digits(s@.subrange(start as int, i as int)),
            !over ==> val == numeral_val(s@.subrange(start as int, i as int)),
            over ==> numeral_val(s@.subrange(start as int, i as int)) > u64::MAX,
        decreases end - i,
    {
        let c = s.get_char(i);
        proof {
            let prefix = s@.subrange(start as int, i as int);
            let next = s@.subrange(start as int, i + 1);
            assert(next.drop_last() =~= prefix);
            assert(next.last() == s@[i as int]);
        }
        let d = match char_to_digit(c) {
            Some(d) => d,
            None => {
                return None;
            },
        };
        proof {
            assert(all_digits(s@.subrange(start as int, i + 1))) by {
                let prefix = s@.subrange(start as int, i as int);
                let next = s@.subrange(start as int, i + 1);
                assert(forall|j: int|
                    0 <= j < next.len() ==> (j < prefix.len() ==> next[j] == prefix[j]) && (j
                        == prefix.len() ==> next[j] == s@[i as int]));
            }
        }
        if !over {
            let ghost prefix = s@.subrange(start as int, i as int);
            let ghost next = s@.subrange(start as int, i + 1);
            if val > u64::MAX / 10 || (val == u64::MAX / 10 && d > 5) {
                over = true;
                proof {
                    let v = numeral_val(prefix);
                    assert(numeral_val(next) == v * 10 + char_val(s@[i as int]));
                    assert(v * 10 + char_val(s@[i as int]) > u64::MAX) by (nonlinear_arith)
                        requires
                            v == val,
                            char_val(s@[i as int]) == d,
                            d < 10,
                            (val > u64::MAX / 10 || (val == u64::MAX / 10 && d > 5)),
                    ;
                }
            } else {
                val = val * 10 + (d as u64);
            }
        } else {
            proof {
                let prefix = s@.subrange(start as int, i as int);
                let next = s@.subrange(start as int, i + 1);
                let v = numeral_val(prefix);
                assert(numeral_val(next) == v * 10 + char_val(s@[i as int]));
                assert(v * 10 >= v) by (nonlinear_arith)
                    requires
                        v >= 0,
                ;
            }
        }
        i += 1;
    }
    if over {
        None
    } else {
        Some(val)
    }
}

/// Read a duration argument: a numeral followed by "ms", "s", "m" or
/// "h", with blank space around it ignored. Anything else, and any value
/// past the 64-bit range of milliseconds, reads as nothing.
pub fn parse_duration(s: &str) -> (r: Option<u64>)
    ensures
        r == parse_duration_spec(s@),
{
    let len = s.unicode_len();
    let a = space_end_exec(s, 0, len);
    let b_opt = if len == 0 {
        proof {
            assert(last_non_space(s@, -1) == -1);
        }
        None
    } else {
        last_non_space_exec(s, len - 1, true, len)
    };
    let b = match b_opt {
        Some(b) => b,
        None => {
            proof {
                assert(trim_spec(s@) =~= Seq::<char>::empty());
                assert(duration_parts(trim_spec(s@)) is None);
            }
            return None;
        },
    };
    if a > b {
        proof {
            assert(trim_spec(s@) =~= Seq::<char>::empty());
            assert(duration_parts(trim_spec(s@)) is None);
        }
        return None;
    }
    let ghost t = trim_spec(s@);
    let tlen = b + 1 - a;
    proof {
        assert(t == s@.subrange(a as int, b + 1));
        assert(t.len() == tlen);
        assert(forall|j: int| 0 <= j < t.len() ==> t[j] == s@[a + j]);
    }
    // the unit suffix decides the scale
    let last_c = s.get_char(b);
    let (num_end, unit): (usize, u64) = if tlen >= 2 && s.get_char(b - 1) == 'm' && last_c
        == 's' {
        (b - 1, 1)
    } else if last_c == 's' {
        (b, 1000)
    } else if last_c == 'm' {
        (b, 60_000)
    } else if last_c == 'h' {
        (b, 3_600_000)
    } else {
        proof {
            assert(duration_parts(t) is None);
        }
        return None;
    };
    let ghost num = t.subrange(0, t.len() - (b + 1 - num_end));
    proof {
        assert(duration_parts(t) == Some((num, unit as int)));
        assert(num =~= s@.subrange(a as int, num_end as int));
    }
    let value = match parse_u64_full(s, a, num_end, len) {
        Some(v) => v,
        None => {
            proof {
                if num.len() >= 1 && all_digits(num) && numeral_val(num) * (unit as int)
                    <= u64::MAX {
                    assert(numeral_val(num) <= u64::MAX) by (nonlinear_arith)
                        requires
                            numeral_val(num) * (unit as int) <= u64::MAX,
                            unit >= 1,
                    ;
                }
            }
            return None;
        },
    };
    if value <= u64::MAX / unit {
        proof {
            assert(value * (unit as int) <= u64::MAX) by (nonlinear_arith)
                requires
                    value <= u64::MAX as int / (unit as int),
                    1 <= unit <= 3_600_000,
            ;
        }
        Some(value * unit)
    } else {
        proof {
            assert(value * (unit as int) > u64::MAX) by (nonlinear_arith)
                requires
                    value > u64::MAX as int / (unit as int),
                    1 <= unit <= 3_600_000,
            ;
        }
        None
    }
}

} // verus!
