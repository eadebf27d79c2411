//! Dotted-quad IPv4 addresses: formatting, parsing, and the proof that
//! the two are inverse to each other on every valid dotted-quad string.
//!
//! Addresses are held as 32-bit values with the first octet in the
//! least-significant byte: 10.0.0.5 is 0x0500000A.

use vstd::prelude::*;
use crate::decimal::{
    all_digits, char_val, dec_rep, is_canonical_numeral, is_dec_digit, lemma_canonical_dec_rep,
    lemma_dec_rep_val, numeral_val, u64_to_dec,
};
use vstd::string::{StrSliceExecFns, StringExecFns};

verus! {

/// The 32-bit address with the given octets, first octet in the
/// least-significant byte.
pub open spec fn ip_of(a: u32, b: u32, c: u32, d: u32) -> u32 {
    a | (b << 8) | (c << 16) | (d << 24)
}

/// The dotted-quad string of four octet values.
pub open spec fn quad_rep(a: u32, b: u32, c: u32, d: u32) -> Seq<char> {
    dec_rep(a as nat) + seq!['.'] + dec_rep(b as nat) + seq!['.'] + dec_rep(c as nat) + seq!['.']
        + dec_rep(d as nat)
}

/// The dotted-quad string of an address.
pub open spec fn ipv4_rep(ip: u32) -> Seq<char> {
    quad_rep(ip & 0xFF, (ip >> 8) & 0xFF, (ip >> 16) & 0xFF, (ip >> 24) & 0xFF)
}

/// A valid dotted-quad string: four octet values in canonical decimal,
/// separated by dots.
pub open spec fn valid_ipv4_string(s: Seq<char>) -> bool {
    exists|a: u32, b: u32, c: u32, d: u32|
        a < 256 && b < 256 && c < 256 && d < 256 && s == #[trigger] quad_rep(a, b, c, d)
}

/// Composing an address from octets and taking the octets back are
/// inverse bit operations.
proof fn lemma_ip_octets(a: u32, b: u32, c: u32, d: u32)
    by (bit_vector)
    requires
        a < 256,
        b < 256,
        c < 256,
        d < 256,
    ensures
        (a | (b << 8) | (c << 16) | (d << 24)) & 0xFF == a,
        ((a | (b << 8) | (c << 16) | (d << 24)) >> 8) & 0xFF == b,
        ((a | (b << 8) | (c << 16) | (d << 24)) >> 16) & 0xFF == c,
        ((a | (b << 8) | (c << 16) | (d << 24)) >> 24) & 0xFF == d,
{
}

/// Every octet taken from an address is below 256.
proof fn lemma_octet_bounds(ip: u32)
    by (bit_vector)
    ensures
        ip & 0xFF < 256,
        (ip >> 8) & 0xFF < 256,
        (ip >> 16) & 0xFF < 256,
        (ip >> 24) & 0xFF < 256,
{
}

/// The dotted quad of an address built from octets is the dotted quad of
/// those octets.
pub proof fn lemma_quad_of_ip(a: u32, b: u32, c: u32, d: u32)
    requires
        a < 256,
        b < 256,
        c < 256,
        d < 256,
    ensures
        ipv4_rep(ip_of(a, b, c, d)) == quad_rep(a, b, c, d),
{
    lemma_ip_octets(a, b, c, d);
}

/// Format an address from its 32-bit form (first octet in the
/// least-significant byte) to dotted notation.
pub fn format_ipv4(ip: u32) -> (r: String)
    ensures
        r@ == ipv4_rep(ip),
{
    let mut s = u64_to_dec((ip & 0xFF) as u64);
    let o2 = u64_to_dec(((ip >> 8) & 0xFF) as u64);
    let o3 = u64_to_dec(((ip >> 16) & 0xFF) as u64);
    let o4 = u64_to_dec(((ip >> 24) & 0xFF) as u64);
    s.append(".");
    s.append(o2.as_str());
    s.append(".");
    s.append(o3.as_str());
    s.append(".");
    s.append(o4.as_str());
    proof {
        reveal_strlit(".");
        assert(s@ =~= ipv4_rep(ip));
    }
    s
}

/// The end of the run of digit characters starting at `i`: the first
/// position at or past `i` holding no digit.
pub open spec fn digit_run_end(s: Seq<char>, i: int) -> int
    decreases s.len() - i,
        when 0 <= i <= s.len()
{
    if i < s.len() && is_dec_digit(s[i]) {
        digit_run_end(s, i + 1)
    } else {
        i
    }
}

/// The digit run ends within the string, everything inside it is a
/// digit, and the character after it (if any) is none.
pub proof fn lemma_digit_run_end(s: Seq<char>, i: int)
    requires
        0 <= i <= s.len(),
    ensures
        i <= digit_run_end(s, i) <= s.len(),
        forall|j: int| i <= j < digit_run_end(s, i) ==> is_dec_digit(#[trigger] s[j]),
        digit_run_end(s, i) < s.len() ==> !is_dec_digit(s[digit_run_end(s, i)]),
    decreases s.len() - i,
{
    if i < s.len() && is_dec_digit(s[i]) {
        lemma_digit_run_end(s, i + 1);
    }
}

/// A stretch of digits followed by a non-digit (or the string's end) is
/// exactly the digit run.
proof fn lemma_digit_run_at(s: Seq<char>, i: int, j: int)
    requires
        0 <= i <= j <= s.len(),
        forall|l: int| i <= l < j ==> is_dec_digit(#[trigger] s[l]),
        j < s.len() ==> !is_dec_digit(s[j]),
    ensures
        digit_run_end(s, i) == j,
    decreases j - i,
{
    if i < j {
        lemma_digit_run_at(s, i + 1, j);
    }
}

/// The octet numeral starting at `start`, when the digit run there is a
/// canonical numeral no greater than 255: its value and its end.
pub open spec fn octet_at(s: Seq<char>, start: int) -> Option<(u32, int)> {
    let end = digit_run_end(s, start);
    let run = s.subrange(start, end);
    if end == start {
        None
    } else if is_canonical_numeral(run) && numeral_val(run) <= 255 {
        Some((numeral_val(run) as u32, end))
    } else {
        None
    }
}

/// Parse a dotted-quad string: four octet numerals separated by dots,
/// nothing more.
pub open spec fn parse_ipv4_spec(s: Seq<char>) -> Option<u32> {
    match octet_at(s, 0) {
        None => None,
        Some((a, e1)) => if e1 < s.len() && s[e1] == '.' {
            match octet_at(s, e1 + 1) {
                None => None,
                Some((b, e2)) => if e2 < s.len() && s[e2] == '.' {
                    match octet_at(s, e2 + 1) {
                        None => None,
                        Some((c, e3)) => if e3 < s.len() && s[e3] == '.' {
                            match octet_at(s, e3 + 1) {
                                None => None,
                                Some((d, e4)) => if e4 == s.len() {
                                    Some(ip_of(a, b, c, d))
                                } else {
                                    None
                                },
                            }
                        } else {
                            None
                        },
                    }
                } else {
                    None
                },
            }
        } else {
            None
        },
    }
}

/// The value of a digit character, or nothing for any other character.
pub fn char_to_digit(c: char) -> (r: Option<u8>)
    ensures
        match r {
            Some(d) => is_dec_digit(c) && d == char_val(c) && d < 10,
            None => !is_dec_digit(c),
        },
{
    match c {
        '0' => Some(0),
        '1' => Some(1),
        '2' => Some(2),
        '3' => Some(3),
        '4' => Some(4),
        '5' => Some(5),
        '6' => Some(6),
        '7' => Some(7),
        '8' => Some(8),
        '9' => Some(9),
        _ => None,
    }
}

/// Walk to the end of the digit run starting at `i`.
pub fn run_end(s: &str, i: usize, len: usize) -> (r: usize)
    requires
        len == s@.len(),
        i <= len,
    ensures
        r == digit_run_end(s@, i as int),
        i <= r <= len,
    decreases len - i,
{
    if i < len {
        match char_to_digit(s.get_char(i)) {
            Some(_) => run_end(s, i + 1, len),
            None => i,
        }
    } else {
        i
    }
}

/// Short digit strings have small values.
proof fn lemma_numeral_max(s: Seq<char>)
    requires
        all_digits(s),
    ensures
        s.len() == 1 ==> numeral_val(s) <= 9,
        s.len() == 2 ==> numeral_val(s) <= 99,
        s.len() == 3 ==> numeral_val(s) <= 999,
    decreases s.len(),
{
    if 1 <= s.len() <= 3 {
        let t = s.drop_last();
        if s.len() == 1 {
            assert(t =~= Seq::<char>::empty());
            assert(numeral_val(t) == 0);
        }
        assert(all_digits(t)) by {
            assert(forall|i: int| 0 <= i < t.len() ==> t[i] == s[i]);
        }
        lemma_numeral_max(t);
        assert(is_dec_digit(s.last())) by {
            assert(is_dec_digit(s[s.len() - 1]));
        }
        assert(char_val(s.last()) <= 9);
        assert(numeral_val(s) == numeral_val(t) * 10 + char_val(s.last()));
    }
}

/// A canonical numeral of four or more digits exceeds 255.
proof fn lemma_long_numeral_large(s: Seq<char>)
    requires
        all_digits(s),
        s.len() >= 1,
        s[0] != '0',
    ensures
        s.len() >= 2 ==> numeral_val(s) >= 10,
        s.len() >= 3 ==> numeral_val(s) >= 100,
        s.len() >= 4 ==> numeral_val(s) >= 1000,
    decreases s.len(),
{
    crate::decimal::lemma_nonzero_lead_nonzero_val(s);
    if s.len() >= 2 {
        let t = s.drop_last();
        assert(t[0] == s[0]);
        assert(all_digits(t)) by {
            assert(forall|i: int| 0 <= i < t.len() ==> t[i] == s[i]);
        }
        lemma_long_numeral_large(t);
        let vt = numeral_val(t);
        assert(numeral_val(s) == vt * 10 + char_val(s.last()));
        if s.len() == 2 {
            assert(vt * 10 >= 10) by (nonlinear_arith)
                requires
                    vt >= 1,
            ;
        } else if s.len() == 3 {
            assert(vt * 10 >= 100) by (nonlinear_arith)
                requires
                    vt >= 10,
            ;
        } else {
            assert(vt * 10 >= 1000) by (nonlinear_arith)
                requires
                    vt >= 100,
            ;
        }
    }
}

/// Scan the octet numeral starting at `start`.
fn scan_octet(s: &str, start: usize, len: usize) -> (r: Option<(u32, usize)>)
    requires
        len == s@.len(),
        start <= len,
    ensures
        match r {
            Some(p) => octet_at(s@, start as int) == Some((p.0, p.1 as int)) && start < p.1 <= len,
            None => octet_at(s@, start as int) is None,
        },
{
    proof {
        lemma_digit_run_end(s@, start as int);
    }
    let end = run_end(s, start, len);
    let ghost run = s@.subrange(start as int, end as int);
    proof {
        assert(all_digits(run)) by {
            assert(forall|j: int|
                0 <= j < run.len() ==> run[j] == s@[start + j] && is_dec_digit(s@[start + j]));
        }
    }
    if end == start {
        return None;
    }
    if end - start > 3 {
        proof {
            if run[0] != '0' {
                lemma_long_numeral_large(run);
            }
        }
        return None;
    }
    // the run has one, two or three digits: accumulate its value
    let mut val: u32 = 0;
    let mut i = start;
    while i < end
        invariant
            start <= i <= end <= len,
            len == s@.len(),
            end - start <= 3,
            run == s@.subrange(start as int, end as int),
            all_digits(run),
            val == numeral_val(s@.subrange(start as int, i as int)),
            val <= 999,
        decreases end - i,
    {
        let c = s.get_char(i);
        proof {
            assert(s@[i as int] == run[i - start]);
            assert(is_dec_digit(run[i - start]));
            let prefix = s@.subrange(start as int, i as int);
            let next = s@.subrange(start as int, i + 1);
            assert(next.drop_last() =~= prefix);
            assert(next.last() == s@[i as int]);
            assert(all_digits(prefix)) by {
                assert(forall|j: int|
                    0 <= j < prefix.len() ==> prefix[j] == run[j] && is_dec_digit(run[j]));
            }
            lemma_numeral_max(prefix);
            assert(i - start <= 2 ==> val <= 99);
        }
        let d = match char_to_digit(c) {
            Some(d) => d,
            None => {
                proof {
                    assert(false);
                }
                0
            },
        };
        val = val * 10 + (d as u32);
        i += 1;
    }
    proof {
        assert(val == numeral_val(run));
    }
    // canonicity: no leading zero unless the numeral is exactly "0"
    if end - start > 1 {
        let c0 = s.get_char(start);
        if c0 == '0' {
            proof {
                assert(run[0] == '0');
                assert(!is_canonical_numeral(run));
            }
            return None;
        }
    }
    proof {
        assert(is_canonical_numeral(run));
    }
    if val > 255 {
        return None;
    }
    Some((val, end))
}

/// Parse a dotted-quad string into its 32-bit form (first octet in the
/// least-significant byte). Exactly the valid dotted-quad strings parse.
pub fn parse_ipv4(s: &str) -> (r: Option<u32>)
    ensures
        r == parse_ipv4_spec(s@),
        r matches Some(ip) ==> s@ == ipv4_rep(ip),
        r is None ==> !valid_ipv4_string(s@),
{
    proof {
        lemma_parse_complete(s@);
        if parse_ipv4_spec(s@) is Some {
            lemma_parse_sound(s@);
        }
    }
    let len = s.unicode_len();
    let r1 = scan_octet(s, 0, len);
    let (a, e1) = match r1 {
        Some(p) => p,
        None => {
            return None;
        },
    };
    if e1 == len || s.get_char(e1) != '.' {
        return None;
    }
    let r2 = scan_octet(s, e1 + 1, len);
    let (b, e2) = match r2 {
        Some(p) => p,
        None => {
            return None;
        },
    };
    if e2 == len || s.get_char(e2) != '.' {
        return None;
    }
    let r3 = scan_octet(s, e2 + 1, len);
    let (c, e3) = match r3 {
        Some(p) => p,
        None => {
            return None;
        },
    };
    if e3 == len || s.get_char(e3) != '.' {
        return None;
    }
    let r4 = scan_octet(s, e3 + 1, len);
    let (d, e4) = match r4 {
        Some(p) => p,
        None => {
            return None;
        },
    };
    if e4 != len {
        return None;
    }
    Some((a as u32) | ((b as u32) << 8) | ((c as u32) << 16) | ((d as u32) << 24))
}

/// A parsed string is the dotted quad of the parsed address.
proof fn lemma_parse_sound(s: Seq<char>)
    requires
        parse_ipv4_spec(s) is Some,
    ensures
        s == ipv4_rep(parse_ipv4_spec(s)->Some_0),
        valid_ipv4_string(s),
{
    let (a, e1) = octet_at(s, 0)->Some_0;
    let (b, e2) = octet_at(s, e1 + 1)->Some_0;
    let (c, e3) = octet_at(s, e2 + 1)->Some_0;
    let (d, e4) = octet_at(s, e3 + 1)->Some_0;
    lemma_digit_run_end(s, 0);
    lemma_digit_run_end(s, e1 + 1);
    lemma_digit_run_end(s, e2 + 1);
    lemma_digit_run_end(s, e3 + 1);
    let run1 = s.subrange(0, e1);
    let run2 = s.subrange(e1 + 1, e2);
    let run3 = s.subrange(e2 + 1, e3);
    let run4 = s.subrange(e3 + 1, e4);
    lemma_canonical_dec_rep(run1);
    lemma_canonical_dec_rep(run2);
    lemma_canonical_dec_rep(run3);
    lemma_canonical_dec_rep(run4);
    assert(s =~= run1 + seq!['.'] + run2 + seq!['.'] + run3 + seq!['.'] + run4);
    assert(dec_rep(a as nat) == run1);
    assert(dec_rep(b as nat) == run2);
    assert(dec_rep(c as nat) == run3);
    assert(dec_rep(d as nat) == run4);
    assert(s == quad_rep(a, b, c, d));
    lemma_quad_of_ip(a, b, c, d);
}

/// Every valid dotted-quad string parses, to the address of its octets.
proof fn lemma_parse_complete(s: Seq<char>)
    ensures
        valid_ipv4_string(s) ==> parse_ipv4_spec(s) is Some,
{
    if valid_ipv4_string(s) {
        let (a, b, c, d) = choose|a: u32, b: u32, c: u32, d: u32|
            a < 256 && b < 256 && c < 256 && d < 256 && s == #[trigger] quad_rep(a, b, c, d);
        lemma_parse_of_quad(a, b, c, d);
    }
}

/// The dotted quad of four octets parses back to their address.
pub proof fn lemma_parse_of_quad(a: u32, b: u32, c: u32, d: u32)
    requires
        a < 256,
        b < 256,
        c < 256,
        d < 256,
    ensures
        parse_ipv4_spec(quad_rep(a, b, c, d)) == Some(ip_of(a, b, c, d)),
{
    let s = quad_rep(a, b, c, d);
    lemma_dec_rep_val(a as nat);
    lemma_dec_rep_val(b as nat);
    lemma_dec_rep_val(c as nat);
    lemma_dec_rep_val(d as nat);
    let ra = dec_rep(a as nat);
    let rb = dec_rep(b as nat);
    let rc = dec_rep(c as nat);
    let rd = dec_rep(d as nat);
    let la = ra.len() as int;
    let lb = rb.len() as int;
    let lc = rc.len() as int;
    let ld = rd.len() as int;
    let e1 = la;
    let e2 = la + 1 + lb;
    let e3 = la + 1 + lb + 1 + lc;
    let e4 = la + 1 + lb + 1 + lc + 1 + ld;
    assert(s.len() == e4);
    assert(!is_dec_digit('.'));
    assert(forall|j: int| 0 <= j < la ==> s[j] == ra[j]);
    assert(s[e1] == '.');
    assert(forall|j: int| 0 <= j < lb ==> s[e1 + 1 + j] == rb[j]);
    assert(s[e2] == '.');
    assert(forall|j: int| 0 <= j < lc ==> s[e2 + 1 + j] == rc[j]);
    assert(s[e3] == '.');
    assert(forall|j: int| 0 <= j < ld ==> s[e3 + 1 + j] == rd[j]);
    lemma_digit_run_at(s, 0, e1);
    lemma_digit_run_at(s, e1 + 1, e2);
    lemma_digit_run_at(s, e2 + 1, e3);
    lemma_digit_run_at(s, e3 + 1, e4);
    assert(s.subrange(0, e1) =~= ra);
    assert(s.subrange(e1 + 1, e2) =~= rb);
    assert(s.subrange(e2 + 1, e3) =~= rc);
    assert(s.subrange(e3 + 1, e4) =~= rd);
    assert(octet_at(s, 0) == Some((a, e1)));
    assert(octet_at(s, e1 + 1) == Some((b, e2)));
    assert(octet_at(s, e2 + 1) == Some((c, e3)));
    assert(octet_at(s, e3 + 1) == Some((d, e4)));
}

/// Law: formatting a parsed address gives the original string back, for
/// every valid dotted-quad string.
pub proof fn lemma_ipv4_round_trip(s: Seq<char>)
    requires
        valid_ipv4_string(s),
    ensures
        parse_ipv4_spec(s) matches Some(ip) && ipv4_rep(ip) == s,
{
    lemma_parse_complete(s);
    lemma_parse_sound(s);
}

/// Law: parsing a formatted address gives the address back, for every
/// 32-bit value.
pub proof fn lemma_ipv4_round_trip_back(ip: u32)
    ensures
        parse_ipv4_spec(ipv4_rep(ip)) == Some(ip),
{
    lemma_octet_bounds(ip);
    lemma_parse_of_quad(ip & 0xFF, (ip >> 8) & 0xFF, (ip >> 16) & 0xFF, (ip >> 24) & 0xFF);
    assert(ip_of(ip & 0xFF, (ip >> 8) & 0xFF, (ip >> 16) & 0xFF, (ip >> 24) & 0xFF) == ip)
        by (bit_vector);
}

} // verus!
