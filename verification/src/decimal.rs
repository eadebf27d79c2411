//! Decimal numerals: the canonical digit string of a number, its value,
//! and the proofs that the two are inverse to each other. IP formatting,
//! IP parsing and attribution labels are all stated over these.

use vstd::prelude::*;
use vstd::string::StringExecFns;

verus! {

/// The digit character for a value below ten.
pub open spec fn digit_char(d: nat) -> char {
    if d == 0 {
        '0'
    } else if d == 1 {
        '1'
    } else if d == 2 {
        '2'
    } else if d == 3 {
        '3'
    } else if d == 4 {
        '4'
    } else if d == 5 {
        '5'
    } else if d == 6 {
        '6'
    } else if d == 7 {
        '7'
    } else if d == 8 {
        '8'
    } else {
        '9'
    }
}

/// The value of a digit character.
pub open spec fn char_val(c: char) -> nat {
    if c == '0' {
        0
    } else if c == '1' {
        1
    } else if c == '2' {
        2
    } else if c == '3' {
        3
    } else if c == '4' {
        4
    } else if c == '5' {
        5
    } else if c == '6' {
        6
    } else if c == '7' {
        7
    } else if c == '8' {
        8
    } else {
        9
    }
}

/// Whether a character is a decimal digit.
pub open spec fn is_dec_digit(c: char) -> bool {
    c == '0' || c == '1' || c == '2' || c == '3' || c == '4' || c == '5' || c == '6' || c == '7'
        || c == '8' || c == '9'
}

/// The canonical decimal representation of a number: most significant
/// digit first, no leading zero except for the numeral "0" itself.
pub open spec fn dec_rep(n: nat) -> Seq<char>
    decreases n,
{
    if n < 10 {
        seq![digit_char(n)]
    } else {
        dec_rep(n / 10) + seq![digit_char(n % 10)]
    }
}

/// The value of a digit string, most significant digit first.
pub open spec fn numeral_val(s: Seq<char>) -> nat
    decreases s.len(),
{
    if s.len() == 0 {
        0
    } else {
        numeral_val(s.drop_last()) * 10 + char_val(s.last())
    }
}

/// Every character of the string is a decimal digit.
pub open spec fn all_digits(s: Seq<char>) -> bool {
    forall|i: int| 0 <= i < s.len() ==> is_dec_digit(#[trigger] s[i])
}

/// A canonical numeral: nonempty, digits only, and no leading zero
/// unless the numeral is exactly "0".
pub open spec fn is_canonical_numeral(s: Seq<char>) -> bool {
    &&& all_digits(s)
    &&& s.len() >= 1
    &&& (s.len() > 1 ==> s[0] != '0')
}

/// A numeral is never empty, and numbers of ten or more take two or
/// more digits.
pub proof fn lemma_dec_rep_len(n: nat)
    ensures
        dec_rep(n).len() >= 1,
        n >= 10 ==> dec_rep(n).len() >= 2,
    decreases n,
{
    if n >= 10 {
        lemma_dec_rep_len(n / 10);
    }
}

/// The canonical representation is a canonical numeral and evaluates
/// back to the number it was built from.
pub proof fn lemma_dec_rep_val(n: nat)
    ensures
        is_canonical_numeral(dec_rep(n)),
        numeral_val(dec_rep(n)) == n,
    decreases n,
{
    if n < 10 {
        let s = dec_rep(n);
        assert(s.drop_last() =~= Seq::<char>::empty());
        assert(numeral_val(s) == numeral_val(s.drop_last()) * 10 + char_val(s.last()));
    } else {
        lemma_dec_rep_val(n / 10);
        lemma_dec_rep_len(n / 10);
        let s = dec_rep(n);
        assert(s.drop_last() =~= dec_rep(n / 10));
        assert(s.last() == digit_char(n % 10));
        assert(numeral_val(s) == (n / 10) * 10 + (n % 10));
        assert((n / 10) * 10 + (n % 10) == n) by (nonlinear_arith);
        assert forall|i: int| 0 <= i < s.len() implies is_dec_digit(#[trigger] s[i]) by {
            if i < s.len() - 1 {
                assert(s[i] == dec_rep(n / 10)[i]);
            }
        }
        assert(s[0] == dec_rep(n / 10)[0]);
        if dec_rep(n / 10).len() == 1 {
            assert(n / 10 >= 1);
            assert(dec_rep(n / 10)[0] == digit_char(n / 10));
        }
    }
}

/// A digit string that does not start with '0' has a nonzero value.
pub proof fn lemma_nonzero_lead_nonzero_val(s: Seq<char>)
    requires
        all_digits(s),
        s.len() >= 1,
        s[0] != '0',
    ensures
        numeral_val(s) >= 1,
    decreases s.len(),
{
    if s.len() == 1 {
        assert(is_dec_digit(s[0]));
    } else {
        let t = s.drop_last();
        assert(t[0] == s[0]);
        assert(all_digits(t)) by {
            assert(forall|i: int| 0 <= i < t.len() ==> t[i] == s[i]);
        }
        lemma_nonzero_lead_nonzero_val(t);
        assert(numeral_val(s) == numeral_val(t) * 10 + char_val(s.last()));
        assert(numeral_val(t) * 10 >= 10) by (nonlinear_arith)
            requires
                numeral_val(t) >= 1,
        ;
    }
}

/// A canonical numeral is the canonical representation of its own value:
/// numerals and numbers are in bijection.
pub proof fn lemma_canonical_dec_rep(s: Seq<char>)
    requires
        is_canonical_numeral(s),
    ensures
        dec_rep(numeral_val(s)) == s,
    decreases s.len(),
{
    if s.len() == 1 {
        let c = s[0];
        assert(is_dec_digit(c));
        assert(s.drop_last() =~= Seq::<char>::empty());
        assert(numeral_val(s) == numeral_val(s.drop_last()) * 10 + char_val(s.last()));
        assert(numeral_val(s) == char_val(c));
        assert(digit_char(char_val(c)) == c);
        assert(dec_rep(numeral_val(s)) =~= s);
    } else {
        let t = s.drop_last();
        let c = s.last();
        assert(is_dec_digit(c)) by {
            assert(is_dec_digit(s[s.len() - 1]));
        }
        assert(t[0] == s[0]);
        assert(all_digits(t)) by {
            assert(forall|i: int| 0 <= i < t.len() ==> t[i] == s[i]);
        }
        assert(is_canonical_numeral(t));
        lemma_canonical_dec_rep(t);
        lemma_nonzero_lead_nonzero_val(t);
        let v = numeral_val(s);
        let vt = numeral_val(t);
        assert(v == vt * 10 + char_val(c));
        assert(char_val(c) < 10);
        assert(v / 10 == vt && v % 10 == char_val(c)) by (nonlinear_arith)
            requires
                v == vt * 10 + char_val(c),
                char_val(c) < 10,
        ;
        assert(v >= 10) by (nonlinear_arith)
            requires
                v == vt * 10 + char_val(c),
                vt >= 1,
        ;
        assert(dec_rep(v) == dec_rep(vt) + seq![digit_char(char_val(c))]);
        assert(digit_char(char_val(c)) == c);
        assert(dec_rep(v) =~= s);
    }
}

/// The one-character string for a digit.
pub fn digit_str(d: u8) -> (r: &'static str)
    requires
        d < 10,
    ensures
        r@ =~= seq![digit_char(d as nat)],
{
    proof {
        reveal_strlit("0");
        reveal_strlit("1");
        reveal_strlit("2");
        reveal_strlit("3");
        reveal_strlit("4");
        reveal_strlit("5");
        reveal_strlit("6");
        reveal_strlit("7");
        reveal_strlit("8");
        reveal_strlit("9");
    }
    match d {
        0 => "0",
        1 => "1",
        2 => "2",
        3 => "3",
        4 => "4",
        5 => "5",
        6 => "6",
        7 => "7",
        8 => "8",
        _ => "9",
    }
}

/// Render a number as its canonical decimal numeral.
pub fn u64_to_dec(n: u64) -> (r: String)
    ensures
        r@ == dec_rep(n as nat),
    decreases n,
{
    if n < 10 {
        String::from_str(digit_str(n as u8))
    } else {
        let mut s = u64_to_dec(n / 10);
        s.append(digit_str((n % 10) as u8));
        proof {
            assert(s@ =~= dec_rep(n as nat));
        }
        s
    }
}

} // verus!
