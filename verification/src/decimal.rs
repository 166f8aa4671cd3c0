//! Decimal ASCII numerals.
//!
//! Catalog counts and file sizes travel on the wire as decimal ASCII digit
//! strings.  This module gives the canonical digit string of a number, the
//! number denoted by a digit string, and verified conversions between the
//! two, together with the validators the command line uses.

use vstd::prelude::*;
use vstd::string::*;

verus! {

/// The byte is an ASCII decimal digit.
pub open spec fn is_dec_digit(b: u8) -> bool {
    48 <= b <= 57
}

/// Every byte of `s` is an ASCII decimal digit, and there is at least one.
pub open spec fn is_dec_digits(s: Seq<u8>) -> bool {
    s.len() > 0 && forall|i: int| 0 <= i < s.len() ==> is_dec_digit(#[trigger] s[i])
}

/// The numeric value of one digit byte.
pub open spec fn digit_val(b: u8) -> nat {
    if b >= 48 {
        (b - 48) as nat
    } else {
        0
    }
}

/// The number denoted by a digit string, most significant digit first.
pub open spec fn dec_value(s: Seq<u8>) -> nat
    decreases s.len(),
{
    if s.len() == 0 {
        0
    } else {
        dec_value(s.drop_last()) * 10 + digit_val(s.last())
    }
}

/// The canonical (no leading zero) digit string of `n`.
pub open spec fn dec_digits_of(n: nat) -> Seq<u8>
    decreases n,
{
    if n < 10 {
        seq![(48 + n) as u8]
    } else {
        dec_digits_of(n / 10).push((48 + n % 10) as u8)
    }
}

/// The canonical digit string consists of digits.
pub proof fn lemma_dec_digits_of_is_digits(n: nat)
    ensures
        is_dec_digits(dec_digits_of(n)),
    decreases n,
{
    if n >= 10 {
        lemma_dec_digits_of_is_digits(n / 10);
    }
}

/// The canonical digit string of `n` denotes `n`.
pub proof fn lemma_dec_digits_of_value(n: nat)
    ensures
        dec_value(dec_digits_of(n)) == n,
    decreases n,
{
    if n < 10 {
        assert(dec_digits_of(n) == seq![(48 + n) as u8]);
        assert(dec_value(seq![(48 + n) as u8].drop_last()) == 0);
    } else {
        lemma_dec_digits_of_value(n / 10);
        let prefix = dec_digits_of(n / 10);
        let whole = prefix.push((48 + n % 10) as u8);
        assert(whole.drop_last() =~= prefix);
        assert(whole.last() == (48 + n % 10) as u8);
        assert(n / 10 * 10 + n % 10 == n) by (nonlinear_arith);
    }
}

/// A prefix of a digit string never denotes more than the whole string.
pub proof fn lemma_dec_value_prefix_le(s: Seq<u8>, i: int)
    requires
        0 <= i <= s.len(),
    ensures
        dec_value(s.take(i)) <= dec_value(s),
    decreases s.len(),
{
    if i < s.len() {
        assert(s.drop_last().take(i) =~= s.take(i));
        lemma_dec_value_prefix_le(s.drop_last(), i);
        assert(dec_value(s.drop_last()) <= dec_value(s.drop_last()) * 10) by (nonlinear_arith);
    } else {
        assert(s.take(i) =~= s);
    }
}

/// Appends the canonical digit string of `n` to `out`.
fn push_dec(n: u64, out: &mut Vec<u8>)
    ensures
        final(out)@ == old(out)@ + dec_digits_of(n as nat),
    decreases n,
{
    if n < 10 {
        out.push((48 + n) as u8);
        assert(out@ =~= old(out)@ + dec_digits_of(n as nat));
    } else {
        assert(n / 10 < n) by (nonlinear_arith)
            requires
                n >= 10,
        ;
        push_dec(n / 10, out);
        out.push((48 + n % 10) as u8);
        assert(out@ =~= old(out)@ + dec_digits_of(n as nat));
    }
}

/// The canonical decimal ASCII representation of `n`.
pub fn u64_to_dec(n: u64) -> (v: Vec<u8>)
    ensures
        v@ == dec_digits_of(n as nat),
{
    let mut out: Vec<u8> = Vec::new();
    push_dec(n, &mut out);
    assert(out@ =~= dec_digits_of(n as nat));
    out
}

/// Parses a decimal ASCII digit string.  Returns the denoted number exactly
/// when every byte is a digit, there is at least one, and the value fits in
/// a `u64`; returns `None` otherwise.
pub fn parse_dec(s: &[u8]) -> (r: Option<u64>)
    ensures
        r is Some <==> is_dec_digits(s@) && dec_value(s@) <= u64::MAX,
        r matches Some(n) ==> n == dec_value(s@),
{
    if s.len() == 0 {
        return None;
    }
    let mut acc: u64 = 0;
    let mut i: usize = 0;
    while i < s.len()
        invariant
            0 < s@.len(),
            i <= s@.len(),
            forall|j: int| 0 <= j < i ==> is_dec_digit(#[trigger] s@[j]),
            acc == dec_value(s@.take(i as int)),
        decreases s@.len() - i,
    {
        let b = s[i];
        if b < 48 || b > 57 {
            return None;
        }
        let d = b - 48;
        proof {
            assert(s@.take(i + 1).drop_last() =~= s@.take(i as int));
            assert(s@.take(i + 1).last() == s@[i as int]);
        }
        proof {
            let m = (u64::MAX - d) as int;
            vstd::arithmetic::div_mod::lemma_fundamental_div_mod(m, 10);
            vstd::arithmetic::div_mod::lemma_mod_division_less_than_divisor(m, 10);
        }
        if acc > (u64::MAX - d as u64) / 10 {
            proof {
                assert(dec_value(s@.take(i + 1)) == acc * 10 + digit_val(b));
                assert(acc * 10 + digit_val(b) > u64::MAX);
                lemma_dec_value_prefix_le(s@, i + 1);
            }
            return None;
        }
        proof {
            assert(acc * 10 + d <= u64::MAX);
        }
        acc = acc * 10 + d as u64;
        i = i + 1;
    }
    proof {
        assert(s@.take(i as int) =~= s@);
    }
    Some(acc)
}

/// Validates a port number given as decimal ASCII text.
pub fn validate_port(value: &str) -> (r: Result<u16, String>)
    ensures
        r is Ok <==> is_dec_digits(value.spec_bytes()) && dec_value(value.spec_bytes())
            <= u16::MAX,
        r matches Ok(p) ==> p == dec_value(value.spec_bytes()),
{
    match parse_dec(value.as_bytes()) {
        Some(n) => {
            if n <= u16::MAX as u64 {
                Ok(n as u16)
            } else {
                Err("Invalid port-number".to_owned())
            }
        },
        None => Err("Invalid port-number".to_owned()),
    }
}

/// Validates a transfer chunk size given as decimal ASCII text.
pub fn validate_buffersize(value: &str) -> (r: Result<usize, String>)
    ensures
        r is Ok <==> is_dec_digits(value.spec_bytes()) && dec_value(value.spec_bytes())
            <= usize::MAX,
        r matches Ok(n) ==> n == dec_value(value.spec_bytes()),
{
    match parse_dec(value.as_bytes()) {
        Some(n) => {
            if n <= usize::MAX as u64 {
                Ok(n as usize)
            } else {
                Err("Invalid buffersize".to_owned())
            }
        },
        None => Err("Invalid buffersize".to_owned()),
    }
}

} // verus!
