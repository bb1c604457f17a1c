//! Decimal byte strings: the codec's only numeric text.
//!
//! A content length arrives as a decimal byte string and a `Content-Length`
//! line carries one back out. Both directions are specified against
//! [`spec_decimal_digits`] and [`spec_decimal_value`].

use vstd::prelude::*;

verus! {

/// Whether a byte is an ASCII decimal digit.
pub open spec fn is_digit(b: u8) -> bool {
    48 <= b && b <= 57
}

/// Whether every byte of `s` is an ASCII decimal digit.
pub open spec fn all_digits(s: Seq<u8>) -> bool {
    forall|i: int| 0 <= i < s.len() ==> is_digit(#[trigger] s[i])
}

/// The canonical decimal representation of `n`: most significant digit
/// first, no leading zeros (a single `0` for zero).
pub open spec fn spec_decimal_digits(n: nat) -> Seq<u8>
    decreases n,
{
    if n < 10 {
        seq![(48 + n) as u8]
    } else {
        spec_decimal_digits(n / 10).push((48 + n % 10) as u8)
    }
}

/// The numeric value of a digit string, read left to right. Meaningful only
/// where [`all_digits`] holds; non-negative there.
pub open spec fn spec_decimal_value(s: Seq<u8>) -> int
    decreases s.len(),
{
    if s.len() == 0 {
        0
    } else {
        spec_decimal_value(s.drop_last()) * 10 + (s.last() - 48)
    }
}

/// The outcome of reading a decimal byte string.
#[derive(PartialEq, Eq, Clone, Copy, Debug)]
pub enum ParsedNumber {
    /// A well-formed decimal whose value fits in 64 bits.
    Value(u64),
    /// A well-formed decimal too large for 64 bits.
    Overflow,
    /// Empty, or holding a byte that is no decimal digit.
    NotANumber,
}

/// Reads a decimal byte string.
///
/// Returns `NotANumber` exactly when `s` is empty or holds a non-digit;
/// otherwise the numeric value when it fits in a `u64`, and `Overflow` when
/// it does not.
pub fn parse_decimal(s: &[u8]) -> (r: ParsedNumber)
    ensures
        r == ParsedNumber::NotANumber <==> (s@.len() == 0 || !all_digits(s@)),
        s@.len() > 0 && all_digits(s@) && spec_decimal_value(s@) <= u64::MAX ==> r
            == ParsedNumber::Value(spec_decimal_value(s@) as u64),
        s@.len() > 0 && all_digits(s@) && spec_decimal_value(s@) > u64::MAX ==> r
            == ParsedNumber::Overflow,
{
    let mut acc: u64 = 0;
    let mut overflow: bool = false;
    let mut i: usize = 0;
    while i < s.len()
        invariant
            i <= s@.len(),
            all_digits(s@.take(i as int)),
            !overflow ==> acc == spec_decimal_value(s@.take(i as int)),
            overflow ==> spec_decimal_value(s@.take(i as int)) > u64::MAX,
        decreases s@.len() - i,
    {
        let b = s[i];
        if b < 48 || b > 57 {
            return ParsedNumber::NotANumber;
        }
        let d: u64 = (b - 48) as u64;
        proof {
            assert(s@.take(i + 1 as int).drop_last() =~= s@.take(i as int));
            assert(s@.take(i + 1 as int).last() == s@[i as int]);
            assert(spec_decimal_value(s@.take(i + 1 as int)) == spec_decimal_value(
                s@.take(i as int),
            ) * 10 + (b - 48));
        }
        if !overflow {
            if acc > (u64::MAX - d) / 10 {
                overflow = true;
            } else {
                acc = acc * 10 + d;
            }
        }
        i = i + 1;
    }
    proof {
        assert(s@.take(i as int) =~= s@);
    }
    if s.len() == 0 {
        ParsedNumber::NotANumber
    } else if overflow {
        ParsedNumber::Overflow
    } else {
        ParsedNumber::Value(acc)
    }
}

/// Writes `n` as its canonical decimal byte string.
pub fn format_decimal(n: u64) -> (r: Vec<u8>)
    ensures
        r@ == spec_decimal_digits(n as nat),
        all_digits(r@),
        r@.len() > 0,
{
    let mut rev: Vec<u8> = Vec::new();
    let mut m: u64 = n;
    while m >= 10
        invariant
            spec_decimal_digits(n as nat) =~= spec_decimal_digits(m as nat) + rev@.reverse(),
        decreases m,
    {
        let d: u8 = (m % 10) as u8 + 48;
        proof {
            let old_rev = rev@;
            assert(spec_decimal_digits(m as nat) == spec_decimal_digits((m / 10) as nat).push(d));
            assert(old_rev.push(d).reverse() =~= seq![d] + old_rev.reverse());
            assert(spec_decimal_digits((m / 10) as nat) + old_rev.push(d).reverse()
                =~= spec_decimal_digits(m as nat) + old_rev.reverse());
        }
        rev.push(d);
        m = m / 10;
    }
    let d: u8 = m as u8 + 48;
    proof {
        let old_rev = rev@;
        assert(spec_decimal_digits(m as nat) == seq![d]);
        assert(old_rev.push(d).reverse() =~= seq![d] + old_rev.reverse());
        assert(spec_decimal_digits(m as nat) + old_rev.reverse() =~= old_rev.push(d).reverse());
    }
    rev.push(d);
    assert(spec_decimal_digits(n as nat) =~= rev@.reverse());
    let mut r: Vec<u8> = Vec::new();
    let mut i: usize = rev.len();
    while i > 0
        invariant
            i <= rev@.len(),
            r@.len() == rev@.len() - i,
            forall|j: int| 0 <= j < r@.len() ==> r@[j] == rev@[rev@.len() - 1 - j],
        decreases i,
    {
        i = i - 1;
        r.push(rev[i]);
    }
    proof {
        assert(r@ =~= rev@.reverse());
        lemma_decimal_digits_are_digits(n as nat);
    }
    r
}

/// The value of a digit string is non-negative.
pub proof fn lemma_decimal_value_nonneg(s: Seq<u8>)
    requires
        all_digits(s),
    ensures
        spec_decimal_value(s) >= 0,
    decreases s.len(),
{
    if s.len() > 0 {
        assert(all_digits(s.drop_last())) by {
            assert(forall|i: int|
                0 <= i < s.drop_last().len() ==> #[trigger] s.drop_last()[i] == s[i]);
        }
        lemma_decimal_value_nonneg(s.drop_last());
    }
}

/// Every byte of a canonical decimal representation is a digit.
pub proof fn lemma_decimal_digits_are_digits(n: nat)
    ensures
        all_digits(spec_decimal_digits(n)),
        spec_decimal_digits(n).len() > 0,
    decreases n,
{
    if n >= 10 {
        lemma_decimal_digits_are_digits(n / 10);
        assert forall|i: int| 0 <= i < spec_decimal_digits(n).len() implies is_digit(
            #[trigger] spec_decimal_digits(n)[i],
        ) by {
            if i < spec_decimal_digits(n / 10).len() {
                assert(spec_decimal_digits(n)[i] == spec_decimal_digits(n / 10)[i]);
            }
        }
    }
}

/// Reading back a canonical decimal representation yields the number itself.
pub proof fn lemma_decimal_round_trip(n: nat)
    ensures
        spec_decimal_value(spec_decimal_digits(n)) == n,
    decreases n,
{
    if n < 10 {
        assert(spec_decimal_digits(n).drop_last() =~= Seq::<u8>::empty());
        assert(spec_decimal_digits(n).last() == (48 + n) as u8);
        assert((48 + n) as u8 == 48 + n);
        assert(spec_decimal_digits(n).len() == 1);
        assert(spec_decimal_value(spec_decimal_digits(n)) == spec_decimal_value(
            spec_decimal_digits(n).drop_last(),
        ) * 10 + (spec_decimal_digits(n).last() - 48));
        assert(spec_decimal_value(Seq::<u8>::empty()) == 0);
    } else {
        lemma_decimal_round_trip(n / 10);
        assert(spec_decimal_digits(n).drop_last() =~= spec_decimal_digits(n / 10));
        assert(spec_decimal_digits(n).last() == (48 + n % 10) as u8);
        assert((48 + n % 10) as u8 == 48 + n % 10);
        assert((n / 10) * 10 + n % 10 == n) by {
            vstd::arithmetic::div_mod::lemma_fundamental_div_mod(n as int, 10);
        }
    }
}

} // verus!
