//! Decimal text of numbers.
use vstd::prelude::*;

use crate::text::string_of;

verus! {

/// The decimal digit character for `d < 10`.
pub open spec fn digit_char(d: nat) -> char {
    (48 + d) as char
}

/// Decimal representation without leading zeros ("0" for zero).
pub open spec fn dec(n: nat) -> Seq<char>
    decreases n,
{
    if n < 10 {
        seq![digit_char(n)]
    } else {
        dec(n / 10).push(digit_char(n % 10))
    }
}

/// `s` left-padded with '0' up to `width` characters.
pub open spec fn zero_pad(s: Seq<char>, width: nat) -> Seq<char> {
    if s.len() < width {
        Seq::new((width - s.len()) as nat, |i: int| '0') + s
    } else {
        s
    }
}

pub proof fn lemma_dec_len(n: nat)
    ensures
        dec(n).len() >= 1,
        n < 10 ==> dec(n).len() == 1,
        10 <= n < 100 ==> dec(n).len() == 2,
    decreases n,
{
    if n >= 10 {
        lemma_dec_len(n / 10);
    }
}

/// Ten to the `k`.
pub open spec fn pow10(k: nat) -> nat
    decreases k,
{
    if k == 0 { 1 } else { 10 * pow10((k - 1) as nat) }
}

/// A number below 10^k has at most `k` digits.
pub proof fn lemma_dec_len_below(n: nat, k: nat)
    requires
        k >= 1,
        n < pow10(k),
    ensures
        dec(n).len() <= k,
    decreases n,
{
    if n >= 10 {
        let p = pow10((k - 1) as nat);
        assert(k >= 2) by {
            if k == 1 {
                assert(pow10(1) == 10) by {
                    reveal_with_fuel(pow10, 2);
                }
            }
        }
        assert(n / 10 < p) by (nonlinear_arith)
            requires
                n < 10 * p,
        ;
        lemma_dec_len_below(n / 10, (k - 1) as nat);
    }
}

/// A 64-bit number has at most 20 digits.
pub proof fn lemma_dec_len_u64(n: nat)
    requires
        n <= u64::MAX,
    ensures
        dec(n).len() <= 20,
{
    assert(pow10(20) == 100_000_000_000_000_000_000) by {
        reveal_with_fuel(pow10, 21);
    }
    lemma_dec_len_below(n, 20);
}

/// The decimal digits of `n`, most significant first.
pub fn dec_chars(n: u64) -> (v: Vec<char>)
    ensures
        v@ == dec(n as nat),
    decreases n,
{
    if n < 10 {
        let mut v: Vec<char> = Vec::new();
        v.push(((48 + n) as u8) as char);
        v
    } else {
        let mut v = dec_chars(n / 10);
        v.push(((48 + n % 10) as u8) as char);
        v
    }
}

/// Decimal text of `n`.
pub fn u64_to_string(n: u64) -> (s: String)
    ensures
        s@ == dec(n as nat),
{
    let v = dec_chars(n);
    string_of(v.as_slice())
}

/// Decimal text of `n`, zero-padded to `width` characters.
pub fn u64_to_padded(n: u64, width: usize) -> (s: String)
    ensures
        s@ == zero_pad(dec(n as nat), width as nat),
{
    let d = dec_chars(n);
    let mut v: Vec<char> = Vec::new();
    let k = if d.len() < width { width - d.len() } else { 0 };
    for i in 0..k
        invariant
            v@ == Seq::new(i as nat, |j: int| '0'),
    {
        v.push('0');
        assert(v@ =~= Seq::new((i + 1) as nat, |j: int| '0'));
    }
    let n2 = d.len();
    for i in 0..n2
        invariant
            n2 == d@.len(),
            v@ == Seq::new(k as nat, |j: int| '0') + d@.take(i as int),
    {
        v.push(d[i]);
        assert(d@.take(i + 1) == d@.take(i as int).push(d@[i as int]));
        assert(v@ =~= Seq::new(k as nat, |j: int| '0') + d@.take(i + 1));
    }
    assert(d@.take(n2 as int) == d@);
    proof {
        if d@.len() >= width {
            assert(v@ =~= d@);
        }
    }
    string_of(v.as_slice())
}

} // verus!
