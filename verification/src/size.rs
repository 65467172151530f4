//! Human-readable file sizes, as the window shows them.
//!
//! Sizes of a kibibyte and more are shown with one decimal in KB, MB or GB.
//! The figure is the size converted to the nearest double-precision value
//! (ties to even), divided by the unit, and rounded to one decimal, ties to
//! even; all of it is done here in exact integer arithmetic.
use vstd::prelude::*;
use vstd::string::StringExecFns;
use crate::text::{decimal, decimal_string, digit_char, push_char, push_decimal};

verus! {

pub open spec fn pow2(k: nat) -> nat
    decreases k,
{
    if k == 0 { 1 } else { 2 * pow2((k - 1) as nat) }
}

/// Number of binary digits of `n` (0 for 0).
pub open spec fn bit_length(n: nat) -> nat
    decreases n,
{
    if n == 0 { 0 } else { 1 + bit_length(n / 2) }
}

/// `num / den` rounded to the nearest integer, ties to the even one.
pub open spec fn div_round_even(num: nat, den: nat) -> nat
    recommends
        den > 0,
{
    let q = num / den;
    let r = num % den;
    if 2 * r > den {
        q + 1
    } else if 2 * r < den {
        q
    } else if q % 2 == 0 {
        q
    } else {
        q + 1
    }
}

/// The double-precision value nearest to `s` (ties to even): `s` itself
/// below 2^53, else `s` rounded to 53 significant bits.
pub open spec fn nearest_double(s: nat) -> nat {
    if s < pow2(53) {
        s
    } else {
        let shift = (bit_length(s) - 53) as nat;
        div_round_even(s, pow2(shift)) * pow2(shift)
    }
}

/// Tenths of the unit 2^k in `s` bytes, rounded as the display rounds.
pub open spec fn tenths(s: nat, k: nat) -> nat {
    div_round_even(10 * nearest_double(s), pow2(k))
}

/// A count of tenths written with one decimal.
pub open spec fn one_decimal(t: nat) -> Seq<char> {
    decimal(t / 10) + seq!['.', digit_char(t % 10)]
}

/// The text shown for a size of `s` bytes.
pub open spec fn size_text(s: nat) -> Seq<char> {
    if s >= pow2(30) {
        one_decimal(tenths(s, 30)) + " GB"@
    } else if s >= pow2(20) {
        one_decimal(tenths(s, 20)) + " MB"@
    } else if s >= pow2(10) {
        one_decimal(tenths(s, 10)) + " KB"@
    } else {
        decimal(s) + " bytes"@
    }
}

proof fn lemma_pow2_values()
    ensures
        pow2(10) == 1024,
        pow2(20) == 1048576,
        pow2(30) == 1073741824,
        pow2(53) == 0x20_0000_0000_0000,
        pow2(64) == 0x1_0000_0000_0000_0000,
{
    reveal_with_fuel(pow2, 65);
}

proof fn lemma_pow2_positive(k: nat)
    ensures
        pow2(k) >= 1,
    decreases k,
{
    if k > 0 {
        lemma_pow2_positive((k - 1) as nat);
    }
}

proof fn lemma_pow2_monotone(a: nat, b: nat)
    requires
        a <= b,
    ensures
        pow2(a) <= pow2(b),
    decreases b,
{
    if a < b {
        lemma_pow2_monotone(a, (b - 1) as nat);
        lemma_pow2_positive((b - 1) as nat);
    }
}

proof fn lemma_bit_length_bound(n: nat, k: nat)
    requires
        n < pow2(k),
    ensures
        bit_length(n) <= k,
    decreases k,
{
    if n > 0 {
        if k == 0 {
            assert(false);
        } else {
            lemma_bit_length_bound(n / 2, (k - 1) as nat);
        }
    }
}

proof fn lemma_bit_length_low(n: nat, k: nat)
    requires
        n >= pow2(k),
    ensures
        bit_length(n) >= k + 1,
    decreases k,
{
    lemma_pow2_positive(k);
    if k > 0 {
        lemma_bit_length_low(n / 2, (k - 1) as nat);
    }
}

/// 2^k as a wide integer, for k up to 64.
fn pow2_exec(k: u32) -> (p: u128)
    requires
        k <= 64,
    ensures
        p == pow2(k as nat),
{
    let mut p: u128 = 1;
    let mut i: u32 = 0;
    while i < k
        invariant
            i <= k <= 64,
            p == pow2(i as nat),
        decreases k - i,
    {
        proof {
            lemma_pow2_monotone(i as nat, 63);
            lemma_pow2_values();
        }
        p = p * 2;
        i = i + 1;
    }
    p
}

fn bit_length_exec(n: u64) -> (b: u32)
    ensures
        b == bit_length(n as nat),
        b <= 64,
{
    let mut x: u64 = n;
    let mut b: u32 = 0;
    proof {
        lemma_pow2_values();
        lemma_bit_length_bound(n as nat, 64);
    }
    while x > 0
        invariant
            bit_length(n as nat) == b + bit_length(x as nat),
            bit_length(n as nat) <= 64,
        decreases x,
    {
        x = x / 2;
        b = b + 1;
    }
    b
}

fn div_round_even_exec(num: u128, den: u128) -> (r: u128)
    requires
        den > 0,
        num < 0x1000_0000_0000_0000_0000_0000_0000_0000,
    ensures
        r == div_round_even(num as nat, den as nat),
{
    let q = num / den;
    let rem = num % den;
    if rem > den - rem {
        q + 1
    } else if rem < den - rem {
        q
    } else if q % 2 == 0 {
        q
    } else {
        q + 1
    }
}

fn nearest_double_exec(s: u64) -> (v: u128)
    ensures
        v == nearest_double(s as nat),
        v <= 0x1_0000_0000_0000_0000,
{
    proof {
        lemma_pow2_values();
    }
    if s < 0x20_0000_0000_0000 {
        return s as u128;
    }
    let bits = bit_length_exec(s);
    proof {
        lemma_bit_length_low(s as nat, 53);
    }
    let shift = bits - 53;
    let unit = pow2_exec(shift);
    proof {
        lemma_pow2_positive(shift as nat);
        lemma_pow2_monotone(shift as nat, 11);
        reveal_with_fuel(pow2, 12);
    }
    let q = div_round_even_exec(s as u128, unit);
    proof {
        let qs = (s as nat) / (unit as nat);
        assert(qs <= s as nat) by (nonlinear_arith)
            requires unit >= 1, qs == (s as nat) / (unit as nat);
        assert(q * unit <= 0x1_0000_0000_0000_0000) by {
            lemma_double_fits(s as nat, shift as nat, q as nat);
        }
    }
    q * unit
}

/// Rounding to 53 significant bits never goes past 2^64.
proof fn lemma_double_fits(s: nat, shift: nat, q: nat)
    requires
        s < pow2(64),
        pow2(53) <= s,
        shift == bit_length(s) - 53,
        q == div_round_even(s, pow2(shift)),
    ensures
        q * pow2(shift) <= pow2(64),
{
    lemma_bit_length_bound(s, 64);
    lemma_bit_length_low(s, 53);
    lemma_pow2_positive(shift);
    let u = pow2(shift);
    // s < 2^(shift + 53), so s / u < 2^53 and q <= 2^53.
    lemma_pow2_split(shift, 53);
    lemma_bit_length_below(s);
    assert(s < pow2(bit_length(s)));
    lemma_pow2_monotone(bit_length(s), shift + 53);
    let qs = s / u;
    assert(qs < pow2(53)) by (nonlinear_arith)
        requires
            s < pow2(shift + 53),
            pow2(shift + 53) == u * pow2(53),
            u >= 1,
            qs == s / u;
    assert(q <= pow2(53));
    assert(q * u <= pow2(53) * u) by (nonlinear_arith)
        requires q <= pow2(53), u >= 1;
    lemma_pow2_monotone(shift + 53, 64);
}

proof fn lemma_pow2_split(a: nat, b: nat)
    ensures
        pow2(a + b) == pow2(a) * pow2(b),
    decreases a,
{
    if a == 0 {
        assert(pow2(a) == 1);
        assert(a + b == b);
    } else {
        let x = pow2((a - 1) as nat);
        let y = pow2(b);
        lemma_pow2_split((a - 1) as nat, b);
        assert(((a - 1) as nat + b) as nat == (a + b - 1) as nat);
        assert(pow2(a + b) == 2 * pow2((a + b - 1) as nat));
        assert(pow2(a) == 2 * x);
        assert(2 * (x * y) == (2 * x) * y) by (nonlinear_arith);
    }
}

proof fn lemma_bit_length_below(n: nat)
    ensures
        n < pow2(bit_length(n)),
    decreases n,
{
    if n > 0 {
        lemma_bit_length_below(n / 2);
    }
}

fn push_one_decimal(s: &mut String, t: u64)
    ensures
        final(s)@ == old(s)@ + one_decimal(t as nat),
{
    push_decimal(s, t / 10);
    push_char(s, '.');
    let d = t % 10;
    let c = if d == 0 { '0' } else if d == 1 { '1' } else if d == 2 { '2' } else if d == 3 { '3' }
        else if d == 4 { '4' } else if d == 5 { '5' } else if d == 6 { '6' } else if d == 7 { '7' }
        else if d == 8 { '8' } else { '9' };
    push_char(s, c);
    assert(final(s)@ =~= old(s)@ + one_decimal(t as nat));
}

fn tenths_exec(s: u64, den: u128, k: Ghost<nat>) -> (t: u64)
    requires
        den == pow2(k@),
        den >= 1024,
    ensures
        t == tenths(s as nat, k@),
{
    let v = nearest_double_exec(s);
    let t = div_round_even_exec(10 * v, den);
    proof {
        let q = (10 * v) as nat / den as nat;
        assert(q <= (10 * v) as nat / 1024) by (nonlinear_arith)
            requires den >= 1024, q == (10 * v) as nat / den as nat;
        assert(t <= q + 1);
    }
    t as u64
}

/// The size text the window shows for `size` bytes.
pub fn format_size(size: u64) -> (r: String)
    ensures
        r@ == size_text(size as nat),
{
    proof {
        lemma_pow2_values();
    }
    let mut r = String::new();
    if size >= 1073741824 {
        let t = tenths_exec(size, 1073741824, Ghost(30));
        push_one_decimal(&mut r, t);
        r.append(" GB");
    } else if size >= 1048576 {
        let t = tenths_exec(size, 1048576, Ghost(20));
        push_one_decimal(&mut r, t);
        r.append(" MB");
    } else if size >= 1024 {
        let t = tenths_exec(size, 1024, Ghost(10));
        push_one_decimal(&mut r, t);
        r.append(" KB");
    } else {
        r = decimal_string(size);
        r.append(" bytes");
    }
    assert(r@ =~= size_text(size as nat));
    r
}

} // verus!
