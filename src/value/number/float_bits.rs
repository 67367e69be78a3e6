//! IEEE-754 binary64 values held as their 64-bit patterns.
//!
//! A pattern is read as a sign bit, an 11-bit biased exponent and a 52-bit
//! fraction. Its magnitude is `significand * 2^exponent`, where a biased
//! exponent of zero marks a subnormal (no hidden bit, exponent -1074) and any
//! other biased exponent `e` gives the hidden bit and the exponent `e - 1075`.
//! The all-ones exponent (infinities and NaNs) is read by the same formula;
//! a [`Number::Float`](super::Number::Float) never holds one.

use vstd::arithmetic::div_mod::{
    lemma_div_is_ordered, lemma_div_multiples_vanish, lemma_fundamental_div_mod,
    lemma_fundamental_div_mod_converse, lemma_mod_multiples_basic, lemma_small_mod,
};
use vstd::arithmetic::mul::{
    lemma_mul_equality_converse, lemma_mul_inequality, lemma_mul_is_associative,
    lemma_mul_strict_inequality_converse,
};
use vstd::arithmetic::power2::{
    lemma2_to64, lemma2_to64_rest, lemma_pow2_adds, lemma_pow2_pos, lemma_pow2_strictly_increases,
    lemma_pow2_unfold, pow2,
};
use vstd::prelude::*;

verus! {

/// 2^52, the weight of the hidden bit.
pub open spec fn hidden_bit() -> nat {
    0x10_0000_0000_0000
}

/// 2^64.
pub open spec fn two_pow_64() -> int {
    0x1_0000_0000_0000_0000
}

/// The sign bit is set.
pub open spec fn f64_sign_negative(bits: u64) -> bool {
    bits >= 0x8000_0000_0000_0000
}

/// The 11-bit biased exponent field.
pub open spec fn f64_biased_exponent(bits: u64) -> nat {
    ((bits / 0x10_0000_0000_0000) % 0x800) as nat
}

/// The 52-bit fraction field.
pub open spec fn f64_fraction(bits: u64) -> nat {
    (bits % 0x10_0000_0000_0000) as nat
}

/// The pattern is neither an infinity nor a NaN.
pub open spec fn f64_is_finite(bits: u64) -> bool {
    f64_biased_exponent(bits) < 0x7ff
}

/// The pattern is a NaN.
pub open spec fn f64_is_nan(bits: u64) -> bool {
    f64_biased_exponent(bits) == 0x7ff && f64_fraction(bits) != 0
}

/// The pattern is +0.0 or -0.0.
pub open spec fn f64_is_zero(bits: u64) -> bool {
    f64_biased_exponent(bits) == 0 && f64_fraction(bits) == 0
}

/// The integer significand, hidden bit included.
pub open spec fn f64_significand(bits: u64) -> nat {
    if f64_biased_exponent(bits) == 0 {
        f64_fraction(bits)
    } else {
        f64_fraction(bits) + hidden_bit()
    }
}

/// The power of two that scales the significand.
pub open spec fn f64_exponent(bits: u64) -> int {
    if f64_biased_exponent(bits) == 0 {
        -1074
    } else {
        f64_biased_exponent(bits) - 1075
    }
}

/// `m * 2^e` when it is a whole number; `None` when it has a fractional part.
pub open spec fn dyadic_integer(m: nat, e: int) -> Option<nat> {
    if e >= 0 {
        Some(m * pow2(e as nat))
    } else if m % pow2((-e) as nat) == 0 {
        Some(m / pow2((-e) as nat))
    } else {
        None
    }
}

/// The magnitude of the value when it is a whole number; `None` when it has a
/// fractional part.
pub open spec fn f64_integer_magnitude(bits: u64) -> Option<nat> {
    dyadic_integer(f64_significand(bits), f64_exponent(bits))
}

/// The value itself when it is a whole number.
pub open spec fn f64_integer_value(bits: u64) -> Option<int> {
    match f64_integer_magnitude(bits) {
        Some(m) => Some(if f64_sign_negative(bits) { -m } else { m as int }),
        None => None,
    }
}

/// The magnitude with its fractional part dropped.
pub open spec fn f64_truncated_magnitude(bits: u64) -> nat {
    let m = f64_significand(bits);
    let e = f64_exponent(bits);
    if e >= 0 {
        m * pow2(e as nat)
    } else {
        m / pow2((-e) as nat)
    }
}

/// The value rounded toward zero.
pub open spec fn f64_truncated_value(bits: u64) -> int {
    if f64_sign_negative(bits) {
        -f64_truncated_magnitude(bits)
    } else {
        f64_truncated_magnitude(bits) as int
    }
}

/// The sign bit of a binary32 pattern is set.
pub open spec fn f32_sign_negative(bits: u32) -> bool {
    bits >= 0x8000_0000
}

/// The 8-bit biased exponent field of a binary32 pattern.
pub open spec fn f32_biased_exponent(bits: u32) -> nat {
    ((bits / 0x80_0000) % 0x100) as nat
}

/// The 23-bit fraction field of a binary32 pattern.
pub open spec fn f32_fraction(bits: u32) -> nat {
    (bits % 0x80_0000) as nat
}

/// The binary32 pattern is neither an infinity nor a NaN.
pub open spec fn f32_is_finite(bits: u32) -> bool {
    f32_biased_exponent(bits) < 0xff
}

/// The integer significand of a binary32 pattern, hidden bit included.
pub open spec fn f32_significand(bits: u32) -> nat {
    if f32_biased_exponent(bits) == 0 {
        f32_fraction(bits)
    } else {
        f32_fraction(bits) + 0x80_0000
    }
}

/// The power of two that scales a binary32 significand.
pub open spec fn f32_exponent(bits: u32) -> int {
    if f32_biased_exponent(bits) == 0 {
        -149
    } else {
        f32_biased_exponent(bits) - 150
    }
}

/// The value of a binary32 pattern when it is a whole number.
pub open spec fn f32_integer_value(bits: u32) -> Option<int> {
    match dyadic_integer(f32_significand(bits), f32_exponent(bits)) {
        Some(m) => Some(if f32_sign_negative(bits) { -m } else { m as int }),
        None => None,
    }
}

/// The magnitude of a binary64 pattern times 2^1074, a whole number.
pub open spec fn f64_scaled_magnitude(bits: u64) -> nat {
    f64_significand(bits) * pow2((f64_exponent(bits) + 1074) as nat)
}

/// The magnitude of a binary32 pattern times 2^1074, a whole number.
pub open spec fn f32_scaled_magnitude(bits: u32) -> nat {
    f32_significand(bits) * pow2((f32_exponent(bits) + 1074) as nat)
}

/// Some finite binary32 value has magnitude `v / 2^1074`: zero, or
/// `m * 2^e` with `m < 2^24` and `-149 <= e <= 104`.
pub open spec fn f32_holds_scaled(v: nat) -> bool {
    v == 0 || exists|m: nat, q: nat|
        925 <= q <= 1178 && m < 0x100_0000 && #[trigger] (m * pow2(q)) == v
}

/// `n` has at most `p` significant bits: it is `m * 2^k` with `m < 2^p`.
/// These are the whole numbers below 2^64 that a binary format with a
/// `p`-bit significand holds exactly.
pub open spec fn fits_precision(n: nat, p: nat) -> bool {
    exists|k: nat| #[trigger] (n % pow2(k)) == 0 && n / pow2(k) < pow2(p)
}

/// The number of bits of `n`.
pub open spec fn bit_len(n: nat) -> nat
    decreases n,
{
    if n == 0 {
        0
    } else {
        1 + bit_len(n / 2)
    }
}

/// `n / 2^s` rounded to the nearest whole number, ties to the even one.
pub open spec fn round_half_even(n: nat, s: nat) -> nat {
    if s == 0 {
        n
    } else {
        let q = n / pow2(s);
        let r = n % pow2(s);
        let half = pow2((s - 1) as nat);
        if r > half || (r == half && q % 2 == 1) {
            q + 1
        } else {
            q
        }
    }
}

/// `n` rounded to `p` significant bits, ties to even: the value that a
/// binary format with a `p`-bit significand gives for `n`.
pub open spec fn round_to_precision(n: nat, p: nat) -> nat {
    if bit_len(n) <= p {
        n
    } else {
        let s = (bit_len(n) - p) as nat;
        round_half_even(n, s) * pow2(s)
    }
}

/// The scaled magnitude (times 2^1074) that rounding the scaled magnitude
/// `v` to binary32 gives, ties to even; `None` when it rounds to infinity.
/// Binary32 values are spaced `2^925` apart below 2^-126 (scaled: below
/// `2^948`), and have 24 significant bits above.
pub open spec fn f32_round_scaled(v: nat) -> Option<nat> {
    let s: nat = if bit_len(v) > 949 {
        (bit_len(v) - 24) as nat
    } else {
        925
    };
    let m = round_half_even(v, s) * pow2(s);
    if m >= pow2(1202) {
        None
    } else {
        Some(m)
    }
}

/// Splits a pattern into its sign, biased exponent and fraction.
pub fn f64_fields(bits: u64) -> (r: (bool, u64, u64))
    ensures
        r.0 == f64_sign_negative(bits),
        r.1 == f64_biased_exponent(bits),
        r.2 == f64_fraction(bits),
        r.1 < 0x800,
        r.2 < hidden_bit(),
{
    (bits >= 0x8000_0000_0000_0000, (bits / 0x10_0000_0000_0000) % 0x800, bits % 0x10_0000_0000_0000)
}

/// 2^k as a `u64`.
pub fn pow2_u64(k: u64) -> (r: u64)
    requires
        k < 64,
    ensures
        r == pow2(k as nat),
{
    let mut p: u64 = 1;
    let mut i: u64 = 0;
    proof {
        lemma2_to64();
    }
    while i < k
        invariant
            i <= k < 64,
            p == pow2(i as nat),
        decreases k - i,
    {
        proof {
            lemma_pow2_unfold((i + 1) as nat);
            lemma_pow2_strictly_increases(i as nat, 63);
            lemma2_to64_rest();
        }
        p = p * 2;
        i = i + 1;
    }
    p
}

/// 2^k as a `u128`.
pub fn pow2_u128(k: u64) -> (r: u128)
    requires
        k < 128,
    ensures
        r == pow2(k as nat),
{
    let mut p: u128 = 1;
    let mut i: u64 = 0;
    proof {
        lemma2_to64();
        lemma2_to64_rest();
        lemma_pow2_adds(64, 63);
    }
    while i < k
        invariant
            i <= k < 128,
            p == pow2(i as nat),
            pow2(127) == 0x8000_0000_0000_0000 * 0x1_0000_0000_0000_0000,
        decreases k - i,
    {
        proof {
            lemma_pow2_unfold((i + 1) as nat);
            if i < 127 {
                lemma_pow2_strictly_increases(i as nat, 127);
            }
        }
        p = p * 2;
        i = i + 1;
    }
    p
}

/// The number of bits of `n`: the least `l` with `n < 2^l`.
pub fn bit_length(n: u64) -> (r: u64)
    ensures
        r <= 64,
        n < pow2(r as nat),
        r > 0 ==> pow2((r - 1) as nat) <= n,
{
    let mut l: u64 = 0;
    proof {
        lemma2_to64();
    }
    loop
        invariant
            l <= 64,
            l > 0 ==> pow2((l - 1) as nat) <= n,
            pow2(64) == 0x1_0000_0000_0000_0000,
        decreases 64 - l,
    {
        if l == 64 {
            return l;
        }
        let p = pow2_u64(l);
        if p > n {
            return l;
        }
        l = l + 1;
    }
}

/// `bit_len` is the `l` with `2^(l-1) <= n < 2^l`.
pub proof fn lemma_bit_len(n: nat, l: nat)
    requires
        n < pow2(l),
        l > 0 ==> pow2((l - 1) as nat) <= n,
    ensures
        bit_len(n) == l,
    decreases l,
{
    reveal_with_fuel(bit_len, 2);
    lemma2_to64();
    if l == 0 {
        assert(n == 0);
    } else if l == 1 {
        assert(n == 1);
        assert(bit_len(0) == 0);
    } else {
        lemma_pow2_unfold(l);
        lemma_pow2_unfold((l - 1) as nat);
        lemma_bit_len(n / 2, (l - 1) as nat);
    }
}

/// Rounds a nonzero `n` to `p` significant bits, ties to even. The result
/// `(sig, e)` has `2^(p-1) <= sig < 2^p` and is `sig * 2^e`, with `e`
/// negative only when `n` needs no rounding.
pub fn round_significand(n: u64, p: u64) -> (r: (u64, i64))
    requires
        0 < n,
        2 <= p <= 53,
    ensures
        pow2((p - 1) as nat) <= r.0 < pow2(p as nat),
        -64 <= r.1 <= 64,
        dyadic_integer(r.0 as nat, r.1 as int) == Some(round_to_precision(n as nat, p as nat)),
{
    let l = bit_length(n);
    proof {
        lemma2_to64();
        lemma2_to64_rest();
        lemma_bit_len(n as nat, l as nat);
        lemma_pow2_le(p as nat, 53);
    }
    if l <= p {
        let shift = p - l;
        let m = pow2_u64(shift);
        proof {
            lemma_pow2_adds(l as nat, shift as nat);
            lemma_pow2_adds((l - 1) as nat, shift as nat);
            lemma_mul_inequality(n as int, (pow2(l as nat) - 1) as int, m as int);
            lemma_mul_inequality(pow2((l - 1) as nat) as int, n as int, m as int);
            assert(n * m < pow2(p as nat)) by (nonlinear_arith)
                requires
                    n * m <= (pow2(l as nat) - 1) * m,
                    pow2(l as nat) * m == pow2(p as nat),
                    m > 0,
            ;
        }
        let sig = n * m;
        proof {
            lemma_pow2_pos(shift as nat);
            lemma_mod_multiples_basic(n as int, m as int);
            lemma_div_by_multiple_nat(n as nat, m as nat);
            if shift == 0 {
                assert(m == 1);
                assert(sig == n * 1);
            }
        }
        (sig, l as i64 - p as i64)
    } else {
        let shift = l - p;
        let m = pow2_u64(shift);
        let half = pow2_u64(shift - 1);
        let q = n / m;
        let rem = n % m;
        proof {
            lemma_pow2_pos(shift as nat);
            lemma_pow2_unfold(shift as nat);
            lemma_fundamental_div_mod(n as int, m as int);
            lemma_pow2_adds((p - 1) as nat, shift as nat);
            lemma_pow2_adds(p as nat, shift as nat);
            lemma_div_is_ordered(pow2((l - 1) as nat) as int, n as int, m as int);
            lemma_div_multiples_vanish(pow2((p - 1) as nat) as int, m as int);
            assert(pow2((p - 1) as nat) * m == m * pow2((p - 1) as nat)) by (nonlinear_arith);
            assert(q < pow2(p as nat)) by (nonlinear_arith)
                requires
                    n == m * q + rem,
                    rem >= 0,
                    n < pow2(l as nat),
                    pow2(l as nat) == pow2(p as nat) * m,
                    m > 0,
            ;
        }
        let up = rem > half || (rem == half && q % 2 == 1);
        let rounded = if up {
            q + 1
        } else {
            q
        };
        proof {
            assert(rounded == round_half_even(n as nat, shift as nat));
        }
        if rounded == pow2_u64(p) {
            let sig = pow2_u64(p - 1);
            proof {
                lemma_pow2_unfold(p as nat);
                lemma_pow2_adds(1, shift as nat);
                lemma_pow2_adds(p as nat, shift as nat);
                lemma_pow2_adds((p - 1) as nat, (shift + 1) as nat);
            }
            (sig, shift as i64 + 1)
        } else {
            (rounded, shift as i64)
        }
    }
}

/// Rounding is unchanged when both the number and the divisor are scaled by
/// the same power of two.
pub proof fn lemma_round_scale(n: nat, k: nat, t: nat)
    requires
        t >= 1,
    ensures
        round_half_even(n * pow2(k), t + k) == round_half_even(n, t),
{
    lemma_pow2_pos(k);
    lemma_pow2_pos(t);
    lemma_pow2_pos((t - 1) as nat);
    lemma_pow2_adds(t, k);
    lemma_pow2_adds((t - 1) as nat, k);
    lemma_fundamental_div_mod(n as int, pow2(t) as int);
    let q = n / pow2(t);
    let r = n % pow2(t);
    assert(n * pow2(k) == q * pow2(t + k) + r * pow2(k)) by (nonlinear_arith)
        requires
            n == pow2(t) * q + r,
            pow2(t + k) == pow2(t) * pow2(k),
    ;
    assert(r * pow2(k) < pow2(t + k)) by (nonlinear_arith)
        requires
            r < pow2(t),
            pow2(k) > 0,
            pow2(t + k) == pow2(t) * pow2(k),
    ;
    lemma_fundamental_div_mod_converse(
        (n * pow2(k)) as int,
        pow2(t + k) as int,
        q as int,
        (r * pow2(k)) as int,
    );
    let half = pow2((t - 1) as nat);
    assert(((t + k - 1) as nat) == ((t - 1) as nat) + k);
    assert(r * pow2(k) > half * pow2(k) <==> r > half) by (nonlinear_arith)
        requires
            pow2(k) > 0,
    ;
    assert(r * pow2(k) == half * pow2(k) <==> r == half) by (nonlinear_arith)
        requires
            pow2(k) > 0,
    ;
}

/// Rounding down keeps the leading bit: `n / 2^s * 2^s >= 2^(l-1)` for
/// `2^(l-1) <= n` and `s < l`.
pub proof fn lemma_round_keeps_leading_bit(n: nat, s: nat, l: nat)
    requires
        pow2((l - 1) as nat) <= n,
        s < l,
        s >= 1,
    ensures
        round_half_even(n, s) * pow2(s) >= pow2((l - 1) as nat),
{
    let d = (l - 1 - s) as nat;
    lemma_pow2_pos(s);
    lemma_pow2_adds(d, s);
    lemma_div_is_ordered(pow2((l - 1) as nat) as int, n as int, pow2(s) as int);
    lemma_div_by_multiple_nat(pow2(d), pow2(s));
    let q = n / pow2(s);
    assert(round_half_even(n, s) >= q);
    lemma_mul_inequality(pow2(d) as int, q as int, pow2(s) as int);
    lemma_mul_inequality(q as int, round_half_even(n, s) as int, pow2(s) as int);
}

/// A whole number with more significant bits than `p` is not `m * 2^k` for
/// any `m < 2^p`.
pub proof fn lemma_not_fits_precision(n: nat, p: nat, l: nat)
    requires
        p < l,
        pow2((l - 1) as nat) <= n,
        n % pow2((l - p) as nat) != 0,
    ensures
        !fits_precision(n, p),
{
    if fits_precision(n, p) {
        let k = choose|k: nat| #[trigger] (n % pow2(k)) == 0 && n / pow2(k) < pow2(p);
        let s = (l - p) as nat;
        lemma_pow2_pos(k);
        lemma_pow2_pos(s);
        if k >= s {
            lemma_pow2_adds((k - s) as nat, s);
            lemma_fundamental_div_mod(n as int, pow2(k) as int);
            let q = n / pow2(k);
            assert(n == q * pow2(k));
            lemma_mul_is_associative(q as int, pow2((k - s) as nat) as int, pow2(s) as int);
            lemma_mod_multiples_basic((q * pow2((k - s) as nat)) as int, pow2(s) as int);
        } else {
            let t = (l - 1 - k) as nat;
            lemma_pow2_adds(t, k);
            lemma_div_is_ordered(pow2((l - 1) as nat) as int, n as int, pow2(k) as int);
            lemma_div_multiples_vanish(pow2(t) as int, pow2(k) as int);
            assert(pow2(t) * pow2(k) == pow2(k) * pow2(t)) by (nonlinear_arith);
            lemma_pow2_le(p, t);
        }
    }
}

/// Splits a nonzero `n` with at most `p` significant bits into a
/// significand of exactly `p` bits and the bit length `l` of `n`, so that
/// `n == sig * 2^(l - p)`.
pub fn normalize(n: u64, p: u64) -> (r: Option<(u64, u64)>)
    requires
        0 < n,
        1 <= p <= 53,
    ensures
        r is Some == fits_precision(n as nat, p as nat),
        r is Some ==> {
            let (sig, l) = r.unwrap();
            &&& 1 <= l <= 64
            &&& pow2((p - 1) as nat) <= sig < pow2(p as nat)
            &&& dyadic_integer(sig as nat, l - p) == Some(n as nat)
        },
{
    let l = bit_length(n);
    proof {
        lemma2_to64();
        lemma_pow2_pos(0);
        if l == 0 {
            assert(false);
        }
    }
    if l <= p {
        let shift = p - l;
        let m = pow2_u64(shift);
        proof {
            lemma_pow2_adds(l as nat, shift as nat);
            lemma_pow2_adds((l - 1) as nat, shift as nat);
            lemma_pow2_le(p as nat, 53);
            lemma2_to64_rest();
            lemma_mul_inequality(n as int, (pow2(l as nat) - 1) as int, m as int);
            lemma_mul_inequality(pow2((l - 1) as nat) as int, n as int, m as int);
            assert(n * m < pow2(p as nat)) by (nonlinear_arith)
                requires
                    n * m <= (pow2(l as nat) - 1) * m,
                    pow2(l as nat) * m == pow2(p as nat),
                    m > 0,
            ;
        }
        let sig = n * m;
        proof {
            lemma_pow2_pos(shift as nat);
            lemma_mod_multiples_basic(n as int, m as int);
            lemma_div_by_multiple_nat(n as nat, m as nat);
            lemma_pow2_le(l as nat, p as nat);
            assert((n as nat) % pow2(0) == 0 && (n as nat) / pow2(0) < pow2(p as nat));
            assert(pow2((l - 1) as nat) * m == pow2((p - 1) as nat));
            assert(pow2((p - 1) as nat) <= sig);
            if shift == 0 {
                assert(m == 1);
                assert(sig == n * 1);
                assert(sig == n);
                assert(dyadic_integer(sig as nat, l - p) == Some(n as nat));
            } else {
                assert((sig as nat) % pow2(shift as nat) == 0);
                assert((sig as nat) / pow2(shift as nat) == n);
                assert(dyadic_integer(sig as nat, l - p) == Some(n as nat));
            }
        }
        Some((sig, l))
    } else {
        let shift = l - p;
        let m = pow2_u64(shift);
        proof {
            lemma_pow2_pos(shift as nat);
        }
        if n % m != 0 {
            proof {
                lemma_not_fits_precision(n as nat, p as nat, l as nat);
            }
            None
        } else {
            let sig = n / m;
            proof {
                lemma_fundamental_div_mod(n as int, m as int);
                assert(n == m * sig);
                assert(m * sig == sig * m) by (nonlinear_arith);
                lemma_pow2_adds((p - 1) as nat, shift as nat);
                lemma_pow2_adds(p as nat, shift as nat);
                lemma_div_is_ordered(pow2((l - 1) as nat) as int, n as int, m as int);
                lemma_div_multiples_vanish(pow2((p - 1) as nat) as int, m as int);
                assert(pow2((p - 1) as nat) * m == m * pow2((p - 1) as nat)) by (nonlinear_arith);
                assert(sig * m < pow2(p as nat) * m) by (nonlinear_arith)
                    requires
                        sig * m == n,
                        n < pow2(l as nat),
                        pow2(l as nat) == pow2(p as nat) * m,
                ;
                lemma_mul_strict_inequality_converse(sig as int, pow2(p as nat) as int, m as int);
                assert((n as nat) % pow2(shift as nat) == 0 && (n as nat) / pow2(shift as nat) < pow2(p as nat));
                assert(dyadic_integer(sig as nat, l - p) == Some(n as nat));
            }
            Some((sig, l))
        }
    }
}

/// `m * 2^q == s * 2^e` with `q >= e + t` leaves `s` a multiple of `2^t`.
pub proof fn lemma_divides_after_cancel(m: nat, q: nat, s: nat, e: nat, t: nat)
    requires
        m * pow2(q) == s * pow2(e),
        q >= e + t,
    ensures
        s % pow2(t) == 0,
        s == m * pow2((q - e) as nat),
{
    let d = (q - e) as nat;
    lemma_pow2_adds(d, e);
    lemma_pow2_pos(e);
    lemma_pow2_pos(t);
    lemma_mul_is_associative(m as int, pow2(d) as int, pow2(e) as int);
    assert(pow2(e) * (m * pow2(d)) == pow2(e) * s) by (nonlinear_arith)
        requires
            (m * pow2(d)) * pow2(e) == s * pow2(e),
    ;
    lemma_mul_equality_converse(pow2(e) as int, (m * pow2(d)) as int, s as int);
    lemma_pow2_adds((d - t) as nat, t);
    lemma_mul_is_associative(m as int, pow2((d - t) as nat) as int, pow2(t) as int);
    lemma_mod_multiples_basic((m * pow2((d - t) as nat)) as int, pow2(t) as int);
}

/// No binary32 value has the scaled magnitude `v` when `v` lies strictly
/// between zero and 2^925.
pub proof fn lemma_below_f32_range(v: nat)
    requires
        0 < v < pow2(925),
    ensures
        !f32_holds_scaled(v),
{
    if f32_holds_scaled(v) {
        let (m, q) = choose|m: nat, q: nat|
            925 <= q <= 1178 && m < 0x100_0000 && #[trigger] (m * pow2(q)) == v;
        lemma_pow2_le(925, q);
        assert(m * pow2(q) >= pow2(q)) by (nonlinear_arith)
            requires
                m * pow2(q) == v,
                v > 0,
        ;
    }
}

/// No binary32 value has a scaled magnitude of 2^1202 or more.
pub proof fn lemma_above_f32_range(v: nat)
    requires
        v >= pow2(1202),
    ensures
        !f32_holds_scaled(v),
{
    lemma_pow2_pos(1202);
    if f32_holds_scaled(v) {
        let (m, q) = choose|m: nat, q: nat|
            925 <= q <= 1178 && m < 0x100_0000 && #[trigger] (m * pow2(q)) == v;
        assert(925 <= q <= 1178 && m < 0x100_0000 && m * pow2(q) == v);
        lemma2_to64();
        lemma_pow2_le(q, 1178);
        lemma_pow2_adds(24, 1178);
        lemma_pow2_pos(q);
        assert(m * pow2(q) < pow2(24) * pow2(1178)) by (nonlinear_arith)
            requires
                m < pow2(24),
                pow2(q) <= pow2(1178),
                pow2(q) > 0,
        ;
    }
}

/// Setting the sign bit of a binary64 pattern keeps its exponent and
/// fraction.
pub proof fn lemma_f64_set_sign(b: u64)
    requires
        b < 0x8000_0000_0000_0000,
    ensures
        f64_sign_negative((b + 0x8000_0000_0000_0000) as u64),
        f64_biased_exponent((b + 0x8000_0000_0000_0000) as u64) == f64_biased_exponent(b),
        f64_fraction((b + 0x8000_0000_0000_0000) as u64) == f64_fraction(b),
{
    let c = b + 0x8000_0000_0000_0000;
    let hi = b / 0x10_0000_0000_0000;
    let lo = b % 0x10_0000_0000_0000;
    lemma_fundamental_div_mod(b as int, 0x10_0000_0000_0000);
    lemma_fundamental_div_mod_converse(c, 0x10_0000_0000_0000, hi + 0x800, lo as int);
    lemma_fundamental_div_mod_converse(hi + 0x800, 0x800, 1, hi as int);
    lemma_fundamental_div_mod_converse(hi as int, 0x800, 0, hi as int);
}

/// Setting the sign bit of a binary32 pattern keeps its exponent and
/// fraction.
pub proof fn lemma_f32_set_sign(b: u32)
    requires
        b < 0x8000_0000,
    ensures
        f32_sign_negative((b + 0x8000_0000) as u32),
        f32_biased_exponent((b + 0x8000_0000) as u32) == f32_biased_exponent(b),
        f32_fraction((b + 0x8000_0000) as u32) == f32_fraction(b),
{
    let c = b + 0x8000_0000;
    let hi = b / 0x80_0000;
    let lo = b % 0x80_0000;
    lemma_fundamental_div_mod(b as int, 0x80_0000);
    lemma_fundamental_div_mod_converse(c, 0x80_0000, hi + 0x100, lo as int);
    lemma_fundamental_div_mod_converse(hi + 0x100, 0x100, 1, hi as int);
    lemma_fundamental_div_mod_converse(hi as int, 0x100, 0, hi as int);
}

/// `(b * d) / d == b` over naturals.
proof fn lemma_div_by_multiple_nat(b: nat, d: nat)
    requires
        d > 0,
    ensures
        (b * d) / d == b,
{
    assert((b * d) / d == b) by (nonlinear_arith)
        requires
            d > 0,
    ;
}

/// Powers of two grow with the exponent.
pub proof fn lemma_pow2_le(a: nat, b: nat)
    requires
        a <= b,
    ensures
        pow2(a) <= pow2(b),
{
    if a < b {
        lemma_pow2_strictly_increases(a, b);
    }
}

/// A subnormal pattern (biased exponent zero) is whole only when it is a zero.
pub proof fn lemma_subnormal_magnitude(bits: u64)
    requires
        f64_biased_exponent(bits) == 0,
    ensures
        f64_integer_magnitude(bits) == (if f64_fraction(bits) == 0 {
            Some(0nat)
        } else {
            None::<nat>
        }),
        f64_truncated_magnitude(bits) == 0,
{
    lemma2_to64_rest();
    lemma_pow2_strictly_increases(52, 1074);
    lemma_small_mod(f64_fraction(bits), pow2(1074));
    assert(f64_fraction(bits) / pow2(1074) == 0) by (nonlinear_arith)
        requires
            f64_fraction(bits) < pow2(1074),
    ;
}

/// With exponent `-s` and `s >= 64`, a normal significand is below one unit.
pub proof fn lemma_small_normal(bits: u64, s: nat)
    requires
        f64_biased_exponent(bits) != 0,
        f64_exponent(bits) == -(s as int),
        s >= 64,
    ensures
        f64_integer_magnitude(bits) is None,
        f64_truncated_magnitude(bits) == 0,
{
    lemma2_to64();
    lemma2_to64_rest();
    lemma_pow2_strictly_increases(53, 64);
    if s > 64 {
        lemma_pow2_strictly_increases(64, s);
    }
    let m = f64_significand(bits);
    lemma_small_mod(m, pow2(s));
    assert(m / pow2(s) == 0) by (nonlinear_arith)
        requires
            m < pow2(s),
    ;
}

/// With exponent `s >= 0`, the magnitude is at least `2^(52 + s)` and below
/// `2^(53 + s)`.
pub proof fn lemma_large_bounds(bits: u64, s: nat)
    requires
        f64_biased_exponent(bits) != 0,
        f64_exponent(bits) == s as int,
    ensures
        f64_significand(bits) * pow2(s) >= pow2(52 + s),
        f64_significand(bits) * pow2(s) < pow2(53 + s),
{
    let m = f64_significand(bits);
    lemma2_to64_rest();
    lemma_pow2_adds(52, s);
    lemma_pow2_adds(53, s);
    lemma_pow2_pos(s);
    lemma_mul_inequality(pow2(52) as int, m as int, pow2(s) as int);
    assert(m * pow2(s) < pow2(53) * pow2(s)) by (nonlinear_arith)
        requires
            m < pow2(53),
            pow2(s) > 0,
    ;
}

} // verus!
