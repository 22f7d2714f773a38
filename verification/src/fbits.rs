//! IEEE 754 bit-pattern handling, in plain integer arithmetic. The
//! runtime carries floating-point values as their bit patterns; moving a
//! value between the two binary widths, or reading a small integer as a
//! float, is done exactly, and a coercion that would have to round is
//! refused rather than silently losing precision.

use vstd::prelude::*;
use vstd::arithmetic::power2::{pow2, lemma2_to64, lemma2_to64_rest, lemma_pow2_adds,
    lemma_pow2_strictly_increases, lemma_pow2_unfold, lemma_pow2_pos};
use vstd::arithmetic::mul::{lemma_mul_inequality, lemma_mul_strict_inequality};

verus! {

/// Floor of the binary logarithm.
pub open spec fn spec_log2(n: nat) -> nat
    decreases n,
{
    if n <= 1 {
        0
    } else {
        1 + spec_log2(n / 2)
    }
}

/// The floor logarithm brackets its argument between two powers of two.
pub proof fn lemma_log2_bounds(n: nat)
    requires
        n >= 1,
    ensures
        pow2(spec_log2(n)) <= n < pow2(spec_log2(n) + 1),
    decreases n,
{
    if n <= 1 {
        lemma2_to64();
        lemma2_to64_rest();
    } else {
        lemma_log2_bounds(n / 2);
        let l = spec_log2(n / 2);
        lemma_pow2_unfold(l + 1);
        lemma_pow2_unfold(l + 2);
    }
}

/// A 64-bit value's floor logarithm stays below 64.
pub proof fn lemma_log2_u64(v: u64)
    requires
        v >= 1,
    ensures
        spec_log2(v as nat) <= 63,
        pow2(spec_log2(v as nat)) <= v < pow2(spec_log2(v as nat) + 1),
{
    lemma_log2_bounds(v as nat);
    let h = spec_log2(v as nat);
    if h > 63 {
        lemma2_to64();
        lemma2_to64_rest();
        if h > 64 {
            lemma_pow2_strictly_increases(64, h);
        }
        assert(pow2(h) >= pow2(64));
        assert(false);
    }
}

/// Floor of the binary logarithm of a positive 64-bit value.
pub fn floor_log2(v: u64) -> (r: u64)
    requires
        v >= 1,
    ensures
        r == spec_log2(v as nat),
        r <= 63,
{
    let mut x: u64 = v;
    let mut h: u64 = 0;
    while x > 1
        invariant
            x >= 1,
            h <= 64,
            spec_log2(v as nat) == h + spec_log2(x as nat),
        decreases x,
    {
        proof {
            if h >= 64 {
                lemma_log2_bounds(v as nat);
                lemma_log2_u64(v);
            }
        }
        x = x / 2;
        h = h + 1;
    }
    proof {
        lemma_log2_u64(v);
    }
    h
}

/// Two to the given power, as a 64-bit value.
pub fn pow2_u64(k: u64) -> (r: u64)
    requires
        k <= 63,
    ensures
        r as nat == pow2(k as nat),
{
    let mut r: u64 = 1;
    let mut i: u64 = 0;
    proof {
        lemma2_to64();
        lemma2_to64_rest();
    }
    while i < k
        invariant
            i <= k <= 63,
            r as nat == pow2(i as nat),
        decreases k - i,
    {
        proof {
            lemma_pow2_unfold(i as nat + 1);
            if (i as nat) < 63 {
                lemma_pow2_strictly_increases(i as nat, 63);
            }
            lemma2_to64();
            lemma2_to64_rest();
        }
        r = r * 2;
        i = i + 1;
    }
    r
}

/// Exponent field of a binary64 pattern.
pub open spec fn spec_f64_exp(bits: u64) -> nat {
    ((bits as nat) / pow2(52)) % 2048
}

/// Fraction field of a binary64 pattern.
pub open spec fn spec_f64_frac(bits: u64) -> nat {
    (bits as nat) % pow2(52)
}

/// Sign bit of a binary64 pattern.
pub open spec fn spec_f64_sign(bits: u64) -> nat {
    (bits as nat) / pow2(63)
}

/// An infinity or a not-a-number pattern: all exponent bits set.
pub open spec fn spec_f64_nonfinite(bits: u64) -> bool {
    spec_f64_exp(bits) == 2047
}

/// True on an infinity or not-a-number pattern.
pub fn f64_bits_nonfinite(bits: u64) -> (r: bool)
    ensures
        r == spec_f64_nonfinite(bits),
{
    proof {
        lemma2_to64();
        lemma2_to64_rest();
    }
    (bits / 0x10_0000_0000_0000) % 2048 == 2047
}

/// The binary64 pattern of a 64-bit magnitude with a sign, when the
/// magnitude is below two to the 53rd and so exactly representable.
pub open spec fn spec_exact_f64(mag: u64, neg: bool) -> Option<u64> {
    if mag == 0 {
        Some(0u64)
    } else if (mag as nat) >= pow2(53) {
        None
    } else {
        let h = spec_log2(mag as nat);
        let mant = (mag as nat) * pow2((52 - h) as nat);
        let sign: nat = if neg {
            pow2(63)
        } else {
            0
        };
        Some((sign + (h + 1023) * pow2(52) + (mant - pow2(52))) as u64)
    }
}

/// Builds the exact binary64 pattern of a signed magnitude, refusing
/// magnitudes that would have to round.
pub fn exact_f64_bits(mag: u64, neg: bool) -> (r: Option<u64>)
    ensures
        r == spec_exact_f64(mag, neg),
{
    proof {
        lemma2_to64();
        lemma2_to64_rest();
    }
    if mag == 0 {
        return Some(0u64);
    }
    if mag >= 0x20_0000_0000_0000 {
        return None;
    }
    let h = floor_log2(mag);
    proof {
        lemma_log2_u64(mag);
        if spec_log2(mag as nat) > 52 {
            lemma_pow2_strictly_increases(53, spec_log2(mag as nat) + 1);
            assert(false);
        }
    }
    let p = pow2_u64(52 - h);
    proof {
        let hn = h as nat;
        lemma_pow2_adds(hn + 1, (52 - hn) as nat);
        lemma_pow2_pos((52 - hn) as nat);
        lemma_mul_strict_inequality(mag as int, pow2(hn + 1) as int, pow2((52 - hn) as nat) as int);
        lemma_pow2_adds(hn, (52 - hn) as nat);
        lemma_mul_inequality(pow2(hn) as int, mag as int, pow2((52 - hn) as nat) as int);
        assert((mag as nat) * (p as nat) < pow2(53));
        assert((mag as nat) * (p as nat) >= pow2(52));
        assert((h + 1023) * pow2(52) <= 1075 * pow2(52)) by (nonlinear_arith)
            requires
                h <= 52,
        ;
    }
    let mant = mag * p;
    let expf = (h + 1023) * 0x10_0000_0000_0000;
    let sign: u64 = if neg {
        0x8000_0000_0000_0000
    } else {
        0
    };
    Some(sign + expf + (mant - 0x10_0000_0000_0000))
}

/// The exact binary32 pattern for a binary64 pattern, when no precision
/// would be lost: infinities and zeros carry over, a not-a-number
/// becomes the canonical quiet one, and a finite value must fit the
/// narrow exponent range with 29 spare fraction bits.
pub open spec fn spec_f64_to_f32_exact(bits: u64) -> Option<u32> {
    let s = spec_f64_sign(bits);
    let e = spec_f64_exp(bits);
    let m = spec_f64_frac(bits);
    if e == 2047 {
        if m == 0 {
            Some((s * pow2(31) + 255 * pow2(23)) as u32)
        } else {
            Some((s * pow2(31) + 255 * pow2(23) + pow2(22)) as u32)
        }
    } else if e == 0 {
        if m == 0 {
            Some((s * pow2(31)) as u32)
        } else {
            None
        }
    } else if e < 897 || e > 1150 {
        None
    } else if m % pow2(29) != 0 {
        None
    } else {
        Some((s * pow2(31) + (e - 896) * pow2(23) + m / pow2(29)) as u32)
    }
}

/// Narrows a binary64 pattern to binary32 exactly, or refuses.
pub fn f64_to_f32_exact(bits: u64) -> (r: Option<u32>)
    ensures
        r == spec_f64_to_f32_exact(bits),
{
    proof {
        lemma2_to64();
        lemma2_to64_rest();
    }
    let s: u64 = bits / 0x8000_0000_0000_0000;
    let e: u64 = (bits / 0x10_0000_0000_0000) % 2048;
    let m: u64 = bits % 0x10_0000_0000_0000;
    if e == 2047 {
        if m == 0 {
            Some((s * 0x8000_0000 + 255 * 0x80_0000) as u32)
        } else {
            Some((s * 0x8000_0000 + 255 * 0x80_0000 + 0x40_0000) as u32)
        }
    } else if e == 0 {
        if m == 0 {
            Some((s * 0x8000_0000) as u32)
        } else {
            None
        }
    } else if e < 897 || e > 1150 {
        None
    } else if m % 0x2000_0000 != 0 {
        None
    } else {
        Some((s * 0x8000_0000 + (e - 896) * 0x80_0000 + m / 0x2000_0000) as u32)
    }
}

/// The binary64 pattern a binary32 value widens to, exactly.
pub open spec fn spec_f32_to_f64(bits: u32) -> u64 {
    let s = (bits as nat) / pow2(31);
    let e = ((bits as nat) / pow2(23)) % 256;
    let m = (bits as nat) % pow2(23);
    if e == 255 {
        (s * pow2(63) + 2047 * pow2(52) + m * pow2(29)) as u64
    } else if e == 0 && m == 0 {
        (s * pow2(63)) as u64
    } else if e == 0 {
        let h = spec_log2(m);
        (s * pow2(63) + (h + 874) * pow2(52) + (m * pow2((52 - h) as nat) - pow2(52))) as u64
    } else {
        (s * pow2(63) + (e + 896) * pow2(52) + m * pow2(29)) as u64
    }
}

/// Widens a binary32 pattern to binary64; always exact.
pub fn f32_to_f64_bits(bits: u32) -> (r: u64)
    ensures
        r == spec_f32_to_f64(bits),
{
    proof {
        lemma2_to64();
        lemma2_to64_rest();
    }
    let s: u64 = (bits / 0x8000_0000) as u64;
    let e: u64 = ((bits / 0x80_0000) % 256) as u64;
    let m: u64 = (bits % 0x80_0000) as u64;
    if e == 255 {
        s * 0x8000_0000_0000_0000 + 2047 * 0x10_0000_0000_0000 + m * 0x2000_0000
    } else if e == 0 && m == 0 {
        s * 0x8000_0000_0000_0000
    } else if e == 0 {
        let h = floor_log2(m);
        proof {
            lemma_log2_u64(m);
            if spec_log2(m as nat) > 22 {
                lemma_pow2_strictly_increases(23, spec_log2(m as nat) + 1);
                assert(false);
            }
            let hn = h as nat;
            lemma_pow2_adds(hn + 1, (52 - hn) as nat);
            lemma_pow2_pos((52 - hn) as nat);
            lemma_mul_strict_inequality(m as int, pow2(hn + 1) as int, pow2((52 - hn) as nat) as int);
            lemma_pow2_adds(hn, (52 - hn) as nat);
            lemma_mul_inequality(pow2(hn) as int, m as int, pow2((52 - hn) as nat) as int);
            assert((h + 874) * pow2(52) <= 896 * pow2(52)) by (nonlinear_arith)
                requires
                    h <= 22,
            ;
        }
        let p = pow2_u64(52 - h);
        let mant = m * p;
        s * 0x8000_0000_0000_0000 + (h + 874) * 0x10_0000_0000_0000 + (mant
            - 0x10_0000_0000_0000)
    } else {
        s * 0x8000_0000_0000_0000 + (e + 896) * 0x10_0000_0000_0000 + m * 0x2000_0000
    }
}

/// Exact narrowing then widening gives the bits back: nothing is lost on
/// a value that was accepted.
pub proof fn lemma_f32_exact_round_trip(bits: u64)
    requires
        spec_f64_to_f32_exact(bits) is Some,
        !spec_f64_nonfinite(bits),
    ensures
        spec_f32_to_f64(spec_f64_to_f32_exact(bits)->Some_0) == bits,
{
    lemma2_to64();
    lemma2_to64_rest();
    let s = spec_f64_sign(bits);
    let e = spec_f64_exp(bits);
    let m = spec_f64_frac(bits);
    let n32 = spec_f64_to_f32_exact(bits)->Some_0;
    assert(s < 2) by {
        assert(bits < 0x1_0000_0000_0000_0000);
    }
    if e == 0 {
        assert(m == 0);
        assert(n32 == s * pow2(31));
        assert((n32 as nat) / pow2(31) == s);
        assert(((n32 as nat) / pow2(23)) % 256 == 0);
        assert((n32 as nat) % pow2(23) == 0);
        assert(bits == s * pow2(63) + e * pow2(52) + m) by {
            lemma_f64_fields(bits);
        }
    } else {
        let e32 = (e - 896) as nat;
        let m32 = m / pow2(29);
        assert(m % pow2(29) == 0);
        assert(m < pow2(52));
        assert(m32 < pow2(23)) by (nonlinear_arith)
            requires
                m32 == m / pow2(29),
                m < pow2(52),
                pow2(29) > 0,
                pow2(52) == pow2(23) * pow2(29),
        {
            lemma_pow2_adds(23, 29);
        }
        assert(1 <= e32 < 255);
        assert(n32 == s * pow2(31) + e32 * pow2(23) + m32);
        lemma_f32_fields_build(s, e32, m32);
        assert((n32 as nat) / pow2(31) == s);
        assert(((n32 as nat) / pow2(23)) % 256 == e32);
        assert((n32 as nat) % pow2(23) == m32);
        assert(m32 * pow2(29) == m) by (nonlinear_arith)
            requires
                m % pow2(29) == 0,
                m32 == m / pow2(29),
                pow2(29) > 0,
        ;
        assert(spec_f32_to_f64(n32) == s * pow2(63) + (e32 + 896) * pow2(52) + m);
        assert(e32 + 896 == e);
        assert(bits == s * pow2(63) + e * pow2(52) + m) by {
            lemma_f64_fields(bits);
        }
    }
}

/// A binary64 pattern is its three fields reassembled.
proof fn lemma_f64_fields(bits: u64)
    ensures
        bits == spec_f64_sign(bits) * pow2(63) + spec_f64_exp(bits) * pow2(52) + spec_f64_frac(
            bits,
        ),
{
    lemma2_to64();
    lemma2_to64_rest();
    let b = bits as nat;
    assert(b == (b / pow2(52)) * pow2(52) + b % pow2(52)) by (nonlinear_arith)
        requires
            pow2(52) > 0,
    ;
    assert(b / pow2(52) == (b / pow2(52) / 2048) * 2048 + (b / pow2(52)) % 2048) by (nonlinear_arith)
        requires
            pow2(52) > 0,
    ;
    assert(b / pow2(52) / 2048 == b / pow2(63)) by (nonlinear_arith)
        requires
            pow2(63) == pow2(52) * 2048,
            pow2(52) > 0,
    ;
    assert((b / pow2(63)) * 2048 * pow2(52) == (b / pow2(63)) * pow2(63)) by (nonlinear_arith)
        requires
            pow2(63) == pow2(52) * 2048,
    ;
    assert(b == (b / pow2(63)) * pow2(63) + ((b / pow2(52)) % 2048) * pow2(52) + b % pow2(52))
        by (nonlinear_arith)
        requires
            pow2(52) > 0,
            pow2(63) == pow2(52) * 2048,
            b == (b / pow2(52)) * pow2(52) + b % pow2(52),
            b / pow2(52) == (b / pow2(52) / 2048) * 2048 + (b / pow2(52)) % 2048,
            b / pow2(52) / 2048 == b / pow2(63),
    ;
}

/// Reading the fields back out of an assembled binary32 pattern.
proof fn lemma_f32_fields_build(s: nat, e: nat, m: nat)
    requires
        s < 2,
        e < 256,
        m < pow2(23),
    ensures
        ((s * pow2(31) + e * pow2(23) + m) as nat) / pow2(31) == s,
        (((s * pow2(31) + e * pow2(23) + m) as nat) / pow2(23)) % 256 == e,
        ((s * pow2(31) + e * pow2(23) + m) as nat) % pow2(23) == m,
{
    lemma2_to64();
    lemma2_to64_rest();
    let n = s * pow2(31) + e * pow2(23) + m;
    assert(n / pow2(31) == s && (n / pow2(23)) % 256 == e && n % pow2(23) == m) by (nonlinear_arith)
        requires
            n == s * pow2(31) + e * pow2(23) + m,
            s < 2,
            e < 256,
            m < pow2(23),
            pow2(31) == pow2(23) * 256,
            pow2(23) > 0,
    ;
}

} // verus!
