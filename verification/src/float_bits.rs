//! Arithmetic on the bit patterns of IEEE 754 single-precision values.
//!
//! Color channels and intensities arrive as the raw bit patterns of
//! 32-bit binary floating-point numbers.  This module clamps such a value
//! to the unit interval and scales it by an integer factor into an
//! unsigned 16-bit sample, reproducing the rounding (to nearest, ties to
//! even) and the saturating truncation that the conversion performs,
//! entirely in integer arithmetic.

use vstd::prelude::*;

verus! {

/// 2 to the power `k`.
pub open spec fn two_pow(k: nat) -> nat
    decreases k,
{
    if k == 0 {
        1nat
    } else {
        2 * two_pow((k - 1) as nat)
    }
}

/// Number of binary digits of `n` (0 for 0).
pub open spec fn bitlen(n: nat) -> nat
    decreases n,
{
    if n == 0 {
        0nat
    } else {
        (1 + bitlen(n / 2)) as nat
    }
}

pub proof fn lemma_two_pow_pos(k: nat)
    ensures
        two_pow(k) >= 1,
    decreases k,
{
    if k > 0 {
        lemma_two_pow_pos((k - 1) as nat);
    }
}

pub proof fn lemma_two_pow_mono(a: nat, b: nat)
    requires
        a <= b,
    ensures
        two_pow(a) <= two_pow(b),
    decreases b,
{
    lemma_two_pow_pos(a);
    if a < b {
        lemma_two_pow_mono(a, (b - 1) as nat);
    }
}

pub proof fn lemma_two_pow_adds(a: nat, b: nat)
    ensures
        two_pow(a + b) == two_pow(a) * two_pow(b),
    decreases a,
{
    if a == 0 {
    } else {
        let a1 = (a - 1) as nat;
        lemma_two_pow_adds(a1, b);
        assert(a1 + b == (a + b - 1) as nat);
        assert(two_pow(a + b) == 2 * two_pow(a1 + b));
        assert(2 * (two_pow(a1) * two_pow(b)) == (2 * two_pow(a1)) * two_pow(b)) by (nonlinear_arith);
    }
}

/// A positive number reaches 2 to the power of one less than its bit length.
pub proof fn lemma_bitlen_lower(n: nat)
    requires
        n > 0,
    ensures
        n >= two_pow((bitlen(n) - 1) as nat),
    decreases n,
{
    if n / 2 > 0 {
        lemma_bitlen_lower(n / 2);
        assert(bitlen(n) == 1 + bitlen(n / 2));
        assert(two_pow((bitlen(n) - 1) as nat) == 2 * two_pow((bitlen(n / 2) - 1) as nat));
    } else {
        assert(bitlen(0nat) == 0);
        assert(bitlen(n) == 1);
        assert(two_pow(0) == 1);
    }
}

/// A number is below 2 to the power of its bit length.
pub proof fn lemma_bitlen_upper(n: nat)
    ensures
        n < two_pow(bitlen(n)),
    decreases n,
{
    if n > 0 {
        lemma_bitlen_upper(n / 2);
    }
}

/// A number below a power of two has at most that many binary digits.
pub proof fn lemma_bitlen_le(n: nat, k: nat)
    requires
        n < two_pow(k),
    ensures
        bitlen(n) <= k,
    decreases n,
{
    if n > 0 {
        lemma_two_pow_pos(k);
        if k == 0 {
        } else {
            assert(n / 2 < two_pow((k - 1) as nat)) by {
                assert(two_pow(k) == 2 * two_pow((k - 1) as nat));
            }
            lemma_bitlen_le(n / 2, (k - 1) as nat);
        }
    }
}

/// Sign bit of a single-precision bit pattern.
pub open spec fn f32_sign(b: u32) -> u32 {
    b >> 31
}

/// Biased exponent field of a single-precision bit pattern.
pub open spec fn f32_exp(b: u32) -> u32 {
    (b >> 23) & 0xff
}

/// Fraction field of a single-precision bit pattern.
pub open spec fn f32_frac(b: u32) -> u32 {
    b & 0x7f_ffff
}

/// The pattern encodes a NaN.
pub open spec fn f32_is_nan(b: u32) -> bool {
    f32_exp(b) == 255 && f32_frac(b) != 0
}

/// The pattern encodes a zero of either sign.
pub open spec fn f32_is_zero(b: u32) -> bool {
    f32_exp(b) == 0 && f32_frac(b) == 0
}

/// Integer significand: the fraction with the implicit leading one of a
/// normal number made explicit.
pub open spec fn f32_mant(b: u32) -> nat {
    if f32_exp(b) == 0 {
        f32_frac(b) as nat
    } else {
        (0x80_0000 + f32_frac(b)) as nat
    }
}

/// Power-of-two weight of the significand, relative to 2 to the -149:
/// the magnitude of a finite pattern is `f32_mant * two_pow(f32_e) / two_pow(149)`.
pub open spec fn f32_e(b: u32) -> nat {
    if f32_exp(b) == 0 {
        0nat
    } else {
        (f32_exp(b) - 1) as nat
    }
}

/// The clamp of a single-precision value to the unit interval, on bit
/// patterns: negative values give zero, values above one give one, a NaN
/// and everything in between pass through unchanged.
pub open spec fn spec_clamp01(b: u32) -> u32 {
    if f32_is_nan(b) {
        b
    } else if f32_sign(b) == 1 && !f32_is_zero(b) {
        0u32
    } else if f32_sign(b) == 0 && b > 0x3f80_0000 {
        0x3f80_0000u32
    } else {
        b
    }
}

/// Round `p / two_pow(d)` to the nearest integer, ties to even.
pub open spec fn rne_shift(p: nat, d: nat) -> nat {
    if d == 0 {
        p
    } else {
        let q = p / two_pow(d);
        let r = p % two_pow(d);
        let half = two_pow((d - 1) as nat);
        if r > half || (r == half && q % 2 == 1) {
            q + 1
        } else {
            q
        }
    }
}

/// Binary digits dropped when a product is rounded to a 24-bit significand.
pub open spec fn sig_drop(p: nat) -> nat {
    if bitlen(p) > 24 {
        (bitlen(p) - 24) as nat
    } else {
        0nat
    }
}

/// The unsigned 16-bit sample that multiplying the single-precision value
/// `b` by the small integer `factor` and truncating yields: the exact
/// product is rounded to a 24-bit significand (to nearest, ties to even),
/// truncated toward zero, and saturated to the 16-bit range; a NaN and
/// every negative value give zero.
pub open spec fn spec_scale_u16(b: u32, factor: u16) -> u16 {
    if f32_is_nan(b) {
        0u16
    } else if f32_sign(b) == 1 {
        0u16
    } else if f32_exp(b) == 255 {
        65535u16
    } else {
        let p = (factor as nat) * f32_mant(b);
        if p == 0 {
            0u16
        } else {
            let d = sig_drop(p);
            let q = rne_shift(p, d);
            let k = f32_e(b) + d;
            let v = if k >= 149 {
                q * two_pow((k - 149) as nat)
            } else {
                q / two_pow((149 - k) as nat)
            };
            if v > 65535 {
                65535u16
            } else {
                v as u16
            }
        }
    }
}

/// The scaling at the landmarks of the unit interval: one maps to the
/// full eight-bit range, one half to its truncated middle, zero to zero.
#[verifier::rlimit(80)]
pub proof fn lemma_scale_landmarks()
    ensures
        spec_scale_u16(0x3f80_0000u32, 255) == 255,
        spec_scale_u16(0x3f00_0000u32, 255) == 127,
        spec_scale_u16(0u32, 255) == 0,
        spec_scale_u16(0x3f80_0000u32, 65535) == 65535,
{
    assert((0x3f80_0000u32 >> 31) == 0 && ((0x3f80_0000u32 >> 23) & 0xff) == 127
        && (0x3f80_0000u32 & 0x7f_ffff) == 0) by (bit_vector);
    assert((0x3f00_0000u32 >> 31) == 0 && ((0x3f00_0000u32 >> 23) & 0xff) == 126
        && (0x3f00_0000u32 & 0x7f_ffff) == 0) by (bit_vector);
    assert((0u32 >> 31) == 0 && ((0u32 >> 23) & 0xff) == 0 && (0u32 & 0x7f_ffff) == 0)
        by (bit_vector);
    assert(bitlen(0x7f80_0000nat) == 31) by {
        reveal_with_fuel(bitlen, 33);
    }
    assert(bitlen(0x7f_ff80_0000nat) == 39) by {
        reveal_with_fuel(bitlen, 41);
    }
    assert(two_pow(7) == 128 && two_pow(6) == 64 && two_pow(16) == 65536 && two_pow(17)
        == 131072 && two_pow(15) == 32768 && two_pow(14) == 16384 && two_pow(8) == 256) by {
        reveal_with_fuel(two_pow, 18);
    }
    assert(255 * (0x80_0000nat + 0) == 0x7f80_0000nat) by (nonlinear_arith);
    assert(65535 * (0x80_0000nat + 0) == 0x7f_ff80_0000nat) by (nonlinear_arith);
    assert(0x7f80_0000nat / 128 == 0xff_0000nat && 0x7f80_0000nat % 128 == 0nat);
    assert(0x7f_ff80_0000nat / 32768 == 0xff_ff00nat && 0x7f_ff80_0000nat % 32768 == 0nat);
    assert(0xff_0000nat / 65536 == 255nat);
    assert(0xff_0000nat / 131072 == 127nat);
    assert(0xff_ff00nat / 256 == 65535nat);
    assert(spec_scale_u16(0x3f80_0000u32, 255) == 255);
    assert(spec_scale_u16(0x3f00_0000u32, 255) == 127);
    assert(spec_scale_u16(0u32, 255) == 0);
    assert(spec_scale_u16(0x3f80_0000u32, 65535) == 65535);
}

/// The full-range scaling saturates: every non-negative value of at
/// least one maps to the full 16-bit range.
#[verifier::rlimit(80)]
pub proof fn lemma_scale_saturates(b: u32)
    requires
        !f32_is_nan(b),
        f32_sign(b) == 0,
        b >= 0x3f80_0000,
    ensures
        spec_scale_u16(b, 65535) == 65535,
{
    assert(((b >> 23) & 0xff) >= 127 && (b & 0x7f_ffff) < 0x80_0000) by (bit_vector)
        requires
            b >= 0x3f80_0000u32,
            (b >> 31) == 0u32,
    ;
    if f32_exp(b) == 255 {
    } else {
        let mant = f32_mant(b);
        let e = f32_e(b);
        assert(mant >= 0x80_0000 && mant < 0x100_0000);
        assert(e >= 126);
        let p = (65535nat) * mant;
        assert(p >= 65535 * 0x80_0000nat && p < 0x100_0000_0000nat) by (nonlinear_arith)
            requires
                p == (65535nat) * mant,
                mant >= 0x80_0000nat,
                mant < 0x100_0000nat,
        ;
        assert(two_pow(40) == 0x100_0000_0000) by {
            reveal_with_fuel(two_pow, 41);
        }
        lemma_bitlen_le(p, 40);
        let d = sig_drop(p);
        assert(d <= 16);
        let q = rne_shift(p, d);
        lemma_two_pow_pos(d);
        assert(q >= p / two_pow(d));
        assert(two_pow(23) == 0x80_0000) by {
            reveal_with_fuel(two_pow, 24);
        }
        lemma_two_pow_adds((23 - d) as nat, d);
        lemma_two_pow_pos((23 - d) as nat);
        assert(p >= (65535 * two_pow((23 - d) as nat)) * two_pow(d)) by (nonlinear_arith)
            requires
                p >= (65535nat) * 0x80_0000nat,
                0x80_0000nat == two_pow((23 - d) as nat) * two_pow(d),
        ;
        assert(p / two_pow(d) >= 65535 * two_pow((23 - d) as nat)) by (nonlinear_arith)
            requires
                p >= (65535 * two_pow((23 - d) as nat)) * two_pow(d),
                two_pow(d) >= 1,
        ;
        assert(q >= 65535 * two_pow((23 - d) as nat));
        assert(q >= 65535) by (nonlinear_arith)
            requires
                q >= 65535 * two_pow((23 - d) as nat),
                two_pow((23 - d) as nat) >= 1,
        ;
        let k = e + d;
        if k >= 149 {
            lemma_two_pow_pos((k - 149) as nat);
            assert(q * two_pow((k - 149) as nat) >= q * 1) by (nonlinear_arith)
                requires
                    two_pow((k - 149) as nat) >= 1,
                    q >= 0,
            ;
        } else {
            let m = (149 - k) as nat;
            lemma_two_pow_mono(m, (23 - d) as nat);
            lemma_two_pow_pos(m);
            assert(q >= 65535 * two_pow(m)) by (nonlinear_arith)
                requires
                    q >= 65535 * two_pow((23 - d) as nat),
                    two_pow(m) <= two_pow((23 - d) as nat),
            ;
            assert(q / two_pow(m) >= 65535) by (nonlinear_arith)
                requires
                    q >= 65535 * two_pow(m),
                    two_pow(m) >= 1,
            ;
        }
    }
}

/// A clamped channel stays within eight bits: scaling a value of the
/// unit interval by 255 never exceeds 255.
#[verifier::rlimit(80)]
pub proof fn lemma_clamped_scale_bound(b: u32)
    ensures
        spec_scale_u16(spec_clamp01(b), 255) <= 255,
{
    lemma_scale_landmarks();
    let c = spec_clamp01(b);
    if f32_is_nan(b) || c == 0u32 || c == 0x3f80_0000u32 {
    } else if f32_sign(c) == 1 {
    } else {
        // what is left passes the clamp unchanged: non-negative, at most one
        assert((b >> 31) == 0u32 || (b >> 31) == 1u32) by (bit_vector);
        assert(c == b && f32_sign(b) == 0 && b <= 0x3f80_0000);
        assert((b & 0x7f_ffff) < 0x80_0000u32 && ((b >> 23) & 0xff) <= 127 && (((b >> 23) & 0xff)
            == 127 ==> b == 0x3f80_0000u32)) by (bit_vector)
            requires
                b <= 0x3f80_0000u32,
                (b >> 31) == 0u32,
        ;
        assert(f32_exp(b) <= 126);
        let mant = f32_mant(b);
        let e = f32_e(b);
        assert(mant < 0x100_0000);
        assert(e <= 125);
        let p = (255nat) * mant;
        if p == 0 {
        } else {
            assert(p < 0x1_0000_0000nat) by (nonlinear_arith)
                requires
                    p == (255nat) * mant,
                    mant < 0x100_0000nat,
            ;
            assert(two_pow(32) == 0x1_0000_0000) by {
                reveal_with_fuel(two_pow, 33);
            }
            lemma_bitlen_le(p, 32);
            let d = sig_drop(p);
            assert(d <= 8);
            let q = rne_shift(p, d);
            let k = e + d;
            assert(k < 149);
            let m = (149 - k) as nat;
            assert(m >= 16);
            lemma_two_pow_pos(d);
            lemma_two_pow_pos(m);
            assert(q <= p / two_pow(d) + 1) by {
                if d == 0 {
                    assert(two_pow(0) == 1);
                    assert(p / 1 == p);
                }
            }
            lemma_two_pow_adds(m, d);
            assert(two_pow(24) == 0x100_0000) by {
                reveal_with_fuel(two_pow, 25);
            }
            lemma_two_pow_mono(24, (149 - e) as nat);
            assert((149 - e) as nat == m + d);
            assert(p <= (255 * two_pow(m)) * two_pow(d)) by (nonlinear_arith)
                requires
                    p == (255nat) * mant,
                    mant < 0x100_0000nat,
                    0x100_0000nat <= two_pow(m + d),
                    two_pow(m + d) == two_pow(m) * two_pow(d),
            ;
            assert(p / two_pow(d) <= 255 * two_pow(m)) by (nonlinear_arith)
                requires
                    p <= (255 * two_pow(m)) * two_pow(d),
                    two_pow(d) >= 1,
            ;
            assert(q <= 255 * two_pow(m) + 1);
            assert(two_pow(m) >= 2) by {
                lemma_two_pow_mono(1, m);
                assert(two_pow(1) == 2);
            }
            assert(q / two_pow(m) <= 255) by (nonlinear_arith)
                requires
                    q <= 255 * two_pow(m) + 1,
                    two_pow(m) >= 2,
            ;
        }
    }
}

/// 2 to the power `k`, executable, for small `k`.
fn two_pow_u64(k: u64) -> (r: u64)
    requires
        k <= 40,
    ensures
        r == two_pow(k as nat),
        r >= 1,
{
    proof {
        lemma_two_pow_mono(k as nat, 40);
        assert(two_pow(40) == 0x100_0000_0000) by {
            reveal_with_fuel(two_pow, 41);
        }
        lemma_two_pow_pos(k as nat);
    }
    let mut r: u64 = 1;
    let mut i: u64 = 0;
    while i < k
        invariant
            i <= k,
            k <= 40,
            r == two_pow(i as nat),
        decreases k - i,
    {
        proof {
            lemma_two_pow_mono((i + 1) as nat, 40);
            assert(two_pow(40) == 0x100_0000_0000) by {
                reveal_with_fuel(two_pow, 41);
            }
        }
        r = r * 2;
        i = i + 1;
    }
    r
}

/// Number of binary digits, executable.
fn bitlen_u64(n: u64) -> (r: u64)
    ensures
        r == bitlen(n as nat),
        r <= 64,
{
    proof {
        assert(n < two_pow(64)) by {
            lemma_two_pow_mono(40, 64);
            assert(two_pow(40) == 0x100_0000_0000) by {
                reveal_with_fuel(two_pow, 41);
            }
            assert(two_pow(64) == two_pow(40) * two_pow(24)) by {
                lemma_two_pow_adds(40, 24);
            }
            assert(two_pow(24) == 0x100_0000) by {
                reveal_with_fuel(two_pow, 25);
            }
        }
        lemma_bitlen_le(n as nat, 64);
    }
    let mut t: u64 = n;
    let mut l: u64 = 0;
    while t > 0
        invariant
            bitlen(n as nat) == l + bitlen(t as nat),
            bitlen(n as nat) <= 64,
        decreases t,
    {
        t = t / 2;
        l = l + 1;
    }
    l
}

/// Clamp a single-precision bit pattern to the unit interval.
///
/// Negative values become zero, values above one become one, everything
/// in between (and a NaN) passes through unchanged.
pub fn clamp(bits: u32) -> (r: u32)
    ensures
        r == spec_clamp01(bits),
{
    let exp: u32 = (bits >> 23) & 0xff;
    let frac: u32 = bits & 0x7f_ffff;
    let sign: u32 = bits >> 31;
    if exp == 255 && frac != 0 {
        bits
    } else if sign == 1 && !(exp == 0 && frac == 0) {
        0
    } else if sign == 0 && bits > 0x3f80_0000 {
        0x3f80_0000
    } else {
        bits
    }
}

/// Multiply the single-precision value `bits` by `factor` and truncate to
/// an unsigned 16-bit sample, saturating at the ends of the range; a NaN
/// and every negative value give zero.
#[verifier::rlimit(80)]
pub fn scale_to_u16(bits: u32, factor: u16) -> (r: u16)
    ensures
        r == spec_scale_u16(bits, factor),
{
    let exp: u32 = (bits >> 23) & 0xff;
    let frac: u32 = bits & 0x7f_ffff;
    let sign: u32 = bits >> 31;
    if exp == 255 && frac != 0 {
        return 0;
    }
    if sign == 1 {
        return 0;
    }
    if exp == 255 {
        return 65535;
    }
    proof {
        assert(frac < 0x80_0000) by (bit_vector)
            requires
                frac == bits & 0x7f_ffff,
        ;
        assert(exp < 0x100) by (bit_vector)
            requires
                exp == (bits >> 23) & 0xff,
        ;
    }
    let mant: u64 = if exp == 0 {
        frac as u64
    } else {
        0x80_0000u64 + frac as u64
    };
    proof {
        assert((factor as int) * (mant as int) < 0x100_0000_0000) by (nonlinear_arith)
            requires
                factor <= 0xffff,
                mant < 0x100_0000,
        ;
    }
    let p: u64 = (factor as u64) * mant;
    proof {
        assert(p == (factor as nat) * f32_mant(bits));
    }
    if p == 0 {
        return 0;
    }
    let l: u64 = bitlen_u64(p);
    proof {
        lemma_bitlen_upper(p as nat);
        assert(two_pow(40) == 0x100_0000_0000) by {
            reveal_with_fuel(two_pow, 41);
        }
        lemma_bitlen_le(p as nat, 40);
    }
    let d: u64 = if l > 24 {
        l - 24
    } else {
        0
    };
    let q: u64 = if d == 0 {
        p
    } else {
        let t: u64 = two_pow_u64(d);
        let half: u64 = two_pow_u64(d - 1);
        let q0: u64 = p / t;
        let r0: u64 = p % t;
        proof {
            assert(q0 < 0x100_0000) by {
                assert(p < two_pow(l as nat));
                assert(two_pow(l as nat) == two_pow(d as nat) * two_pow(24)) by {
                    lemma_two_pow_adds(d as nat, 24);
                }
                assert(two_pow(24) == 0x100_0000) by {
                    reveal_with_fuel(two_pow, 25);
                }
                assert((p as nat) / two_pow(d as nat) < two_pow(24)) by (nonlinear_arith)
                    requires
                        (p as nat) < two_pow(d as nat) * two_pow(24),
                        two_pow(d as nat) >= 1,
                ;
            }
            assert(q0 >= 1) by {
                lemma_bitlen_lower(p as nat);
                lemma_two_pow_mono(d as nat, (l - 1) as nat);
                assert((p as nat) / two_pow(d as nat) >= 1) by (nonlinear_arith)
                    requires
                        (p as nat) >= two_pow(d as nat),
                        two_pow(d as nat) >= 1,
                ;
            }
        }
        if r0 > half || (r0 == half && q0 % 2 == 1) {
            q0 + 1
        } else {
            q0
        }
    };
    proof {
        assert(q == rne_shift(p as nat, d as nat));
        if d == 0 {
            lemma_two_pow_mono(l as nat, 24);
            assert(two_pow(24) == 0x100_0000) by {
                reveal_with_fuel(two_pow, 25);
            }
        }
        assert(q <= 0x100_0000);
        assert(q >= 1);
    }
    let e: u64 = if exp == 0 {
        0
    } else {
        (exp - 1) as u64
    };
    let k: u64 = e + d;
    if k >= 149 {
        if k - 149 >= 17 {
            proof {
                assert(two_pow(17) == 0x2_0000) by {
                    reveal_with_fuel(two_pow, 18);
                }
                lemma_two_pow_mono(17, (k - 149) as nat);
                assert(q * two_pow((k - 149) as nat) >= 1 * two_pow(17)) by (nonlinear_arith)
                    requires
                        q >= 1,
                        two_pow((k - 149) as nat) >= two_pow(17),
                ;
            }
            return 65535;
        }
        let t: u64 = two_pow_u64(k - 149);
        proof {
            assert(two_pow(17) == 0x2_0000) by {
                reveal_with_fuel(two_pow, 18);
            }
            lemma_two_pow_mono((k - 149) as nat, 17);
            assert(q * two_pow((k - 149) as nat) <= 0x100_0000 * 0x2_0000) by (nonlinear_arith)
                requires
                    q <= 0x100_0000,
                    two_pow((k - 149) as nat) <= 0x2_0000,
            ;
        }
        let v: u64 = q * t;
        if v > 65535 {
            65535
        } else {
            v as u16
        }
    } else {
        if 149 - k >= 25 {
            proof {
                assert(two_pow(25) == 0x200_0000) by {
                    reveal_with_fuel(two_pow, 26);
                }
                lemma_two_pow_mono(25, (149 - k) as nat);
                assert((q as nat) / two_pow((149 - k) as nat) == 0) by (nonlinear_arith)
                    requires
                        (q as nat) < two_pow((149 - k) as nat),
                ;
            }
            return 0;
        }
        let t: u64 = two_pow_u64(149 - k);
        let v: u64 = q / t;
        proof {
            assert(v <= q) by (nonlinear_arith)
                requires
                    v == q / t,
                    t >= 1,
                    q >= 0,
            ;
        }
        if v > 65535 {
            65535
        } else {
            v as u16
        }
    }
}

} // verus!
