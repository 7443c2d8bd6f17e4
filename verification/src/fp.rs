//! Exact dyadic scalars and the time / rotation quantizers.
//!
//! A scalar input of the pipeline (a timestamp in seconds, a quaternion or
//! vector component) is carried as `Fp { m, e }`, the exact value `m * 2^e`.
//! Every finite single-precision value fits this form with `|m| <= 2^24` and
//! `-150 <= e <= 150`, so the quantizers below can state and prove the exact
//! truncation-toward-zero arithmetic the target format demands.

use vstd::prelude::*;
use vstd::arithmetic::power2::*;
use vstd::arithmetic::div_mod::*;
use vstd::arithmetic::mul::*;

verus! {

/// An exact binary scalar: the represented value is `m * 2^e`.
#[derive(Clone, Copy, PartialEq, Eq, Structural, Debug)]
pub struct Fp {
    pub m: i64,
    pub e: i32,
}

impl Fp {
    /// Bounds wide enough for every finite single-precision value.
    pub open spec fn wf(self) -> bool {
        -0x100_0000 <= self.m <= 0x100_0000 && -150 <= self.e <= 150
    }

    /// The represented value, scaled by `2^150` so that it is an integer.
    pub open spec fn scaled(self) -> int {
        self.m * pow2((self.e + 150) as nat)
    }

    /// Exact order on represented values.
    pub open spec fn le(self, other: Fp) -> bool {
        self.scaled() <= other.scaled()
    }

    /// The represented value lies in `[-1, 1]`.
    pub open spec fn in_unit(self) -> bool {
        -(pow2(150) as int) <= self.scaled() <= pow2(150) as int
    }
}

/// The scalar one.
pub open spec fn fp_one() -> Fp {
    Fp { m: 1, e: 0 }
}

/// The scalar zero.
pub open spec fn fp_zero() -> Fp {
    Fp { m: 0, e: 0 }
}

/// Division rounding toward zero (for a positive divisor).
pub open spec fn trunc_div(n: int, d: int) -> int {
    if n >= 0 {
        n / d
    } else {
        -((-n) / d)
    }
}

/// `v` clamped to `[lo, hi]`.
pub open spec fn sat(v: int, lo: int, hi: int) -> int {
    if v < lo {
        lo
    } else if v > hi {
        hi
    } else {
        v
    }
}

/// Ticks per second of the target engine: 30 frames of 160 sub-ticks.
pub const TICKS_PER_SECOND: i64 = 4800;

/// Scale factor of the quantized quaternion components.
pub const QUAT_SCALE: i64 = 16383;

/// Seconds to engine ticks: the value times 4800, truncated toward zero,
/// saturated to the 32-bit range.
pub open spec fn quantize_time_s(t: Fp) -> int {
    sat(
        trunc_div(t.scaled() * TICKS_PER_SECOND, pow2(150) as int),
        i32::MIN as int,
        i32::MAX as int,
    )
}

/// One quaternion component times 16383, truncated toward zero, saturated
/// to the 16-bit range.
pub open spec fn quantize_quat_c(c: Fp) -> int {
    sat(
        trunc_div(c.scaled() * QUAT_SCALE, pow2(150) as int),
        i16::MIN as int,
        i16::MAX as int,
    )
}

proof fn lemma_trunc_div_exact(a: int, d: int)
    requires
        0 < d,
    ensures
        trunc_div(a * d, d) == a,
{
    if a >= 0 {
        lemma_div_multiples_vanish(a, d);
        assert(a * d == d * a) by (nonlinear_arith);
    } else {
        lemma_div_multiples_vanish(-a, d);
        assert(-(a * d) == d * (-a)) by (nonlinear_arith);
    }
}

proof fn lemma_trunc_div_cancel(n: int, k: int, d: int)
    requires
        0 < k,
        0 < d,
    ensures
        trunc_div(n * k, k * d) == trunc_div(n, d),
{
    if n >= 0 {
        lemma_mul_nonnegative(n, k);
        lemma_div_denominator(n * k, k, d);
        lemma_div_multiples_vanish(n, k);
        assert(n * k == k * n) by (nonlinear_arith);
    } else {
        lemma_mul_nonnegative(-n, k);
        lemma_div_denominator((-n) * k, k, d);
        lemma_div_multiples_vanish(-n, k);
        assert((-n) * k == k * (-n) && -(n * k) == (-n) * k) by (nonlinear_arith);
        lemma_mul_strictly_positive(k, d);
    }
}

/// Reduces the scaled-by-`2^150` quantization expression to a plain shift
/// of the integer `n`, left for `e >= 0` and truncating right otherwise.
proof fn lemma_scaled_reduce(n: int, e: int)
    requires
        -150 <= e <= 150,
    ensures
        e >= 0 ==> trunc_div(n * pow2((e + 150) as nat), pow2(150) as int) == n * pow2(e as nat),
        e < 0 ==> trunc_div(n * pow2((e + 150) as nat), pow2(150) as int) == trunc_div(
            n,
            pow2((-e) as nat) as int,
        ),
{
    lemma_pow2_pos(150);
    lemma_pow2_pos((e + 150) as nat);
    if e >= 0 {
        lemma_pow2_adds(e as nat, 150);
        lemma_pow2_pos(e as nat);
        assert(n * (pow2(e as nat) * pow2(150)) == (n * pow2(e as nat)) * pow2(150))
            by (nonlinear_arith);
        lemma_trunc_div_exact(n * pow2(e as nat), pow2(150) as int);
    } else {
        lemma_pow2_adds((e + 150) as nat, (-e) as nat);
        lemma_pow2_pos((-e) as nat);
        lemma_trunc_div_cancel(n, pow2((e + 150) as nat) as int, pow2((-e) as nat) as int);
        assert(n * pow2((e + 150) as nat) == n * pow2((e + 150) as nat)
            && pow2((e + 150) as nat) * pow2((-e) as nat) == pow2(150));
    }
}

proof fn lemma_sat_narrow(v: int, lo1: int, hi1: int, lo2: int, hi2: int)
    requires
        lo1 <= lo2 <= hi2 <= hi1,
    ensures
        sat(sat(v, lo1, hi1), lo2, hi2) == sat(v, lo2, hi2),
{
}

/// `2^k` as a machine word.
pub(crate) fn pow2_u64(k: u64) -> (r: u64)
    requires
        k <= 63,
    ensures
        r as nat == pow2(k as nat),
{
    let mut r: u64 = 1;
    let mut i: u64 = 0;
    proof {
        lemma2_to64();
        lemma2_to64_rest();
    }
    while i < k
        invariant
            i <= k,
            k <= 63,
            r as nat == pow2(i as nat),
        decreases k - i,
    {
        proof {
            lemma_pow2_unfold((i + 1) as nat);
            if i + 1 < 64 {
                lemma_pow2_strictly_increases((i + 1) as nat, 64);
            }
            lemma2_to64_rest();
        }
        r = r * 2;
        i = i + 1;
    }
    r
}

/// The scaled truncation shared by both quantizers: `m * 2^e * k`, truncated
/// toward zero and saturated to `[-2^62, 2^62]`.
fn trunc_scaled(m: i64, e: i32, k: i64) -> (r: i64)
    requires
        -0x100_0000 <= m <= 0x100_0000,
        -150 <= e <= 150,
        1 <= k <= 0x10000,
    ensures
        r as int == sat(
            trunc_div((m * pow2((e + 150) as nat)) * k, pow2(150) as int),
            -0x4000_0000_0000_0000,
            0x4000_0000_0000_0000,
        ),
{
    proof {
        assert(-0x1_0000_0000_0000 <= m * k <= 0x1_0000_0000_0000) by (nonlinear_arith)
            requires
                -0x100_0000 <= m <= 0x100_0000 && 1 <= k <= 0x10000,
        ;
    }
    let n: i64 = m * k;
    proof {
        assert((m * pow2((e + 150) as nat)) * k == (m * k) * pow2((e + 150) as nat))
            by (nonlinear_arith);
        lemma_scaled_reduce(n as int, e as int);
        lemma2_to64_rest();
        assert(trunc_div((m * pow2((e + 150) as nat)) * k, pow2(150) as int) == trunc_div(
            (n as int) * pow2((e + 150) as nat),
            pow2(150) as int,
        ));
    }
    if e >= 0 {
        if n == 0 {
            proof {
                lemma_pow2_pos(e as nat);
                assert((n as int) * pow2((e as int) as nat) == 0) by (nonlinear_arith)
                    requires
                        n as int == 0,
                ;
            }
            0
        } else if e >= 63 {
            proof {
                if e > 63 {
                    lemma_pow2_strictly_increases(63, e as nat);
                }
                if n > 0 {
                    lemma_mul_inequality(1, n as int, pow2(e as nat) as int);
                } else {
                    lemma_mul_inequality(n as int, -1, pow2(e as nat) as int);
                }
            }
            if n > 0 {
                0x4000_0000_0000_0000
            } else {
                -0x4000_0000_0000_0000
            }
        } else {
            let p: u64 = pow2_u64(e as u64);
            proof {
                lemma_pow2_strictly_increases(e as nat, 63);
                assert(-0x8000_0000_0000_0000_0000_0000_0000 <= (n as int) * (p as int)
                    <= 0x8000_0000_0000_0000_0000_0000_0000) by (nonlinear_arith)
                    requires
                        -0x1_0000_0000_0000 <= n <= 0x1_0000_0000_0000 && 0 <= p
                            <= 0x8000_0000_0000_0000,
                ;
            }
            let v: i128 = (n as i128) * (p as i128);
            if v > 0x4000_0000_0000_0000i128 {
                0x4000_0000_0000_0000
            } else if v < -0x4000_0000_0000_0000i128 {
                -0x4000_0000_0000_0000
            } else {
                v as i64
            }
        }
    } else {
        let d: u64 = -(e as i64) as u64;
        if d >= 63 {
            proof {
                if d > 63 {
                    lemma_pow2_strictly_increases(63, d as nat);
                }
                lemma_pow2_pos(d as nat);
                if n >= 0 {
                    lemma_basic_div(n as int, pow2(d as nat) as int);
                } else {
                    lemma_basic_div(-n as int, pow2(d as nat) as int);
                }
            }
            0
        } else {
            let p: u64 = pow2_u64(d);
            proof {
                lemma_pow2_pos(d as nat);
            }
            if n >= 0 {
                proof {
                    lemma_div_pos_is_pos(n as int, p as int);
                    lemma_div_nonincreasing(n as int, p as int);
                }
                ((n as u64) / p) as i64
            } else {
                proof {
                    lemma_div_pos_is_pos(-n as int, p as int);
                    lemma_div_nonincreasing(-n as int, p as int);
                }
                -(((-n) as u64 / p) as i64)
            }
        }
    }
}

/// Seconds to engine ticks, truncating toward zero: the exact value of
/// `quantize_time_s`, 4800 ticks per second with 32-bit saturation.
pub fn quantize_time(t: Fp) -> (r: i32)
    requires
        t.wf(),
    ensures
        r as int == quantize_time_s(t),
{
    let v: i64 = trunc_scaled(t.m, t.e, TICKS_PER_SECOND);
    proof {
        lemma_sat_narrow(
            trunc_div(t.scaled() * TICKS_PER_SECOND, pow2(150) as int),
            -0x4000_0000_0000_0000,
            0x4000_0000_0000_0000,
            i32::MIN as int,
            i32::MAX as int,
        );
    }
    if v > 0x7fff_ffffi64 {
        0x7fff_ffffi32
    } else if v < -0x8000_0000i64 {
        -0x8000_0000i64 as i32
    } else {
        v as i32
    }
}

/// One quaternion component scaled by 16383, truncating toward zero, with
/// 16-bit saturation: the exact value of `quantize_quat_c`.
pub fn quantize_quat_component(c: Fp) -> (r: i16)
    requires
        c.wf(),
    ensures
        r as int == quantize_quat_c(c),
{
    let v: i64 = trunc_scaled(c.m, c.e, QUAT_SCALE);
    proof {
        lemma_sat_narrow(
            trunc_div(c.scaled() * QUAT_SCALE, pow2(150) as int),
            -0x4000_0000_0000_0000,
            0x4000_0000_0000_0000,
            i16::MIN as int,
            i16::MAX as int,
        );
    }
    if v > 0x7fffi64 {
        0x7fffi16
    } else if v < -0x8000i64 {
        -0x8000i64 as i16
    } else {
        v as i16
    }
}

/// A zero timestamp quantizes to tick zero.
pub proof fn lemma_quantize_time_zero(t: Fp)
    requires
        t.wf(),
        t.m == 0,
    ensures
        quantize_time_s(t) == 0,
{
    lemma_pow2_pos(150);
    lemma_pow2_pos((t.e + 150) as nat);
    assert(t.scaled() == 0) by (nonlinear_arith)
        requires
            t.m == 0,
    ;
    lemma_div_of0(pow2(150) as int);
}

/// Time quantization is monotonic, not decreasing, over non-negative
/// timestamps: a later (or equal) second value never yields an earlier tick.
pub proof fn lemma_quantize_time_monotonic(a: Fp, b: Fp)
    requires
        a.wf(),
        b.wf(),
        0 <= a.scaled(),
        a.le(b),
    ensures
        quantize_time_s(a) <= quantize_time_s(b),
{
    lemma_pow2_pos(150);
    lemma_mul_inequality(a.scaled(), b.scaled(), TICKS_PER_SECOND as int);
    lemma_mul_nonnegative(a.scaled(), TICKS_PER_SECOND as int);
    lemma_div_is_ordered(
        a.scaled() * TICKS_PER_SECOND,
        b.scaled() * TICKS_PER_SECOND,
        pow2(150) as int,
    );
}

/// A quaternion component in `[-1, 1]` quantizes into `[-16383, 16383]`.
pub proof fn lemma_quantize_quat_component_in_range(c: Fp)
    requires
        c.wf(),
        c.in_unit(),
    ensures
        -16383 <= quantize_quat_c(c) <= 16383,
{
    lemma_pow2_pos(150);
    let p: int = pow2(150) as int;
    lemma_div_multiples_vanish(QUAT_SCALE as int, p);
    if c.scaled() >= 0 {
        lemma_mul_inequality(c.scaled(), p, QUAT_SCALE as int);
        assert(p * QUAT_SCALE == QUAT_SCALE * p) by (nonlinear_arith);
        lemma_div_is_ordered(c.scaled() * QUAT_SCALE, p * QUAT_SCALE, p);
        lemma_mul_nonnegative(c.scaled(), QUAT_SCALE as int);
        lemma_div_pos_is_pos(c.scaled() * QUAT_SCALE, p);
    } else {
        lemma_mul_inequality(-c.scaled(), p, QUAT_SCALE as int);
        assert(-(c.scaled() * QUAT_SCALE) == (-c.scaled()) * QUAT_SCALE) by (nonlinear_arith);
        assert(p * QUAT_SCALE == QUAT_SCALE * p) by (nonlinear_arith);
        lemma_div_is_ordered((-c.scaled()) * QUAT_SCALE, p * QUAT_SCALE, p);
        lemma_mul_nonnegative(-c.scaled(), QUAT_SCALE as int);
        lemma_div_pos_is_pos((-c.scaled()) * QUAT_SCALE, p);
    }
}

} // verus!
