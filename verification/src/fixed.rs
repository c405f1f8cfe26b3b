//! Signed Q-format fixed-point values.
//!
//! A `SQm_n` value holds a two's-complement integer interpreted with `m`
//! integer bits and `n` fractional bits (plus the sign bit), so the value it
//! stands for is `raw / 2^n`.  Multiplication widens: the product of a
//! `Qa.b` and a `Qc.d` value has `a+c` integer and `b+d` fractional bits,
//! and the widening is tracked in the result type instead of truncated away.

use vstd::prelude::*;
use vstd::arithmetic::div_mod::*;
use vstd::arithmetic::power2::*;

verus! {

/// Q1.7: one integer bit, seven fractional bits, stored in an `i8`.
#[derive(Clone, Copy, PartialEq, Eq, Structural, Debug)]
pub struct SQ1_7(pub i8);

/// Q8.0: an integer in `i8` range.
#[derive(Clone, Copy, PartialEq, Eq, Structural, Debug)]
pub struct SQ8_0(pub i8);

/// Q16.0: an integer in `i16` range.
#[derive(Clone, Copy, PartialEq, Eq, Structural, Debug)]
pub struct SQ16_0(pub i16);

/// Q1.15: one integer bit, fifteen fractional bits, stored in an `i16`.
#[derive(Clone, Copy, PartialEq, Eq, Structural, Debug)]
pub struct SQ1_15(pub i16);

/// Q8.8: eight integer bits, eight fractional bits, stored in an `i16`.
#[derive(Clone, Copy, PartialEq, Eq, Structural, Debug)]
pub struct SQ8_8(pub i16);

/// Q1.31: one integer bit, thirty-one fractional bits, stored in an `i32`.
#[derive(Clone, Copy, PartialEq, Eq, Structural, Debug)]
pub struct SQ1_31(pub i32);

/// Q16.15: sixteen integer bits, fifteen fractional bits, stored in an `i32`.
#[derive(Clone, Copy, PartialEq, Eq, Structural, Debug)]
pub struct SQ16_15(pub i32);

/// Q32.0: an integer in `i32` range.
#[derive(Clone, Copy, PartialEq, Eq, Structural, Debug)]
pub struct SQ32_0(pub i32);

/// The value `x` reduced into two's-complement `i16` range.
pub open spec fn wrap_i16(x: int) -> int {
    let m = ((x % 0x10000) + 0x10000) % 0x10000;
    if m >= 0x8000 {
        m - 0x10000
    } else {
        m
    }
}

/// The value `x` reduced into two's-complement `i32` range.
pub open spec fn wrap_i32(x: int) -> int {
    let m = ((x % 0x1_0000_0000) + 0x1_0000_0000) % 0x1_0000_0000;
    if m >= 0x8000_0000 {
        m - 0x1_0000_0000
    } else {
        m
    }
}

/// Doubling an `i32` known to lie in `i16` product range, wrapped to `i16`.
///
/// The widening multiplies below all end with a one-bit left shift that
/// realigns the binary point; the only product whose doubled value leaves
/// `i16` range is `(-2^7) * (-2^7)` (and `(-2^15) * (-2^15)` for the wider
/// forms), which wraps to the most negative value, exactly as the shift
/// does in two's complement.
fn double_to_i16(p: i32) -> (r: i16)
    requires
        -0x4000 <= p <= 0x4000,
    ensures
        r == wrap_i16(2 * p),
{
    if p == 0x4000 {
        proof {
            assert(0x8000int % 0x10000 == 0x8000) by (nonlinear_arith);
            assert(wrap_i16(0x8000) == -0x8000);
        }
        -0x8000
    } else {
        proof {
            assert(-0x8000 <= 2 * p < 0x8000 ==> wrap_i16(2 * p) == 2 * p) by {
                if -0x8000 <= 2 * p < 0x8000 {
                    lemma_wrap_i16_in_range(2 * p);
                }
            }
        }
        (2 * p) as i16
    }
}

pub proof fn lemma_wrap_i16_in_range(x: int)
    requires
        -0x8000 <= x < 0x8000,
    ensures
        wrap_i16(x) == x,
{
    assert(((x % 0x10000) + 0x10000) % 0x10000 == if x >= 0 {
        x
    } else {
        x + 0x10000
    }) by (nonlinear_arith)
        requires
            -0x8000 <= x < 0x8000,
    ;
}

proof fn lemma_mul_bounds_i8(a: int, b: int)
    by (nonlinear_arith)
    requires
        -0x80 <= a <= 0x7f,
        -0x80 <= b <= 0x7f,
    ensures
        -0x4000 <= a * b <= 0x4000,
{
}

proof fn lemma_mul_bounds_i16(a: int, b: int)
    by (nonlinear_arith)
    requires
        -0x8000 <= a <= 0x7fff,
        -0x8000 <= b <= 0x7fff,
    ensures
        -0x4000_0000 <= a * b <= 0x4000_0000,
{
}

impl SQ1_7 {
    /// Widening multiply: Q1.7 x Q1.7 = Q1.15 (`2ab` at raw scale).
    pub fn widening_mul(self, rhs: SQ1_7) -> (r: SQ1_15)
        ensures
            r.0 == wrap_i16(2 * (self.0 * rhs.0)),
    {
        proof {
            lemma_mul_bounds_i8(self.0 as int, rhs.0 as int);
        }
        let p: i32 = (self.0 as i32) * (rhs.0 as i32);
        SQ1_15(double_to_i16(p))
    }

    /// Widening multiply: Q1.7 x Q8.0 = Q8.8 (`2ab` at raw scale).
    pub fn widening_mul_sq8_0(self, rhs: SQ8_0) -> (r: SQ8_8)
        ensures
            r.0 == wrap_i16(2 * (self.0 * rhs.0)),
    {
        proof {
            lemma_mul_bounds_i8(self.0 as int, rhs.0 as int);
        }
        let p: i32 = (self.0 as i32) * (rhs.0 as i32);
        SQ8_8(double_to_i16(p))
    }
}

pub proof fn lemma_wrap_i32_in_range(x: int)
    requires
        -0x8000_0000 <= x < 0x8000_0000,
    ensures
        wrap_i32(x) == x,
{
    assert(((x % 0x1_0000_0000) + 0x1_0000_0000) % 0x1_0000_0000 == if x >= 0 {
        x
    } else {
        x + 0x1_0000_0000
    }) by (nonlinear_arith)
        requires
            -0x8000_0000 <= x < 0x8000_0000,
    ;
}

/// Doubling an `i64` known to lie in `i32` product range, wrapped to `i32`.
fn double_to_i32(p: i64) -> (r: i32)
    requires
        -0x4000_0000 <= p <= 0x4000_0000,
    ensures
        r == wrap_i32(2 * p),
{
    if p == 0x4000_0000 {
        proof {
            assert(0x8000_0000int % 0x1_0000_0000 == 0x8000_0000) by (nonlinear_arith);
            assert(wrap_i32(0x8000_0000) == -0x8000_0000);
        }
        -0x8000_0000
    } else {
        proof {
            assert(-0x8000_0000 <= 2 * p < 0x8000_0000 ==> wrap_i32(2 * p) == 2 * p) by {
                if -0x8000_0000 <= 2 * p < 0x8000_0000 {
                    lemma_wrap_i32_in_range(2 * p);
                }
            }
        }
        (2 * p) as i32
    }
}

impl SQ1_15 {
    /// Widening multiply: Q1.15 x Q1.15 = Q1.31 (`2ab` at raw scale).
    pub fn widening_mul(self, rhs: SQ1_15) -> (r: SQ1_31)
        ensures
            r.0 == wrap_i32(2 * (self.0 * rhs.0)),
    {
        proof {
            lemma_mul_bounds_i16(self.0 as int, rhs.0 as int);
        }
        let p: i64 = (self.0 as i64) * (rhs.0 as i64);
        SQ1_31(double_to_i32(p))
    }

    /// Widening multiply: Q1.15 x Q16.0 = Q16.15 (`2ab` at raw scale).
    pub fn widening_mul_sq16_0(self, rhs: SQ16_0) -> (r: SQ16_15)
        ensures
            r.0 == wrap_i32(2 * (self.0 * rhs.0)),
    {
        proof {
            lemma_mul_bounds_i16(self.0 as int, rhs.0 as int);
        }
        let p: i64 = (self.0 as i64) * (rhs.0 as i64);
        SQ16_15(double_to_i32(p))
    }
}

impl SQ8_0 {
    /// Widening multiply: Q8.0 x Q8.0 = Q16.0 (plain product, always exact).
    pub fn widening_mul(self, rhs: SQ8_0) -> (r: SQ16_0)
        ensures
            r.0 == self.0 * rhs.0,
    {
        proof {
            lemma_mul_bounds_i8(self.0 as int, rhs.0 as int);
        }
        SQ16_0((self.0 as i16) * (rhs.0 as i16))
    }

    /// Widening multiply: Q8.0 x Q1.7 = Q8.8 (`2ab` at raw scale).
    pub fn widening_mul_sq1_7(self, rhs: SQ1_7) -> (r: SQ8_8)
        ensures
            r.0 == wrap_i16(2 * (self.0 * rhs.0)),
    {
        proof {
            lemma_mul_bounds_i8(self.0 as int, rhs.0 as int);
        }
        let p: i32 = (self.0 as i32) * (rhs.0 as i32);
        SQ8_8(double_to_i16(p))
    }
}

impl SQ16_0 {
    /// Scale by a Q1.7 factor: the exact Q16.0 value of the product,
    /// `self * (rhs / 2^7)`, truncated toward zero.  A Q1.7 factor lies in
    /// [-1, 1), so the product always fits the format except the single
    /// two's-complement corner `(-2^15) * (-1.0)`, which wraps to the most
    /// negative value, as the widening multiplies' corner does.
    pub fn scale_sq1_7(self, rhs: SQ1_7) -> (r: SQ16_0)
        ensures
            r.0 == wrap_i16(trunc_div(self.0 * rhs.0, 0x80)),
    {
        proof {
            assert(-0x40_0000 < (self.0 as int) * (rhs.0 as int) <= 0x40_0000) by (
            nonlinear_arith)
                requires
                    -0x8000 <= self.0 <= 0x7fff,
                    -0x80 <= rhs.0 <= 0x7f,
            ;
            lemma_trunc_div128_range((self.0 as int) * (rhs.0 as int));
        }
        let p: i64 = (self.0 as i64) * (rhs.0 as i64);
        let q: i64 = div_trunc(p, 0x80);
        if q == 0x8000 {
            proof {
                assert(0x8000int % 0x10000 == 0x8000) by (nonlinear_arith);
                assert(wrap_i16(0x8000) == -0x8000);
            }
            SQ16_0(-0x8000)
        } else {
            proof {
                lemma_wrap_i16_in_range(q as int);
            }
            SQ16_0(q as i16)
        }
    }
}

proof fn lemma_trunc_div128_range(p: int)
    requires
        -0x40_0000 <= p <= 0x40_0000,
    ensures
        -0x8000 <= trunc_div(p, 0x80) <= 0x8000,
        p != -0x40_0000 && p != 0x40_0000 ==> -0x8000 < trunc_div(p, 0x80) < 0x8000,
{
    if p >= 0 {
        assert(trunc_div(p, 0x80) == p / 0x80);
        assert(0 <= p / 0x80 <= 0x8000 && (p < 0x40_0000 ==> p / 0x80 < 0x8000)) by (
        nonlinear_arith)
            requires
                0 <= p <= 0x40_0000,
        ;
    } else {
        assert(trunc_div(p, 0x80) == -((-p) / 0x80));
        assert(0 <= (-p) / 0x80 <= 0x8000 && (p > -0x40_0000 ==> (-p) / 0x80 < 0x8000)) by (
        nonlinear_arith)
            requires
                -0x40_0000 <= p < 0,
        ;
    }
}

impl SQ32_0 {
    /// Multiply two Q32.0 integers; the caller must keep the product in range.
    pub fn product(self, rhs: SQ32_0) -> (r: SQ32_0)
        requires
            -0x8000_0000 <= self.0 * rhs.0 <= 0x7fff_ffff,
        ensures
            r.0 == self.0 * rhs.0,
    {
        SQ32_0(self.0 * rhs.0)
    }
}

impl SQ8_8 {
    /// Narrow Q8.8 to Q8.0 by dropping the fractional byte (arithmetic
    /// shift right by eight, i.e. floor division by 256).
    pub fn to_sq8_0(self) -> (r: SQ8_0)
        ensures
            r.0 == self.0 as int / 256,
    {
        proof {
            lemma_div_bounds_256(self.0 as int);
        }
        if self.0 >= 0 {
            SQ8_0(((self.0 as u16) / 256) as i8)
        } else {
            let y: u16 = (-(self.0 as i32)) as u16;
            let q: u16 = (y + 255) / 256;
            proof {
                lemma_div_floor_neg(self.0 as int, 256, q as int);
            }
            SQ8_0(-(q as i16) as i8)
        }
    }

    /// Narrow Q8.8 to Q1.7: keep only the low eight bits, sign-extended,
    /// discarding the integer part.  Callers must pre-scale to avoid the
    /// silent truncation this performs by design.
    pub fn to_sq1_7(self) -> (r: SQ1_7)
        ensures
            r.0 == wrap_i8(self.0 as int),
    {
        let m: i16 = if self.0 >= 0 {
            ((self.0 as u16) % 256) as i16
        } else {
            let y: u16 = (-(self.0 as i32)) as u16;
            let m0: u16 = y % 256;
            if m0 == 0 {
                0
            } else {
                (256 - m0) as i16
            }
        };
        proof {
            assert(((self.0 as int % 256) + 256) % 256 == if self.0 >= 0 {
                self.0 as int % 256
            } else if ((-(self.0 as int)) % 256) == 0 {
                0int
            } else {
                256 - ((-(self.0 as int)) % 256)
            }) by (nonlinear_arith);
            assert(self.0 as int % 256 == (self.0 as u16 as int) % 256 || self.0 < 0);
        }
        if m >= 128 {
            SQ1_7((m - 256) as i8)
        } else {
            SQ1_7(m as i8)
        }
    }
}

/// The value `x` reduced into two's-complement `i8` range.
pub open spec fn wrap_i8(x: int) -> int {
    let m = ((x % 0x100) + 0x100) % 0x100;
    if m >= 0x80 {
        m - 0x100
    } else {
        m
    }
}

proof fn lemma_div_bounds_256(x: int)
    by (nonlinear_arith)
    requires
        -0x8000 <= x <= 0x7fff,
    ensures
        -0x80 <= x / 256 <= 0x7f,
{
}

proof fn lemma_div_floor_neg(a: int, d: int, q: int)
    by (nonlinear_arith)
    requires
        a < 0,
        d > 0,
        q == (-a + d - 1) / d,
    ensures
        a / d == -q,
{
}

/// Division truncated toward zero (Rust's `/` on signed operands), for any
/// nonzero divisor.
pub open spec fn trunc_div(a: int, b: int) -> int {
    if (a < 0) != (b < 0) {
        -(s_abs(a) / s_abs(b))
    } else {
        s_abs(a) / s_abs(b)
    }
}

/// The value `x` clamped to `i16` range.
pub open spec fn clamp_i16(x: int) -> int {
    if x > 0x7fff {
        0x7fff
    } else if x < -0x8000 {
        -0x8000
    } else {
        x
    }
}

/// Clamp a wide intermediate to `i16`, the saturating policy of the mixer
/// and of the envelope ramps.
pub fn clamp_to_i16(x: i64) -> (r: i16)
    ensures
        r == clamp_i16(x as int),
{
    if x > 0x7fff {
        0x7fff
    } else if x < -0x8000 {
        -0x8000
    } else {
        x as i16
    }
}

/// Truncating division on machine words, positive divisor.
pub fn div_trunc(a: i64, b: i64) -> (r: i64)
    requires
        0 < b <= 0x4000_0000_0000_0000,
        -0x4000_0000_0000_0000 <= a <= 0x4000_0000_0000_0000,
    ensures
        r == trunc_div(a as int, b as int),
{
    if a >= 0 {
        ((a as u64) / (b as u64)) as i64
    } else {
        let q: u64 = ((-a) as u64) / (b as u64);
        -(q as i64)
    }
}

/// Floor division on machine words, positive divisor: the arithmetic right
/// shift used by the fixed-point scaling steps.
pub fn div_floor(a: i64, b: i64) -> (r: i64)
    requires
        0 < b <= 0x4000_0000_0000_0000,
        -0x4000_0000_0000_0000 <= a <= 0x4000_0000_0000_0000,
    ensures
        r == a as int / b as int,
{
    if a >= 0 {
        ((a as u64) / (b as u64)) as i64
    } else {
        let q: u64 = (((-a) as u64) + (b as u64) - 1) / (b as u64);
        proof {
            lemma_div_floor_neg(a as int, b as int, q as int);
        }
        -(q as i64)
    }
}

/// Scale a Q1.15 control value by a Q1.15 level: `(x * lvl) >> 15`, the
/// product's low sixteen bits after the arithmetic shift.  Exact except for
/// the single corner `(-2^15) * (-2^15)`, which wraps to `-2^15`.
pub fn scale_q15(x: i16, lvl: i16) -> (r: i16)
    ensures
        r == wrap_i16((x * lvl) / 0x8000),
{
    proof {
        lemma_mul_bounds_i16(x as int, lvl as int);
        lemma_div_bounds_q15((x as int) * (lvl as int));
    }
    let p: i64 = (x as i64) * (lvl as i64);
    let s: i64 = div_floor(p, 0x8000);
    if s == 0x8000 {
        proof {
            assert(0x8000int % 0x10000 == 0x8000) by (nonlinear_arith);
            assert(wrap_i16(0x8000) == -0x8000);
        }
        -0x8000
    } else {
        proof {
            lemma_wrap_i16_in_range(s as int);
        }
        s as i16
    }
}

proof fn lemma_div_bounds_q15(p: int)
    by (nonlinear_arith)
    requires
        -0x4000_0000 <= p <= 0x4000_0000,
    ensures
        -0x8000 <= p / 0x8000 <= 0x8000,
{
}

/// The value `x` reduced into unsigned 32-bit range, the wraparound of the
/// phase accumulators.
pub open spec fn mod_u32(x: int) -> int {
    ((x % 0x1_0000_0000) + 0x1_0000_0000) % 0x1_0000_0000
}

/// Reduce a bounded intermediate into `u32` range.
pub fn reduce_mod_u32(x: i64) -> (r: u32)
    requires
        -0x1_0000_0000 <= x <= 0x3_0000_0000,
    ensures
        r == mod_u32(x as int),
{
    if x < 0 {
        proof {
            assert(((x % 0x1_0000_0000) + 0x1_0000_0000) % 0x1_0000_0000 == x + 0x1_0000_0000) by (
            nonlinear_arith)
                requires
                    -0x1_0000_0000 <= x < 0,
            ;
        }
        (x + 0x1_0000_0000) as u32
    } else {
        let m: u64 = (x as u64) % 0x1_0000_0000;
        proof {
            assert((x % 0x1_0000_0000) >= 0 && (x % 0x1_0000_0000) < 0x1_0000_0000 && ((x
                % 0x1_0000_0000) + 0x1_0000_0000) % 0x1_0000_0000 == x % 0x1_0000_0000) by (
            nonlinear_arith)
                requires
                    x >= 0,
            ;
        }
        m as u32
    }
}

/// Absolute value.
pub open spec fn s_abs(x: int) -> int {
    if x >= 0 {
        x
    } else {
        -x
    }
}

/// The sign the quotient of `on / od` carries.
pub open spec fn div_sign(on: int, od: int) -> int {
    if (on < 0) != (od < 0) {
        -1
    } else {
        1
    }
}

/// What the restoring division returns: the magnitude quotient
/// `|on| * 2^31 / |od|` rounded down, with the sign reapplied, saturated to
/// the largest Q1.31 value when the magnitudes are equal (a ratio of one is
/// not representable).
pub open spec fn restoring_div_spec(on: int, od: int) -> int {
    if s_abs(on) == s_abs(od) {
        div_sign(on, od) * 0x7fff_ffff
    } else {
        div_sign(on, od) * ((s_abs(on) * 0x8000_0000) / s_abs(od))
    }
}

impl SQ32_0 {
    /// The Q1.31 reciprocal of a positive integer, built by restoring
    /// division.  Division by zero is rejected here, at the call site.
    pub fn inv_u16(n: u16) -> (r: SQ1_31)
        requires
            n >= 1,
        ensures
            r.0 == restoring_div_spec(1, n as int),
    {
        SQ32_0::div(SQ32_0(1), SQ32_0(n as i32))
    }

    /// Fixed-point division producing a Q1.31 fraction by bit-by-bit
    /// restoring division on the magnitudes, the sign reapplied afterward.
    /// The magnitude of the numerator must not exceed the denominator's,
    /// since the result format only reaches one.
    pub fn div(on: SQ32_0, od: SQ32_0) -> (r: SQ1_31)
        requires
            od.0 != 0,
            on.0 > i32::MIN,
            od.0 > i32::MIN,
            s_abs(on.0 as int) <= s_abs(od.0 as int),
        ensures
            r.0 == restoring_div_spec(on.0 as int, od.0 as int),
    {
        let neg: bool = (on.0 < 0) != (od.0 < 0);
        let n: u32 = if on.0 < 0 {
            (-on.0) as u32
        } else {
            on.0 as u32
        };
        let d: u32 = if od.0 < 0 {
            (-od.0) as u32
        } else {
            od.0 as u32
        };
        if n == d {
            return SQ1_31(
                if neg {
                    -0x7fff_ffff
                } else {
                    0x7fff_ffff
                },
            );
        }
        let mut t: u64 = n as u64;
        let mut q: u64 = 0;
        let mut i: usize = 0;
        proof {
            lemma2_to64();
        }
        while i < 31
            invariant
                0 < d <= 0x8000_0000,
                n < d,
                i <= 31,
                t < d,
                q * d + t == n * pow2(i as nat),
                q < pow2(i as nat),
                pow2(i as nat) <= pow2(31),
                pow2(31) == 0x8000_0000,
            decreases 31 - i,
        {
            let ghost q0 = q as int;
            let ghost t0 = t as int;
            let ghost i0 = i as nat;
            let ghost p0 = pow2(i0);
            t = 2 * t;
            q = 2 * q;
            if t >= d as u64 {
                q = q + 1;
                t = t - d as u64;
            }
            i = i + 1;
            proof {
                lemma_pow2_adds(i0, 1);
                lemma2_to64();
                let p1 = pow2(i as nat);
                assert(p1 == 2 * p0) by (nonlinear_arith)
                    requires
                        p1 == p0 * pow2(1),
                        pow2(1) == 2,
                ;
                assert(q * d + t == n * p1 && q < p1) by (nonlinear_arith)
                    requires
                        q0 * d + t0 == n * p0,
                        q0 < p0,
                        0 <= t0 < d,
                        0 < d,
                        0 <= n < d,
                        p1 == 2 * p0,
                        (if 2 * t0 >= d {
                            q == 2 * q0 + 1 && t == 2 * t0 - d
                        } else {
                            q == 2 * q0 && t == 2 * t0
                        }),
                ;
                if (i as nat) < 31 {
                    lemma_pow2_strictly_increases(i as nat, 31);
                }
            }
        }
        proof {
            lemma_fundamental_div_mod_converse(
                (n as int) * 0x8000_0000,
                d as int,
                q as int,
                t as int,
            );
        }
        let qi: i32 = q as i32;
        if neg {
            SQ1_31(-qi)
        } else {
            SQ1_31(qi)
        }
    }
}

/// Law: widening fixed-point multiplication is exact.  For every pair of
/// representable operands except the single two's-complement corner (both
/// factors the most negative value), the raw product `2ab` fits the widened
/// format, so the widened value `2ab / 2^(b+d)` equals the mathematical
/// product `(a / 2^b) * (b / 2^d)` with no truncation at all.  The
/// Q16.0-by-Q1.7 scaling lands the same way: outside its corner the
/// truncated quotient `ab / 2^7` is in range, so no high bits are lost.
pub proof fn lemma_widening_mul_exact()
    ensures
        forall|a: i8, b: i8|
            !(a == -0x80 && b == -0x80) ==> #[trigger] wrap_i16(2 * (a * b)) == 2 * (a * b),
        forall|x: i16, y: i16|
            !(x == -0x8000 && y == -0x8000) ==> #[trigger] wrap_i32(2 * (x * y)) == 2 * (x * y),
        forall|a: i16, b: i8|
            !(a == -0x8000 && b == -0x80) ==> #[trigger] wrap_i16(trunc_div(a * b, 0x80))
                == trunc_div(a * b, 0x80),
{
    assert forall|a: i16, b: i8| !(a == -0x8000 && b == -0x80) implies #[trigger] wrap_i16(
        trunc_div(a * b, 0x80),
    ) == trunc_div(a * b, 0x80) by {
        assert(-0x40_0000 < a * b < 0x40_0000) by (nonlinear_arith)
            requires
                -0x8000 <= a <= 0x7fff,
                -0x80 <= b <= 0x7f,
                !(a == -0x8000 && b == -0x80),
        ;
        lemma_trunc_div128_range(a * b);
        lemma_wrap_i16_in_range(trunc_div(a * b, 0x80));
    }
    assert forall|a: i8, b: i8| !(a == -0x80 && b == -0x80) implies #[trigger] wrap_i16(2 * (a * b))
        == 2 * (a * b) by {
        assert(-0x4000 < a * b < 0x4000) by (nonlinear_arith)
            requires
                -0x80 <= a <= 0x7f,
                -0x80 <= b <= 0x7f,
                !(a == -0x80 && b == -0x80),
        ;
        lemma_wrap_i16_in_range(2 * (a * b));
    }
    assert forall|x: i16, y: i16| !(x == -0x8000 && y == -0x8000) implies #[trigger] wrap_i32(
        2 * (x * y),
    ) == 2 * (x * y) by {
        assert(-0x4000_0000 < x * y < 0x4000_0000) by (nonlinear_arith)
            requires
                -0x8000 <= x <= 0x7fff,
                -0x8000 <= y <= 0x7fff,
                !(x == -0x8000 && y == -0x8000),
        ;
        lemma_wrap_i32_in_range(2 * (x * y));
    }
}

/// Law: the restoring-division reciprocal of a positive integer `n` is the
/// floor of `2^31 / n` (saturated at `n == 1`), so it is within one unit in
/// the last place of the true reciprocal: `n * r <= 2^31 <= n * (r + 1)`.
/// Scaled by `2^-31`, the relative error against `1/n` is below `n / 2^31`,
/// at most `2^-15` over the whole `u16` range.
pub proof fn lemma_recip_error(n: u16)
    requires
        n >= 1,
    ensures
        0 < restoring_div_spec(1, n as int) <= 0x7fff_ffff,
        n * restoring_div_spec(1, n as int) <= 0x8000_0000,
        0x8000_0000 <= n * (restoring_div_spec(1, n as int) + 1),
{
    if n == 1 {
    } else {
        let q = 0x8000_0000int / (n as int);
        lemma_fundamental_div_mod(0x8000_0000, n as int);
        let r = 0x8000_0000int % (n as int);
        lemma_mod_bound(0x8000_0000, n as int);
        assert(0x8000_0000 == (n as int) * q + r);
        assert(n * (q + 1) == n * q + n) by (nonlinear_arith);
        assert(q >= 1) by (nonlinear_arith)
            requires
                2 <= n <= 0xffff,
                0x8000_0000 == (n as int) * q + r,
                0 <= r < n,
        ;
        assert(q <= 0x7fff_ffff) by (nonlinear_arith)
            requires
                2 <= n <= 0xffff,
                0x8000_0000 == (n as int) * q + r,
                0 <= r < n,
        ;
    }
}

} // verus!
