use vstd::prelude::*;

use crate::numeric::RealNum;

verus! {

/// Raw units per whole unit: a `Fix` counts millionths.
pub const SCALE: i128 = 1_000_000;

/// Largest raw magnitude a `Fix` can carry; arithmetic saturates here.
pub const BOUND: i128 = 1_000_000_000_000_000_000;

/// Saturates a mathematical raw value into the representable range.
pub open spec fn clip(x: int) -> int {
    if x > BOUND as int {
        BOUND as int
    } else if x < -(BOUND as int) {
        -(BOUND as int)
    } else {
        x
    }
}

/// The magnitude of an integer.
pub open spec fn abs_int(x: int) -> int {
    if x < 0 {
        -x
    } else {
        x
    }
}

/// The quotient rounded toward zero; division by zero yields zero.
pub open spec fn tdiv(p: int, q: int) -> int {
    if q == 0 {
        0
    } else if (p < 0) == (q < 0) {
        abs_int(p) / abs_int(q)
    } else {
        -(abs_int(p) / abs_int(q))
    }
}

/// The raw value of the saturated sum of two raw values.
pub open spec fn add_val(x: int, y: int) -> int {
    clip(x + y)
}

/// The raw value of the saturated difference of two raw values.
pub open spec fn sub_val(x: int, y: int) -> int {
    clip(x - y)
}

/// The raw value of the saturated product of two raw values: the exact
/// product is rescaled by `SCALE` rounding toward zero, then saturated.
pub open spec fn mul_val(x: int, y: int) -> int {
    clip(tdiv(x * y, SCALE as int))
}

/// The raw value of the saturated quotient of two raw values: the dividend is
/// scaled up by `SCALE`, divided rounding toward zero, then saturated.  A zero
/// divisor saturates to the signed bound (or zero for a zero dividend), so the
/// iteration around it keeps running without ever accepting such a step as
/// converged.
pub open spec fn div_val(x: int, y: int) -> int {
    if y == 0 {
        if x == 0 {
            0
        } else if x > 0 {
            BOUND as int
        } else {
            -(BOUND as int)
        }
    } else {
        clip(tdiv(x * (SCALE as int), y))
    }
}

/// A saturating fixed-point number: `raw` counts millionths of a unit.
///
/// Every operation first saturates its operands into the representable range
/// `-BOUND ..= BOUND` and keeps its result there, so all arithmetic is total.
#[derive(Clone, Copy, Debug, PartialEq, Eq, Structural)]
pub struct Fix {
    pub raw: i128,
}

/// Saturates a raw value into the representable range.
fn clamp_raw(x: i128) -> (r: i128)
    ensures
        r as int == clip(x as int),
{
    if x > BOUND {
        BOUND
    } else if x < -BOUND {
        -BOUND
    } else {
        x
    }
}

/// The magnitude of an in-range raw value, as an unsigned word.
fn mag_of(x: i128) -> (m: u128)
    requires
        -(BOUND as int) <= x as int <= BOUND as int,
    ensures
        m as int == abs_int(x as int),
{
    if x < 0 {
        (-x) as u128
    } else {
        x as u128
    }
}

impl Fix {
    /// The mathematical raw value.
    pub open spec fn v(self) -> int {
        self.raw as int
    }

    /// Whether the raw value lies within the saturation range.
    pub open spec fn wf(self) -> bool {
        -(BOUND as int) <= self.v() <= BOUND as int
    }

    /// Builds the number counting `raw` millionths of a unit, saturating at
    /// the bounds.
    pub fn from_raw(raw: i128) -> (r: Fix)
        ensures
            r.v() == clip(raw as int),
            r.wf(),
    {
        Fix { raw: clamp_raw(raw) }
    }

    /// Builds the whole number `n`, saturating at the bounds.
    pub fn from_int(n: i64) -> (r: Fix)
        ensures
            r.v() == clip(n as int * SCALE as int),
            r.wf(),
    {
        Fix { raw: clamp_raw((n as i128) * SCALE) }
    }
}

impl RealNum for Fix {
    open spec fn add_s(self, rhs: Fix) -> Fix {
        Fix { raw: add_val(clip(self.v()), clip(rhs.v())) as i128 }
    }

    open spec fn sub_s(self, rhs: Fix) -> Fix {
        Fix { raw: sub_val(clip(self.v()), clip(rhs.v())) as i128 }
    }

    open spec fn mul_s(self, rhs: Fix) -> Fix {
        Fix { raw: mul_val(clip(self.v()), clip(rhs.v())) as i128 }
    }

    open spec fn div_s(self, rhs: Fix) -> Fix {
        Fix { raw: div_val(clip(self.v()), clip(rhs.v())) as i128 }
    }

    open spec fn abs_s(self) -> Fix {
        Fix { raw: abs_int(clip(self.v())) as i128 }
    }

    open spec fn le_s(self, rhs: Fix) -> bool {
        clip(self.v()) <= clip(rhs.v())
    }

    fn add(self, rhs: Fix) -> (r: Fix) {
        let a = clamp_raw(self.raw);
        let b = clamp_raw(rhs.raw);
        Fix { raw: clamp_raw(a + b) }
    }

    fn sub(self, rhs: Fix) -> (r: Fix) {
        let a = clamp_raw(self.raw);
        let b = clamp_raw(rhs.raw);
        Fix { raw: clamp_raw(a - b) }
    }

    fn mul(self, rhs: Fix) -> (r: Fix) {
        let a = clamp_raw(self.raw);
        let b = clamp_raw(rhs.raw);
        let ma = mag_of(a);
        let mb = mag_of(b);
        proof {
            assert(ma as int * mb as int <= (BOUND as int) * (BOUND as int))
                by (nonlinear_arith)
                requires
                    0 <= ma as int <= BOUND as int,
                    0 <= mb as int <= BOUND as int,
            ;
            lemma_tdiv_of_product(a as int, b as int, SCALE as int);
        }
        let p = ma * mb;
        let q = p / (SCALE as u128);
        let qc = if q > (BOUND as u128) {
            BOUND as u128
        } else {
            q
        };
        let m = qc as i128;
        if (a < 0) != (b < 0) {
            Fix { raw: -m }
        } else {
            Fix { raw: m }
        }
    }

    fn div(self, rhs: Fix) -> (r: Fix) {
        let a = clamp_raw(self.raw);
        let b = clamp_raw(rhs.raw);
        if b == 0 {
            if a == 0 {
                Fix { raw: 0 }
            } else if a > 0 {
                Fix { raw: BOUND }
            } else {
                Fix { raw: -BOUND }
            }
        } else {
            let ma = mag_of(a);
            let mb = mag_of(b);
            proof {
                lemma_tdiv_scaled_dividend(a as int, b as int);
            }
            let p = ma * (SCALE as u128);
            let q = p / mb;
            let qc = if q > (BOUND as u128) {
                BOUND as u128
            } else {
                q
            };
            let m = qc as i128;
            if (a < 0) != (b < 0) {
                Fix { raw: -m }
            } else {
                Fix { raw: m }
            }
        }
    }

    fn abs(self) -> (r: Fix) {
        let a = clamp_raw(self.raw);
        if a < 0 {
            Fix { raw: -a }
        } else {
            Fix { raw: a }
        }
    }

    fn le(self, rhs: Fix) -> (r: bool) {
        let a = clamp_raw(self.raw);
        let b = clamp_raw(rhs.raw);
        a <= b
    }
}

/// Saturation keeps every arithmetic result within the representable range,
/// whatever the operands hold.
pub proof fn lemma_ops_preserve_wf(a: Fix, b: Fix)
    ensures
        a.add_s(b).wf(),
        a.sub_s(b).wf(),
        a.mul_s(b).wf(),
        a.div_s(b).wf(),
        a.abs_s().wf(),
{
}

/// Rounding a product toward zero agrees with dividing the product of the
/// magnitudes and reapplying the sign of the factors.
proof fn lemma_tdiv_of_product(x: int, y: int, q: int)
    requires
        q > 0,
    ensures
        tdiv(x * y, q) == if (x < 0) != (y < 0) {
            -((abs_int(x) * abs_int(y)) / q)
        } else {
            (abs_int(x) * abs_int(y)) / q
        },
{
    assert(abs_int(x * y) == abs_int(x) * abs_int(y)) by (nonlinear_arith);
    if x * y == 0 {
        assert(abs_int(x) * abs_int(y) == 0);
        assert(tdiv(x * y, q) == 0);
        assert(0int / q == 0);
    } else if x * y > 0 {
        assert((x < 0) == (y < 0)) by (nonlinear_arith)
            requires
                x * y > 0,
        ;
    } else {
        assert((x < 0) != (y < 0)) by (nonlinear_arith)
            requires
                x * y < 0,
        ;
    }
}

/// Scaling the dividend by the positive constant `SCALE` keeps its sign and
/// scales its magnitude, so truncating division can be computed on magnitudes.
proof fn lemma_tdiv_scaled_dividend(x: int, y: int)
    requires
        y != 0,
    ensures
        tdiv(x * (SCALE as int), y) == if (x < 0) != (y < 0) {
            -((abs_int(x) * (SCALE as int)) / abs_int(y))
        } else {
            (abs_int(x) * (SCALE as int)) / abs_int(y)
        },
{
    assert(abs_int(x * (SCALE as int)) == abs_int(x) * (SCALE as int));
    assert((x * (SCALE as int) < 0) == (x < 0));
}

} // verus!
