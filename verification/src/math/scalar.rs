//! Signed Q16.16 fixed-point numbers with saturating arithmetic.
//!
//! A [`Scalar`] stands for the rational `raw / 65536`. Sums, products and
//! quotients are computed exactly in a wider integer, rounded toward zero
//! where a division is involved, and then limited to the range of `i32`.
use core::ops::Neg;
use vstd::prelude::*;

verus! {

/// Raw value of the number one: sixteen fractional bits.
pub const ONE_RAW: i32 = 65536;

/// The number of raw units in one whole.
pub open spec fn unit() -> int {
    65536
}

/// `x` limited to the range of raw values.
pub open spec fn saturate(x: int) -> int {
    if x < -2147483648 {
        -2147483648
    } else if x > 2147483647 {
        2147483647
    } else {
        x
    }
}

/// Whether `x` is a raw value as it stands, with nothing for `saturate` to
/// cut off.
pub open spec fn in_range(x: int) -> bool {
    -2147483648 <= x <= 2147483647
}

/// The size of a number without its sign.
pub open spec fn magnitude(x: int) -> int {
    if x < 0 {
        -x
    } else {
        x
    }
}

/// `n / d` rounded toward zero, for a divisor other than zero.
pub open spec fn quotient(n: int, d: int) -> int {
    if d > 0 {
        if n >= 0 {
            n / d
        } else {
            -((-n) / d)
        }
    } else {
        if n >= 0 {
            -(n / (-d))
        } else {
            (-n) / (-d)
        }
    }
}

/// A fixed-point number: `raw / 65536`.
#[derive(Clone, Copy, Debug, PartialEq, Eq, Structural)]
pub struct Scalar {
    pub raw: i32,
}

impl View for Scalar {
    type V = int;

    open spec fn view(&self) -> int {
        self.raw as int
    }
}

/// Limits a wide integer to the raw range.
fn saturate_wide(x: i128) -> (r: i32)
    ensures
        r as int == saturate(x as int),
{
    if x < -2147483648 {
        -2147483648
    } else if x > 2147483647 {
        2147483647
    } else {
        x as i32
    }
}

/// Divides with rounding toward zero.
fn divide(n: i128, d: i128) -> (q: i128)
    requires
        d != 0,
        -0x1_0000_0000_0000_0000 <= n <= 0x1_0000_0000_0000_0000,
        -0x1_0000_0000_0000_0000 <= d <= 0x1_0000_0000_0000_0000,
    ensures
        q as int == quotient(n as int, d as int),
{
    if d > 0 {
        if n >= 0 {
            n / d
        } else {
            -((-n) / d)
        }
    } else {
        if n >= 0 {
            -(n / (-d))
        } else {
            (-n) / (-d)
        }
    }
}

impl Scalar {
    /// The scalar whose raw value is `x` limited to the raw range.
    pub open spec fn of(x: int) -> Scalar {
        Scalar { raw: saturate(x) as i32 }
    }

    /// The saturated sum.
    pub open spec fn plus(self, rhs: Scalar) -> Scalar {
        Scalar::of(self@ + rhs@)
    }

    /// The saturated difference.
    pub open spec fn minus(self, rhs: Scalar) -> Scalar {
        Scalar::of(self@ - rhs@)
    }

    /// The scalar for a wide value, one counted in units of `1 / unit()^2`
    /// as a product of two raw values is: divided by `unit()`, rounded
    /// toward zero and saturated.
    pub open spec fn of_wide(wide: int) -> Scalar {
        Scalar::of(quotient(wide, unit()))
    }

    /// The product, rounded toward zero and saturated.
    pub open spec fn times(self, rhs: Scalar) -> Scalar {
        Scalar::of_wide(self@ * rhs@)
    }

    /// The quotient, rounded toward zero and saturated.
    pub open spec fn over(self, rhs: Scalar) -> Scalar {
        Scalar::of(quotient(self@ * unit(), rhs@))
    }

    /// The saturated negation.
    pub open spec fn negated(self) -> Scalar {
        Scalar::of(-self@)
    }

    /// The larger of two scalars.
    pub open spec fn larger(self, other: Scalar) -> Scalar {
        if self@ >= other@ {
            self
        } else {
            other
        }
    }

    /// The number zero.
    pub fn zero() -> (r: Scalar)
        ensures
            r == (Scalar { raw: 0 }),
    {
        Scalar { raw: 0 }
    }

    /// The number one.
    pub fn one() -> (r: Scalar)
        ensures
            r == (Scalar { raw: ONE_RAW }),
    {
        Scalar { raw: ONE_RAW }
    }

    /// The whole number `n`, saturated.
    pub fn from_int(n: i32) -> (r: Scalar)
        ensures
            r == Scalar::of(n * unit()),
    {
        Scalar { raw: saturate_wide(n as i128 * 65536) }
    }

    /// The fraction `n / d`, rounded toward zero and saturated.
    pub fn from_ratio(n: i32, d: i32) -> (r: Scalar)
        requires
            d != 0,
        ensures
            r == Scalar::of(quotient(n * unit(), d as int)),
    {
        Scalar { raw: saturate_wide(divide(n as i128 * 65536, d as i128)) }
    }

    /// A value counted in units of `1 / unit()^2`, such as a product of two
    /// raw values or a sum of such products, as a scalar.
    pub fn from_wide(wide: i128) -> (r: Scalar)
        ensures
            r == Scalar::of_wide(wide as int),
    {
        let q: i128 = if wide >= 0 {
            wide / 65536
        } else if wide == i128::MIN {
            i32::MIN as i128
        } else {
            -((-wide) / 65536)
        };
        Scalar { raw: saturate_wide(q) }
    }

    /// The larger of two scalars.
    #[verifier::when_used_as_spec(larger)]
    pub fn max(self, other: Scalar) -> (r: Scalar)
        ensures
            r == self.larger(other),
    {
        if self.raw >= other.raw {
            self
        } else {
            other
        }
    }
}

impl core::ops::Add for Scalar {
    type Output = Scalar;

    fn add(self, rhs: Scalar) -> (sum: Scalar) {
        Scalar { raw: saturate_wide(self.raw as i128 + rhs.raw as i128) }
    }
}

impl vstd::std_specs::ops::AddSpecImpl for Scalar {
    open spec fn obeys_add_spec() -> bool {
        true
    }

    open spec fn add_req(self, rhs: Scalar) -> bool {
        true
    }

    open spec fn add_spec(self, rhs: Scalar) -> Scalar {
        self.plus(rhs)
    }
}

impl core::ops::Sub for Scalar {
    type Output = Scalar;

    fn sub(self, rhs: Scalar) -> (difference: Scalar) {
        Scalar { raw: saturate_wide(self.raw as i128 - rhs.raw as i128) }
    }
}

impl vstd::std_specs::ops::SubSpecImpl for Scalar {
    open spec fn obeys_sub_spec() -> bool {
        true
    }

    open spec fn sub_req(self, rhs: Scalar) -> bool {
        true
    }

    open spec fn sub_spec(self, rhs: Scalar) -> Scalar {
        self.minus(rhs)
    }
}

impl core::ops::Mul for Scalar {
    type Output = Scalar;

    fn mul(self, rhs: Scalar) -> (product: Scalar) {
        proof {
            assert(-0x4000_0000_0000_0000 <= self.raw * rhs.raw <= 0x4000_0000_0000_0000)
                by (nonlinear_arith)
                requires
                    -0x8000_0000 <= self.raw <= 0x7fff_ffff,
                    -0x8000_0000 <= rhs.raw <= 0x7fff_ffff,
            ;
        }
        Scalar::from_wide(self.raw as i128 * rhs.raw as i128)
    }
}

impl vstd::std_specs::ops::MulSpecImpl for Scalar {
    open spec fn obeys_mul_spec() -> bool {
        true
    }

    open spec fn mul_req(self, rhs: Scalar) -> bool {
        true
    }

    open spec fn mul_spec(self, rhs: Scalar) -> Scalar {
        self.times(rhs)
    }
}

impl core::ops::Div for Scalar {
    type Output = Scalar;

    fn div(self, rhs: Scalar) -> (ratio: Scalar) {
        Scalar { raw: saturate_wide(divide(self.raw as i128 * 65536, rhs.raw as i128)) }
    }
}

impl vstd::std_specs::ops::DivSpecImpl for Scalar {
    open spec fn obeys_div_spec() -> bool {
        true
    }

    open spec fn div_req(self, rhs: Scalar) -> bool {
        rhs@ != 0
    }

    open spec fn div_spec(self, rhs: Scalar) -> Scalar {
        self.over(rhs)
    }
}

impl core::ops::Neg for Scalar {
    type Output = Scalar;

    fn neg(self) -> (negated: Scalar) {
        Scalar { raw: saturate_wide(-(self.raw as i128)) }
    }
}

impl vstd::std_specs::ops::NegSpecImpl for Scalar {
    open spec fn obeys_neg_spec() -> bool {
        true
    }

    open spec fn neg_req(self) -> bool {
        true
    }

    open spec fn neg_spec(self) -> Scalar {
        self.negated()
    }
}

} // verus!
