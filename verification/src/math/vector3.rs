//! Vectors of three fixed-point components.
use crate::math::root::{floor_sqrt, is_root, lemma_root_exists, lemma_root_zero, root};
use crate::math::scalar::{in_range, magnitude, quotient, saturate, unit, Scalar};
use core::ops::Neg;
use vstd::prelude::*;

verus! {

/// A vector, or a point, in three-dimensional space.
#[derive(PartialEq, Eq, Structural, Clone, Copy, Debug)]
pub struct Vector3 {
    pub x: Scalar,
    pub y: Scalar,
    pub z: Scalar,
}

/// The product of two raw values stays far inside the wide range.
pub proof fn lemma_product_bound(a: int, b: int)
    requires
        -0x8000_0000 <= a <= 0x7fff_ffff,
        -0x8000_0000 <= b <= 0x7fff_ffff,
    ensures
        -0x4000_0000_0000_0000 <= a * b <= 0x4000_0000_0000_0000,
{
    assert(-0x4000_0000_0000_0000 <= a * b <= 0x4000_0000_0000_0000) by (nonlinear_arith)
        requires
            -0x8000_0000 <= a <= 0x7fff_ffff,
            -0x8000_0000 <= b <= 0x7fff_ffff,
    ;
}

impl Vector3 {
    /// The dot product before rounding: the exact sum of the three products
    /// of raw values, in units of `1 / unit()^2`.
    pub open spec fn spec_exact_dot(self, other: Vector3) -> int {
        self.x@ * other.x@ + self.y@ * other.y@ + self.z@ * other.z@
    }

    /// The dot product: the exact sum of products, rounded toward zero and
    /// saturated once.
    pub open spec fn spec_dot(self, other: Vector3) -> Scalar {
        Scalar::of_wide(self.spec_exact_dot(other))
    }

    /// The squared length: the dot product of the vector with itself.
    pub open spec fn spec_length_squared(self) -> Scalar {
        self.spec_dot(self)
    }

    /// The length: the square root of the exact sum of squares, rounded
    /// down and saturated.
    pub open spec fn spec_length(self) -> Scalar {
        Scalar::of(root(self.spec_exact_dot(self)))
    }

    /// Each component divided by the length.
    pub open spec fn spec_normalize(self) -> Vector3 {
        let length = self.spec_length();
        Vector3 { x: self.x.over(length), y: self.y.over(length), z: self.z.over(length) }
    }

    /// Each component multiplied by `factor`.
    pub open spec fn scaled(self, factor: Scalar) -> Vector3 {
        Vector3 { x: self.x.times(factor), y: self.y.times(factor), z: self.z.times(factor) }
    }

    /// The component-wise sum.
    pub open spec fn plus(self, other: Vector3) -> Vector3 {
        Vector3 { x: self.x.plus(other.x), y: self.y.plus(other.y), z: self.z.plus(other.z) }
    }

    /// The component-wise difference.
    pub open spec fn minus(self, other: Vector3) -> Vector3 {
        Vector3 { x: self.x.minus(other.x), y: self.y.minus(other.y), z: self.z.minus(other.z) }
    }

    /// The opposite vector.
    pub open spec fn negated(self) -> Vector3 {
        Vector3 { x: self.x.negated(), y: self.y.negated(), z: self.z.negated() }
    }

    /// Whether every component is zero.
    pub open spec fn spec_is_zero(self) -> bool {
        self.x@ == 0 && self.y@ == 0 && self.z@ == 0
    }

    /// The vector with the given components.
    pub fn new(x: Scalar, y: Scalar, z: Scalar) -> (v: Vector3)
        ensures
            v == (Vector3 { x, y, z }),
    {
        Vector3 { x, y, z }
    }

    /// Whether every component is zero, which is to say that the length is.
    #[verifier::when_used_as_spec(spec_is_zero)]
    pub fn is_zero(self) -> (zero: bool)
        ensures
            zero == self.spec_is_zero(),
            zero == (self.spec_length()@ == 0),
    {
        proof {
            lemma_length_zero(self);
        }
        self.x.raw == 0 && self.y.raw == 0 && self.z.raw == 0
    }

    /// The dot product before rounding.
    pub fn exact_dot(self, other: Vector3) -> (wide: i128)
        ensures
            wide as int == self.spec_exact_dot(other),
            -0xc000_0000_0000_0000 <= wide <= 0xc000_0000_0000_0000,
    {
        proof {
            lemma_product_bound(self.x@, other.x@);
            lemma_product_bound(self.y@, other.y@);
            lemma_product_bound(self.z@, other.z@);
        }
        self.x.raw as i128 * other.x.raw as i128 + self.y.raw as i128 * other.y.raw as i128
            + self.z.raw as i128 * other.z.raw as i128
    }

    /// The dot product.
    #[verifier::when_used_as_spec(spec_dot)]
    pub fn dot(self, other: Vector3) -> (product: Scalar)
        ensures
            product == self.spec_dot(other),
    {
        Scalar::from_wide(self.exact_dot(other))
    }

    /// The squared length.
    #[verifier::when_used_as_spec(spec_length_squared)]
    pub fn length_squared(self) -> (squared: Scalar)
        ensures
            squared == self.spec_length_squared(),
    {
        self.dot(self)
    }

    /// The length.
    #[verifier::when_used_as_spec(spec_length)]
    pub fn length(self) -> (length: Scalar)
        ensures
            length == self.spec_length(),
    {
        let total = self.exact_dot(self);
        proof {
            lemma_squares_not_negative(self);
        }
        let rounded = floor_sqrt(total as u64);
        if rounded > 0x7fff_ffff {
            Scalar { raw: 0x7fff_ffff }
        } else {
            Scalar { raw: rounded as i32 }
        }
    }

    /// The vector of length one in the same direction, for a vector whose
    /// length is not zero.
    #[verifier::when_used_as_spec(spec_normalize)]
    pub fn normalize(self) -> (unit: Vector3)
        requires
            self.spec_length()@ != 0,
        ensures
            unit == self.spec_normalize(),
    {
        let length = self.length();
        Vector3 { x: self.x / length, y: self.y / length, z: self.z / length }
    }
}

/// The length of a vector is zero exactly when the vector is.
pub proof fn lemma_length_zero(v: Vector3)
    ensures
        v.spec_length()@ == 0 <==> v.spec_is_zero(),
{
    let total = v.spec_exact_dot(v);
    lemma_squares_not_negative(v);
    lemma_root_zero(total);
    assert(v.x@ * v.x@ >= 0) by (nonlinear_arith);
    assert(v.y@ * v.y@ >= 0) by (nonlinear_arith);
    assert(v.z@ * v.z@ >= 0) by (nonlinear_arith);
    assert(v.x@ * v.x@ == 0 <==> v.x@ == 0) by (nonlinear_arith);
    assert(v.y@ * v.y@ == 0 <==> v.y@ == 0) by (nonlinear_arith);
    assert(v.z@ * v.z@ == 0 <==> v.z@ == 0) by (nonlinear_arith);
}

/// A sum of squares is not negative.
pub proof fn lemma_squares_not_negative(v: Vector3)
    ensures
        v.spec_exact_dot(v) >= 0,
{
    assert(v.x@ * v.x@ >= 0) by (nonlinear_arith);
    assert(v.y@ * v.y@ >= 0) by (nonlinear_arith);
    assert(v.z@ * v.z@ >= 0) by (nonlinear_arith);
}

/// The dot product is symmetric.
pub proof fn lemma_dot_symmetric(a: Vector3, b: Vector3)
    ensures
        a.spec_exact_dot(b) == b.spec_exact_dot(a),
        a.spec_dot(b) == b.spec_dot(a),
{
    assert(a.x@ * b.x@ == b.x@ * a.x@) by (nonlinear_arith);
    assert(a.y@ * b.y@ == b.y@ * a.y@) by (nonlinear_arith);
    assert(a.z@ * b.z@ == b.z@ * a.z@) by (nonlinear_arith);
}

/// The dot product is additive in its first argument, and so, being
/// symmetric, in its second: where no component of `a + b` is cut off, the
/// exact dot product of the sum with `c` is the sum of the exact dot
/// products.
pub proof fn lemma_dot_additive(a: Vector3, b: Vector3, c: Vector3)
    requires
        in_range(a.x@ + b.x@),
        in_range(a.y@ + b.y@),
        in_range(a.z@ + b.z@),
    ensures
        a.plus(b).spec_exact_dot(c) == a.spec_exact_dot(c) + b.spec_exact_dot(c),
        c.spec_exact_dot(a.plus(b)) == c.spec_exact_dot(a) + c.spec_exact_dot(b),
{
    assert((a.x@ + b.x@) * c.x@ == a.x@ * c.x@ + b.x@ * c.x@) by (nonlinear_arith);
    assert((a.y@ + b.y@) * c.y@ == a.y@ * c.y@ + b.y@ * c.y@) by (nonlinear_arith);
    assert((a.z@ + b.z@) * c.z@ == a.z@ * c.z@ + b.z@ * c.z@) by (nonlinear_arith);
    lemma_dot_symmetric(c, a.plus(b));
    lemma_dot_symmetric(c, a);
    lemma_dot_symmetric(c, b);
}

/// As `dot` rounds it, the dot product is additive to within one raw unit:
/// where no component of `a + b` is cut off and none of the three dot
/// products saturates, `dot(a + b, c)` differs from `dot(a, c) + dot(b, c)`
/// by one unit of the last place at most.
pub proof fn lemma_dot_additive_rounded(a: Vector3, b: Vector3, c: Vector3)
    requires
        in_range(a.x@ + b.x@),
        in_range(a.y@ + b.y@),
        in_range(a.z@ + b.z@),
        in_range(quotient(a.spec_exact_dot(c), unit())),
        in_range(quotient(b.spec_exact_dot(c), unit())),
        in_range(quotient(a.plus(b).spec_exact_dot(c), unit())),
    ensures
        magnitude(a.plus(b).spec_dot(c)@ - (a.spec_dot(c)@ + b.spec_dot(c)@)) <= 1,
{
    lemma_dot_additive(a, b, c);
}

/// Whether `value * factor` is a scalar exactly: the product of the raw
/// values is a multiple of `unit()`, and the quotient is in range.
pub open spec fn product_is_exact(value: Scalar, factor: Scalar) -> bool {
    (value@ * factor@) % unit() == 0 && in_range((value@ * factor@) / unit())
}

/// The dot product is homogeneous in its first argument, and so, being
/// symmetric, in its second: where `a * factor` is exact in each
/// component, the exact dot product of `a * factor` with `c` is `factor`
/// times that of `a` with `c`. Both sides are written times `unit()`, which
/// `factor@` counts in.
pub proof fn lemma_dot_homogeneous(a: Vector3, factor: Scalar, c: Vector3)
    requires
        product_is_exact(a.x, factor),
        product_is_exact(a.y, factor),
        product_is_exact(a.z, factor),
    ensures
        a.scaled(factor).spec_exact_dot(c) * unit() == factor@ * a.spec_exact_dot(c),
        c.spec_exact_dot(a.scaled(factor)) * unit() == factor@ * c.spec_exact_dot(a),
{
    lemma_exact_product(a.x, factor);
    lemma_exact_product(a.y, factor);
    lemma_exact_product(a.z, factor);
    let k = factor@;
    let scaled = a.scaled(factor);
    lemma_scaled_term(scaled.x@, a.x@, k, c.x@);
    lemma_scaled_term(scaled.y@, a.y@, k, c.y@);
    lemma_scaled_term(scaled.z@, a.z@, k, c.z@);
    assert(k * (a.x@ * c.x@ + a.y@ * c.y@ + a.z@ * c.z@) == k * (a.x@ * c.x@) + k * (a.y@ * c.y@)
        + k * (a.z@ * c.z@)) by (nonlinear_arith);
    lemma_dot_symmetric(c, a.scaled(factor));
    lemma_dot_symmetric(c, a);
}

/// One term of a dot product whose first factor was scaled exactly.
proof fn lemma_scaled_term(scaled: int, value: int, factor: int, other: int)
    requires
        scaled * 65536 == value * factor,
    ensures
        (scaled * other) * 65536 == factor * (value * other),
{
    assert((scaled * other) * 65536 == factor * (value * other)) by (nonlinear_arith)
        requires
            scaled * 65536 == value * factor,
    ;
}

/// An exact product, times `unit()`, is the product of the raw values.
pub proof fn lemma_exact_product(value: Scalar, factor: Scalar)
    requires
        product_is_exact(value, factor),
    ensures
        value.times(factor)@ * unit() == value@ * factor@,
{
    let wide = value@ * factor@;
    if wide < 0 {
        assert((-wide) % 65536 == 0 && (-wide) / 65536 == -(wide / 65536)) by {
            assert(wide == 65536 * (wide / 65536) + wide % 65536);
        }
    }
}

/// No component of a normalized vector is larger in size than one.
pub proof fn lemma_normalize_bounded(v: Vector3)
    requires
        v.spec_length()@ != 0,
    ensures
        -unit() <= v.spec_normalize().x@ <= unit(),
        -unit() <= v.spec_normalize().y@ <= unit(),
        -unit() <= v.spec_normalize().z@ <= unit(),
{
    let total = v.spec_exact_dot(v);
    lemma_squares_not_negative(v);
    assert(v.x@ * v.x@ >= 0 && v.y@ * v.y@ >= 0 && v.z@ * v.z@ >= 0) by (nonlinear_arith);
    lemma_product_bound(v.x@, v.x@);
    lemma_product_bound(v.y@, v.y@);
    lemma_product_bound(v.z@, v.z@);
    assert(0x1_0000_0000int * 0x1_0000_0000int == 0x1_0000_0000_0000_0000int);
    lemma_root_exists(total, 0x1_0000_0000);
    lemma_component_ratio(v.x@, total, v.spec_length()@);
    lemma_component_ratio(v.y@, total, v.spec_length()@);
    lemma_component_ratio(v.z@, total, v.spec_length()@);
}

/// A component divided by the length of its vector is at most one in size.
proof fn lemma_component_ratio(component: int, total: int, length: int)
    requires
        in_range(component),
        component * component <= total,
        is_root(total, root(total)),
        length == saturate(root(total)),
        length != 0,
    ensures
        -unit() <= saturate(quotient(component * unit(), length)) <= unit(),
{
    let size = magnitude(component);
    let exact = root(total);
    assert(size * size == component * component) by (nonlinear_arith)
        requires
            size == component || size == -component,
    ;
    assert(size <= exact) by (nonlinear_arith)
        requires
            0 <= size,
            0 <= exact,
            size * size <= total,
            total < (exact + 1) * (exact + 1),
    ;
    if size <= length {
        assert((size * 65536) / length <= 65536) by (nonlinear_arith)
            requires
                0 <= size <= length,
                0 < length,
        ;
        assert(0 <= (size * 65536) / length) by (nonlinear_arith)
            requires
                0 <= size,
                0 < length,
        ;
    } else {
        assert(length == 2147483647 && size == 2147483648);
    }
}

/// The sum of the squares of three numbers.
pub open spec fn squares(x: int, y: int, z: int) -> int {
    x * x + y * y + z * z
}

/// Squares keep the order of numbers that are not negative.
proof fn lemma_square_order(x: int, y: int)
    requires
        0 <= x <= y,
    ensures
        x * x <= y * y,
        x < y ==> x * x < y * y,
{
    assert(x * x <= y * y) by (nonlinear_arith)
        requires
            0 <= x <= y,
    ;
    if x < y {
        assert(x * x < y * y) by (nonlinear_arith)
            requires
                0 <= x < y,
        ;
    }
}

/// The square of a product is the product of the squares.
proof fn lemma_square_of_product(x: int, y: int)
    ensures
        (x * y) * (x * y) == (x * x) * (y * y),
{
    assert((x * y) * (x * y) == (x * x) * (y * y)) by (nonlinear_arith);
}

/// What dividing one component by the length leaves: the size `part` of
/// the quotient, with `part * length <= whole * unit() < (part + 1) * length`,
/// as squares.
proof fn lemma_component_squares(component: int, length: int)
    requires
        in_range(component),
        0 < length <= 2147483647,
        magnitude(component) <= length,
    ensures
        ({
            let part = magnitude(saturate(quotient(component * unit(), length)));
            let whole = magnitude(component);
            &&& 0 <= part <= unit()
            &&& (part * part) * (length * length) <= (whole * whole) * 0x1_0000_0000
            &&& (whole * whole) * 0x1_0000_0000 < ((part + 1) * (part + 1)) * (length * length)
        }),
{
    let whole = magnitude(component);
    let part = (whole * 65536) / length;
    assert(0 <= part <= 65536 && part * length <= whole * 65536 < (part + 1) * length)
        by (nonlinear_arith)
        requires
            0 <= whole <= length,
            0 < length,
            part == (whole * 65536) / length,
    ;
    assert(part == magnitude(saturate(quotient(component * unit(), length))));
    lemma_square_order(part * length, whole * 65536);
    lemma_square_order(whole * 65536, (part + 1) * length);
    lemma_square_of_product(part, length);
    lemma_square_of_product(part + 1, length);
    lemma_square_of_product(whole, 65536);
}

/// From three bounded quotients to the sum of their squares.
proof fn lemma_normalized_squares(
    wholes: (int, int, int),
    parts: (int, int, int),
    length: int,
)
    requires
        65536 <= length,
        length * length <= squares(wholes.0, wholes.1, wholes.2) < (length + 1) * (length + 1),
        0 <= parts.0 && 0 <= parts.1 && 0 <= parts.2,
        (parts.0 * parts.0) * (length * length) <= (wholes.0 * wholes.0) * 0x1_0000_0000,
        (parts.1 * parts.1) * (length * length) <= (wholes.1 * wholes.1) * 0x1_0000_0000,
        (parts.2 * parts.2) * (length * length) <= (wholes.2 * wholes.2) * 0x1_0000_0000,
        (wholes.0 * wholes.0) * 0x1_0000_0000 < ((parts.0 + 1) * (parts.0 + 1)) * (length * length),
        (wholes.1 * wholes.1) * 0x1_0000_0000 < ((parts.1 + 1) * (parts.1 + 1)) * (length * length),
        (wholes.2 * wholes.2) * 0x1_0000_0000 < ((parts.2 + 1) * (parts.2 + 1)) * (length * length),
    ensures
        65534 * 65534 <= squares(parts.0, parts.1, parts.2) < 65537 * 65537,
{
    let area = length * length;
    let whole = squares(wholes.0, wholes.1, wholes.2);
    let part = squares(parts.0, parts.1, parts.2);
    let next = squares(parts.0 + 1, parts.1 + 1, parts.2 + 1);
    let sum = parts.0 + parts.1 + parts.2;
    assert(area > 0) by (nonlinear_arith)
        requires
            area == length * length,
            length >= 65536,
    ;
    // The upper bound.
    assert(part * area == (parts.0 * parts.0) * area + (parts.1 * parts.1) * area + (parts.2
        * parts.2) * area) by (nonlinear_arith)
        requires
            part == parts.0 * parts.0 + parts.1 * parts.1 + parts.2 * parts.2,
    ;
    assert(part * area <= whole * 0x1_0000_0000);
    assert((length + 1) * (length + 1) * 0x1_0000_0000 <= (65537 * 65537) * area)
        by (nonlinear_arith)
        requires
            area == length * length,
            length >= 65536,
    ;
    assert(part < 65537 * 65537) by (nonlinear_arith)
        requires
            part * area < (65537 * 65537) * area,
            area > 0,
    ;
    // The lower bound.
    assert(next * area == ((parts.0 + 1) * (parts.0 + 1)) * area + ((parts.1 + 1) * (parts.1 + 1))
        * area + ((parts.2 + 1) * (parts.2 + 1)) * area) by (nonlinear_arith)
        requires
            next == (parts.0 + 1) * (parts.0 + 1) + (parts.1 + 1) * (parts.1 + 1) + (parts.2 + 1)
                * (parts.2 + 1),
    ;
    assert(0x1_0000_0000 * area < next * area);
    assert(0x1_0000_0000 < next) by (nonlinear_arith)
        requires
            0x1_0000_0000 * area < next * area,
            area > 0,
    ;
    assert(next == part + 2 * sum + 3) by (nonlinear_arith)
        requires
            next == (parts.0 + 1) * (parts.0 + 1) + (parts.1 + 1) * (parts.1 + 1) + (parts.2 + 1)
                * (parts.2 + 1),
            part == parts.0 * parts.0 + parts.1 * parts.1 + parts.2 * parts.2,
            sum == parts.0 + parts.1 + parts.2,
    ;
    assert(sum * sum <= 3 * part) by (nonlinear_arith)
        requires
            part == parts.0 * parts.0 + parts.1 * parts.1 + parts.2 * parts.2,
            sum == parts.0 + parts.1 + parts.2,
    ;
    if part < 65534 * 65534 {
        assert(sum <= 113508) by (nonlinear_arith)
            requires
                0 <= sum,
                sum * sum <= 3 * (65534 * 65534),
        ;
    }
}

/// A normalized vector is about one long: for a vector at least one long,
/// and short of the longest that a scalar can hold, the length of the
/// normalized vector is at most one and falls short of one by two raw
/// units at most.
pub proof fn lemma_normalize_length(v: Vector3)
    requires
        unit() <= v.spec_length()@ < 2147483647,
    ensures
        unit() - 2 <= v.spec_normalize().spec_length()@ <= unit(),
{
    let total = v.spec_exact_dot(v);
    let length = v.spec_length()@;
    lemma_squares_not_negative(v);
    assert(v.x@ * v.x@ >= 0 && v.y@ * v.y@ >= 0 && v.z@ * v.z@ >= 0) by (nonlinear_arith);
    lemma_product_bound(v.x@, v.x@);
    lemma_product_bound(v.y@, v.y@);
    lemma_product_bound(v.z@, v.z@);
    assert(0x1_0000_0000int * 0x1_0000_0000int == 0x1_0000_0000_0000_0000int);
    lemma_root_exists(total, 0x1_0000_0000);
    assert(length == root(total));
    lemma_size_below_root(v.x@, total);
    lemma_size_below_root(v.y@, total);
    lemma_size_below_root(v.z@, total);
    lemma_component_squares(v.x@, length);
    lemma_component_squares(v.y@, length);
    lemma_component_squares(v.z@, length);
    let unit_vector = v.spec_normalize();
    let parts = (magnitude(unit_vector.x@), magnitude(unit_vector.y@), magnitude(unit_vector.z@));
    let wholes = (magnitude(v.x@), magnitude(v.y@), magnitude(v.z@));
    lemma_square_of_size(v.x@);
    lemma_square_of_size(v.y@);
    lemma_square_of_size(v.z@);
    lemma_square_of_size(unit_vector.x@);
    lemma_square_of_size(unit_vector.y@);
    lemma_square_of_size(unit_vector.z@);
    lemma_normalized_squares(wholes, parts, length);
    let shrunk = unit_vector.spec_exact_dot(unit_vector);
    assert(shrunk == squares(parts.0, parts.1, parts.2));
    assert(65537int * 65537int <= 0x1_0000_0000int * 0x1_0000_0000int);
    lemma_root_exists(shrunk, 0x1_0000_0000);
    let rounded = root(shrunk);
    if rounded <= 65533 {
        lemma_square_order(rounded + 1, 65534);
    }
    if rounded >= 65537 {
        lemma_square_order(65537, rounded);
    }
}

/// The size of a number squares to what the number does.
proof fn lemma_square_of_size(x: int)
    ensures
        magnitude(x) * magnitude(x) == x * x,
{
    assert(magnitude(x) * magnitude(x) == x * x) by (nonlinear_arith)
        requires
            magnitude(x) == x || magnitude(x) == -x,
    ;
}

/// A number whose square is at most `total` is at most the root of
/// `total` in size.
proof fn lemma_size_below_root(x: int, total: int)
    requires
        x * x <= total,
        is_root(total, root(total)),
    ensures
        magnitude(x) <= root(total),
{
    lemma_square_of_size(x);
    if magnitude(x) > root(total) {
        lemma_square_order(root(total) + 1, magnitude(x));
    }
}

/// Normalizing a vector of length one gives the vector back.
pub proof fn lemma_normalize_unit(v: Vector3)
    requires
        v.spec_length()@ == unit(),
    ensures
        v.spec_normalize() == v,
{
}

impl core::ops::Mul<Vector3> for Scalar {
    type Output = Vector3;

    fn mul(self, vector: Vector3) -> (scaled: Vector3) {
        Vector3 { x: vector.x * self, y: vector.y * self, z: vector.z * self }
    }
}

impl vstd::std_specs::ops::MulSpecImpl<Vector3> for Scalar {
    open spec fn obeys_mul_spec() -> bool {
        true
    }

    open spec fn mul_req(self, vector: Vector3) -> bool {
        true
    }

    open spec fn mul_spec(self, vector: Vector3) -> Vector3 {
        vector.scaled(self)
    }
}

impl core::ops::Mul<Scalar> for Vector3 {
    type Output = Vector3;

    fn mul(self, factor: Scalar) -> (scaled: Vector3) {
        Vector3 { x: self.x * factor, y: self.y * factor, z: self.z * factor }
    }
}

impl vstd::std_specs::ops::MulSpecImpl<Scalar> for Vector3 {
    open spec fn obeys_mul_spec() -> bool {
        true
    }

    open spec fn mul_req(self, factor: Scalar) -> bool {
        true
    }

    open spec fn mul_spec(self, factor: Scalar) -> Vector3 {
        self.scaled(factor)
    }
}

impl core::ops::Add for Vector3 {
    type Output = Vector3;

    fn add(self, other: Vector3) -> (sum: Vector3) {
        Vector3 { x: self.x + other.x, y: self.y + other.y, z: self.z + other.z }
    }
}

impl vstd::std_specs::ops::AddSpecImpl for Vector3 {
    open spec fn obeys_add_spec() -> bool {
        true
    }

    open spec fn add_req(self, other: Vector3) -> bool {
        true
    }

    open spec fn add_spec(self, other: Vector3) -> Vector3 {
        self.plus(other)
    }
}

impl core::ops::Sub for Vector3 {
    type Output = Vector3;

    fn sub(self, other: Vector3) -> (difference: Vector3) {
        Vector3 { x: self.x - other.x, y: self.y - other.y, z: self.z - other.z }
    }
}

impl vstd::std_specs::ops::SubSpecImpl for Vector3 {
    open spec fn obeys_sub_spec() -> bool {
        true
    }

    open spec fn sub_req(self, other: Vector3) -> bool {
        true
    }

    open spec fn sub_spec(self, other: Vector3) -> Vector3 {
        self.minus(other)
    }
}

impl core::ops::Neg for Vector3 {
    type Output = Vector3;

    fn neg(self) -> (opposite: Vector3) {
        Vector3 { x: self.x.neg(), y: self.y.neg(), z: self.z.neg() }
    }
}

impl vstd::std_specs::ops::NegSpecImpl for Vector3 {
    open spec fn obeys_neg_spec() -> bool {
        true
    }

    open spec fn neg_req(self) -> bool {
        true
    }

    open spec fn neg_spec(self) -> Vector3 {
        self.negated()
    }
}

} // verus!
