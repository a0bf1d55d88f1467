//! Linear RGB radiance, not limited to the displayable range.
use crate::math::scalar::{unit, Scalar, ONE_RAW};
use vstd::prelude::*;

verus! {

/// Raw value of the weight, one hundredth, with which an ambient colour
/// pulls a colour toward itself.
pub const AMBIENT_WEIGHT_RAW: i32 = 655;

/// A colour as three unclamped linear components.
#[derive(Debug, Copy, Clone, PartialEq, Eq, Structural)]
pub struct Color {
    pub r: Scalar,
    pub g: Scalar,
    pub b: Scalar,
}

impl Color {
    /// This colour with `target * amount` added to it, component by
    /// component.
    pub open spec fn accumulated(self, target: Color, amount: Scalar) -> Color {
        Color {
            r: self.r.plus(target.r.times(amount)),
            g: self.g.plus(target.g.times(amount)),
            b: self.b.plus(target.b.times(amount)),
        }
    }

    /// This colour moved toward `target` by the fraction `amount` of the
    /// way: `self + (target - self) * amount`, component by component.
    pub open spec fn moved_towards(self, target: Color, amount: Scalar) -> Color {
        Color {
            r: self.r.plus(target.r.minus(self.r).times(amount)),
            g: self.g.plus(target.g.minus(self.g).times(amount)),
            b: self.b.plus(target.b.minus(self.b).times(amount)),
        }
    }

    /// The larger of the two colours in each component.
    pub open spec fn lightest(self, other: Color) -> Color {
        Color {
            r: self.r.larger(other.r),
            g: self.g.larger(other.g),
            b: self.b.larger(other.b),
        }
    }

    /// The product of the two colours in each component.
    pub open spec fn filtered(self, other: Color) -> Color {
        Color {
            r: self.r.times(other.r),
            g: self.g.times(other.g),
            b: self.b.times(other.b),
        }
    }

    /// Each component multiplied by `factor`.
    pub open spec fn scaled(self, factor: Scalar) -> Color {
        Color { r: self.r.times(factor), g: self.g.times(factor), b: self.b.times(factor) }
    }

    /// The colour with no light in it.
    pub open spec fn spec_black() -> Color {
        Color { r: Scalar { raw: 0 }, g: Scalar { raw: 0 }, b: Scalar { raw: 0 } }
    }

    /// The colour with one whole of each component.
    pub open spec fn spec_white() -> Color {
        Color { r: Scalar { raw: ONE_RAW }, g: Scalar { raw: ONE_RAW }, b: Scalar { raw: ONE_RAW } }
    }

    /// The colour with the given components.
    pub fn new(r: Scalar, g: Scalar, b: Scalar) -> (color: Color)
        ensures
            color == (Color { r, g, b }),
    {
        Color { r, g, b }
    }

    /// Pure red: one whole of red and nothing else.
    pub fn red() -> (color: Color)
        ensures
            color == (Color { r: Scalar { raw: ONE_RAW }, g: Scalar { raw: 0 }, b: Scalar { raw: 0 } }),
    {
        Color::new(Scalar::one(), Scalar::zero(), Scalar::zero())
    }

    /// Pure green.
    pub fn green() -> (color: Color)
        ensures
            color == (Color { r: Scalar { raw: 0 }, g: Scalar { raw: ONE_RAW }, b: Scalar { raw: 0 } }),
    {
        Color::new(Scalar::zero(), Scalar::one(), Scalar::zero())
    }

    /// Pure blue.
    pub fn blue() -> (color: Color)
        ensures
            color == (Color { r: Scalar { raw: 0 }, g: Scalar { raw: 0 }, b: Scalar { raw: ONE_RAW } }),
    {
        Color::new(Scalar::zero(), Scalar::zero(), Scalar::one())
    }

    /// The colour with no light in it.
    #[verifier::when_used_as_spec(spec_black)]
    pub fn black() -> (color: Color)
        ensures
            color == Color::spec_black(),
    {
        Color::new(Scalar::zero(), Scalar::zero(), Scalar::zero())
    }

    /// The colour with one whole of each component.
    #[verifier::when_used_as_spec(spec_white)]
    pub fn white() -> (color: Color)
        ensures
            color == Color::spec_white(),
    {
        Color::new(Scalar::one(), Scalar::one(), Scalar::one())
    }

    /// Adds `target * amount` to this colour: the contribution of one light,
    /// weighted by its shading term.
    pub fn add(&mut self, target: Color, amount: Scalar)
        ensures
            *final(self) == old(self).accumulated(target, amount),
    {
        self.r = self.r + target.r * amount;
        self.g = self.g + target.g * amount;
        self.b = self.b + target.b * amount;
    }

    /// Moves this colour toward `target` by the fraction `amount` of the
    /// difference.
    pub fn change_towards(&mut self, target: Color, amount: Scalar)
        ensures
            *final(self) == old(self).moved_towards(target, amount),
    {
        self.r = self.r + (target.r - self.r) * amount;
        self.g = self.g + (target.g - self.g) * amount;
        self.b = self.b + (target.b - self.b) * amount;
    }

    /// Moves this colour one hundredth of the way toward `ambient`.
    pub fn add_ambient(&mut self, ambient: Color)
        ensures
            *final(self) == old(self).moved_towards(ambient, Scalar { raw: AMBIENT_WEIGHT_RAW }),
    {
        self.change_towards(ambient, Scalar { raw: AMBIENT_WEIGHT_RAW });
    }

    /// Moves this colour toward `color` by `strength`, a fraction between
    /// zero and one.
    pub fn add_directional(&mut self, color: Color, strength: Scalar)
        requires
            0 <= strength@ <= unit(),
        ensures
            *final(self) == old(self).moved_towards(color, strength),
    {
        self.change_towards(color, strength);
    }
}

impl core::ops::Add for Color {
    type Output = Color;

    fn add(self, other: Color) -> (lightest: Color) {
        Color { r: self.r.max(other.r), g: self.g.max(other.g), b: self.b.max(other.b) }
    }
}

impl vstd::std_specs::ops::AddSpecImpl for Color {
    open spec fn obeys_add_spec() -> bool {
        true
    }

    open spec fn add_req(self, other: Color) -> bool {
        true
    }

    open spec fn add_spec(self, other: Color) -> Color {
        self.lightest(other)
    }
}

impl core::ops::Mul for Color {
    type Output = Color;

    fn mul(self, other: Color) -> (filtered: Color) {
        Color { r: self.r * other.r, g: self.g * other.g, b: self.b * other.b }
    }
}

impl vstd::std_specs::ops::MulSpecImpl for Color {
    open spec fn obeys_mul_spec() -> bool {
        true
    }

    open spec fn mul_req(self, other: Color) -> bool {
        true
    }

    open spec fn mul_spec(self, other: Color) -> Color {
        self.filtered(other)
    }
}

impl core::ops::Mul<Scalar> for Color {
    type Output = Color;

    fn mul(self, factor: Scalar) -> (scaled: Color) {
        Color { r: self.r * factor, g: self.g * factor, b: self.b * factor }
    }
}

impl vstd::std_specs::ops::MulSpecImpl<Scalar> for Color {
    open spec fn obeys_mul_spec() -> bool {
        true
    }

    open spec fn mul_req(self, factor: Scalar) -> bool {
        true
    }

    open spec fn mul_spec(self, factor: Scalar) -> Color {
        self.scaled(factor)
    }
}

} // verus!
