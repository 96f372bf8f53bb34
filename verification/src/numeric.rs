use vstd::prelude::*;

verus! {

/// The capability interface a numeric representation must offer so that the
/// Newton-Raphson iteration can run over it: addition, subtraction,
/// multiplication, division, absolute value and ordering.
///
/// Each executable operation is tied to a specification-level counterpart, so
/// that code generic over `RealNum` can reason exactly about the values it
/// computes.  Every operation is total: a representation must settle edge
/// cases such as division by zero or range overflow itself (for example by
/// saturating), rather than panicking.
pub trait RealNum: Sized + Copy {
    /// The value `self + rhs` as the representation defines it.
    spec fn add_s(self, rhs: Self) -> Self;

    /// The value `self - rhs` as the representation defines it.
    spec fn sub_s(self, rhs: Self) -> Self;

    /// The value `self * rhs` as the representation defines it.
    spec fn mul_s(self, rhs: Self) -> Self;

    /// The value `self / rhs` as the representation defines it.
    spec fn div_s(self, rhs: Self) -> Self;

    /// The absolute value of `self` as the representation defines it.
    spec fn abs_s(self) -> Self;

    /// Whether `self` is at most `rhs` in the representation's order.
    spec fn le_s(self, rhs: Self) -> bool;

    /// Adds two numbers.
    fn add(self, rhs: Self) -> (r: Self)
        ensures
            r == self.add_s(rhs),
    ;

    /// Subtracts `rhs` from `self`.
    fn sub(self, rhs: Self) -> (r: Self)
        ensures
            r == self.sub_s(rhs),
    ;

    /// Multiplies two numbers.
    fn mul(self, rhs: Self) -> (r: Self)
        ensures
            r == self.mul_s(rhs),
    ;

    /// Divides `self` by `rhs`.
    fn div(self, rhs: Self) -> (r: Self)
        ensures
            r == self.div_s(rhs),
    ;

    /// The absolute value of `self`.
    fn abs(self) -> (r: Self)
        ensures
            r == self.abs_s(),
    ;

    /// Whether `self` is at most `rhs`.
    fn le(self, rhs: Self) -> (r: bool)
        ensures
            r == self.le_s(rhs),
    ;
}

} // verus!
