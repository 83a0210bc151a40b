//! Points of space with rational coordinates.

use vstd::prelude::*;
use crate::arith::lemma_product_within;

verus! {

/// A point of rational space: `(x / den, y / den, z / den)`.
///
/// This is the mathematical value of a [`Vector3`]; its fields are unbounded.
pub struct Rational3 {
    pub x: int,
    pub y: int,
    pub z: int,
    pub den: int,
}

impl Rational3 {
    /// The denominator is positive.
    pub open spec fn wf(self) -> bool {
        self.den > 0
    }

    /// Both stand for the same point of space: the coordinates agree once they
    /// are brought over a common denominator.
    pub open spec fn same_point(self, other: Rational3) -> bool {
        &&& self.x * other.den == other.x * self.den
        &&& self.y * other.den == other.y * self.den
        &&& self.z * other.den == other.z * self.den
    }

    /// The sum of two vectors that share a denominator.
    pub open spec fn plus(self, other: Rational3) -> Rational3 {
        Rational3 { x: self.x + other.x, y: self.y + other.y, z: self.z + other.z, den: self.den }
    }

    /// The sum of any two vectors, over the product of their denominators.
    pub open spec fn added(self, other: Rational3) -> Rational3 {
        self.scaled(other.den, other.den).plus(other.scaled(self.den, self.den))
    }

    /// The vector multiplied by the rational scalar `num / den`.
    pub open spec fn scaled(self, num: int, den: int) -> Rational3 {
        Rational3 { x: num * self.x, y: num * self.y, z: num * self.z, den: den * self.den }
    }

    /// The dot product of the numerators: the dot product of the two vectors,
    /// times both denominators.
    pub open spec fn dot(self, other: Rational3) -> int {
        self.x * other.x + self.y * other.y + self.z * other.z
    }

    /// The vector from `self` to `other`, over the product of the two
    /// denominators.
    pub open spec fn to(self, other: Rational3) -> Rational3 {
        Rational3 {
            x: other.x * self.den - self.x * other.den,
            y: other.y * self.den - self.y * other.den,
            z: other.z * self.den - self.z * other.den,
            den: self.den * other.den,
        }
    }

    /// Every field lies within `limit` of zero.
    pub open spec fn within(self, limit: int) -> bool {
        &&& -limit <= self.x <= limit
        &&& -limit <= self.y <= limit
        &&& -limit <= self.z <= limit
        &&& -limit <= self.den <= limit
    }

    /// Every field can be held in an `i64`.
    pub open spec fn fits(self) -> bool {
        &&& i64::MIN <= self.x <= i64::MAX
        &&& i64::MIN <= self.y <= i64::MAX
        &&& i64::MIN <= self.z <= i64::MAX
        &&& i64::MIN <= self.den <= i64::MAX
    }
}

/// A vector or a position with rational coordinates
/// `(x / den, y / den, z / den)`.
///
/// Two values are equal when their fields are;
/// [`same_point`](Vector3::same_point) tells whether they stand for the same
/// point.
#[derive(Clone, Copy, Debug, PartialEq, Eq, Structural)]
pub struct Vector3 {
    pub x: i64,
    pub y: i64,
    pub z: i64,
    pub den: i64,
}

impl View for Vector3 {
    type V = Rational3;

    open spec fn view(&self) -> Rational3 {
        Rational3 { x: self.x as int, y: self.y as int, z: self.z as int, den: self.den as int }
    }
}

impl Vector3 {
    /// The denominator is positive.
    pub open spec fn wf(self) -> bool {
        self.den > 0
    }

    /// Whether the denominator is positive.
    pub fn is_wf(&self) -> (ok: bool)
        ensures
            ok == self.wf(),
    {
        self.den > 0
    }

    /// Whether both stand for the same point of space.
    pub fn same_point(&self, other: &Vector3) -> (same: bool)
        ensures
            same == self@.same_point(other@),
    {
        proof {
            // The products of two `i64` fit in an `i128`.
            lemma_product_within(
                self.x as int,
                other.den as int,
                0x8000_0000_0000_0000,
                0x8000_0000_0000_0000,
            );
            lemma_product_within(
                self.y as int,
                other.den as int,
                0x8000_0000_0000_0000,
                0x8000_0000_0000_0000,
            );
            lemma_product_within(
                self.z as int,
                other.den as int,
                0x8000_0000_0000_0000,
                0x8000_0000_0000_0000,
            );
            lemma_product_within(
                other.x as int,
                self.den as int,
                0x8000_0000_0000_0000,
                0x8000_0000_0000_0000,
            );
            lemma_product_within(
                other.y as int,
                self.den as int,
                0x8000_0000_0000_0000,
                0x8000_0000_0000_0000,
            );
            lemma_product_within(
                other.z as int,
                self.den as int,
                0x8000_0000_0000_0000,
                0x8000_0000_0000_0000,
            );
        }
        let d: i128 = self.den as i128;
        let e: i128 = other.den as i128;
        (self.x as i128) * e == (other.x as i128) * d && (self.y as i128) * e == (other.y as i128)
            * d && (self.z as i128) * e == (other.z as i128) * d
    }

    /// The vector with the whole coordinates `(x, y, z)`.
    pub fn new(x: i64, y: i64, z: i64) -> (v: Vector3)
        ensures
            v == (Vector3 { x, y, z, den: 1 }),
            v.wf(),
    {
        Vector3 { x, y, z, den: 1 }
    }
}

} // verus!
