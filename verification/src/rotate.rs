//! Turning a vector about the three axes, in the order Y, X, Z.

use vstd::prelude::*;
use crate::angle::{Angle, Turn};
use crate::arith::{lemma_product_positive, lemma_product_within};
use crate::vector::{Rational3, Vector3};

verus! {

/// `v` turned about the Y axis: `x' = x·cos − z·sin`, `z' = x·sin + z·cos`,
/// `y` unchanged. All coordinates stand over the denominator `v.den · a.den`.
pub open spec fn turned_about_y(v: Rational3, a: Turn) -> Rational3 {
    Rational3 {
        x: v.x * a.cos - v.z * a.sin,
        y: v.y * a.den,
        z: v.x * a.sin + v.z * a.cos,
        den: v.den * a.den,
    }
}

/// `v` turned about the X axis: `y' = y·cos − z·sin`, `z' = y·sin + z·cos`,
/// `x` unchanged.
pub open spec fn turned_about_x(v: Rational3, a: Turn) -> Rational3 {
    Rational3 {
        x: v.x * a.den,
        y: v.y * a.cos - v.z * a.sin,
        z: v.y * a.sin + v.z * a.cos,
        den: v.den * a.den,
    }
}

/// `v` turned about the Z axis: `x' = x·cos − y·sin`, `y' = x·sin + y·cos`,
/// `z` unchanged.
pub open spec fn turned_about_z(v: Rational3, a: Turn) -> Rational3 {
    Rational3 {
        x: v.x * a.cos - v.y * a.sin,
        y: v.x * a.sin + v.y * a.cos,
        z: v.z * a.den,
        den: v.den * a.den,
    }
}

/// `v` turned about Y by `angle_y`, then about X by `angle_x`, then about Z by
/// `angle_z`, each turn taking what the one before gave.
pub open spec fn rotated(v: Rational3, angle_x: Turn, angle_y: Turn, angle_z: Turn) -> Rational3 {
    turned_about_z(turned_about_x(turned_about_y(v, angle_y), angle_x), angle_z)
}

/// `v` can be rotated by the three angles: the vector and the angles are
/// well formed, and the rotated vector fits.
pub open spec fn can_be_rotated(
    v: Rational3,
    angle_x: Turn,
    angle_y: Turn,
    angle_z: Turn,
) -> bool {
    &&& v.wf() && angle_x.wf() && angle_y.wf() && angle_z.wf()
    &&& rotated(v, angle_x, angle_y, angle_z).fits()
}

/// The products that one turn forms lie within `limit · span`, where the
/// fields of `v` lie within `limit` and those of `a` within `span`.
pub(crate) proof fn lemma_turn_products(v: Rational3, a: Turn, limit: int, span: int)
    requires
        v.within(limit),
        a.within(span),
    ensures
        -(limit * span) <= v.x * a.cos <= limit * span,
        -(limit * span) <= v.x * a.sin <= limit * span,
        -(limit * span) <= v.x * a.den <= limit * span,
        -(limit * span) <= v.y * a.cos <= limit * span,
        -(limit * span) <= v.y * a.sin <= limit * span,
        -(limit * span) <= v.y * a.den <= limit * span,
        -(limit * span) <= v.z * a.cos <= limit * span,
        -(limit * span) <= v.z * a.sin <= limit * span,
        -(limit * span) <= v.z * a.den <= limit * span,
        -(limit * span) <= v.den * a.den <= limit * span,
{
    lemma_product_within(v.x, a.cos, limit, span);
    lemma_product_within(v.x, a.sin, limit, span);
    lemma_product_within(v.x, a.den, limit, span);
    lemma_product_within(v.y, a.cos, limit, span);
    lemma_product_within(v.y, a.sin, limit, span);
    lemma_product_within(v.y, a.den, limit, span);
    lemma_product_within(v.z, a.cos, limit, span);
    lemma_product_within(v.z, a.sin, limit, span);
    lemma_product_within(v.z, a.den, limit, span);
    lemma_product_within(v.den, a.den, limit, span);
}

/// The four fields of the rotated vector, in 128 bits, which always hold them.
fn rotate_wide(v: Vector3, angle_x: Angle, angle_y: Angle, angle_z: Angle) -> (r: (
    i128,
    i128,
    i128,
    i128,
))
    ensures
        r.0 == rotated(v@, angle_x@, angle_y@, angle_z@).x,
        r.1 == rotated(v@, angle_x@, angle_y@, angle_z@).y,
        r.2 == rotated(v@, angle_x@, angle_y@, angle_z@).z,
        r.3 == rotated(v@, angle_x@, angle_y@, angle_z@).den,
{
    let ghost v1 = turned_about_y(v@, angle_y@);
    let ghost v2 = turned_about_x(v1, angle_x@);
    proof {
        // An `i64` lies within 2^63 and an `i16` within 2^15: a turn adds 16 bits.
        lemma_turn_products(v@, angle_y@, 0x8000_0000_0000_0000, 0x8000);
        lemma_turn_products(v1, angle_x@, 0x8000_0000_0000_0000_0000, 0x8000);
        lemma_turn_products(v2, angle_z@, 0x8000_0000_0000_0000_0000_0000, 0x8000);
    }
    let x: i128 = v.x as i128;
    let y: i128 = v.y as i128;
    let z: i128 = v.z as i128;
    let w: i128 = v.den as i128;

    let cy: i128 = angle_y.cos as i128;
    let sy: i128 = angle_y.sin as i128;
    let dy: i128 = angle_y.den as i128;
    let x1: i128 = x * cy - z * sy;
    let y1: i128 = y * dy;
    let z1: i128 = x * sy + z * cy;
    let w1: i128 = w * dy;

    let cx: i128 = angle_x.cos as i128;
    let sx: i128 = angle_x.sin as i128;
    let dx: i128 = angle_x.den as i128;
    let x2: i128 = x1 * dx;
    let y2: i128 = y1 * cx - z1 * sx;
    let z2: i128 = y1 * sx + z1 * cx;
    let w2: i128 = w1 * dx;

    let cz: i128 = angle_z.cos as i128;
    let sz: i128 = angle_z.sin as i128;
    let dz: i128 = angle_z.den as i128;
    let x3: i128 = x2 * cz - y2 * sz;
    let y3: i128 = x2 * sz + y2 * cz;
    let z3: i128 = z2 * dz;
    let w3: i128 = w2 * dz;
    (x3, y3, z3, w3)
}

/// Rotates `v` about the Y axis by `angle_y`, then about the X axis by
/// `angle_x`, then about the Z axis by `angle_z`.
///
/// The result is exact. Its denominator is that of `v` times those of the
/// three angles, so it may not fit: [`checked_rotate_vector`] tells.
pub fn rotate_vector(v: Vector3, angle_x: Angle, angle_y: Angle, angle_z: Angle) -> (r: Vector3)
    requires
        can_be_rotated(v@, angle_x@, angle_y@, angle_z@),
    ensures
        r@ == rotated(v@, angle_x@, angle_y@, angle_z@),
        r.wf(),
{
    let wide = rotate_wide(v, angle_x, angle_y, angle_z);
    proof {
        lemma_rotated_wf(v@, angle_x@, angle_y@, angle_z@);
    }
    Vector3 { x: wide.0 as i64, y: wide.1 as i64, z: wide.2 as i64, den: wide.3 as i64 }
}

/// Rotates `v` as [`rotate_vector`] does where it can be rotated, and gives
/// nothing where it cannot.
pub fn checked_rotate_vector(
    v: Vector3,
    angle_x: Angle,
    angle_y: Angle,
    angle_z: Angle,
) -> (r: Option<Vector3>)
    ensures
        match r {
            Some(turned) => {
                &&& can_be_rotated(v@, angle_x@, angle_y@, angle_z@)
                &&& turned@ == rotated(v@, angle_x@, angle_y@, angle_z@)
                &&& turned.wf()
            },
            None => !can_be_rotated(v@, angle_x@, angle_y@, angle_z@),
        },
{
    if !(v.is_wf() && angle_x.is_wf() && angle_y.is_wf() && angle_z.is_wf()) {
        return None;
    }
    let wide = rotate_wide(v, angle_x, angle_y, angle_z);
    let low: i128 = i64::MIN as i128;
    let high: i128 = i64::MAX as i128;
    if low <= wide.0 && wide.0 <= high && low <= wide.1 && wide.1 <= high && low <= wide.2
        && wide.2 <= high && low <= wide.3 && wide.3 <= high {
        proof {
            lemma_rotated_wf(v@, angle_x@, angle_y@, angle_z@);
        }
        Some(Vector3 { x: wide.0 as i64, y: wide.1 as i64, z: wide.2 as i64, den: wide.3 as i64 })
    } else {
        None
    }
}

/// A rotated vector has a positive denominator.
pub proof fn lemma_rotated_wf(v: Rational3, angle_x: Turn, angle_y: Turn, angle_z: Turn)
    requires
        v.wf(),
        angle_x.wf(),
        angle_y.wf(),
        angle_z.wf(),
    ensures
        rotated(v, angle_x, angle_y, angle_z).wf(),
{
    lemma_product_positive(v.den, angle_y.den);
    lemma_product_positive(v.den * angle_y.den, angle_x.den);
    lemma_product_positive(v.den * angle_y.den * angle_x.den, angle_z.den);
}

} // verus!
