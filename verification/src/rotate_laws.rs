//! What holds of every rotation: the angle zero turns nothing, the rotation
//! is linear in the vector for fixed angles, it does not depend on how a
//! point is written, and it grows a vector by no more than the angles allow.

use vstd::prelude::*;
use crate::angle::Turn;
use crate::arith::{
    lemma_cross_equal, lemma_product_of_three, lemma_scaled_difference, lemma_scaled_times,
    lemma_sum_times,
};
use crate::rotate::{
    lemma_turn_products, rotated, turned_about_x, turned_about_y, turned_about_z,
};
use crate::vector::Rational3;

verus! {

/// A turn by the angle zero multiplies every field by the angle's
/// denominator, so the point stays where it is.
pub proof fn lemma_turn_by_zero(v: Rational3, a: Turn)
    requires
        a.is_zero(),
    ensures
        turned_about_y(v, a) == v.scaled(a.den, a.den),
        turned_about_x(v, a) == v.scaled(a.den, a.den),
        turned_about_z(v, a) == v.scaled(a.den, a.den),
{
    assert(v.x * a.den == a.den * v.x && v.y * a.den == a.den * v.y && v.z * a.den == a.den * v.z
        && v.den * a.den == a.den * v.den) by (nonlinear_arith);
    assert(v.x * 0 == 0 && v.y * 0 == 0 && v.z * 0 == 0);
}

/// Multiplying all four fields by the same number leaves the point where it
/// is.
pub proof fn lemma_scaled_same_point(v: Rational3, k: int)
    ensures
        v.scaled(k, k).same_point(v),
        k == 1 ==> v.scaled(k, k) == v,
{
    assert((k * v.x) * v.den == v.x * (k * v.den)) by (nonlinear_arith);
    assert((k * v.y) * v.den == v.y * (k * v.den)) by (nonlinear_arith);
    assert((k * v.z) * v.den == v.z * (k * v.den)) by (nonlinear_arith);
}

/// Rotating by the angle zero about all three axes is the identity: the
/// result stands for the same point as `v`, and is `v` itself where the three
/// denominators are 1.
pub proof fn lemma_rotate_by_zero(v: Rational3, angle_x: Turn, angle_y: Turn, angle_z: Turn)
    requires
        angle_x.is_zero(),
        angle_y.is_zero(),
        angle_z.is_zero(),
    ensures
        rotated(v, angle_x, angle_y, angle_z).same_point(v),
        angle_x.den == 1 && angle_y.den == 1 && angle_z.den == 1 ==> rotated(
            v,
            angle_x,
            angle_y,
            angle_z,
        ) == v,
{
    let k = angle_y.den * angle_x.den * angle_z.den;
    let v1 = turned_about_y(v, angle_y);
    let v2 = turned_about_x(v1, angle_x);
    lemma_turn_by_zero(v, angle_y);
    lemma_turn_by_zero(v1, angle_x);
    lemma_turn_by_zero(v2, angle_z);
    lemma_product_of_three(angle_y.den, angle_x.den, angle_z.den, v.x);
    lemma_product_of_three(angle_y.den, angle_x.den, angle_z.den, v.y);
    lemma_product_of_three(angle_y.den, angle_x.den, angle_z.den, v.z);
    lemma_product_of_three(angle_y.den, angle_x.den, angle_z.den, v.den);
    assert(rotated(v, angle_x, angle_y, angle_z) == v.scaled(k, k));
    lemma_scaled_same_point(v, k);
}

/// Each turn adds: the turn of a sum of two vectors over one denominator is
/// the sum of their turns.
pub proof fn lemma_turn_adds(u: Rational3, v: Rational3, a: Turn)
    requires
        u.den == v.den,
    ensures
        turned_about_y(u.plus(v), a) == turned_about_y(u, a).plus(turned_about_y(v, a)),
        turned_about_x(u.plus(v), a) == turned_about_x(u, a).plus(turned_about_x(v, a)),
        turned_about_z(u.plus(v), a) == turned_about_z(u, a).plus(turned_about_z(v, a)),
        turned_about_y(u, a).den == turned_about_y(v, a).den,
        turned_about_x(u, a).den == turned_about_x(v, a).den,
        turned_about_z(u, a).den == turned_about_z(v, a).den,
{
    lemma_sum_times(u.x, v.x, a.cos);
    lemma_sum_times(u.x, v.x, a.sin);
    lemma_sum_times(u.x, v.x, a.den);
    lemma_sum_times(u.y, v.y, a.cos);
    lemma_sum_times(u.y, v.y, a.sin);
    lemma_sum_times(u.y, v.y, a.den);
    lemma_sum_times(u.z, v.z, a.cos);
    lemma_sum_times(u.z, v.z, a.sin);
    lemma_sum_times(u.z, v.z, a.den);
}

/// Each turn scales: the turn of `num / den` times a vector is `num / den`
/// times its turn.
pub proof fn lemma_turn_scales(v: Rational3, num: int, den: int, a: Turn)
    ensures
        turned_about_y(v.scaled(num, den), a) == turned_about_y(v, a).scaled(num, den),
        turned_about_x(v.scaled(num, den), a) == turned_about_x(v, a).scaled(num, den),
        turned_about_z(v.scaled(num, den), a) == turned_about_z(v, a).scaled(num, den),
{
    lemma_scaled_times(num, v.x, a.cos);
    lemma_scaled_times(num, v.x, a.sin);
    lemma_scaled_times(num, v.x, a.den);
    lemma_scaled_times(num, v.y, a.cos);
    lemma_scaled_times(num, v.y, a.sin);
    lemma_scaled_times(num, v.y, a.den);
    lemma_scaled_times(num, v.z, a.cos);
    lemma_scaled_times(num, v.z, a.sin);
    lemma_scaled_times(num, v.z, a.den);
    lemma_scaled_times(den, v.den, a.den);
    lemma_scaled_difference(num, v.x * a.cos, v.z * a.sin);
    lemma_scaled_difference(num, v.x * a.sin, v.z * a.cos);
    lemma_scaled_difference(num, v.y * a.cos, v.z * a.sin);
    lemma_scaled_difference(num, v.y * a.sin, v.z * a.cos);
    lemma_scaled_difference(num, v.x * a.cos, v.y * a.sin);
    lemma_scaled_difference(num, v.x * a.sin, v.y * a.cos);
}

/// For fixed angles the rotation adds: rotating the sum of two vectors that
/// share a denominator gives the sum of the two rotated vectors.
pub proof fn lemma_rotate_adds(
    u: Rational3,
    v: Rational3,
    angle_x: Turn,
    angle_y: Turn,
    angle_z: Turn,
)
    requires
        u.den == v.den,
    ensures
        rotated(u.plus(v), angle_x, angle_y, angle_z) == rotated(u, angle_x, angle_y, angle_z).plus(
            rotated(v, angle_x, angle_y, angle_z),
        ),
{
    let u1 = turned_about_y(u, angle_y);
    let v1 = turned_about_y(v, angle_y);
    let u2 = turned_about_x(u1, angle_x);
    let v2 = turned_about_x(v1, angle_x);
    lemma_turn_adds(u, v, angle_y);
    lemma_turn_adds(u1, v1, angle_x);
    lemma_turn_adds(u2, v2, angle_z);
}

/// For fixed angles the rotation scales: rotating `num / den` times a vector
/// gives `num / den` times the rotated vector.
pub proof fn lemma_rotate_scales(
    v: Rational3,
    num: int,
    den: int,
    angle_x: Turn,
    angle_y: Turn,
    angle_z: Turn,
)
    ensures
        rotated(v.scaled(num, den), angle_x, angle_y, angle_z) == rotated(
            v,
            angle_x,
            angle_y,
            angle_z,
        ).scaled(num, den),
{
    let v1 = turned_about_y(v, angle_y);
    let v2 = turned_about_x(v1, angle_x);
    lemma_turn_scales(v, num, den, angle_y);
    lemma_turn_scales(v1, num, den, angle_x);
    lemma_turn_scales(v2, num, den, angle_z);
}

/// For fixed angles the rotation adds, whatever the denominators: the rotated
/// sum of two vectors stands for the same point as the sum of the two rotated
/// vectors.
pub proof fn lemma_rotate_adds_any(
    u: Rational3,
    v: Rational3,
    angle_x: Turn,
    angle_y: Turn,
    angle_z: Turn,
)
    ensures
        rotated(u, angle_x, angle_y, angle_z).added(
            rotated(v, angle_x, angle_y, angle_z),
        ).same_point(rotated(u.added(v), angle_x, angle_y, angle_z)),
{
    let turn = angle_y.den * angle_x.den * angle_z.den;
    let ru = rotated(u, angle_x, angle_y, angle_z);
    let rv = rotated(v, angle_x, angle_y, angle_z);
    let us = u.scaled(v.den, v.den);
    let vs = v.scaled(u.den, u.den);
    assert(us.den == vs.den) by (nonlinear_arith)
        requires
            us.den == v.den * u.den,
            vs.den == u.den * v.den,
    ;
    lemma_rotate_adds(us, vs, angle_x, angle_y, angle_z);
    lemma_rotate_scales(u, v.den, v.den, angle_x, angle_y, angle_z);
    lemma_rotate_scales(v, u.den, u.den, angle_x, angle_y, angle_z);
    let sum = ru.scaled(v.den, v.den).plus(rv.scaled(u.den, u.den));
    assert(rotated(u.added(v), angle_x, angle_y, angle_z) == sum);
    assert(ru.den == turn * u.den && rv.den == turn * v.den) by (nonlinear_arith)
        requires
            ru.den == u.den * angle_y.den * angle_x.den * angle_z.den,
            rv.den == v.den * angle_y.den * angle_x.den * angle_z.den,
            turn == angle_y.den * angle_x.den * angle_z.den,
    ;
    lemma_scaled_times(turn, v.den, ru.x);
    lemma_scaled_times(turn, v.den, ru.y);
    lemma_scaled_times(turn, v.den, ru.z);
    lemma_scaled_times(turn, v.den, ru.den);
    lemma_scaled_times(turn, u.den, rv.x);
    lemma_scaled_times(turn, u.den, rv.y);
    lemma_scaled_times(turn, u.den, rv.z);
    lemma_scaled_difference(turn, v.den * ru.x, u.den * rv.x);
    lemma_scaled_difference(turn, v.den * ru.y, u.den * rv.y);
    lemma_scaled_difference(turn, v.den * ru.z, u.den * rv.z);
    assert(ru.added(rv) == sum.scaled(turn, turn));
    lemma_scaled_same_point(sum, turn);
}

/// The rotation does not depend on how a point is written: two vectors that
/// stand for the same point are rotated to the same point.
pub proof fn lemma_rotate_same_point(
    u: Rational3,
    v: Rational3,
    angle_x: Turn,
    angle_y: Turn,
    angle_z: Turn,
)
    requires
        u.wf(),
        v.wf(),
        u.same_point(v),
    ensures
        rotated(u, angle_x, angle_y, angle_z).same_point(rotated(v, angle_x, angle_y, angle_z)),
{
    let ru = rotated(u, angle_x, angle_y, angle_z);
    let rv = rotated(v, angle_x, angle_y, angle_z);
    let us = u.scaled(v.den, v.den);
    let vs = v.scaled(u.den, u.den);
    assert(us == vs) by (nonlinear_arith)
        requires
            u.same_point(v),
            us == u.scaled(v.den, v.den),
            vs == v.scaled(u.den, u.den),
    ;
    lemma_rotate_scales(u, v.den, v.den, angle_x, angle_y, angle_z);
    lemma_rotate_scales(v, u.den, u.den, angle_x, angle_y, angle_z);
    assert(ru.scaled(v.den, v.den) == rv.scaled(u.den, u.den));
    lemma_cross_equal(ru.x, ru.den, rv.x, rv.den, v.den, u.den);
    lemma_cross_equal(ru.y, ru.den, rv.y, rv.den, v.den, u.den);
    lemma_cross_equal(ru.z, ru.den, rv.z, rv.den, v.den, u.den);
}

/// One turn multiplies the magnitude of a field by at most twice that of the
/// angle's fields.
pub proof fn lemma_turn_within(v: Rational3, a: Turn, limit: int, span: int)
    requires
        v.within(limit),
        a.within(span),
    ensures
        turned_about_y(v, a).within(2 * (limit * span)),
        turned_about_x(v, a).within(2 * (limit * span)),
        turned_about_z(v, a).within(2 * (limit * span)),
{
    lemma_turn_products(v, a, limit, span);
}

/// The three turns of a rotation multiply the magnitude of a field by at most
/// `8 · span³`, where the fields of the three angles lie within `span`.
pub proof fn lemma_rotated_within(
    v: Rational3,
    angle_x: Turn,
    angle_y: Turn,
    angle_z: Turn,
    limit: int,
    span: int,
)
    requires
        v.within(limit),
        angle_x.within(span),
        angle_y.within(span),
        angle_z.within(span),
    ensures
        rotated(v, angle_x, angle_y, angle_z).within(8 * (limit * span * span * span)),
{
    let v1 = turned_about_y(v, angle_y);
    let v2 = turned_about_x(v1, angle_x);
    lemma_turn_within(v, angle_y, limit, span);
    lemma_turn_within(v1, angle_x, 2 * (limit * span), span);
    lemma_turn_within(v2, angle_z, 2 * (2 * (limit * span) * span), span);
    assert(2 * (2 * (2 * (limit * span) * span) * span) == 8 * (limit * span * span * span))
        by (nonlinear_arith);
}

} // verus!
