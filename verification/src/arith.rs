//! Facts about sums and products that the proofs share.

use vstd::prelude::*;

verus! {

/// A product of two bounded factors is bounded by the product of the bounds.
pub(crate) proof fn lemma_product_within(a: int, b: int, ma: int, mb: int)
    by (nonlinear_arith)
    requires
        -ma <= a <= ma,
        -mb <= b <= mb,
    ensures
        -(ma * mb) <= a * b <= ma * mb,
{
}

/// A product of two positive factors is positive.
pub(crate) proof fn lemma_product_positive(a: int, b: int)
    by (nonlinear_arith)
    requires
        a > 0,
        b > 0,
    ensures
        a * b > 0,
{
}

/// Multiplying by `a`, then `b`, then `c` multiplies by their product.
pub(crate) proof fn lemma_product_of_three(a: int, b: int, c: int, x: int)
    by (nonlinear_arith)
    ensures
        c * (b * (a * x)) == (a * b * c) * x,
{
}

/// A product with a sum is the sum of the products.
pub(crate) proof fn lemma_sum_times(a: int, b: int, p: int)
    by (nonlinear_arith)
    ensures
        (a + b) * p == a * p + b * p,
{
}

/// Scaling one factor scales the product.
pub(crate) proof fn lemma_scaled_times(n: int, a: int, p: int)
    by (nonlinear_arith)
    ensures
        (n * a) * p == n * (a * p),
{
}

/// A scaled difference is the difference of the scaled terms.
pub(crate) proof fn lemma_scaled_difference(n: int, a: int, b: int)
    by (nonlinear_arith)
    ensures
        n * (a - b) == n * a - n * b,
        n * (a + b) == n * a + n * b,
{
}

/// A product of two non-negative factors is at most the product of their
/// upper bounds.
pub(crate) proof fn lemma_product_at_most(a: int, b: int, ma: int, mb: int)
    by (nonlinear_arith)
    requires
        0 <= a <= ma,
        0 <= b <= mb,
    ensures
        0 <= a * b <= ma * mb,
{
}

/// A product is at least the product of non-negative lower bounds of its
/// factors.
pub(crate) proof fn lemma_product_at_least(a: int, b: int, la: int, lb: int)
    by (nonlinear_arith)
    requires
        0 <= la <= a,
        0 <= lb <= b,
    ensures
        la * lb <= a * b,
{
}

/// A square is not negative, and is zero only of zero.
pub(crate) proof fn lemma_square(a: int)
    by (nonlinear_arith)
    ensures
        a * a >= 0,
        a * a == 0 <==> a == 0,
        a * a == (-a) * (-a),
{
}

/// The square of a number at least `bound` away from zero is at least the
/// square of `bound`.
pub(crate) proof fn lemma_square_at_least(a: int, bound: int)
    by (nonlinear_arith)
    requires
        bound >= 0,
        a >= bound || a <= -bound,
    ensures
        a * a >= bound * bound,
{
}

/// Two fractions that agree once numerator and denominator of each are
/// multiplied by a positive number are equal: `a / b == c / d`.
pub(crate) proof fn lemma_cross_equal(a: int, b: int, c: int, d: int, p: int, q: int)
    by (nonlinear_arith)
    requires
        p > 0,
        q > 0,
        p * a == q * c,
        p * b == q * d,
    ensures
        a * d == c * b,
{
    assert((p * a) * (q * d) == (q * c) * (p * b));
    assert((p * q) * (a * d) == (p * q) * (c * b));
    assert(p * q > 0);
}

/// Multiplying both sides by a positive number keeps their order.
pub(crate) proof fn lemma_scaled_order(a: int, b: int, k: int)
    by (nonlinear_arith)
    requires
        k > 0,
    ensures
        (a <= b) == (a * k <= b * k),
{
}

/// A square times `q`, times another square, is the square of the product
/// times `q`.
pub(crate) proof fn lemma_square_scaled(x: int, q: int, k: int)
    by (nonlinear_arith)
    ensures
        (x * x * q) * (k * k) == (x * k) * (x * k) * q,
{
}

/// The square of a product times `q` is the square of one factor, times `q`
/// and the square of the other.
pub(crate) proof fn lemma_square_regrouped(p: int, k: int, q: int)
    by (nonlinear_arith)
    ensures
        (p * k) * (p * k) * q == (p * p) * (q * (k * k)),
{
}

/// The difference of two fractions, `l / ld - s / sd`, is the same when both
/// are written otherwise: its numerator over `sd * ld`, times `td * md`, is
/// the numerator of `m / md - t / td` over `td * md`, times `sd * ld`.
pub(crate) proof fn lemma_difference_crossed(
    l: int,
    ld: int,
    s: int,
    sd: int,
    m: int,
    md: int,
    t: int,
    td: int,
)
    by (nonlinear_arith)
    requires
        l * md == m * ld,
        s * td == t * sd,
    ensures
        (l * sd - s * ld) * (td * md) == (m * td - t * md) * (sd * ld),
{
    assert((l * sd) * (td * md) == (l * md) * (sd * td));
    assert((m * td) * (sd * ld) == (m * ld) * (sd * td));
    assert((s * ld) * (td * md) == (s * td) * (ld * md));
    assert((t * md) * (sd * ld) == (t * sd) * (ld * md));
}

/// The product of two fractions is the same when both are written otherwise.
pub(crate) proof fn lemma_products_crossed(
    a: int,
    ad: int,
    b: int,
    bd: int,
    c: int,
    cd: int,
    d: int,
    dd: int,
)
    by (nonlinear_arith)
    requires
        a * ad == b * bd,
        c * cd == d * dd,
    ensures
        (a * c) * (ad * cd) == (b * d) * (bd * dd),
{
    assert((a * c) * (ad * cd) == (a * ad) * (c * cd));
    assert((b * d) * (bd * dd) == (b * bd) * (d * dd));
}

} // verus!
