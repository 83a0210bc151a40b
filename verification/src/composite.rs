//! One colour for the whole cube, from the shading of three of its faces.

use vstd::prelude::*;
use crate::color::Color;

verus! {

/// Three times the largest value of a channel: the red sum of three faces in
/// full light.
pub const FULL_RED_SUM: u32 = 765;

/// A base channel scaled by the average red of three faces, `red_sum / 765`,
/// and rounded down.
pub open spec fn composite_channel(base: int, red_sum: int) -> int {
    base * red_sum / (FULL_RED_SUM as int)
}

/// The cube's colour: the red channels of the three shaded faces are averaged
/// into one factor, `(front.r + top.r + right.r) / 765`, which scales red,
/// green and blue of `base` alike; alpha is 255. The green and blue that the
/// faces were shaded to play no part.
pub open spec fn composited(base: Color, front: Color, top: Color, right: Color) -> Color {
    let red_sum = front.r as int + top.r as int + right.r as int;
    Color {
        r: composite_channel(base.r as int, red_sum) as u8,
        g: composite_channel(base.g as int, red_sum) as u8,
        b: composite_channel(base.b as int, red_sum) as u8,
        a: 255,
    }
}

/// A composite channel is a channel: it lies between 0 and the base channel.
pub proof fn lemma_composite_channel_within(base: int, red_sum: int)
    requires
        0 <= base,
        0 <= red_sum <= FULL_RED_SUM,
    ensures
        0 <= composite_channel(base, red_sum) <= base,
{
    assert(0 <= base * red_sum <= base * 765) by (nonlinear_arith)
        requires
            0 <= base,
            0 <= red_sum <= 765,
    ;
}

/// One channel of the cube's colour.
fn scale_channel(base: u8, red_sum: u32) -> (c: u8)
    requires
        red_sum <= FULL_RED_SUM,
    ensures
        c == composite_channel(base as int, red_sum as int),
{
    proof {
        lemma_composite_channel_within(base as int, red_sum as int);
        assert(0 <= base as int * red_sum as int <= 255 * 765) by (nonlinear_arith)
            requires
                0 <= base <= 255,
                0 <= red_sum <= 765,
        ;
    }
    ((base as u32) * red_sum / FULL_RED_SUM) as u8
}

/// The colour of the cube's body, from the shading of its front, top and
/// right faces: see [`composited`].
pub fn composite_color(base: Color, front: Color, top: Color, right: Color) -> (c: Color)
    ensures
        c == composited(base, front, top, right),
{
    let red_sum: u32 = front.r as u32 + top.r as u32 + right.r as u32;
    Color {
        r: scale_channel(base.r, red_sum),
        g: scale_channel(base.g, red_sum),
        b: scale_channel(base.b, red_sum),
        a: 255,
    }
}

/// The cube's colour reads the red of the three faces and nothing else of
/// them: faces that agree in red give the same colour.
pub proof fn lemma_composite_reads_red_only(
    base: Color,
    front: Color,
    top: Color,
    right: Color,
    other_front: Color,
    other_top: Color,
    other_right: Color,
)
    requires
        front.r == other_front.r,
        top.r == other_top.r,
        right.r == other_right.r,
    ensures
        composited(base, front, top, right) == composited(
            base,
            other_front,
            other_top,
            other_right,
        ),
{
}

/// Three faces in full red leave the base colour as it is, and three faces
/// without red make the cube black.
pub proof fn lemma_composite_extremes(base: Color, front: Color, top: Color, right: Color)
    ensures
        front.r == 255 && top.r == 255 && right.r == 255 ==> composited(base, front, top, right)
            == (Color { r: base.r, g: base.g, b: base.b, a: 255 }),
        front.r == 0 && top.r == 0 && right.r == 0 ==> composited(base, front, top, right) == (
        Color { r: 0, g: 0, b: 0, a: 255 }),
{
    assert(base.r as int * 0 == 0 && base.g as int * 0 == 0 && base.b as int * 0 == 0);
    assert(base.r as int * 765 / 765 == base.r);
    assert(base.g as int * 765 / 765 == base.g);
    assert(base.b as int * 765 / 765 == base.b);
}

} // verus!
