//! What holds of every shading: a channel has exactly one lit value, light
//! that does not arrive leaves the ambient term alone, and the colour does
//! not depend on how the points are written.

use vstd::prelude::*;
use crate::arith::{
    lemma_difference_crossed, lemma_product_at_most, lemma_product_positive,
    lemma_products_crossed, lemma_scaled_order, lemma_square, lemma_square_regrouped,
    lemma_square_scaled, lemma_sum_times,
};
use crate::color::Color;
use crate::shade::{
    brightness_reaches, incidence, is_lit_channel, lit_channel, shaded, Incidence, FULL_INTENSITY,
};
use crate::vector::Rational3;

verus! {

/// Two points are apart exactly when the squared length of the vector
/// between them is positive.
pub proof fn lemma_apart(surface: Rational3, light: Rational3)
    ensures
        surface.to(light).dot(surface.to(light)) >= 0,
        surface.same_point(light) <==> surface.to(light).dot(surface.to(light)) == 0,
{
    let d = surface.to(light);
    lemma_square(d.x);
    lemma_square(d.y);
    lemma_square(d.z);
}

/// Where the brightness reaches a level, it reaches every lower one.
pub proof fn lemma_reaches_lower(
    low: int,
    high: int,
    base: int,
    ambient: int,
    diffuse: int,
    inc: Incidence,
)
    requires
        low <= high,
        inc.den > 0,
        inc.dist2 >= 0,
        brightness_reaches(high, base, ambient, diffuse, inc),
    ensures
        brightness_reaches(low, base, ambient, diffuse, inc),
{
    let need_low = (low * FULL_INTENSITY - base * ambient) * inc.den;
    let need_high = (high * FULL_INTENSITY - base * ambient) * inc.den;
    let have = base * diffuse * (if inc.facing > 0 {
        inc.facing
    } else {
        0
    });
    assert(need_low <= need_high) by (nonlinear_arith)
        requires
            low <= high,
            inc.den > 0,
            need_low == (low * 1000 - base * ambient) * inc.den,
            need_high == (high * 1000 - base * ambient) * inc.den,
    ;
    if need_low > 0 {
        lemma_product_at_most(need_low, need_low, need_high, need_high);
        assert(need_low * need_low * inc.dist2 <= need_high * need_high * inc.dist2)
            by (nonlinear_arith)
            requires
                need_low * need_low <= need_high * need_high,
                inc.dist2 >= 0,
        ;
    }
}

/// At most one value is the lit channel, so [`lit_channel`] is that value.
pub proof fn lemma_lit_channel_is(c: int, base: int, ambient: int, diffuse: int, inc: Incidence)
    requires
        inc.den > 0,
        inc.dist2 >= 0,
        is_lit_channel(c, base, ambient, diffuse, inc),
    ensures
        lit_channel(base, ambient, diffuse, inc) == c,
{
    let other = lit_channel(base, ambient, diffuse, inc);
    assert(is_lit_channel(other, base, ambient, diffuse, inc));
    if other < c {
        lemma_reaches_lower(other + 1, c, base, ambient, diffuse, inc);
    }
    if c < other {
        lemma_reaches_lower(c + 1, other, base, ambient, diffuse, inc);
    }
}

/// The highest level from `level` down that the brightness reaches.
proof fn lemma_highest_level(level: int, base: int, ambient: int, diffuse: int, inc: Incidence)
    -> (c: int)
    requires
        0 <= level <= base,
        0 <= ambient,
        inc.den > 0,
        level < base ==> !brightness_reaches(level + 1, base, ambient, diffuse, inc),
    ensures
        is_lit_channel(c, base, ambient, diffuse, inc),
    decreases level,
{
    if brightness_reaches(level, base, ambient, diffuse, inc) {
        level
    } else {
        assert((0 * FULL_INTENSITY - base * ambient) * inc.den <= 0) by (nonlinear_arith)
            requires
                0 <= base,
                0 <= ambient,
                inc.den > 0,
        ;
        lemma_highest_level(level - 1, base, ambient, diffuse, inc)
    }
}

/// Every base channel has its lit channel: [`lit_channel`] is `base` times
/// the lighting factor, rounded down, whatever the machine can hold.
pub proof fn lemma_lit_channel_exists(base: int, ambient: int, diffuse: int, inc: Incidence)
    requires
        0 <= base,
        0 <= ambient,
        inc.den > 0,
    ensures
        is_lit_channel(lit_channel(base, ambient, diffuse, inc), base, ambient, diffuse, inc),
{
    let c = lemma_highest_level(base, base, ambient, diffuse, inc);
}

/// The channel that ambient light alone gives: `base × min(1, ambient)`,
/// rounded down.
pub open spec fn ambient_channel(base: int, ambient: int) -> int {
    if base * ambient / (FULL_INTENSITY as int) < base {
        base * ambient / (FULL_INTENSITY as int)
    } else {
        base
    }
}

/// Where no diffuse light arrives, because the diffuse intensity is 0 or the
/// surface does not face the light, a channel is what ambient light alone
/// gives.
pub proof fn lemma_channel_without_diffuse(base: int, ambient: int, diffuse: int, inc: Incidence)
    requires
        0 <= base,
        0 <= ambient,
        inc.den > 0,
        inc.dist2 > 0,
        diffuse == 0 || inc.facing <= 0,
    ensures
        lit_channel(base, ambient, diffuse, inc) == ambient_channel(base, ambient),
{
    let c = ambient_channel(base, ambient);
    let whole = base * ambient;
    let toward = if inc.facing > 0 {
        inc.facing
    } else {
        0
    };
    let have = base * diffuse * toward;
    assert(whole >= 0) by (nonlinear_arith)
        requires
            whole == base * ambient,
            0 <= base,
            0 <= ambient,
    ;
    assert(have == 0) by (nonlinear_arith)
        requires
            have == base * diffuse * toward,
            diffuse == 0 || toward == 0,
    ;
    assert(have * have == 0);
    let short = c * FULL_INTENSITY - whole;
    assert(short * inc.den <= 0) by (nonlinear_arith)
        requires
            short <= 0,
            inc.den > 0,
    ;
    if c < base {
        let above = (c + 1) * FULL_INTENSITY - whole;
        let need = above * inc.den;
        assert(need > 0) by (nonlinear_arith)
            requires
                above > 0,
                inc.den > 0,
                need == above * inc.den,
        ;
        assert(need * need * inc.dist2 > 0) by (nonlinear_arith)
            requires
                need > 0,
                inc.dist2 > 0,
        ;
    }
    lemma_lit_channel_is(c, base, ambient, diffuse, inc);
}

/// With ambient and diffuse intensity both 0 a surface is black, whatever its
/// normal and wherever the light is: red, green and blue are 0, and alpha is
/// that of the base colour.
pub proof fn lemma_unlit_is_black(
    surface: Rational3,
    normal: Rational3,
    light: Rational3,
    base: Color,
)
    requires
        surface.wf(),
        normal.wf(),
        light.wf(),
        !surface.same_point(light),
    ensures
        shaded(surface, normal, light, base, 0, 0) == (Color { r: 0, g: 0, b: 0, a: base.a }),
{
    let inc = incidence(surface, normal, light);
    lemma_apart(surface, light);
    lemma_channel_without_diffuse(base.r as int, 0, 0, inc);
    lemma_channel_without_diffuse(base.g as int, 0, 0, inc);
    lemma_channel_without_diffuse(base.b as int, 0, 0, inc);
    assert(base.r as int * 0 == 0 && base.g as int * 0 == 0 && base.b as int * 0 == 0);
}

/// With ambient intensity 1 and diffuse intensity 0 a surface keeps its base
/// colour, whatever its normal and wherever the light is.
pub proof fn lemma_full_ambient_keeps_color(
    surface: Rational3,
    normal: Rational3,
    light: Rational3,
    base: Color,
)
    requires
        surface.wf(),
        normal.wf(),
        light.wf(),
        !surface.same_point(light),
    ensures
        shaded(surface, normal, light, base, FULL_INTENSITY as int, 0) == base,
{
    let inc = incidence(surface, normal, light);
    lemma_apart(surface, light);
    lemma_channel_without_diffuse(base.r as int, FULL_INTENSITY as int, 0, inc);
    lemma_channel_without_diffuse(base.g as int, FULL_INTENSITY as int, 0, inc);
    lemma_channel_without_diffuse(base.b as int, FULL_INTENSITY as int, 0, inc);
}

/// A surface whose normal points away from the light gets ambient light
/// only: its colour is the one it has with diffuse intensity 0, each of red,
/// green and blue being the base channel times `min(1, ambient)`, rounded
/// down.
pub proof fn lemma_facing_away_is_ambient_only(
    surface: Rational3,
    normal: Rational3,
    light: Rational3,
    base: Color,
    ambient: u32,
    diffuse: u32,
)
    requires
        surface.wf(),
        normal.wf(),
        light.wf(),
        !surface.same_point(light),
        normal.dot(surface.to(light)) < 0,
    ensures
        shaded(surface, normal, light, base, ambient as int, diffuse as int) == shaded(
            surface,
            normal,
            light,
            base,
            ambient as int,
            0,
        ),
        shaded(surface, normal, light, base, ambient as int, diffuse as int) == (Color {
            r: ambient_channel(base.r as int, ambient as int) as u8,
            g: ambient_channel(base.g as int, ambient as int) as u8,
            b: ambient_channel(base.b as int, ambient as int) as u8,
            a: base.a,
        }),
{
    let inc = incidence(surface, normal, light);
    lemma_apart(surface, light);
    lemma_channel_without_diffuse(base.r as int, ambient as int, diffuse as int, inc);
    lemma_channel_without_diffuse(base.g as int, ambient as int, diffuse as int, inc);
    lemma_channel_without_diffuse(base.b as int, ambient as int, diffuse as int, inc);
    lemma_channel_without_diffuse(base.r as int, ambient as int, 0, inc);
    lemma_channel_without_diffuse(base.g as int, ambient as int, 0, inc);
    lemma_channel_without_diffuse(base.b as int, ambient as int, 0, inc);
}

/// Two incidences stand for the same geometry: the normal of one is that of
/// the other over another denominator, and so is the vector to the light,
/// which `stretch / stretch_other` times the other's.
spec fn same_geometry(a: Incidence, b: Incidence, stretch: int, stretch_other: int) -> bool {
    &&& a.den > 0 && b.den > 0 && stretch > 0 && stretch_other > 0
    &&& a.facing * (b.den * stretch_other) == b.facing * (a.den * stretch)
    &&& a.dist2 * (stretch_other * stretch_other) == b.dist2 * (stretch * stretch)
}

/// The brightness reaches the same levels for the same geometry.
proof fn lemma_reaches_same_geometry(
    level: int,
    base: int,
    ambient: int,
    diffuse: int,
    a: Incidence,
    b: Incidence,
    stretch: int,
    stretch_other: int,
)
    requires
        0 <= base,
        0 <= diffuse,
        same_geometry(a, b, stretch, stretch_other),
    ensures
        brightness_reaches(level, base, ambient, diffuse, a) == brightness_reaches(
            level,
            base,
            ambient,
            diffuse,
            b,
        ),
{
    let short = level * FULL_INTENSITY - base * ambient;
    let lamp = base * diffuse;
    let toward_a = if a.facing > 0 {
        a.facing
    } else {
        0
    };
    let toward_b = if b.facing > 0 {
        b.facing
    } else {
        0
    };
    // Both sides of either inequality are brought to the same scale.
    let scale_a = b.den * stretch_other;
    let scale_b = a.den * stretch;
    lemma_product_positive(b.den, stretch_other);
    lemma_product_positive(a.den, stretch);
    assert(lamp >= 0) by (nonlinear_arith)
        requires
            lamp == base * diffuse,
            0 <= base,
            0 <= diffuse,
    ;
    assert(toward_a * scale_a == toward_b * scale_b) by (nonlinear_arith)
        requires
            a.facing * scale_a == b.facing * scale_b,
            scale_a > 0,
            scale_b > 0,
            toward_a == (if a.facing > 0 {
                a.facing
            } else {
                0
            }),
            toward_b == (if b.facing > 0 {
                b.facing
            } else {
                0
            }),
    ;
    let need_a = short * a.den;
    let need_b = short * b.den;
    let have_a = lamp * toward_a;
    let have_b = lamp * toward_b;
    assert((need_a <= 0) == (need_b <= 0)) by (nonlinear_arith)
        requires
            need_a == short * a.den,
            need_b == short * b.den,
            a.den > 0,
            b.den > 0,
    ;
    assert(have_a * scale_a == have_b * scale_b) by (nonlinear_arith)
        requires
            have_a == lamp * toward_a,
            have_b == lamp * toward_b,
            toward_a * scale_a == toward_b * scale_b,
    ;
    let left_a = need_a * need_a * a.dist2;
    let left_b = need_b * need_b * b.dist2;
    let common = short * a.den * b.den;
    lemma_square_scaled(need_a, a.dist2, scale_a);
    lemma_square_scaled(need_b, b.dist2, scale_b);
    assert(need_a * scale_a == common * stretch_other) by (nonlinear_arith)
        requires
            need_a == short * a.den,
            scale_a == b.den * stretch_other,
            common == short * a.den * b.den,
    ;
    assert(need_b * scale_b == common * stretch) by (nonlinear_arith)
        requires
            need_b == short * b.den,
            scale_b == a.den * stretch,
            common == short * a.den * b.den,
    ;
    lemma_square_regrouped(common, stretch_other, a.dist2);
    lemma_square_regrouped(common, stretch, b.dist2);
    assert(left_a * (scale_a * scale_a) == left_b * (scale_b * scale_b));
    lemma_square_scaled(have_a, 1, scale_a);
    lemma_square_scaled(have_b, 1, scale_b);
    assert(have_a * have_a * (scale_a * scale_a) == have_b * have_b * (scale_b * scale_b));
    lemma_product_positive(scale_a, scale_a);
    lemma_product_positive(scale_b, scale_b);
    lemma_scaled_order(left_a, have_a * have_a, scale_a * scale_a);
    lemma_scaled_order(left_b, have_b * have_b, scale_b * scale_b);
}

/// The lit channel is the same for the same geometry.
proof fn lemma_channel_same_geometry(
    base: int,
    ambient: int,
    diffuse: int,
    a: Incidence,
    b: Incidence,
    stretch: int,
    stretch_other: int,
)
    requires
        0 <= base,
        0 <= ambient,
        0 <= diffuse,
        b.dist2 >= 0,
        same_geometry(a, b, stretch, stretch_other),
    ensures
        lit_channel(base, ambient, diffuse, a) == lit_channel(base, ambient, diffuse, b),
{
    let c = lit_channel(base, ambient, diffuse, a);
    lemma_lit_channel_exists(base, ambient, diffuse, a);
    lemma_reaches_same_geometry(c, base, ambient, diffuse, a, b, stretch, stretch_other);
    lemma_reaches_same_geometry(c + 1, base, ambient, diffuse, a, b, stretch, stretch_other);
    lemma_lit_channel_is(c, base, ambient, diffuse, b);
}

/// The vector between two points does not depend on how the points are
/// written.
pub proof fn lemma_to_same_point(
    surface: Rational3,
    light: Rational3,
    other_surface: Rational3,
    other_light: Rational3,
)
    requires
        surface.same_point(other_surface),
        light.same_point(other_light),
    ensures
        surface.to(light).same_point(other_surface.to(other_light)),
{
    lemma_difference_crossed(
        light.x,
        light.den,
        surface.x,
        surface.den,
        other_light.x,
        other_light.den,
        other_surface.x,
        other_surface.den,
    );
    lemma_difference_crossed(
        light.y,
        light.den,
        surface.y,
        surface.den,
        other_light.y,
        other_light.den,
        other_surface.y,
        other_surface.den,
    );
    lemma_difference_crossed(
        light.z,
        light.den,
        surface.z,
        surface.den,
        other_light.z,
        other_light.den,
        other_surface.z,
        other_surface.den,
    );
}

/// The incidences of one geometry, written in two ways, stand for the same
/// geometry.
proof fn lemma_incidence_same_points(
    surface: Rational3,
    normal: Rational3,
    light: Rational3,
    other_surface: Rational3,
    other_normal: Rational3,
    other_light: Rational3,
)
    requires
        surface.wf() && normal.wf() && light.wf(),
        other_surface.wf() && other_normal.wf() && other_light.wf(),
        surface.same_point(other_surface),
        normal.same_point(other_normal),
        light.same_point(other_light),
    ensures
        same_geometry(
            incidence(surface, normal, light),
            incidence(other_surface, other_normal, other_light),
            surface.den * light.den,
            other_surface.den * other_light.den,
        ),
{
    let d = surface.to(light);
    let e = other_surface.to(other_light);
    let a = incidence(surface, normal, light);
    let b = incidence(other_surface, other_normal, other_light);
    lemma_to_same_point(surface, light, other_surface, other_light);
    lemma_product_positive(surface.den, light.den);
    lemma_product_positive(other_surface.den, other_light.den);
    let scale_a = b.den * e.den;
    let scale_b = a.den * d.den;
    lemma_products_crossed(
        normal.x,
        other_normal.den,
        other_normal.x,
        normal.den,
        d.x,
        e.den,
        e.x,
        d.den,
    );
    lemma_products_crossed(
        normal.y,
        other_normal.den,
        other_normal.y,
        normal.den,
        d.y,
        e.den,
        e.y,
        d.den,
    );
    lemma_products_crossed(
        normal.z,
        other_normal.den,
        other_normal.z,
        normal.den,
        d.z,
        e.den,
        e.z,
        d.den,
    );
    lemma_sum_times(normal.x * d.x + normal.y * d.y, normal.z * d.z, scale_a);
    lemma_sum_times(normal.x * d.x, normal.y * d.y, scale_a);
    lemma_sum_times(other_normal.x * e.x + other_normal.y * e.y, other_normal.z * e.z, scale_b);
    lemma_sum_times(other_normal.x * e.x, other_normal.y * e.y, scale_b);
    assert(a.facing * scale_a == b.facing * scale_b);
    lemma_products_crossed(d.x, e.den, e.x, d.den, d.x, e.den, e.x, d.den);
    lemma_products_crossed(d.y, e.den, e.y, d.den, d.y, e.den, e.y, d.den);
    lemma_products_crossed(d.z, e.den, e.z, d.den, d.z, e.den, e.z, d.den);
    lemma_sum_times(d.x * d.x + d.y * d.y, d.z * d.z, e.den * e.den);
    lemma_sum_times(d.x * d.x, d.y * d.y, e.den * e.den);
    lemma_sum_times(e.x * e.x + e.y * e.y, e.z * e.z, d.den * d.den);
    lemma_sum_times(e.x * e.x, e.y * e.y, d.den * d.den);
    assert(a.dist2 * (e.den * e.den) == b.dist2 * (d.den * d.den));
}

/// The lit colour does not depend on how the points are written: a surface,
/// a normal and a light that stand for the same points as three others give
/// the same colour.
pub proof fn lemma_shaded_same_points(
    surface: Rational3,
    normal: Rational3,
    light: Rational3,
    other_surface: Rational3,
    other_normal: Rational3,
    other_light: Rational3,
    base: Color,
    ambient: u32,
    diffuse: u32,
)
    requires
        surface.wf() && normal.wf() && light.wf(),
        other_surface.wf() && other_normal.wf() && other_light.wf(),
        surface.same_point(other_surface),
        normal.same_point(other_normal),
        light.same_point(other_light),
    ensures
        shaded(surface, normal, light, base, ambient as int, diffuse as int) == shaded(
            other_surface,
            other_normal,
            other_light,
            base,
            ambient as int,
            diffuse as int,
        ),
{
    let a = incidence(surface, normal, light);
    let b = incidence(other_surface, other_normal, other_light);
    lemma_incidence_same_points(surface, normal, light, other_surface, other_normal, other_light);
    lemma_apart(other_surface, other_light);
    lemma_channel_same_geometry(
        base.r as int,
        ambient as int,
        diffuse as int,
        a,
        b,
        surface.den * light.den,
        other_surface.den * other_light.den,
    );
    lemma_channel_same_geometry(
        base.g as int,
        ambient as int,
        diffuse as int,
        a,
        b,
        surface.den * light.den,
        other_surface.den * other_light.den,
    );
    lemma_channel_same_geometry(
        base.b as int,
        ambient as int,
        diffuse as int,
        a,
        b,
        surface.den * light.den,
        other_surface.den * other_light.den,
    );
}

} // verus!
