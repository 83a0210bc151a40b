//! Diffuse lighting of a surface by a point light.
//!
//! The lighting factor is `min(1, ambient + diffuse · max(0, n · l))`, where
//! `n` is the surface normal and `l` the unit vector from the surface to the
//! light. A channel of the lit colour is the base channel times that factor,
//! rounded down. `l` holds a square root, so the factor is never formed:
//! whether it reaches a given level is decided by an inequality between
//! integers, and the channel is the highest level that it reaches.

use vstd::prelude::*;
use crate::arith::{
    lemma_product_at_least, lemma_product_at_most, lemma_product_within, lemma_square,
    lemma_square_at_least,
};
use crate::color::Color;
use crate::shade_laws::{lemma_apart, lemma_lit_channel_is};
use crate::vector::{Rational3, Vector3};

verus! {

/// The intensity 1, in the unit in which intensities are given: thousandths.
pub const FULL_INTENSITY: u32 = 1000;

/// How a surface faces a light. With `n` the surface normal and `l` the unit
/// vector from the surface to the light, `n · l` is
/// `facing / (den · √dist2)`.
pub struct Incidence {
    /// The dot product of the normal's numerators with those of the vector to
    /// the light.
    pub facing: int,
    /// The normal's denominator.
    pub den: int,
    /// The squared length of the numerators of the vector to the light.
    pub dist2: int,
}

/// How the surface at `surface` with the normal `normal` faces the light at
/// `light`.
pub open spec fn incidence(surface: Rational3, normal: Rational3, light: Rational3) -> Incidence {
    let to_light = surface.to(light);
    Incidence { facing: normal.dot(to_light), den: normal.den, dist2: to_light.dot(to_light) }
}

/// Whether `base × (ambient + diffuse · max(0, n · l))` is at least `level`.
///
/// Multiplied by `FULL_INTENSITY · den · √dist2`, which is positive, this
/// reads `need · √dist2 <= have` with the two integers below; `have` is not
/// negative, so it holds where `need` is not positive or the squares compare
/// so.
pub open spec fn brightness_reaches(
    level: int,
    base: int,
    ambient: int,
    diffuse: int,
    inc: Incidence,
) -> bool {
    let need = (level * FULL_INTENSITY - base * ambient) * inc.den;
    let have = base * diffuse * (if inc.facing > 0 {
        inc.facing
    } else {
        0
    });
    need <= 0 || need * need * inc.dist2 <= have * have
}

/// `c` is `base` times the lighting factor, rounded down: the factor is capped
/// at 1, so `c` is at most `base`; the brightness reaches `c`; and it does not
/// reach `c + 1`, unless the cap stops `c`.
pub open spec fn is_lit_channel(
    c: int,
    base: int,
    ambient: int,
    diffuse: int,
    inc: Incidence,
) -> bool {
    &&& 0 <= c <= base
    &&& brightness_reaches(c, base, ambient, diffuse, inc)
    &&& c < base ==> !brightness_reaches(c + 1, base, ambient, diffuse, inc)
}

/// `base` times the lighting factor, rounded down.
///
/// There is exactly one such value
/// ([`lemma_lit_channel_exists`](crate::shade_laws::lemma_lit_channel_exists),
/// [`lemma_lit_channel_is`](crate::shade_laws::lemma_lit_channel_is)). To
/// show which it is for given numbers, show [`is_lit_channel`] of it, which is
/// arithmetic, and call the second lemma.
pub open spec fn lit_channel(base: int, ambient: int, diffuse: int, inc: Incidence) -> int {
    choose|c: int| is_lit_channel(c, base, ambient, diffuse, inc)
}

/// The colour of a surface of colour `base` at `surface`, with the normal
/// `normal`, lit from `light`: each of red, green and blue is scaled by the
/// lighting factor and rounded down, and alpha is kept.
pub open spec fn shaded(
    surface: Rational3,
    normal: Rational3,
    light: Rational3,
    base: Color,
    ambient: int,
    diffuse: int,
) -> Color {
    let inc = incidence(surface, normal, light);
    Color {
        r: lit_channel(base.r as int, ambient, diffuse, inc) as u8,
        g: lit_channel(base.g as int, ambient, diffuse, inc) as u8,
        b: lit_channel(base.b as int, ambient, diffuse, inc) as u8,
        a: base.a,
    }
}

/// The machine's limits on the lighting: the inequality of
/// [`brightness_reaches`] squares `need`, which is at most
/// `255 · FULL_INTENSITY · den`, and multiplies by `dist2`; and it squares
/// `have`, which is at most `255 · diffuse · |facing|`. The first product must
/// fit in 128 bits, and `have` in 64, so that its square does.
pub open spec fn incidence_fits(diffuse: int, inc: Incidence) -> bool {
    let most = 255 * FULL_INTENSITY * inc.den;
    &&& most * most * inc.dist2 <= u128::MAX
    &&& 255 * diffuse * (if inc.facing >= 0 {
        inc.facing
    } else {
        -inc.facing
    }) <= u64::MAX
}

/// The machine's limits on lighting the surface at `surface` from `light`:
/// see [`incidence_fits`].
pub open spec fn lighting_fits(
    surface: Rational3,
    normal: Rational3,
    light: Rational3,
    diffuse: int,
) -> bool {
    incidence_fits(diffuse, incidence(surface, normal, light))
}

/// The surface at `surface` can be lit from `light`: the three vectors are
/// well formed, the surface is apart from the light, and the lighting is
/// within the machine's limits.
pub open spec fn can_be_lit(
    surface: Rational3,
    normal: Rational3,
    light: Rational3,
    diffuse: int,
) -> bool {
    &&& surface.wf() && normal.wf() && light.wf()
    &&& !surface.same_point(light)
    &&& lighting_fits(surface, normal, light, diffuse)
}

/// What the machine holds of an [`Incidence`].
struct Facing {
    facing: i128,
    den: i64,
    dist2: u128,
}

impl View for Facing {
    type V = Incidence;

    closed spec fn view(&self) -> Incidence {
        Incidence { facing: self.facing as int, den: self.den as int, dist2: self.dist2 as int }
    }
}

/// The numerators of the vector from `surface` to `light`.
fn vector_to(surface: Vector3, light: Vector3) -> (d: (i128, i128, i128))
    requires
        surface.wf(),
        light.wf(),
    ensures
        d.0 == surface@.to(light@).x,
        d.1 == surface@.to(light@).y,
        d.2 == surface@.to(light@).z,
{
    proof {
        lemma_product_within(
            light.x as int,
            surface.den as int,
            0x8000_0000_0000_0000,
            0x7fff_ffff_ffff_ffff,
        );
        lemma_product_within(
            light.y as int,
            surface.den as int,
            0x8000_0000_0000_0000,
            0x7fff_ffff_ffff_ffff,
        );
        lemma_product_within(
            light.z as int,
            surface.den as int,
            0x8000_0000_0000_0000,
            0x7fff_ffff_ffff_ffff,
        );
        lemma_product_within(
            surface.x as int,
            light.den as int,
            0x8000_0000_0000_0000,
            0x7fff_ffff_ffff_ffff,
        );
        lemma_product_within(
            surface.y as int,
            light.den as int,
            0x8000_0000_0000_0000,
            0x7fff_ffff_ffff_ffff,
        );
        lemma_product_within(
            surface.z as int,
            light.den as int,
            0x8000_0000_0000_0000,
            0x7fff_ffff_ffff_ffff,
        );
    }
    let sd: i128 = surface.den as i128;
    let ld: i128 = light.den as i128;
    let dx: i128 = (light.x as i128) * sd - (surface.x as i128) * ld;
    let dy: i128 = (light.y as i128) * sd - (surface.y as i128) * ld;
    let dz: i128 = (light.z as i128) * sd - (surface.z as i128) * ld;
    (dx, dy, dz)
}

/// The largest magnitude, exclusive, that a numerator of the vector to the
/// light can have within the machine's limits.
spec fn offset_limit() -> int {
    0x8000_0000_0000
}

/// Within the machine's limits the vector to the light is short: each of its
/// numerators lies within [`offset_limit`].
proof fn lemma_fits_offset(den: int, dx: int, dy: int, dz: int)
    requires
        den >= 1,
        (255 * FULL_INTENSITY * den) * (255 * FULL_INTENSITY * den) * (dx * dx + dy * dy + dz * dz)
            <= u128::MAX,
    ensures
        -offset_limit() < dx < offset_limit(),
        -offset_limit() < dy < offset_limit(),
        -offset_limit() < dz < offset_limit(),
{
    let most = 255 * FULL_INTENSITY * den;
    let dist2 = dx * dx + dy * dy + dz * dz;
    lemma_square(dx);
    lemma_square(dy);
    lemma_square(dz);
    assert(most == 255000 * den);
    lemma_product_at_least(most, most, 255000, 255000);
    lemma_product_at_least(most * most, dist2, 65025000000, dist2);
    assert(dist2 < 0x4000_0000_0000_0000_0000_0000);
    if dx >= offset_limit() || dx <= -offset_limit() {
        lemma_square_at_least(dx, offset_limit());
    }
    if dy >= offset_limit() || dy <= -offset_limit() {
        lemma_square_at_least(dy, offset_limit());
    }
    if dz >= offset_limit() || dz <= -offset_limit() {
        lemma_square_at_least(dz, offset_limit());
    }
}

/// How `normal` faces a light that `to_light` leads to.
fn measure(normal: Vector3, to_light: (i128, i128, i128)) -> (f: Facing)
    requires
        -offset_limit() < to_light.0 < offset_limit(),
        -offset_limit() < to_light.1 < offset_limit(),
        -offset_limit() < to_light.2 < offset_limit(),
    ensures
        f.facing == normal.x * to_light.0 + normal.y * to_light.1 + normal.z * to_light.2,
        f.den == normal.den,
        f.dist2 == to_light.0 * to_light.0 + to_light.1 * to_light.1 + to_light.2 * to_light.2,
        -0x4_0000_0000_0000_0000_0000_0000_0000 < f.facing < 0x4_0000_0000_0000_0000_0000_0000_0000,
{
    let (dx, dy, dz) = to_light;
    proof {
        lemma_product_within(dx as int, dx as int, offset_limit(), offset_limit());
        lemma_product_within(dy as int, dy as int, offset_limit(), offset_limit());
        lemma_product_within(dz as int, dz as int, offset_limit(), offset_limit());
        lemma_square(dx as int);
        lemma_square(dy as int);
        lemma_square(dz as int);
        lemma_product_within(normal.x as int, dx as int, 0x8000_0000_0000_0000, offset_limit());
        lemma_product_within(normal.y as int, dy as int, 0x8000_0000_0000_0000, offset_limit());
        lemma_product_within(normal.z as int, dz as int, 0x8000_0000_0000_0000, offset_limit());
    }
    let dist2: u128 = (dx * dx) as u128 + (dy * dy) as u128 + (dz * dz) as u128;
    let facing: i128 = (normal.x as i128) * dx + (normal.y as i128) * dy + (normal.z as i128) * dz;
    Facing { facing, den: normal.den, dist2 }
}

/// Whether the brightness reaches `level`.
fn reaches(level: u8, base: u8, ambient: u32, diffuse: u32, f: &Facing) -> (b: bool)
    requires
        f.den > 0,
        f.dist2 > 0,
        incidence_fits(diffuse as int, f@),
    ensures
        b == brightness_reaches(level as int, base as int, ambient as int, diffuse as int, f@),
{
    proof {
        lemma_product_at_most(base as int, ambient as int, 255, u32::MAX as int);
    }
    let short: i64 = (level as i64) * 1000 - (base as i64) * (ambient as i64);
    let ghost need = short * f.den;
    let ghost most = 255 * FULL_INTENSITY * f.den;
    if short <= 0 {
        proof {
            assert(need <= 0) by (nonlinear_arith)
                requires
                    short <= 0,
                    f.den > 0,
                    need == short * f.den,
            ;
        }
        return true;
    }
    proof {
        lemma_product_at_most(short as int, f.den as int, 255000, f.den as int);
        assert(0 < need <= most) by (nonlinear_arith)
            requires
                0 < short <= 255000,
                f.den > 0,
                need == short * f.den,
                most == 255000 * f.den,
        ;
        lemma_product_at_most(need, need, most, most);
        lemma_product_at_most(need * need, f.dist2 as int, most * most, f.dist2 as int);
        lemma_product_at_least(most * most, f.dist2 as int, most * most, 1);
    }
    let need_wide: u128 = (short as u128) * (f.den as u128);
    let left: u128 = need_wide * need_wide * f.dist2;
    let toward: u128 = if f.facing > 0 {
        f.facing as u128
    } else {
        0
    };
    proof {
        lemma_product_at_most(base as int, diffuse as int, 255, diffuse as int);
        lemma_product_at_most(
            base as int * diffuse as int,
            toward as int,
            255 * diffuse as int,
            toward as int,
        );
        let have = base as int * diffuse as int * toward as int;
        lemma_product_at_most(have, have, u64::MAX as int, u64::MAX as int);
    }
    let have: u128 = (base as u128) * (diffuse as u128) * toward;
    let right: u128 = have * have;
    left <= right
}

/// `base` times the lighting factor, rounded down, by bisection on the levels
/// from 0 to `base`.
fn light_channel(base: u8, ambient: u32, diffuse: u32, f: &Facing) -> (c: u8)
    requires
        f.den > 0,
        f.dist2 > 0,
        incidence_fits(diffuse as int, f@),
    ensures
        is_lit_channel(c as int, base as int, ambient as int, diffuse as int, f@),
        c == lit_channel(base as int, ambient as int, diffuse as int, f@),
{
    let mut low: u8 = 0;
    let mut high: u16 = base as u16 + 1;
    proof {
        assert((0 * 1000 - base as int * ambient as int) * f.den as int <= 0) by (nonlinear_arith)
            requires
                f.den > 0,
                base >= 0,
                ambient >= 0,
        ;
    }
    while (low as u16) + 1 < high
        invariant
            f.den > 0,
            f.dist2 > 0,
            incidence_fits(diffuse as int, f@),
            low < high <= base + 1,
            brightness_reaches(low as int, base as int, ambient as int, diffuse as int, f@),
            high <= base ==> !brightness_reaches(
                high as int,
                base as int,
                ambient as int,
                diffuse as int,
                f@,
            ),
        decreases high - low,
    {
        let mid: u8 = ((low as u16 + high) / 2) as u8;
        if reaches(mid, base, ambient, diffuse, f) {
            low = mid;
        } else {
            high = mid as u16;
        }
    }
    proof {
        lemma_lit_channel_is(low as int, base as int, ambient as int, diffuse as int, f@);
    }
    low
}

/// Whether the surface at `surface` can be lit from `light`: see
/// [`can_be_lit`].
pub fn can_light(surface: Vector3, normal: Vector3, light: Vector3, diffuse: u32) -> (ok: bool)
    ensures
        ok == can_be_lit(surface@, normal@, light@, diffuse as int),
{
    if !(surface.is_wf() && normal.is_wf() && light.is_wf()) {
        return false;
    }
    let d = vector_to(surface, light);
    let ghost inc = incidence(surface@, normal@, light@);
    let ghost most = 255 * FULL_INTENSITY * normal.den;
    proof {
        lemma_apart(surface@, light@);
        if lighting_fits(surface@, normal@, light@, diffuse as int) {
            lemma_fits_offset(normal.den as int, d.0 as int, d.1 as int, d.2 as int);
        }
    }
    let limit: i128 = 0x8000_0000_0000;
    if d.0 >= limit || d.0 <= -limit || d.1 >= limit || d.1 <= -limit || d.2 >= limit || d.2
        <= -limit {
        return false;
    }
    let f = measure(normal, d);
    assert(f@ == inc);
    if f.dist2 == 0 {
        return false;
    }
    let most_wide: u128 = 255000 * (normal.den as u128);
    if most_wide > u64::MAX as u128 {
        proof {
            lemma_product_at_least(most, most, 0x1_0000_0000_0000_0000, 0x1_0000_0000_0000_0000);
            lemma_product_at_least(most * most, inc.dist2, most * most, 1);
        }
        return false;
    }
    proof {
        lemma_product_at_most(most, most, u64::MAX as int, u64::MAX as int);
    }
    let square: u128 = most_wide * most_wide;
    if square.checked_mul(f.dist2).is_none() {
        return false;
    }
    if diffuse == 0 {
        proof {
            assert(255 * 0 * (if inc.facing >= 0 {
                inc.facing
            } else {
                -inc.facing
            }) == 0) by (nonlinear_arith);
        }
        return true;
    }
    let size: u128 = if f.facing < 0 {
        (-f.facing) as u128
    } else {
        f.facing as u128
    };
    let lamp: u128 = 255 * (diffuse as u128);
    if size > u64::MAX as u128 {
        proof {
            lemma_product_at_least(lamp as int, size as int, 255, 0x1_0000_0000_0000_0000);
        }
        return false;
    }
    proof {
        lemma_product_at_most(lamp as int, size as int, 1095216660225, u64::MAX as int);
    }
    lamp * size <= u64::MAX as u128
}

/// The colour of a surface under one point light: red, green and blue of
/// `base_color` are scaled by `min(1, ambient + diffuse · max(0, n · l))` and
/// rounded down, and alpha is kept. `n` is `surface_normal` as it is given,
/// `l` the unit vector from `surface_position` to `light_position`, and the
/// two intensities are in thousandths.
///
/// The surface must be apart from the light, and the lighting within the
/// machine's limits: [`can_light`] tells.
pub fn calculate_diffuse_lighting(
    surface_position: Vector3,
    surface_normal: Vector3,
    light_position: Vector3,
    base_color: Color,
    ambient_intensity: u32,
    diffuse_intensity: u32,
) -> (lit: Color)
    requires
        can_be_lit(
            surface_position@,
            surface_normal@,
            light_position@,
            diffuse_intensity as int,
        ),
    ensures
        lit == shaded(
            surface_position@,
            surface_normal@,
            light_position@,
            base_color,
            ambient_intensity as int,
            diffuse_intensity as int,
        ),
        lit.a == base_color.a,
        is_lit_channel(
            lit.r as int,
            base_color.r as int,
            ambient_intensity as int,
            diffuse_intensity as int,
            incidence(surface_position@, surface_normal@, light_position@),
        ),
        is_lit_channel(
            lit.g as int,
            base_color.g as int,
            ambient_intensity as int,
            diffuse_intensity as int,
            incidence(surface_position@, surface_normal@, light_position@),
        ),
        is_lit_channel(
            lit.b as int,
            base_color.b as int,
            ambient_intensity as int,
            diffuse_intensity as int,
            incidence(surface_position@, surface_normal@, light_position@),
        ),
{
    let d = vector_to(surface_position, light_position);
    proof {
        lemma_apart(surface_position@, light_position@);
        lemma_fits_offset(surface_normal.den as int, d.0 as int, d.1 as int, d.2 as int);
    }
    let f = measure(surface_normal, d);
    assert(f@ == incidence(surface_position@, surface_normal@, light_position@));
    Color {
        r: light_channel(base_color.r, ambient_intensity, diffuse_intensity, &f),
        g: light_channel(base_color.g, ambient_intensity, diffuse_intensity, &f),
        b: light_channel(base_color.b, ambient_intensity, diffuse_intensity, &f),
        a: base_color.a,
    }
}

} // verus!
