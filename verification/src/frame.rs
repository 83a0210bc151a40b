//! What one frame of the animation decides: how far the cube has turned, and
//! the colour it is drawn in.

use vstd::prelude::*;
use crate::angle::{Angle, Turn};
use crate::arith::{lemma_product_at_most, lemma_product_within};
use crate::color::Color;
use crate::composite::{composite_color, composited};
use crate::rotate::{can_be_rotated, checked_rotate_vector, lemma_rotated_wf, rotated};
use crate::rotate_laws::lemma_rotated_within;
use crate::shade::{
    calculate_diffuse_lighting, can_be_lit, can_light, incidence, shaded, FULL_INTENSITY,
};
use crate::shade_laws::lemma_apart;
use crate::vector::{Rational3, Vector3};

verus! {

/// What stays fixed while the animation runs.
#[derive(Clone, Copy, Debug, PartialEq, Eq, Structural)]
pub struct Config {
    /// Degrees per second about the X axis.
    pub angular_velocity_x: u32,
    /// Degrees per second about the Y axis.
    pub angular_velocity_y: u32,
    /// Degrees per second about the Z axis.
    pub angular_velocity_z: u32,
    /// Where the light is.
    pub light_position: Vector3,
    /// The ambient intensity, in thousandths.
    pub ambient_intensity: u32,
    /// The diffuse intensity, in thousandths.
    pub diffuse_intensity: u32,
}

impl Config {
    /// The scene of the cube: 20, 30 and 25 degrees per second about X, Y and
    /// Z, the light at (3, 4, 2), ambient intensity 0.3 and diffuse
    /// intensity 0.7.
    pub fn new() -> (config: Config)
        ensures
            config == (Config {
                angular_velocity_x: 20,
                angular_velocity_y: 30,
                angular_velocity_z: 25,
                light_position: Vector3 { x: 3, y: 4, z: 2, den: 1 },
                ambient_intensity: 300,
                diffuse_intensity: 700,
            }),
    {
        Config {
            angular_velocity_x: 20,
            angular_velocity_y: 30,
            angular_velocity_z: 25,
            light_position: Vector3::new(3, 4, 2),
            ambient_intensity: 300,
            diffuse_intensity: 700,
        }
    }
}

/// The millionths of a degree turned in `micros` microseconds at `velocity`
/// degrees per second.
fn turned_in(velocity: u32, micros: u32) -> (turned: u64)
    ensures
        turned == velocity * micros,
{
    proof {
        lemma_product_at_most(velocity as int, micros as int, u32::MAX as int, u32::MAX as int);
    }
    (velocity as u64) * (micros as u64)
}

/// How far the cube has turned about each axis, in millionths of a degree.
#[derive(Clone, Copy, Debug, PartialEq, Eq, Structural)]
pub struct RotationState {
    pub x: u64,
    pub y: u64,
    pub z: u64,
}

impl RotationState {
    /// The cube before it has turned: all three angles are 0.
    pub fn new() -> (state: RotationState)
        ensures
            state == (RotationState { x: 0, y: 0, z: 0 }),
    {
        RotationState { x: 0, y: 0, z: 0 }
    }

    /// The three angles after `micros` more microseconds can still be held.
    pub open spec fn advance_fits(self, config: Config, micros: u32) -> bool {
        &&& self.x + config.angular_velocity_x * micros <= u64::MAX
        &&& self.y + config.angular_velocity_y * micros <= u64::MAX
        &&& self.z + config.angular_velocity_z * micros <= u64::MAX
    }

    /// Whether [`advance`](Self::advance) can be called: see
    /// [`advance_fits`](Self::advance_fits).
    pub fn can_advance(&self, config: &Config, micros: u32) -> (ok: bool)
        ensures
            ok == self.advance_fits(*config, micros),
    {
        let dx = turned_in(config.angular_velocity_x, micros);
        let dy = turned_in(config.angular_velocity_y, micros);
        let dz = turned_in(config.angular_velocity_z, micros);
        dx <= u64::MAX - self.x && dy <= u64::MAX - self.y && dz <= u64::MAX - self.z
    }

    /// Turns the cube on by `micros` microseconds: each angle grows by its
    /// angular velocity times the time. A degree per second is a millionth of
    /// a degree per microsecond, so nothing is rounded.
    pub fn advance(&mut self, config: &Config, micros: u32)
        requires
            old(self).advance_fits(*config, micros),
        ensures
            final(self).x == old(self).x + config.angular_velocity_x * micros,
            final(self).y == old(self).y + config.angular_velocity_y * micros,
            final(self).z == old(self).z + config.angular_velocity_z * micros,
            final(self).x >= old(self).x,
            final(self).y >= old(self).y,
            final(self).z >= old(self).z,
    {
        self.x = self.x + turned_in(config.angular_velocity_x, micros);
        self.y = self.y + turned_in(config.angular_velocity_y, micros);
        self.z = self.z + turned_in(config.angular_velocity_z, micros);
    }
}

/// The normal of the cube's front face before it turns: +Z.
pub open spec fn front_normal() -> Rational3 {
    Rational3 { x: 0, y: 0, z: 1, den: 1 }
}

/// The normal of the cube's top face before it turns: +Y.
pub open spec fn top_normal() -> Rational3 {
    Rational3 { x: 0, y: 1, z: 0, den: 1 }
}

/// The normal of the cube's right face before it turns: +X.
pub open spec fn right_normal() -> Rational3 {
    Rational3 { x: 1, y: 0, z: 0, den: 1 }
}

/// The face with the normal `normal` can be turned and lit: the normal can be
/// rotated by the three angles, and the face at `position` with the rotated
/// normal can be lit.
pub open spec fn face_in_range(
    config: Config,
    position: Rational3,
    normal: Rational3,
    angle_x: Turn,
    angle_y: Turn,
    angle_z: Turn,
) -> bool {
    &&& can_be_rotated(normal, angle_x, angle_y, angle_z)
    &&& can_be_lit(
        position,
        rotated(normal, angle_x, angle_y, angle_z),
        config.light_position@,
        config.diffuse_intensity as int,
    )
}

/// The colour of the face with the normal `normal`, once the cube has turned:
/// the normal is rotated by the three angles and the face is shaded at the
/// cube's position.
pub open spec fn face_color(
    config: Config,
    position: Rational3,
    base: Color,
    normal: Rational3,
    angle_x: Turn,
    angle_y: Turn,
    angle_z: Turn,
) -> Color {
    shaded(
        position,
        rotated(normal, angle_x, angle_y, angle_z),
        config.light_position@,
        base,
        config.ambient_intensity as int,
        config.diffuse_intensity as int,
    )
}

/// All three faces can be turned and lit.
pub open spec fn cube_in_range(
    config: Config,
    position: Rational3,
    angle_x: Turn,
    angle_y: Turn,
    angle_z: Turn,
) -> bool {
    &&& face_in_range(config, position, front_normal(), angle_x, angle_y, angle_z)
    &&& face_in_range(config, position, top_normal(), angle_x, angle_y, angle_z)
    &&& face_in_range(config, position, right_normal(), angle_x, angle_y, angle_z)
}

/// The colour of the cube's body: its front, top and right faces are shaded,
/// and the three colours are composited.
pub open spec fn cube_color(
    config: Config,
    position: Rational3,
    base: Color,
    angle_x: Turn,
    angle_y: Turn,
    angle_z: Turn,
) -> Color {
    composited(
        base,
        face_color(config, position, base, front_normal(), angle_x, angle_y, angle_z),
        face_color(config, position, base, top_normal(), angle_x, angle_y, angle_z),
        face_color(config, position, base, right_normal(), angle_x, angle_y, angle_z),
    )
}

/// The colour of one face, where it can be turned and lit.
fn light_face(
    config: &Config,
    position: Vector3,
    base: Color,
    normal: Vector3,
    angle_x: Angle,
    angle_y: Angle,
    angle_z: Angle,
) -> (c: Option<Color>)
    ensures
        c == (if face_in_range(*config, position@, normal@, angle_x@, angle_y@, angle_z@) {
            Some(face_color(*config, position@, base, normal@, angle_x@, angle_y@, angle_z@))
        } else {
            None
        }),
{
    match checked_rotate_vector(normal, angle_x, angle_y, angle_z) {
        None => None,
        Some(turned) => {
            if can_light(position, turned, config.light_position, config.diffuse_intensity) {
                Some(
                    calculate_diffuse_lighting(
                        position,
                        turned,
                        config.light_position,
                        base,
                        config.ambient_intensity,
                        config.diffuse_intensity,
                    ),
                )
            } else {
                None
            }
        },
    }
}

/// The colour in which the cube's body is drawn, once the cube has turned by
/// the three angles: the normals of its front, top and right faces, +Z, +Y
/// and +X, are rotated, each face is shaded at `position` in the colour
/// `base`, and the three colours are composited.
///
/// There is no colour where a vector or an angle is not well formed, where
/// the cube is at the light, or where a rotated normal or the lighting passes
/// the machine's limits: see [`cube_in_range`].
pub fn lit_cube_color(
    config: &Config,
    position: Vector3,
    base: Color,
    angle_x: Angle,
    angle_y: Angle,
    angle_z: Angle,
) -> (c: Option<Color>)
    ensures
        c == (if cube_in_range(*config, position@, angle_x@, angle_y@, angle_z@) {
            Some(cube_color(*config, position@, base, angle_x@, angle_y@, angle_z@))
        } else {
            None
        }),
{
    let front = light_face(
        config,
        position,
        base,
        Vector3::new(0, 0, 1),
        angle_x,
        angle_y,
        angle_z,
    );
    let top = light_face(config, position, base, Vector3::new(0, 1, 0), angle_x, angle_y, angle_z);
    let right = light_face(
        config,
        position,
        base,
        Vector3::new(1, 0, 0),
        angle_x,
        angle_y,
        angle_z,
    );
    match (front, top, right) {
        (Some(f), Some(t), Some(r)) => Some(composite_color(base, f, t, r)),
        _ => None,
    }
}

/// The largest denominator of an angle for which [`lemma_near_light_in_range`]
/// answers.
pub const FINE_DENOMINATOR: i16 = 8192;

/// A face whose normal has whole coordinates of magnitude at most 1 can be
/// turned and lit wherever [`lemma_near_light_in_range`] says that the cube
/// can.
proof fn lemma_face_in_range(
    config: Config,
    position: Vector3,
    normal: Rational3,
    angle_x: Angle,
    angle_y: Angle,
    angle_z: Angle,
)
    requires
        angle_x.wf() && angle_x.den <= FINE_DENOMINATOR,
        angle_y.wf() && angle_y.den <= FINE_DENOMINATOR,
        angle_z.wf() && angle_z.den <= FINE_DENOMINATOR,
        normal.within(1) && normal.den == 1,
        position.den == 1 && config.light_position.den == 1,
        !position@.same_point(config.light_position@),
        position@.to(config.light_position@).within(4),
        config.diffuse_intensity <= FULL_INTENSITY,
    ensures
        face_in_range(config, position@, normal, angle_x@, angle_y@, angle_z@),
{
    let turned = rotated(normal, angle_x@, angle_y@, angle_z@);
    let to_light = position@.to(config.light_position@);
    let inc = incidence(position@, turned, config.light_position@);
    let most = 255 * FULL_INTENSITY * inc.den;
    let size = if inc.facing >= 0 {
        inc.facing
    } else {
        -inc.facing
    };
    lemma_rotated_within(normal, angle_x@, angle_y@, angle_z@, 1, 8192);
    assert(turned.within(0x400_0000_0000));
    lemma_rotated_wf(normal, angle_x@, angle_y@, angle_z@);
    lemma_product_at_most(angle_y.den as int, angle_x.den as int, 8192, 8192);
    lemma_product_at_most(
        angle_y.den as int * angle_x.den as int,
        angle_z.den as int,
        0x400_0000,
        8192,
    );
    assert(turned.den == angle_y.den as int * angle_x.den as int * angle_z.den as int);
    assert(0 < turned.den <= 0x80_0000_0000);
    assert(0 < most <= 140187732541440000) by (nonlinear_arith)
        requires
            most == 255 * 1000 * turned.den,
            0 < turned.den <= 0x80_0000_0000,
    ;
    lemma_product_at_most(most, most, 140187732541440000, 140187732541440000);
    lemma_apart(position@, config.light_position@);
    lemma_product_within(to_light.x, to_light.x, 4, 4);
    lemma_product_within(to_light.y, to_light.y, 4, 4);
    lemma_product_within(to_light.z, to_light.z, 4, 4);
    lemma_product_at_most(
        most * most,
        inc.dist2,
        19652600355110315521317273600000000,
        48,
    );
    lemma_product_within(turned.x, to_light.x, 0x400_0000_0000, 4);
    lemma_product_within(turned.y, to_light.y, 0x400_0000_0000, 4);
    lemma_product_within(turned.z, to_light.z, 0x400_0000_0000, 4);
    assert(size <= 0x3000_0000_0000);
    lemma_product_at_most(
        255 * config.diffuse_intensity as int,
        size,
        255000,
        0x3000_0000_0000,
    );
}

/// A cube near its light can always be coloured. Where the cube and the light
/// stand at whole coordinates, no further than 4 apart along each axis and
/// not at one place, the diffuse intensity is at most 1, and the denominators
/// of the three angles are at most [`FINE_DENOMINATOR`], the scene is within
/// the machine's limits: [`lit_cube_color`] gives a colour.
pub proof fn lemma_near_light_in_range(
    config: Config,
    position: Vector3,
    angle_x: Angle,
    angle_y: Angle,
    angle_z: Angle,
)
    requires
        angle_x.wf() && angle_x.den <= FINE_DENOMINATOR,
        angle_y.wf() && angle_y.den <= FINE_DENOMINATOR,
        angle_z.wf() && angle_z.den <= FINE_DENOMINATOR,
        position.den == 1 && config.light_position.den == 1,
        !position@.same_point(config.light_position@),
        position@.to(config.light_position@).within(4),
        config.diffuse_intensity <= FULL_INTENSITY,
    ensures
        cube_in_range(config, position@, angle_x@, angle_y@, angle_z@),
{
    lemma_face_in_range(config, position, front_normal(), angle_x, angle_y, angle_z);
    lemma_face_in_range(config, position, top_normal(), angle_x, angle_y, angle_z);
    lemma_face_in_range(config, position, right_normal(), angle_x, angle_y, angle_z);
}

} // verus!
