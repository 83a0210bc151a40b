//! A turning cube under one point light, in exact arithmetic.
//!
//! A vector is a point of rational space, three numerators over one
//! denominator, and an angle is a cosine and a sine over a denominator. On
//! these the library rotates vectors about the three axes, shades a surface
//! by ambient and diffuse light, composites the shading of three faces of a
//! cube into one colour, and advances the angles of the turning cube. Nothing
//! is rounded but where a colour channel is: the contracts say which rational
//! or which integer every result is.
//!
//! - [`vector`], [`angle`], [`color`]: the values.
//! - [`rotate`]: the rotation; [`rotate_laws`]: what holds of every rotation.
//! - [`shade`]: the lighting; [`shade_laws`]: what holds of every shading.
//! - [`composite`]: one colour from three faces.
//! - [`frame`]: the angles of the cube from frame to frame, and its colour.

mod arith;
pub mod angle;
pub mod color;
pub mod composite;
pub mod frame;
pub mod rotate;
pub mod rotate_laws;
pub mod shade;
pub mod shade_laws;
pub mod vector;
