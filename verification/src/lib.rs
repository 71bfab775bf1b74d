//! Terrain planes in fixed-point arithmetic: grid meshes, a stack of
//! modifiers that shape them, a colour policy, per-vertex overrides and the
//! records that persist them.
//!
//! Every real quantity (a coordinate, a height, a colour channel) is a
//! [`scalar::Scalar`]: a signed count of thousandths. All arithmetic is
//! exact integer arithmetic with a stated rounding, so a plane is rebuilt
//! bit for bit from its configuration on every machine.

pub mod scalar;
pub mod utils;
pub mod mesh;
pub mod color;
pub mod color_gradient;
pub mod wave;
pub mod noise;
pub mod modifiers;
pub mod engine;
pub mod wanders;
pub mod planes;
pub mod vertex;
pub mod io;
