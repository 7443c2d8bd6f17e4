//! Conversion of skeletal animation and skeleton data from an interchange
//! scene into a game engine's fixed-point, fixed-tick animation records and
//! bone-hierarchy lists.
//!
//! Scalar inputs (timestamps, quaternion and vector components) are carried
//! as exact dyadic values (`fp::Fp`), so time and rotation quantization are
//! exact integer arithmetic with truncation-toward-zero semantics.

pub mod anim;
pub mod coord;
pub mod fp;
pub mod keys;
pub mod names;
pub mod skeleton;
