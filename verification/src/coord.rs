//! Vectors, quaternions and the coordinate adapter.
//!
//! The interchange scene is Y-up right-handed; the target engine swaps the
//! Y and Z axes. A vector swaps its last two components; a rotation swaps
//! and negates the axis part of the quaternion, keeping the scalar part.

use vstd::prelude::*;
use crate::fp::{Fp, fp_zero, fp_one, quantize_quat_c, quantize_quat_component, lemma_quantize_quat_component_in_range};

verus! {

/// A vector of exact scalars.
#[derive(Clone, Copy, PartialEq, Eq, Structural, Debug)]
pub struct Vec3 {
    pub x: Fp,
    pub y: Fp,
    pub z: Fp,
}

/// A quaternion of exact scalars, `w` the scalar part.
#[derive(Clone, Copy, PartialEq, Eq, Structural, Debug)]
pub struct Quat {
    pub x: Fp,
    pub y: Fp,
    pub z: Fp,
    pub w: Fp,
}

/// A quaternion quantized to four signed 16-bit components.
#[derive(Clone, Copy, PartialEq, Eq, Structural, Debug)]
pub struct ShortQuat {
    pub x: i16,
    pub y: i16,
    pub z: i16,
    pub w: i16,
}

impl Vec3 {
    pub open spec fn wf(self) -> bool {
        self.x.wf() && self.y.wf() && self.z.wf()
    }
}

impl Quat {
    pub open spec fn wf(self) -> bool {
        self.x.wf() && self.y.wf() && self.z.wf() && self.w.wf()
    }
}

/// The zero vector.
pub open spec fn vec3_zero() -> Vec3 {
    Vec3 { x: fp_zero(), y: fp_zero(), z: fp_zero() }
}

/// The identity rotation.
pub open spec fn quat_identity() -> Quat {
    Quat { x: fp_zero(), y: fp_zero(), z: fp_zero(), w: fp_one() }
}

/// Exact negation of a scalar.
pub open spec fn fp_neg_s(v: Fp) -> Fp {
    Fp { m: (-v.m) as i64, e: v.e }
}

/// A vector mapped into the target coordinate system: Y and Z swap.
pub open spec fn to_rf_vec_s(v: Vec3) -> Vec3 {
    Vec3 { x: v.x, y: v.z, z: v.y }
}

/// A rotation mapped into the target coordinate system: the axis part is
/// negated with its Y and Z swapped, the scalar part kept.
pub open spec fn to_rf_quat_s(q: Quat) -> Quat {
    Quat { x: fp_neg_s(q.x), y: fp_neg_s(q.z), z: fp_neg_s(q.y), w: q.w }
}

/// Each component quantized to 16 bits.
pub open spec fn quantize_quat_s(q: Quat) -> ShortQuat {
    ShortQuat {
        x: quantize_quat_c(q.x) as i16,
        y: quantize_quat_c(q.y) as i16,
        z: quantize_quat_c(q.z) as i16,
        w: quantize_quat_c(q.w) as i16,
    }
}

fn fp_neg(v: Fp) -> (r: Fp)
    requires
        v.wf(),
    ensures
        r == fp_neg_s(v),
        r.wf(),
{
    Fp { m: -v.m, e: v.e }
}

/// Converts a vector from the interchange coordinate system to the target
/// engine's.
pub fn to_rf_vec(v: Vec3) -> (r: Vec3)
    requires
        v.wf(),
    ensures
        r == to_rf_vec_s(v),
        r.wf(),
{
    Vec3 { x: v.x, y: v.z, z: v.y }
}

/// Converts a quaternion from the interchange coordinate system to the
/// target engine's.
pub fn to_rf_quat(q: Quat) -> (r: Quat)
    requires
        q.wf(),
    ensures
        r == to_rf_quat_s(q),
        r.wf(),
{
    Quat { x: fp_neg(q.x), y: fp_neg(q.z), z: fp_neg(q.y), w: q.w }
}

/// A quaternion whose components all lie in `[-1, 1]` (true of every
/// unit quaternion) quantizes into `[-16383, 16383]` on every component:
/// 16383 never overflows the 16-bit range.
pub proof fn lemma_quantize_quat_in_range(q: Quat)
    requires
        q.wf(),
        q.x.in_unit(),
        q.y.in_unit(),
        q.z.in_unit(),
        q.w.in_unit(),
    ensures
        -16383 <= quantize_quat_s(q).x <= 16383,
        -16383 <= quantize_quat_s(q).y <= 16383,
        -16383 <= quantize_quat_s(q).z <= 16383,
        -16383 <= quantize_quat_s(q).w <= 16383,
{
    lemma_quantize_quat_component_in_range(q.x);
    lemma_quantize_quat_component_in_range(q.y);
    lemma_quantize_quat_component_in_range(q.z);
    lemma_quantize_quat_component_in_range(q.w);
}

/// Quantizes a unit quaternion's components to four signed 16-bit values,
/// each scaled by 16383 and truncated toward zero.
pub fn quantize_quat(q: Quat) -> (r: ShortQuat)
    requires
        q.wf(),
    ensures
        r == quantize_quat_s(q),
{
    ShortQuat {
        x: quantize_quat_component(q.x),
        y: quantize_quat_component(q.y),
        z: quantize_quat_component(q.z),
        w: quantize_quat_component(q.w),
    }
}

} // verus!
