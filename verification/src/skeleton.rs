//! Bone-hierarchy resolution.
//!
//! Runs once per skeleton, independent of any animation: it validates the
//! joint count against the format's hard bone limit, checks that one
//! decomposed inverse bind matrix came in per joint, rejects bind-pose
//! scales beyond tolerance of one, converts the bind rotation and
//! translation into the target coordinate system, and resolves each
//! joint's parent to a position within the skeleton's own joint order.

use vstd::prelude::*;
use vstd::arithmetic::power2::{pow2, lemma_pow2_pos, lemma_pow2_adds, lemma_pow2_strictly_increases, lemma2_to64};
use vstd::arithmetic::mul::{lemma_mul_inequality, lemma_mul_inequality_converse};
use crate::fp::Fp;
use crate::coord::{Vec3, Quat, to_rf_vec_s, to_rf_quat_s, to_rf_vec, to_rf_quat};
use crate::fp::pow2_u64;
use crate::keys::{first_match, lemma_first_match_props};
use crate::names::{dec_digits, prefixed_decimal};

verus! {

/// The target format's hard bone-count limit.
pub const MAX_BONES: usize = 50;

/// A joint of the source skeleton: its scene node index, its optional
/// name, and the scene indices of its direct children.
pub struct Joint {
    pub index: usize,
    pub name: Option<String>,
    pub children: Vec<usize>,
}

/// A joint's inverse bind matrix, decomposed into scale, rotation and
/// translation: the only reading of it this pipeline takes.
#[derive(Clone, Copy, PartialEq, Eq, Structural, Debug)]
pub struct BindTransform {
    pub scale: Vec3,
    pub rotation: Quat,
    pub translation: Vec3,
}

/// A skeleton: its ordered joints and one decomposed inverse bind matrix
/// per joint, in joint order.
pub struct Skin {
    pub joints: Vec<Joint>,
    pub inverse_bind: Vec<BindTransform>,
}

/// The fatal, whole-skeleton error kinds of the conversion.
#[derive(Clone, Copy, PartialEq, Eq, Structural, Debug)]
pub enum ConvertError {
    /// More joints than the target format can hold.
    CapacityExceeded { joints: usize, max: usize },
    /// Parallel collaborator sequences disagree in length.
    DataMismatch { expected: usize, found: usize },
    /// A bind-pose scale beyond tolerance of one on some axis.
    UnsupportedTransform { joint: usize },
}

/// One bone record of the target mesh format. `parent_index` is the
/// parent's position within the skeleton's joint order, or -1 for a root.
#[derive(Debug)]
pub struct SkeletonBone {
    pub name: String,
    pub base_rotation: Quat,
    pub base_translation: Vec3,
    pub parent_index: i32,
}

impl BindTransform {
    pub open spec fn wf(self) -> bool {
        self.scale.wf() && self.rotation.wf() && self.translation.wf()
    }
}

impl Skin {
    pub open spec fn wf(self) -> bool {
        forall|i: int|
            0 <= i < self.inverse_bind@.len() ==> (#[trigger] self.inverse_bind@[i]).wf()
    }
}

/// A scale component within 0.01 of one, exactly: `99/100 <= s <= 101/100`.
pub open spec fn scale_ok(s: Fp) -> bool {
    99 * pow2(150) <= 100 * s.scaled() <= 101 * pow2(150)
}

/// Unit uniform scale within tolerance on every axis.
pub open spec fn transform_scale_ok(t: BindTransform) -> bool {
    scale_ok(t.scale.x) && scale_ok(t.scale.y) && scale_ok(t.scale.z)
}

pub open spec fn bad_scale_pred() -> spec_fn(BindTransform) -> bool {
    |t: BindTransform| !transform_scale_ok(t)
}

proof fn lemma_mul_le_iff(a: int, b: int, k: int)
    requires
        0 < k,
    ensures
        (a * k <= b * k) <==> (a <= b),
{
    if a <= b {
        lemma_mul_inequality(a, b, k);
    }
    if a * k <= b * k {
        lemma_mul_inequality_converse(a, b, k);
    }
}

fn scale_within_tolerance(s: Fp) -> (b: bool)
    requires
        s.wf(),
    ensures
        b == scale_ok(s),
{
    proof {
        lemma_pow2_pos(150);
        lemma_pow2_pos((s.e + 150) as nat);
    }
    let ghost kk = pow2((s.e + 150) as nat) as int;
    let ghost p150 = pow2(150) as int;
    if s.m <= 0 {
        proof {
            assert(100 * (s.m * kk) <= 0) by (nonlinear_arith)
                requires
                    s.m <= 0 && kk > 0,
            ;
        }
        false
    } else if s.e >= 0 {
        proof {
            lemma_pow2_adds(s.e as nat, 150);
            lemma_pow2_pos(s.e as nat);
        }
        let ghost pe = pow2(s.e as nat) as int;
        if s.m == 1 && s.e == 0 {
            proof {
                assert(s.scaled() == p150) by (nonlinear_arith)
                    requires
                        s.scaled() == 1int * kk && kk == p150,
                ;
            }
            true
        } else {
            proof {
                if s.e >= 1 {
                    lemma_pow2_strictly_increases(0, s.e as nat);
                    lemma2_to64();
                }
                assert(s.m * pe >= 2) by (nonlinear_arith)
                    requires
                        (s.m >= 2 && pe >= 1) || (s.m >= 1 && pe >= 2),
                ;
                assert(100 * (s.m * (pe * p150)) == (100 * (s.m * pe)) * p150)
                    by (nonlinear_arith);
                lemma_mul_le_iff(100 * (s.m * pe), 101, p150);
            }
            false
        }
    } else {
        proof {
            lemma_pow2_adds((s.e + 150) as nat, (-s.e) as nat);
            lemma_pow2_pos((-s.e) as nat);
        }
        let ghost pd = pow2((-s.e) as nat) as int;
        proof {
            assert(100 * (s.m * kk) == (100 * s.m) * kk) by (nonlinear_arith);
            assert(99 * (kk * pd) == (99 * pd) * kk) by (nonlinear_arith);
            assert(101 * (kk * pd) == (101 * pd) * kk) by (nonlinear_arith);
            lemma_mul_le_iff(99 * pd, 100 * s.m, kk);
            lemma_mul_le_iff(100 * s.m, 101 * pd, kk);
        }
        if s.e <= -31 {
            proof {
                if s.e < -31 {
                    lemma_pow2_strictly_increases(31, (-s.e) as nat);
                }
                lemma2_to64();
            }
            false
        } else {
            let p: u64 = pow2_u64((-s.e) as u64);
            proof {
                lemma_pow2_strictly_increases((-s.e) as nat, 31);
                lemma2_to64();
            }
            let lo: i64 = 99 * (p as i64);
            let hi: i64 = 101 * (p as i64);
            let v: i64 = 100 * s.m;
            lo <= v && v <= hi
        }
    }
}

pub open spec fn parent_pred(idx: usize) -> spec_fn(Joint) -> bool {
    |p: Joint| p.children@.contains(idx)
}

pub open spec fn index_pred(idx: usize) -> spec_fn(Joint) -> bool {
    |p: Joint| p.index == idx
}

/// The position in joint order of the first joint whose children list
/// scene index `idx`, or -1 when no joint in the skeleton does.
pub open spec fn parent_pos(joints: Seq<Joint>, idx: usize) -> int {
    first_match(joints, parent_pred(idx))
}

/// The position in joint order of the first joint with scene index `idx`,
/// or -1.
pub open spec fn index_pos(joints: Seq<Joint>, idx: usize) -> int {
    first_match(joints, index_pred(idx))
}

/// The parent index recorded for the joint with scene index `idx`: the
/// position of its parent within the skeleton's joint order, or -1 when
/// no joint of the skeleton lists it as a child.
pub open spec fn parent_index_spec(joints: Seq<Joint>, idx: usize) -> int {
    let p = parent_pos(joints, idx);
    if p < 0 {
        -1
    } else {
        index_pos(joints, joints[p].index)
    }
}

fn contains_index(v: &Vec<usize>, x: usize) -> (b: bool)
    ensures
        b == v@.contains(x),
{
    let n = v.len();
    let mut i: usize = 0;
    while i < n
        invariant
            i <= n,
            n == v@.len(),
            forall|t: int| 0 <= t < i ==> v@[t] != x,
        decreases n - i,
    {
        if v[i] == x {
            return true;
        }
        i = i + 1;
    }
    false
}

/// The position of the first joint that lists scene index `node_index`
/// among its children, or `None` when no joint of the skeleton does.
pub fn get_joint_parent(joints: &Vec<Joint>, node_index: usize) -> (r: Option<usize>)
    ensures
        parent_pos(joints@, node_index) < 0 ==> r is None,
        parent_pos(joints@, node_index) >= 0 ==> r == Some(parent_pos(joints@, node_index) as usize),
{
    let ghost pred = parent_pred(node_index);
    let n = joints.len();
    let mut i: usize = 0;
    while i < n
        invariant
            i <= n,
            n == joints@.len(),
            pred == parent_pred(node_index),
            forall|t: int| 0 <= t < i ==> !pred(#[trigger] joints@[t]),
        decreases n - i,
    {
        if contains_index(&joints[i].children, node_index) {
            proof {
                assert(pred(joints@[i as int]));
                lemma_first_match_props(joints@, pred);
                let fm = first_match(joints@, pred);
                if fm == -1 {
                    assert(!pred(joints@[i as int]));
                }
                if 0 <= fm < i as int {
                    assert(!pred(joints@[fm]));
                }
                if fm > i as int {
                    assert(!pred(joints@[i as int]));
                }
            }
            return Some(i);
        }
        i = i + 1;
    }
    proof {
        lemma_first_match_props(joints@, pred);
        let fm = first_match(joints@, pred);
        if fm != -1 {
            assert(!pred(joints@[fm]));
        }
    }
    None
}

/// The position within the skeleton's joint order of the first joint with
/// scene index `node_index`, which must be present.
pub fn get_joint_index(joints: &Vec<Joint>, node_index: usize) -> (i: usize)
    requires
        index_pos(joints@, node_index) >= 0,
    ensures
        i as int == index_pos(joints@, node_index),
{
    let ghost pred = index_pred(node_index);
    proof {
        lemma_first_match_props(joints@, pred);
    }
    let n = joints.len();
    let mut i: usize = 0;
    while i < n
        invariant
            i <= n,
            n == joints@.len(),
            pred == index_pred(node_index),
            index_pos(joints@, node_index) >= 0,
            forall|t: int| 0 <= t < i ==> !pred(#[trigger] joints@[t]),
        decreases n - i,
    {
        if joints[i].index == node_index {
            proof {
                assert(pred(joints@[i as int]));
                lemma_first_match_props(joints@, pred);
                let fm = first_match(joints@, pred);
                if 0 <= fm < i as int {
                    assert(!pred(joints@[fm]));
                }
                if fm > i as int {
                    assert(!pred(joints@[i as int]));
                }
            }
            return i;
        }
        i = i + 1;
    }
    proof {
        let fm = index_pos(joints@, node_index);
        assert(pred(joints@[fm]));
        assert(false);
    }
    0
}

/// What `convert_bone` promises of a produced bone record: bind rotation
/// and translation coordinate-converted, the joint's name or a default
/// `bone_<index>`, and the parent resolved within the skeleton's order.
pub open spec fn bone_spec_ok(
    b: SkeletonBone,
    joint: Joint,
    t: BindTransform,
    index: usize,
    joints: Seq<Joint>,
) -> bool {
    &&& b.base_rotation == to_rf_quat_s(t.rotation)
    &&& b.base_translation == to_rf_vec_s(t.translation)
    &&& b.parent_index as int == parent_index_spec(joints, joint.index)
    &&& match joint.name {
        Some(n) => b.name@ == n@,
        None => b.name@ == "bone_"@ + dec_digits(index as nat),
    }
}

/// Converts one joint into a bone record, or fails when its bind-pose
/// scale deviates from one beyond tolerance on any axis.
pub fn convert_bone(
    joint: &Joint,
    transform: &BindTransform,
    index: usize,
    joints: &Vec<Joint>,
) -> (r: Result<SkeletonBone, ConvertError>)
    requires
        transform.wf(),
        joints@.len() <= 0x7fff_ffff,
    ensures
        r is Ok <==> transform_scale_ok(*transform),
        r matches Err(e) ==> e == (ConvertError::UnsupportedTransform { joint: index }),
        r matches Ok(b) ==> bone_spec_ok(b, *joint, *transform, index, joints@),
{
    let sx = scale_within_tolerance(transform.scale.x);
    let sy = scale_within_tolerance(transform.scale.y);
    let sz = scale_within_tolerance(transform.scale.z);
    if !(sx && sy && sz) {
        return Err(ConvertError::UnsupportedTransform { joint: index });
    }
    let name = match &joint.name {
        Some(n) => n.clone(),
        None => prefixed_decimal("bone_", index as u64),
    };
    let parent = get_joint_parent(joints, joint.index);
    let parent_index: i32 = match parent {
        Some(p) => {
            proof {
                lemma_first_match_props(joints@, parent_pred(joint.index));
                assert(index_pred(joints@[p as int].index)(joints@[p as int]));
                lemma_first_match_props(joints@, index_pred(joints@[p as int].index));
                let fm = index_pos(joints@, joints@[p as int].index);
                if fm == -1 {
                    assert(!index_pred(joints@[p as int].index)(joints@[p as int]));
                }
            }
            let pi = get_joint_index(joints, joints[p].index);
            pi as i32
        },
        None => -1,
    };
    Ok(SkeletonBone {
        name,
        base_rotation: to_rf_quat(transform.rotation),
        base_translation: to_rf_vec(transform.translation),
        parent_index,
    })
}

/// Converts a skeleton's joints into the ordered bone list of the target
/// mesh format. Fails whole, producing nothing, when the joint count
/// exceeds the bone limit, when the inverse-bind-matrix count disagrees
/// with the joint count, or when any bind-pose scale is off tolerance.
pub fn convert_bones(skin: &Skin) -> (r: Result<Vec<SkeletonBone>, ConvertError>)
    requires
        skin.wf(),
    ensures
        skin.joints@.len() > MAX_BONES ==> r == Err::<Vec<SkeletonBone>, ConvertError>(
            ConvertError::CapacityExceeded {
                joints: skin.joints@.len() as usize,
                max: MAX_BONES,
            },
        ),
        skin.joints@.len() <= MAX_BONES && skin.inverse_bind@.len() != skin.joints@.len()
            ==> r == Err::<Vec<SkeletonBone>, ConvertError>(
            ConvertError::DataMismatch {
                expected: skin.joints@.len() as usize,
                found: skin.inverse_bind@.len() as usize,
            },
        ),
        skin.joints@.len() <= MAX_BONES && skin.inverse_bind@.len() == skin.joints@.len() ==> {
            let f = first_match(skin.inverse_bind@, bad_scale_pred());
            &&& f >= 0 ==> r == Err::<Vec<SkeletonBone>, ConvertError>(
                ConvertError::UnsupportedTransform { joint: f as usize },
            )
            &&& f < 0 ==> (r matches Ok(bones) && bones@.len() == skin.joints@.len() && forall|
                i: int,
            |
                0 <= i < bones@.len() ==> bone_spec_ok(
                    #[trigger] bones@[i],
                    skin.joints@[i],
                    skin.inverse_bind@[i],
                    i as usize,
                    skin.joints@,
                ))
        },
{
    let num_joints = skin.joints.len();
    if num_joints > MAX_BONES {
        return Err(ConvertError::CapacityExceeded { joints: num_joints, max: MAX_BONES });
    }
    if skin.inverse_bind.len() != num_joints {
        return Err(ConvertError::DataMismatch {
            expected: num_joints,
            found: skin.inverse_bind.len(),
        });
    }
    let ghost bad = bad_scale_pred();
    let mut bones: Vec<SkeletonBone> = Vec::new();
    let mut i: usize = 0;
    while i < num_joints
        invariant
            i <= num_joints,
            num_joints == skin.joints@.len(),
            num_joints <= MAX_BONES,
            skin.inverse_bind@.len() == num_joints,
            skin.wf(),
            bad == bad_scale_pred(),
            bones@.len() == i,
            forall|t: int| 0 <= t < i ==> !bad(#[trigger] skin.inverse_bind@[t]),
            forall|t: int|
                0 <= t < i ==> bone_spec_ok(
                    #[trigger] bones@[t],
                    skin.joints@[t],
                    skin.inverse_bind@[t],
                    t as usize,
                    skin.joints@,
                ),
        decreases num_joints - i,
    {
        let bone = match convert_bone(&skin.joints[i], &skin.inverse_bind[i], i, &skin.joints) {
            Ok(b) => b,
            Err(e) => {
                proof {
                    assert(bad(skin.inverse_bind@[i as int]));
                    lemma_first_match_props(skin.inverse_bind@, bad);
                    let fm = first_match(skin.inverse_bind@, bad);
                    if fm == -1 {
                        assert(!bad(skin.inverse_bind@[i as int]));
                    }
                    if 0 <= fm < i as int {
                        assert(!bad(skin.inverse_bind@[fm]));
                    }
                    if fm > i as int {
                        assert(!bad(skin.inverse_bind@[i as int]));
                    }
                }
                return Err(e);
            },
        };
        bones.push(bone);
        i = i + 1;
    }
    proof {
        lemma_first_match_props(skin.inverse_bind@, bad);
        let fm = first_match(skin.inverse_bind@, bad);
        if fm != -1 {
            assert(!bad(skin.inverse_bind@[fm]));
        }
    }
    Ok(bones)
}

/// In a skeleton whose first joint is the sole root and where every other
/// joint has a parent among the skeleton's own joints (scene indices
/// distinct, no joint its own child), the resolved bone list has exactly
/// one root: bone 0 carries parent index -1, and every other bone a valid
/// in-range parent position different from its own.
pub proof fn lemma_single_root_hierarchy(joints: Seq<Joint>, bones: Seq<SkeletonBone>)
    requires
        joints.len() >= 1,
        bones.len() == joints.len(),
        forall|a: int, b: int|
            0 <= a < joints.len() && 0 <= b < joints.len() && a != b ==> (#[trigger] joints[a]).index
                != (#[trigger] joints[b]).index,
        forall|a: int|
            0 <= a < joints.len() ==> !(#[trigger] joints[a]).children@.contains(joints[a].index),
        forall|a: int|
            0 <= a < joints.len() ==> !(#[trigger] joints[a]).children@.contains(joints[0].index),
        forall|j: int|
            1 <= j < joints.len() ==> exists|p: int|
                0 <= p < joints.len() && (#[trigger] joints[p]).children@.contains(
                    (#[trigger] joints[j]).index,
                ),
        forall|j: int|
            0 <= j < joints.len() ==> (#[trigger] bones[j]).parent_index as int
                == parent_index_spec(joints, joints[j].index),
    ensures
        bones[0].parent_index == -1,
        forall|j: int|
            1 <= j < bones.len() ==> 0 <= (#[trigger] bones[j]).parent_index < bones.len()
                && bones[j].parent_index != j,
{
    lemma_first_match_props(joints, parent_pred(joints[0].index));
    let p0 = first_match(joints, parent_pred(joints[0].index));
    if p0 != -1 {
        assert(parent_pred(joints[0].index)(joints[p0]));
        assert(false);
    }
    assert forall|j: int|
        1 <= j < bones.len() implies 0 <= (#[trigger] bones[j]).parent_index < bones.len()
        && bones[j].parent_index != j by {
        let idx = joints[j].index;
        lemma_first_match_props(joints, parent_pred(idx));
        let p = first_match(joints, parent_pred(idx));
        let w = choose|w: int| 0 <= w < joints.len() && (#[trigger] joints[w]).children@.contains(
            idx,
        );
        if p == -1 {
            assert(!parent_pred(idx)(joints[w]));
            assert(false);
        }
        assert(parent_pred(idx)(joints[p]));
        if p == j {
            assert(joints[j].children@.contains(joints[j].index));
            assert(false);
        }
        lemma_first_match_props(joints, index_pred(joints[p].index));
        let q = first_match(joints, index_pred(joints[p].index));
        if q == -1 {
            assert(!index_pred(joints[p].index)(joints[p]));
            assert(false);
        }
        assert(index_pred(joints[p].index)(joints[q]));
        if q != p {
            assert(joints[q].index == joints[p].index);
            assert(false);
        }
    }
}

} // verus!
