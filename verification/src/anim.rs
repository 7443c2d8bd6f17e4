//! Animation assembly.
//!
//! For every joint of the skeleton, in the skeleton's joint enumeration
//! order, the assembler extracts rotation and translation keys, wraps
//! them into one bone record of weight one, derives the animation's tick
//! range from the union of all keys, and builds the final file record.

use vstd::prelude::*;
use crate::fp::{Fp, fp_one};
use crate::coord::{Vec3, Quat, vec3_zero, quat_identity};
use crate::keys::{
    Animation,
    RotationKey,
    TranslationKey,
    rot_keys_of,
    trans_keys_of,
    convert_rotation_keys,
    convert_translation_keys,
};
use crate::skeleton::Skin;
use crate::names::{dec_digits, prefixed_decimal};

verus! {

/// One bone's animation: its blend weight (always one) and its ordered
/// key sequences, empty for a static joint.
pub struct BoneAnimation {
    pub weight: Fp,
    pub rotation_keys: Vec<RotationKey>,
    pub translation_keys: Vec<TranslationKey>,
}

/// The animation file header: bone count, the derived tick range, fixed
/// ramp constants, and identity root-motion placeholders.
pub struct AnimationFileHeader {
    pub num_bones: i32,
    pub start_time: i32,
    pub end_time: i32,
    pub ramp_in_time: i32,
    pub ramp_out_time: i32,
    pub total_rotation: Quat,
    pub total_translation: Vec3,
}

/// An assembled animation file: the header plus one bone record per
/// joint, in the skeleton's joint order.
pub struct AnimationFile {
    pub header: AnimationFileHeader,
    pub bones: Vec<BoneAnimation>,
}

/// Fixed ramp-in / ramp-out duration of the header, in ticks.
pub const RAMP_TICKS: i32 = 480;

/// Tick `t` occurs among some bone's rotation or translation keys.
pub open spec fn time_in_bones(bones: Seq<BoneAnimation>, t: i32) -> bool {
    exists|i: int, k: int|
        0 <= i < bones.len() && ((0 <= k < bones[i].rotation_keys@.len()
            && bones[i].rotation_keys@[k].time == t) || (0 <= k
            < bones[i].translation_keys@.len() && bones[i].translation_keys@[k].time == t))
}

/// No bone carries any key.
pub open spec fn no_keys(bones: Seq<BoneAnimation>) -> bool {
    forall|i: int|
        0 <= i < bones.len() ==> (#[trigger] bones[i]).rotation_keys@.len() == 0
            && bones[i].translation_keys@.len() == 0
}

/// Every key time of every bone lies within `[lo, hi]`.
pub open spec fn bounds_all_times(bones: Seq<BoneAnimation>, lo: i32, hi: i32) -> bool {
    &&& forall|i: int, k: int|
        0 <= i < bones.len() && 0 <= k < bones[i].rotation_keys@.len() ==> lo <= (
        #[trigger] bones[i].rotation_keys@[k]).time <= hi
    &&& forall|i: int, k: int|
        0 <= i < bones.len() && 0 <= k < bones[i].translation_keys@.len() ==> lo <= (
        #[trigger] bones[i].translation_keys@[k]).time <= hi
}

/// Derives the animation's tick range: the least and the greatest key
/// time observed over all bones' keys, or `(0, 0)` when no bone has any
/// key at all.
pub fn determine_anim_time_range(bones: &Vec<BoneAnimation>) -> (r: (i32, i32))
    ensures
        no_keys(bones@) ==> r == (0i32, 0i32),
        !no_keys(bones@) ==> time_in_bones(bones@, r.0) && time_in_bones(bones@, r.1)
            && bounds_all_times(bones@, r.0, r.1),
{
    let n = bones.len();
    let mut found: bool = false;
    let mut mn: i32 = 0;
    let mut mx: i32 = 0;
    let mut i: usize = 0;
    while i < n
        invariant
            i <= n,
            n == bones@.len(),
            !found ==> mn == 0 && mx == 0 && (forall|a: int|
                0 <= a < i ==> (#[trigger] bones@[a]).rotation_keys@.len() == 0
                    && bones@[a].translation_keys@.len() == 0),
            found ==> time_in_bones(bones@, mn) && time_in_bones(bones@, mx),
            found ==> mn <= mx,
            forall|a: int, k: int|
                0 <= a < i && 0 <= k < bones@[a].rotation_keys@.len() ==> mn <= (
                #[trigger] bones@[a].rotation_keys@[k]).time <= mx,
            forall|a: int, k: int|
                0 <= a < i && 0 <= k < bones@[a].translation_keys@.len() ==> mn <= (
                #[trigger] bones@[a].translation_keys@[k]).time <= mx,
        decreases n - i,
    {
        let b = &bones[i];
        let rn = b.rotation_keys.len();
        let mut k: usize = 0;
        while k < rn
            invariant
                k <= rn,
                i < n,
                n == bones@.len(),
                *b == bones@[i as int],
                rn == b.rotation_keys@.len(),
                !found ==> mn == 0 && mx == 0 && k == 0 && (forall|a: int|
                    0 <= a < i ==> (#[trigger] bones@[a]).rotation_keys@.len() == 0
                        && bones@[a].translation_keys@.len() == 0),
                found ==> time_in_bones(bones@, mn) && time_in_bones(bones@, mx),
                found ==> mn <= mx,
                forall|a: int, t: int|
                    0 <= a < i && 0 <= t < bones@[a].rotation_keys@.len() ==> mn <= (
                    #[trigger] bones@[a].rotation_keys@[t]).time <= mx,
                forall|a: int, t: int|
                    0 <= a < i && 0 <= t < bones@[a].translation_keys@.len() ==> mn <= (
                    #[trigger] bones@[a].translation_keys@[t]).time <= mx,
                forall|t: int|
                    0 <= t < k ==> mn <= (#[trigger] bones@[i as int].rotation_keys@[t]).time
                        <= mx,
            decreases rn - k,
        {
            let t = b.rotation_keys[k].time;
            if !found {
                found = true;
                mn = t;
                mx = t;
            } else {
                if t < mn {
                    mn = t;
                }
                if t > mx {
                    mx = t;
                }
            }
            proof {
                assert(bones@[i as int].rotation_keys@[k as int].time == t);
            }
            k = k + 1;
        }
        let tn = b.translation_keys.len();
        let mut k2: usize = 0;
        while k2 < tn
            invariant
                k2 <= tn,
                i < n,
                n == bones@.len(),
                *b == bones@[i as int],
                tn == b.translation_keys@.len(),
                !found ==> mn == 0 && mx == 0 && k2 == 0 && b.rotation_keys@.len() == 0 && (
                forall|a: int|
                    0 <= a < i ==> (#[trigger] bones@[a]).rotation_keys@.len() == 0
                        && bones@[a].translation_keys@.len() == 0),
                found ==> time_in_bones(bones@, mn) && time_in_bones(bones@, mx),
                found ==> mn <= mx,
                forall|a: int, t: int|
                    0 <= a < i && 0 <= t < bones@[a].rotation_keys@.len() ==> mn <= (
                    #[trigger] bones@[a].rotation_keys@[t]).time <= mx,
                forall|a: int, t: int|
                    0 <= a < i && 0 <= t < bones@[a].translation_keys@.len() ==> mn <= (
                    #[trigger] bones@[a].translation_keys@[t]).time <= mx,
                forall|t: int|
                    0 <= t < bones@[i as int].rotation_keys@.len() ==> mn <= (
                    #[trigger] bones@[i as int].rotation_keys@[t]).time <= mx,
                forall|t: int|
                    0 <= t < k2 ==> mn <= (#[trigger] bones@[i as int].translation_keys@[t]).time
                        <= mx,
            decreases tn - k2,
        {
            let t = b.translation_keys[k2].time;
            if !found {
                found = true;
                mn = t;
                mx = t;
            } else {
                if t < mn {
                    mn = t;
                }
                if t > mx {
                    mx = t;
                }
            }
            proof {
                assert(bones@[i as int].translation_keys@[k2 as int].time == t);
            }
            k2 = k2 + 1;
        }
        i = i + 1;
    }
    if !found {
        proof {
            assert(no_keys(bones@));
        }
    } else {
        proof {
            assert(!no_keys(bones@)) by {
                let (wi, wk) = choose|wi: int, wk: int|
                    0 <= wi < bones@.len() && ((0 <= wk < bones@[wi].rotation_keys@.len()
                        && bones@[wi].rotation_keys@[wk].time == mn) || (0 <= wk
                        < bones@[wi].translation_keys@.len()
                        && bones@[wi].translation_keys@[wk].time == mn));
                assert(bones@[wi].rotation_keys@.len() > 0 || bones@[wi].translation_keys@.len()
                    > 0);
            }
        }
    }
    (mn, mx)
}

/// Everything the assembler promises of an animation file built for
/// `anim` over `skin`'s joints.
pub open spec fn is_rfa_for(f: AnimationFile, anim: Animation, skin: Skin) -> bool {
    &&& f.bones@.len() == skin.joints@.len()
    &&& forall|i: int|
        0 <= i < f.bones@.len() ==> {
            &&& (#[trigger] f.bones@[i]).weight == fp_one()
            &&& f.bones@[i].rotation_keys@ == rot_keys_of(
                anim.channels@,
                skin.joints@[i].index as int,
            )
            &&& f.bones@[i].translation_keys@ == trans_keys_of(
                anim.channels@,
                skin.joints@[i].index as int,
            )
        }
    &&& f.header.num_bones as int == skin.joints@.len()
    &&& f.header.ramp_in_time == RAMP_TICKS
    &&& f.header.ramp_out_time == RAMP_TICKS
    &&& f.header.total_rotation == quat_identity()
    &&& f.header.total_translation == vec3_zero()
    &&& (no_keys(f.bones@) ==> f.header.start_time == 0 && f.header.end_time == 0)
    &&& (!no_keys(f.bones@) ==> time_in_bones(f.bones@, f.header.start_time) && time_in_bones(
        f.bones@,
        f.header.end_time,
    ) && bounds_all_times(f.bones@, f.header.start_time, f.header.end_time))
}

/// Assembles the animation file record for `anim` over `skin`'s joints:
/// one bone per joint in joint order, each with weight one and its
/// extracted key sequences, under a header carrying the bone count, the
/// derived tick range, the fixed ramps and identity root motion.
pub fn make_rfa(anim: &Animation, skin: &Skin) -> (f: AnimationFile)
    requires
        anim.wf(),
        skin.joints@.len() <= 0x7fff_ffff,
    ensures
        is_rfa_for(f, *anim, *skin),
{
    let num = skin.joints.len();
    let mut bones: Vec<BoneAnimation> = Vec::new();
    let mut i: usize = 0;
    while i < num
        invariant
            i <= num,
            num == skin.joints@.len(),
            anim.wf(),
            bones@.len() == i,
            forall|t: int|
                0 <= t < i ==> (#[trigger] bones@[t]).weight == fp_one()
                    && bones@[t].rotation_keys@ == rot_keys_of(
                    anim.channels@,
                    skin.joints@[t].index as int,
                ) && bones@[t].translation_keys@ == trans_keys_of(
                    anim.channels@,
                    skin.joints@[t].index as int,
                ),
        decreases num - i,
    {
        let rotation_keys = convert_rotation_keys(skin.joints[i].index, anim);
        let translation_keys = convert_translation_keys(skin.joints[i].index, anim);
        bones.push(BoneAnimation { weight: Fp { m: 1, e: 0 }, rotation_keys, translation_keys });
        i = i + 1;
    }
    let range = determine_anim_time_range(&bones);
    let header = AnimationFileHeader {
        num_bones: num as i32,
        start_time: range.0,
        end_time: range.1,
        ramp_in_time: RAMP_TICKS,
        ramp_out_time: RAMP_TICKS,
        total_rotation: Quat {
            x: Fp { m: 0, e: 0 },
            y: Fp { m: 0, e: 0 },
            z: Fp { m: 0, e: 0 },
            w: Fp { m: 1, e: 0 },
        },
        total_translation: Vec3 { x: Fp { m: 0, e: 0 }, y: Fp { m: 0, e: 0 }, z: Fp { m: 0, e: 0 } },
    };
    AnimationFile { header, bones }
}

/// Assembles the animation-file record for one (animation, skeleton)
/// pair and the output identity it is filed under: the animation's own
/// name, or `anim_<index>` when it is unnamed. Writing the record out is
/// the caller's I/O, not done here.
pub fn convert_animation_to_rfa(anim: &Animation, index: u64, skin: &Skin) -> (r: (
    String,
    AnimationFile,
))
    requires
        anim.wf(),
        skin.joints@.len() <= 0x7fff_ffff,
    ensures
        match anim.name {
            Some(n) => r.0@ == n@,
            None => r.0@ == "anim_"@ + dec_digits(index as nat),
        },
        is_rfa_for(r.1, *anim, *skin),
{
    let name = match &anim.name {
        Some(n) => n.clone(),
        None => prefixed_decimal("anim_", index),
    };
    let file = make_rfa(anim, skin);
    (name, file)
}

} // verus!
