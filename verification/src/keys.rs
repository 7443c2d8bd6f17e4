//! Keyframe extraction.
//!
//! For a target joint and an animation, the extractor selects the first
//! channel of the matching kind, reads its parallel timestamp / value
//! samples, converts and quantizes the values, and pairs them with the
//! quantized timestamps. Cubic-spline channels carry raw samples in
//! consecutive triplets (in-tangent, value, out-tangent) per timestamp:
//! a rotation key keeps only the middle value sample, while a translation
//! key retains the tangent samples around its value.

use vstd::prelude::*;
use crate::fp::{Fp, quantize_time_s, quantize_time};
use crate::coord::{
    Vec3,
    Quat,
    ShortQuat,
    to_rf_vec_s,
    to_rf_quat_s,
    quantize_quat_s,
    to_rf_vec,
    to_rf_quat,
    quantize_quat,
};

verus! {

/// How a channel interpolates between keyframes.
#[derive(Clone, Copy, PartialEq, Eq, Structural, Debug)]
pub enum Interpolation {
    Step,
    Linear,
    CubicSpline,
}

/// The sampled output values of a channel: rotations or translations,
/// never both.
pub enum ChannelValues {
    Rotations(Vec<Quat>),
    Translations(Vec<Vec3>),
}

/// One animation channel: the scene index of the joint it targets, its
/// interpolation mode, and parallel timestamp / output sample arrays.
pub struct Channel {
    pub target: usize,
    pub interpolation: Interpolation,
    pub times: Vec<Fp>,
    pub values: ChannelValues,
}

/// An animation: an optional name and its channels.
pub struct Animation {
    pub name: Option<String>,
    pub channels: Vec<Channel>,
}

/// One quantized rotation keyframe. The ease fields are format
/// placeholders and always zero.
#[derive(Clone, Copy, PartialEq, Eq, Structural, Debug)]
pub struct RotationKey {
    pub time: i32,
    pub rotation: ShortQuat,
    pub ease_in: i16,
    pub ease_out: i16,
}

/// One translation keyframe. Translations stay unquantized. A
/// cubic-spline channel fills the tangent fields from its in-tangent and
/// out-tangent samples; under any other interpolation both tangents
/// collapse to the translation value itself.
#[derive(Clone, Copy, PartialEq, Eq, Structural, Debug)]
pub struct TranslationKey {
    pub time: i32,
    pub in_tangent: Vec3,
    pub translation: Vec3,
    pub out_tangent: Vec3,
}

impl Channel {
    /// The number of raw output samples.
    pub open spec fn out_len(self) -> nat {
        match self.values {
            ChannelValues::Rotations(r) => r@.len(),
            ChannelValues::Translations(t) => t@.len(),
        }
    }

    pub open spec fn is_rotation(self) -> bool {
        self.values is Rotations
    }

    pub open spec fn rot_samples(self) -> Seq<Quat> {
        self.values->Rotations_0@
    }

    pub open spec fn trans_samples(self) -> Seq<Vec3> {
        self.values->Translations_0@
    }

    pub open spec fn values_wf(self) -> bool {
        &&& forall|i: int| 0 <= i < self.times@.len() ==> (#[trigger] self.times@[i]).wf()
        &&& match self.values {
            ChannelValues::Rotations(r) => forall|i: int|
                0 <= i < r@.len() ==> (#[trigger] r@[i]).wf(),
            ChannelValues::Translations(t) => forall|i: int|
                0 <= i < t@.len() ==> (#[trigger] t@[i]).wf(),
        }
    }

    /// Parallel sample layout: a cubic-spline channel carries three raw
    /// samples per timestamp, any other exactly one.
    pub open spec fn wf(self) -> bool {
        &&& self.values_wf()
        &&& if self.interpolation is CubicSpline {
            self.out_len() == 3 * self.times@.len()
        } else {
            self.out_len() == self.times@.len()
        }
    }
}

impl Animation {
    pub open spec fn wf(self) -> bool {
        forall|i: int| 0 <= i < self.channels@.len() ==> (#[trigger] self.channels@[i]).wf()
    }
}

/// The least index of `s` whose element satisfies `p`, or -1 when none
/// does.
pub open spec fn first_match<T>(s: Seq<T>, p: spec_fn(T) -> bool) -> int
    decreases s.len(),
{
    if s.len() == 0 {
        -1
    } else if p(s[0]) {
        0
    } else {
        let r = first_match(s.drop_first(), p);
        if r < 0 {
            -1
        } else {
            r + 1
        }
    }
}

pub proof fn lemma_first_match_props<T>(s: Seq<T>, p: spec_fn(T) -> bool)
    ensures
        first_match(s, p) == -1 ==> forall|i: int| 0 <= i < s.len() ==> !p(#[trigger] s[i]),
        first_match(s, p) != -1 ==> 0 <= first_match(s, p) < s.len() && p(s[first_match(s, p)])
            && forall|i: int| 0 <= i < first_match(s, p) ==> !p(#[trigger] s[i]),
    decreases s.len(),
{
    if s.len() == 0 {
    } else if p(s[0]) {
    } else {
        lemma_first_match_props(s.drop_first(), p);
        let r = first_match(s.drop_first(), p);
        if r == -1 {
            assert forall|i: int| 0 <= i < s.len() implies !p(#[trigger] s[i]) by {
                if i > 0 {
                    assert(s.drop_first()[i - 1] == s[i]);
                }
            }
        } else {
            assert(s.drop_first()[r] == s[r + 1]);
            assert forall|i: int| 0 <= i < first_match(s, p) implies !p(#[trigger] s[i]) by {
                if i > 0 {
                    assert(s.drop_first()[i - 1] == s[i]);
                }
            }
        }
    }
}

/// A channel is the rotation channel of joint `j` when it targets `j` and
/// carries rotations.
pub open spec fn is_rot_channel_for(c: Channel, j: int) -> bool {
    c.target == j && c.is_rotation()
}

pub open spec fn rot_channel_pred(j: int) -> spec_fn(Channel) -> bool {
    |c: Channel| is_rot_channel_for(c, j)
}

/// A channel is the translation channel of joint `j` when it targets `j`
/// and carries translations.
pub open spec fn is_trans_channel_for(c: Channel, j: int) -> bool {
    c.target == j && !c.is_rotation()
}

pub open spec fn trans_channel_pred(j: int) -> spec_fn(Channel) -> bool {
    |c: Channel| is_trans_channel_for(c, j)
}

/// The raw sample holding key `k`'s value: the middle of the `k`-th
/// triplet for cubic-spline channels, the `k`-th sample otherwise.
pub open spec fn value_sample_index(interp: Interpolation, k: int) -> int {
    if interp is CubicSpline {
        3 * k + 1
    } else {
        k
    }
}

/// Rotation key `k` of channel `c`: the timestamp quantized to ticks, the
/// value sample coordinate-converted then quantized, ease fields zero.
pub open spec fn rot_key_at(c: Channel, k: int) -> RotationKey {
    RotationKey {
        time: quantize_time_s(c.times@[k]) as i32,
        rotation: quantize_quat_s(
            to_rf_quat_s(c.rot_samples()[value_sample_index(c.interpolation, k)]),
        ),
        ease_in: 0,
        ease_out: 0,
    }
}

pub open spec fn rot_keys_from(c: Channel) -> Seq<RotationKey> {
    Seq::new(c.times@.len(), |k: int| rot_key_at(c, k))
}

/// The rotation keys of joint `j`: those of the first channel targeting
/// `j` with rotation outputs, or empty when none does.
pub open spec fn rot_keys_of(channels: Seq<Channel>, j: int) -> Seq<RotationKey> {
    let i = first_match(channels, rot_channel_pred(j));
    if i < 0 {
        Seq::empty()
    } else {
        rot_keys_from(channels[i])
    }
}

/// Translation key `k` of channel `c`: the timestamp quantized to ticks
/// and the coordinate-converted samples. A cubic-spline channel retains
/// its in-tangent and out-tangent samples around the value; under any
/// other interpolation all three fields are the value sample itself.
pub open spec fn trans_key_at(c: Channel, k: int) -> TranslationKey {
    if c.interpolation is CubicSpline {
        TranslationKey {
            time: quantize_time_s(c.times@[k]) as i32,
            in_tangent: to_rf_vec_s(c.trans_samples()[3 * k]),
            translation: to_rf_vec_s(c.trans_samples()[3 * k + 1]),
            out_tangent: to_rf_vec_s(c.trans_samples()[3 * k + 2]),
        }
    } else {
        let v = to_rf_vec_s(c.trans_samples()[k]);
        TranslationKey { time: quantize_time_s(c.times@[k]) as i32, in_tangent: v, translation: v, out_tangent: v }
    }
}

pub open spec fn trans_keys_from(c: Channel) -> Seq<TranslationKey> {
    Seq::new(c.times@.len(), |k: int| trans_key_at(c, k))
}

/// The translation keys of joint `j`: those of the first channel targeting
/// `j` with translation outputs, or empty when none does.
pub open spec fn trans_keys_of(channels: Seq<Channel>, j: int) -> Seq<TranslationKey> {
    let i = first_match(channels, trans_channel_pred(j));
    if i < 0 {
        Seq::empty()
    } else {
        trans_keys_from(channels[i])
    }
}

fn rot_keys_from_channel(c: &Channel) -> (keys: Vec<RotationKey>)
    requires
        c.wf(),
        c.is_rotation(),
    ensures
        keys@ == rot_keys_from(*c),
{
    match &c.values {
        ChannelValues::Rotations(samples) => {
            let cubic = matches!(c.interpolation, Interpolation::CubicSpline);
            let nk = c.times.len();
            let slen = samples.len();
            let mut keys: Vec<RotationKey> = Vec::new();
            let mut k: usize = 0;
            while k < nk
                invariant
                    k <= nk,
                    nk == c.times@.len(),
                    c.wf(),
                    c.is_rotation(),
                    samples@ == c.rot_samples(),
                    slen == samples@.len(),
                    cubic == (c.interpolation is CubicSpline),
                    keys@.len() == k,
                    forall|t: int| 0 <= t < k ==> keys@[t] == rot_key_at(*c, t),
                decreases nk - k,
            {
                let si: usize = if cubic {
                    3 * k + 1
                } else {
                    k
                };
                let t = quantize_time(c.times[k]);
                let q = quantize_quat(to_rf_quat(samples[si]));
                keys.push(RotationKey { time: t, rotation: q, ease_in: 0, ease_out: 0 });
                k = k + 1;
            }
            proof {
                assert(keys@ =~= rot_keys_from(*c));
            }
            keys
        },
        ChannelValues::Translations(_) => {
            proof {
                assert(false);
            }
            Vec::new()
        },
    }
}

fn trans_keys_from_channel(c: &Channel) -> (keys: Vec<TranslationKey>)
    requires
        c.wf(),
        !c.is_rotation(),
    ensures
        keys@ == trans_keys_from(*c),
{
    match &c.values {
        ChannelValues::Translations(samples) => {
            let cubic = matches!(c.interpolation, Interpolation::CubicSpline);
            let nk = c.times.len();
            let slen = samples.len();
            let mut keys: Vec<TranslationKey> = Vec::new();
            let mut k: usize = 0;
            while k < nk
                invariant
                    k <= nk,
                    nk == c.times@.len(),
                    c.wf(),
                    !c.is_rotation(),
                    samples@ == c.trans_samples(),
                    slen == samples@.len(),
                    cubic == (c.interpolation is CubicSpline),
                    keys@.len() == k,
                    forall|t: int| 0 <= t < k ==> keys@[t] == trans_key_at(*c, t),
                decreases nk - k,
            {
                let t = quantize_time(c.times[k]);
                let key = if cubic {
                    TranslationKey {
                        time: t,
                        in_tangent: to_rf_vec(samples[3 * k]),
                        translation: to_rf_vec(samples[3 * k + 1]),
                        out_tangent: to_rf_vec(samples[3 * k + 2]),
                    }
                } else {
                    let v = to_rf_vec(samples[k]);
                    TranslationKey { time: t, in_tangent: v, translation: v, out_tangent: v }
                };
                keys.push(key);
                k = k + 1;
            }
            proof {
                assert(keys@ =~= trans_keys_from(*c));
            }
            keys
        },
        ChannelValues::Rotations(_) => {
            proof {
                assert(false);
            }
            Vec::new()
        },
    }
}

/// Extracts the ordered rotation keyframes of the joint with scene index
/// `joint_index` from the animation. A joint without a matching channel
/// yields an empty sequence, which is not an error.
pub fn convert_rotation_keys(joint_index: usize, anim: &Animation) -> (keys: Vec<RotationKey>)
    requires
        anim.wf(),
    ensures
        keys@ == rot_keys_of(anim.channels@, joint_index as int),
{
    let ghost pred = rot_channel_pred(joint_index as int);
    let n = anim.channels.len();
    let mut ci: usize = 0;
    while ci < n
        invariant
            ci <= n,
            n == anim.channels@.len(),
            anim.wf(),
            pred == rot_channel_pred(joint_index as int),
            forall|t: int| 0 <= t < ci ==> !pred(#[trigger] anim.channels@[t]),
        decreases n - ci,
    {
        let c = &anim.channels[ci];
        let is_rot = matches!(&c.values, ChannelValues::Rotations(_));
        if c.target == joint_index && is_rot {
            proof {
                assert(pred(anim.channels@[ci as int]));
                lemma_first_match_props(anim.channels@, pred);
                let fm = first_match(anim.channels@, pred);
                assert(fm != -1);
                if fm < ci as int {
                    assert(!pred(anim.channels@[fm]));
                }
                if fm > ci as int {
                    assert(!pred(anim.channels@[ci as int]));
                }
                assert(fm == ci as int);
            }
            let keys = rot_keys_from_channel(c);
            return keys;
        }
        ci = ci + 1;
    }
    proof {
        lemma_first_match_props(anim.channels@, pred);
        let fm = first_match(anim.channels@, pred);
        if fm != -1 {
            assert(!pred(anim.channels@[fm]));
        }
    }
    Vec::new()
}

/// Extracts the ordered translation keyframes of the joint with scene
/// index `joint_index` from the animation. A joint without a matching
/// channel yields an empty sequence, which is not an error.
pub fn convert_translation_keys(joint_index: usize, anim: &Animation) -> (keys: Vec<TranslationKey>)
    requires
        anim.wf(),
    ensures
        keys@ == trans_keys_of(anim.channels@, joint_index as int),
{
    let ghost pred = trans_channel_pred(joint_index as int);
    let n = anim.channels.len();
    let mut ci: usize = 0;
    while ci < n
        invariant
            ci <= n,
            n == anim.channels@.len(),
            anim.wf(),
            pred == trans_channel_pred(joint_index as int),
            forall|t: int| 0 <= t < ci ==> !pred(#[trigger] anim.channels@[t]),
        decreases n - ci,
    {
        let c = &anim.channels[ci];
        let is_trans = matches!(&c.values, ChannelValues::Translations(_));
        if c.target == joint_index && is_trans {
            proof {
                assert(pred(anim.channels@[ci as int]));
                lemma_first_match_props(anim.channels@, pred);
                let fm = first_match(anim.channels@, pred);
                assert(fm != -1);
                if fm < ci as int {
                    assert(!pred(anim.channels@[fm]));
                }
                if fm > ci as int {
                    assert(!pred(anim.channels@[ci as int]));
                }
                assert(fm == ci as int);
            }
            let keys = trans_keys_from_channel(c);
            return keys;
        }
        ci = ci + 1;
    }
    proof {
        lemma_first_match_props(anim.channels@, pred);
        let fm = first_match(anim.channels@, pred);
        if fm != -1 {
            assert(!pred(anim.channels@[fm]));
        }
    }
    Vec::new()
}

/// A joint that no channel targets yields empty rotation and translation
/// key sequences: a static joint, not an error.
pub proof fn lemma_no_channel_empty_keys(channels: Seq<Channel>, j: int)
    requires
        forall|i: int| 0 <= i < channels.len() ==> (#[trigger] channels[i]).target != j,
    ensures
        rot_keys_of(channels, j) == Seq::<RotationKey>::empty(),
        trans_keys_of(channels, j) == Seq::<TranslationKey>::empty(),
{
    lemma_first_match_props(channels, rot_channel_pred(j));
    let fr = first_match(channels, rot_channel_pred(j));
    if fr != -1 {
        assert(channels[fr].target != j);
        assert(false);
    }
    lemma_first_match_props(channels, trans_channel_pred(j));
    let ft = first_match(channels, trans_channel_pred(j));
    if ft != -1 {
        assert(channels[ft].target != j);
        assert(false);
    }
}

} // verus!
