use vmesh::fp::Fp;
use vmesh::coord::{Vec3, Quat, ShortQuat};
use vmesh::keys::{
    Animation,
    Channel,
    ChannelValues,
    Interpolation,
    convert_rotation_keys,
    convert_translation_keys,
};

fn fp(m: i64, e: i32) -> Fp {
    Fp { m, e }
}

fn q(x: i64, y: i64, z: i64, w: i64) -> Quat {
    Quat { x: fp(x, 0), y: fp(y, 0), z: fp(z, 0), w: fp(w, 0) }
}

fn v3(x: i64, y: i64, z: i64) -> Vec3 {
    Vec3 { x: fp(x, 0), y: fp(y, 0), z: fp(z, 0) }
}

fn identity() -> Quat {
    q(0, 0, 0, 1)
}

fn half_x() -> Quat {
    // components 0.5, quantizing to 8191 after conversion sign flips
    Quat { x: fp(1, -1), y: fp(0, 0), z: fp(0, 0), w: fp(1, -1) }
}

#[test]
fn no_channels_gives_empty_keys() {
    let anim = Animation { name: None, channels: vec![] };
    assert!(convert_rotation_keys(3, &anim).is_empty());
    assert!(convert_translation_keys(3, &anim).is_empty());
}

#[test]
fn channel_for_other_joint_gives_empty_keys() {
    let anim = Animation {
        name: None,
        channels: vec![
            Channel {
                target: 9,
                interpolation: Interpolation::Linear,
                times: vec![fp(0, 0)],
                values: ChannelValues::Rotations(vec![identity()]),
            },
        ],
    };
    assert!(convert_rotation_keys(3, &anim).is_empty());
    assert!(convert_translation_keys(3, &anim).is_empty());
}

#[test]
fn linear_rotation_channel_two_keys() {
    let anim = Animation {
        name: None,
        channels: vec![
            Channel {
                target: 5,
                interpolation: Interpolation::Linear,
                times: vec![fp(0, 0), fp(1, 0)],
                values: ChannelValues::Rotations(vec![identity(), half_x()]),
            },
        ],
    };
    let keys = convert_rotation_keys(5, &anim);
    assert_eq!(keys.len(), 2);
    assert_eq!(keys[0].time, 0);
    assert_eq!(keys[1].time, 4800);
    assert_eq!(keys[0].ease_in, 0);
    assert_eq!(keys[0].ease_out, 0);
    assert_eq!(keys[1].ease_in, 0);
    assert_eq!(keys[1].ease_out, 0);
    assert_eq!(keys[0].rotation, ShortQuat { x: 0, y: 0, z: 0, w: 16383 });
    assert_eq!(keys[1].rotation, ShortQuat { x: -8191, y: 0, z: 0, w: 8191 });
}

#[test]
fn cubic_rotation_channel_keeps_middle_samples_only() {
    // two logical keyframes, six raw samples: in-tangent, value, out-tangent
    let anim = Animation {
        name: None,
        channels: vec![
            Channel {
                target: 2,
                interpolation: Interpolation::CubicSpline,
                times: vec![fp(0, 0), fp(1, 0)],
                values: ChannelValues::Rotations(vec![
                    q(1, 0, 0, 0),
                    identity(),
                    q(0, 1, 0, 0),
                    q(0, 0, 1, 0),
                    half_x(),
                    q(1, 1, 0, 0),
                ]),
            },
        ],
    };
    let keys = convert_rotation_keys(2, &anim);
    assert_eq!(keys.len(), 2);
    assert_eq!(keys[0].time, 0);
    assert_eq!(keys[1].time, 4800);
    // the converted, quantized value samples; never the tangent samples
    assert_eq!(keys[0].rotation, ShortQuat { x: 0, y: 0, z: 0, w: 16383 });
    assert_eq!(keys[1].rotation, ShortQuat { x: -8191, y: 0, z: 0, w: 8191 });
}

#[test]
fn translation_tangents_collapse_to_value() {
    let anim = Animation {
        name: None,
        channels: vec![
            Channel {
                target: 4,
                interpolation: Interpolation::Step,
                times: vec![fp(0, 0)],
                values: ChannelValues::Translations(vec![v3(1, 2, 3)]),
            },
        ],
    };
    let keys = convert_translation_keys(4, &anim);
    assert_eq!(keys.len(), 1);
    assert_eq!(keys[0].time, 0);
    let expected = v3(1, 3, 2);
    assert_eq!(keys[0].translation, expected);
    assert_eq!(keys[0].in_tangent, expected);
    assert_eq!(keys[0].out_tangent, expected);
}

#[test]
fn cubic_translation_retains_tangent_samples() {
    let anim = Animation {
        name: None,
        channels: vec![
            Channel {
                target: 4,
                interpolation: Interpolation::CubicSpline,
                times: vec![fp(0, 0)],
                values: ChannelValues::Translations(vec![v3(7, 8, 9), v3(1, 2, 3), v3(4, 5, 6)]),
            },
        ],
    };
    let keys = convert_translation_keys(4, &anim);
    assert_eq!(keys.len(), 1);
    // each sample coordinate-converted; the tangents stay distinct from
    // the value, never collapsed to it
    assert_eq!(keys[0].in_tangent, v3(7, 9, 8));
    assert_eq!(keys[0].translation, v3(1, 3, 2));
    assert_eq!(keys[0].out_tangent, v3(4, 6, 5));
}

#[test]
fn first_matching_channel_wins() {
    let anim = Animation {
        name: None,
        channels: vec![
            Channel {
                target: 1,
                interpolation: Interpolation::Step,
                times: vec![fp(0, 0)],
                values: ChannelValues::Translations(vec![v3(9, 9, 9)]),
            },
            Channel {
                target: 1,
                interpolation: Interpolation::Linear,
                times: vec![fp(0, 0)],
                values: ChannelValues::Rotations(vec![identity()]),
            },
            Channel {
                target: 1,
                interpolation: Interpolation::Linear,
                times: vec![fp(0, 0), fp(1, 0)],
                values: ChannelValues::Rotations(vec![half_x(), half_x()]),
            },
        ],
    };
    // the translation channel does not shadow the rotation lookup; the
    // first rotation channel wins over the later one
    let keys = convert_rotation_keys(1, &anim);
    assert_eq!(keys.len(), 1);
    assert_eq!(keys[0].rotation, ShortQuat { x: 0, y: 0, z: 0, w: 16383 });
    let tkeys = convert_translation_keys(1, &anim);
    assert_eq!(tkeys.len(), 1);
    assert_eq!(tkeys[0].translation, v3(9, 9, 9));
}
