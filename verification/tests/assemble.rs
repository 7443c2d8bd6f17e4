use vmesh::fp::Fp;
use vmesh::coord::{Vec3, Quat, ShortQuat};
use vmesh::keys::{Animation, Channel, ChannelValues, Interpolation, RotationKey, TranslationKey};
use vmesh::anim::{
    BoneAnimation,
    determine_anim_time_range,
    make_rfa,
    convert_animation_to_rfa,
};
use vmesh::skeleton::{
    Joint,
    BindTransform,
    Skin,
    ConvertError,
    MAX_BONES,
    convert_bones,
    get_joint_parent,
    get_joint_index,
};

fn fp(m: i64, e: i32) -> Fp {
    Fp { m, e }
}

fn v3(x: i64, y: i64, z: i64) -> Vec3 {
    Vec3 { x: fp(x, 0), y: fp(y, 0), z: fp(z, 0) }
}

fn quat(x: i64, y: i64, z: i64, w: i64) -> Quat {
    Quat { x: fp(x, 0), y: fp(y, 0), z: fp(z, 0), w: fp(w, 0) }
}

fn identity_transform() -> BindTransform {
    BindTransform { scale: v3(1, 1, 1), rotation: quat(0, 0, 0, 1), translation: v3(0, 0, 0) }
}

fn rkey(time: i32) -> RotationKey {
    RotationKey {
        time,
        rotation: ShortQuat { x: 0, y: 0, z: 0, w: 16383 },
        ease_in: 0,
        ease_out: 0,
    }
}

fn tkey(time: i32) -> TranslationKey {
    TranslationKey { time, in_tangent: v3(0, 0, 0), translation: v3(0, 0, 0), out_tangent: v3(0, 0, 0) }
}

fn static_bone() -> BoneAnimation {
    BoneAnimation { weight: fp(1, 0), rotation_keys: vec![], translation_keys: vec![] }
}

fn joint(index: usize, name: Option<&str>, children: Vec<usize>) -> Joint {
    Joint { index, name: name.map(str::to_owned), children }
}

#[test]
fn time_range_of_no_bones_is_zero() {
    assert_eq!(determine_anim_time_range(&vec![]), (0, 0));
}

#[test]
fn time_range_of_keyless_bones_is_zero() {
    let bones = vec![static_bone(), static_bone()];
    assert_eq!(determine_anim_time_range(&bones), (0, 0));
}

#[test]
fn time_range_spans_keys_across_bones() {
    let bones = vec![
        BoneAnimation {
            weight: fp(1, 0),
            rotation_keys: vec![rkey(5000), rkey(900)],
            translation_keys: vec![],
        },
        static_bone(),
        BoneAnimation {
            weight: fp(1, 0),
            rotation_keys: vec![],
            translation_keys: vec![tkey(100), tkey(4000)],
        },
    ];
    assert_eq!(determine_anim_time_range(&bones), (100, 5000));
}

#[test]
fn make_rfa_header_and_static_bones() {
    let anim = Animation { name: None, channels: vec![] };
    let skin = Skin {
        joints: vec![joint(0, Some("root"), vec![]), joint(1, None, vec![])],
        inverse_bind: vec![identity_transform(), identity_transform()],
    };
    let f = make_rfa(&anim, &skin);
    assert_eq!(f.header.num_bones, 2);
    assert_eq!(f.header.start_time, 0);
    assert_eq!(f.header.end_time, 0);
    assert_eq!(f.header.ramp_in_time, 480);
    assert_eq!(f.header.ramp_out_time, 480);
    assert_eq!(f.header.total_rotation, quat(0, 0, 0, 1));
    assert_eq!(f.header.total_translation, v3(0, 0, 0));
    assert_eq!(f.bones.len(), 2);
    for b in &f.bones {
        assert_eq!(b.weight, fp(1, 0));
        assert!(b.rotation_keys.is_empty());
        assert!(b.translation_keys.is_empty());
    }
}

#[test]
fn make_rfa_derives_range_from_channels() {
    let anim = Animation {
        name: None,
        channels: vec![
            Channel {
                target: 7,
                interpolation: Interpolation::Linear,
                times: vec![fp(1, -1), fp(2, 0)],
                values: ChannelValues::Rotations(vec![quat(0, 0, 0, 1), quat(0, 0, 0, 1)]),
            },
        ],
    };
    let skin = Skin {
        joints: vec![joint(7, None, vec![])],
        inverse_bind: vec![identity_transform()],
    };
    let f = make_rfa(&anim, &skin);
    assert_eq!(f.bones[0].rotation_keys.len(), 2);
    assert_eq!(f.header.start_time, 2400);
    assert_eq!(f.header.end_time, 9600);
}

#[test]
fn animation_name_defaults_to_indexed() {
    let anim = Animation { name: None, channels: vec![] };
    let skin = Skin { joints: vec![], inverse_bind: vec![] };
    let (name, _) = convert_animation_to_rfa(&anim, 7, &skin);
    assert_eq!(name, "anim_7");
    let (name2, _) = convert_animation_to_rfa(&anim, 120, &skin);
    assert_eq!(name2, "anim_120");
}

#[test]
fn animation_name_kept_when_present() {
    let anim = Animation { name: Some("walk".to_owned()), channels: vec![] };
    let skin = Skin { joints: vec![], inverse_bind: vec![] };
    let (name, _) = convert_animation_to_rfa(&anim, 3, &skin);
    assert_eq!(name, "walk");
}

#[test]
fn joint_parent_and_index_lookup() {
    let joints = vec![
        joint(10, None, vec![11]),
        joint(11, None, vec![12]),
        joint(12, None, vec![]),
    ];
    assert_eq!(get_joint_parent(&joints, 11), Some(0));
    assert_eq!(get_joint_parent(&joints, 12), Some(1));
    assert_eq!(get_joint_parent(&joints, 10), None);
    assert_eq!(get_joint_index(&joints, 12), 2);
    assert_eq!(get_joint_index(&joints, 10), 0);
}

#[test]
fn single_root_chain_resolves_parents() {
    let skin = Skin {
        joints: vec![
            joint(10, Some("hip"), vec![11]),
            joint(11, None, vec![12]),
            joint(12, None, vec![]),
        ],
        inverse_bind: vec![identity_transform(), identity_transform(), identity_transform()],
    };
    let bones = convert_bones(&skin).unwrap();
    assert_eq!(bones.len(), 3);
    assert_eq!(bones[0].parent_index, -1);
    assert_eq!(bones[1].parent_index, 0);
    assert_eq!(bones[2].parent_index, 1);
    assert_eq!(bones[0].name, "hip");
    assert_eq!(bones[1].name, "bone_1");
    assert_eq!(bones[2].name, "bone_2");
    assert_eq!(bones[0].base_rotation, quat(0, 0, 0, 1));
    assert_eq!(bones[0].base_translation, v3(0, 0, 0));
}

#[test]
fn bone_transform_is_coordinate_converted() {
    let skin = Skin {
        joints: vec![joint(0, None, vec![])],
        inverse_bind: vec![
            BindTransform {
                scale: v3(1, 1, 1),
                rotation: quat(1, 2, 3, 4),
                translation: v3(1, 2, 3),
            },
        ],
    };
    let bones = convert_bones(&skin).unwrap();
    assert_eq!(bones[0].base_rotation, quat(-1, -3, -2, 4));
    assert_eq!(bones[0].base_translation, v3(1, 3, 2));
}

#[test]
fn too_many_joints_fails_with_capacity() {
    let mut joints = Vec::new();
    let mut transforms = Vec::new();
    for i in 0..(MAX_BONES + 1) {
        joints.push(joint(i, None, vec![]));
        transforms.push(identity_transform());
    }
    let skin = Skin { joints, inverse_bind: transforms };
    let err = convert_bones(&skin).unwrap_err();
    assert_eq!(err, ConvertError::CapacityExceeded { joints: MAX_BONES + 1, max: MAX_BONES });
}

#[test]
fn matrix_count_mismatch_fails_with_data_mismatch() {
    let skin = Skin {
        joints: vec![joint(0, None, vec![]), joint(1, None, vec![])],
        inverse_bind: vec![identity_transform()],
    };
    let err = convert_bones(&skin).unwrap_err();
    assert_eq!(err, ConvertError::DataMismatch { expected: 2, found: 1 });
}

#[test]
fn off_tolerance_scale_fails_with_unsupported_transform() {
    let bad = BindTransform {
        scale: v3(2, 1, 1),
        rotation: quat(0, 0, 0, 1),
        translation: v3(0, 0, 0),
    };
    let skin = Skin {
        joints: vec![joint(0, None, vec![]), joint(1, None, vec![])],
        inverse_bind: vec![identity_transform(), bad],
    };
    let err = convert_bones(&skin).unwrap_err();
    assert_eq!(err, ConvertError::UnsupportedTransform { joint: 1 });
}

#[test]
fn scale_tolerance_is_one_hundredth() {
    // 0.9921875 deviates by less than 0.01: accepted
    let near = BindTransform {
        scale: Vec3 { x: fp(127, -7), y: fp(1, 0), z: fp(1, 0) },
        rotation: quat(0, 0, 0, 1),
        translation: v3(0, 0, 0),
    };
    // 0.984375 deviates by more than 0.01: rejected
    let far = BindTransform {
        scale: Vec3 { x: fp(63, -6), y: fp(1, 0), z: fp(1, 0) },
        rotation: quat(0, 0, 0, 1),
        translation: v3(0, 0, 0),
    };
    let ok_skin = Skin { joints: vec![joint(0, None, vec![])], inverse_bind: vec![near] };
    assert!(convert_bones(&ok_skin).is_ok());
    let bad_skin = Skin { joints: vec![joint(0, None, vec![])], inverse_bind: vec![far] };
    assert_eq!(
        convert_bones(&bad_skin).unwrap_err(),
        ConvertError::UnsupportedTransform { joint: 0 }
    );
}
