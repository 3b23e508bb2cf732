use ism2::error::ISM2ImportError;
use ism2::joint_definition::{
    Joint, JointAttribute, JointAttributesOffsets, JointDefinition, JointDefinitionSubSection,
    JointOrientX, JointOrientZ, JointRotateX, JointScale, JointSubSection, JointTranslate,
};
use ism2::scene::SceneLayout;
use ism2::skeleton::{
    IEulerAngle, IEulerRotationOrder, IParity, IPositionCoordinates, JointPose, Skeleton,
};

fn joint(name: &str, parent_index: Option<usize>, attributes: Vec<Vec<JointAttribute>>) -> Joint {
    let mut sub_sections = Vec::new();
    for list in attributes {
        sub_sections.push(JointSubSection::Offsets(JointAttributesOffsets { attributes: list }));
        sub_sections.push(JointSubSection::Unnamed5C);
    }
    Joint { name: name.to_string(), parent_index, sub_sections, in_vertex_id: 0 }
}

fn definition(joints: Vec<Joint>) -> JointDefinition {
    let mut sub_sections = vec![JointDefinitionSubSection::Unnamed04];
    for joint in joints {
        sub_sections.push(JointDefinitionSubSection::Joint(joint));
        sub_sections.push(JointDefinitionSubSection::Unnamed04);
    }
    JointDefinition { sub_sections }
}

#[test]
fn the_order_of_rotation_is_fixed() {
    assert_eq!(IEulerRotationOrder::ZYX.get_info(), ((2, 1, 0), IParity::Odd));
    let angles = IEulerAngle { x: 10, y: 20, z: 30, rotation_order: IEulerRotationOrder::ZYX };
    assert_eq!(angles.get_angle_from_index(0), 10);
    assert_eq!(angles.get_angle_from_index(1), 20);
    assert_eq!(angles.get_angle_from_index(2), 30);
}

#[test]
fn an_orientation_that_is_declared_in_part_has_zero_for_the_rest() {
    let only_z = joint(
        "a",
        None,
        vec![vec![JointAttribute::JointOrientZ(JointOrientZ { angle: 0x42B4_0000 })]],
    );
    assert_eq!(
        JointPose::read(&only_z),
        JointPose { transform: None, euler: Some((0, 0, 0x42B4_0000)), scale: None }
    );
    let rotations_only =
        joint("b", None, vec![vec![JointAttribute::RotateX(JointRotateX { angle: 5 })]]);
    assert_eq!(
        JointPose::read(&rotations_only),
        JointPose { transform: None, euler: None, scale: None }
    );
    assert_eq!(
        JointPose::read(&joint("c", None, Vec::new())),
        JointPose { transform: None, euler: None, scale: None }
    );
}

#[test]
fn a_later_attribute_replaces_an_earlier_one() {
    let bone = joint(
        "a",
        None,
        vec![
            vec![
                JointAttribute::Translate(JointTranslate { x: 1, y: 2, z: 3 }),
                JointAttribute::JointOrientX(JointOrientX { angle: 7 }),
                JointAttribute::PhysicsMass,
            ],
            vec![
                JointAttribute::Scale(JointScale { x: 4, y: 5, z: 6 }),
                JointAttribute::Translate(JointTranslate { x: 9, y: 8, z: 7 }),
                JointAttribute::JointOrientZ(JointOrientZ { angle: 11 }),
                JointAttribute::JointOrientX(JointOrientX { angle: 13 }),
            ],
        ],
    );
    let mut pose = JointPose { transform: None, euler: None, scale: None };
    pose.apply(&JointAttribute::JointOrientX(JointOrientX { angle: 7 }));
    assert_eq!(pose.euler, Some((7, 0, 0)));
    assert_eq!(
        JointPose::read(&bone),
        JointPose {
            transform: Some(IPositionCoordinates { x: 9, y: 8, z: 7 }),
            euler: Some((13, 0, 11)),
            scale: Some(IPositionCoordinates { x: 4, y: 5, z: 6 }),
        }
    );
}

#[test]
fn children_are_listed_in_the_order_of_their_indices() {
    let skeleton = Skeleton::build(&definition(vec![
        joint("r0", None, Vec::new()),
        joint("p", Some(0), Vec::new()),
        joint("c2", Some(1), Vec::new()),
        joint("r1", None, Vec::new()),
        joint("c4", Some(1), Vec::new()),
        joint("c5", Some(0), Vec::new()),
        joint("c6", Some(1), Vec::new()),
    ]))
    .unwrap();
    assert_eq!(skeleton.nodes.len(), 7);
    assert_eq!(skeleton.nodes[1].children, vec![2, 4, 6]);
    assert_eq!(skeleton.nodes[0].children, vec![1, 5]);
    assert!(skeleton.nodes[2].children.is_empty());
    assert!(skeleton.nodes[3].children.is_empty());
    assert_eq!(skeleton.root_nodes, vec![0, 3]);
    assert_eq!(skeleton.nodes[4].name, "c4");
    let empty = Skeleton::build(&definition(Vec::new())).unwrap();
    assert!(empty.nodes.is_empty());
    assert!(empty.root_nodes.is_empty());
}

#[test]
fn a_parent_index_that_no_earlier_joint_has_is_a_missing_parent() {
    let beyond = Skeleton::build(&definition(vec![
        joint("a", None, Vec::new()),
        joint("b", Some(3), Vec::new()),
        joint("c", Some(9), Vec::new()),
    ]));
    assert_eq!(beyond.err(), Some(ISM2ImportError::MissingParent(3)));

    let later = Skeleton::build(&definition(vec![
        joint("a", Some(1), Vec::new()),
        joint("b", None, Vec::new()),
    ]));
    assert_eq!(later.err(), Some(ISM2ImportError::MissingParent(1)));

    let itself = Skeleton::build(&definition(vec![
        joint("a", None, Vec::new()),
        joint("b", Some(1), Vec::new()),
    ]));
    assert_eq!(itself.err(), Some(ISM2ImportError::MissingParent(1)));

    let alone = Skeleton::build(&definition(vec![joint("a", Some(0), Vec::new())]));
    assert_eq!(alone.err(), Some(ISM2ImportError::MissingParent(0)));
}

#[test]
fn nodes_are_numbered_joints_first_then_meshes_then_the_group() {
    let layout = SceneLayout::plan(3, 2, Some(1), true).unwrap();
    assert_eq!(layout.mesh_nodes, vec![3, 4]);
    assert_eq!(layout.top_node, 5);
    assert_eq!(layout.top_children, vec![1, 3, 4]);
    assert_eq!(layout.skin_joints, vec![0, 1, 2]);
    assert!(layout.skinned);

    let bare = SceneLayout::plan(0, 0, None, false).unwrap();
    assert!(bare.mesh_nodes.is_empty());
    assert_eq!(bare.top_node, 0);
    assert!(bare.top_children.is_empty());
    assert!(bare.skin_joints.is_empty());

    assert!(SceneLayout::plan(usize::MAX, 1, None, false).is_none());
}
