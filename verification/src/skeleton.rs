//! The skeleton: the joints of a joint definition section as the nodes of a tree, each
//! with its children, its pose, and the identifier by which skin data refers to it.

use vstd::prelude::*;
use crate::error::{ISM2ImportError, views};
use crate::joint_definition::{Joint, JointAttribute, JointDefinition, JointDefinitionSubSection,
    JointDefinitionSubSectionView, JointSubSection, JointSubSectionView, JointView, joints_of,
    parents_come_first, lemma_decoded_parents_come_first};

verus! {

/// Three components, each a single-precision bit pattern.
#[derive(Clone, Copy, Debug, PartialEq, Eq)]
pub struct IPositionCoordinates {
    pub x: u32,
    pub y: u32,
    pub z: u32,
}

/// The order in which the three rotations of an orientation are applied.
#[derive(Clone, Copy, Debug, PartialEq, Eq)]
pub enum IEulerRotationOrder {
    ZYX,
}

/// Whether an order of rotation is an even or an odd permutation of the axes.
#[derive(Clone, Copy, Debug, PartialEq, Eq)]
pub enum IParity {
    Odd,
}

/// An orientation as three angles about the axes, in degrees as the file stores them,
/// each a single-precision bit pattern.
#[derive(Clone, Copy, Debug, PartialEq, Eq)]
pub struct IEulerAngle {
    pub x: u32,
    pub y: u32,
    pub z: u32,
    pub rotation_order: IEulerRotationOrder,
}

impl IEulerRotationOrder {
    /// The axes in the order in which they are rotated about, and the parity of that
    /// order.
    pub fn get_info(&self) -> (info: ((usize, usize, usize), IParity))
        ensures
            info == ((2usize, 1usize, 0usize), IParity::Odd),
    {
        match self {
            IEulerRotationOrder::ZYX => ((2, 1, 0), IParity::Odd),
        }
    }
}

impl IEulerAngle {
    /// The angle about axis `i`, the axes counted from zero.
    pub fn get_angle_from_index(&self, i: usize) -> (angle: u32)
        requires
            i < 3,
        ensures
            angle == if i == 0 {
                self.x
            } else if i == 1 {
                self.y
            } else {
                self.z
            },
    {
        if i == 0 {
            self.x
        } else if i == 1 {
            self.y
        } else {
            self.z
        }
    }
}

/// What the attributes of a joint say of its pose.
#[derive(Clone, Copy, Debug, PartialEq, Eq)]
pub struct JointPose {
    pub transform: Option<IPositionCoordinates>,
    pub euler: Option<(u32, u32, u32)>,
    pub scale: Option<IPositionCoordinates>,
}

/// The pattern of the number zero.
pub const ZERO: u32 = 0;

impl JointPose {
    /// The pose of a joint without attributes.
    pub open spec fn unset() -> JointPose {
        JointPose { transform: None, euler: None, scale: None }
    }

    /// The pose after one more attribute. A translation or a scale replaces the one
    /// before it. An orientation about one axis sets that angle and keeps the other two,
    /// which are zero until they are set. Other attributes change nothing.
    pub open spec fn with(self, attribute: JointAttribute) -> JointPose {
        match attribute {
            JointAttribute::Translate(t) => JointPose {
                transform: Some(IPositionCoordinates { x: t.x, y: t.y, z: t.z }),
                ..self
            },
            JointAttribute::Scale(s) => JointPose {
                scale: Some(IPositionCoordinates { x: s.x, y: s.y, z: s.z }),
                ..self
            },
            JointAttribute::JointOrientX(r) => JointPose {
                euler: Some(
                    match self.euler {
                        Some(h) => (r.angle, h.1, h.2),
                        None => (r.angle, 0u32, 0u32),
                    },
                ),
                ..self
            },
            JointAttribute::JointOrientY(p) => JointPose {
                euler: Some(
                    match self.euler {
                        Some(h) => (h.0, p.angle, h.2),
                        None => (0u32, p.angle, 0u32),
                    },
                ),
                ..self
            },
            JointAttribute::JointOrientZ(y) => JointPose {
                euler: Some(
                    match self.euler {
                        Some(h) => (h.0, h.1, y.angle),
                        None => (0u32, 0u32, y.angle),
                    },
                ),
                ..self
            },
            _ => self,
        }
    }

    /// The pose after the attributes `attributes`, taken in order.
    pub open spec fn with_all(self, attributes: Seq<JointAttribute>) -> JointPose
        decreases attributes.len(),
    {
        if attributes.len() == 0 {
            self
        } else {
            self.with_all(attributes.drop_last()).with(attributes.last())
        }
    }

    /// The pose after the children `sub_sections` of a joint, taken in order.
    pub open spec fn with_sub_sections(self, sub_sections: Seq<JointSubSectionView>) -> JointPose
        decreases sub_sections.len(),
    {
        if sub_sections.len() == 0 {
            self
        } else {
            let before = self.with_sub_sections(sub_sections.drop_last());
            match sub_sections.last() {
                JointSubSectionView::Offsets(attributes) => before.with_all(attributes),
                JointSubSectionView::Unnamed5C => before,
            }
        }
    }

    /// The pose that the joint's attributes give it.
    pub open spec fn of(joint: JointView) -> JointPose {
        JointPose::unset().with_sub_sections(joint.sub_sections)
    }

    /// Takes one more attribute into the pose.
    pub fn apply(&mut self, attribute: &JointAttribute)
        ensures
            *final(self) == old(self).with(*attribute),
    {
        match attribute {
            JointAttribute::Translate(t) => {
                self.transform = Some(IPositionCoordinates { x: t.x, y: t.y, z: t.z });
            },
            JointAttribute::Scale(s) => {
                self.scale = Some(IPositionCoordinates { x: s.x, y: s.y, z: s.z });
            },
            JointAttribute::JointOrientX(r) => {
                self.euler = Some(
                    match self.euler {
                        Some(h) => (r.angle, h.1, h.2),
                        None => (r.angle, ZERO, ZERO),
                    },
                );
            },
            JointAttribute::JointOrientY(p) => {
                self.euler = Some(
                    match self.euler {
                        Some(h) => (h.0, p.angle, h.2),
                        None => (ZERO, p.angle, ZERO),
                    },
                );
            },
            JointAttribute::JointOrientZ(y) => {
                self.euler = Some(
                    match self.euler {
                        Some(h) => (h.0, h.1, y.angle),
                        None => (ZERO, ZERO, y.angle),
                    },
                );
            },
            _ => {},
        }
    }

    /// The pose that the attributes of `joint` give it.
    pub fn read(joint: &Joint) -> (pose: JointPose)
        ensures
            pose == JointPose::of(joint@),
    {
        let mut pose = JointPose { transform: None, euler: None, scale: None };
        let ghost subs = views(joint.sub_sections@);
        let mut i: usize = 0;
        proof {
            assert(subs.take(0) =~= Seq::<JointSubSectionView>::empty());
        }
        while i < joint.sub_sections.len()
            invariant
                i <= joint.sub_sections.len(),
                subs == views(joint.sub_sections@),
                pose == JointPose::unset().with_sub_sections(subs.take(i as int)),
            decreases joint.sub_sections.len() - i,
        {
            proof {
                assert(subs.take(i + 1).drop_last() == subs.take(i as int));
                assert(subs.take(i + 1).last() == joint.sub_sections@[i as int]@);
            }
            match &joint.sub_sections[i] {
                JointSubSection::Offsets(offsets) => {
                    let ghost before = pose;
                    let mut k: usize = 0;
                    proof {
                        assert(offsets.attributes@.take(0) =~= Seq::<JointAttribute>::empty());
                    }
                    while k < offsets.attributes.len()
                        invariant
                            k <= offsets.attributes.len(),
                            pose == before.with_all(offsets.attributes@.take(k as int)),
                        decreases offsets.attributes.len() - k,
                    {
                        proof {
                            assert(offsets.attributes@.take(k + 1).drop_last()
                                == offsets.attributes@.take(k as int));
                        }
                        pose.apply(&offsets.attributes[k]);
                        k = k + 1;
                    }
                    proof {
                        assert(offsets.attributes@.take(k as int) == offsets.attributes@);
                    }
                },
                JointSubSection::Unnamed5C => {},
            }
            i = i + 1;
        }
        proof {
            assert(subs.take(i as int) == subs);
        }
        pose
    }
}

/// A joint as a node of the skeleton. Children are named by their indices.
#[derive(Clone, Debug)]
pub struct INode {
    pub transform: Option<IPositionCoordinates>,
    pub rotation: Option<IEulerAngle>,
    pub scale: Option<IPositionCoordinates>,
    pub name: String,
    pub children: Vec<usize>,
}

/// Model of an [`INode`].
pub ghost struct INodeView {
    pub transform: Option<IPositionCoordinates>,
    pub rotation: Option<IEulerAngle>,
    pub scale: Option<IPositionCoordinates>,
    pub name: Seq<char>,
    pub children: Seq<usize>,
}

impl View for INode {
    type V = INodeView;

    open spec fn view(&self) -> INodeView {
        INodeView {
            transform: self.transform,
            rotation: self.rotation,
            scale: self.scale,
            name: self.name@,
            children: self.children@,
        }
    }
}

/// The indices, in rising order, of those of the first `upto` joints that name joint
/// `parent` as their parent.
pub open spec fn children_among(joints: Seq<JointView>, parent: int, upto: int) -> Seq<usize>
    decreases upto,
{
    if upto <= 0 {
        Seq::empty()
    } else {
        let before = children_among(joints, parent, upto - 1);
        if joints[upto - 1].parent_index == Some(parent as usize) {
            before.push((upto - 1) as usize)
        } else {
            before
        }
    }
}

/// The indices, in rising order, of those of the first `upto` joints that have no parent.
pub open spec fn roots_among(joints: Seq<JointView>, upto: int) -> Seq<usize>
    decreases upto,
{
    if upto <= 0 {
        Seq::empty()
    } else {
        let before = roots_among(joints, upto - 1);
        if joints[upto - 1].parent_index is None {
            before.push((upto - 1) as usize)
        } else {
            before
        }
    }
}

/// The parent named by the first of the first `upto` joints whose parent is not a joint
/// before itself, if there is such a joint.
pub open spec fn missing_parent(joints: Seq<JointView>, upto: int) -> Option<usize>
    decreases upto,
{
    if upto <= 0 {
        None
    } else {
        match missing_parent(joints, upto - 1) {
            Some(parent) => Some(parent),
            None => match joints[upto - 1].parent_index {
                Some(parent) => if parent >= upto - 1 {
                    Some(parent)
                } else {
                    None
                },
                None => None,
            },
        }
    }
}

/// The orientation that a pose gives a node: the three angles in the one order of
/// rotation that the format uses.
pub open spec fn rotation_of(pose: JointPose) -> Option<IEulerAngle> {
    match pose.euler {
        Some(h) => Some(
            IEulerAngle { x: h.0, y: h.1, z: h.2, rotation_order: IEulerRotationOrder::ZYX },
        ),
        None => None,
    }
}

/// The node of joint `i` of `joints`.
pub open spec fn node_of(joints: Seq<JointView>, i: int) -> INodeView {
    let pose = JointPose::of(joints[i]);
    INodeView {
        transform: pose.transform,
        rotation: rotation_of(pose),
        scale: pose.scale,
        name: joints[i].name,
        children: children_among(joints, i, joints.len() as int),
    }
}

/// The joints of a section as a tree.
#[derive(Clone, Debug)]
pub struct Skeleton {
    /// One node for each joint, at the joint's index.
    pub nodes: Vec<INode>,
    /// The indices of the joints without a parent, in rising order.
    pub root_nodes: Vec<usize>,
}

/// References to the joints among the children of `definition`, in file order.
pub fn joints_in(definition: &JointDefinition) -> (joints: Vec<&Joint>)
    ensures
        views(joints@) == joints_of(definition@),
{
    let ghost subs = views(definition.sub_sections@);
    let mut joints: Vec<&Joint> = Vec::new();
    let mut i: usize = 0;
    proof {
        assert(subs.take(0) =~= Seq::<JointDefinitionSubSectionView>::empty());
        assert(views(joints@) =~= Seq::<JointView>::empty());
    }
    while i < definition.sub_sections.len()
        invariant
            i <= definition.sub_sections.len(),
            subs == views(definition.sub_sections@),
            views(joints@) == joints_of(subs.take(i as int)),
        decreases definition.sub_sections.len() - i,
    {
        proof {
            assert(subs.take(i + 1).drop_last() == subs.take(i as int));
            assert(subs.take(i + 1).last() == definition.sub_sections@[i as int]@);
        }
        match &definition.sub_sections[i] {
            JointDefinitionSubSection::Joint(joint) => {
                proof {
                    assert(views(joints@.push(joint)) =~= views(joints@).push(joint@));
                }
                joints.push(joint);
            },
            JointDefinitionSubSection::Unnamed04 => {},
        }
        i = i + 1;
    }
    proof {
        assert(subs.take(i as int) == subs);
    }
    joints
}

impl Skeleton {
    /// Whether the skeleton is the tree of `joints`: one node for each joint, with the
    /// joint's name and pose and with the joints that name it as their parent for
    /// children, and the joints without a parent for roots.
    pub open spec fn is_tree_of(self, joints: Seq<JointView>) -> bool {
        &&& self.nodes@.len() == joints.len()
        &&& forall|i: int|
            0 <= i < joints.len() ==> (#[trigger] self.nodes@[i])@ == node_of(joints, i)
        &&& self.root_nodes@ == roots_among(joints, joints.len() as int)
    }

    /// Builds the tree of the joints of `definition`. A joint whose parent index is not
    /// the index of a joint before it is an error; the first such joint decides. In the
    /// tree that is built every parent comes before its children, so it holds no cycle.
    #[verifier::loop_isolation(false)]
    pub fn build(definition: &JointDefinition) -> (result: Result<Skeleton, ISM2ImportError>)
        ensures
            match result {
                Ok(skeleton) => missing_parent(
                    joints_of(definition@),
                    joints_of(definition@).len() as int,
                ) is None && parents_come_first(joints_of(definition@)) && skeleton.is_tree_of(
                    joints_of(definition@),
                ),
                Err(e) => match missing_parent(
                    joints_of(definition@),
                    joints_of(definition@).len() as int,
                ) {
                    Some(parent) => e == ISM2ImportError::MissingParent(parent as u64),
                    None => false,
                },
            },
    {
        let joints: Vec<&Joint> = joints_in(definition);
        let ghost models = joints_of(definition@);
        let count: usize = joints.len();
        assert(models.len() == count);
        let mut i_children: Vec<Vec<usize>> = Vec::new();
        let mut id: usize = 0;
        while id < count
            invariant
                id <= count,
                i_children@.len() == id,
                forall|p: int| 0 <= p < id ==> (#[trigger] i_children@[p])@ == Seq::<usize>::empty(),
            decreases count - id,
        {
            i_children.push(Vec::new());
            id = id + 1;
        }
        let mut i_root_nodes: Vec<usize> = Vec::new();
        id = 0;
        while id < count
            invariant
                id <= count,
                count == joints@.len(),
                models == views(joints@),
                i_children@.len() == count,
                forall|p: int|
                    0 <= p < count ==> (#[trigger] i_children@[p])@ == children_among(
                        models,
                        p,
                        id as int,
                    ),
                i_root_nodes@ == roots_among(models, id as int),
                missing_parent(models, id as int) is None,
            decreases count - id,
        {
            assert(models[id as int] == joints@[id as int]@);
            match joints[id].parent_index {
                None => {
                    i_root_nodes.push(id);
                },
                Some(p) => {
                    if p < id {
                        let ghost before = i_children@;
                        i_children[p].push(id);
                        assert(forall|q: int|
                            0 <= q < count && q != p ==> i_children@[q] == before[q]);
                    } else {
                        proof {
                            assert(missing_parent(models, id + 1) == Some(p));
                            lemma_missing_parent_stays(models, id + 1, count as int);
                        }
                        return Err(ISM2ImportError::MissingParent(p as u64));
                    }
                },
            }
            id = id + 1;
        }
        let mut nodes: Vec<INode> = Vec::new();
        id = 0;
        while id < count
            invariant
                id <= count,
                count == joints@.len(),
                models == views(joints@),
                i_children@.len() == count,
                forall|p: int|
                    0 <= p < count ==> (#[trigger] i_children@[p])@ == children_among(
                        models,
                        p,
                        count as int,
                    ),
                nodes@.len() == id,
                forall|i: int| 0 <= i < id ==> (#[trigger] nodes@[i])@ == node_of(models, i),
            decreases count - id,
        {
            assert(models[id as int] == joints@[id as int]@);
            let joint: &Joint = joints[id];
            let pose: JointPose = JointPose::read(joint);
            let rotation: Option<IEulerAngle> = match pose.euler {
                Some(euler) => Some(
                    IEulerAngle {
                        x: euler.0,
                        y: euler.1,
                        z: euler.2,
                        rotation_order: IEulerRotationOrder::ZYX,
                    },
                ),
                None => None,
            };
            let node = INode {
                transform: pose.transform,
                rotation,
                scale: pose.scale,
                name: joint.name.clone(),
                children: i_children[id].clone(),
            };
            nodes.push(node);
            id = id + 1;
        }
        proof {
            lemma_missing_parent_is_none(models, count as int);
            assert(models.take(count as int) == models);
        }
        Ok(Skeleton { nodes, root_nodes: i_root_nodes })
    }
}

/// Once a joint with a missing parent is found among the first joints, it stays the one
/// that is found among more of them.
pub proof fn lemma_missing_parent_stays(joints: Seq<JointView>, found: int, upto: int)
    requires
        found <= upto,
        missing_parent(joints, found) is Some,
    ensures
        missing_parent(joints, upto) == missing_parent(joints, found),
    decreases upto - found,
{
    if found < upto {
        lemma_missing_parent_stays(joints, found, upto - 1);
    }
}

/// No parent is missing exactly where every joint that names a parent names a joint
/// before itself.
pub proof fn lemma_missing_parent_is_none(joints: Seq<JointView>, upto: int)
    requires
        0 <= upto <= joints.len(),
    ensures
        missing_parent(joints, upto) is None <==> parents_come_first(joints.take(upto)),
    decreases upto,
{
    if upto > 0 {
        lemma_missing_parent_is_none(joints, upto - 1);
        let now = joints.take(upto);
        let before = joints.take(upto - 1);
        assert(now[upto - 1] == joints[upto - 1]);
        if parents_come_first(now) {
            assert forall|i: int| 0 <= i < before.len() implies match (
            #[trigger] before[i]).parent_index {
                Some(parent) => parent < i,
                None => true,
            } by {
                assert(before[i] == now[i]);
            }
        }
        if parents_come_first(before) && missing_parent(joints, upto) is None {
            assert forall|i: int| 0 <= i < now.len() implies match (#[trigger] now[i]).parent_index {
                Some(parent) => parent < i,
                None => true,
            } by {
                if i < upto - 1 {
                    assert(before[i] == now[i]);
                }
            }
        }
    }
}

/// The skeleton of a section that was decoded from a file can always be built: none of
/// its joints misses its parent.
pub proof fn lemma_decoded_skeleton_builds(bytes: Seq<u8>, at: int, strings: Seq<Seq<char>>)
    requires
        JointDefinition::decode(bytes, at, strings) is Ok,
    ensures
        missing_parent(
            joints_of(JointDefinition::decode(bytes, at, strings).unwrap()),
            joints_of(JointDefinition::decode(bytes, at, strings).unwrap()).len() as int,
        ) is None,
{
    let joints = joints_of(JointDefinition::decode(bytes, at, strings).unwrap());
    lemma_decoded_parents_come_first(bytes, at, strings);
    lemma_missing_parent_is_none(joints, joints.len() as int);
    assert(joints.take(joints.len() as int) == joints);
}

/// The children of a joint are the joints that name it as their parent, and no others,
/// each once and in the order of their indices.
pub proof fn lemma_children_are_those_that_name_the_parent(
    joints: Seq<JointView>,
    parent: int,
    upto: int,
)
    requires
        0 <= parent <= usize::MAX,
        0 <= upto <= joints.len() <= usize::MAX,
    ensures
        forall|i: int|
            0 <= i < upto ==> (children_among(joints, parent, upto).contains(i as usize) <==> (
            #[trigger] joints[i]).parent_index == Some(parent as usize)),
        forall|k: int|
            0 <= k < children_among(joints, parent, upto).len() ==> #[trigger] children_among(
                joints,
                parent,
                upto,
            )[k] < upto,
        forall|j: int, k: int|
            0 <= j < k < children_among(joints, parent, upto).len() ==> children_among(
                joints,
                parent,
                upto,
            )[j] < children_among(joints, parent, upto)[k],
    decreases upto,
{
    if upto > 0 {
        lemma_children_are_those_that_name_the_parent(joints, parent, upto - 1);
        let before = children_among(joints, parent, upto - 1);
        let now = children_among(joints, parent, upto);
        assert forall|i: int| 0 <= i < upto implies (now.contains(i as usize) <==> (
        #[trigger] joints[i]).parent_index == Some(parent as usize)) by {
            if joints[upto - 1].parent_index == Some(parent as usize) {
                assert(now == before.push((upto - 1) as usize));
                assert(now[now.len() - 1] == (upto - 1) as usize);
                if i < upto - 1 {
                    if before.contains(i as usize) {
                        let k = choose|k: int| 0 <= k < before.len() && before[k] == i as usize;
                        assert(now[k] == i as usize);
                    }
                    if now.contains(i as usize) {
                        let k = choose|k: int| 0 <= k < now.len() && now[k] == i as usize;
                        assert(k < before.len());
                        assert(before[k] == i as usize);
                    }
                }
            } else {
                assert(now == before);
                if i == upto - 1 && now.contains(i as usize) {
                    let k = choose|k: int| 0 <= k < now.len() && now[k] == i as usize;
                    assert(before[k] < upto - 1);
                }
            }
        }
    }
}

} // verus!
