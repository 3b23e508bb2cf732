//! The joint hierarchy: a flat list of joint records that name their parent by its byte
//! offset in the file, decoded into joints that name their parent by its index.

use std::collections::HashMap;
use vstd::prelude::*;
use crate::error::{ISM2ImportError, UnknownSubSection, unknown_sub_section, views, yields,
    lemma_views_push, lemma_views_empty};
use crate::reader::{Reader, Chunk, le_u32, read_u32, tagged_record, chunk_children, decode_each,
    lemma_decode_each_step, lemma_decode_each_fails};
use crate::string_table::{string_at, lookup_string};

verus! {

/// The translation of a joint. Each component is a single-precision bit pattern.
#[derive(Clone, Copy, Debug, PartialEq, Eq)]
pub struct JointTranslate {
    pub x: u32,
    pub y: u32,
    pub z: u32,
}

/// The scale of a joint. Each component is a single-precision bit pattern.
#[derive(Clone, Copy, Debug, PartialEq, Eq)]
pub struct JointScale {
    pub x: u32,
    pub y: u32,
    pub z: u32,
}

/// A rotation about the first axis, in degrees, as a single-precision bit pattern.
#[derive(Clone, Copy, Debug, PartialEq, Eq)]
pub struct JointRotateX {
    pub angle: u32,
}

/// A rotation about the second axis, in degrees, as a single-precision bit pattern.
#[derive(Clone, Copy, Debug, PartialEq, Eq)]
pub struct JointRotateY {
    pub angle: u32,
}

/// A rotation about the third axis, in degrees, as a single-precision bit pattern.
#[derive(Clone, Copy, Debug, PartialEq, Eq)]
pub struct JointRotateZ {
    pub angle: u32,
}

/// The orientation about the first axis, in degrees, as a single-precision bit pattern.
#[derive(Clone, Copy, Debug, PartialEq, Eq)]
pub struct JointOrientX {
    pub angle: u32,
}

/// The orientation about the second axis, in degrees, as a single-precision bit pattern.
#[derive(Clone, Copy, Debug, PartialEq, Eq)]
pub struct JointOrientY {
    pub angle: u32,
}

/// The orientation about the third axis, in degrees, as a single-precision bit pattern.
#[derive(Clone, Copy, Debug, PartialEq, Eq)]
pub struct JointOrientZ {
    pub angle: u32,
}

/// One attribute of a joint. Only the transform attributes carry decoded values.
#[derive(Clone, Copy, Debug, PartialEq, Eq)]
pub enum JointAttribute {
    Translate(JointTranslate),
    Scale(JointScale),
    RotateX(JointRotateX),
    RotateY(JointRotateY),
    RotateZ(JointRotateZ),
    JointOrientX(JointOrientX),
    JointOrientY(JointOrientY),
    JointOrientZ(JointOrientZ),
    CollisionFlag,
    CollisionRadius,
    PhysicsFlag,
    PhysicsRadius,
    PhysicsCost,
    PhysicsMass,
    PhysicsExpand,
    PhysicsShapeMemory,
    Unnamed7A,
    Unnamed7B,
    Unnamed7C,
    Unnamed7D,
    Unnamed7E,
}

/// The attributes of a joint, in file order.
#[derive(Clone, Debug)]
pub struct JointAttributesOffsets {
    pub attributes: Vec<JointAttribute>,
}

/// One child of a joint.
#[derive(Clone, Debug)]
pub enum JointSubSection {
    Offsets(JointAttributesOffsets),
    Unnamed5C,
}

/// A joint. Its index is its place among the joints of the file, counted from zero in the
/// order in which the file lists them; `parent_index` is the index of its parent, and
/// `None` marks a root.
#[derive(Clone, Debug)]
pub struct Joint {
    pub name: String,
    pub parent_index: Option<usize>,
    pub sub_sections: Vec<JointSubSection>,
    pub in_vertex_id: u32,
}

/// One child of the joint definition section.
#[derive(Clone, Debug)]
pub enum JointDefinitionSubSection {
    Unnamed04,
    Joint(Joint),
}

/// The joint definition section: its children, in file order.
#[derive(Clone, Debug)]
pub struct JointDefinition {
    pub sub_sections: Vec<JointDefinitionSubSection>,
}

/// Model of a [`JointSubSection`].
pub ghost enum JointSubSectionView {
    Offsets(Seq<JointAttribute>),
    Unnamed5C,
}

/// Model of a [`Joint`].
pub ghost struct JointView {
    pub name: Seq<char>,
    pub parent_index: Option<usize>,
    pub sub_sections: Seq<JointSubSectionView>,
    pub in_vertex_id: u32,
}

/// Model of a [`JointDefinitionSubSection`].
pub ghost enum JointDefinitionSubSectionView {
    Unnamed04,
    Joint(JointView),
}

impl View for JointAttribute {
    type V = JointAttribute;

    open spec fn view(&self) -> JointAttribute {
        *self
    }
}

impl View for JointAttributesOffsets {
    type V = Seq<JointAttribute>;

    open spec fn view(&self) -> Seq<JointAttribute> {
        self.attributes@
    }
}

impl View for JointSubSection {
    type V = JointSubSectionView;

    open spec fn view(&self) -> JointSubSectionView {
        match self {
            JointSubSection::Offsets(offsets) => JointSubSectionView::Offsets(offsets@),
            JointSubSection::Unnamed5C => JointSubSectionView::Unnamed5C,
        }
    }
}

impl View for Joint {
    type V = JointView;

    open spec fn view(&self) -> JointView {
        JointView {
            name: self.name@,
            parent_index: self.parent_index,
            sub_sections: views(self.sub_sections@),
            in_vertex_id: self.in_vertex_id,
        }
    }
}

impl View for JointDefinitionSubSection {
    type V = JointDefinitionSubSectionView;

    open spec fn view(&self) -> JointDefinitionSubSectionView {
        match self {
            JointDefinitionSubSection::Unnamed04 => JointDefinitionSubSectionView::Unnamed04,
            JointDefinitionSubSection::Joint(joint) => JointDefinitionSubSectionView::Joint(joint@),
        }
    }
}

impl View for JointDefinition {
    type V = Seq<JointDefinitionSubSectionView>;

    open spec fn view(&self) -> Seq<JointDefinitionSubSectionView> {
        views(self.sub_sections@)
    }
}

/// The three components of a record of twenty bytes that starts with the tag `magic`: they
/// are its third, fourth and fifth word.
pub open spec fn tagged_triple(bytes: Seq<u8>, at: int, magic: u32) -> Result<
    (u32, u32, u32),
    ISM2ImportError,
> {
    match tagged_record(bytes, at, magic, 20) {
        Err(e) => Err(e),
        Ok(_) => Ok((le_u32(bytes, at + 8), le_u32(bytes, at + 12), le_u32(bytes, at + 16))),
    }
}

/// The angle of a record of twenty-four bytes that starts with the tag `magic`: it is the
/// sixth word.
pub open spec fn tagged_angle(bytes: Seq<u8>, at: int, magic: u32) -> Result<
    u32,
    ISM2ImportError,
> {
    match tagged_record(bytes, at, magic, 24) {
        Err(e) => Err(e),
        Ok(_) => Ok(le_u32(bytes, at + 20)),
    }
}

/// Reads the three components of the record at the cursor, which starts with the tag
/// `magic`.
fn import_triple(reader: &mut Reader, magic: u32) -> (result: Result<
    (u32, u32, u32),
    ISM2ImportError,
>)
    ensures
        final(reader).bytes() == old(reader).bytes(),
        result == tagged_triple(old(reader).bytes(), old(reader).at(), magic),
        result is Ok ==> final(reader).at() == old(reader).at() + 20,
{
    let start: usize = reader.read_tagged(magic, 20)?;
    Ok((reader.le_u32_at(start + 8), reader.le_u32_at(start + 12), reader.le_u32_at(start + 16)))
}

/// Reads the angle of the record at the cursor, which starts with the tag `magic`.
fn import_angle(reader: &mut Reader, magic: u32) -> (result: Result<u32, ISM2ImportError>)
    ensures
        final(reader).bytes() == old(reader).bytes(),
        result == tagged_angle(old(reader).bytes(), old(reader).at(), magic),
        result is Ok ==> final(reader).at() == old(reader).at() + 24,
{
    let start: usize = reader.read_tagged(magic, 24)?;
    Ok(reader.le_u32_at(start + 20))
}

impl JointTranslate {
    /// What the record at `at` holds as a translation.
    pub open spec fn decode(bytes: Seq<u8>, at: int) -> Result<JointTranslate, ISM2ImportError> {
        match tagged_triple(bytes, at, 0x14) {
            Err(e) => Err(e),
            Ok(t) => Ok(JointTranslate { x: t.0, y: t.1, z: t.2 }),
        }
    }

    /// Reads the translation at the cursor.
    pub fn import(reader: &mut Reader) -> (result: Result<JointTranslate, ISM2ImportError>)
        ensures
            final(reader).bytes() == old(reader).bytes(),
            result == JointTranslate::decode(old(reader).bytes(), old(reader).at()),
            result is Ok ==> final(reader).at() == old(reader).at() + 20,
    {
        let (x, y, z) = import_triple(reader, 0x14)?;
        Ok(JointTranslate { x, y, z })
    }
}

impl JointScale {
    /// What the record at `at` holds as a scale.
    pub open spec fn decode(bytes: Seq<u8>, at: int) -> Result<JointScale, ISM2ImportError> {
        match tagged_triple(bytes, at, 0x15) {
            Err(e) => Err(e),
            Ok(t) => Ok(JointScale { x: t.0, y: t.1, z: t.2 }),
        }
    }

    /// Reads the scale at the cursor.
    pub fn import(reader: &mut Reader) -> (result: Result<JointScale, ISM2ImportError>)
        ensures
            final(reader).bytes() == old(reader).bytes(),
            result == JointScale::decode(old(reader).bytes(), old(reader).at()),
            result is Ok ==> final(reader).at() == old(reader).at() + 20,
    {
        let (x, y, z) = import_triple(reader, 0x15)?;
        Ok(JointScale { x, y, z })
    }
}

impl JointRotateX {
    /// What the record at `at` holds as a rotation about the first axis.
    pub open spec fn decode(bytes: Seq<u8>, at: int) -> Result<JointRotateX, ISM2ImportError> {
        match tagged_angle(bytes, at, 0x5D) {
            Err(e) => Err(e),
            Ok(angle) => Ok(JointRotateX { angle }),
        }
    }

    /// Reads the rotation at the cursor.
    pub fn import(reader: &mut Reader) -> (result: Result<JointRotateX, ISM2ImportError>)
        ensures
            final(reader).bytes() == old(reader).bytes(),
            result == JointRotateX::decode(old(reader).bytes(), old(reader).at()),
            result is Ok ==> final(reader).at() == old(reader).at() + 24,
    {
        let angle: u32 = import_angle(reader, 0x5D)?;
        Ok(JointRotateX { angle })
    }
}

impl JointRotateY {
    /// What the record at `at` holds as a rotation about the second axis.
    pub open spec fn decode(bytes: Seq<u8>, at: int) -> Result<JointRotateY, ISM2ImportError> {
        match tagged_angle(bytes, at, 0x5E) {
            Err(e) => Err(e),
            Ok(angle) => Ok(JointRotateY { angle }),
        }
    }

    /// Reads the rotation at the cursor.
    pub fn import(reader: &mut Reader) -> (result: Result<JointRotateY, ISM2ImportError>)
        ensures
            final(reader).bytes() == old(reader).bytes(),
            result == JointRotateY::decode(old(reader).bytes(), old(reader).at()),
            result is Ok ==> final(reader).at() == old(reader).at() + 24,
    {
        let angle: u32 = import_angle(reader, 0x5E)?;
        Ok(JointRotateY { angle })
    }
}

impl JointRotateZ {
    /// What the record at `at` holds as a rotation about the third axis.
    pub open spec fn decode(bytes: Seq<u8>, at: int) -> Result<JointRotateZ, ISM2ImportError> {
        match tagged_angle(bytes, at, 0x5F) {
            Err(e) => Err(e),
            Ok(angle) => Ok(JointRotateZ { angle }),
        }
    }

    /// Reads the rotation at the cursor.
    pub fn import(reader: &mut Reader) -> (result: Result<JointRotateZ, ISM2ImportError>)
        ensures
            final(reader).bytes() == old(reader).bytes(),
            result == JointRotateZ::decode(old(reader).bytes(), old(reader).at()),
            result is Ok ==> final(reader).at() == old(reader).at() + 24,
    {
        let angle: u32 = import_angle(reader, 0x5F)?;
        Ok(JointRotateZ { angle })
    }
}

impl JointOrientX {
    /// What the record at `at` holds as an orientation about the first axis.
    pub open spec fn decode(bytes: Seq<u8>, at: int) -> Result<JointOrientX, ISM2ImportError> {
        match tagged_angle(bytes, at, 0x67) {
            Err(e) => Err(e),
            Ok(angle) => Ok(JointOrientX { angle }),
        }
    }

    /// Reads the orientation at the cursor.
    pub fn import(reader: &mut Reader) -> (result: Result<JointOrientX, ISM2ImportError>)
        ensures
            final(reader).bytes() == old(reader).bytes(),
            result == JointOrientX::decode(old(reader).bytes(), old(reader).at()),
            result is Ok ==> final(reader).at() == old(reader).at() + 24,
    {
        let angle: u32 = import_angle(reader, 0x67)?;
        Ok(JointOrientX { angle })
    }
}

impl JointOrientY {
    /// What the record at `at` holds as an orientation about the second axis.
    pub open spec fn decode(bytes: Seq<u8>, at: int) -> Result<JointOrientY, ISM2ImportError> {
        match tagged_angle(bytes, at, 0x68) {
            Err(e) => Err(e),
            Ok(angle) => Ok(JointOrientY { angle }),
        }
    }

    /// Reads the orientation at the cursor.
    pub fn import(reader: &mut Reader) -> (result: Result<JointOrientY, ISM2ImportError>)
        ensures
            final(reader).bytes() == old(reader).bytes(),
            result == JointOrientY::decode(old(reader).bytes(), old(reader).at()),
            result is Ok ==> final(reader).at() == old(reader).at() + 24,
    {
        let angle: u32 = import_angle(reader, 0x68)?;
        Ok(JointOrientY { angle })
    }
}

impl JointOrientZ {
    /// What the record at `at` holds as an orientation about the third axis.
    pub open spec fn decode(bytes: Seq<u8>, at: int) -> Result<JointOrientZ, ISM2ImportError> {
        match tagged_angle(bytes, at, 0x69) {
            Err(e) => Err(e),
            Ok(angle) => Ok(JointOrientZ { angle }),
        }
    }

    /// Reads the orientation at the cursor.
    pub fn import(reader: &mut Reader) -> (result: Result<JointOrientZ, ISM2ImportError>)
        ensures
            final(reader).bytes() == old(reader).bytes(),
            result == JointOrientZ::decode(old(reader).bytes(), old(reader).at()),
            result is Ok ==> final(reader).at() == old(reader).at() + 24,
    {
        let angle: u32 = import_angle(reader, 0x69)?;
        Ok(JointOrientZ { angle })
    }
}

/// The attribute that a tag stands for by itself, for the tags of attributes whose values
/// are not decoded.
pub open spec fn bare_attribute(magic: u32) -> Option<JointAttribute> {
    if magic == 0x70 {
        Some(JointAttribute::CollisionFlag)
    } else if magic == 0x71 {
        Some(JointAttribute::CollisionRadius)
    } else if magic == 0x72 {
        Some(JointAttribute::PhysicsFlag)
    } else if magic == 0x73 {
        Some(JointAttribute::PhysicsRadius)
    } else if magic == 0x74 {
        Some(JointAttribute::PhysicsCost)
    } else if magic == 0x75 {
        Some(JointAttribute::PhysicsMass)
    } else if magic == 0x76 {
        Some(JointAttribute::PhysicsExpand)
    } else if magic == 0x77 {
        Some(JointAttribute::PhysicsShapeMemory)
    } else if magic == 0x7A {
        Some(JointAttribute::Unnamed7A)
    } else if magic == 0x7B {
        Some(JointAttribute::Unnamed7B)
    } else if magic == 0x7C {
        Some(JointAttribute::Unnamed7C)
    } else if magic == 0x7D {
        Some(JointAttribute::Unnamed7D)
    } else if magic == 0x7E {
        Some(JointAttribute::Unnamed7E)
    } else {
        None
    }
}

/// The decoder of the attributes of a joint.
pub open spec fn joint_attribute_decoder() -> spec_fn(Seq<u8>, int) -> Result<
    JointAttribute,
    ISM2ImportError,
> {
    |bytes: Seq<u8>, at: int| JointAttribute::decode(bytes, at)
}

impl JointAttribute {
    /// What the record at `at` holds as an attribute of a joint: the tag at `at` decides.
    pub open spec fn decode(bytes: Seq<u8>, at: int) -> Result<JointAttribute, ISM2ImportError> {
        match read_u32(bytes, at) {
            Err(e) => Err(e),
            Ok(magic) => if magic == 0x14 {
                match JointTranslate::decode(bytes, at) {
                    Err(e) => Err(e),
                    Ok(v) => Ok(JointAttribute::Translate(v)),
                }
            } else if magic == 0x15 {
                match JointScale::decode(bytes, at) {
                    Err(e) => Err(e),
                    Ok(v) => Ok(JointAttribute::Scale(v)),
                }
            } else if magic == 0x5D {
                match JointRotateX::decode(bytes, at) {
                    Err(e) => Err(e),
                    Ok(v) => Ok(JointAttribute::RotateX(v)),
                }
            } else if magic == 0x5E {
                match JointRotateY::decode(bytes, at) {
                    Err(e) => Err(e),
                    Ok(v) => Ok(JointAttribute::RotateY(v)),
                }
            } else if magic == 0x5F {
                match JointRotateZ::decode(bytes, at) {
                    Err(e) => Err(e),
                    Ok(v) => Ok(JointAttribute::RotateZ(v)),
                }
            } else if magic == 0x67 {
                match JointOrientX::decode(bytes, at) {
                    Err(e) => Err(e),
                    Ok(v) => Ok(JointAttribute::JointOrientX(v)),
                }
            } else if magic == 0x68 {
                match JointOrientY::decode(bytes, at) {
                    Err(e) => Err(e),
                    Ok(v) => Ok(JointAttribute::JointOrientY(v)),
                }
            } else if magic == 0x69 {
                match JointOrientZ::decode(bytes, at) {
                    Err(e) => Err(e),
                    Ok(v) => Ok(JointAttribute::JointOrientZ(v)),
                }
            } else {
                match bare_attribute(magic) {
                    Some(attribute) => Ok(attribute),
                    None => Err(unknown_sub_section(0x5B, magic)),
                }
            },
        }
    }

    /// Reads the attribute at the cursor.
    pub fn import(reader: &mut Reader) -> (result: Result<JointAttribute, ISM2ImportError>)
        ensures
            final(reader).bytes() == old(reader).bytes(),
            result == JointAttribute::decode(old(reader).bytes(), old(reader).at()),
    {
        let magic_number: u32 = reader.peek_le_to_u32()?;
        Ok(
            match magic_number {
                0x14 => JointAttribute::Translate(JointTranslate::import(reader)?),
                0x15 => JointAttribute::Scale(JointScale::import(reader)?),
                0x5D => JointAttribute::RotateX(JointRotateX::import(reader)?),
                0x5E => JointAttribute::RotateY(JointRotateY::import(reader)?),
                0x5F => JointAttribute::RotateZ(JointRotateZ::import(reader)?),
                0x67 => JointAttribute::JointOrientX(JointOrientX::import(reader)?),
                0x68 => JointAttribute::JointOrientY(JointOrientY::import(reader)?),
                0x69 => JointAttribute::JointOrientZ(JointOrientZ::import(reader)?),
                0x70 => JointAttribute::CollisionFlag,
                0x71 => JointAttribute::CollisionRadius,
                0x72 => JointAttribute::PhysicsFlag,
                0x73 => JointAttribute::PhysicsRadius,
                0x74 => JointAttribute::PhysicsCost,
                0x75 => JointAttribute::PhysicsMass,
                0x76 => JointAttribute::PhysicsExpand,
                0x77 => JointAttribute::PhysicsShapeMemory,
                0x7A => JointAttribute::Unnamed7A,
                0x7B => JointAttribute::Unnamed7B,
                0x7C => JointAttribute::Unnamed7C,
                0x7D => JointAttribute::Unnamed7D,
                0x7E => JointAttribute::Unnamed7E,
                x => {
                    return Err(
                        ISM2ImportError::UnknownSubSection(
                            UnknownSubSection { in_section: 0x5B, failed_to_match: x },
                        ),
                    )
                },
            },
        )
    }
}

impl JointAttributesOffsets {
    /// What the chunk at `at` holds as the attributes of a joint, in file order.
    pub open spec fn decode(bytes: Seq<u8>, at: int) -> Result<
        Seq<JointAttribute>,
        ISM2ImportError,
    > {
        match chunk_children(bytes, at, 0x5B, 0x0C) {
            Err(e) => Err(e),
            Ok(offsets) => decode_each(bytes, offsets, joint_attribute_decoder()),
        }
    }

    /// Reads the attributes of a joint at the cursor.
    pub fn import(reader: &mut Reader) -> (result: Result<JointAttributesOffsets, ISM2ImportError>)
        ensures
            final(reader).bytes() == old(reader).bytes(),
            yields(result, JointAttributesOffsets::decode(old(reader).bytes(), old(reader).at())),
    {
        let ghost bytes = reader.bytes();
        let chunk: Chunk = reader.read_chunk(0x5B, 0x0C)?;
        let ghost decoder = joint_attribute_decoder();
        let mut attributes: Vec<JointAttribute> = Vec::new();
        let mut i: usize = 0;
        while i < chunk.offsets.len()
            invariant
                reader.bytes() == bytes,
                bytes == old(reader).bytes(),
                i <= chunk.offsets.len(),
                decoder == joint_attribute_decoder(),
                decode_each(bytes, chunk.offsets@.take(i as int), decoder) == Ok::<
                    Seq<JointAttribute>,
                    ISM2ImportError,
                >(attributes@),
                chunk_children(bytes, old(reader).at(), 0x5B, 0x0C) == Ok::<
                    Seq<u32>,
                    ISM2ImportError,
                >(chunk.offsets@),
            decreases chunk.offsets.len() - i,
        {
            let offset: u32 = chunk.offsets[i];
            proof {
                lemma_decode_each_step(bytes, chunk.offsets@, decoder, i as int);
            }
            let step = match reader.seek(offset) {
                Ok(_) => JointAttribute::import(reader),
                Err(e) => Err(e),
            };
            match step {
                Err(e) => {
                    proof {
                        lemma_decode_each_fails(bytes, chunk.offsets@, decoder, i + 1);
                    }
                    return Err(e);
                },
                Ok(attribute) => {
                    attributes.push(attribute);
                },
            }
            i = i + 1;
        }
        assert(chunk.offsets@.take(i as int) == chunk.offsets@);
        Ok(JointAttributesOffsets { attributes })
    }
}

/// The decoder of the children of a joint.
pub open spec fn joint_sub_section_decoder() -> spec_fn(Seq<u8>, int) -> Result<
    JointSubSectionView,
    ISM2ImportError,
> {
    |bytes: Seq<u8>, at: int| JointSubSection::decode(bytes, at)
}

impl JointSubSection {
    /// What the chunk at `at` holds as a child of a joint: the tag at `at` decides.
    pub open spec fn decode(bytes: Seq<u8>, at: int) -> Result<
        JointSubSectionView,
        ISM2ImportError,
    > {
        match read_u32(bytes, at) {
            Err(e) => Err(e),
            Ok(magic) => if magic == 0x5B {
                match JointAttributesOffsets::decode(bytes, at) {
                    Err(e) => Err(e),
                    Ok(attributes) => Ok(JointSubSectionView::Offsets(attributes)),
                }
            } else if magic == 0x5C {
                Ok(JointSubSectionView::Unnamed5C)
            } else {
                Err(unknown_sub_section(0x05, magic))
            },
        }
    }

    /// Reads the child of a joint at the cursor.
    pub fn import(reader: &mut Reader) -> (result: Result<JointSubSection, ISM2ImportError>)
        ensures
            final(reader).bytes() == old(reader).bytes(),
            yields(result, JointSubSection::decode(old(reader).bytes(), old(reader).at())),
    {
        let magic_number: u32 = reader.peek_le_to_u32()?;
        if magic_number == 0x5B {
            Ok(JointSubSection::Offsets(JointAttributesOffsets::import(reader)?))
        } else if magic_number == 0x5C {
            Ok(JointSubSection::Unnamed5C)
        } else {
            Err(
                ISM2ImportError::UnknownSubSection(
                    UnknownSubSection { in_section: 0x05, failed_to_match: magic_number },
                ),
            )
        }
    }
}

/// The index of the parent that the joint of index `own_index` names by the byte offset
/// `parent_offset`. Offset zero means that the joint has no parent. Any other offset must
/// be one at which a joint of the file starts that comes before the joint itself: a
/// parent is declared before its children.
pub open spec fn parent_of(
    offset_index_map: Map<u64, usize>,
    own_index: usize,
    parent_offset: u32,
) -> Result<Option<usize>, ISM2ImportError> {
    if parent_offset == 0 {
        Ok(None)
    } else if offset_index_map.contains_key(parent_offset as u64)
        && offset_index_map[parent_offset as u64] < own_index {
        Ok(Some(offset_index_map[parent_offset as u64]))
    } else {
        Err(ISM2ImportError::MissingParent(parent_offset as u64))
    }
}

/// Resolves the byte offset by which the joint of index `own_index` names its parent.
pub fn resolve_parent(
    offset_index_map: &HashMap<u64, usize>,
    own_index: usize,
    parent_offset: u32,
) -> (result: Result<Option<usize>, ISM2ImportError>)
    ensures
        result == parent_of(offset_index_map@, own_index, parent_offset),
{
    if parent_offset == 0 {
        Ok(None)
    } else {
        let key: u64 = parent_offset as u64;
        match offset_index_map.get(&key) {
            Some(id) => if *id < own_index {
                Ok(Some(*id))
            } else {
                Err(ISM2ImportError::MissingParent(key))
            },
            None => Err(ISM2ImportError::MissingParent(key)),
        }
    }
}

impl Joint {
    /// What the chunk at `at` holds as a joint. In its header, the fourth word indexes the
    /// string table for the name, the eighth is the byte offset of the parent, and the
    /// twelfth is the identifier by which skin data refers to the joint.
    pub open spec fn decode(
        bytes: Seq<u8>,
        at: int,
        strings: Seq<Seq<char>>,
        offset_index_map: Map<u64, usize>,
        own_index: usize,
    ) -> Result<JointView, ISM2ImportError> {
        match chunk_children(bytes, at, 0x05, 0x40) {
            Err(e) => Err(e),
            Ok(offsets) => match string_at(strings, le_u32(bytes, at + 12)) {
                Err(e) => Err(e),
                Ok(name) => match parent_of(
                    offset_index_map,
                    own_index,
                    le_u32(bytes, at + 28),
                ) {
                    Err(e) => Err(e),
                    Ok(parent_index) => match decode_each(
                        bytes,
                        offsets,
                        joint_sub_section_decoder(),
                    ) {
                        Err(e) => Err(e),
                        Ok(sub_sections) => Ok(
                            JointView {
                                name,
                                parent_index,
                                sub_sections,
                                in_vertex_id: le_u32(bytes, at + 44),
                            },
                        ),
                    },
                },
            },
        }
    }

    /// Reads the joint at the cursor. `offset_index_map` gives, for the byte offset of each
    /// joint of the file, the index of that joint; `own_index` is the index of the joint
    /// that is read.
    pub fn import(
        reader: &mut Reader,
        strings_table: &[String],
        offset_index_map: &HashMap<u64, usize>,
        own_index: usize,
    ) -> (result: Result<Joint, ISM2ImportError>)
        ensures
            final(reader).bytes() == old(reader).bytes(),
            yields(
                result,
                Joint::decode(
                    old(reader).bytes(),
                    old(reader).at(),
                    views(strings_table@),
                    offset_index_map@,
                    own_index,
                ),
            ),
    {
        let ghost bytes = reader.bytes();
        let chunk: Chunk = reader.read_chunk(0x05, 0x40)?;
        let string_table_index: u32 = reader.le_u32_at(chunk.start + 12);
        let name: String = lookup_string(strings_table, string_table_index)?;
        let parent_joint_offset: u32 = reader.le_u32_at(chunk.start + 28);
        let parent_index: Option<usize> = resolve_parent(
            offset_index_map,
            own_index,
            parent_joint_offset,
        )?;
        let in_vertex_id: u32 = reader.le_u32_at(chunk.start + 44);
        let ghost decoder = joint_sub_section_decoder();
        let mut sub_sections: Vec<JointSubSection> = Vec::new();
        let mut i: usize = 0;
        proof {
            lemma_views_empty::<JointSubSection>();
        }
        while i < chunk.offsets.len()
            invariant
                reader.bytes() == bytes,
                bytes == old(reader).bytes(),
                i <= chunk.offsets.len(),
                decoder == joint_sub_section_decoder(),
                decode_each(bytes, chunk.offsets@.take(i as int), decoder) == Ok::<
                    Seq<JointSubSectionView>,
                    ISM2ImportError,
                >(views(sub_sections@)),
                chunk_children(bytes, old(reader).at(), 0x05, 0x40) == Ok::<
                    Seq<u32>,
                    ISM2ImportError,
                >(chunk.offsets@),
                string_at(views(strings_table@), le_u32(bytes, old(reader).at() + 12)) == Ok::<
                    Seq<char>,
                    ISM2ImportError,
                >(name@),
                parent_of(offset_index_map@, own_index, le_u32(bytes, old(reader).at() + 28)) == Ok::<
                    Option<usize>,
                    ISM2ImportError,
                >(parent_index),
                in_vertex_id == le_u32(bytes, old(reader).at() + 44),
            decreases chunk.offsets.len() - i,
        {
            let offset: u32 = chunk.offsets[i];
            proof {
                lemma_decode_each_step(bytes, chunk.offsets@, decoder, i as int);
            }
            let step = match reader.seek(offset) {
                Ok(_) => JointSubSection::import(reader),
                Err(e) => Err(e),
            };
            match step {
                Err(e) => {
                    proof {
                        lemma_decode_each_fails(bytes, chunk.offsets@, decoder, i + 1);
                    }
                    return Err(e);
                },
                Ok(sub_section) => {
                    proof {
                        lemma_views_push(sub_sections@, sub_section);
                    }
                    sub_sections.push(sub_section);
                },
            }
            i = i + 1;
        }
        assert(chunk.offsets@.take(i as int) == chunk.offsets@);
        Ok(Joint { name, parent_index, sub_sections, in_vertex_id })
    }
}

impl JointDefinitionSubSection {
    /// What the chunk at `at` holds as a child of the joint definition section: the tag at
    /// `at` decides. `next_index` is the index that the child has if it is a joint.
    pub open spec fn decode(
        bytes: Seq<u8>,
        at: int,
        strings: Seq<Seq<char>>,
        offset_index_map: Map<u64, usize>,
        next_index: usize,
    ) -> Result<JointDefinitionSubSectionView, ISM2ImportError> {
        match read_u32(bytes, at) {
            Err(e) => Err(e),
            Ok(magic) => if magic == 0x04 {
                Ok(JointDefinitionSubSectionView::Unnamed04)
            } else if magic == 0x05 {
                match Joint::decode(bytes, at, strings, offset_index_map, next_index) {
                    Err(e) => Err(e),
                    Ok(joint) => Ok(JointDefinitionSubSectionView::Joint(joint)),
                }
            } else {
                Err(unknown_sub_section(0x03, magic))
            },
        }
    }

    /// Reads the child of the joint definition section at the cursor. `next_index` is
    /// the index that the child has if it is a joint.
    pub fn import(
        reader: &mut Reader,
        strings_table: &[String],
        offset_index_map: &HashMap<u64, usize>,
        next_index: usize,
    ) -> (result: Result<JointDefinitionSubSection, ISM2ImportError>)
        ensures
            final(reader).bytes() == old(reader).bytes(),
            yields(
                result,
                JointDefinitionSubSection::decode(
                    old(reader).bytes(),
                    old(reader).at(),
                    views(strings_table@),
                    offset_index_map@,
                    next_index,
                ),
            ),
    {
        let magic_number: u32 = reader.peek_le_to_u32()?;
        if magic_number == 0x04 {
            Ok(JointDefinitionSubSection::Unnamed04)
        } else if magic_number == 0x05 {
            Ok(
                JointDefinitionSubSection::Joint(
                    Joint::import(reader, strings_table, offset_index_map, next_index)?,
                ),
            )
        } else {
            Err(
                ISM2ImportError::UnknownSubSection(
                    UnknownSubSection { in_section: 0x03, failed_to_match: magic_number },
                ),
            )
        }
    }
}

/// What the first pass over the children of a joint definition section finds: the index
/// of the joint that starts at each offset, and the number of joints.
pub ghost struct JointIndex {
    pub map: Map<u64, usize>,
    pub count: nat,
}

/// The first pass over the children at `offsets`. Each child that is a joint gets the next
/// index, counted from zero in the order of `offsets`; a child that is neither a joint nor
/// the other kind that the section may hold is an error.
pub open spec fn joint_index(bytes: Seq<u8>, offsets: Seq<u32>) -> Result<
    JointIndex,
    ISM2ImportError,
>
    decreases offsets.len(),
{
    if offsets.len() == 0 {
        Ok(JointIndex { map: Map::empty(), count: 0 })
    } else {
        match joint_index(bytes, offsets.drop_last()) {
            Err(e) => Err(e),
            Ok(index) => match read_u32(bytes, offsets.last() as int) {
                Err(e) => Err(e),
                Ok(magic) => if magic == 0x05 {
                    Ok(
                        JointIndex {
                            map: index.map.insert(offsets.last() as u64, index.count as usize),
                            count: index.count + 1,
                        },
                    )
                } else if magic == 0x04 {
                    Ok(index)
                } else {
                    Err(unknown_sub_section(0x03, magic))
                },
            },
        }
    }
}

/// The first pass never counts more joints than there are children, and it gives every
/// joint an index below the count.
pub proof fn lemma_joint_index_bounds(bytes: Seq<u8>, offsets: Seq<u32>)
    ensures
        match joint_index(bytes, offsets) {
            Ok(index) => index.count <= offsets.len() && forall|offset: u64|
                #[trigger] index.map.contains_key(offset) ==> index.map[offset] < index.count,
            Err(_) => true,
        },
    decreases offsets.len(),
{
    if offsets.len() > 0 {
        lemma_joint_index_bounds(bytes, offsets.drop_last());
    }
}

/// A joint that the file lists at place `k`, at an offset that no later child shares, gets
/// as its index the number of joints that the file lists before it.
pub proof fn lemma_joint_index_is_encounter_order(bytes: Seq<u8>, offsets: Seq<u32>, k: int)
    requires
        0 <= k < offsets.len() <= usize::MAX,
        joint_index(bytes, offsets) is Ok,
        read_u32(bytes, offsets[k] as int) == Ok::<u32, ISM2ImportError>(0x05),
        forall|j: int| k < j < offsets.len() ==> offsets[j] != offsets[k],
    ensures
        joint_index(bytes, offsets.take(k)) is Ok,
        joint_index(bytes, offsets).unwrap().map.contains_key(offsets[k] as u64),
        joint_index(bytes, offsets).unwrap().map[offsets[k] as u64] == joint_index(
            bytes,
            offsets.take(k),
        ).unwrap().count,
    decreases offsets.len(),
{
    let shorter = offsets.drop_last();
    if k == offsets.len() - 1 {
        assert(offsets.take(k) == shorter);
        lemma_joint_index_bounds(bytes, shorter);
    } else {
        assert(shorter.take(k) == offsets.take(k));
        lemma_joint_index_is_encounter_order(bytes, shorter, k);
    }
}

/// The joints among the children of a joint definition section, in file order. The place
/// of a joint in this list is its index.
pub open spec fn joints_of(sub_sections: Seq<JointDefinitionSubSectionView>) -> Seq<JointView>
    decreases sub_sections.len(),
{
    if sub_sections.len() == 0 {
        Seq::empty()
    } else {
        let before = joints_of(sub_sections.drop_last());
        match sub_sections.last() {
            JointDefinitionSubSectionView::Joint(joint) => before.push(joint),
            JointDefinitionSubSectionView::Unnamed04 => before,
        }
    }
}

/// The second pass over the children at `offsets`: what they decode to, in order, or the
/// error of the first that fails. A child that is a joint has for its index the number of
/// joints before it.
pub open spec fn decode_joints(
    bytes: Seq<u8>,
    offsets: Seq<u32>,
    strings: Seq<Seq<char>>,
    offset_index_map: Map<u64, usize>,
) -> Result<Seq<JointDefinitionSubSectionView>, ISM2ImportError>
    decreases offsets.len(),
{
    if offsets.len() == 0 {
        Ok(Seq::empty())
    } else {
        match decode_joints(bytes, offsets.drop_last(), strings, offset_index_map) {
            Err(e) => Err(e),
            Ok(before) => match JointDefinitionSubSection::decode(
                bytes,
                offsets.last() as int,
                strings,
                offset_index_map,
                joints_of(before).len() as usize,
            ) {
                Err(e) => Err(e),
                Ok(sub_section) => Ok(before.push(sub_section)),
            },
        }
    }
}

/// Once the second pass fails on some child, it fails on the whole list, with the same
/// error.
pub proof fn lemma_decode_joints_fails(
    bytes: Seq<u8>,
    offsets: Seq<u32>,
    strings: Seq<Seq<char>>,
    offset_index_map: Map<u64, usize>,
    i: int,
)
    requires
        0 <= i <= offsets.len(),
        decode_joints(bytes, offsets.take(i), strings, offset_index_map) is Err,
    ensures
        decode_joints(bytes, offsets, strings, offset_index_map) == decode_joints(
            bytes,
            offsets.take(i),
            strings,
            offset_index_map,
        ),
    decreases offsets.len() - i,
{
    if i < offsets.len() {
        assert(offsets.take(i + 1).drop_last() == offsets.take(i));
        lemma_decode_joints_fails(bytes, offsets, strings, offset_index_map, i + 1);
    } else {
        assert(offsets.take(i) == offsets);
    }
}

/// Whether every one of `joints` that names a parent names a joint before itself.
pub open spec fn parents_come_first(joints: Seq<JointView>) -> bool {
    forall|i: int|
        0 <= i < joints.len() ==> match (#[trigger] joints[i]).parent_index {
            Some(parent) => parent < i,
            None => true,
        }
}

/// Every joint that the second pass decodes names as its parent a joint before itself,
/// or none.
pub proof fn lemma_decode_joints_parents(
    bytes: Seq<u8>,
    offsets: Seq<u32>,
    strings: Seq<Seq<char>>,
    offset_index_map: Map<u64, usize>,
)
    requires
        decode_joints(bytes, offsets, strings, offset_index_map) is Ok,
    ensures
        parents_come_first(
            joints_of(decode_joints(bytes, offsets, strings, offset_index_map).unwrap()),
        ),
    decreases offsets.len(),
{
    if offsets.len() > 0 {
        lemma_decode_joints_parents(bytes, offsets.drop_last(), strings, offset_index_map);
        let before = decode_joints(bytes, offsets.drop_last(), strings, offset_index_map).unwrap();
        let last = JointDefinitionSubSection::decode(
            bytes,
            offsets.last() as int,
            strings,
            offset_index_map,
            joints_of(before).len() as usize,
        ).unwrap();
        assert(before.push(last).drop_last() == before);
        let joints = joints_of(before.push(last));
        assert forall|i: int| 0 <= i < joints.len() implies match (#[trigger] joints[i]).parent_index {
            Some(parent) => parent < i,
            None => true,
        } by {
            if i < joints_of(before).len() {
                assert(joints[i] == joints_of(before)[i]);
            }
        }
    }
}

/// Every joint that is decoded from a file names as its parent a joint that the file
/// lists before it, or none: the parents of a decoded section form a forest.
pub proof fn lemma_decoded_parents_come_first(bytes: Seq<u8>, at: int, strings: Seq<Seq<char>>)
    requires
        JointDefinition::decode(bytes, at, strings) is Ok,
    ensures
        parents_come_first(joints_of(JointDefinition::decode(bytes, at, strings).unwrap())),
{
    let offsets = chunk_children(bytes, at, 0x03, 0x14).unwrap();
    let index = joint_index(bytes, offsets).unwrap();
    lemma_decode_joints_parents(bytes, offsets, strings, index.map);
}

impl JointDefinition {
    /// What the chunk at `at` holds as the joint definition section. A first pass over
    /// its children gives each joint its index; the children are decoded in a second
    /// pass, in which every joint names its parent by an offset that the first pass has
    /// seen.
    pub open spec fn decode(bytes: Seq<u8>, at: int, strings: Seq<Seq<char>>) -> Result<
        Seq<JointDefinitionSubSectionView>,
        ISM2ImportError,
    > {
        match chunk_children(bytes, at, 0x03, 0x14) {
            Err(e) => Err(e),
            Ok(offsets) => match joint_index(bytes, offsets) {
                Err(e) => Err(e),
                Ok(index) => decode_joints(bytes, offsets, strings, index.map),
            },
        }
    }

    /// The first pass: finds the joints among the children at `offsets` and gives each its
    /// index.
    pub fn index_joints(reader: &mut Reader, offsets: &Vec<u32>) -> (result: Result<
        HashMap<u64, usize>,
        ISM2ImportError,
    >)
        ensures
            final(reader).bytes() == old(reader).bytes(),
            match result {
                Ok(offset_index_map) => joint_index(old(reader).bytes(), offsets@) is Ok
                    && joint_index(old(reader).bytes(), offsets@).unwrap().map
                    == offset_index_map@,
                Err(e) => joint_index(old(reader).bytes(), offsets@) == Err::<
                    JointIndex,
                    ISM2ImportError,
                >(e),
            },
    {
        let ghost bytes = reader.bytes();
        let mut offset_index_map: HashMap<u64, usize> = HashMap::new();
        let mut offset_index_map_counter: usize = 0;
        let mut i: usize = 0;
        while i < offsets.len()
            invariant
                reader.bytes() == bytes,
                bytes == old(reader).bytes(),
                i <= offsets.len(),
                offset_index_map_counter <= i,
                joint_index(bytes, offsets@.take(i as int)) == Ok::<JointIndex, ISM2ImportError>(
                    JointIndex {
                        map: offset_index_map@,
                        count: offset_index_map_counter as nat,
                    },
                ),
            decreases offsets.len() - i,
        {
            let offset: u32 = offsets[i];
            proof {
                assert(offsets@.take(i + 1).drop_last() == offsets@.take(i as int));
            }
            let step = match reader.seek(offset) {
                Ok(_) => reader.peek_le_to_u32(),
                Err(e) => Err(e),
            };
            match step {
                Err(e) => {
                    proof {
                        lemma_joint_index_fails(bytes, offsets@, i + 1);
                    }
                    return Err(e);
                },
                Ok(magic_number) => {
                    if magic_number == 0x05 {
                        offset_index_map.insert(offset as u64, offset_index_map_counter);
                        offset_index_map_counter = offset_index_map_counter + 1;
                    } else if magic_number != 0x04 {
                        proof {
                            lemma_joint_index_fails(bytes, offsets@, i + 1);
                        }
                        return Err(
                            ISM2ImportError::UnknownSubSection(
                                UnknownSubSection {
                                    in_section: 0x03,
                                    failed_to_match: magic_number,
                                },
                            ),
                        );
                    }
                },
            }
            i = i + 1;
        }
        assert(offsets@.take(i as int) == offsets@);
        Ok(offset_index_map)
    }

    /// Reads the joint definition section at the cursor.
    #[verifier::loop_isolation(false)]
    pub fn import(reader: &mut Reader, strings_table: &[String]) -> (result: Result<
        JointDefinition,
        ISM2ImportError,
    >)
        ensures
            final(reader).bytes() == old(reader).bytes(),
            yields(
                result,
                JointDefinition::decode(
                    old(reader).bytes(),
                    old(reader).at(),
                    views(strings_table@),
                ),
            ),
    {
        let ghost bytes = reader.bytes();
        let chunk: Chunk = reader.read_chunk(0x03, 0x14)?;
        let offset_index_map: HashMap<u64, usize> = JointDefinition::index_joints(
            reader,
            &chunk.offsets,
        )?;
        let ghost strings = views(strings_table@);
        let mut sub_sections: Vec<JointDefinitionSubSection> = Vec::new();
        let mut next_index: usize = 0;
        let mut i: usize = 0;
        proof {
            lemma_views_empty::<JointDefinitionSubSection>();
        }
        while i < chunk.offsets.len()
            invariant
                reader.bytes() == bytes,
                i <= chunk.offsets.len(),
                next_index <= i,
                next_index == joints_of(views(sub_sections@)).len(),
                decode_joints(bytes, chunk.offsets@.take(i as int), strings, offset_index_map@)
                    == Ok::<Seq<JointDefinitionSubSectionView>, ISM2ImportError>(
                    views(sub_sections@),
                ),
            decreases chunk.offsets.len() - i,
        {
            let offset: u32 = chunk.offsets[i];
            proof {
                assert(chunk.offsets@.take(i + 1).drop_last() == chunk.offsets@.take(i as int));
            }
            let step = match reader.seek(offset) {
                Ok(_) => JointDefinitionSubSection::import(
                    reader,
                    strings_table,
                    &offset_index_map,
                    next_index,
                ),
                Err(e) => Err(e),
            };
            match step {
                Err(e) => {
                    proof {
                        lemma_decode_joints_fails(
                            bytes,
                            chunk.offsets@,
                            strings,
                            offset_index_map@,
                            i + 1,
                        );
                    }
                    return Err(e);
                },
                Ok(sub_section) => {
                    proof {
                        lemma_views_push(sub_sections@, sub_section);
                        assert(views(sub_sections@).push(sub_section@).drop_last() == views(
                            sub_sections@,
                        ));
                    }
                    match &sub_section {
                        JointDefinitionSubSection::Joint(_) => {
                            next_index = next_index + 1;
                        },
                        JointDefinitionSubSection::Unnamed04 => {},
                    }
                    sub_sections.push(sub_section);
                },
            }
            i = i + 1;
        }
        assert(chunk.offsets@.take(i as int) == chunk.offsets@);
        Ok(JointDefinition { sub_sections })
    }
}

/// Once the first pass fails on some child, it fails on the whole list, with the same
/// error.
pub proof fn lemma_joint_index_fails(bytes: Seq<u8>, offsets: Seq<u32>, i: int)
    requires
        0 <= i <= offsets.len(),
        joint_index(bytes, offsets.take(i)) is Err,
    ensures
        joint_index(bytes, offsets) == joint_index(bytes, offsets.take(i)),
    decreases offsets.len() - i,
{
    if i < offsets.len() {
        assert(offsets.take(i + 1).drop_last() == offsets.take(i));
        lemma_joint_index_fails(bytes, offsets, i + 1);
    } else {
        assert(offsets.take(i) == offsets);
    }
}

} // verus!
