use ism2::error::{ISM2ImportError, UnknownSubSection, WrongMagicNumber};
use ism2::joint_definition::{JointAttribute, JointDefinitionSubSection, JointSubSection};
use ism2::joint_extra::BufferData;
use ism2::model_data::{
    Face, MeshSubSection, SubSection, VertexAttribute, VertexGeometry, VertexRigging,
    VerticesDataBuffer,
};
use ism2::reader::Reader;
use ism2::scene::Scene;
use ism2::skeleton::{IEulerAngle, IEulerRotationOrder, IPositionCoordinates};
use ism2::string_table::import_strings_table;
use ism2::texture_definition::{Texture, TextureDefinition};
use ism2::{Section, ISM2};

fn word(bytes: &mut Vec<u8>, value: u32) {
    bytes.extend_from_slice(&value.to_le_bytes());
}

fn half(bytes: &mut Vec<u8>, value: u16) {
    bytes.extend_from_slice(&value.to_le_bytes());
}

fn single(bytes: &mut Vec<u8>, value: f32) {
    word(bytes, value.to_bits());
}

fn zeros(bytes: &mut Vec<u8>, count: usize) {
    for _ in 0..count {
        bytes.push(0);
    }
}

fn words(bytes: &mut Vec<u8>, values: &[u32]) {
    for value in values {
        word(bytes, *value);
    }
}

fn here(bytes: &Vec<u8>) -> u32 {
    bytes.len() as u32
}

fn file_header(sections: u32) -> Vec<u8> {
    let mut bytes = Vec::new();
    bytes.extend_from_slice(b"ISM2");
    word(&mut bytes, 0x0102_0304);
    zeros(&mut bytes, 8);
    word(&mut bytes, 0xAABB_CCDD);
    word(&mut bytes, sections);
    zeros(&mut bytes, 8);
    zeros(&mut bytes, 8 * sections as usize);
    bytes
}

fn set_section(bytes: &mut Vec<u8>, index: usize, magic: u32, offset: u32) {
    let at = 32 + 8 * index;
    bytes[at..at + 4].copy_from_slice(&magic.to_le_bytes());
    bytes[at + 4..at + 8].copy_from_slice(&offset.to_le_bytes());
}

fn string_table(bytes: &mut Vec<u8>, names: &[&str]) -> u32 {
    let start = here(bytes);
    word(bytes, 0x21);
    word(bytes, 0);
    word(bytes, names.len() as u32);
    let mut at = start + 12 + 4 * names.len() as u32;
    for name in names {
        word(bytes, at);
        at += name.len() as u32 + 1;
    }
    for name in names {
        bytes.extend_from_slice(name.as_bytes());
        bytes.push(0);
    }
    start
}

fn joint(bytes: &mut Vec<u8>, name: u32, parent: u32, vertex_id: u32, children: &[u32]) -> u32 {
    let start = here(bytes);
    words(bytes, &[0x05, 0x40, children.len() as u32, name]);
    zeros(bytes, 12);
    word(bytes, parent);
    zeros(bytes, 12);
    word(bytes, vertex_id);
    zeros(bytes, 16);
    words(bytes, children);
    start
}

fn joint_size(children: usize) -> u32 {
    0x40 + 4 * children as u32
}

fn joint_definition(bytes: &mut Vec<u8>, children: &[u32]) -> u32 {
    let start = here(bytes);
    words(bytes, &[0x03, 0x14, children.len() as u32, 0, 0]);
    words(bytes, children);
    start
}

fn attributes(bytes: &mut Vec<u8>, children: &[u32]) -> u32 {
    let start = here(bytes);
    words(bytes, &[0x5B, 0x0C, children.len() as u32]);
    words(bytes, children);
    start
}

fn triple(bytes: &mut Vec<u8>, magic: u32, x: f32, y: f32, z: f32) -> u32 {
    let start = here(bytes);
    words(bytes, &[magic, 0]);
    single(bytes, x);
    single(bytes, y);
    single(bytes, z);
    start
}

fn angle(bytes: &mut Vec<u8>, magic: u32, value: f32) -> u32 {
    let start = here(bytes);
    word(bytes, magic);
    zeros(bytes, 16);
    single(bytes, value);
    start
}

fn bare(bytes: &mut Vec<u8>, magic: u32) -> u32 {
    let start = here(bytes);
    word(bytes, magic);
    start
}

fn vertex_attribute(bytes: &mut Vec<u8>, attribute_type: u32, buffer_offset: u32) -> u32 {
    let start = here(bytes);
    words(bytes, &[attribute_type, 2, 3, 4, 5, buffer_offset]);
    start
}

fn geometry_vertex(bytes: &mut Vec<u8>, position: [f32; 3], tag: u16) {
    single(bytes, position[0]);
    single(bytes, position[1]);
    single(bytes, position[2]);
    half(bytes, tag + 1);
    half(bytes, tag + 2);
    half(bytes, tag + 3);
    half(bytes, tag + 4);
    half(bytes, tag + 5);
    half(bytes, tag + 6);
    half(bytes, tag + 7);
    half(bytes, tag + 8);
    zeros(bytes, 4);
}

fn rigging_vertex(bytes: &mut Vec<u8>, joints: [u8; 4], weights: [f32; 4]) {
    bytes.extend_from_slice(&joints);
    for weight in weights {
        single(bytes, weight);
    }
    zeros(bytes, 12);
}

fn vertices(bytes: &mut Vec<u8>, nb_vertices: u32, children: &[u32]) -> u32 {
    let start = here(bytes);
    words(bytes, &[0x59, 0x1C, children.len() as u32, 0, nb_vertices, 0, 0]);
    words(bytes, children);
    start
}

fn faces(bytes: &mut Vec<u8>, triangles: &[(u16, u16, u16)]) -> u32 {
    let start = here(bytes);
    words(bytes, &[0x45, 0x14, 0, 0, 0]);
    for triangle in triangles {
        half(bytes, triangle.0);
        half(bytes, triangle.1);
        half(bytes, triangle.2);
    }
    start
}

fn mesh(bytes: &mut Vec<u8>, nb_faces: u32, children: &[u32]) -> u32 {
    let start = here(bytes);
    words(bytes, &[0x46, 0x1C, children.len() as u32, 0, 0, 0, nb_faces]);
    words(bytes, children);
    start
}

fn unnamed_0a(bytes: &mut Vec<u8>, children: &[u32]) -> u32 {
    let start = here(bytes);
    words(bytes, &[0x0A, 0x20, children.len() as u32, 0, 0, 0, 0, 0]);
    words(bytes, children);
    start
}

fn model_data(bytes: &mut Vec<u8>, group: u32) -> u32 {
    let start = here(bytes);
    words(bytes, &[0x0B, 0x0C, 1, group]);
    start
}

fn buffer_header(bytes: &mut Vec<u8>, entries: u32, shape: (u32, u32, u32)) -> u32 {
    let start = here(bytes);
    words(bytes, &[0x44, 0x20, entries, 0, shape.0, shape.1, shape.2, 0]);
    start
}

fn unnamed_30(bytes: &mut Vec<u8>, matrix: &[f32; 16], children: &[u32]) -> u32 {
    let start = here(bytes);
    words(bytes, &[0x30, 0x54, children.len() as u32, 9, 0]);
    for value in matrix {
        single(bytes, *value);
    }
    words(bytes, children);
    start
}

fn unnamed_31(bytes: &mut Vec<u8>, name1: u32, name2: u32, children: &[u32]) -> u32 {
    let start = here(bytes);
    words(bytes, &[0x31, 0x14, children.len() as u32, name1, name2]);
    words(bytes, children);
    start
}

fn joint_extra(bytes: &mut Vec<u8>, children: &[u32]) -> u32 {
    let start = here(bytes);
    words(bytes, &[0x32, 0x14, children.len() as u32, 0, 0]);
    words(bytes, children);
    start
}

fn texture(bytes: &mut Vec<u8>, a: u32, b: u32, c: u32) -> u32 {
    let start = here(bytes);
    words(bytes, &[0x2D, a, 0x77, b, c]);
    start
}

fn texture_definition(bytes: &mut Vec<u8>, children: &[u32]) -> u32 {
    let start = here(bytes);
    words(bytes, &[0x2E, 0, children.len() as u32]);
    words(bytes, children);
    start
}

fn strings(names: &[&str]) -> Vec<String> {
    names.iter().map(|name| name.to_string()).collect()
}

const POSITIONS: [[f32; 3]; 3] = [[1.0, -2.0, 0.5], [-3.0, 4.0, 0.25], [2.0, 0.0, -8.0]];

/// String table `["root"]`, one joint, three geometry vertices, one triangle.
fn minimal_file() -> Vec<u8> {
    let mut bytes = file_header(3);
    let table = string_table(&mut bytes, &["root"]);
    set_section(&mut bytes, 0, 0x21, table);
    let root = joint(&mut bytes, 0, 0, 0, &[]);
    let joints = joint_definition(&mut bytes, &[root]);
    set_section(&mut bytes, 1, 0x03, joints);
    let buffer = here(&bytes);
    for (i, position) in POSITIONS.iter().enumerate() {
        geometry_vertex(&mut bytes, *position, 0x100 * i as u16);
    }
    let attribute = vertex_attribute(&mut bytes, 0x00, buffer);
    let vertex_chunk = vertices(&mut bytes, 3, &[attribute]);
    let triangles = faces(&mut bytes, &[(0, 1, 2)]);
    let mesh_chunk = mesh(&mut bytes, 1, &[triangles]);
    let group = unnamed_0a(&mut bytes, &[vertex_chunk, mesh_chunk]);
    let model = model_data(&mut bytes, group);
    set_section(&mut bytes, 2, 0x0B, model);
    bytes
}

fn joints_of(file: &ISM2) -> Vec<&ism2::joint_definition::Joint> {
    let mut joints = Vec::new();
    for section in &file.sections {
        if let Section::JointDefinition(definition) = section {
            for sub_section in &definition.sub_sections {
                if let JointDefinitionSubSection::Joint(joint) = sub_section {
                    joints.push(joint);
                }
            }
        }
    }
    joints
}

fn import(bytes: Vec<u8>) -> Result<ISM2, ISM2ImportError> {
    ISM2::import(&mut Reader::new(bytes))
}

fn error_of(bytes: Vec<u8>) -> ISM2ImportError {
    match import(bytes) {
        Ok(_) => panic!("the file was decoded"),
        Err(e) => e,
    }
}

#[test]
fn minimal_file_decodes_end_to_end() {
    let file = import(minimal_file()).unwrap();
    assert_eq!(file.version, 0x0102_0304);
    assert_eq!(file.file_size, 0xAABB_CCDD);
    assert_eq!(file.string_table, strings(&["root"]));
    assert_eq!(file.sections.len(), 2);

    let joints = joints_of(&file);
    assert_eq!(joints.len(), 1);
    assert_eq!(joints[0].name, "root");
    assert_eq!(joints[0].parent_index, None);
    assert!(joints[0].sub_sections.is_empty());

    let scene = Scene::assemble(&file).unwrap();
    assert_eq!(scene.nodes.len(), 1);
    assert_eq!(scene.nodes[0].name, "root");
    assert!(scene.nodes[0].children.is_empty());
    assert_eq!(scene.nodes[0].transform, None);
    assert_eq!(scene.nodes[0].rotation, None);
    assert_eq!(scene.nodes[0].scale, None);
    assert_eq!(scene.root_nodes, vec![0]);
    assert_eq!(scene.root_node_id, Some(0));
    assert_eq!(scene.vertices.len(), 3);
    for (vertex, position) in scene.vertices.iter().zip(POSITIONS.iter()) {
        assert_eq!(f32::from_bits(vertex.position_coordinates.x), position[0]);
        assert_eq!(f32::from_bits(vertex.position_coordinates.y), position[1]);
        assert_eq!(f32::from_bits(vertex.position_coordinates.z), position[2]);
    }
    assert_eq!(scene.meshes.len(), 1);
    assert_eq!(scene.meshes[0].faces, vec![Face { points: (0, 1, 2) }]);
    assert!(scene.joints.is_empty());
    assert!(scene.vertices_rig.is_empty());
    assert!(scene.textures.is_empty());

    let extremes = scene.position_extremes.unwrap();
    let corners = extremes.to_vec();
    let least: Vec<f32> = corners[0].iter().map(|bits| f32::from_bits(*bits)).collect();
    let greatest: Vec<f32> = corners[1].iter().map(|bits| f32::from_bits(*bits)).collect();
    assert_eq!(least, vec![-3.0, -2.0, -8.0]);
    assert_eq!(greatest, vec![2.0, 4.0, 0.5]);

    let layout = scene.layout().unwrap();
    assert_eq!(layout.mesh_nodes, vec![1]);
    assert_eq!(layout.top_node, 2);
    assert_eq!(layout.top_children, vec![0, 1]);
    assert!(!layout.skinned);
    assert!(layout.skin_joints.is_empty());
}

#[test]
fn decoding_twice_gives_the_same_structures() {
    let bytes = minimal_file();
    let first = import(bytes.clone()).unwrap();
    let second = import(bytes).unwrap();
    assert_eq!(format!("{:?}", first), format!("{:?}", second));
}

#[test]
fn geometry_vertex_fields_come_from_their_places() {
    let file = import(minimal_file()).unwrap();
    let mut found = None;
    for section in &file.sections {
        if let Section::ModelData(model) = section {
            for sub_section in &model.zero_a.sub_sections {
                if let SubSection::Vertices(chunk) = sub_section {
                    assert_eq!(chunk.nb_vertices, 3);
                    assert_eq!(chunk.attributes.len(), 1);
                    assert_eq!(chunk.attributes[0].attribute_type, 0);
                    assert_eq!(chunk.attributes[0].unknown2, 2);
                    assert_eq!(chunk.attributes[0].unknown5, 5);
                    if let VerticesDataBuffer::Geometry(buffer) = &chunk.buffer {
                        found = Some(buffer.vertices[1]);
                    }
                }
            }
        }
    }
    let vertex: VertexGeometry = found.unwrap();
    assert_eq!(vertex.frenet_frame.normal.x, 0x101);
    assert_eq!(vertex.frenet_frame.normal.y, 0x102);
    assert_eq!(vertex.frenet_frame.normal.z, 0x103);
    assert_eq!(vertex.texture_coordinates.u, 0x104);
    assert_eq!(vertex.frenet_frame.tangent.x, 0x105);
    assert_eq!(vertex.frenet_frame.tangent.y, 0x106);
    assert_eq!(vertex.frenet_frame.tangent.z, 0x107);
    assert_eq!(vertex.texture_coordinates.v, 0x108);
}

/// Joints A, B, C where B and C name A as their parent, and the skeleton of the section.
#[test]
fn joint_indices_follow_file_order() {
    let mut bytes = file_header(2);
    let table = string_table(&mut bytes, &["A", "B", "C"]);
    set_section(&mut bytes, 0, 0x21, table);
    let a = joint(&mut bytes, 0, 0, 10, &[]);
    let b = joint(&mut bytes, 1, a, 11, &[]);
    let c = joint(&mut bytes, 2, a, 12, &[]);
    let definition = joint_definition(&mut bytes, &[a, b, c]);
    set_section(&mut bytes, 1, 0x03, definition);

    let file = import(bytes).unwrap();
    let joints = joints_of(&file);
    assert_eq!(joints.len(), 3);
    assert_eq!(joints[0].name, "A");
    assert_eq!(joints[1].name, "B");
    assert_eq!(joints[2].name, "C");
    assert_eq!(joints[0].parent_index, None);
    assert_eq!(joints[1].parent_index, Some(0));
    assert_eq!(joints[2].parent_index, Some(0));
    assert_eq!(joints[1].in_vertex_id, 11);

    let scene = Scene::assemble(&file).unwrap();
    assert_eq!(scene.nodes[0].children, vec![1, 2]);
    assert!(scene.nodes[1].children.is_empty());
    assert!(scene.nodes[2].children.is_empty());
    assert_eq!(scene.root_nodes, vec![0]);
    assert_eq!(scene.root_node_id, None);
}

#[test]
fn a_joint_that_names_a_later_joint_as_its_parent_is_refused() {
    let mut bytes = file_header(2);
    let table = string_table(&mut bytes, &["child", "root"]);
    set_section(&mut bytes, 0, 0x21, table);
    let child_at = here(&bytes);
    let parent_at = child_at + joint_size(0);
    let child = joint(&mut bytes, 0, parent_at, 0, &[]);
    let parent = joint(&mut bytes, 1, 0, 1, &[]);
    assert_eq!(parent, parent_at);
    let other = bare(&mut bytes, 0x04);
    let definition = joint_definition(&mut bytes, &[child, other, parent]);
    set_section(&mut bytes, 1, 0x03, definition);
    assert_eq!(error_of(bytes.clone()), ISM2ImportError::MissingParent(parent_at as u64));

    // The same joints with the parent listed first are a tree.
    let definition = joint_definition(&mut bytes, &[parent, other, child]);
    set_section(&mut bytes, 1, 0x03, definition);
    let file = import(bytes).unwrap();
    let joints = joints_of(&file);
    assert_eq!(joints[0].name, "root");
    assert_eq!(joints[0].parent_index, None);
    assert_eq!(joints[1].parent_index, Some(0));
    let scene = Scene::assemble(&file).unwrap();
    assert_eq!(scene.nodes[0].children, vec![1]);
    assert_eq!(scene.root_nodes, vec![0]);
    assert_eq!(scene.root_node_id, Some(0));
}

#[test]
fn a_joint_that_names_itself_as_its_parent_is_refused() {
    let mut bytes = file_header(2);
    let table = string_table(&mut bytes, &["A", "B"]);
    set_section(&mut bytes, 0, 0x21, table);
    let a = joint(&mut bytes, 0, 0, 0, &[]);
    let b_at = here(&bytes);
    let b = joint(&mut bytes, 1, b_at, 1, &[]);
    let definition = joint_definition(&mut bytes, &[a, b]);
    set_section(&mut bytes, 1, 0x03, definition);
    assert_eq!(error_of(bytes), ISM2ImportError::MissingParent(b_at as u64));
}

#[test]
fn a_parent_offset_without_a_joint_is_a_missing_parent() {
    let mut bytes = file_header(2);
    let table = string_table(&mut bytes, &["A"]);
    set_section(&mut bytes, 0, 0x21, table);
    let a = joint(&mut bytes, 0, 0x1234, 0, &[]);
    let definition = joint_definition(&mut bytes, &[a]);
    set_section(&mut bytes, 1, 0x03, definition);
    assert_eq!(error_of(bytes), ISM2ImportError::MissingParent(0x1234));
}

#[test]
fn a_name_index_beyond_the_table_is_a_missing_string() {
    let mut bytes = file_header(2);
    let table = string_table(&mut bytes, &["A"]);
    set_section(&mut bytes, 0, 0x21, table);
    let a = joint(&mut bytes, 1, 0, 0, &[]);
    let definition = joint_definition(&mut bytes, &[a]);
    set_section(&mut bytes, 1, 0x03, definition);
    assert_eq!(error_of(bytes), ISM2ImportError::MissingString(1));
}

#[test]
fn joint_attributes_are_decoded_and_give_the_pose() {
    let mut bytes = file_header(2);
    let table = string_table(&mut bytes, &["bone"]);
    set_section(&mut bytes, 0, 0x21, table);
    let translate = triple(&mut bytes, 0x14, 1.0, 2.0, 3.0);
    let scale = triple(&mut bytes, 0x15, 4.0, 5.0, 6.0);
    let rotate_x = angle(&mut bytes, 0x5D, 10.0);
    let rotate_y = angle(&mut bytes, 0x5E, 20.0);
    let rotate_z = angle(&mut bytes, 0x5F, 30.0);
    let orient_y = angle(&mut bytes, 0x68, 90.0);
    let orient_x = angle(&mut bytes, 0x67, 45.0);
    let flag = bare(&mut bytes, 0x70);
    let last = bare(&mut bytes, 0x7E);
    let list = attributes(
        &mut bytes,
        &[translate, scale, rotate_x, rotate_y, rotate_z, orient_y, orient_x, flag, last],
    );
    let other = bare(&mut bytes, 0x5C);
    let bone = joint(&mut bytes, 0, 0, 3, &[list, other]);
    let definition = joint_definition(&mut bytes, &[bone]);
    set_section(&mut bytes, 1, 0x03, definition);

    let file = import(bytes).unwrap();
    let joints = joints_of(&file);
    assert_eq!(joints[0].sub_sections.len(), 2);
    assert!(matches!(joints[0].sub_sections[1], JointSubSection::Unnamed5C));
    let decoded = match &joints[0].sub_sections[0] {
        JointSubSection::Offsets(offsets) => offsets.attributes.clone(),
        JointSubSection::Unnamed5C => panic!("the attributes are missing"),
    };
    assert_eq!(decoded.len(), 9);
    match decoded[0] {
        JointAttribute::Translate(t) => {
            assert_eq!((t.x, t.y, t.z), (1.0f32.to_bits(), 2.0f32.to_bits(), 3.0f32.to_bits()))
        }
        _ => panic!("not a translation"),
    }
    match decoded[2] {
        JointAttribute::RotateX(r) => assert_eq!(r.angle, 10.0f32.to_bits()),
        _ => panic!("not a rotation"),
    }
    match decoded[3] {
        JointAttribute::RotateY(r) => assert_eq!(r.angle, 20.0f32.to_bits()),
        _ => panic!("not a rotation"),
    }
    match decoded[4] {
        JointAttribute::RotateZ(r) => assert_eq!(r.angle, 30.0f32.to_bits()),
        _ => panic!("not a rotation"),
    }
    assert_eq!(decoded[7], JointAttribute::CollisionFlag);
    assert_eq!(decoded[8], JointAttribute::Unnamed7E);

    let scene = Scene::assemble(&file).unwrap();
    let node = &scene.nodes[0];
    assert_eq!(
        node.transform,
        Some(IPositionCoordinates { x: 1.0f32.to_bits(), y: 2.0f32.to_bits(), z: 3.0f32.to_bits() })
    );
    assert_eq!(
        node.scale,
        Some(IPositionCoordinates { x: 4.0f32.to_bits(), y: 5.0f32.to_bits(), z: 6.0f32.to_bits() })
    );
    assert_eq!(
        node.rotation,
        Some(IEulerAngle {
            x: 45.0f32.to_bits(),
            y: 90.0f32.to_bits(),
            z: 0.0f32.to_bits(),
            rotation_order: IEulerRotationOrder::ZYX,
        })
    );
}

#[test]
fn unknown_children_are_reported_with_their_section() {
    let unknown = |in_section: u32, failed_to_match: u32| {
        ISM2ImportError::UnknownSubSection(UnknownSubSection { in_section, failed_to_match })
    };

    // In the joint definition section.
    let mut bytes = file_header(2);
    let table = string_table(&mut bytes, &["A"]);
    set_section(&mut bytes, 0, 0x21, table);
    let odd = bare(&mut bytes, 0x99);
    let definition = joint_definition(&mut bytes, &[odd]);
    set_section(&mut bytes, 1, 0x03, definition);
    assert_eq!(error_of(bytes), unknown(0x03, 0x99));

    // In a joint.
    let mut bytes = file_header(2);
    let table = string_table(&mut bytes, &["A"]);
    set_section(&mut bytes, 0, 0x21, table);
    let odd = bare(&mut bytes, 0x98);
    let a = joint(&mut bytes, 0, 0, 0, &[odd]);
    let definition = joint_definition(&mut bytes, &[a]);
    set_section(&mut bytes, 1, 0x03, definition);
    assert_eq!(error_of(bytes), unknown(0x05, 0x98));

    // Among the attributes of a joint.
    let mut bytes = file_header(2);
    let table = string_table(&mut bytes, &["A"]);
    set_section(&mut bytes, 0, 0x21, table);
    let odd = bare(&mut bytes, 0x78);
    let list = attributes(&mut bytes, &[odd]);
    let a = joint(&mut bytes, 0, 0, 0, &[list]);
    let definition = joint_definition(&mut bytes, &[a]);
    set_section(&mut bytes, 1, 0x03, definition);
    assert_eq!(error_of(bytes), unknown(0x5B, 0x78));

    // In the geometry group.
    let mut bytes = file_header(2);
    let table = string_table(&mut bytes, &[]);
    set_section(&mut bytes, 0, 0x21, table);
    let odd = bare(&mut bytes, 0x97);
    let group = unnamed_0a(&mut bytes, &[odd]);
    let model = model_data(&mut bytes, group);
    set_section(&mut bytes, 1, 0x0B, model);
    assert_eq!(error_of(bytes), unknown(0x0A, 0x97));

    // In a mesh.
    let mut bytes = file_header(2);
    let table = string_table(&mut bytes, &[]);
    set_section(&mut bytes, 0, 0x21, table);
    let odd = bare(&mut bytes, 0x96);
    let mesh_chunk = mesh(&mut bytes, 0, &[odd]);
    let group = unnamed_0a(&mut bytes, &[mesh_chunk]);
    let model = model_data(&mut bytes, group);
    set_section(&mut bytes, 1, 0x0B, model);
    assert_eq!(error_of(bytes), unknown(0x46, 0x96));
}

#[test]
fn sections_of_unknown_kinds_are_passed_over() {
    let mut bytes = file_header(3);
    let table = string_table(&mut bytes, &["root"]);
    set_section(&mut bytes, 0, 0x21, table);
    set_section(&mut bytes, 1, 0x61, 0xFFFF_FFF0);
    let root = joint(&mut bytes, 0, 0, 0, &[]);
    let definition = joint_definition(&mut bytes, &[root]);
    set_section(&mut bytes, 2, 0x03, definition);
    let file = import(bytes).unwrap();
    assert_eq!(file.sections.len(), 1);
    assert!(matches!(file.sections[0], Section::JointDefinition(_)));
}

#[test]
fn the_first_section_must_be_the_string_table() {
    assert_eq!(error_of(file_header(0)), ISM2ImportError::NoStringTable(None));
    let mut bytes = file_header(1);
    let definition = joint_definition(&mut bytes, &[]);
    set_section(&mut bytes, 0, 0x03, definition);
    assert_eq!(error_of(bytes), ISM2ImportError::NoStringTable(Some(0x03)));
}

#[test]
fn a_wrong_file_tag_is_a_magic_number_error() {
    let mut bytes = minimal_file();
    bytes[3] = b'3';
    assert_eq!(
        error_of(bytes),
        ISM2ImportError::MagicNumber(WrongMagicNumber { expected: 0x324D_5349, read: 0x334D_5349 })
    );
}

#[test]
fn a_wrong_header_size_is_a_magic_number_error() {
    let mut bytes = file_header(2);
    let table = string_table(&mut bytes, &[]);
    set_section(&mut bytes, 0, 0x21, table);
    let definition = here(&bytes);
    words(&mut bytes, &[0x03, 0x18, 0, 0, 0]);
    set_section(&mut bytes, 1, 0x03, definition);
    assert_eq!(
        error_of(bytes),
        ISM2ImportError::MagicNumber(WrongMagicNumber { expected: 0x14, read: 0x18 })
    );
}

#[test]
fn model_data_must_count_one_group() {
    let mut bytes = file_header(2);
    let table = string_table(&mut bytes, &[]);
    set_section(&mut bytes, 0, 0x21, table);
    let group = unnamed_0a(&mut bytes, &[]);
    let model = here(&bytes);
    words(&mut bytes, &[0x0B, 0x0C, 2, group]);
    set_section(&mut bytes, 1, 0x0B, model);
    assert_eq!(
        error_of(bytes),
        ISM2ImportError::MagicNumber(WrongMagicNumber { expected: 1, read: 2 })
    );
}

#[test]
fn truncated_files_and_wild_offsets_are_io_errors() {
    let whole = minimal_file();
    assert!(import(whole.clone()).is_ok());
    for keep in [0, 3, 31, 40, whole.len() - 1] {
        let mut bytes = whole.clone();
        bytes.truncate(keep);
        assert_eq!(error_of(bytes), ISM2ImportError::IO, "kept {} bytes", keep);
    }

    let mut bytes = file_header(2);
    let table = string_table(&mut bytes, &[]);
    set_section(&mut bytes, 0, 0x21, table);
    set_section(&mut bytes, 1, 0x0B, 0xFFFF_FF00);
    assert_eq!(error_of(bytes), ISM2ImportError::IO);
}

#[test]
fn a_text_without_its_end_is_an_io_error() {
    let mut bytes = Vec::new();
    words(&mut bytes, &[0x21, 0, 1, 16]);
    bytes.extend_from_slice(b"open");
    assert_eq!(import_strings_table(&mut Reader::new(bytes)), Err(ISM2ImportError::IO));
}

#[test]
fn string_table_keeps_the_order_of_its_offsets() {
    let mut bytes = Vec::new();
    words(&mut bytes, &[0x21, 0, 3, 28, 24, 27]);
    bytes.extend_from_slice(b"ab\0");
    bytes.push(0);
    bytes.extend_from_slice(&[0xE9, 0x00]);
    let table = import_strings_table(&mut Reader::new(bytes)).unwrap();
    assert_eq!(table, vec!["\u{e9}".to_string(), "ab".to_string(), "".to_string()]);
}

#[test]
fn a_vertex_chunk_without_attributes_has_no_buffer() {
    let mut bytes = file_header(2);
    let table = string_table(&mut bytes, &[]);
    set_section(&mut bytes, 0, 0x21, table);
    let vertex_chunk = vertices(&mut bytes, 3, &[]);
    let group = unnamed_0a(&mut bytes, &[vertex_chunk]);
    let model = model_data(&mut bytes, group);
    set_section(&mut bytes, 1, 0x0B, model);
    assert_eq!(error_of(bytes), ISM2ImportError::NoAttributes);
}

fn file_with_buffer_of_type(attribute_type: u32, buffer_offset: Option<u32>) -> Vec<u8> {
    let mut bytes = file_header(2);
    let table = string_table(&mut bytes, &[]);
    set_section(&mut bytes, 0, 0x21, table);
    let buffer = here(&bytes);
    rigging_vertex(&mut bytes, [1, 2, 3, 4], [0.5, 0.25, 0.125, 0.125]);
    rigging_vertex(&mut bytes, [5, 6, 7, 8], [1.0, 0.0, 0.0, 0.0]);
    let first = vertex_attribute(&mut bytes, attribute_type, buffer_offset.unwrap_or(buffer));
    let second = vertex_attribute(&mut bytes, 0x55, 0);
    let vertex_chunk = vertices(&mut bytes, 2, &[first, second]);
    let group = unnamed_0a(&mut bytes, &[vertex_chunk]);
    let model = model_data(&mut bytes, group);
    set_section(&mut bytes, 1, 0x0B, model);
    bytes
}

fn buffer_of(file: &ISM2) -> &VerticesDataBuffer {
    for section in &file.sections {
        if let Section::ModelData(model) = section {
            for sub_section in &model.zero_a.sub_sections {
                if let SubSection::Vertices(chunk) = sub_section {
                    return &chunk.buffer;
                }
            }
        }
    }
    panic!("the file has no vertex chunk")
}

#[test]
fn the_first_attribute_decides_the_shape_of_the_buffer() {
    for attribute_type in [0x07, 0x01] {
        let file = import(file_with_buffer_of_type(attribute_type, None)).unwrap();
        match buffer_of(&file) {
            VerticesDataBuffer::Rigging(buffer) => {
                assert_eq!(
                    buffer.vertices,
                    vec![
                        VertexRigging {
                            joints: (1, 2, 3, 4),
                            weights: (
                                0.5f32.to_bits(),
                                0.25f32.to_bits(),
                                0.125f32.to_bits(),
                                0.125f32.to_bits()
                            ),
                        },
                        VertexRigging {
                            joints: (5, 6, 7, 8),
                            weights: (1.0f32.to_bits(), 0, 0, 0),
                        },
                    ]
                );
            }
            VerticesDataBuffer::Geometry(_) => panic!("decoded as geometry"),
        }
    }
    for attribute_type in [0x00, 0x02, 0x0E, 0x03] {
        let file = import(file_with_buffer_of_type(attribute_type, None)).unwrap();
        match buffer_of(&file) {
            VerticesDataBuffer::Geometry(buffer) => assert_eq!(buffer.vertices.len(), 2),
            VerticesDataBuffer::Rigging(_) => panic!("decoded as rigging"),
        }
    }
    for attribute_type in [0x04, 0x05, 0x06, 0x08, 0x0F, 0xFFFF_FFFF] {
        assert_eq!(
            error_of(file_with_buffer_of_type(attribute_type, None)),
            ISM2ImportError::UnrecognizedBufferType
        );
    }
    assert_eq!(
        error_of(file_with_buffer_of_type(0x99, Some(0xFFFF_FFFF))),
        ISM2ImportError::UnrecognizedBufferType
    );
    assert_eq!(error_of(file_with_buffer_of_type(0x07, Some(0xFFFF_FFFF))), ISM2ImportError::IO);
}

fn file_with_faces(nb_faces: u32, stored: &[(u16, u16, u16)]) -> Vec<u8> {
    let mut bytes = file_header(2);
    let table = string_table(&mut bytes, &[]);
    set_section(&mut bytes, 0, 0x21, table);
    let triangles = faces(&mut bytes, stored);
    let other = bare(&mut bytes, 0x6E);
    let mesh_chunk = mesh(&mut bytes, nb_faces, &[triangles, other]);
    let skipped = bare(&mut bytes, 0x6E);
    let group = unnamed_0a(&mut bytes, &[mesh_chunk, skipped]);
    let model = model_data(&mut bytes, group);
    set_section(&mut bytes, 1, 0x0B, model);
    bytes
}

#[test]
fn faces_are_read_up_to_the_declared_count_and_no_further() {
    let stored = [(0, 1, 2), (2, 1, 3), (4, 5, 6)];
    let file = import(file_with_faces(2, &stored)).unwrap();
    let model = match &file.sections[0] {
        Section::ModelData(model) => model,
        _ => panic!("not the model data"),
    };
    assert_eq!(model.zero_a.sub_sections.len(), 2);
    assert!(matches!(model.zero_a.sub_sections[1], SubSection::Unnamed6E));
    let mesh_chunk = match &model.zero_a.sub_sections[0] {
        SubSection::Mesh(mesh_chunk) => mesh_chunk,
        _ => panic!("not a mesh"),
    };
    assert_eq!(mesh_chunk.nb_faces, 2);
    assert!(matches!(mesh_chunk.sub_sections[1], MeshSubSection::Unnamed6E));
    match &mesh_chunk.sub_sections[0] {
        MeshSubSection::Faces(list) => {
            assert_eq!(list.faces, vec![Face { points: (0, 1, 2) }, Face { points: (2, 1, 3) }])
        }
        MeshSubSection::Unnamed6E => panic!("not a face list"),
    }
    let scene = Scene::assemble(&file).unwrap();
    assert_eq!(scene.meshes[0].faces.len(), 2);
    assert_eq!(scene.position_extremes, None);
}

#[test]
fn a_declared_face_that_is_not_there_is_an_io_error() {
    // The mesh declares two faces; its face list holds one face and five bytes more.
    let mut bytes = Vec::new();
    let mesh_chunk = mesh(&mut bytes, 2, &[0x1C + 4]);
    let triangles = faces(&mut bytes, &[(1, 2, 3)]);
    assert_eq!(triangles, 0x1C + 4);
    bytes.extend_from_slice(&[9, 9, 9, 9, 9]);
    let mut reader = Reader::new(bytes.clone());
    reader.seek(mesh_chunk).unwrap();
    assert_eq!(ism2::model_data::Mesh::import(&mut reader).err(), Some(ISM2ImportError::IO));
    let mut whole = bytes.split_off(triangles as usize);
    whole.push(9);

    assert_eq!(
        ism2::model_data::Faces::import(&mut Reader::new(whole.clone()), 2).unwrap().faces,
        vec![Face { points: (1, 2, 3) }, Face { points: (0x0909, 0x0909, 0x0909) }]
    );
    assert_eq!(
        ism2::model_data::Faces::import(&mut Reader::new(whole), 3).err(),
        Some(ISM2ImportError::IO)
    );
}

#[test]
fn an_attribute_descriptor_is_six_words() {
    let mut bytes = Vec::new();
    words(&mut bytes, &[7, 0x0101_0101, 3, 4, 5, 0xDEAD_BEEF, 0xFF]);
    let mut reader = Reader::new(bytes);
    let attribute = VertexAttribute::import(&mut reader).unwrap();
    assert_eq!(
        attribute,
        VertexAttribute {
            attribute_type: 7,
            unknown2: 0x0101_0101,
            unknown3: 3,
            unknown4: 4,
            unknown5: 5,
            buffer_offset: 0xDEAD_BEEF,
        }
    );
    assert_eq!(reader.position(), 24);
    let mut short = Reader::new(vec![0; 23]);
    assert_eq!(VertexAttribute::import(&mut short), Err(ISM2ImportError::IO));
    assert_eq!(short.position(), 0);
}

#[test]
fn a_face_is_three_little_endian_indices() {
    let mut reader = Reader::new(vec![0x01, 0x00, 0x02, 0x01, 0xFF, 0xFF]);
    let face = Face::import(&mut reader).unwrap();
    assert_eq!(face.points, (1, 0x0102, 0xFFFF));
    assert_eq!(reader.position(), 6);
    let mut short = Reader::new(vec![0x01, 0x00, 0x02, 0x01, 0xFF]);
    assert_eq!(Face::import(&mut short), Err(ISM2ImportError::IO));
}

#[test]
fn textures_take_their_names_from_the_string_table() {
    let table = strings(&["zero", "one", "two", "three"]);
    let mut bytes = Vec::new();
    let first = texture(&mut bytes, 3, 1, 0);
    let second = texture(&mut bytes, 2, 2, 2);
    let definition = texture_definition(&mut bytes, &[second, first]);
    let mut reader = Reader::new(bytes.clone());
    reader.seek(definition).unwrap();
    let decoded = TextureDefinition::import(&mut reader, &table).unwrap();
    assert_eq!(decoded.sub_sections.len(), 2);
    assert_eq!(decoded.sub_sections[0].base_name, "two");
    assert_eq!(decoded.sub_sections[1].base_name, "three");
    assert_eq!(decoded.sub_sections[1].original_location, "one");
    assert_eq!(decoded.sub_sections[1].original_name, "zero");

    let mut reader = Reader::new(bytes.clone());
    let short = strings(&["zero", "one", "two"]);
    assert_eq!(
        Texture::import(&mut reader, &short).err(),
        Some(ISM2ImportError::MissingString(3))
    );
    let mut reader = Reader::new(bytes);
    reader.seek(4).unwrap();
    assert_eq!(
        Texture::import(&mut reader, &table).err(),
        Some(ISM2ImportError::MagicNumber(WrongMagicNumber { expected: 0x2D, read: 3 }))
    );
}

fn matrix(first: f32) -> [f32; 16] {
    let mut values = [0.0; 16];
    for (k, value) in values.iter_mut().enumerate() {
        *value = first + k as f32;
    }
    values
}

/// Two joints with the identifiers 1 and 0, two inverse bind matrices, rigging and a texture.
fn skinned_file() -> Vec<u8> {
    let mut bytes = file_header(5);
    let table = string_table(&mut bytes, &["root", "arm", "skin", "tex_a"]);
    set_section(&mut bytes, 0, 0x21, table);

    let root = joint(&mut bytes, 0, 0, 1, &[]);
    let arm = joint(&mut bytes, 1, root, 0, &[]);
    let definition = joint_definition(&mut bytes, &[root, arm]);
    set_section(&mut bytes, 1, 0x03, definition);

    let names = buffer_header(&mut bytes, 2, (0x05, 0x01, 0x00));
    half(&mut bytes, 1);
    half(&mut bytes, 0);
    let matrices = buffer_header(&mut bytes, 32, (0x0C, 0x10, 0x10));
    for value in matrix(100.0).iter().chain(matrix(200.0).iter()) {
        single(&mut bytes, *value);
    }
    let group = unnamed_30(&mut bytes, &matrix(1.0), &[names, matrices]);
    let named = unnamed_31(&mut bytes, 2, 0, &[group]);
    let extra = joint_extra(&mut bytes, &[named]);
    set_section(&mut bytes, 2, 0x32, extra);

    let geometry = here(&bytes);
    geometry_vertex(&mut bytes, [0.0, 0.0, 0.0], 0);
    let rigging = here(&bytes);
    rigging_vertex(&mut bytes, [1, 0, 0, 1], [0.5, 0.5, 0.0, 0.0]);
    let geometry_attribute = vertex_attribute(&mut bytes, 0x03, geometry);
    let rigging_attribute = vertex_attribute(&mut bytes, 0x07, rigging);
    let geometry_chunk = vertices(&mut bytes, 1, &[geometry_attribute]);
    let rigging_chunk = vertices(&mut bytes, 1, &[rigging_attribute]);
    let triangles = faces(&mut bytes, &[(0, 0, 0)]);
    let mesh_chunk = mesh(&mut bytes, 1, &[triangles]);
    let more = faces(&mut bytes, &[(1, 1, 1), (2, 2, 2)]);
    let second_mesh = mesh(&mut bytes, 1, &[more, triangles]);
    let group = unnamed_0a(&mut bytes, &[geometry_chunk, mesh_chunk, rigging_chunk, second_mesh]);
    let model = model_data(&mut bytes, group);
    set_section(&mut bytes, 3, 0x0B, model);

    let tex = texture(&mut bytes, 3, 2, 1);
    let textures = texture_definition(&mut bytes, &[tex]);
    set_section(&mut bytes, 4, 0x2E, textures);
    bytes
}

#[test]
fn joint_extra_buffers_are_decoded() {
    let file = import(skinned_file()).unwrap();
    let extra = match &file.sections[1] {
        Section::JointExtra(extra) => extra,
        _ => panic!("not the joint extra section"),
    };
    assert_eq!(extra.sub_sections.len(), 1);
    let named = &extra.sub_sections[0];
    assert_eq!(named.name1, "skin");
    assert_eq!(named.name2, "root");
    let group = &named.sub_sections[0];
    let expected: Vec<u32> = matrix(1.0).iter().map(|value| value.to_bits()).collect();
    assert_eq!(group.identity_matrix.to_vec(), expected);
    match &group.sub_sections[0].data {
        BufferData::BoneNames(names) => assert_eq!(names, &strings(&["arm", "root"])),
        BufferData::InverseBindMatrices(_) => panic!("not the bone names"),
    }
    match &group.sub_sections[1].data {
        BufferData::InverseBindMatrices(matrices) => {
            assert_eq!(matrices.len(), 2);
            let second: Vec<u32> = matrix(200.0).iter().map(|value| value.to_bits()).collect();
            assert_eq!(matrices[1].to_vec(), second);
        }
        BufferData::BoneNames(_) => panic!("not the matrices"),
    }
}

#[test]
fn a_skinned_file_becomes_a_skinned_scene() {
    let file = import(skinned_file()).unwrap();
    let scene = Scene::assemble(&file).unwrap();
    assert_eq!(scene.textures, strings(&["tex_a"]));
    assert_eq!(scene.nodes.len(), 2);
    assert_eq!(scene.nodes[0].children, vec![1]);
    assert_eq!(scene.root_node_id, Some(0));

    // The matrix at place 0 of the file belongs to the joint with identifier 0, which is
    // joint 1; the matrix at place 1 belongs to joint 0.
    let order = [0usize, 4, 8, 12, 1, 5, 9, 13, 2, 6, 10, 14, 3, 7, 11, 15];
    assert_eq!(scene.joints.len(), 2);
    for k in 0..16 {
        assert_eq!(f32::from_bits(scene.joints[1][k]), 100.0 + order[k] as f32);
        assert_eq!(f32::from_bits(scene.joints[0][k]), 200.0 + order[k] as f32);
    }

    assert_eq!(scene.vertices_rig.len(), 1);
    assert_eq!(scene.vertices_rig[0].joints, (0, 1, 1, 0));
    assert_eq!(
        scene.vertices_rig[0].weights,
        (0.5f32.to_bits(), 0.5f32.to_bits(), 0, 0)
    );

    assert_eq!(scene.meshes.len(), 2);
    assert_eq!(scene.meshes[0].faces, vec![Face { points: (0, 0, 0) }]);
    assert_eq!(
        scene.meshes[1].faces,
        vec![Face { points: (1, 1, 1) }, Face { points: (0, 0, 0) }]
    );

    let layout = scene.layout().unwrap();
    assert_eq!(layout.mesh_nodes, vec![2, 3]);
    assert_eq!(layout.top_node, 4);
    assert_eq!(layout.top_children, vec![0, 2, 3]);
    assert!(layout.skinned);
    assert_eq!(layout.skin_joints, vec![0, 1]);
}

#[test]
fn rigging_that_names_no_joint_is_a_skin_linkage_miss() {
    let mut bytes = skinned_file();
    let needle = [1u8, 0, 0, 1];
    let weights = 0.5f32.to_bits().to_le_bytes();
    let mut at = None;
    for i in 0..bytes.len() - 8 {
        if bytes[i..i + 4] == needle && bytes[i + 4..i + 8] == weights {
            at = Some(i);
        }
    }
    bytes[at.unwrap() + 2] = 9;
    let file = import(bytes).unwrap();
    assert_eq!(Scene::assemble(&file).err(), Some(ISM2ImportError::SkinLinkageMiss(9)));
}

#[test]
fn a_buffer_of_unknown_shape_is_refused() {
    let table = strings(&["a"]);
    let mut bytes = Vec::new();
    buffer_header(&mut bytes, 0, (0x05, 0x01, 0x01));
    assert_eq!(
        ism2::joint_extra::Buffer::import(&mut Reader::new(bytes), &table).err(),
        Some(ISM2ImportError::UnrecognizedBufferType)
    );

    let mut bytes = Vec::new();
    buffer_header(&mut bytes, 1, (0x05, 0x01, 0x00));
    half(&mut bytes, 1);
    assert_eq!(
        ism2::joint_extra::Buffer::import(&mut Reader::new(bytes), &table).err(),
        Some(ISM2ImportError::MissingString(1))
    );

    let mut bytes = Vec::new();
    words(&mut bytes, &[0x44, 0x20, 0, 5, 0x05, 0x01, 0x00, 0]);
    assert_eq!(
        ism2::joint_extra::Buffer::import(&mut Reader::new(bytes), &table).err(),
        Some(ISM2ImportError::MagicNumber(WrongMagicNumber { expected: 0, read: 5 }))
    );

    // Forty-seven elements are two whole matrices, of which the second is cut short.
    let mut bytes = Vec::new();
    buffer_header(&mut bytes, 47, (0x0C, 0x10, 0x10));
    zeros(&mut bytes, 127);
    assert_eq!(
        ism2::joint_extra::Buffer::import(&mut Reader::new(bytes.clone()), &table).err(),
        Some(ISM2ImportError::IO)
    );
    bytes.push(0);
    match ism2::joint_extra::Buffer::import(&mut Reader::new(bytes), &table).unwrap().data {
        BufferData::InverseBindMatrices(matrices) => assert_eq!(matrices.len(), 2),
        BufferData::BoneNames(_) => panic!("not the matrices"),
    }
}

#[test]
fn the_cursor_stops_behind_what_was_read() {
    // A face list of one face, with the bytes of a second triple behind it.
    let mut bytes = Vec::new();
    faces(&mut bytes, &[(0, 1, 2), (3, 4, 5)]);
    assert_eq!(bytes.len(), 32);
    let mut reader = Reader::new(bytes.clone());
    let list = ism2::model_data::Faces::import(&mut reader, 1).unwrap();
    assert_eq!(list.faces, vec![Face { points: (0, 1, 2) }]);
    assert_eq!(reader.position(), 26);
    let mut reader = Reader::new(bytes);
    assert_eq!(ism2::model_data::Faces::import(&mut reader, 0).unwrap().faces, Vec::new());
    assert_eq!(reader.position(), 20);

    let mut bytes = vec![0xAA; 3];
    geometry_vertex(&mut bytes, [1.0, 2.0, 3.0], 0);
    geometry_vertex(&mut bytes, [4.0, 5.0, 6.0], 0);
    bytes.push(0xBB);
    let mut reader = Reader::new(bytes);
    reader.seek(3).unwrap();
    let buffer = ism2::model_data::VerticesGeometryBuffer::import(&mut reader, 2).unwrap();
    assert_eq!(buffer.vertices.len(), 2);
    assert_eq!(reader.position(), 3 + 64);

    let mut bytes = Vec::new();
    rigging_vertex(&mut bytes, [1, 2, 3, 4], [1.0, 0.0, 0.0, 0.0]);
    bytes.push(0xBB);
    let mut reader = Reader::new(bytes);
    let buffer = ism2::model_data::VerticesRiggingBuffer::import(&mut reader, 1).unwrap();
    assert_eq!(buffer.vertices.len(), 1);
    assert_eq!(reader.position(), 32);

    let mut reader = Reader::new(b"ab\0cd\0".to_vec());
    assert_eq!(ism2::string_table::import_text(&mut reader).unwrap(), "ab");
    assert_eq!(reader.position(), 3);
    assert_eq!(ism2::string_table::import_text(&mut reader).unwrap(), "cd");
    assert_eq!(reader.position(), 6);

    let mut bytes = Vec::new();
    angle(&mut bytes, 0x67, 1.0);
    triple(&mut bytes, 0x14, 1.0, 2.0, 3.0);
    let mut reader = Reader::new(bytes);
    ism2::joint_definition::JointOrientX::import(&mut reader).unwrap();
    assert_eq!(reader.position(), 24);
    ism2::joint_definition::JointTranslate::import(&mut reader).unwrap();
    assert_eq!(reader.position(), 44);
}
