//! The geometry of the model: vertex attribute descriptors, the vertex buffer that they
//! locate, and the triangle lists of the meshes.

use vstd::prelude::*;
use crate::error::{ISM2ImportError, UnknownSubSection, unknown_sub_section, views, yields,
    lemma_views_push, lemma_views_empty};
use crate::reader::{Reader, Chunk, in_bounds, le_u16, le_u32, read_u32, fixed_word, chunk_header,
    chunk_children, decode_each, lemma_decode_each_step, lemma_decode_each_fails};

verus! {

/// Three components of one kind.
#[derive(Clone, Copy, Debug, PartialEq, Eq)]
pub struct Vector3D<T> {
    pub x: T,
    pub y: T,
    pub z: T,
}

/// A texture coordinate.
#[derive(Clone, Copy, Debug, PartialEq, Eq)]
pub struct Vector2D<T> {
    pub u: T,
    pub v: T,
}

/// The normal and the tangent attached to a vertex.
#[derive(Clone, Copy, Debug, PartialEq, Eq)]
pub struct FrenetFrame<T> {
    pub normal: Vector3D<T>,
    pub tangent: Vector3D<T>,
}

/// Three vertex indices that form a triangle.
#[derive(Clone, Copy, Debug, PartialEq, Eq)]
pub struct Face {
    pub points: (u16, u16, u16),
}

/// The triangles of a mesh, in file order.
#[derive(Clone, Debug)]
pub struct Faces {
    pub faces: Vec<Face>,
}

/// One child of a mesh chunk.
#[derive(Clone, Debug)]
pub enum MeshSubSection {
    Faces(Faces),
    Unnamed6E,
}

/// A mesh: the number of faces that its header declares, and its children.
#[derive(Clone, Debug)]
pub struct Mesh {
    pub nb_faces: u32,
    pub sub_sections: Vec<MeshSubSection>,
}

/// Describes how the bytes of a vertex buffer are to be read, and where the buffer starts.
#[derive(Clone, Copy, Debug, PartialEq, Eq)]
pub struct VertexAttribute {
    pub attribute_type: u32,
    pub unknown2: u32,
    pub unknown3: u32,
    pub unknown4: u32,
    pub unknown5: u32,
    pub buffer_offset: u32,
}

/// One vertex of a geometry buffer. Every number is kept as the bits that the file holds:
/// the position as three single-precision patterns, the texture coordinate, the normal and
/// the tangent as half-precision patterns.
#[derive(Clone, Copy, Debug, PartialEq, Eq)]
pub struct VertexGeometry {
    pub position_coordinates: Vector3D<u32>,
    pub texture_coordinates: Vector2D<u16>,
    pub frenet_frame: FrenetFrame<u16>,
}

/// One vertex of a rigging buffer: four joint identifiers and the four weights that go
/// with them, the weights as single-precision bit patterns.
#[derive(Clone, Copy, Debug, PartialEq, Eq)]
pub struct VertexRigging {
    pub joints: (u8, u8, u8, u8),
    pub weights: (u32, u32, u32, u32),
}

/// The vertices of a geometry buffer, in file order.
#[derive(Clone, Debug)]
pub struct VerticesGeometryBuffer {
    pub vertices: Vec<VertexGeometry>,
}

/// The vertices of a rigging buffer, in file order.
#[derive(Clone, Debug)]
pub struct VerticesRiggingBuffer {
    pub vertices: Vec<VertexRigging>,
}

/// A vertex buffer of one of the two shapes.
#[derive(Clone, Debug)]
pub enum VerticesDataBuffer {
    Geometry(VerticesGeometryBuffer),
    Rigging(VerticesRiggingBuffer),
}

/// A vertex chunk: the declared number of vertices, the attribute descriptors, and the
/// buffer that the first descriptor locates.
#[derive(Clone, Debug)]
pub struct Vertices {
    pub nb_vertices: u32,
    pub attributes: Vec<VertexAttribute>,
    pub buffer: VerticesDataBuffer,
}

/// One child of the geometry group.
#[derive(Clone, Debug)]
pub enum SubSection {
    Vertices(Vertices),
    Mesh(Mesh),
    Unnamed6E,
}

/// The group that holds the vertex chunks and the meshes.
#[derive(Clone, Debug)]
pub struct Unnamed0A {
    pub sub_sections: Vec<SubSection>,
}

/// Defines all the geometry of the model.
#[derive(Clone, Debug)]
pub struct ModelData {
    pub zero_a: Unnamed0A,
}

/// Model of a [`MeshSubSection`].
pub ghost enum MeshSubSectionView {
    Faces(Seq<Face>),
    Unnamed6E,
}

/// Model of a [`Mesh`].
pub ghost struct MeshView {
    pub nb_faces: u32,
    pub sub_sections: Seq<MeshSubSectionView>,
}

/// Model of a [`VerticesDataBuffer`].
pub ghost enum VerticesDataBufferView {
    Geometry(Seq<VertexGeometry>),
    Rigging(Seq<VertexRigging>),
}

/// Model of a [`Vertices`].
pub ghost struct VerticesView {
    pub nb_vertices: u32,
    pub attributes: Seq<VertexAttribute>,
    pub buffer: VerticesDataBufferView,
}

/// Model of a [`SubSection`].
pub ghost enum SubSectionView {
    Vertices(VerticesView),
    Mesh(MeshView),
    Unnamed6E,
}

impl View for Face {
    type V = Face;

    open spec fn view(&self) -> Face {
        *self
    }
}

impl View for VertexAttribute {
    type V = VertexAttribute;

    open spec fn view(&self) -> VertexAttribute {
        *self
    }
}

impl View for VertexGeometry {
    type V = VertexGeometry;

    open spec fn view(&self) -> VertexGeometry {
        *self
    }
}

impl View for VertexRigging {
    type V = VertexRigging;

    open spec fn view(&self) -> VertexRigging {
        *self
    }
}

impl View for Faces {
    type V = Seq<Face>;

    open spec fn view(&self) -> Seq<Face> {
        self.faces@
    }
}

impl View for MeshSubSection {
    type V = MeshSubSectionView;

    open spec fn view(&self) -> MeshSubSectionView {
        match self {
            MeshSubSection::Faces(faces) => MeshSubSectionView::Faces(faces@),
            MeshSubSection::Unnamed6E => MeshSubSectionView::Unnamed6E,
        }
    }
}

impl View for Mesh {
    type V = MeshView;

    open spec fn view(&self) -> MeshView {
        MeshView { nb_faces: self.nb_faces, sub_sections: views(self.sub_sections@) }
    }
}

impl View for VerticesGeometryBuffer {
    type V = Seq<VertexGeometry>;

    open spec fn view(&self) -> Seq<VertexGeometry> {
        self.vertices@
    }
}

impl View for VerticesRiggingBuffer {
    type V = Seq<VertexRigging>;

    open spec fn view(&self) -> Seq<VertexRigging> {
        self.vertices@
    }
}

impl View for VerticesDataBuffer {
    type V = VerticesDataBufferView;

    open spec fn view(&self) -> VerticesDataBufferView {
        match self {
            VerticesDataBuffer::Geometry(buffer) => VerticesDataBufferView::Geometry(buffer@),
            VerticesDataBuffer::Rigging(buffer) => VerticesDataBufferView::Rigging(buffer@),
        }
    }
}

impl View for Vertices {
    type V = VerticesView;

    open spec fn view(&self) -> VerticesView {
        VerticesView {
            nb_vertices: self.nb_vertices,
            attributes: self.attributes@,
            buffer: self.buffer@,
        }
    }
}

impl View for SubSection {
    type V = SubSectionView;

    open spec fn view(&self) -> SubSectionView {
        match self {
            SubSection::Vertices(vertices) => SubSectionView::Vertices(vertices@),
            SubSection::Mesh(mesh) => SubSectionView::Mesh(mesh@),
            SubSection::Unnamed6E => SubSectionView::Unnamed6E,
        }
    }
}

impl View for Unnamed0A {
    type V = Seq<SubSectionView>;

    open spec fn view(&self) -> Seq<SubSectionView> {
        views(self.sub_sections@)
    }
}

impl View for ModelData {
    type V = Seq<SubSectionView>;

    open spec fn view(&self) -> Seq<SubSectionView> {
        self.zero_a@
    }
}

/// Bytes that one face takes.
pub const FACE_SIZE: usize = 6;

/// Bytes that one attribute descriptor takes.
pub const VERTEX_ATTRIBUTE_SIZE: usize = 24;

/// Bytes that one vertex of a geometry buffer takes, its four bytes of padding included.
pub const VERTEX_GEOMETRY_SIZE: usize = 32;

/// Bytes that one vertex of a rigging buffer takes, its twelve bytes of padding included.
pub const VERTEX_RIGGING_SIZE: usize = 32;

/// Whether a descriptor of this type locates a geometry buffer.
pub open spec fn is_geometry_type(attribute_type: u32) -> bool {
    attribute_type == 0x00 || attribute_type == 0x02 || attribute_type == 0x0E || attribute_type
        == 0x03
}

/// Whether a descriptor of this type locates a rigging buffer.
pub open spec fn is_rigging_type(attribute_type: u32) -> bool {
    attribute_type == 0x07 || attribute_type == 0x01
}

impl Face {
    /// The face whose six bytes start at `at`.
    pub open spec fn at(bytes: Seq<u8>, at: int) -> Face {
        Face { points: (le_u16(bytes, at), le_u16(bytes, at + 2), le_u16(bytes, at + 4)) }
    }

    /// What the bytes at `at` hold as a face.
    pub open spec fn decode(bytes: Seq<u8>, at: int) -> Result<Face, ISM2ImportError> {
        if in_bounds(bytes, at, 6) {
            Ok(Face::at(bytes, at))
        } else {
            Err(ISM2ImportError::IO)
        }
    }

    /// Reads one face at the cursor.
    pub fn import(reader: &mut Reader) -> (result: Result<Face, ISM2ImportError>)
        ensures
            final(reader).bytes() == old(reader).bytes(),
            result == Face::decode(old(reader).bytes(), old(reader).at()),
            result is Ok ==> final(reader).at() == old(reader).at() + 6,
    {
        let start: usize = reader.take(FACE_SIZE)?;
        Ok(
            Face {
                points: (
                    reader.le_u16_at(start),
                    reader.le_u16_at(start + 2),
                    reader.le_u16_at(start + 4),
                ),
            },
        )
    }
}

impl Faces {
    /// What the chunk at `at` holds as the `nb_faces` faces of a mesh: after a header of
    /// twenty bytes, the faces lie one behind the other.
    pub open spec fn decode(bytes: Seq<u8>, at: int, nb_faces: u32) -> Result<
        Seq<Face>,
        ISM2ImportError,
    > {
        match chunk_header(bytes, at, 0x45, 0x14) {
            Err(e) => Err(e),
            Ok(_) => if in_bounds(bytes, at + 0x14, 6 * nb_faces) {
                Ok(Seq::new(nb_faces as nat, |i: int| Face::at(bytes, at + 0x14 + 6 * i)))
            } else {
                Err(ISM2ImportError::IO)
            },
        }
    }

    /// Reads the face list at the cursor. The number of faces is the one that the enclosing
    /// mesh declares: exactly that many are read, and the cursor stops behind the last of
    /// them.
    pub fn import(reader: &mut Reader, nb_faces: u32) -> (result: Result<Faces, ISM2ImportError>)
        ensures
            final(reader).bytes() == old(reader).bytes(),
            yields(result, Faces::decode(old(reader).bytes(), old(reader).at(), nb_faces)),
            result is Ok ==> final(reader).at() == old(reader).at() + 0x14 + 6 * nb_faces,
    {
        let ghost bytes = reader.bytes();
        let start: usize = reader.read_header(0x45, 0x14)?;
        let mut faces: Vec<Face> = Vec::new();
        let mut i: u32 = 0;
        while i < nb_faces
            invariant
                reader.bytes() == bytes,
                bytes == old(reader).bytes(),
                start == old(reader).at(),
                chunk_header(bytes, start as int, 0x45, 0x14) is Ok,
                i <= nb_faces,
                reader.at() == start + 0x14 + 6 * i,
                in_bounds(bytes, start + 0x14, 6 * i),
                faces@ == Seq::new(i as nat, |k: int| Face::at(bytes, start + 0x14 + 6 * k)),
            decreases nb_faces - i,
        {
            let face: Face = Face::import(reader)?;
            faces.push(face);
            i = i + 1;
            assert(faces@ =~= Seq::new(i as nat, |k: int| Face::at(bytes, start + 0x14 + 6 * k)));
        }
        assert(faces@ =~= Seq::new(nb_faces as nat, |k: int| Face::at(bytes, start + 0x14 + 6 * k)));
        Ok(Faces { faces })
    }
}

/// The decoder of the children of a mesh that declares `nb_faces` faces.
pub open spec fn mesh_sub_section_decoder(nb_faces: u32) -> spec_fn(Seq<u8>, int) -> Result<
    MeshSubSectionView,
    ISM2ImportError,
> {
    |bytes: Seq<u8>, at: int| MeshSubSection::decode(bytes, at, nb_faces)
}

impl MeshSubSection {
    /// What the chunk at `at` holds as a child of a mesh: the tag at `at` decides.
    pub open spec fn decode(bytes: Seq<u8>, at: int, nb_faces: u32) -> Result<
        MeshSubSectionView,
        ISM2ImportError,
    > {
        match read_u32(bytes, at) {
            Err(e) => Err(e),
            Ok(magic) => if magic == 0x45 {
                match Faces::decode(bytes, at, nb_faces) {
                    Err(e) => Err(e),
                    Ok(faces) => Ok(MeshSubSectionView::Faces(faces)),
                }
            } else if magic == 0x6E {
                Ok(MeshSubSectionView::Unnamed6E)
            } else {
                Err(unknown_sub_section(0x46, magic))
            },
        }
    }

    /// Reads the child of a mesh at the cursor.
    pub fn import(reader: &mut Reader, nb_faces: u32) -> (result: Result<
        MeshSubSection,
        ISM2ImportError,
    >)
        ensures
            final(reader).bytes() == old(reader).bytes(),
            yields(result, MeshSubSection::decode(old(reader).bytes(), old(reader).at(), nb_faces)),
    {
        let magic_number: u32 = reader.peek_le_to_u32()?;
        if magic_number == 0x45 {
            Ok(MeshSubSection::Faces(Faces::import(reader, nb_faces)?))
        } else if magic_number == 0x6E {
            Ok(MeshSubSection::Unnamed6E)
        } else {
            Err(
                ISM2ImportError::UnknownSubSection(
                    UnknownSubSection { in_section: 0x46, failed_to_match: magic_number },
                ),
            )
        }
    }
}

impl Mesh {
    /// What the chunk at `at` holds as a mesh. The seventh word of its header is the number
    /// of faces, which is handed to each child.
    pub open spec fn decode(bytes: Seq<u8>, at: int) -> Result<MeshView, ISM2ImportError> {
        match chunk_children(bytes, at, 0x46, 0x1C) {
            Err(e) => Err(e),
            Ok(offsets) => {
                let nb_faces = le_u32(bytes, at + 24);
                match decode_each(bytes, offsets, mesh_sub_section_decoder(nb_faces)) {
                    Err(e) => Err(e),
                    Ok(sub_sections) => Ok(MeshView { nb_faces, sub_sections }),
                }
            },
        }
    }

    /// Reads the mesh at the cursor.
    pub fn import(reader: &mut Reader) -> (result: Result<Mesh, ISM2ImportError>)
        ensures
            final(reader).bytes() == old(reader).bytes(),
            yields(result, Mesh::decode(old(reader).bytes(), old(reader).at())),
    {
        let ghost bytes = reader.bytes();
        let chunk: Chunk = reader.read_chunk(0x46, 0x1C)?;
        let nb_faces: u32 = reader.le_u32_at(chunk.start + 24);
        let ghost decoder = mesh_sub_section_decoder(nb_faces);
        let mut sub_sections: Vec<MeshSubSection> = Vec::new();
        let mut i: usize = 0;
        proof {
            lemma_views_empty::<MeshSubSection>();
        }
        while i < chunk.offsets.len()
            invariant
                reader.bytes() == bytes,
                bytes == old(reader).bytes(),
                i <= chunk.offsets.len(),
                decoder == mesh_sub_section_decoder(nb_faces),
                decode_each(bytes, chunk.offsets@.take(i as int), decoder) == Ok::<
                    Seq<MeshSubSectionView>,
                    ISM2ImportError,
                >(views(sub_sections@)),
                chunk_children(bytes, old(reader).at(), 0x46, 0x1C) == Ok::<
                    Seq<u32>,
                    ISM2ImportError,
                >(chunk.offsets@),
                nb_faces == le_u32(bytes, old(reader).at() + 24),
            decreases chunk.offsets.len() - i,
        {
            let offset: u32 = chunk.offsets[i];
            proof {
                lemma_decode_each_step(bytes, chunk.offsets@, decoder, i as int);
            }
            let step = match reader.seek(offset) {
                Ok(_) => MeshSubSection::import(reader, nb_faces),
                Err(e) => Err(e),
            };
            match step {
                Err(e) => {
                    proof {
                        lemma_decode_each_fails(bytes, chunk.offsets@, decoder, i + 1);
                    }
                    return Err(e);
                },
                Ok(sub_section) => {
                    proof {
                        lemma_views_push(sub_sections@, sub_section);
                    }
                    sub_sections.push(sub_section);
                },
            }
            i = i + 1;
        }
        assert(chunk.offsets@.take(i as int) == chunk.offsets@);
        Ok(Mesh { nb_faces, sub_sections })
    }
}

/// The decoder of attribute descriptors.
pub open spec fn vertex_attribute_decoder() -> spec_fn(Seq<u8>, int) -> Result<
    VertexAttribute,
    ISM2ImportError,
> {
    |bytes: Seq<u8>, at: int| VertexAttribute::decode(bytes, at)
}

impl VertexAttribute {
    /// The descriptor whose six words start at `at`.
    pub open spec fn at(bytes: Seq<u8>, at: int) -> VertexAttribute {
        VertexAttribute {
            attribute_type: le_u32(bytes, at),
            unknown2: le_u32(bytes, at + 4),
            unknown3: le_u32(bytes, at + 8),
            unknown4: le_u32(bytes, at + 12),
            unknown5: le_u32(bytes, at + 16),
            buffer_offset: le_u32(bytes, at + 20),
        }
    }

    /// What the bytes at `at` hold as an attribute descriptor.
    pub open spec fn decode(bytes: Seq<u8>, at: int) -> Result<VertexAttribute, ISM2ImportError> {
        if in_bounds(bytes, at, 24) {
            Ok(VertexAttribute::at(bytes, at))
        } else {
            Err(ISM2ImportError::IO)
        }
    }

    /// Reads one attribute descriptor at the cursor.
    pub fn import(reader: &mut Reader) -> (result: Result<VertexAttribute, ISM2ImportError>)
        ensures
            final(reader).bytes() == old(reader).bytes(),
            result == VertexAttribute::decode(old(reader).bytes(), old(reader).at()),
            result is Ok ==> final(reader).at() == old(reader).at() + 24,
    {
        let start: usize = reader.take(VERTEX_ATTRIBUTE_SIZE)?;
        Ok(
            VertexAttribute {
                attribute_type: reader.le_u32_at(start),
                unknown2: reader.le_u32_at(start + 4),
                unknown3: reader.le_u32_at(start + 8),
                unknown4: reader.le_u32_at(start + 12),
                unknown5: reader.le_u32_at(start + 16),
                buffer_offset: reader.le_u32_at(start + 20),
            },
        )
    }
}

impl VertexGeometry {
    /// The vertex whose thirty-two bytes start at `at`: the position, the normal, the
    /// first texture coordinate, the tangent, the second texture coordinate, and padding.
    pub open spec fn at(bytes: Seq<u8>, at: int) -> VertexGeometry {
        VertexGeometry {
            position_coordinates: Vector3D {
                x: le_u32(bytes, at),
                y: le_u32(bytes, at + 4),
                z: le_u32(bytes, at + 8),
            },
            texture_coordinates: Vector2D { u: le_u16(bytes, at + 18), v: le_u16(bytes, at + 26) },
            frenet_frame: FrenetFrame {
                normal: Vector3D {
                    x: le_u16(bytes, at + 12),
                    y: le_u16(bytes, at + 14),
                    z: le_u16(bytes, at + 16),
                },
                tangent: Vector3D {
                    x: le_u16(bytes, at + 20),
                    y: le_u16(bytes, at + 22),
                    z: le_u16(bytes, at + 24),
                },
            },
        }
    }

    /// What the bytes at `at` hold as a vertex of a geometry buffer.
    pub open spec fn decode(bytes: Seq<u8>, at: int) -> Result<VertexGeometry, ISM2ImportError> {
        if in_bounds(bytes, at, 32) {
            Ok(VertexGeometry::at(bytes, at))
        } else {
            Err(ISM2ImportError::IO)
        }
    }

    /// Reads one vertex of a geometry buffer at the cursor.
    pub fn import(reader: &mut Reader) -> (result: Result<VertexGeometry, ISM2ImportError>)
        ensures
            final(reader).bytes() == old(reader).bytes(),
            result == VertexGeometry::decode(old(reader).bytes(), old(reader).at()),
            result is Ok ==> final(reader).at() == old(reader).at() + 32,
    {
        let start: usize = reader.take(VERTEX_GEOMETRY_SIZE)?;
        let position = Vector3D {
            x: reader.le_u32_at(start),
            y: reader.le_u32_at(start + 4),
            z: reader.le_u32_at(start + 8),
        };
        let normal = Vector3D {
            x: reader.le_u16_at(start + 12),
            y: reader.le_u16_at(start + 14),
            z: reader.le_u16_at(start + 16),
        };
        let texture_coordinate_u: u16 = reader.le_u16_at(start + 18);
        let tangent = Vector3D {
            x: reader.le_u16_at(start + 20),
            y: reader.le_u16_at(start + 22),
            z: reader.le_u16_at(start + 24),
        };
        let texture_coordinate_v: u16 = reader.le_u16_at(start + 26);
        Ok(
            VertexGeometry {
                position_coordinates: position,
                texture_coordinates: Vector2D { u: texture_coordinate_u, v: texture_coordinate_v },
                frenet_frame: FrenetFrame { normal, tangent },
            },
        )
    }
}

impl VertexRigging {
    /// The vertex whose thirty-two bytes start at `at`: four joint identifiers, four
    /// weights, and padding.
    pub open spec fn at(bytes: Seq<u8>, at: int) -> VertexRigging {
        VertexRigging {
            joints: (bytes[at], bytes[at + 1], bytes[at + 2], bytes[at + 3]),
            weights: (
                le_u32(bytes, at + 4),
                le_u32(bytes, at + 8),
                le_u32(bytes, at + 12),
                le_u32(bytes, at + 16),
            ),
        }
    }

    /// What the bytes at `at` hold as a vertex of a rigging buffer.
    pub open spec fn decode(bytes: Seq<u8>, at: int) -> Result<VertexRigging, ISM2ImportError> {
        if in_bounds(bytes, at, 32) {
            Ok(VertexRigging::at(bytes, at))
        } else {
            Err(ISM2ImportError::IO)
        }
    }

    /// Reads one vertex of a rigging buffer at the cursor.
    pub fn import(reader: &mut Reader) -> (result: Result<VertexRigging, ISM2ImportError>)
        ensures
            final(reader).bytes() == old(reader).bytes(),
            result == VertexRigging::decode(old(reader).bytes(), old(reader).at()),
            result is Ok ==> final(reader).at() == old(reader).at() + 32,
    {
        let start: usize = reader.take(VERTEX_RIGGING_SIZE)?;
        let joints = (
            reader.u8_at(start),
            reader.u8_at(start + 1),
            reader.u8_at(start + 2),
            reader.u8_at(start + 3),
        );
        let weights = (
            reader.le_u32_at(start + 4),
            reader.le_u32_at(start + 8),
            reader.le_u32_at(start + 12),
            reader.le_u32_at(start + 16),
        );
        Ok(VertexRigging { joints, weights })
    }
}

impl VerticesGeometryBuffer {
    /// What the bytes at `at` hold as `nb_vertices` vertices of a geometry buffer, one
    /// behind the other.
    pub open spec fn decode(bytes: Seq<u8>, at: int, nb_vertices: u32) -> Result<
        Seq<VertexGeometry>,
        ISM2ImportError,
    > {
        if in_bounds(bytes, at, 32 * nb_vertices) {
            Ok(Seq::new(nb_vertices as nat, |i: int| VertexGeometry::at(bytes, at + 32 * i)))
        } else {
            Err(ISM2ImportError::IO)
        }
    }

    /// Reads `nb_vertices` vertices of a geometry buffer at the cursor.
    pub fn import(reader: &mut Reader, nb_vertices: u32) -> (result: Result<
        VerticesGeometryBuffer,
        ISM2ImportError,
    >)
        ensures
            final(reader).bytes() == old(reader).bytes(),
            yields(
                result,
                VerticesGeometryBuffer::decode(old(reader).bytes(), old(reader).at(), nb_vertices),
            ),
            result is Ok ==> final(reader).at() == old(reader).at() + 32 * nb_vertices,
    {
        let ghost bytes = reader.bytes();
        let start: usize = reader.position();
        let mut vertices: Vec<VertexGeometry> = Vec::new();
        let mut i: u32 = 0;
        while i < nb_vertices
            invariant
                reader.bytes() == bytes,
                bytes == old(reader).bytes(),
                start == old(reader).at(),
                i <= nb_vertices,
                reader.at() == start + 32 * i,
                in_bounds(bytes, start as int, 32 * i),
                vertices@ == Seq::new(i as nat, |k: int| VertexGeometry::at(bytes, start + 32 * k)),
            decreases nb_vertices - i,
        {
            let vertex: VertexGeometry = VertexGeometry::import(reader)?;
            vertices.push(vertex);
            i = i + 1;
            assert(vertices@ =~= Seq::new(
                i as nat,
                |k: int| VertexGeometry::at(bytes, start + 32 * k),
            ));
        }
        Ok(VerticesGeometryBuffer { vertices })
    }
}

impl VerticesRiggingBuffer {
    /// What the bytes at `at` hold as `nb_vertices` vertices of a rigging buffer, one
    /// behind the other.
    pub open spec fn decode(bytes: Seq<u8>, at: int, nb_vertices: u32) -> Result<
        Seq<VertexRigging>,
        ISM2ImportError,
    > {
        if in_bounds(bytes, at, 32 * nb_vertices) {
            Ok(Seq::new(nb_vertices as nat, |i: int| VertexRigging::at(bytes, at + 32 * i)))
        } else {
            Err(ISM2ImportError::IO)
        }
    }

    /// Reads `nb_vertices` vertices of a rigging buffer at the cursor.
    pub fn import(reader: &mut Reader, nb_vertices: u32) -> (result: Result<
        VerticesRiggingBuffer,
        ISM2ImportError,
    >)
        ensures
            final(reader).bytes() == old(reader).bytes(),
            yields(
                result,
                VerticesRiggingBuffer::decode(old(reader).bytes(), old(reader).at(), nb_vertices),
            ),
            result is Ok ==> final(reader).at() == old(reader).at() + 32 * nb_vertices,
    {
        let ghost bytes = reader.bytes();
        let start: usize = reader.position();
        let mut vertices: Vec<VertexRigging> = Vec::new();
        let mut i: u32 = 0;
        while i < nb_vertices
            invariant
                reader.bytes() == bytes,
                bytes == old(reader).bytes(),
                start == old(reader).at(),
                i <= nb_vertices,
                reader.at() == start + 32 * i,
                in_bounds(bytes, start as int, 32 * i),
                vertices@ == Seq::new(i as nat, |k: int| VertexRigging::at(bytes, start + 32 * k)),
            decreases nb_vertices - i,
        {
            let vertex: VertexRigging = VertexRigging::import(reader)?;
            vertices.push(vertex);
            i = i + 1;
            assert(vertices@ =~= Seq::new(
                i as nat,
                |k: int| VertexRigging::at(bytes, start + 32 * k),
            ));
        }
        Ok(VerticesRiggingBuffer { vertices })
    }
}

impl VerticesDataBuffer {
    /// What the buffer that `first` locates holds. The type of the descriptor decides the
    /// shape; a type of neither shape is refused before the buffer is looked at.
    pub open spec fn decode(bytes: Seq<u8>, first: VertexAttribute, nb_vertices: u32) -> Result<
        VerticesDataBufferView,
        ISM2ImportError,
    > {
        if is_geometry_type(first.attribute_type) {
            match VerticesGeometryBuffer::decode(bytes, first.buffer_offset as int, nb_vertices) {
                Err(e) => Err(e),
                Ok(vertices) => Ok(VerticesDataBufferView::Geometry(vertices)),
            }
        } else if is_rigging_type(first.attribute_type) {
            match VerticesRiggingBuffer::decode(bytes, first.buffer_offset as int, nb_vertices) {
                Err(e) => Err(e),
                Ok(vertices) => Ok(VerticesDataBufferView::Rigging(vertices)),
            }
        } else {
            Err(ISM2ImportError::UnrecognizedBufferType)
        }
    }

    /// Reads the buffer that the descriptor `first` locates.
    pub fn import(reader: &mut Reader, first: &VertexAttribute, nb_vertices: u32) -> (result:
        Result<VerticesDataBuffer, ISM2ImportError>)
        ensures
            final(reader).bytes() == old(reader).bytes(),
            yields(result, VerticesDataBuffer::decode(old(reader).bytes(), *first, nb_vertices)),
    {
        let attribute_type: u32 = first.attribute_type;
        if attribute_type == 0x00 || attribute_type == 0x02 || attribute_type == 0x0E
            || attribute_type == 0x03 {
            reader.seek(first.buffer_offset)?;
            Ok(VerticesDataBuffer::Geometry(VerticesGeometryBuffer::import(reader, nb_vertices)?))
        } else if attribute_type == 0x07 || attribute_type == 0x01 {
            reader.seek(first.buffer_offset)?;
            Ok(VerticesDataBuffer::Rigging(VerticesRiggingBuffer::import(reader, nb_vertices)?))
        } else {
            Err(ISM2ImportError::UnrecognizedBufferType)
        }
    }
}

impl Vertices {
    /// What the chunk at `at` holds as a vertex chunk. The fifth word of its header is the
    /// number of vertices. The children are the attribute descriptors; the first of them
    /// locates the buffer, and without one there is no buffer to read.
    pub open spec fn decode(bytes: Seq<u8>, at: int) -> Result<VerticesView, ISM2ImportError> {
        match chunk_children(bytes, at, 0x59, 0x1C) {
            Err(e) => Err(e),
            Ok(offsets) => {
                let nb_vertices = le_u32(bytes, at + 16);
                match decode_each(bytes, offsets, vertex_attribute_decoder()) {
                    Err(e) => Err(e),
                    Ok(attributes) => if attributes.len() == 0 {
                        Err(ISM2ImportError::NoAttributes)
                    } else {
                        match VerticesDataBuffer::decode(bytes, attributes[0], nb_vertices) {
                            Err(e) => Err(e),
                            Ok(buffer) => Ok(VerticesView { nb_vertices, attributes, buffer }),
                        }
                    },
                }
            },
        }
    }

    /// Reads the vertex chunk at the cursor.
    pub fn import(reader: &mut Reader) -> (result: Result<Vertices, ISM2ImportError>)
        ensures
            final(reader).bytes() == old(reader).bytes(),
            yields(result, Vertices::decode(old(reader).bytes(), old(reader).at())),
    {
        let ghost bytes = reader.bytes();
        let chunk: Chunk = reader.read_chunk(0x59, 0x1C)?;
        let nb_vertices: u32 = reader.le_u32_at(chunk.start + 16);
        let ghost decoder = vertex_attribute_decoder();
        let mut attributes: Vec<VertexAttribute> = Vec::new();
        let mut i: usize = 0;
        while i < chunk.offsets.len()
            invariant
                reader.bytes() == bytes,
                bytes == old(reader).bytes(),
                i <= chunk.offsets.len(),
                decoder == vertex_attribute_decoder(),
                decode_each(bytes, chunk.offsets@.take(i as int), decoder) == Ok::<
                    Seq<VertexAttribute>,
                    ISM2ImportError,
                >(attributes@),
                chunk_children(bytes, old(reader).at(), 0x59, 0x1C) == Ok::<
                    Seq<u32>,
                    ISM2ImportError,
                >(chunk.offsets@),
                nb_vertices == le_u32(bytes, old(reader).at() + 16),
            decreases chunk.offsets.len() - i,
        {
            let offset: u32 = chunk.offsets[i];
            proof {
                lemma_decode_each_step(bytes, chunk.offsets@, decoder, i as int);
            }
            let step = match reader.seek(offset) {
                Ok(_) => VertexAttribute::import(reader),
                Err(e) => Err(e),
            };
            match step {
                Err(e) => {
                    proof {
                        lemma_decode_each_fails(bytes, chunk.offsets@, decoder, i + 1);
                    }
                    return Err(e);
                },
                Ok(attribute) => {
                    attributes.push(attribute);
                },
            }
            i = i + 1;
        }
        assert(chunk.offsets@.take(i as int) == chunk.offsets@);
        if attributes.len() == 0 {
            return Err(ISM2ImportError::NoAttributes);
        }
        let first: VertexAttribute = attributes[0];
        let buffer: VerticesDataBuffer = VerticesDataBuffer::import(reader, &first, nb_vertices)?;
        Ok(Vertices { nb_vertices, attributes, buffer })
    }
}

/// The decoder of the children of the geometry group.
pub open spec fn sub_section_decoder() -> spec_fn(Seq<u8>, int) -> Result<
    SubSectionView,
    ISM2ImportError,
> {
    |bytes: Seq<u8>, at: int| SubSection::decode(bytes, at)
}

impl SubSection {
    /// What the chunk at `at` holds as a child of the geometry group: the tag at `at`
    /// decides.
    pub open spec fn decode(bytes: Seq<u8>, at: int) -> Result<SubSectionView, ISM2ImportError> {
        match read_u32(bytes, at) {
            Err(e) => Err(e),
            Ok(magic) => if magic == 0x59 {
                match Vertices::decode(bytes, at) {
                    Err(e) => Err(e),
                    Ok(vertices) => Ok(SubSectionView::Vertices(vertices)),
                }
            } else if magic == 0x46 {
                match Mesh::decode(bytes, at) {
                    Err(e) => Err(e),
                    Ok(mesh) => Ok(SubSectionView::Mesh(mesh)),
                }
            } else if magic == 0x6E {
                Ok(SubSectionView::Unnamed6E)
            } else {
                Err(unknown_sub_section(0x0A, magic))
            },
        }
    }

    /// Reads the child of the geometry group at the cursor.
    pub fn import(reader: &mut Reader) -> (result: Result<SubSection, ISM2ImportError>)
        ensures
            final(reader).bytes() == old(reader).bytes(),
            yields(result, SubSection::decode(old(reader).bytes(), old(reader).at())),
    {
        let magic_number: u32 = reader.peek_le_to_u32()?;
        if magic_number == 0x59 {
            Ok(SubSection::Vertices(Vertices::import(reader)?))
        } else if magic_number == 0x46 {
            Ok(SubSection::Mesh(Mesh::import(reader)?))
        } else if magic_number == 0x6E {
            Ok(SubSection::Unnamed6E)
        } else {
            Err(
                ISM2ImportError::UnknownSubSection(
                    UnknownSubSection { in_section: 0x0A, failed_to_match: magic_number },
                ),
            )
        }
    }
}

impl Unnamed0A {
    /// What the chunk at `at` holds as the geometry group: its children, in file order.
    pub open spec fn decode(bytes: Seq<u8>, at: int) -> Result<
        Seq<SubSectionView>,
        ISM2ImportError,
    > {
        match chunk_children(bytes, at, 0x0A, 0x20) {
            Err(e) => Err(e),
            Ok(offsets) => decode_each(bytes, offsets, sub_section_decoder()),
        }
    }

    /// Reads the geometry group at the cursor.
    pub fn import(reader: &mut Reader) -> (result: Result<Unnamed0A, ISM2ImportError>)
        ensures
            final(reader).bytes() == old(reader).bytes(),
            yields(result, Unnamed0A::decode(old(reader).bytes(), old(reader).at())),
    {
        let ghost bytes = reader.bytes();
        let chunk: Chunk = reader.read_chunk(0x0A, 0x20)?;
        let ghost decoder = sub_section_decoder();
        let mut sub_sections: Vec<SubSection> = Vec::new();
        let mut i: usize = 0;
        proof {
            lemma_views_empty::<SubSection>();
        }
        while i < chunk.offsets.len()
            invariant
                reader.bytes() == bytes,
                bytes == old(reader).bytes(),
                i <= chunk.offsets.len(),
                decoder == sub_section_decoder(),
                decode_each(bytes, chunk.offsets@.take(i as int), decoder) == Ok::<
                    Seq<SubSectionView>,
                    ISM2ImportError,
                >(views(sub_sections@)),
                chunk_children(bytes, old(reader).at(), 0x0A, 0x20) == Ok::<
                    Seq<u32>,
                    ISM2ImportError,
                >(chunk.offsets@),
            decreases chunk.offsets.len() - i,
        {
            let offset: u32 = chunk.offsets[i];
            proof {
                lemma_decode_each_step(bytes, chunk.offsets@, decoder, i as int);
            }
            let step = match reader.seek(offset) {
                Ok(_) => SubSection::import(reader),
                Err(e) => Err(e),
            };
            match step {
                Err(e) => {
                    proof {
                        lemma_decode_each_fails(bytes, chunk.offsets@, decoder, i + 1);
                    }
                    return Err(e);
                },
                Ok(sub_section) => {
                    proof {
                        lemma_views_push(sub_sections@, sub_section);
                    }
                    sub_sections.push(sub_section);
                },
            }
            i = i + 1;
        }
        assert(chunk.offsets@.take(i as int) == chunk.offsets@);
        Ok(Unnamed0A { sub_sections })
    }
}

impl ModelData {
    /// What the chunk at `at` holds as the model data section: a header of three words,
    /// the third of which must be one, then the offset of the geometry group.
    pub open spec fn decode(bytes: Seq<u8>, at: int) -> Result<
        Seq<SubSectionView>,
        ISM2ImportError,
    > {
        match chunk_header(bytes, at, 0x0B, 0x0C) {
            Err(e) => Err(e),
            Ok(_) => match fixed_word(bytes, at + 8, 1) {
                Err(e) => Err(e),
                Ok(_) => match read_u32(bytes, at + 12) {
                    Err(e) => Err(e),
                    Ok(section_offset) => Unnamed0A::decode(bytes, section_offset as int),
                },
            },
        }
    }

    /// Reads the model data section at the cursor.
    pub fn import(reader: &mut Reader) -> (result: Result<ModelData, ISM2ImportError>)
        ensures
            final(reader).bytes() == old(reader).bytes(),
            yields(result, ModelData::decode(old(reader).bytes(), old(reader).at())),
    {
        let start: usize = reader.read_header(0x0B, 0x0C)?;
        reader.check_word_at(start + 8, 1)?;
        let section_offset: u32 = reader.read_le_to_u32()?;
        reader.seek(section_offset)?;
        let zero_a: Unnamed0A = Unnamed0A::import(reader)?;
        Ok(ModelData { zero_a })
    }
}

} // verus!
