//! The scene: what the sections of a decoded file hold, merged into one model that is
//! ready to be written out.

use vstd::prelude::*;
use vstd::string::StringExecFns;
use crate::error::{ISM2ImportError, views, yields, lemma_views_push};
use crate::extremes::IVerticesExtremes;
use crate::joint_definition::{Joint, JointDefinition, joints_of};
use crate::joint_extra::{BufferData, BufferDataView, JointExtra, Unnamed30, Unnamed30View,
    Unnamed31, Unnamed31View};
use crate::model_data::{Face, Mesh, MeshSubSection, MeshSubSectionView, ModelData,
    SubSection, SubSectionView, VertexGeometry, VertexRigging, VerticesDataBuffer,
    VerticesDataBufferView};
use crate::skeleton::{INode, INodeView, Skeleton, joints_in, missing_parent, node_of,
    roots_among};
use crate::skin::{SkinLinkage, linkage_onto, placed, remapped_all};
use crate::texture_definition::{TextureDefinition, TextureView};
use crate::{ISM2, ISM2View, Section, SectionView};

verus! {

/// The triangles of one mesh.
#[derive(Clone, Debug)]
pub struct IMesh {
    pub faces: Vec<Face>,
}

impl View for IMesh {
    type V = Seq<Face>;

    open spec fn view(&self) -> Seq<Face> {
        self.faces@
    }
}

/// The models of two lists, one behind the other.
pub proof fn lemma_views_add<T: View>(a: Seq<T>, b: Seq<T>)
    ensures
        views(a + b) == views(a) + views(b),
{
    assert(views(a + b) =~= views(a) + views(b));
}

/// Puts copies of the items of `more` behind those of `all`.
pub fn append_copies<T: Copy>(all: &mut Vec<T>, more: &Vec<T>)
    ensures
        final(all)@ == old(all)@ + more@,
{
    let ghost before = all@;
    let mut i: usize = 0;
    assert(all@ =~= before + more@.take(0));
    while i < more.len()
        invariant
            i <= more.len(),
            all@ == before + more@.take(i as int),
        decreases more.len() - i,
    {
        all.push(more[i]);
        i = i + 1;
        assert(all@ =~= before + more@.take(i as int));
    }
    assert(more@.take(i as int) == more@);
}

/// The vertices that a child of the geometry group adds to the geometry of the scene.
pub open spec fn geometry_of(sub_section: SubSectionView) -> Seq<VertexGeometry> {
    match sub_section {
        SubSectionView::Vertices(vertices) => match vertices.buffer {
            VerticesDataBufferView::Geometry(buffer) => buffer,
            VerticesDataBufferView::Rigging(_) => Seq::empty(),
        },
        _ => Seq::empty(),
    }
}

/// The records that a child of the geometry group adds to the rigging of the scene.
pub open spec fn rigging_of(sub_section: SubSectionView) -> Seq<VertexRigging> {
    match sub_section {
        SubSectionView::Vertices(vertices) => match vertices.buffer {
            VerticesDataBufferView::Rigging(buffer) => buffer,
            VerticesDataBufferView::Geometry(_) => Seq::empty(),
        },
        _ => Seq::empty(),
    }
}

/// The faces of the children of a mesh, one list behind the other.
pub open spec fn faces_in(sub_sections: Seq<MeshSubSectionView>) -> Seq<Face>
    decreases sub_sections.len(),
{
    if sub_sections.len() == 0 {
        Seq::empty()
    } else {
        faces_in(sub_sections.drop_last()) + match sub_sections.last() {
            MeshSubSectionView::Faces(faces) => faces,
            MeshSubSectionView::Unnamed6E => Seq::empty(),
        }
    }
}

/// The meshes that a child of the geometry group adds to the scene: none, or its one.
pub open spec fn meshes_of(sub_section: SubSectionView) -> Seq<Seq<Face>> {
    match sub_section {
        SubSectionView::Mesh(mesh) => seq![faces_in(mesh.sub_sections)],
        _ => Seq::empty(),
    }
}

/// What the geometry groups of a file add up to.
pub ghost struct GeometryView {
    pub vertices: Seq<VertexGeometry>,
    pub rigging: Seq<VertexRigging>,
    pub meshes: Seq<Seq<Face>>,
}

/// What the children `sub_sections` of a geometry group add to `base`, in order.
pub open spec fn geometry_onto(base: GeometryView, sub_sections: Seq<SubSectionView>) -> GeometryView
    decreases sub_sections.len(),
{
    if sub_sections.len() == 0 {
        base
    } else {
        let before = geometry_onto(base, sub_sections.drop_last());
        GeometryView {
            vertices: before.vertices + geometry_of(sub_sections.last()),
            rigging: before.rigging + rigging_of(sub_sections.last()),
            meshes: before.meshes + meshes_of(sub_sections.last()),
        }
    }
}

/// The matrices of the buffers `buffers`, one list behind the other.
pub open spec fn matrices_of_buffers(buffers: Seq<BufferDataView>) -> Seq<Seq<u32>>
    decreases buffers.len(),
{
    if buffers.len() == 0 {
        Seq::empty()
    } else {
        matrices_of_buffers(buffers.drop_last()) + match buffers.last() {
            BufferDataView::InverseBindMatrices(matrices) => matrices,
            BufferDataView::BoneNames(_) => Seq::empty(),
        }
    }
}

/// The matrices of the groups of buffers `groups`, one list behind the other.
pub open spec fn matrices_of_groups(groups: Seq<Unnamed30View>) -> Seq<Seq<u32>>
    decreases groups.len(),
{
    if groups.len() == 0 {
        Seq::empty()
    } else {
        matrices_of_groups(groups.drop_last()) + matrices_of_buffers(groups.last().sub_sections)
    }
}

/// The inverse bind matrices of a joint extra section, in file order.
pub open spec fn matrices_of(section: Seq<Unnamed31View>) -> Seq<Seq<u32>>
    decreases section.len(),
{
    if section.len() == 0 {
        Seq::empty()
    } else {
        matrices_of(section.drop_last()) + matrices_of_groups(section.last().sub_sections)
    }
}

/// The base names of the textures `textures`, in order.
pub open spec fn base_names(textures: Seq<TextureView>) -> Seq<Seq<char>> {
    textures.map_values(|texture: TextureView| texture.base_name)
}

/// Model of [`Parts`].
pub ghost struct PartsView {
    pub geometry: GeometryView,
    pub nodes: Seq<INodeView>,
    pub root_nodes: Seq<usize>,
    pub linkage: Map<u32, usize>,
    pub matrices: Seq<Seq<u32>>,
    pub textures: Seq<Seq<char>>,
}

/// The parts before any section is taken in.
pub open spec fn no_parts() -> PartsView {
    PartsView {
        geometry: GeometryView {
            vertices: Seq::empty(),
            rigging: Seq::empty(),
            meshes: Seq::empty(),
        },
        nodes: Seq::empty(),
        root_nodes: Seq::empty(),
        linkage: Map::empty(),
        matrices: Seq::empty(),
        textures: Seq::empty(),
    }
}

/// The nodes of the joints `joints`, each at its index.
pub open spec fn nodes_of(joints: Seq<crate::joint_definition::JointView>) -> Seq<INodeView> {
    Seq::new(joints.len(), |i: int| node_of(joints, i))
}

/// The parts `before` with one more section taken in. A joint definition section adds its
/// nodes, its roots and its identifiers; its joints keep the indices that they have in
/// their section. The other sections add their vertices and meshes, their matrices, or
/// the names of their textures.
pub open spec fn parts_with(before: PartsView, section: SectionView) -> Result<
    PartsView,
    ISM2ImportError,
> {
    match section {
        SectionView::ModelData(sub_sections) => Ok(
            PartsView { geometry: geometry_onto(before.geometry, sub_sections), ..before },
        ),
        SectionView::JointDefinition(sub_sections) => {
            let joints = joints_of(sub_sections);
            match missing_parent(joints, joints.len() as int) {
                Some(parent) => Err(ISM2ImportError::MissingParent(parent as u64)),
                None => Ok(
                    PartsView {
                        nodes: before.nodes + nodes_of(joints),
                        root_nodes: before.root_nodes + roots_among(joints, joints.len() as int),
                        linkage: linkage_onto(before.linkage, joints, joints.len() as int),
                        ..before
                    },
                ),
            }
        },
        SectionView::JointExtra(section) => Ok(
            PartsView { matrices: before.matrices + matrices_of(section), ..before },
        ),
        SectionView::TextureDefinition(textures) => Ok(
            PartsView { textures: before.textures + base_names(textures), ..before },
        ),
    }
}

/// The parts that the sections `sections` add up to, taken in order; or the error of the
/// first section that fails.
pub open spec fn parts_of(sections: Seq<SectionView>) -> Result<PartsView, ISM2ImportError>
    decreases sections.len(),
{
    if sections.len() == 0 {
        Ok(no_parts())
    } else {
        match parts_of(sections.drop_last()) {
            Err(e) => Err(e),
            Ok(before) => parts_with(before, sections.last()),
        }
    }
}

/// Once a section fails, so does the whole list, with that section's error.
pub proof fn lemma_parts_of_fails(sections: Seq<SectionView>, i: int)
    requires
        0 <= i <= sections.len(),
        parts_of(sections.take(i)) is Err,
    ensures
        parts_of(sections) == parts_of(sections.take(i)),
    decreases sections.len() - i,
{
    if i < sections.len() {
        assert(sections.take(i + 1).drop_last() == sections.take(i));
        lemma_parts_of_fails(sections, i + 1);
    } else {
        assert(sections.take(i) == sections);
    }
}

/// What the sections of a file hold, gathered by kind.
pub struct Parts {
    pub vertices: Vec<VertexGeometry>,
    pub vertices_rig: Vec<VertexRigging>,
    pub meshes: Vec<IMesh>,
    pub nodes: Vec<INode>,
    pub root_nodes: Vec<usize>,
    pub linkage: SkinLinkage,
    pub matrices: Vec<[u32; 16]>,
    pub textures: Vec<String>,
}

impl View for Parts {
    type V = PartsView;

    open spec fn view(&self) -> PartsView {
        PartsView {
            geometry: GeometryView {
                vertices: self.vertices@,
                rigging: self.vertices_rig@,
                meshes: views(self.meshes@),
            },
            nodes: views(self.nodes@),
            root_nodes: self.root_nodes@,
            linkage: self.linkage@,
            matrices: views(self.matrices@),
            textures: views(self.textures@),
        }
    }
}

/// All faces of the children of `mesh`.
pub fn faces_of_mesh(mesh: &Mesh) -> (faces: IMesh)
    ensures
        faces@ == faces_in(mesh@.sub_sections),
{
    let ghost subs = views(mesh.sub_sections@);
    let mut i_faces: Vec<Face> = Vec::new();
    let mut i: usize = 0;
    proof {
        assert(subs.take(0) =~= Seq::<MeshSubSectionView>::empty());
    }
    while i < mesh.sub_sections.len()
        invariant
            i <= mesh.sub_sections.len(),
            subs == views(mesh.sub_sections@),
            i_faces@ == faces_in(subs.take(i as int)),
        decreases mesh.sub_sections.len() - i,
    {
        proof {
            assert(subs.take(i + 1).drop_last() == subs.take(i as int));
            assert(subs.take(i + 1).last() == mesh.sub_sections@[i as int]@);
        }
        match &mesh.sub_sections[i] {
            MeshSubSection::Faces(faces) => {
                append_copies(&mut i_faces, &faces.faces);
            },
            MeshSubSection::Unnamed6E => {
                assert(i_faces@ + Seq::<Face>::empty() =~= i_faces@);
            },
        }
        i = i + 1;
    }
    proof {
        assert(subs.take(i as int) == subs);
    }
    IMesh { faces: i_faces }
}

/// Puts the matrices of the buffers of `group` behind those of `all`.
fn add_matrices_of_group(all: &mut Vec<[u32; 16]>, group: &Unnamed30)
    ensures
        views(final(all)@) == views(old(all)@) + matrices_of_buffers(group@.sub_sections),
{
    let ghost before = all@;
    let ghost buffers = views(group.sub_sections@);
    let mut i: usize = 0;
    proof {
        assert(buffers.take(0) =~= Seq::<BufferDataView>::empty());
        assert(views(before) + Seq::<Seq<u32>>::empty() =~= views(before));
    }
    while i < group.sub_sections.len()
        invariant
            i <= group.sub_sections.len(),
            buffers == views(group.sub_sections@),
            views(all@) == views(before) + matrices_of_buffers(buffers.take(i as int)),
        decreases group.sub_sections.len() - i,
    {
        proof {
            assert(buffers.take(i + 1).drop_last() == buffers.take(i as int));
            assert(buffers.take(i + 1).last() == group.sub_sections@[i as int]@);
        }
        let ghost was = all@;
        match &group.sub_sections[i].data {
            BufferData::InverseBindMatrices(matrices) => {
                append_copies(all, matrices);
                proof {
                    lemma_views_add(was, matrices@);
                    assert(views(all@) =~= views(before) + (matrices_of_buffers(
                        buffers.take(i as int),
                    ) + views(matrices@)));
                }
            },
            BufferData::BoneNames(_) => {
                assert(views(all@) =~= views(before) + (matrices_of_buffers(
                    buffers.take(i as int),
                ) + Seq::<Seq<u32>>::empty()));
            },
        }
        i = i + 1;
    }
    proof {
        assert(buffers.take(i as int) == buffers);
    }
}

/// All inverse bind matrices of `section`, in file order.
pub fn matrices_of_section(section: &JointExtra) -> (matrices: Vec<[u32; 16]>)
    ensures
        views(matrices@) == matrices_of(section@),
{
    let ghost named = views(section.sub_sections@);
    let mut matrices: Vec<[u32; 16]> = Vec::new();
    let mut i: usize = 0;
    proof {
        assert(named.take(0) =~= Seq::<Unnamed31View>::empty());
        assert(views(matrices@) =~= Seq::<Seq<u32>>::empty());
    }
    while i < section.sub_sections.len()
        invariant
            i <= section.sub_sections.len(),
            named == views(section.sub_sections@),
            views(matrices@) == matrices_of(named.take(i as int)),
        decreases section.sub_sections.len() - i,
    {
        proof {
            assert(named.take(i + 1).drop_last() == named.take(i as int));
            assert(named.take(i + 1).last() == section.sub_sections@[i as int]@);
        }
        let s1: &Unnamed31 = &section.sub_sections[i];
        let ghost groups = views(s1.sub_sections@);
        let ghost outer = views(matrices@);
        let mut k: usize = 0;
        proof {
            assert(groups.take(0) =~= Seq::<Unnamed30View>::empty());
            assert(outer + Seq::<Seq<u32>>::empty() =~= outer);
        }
        while k < s1.sub_sections.len()
            invariant
                k <= s1.sub_sections.len(),
                groups == views(s1.sub_sections@),
                views(matrices@) == outer + matrices_of_groups(groups.take(k as int)),
            decreases s1.sub_sections.len() - k,
        {
            proof {
                assert(groups.take(k + 1).drop_last() == groups.take(k as int));
                assert(groups.take(k + 1).last() == s1.sub_sections@[k as int]@);
            }
            add_matrices_of_group(&mut matrices, &s1.sub_sections[k]);
            proof {
                assert(views(matrices@) =~= outer + (matrices_of_groups(groups.take(k as int))
                    + matrices_of_buffers(s1.sub_sections@[k as int]@.sub_sections)));
            }
            k = k + 1;
        }
        proof {
            assert(groups.take(k as int) == groups);
        }
        i = i + 1;
    }
    proof {
        assert(named.take(i as int) == named);
    }
    matrices
}

impl Parts {
    /// Takes the children of a geometry group in.
    fn add_geometry(&mut self, section: &ModelData)
        ensures
            final(self)@ == (PartsView {
                geometry: geometry_onto(old(self)@.geometry, section@),
                ..old(self)@
            }),
    {
        let ghost base = self@;
        let ghost subs = views(section.zero_a.sub_sections@);
        let mut i: usize = 0;
        proof {
            assert(subs.take(0) =~= Seq::<SubSectionView>::empty());
        }
        while i < section.zero_a.sub_sections.len()
            invariant
                i <= section.zero_a.sub_sections.len(),
                subs == views(section.zero_a.sub_sections@),
                self@ == (PartsView {
                    geometry: geometry_onto(base.geometry, subs.take(i as int)),
                    ..base
                }),
            decreases section.zero_a.sub_sections.len() - i,
        {
            proof {
                assert(subs.take(i + 1).drop_last() == subs.take(i as int));
                assert(subs.take(i + 1).last() == section.zero_a.sub_sections@[i as int]@);
            }
            let ghost was = self@.geometry;
            match &section.zero_a.sub_sections[i] {
                SubSection::Vertices(vertices) => match &vertices.buffer {
                    VerticesDataBuffer::Geometry(g) => {
                        append_copies(&mut self.vertices, &g.vertices);
                        assert(self.vertices_rig@ + Seq::<VertexRigging>::empty()
                            =~= self.vertices_rig@);
                    },
                    VerticesDataBuffer::Rigging(r) => {
                        append_copies(&mut self.vertices_rig, &r.vertices);
                        assert(self.vertices@ + Seq::<VertexGeometry>::empty() =~= self.vertices@);
                    },
                },
                SubSection::Mesh(mesh) => {
                    let faces: IMesh = faces_of_mesh(mesh);
                    proof {
                        lemma_views_push(self.meshes@, faces);
                        assert(was.meshes + seq![faces@] =~= was.meshes.push(faces@));
                    }
                    self.meshes.push(faces);
                    assert(self.vertices@ + Seq::<VertexGeometry>::empty() =~= self.vertices@);
                    assert(self.vertices_rig@ + Seq::<VertexRigging>::empty()
                        =~= self.vertices_rig@);
                },
                SubSection::Unnamed6E => {
                    assert(self.vertices@ + Seq::<VertexGeometry>::empty() =~= self.vertices@);
                    assert(self.vertices_rig@ + Seq::<VertexRigging>::empty()
                        =~= self.vertices_rig@);
                },
            }
            proof {
                assert(was.meshes + Seq::<Seq<Face>>::empty() =~= was.meshes);
            }
            i = i + 1;
        }
        proof {
            assert(subs.take(i as int) == subs);
        }
    }

    /// Takes the joints of a joint definition section in.
    fn add_joints(&mut self, section: &JointDefinition) -> (done: Result<(), ISM2ImportError>)
        ensures
            match done {
                Ok(_) => parts_with(old(self)@, SectionView::JointDefinition(section@)) == Ok::<
                    PartsView,
                    ISM2ImportError,
                >(final(self)@),
                Err(e) => parts_with(old(self)@, SectionView::JointDefinition(section@)) == Err::<
                    PartsView,
                    ISM2ImportError,
                >(e),
            },
    {
        let ghost models = joints_of(section@);
        let mut skeleton: Skeleton = Skeleton::build(section)?;
        let joints: Vec<&Joint> = joints_in(section);
        proof {
            lemma_views_add(self.nodes@, skeleton.nodes@);
            assert(views(skeleton.nodes@) =~= nodes_of(models));
        }
        self.nodes.append(&mut skeleton.nodes);
        self.root_nodes.append(&mut skeleton.root_nodes);
        self.linkage.extend(&joints);
        Ok(())
    }

    /// Takes the base names of the textures of a texture definition section in.
    fn add_textures(&mut self, section: &TextureDefinition)
        ensures
            final(self)@ == (PartsView {
                textures: old(self)@.textures + base_names(section@),
                ..old(self)@
            }),
    {
        let ghost base = self@;
        let ghost textures = views(section.sub_sections@);
        let mut i: usize = 0;
        proof {
            assert(base.textures + base_names(textures.take(0)) =~= base.textures);
        }
        while i < section.sub_sections.len()
            invariant
                i <= section.sub_sections.len(),
                textures == views(section.sub_sections@),
                self@ == (PartsView {
                    textures: base.textures + base_names(textures.take(i as int)),
                    ..base
                }),
            decreases section.sub_sections.len() - i,
        {
            let name: String = section.sub_sections[i].base_name.clone();
            proof {
                lemma_views_push(self.textures@, name);
                assert(textures[i as int] == section.sub_sections@[i as int]@);
                assert((base.textures + base_names(textures.take(i as int))).push(name@)
                    =~= base.textures + base_names(textures.take(i + 1)));
            }
            self.textures.push(name);
            i = i + 1;
        }
        proof {
            assert(textures.take(i as int) == textures);
        }
    }

    /// Gathers what the sections of `file` hold.
    pub fn gather(file: &ISM2) -> (result: Result<Parts, ISM2ImportError>)
        ensures
            yields(result, parts_of(file@.sections)),
    {
        let ghost sections = views(file.sections@);
        let mut parts = Parts {
            vertices: Vec::new(),
            vertices_rig: Vec::new(),
            meshes: Vec::new(),
            nodes: Vec::new(),
            root_nodes: Vec::new(),
            linkage: SkinLinkage::new(),
            matrices: Vec::new(),
            textures: Vec::new(),
        };
        let mut i: usize = 0;
        proof {
            assert(sections.take(0) =~= Seq::<SectionView>::empty());
            assert(parts@.geometry.meshes =~= Seq::<Seq<Face>>::empty());
            assert(parts@.nodes =~= Seq::<INodeView>::empty());
            assert(parts@.matrices =~= Seq::<Seq<u32>>::empty());
            assert(parts@.textures =~= Seq::<Seq<char>>::empty());
        }
        while i < file.sections.len()
            invariant
                i <= file.sections.len(),
                sections == views(file.sections@),
                parts_of(sections.take(i as int)) == Ok::<PartsView, ISM2ImportError>(parts@),
            decreases file.sections.len() - i,
        {
            proof {
                assert(sections.take(i + 1).drop_last() == sections.take(i as int));
                assert(sections.take(i + 1).last() == file.sections@[i as int]@);
            }
            match &file.sections[i] {
                Section::ModelData(model_data) => {
                    parts.add_geometry(model_data);
                },
                Section::JointDefinition(joint_definition) => {
                    match parts.add_joints(joint_definition) {
                        Ok(_) => {},
                        Err(e) => {
                            proof {
                                lemma_parts_of_fails(sections, i + 1);
                            }
                            return Err(e);
                        },
                    }
                },
                Section::JointExtra(je) => {
                    let found: Vec<[u32; 16]> = matrices_of_section(je);
                    proof {
                        lemma_views_add(parts.matrices@, found@);
                    }
                    append_copies(&mut parts.matrices, &found);
                },
                Section::TextureDefinition(td) => {
                    parts.add_textures(td);
                },
            }
            i = i + 1;
        }
        proof {
            assert(sections.take(i as int) == sections);
        }
        Ok(parts)
    }
}

/// The name that marks the root of the armature.
pub open spec fn root_name() -> Seq<char> {
    "root"@
}

/// The index of the last of the first `upto` nodes that is named `root`, if there is one.
pub open spec fn root_among(nodes: Seq<INodeView>, upto: int) -> Option<usize>
    decreases upto,
{
    if upto <= 0 {
        None
    } else if nodes[upto - 1].name == root_name() {
        Some((upto - 1) as usize)
    } else {
        root_among(nodes, upto - 1)
    }
}

/// The index of the last node that is named `root`.
pub fn find_root(nodes: &Vec<INode>) -> (root_node_id: Option<usize>)
    ensures
        root_node_id == root_among(views(nodes@), nodes@.len() as int),
{
    let name: String = String::from_str("root");
    let mut root_node_id: Option<usize> = None;
    let mut i: usize = 0;
    while i < nodes.len()
        invariant
            i <= nodes.len(),
            name@ == root_name(),
            root_node_id == root_among(views(nodes@), i as int),
        decreases nodes.len() - i,
    {
        assert(views(nodes@)[i as int] == nodes@[i as int]@);
        if nodes[i].name == name {
            root_node_id = Some(i);
        }
        i = i + 1;
    }
    root_node_id
}

/// How the nodes of a scene are numbered: the joints come first, each under its index,
/// then one node for each mesh, then the node that groups them all.
#[derive(Clone, Debug)]
pub struct SceneLayout {
    /// The nodes of the meshes, in the order of the meshes.
    pub mesh_nodes: Vec<usize>,
    /// The grouping node.
    pub top_node: usize,
    /// The children of the grouping node: the root of the armature, where there is one,
    /// then the nodes of the meshes.
    pub top_children: Vec<usize>,
    /// The nodes that the skin names as its joints: all joints where there is a skin.
    pub skin_joints: Vec<usize>,
    /// Whether there is a skin, which the nodes of the meshes then refer to.
    pub skinned: bool,
}

/// Model of a [`SceneLayout`].
pub ghost struct SceneLayoutView {
    pub mesh_nodes: Seq<usize>,
    pub top_node: usize,
    pub top_children: Seq<usize>,
    pub skin_joints: Seq<usize>,
    pub skinned: bool,
}

impl View for SceneLayout {
    type V = SceneLayoutView;

    open spec fn view(&self) -> SceneLayoutView {
        SceneLayoutView {
            mesh_nodes: self.mesh_nodes@,
            top_node: self.top_node,
            top_children: self.top_children@,
            skin_joints: self.skin_joints@,
            skinned: self.skinned,
        }
    }
}

/// The numbering of a scene with `joint_count` joints and `mesh_count` meshes, whose
/// armature has the root `root` and which has a skin if `skinned`.
pub open spec fn layout_of(joint_count: nat, mesh_count: nat, root: Option<usize>, skinned: bool) -> SceneLayoutView {
    let mesh_nodes = Seq::new(mesh_count, |k: int| (joint_count + k) as usize);
    SceneLayoutView {
        mesh_nodes,
        top_node: (joint_count + mesh_count) as usize,
        top_children: match root {
            Some(id) => seq![id] + mesh_nodes,
            None => mesh_nodes,
        },
        skin_joints: if skinned {
            Seq::new(joint_count, |i: int| i as usize)
        } else {
            Seq::empty()
        },
        skinned,
    }
}

impl SceneLayout {
    /// Numbers the nodes of a scene. There is no numbering where the nodes are more than
    /// a machine word can count.
    pub fn plan(joint_count: usize, mesh_count: usize, root: Option<usize>, skinned: bool) -> (layout:
        Option<SceneLayout>)
        ensures
            joint_count + mesh_count > usize::MAX ==> layout is None,
            joint_count + mesh_count <= usize::MAX ==> layout is Some && layout.unwrap()@
                == layout_of(joint_count as nat, mesh_count as nat, root, skinned),
    {
        if mesh_count > usize::MAX - joint_count {
            return None;
        }
        let mut mesh_nodes: Vec<usize> = Vec::new();
        let mut top_children: Vec<usize> = Vec::new();
        match root {
            Some(id) => top_children.push(id),
            None => {},
        }
        let ghost head = top_children@;
        let mut k: usize = 0;
        assert(top_children@ =~= head + mesh_nodes@);
        while k < mesh_count
            invariant
                k <= mesh_count,
                joint_count + mesh_count <= usize::MAX,
                mesh_nodes@ == Seq::new(k as nat, |j: int| (joint_count + j) as usize),
                top_children@ == head + mesh_nodes@,
            decreases mesh_count - k,
        {
            mesh_nodes.push(joint_count + k);
            top_children.push(joint_count + k);
            k = k + 1;
            assert(mesh_nodes@ =~= Seq::new(k as nat, |j: int| (joint_count + j) as usize));
            assert(top_children@ =~= head + mesh_nodes@);
        }
        let mut skin_joints: Vec<usize> = Vec::new();
        if skinned {
            let mut i: usize = 0;
            while i < joint_count
                invariant
                    i <= joint_count,
                    skin_joints@ == Seq::new(i as nat, |j: int| j as usize),
                decreases joint_count - i,
            {
                skin_joints.push(i);
                i = i + 1;
                assert(skin_joints@ =~= Seq::new(i as nat, |j: int| j as usize));
            }
        }
        proof {
            assert(root is None ==> head =~= Seq::<usize>::empty());
            assert(root is None ==> top_children@ =~= mesh_nodes@);
            assert(root is Some ==> head =~= seq![root.unwrap()]);
        }
        Some(
            SceneLayout {
                mesh_nodes,
                top_node: joint_count + mesh_count,
                top_children,
                skin_joints,
                skinned,
            },
        )
    }
}

/// The model of a file as one scene.
pub struct Scene {
    /// The vertices of all geometry buffers, in file order.
    pub vertices: Vec<VertexGeometry>,
    /// The rigging of the vertices, its joints named by their indices.
    pub vertices_rig: Vec<VertexRigging>,
    /// The meshes, in file order.
    pub meshes: Vec<IMesh>,
    /// One node for each joint.
    pub nodes: Vec<INode>,
    /// The joints without a parent.
    pub root_nodes: Vec<usize>,
    /// The inverse bind matrix of each joint, at the joint's index.
    pub joints: Vec<[u32; 16]>,
    /// The base names of the textures.
    pub textures: Vec<String>,
    /// The bounds of the positions, where there is a vertex.
    pub position_extremes: Option<IVerticesExtremes>,
    /// The root of the armature, where a joint is named so.
    pub root_node_id: Option<usize>,
}

/// Model of a [`Scene`].
pub ghost struct SceneView {
    pub vertices: Seq<VertexGeometry>,
    pub vertices_rig: Seq<VertexRigging>,
    pub meshes: Seq<Seq<Face>>,
    pub nodes: Seq<INodeView>,
    pub root_nodes: Seq<usize>,
    pub joints: Seq<Seq<u32>>,
    pub textures: Seq<Seq<char>>,
    pub position_extremes: Option<IVerticesExtremes>,
    pub root_node_id: Option<usize>,
}

impl View for Scene {
    type V = SceneView;

    open spec fn view(&self) -> SceneView {
        SceneView {
            vertices: self.vertices@,
            vertices_rig: self.vertices_rig@,
            meshes: views(self.meshes@),
            nodes: views(self.nodes@),
            root_nodes: self.root_nodes@,
            joints: views(self.joints@),
            textures: views(self.textures@),
            position_extremes: self.position_extremes,
            root_node_id: self.root_node_id,
        }
    }
}

/// The scene of a file: its parts, with the inverse bind matrices placed by joint, the
/// rigging brought over to joint indices, the bounds of the positions measured and the
/// root of the armature found. Of the errors, that of the parts comes first, then that of
/// the matrices, then that of the rigging.
pub open spec fn scene_of(file: ISM2View) -> Result<SceneView, ISM2ImportError> {
    match parts_of(file.sections) {
        Err(e) => Err(e),
        Ok(parts) => match placed(parts.linkage, parts.matrices, parts.matrices.len() as int) {
            Err(e) => Err(e),
            Ok(joints) => match remapped_all(parts.linkage, parts.geometry.rigging) {
                Err(e) => Err(e),
                Ok(vertices_rig) => Ok(
                    SceneView {
                        vertices: parts.geometry.vertices,
                        vertices_rig,
                        meshes: parts.geometry.meshes,
                        nodes: parts.nodes,
                        root_nodes: parts.root_nodes,
                        joints,
                        textures: parts.textures,
                        position_extremes: if parts.geometry.vertices.len() == 0 {
                            None
                        } else {
                            Some(IVerticesExtremes::of(parts.geometry.vertices))
                        },
                        root_node_id: root_among(parts.nodes, parts.nodes.len() as int),
                    },
                ),
            },
        },
    }
}

impl Scene {
    /// Lays the sections of `file` out as one scene.
    pub fn assemble(file: &ISM2) -> (result: Result<Scene, ISM2ImportError>)
        ensures
            yields(result, scene_of(file@)),
    {
        let parts: Parts = Parts::gather(file)?;
        let position_extremes: Option<IVerticesExtremes> = IVerticesExtremes::measure(
            &parts.vertices,
        );
        let joints: Vec<[u32; 16]> = parts.linkage.place(&parts.matrices)?;
        let vertices_rig: Vec<VertexRigging> = parts.linkage.remap_all(&parts.vertices_rig)?;
        let root_node_id: Option<usize> = find_root(&parts.nodes);
        Ok(
            Scene {
                vertices: parts.vertices,
                vertices_rig,
                meshes: parts.meshes,
                nodes: parts.nodes,
                root_nodes: parts.root_nodes,
                joints,
                textures: parts.textures,
                position_extremes,
                root_node_id,
            },
        )
    }

    /// Numbers the nodes of the scene.
    pub fn layout(&self) -> (layout: Option<SceneLayout>)
        ensures
            self.nodes@.len() + self.meshes@.len() > usize::MAX ==> layout is None,
            self.nodes@.len() + self.meshes@.len() <= usize::MAX ==> layout is Some
                && layout.unwrap()@ == layout_of(
                self.nodes@.len(),
                self.meshes@.len(),
                self.root_node_id,
                self.joints@.len() > 0,
            ),
    {
        SceneLayout::plan(
            self.nodes.len(),
            self.meshes.len(),
            self.root_node_id,
            self.joints.len() > 0,
        )
    }
}

/// Laying a file out as a scene is determined by the file: any two outcomes for files
/// with the same model are the same error, or scenes with the same model.
pub proof fn lemma_scene_is_deterministic(
    file: ISM2View,
    first: Result<Scene, ISM2ImportError>,
    second: Result<Scene, ISM2ImportError>,
)
    requires
        yields(first, scene_of(file)),
        yields(second, scene_of(file)),
    ensures
        match (first, second) {
            (Ok(a), Ok(b)) => a@ == b@,
            (Err(e), Err(f)) => e == f,
            _ => false,
        },
{
}

} // verus!
