//! Skin data: the table that maps the identifiers found in the file to joint indices, the
//! rigging of the vertices brought over to joint indices, and the inverse bind matrices
//! brought into the order and the places in which a skin wants them.

use std::collections::HashMap;
use vstd::prelude::*;
use crate::error::{ISM2ImportError, views};
use crate::joint_definition::{Joint, JointView};
use crate::model_data::VertexRigging;

verus! {

/// Maps the identifier that a joint carries in the file to the index of the joint.
pub struct SkinLinkage {
    map: HashMap<u32, usize>,
}

impl View for SkinLinkage {
    type V = Map<u32, usize>;

    closed spec fn view(&self) -> Map<u32, usize> {
        self.map@
    }
}

/// The table `base` after the first `upto` joints were entered: each joint's identifier
/// maps to its index, in place of what it mapped to before.
pub open spec fn linkage_onto(base: Map<u32, usize>, joints: Seq<JointView>, upto: int) -> Map<
    u32,
    usize,
>
    decreases upto,
{
    if upto <= 0 {
        base
    } else {
        linkage_onto(base, joints, upto - 1).insert(
            joints[upto - 1].in_vertex_id,
            (upto - 1) as usize,
        )
    }
}

/// The joint index for `id`, or the error of an identifier that the table does not hold.
pub open spec fn linked(linkage: Map<u32, usize>, id: u32) -> Result<usize, ISM2ImportError> {
    if linkage.contains_key(id) {
        Ok(linkage[id])
    } else {
        Err(ISM2ImportError::SkinLinkageMiss(id))
    }
}

/// The byte that a joint index is stored as: the index itself where it fits in a byte,
/// its low eight bits otherwise.
pub open spec fn as_byte(index: usize) -> u8 {
    (index % 256) as u8
}

/// The four joint identifiers of a rigging record, brought over to joint indices stored
/// as bytes. The first identifier that the table does not hold is the error.
pub open spec fn remapped_joints(linkage: Map<u32, usize>, joints: (u8, u8, u8, u8)) -> Result<
    (u8, u8, u8, u8),
    ISM2ImportError,
> {
    match linked(linkage, joints.0 as u32) {
        Err(e) => Err(e),
        Ok(a) => match linked(linkage, joints.1 as u32) {
            Err(e) => Err(e),
            Ok(b) => match linked(linkage, joints.2 as u32) {
                Err(e) => Err(e),
                Ok(c) => match linked(linkage, joints.3 as u32) {
                    Err(e) => Err(e),
                    Ok(d) => Ok((as_byte(a), as_byte(b), as_byte(c), as_byte(d))),
                },
            },
        },
    }
}

/// A rigging record with its joint identifiers brought over to joint indices; the weights
/// stay.
pub open spec fn remapped(linkage: Map<u32, usize>, vertex: VertexRigging) -> Result<
    VertexRigging,
    ISM2ImportError,
> {
    match remapped_joints(linkage, vertex.joints) {
        Err(e) => Err(e),
        Ok(joints) => Ok(VertexRigging { joints, weights: vertex.weights }),
    }
}

/// The records of `vertices` brought over, in order; or the error of the first record
/// that fails.
pub open spec fn remapped_all(linkage: Map<u32, usize>, vertices: Seq<VertexRigging>) -> Result<
    Seq<VertexRigging>,
    ISM2ImportError,
>
    decreases vertices.len(),
{
    if vertices.len() == 0 {
        Ok(Seq::empty())
    } else {
        match remapped_all(linkage, vertices.drop_last()) {
            Err(e) => Err(e),
            Ok(before) => match remapped(linkage, vertices.last()) {
                Err(e) => Err(e),
                Ok(vertex) => Ok(before.push(vertex)),
            },
        }
    }
}

/// Once a record fails, so does the whole list, with that record's error.
pub proof fn lemma_remapped_all_fails(
    linkage: Map<u32, usize>,
    vertices: Seq<VertexRigging>,
    i: int,
)
    requires
        0 <= i <= vertices.len(),
        remapped_all(linkage, vertices.take(i)) is Err,
    ensures
        remapped_all(linkage, vertices) == remapped_all(linkage, vertices.take(i)),
    decreases vertices.len() - i,
{
    if i < vertices.len() {
        assert(vertices.take(i + 1).drop_last() == vertices.take(i));
        lemma_remapped_all_fails(linkage, vertices, i + 1);
    } else {
        assert(vertices.take(i) == vertices);
    }
}

/// A rigging record that names an identifier which the table maps to an index below 256
/// comes out with that index in the place of the identifier, wherever among the four the
/// identifier stands; one that names an identifier which the table does not hold fails.
pub proof fn lemma_remap_follows_linkage(linkage: Map<u32, usize>, vertex: VertexRigging)
    ensures
        remapped(linkage, vertex) is Ok <==> (linkage.contains_key(vertex.joints.0 as u32)
            && linkage.contains_key(vertex.joints.1 as u32) && linkage.contains_key(
            vertex.joints.2 as u32,
        ) && linkage.contains_key(vertex.joints.3 as u32)),
        remapped(linkage, vertex) is Err ==> exists|id: u32|
            !linkage.contains_key(id) && remapped(linkage, vertex) == Err::<
                VertexRigging,
                ISM2ImportError,
            >(ISM2ImportError::SkinLinkageMiss(id)),
        remapped(linkage, vertex) is Ok ==> {
            let out = remapped(linkage, vertex).unwrap();
            &&& out.weights == vertex.weights
            &&& linkage[vertex.joints.0 as u32] < 256 ==> out.joints.0
                == linkage[vertex.joints.0 as u32]
            &&& linkage[vertex.joints.1 as u32] < 256 ==> out.joints.1
                == linkage[vertex.joints.1 as u32]
            &&& linkage[vertex.joints.2 as u32] < 256 ==> out.joints.2
                == linkage[vertex.joints.2 as u32]
            &&& linkage[vertex.joints.3 as u32] < 256 ==> out.joints.3
                == linkage[vertex.joints.3 as u32]
        },
{
    if !linkage.contains_key(vertex.joints.0 as u32) {
        assert(remapped(linkage, vertex) == Err::<VertexRigging, ISM2ImportError>(
            ISM2ImportError::SkinLinkageMiss(vertex.joints.0 as u32),
        ));
    } else if !linkage.contains_key(vertex.joints.1 as u32) {
        assert(remapped(linkage, vertex) == Err::<VertexRigging, ISM2ImportError>(
            ISM2ImportError::SkinLinkageMiss(vertex.joints.1 as u32),
        ));
    } else if !linkage.contains_key(vertex.joints.2 as u32) {
        assert(remapped(linkage, vertex) == Err::<VertexRigging, ISM2ImportError>(
            ISM2ImportError::SkinLinkageMiss(vertex.joints.2 as u32),
        ));
    } else if !linkage.contains_key(vertex.joints.3 as u32) {
        assert(remapped(linkage, vertex) == Err::<VertexRigging, ISM2ImportError>(
            ISM2ImportError::SkinLinkageMiss(vertex.joints.3 as u32),
        ));
    }
}

impl SkinLinkage {
    /// The empty table.
    pub fn new() -> (linkage: SkinLinkage)
        ensures
            linkage@ == Map::<u32, usize>::empty(),
    {
        SkinLinkage { map: HashMap::new() }
    }

    /// Lets `id` map to `index`, in place of what it mapped to before.
    pub fn insert(&mut self, id: u32, index: usize)
        ensures
            final(self)@ == old(self)@.insert(id, index),
    {
        self.map.insert(id, index);
    }

    /// The joint index for `id`.
    pub fn get(&self, id: u32) -> (index: Result<usize, ISM2ImportError>)
        ensures
            index == linked(self@, id),
    {
        match self.map.get(&id) {
            Some(index) => Ok(*index),
            None => Err(ISM2ImportError::SkinLinkageMiss(id)),
        }
    }

    /// Enters `joints`, which stand in the order of their indices.
    pub fn extend(&mut self, joints: &Vec<&Joint>)
        ensures
            final(self)@ == linkage_onto(old(self)@, views(joints@), joints@.len() as int),
    {
        let ghost base = self@;
        let mut id: usize = 0;
        while id < joints.len()
            invariant
                id <= joints.len(),
                self@ == linkage_onto(base, views(joints@), id as int),
            decreases joints.len() - id,
        {
            assert(views(joints@)[id as int] == joints@[id as int]@);
            self.insert(joints[id].in_vertex_id, id);
            id = id + 1;
        }
    }

    /// Brings the four joint identifiers of a rigging record over to joint indices.
    pub fn remap(&self, vertex: &VertexRigging) -> (result: Result<VertexRigging, ISM2ImportError>)
        ensures
            result == remapped(self@, *vertex),
    {
        let a: usize = self.get(vertex.joints.0 as u32)?;
        let b: usize = self.get(vertex.joints.1 as u32)?;
        let c: usize = self.get(vertex.joints.2 as u32)?;
        let d: usize = self.get(vertex.joints.3 as u32)?;
        Ok(
            VertexRigging {
                joints: ((a % 256) as u8, (b % 256) as u8, (c % 256) as u8, (d % 256) as u8),
                weights: vertex.weights,
            },
        )
    }

    /// Brings the rigging of all vertices over to joint indices.
    pub fn remap_all(&self, vertices: &Vec<VertexRigging>) -> (result: Result<
        Vec<VertexRigging>,
        ISM2ImportError,
    >)
        ensures
            match result {
                Ok(out) => remapped_all(self@, vertices@) == Ok::<
                    Seq<VertexRigging>,
                    ISM2ImportError,
                >(out@),
                Err(e) => remapped_all(self@, vertices@) == Err::<
                    Seq<VertexRigging>,
                    ISM2ImportError,
                >(e),
            },
    {
        let mut out: Vec<VertexRigging> = Vec::new();
        let mut i: usize = 0;
        proof {
            assert(vertices@.take(0) =~= Seq::<VertexRigging>::empty());
        }
        while i < vertices.len()
            invariant
                i <= vertices.len(),
                remapped_all(self@, vertices@.take(i as int)) == Ok::<
                    Seq<VertexRigging>,
                    ISM2ImportError,
                >(out@),
            decreases vertices.len() - i,
        {
            proof {
                assert(vertices@.take(i + 1).drop_last() == vertices@.take(i as int));
            }
            match self.remap(&vertices[i]) {
                Err(e) => {
                    proof {
                        lemma_remapped_all_fails(self@, vertices@, i + 1);
                    }
                    return Err(e);
                },
                Ok(vertex) => {
                    out.push(vertex);
                },
            }
            i = i + 1;
        }
        proof {
            assert(vertices@.take(i as int) == vertices@);
        }
        Ok(out)
    }
}

/// The place in a matrix as the file stores it from which place `k` of the matrix as a
/// skin wants it is taken.
pub open spec fn source_place(k: int) -> int {
    if k == 0 {
        0
    } else if k == 1 {
        4
    } else if k == 2 {
        8
    } else if k == 3 {
        12
    } else if k == 4 {
        1
    } else if k == 5 {
        5
    } else if k == 6 {
        9
    } else if k == 7 {
        13
    } else if k == 8 {
        2
    } else if k == 9 {
        6
    } else if k == 10 {
        10
    } else if k == 11 {
        14
    } else if k == 12 {
        3
    } else if k == 13 {
        7
    } else if k == 14 {
        11
    } else {
        15
    }
}

/// The sixteen elements of `matrix` in the order in which a skin wants them.
pub open spec fn permuted(matrix: Seq<u32>) -> Seq<u32> {
    Seq::new(16, |k: int| matrix[source_place(k)])
}

/// Brings the sixteen elements of `matrix` into the order in which a skin wants them.
pub fn permute(matrix: &[u32; 16]) -> (out: [u32; 16])
    ensures
        out@ == permuted(matrix@),
{
    let out: [u32; 16] = [
        matrix[0],
        matrix[4],
        matrix[8],
        matrix[12],
        matrix[1],
        matrix[5],
        matrix[9],
        matrix[13],
        matrix[2],
        matrix[6],
        matrix[10],
        matrix[14],
        matrix[3],
        matrix[7],
        matrix[11],
        matrix[15],
    ];
    assert(out@ =~= permuted(matrix@));
    out
}

/// Reordering a matrix twice gives the matrix back.
pub proof fn lemma_permuted_twice(matrix: Seq<u32>)
    requires
        matrix.len() == 16,
    ensures
        permuted(permuted(matrix)) == matrix,
{
    assert(permuted(permuted(matrix)) =~= matrix);
}

/// The matrix of sixteen zeros.
pub open spec fn zero_matrix() -> Seq<u32> {
    Seq::new(16, |k: int| 0u32)
}

/// The list `out` after `matrix` was written at `place`: in place of what stood there,
/// or behind as many zero matrices as it takes to reach the place.
pub open spec fn written(out: Seq<Seq<u32>>, place: int, matrix: Seq<u32>) -> Seq<Seq<u32>> {
    if place < out.len() {
        out.update(place, matrix)
    } else {
        (out + Seq::new((place - out.len()) as nat, |i: int| zero_matrix())).push(matrix)
    }
}

/// The key under which the table is asked for the joint of the matrix at place `i` of
/// the file: the place itself, as far as it fits in thirty-two bits.
pub open spec fn place_key(i: int) -> u32 {
    (i % 0x1_0000_0000) as u32
}

/// The first `upto` of `matrices` as a skin wants them: each reordered and written, one
/// after the other, at the index of the joint that the table gives for its place in the
/// file. A place that the table does not hold is an error; the first such place decides.
pub open spec fn placed(linkage: Map<u32, usize>, matrices: Seq<Seq<u32>>, upto: int) -> Result<
    Seq<Seq<u32>>,
    ISM2ImportError,
>
    decreases upto,
{
    if upto <= 0 {
        Ok(Seq::empty())
    } else {
        match placed(linkage, matrices, upto - 1) {
            Err(e) => Err(e),
            Ok(out) => match linked(linkage, place_key(upto - 1)) {
                Err(e) => Err(e),
                Ok(place) => Ok(written(out, place as int, permuted(matrices[upto - 1]))),
            },
        }
    }
}

/// Once a place fails, so does the whole list, with that place's error.
pub proof fn lemma_placed_fails(
    linkage: Map<u32, usize>,
    matrices: Seq<Seq<u32>>,
    failed: int,
    upto: int,
)
    requires
        failed <= upto,
        placed(linkage, matrices, failed) is Err,
    ensures
        placed(linkage, matrices, upto) == placed(linkage, matrices, failed),
    decreases upto - failed,
{
    if failed < upto {
        lemma_placed_fails(linkage, matrices, failed, upto - 1);
    }
}

impl SkinLinkage {
    /// Brings the inverse bind matrices, which stand in the order of the file, into the
    /// order and the places in which a skin wants them.
    pub fn place(&self, matrices: &Vec<[u32; 16]>) -> (result: Result<
        Vec<[u32; 16]>,
        ISM2ImportError,
    >)
        ensures
            match result {
                Ok(out) => placed(self@, views(matrices@), matrices@.len() as int) == Ok::<
                    Seq<Seq<u32>>,
                    ISM2ImportError,
                >(views(out@)),
                Err(e) => placed(self@, views(matrices@), matrices@.len() as int) == Err::<
                    Seq<Seq<u32>>,
                    ISM2ImportError,
                >(e),
            },
    {
        let ghost models = views(matrices@);
        let mut out: Vec<[u32; 16]> = Vec::new();
        let mut i: usize = 0;
        proof {
            assert(views(out@) =~= Seq::<Seq<u32>>::empty());
        }
        while i < matrices.len()
            invariant
                i <= matrices.len(),
                models == views(matrices@),
                placed(self@, models, i as int) == Ok::<Seq<Seq<u32>>, ISM2ImportError>(
                    views(out@),
                ),
            decreases matrices.len() - i,
        {
            let key: u32 = ((i as u64) % 0x1_0000_0000u64) as u32;
            assert(key == place_key(i as int));
            assert(models[i as int] == matrices@[i as int]@);
            let place: usize = match self.get(key) {
                Ok(place) => place,
                Err(e) => {
                    proof {
                        lemma_placed_fails(self@, models, i + 1, matrices@.len() as int);
                    }
                    return Err(e);
                },
            };
            let matrix: [u32; 16] = permute(&matrices[i]);
            let ghost before = views(out@);
            if place < out.len() {
                out.set(place, matrix);
                assert(views(out@) =~= before.update(place as int, matrix@));
            } else {
                let ghost start = out@.len();
                while out.len() < place
                    invariant
                        start <= out@.len() <= place,
                        views(out@) == before + Seq::new(
                            (out@.len() - start) as nat,
                            |k: int| zero_matrix(),
                        ),
                    decreases place - out.len(),
                {
                    let zeros: [u32; 16] = [0u32;16];
                    assert(zeros@ =~= zero_matrix());
                    let ghost was = out@;
                    out.push(zeros);
                    assert(views(out@) =~= before + Seq::new(
                        (out@.len() - start) as nat,
                        |k: int| zero_matrix(),
                    )) by {
                        assert(views(was.push(zeros)) =~= views(was).push(zeros@));
                    }
                }
                let ghost was = out@;
                out.push(matrix);
                assert(views(was.push(matrix)) =~= views(was).push(matrix@));
            }
            i = i + 1;
        }
        Ok(out)
    }
}

/// Where no two of the first `upto` joints carry the same identifier, the table maps the
/// identifier of each of them to its index.
pub proof fn lemma_linkage_maps_each_joint(
    base: Map<u32, usize>,
    joints: Seq<JointView>,
    upto: int,
)
    requires
        0 <= upto <= joints.len() <= usize::MAX,
        forall|i: int, j: int|
            0 <= i < j < upto ==> joints[i].in_vertex_id != joints[j].in_vertex_id,
    ensures
        forall|i: int|
            0 <= i < upto ==> linkage_onto(base, joints, upto).contains_key(
                (#[trigger] joints[i]).in_vertex_id,
            ) && linkage_onto(base, joints, upto)[joints[i].in_vertex_id] == i,
    decreases upto,
{
    if upto > 0 {
        lemma_linkage_maps_each_joint(base, joints, upto - 1);
    }
}

/// Where the table holds the places of the first `upto` matrices and gives no two of them
/// the same joint, the matrices are placed without error, and at the index of each joint
/// stands the matrix of its place, reordered.
pub proof fn lemma_placed_by_joint(
    linkage: Map<u32, usize>,
    matrices: Seq<Seq<u32>>,
    upto: int,
)
    requires
        0 <= upto <= matrices.len(),
        upto <= 0x1_0000_0000,
        forall|i: int| 0 <= i < upto ==> linkage.contains_key(#[trigger] place_key(i)),
        forall|i: int, j: int|
            0 <= i < j < upto ==> linkage[place_key(i)] != linkage[place_key(j)],
    ensures
        placed(linkage, matrices, upto) is Ok,
        forall|i: int|
            0 <= i < upto ==> linkage[#[trigger] place_key(i)] < placed(
                linkage,
                matrices,
                upto,
            ).unwrap().len() && placed(linkage, matrices, upto).unwrap()[linkage[place_key(
                i,
            )] as int] == permuted(matrices[i]),
    decreases upto,
{
    if upto > 0 {
        lemma_placed_by_joint(linkage, matrices, upto - 1);
        let before = placed(linkage, matrices, upto - 1).unwrap();
        let place = linkage[place_key(upto - 1)] as int;
        let now = written(before, place, permuted(matrices[upto - 1]));
        assert(placed(linkage, matrices, upto) == Ok::<Seq<Seq<u32>>, ISM2ImportError>(now));
        assert forall|i: int| 0 <= i < upto implies linkage[#[trigger] place_key(i)] < now.len()
            && now[linkage[place_key(i)] as int] == permuted(matrices[i]) by {
            if i < upto - 1 {
                assert(linkage[place_key(i)] != linkage[place_key(upto - 1)]);
                assert(before[linkage[place_key(i)] as int] == permuted(matrices[i]));
            }
        }
    }
}

} // verus!
