//! The joint extra section: for each skin, the names of its bones and their inverse bind
//! matrices.

use vstd::prelude::*;
use crate::error::{ISM2ImportError, views, yields, lemma_views_push, lemma_views_empty};
use crate::reader::{Reader, Chunk, in_bounds, le_u16, le_u32, le_u32_table, fixed_word,
    chunk_header, chunk_children, offset_table, decode_each, lemma_decode_each_step,
    lemma_decode_each_fails};
use crate::string_table::{string_at, lookup_string};

verus! {

/// What a terminal buffer carries.
#[derive(Clone, Debug)]
pub enum BufferData {
    /// Names of bones, taken from the string table.
    BoneNames(Vec<String>),
    /// Inverse bind matrices, each sixteen single-precision bit patterns in file order.
    InverseBindMatrices(Vec<[u32; 16]>),
}

/// A terminal buffer.
#[derive(Clone, Debug)]
pub struct Buffer {
    pub data: BufferData,
}

/// A group of buffers, with the matrix that its header carries (sixteen single-precision
/// bit patterns).
#[derive(Clone, Debug)]
pub struct Unnamed30 {
    pub identity_matrix: [u32; 16],
    pub sub_sections: Vec<Buffer>,
}

/// A named group.
#[derive(Clone, Debug)]
pub struct Unnamed31 {
    pub name1: String,
    pub name2: String,
    pub sub_sections: Vec<Unnamed30>,
}

/// The joint extra section: its named groups, in file order.
#[derive(Clone, Debug)]
pub struct JointExtra {
    pub sub_sections: Vec<Unnamed31>,
}

/// Model of a [`BufferData`] and of the [`Buffer`] that holds it.
pub ghost enum BufferDataView {
    BoneNames(Seq<Seq<char>>),
    InverseBindMatrices(Seq<Seq<u32>>),
}

/// Model of an [`Unnamed30`].
pub ghost struct Unnamed30View {
    pub identity_matrix: Seq<u32>,
    pub sub_sections: Seq<BufferDataView>,
}

/// Model of an [`Unnamed31`].
pub ghost struct Unnamed31View {
    pub name1: Seq<char>,
    pub name2: Seq<char>,
    pub sub_sections: Seq<Unnamed30View>,
}

impl View for BufferData {
    type V = BufferDataView;

    open spec fn view(&self) -> BufferDataView {
        match self {
            BufferData::BoneNames(names) => BufferDataView::BoneNames(views(names@)),
            BufferData::InverseBindMatrices(matrices) => BufferDataView::InverseBindMatrices(
                views(matrices@),
            ),
        }
    }
}

impl View for Buffer {
    type V = BufferDataView;

    open spec fn view(&self) -> BufferDataView {
        self.data@
    }
}

impl View for Unnamed30 {
    type V = Unnamed30View;

    open spec fn view(&self) -> Unnamed30View {
        Unnamed30View {
            identity_matrix: self.identity_matrix@,
            sub_sections: views(self.sub_sections@),
        }
    }
}

impl View for Unnamed31 {
    type V = Unnamed31View;

    open spec fn view(&self) -> Unnamed31View {
        Unnamed31View {
            name1: self.name1@,
            name2: self.name2@,
            sub_sections: views(self.sub_sections@),
        }
    }
}

impl View for JointExtra {
    type V = Seq<Unnamed31View>;

    open spec fn view(&self) -> Seq<Unnamed31View> {
        views(self.sub_sections@)
    }
}

/// The matrix whose sixteen words start at `at`, in file order.
pub open spec fn matrix_at(bytes: Seq<u8>, at: int) -> Seq<u32> {
    le_u32_table(bytes, at, 16)
}

/// The matrix at the absolute position `at`.
pub fn import_matrix(reader: &Reader, at: usize) -> (matrix: [u32; 16])
    requires
        in_bounds(reader.bytes(), at as int, 64),
    ensures
        matrix@ == matrix_at(reader.bytes(), at as int),
{
    let mut matrix: [u32; 16] = [0u32;16];
    let end: usize = reader.len();
    let mut i: usize = 0;
    while i < 16
        invariant
            i <= 16,
            at + 64 <= end,
            in_bounds(reader.bytes(), at as int, 64),
            forall|k: int| 0 <= k < i ==> matrix@[k] == le_u32(reader.bytes(), at + 4 * k),
        decreases 16 - i,
    {
        matrix.set(i, reader.le_u32_at(at + 4 * i));
        i = i + 1;
    }
    assert(matrix@ =~= matrix_at(reader.bytes(), at as int));
    matrix
}

/// The bone names that `count` 16-bit indices into the string table give, the indices
/// lying one behind the other from `at`. The first index that cannot be read, or that
/// names no string, is the error.
pub open spec fn bone_names(bytes: Seq<u8>, at: int, count: nat, strings: Seq<Seq<char>>) -> Result<
    Seq<Seq<char>>,
    ISM2ImportError,
>
    decreases count,
{
    if count == 0 {
        Ok(Seq::empty())
    } else {
        match bone_names(bytes, at, (count - 1) as nat, strings) {
            Err(e) => Err(e),
            Ok(names) => if !in_bounds(bytes, at + 2 * (count - 1), 2) {
                Err(ISM2ImportError::IO)
            } else {
                match string_at(strings, le_u16(bytes, at + 2 * (count - 1)) as u32) {
                    Err(e) => Err(e),
                    Ok(name) => Ok(names.push(name)),
                }
            },
        }
    }
}

/// Once the list of bone names fails at some length, it fails at every greater one, with
/// the same error.
pub proof fn lemma_bone_names_fails(
    bytes: Seq<u8>,
    at: int,
    failed: nat,
    count: nat,
    strings: Seq<Seq<char>>,
)
    requires
        failed <= count,
        bone_names(bytes, at, failed, strings) is Err,
    ensures
        bone_names(bytes, at, count, strings) == bone_names(bytes, at, failed, strings),
    decreases count,
{
    if failed < count {
        lemma_bone_names_fails(bytes, at, failed, (count - 1) as nat, strings);
    }
}

/// The `count` matrices that lie one behind the other from `at`.
pub open spec fn matrices_at(bytes: Seq<u8>, at: int, count: nat) -> Result<
    Seq<Seq<u32>>,
    ISM2ImportError,
> {
    if in_bounds(bytes, at, 64 * (count as int)) {
        Ok(Seq::new(count, |i: int| matrix_at(bytes, at + 64 * i)))
    } else {
        Err(ISM2ImportError::IO)
    }
}

/// The decoder of the buffers of a file whose string table is `strings`.
pub open spec fn buffer_decoder(strings: Seq<Seq<char>>) -> spec_fn(Seq<u8>, int) -> Result<
    BufferDataView,
    ISM2ImportError,
> {
    |bytes: Seq<u8>, at: int| Buffer::decode(bytes, at, strings)
}

impl Buffer {
    /// What the chunk at `at` holds as a buffer. Its header counts the entries in its
    /// third word, has zero in its fourth and eighth, and tells in the three words
    /// between them what the entries are: indices of bone names, or the elements of
    /// matrices of sixteen. The entries follow the header.
    pub open spec fn decode(bytes: Seq<u8>, at: int, strings: Seq<Seq<char>>) -> Result<
        BufferDataView,
        ISM2ImportError,
    > {
        match chunk_header(bytes, at, 0x44, 0x20) {
            Err(e) => Err(e),
            Ok(_) => match fixed_word(bytes, at + 12, 0) {
                Err(e) => Err(e),
                Ok(_) => match fixed_word(bytes, at + 28, 0) {
                    Err(e) => Err(e),
                    Ok(_) => {
                        let nb_entries = le_u32(bytes, at + 8);
                        let shape = (
                            le_u32(bytes, at + 16),
                            le_u32(bytes, at + 20),
                            le_u32(bytes, at + 24),
                        );
                        if shape == (0x05u32, 0x01u32, 0x00u32) {
                            match bone_names(bytes, at + 0x20, nb_entries as nat, strings) {
                                Err(e) => Err(e),
                                Ok(names) => Ok(BufferDataView::BoneNames(names)),
                            }
                        } else if shape == (0x0Cu32, 0x10u32, 0x10u32) {
                            match matrices_at(bytes, at + 0x20, (nb_entries / 16) as nat) {
                                Err(e) => Err(e),
                                Ok(matrices) => Ok(BufferDataView::InverseBindMatrices(matrices)),
                            }
                        } else {
                            Err(ISM2ImportError::UnrecognizedBufferType)
                        }
                    },
                },
            },
        }
    }

    /// Reads the buffer at the cursor.
    #[verifier::loop_isolation(false)]
    pub fn import(reader: &mut Reader, strings_table: &[String]) -> (result: Result<
        Buffer,
        ISM2ImportError,
    >)
        ensures
            final(reader).bytes() == old(reader).bytes(),
            yields(
                result,
                Buffer::decode(old(reader).bytes(), old(reader).at(), views(strings_table@)),
            ),
            match result {
                Ok(buffer) => final(reader).at() == old(reader).at() + 0x20 + match buffer.data {
                    BufferData::BoneNames(names) => 2 * names@.len(),
                    BufferData::InverseBindMatrices(matrices) => 64 * matrices@.len(),
                },
                Err(_) => true,
            },
    {
        let ghost bytes = reader.bytes();
        let ghost strings = views(strings_table@);
        let start: usize = reader.read_header(0x44, 0x20)?;
        let nb_entries: u32 = reader.le_u32_at(start + 8);
        reader.check_word_at(start + 12, 0)?;
        let part1: u32 = reader.le_u32_at(start + 16);
        let part2: u32 = reader.le_u32_at(start + 20);
        let part3: u32 = reader.le_u32_at(start + 24);
        reader.check_word_at(start + 28, 0)?;
        if part1 == 0x05 && part2 == 0x01 && part3 == 0x00 {
            let mut names: Vec<String> = Vec::new();
            let mut i: u32 = 0;
            proof {
                lemma_views_empty::<String>();
            }
            while i < nb_entries
                invariant
                    reader.bytes() == bytes,
                    bytes == old(reader).bytes(),
                    strings == views(strings_table@),
                    i <= nb_entries,
                    reader.at() == start + 0x20 + 2 * i,
                    names@.len() == i,
                    bone_names(bytes, start + 0x20, i as nat, strings) == Ok::<
                        Seq<Seq<char>>,
                        ISM2ImportError,
                    >(views(names@)),
                decreases nb_entries - i,
            {
                let step = match reader.read_le_to_u16() {
                    Ok(id) => lookup_string(strings_table, id as u32),
                    Err(e) => Err(e),
                };
                match step {
                    Err(e) => {
                        proof {
                            lemma_bone_names_fails(
                                bytes,
                                start + 0x20,
                                (i + 1) as nat,
                                nb_entries as nat,
                                strings,
                            );
                        }
                        return Err(e);
                    },
                    Ok(name) => {
                        proof {
                            lemma_views_push(names@, name);
                        }
                        names.push(name);
                    },
                }
                i = i + 1;
            }
            Ok(Buffer { data: BufferData::BoneNames(names) })
        } else if part1 == 0x0C && part2 == 0x10 && part3 == 0x10 {
            let nb_matrices: u32 = nb_entries / 16;
            let mut matrices: Vec<[u32; 16]> = Vec::new();
            let mut i: u32 = 0;
            proof {
                lemma_views_empty::<[u32; 16]>();
            }
            while i < nb_matrices
                invariant
                    reader.bytes() == bytes,
                    bytes == old(reader).bytes(),
                    i <= nb_matrices,
                    reader.at() == start + 0x20 + 64 * i,
                    matrices@.len() == i,
                    in_bounds(bytes, start + 0x20, 64 * i),
                    views(matrices@) == Seq::new(
                        i as nat,
                        |k: int| matrix_at(bytes, start + 0x20 + 64 * k),
                    ),
                decreases nb_matrices - i,
            {
                let at: usize = reader.take(64)?;
                let matrix: [u32; 16] = import_matrix(reader, at);
                proof {
                    lemma_views_push(matrices@, matrix);
                }
                matrices.push(matrix);
                i = i + 1;
                assert(views(matrices@) =~= Seq::new(
                    i as nat,
                    |k: int| matrix_at(bytes, start + 0x20 + 64 * k),
                ));
            }
            Ok(Buffer { data: BufferData::InverseBindMatrices(matrices) })
        } else {
            Err(ISM2ImportError::UnrecognizedBufferType)
        }
    }
}

/// The decoder of the groups of buffers of a file whose string table is `strings`.
pub open spec fn unnamed30_decoder(strings: Seq<Seq<char>>) -> spec_fn(Seq<u8>, int) -> Result<
    Unnamed30View,
    ISM2ImportError,
> {
    |bytes: Seq<u8>, at: int| Unnamed30::decode(bytes, at, strings)
}

impl Unnamed30 {
    /// What the chunk at `at` holds as a group of buffers. Its header has zero in its
    /// fifth word and carries a matrix from its sixth word on.
    pub open spec fn decode(bytes: Seq<u8>, at: int, strings: Seq<Seq<char>>) -> Result<
        Unnamed30View,
        ISM2ImportError,
    > {
        match chunk_header(bytes, at, 0x30, 0x54) {
            Err(e) => Err(e),
            Ok(_) => match fixed_word(bytes, at + 16, 0) {
                Err(e) => Err(e),
                Ok(_) => match offset_table(bytes, at + 0x54, le_u32(bytes, at + 8)) {
                    Err(e) => Err(e),
                    Ok(offsets) => match decode_each(bytes, offsets, buffer_decoder(strings)) {
                        Err(e) => Err(e),
                        Ok(sub_sections) => Ok(
                            Unnamed30View { identity_matrix: matrix_at(bytes, at + 20), sub_sections },
                        ),
                    },
                },
            },
        }
    }

    /// Reads the group of buffers at the cursor.
    #[verifier::loop_isolation(false)]
    pub fn import(reader: &mut Reader, strings_table: &[String]) -> (result: Result<
        Unnamed30,
        ISM2ImportError,
    >)
        ensures
            final(reader).bytes() == old(reader).bytes(),
            yields(
                result,
                Unnamed30::decode(old(reader).bytes(), old(reader).at(), views(strings_table@)),
            ),
    {
        let ghost bytes = reader.bytes();
        let start: usize = reader.read_header(0x30, 0x54)?;
        let nb_sub_sections: u32 = reader.le_u32_at(start + 8);
        reader.check_word_at(start + 16, 0)?;
        let identity_matrix: [u32; 16] = import_matrix(reader, start + 20);
        let offsets: Vec<u32> = reader.read_offsets(nb_sub_sections)?;
        let ghost decoder = buffer_decoder(views(strings_table@));
        let mut sub_sections: Vec<Buffer> = Vec::new();
        let mut i: usize = 0;
        proof {
            lemma_views_empty::<Buffer>();
        }
        while i < offsets.len()
            invariant
                reader.bytes() == bytes,
                i <= offsets.len(),
                decode_each(bytes, offsets@.take(i as int), decoder) == Ok::<
                    Seq<BufferDataView>,
                    ISM2ImportError,
                >(views(sub_sections@)),
            decreases offsets.len() - i,
        {
            let offset: u32 = offsets[i];
            proof {
                lemma_decode_each_step(bytes, offsets@, decoder, i as int);
            }
            let step = match reader.seek(offset) {
                Ok(_) => Buffer::import(reader, strings_table),
                Err(e) => Err(e),
            };
            match step {
                Err(e) => {
                    proof {
                        lemma_decode_each_fails(bytes, offsets@, decoder, i + 1);
                    }
                    return Err(e);
                },
                Ok(sub_section) => {
                    proof {
                        lemma_views_push(sub_sections@, sub_section);
                    }
                    sub_sections.push(sub_section);
                },
            }
            i = i + 1;
        }
        assert(offsets@.take(i as int) == offsets@);
        Ok(Unnamed30 { identity_matrix, sub_sections })
    }
}

/// The decoder of the named groups of a file whose string table is `strings`.
pub open spec fn unnamed31_decoder(strings: Seq<Seq<char>>) -> spec_fn(Seq<u8>, int) -> Result<
    Unnamed31View,
    ISM2ImportError,
> {
    |bytes: Seq<u8>, at: int| Unnamed31::decode(bytes, at, strings)
}

impl Unnamed31 {
    /// What the chunk at `at` holds as a named group. The fourth and the fifth word of its
    /// header index the string table for its two names, which are looked up once the
    /// children are decoded.
    pub open spec fn decode(bytes: Seq<u8>, at: int, strings: Seq<Seq<char>>) -> Result<
        Unnamed31View,
        ISM2ImportError,
    > {
        match chunk_children(bytes, at, 0x31, 0x14) {
            Err(e) => Err(e),
            Ok(offsets) => match decode_each(bytes, offsets, unnamed30_decoder(strings)) {
                Err(e) => Err(e),
                Ok(sub_sections) => match string_at(strings, le_u32(bytes, at + 12)) {
                    Err(e) => Err(e),
                    Ok(name1) => match string_at(strings, le_u32(bytes, at + 16)) {
                        Err(e) => Err(e),
                        Ok(name2) => Ok(Unnamed31View { name1, name2, sub_sections }),
                    },
                },
            },
        }
    }

    /// Reads the named group at the cursor.
    #[verifier::loop_isolation(false)]
    pub fn import(reader: &mut Reader, strings_table: &[String]) -> (result: Result<
        Unnamed31,
        ISM2ImportError,
    >)
        ensures
            final(reader).bytes() == old(reader).bytes(),
            yields(
                result,
                Unnamed31::decode(old(reader).bytes(), old(reader).at(), views(strings_table@)),
            ),
    {
        let ghost bytes = reader.bytes();
        let chunk: Chunk = reader.read_chunk(0x31, 0x14)?;
        let name1_id: u32 = reader.le_u32_at(chunk.start + 12);
        let name2_id: u32 = reader.le_u32_at(chunk.start + 16);
        let ghost decoder = unnamed30_decoder(views(strings_table@));
        let mut sub_sections: Vec<Unnamed30> = Vec::new();
        let mut i: usize = 0;
        proof {
            lemma_views_empty::<Unnamed30>();
        }
        while i < chunk.offsets.len()
            invariant
                reader.bytes() == bytes,
                i <= chunk.offsets.len(),
                decode_each(bytes, chunk.offsets@.take(i as int), decoder) == Ok::<
                    Seq<Unnamed30View>,
                    ISM2ImportError,
                >(views(sub_sections@)),
            decreases chunk.offsets.len() - i,
        {
            let offset: u32 = chunk.offsets[i];
            proof {
                lemma_decode_each_step(bytes, chunk.offsets@, decoder, i as int);
            }
            let step = match reader.seek(offset) {
                Ok(_) => Unnamed30::import(reader, strings_table),
                Err(e) => Err(e),
            };
            match step {
                Err(e) => {
                    proof {
                        lemma_decode_each_fails(bytes, chunk.offsets@, decoder, i + 1);
                    }
                    return Err(e);
                },
                Ok(sub_section) => {
                    proof {
                        lemma_views_push(sub_sections@, sub_section);
                    }
                    sub_sections.push(sub_section);
                },
            }
            i = i + 1;
        }
        assert(chunk.offsets@.take(i as int) == chunk.offsets@);
        let name1: String = lookup_string(strings_table, name1_id)?;
        let name2: String = lookup_string(strings_table, name2_id)?;
        Ok(Unnamed31 { name1, name2, sub_sections })
    }
}

impl JointExtra {
    /// What the chunk at `at` holds as the joint extra section: its named groups, in file
    /// order. The fourth and the fifth word of its header are zero.
    pub open spec fn decode(bytes: Seq<u8>, at: int, strings: Seq<Seq<char>>) -> Result<
        Seq<Unnamed31View>,
        ISM2ImportError,
    > {
        match chunk_header(bytes, at, 0x32, 0x14) {
            Err(e) => Err(e),
            Ok(_) => match fixed_word(bytes, at + 12, 0) {
                Err(e) => Err(e),
                Ok(_) => match fixed_word(bytes, at + 16, 0) {
                    Err(e) => Err(e),
                    Ok(_) => match offset_table(bytes, at + 0x14, le_u32(bytes, at + 8)) {
                        Err(e) => Err(e),
                        Ok(offsets) => decode_each(bytes, offsets, unnamed31_decoder(strings)),
                    },
                },
            },
        }
    }

    /// Reads the joint extra section at the cursor.
    #[verifier::loop_isolation(false)]
    pub fn import(reader: &mut Reader, strings_table: &[String]) -> (result: Result<
        JointExtra,
        ISM2ImportError,
    >)
        ensures
            final(reader).bytes() == old(reader).bytes(),
            yields(
                result,
                JointExtra::decode(old(reader).bytes(), old(reader).at(), views(strings_table@)),
            ),
    {
        let ghost bytes = reader.bytes();
        let start: usize = reader.read_header(0x32, 0x14)?;
        let nb_sub_sections: u32 = reader.le_u32_at(start + 8);
        reader.check_word_at(start + 12, 0)?;
        reader.check_word_at(start + 16, 0)?;
        let offsets: Vec<u32> = reader.read_offsets(nb_sub_sections)?;
        let ghost decoder = unnamed31_decoder(views(strings_table@));
        let mut sub_sections: Vec<Unnamed31> = Vec::new();
        let mut i: usize = 0;
        proof {
            lemma_views_empty::<Unnamed31>();
        }
        while i < offsets.len()
            invariant
                reader.bytes() == bytes,
                i <= offsets.len(),
                decode_each(bytes, offsets@.take(i as int), decoder) == Ok::<
                    Seq<Unnamed31View>,
                    ISM2ImportError,
                >(views(sub_sections@)),
            decreases offsets.len() - i,
        {
            let offset: u32 = offsets[i];
            proof {
                lemma_decode_each_step(bytes, offsets@, decoder, i as int);
            }
            let step = match reader.seek(offset) {
                Ok(_) => Unnamed31::import(reader, strings_table),
                Err(e) => Err(e),
            };
            match step {
                Err(e) => {
                    proof {
                        lemma_decode_each_fails(bytes, offsets@, decoder, i + 1);
                    }
                    return Err(e);
                },
                Ok(sub_section) => {
                    proof {
                        lemma_views_push(sub_sections@, sub_section);
                    }
                    sub_sections.push(sub_section);
                },
            }
            i = i + 1;
        }
        assert(offsets@.take(i as int) == offsets@);
        Ok(JointExtra { sub_sections })
    }
}

} // verus!
