//! Decoder for the ISM2 model container: a file of nested chunks, each tagged by a magic
//! number and found through absolute byte offsets.
//!
//! The file is decoded from memory. [`ISM2::import`] reads the file header and the table
//! of sections, decodes the string table first, and then each section that it knows.
//! [`scene`] lays the decoded sections out as the nodes, meshes and skin of one scene.
//!
//! Numbers that the file stores as floating point are kept as their bit patterns: the
//! decoder moves them and compares them, and leaves arithmetic on them to its callers.

pub mod error;
pub mod reader;
pub mod model_data;
pub mod string_table;
pub mod texture_definition;
pub mod joint_definition;
pub mod joint_extra;
pub mod single;
pub mod frenet;
pub mod extremes;
pub mod skeleton;
pub mod skin;
pub mod scene;

use vstd::prelude::*;
use crate::error::{ISM2ImportError, views, yields, lemma_views_push, lemma_views_empty};
use crate::reader::{Reader, in_bounds, le_u32, tagged_record};
use crate::string_table::{import_strings_table, strings_table_at};
use crate::joint_definition::{JointDefinition, JointDefinitionSubSectionView};
use crate::joint_extra::{JointExtra, Unnamed31View};
use crate::model_data::{ModelData, SubSectionView};
use crate::texture_definition::{TextureDefinition, TextureView};

verus! {

/// The tag with which every file starts: the characters `ISM2`.
pub const FILE_MAGIC: u32 = 0x324D5349;

/// Bytes that the file header takes, up to the table of sections.
pub const FILE_HEADER_SIZE: usize = 32;

/// The main entry point of this library.
/// This represents the file at the highest level.
#[derive(Clone, Debug)]
pub struct ISM2 {
    pub version: u32,
    pub file_size: u32,
    pub string_table: Vec<String>,
    pub sections: Vec<Section>,
}

/// One entry of the table of sections: the tag of a section and where it starts.
#[derive(Clone, Copy, Debug, PartialEq, Eq)]
pub struct SectionInfo {
    pub magic_number: u32,
    pub offset: u32,
}

/// Lists section types
#[derive(Clone, Debug)]
pub enum Section {
    JointDefinition(JointDefinition),
    JointExtra(JointExtra),
    ModelData(ModelData),
    TextureDefinition(TextureDefinition),
}

/// Model of a [`Section`].
pub ghost enum SectionView {
    JointDefinition(Seq<JointDefinitionSubSectionView>),
    JointExtra(Seq<Unnamed31View>),
    ModelData(Seq<SubSectionView>),
    TextureDefinition(Seq<TextureView>),
}

/// Model of an [`ISM2`].
pub ghost struct ISM2View {
    pub version: u32,
    pub file_size: u32,
    pub string_table: Seq<Seq<char>>,
    pub sections: Seq<SectionView>,
}

impl View for Section {
    type V = SectionView;

    open spec fn view(&self) -> SectionView {
        match self {
            Section::JointDefinition(section) => SectionView::JointDefinition(section@),
            Section::JointExtra(section) => SectionView::JointExtra(section@),
            Section::ModelData(section) => SectionView::ModelData(section@),
            Section::TextureDefinition(section) => SectionView::TextureDefinition(section@),
        }
    }
}

impl View for ISM2 {
    type V = ISM2View;

    open spec fn view(&self) -> ISM2View {
        ISM2View {
            version: self.version,
            file_size: self.file_size,
            string_table: views(self.string_table@),
            sections: views(self.sections@),
        }
    }
}

impl SectionInfo {
    /// The entry whose two words start at `at`.
    pub open spec fn at(bytes: Seq<u8>, at: int) -> SectionInfo {
        SectionInfo { magic_number: le_u32(bytes, at), offset: le_u32(bytes, at + 4) }
    }

    /// What the bytes at `at` hold as an entry of the table of sections.
    pub open spec fn decode(bytes: Seq<u8>, at: int) -> Result<SectionInfo, ISM2ImportError> {
        if in_bounds(bytes, at, 8) {
            Ok(SectionInfo::at(bytes, at))
        } else {
            Err(ISM2ImportError::IO)
        }
    }

    /// Reads one entry of the table of sections at the cursor.
    pub fn import(reader: &mut Reader) -> (result: Result<SectionInfo, ISM2ImportError>)
        ensures
            final(reader).bytes() == old(reader).bytes(),
            result == SectionInfo::decode(old(reader).bytes(), old(reader).at()),
            result is Ok ==> final(reader).at() == old(reader).at() + 8,
    {
        let start: usize = reader.take(8)?;
        Ok(
            SectionInfo {
                magic_number: reader.le_u32_at(start),
                offset: reader.le_u32_at(start + 4),
            },
        )
    }
}

/// The table of `count` sections that starts at `at`.
pub open spec fn section_table(bytes: Seq<u8>, at: int, count: u32) -> Result<
    Seq<SectionInfo>,
    ISM2ImportError,
> {
    if in_bounds(bytes, at, 8 * count) {
        Ok(Seq::new(count as nat, |i: int| SectionInfo::at(bytes, at + 8 * i)))
    } else {
        Err(ISM2ImportError::IO)
    }
}

impl Section {
    /// What the section that `info` lists holds, in a file whose string table is
    /// `strings`. A section of a kind that is not known is passed over: it yields `None`.
    pub open spec fn decode(bytes: Seq<u8>, info: SectionInfo, strings: Seq<Seq<char>>) -> Result<
        Option<SectionView>,
        ISM2ImportError,
    > {
        let at = info.offset as int;
        if info.magic_number == 0x03 {
            match JointDefinition::decode(bytes, at, strings) {
                Err(e) => Err(e),
                Ok(section) => Ok(Some(SectionView::JointDefinition(section))),
            }
        } else if info.magic_number == 0x32 {
            match JointExtra::decode(bytes, at, strings) {
                Err(e) => Err(e),
                Ok(section) => Ok(Some(SectionView::JointExtra(section))),
            }
        } else if info.magic_number == 0x0B {
            match ModelData::decode(bytes, at) {
                Err(e) => Err(e),
                Ok(section) => Ok(Some(SectionView::ModelData(section))),
            }
        } else if info.magic_number == 0x2E {
            match TextureDefinition::decode(bytes, at, strings) {
                Err(e) => Err(e),
                Ok(section) => Ok(Some(SectionView::TextureDefinition(section))),
            }
        } else {
            Ok(None)
        }
    }

    /// What the sections that `infos` lists hold, in order, the sections of unknown kinds
    /// left out; or the error of the first that fails.
    pub open spec fn decode_all(
        bytes: Seq<u8>,
        infos: Seq<SectionInfo>,
        strings: Seq<Seq<char>>,
    ) -> Result<Seq<SectionView>, ISM2ImportError>
        decreases infos.len(),
    {
        if infos.len() == 0 {
            Ok(Seq::empty())
        } else {
            match Section::decode_all(bytes, infos.drop_last(), strings) {
                Err(e) => Err(e),
                Ok(sections) => match Section::decode(bytes, infos.last(), strings) {
                    Err(e) => Err(e),
                    Ok(None) => Ok(sections),
                    Ok(Some(section)) => Ok(sections.push(section)),
                },
            }
        }
    }

    /// Once a section fails, so does the whole list, with that section's error.
    pub proof fn lemma_decode_all_fails(
        bytes: Seq<u8>,
        infos: Seq<SectionInfo>,
        strings: Seq<Seq<char>>,
        i: int,
    )
        requires
            0 <= i <= infos.len(),
            Section::decode_all(bytes, infos.take(i), strings) is Err,
        ensures
            Section::decode_all(bytes, infos, strings) == Section::decode_all(
                bytes,
                infos.take(i),
                strings,
            ),
        decreases infos.len() - i,
    {
        if i < infos.len() {
            assert(infos.take(i + 1).drop_last() == infos.take(i));
            Section::lemma_decode_all_fails(bytes, infos, strings, i + 1);
        } else {
            assert(infos.take(i) == infos);
        }
    }

    /// Reads the section that `info` lists, or passes it over if its kind is not known.
    pub fn import(reader: &mut Reader, info: &SectionInfo, string_table: &[String]) -> (result:
        Result<Option<Section>, ISM2ImportError>)
        ensures
            final(reader).bytes() == old(reader).bytes(),
            match (result, Section::decode(old(reader).bytes(), *info, views(string_table@))) {
                (Ok(Some(section)), Ok(Some(model))) => section@ == model,
                (Ok(None), Ok(None)) => true,
                (Err(e), Err(f)) => e == f,
                _ => false,
            },
    {
        if info.magic_number == 0x03 {
            reader.seek(info.offset)?;
            Ok(Some(Section::JointDefinition(JointDefinition::import(reader, string_table)?)))
        } else if info.magic_number == 0x32 {
            reader.seek(info.offset)?;
            Ok(Some(Section::JointExtra(JointExtra::import(reader, string_table)?)))
        } else if info.magic_number == 0x0B {
            reader.seek(info.offset)?;
            Ok(Some(Section::ModelData(ModelData::import(reader)?)))
        } else if info.magic_number == 0x2E {
            reader.seek(info.offset)?;
            Ok(Some(Section::TextureDefinition(TextureDefinition::import(reader, string_table)?)))
        } else {
            Ok(None)
        }
    }
}

impl ISM2 {
    /// What the file whose header starts at `at` holds. The header gives the version in
    /// its second word, the declared size of the file in its fifth and the number of
    /// sections in its sixth; the table of sections follows it. The first section must be
    /// the string table, which the other sections are decoded with.
    pub open spec fn decode(bytes: Seq<u8>, at: int) -> Result<ISM2View, ISM2ImportError> {
        match tagged_record(bytes, at, FILE_MAGIC, 32) {
            Err(e) => Err(e),
            Ok(_) => match section_table(bytes, at + 32, le_u32(bytes, at + 20)) {
                Err(e) => Err(e),
                Ok(infos) => if infos.len() == 0 {
                    Err(ISM2ImportError::NoStringTable(None))
                } else if infos[0].magic_number != 0x21 {
                    Err(ISM2ImportError::NoStringTable(Some(infos[0].magic_number)))
                } else {
                    match strings_table_at(bytes, infos[0].offset as int) {
                        Err(e) => Err(e),
                        Ok(string_table) => match Section::decode_all(
                            bytes,
                            infos.skip(1),
                            string_table,
                        ) {
                            Err(e) => Err(e),
                            Ok(sections) => Ok(
                                ISM2View {
                                    version: le_u32(bytes, at + 4),
                                    file_size: le_u32(bytes, at + 16),
                                    string_table,
                                    sections,
                                },
                            ),
                        },
                    }
                },
            },
        }
    }

    /// Reads the table of `nb_sections` sections at the cursor.
    pub fn import_section_table(reader: &mut Reader, nb_sections: u32) -> (result: Result<
        Vec<SectionInfo>,
        ISM2ImportError,
    >)
        ensures
            final(reader).bytes() == old(reader).bytes(),
            match result {
                Ok(infos) => section_table(old(reader).bytes(), old(reader).at(), nb_sections)
                    == Ok::<Seq<SectionInfo>, ISM2ImportError>(infos@),
                Err(e) => section_table(old(reader).bytes(), old(reader).at(), nb_sections)
                    == Err::<Seq<SectionInfo>, ISM2ImportError>(e),
            },
            result is Ok ==> final(reader).at() == old(reader).at() + 8 * nb_sections,
    {
        let ghost bytes = reader.bytes();
        let start: usize = reader.position();
        let mut section_offsets: Vec<SectionInfo> = Vec::new();
        let mut i: u32 = 0;
        while i < nb_sections
            invariant
                reader.bytes() == bytes,
                bytes == old(reader).bytes(),
                start == old(reader).at(),
                i <= nb_sections,
                reader.at() == start + 8 * i,
                in_bounds(bytes, start as int, 8 * i),
                section_offsets@ == Seq::new(
                    i as nat,
                    |k: int| SectionInfo::at(bytes, start + 8 * k),
                ),
            decreases nb_sections - i,
        {
            let info: SectionInfo = SectionInfo::import(reader)?;
            section_offsets.push(info);
            i = i + 1;
            assert(section_offsets@ =~= Seq::new(
                i as nat,
                |k: int| SectionInfo::at(bytes, start + 8 * k),
            ));
        }
        Ok(section_offsets)
    }

    /// Imports ISM2 from the binary file
    #[verifier::loop_isolation(false)]
    pub fn import(reader: &mut Reader) -> (result: Result<ISM2, ISM2ImportError>)
        ensures
            final(reader).bytes() == old(reader).bytes(),
            yields(result, ISM2::decode(old(reader).bytes(), old(reader).at())),
    {
        let ghost bytes = reader.bytes();
        let start: usize = reader.read_tagged(FILE_MAGIC, FILE_HEADER_SIZE)?;
        let version: u32 = reader.le_u32_at(start + 4);
        let file_size: u32 = reader.le_u32_at(start + 16);
        let nb_sections: u32 = reader.le_u32_at(start + 20);
        let section_offsets: Vec<SectionInfo> = ISM2::import_section_table(reader, nb_sections)?;
        if section_offsets.len() == 0 {
            return Err(ISM2ImportError::NoStringTable(None));
        }
        if section_offsets[0].magic_number != 0x21 {
            return Err(ISM2ImportError::NoStringTable(Some(section_offsets[0].magic_number)));
        }
        reader.seek(section_offsets[0].offset)?;
        let string_table: Vec<String> = import_strings_table(reader)?;
        let ghost strings = views(string_table@);
        let ghost infos = section_offsets@.skip(1);
        let mut sections: Vec<Section> = Vec::new();
        let mut i: usize = 1;
        proof {
            lemma_views_empty::<Section>();
            assert(infos.take(0) =~= Seq::<SectionInfo>::empty());
        }
        while i < section_offsets.len()
            invariant
                reader.bytes() == bytes,
                1 <= i <= section_offsets.len(),
                Section::decode_all(bytes, infos.take(i - 1), strings) == Ok::<
                    Seq<SectionView>,
                    ISM2ImportError,
                >(views(sections@)),
            decreases section_offsets.len() - i,
        {
            let section_info: SectionInfo = section_offsets[i];
            proof {
                assert(infos.take(i as int).drop_last() == infos.take(i - 1));
                assert(infos.take(i as int).last() == section_info);
            }
            match Section::import(reader, &section_info, string_table.as_slice()) {
                Err(e) => {
                    proof {
                        Section::lemma_decode_all_fails(bytes, infos, strings, i as int);
                    }
                    return Err(e);
                },
                Ok(None) => {},
                Ok(Some(section)) => {
                    proof {
                        lemma_views_push(sections@, section);
                    }
                    sections.push(section);
                },
            }
            i = i + 1;
        }
        assert(infos.take(i - 1) == infos);
        Ok(ISM2 { version, file_size, string_table, sections })
    }
}

/// Decoding is determined by the bytes: any two outcomes of decoding the same bytes from
/// the same place are the same error, or files with the same model.
pub proof fn lemma_import_is_deterministic(
    bytes: Seq<u8>,
    at: int,
    first: Result<ISM2, ISM2ImportError>,
    second: Result<ISM2, ISM2ImportError>,
)
    requires
        yields(first, ISM2::decode(bytes, at)),
        yields(second, ISM2::decode(bytes, at)),
    ensures
        match (first, second) {
            (Ok(a), Ok(b)) => a@ == b@,
            (Err(e), Err(f)) => e == f,
            _ => false,
        },
{
}

} // verus!
