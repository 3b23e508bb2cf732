//! The texture definition section: the names under which the textures of the model are
//! to be found.

use vstd::prelude::*;
use crate::error::{ISM2ImportError, views, yields, lemma_views_push, lemma_views_empty};
use crate::string_table::{string_at, lookup_string};
use crate::reader::{Reader, le_u32, tagged_record, loose_chunk_children, decode_each,
    lemma_decode_each_step, lemma_decode_each_fails};

verus! {

/// A texture: three names taken from the string table.
#[derive(Clone, Debug)]
pub struct Texture {
    pub base_name: String,
    pub original_location: String,
    pub original_name: String,
}

/// The textures of the model, in file order.
#[derive(Clone, Debug)]
pub struct TextureDefinition {
    pub sub_sections: Vec<Texture>,
}

/// Model of a [`Texture`].
pub ghost struct TextureView {
    pub base_name: Seq<char>,
    pub original_location: Seq<char>,
    pub original_name: Seq<char>,
}

impl View for Texture {
    type V = TextureView;

    open spec fn view(&self) -> TextureView {
        TextureView {
            base_name: self.base_name@,
            original_location: self.original_location@,
            original_name: self.original_name@,
        }
    }
}

impl View for TextureDefinition {
    type V = Seq<TextureView>;

    open spec fn view(&self) -> Seq<TextureView> {
        views(self.sub_sections@)
    }
}

/// The decoder of the textures of a file whose string table is `strings`.
pub open spec fn texture_decoder(strings: Seq<Seq<char>>) -> spec_fn(Seq<u8>, int) -> Result<
    TextureView,
    ISM2ImportError,
> {
    |bytes: Seq<u8>, at: int| Texture::decode(bytes, at, strings)
}

impl Texture {
    /// What the record at `at` holds as a texture: after the tag, the second, the fourth
    /// and the fifth word index the string table.
    pub open spec fn decode(bytes: Seq<u8>, at: int, strings: Seq<Seq<char>>) -> Result<
        TextureView,
        ISM2ImportError,
    > {
        match tagged_record(bytes, at, 0x2D, 20) {
            Err(e) => Err(e),
            Ok(_) => match string_at(strings, le_u32(bytes, at + 4)) {
                Err(e) => Err(e),
                Ok(base_name) => match string_at(strings, le_u32(bytes, at + 12)) {
                    Err(e) => Err(e),
                    Ok(original_location) => match string_at(strings, le_u32(bytes, at + 16)) {
                        Err(e) => Err(e),
                        Ok(original_name) => Ok(
                            TextureView { base_name, original_location, original_name },
                        ),
                    },
                },
            },
        }
    }

    /// Reads the texture at the cursor.
    pub fn import(reader: &mut Reader, string_table: &[String]) -> (result: Result<
        Texture,
        ISM2ImportError,
    >)
        ensures
            final(reader).bytes() == old(reader).bytes(),
            yields(
                result,
                Texture::decode(old(reader).bytes(), old(reader).at(), views(string_table@)),
            ),
            result is Ok ==> final(reader).at() == old(reader).at() + 20,
    {
        let start: usize = reader.read_tagged(0x2D, 20)?;
        let a: u32 = reader.le_u32_at(start + 4);
        let b: u32 = reader.le_u32_at(start + 12);
        let c: u32 = reader.le_u32_at(start + 16);
        let base_name: String = lookup_string(string_table, a)?;
        let original_location: String = lookup_string(string_table, b)?;
        let original_name: String = lookup_string(string_table, c)?;
        Ok(Texture { base_name, original_location, original_name })
    }
}

impl TextureDefinition {
    /// What the chunk at `at` holds as the texture definition section: its textures, in
    /// file order.
    pub open spec fn decode(bytes: Seq<u8>, at: int, strings: Seq<Seq<char>>) -> Result<
        Seq<TextureView>,
        ISM2ImportError,
    > {
        match loose_chunk_children(bytes, at, 0x2E) {
            Err(e) => Err(e),
            Ok(offsets) => decode_each(bytes, offsets, texture_decoder(strings)),
        }
    }

    /// Reads the texture definition section at the cursor.
    pub fn import(reader: &mut Reader, string_table: &[String]) -> (result: Result<
        TextureDefinition,
        ISM2ImportError,
    >)
        ensures
            final(reader).bytes() == old(reader).bytes(),
            yields(
                result,
                TextureDefinition::decode(
                    old(reader).bytes(),
                    old(reader).at(),
                    views(string_table@),
                ),
            ),
    {
        let ghost bytes = reader.bytes();
        let offsets: Vec<u32> = reader.read_loose_chunk(0x2E)?;
        let ghost decoder = texture_decoder(views(string_table@));
        let mut sub_sections: Vec<Texture> = Vec::new();
        let mut i: usize = 0;
        proof {
            lemma_views_empty::<Texture>();
        }
        while i < offsets.len()
            invariant
                reader.bytes() == bytes,
                bytes == old(reader).bytes(),
                i <= offsets.len(),
                decoder == texture_decoder(views(string_table@)),
                decode_each(bytes, offsets@.take(i as int), decoder) == Ok::<
                    Seq<TextureView>,
                    ISM2ImportError,
                >(views(sub_sections@)),
                loose_chunk_children(bytes, old(reader).at(), 0x2E) == Ok::<
                    Seq<u32>,
                    ISM2ImportError,
                >(offsets@),
            decreases offsets.len() - i,
        {
            let offset: u32 = offsets[i];
            proof {
                lemma_decode_each_step(bytes, offsets@, decoder, i as int);
            }
            let step = match reader.seek(offset) {
                Ok(_) => Texture::import(reader, string_table),
                Err(e) => Err(e),
            };
            match step {
                Err(e) => {
                    proof {
                        lemma_decode_each_fails(bytes, offsets@, decoder, i + 1);
                    }
                    return Err(e);
                },
                Ok(texture) => {
                    proof {
                        lemma_views_push(sub_sections@, texture);
                    }
                    sub_sections.push(texture);
                },
            }
            i = i + 1;
        }
        assert(offsets@.take(i as int) == offsets@);
        Ok(TextureDefinition { sub_sections })
    }
}

} // verus!
