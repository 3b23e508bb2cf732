//! The string table: the names that the other sections refer to by index.

use vstd::prelude::*;
use crate::error::{ISM2ImportError, views, yields, lemma_views_push, lemma_views_empty};
use crate::reader::{Reader, loose_chunk_children, decode_each, lemma_decode_each_step,
    lemma_decode_each_fails};

verus! {

/// `String::push` appends the character to the end of the string and changes nothing else.
pub assume_specification[ String::push ](text: &mut String, ch: char)
    ensures
        final(text)@ == old(text)@.push(ch),
;

/// The text that starts at `at`: one character for each byte up to the first zero byte,
/// which ends it. A text that no zero byte ends before the file does is an error.
pub open spec fn text_at(bytes: Seq<u8>, at: int) -> Result<Seq<char>, ISM2ImportError>
    decreases bytes.len() - at,
{
    if !(0 <= at < bytes.len()) {
        Err(ISM2ImportError::IO)
    } else if bytes[at] == 0 {
        Ok(Seq::empty())
    } else {
        match text_at(bytes, at + 1) {
            Err(e) => Err(e),
            Ok(rest) => Ok(seq![bytes[at] as char] + rest),
        }
    }
}

/// The decoder of the entries of the string table.
pub open spec fn text_decoder() -> spec_fn(Seq<u8>, int) -> Result<Seq<char>, ISM2ImportError> {
    |bytes: Seq<u8>, at: int| text_at(bytes, at)
}

/// What the chunk at `at` holds as the string table: the texts at the offsets that its
/// table lists, in the order of the table.
pub open spec fn strings_table_at(bytes: Seq<u8>, at: int) -> Result<
    Seq<Seq<char>>,
    ISM2ImportError,
> {
    match loose_chunk_children(bytes, at, 0x21) {
        Err(e) => Err(e),
        Ok(offsets) => decode_each(bytes, offsets, text_decoder()),
    }
}

/// Whether `strings` is the table that the format's description gives.
pub open spec fn yields_strings(
    outcome: Result<Vec<String>, ISM2ImportError>,
    described: Result<Seq<Seq<char>>, ISM2ImportError>,
) -> bool {
    match (outcome, described) {
        (Ok(strings), Ok(texts)) => views(strings@) == texts,
        (Err(e), Err(f)) => e == f,
        _ => false,
    }
}

/// Reads the zero-terminated text at the cursor, which stops behind the zero byte.
pub fn import_text(reader: &mut Reader) -> (result: Result<String, ISM2ImportError>)
    ensures
        final(reader).bytes() == old(reader).bytes(),
        yields(result, text_at(old(reader).bytes(), old(reader).at())),
        result is Ok ==> final(reader).at() == old(reader).at() + result.unwrap()@.len() + 1,
{
    let ghost bytes = reader.bytes();
    let ghost start = reader.at();
    let mut text: String = String::new();
    assert(text@ + Seq::<char>::empty() =~= Seq::<char>::empty());
    loop
        invariant
            reader.bytes() == bytes,
            bytes == old(reader).bytes(),
            start == old(reader).at(),
            reader.at() == start + text@.len(),
            text_at(bytes, start) == match text_at(bytes, reader.at()) {
                Err(e) => Err::<Seq<char>, ISM2ImportError>(e),
                Ok(rest) => Ok(text@ + rest),
            },
        decreases bytes.len() - reader.at(),
    {
        let ghost at = reader.at();
        let ghost before = text@;
        let byte: u8 = reader.read_to_u8()?;
        if byte == 0 {
            assert(before + Seq::<char>::empty() =~= before);
            return Ok(text);
        }
        text.push(byte as char);
        proof {
            if let Ok(rest) = text_at(bytes, at + 1) {
                assert(before + (seq![byte as char] + rest) =~= before.push(byte as char) + rest);
            }
        }
    }
}

/// Reads the string table at the cursor and returns its entries, each at the index under
/// which the other sections refer to it.
pub fn import_strings_table(reader: &mut Reader) -> (result: Result<Vec<String>, ISM2ImportError>)
    ensures
        final(reader).bytes() == old(reader).bytes(),
        yields_strings(result, strings_table_at(old(reader).bytes(), old(reader).at())),
{
    let ghost bytes = reader.bytes();
    let offsets: Vec<u32> = reader.read_loose_chunk(0x21)?;
    let ghost decoder = text_decoder();
    let mut strings_table: Vec<String> = Vec::new();
    let mut i: usize = 0;
    proof {
        lemma_views_empty::<String>();
    }
    while i < offsets.len()
        invariant
            reader.bytes() == bytes,
            bytes == old(reader).bytes(),
            i <= offsets.len(),
            decoder == text_decoder(),
            decode_each(bytes, offsets@.take(i as int), decoder) == Ok::<
                Seq<Seq<char>>,
                ISM2ImportError,
            >(views(strings_table@)),
            loose_chunk_children(bytes, old(reader).at(), 0x21) == Ok::<
                Seq<u32>,
                ISM2ImportError,
            >(offsets@),
        decreases offsets.len() - i,
    {
        let offset: u32 = offsets[i];
        proof {
            lemma_decode_each_step(bytes, offsets@, decoder, i as int);
        }
        let step = match reader.seek(offset) {
            Ok(_) => import_text(reader),
            Err(e) => Err(e),
        };
        match step {
            Err(e) => {
                proof {
                    lemma_decode_each_fails(bytes, offsets@, decoder, i + 1);
                }
                return Err(e);
            },
            Ok(text) => {
                proof {
                    lemma_views_push(strings_table@, text);
                }
                strings_table.push(text);
            },
        }
        i = i + 1;
    }
    assert(offsets@.take(i as int) == offsets@);
    Ok(strings_table)
}

/// The entry of the string table that `index` names, or the error of an index that names
/// none.
pub open spec fn string_at(strings: Seq<Seq<char>>, index: u32) -> Result<
    Seq<char>,
    ISM2ImportError,
> {
    if index < strings.len() {
        Ok(strings[index as int])
    } else {
        Err(ISM2ImportError::MissingString(index))
    }
}

/// A copy of the entry of the string table that `index` names.
pub fn lookup_string(strings_table: &[String], index: u32) -> (result: Result<
    String,
    ISM2ImportError,
>)
    ensures
        yields(result, string_at(views(strings_table@), index)),
{
    if (index as usize) < strings_table.len() {
        Ok(strings_table[index as usize].clone())
    } else {
        Err(ISM2ImportError::MissingString(index))
    }
}

} // verus!
