//! The single error value that every decoding step reports.

use vstd::prelude::*;
use vstd::string::StringExecFns;

verus! {

/// A chunk held a child whose tag is not one that the chunk may contain.
#[derive(Clone, Copy, Debug, PartialEq, Eq, Structural)]
pub struct UnknownSubSection {
    /// Tag of the chunk that was being decoded.
    pub in_section: u32,
    /// Tag that was found where a child of that chunk was expected.
    pub failed_to_match: u32,
}

/// A 32-bit word of a chunk header did not hold the value that the format fixes for it.
#[derive(Clone, Copy, Debug, PartialEq, Eq, Structural)]
pub struct WrongMagicNumber {
    /// The value that the format fixes.
    pub expected: u32,
    /// The value that the file holds.
    pub read: u32,
}

/// Everything that can stop a decode. No error is recoverable: the first one aborts the
/// whole decode.
#[derive(Clone, Copy, Debug, PartialEq, Eq, Structural)]
pub enum ISM2ImportError {
    /// A read or a seek went outside the bytes of the file.
    IO,
    /// A header word did not hold its fixed value.
    MagicNumber(WrongMagicNumber),
    /// A chunk held a child of an unknown kind.
    UnknownSubSection(UnknownSubSection),
    /// A vertex chunk declared no attribute, so its buffer cannot be located.
    NoAttributes,
    /// The shape of a buffer cannot be told from its descriptor.
    UnrecognizedBufferType,
    /// A joint names a parent that is no joint of the file: by a byte offset at which no
    /// joint starts, or by an index that no joint has.
    MissingParent(u64),
    /// Rigging or inverse-bind data refers to an identifier that no joint carries.
    SkinLinkageMiss(u32),
    /// An index into the string table is not below the table's length.
    MissingString(u32),
    /// The first section is not the string table: it has the tag that is carried, or,
    /// where none is carried, the file lists no section at all.
    NoStringTable(Option<u32>),
}

/// The error for a header word that should have been `expected`.
pub open spec fn wrong_magic(expected: u32, read: u32) -> ISM2ImportError {
    ISM2ImportError::MagicNumber(WrongMagicNumber { expected, read })
}

/// The error for a child tagged `found` inside a chunk tagged `section`.
pub open spec fn unknown_sub_section(section: u32, found: u32) -> ISM2ImportError {
    ISM2ImportError::UnknownSubSection(
        UnknownSubSection { in_section: section, failed_to_match: found },
    )
}

/// The models of the items of a list, in order.
pub open spec fn views<T: View>(items: Seq<T>) -> Seq<T::V> {
    items.map_values(|item: T| item@)
}

/// Whether an outcome is the one that the format's description gives: the same error, or
/// a value whose model is the described one.
pub open spec fn yields<T: View>(
    outcome: Result<T, ISM2ImportError>,
    described: Result<T::V, ISM2ImportError>,
) -> bool {
    match (outcome, described) {
        (Ok(value), Ok(model)) => value@ == model,
        (Err(e), Err(f)) => e == f,
        _ => false,
    }
}

/// The models of a list that grew by one item.
pub proof fn lemma_views_push<T: View>(items: Seq<T>, item: T)
    ensures
        views(items.push(item)) == views(items).push(item@),
{
    assert(views(items.push(item)) =~= views(items).push(item@));
}

/// The models of no items.
pub proof fn lemma_views_empty<T: View>()
    ensures
        views(Seq::<T>::empty()) == Seq::<T::V>::empty(),
{
    assert(views(Seq::<T>::empty()) =~= Seq::<T::V>::empty());
}

/// The character of a hexadecimal digit, the letters in upper case.
pub open spec fn hex_digit(digit: int) -> char {
    if digit < 10 {
        ((48 + digit) as u8) as char
    } else {
        ((55 + digit) as u8) as char
    }
}

/// The hexadecimal digits of `value`, the highest first, without leading zeros.
pub open spec fn upper_hex(value: u32) -> Seq<char>
    decreases value,
{
    if value < 16 {
        seq![hex_digit(value as int)]
    } else {
        upper_hex(value / 16).push(hex_digit(value as int % 16))
    }
}

/// Puts the hexadecimal digits of `value` behind `text`.
pub fn push_upper_hex(text: &mut String, value: u32)
    ensures
        final(text)@ == old(text)@ + upper_hex(value),
    decreases value,
{
    let ghost before = text@;
    if value >= 16 {
        push_upper_hex(text, value / 16);
    }
    let digit: u8 = (value % 16) as u8;
    let ch: char = if digit < 10 {
        (48 + digit) as char
    } else {
        (55 + digit) as char
    };
    text.push(ch);
    assert(text@ =~= before + upper_hex(value));
}

impl UnknownSubSection {
    /// What this kind of error means.
    pub fn description(&self) -> (text: &'static str)
        ensures
            text@
                == "Some sub-section magic number did not match to anything known/handled by a section."@,
    {
        "Some sub-section magic number did not match to anything known/handled by a section."
    }

    /// The error in words: the tag that was found, then the tag of the chunk that held it.
    pub fn message(&self) -> (text: String)
        ensures
            text@ == "Unknown Magic Number: 0x"@ + upper_hex(self.failed_to_match)
                + ", In Section Magic Number: 0x"@ + upper_hex(self.in_section),
    {
        let mut text: String = String::from_str("Unknown Magic Number: 0x");
        push_upper_hex(&mut text, self.failed_to_match);
        text.append(", In Section Magic Number: 0x");
        push_upper_hex(&mut text, self.in_section);
        text
    }
}

impl WrongMagicNumber {
    /// What this kind of error means.
    pub fn description(&self) -> (text: &'static str)
        ensures
            text@ == "A header word did not hold the value that the format fixes for it."@,
    {
        "A header word did not hold the value that the format fixes for it."
    }

    /// The error in words: the value that was expected, then the value that was read.
    pub fn message(&self) -> (text: String)
        ensures
            text@ == "Wrong Magic Number: expected 0x"@ + upper_hex(self.expected) + ", read 0x"@
                + upper_hex(self.read),
    {
        let mut text: String = String::from_str("Wrong Magic Number: expected 0x");
        push_upper_hex(&mut text, self.expected);
        text.append(", read 0x");
        push_upper_hex(&mut text, self.read);
        text
    }
}

/// The upper half of a 64-bit value.
pub open spec fn high_word(value: u64) -> u32 {
    (value / 0x1_0000_0000) as u32
}

/// The lower half of a 64-bit value.
pub open spec fn low_word(value: u64) -> u32 {
    (value % 0x1_0000_0000) as u32
}

impl ISM2ImportError {
    /// What each kind of error means.
    pub open spec fn description_of(self) -> Seq<char> {
        match self {
            ISM2ImportError::IO => "A read or a seek went outside the file"@,
            ISM2ImportError::MagicNumber(_) =>
                "A header word did not hold the value that the format fixes for it."@,
            ISM2ImportError::UnknownSubSection(_) =>
                "Some sub-section magic number did not match to anything known/handled by a section."@,
            ISM2ImportError::NoAttributes => "No Attribute was specified for a Vertex Buffer"@,
            ISM2ImportError::UnrecognizedBufferType =>
                "Impossible to infer what type of buffer to read in Joint Extra"@,
            ISM2ImportError::MissingParent(_) => "A joint names a parent that is no joint"@,
            ISM2ImportError::SkinLinkageMiss(_) =>
                "Skin data refers to an identifier that no joint carries"@,
            ISM2ImportError::MissingString(_) => "An index names no entry of the string table"@,
            ISM2ImportError::NoStringTable(_) => "The first section is not the string table"@,
        }
    }

    /// What this kind of error means.
    pub fn description(&self) -> (text: &'static str)
        ensures
            text@ == self.description_of(),
    {
        match self {
            ISM2ImportError::IO => "A read or a seek went outside the file",
            ISM2ImportError::MagicNumber(e) => e.description(),
            ISM2ImportError::UnknownSubSection(e) => e.description(),
            ISM2ImportError::NoAttributes => "No Attribute was specified for a Vertex Buffer",
            ISM2ImportError::UnrecognizedBufferType => {
                "Impossible to infer what type of buffer to read in Joint Extra"
            },
            ISM2ImportError::MissingParent(_) => "A joint names a parent that is no joint",
            ISM2ImportError::SkinLinkageMiss(_) => {
                "Skin data refers to an identifier that no joint carries"
            },
            ISM2ImportError::MissingString(_) => "An index names no entry of the string table",
            ISM2ImportError::NoStringTable(_) => "The first section is not the string table",
        }
    }

    /// The error in words, with the values that it carries in hexadecimal.
    pub open spec fn message_of(self) -> Seq<char> {
        match self {
            ISM2ImportError::IO => "Read or seek outside the file"@,
            ISM2ImportError::MagicNumber(e) => "Wrong Magic Number: expected 0x"@ + upper_hex(
                e.expected,
            ) + ", read 0x"@ + upper_hex(e.read),
            ISM2ImportError::UnknownSubSection(e) => "Unknown Magic Number: 0x"@ + upper_hex(
                e.failed_to_match,
            ) + ", In Section Magic Number: 0x"@ + upper_hex(e.in_section),
            ISM2ImportError::NoAttributes => "No Attributes in Vertices Buffer"@,
            ISM2ImportError::UnrecognizedBufferType => "Impossible to infer type of buffer"@,
            ISM2ImportError::MissingParent(parent) => "Missing parent: 0x"@ + upper_hex(
                high_word(parent),
            ) + " 0x"@ + upper_hex(low_word(parent)),
            ISM2ImportError::SkinLinkageMiss(id) => "No joint for identifier 0x"@ + upper_hex(id),
            ISM2ImportError::MissingString(index) => "No string at index 0x"@ + upper_hex(index),
            ISM2ImportError::NoStringTable(Some(tag)) =>
                "No string table: the first section has Magic Number 0x"@ + upper_hex(tag),
            ISM2ImportError::NoStringTable(None) => "No string table: the file has no section"@,
        }
    }

    /// The error in words.
    pub fn message(&self) -> (text: String)
        ensures
            text@ == self.message_of(),
    {
        match self {
            ISM2ImportError::IO => String::from_str("Read or seek outside the file"),
            ISM2ImportError::MagicNumber(e) => e.message(),
            ISM2ImportError::UnknownSubSection(e) => e.message(),
            ISM2ImportError::NoAttributes => String::from_str("No Attributes in Vertices Buffer"),
            ISM2ImportError::UnrecognizedBufferType => String::from_str(
                "Impossible to infer type of buffer",
            ),
            ISM2ImportError::MissingParent(parent) => {
                let mut text: String = String::from_str("Missing parent: 0x");
                push_upper_hex(&mut text, (*parent / 0x1_0000_0000) as u32);
                text.append(" 0x");
                push_upper_hex(&mut text, (*parent % 0x1_0000_0000) as u32);
                text
            },
            ISM2ImportError::SkinLinkageMiss(id) => {
                let mut text: String = String::from_str("No joint for identifier 0x");
                push_upper_hex(&mut text, *id);
                text
            },
            ISM2ImportError::MissingString(index) => {
                let mut text: String = String::from_str("No string at index 0x");
                push_upper_hex(&mut text, *index);
                text
            },
            ISM2ImportError::NoStringTable(Some(tag)) => {
                let mut text: String = String::from_str(
                    "No string table: the first section has Magic Number 0x",
                );
                push_upper_hex(&mut text, *tag);
                text
            },
            ISM2ImportError::NoStringTable(None) => String::from_str(
                "No string table: the file has no section",
            ),
        }
    }
}

} // verus!
