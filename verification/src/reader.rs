//! Random access to the bytes of a file: a cursor, little-endian reads, and the chunk
//! header that every structural record of the format starts with.

use vstd::prelude::*;
use crate::error::{ISM2ImportError, WrongMagicNumber, wrong_magic};

verus! {

/// Whether the `n` bytes from position `at` lie inside `bytes`.
pub open spec fn in_bounds(bytes: Seq<u8>, at: int, n: int) -> bool {
    0 <= at && 0 <= n && at + n <= bytes.len()
}

/// The little-endian 16-bit value of the two bytes at `at`.
pub open spec fn le_u16(bytes: Seq<u8>, at: int) -> u16 {
    (bytes[at] as int + 256 * (bytes[at + 1] as int)) as u16
}

/// The little-endian 32-bit value of the four bytes at `at`.
pub open spec fn le_u32(bytes: Seq<u8>, at: int) -> u32 {
    (bytes[at] as int + 256 * (bytes[at + 1] as int) + 65536 * (bytes[at + 2] as int) + 16777216
        * (bytes[at + 3] as int)) as u32
}

/// The 32-bit value at `at`, or the error of a read that leaves the file.
pub open spec fn read_u32(bytes: Seq<u8>, at: int) -> Result<u32, ISM2ImportError> {
    if in_bounds(bytes, at, 4) {
        Ok(le_u32(bytes, at))
    } else {
        Err(ISM2ImportError::IO)
    }
}

/// The table of `count` 32-bit values that starts at `at`.
pub open spec fn le_u32_table(bytes: Seq<u8>, at: int, count: nat) -> Seq<u32> {
    Seq::new(count, |i: int| le_u32(bytes, at + 4 * i))
}

/// What the header of a chunk at `at` yields: nothing but the knowledge that the tag, the
/// header size and the whole header are there, or the first thing that is wrong with it.
pub open spec fn chunk_header(bytes: Seq<u8>, at: int, magic: u32, header_size: u32) -> Result<
    (),
    ISM2ImportError,
> {
    if !in_bounds(bytes, at, 4) {
        Err(ISM2ImportError::IO)
    } else if le_u32(bytes, at) != magic {
        Err(wrong_magic(magic, le_u32(bytes, at)))
    } else if !in_bounds(bytes, at, 8) {
        Err(ISM2ImportError::IO)
    } else if le_u32(bytes, at + 4) != header_size {
        Err(wrong_magic(header_size, le_u32(bytes, at + 4)))
    } else if !in_bounds(bytes, at, header_size as int) {
        Err(ISM2ImportError::IO)
    } else {
        Ok(())
    }
}

/// The table of `count` absolute offsets at `at`, or the error of a table that leaves the
/// file.
pub open spec fn offset_table(bytes: Seq<u8>, at: int, count: u32) -> Result<
    Seq<u32>,
    ISM2ImportError,
> {
    if in_bounds(bytes, at, 4 * count) {
        Ok(le_u32_table(bytes, at, count as nat))
    } else {
        Err(ISM2ImportError::IO)
    }
}

/// The child offsets of the container chunk at `at`: its header is checked against `magic`
/// and `header_size`, the third word of the header counts the children, and the table of
/// their offsets follows the header.
pub open spec fn chunk_children(bytes: Seq<u8>, at: int, magic: u32, header_size: u32) -> Result<
    Seq<u32>,
    ISM2ImportError,
> {
    match chunk_header(bytes, at, magic, header_size) {
        Err(e) => Err(e),
        Ok(_) => offset_table(bytes, at + header_size, le_u32(bytes, at + 8)),
    }
}

/// What the word at `at`, which lies inside the file, yields when the format fixes it to
/// `expected`.
pub open spec fn fixed_word(bytes: Seq<u8>, at: int, expected: u32) -> Result<
    (),
    ISM2ImportError,
> {
    if le_u32(bytes, at) == expected {
        Ok(())
    } else {
        Err(wrong_magic(expected, le_u32(bytes, at)))
    }
}

/// What a record of `size` bytes at `at` yields that starts with the tag `magic` and has no
/// other fixed word: the knowledge that the tag and the whole record are there, or the
/// first thing that is wrong with it.
pub open spec fn tagged_record(bytes: Seq<u8>, at: int, magic: u32, size: int) -> Result<
    (),
    ISM2ImportError,
> {
    match read_u32(bytes, at) {
        Err(e) => Err(e),
        Ok(read) => if read != magic {
            Err(wrong_magic(magic, read))
        } else if !in_bounds(bytes, at, size) {
            Err(ISM2ImportError::IO)
        } else {
            Ok(())
        },
    }
}

/// The child offsets of a container chunk at `at` whose second header word the format
/// does not fix: the tag is checked against `magic`, the third word counts the children,
/// and the table of their offsets follows it.
pub open spec fn loose_chunk_children(bytes: Seq<u8>, at: int, magic: u32) -> Result<
    Seq<u32>,
    ISM2ImportError,
> {
    match tagged_record(bytes, at, magic, 12) {
        Err(e) => Err(e),
        Ok(_) => offset_table(bytes, at + 12, le_u32(bytes, at + 8)),
    }
}

/// What the children at `offsets` decode to under `decode`, in order: the values of all of
/// them, or the error of the first that fails.
pub open spec fn decode_each<V>(
    bytes: Seq<u8>,
    offsets: Seq<u32>,
    decode: spec_fn(Seq<u8>, int) -> Result<V, ISM2ImportError>,
) -> Result<Seq<V>, ISM2ImportError>
    decreases offsets.len(),
{
    if offsets.len() == 0 {
        Ok(Seq::empty())
    } else {
        match decode_each(bytes, offsets.drop_last(), decode) {
            Err(e) => Err(e),
            Ok(values) => match decode(bytes, offsets.last() as int) {
                Err(e) => Err(e),
                Ok(value) => Ok(values.push(value)),
            },
        }
    }
}

/// Decoding one child more: the children before it, then the child.
pub proof fn lemma_decode_each_step<V>(
    bytes: Seq<u8>,
    offsets: Seq<u32>,
    decode: spec_fn(Seq<u8>, int) -> Result<V, ISM2ImportError>,
    i: int,
)
    requires
        0 <= i < offsets.len(),
    ensures
        decode_each(bytes, offsets.take(i + 1), decode) == match decode_each(
            bytes,
            offsets.take(i),
            decode,
        ) {
            Err(e) => Err(e),
            Ok(values) => match decode(bytes, offsets[i] as int) {
                Err(e) => Err(e),
                Ok(value) => Ok(values.push(value)),
            },
        },
{
    assert(offsets.take(i + 1).drop_last() == offsets.take(i));
}

/// Once a child fails, so does the whole list, with that child's error.
pub proof fn lemma_decode_each_fails<V>(
    bytes: Seq<u8>,
    offsets: Seq<u32>,
    decode: spec_fn(Seq<u8>, int) -> Result<V, ISM2ImportError>,
    i: int,
)
    requires
        0 <= i <= offsets.len(),
        decode_each(bytes, offsets.take(i), decode) is Err,
    ensures
        decode_each(bytes, offsets, decode) == decode_each(bytes, offsets.take(i), decode),
    decreases offsets.len() - i,
{
    if i < offsets.len() {
        lemma_decode_each_step(bytes, offsets, decode, i);
        lemma_decode_each_fails(bytes, offsets, decode, i + 1);
    } else {
        assert(offsets.take(i) == offsets);
    }
}

/// A container chunk whose header has been checked and whose offset table has been read.
pub struct Chunk {
    /// Position of the first byte of the header.
    pub start: usize,
    /// Absolute offsets of the children, in file order.
    pub offsets: Vec<u32>,
}

/// A cursor over the bytes of one file. The position never leaves the bytes: a seek or a
/// read that would do so fails and moves nothing.
pub struct Reader {
    data: Vec<u8>,
    position: usize,
}

impl Reader {
    #[verifier::type_invariant]
    spec fn inside(self) -> bool {
        self.position <= self.data.len()
    }

    /// The bytes of the file.
    pub closed spec fn bytes(&self) -> Seq<u8> {
        self.data@
    }

    /// The position of the cursor, counted from the first byte.
    pub open spec fn at(&self) -> int {
        self.offset() as int
    }

    /// The position of the cursor as a natural number.
    pub closed spec fn offset(&self) -> nat {
        self.position as nat
    }

    /// A cursor at the start of `data`.
    pub fn new(data: Vec<u8>) -> (reader: Reader)
        ensures
            reader.bytes() == data@,
            reader.at() == 0,
    {
        Reader { data, position: 0 }
    }

    /// The position of the cursor.
    pub fn position(&self) -> (at: usize)
        ensures
            at == self.at(),
            at <= self.bytes().len() <= usize::MAX,
    {
        proof {
            use_type_invariant(self);
        }
        self.position
    }

    /// The number of bytes in the file.
    pub fn len(&self) -> (n: usize)
        ensures
            n == self.bytes().len(),
    {
        self.data.len()
    }

    /// Moves the cursor to the absolute position `offset`.
    pub fn seek(&mut self, offset: u32) -> (done: Result<(), ISM2ImportError>)
        ensures
            final(self).bytes() == old(self).bytes(),
            offset <= old(self).bytes().len() ==> done == Ok::<(), ISM2ImportError>(())
                && final(self).at() == offset,
            offset > old(self).bytes().len() ==> done == Err::<(), ISM2ImportError>(
                ISM2ImportError::IO,
            ) && final(self).at() == old(self).at(),
    {
        if offset as usize <= self.data.len() {
            self.position = offset as usize;
            Ok(())
        } else {
            Err(ISM2ImportError::IO)
        }
    }

    /// Claims the next `n` bytes: moves the cursor past them and returns where they start.
    pub fn take(&mut self, n: usize) -> (start: Result<usize, ISM2ImportError>)
        ensures
            final(self).bytes() == old(self).bytes(),
            old(self).bytes().len() <= usize::MAX,
            in_bounds(old(self).bytes(), old(self).at(), n as int) ==> start == Ok::<
                usize,
                ISM2ImportError,
            >(old(self).at() as usize) && final(self).at() == old(self).at() + n,
            !in_bounds(old(self).bytes(), old(self).at(), n as int) ==> start == Err::<
                usize,
                ISM2ImportError,
            >(ISM2ImportError::IO) && final(self).at() == old(self).at(),
    {
        proof {
            use_type_invariant(&*self);
        }
        if n <= self.data.len() - self.position {
            let start: usize = self.position;
            self.position = start + n;
            Ok(start)
        } else {
            Err(ISM2ImportError::IO)
        }
    }

    /// The byte at the absolute position `at`.
    pub fn u8_at(&self, at: usize) -> (value: u8)
        requires
            in_bounds(self.bytes(), at as int, 1),
        ensures
            value == self.bytes()[at as int],
    {
        self.data[at]
    }

    /// The little-endian 16-bit value at the absolute position `at`.
    pub fn le_u16_at(&self, at: usize) -> (value: u16)
        requires
            in_bounds(self.bytes(), at as int, 2),
        ensures
            value == le_u16(self.bytes(), at as int),
    {
        let len: usize = self.data.len();
        assert(at + 2 <= len);
        let b0: u16 = self.data[at] as u16;
        let b1: u16 = self.data[at + 1] as u16;
        b0 + 256 * b1
    }

    /// The little-endian 32-bit value at the absolute position `at`.
    pub fn le_u32_at(&self, at: usize) -> (value: u32)
        requires
            in_bounds(self.bytes(), at as int, 4),
        ensures
            value == le_u32(self.bytes(), at as int),
    {
        let len: usize = self.data.len();
        assert(at + 4 <= len);
        let b0: u32 = self.data[at] as u32;
        let b1: u32 = self.data[at + 1] as u32;
        let b2: u32 = self.data[at + 2] as u32;
        let b3: u32 = self.data[at + 3] as u32;
        b0 + 256 * b1 + 65536 * b2 + 16777216 * b3
    }

    /// Reads one byte at the cursor.
    pub fn read_to_u8(&mut self) -> (value: Result<u8, ISM2ImportError>)
        ensures
            final(self).bytes() == old(self).bytes(),
            in_bounds(old(self).bytes(), old(self).at(), 1) ==> value == Ok::<u8, ISM2ImportError>(
                old(self).bytes()[old(self).at()],
            ) && final(self).at() == old(self).at() + 1,
            !in_bounds(old(self).bytes(), old(self).at(), 1) ==> value == Err::<
                u8,
                ISM2ImportError,
            >(ISM2ImportError::IO) && final(self).at() == old(self).at(),
    {
        let start: usize = self.take(1)?;
        Ok(self.u8_at(start))
    }

    /// Reads a little-endian 16-bit value at the cursor.
    pub fn read_le_to_u16(&mut self) -> (value: Result<u16, ISM2ImportError>)
        ensures
            final(self).bytes() == old(self).bytes(),
            in_bounds(old(self).bytes(), old(self).at(), 2) ==> value == Ok::<u16, ISM2ImportError>(
                le_u16(old(self).bytes(), old(self).at()),
            ) && final(self).at() == old(self).at() + 2,
            !in_bounds(old(self).bytes(), old(self).at(), 2) ==> value == Err::<
                u16,
                ISM2ImportError,
            >(ISM2ImportError::IO) && final(self).at() == old(self).at(),
    {
        let start: usize = self.take(2)?;
        Ok(self.le_u16_at(start))
    }

    /// Reads a little-endian 32-bit value at the cursor.
    pub fn read_le_to_u32(&mut self) -> (value: Result<u32, ISM2ImportError>)
        ensures
            final(self).bytes() == old(self).bytes(),
            value == read_u32(old(self).bytes(), old(self).at()),
            final(self).at() == if value is Ok {
                old(self).at() + 4
            } else {
                old(self).at()
            },
    {
        let start: usize = self.take(4)?;
        Ok(self.le_u32_at(start))
    }

    /// The little-endian 32-bit value at the cursor, which stays where it is.
    pub fn peek_le_to_u32(&self) -> (value: Result<u32, ISM2ImportError>)
        ensures
            value == read_u32(self.bytes(), self.at()),
    {
        proof {
            use_type_invariant(self);
        }
        if 4 <= self.data.len() - self.position {
            Ok(self.le_u32_at(self.position))
        } else {
            Err(ISM2ImportError::IO)
        }
    }

    /// Reads a 32-bit word that the format fixes to `expected`.
    pub fn check_magic_number(&mut self, expected: u32) -> (done: Result<(), ISM2ImportError>)
        ensures
            final(self).bytes() == old(self).bytes(),
            done == match read_u32(old(self).bytes(), old(self).at()) {
                Err(e) => Err::<(), ISM2ImportError>(e),
                Ok(read) => if read == expected {
                    Ok(())
                } else {
                    Err(wrong_magic(expected, read))
                },
            },
            final(self).at() == if done is Ok {
                old(self).at() + 4
            } else {
                old(self).at()
            },
    {
        let read: u32 = self.peek_le_to_u32()?;
        if read == expected {
            let _ = self.take(4);
            Ok(())
        } else {
            Err(ISM2ImportError::MagicNumber(WrongMagicNumber { expected, read }))
        }
    }

    /// Checks the header of the chunk at the cursor and moves past it. Returns where the
    /// header starts, so that its other fields can be read by position.
    pub fn read_header(&mut self, magic: u32, header_size: u32) -> (start: Result<
        usize,
        ISM2ImportError,
    >)
        requires
            header_size >= 8,
        ensures
            final(self).bytes() == old(self).bytes(),
            old(self).bytes().len() <= usize::MAX,
            match start {
                Ok(s) => chunk_header(old(self).bytes(), old(self).at(), magic, header_size)
                    is Ok && s == old(self).at() && final(self).at() == old(self).at()
                    + header_size,
                Err(e) => chunk_header(old(self).bytes(), old(self).at(), magic, header_size)
                    == Err::<(), ISM2ImportError>(e),
            },
    {
        let start: usize = self.position();
        self.check_magic_number(magic)?;
        self.check_magic_number(header_size)?;
        let _ = self.take((header_size - 8) as usize)?;
        Ok(start)
    }

    /// Reads a table of `count` absolute offsets at the cursor.
    pub fn read_offsets(&mut self, count: u32) -> (table: Result<Vec<u32>, ISM2ImportError>)
        ensures
            final(self).bytes() == old(self).bytes(),
            match table {
                Ok(t) => offset_table(old(self).bytes(), old(self).at(), count) == Ok::<
                    Seq<u32>,
                    ISM2ImportError,
                >(t@) && final(self).at() == old(self).at() + 4 * count,
                Err(e) => offset_table(old(self).bytes(), old(self).at(), count) == Err::<
                    Seq<u32>,
                    ISM2ImportError,
                >(e),
            },
    {
        proof {
            use_type_invariant(&*self);
        }
        let len: usize = self.data.len();
        let available: usize = len - self.position;
        if (count as u64) * 4 > available as u64 {
            return Err(ISM2ImportError::IO);
        }
        let start: usize = self.position;
        let mut table: Vec<u32> = Vec::new();
        let mut i: usize = 0;
        while i < count as usize
            invariant
                self.bytes() == old(self).bytes(),
                self.at() == start,
                i <= count,
                start + 4 * count <= len == self.bytes().len(),
                table@ == le_u32_table(self.bytes(), start as int, i as nat),
            decreases count - i,
        {
            let value: u32 = self.le_u32_at(start + 4 * i);
            table.push(value);
            i = i + 1;
            assert(table@ =~= le_u32_table(self.bytes(), start as int, i as nat));
        }
        self.position = start + 4 * (count as usize);
        Ok(table)
    }

    /// Reads the container chunk at the cursor: checks its tag and header size, and reads
    /// the table of its children's offsets, which the third header word counts.
    pub fn read_chunk(&mut self, magic: u32, header_size: u32) -> (chunk: Result<
        Chunk,
        ISM2ImportError,
    >)
        requires
            header_size >= 12,
        ensures
            final(self).bytes() == old(self).bytes(),
            old(self).bytes().len() <= usize::MAX,
            match chunk {
                Ok(c) => chunk_children(old(self).bytes(), old(self).at(), magic, header_size)
                    == Ok::<Seq<u32>, ISM2ImportError>(c.offsets@) && c.start == old(self).at()
                    && in_bounds(old(self).bytes(), old(self).at(), header_size as int)
                    && final(self).at() == old(self).at() + header_size + 4 * c.offsets@.len(),
                Err(e) => chunk_children(old(self).bytes(), old(self).at(), magic, header_size)
                    == Err::<Seq<u32>, ISM2ImportError>(e),
            },
    {
        let start: usize = self.read_header(magic, header_size)?;
        let count: u32 = self.le_u32_at(start + 8);
        let offsets: Vec<u32> = self.read_offsets(count)?;
        Ok(Chunk { start, offsets })
    }

    /// Checks the tag of the record of `size` bytes at the cursor and moves past the
    /// record. Returns where it starts, so that its fields can be read by position.
    pub fn read_tagged(&mut self, magic: u32, size: usize) -> (start: Result<
        usize,
        ISM2ImportError,
    >)
        requires
            size >= 4,
        ensures
            final(self).bytes() == old(self).bytes(),
            old(self).bytes().len() <= usize::MAX,
            match start {
                Ok(s) => tagged_record(old(self).bytes(), old(self).at(), magic, size as int)
                    is Ok && s == old(self).at() && final(self).at() == old(self).at() + size,
                Err(e) => tagged_record(old(self).bytes(), old(self).at(), magic, size as int)
                    == Err::<(), ISM2ImportError>(e),
            },
    {
        let start: usize = self.position();
        self.check_magic_number(magic)?;
        let _ = self.take(size - 4)?;
        Ok(start)
    }

    /// Reads the container chunk at the cursor whose second header word the format does
    /// not fix: checks its tag and reads the table of its children's offsets.
    pub fn read_loose_chunk(&mut self, magic: u32) -> (offsets: Result<
        Vec<u32>,
        ISM2ImportError,
    >)
        ensures
            final(self).bytes() == old(self).bytes(),
            match offsets {
                Ok(table) => loose_chunk_children(old(self).bytes(), old(self).at(), magic)
                    == Ok::<Seq<u32>, ISM2ImportError>(table@) && final(self).at() == old(
                    self,
                ).at() + 12 + 4 * table@.len(),
                Err(e) => loose_chunk_children(old(self).bytes(), old(self).at(), magic)
                    == Err::<Seq<u32>, ISM2ImportError>(e),
            },
    {
        let start: usize = self.read_tagged(magic, 12)?;
        let count: u32 = self.le_u32_at(start + 8);
        self.read_offsets(count)
    }

    /// Checks the word at the absolute position `at` against the value that the format
    /// fixes for it.
    pub fn check_word_at(&self, at: usize, expected: u32) -> (done: Result<(), ISM2ImportError>)
        requires
            in_bounds(self.bytes(), at as int, 4),
        ensures
            done == fixed_word(self.bytes(), at as int, expected),
    {
        let read: u32 = self.le_u32_at(at);
        if read == expected {
            Ok(())
        } else {
            Err(ISM2ImportError::MagicNumber(WrongMagicNumber { expected, read }))
        }
    }
}

} // verus!
