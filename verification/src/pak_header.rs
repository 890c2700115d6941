//! The fixed 12-byte preamble of an archive.

use vstd::prelude::*;

use crate::layout::le32_at;
use crate::layout::push_char;
use crate::layout::read_le32;
use crate::pak_error::PakError;

verus! {

/// The magic identifier `"PACK"`, read as a little-endian 32-bit value.
pub const VALID_PAK_ID: u32 = 0x4B43_4150;

/// The decoded header: the magic identifier, the absolute byte offset of
/// the entry index, and the byte length of the entry index.
#[derive(Debug, Clone, Copy)]
pub struct PakHeader {
    pub id: u32,
    pub offset: u32,
    pub size: u32,
}

/// Holds when the 12-byte preamble of `s` decodes to a header that passes
/// every structural check: the magic matches, the index offset does not
/// fall inside the header, and the index size is a whole number of
/// 64-byte records.
pub open spec fn header_parses(s: Seq<u8>) -> bool {
    &&& s.len() >= 12
    &&& le32_at(s, 0) == VALID_PAK_ID
    &&& le32_at(s, 4) >= 12
    &&& le32_at(s, 8) % 64 == 0
}

/// Holds when the source ends before the first header field that is still
/// to be read: the fields are decoded in order, so a field that fails its
/// own check is reported even when a later field could not be read at all.
pub open spec fn header_eof(s: Seq<u8>) -> bool {
    ||| s.len() < 4
    ||| (s.len() < 8 && le32_at(s, 0) == VALID_PAK_ID)
    ||| (s.len() < 12 && le32_at(s, 0) == VALID_PAK_ID && le32_at(s, 4) >= 12)
}

/// Holds when the magic identifier is readable but wrong.
pub open spec fn header_bad_id(s: Seq<u8>) -> bool {
    s.len() >= 4 && le32_at(s, 0) != VALID_PAK_ID
}

/// Holds when the index offset is readable but falls inside the header.
pub open spec fn header_bad_offset(s: Seq<u8>) -> bool {
    s.len() >= 8 && le32_at(s, 0) == VALID_PAK_ID && le32_at(s, 4) < 12
}

/// Holds when the index size is readable but not a whole number of
/// 64-byte records.
pub open spec fn header_bad_size(s: Seq<u8>) -> bool {
    s.len() >= 12 && le32_at(s, 0) == VALID_PAK_ID && le32_at(s, 4) >= 12 && le32_at(s, 8) % 64
        != 0
}

/// The four bytes of a 32-bit identifier, least significant first, each
/// mapped to the character with its value.
pub open spec fn id_chars(id: u32) -> Seq<char> {
    seq![
        (id % 0x100) as u8 as char,
        (id / 0x100 % 0x100) as u8 as char,
        (id / 0x1_0000 % 0x100) as u8 as char,
        (id / 0x100_0000) as u8 as char,
    ]
}

impl PakHeader {
    /// How many 64-byte entry records the declared index size holds.
    pub fn num_entries(&self) -> (r: usize)
        ensures
            r == self.size as int / 64,
    {
        self.size as usize / 64
    }

    /// The absolute byte offset of the entry index.
    pub fn offset(&self) -> (r: u32)
        ensures
            r == self.offset,
    {
        self.offset
    }

    /// The magic identifier rendered as the four characters of its
    /// little-endian bytes.
    pub fn id(&self) -> (r: String)
        ensures
            r@ == id_chars(self.id),
    {
        let mut id = String::new();
        push_char(&mut id, (self.id % 0x100) as u8 as char);
        push_char(&mut id, (self.id / 0x100 % 0x100) as u8 as char);
        push_char(&mut id, (self.id / 0x1_0000 % 0x100) as u8 as char);
        push_char(&mut id, (self.id / 0x100_0000) as u8 as char);
        proof {
            assert(id@ =~= id_chars(self.id));
        }
        id
    }

    /// Decodes and validates the 12-byte preamble of `source`.
    ///
    /// The three fields are read and checked in order, so a violation in an
    /// earlier field is reported even when a later field could not be read
    /// at all.
    pub fn from_file(source: &Vec<u8>) -> (r: Result<PakHeader, PakError>)
        ensures
            r is Ok <==> header_parses(source@),
            r matches Ok(h) ==> ({
                &&& h.id == VALID_PAK_ID
                &&& h.offset as int == le32_at(source@, 4)
                &&& h.size as int == le32_at(source@, 8)
            }),
            header_eof(source@) ==> r == Err::<PakHeader, PakError>(PakError::UnexpectedEof),
            header_bad_id(source@) ==> (r matches Err(PakError::InvalidField(f)) && f@
                == "header.id"@),
            header_bad_offset(source@) ==> (r matches Err(PakError::InvalidField(f)) && f@
                == "header.offset"@),
            header_bad_size(source@) ==> (r matches Err(PakError::InvalidField(f)) && f@
                == "header.size"@),
    {
        let n = source.len();

        if n < 4 {
            return Err(PakError::UnexpectedEof);
        }
        let id = read_le32(source, 0);
        if id != VALID_PAK_ID {
            return Err(PakError::InvalidField("header.id"));
        }

        if n < 8 {
            return Err(PakError::UnexpectedEof);
        }
        let offset = read_le32(source, 4);
        if offset < 12 {
            return Err(PakError::InvalidField("header.offset"));
        }

        if n < 12 {
            return Err(PakError::UnexpectedEof);
        }
        let size = read_le32(source, 8);
        if size % 64 != 0 {
            return Err(PakError::InvalidField("header.size"));
        }

        Ok(PakHeader { id, offset, size })
    }
}

} // verus!
