//! One 64-byte index record: a NUL-padded name and the location of the
//! entry's payload.

use vstd::prelude::*;

use vstd::slice::slice_subrange;
use vstd::slice::slice_to_vec;

use crate::layout::le32_at;
use crate::layout::push_char;
use crate::layout::read_le32;
use crate::pak_error::PakError;

verus! {

/// A decoded index record.  `name` is the logical name: the record's
/// 56-byte name field truncated at the first NUL, each byte mapped
/// permissively to the character with its value.
#[derive(Debug)]
pub struct PakFileEntry {
    pub name: String,
    pub offset: u32,
    pub size: u32,
}

/// The length of the logical name held in a NUL-padded name field: the
/// position of the first zero byte, or the whole field if none occurs.
pub open spec fn name_len(field: Seq<u8>) -> int
    decreases field.len(),
{
    if field.len() == 0 {
        0
    } else if field[0] == 0 {
        0
    } else {
        1 + name_len(field.drop_first())
    }
}

/// The logical name held in a NUL-padded name field, each byte mapped to
/// the character with its value.
pub open spec fn name_chars(field: Seq<u8>) -> Seq<char> {
    Seq::new(name_len(field) as nat, |i: int| field[i] as char)
}

/// The position of the first zero byte bounds and characterizes the
/// logical name: nothing before it is zero, and it lies at the name's end.
pub proof fn lemma_name_len(field: Seq<u8>)
    ensures
        0 <= name_len(field) <= field.len(),
        name_len(field) < field.len() ==> field[name_len(field)] == 0,
        forall|j: int| 0 <= j < name_len(field) ==> field[j] != 0,
    decreases field.len(),
{
    if field.len() > 0 && field[0] != 0 {
        lemma_name_len(field.drop_first());
        assert forall|j: int| 0 <= j < name_len(field) implies field[j] != 0 by {
            if j > 0 {
                assert(field.drop_first()[j - 1] != 0);
            }
        }
    }
}

/// Name truncation: a NUL at position `k` of the 56-byte name field, with
/// no NUL before it, truncates the logical name to exactly `k` characters.
pub proof fn lemma_name_truncation(field: Seq<u8>, k: int)
    requires
        field.len() == 56,
        0 <= k < 56,
        field[k] == 0,
        forall|j: int| 0 <= j < k ==> field[j] != 0,
    ensures
        name_len(field) == k,
        name_chars(field).len() == k,
{
    lemma_name_len(field);
}

/// The 56-byte name field of the record that starts at `base`.
pub open spec fn name_field(s: Seq<u8>, base: int) -> Seq<u8> {
    s.subrange(base, base + 56)
}

/// Holds when `e` is the decoding of the 64-byte record of `s` that starts
/// at `base`: the logical name from the NUL-padded name field, then the
/// payload offset and size as little-endian 32-bit integers.
pub open spec fn entry_matches(e: PakFileEntry, s: Seq<u8>, base: int) -> bool {
    &&& e.name@ == name_chars(name_field(s, base))
    &&& e.offset as int == le32_at(s, base + 56)
    &&& e.size as int == le32_at(s, base + 60)
}

/// Holds when the payload of `e` can be read out of `s`: its region
/// `[offset, offset + size)` lies within the source.  An empty payload
/// needs no bytes and is always readable.
pub open spec fn payload_readable(e: PakFileEntry, s: Seq<u8>) -> bool {
    e.size == 0 || e.offset as int + e.size as int <= s.len()
}

/// The payload of `e` within the source `s`: the `size` bytes that start
/// at `offset`.
pub open spec fn spec_payload(e: PakFileEntry, s: Seq<u8>) -> Seq<u8> {
    if e.size == 0 {
        Seq::empty()
    } else {
        s.subrange(e.offset as int, e.offset as int + e.size as int)
    }
}

/// Holds when all `count` records of an index that starts at `base` lie
/// within the source.  An index with no records needs no bytes at all.
pub open spec fn index_in_bounds(s: Seq<u8>, count: int, base: int) -> bool {
    count == 0 || base + count * 64 <= s.len()
}

impl PakFileEntry {
    /// The size in bytes of one on-disk entry record.
    pub const SIZE: usize = 64;

    /// The logical name of the entry.
    pub fn name(&self) -> (r: &str)
        ensures
            r@ == self.name@,
    {
        self.name.as_str()
    }

    /// Decodes the `length` consecutive 64-byte records that start at
    /// `offset`, in on-disk order.  The first record that does not lie
    /// wholly within the source aborts the decode.
    pub fn load_entries(source: &Vec<u8>, length: usize, offset: u32) -> (r: Result<
        Vec<PakFileEntry>,
        PakError,
    >)
        ensures
            r is Ok <==> index_in_bounds(source@, length as int, offset as int),
            r matches Ok(es) ==> ({
                &&& es@.len() == length
                &&& forall|i: int|
                    0 <= i < length ==> entry_matches(
                        #[trigger] es@[i],
                        source@,
                        offset as int + i * 64,
                    )
            }),
            r is Err ==> r == Err::<Vec<PakFileEntry>, PakError>(PakError::UnexpectedEof),
    {
        let n = source.len();
        let mut entries: Vec<PakFileEntry> = Vec::new();
        let mut i: usize = 0;

        while i < length
            invariant
                i <= length,
                n == source@.len(),
                entries@.len() == i,
                i > 0 ==> offset as int + i as int * 64 <= n as int,
                forall|j: int|
                    0 <= j < i ==> entry_matches(
                        #[trigger] entries@[j],
                        source@,
                        offset as int + j * 64,
                    ),
            decreases length - i,
        {
            let base = offset as usize + i * 64;
            if base > n || n - base < 64 {
                return Err(PakError::UnexpectedEof);
            }
            let ghost field = name_field(source@, base as int);

            // Read the name: the bytes up to the first NUL, or the whole
            // 56-byte field if none occurs.
            let mut k: usize = 0;
            while k < 56 && source[base + k] != 0
                invariant
                    k <= 56,
                    n == source@.len(),
                    base as int + 64 <= n as int,
                    field == name_field(source@, base as int),
                    forall|j: int| 0 <= j < k ==> field[j] != 0,
                decreases 56 - k,
            {
                k += 1;
            }
            proof {
                lemma_name_len(field);
                assert(field.len() == 56);
                assert(k == 56 || field[k as int] == 0);
                assert(name_len(field) == k);
            }

            let mut name = String::new();
            let mut j: usize = 0;
            while j < k
                invariant
                    j <= k <= 56,
                    n == source@.len(),
                    base as int + 64 <= n as int,
                    field == name_field(source@, base as int),
                    name@ == Seq::new(j as nat, |t: int| field[t] as char),
                decreases k - j,
            {
                push_char(&mut name, source[base + j] as char);
                j += 1;
                proof {
                    assert(name@ =~= Seq::new(j as nat, |t: int| field[t] as char));
                }
            }
            proof {
                assert(name@ =~= name_chars(field));
            }

            // Read the payload offset and size.
            let entry_offset = read_le32(source, base + 56);
            let entry_size = read_le32(source, base + 60);

            entries.push(PakFileEntry { name, offset: entry_offset, size: entry_size });
            i += 1;
        }

        Ok(entries)
    }

    /// Reads this entry's payload out of the source: the `size` bytes that
    /// start at `offset`.  An entry of size zero yields an empty buffer
    /// without touching the source at all.
    pub fn load(&self, source: &Vec<u8>) -> (r: Result<Vec<u8>, PakError>)
        ensures
            r is Ok <==> payload_readable(*self, source@),
            r matches Ok(b) ==> b@ == spec_payload(*self, source@),
            r is Err ==> r == Err::<Vec<u8>, PakError>(PakError::UnexpectedEof),
    {
        if self.size == 0 {
            return Ok(Vec::new());
        }
        let n = source.len();
        let off = self.offset as usize;
        let sz = self.size as usize;
        if off > n || n - off < sz {
            return Err(PakError::UnexpectedEof);
        }
        let payload = slice_to_vec(slice_subrange(source.as_slice(), off, off + sz));
        Ok(payload)
    }
}

} // verus!
