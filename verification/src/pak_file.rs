//! The archive handle: the byte source together with its decoded header
//! and entry index.

use vstd::prelude::*;

use crate::layout::le32_at;
use crate::pak_error::PakError;
use crate::pak_file_entry::entry_matches;
use crate::pak_file_entry::index_in_bounds;
use crate::pak_file_entry::name_field;
use crate::pak_file_entry::name_len;
use crate::pak_file_entry::payload_readable;
use crate::pak_file_entry::spec_payload;
use crate::pak_file_entry::PakFileEntry;
use crate::pak_header::header_bad_id;
use crate::pak_header::header_bad_offset;
use crate::pak_header::header_bad_size;
use crate::pak_header::header_eof;
use crate::pak_header::header_parses;
use crate::pak_header::PakHeader;
use crate::pak_header::VALID_PAK_ID;

verus! {

/// An opened archive.  The handle owns the byte source it was opened from,
/// the decoded header, and the entry records in on-disk order.
#[derive(Debug)]
pub struct PakFile {
    pub source: Vec<u8>,
    pub header: PakHeader,
    pub entries: Vec<PakFileEntry>,
}

/// The position of the first entry whose logical name equals `name`, or
/// `entries.len()` when no entry carries that name.  Lookup resolves
/// duplicate names to their first on-disk occurrence.
pub open spec fn first_match(entries: Seq<PakFileEntry>, name: Seq<char>) -> int
    decreases entries.len(),
{
    if entries.len() == 0 {
        0
    } else if entries[0].name@ == name {
        0
    } else {
        1 + first_match(entries.drop_first(), name)
    }
}

/// The first match bounds and characterizes the lookup: no earlier entry
/// carries the name, and the found entry does.
pub proof fn lemma_first_match(entries: Seq<PakFileEntry>, name: Seq<char>)
    ensures
        0 <= first_match(entries, name) <= entries.len(),
        first_match(entries, name) < entries.len() ==> entries[first_match(entries, name)].name@
            == name,
        forall|j: int| 0 <= j < first_match(entries, name) ==> entries[j].name@ != name,
    decreases entries.len(),
{
    if entries.len() > 0 && entries[0].name@ != name {
        lemma_first_match(entries.drop_first(), name);
        assert forall|j: int| 0 <= j < first_match(entries, name) implies entries[j].name@
            != name by {
            if j > 0 {
                assert(entries.drop_first()[j - 1].name@ != name);
            }
        }
    }
}

/// Holds when `p` is exactly what opening the archive bytes `s` yields:
/// the retained source, the validated header, and the entry records of the
/// declared index in on-disk order.
pub open spec fn loaded_from(p: PakFile, s: Seq<u8>) -> bool {
    &&& p.source@ == s
    &&& header_parses(s)
    &&& p.header.id == VALID_PAK_ID
    &&& p.header.offset as int == le32_at(s, 4)
    &&& p.header.size as int == le32_at(s, 8)
    &&& p.entries@.len() == le32_at(s, 8) / 64
    &&& forall|i: int|
        0 <= i < p.entries@.len() ==> entry_matches(#[trigger] p.entries@[i], s, le32_at(s, 4) + i
            * 64)
}

/// The absolute position of record `i` of the index that the header of
/// `s` declares.
pub open spec fn record_base(s: Seq<u8>, i: int) -> int {
    le32_at(s, 4) + i * 64
}

/// Holds when record `i` of the index that the header of `s` declares
/// keeps the per-entry promises of a conformant writer: the payload region
/// lies within the source and the logical name is non-empty.
pub open spec fn record_ok(s: Seq<u8>, i: int) -> bool {
    &&& le32_at(s, record_base(s, i) + 56) + le32_at(s, record_base(s, i) + 60) <= s.len()
    &&& name_len(name_field(s, record_base(s, i))) > 0
}

/// Holds of every archive a conformant writer produces: the header passes
/// its checks, the declared index lies within the source, and every
/// record keeps its per-entry promises.
pub open spec fn valid_archive(s: Seq<u8>) -> bool {
    &&& header_parses(s)
    &&& index_in_bounds(s, le32_at(s, 8) / 64, le32_at(s, 4))
    &&& forall|i: int| 0 <= i < le32_at(s, 8) / 64 ==> #[trigger] record_ok(s, i)
}

/// What extracting `name` from the handle `p` yields: the payload of the
/// first entry with that name, or nothing when no entry carries the name
/// or the found entry's payload lies outside the source.
pub open spec fn extract_result(p: PakFile, name: Seq<char>) -> Option<Seq<u8>> {
    let m = first_match(p.entries@, name);
    if m < p.entries@.len() && payload_readable(p.entries@[m], p.source@) {
        Some(spec_payload(p.entries@[m], p.source@))
    } else {
        None
    }
}

impl PakFile {
    /// The byte source the archive was opened from.
    pub fn source(&self) -> (r: &Vec<u8>)
        ensures
            r@ == self.source@,
    {
        &self.source
    }

    /// The decoded header.
    pub fn header(&self) -> (r: &PakHeader)
        ensures
            *r == self.header,
    {
        &self.header
    }

    /// The decoded entry records, in on-disk order.
    pub fn entries(&self) -> (r: &Vec<PakFileEntry>)
        ensures
            r@ == self.entries@,
    {
        &self.entries
    }

    /// Opens an archive: decodes and validates the header, then decodes
    /// the entry index the header declares, and returns the handle that
    /// owns the source together with both.
    pub fn load(source: Vec<u8>) -> (r: Result<PakFile, PakError>)
        ensures
            r is Ok <==> (header_parses(source@) && index_in_bounds(
                source@,
                le32_at(source@, 8) / 64,
                le32_at(source@, 4),
            )),
            r matches Ok(p) ==> loaded_from(p, source@),
            header_eof(source@) ==> r == Err::<PakFile, PakError>(PakError::UnexpectedEof),
            header_bad_id(source@) ==> (r matches Err(PakError::InvalidField(f)) && f@
                == "header.id"@),
            header_bad_offset(source@) ==> (r matches Err(PakError::InvalidField(f)) && f@
                == "header.offset"@),
            header_bad_size(source@) ==> (r matches Err(PakError::InvalidField(f)) && f@
                == "header.size"@),
            header_parses(source@) && !index_in_bounds(
                source@,
                le32_at(source@, 8) / 64,
                le32_at(source@, 4),
            ) ==> r == Err::<PakFile, PakError>(PakError::UnexpectedEof),
    {
        let header = match PakHeader::from_file(&source) {
            Ok(header) => header,
            Err(error) => {
                return Err(error);
            },
        };
        let entries = match PakFileEntry::load_entries(
            &source,
            header.num_entries(),
            header.offset(),
        ) {
            Ok(entries) => entries,
            Err(error) => {
                return Err(error);
            },
        };
        Ok(PakFile { source, header, entries })
    }

    /// Extracts the payload of the entry named `path`: a linear scan of
    /// the index resolves the name to its first on-disk occurrence, whose
    /// payload is then read out of the source.  The handle itself is left
    /// unchanged.
    pub fn load_entry(&mut self, path: &str) -> (r: Result<Vec<u8>, PakError>)
        ensures
            *final(self) == *old(self),
            r is Ok <==> extract_result(*old(self), path@) is Some,
            r matches Ok(b) ==> extract_result(*old(self), path@) == Some(b@),
            first_match(old(self).entries@, path@) == old(self).entries@.len() ==> (r matches Err(
                PakError::MissingEntry(m),
            ) && m@ == path@),
            first_match(old(self).entries@, path@) < old(self).entries@.len()
                && !payload_readable(
                old(self).entries@[first_match(old(self).entries@, path@)],
                old(self).source@,
            ) ==> r == Err::<Vec<u8>, PakError>(PakError::UnexpectedEof),
    {
        let key: String = path.to_owned();
        let count = self.entries.len();
        let mut i: usize = 0;

        while i < count
            invariant
                *self == *old(self),
                i <= count == self.entries@.len(),
                key@ == path@,
                forall|j: int| 0 <= j < i ==> self.entries@[j].name@ != path@,
            decreases count - i,
        {
            if self.entries[i].name == key {
                proof {
                    lemma_first_match(self.entries@, path@);
                    assert(first_match(self.entries@, path@) == i);
                }
                return self.entries[i].load(&self.source);
            }
            i += 1;
        }

        proof {
            lemma_first_match(self.entries@, path@);
            assert(first_match(self.entries@, path@) == count);
        }
        Err(PakError::MissingEntry(key))
    }
}

/// For every archive a conformant writer produces, opening succeeds — the
/// two conditions below are exactly those under which `PakFile::load`
/// returns a handle — and the handle lists one entry per 64 bytes of
/// declared index size.
pub proof fn lemma_valid_archive_opens(s: Seq<u8>)
    requires
        valid_archive(s),
    ensures
        header_parses(s),
        index_in_bounds(s, le32_at(s, 8) / 64, le32_at(s, 4)),
        forall|p: PakFile| #[trigger] loaded_from(p, s) ==> p.entries@.len() == le32_at(s, 8) / 64,
{
}

/// For every archive a conformant writer produces and every entry of the
/// handle it opens into: extracting the entry's name succeeds and returns
/// exactly the entry's `size` bytes, provided no earlier entry carries the
/// same name (lookup resolves a duplicated name to its first on-disk
/// occurrence).
pub proof fn lemma_valid_archive_extracts(p: PakFile, s: Seq<u8>, i: int)
    requires
        valid_archive(s),
        loaded_from(p, s),
        0 <= i < p.entries@.len(),
        forall|j: int| 0 <= j < i ==> p.entries@[j].name@ != p.entries@[i].name@,
    ensures
        extract_result(p, p.entries@[i].name@) matches Some(b) && b.len() == p.entries@[i].size,
{
    let name = p.entries@[i].name@;
    lemma_first_match(p.entries@, name);
    assert(first_match(p.entries@, name) == i);
    assert(record_ok(s, i));
    assert(entry_matches(p.entries@[i], s, record_base(s, i)));
    assert(payload_readable(p.entries@[i], p.source@));
}

/// Idempotence of extraction: what extraction yields is a function of the
/// handle and the name alone, and `PakFile::load_entry` both returns that
/// value and leaves the handle unchanged — so repeated calls for the same
/// name return byte-identical buffers.
pub proof fn lemma_extract_idempotent(p1: PakFile, p2: PakFile, name: Seq<char>)
    requires
        p1 == p2,
    ensures
        extract_result(p1, name) == extract_result(p2, name),
{
}

} // verus!
