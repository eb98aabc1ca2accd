//! The fixed-layout records of the ZIP format.
//!
//! Every record is decoded field by field from little-endian bytes, so a
//! record may start at any position of a buffer.

use crate::le::{le_u16, le_u32, le_u64, read_u16, read_u32, read_u64};
use core::ops::Range;
use vstd::prelude::*;
use vstd::slice::slice_subrange;

verus! {

pub const LOCAL_FILE_HEADER_SIGNATURE: u32 = 0x04034b50;

pub const CENTRAL_DIR_HEADER_SIGNATURE: u32 = 0x02014b50;

pub const CENTRAL_DIR_END_SIGNATURE: u32 = 0x06054b50;

pub const CENTRAL_DIR_END_SIGNATURE_ZIP64: u32 = 0x06064b50;

/// Number of bytes of a [`LocalFileHeader`].
pub const LOCAL_FILE_HEADER_SIZE: usize = 30;

/// Number of bytes of a [`CentralDirectoryFileHeader`].
pub const CENTRAL_DIR_HEADER_SIZE: usize = 46;

/// Number of bytes of a [`CentralDirectoryRecordEnd`].
pub const CENTRAL_DIR_END_SIZE: usize = 22;

/// Number of bytes of an [`ExtraHeader`].
pub const EXTRA_HEADER_SIZE: usize = 4;

/// Number of bytes of a [`Zip64Extra`].
pub const ZIP64_EXTRA_SIZE: usize = 28;

/// The header that precedes the payload of every archive member.
#[derive(Debug, Clone, Copy)]
pub struct LocalFileHeader {
    pub signature: u32,
    pub version_min: u16,
    pub flags: u16,
    pub compression_method: u16,
    pub last_mod_time: u16,
    pub last_mod_date: u16,
    pub uncompressed_crc: u32,
    pub compressed_size: u32,
    pub uncompressed_size: u32,
    pub filename_len: u16,
    pub extra_field_len: u16,
}

impl LocalFileHeader {
    /// The header whose bytes are the first 30 of `s`.
    pub open spec fn decode(s: Seq<u8>) -> Self {
        LocalFileHeader {
            signature: le_u32(s, 0),
            version_min: le_u16(s, 4),
            flags: le_u16(s, 6),
            compression_method: le_u16(s, 8),
            last_mod_time: le_u16(s, 10),
            last_mod_date: le_u16(s, 12),
            uncompressed_crc: le_u32(s, 14),
            compressed_size: le_u32(s, 18),
            uncompressed_size: le_u32(s, 22),
            filename_len: le_u16(s, 26),
            extra_field_len: le_u16(s, 28),
        }
    }

    pub open spec fn spec_parse(s: Seq<u8>) -> Option<Self> {
        if s.len() < LOCAL_FILE_HEADER_SIZE {
            None
        } else {
            Some(Self::decode(s))
        }
    }

    /// Decodes the header that `bytes` begins with, if `bytes` is long enough
    /// to hold one.
    pub fn parse(bytes: &[u8]) -> (header: Option<Self>)
        ensures
            header == Self::spec_parse(bytes@),
    {
        if bytes.len() < LOCAL_FILE_HEADER_SIZE {
            return None;
        }
        Some(
            LocalFileHeader {
                signature: read_u32(bytes, 0),
                version_min: read_u16(bytes, 4),
                flags: read_u16(bytes, 6),
                compression_method: read_u16(bytes, 8),
                last_mod_time: read_u16(bytes, 10),
                last_mod_date: read_u16(bytes, 12),
                uncompressed_crc: read_u32(bytes, 14),
                compressed_size: read_u32(bytes, 18),
                uncompressed_size: read_u32(bytes, 22),
                filename_len: read_u16(bytes, 26),
                extra_field_len: read_u16(bytes, 28),
            },
        )
    }
}

/// One entry of the central directory. The file name, the extra field block
/// and the comment follow it, in that order.
#[derive(Debug, Clone, Copy)]
pub struct CentralDirectoryFileHeader {
    pub signature: u32,
    pub version_made_by: u16,
    pub version_min: u16,
    pub flags: u16,
    pub compression_method: u16,
    pub last_mod_time: u16,
    pub last_mod_date: u16,
    pub decompressed_crc: u32,
    pub compressed_size: u32,
    pub decompressed_size: u32,
    pub filename_len: u16,
    pub extra_field_len: u16,
    pub file_comment_len: u16,
    pub disk_number: u16,
    pub file_attr_internal: u16,
    pub file_attr_external: u32,
    pub local_file_header_offset: u32,
}

impl CentralDirectoryFileHeader {
    /// The header whose bytes are the first 46 of `s`.
    pub open spec fn decode(s: Seq<u8>) -> Self {
        CentralDirectoryFileHeader {
            signature: le_u32(s, 0),
            version_made_by: le_u16(s, 4),
            version_min: le_u16(s, 6),
            flags: le_u16(s, 8),
            compression_method: le_u16(s, 10),
            last_mod_time: le_u16(s, 12),
            last_mod_date: le_u16(s, 14),
            decompressed_crc: le_u32(s, 16),
            compressed_size: le_u32(s, 20),
            decompressed_size: le_u32(s, 24),
            filename_len: le_u16(s, 28),
            extra_field_len: le_u16(s, 30),
            file_comment_len: le_u16(s, 32),
            disk_number: le_u16(s, 34),
            file_attr_internal: le_u16(s, 36),
            file_attr_external: le_u32(s, 38),
            local_file_header_offset: le_u32(s, 42),
        }
    }

    pub open spec fn spec_parse(s: Seq<u8>) -> Option<Self> {
        if s.len() < CENTRAL_DIR_HEADER_SIZE {
            None
        } else {
            Some(Self::decode(s))
        }
    }

    /// Bytes taken by the header together with the file name, the extra field
    /// block and the comment that it announces.
    pub open spec fn spec_record_len(self) -> int {
        CENTRAL_DIR_HEADER_SIZE + self.filename_len + self.extra_field_len + self.file_comment_len
    }

    /// Decodes the header that `bytes` begins with, if `bytes` is long enough
    /// to hold one. The signature is handed out as found, not validated.
    pub fn parse(bytes: &[u8]) -> (header: Option<Self>)
        ensures
            header == Self::spec_parse(bytes@),
    {
        if bytes.len() < CENTRAL_DIR_HEADER_SIZE {
            return None;
        }
        Some(
            CentralDirectoryFileHeader {
                signature: read_u32(bytes, 0),
                version_made_by: read_u16(bytes, 4),
                version_min: read_u16(bytes, 6),
                flags: read_u16(bytes, 8),
                compression_method: read_u16(bytes, 10),
                last_mod_time: read_u16(bytes, 12),
                last_mod_date: read_u16(bytes, 14),
                decompressed_crc: read_u32(bytes, 16),
                compressed_size: read_u32(bytes, 20),
                decompressed_size: read_u32(bytes, 24),
                filename_len: read_u16(bytes, 28),
                extra_field_len: read_u16(bytes, 30),
                file_comment_len: read_u16(bytes, 32),
                disk_number: read_u16(bytes, 34),
                file_attr_internal: read_u16(bytes, 36),
                file_attr_external: read_u32(bytes, 38),
                local_file_header_offset: read_u32(bytes, 42),
            },
        )
    }
}

/// The record that closes an archive. Only the archive comment follows it.
#[derive(Debug, Clone, Copy)]
pub struct CentralDirectoryRecordEnd {
    pub signature: u32,
    pub disk_num: u16,
    pub central_dir_start_disk: u16,
    pub central_dir_records_on_this_disk: u16,
    pub central_dir_records_total: u16,
    pub central_dir_size: u32,
    pub central_dir_offset: u32,
    pub comment_length: u16,
}

/// The end record read from the 22 bytes of `s` that are followed by exactly
/// `comment_len` more bytes.
pub open spec fn end_record_before(s: Seq<u8>, comment_len: int) -> CentralDirectoryRecordEnd {
    CentralDirectoryRecordEnd::decode(
        s.subrange(s.len() - CENTRAL_DIR_END_SIZE - comment_len, s.len() - comment_len),
    )
}

/// Whether an authentic end record lies `comment_len` bytes before the end of
/// `s`: the 22 bytes there carry the end signature, and the comment length
/// they declare is `comment_len`, so that the comment reaches the end of `s`
/// exactly.
pub open spec fn is_end_record(s: Seq<u8>, comment_len: int) -> bool {
    &&& 0 <= comment_len
    &&& comment_len + CENTRAL_DIR_END_SIZE <= s.len()
    &&& end_record_before(s, comment_len).signature == CENTRAL_DIR_END_SIGNATURE
    &&& end_record_before(s, comment_len).comment_length == comment_len
}

/// Whether an authentic end record lies `comment_len` bytes before the end of
/// `s` and none lies before it.
pub open spec fn is_topmost_end_record(s: Seq<u8>, comment_len: int) -> bool {
    &&& is_end_record(s, comment_len)
    &&& forall|d: int| is_end_record(s, d) ==> d <= comment_len
}

/// The comment length of the authentic end record of `s` that lies nearest
/// the start of `s`, if `s` holds any.
pub open spec fn spec_locate(s: Seq<u8>) -> Option<int> {
    if exists|d: int| is_end_record(s, d) {
        Some(choose|d: int| is_topmost_end_record(s, d))
    } else {
        None
    }
}

impl CentralDirectoryRecordEnd {
    /// The record whose bytes are the first 22 of `s`.
    pub open spec fn decode(s: Seq<u8>) -> Self {
        CentralDirectoryRecordEnd {
            signature: le_u32(s, 0),
            disk_num: le_u16(s, 4),
            central_dir_start_disk: le_u16(s, 6),
            central_dir_records_on_this_disk: le_u16(s, 8),
            central_dir_records_total: le_u16(s, 10),
            central_dir_size: le_u32(s, 12),
            central_dir_offset: le_u32(s, 16),
            comment_length: le_u16(s, 20),
        }
    }

    pub open spec fn spec_parse(s: Seq<u8>) -> Option<Self> {
        if s.len() < CENTRAL_DIR_END_SIZE {
            None
        } else {
            Some(Self::decode(s))
        }
    }

    /// What [`find`](Self::find) returns on a buffer that holds `s`.
    pub open spec fn spec_find(s: Seq<u8>) -> Option<(Self, usize)> {
        match spec_locate(s) {
            Some(d) => Some((end_record_before(s, d), d as usize)),
            None => None,
        }
    }

    /// Decodes the record that `bytes` begins with, if `bytes` is long enough
    /// to hold one.
    pub fn parse(bytes: &[u8]) -> (record: Option<Self>)
        ensures
            record == Self::spec_parse(bytes@),
    {
        if bytes.len() < CENTRAL_DIR_END_SIZE {
            return None;
        }
        Some(
            CentralDirectoryRecordEnd {
                signature: read_u32(bytes, 0),
                disk_num: read_u16(bytes, 4),
                central_dir_start_disk: read_u16(bytes, 6),
                central_dir_records_on_this_disk: read_u16(bytes, 8),
                central_dir_records_total: read_u16(bytes, 10),
                central_dir_size: read_u32(bytes, 12),
                central_dir_offset: read_u32(bytes, 16),
                comment_length: read_u16(bytes, 20),
            },
        )
    }

    /// Finds the end record of the archive in `bytes` and returns it with the
    /// length of the archive comment.
    ///
    /// The comment may itself hold bytes that look like an end record. A
    /// window of 22 bytes is therefore accepted only if it carries the end
    /// signature and the comment length it declares is its distance from the
    /// end of `bytes`. Where several windows pass, the one nearest the start
    /// of `bytes` is returned: the others lie inside its comment.
    pub fn find(bytes: &[u8]) -> (found: Option<(Self, usize)>)
        ensures
            found == Self::spec_find(bytes@),
            match found {
                Some((record, comment_len)) => {
                    &&& is_topmost_end_record(bytes@, comment_len as int)
                    &&& record == end_record_before(bytes@, comment_len as int)
                },
                None => forall|d: int| !is_end_record(bytes@, d),
            },
    {
        let len: usize = bytes.len();
        if len < CENTRAL_DIR_END_SIZE {
            return None;
        }
        let slack: usize = len - CENTRAL_DIR_END_SIZE;
        let mut comment_len: usize = if slack < 0xffff {
            slack
        } else {
            0xffff
        };
        loop
            invariant
                len == bytes@.len(),
                slack == len - CENTRAL_DIR_END_SIZE,
                comment_len <= slack,
                forall|d: int| comment_len < d ==> !is_end_record(bytes@, d),
            decreases comment_len,
        {
            let at: usize = slack - comment_len;
            if read_u32(bytes, at) == CENTRAL_DIR_END_SIGNATURE {
                let window = slice_subrange(bytes, at, at + CENTRAL_DIR_END_SIZE);
                match Self::parse(window) {
                    Some(record) => {
                        if record.comment_length as usize == comment_len {
                            proof {
                                lemma_topmost_end_record_is_found(bytes@, comment_len as int);
                            }
                            return Some((record, comment_len));
                        }
                    },
                    None => {},
                }
            }
            if comment_len == 0 {
                return None;
            }
            comment_len -= 1;
        }
    }

    /// The byte range of the central directory that the record announces.
    pub fn central_dir_range(&self) -> (range: Range<usize>)
        requires
            self.central_dir_offset + self.central_dir_size <= usize::MAX,
        ensures
            range.start == self.central_dir_offset,
            range.end == self.central_dir_offset + self.central_dir_size,
    {
        let offset: usize = self.central_dir_offset as usize;
        let size: usize = self.central_dir_size as usize;
        offset..offset + size
    }
}

/// An authentic end record above which no other lies is the one that is
/// found, with its distance from the end of the buffer as the length of the
/// comment. This holds of an empty comment as of any other.
pub proof fn lemma_topmost_end_record_is_found(s: Seq<u8>, comment_len: int)
    requires
        is_topmost_end_record(s, comment_len),
    ensures
        spec_locate(s) == Some(comment_len),
        CentralDirectoryRecordEnd::spec_find(s) == Some(
            (end_record_before(s, comment_len), comment_len as usize),
        ),
{
    let d = choose|d: int| is_topmost_end_record(s, d);
    assert(is_topmost_end_record(s, d));
}

/// An end record that is followed by a comment of the length it declares is
/// found with that length, be the comment empty or not, whatever lies before
/// the record, unless what lies before holds an authentic end record of its
/// own.
pub proof fn lemma_end_record_with_comment_is_found(
    before: Seq<u8>,
    record: Seq<u8>,
    comment: Seq<u8>,
)
    requires
        record.len() == CENTRAL_DIR_END_SIZE,
        CentralDirectoryRecordEnd::decode(record).signature == CENTRAL_DIR_END_SIGNATURE,
        CentralDirectoryRecordEnd::decode(record).comment_length == comment.len(),
        forall|d: int| comment.len() < d ==> !is_end_record(before + record + comment, d),
    ensures
        CentralDirectoryRecordEnd::spec_find(before + record + comment) == Some(
            (CentralDirectoryRecordEnd::decode(record), comment.len() as usize),
        ),
{
    let s = before + record + comment;
    let at = before.len() as int;
    assert(s.subrange(at, at + CENTRAL_DIR_END_SIZE) =~= record);
    lemma_topmost_end_record_is_found(s, comment.len() as int);
}

/// Where only one window of the buffer is an authentic end record, that one
/// is found, whatever the order in which the windows are looked at.
pub proof fn lemma_sole_end_record_is_found(s: Seq<u8>, comment_len: int)
    requires
        is_end_record(s, comment_len),
        forall|d: int| is_end_record(s, d) ==> d == comment_len,
    ensures
        CentralDirectoryRecordEnd::spec_find(s) == Some(
            (end_record_before(s, comment_len), comment_len as usize),
        ),
{
    lemma_topmost_end_record_is_found(s, comment_len);
}

/// Bytes in the comment of an end record that look like an end record
/// themselves are never taken for it: of two authentic windows the one that
/// lies nearer the end of the buffer is not the one that is found.
pub proof fn lemma_record_in_comment_is_passed_over(s: Seq<u8>, genuine: int, forged: int)
    requires
        is_end_record(s, genuine),
        is_end_record(s, forged),
        forged < genuine,
    ensures
        CentralDirectoryRecordEnd::spec_find(s) matches Some((_, comment_len)) && comment_len
            >= genuine,
{
    lemma_end_record_is_bounded(s);
}

/// A buffer too short to hold an end record has none.
pub proof fn lemma_short_buffer_has_no_end_record(s: Seq<u8>)
    requires
        s.len() < CENTRAL_DIR_END_SIZE,
    ensures
        CentralDirectoryRecordEnd::spec_find(s) is None,
{
}

/// Where a buffer holds an authentic end record it holds a topmost one, and
/// the comment of that one is no longer than 65535 bytes.
pub proof fn lemma_end_record_is_bounded(s: Seq<u8>)
    requires
        exists|d: int| is_end_record(s, d),
    ensures
        spec_locate(s) matches Some(d) && is_topmost_end_record(s, d) && d <= 0xffff,
{
    let first = choose|d: int| is_end_record(s, d);
    lemma_topmost_from(s, first, 0xffff);
}

/// Looking downward from `limit`, above which no authentic end record lies,
/// one comes upon the topmost, given that there is one at `known`.
proof fn lemma_topmost_from(s: Seq<u8>, known: int, limit: int)
    requires
        is_end_record(s, known),
        known <= limit,
        forall|d: int| limit < d ==> !is_end_record(s, d),
    ensures
        exists|d: int| is_topmost_end_record(s, d),
    decreases limit - known,
{
    if is_end_record(s, limit) {
        assert(is_topmost_end_record(s, limit));
    } else {
        lemma_topmost_from(s, known, limit - 1);
    }
}

/// The header of one record of an extra field block: a signal that tells what
/// the record holds, and the number of payload bytes that follow.
#[derive(Debug, Clone, Copy)]
pub struct ExtraHeader {
    pub header: u16,
    pub extra_field_size: u16,
}

impl ExtraHeader {
    /// The header whose bytes are the first 4 of `s`.
    pub open spec fn decode(s: Seq<u8>) -> Self {
        ExtraHeader { header: le_u16(s, 0), extra_field_size: le_u16(s, 2) }
    }

    pub open spec fn spec_parse(s: Seq<u8>) -> Option<Self> {
        if s.len() < EXTRA_HEADER_SIZE {
            None
        } else {
            Some(Self::decode(s))
        }
    }

    /// Decodes the header that `bytes` begins with, if `bytes` is long enough
    /// to hold one.
    pub fn parse(bytes: &[u8]) -> (header: Option<Self>)
        ensures
            header == Self::spec_parse(bytes@),
    {
        if bytes.len() < EXTRA_HEADER_SIZE {
            return None;
        }
        Some(ExtraHeader { header: read_u16(bytes, 0), extra_field_size: read_u16(bytes, 2) })
    }
}

/// The payload of the Zip64 extra field record.
#[derive(Debug, Clone, Copy)]
pub struct Zip64Extra {
    pub decompressed_size: u64,
    pub compressed_size: u64,
    pub local_header_record_offset: u64,
    pub disk_no: u32,
}

impl Zip64Extra {
    /// The payload whose bytes are the first 28 of `s`.
    pub open spec fn decode(s: Seq<u8>) -> Self {
        Zip64Extra {
            decompressed_size: le_u64(s, 0),
            compressed_size: le_u64(s, 8),
            local_header_record_offset: le_u64(s, 16),
            disk_no: le_u32(s, 24),
        }
    }

    pub open spec fn spec_parse(s: Seq<u8>) -> Option<Self> {
        if s.len() < ZIP64_EXTRA_SIZE {
            None
        } else {
            Some(Self::decode(s))
        }
    }

    /// Decodes the payload that `bytes` begins with, if `bytes` is long
    /// enough to hold one.
    pub fn parse(bytes: &[u8]) -> (payload: Option<Self>)
        ensures
            payload == Self::spec_parse(bytes@),
    {
        if bytes.len() < ZIP64_EXTRA_SIZE {
            return None;
        }
        Some(
            Zip64Extra {
                decompressed_size: read_u64(bytes, 0),
                compressed_size: read_u64(bytes, 8),
                local_header_record_offset: read_u64(bytes, 16),
                disk_no: read_u32(bytes, 24),
            },
        )
    }
}

/// The Zip64 form of the record that closes an archive. It is described here
/// for callers; nothing in this crate reads it yet.
#[derive(Debug, Clone, Copy)]
pub struct Zip64CentralDirectoryRecordEnd {
    pub signature: u32,
    pub self_size: u64,
    pub version_made_by: u16,
    pub version_min: u16,
    pub disk_num: u32,
    pub central_dir_start_disk: u32,
    pub central_dir_records_on_this_disk: u64,
    pub central_dir_records_total: u64,
    pub central_directory_size: u64,
    pub central_dir_offset: u64,
}

} // verus!
