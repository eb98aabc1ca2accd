//! Zero-copy reader for the ZIP archive container format.
//!
//! [`Zip::new`] finds the record that closes an archive and hands out a
//! cursor over the central directory. Each step of the cursor resolves one
//! entry: its name, extra fields, comment and payload are views into the
//! caller's buffer, and nothing is copied or decompressed.

use crate::extra::Zip64;
use crate::raw::{
    CentralDirectoryFileHeader, CentralDirectoryRecordEnd, LocalFileHeader,
    CENTRAL_DIR_HEADER_SIZE, LOCAL_FILE_HEADER_SIZE,
};
use vstd::prelude::*;

pub mod extra;
pub mod le;
pub mod raw;

verus! {

/// An archive: the cursor over its central directory, and the number of
/// entries that its end record claims.
pub struct Zip<'data> {
    pub central_dir_iter: NonStrictIter<'data>,
    pub central_dir_records_total: u64,
}

impl<'data> Zip<'data> {
    /// Opens the archive held in `data`. There is none where `data` holds no
    /// authentic end record.
    ///
    /// The cursor starts where the end record says the central directory
    /// begins. The claimed number of entries is reported, not enforced.
    pub fn new(data: &'data [u8]) -> (zip: Option<Self>)
        ensures
            match CentralDirectoryRecordEnd::spec_find(data@) {
                Some((record, _)) => {
                    &&& zip matches Some(found)
                    &&& found.central_dir_records_total == record.central_dir_records_total
                    &&& found.central_dir_iter.data@ == data@
                    &&& found.central_dir_iter.offset == record.central_dir_offset
                },
                None => zip is None,
            },
    {
        let (header, _comment_len) = CentralDirectoryRecordEnd::find(data)?;
        let central_dir_records_total: u64 = header.central_dir_records_total as u64;
        let central_dir_iter = NonStrictIter { data, offset: header.central_dir_offset as usize };
        Some(Zip { central_dir_records_total, central_dir_iter })
    }
}

/// The compression methods that the format names, each with its code.
#[derive(Clone, Copy, Debug)]
pub enum CompressionMethod {
    Plain,
    Deflate,
    Deflate64,
    IbmTerseOld,
    Bzip2,
    Lzma,
    IbmCmpsc,
    IbmTerseNew,
    IbmLz77,
    Zstd,
    Mp3,
    Xz,
    Jpeg,
    WavPack,
    Ppmd1,
}

impl CompressionMethod {
    /// The code that the format assigns to the method.
    pub open spec fn spec_code(self) -> u16 {
        match self {
            CompressionMethod::Plain => 0,
            CompressionMethod::Deflate => 8,
            CompressionMethod::Deflate64 => 9,
            CompressionMethod::IbmTerseOld => 10,
            CompressionMethod::Bzip2 => 12,
            CompressionMethod::Lzma => 14,
            CompressionMethod::IbmCmpsc => 16,
            CompressionMethod::IbmTerseNew => 18,
            CompressionMethod::IbmLz77 => 19,
            CompressionMethod::Zstd => 93,
            CompressionMethod::Mp3 => 94,
            CompressionMethod::Xz => 95,
            CompressionMethod::Jpeg => 96,
            CompressionMethod::WavPack => 97,
            CompressionMethod::Ppmd1 => 98,
        }
    }

    /// The method that an entry with the code `x` is read as. Only stored and
    /// deflated entries are read; every other code, named or not, is turned
    /// down.
    pub open spec fn spec_from_u16(x: u16) -> Option<Self> {
        if x == 0 {
            Some(CompressionMethod::Plain)
        } else if x == 8 {
            Some(CompressionMethod::Deflate)
        } else {
            None
        }
    }

    /// The code that the format assigns to the method.
    pub fn code(self) -> (code: u16)
        ensures
            code == self.spec_code(),
    {
        match self {
            CompressionMethod::Plain => 0,
            CompressionMethod::Deflate => 8,
            CompressionMethod::Deflate64 => 9,
            CompressionMethod::IbmTerseOld => 10,
            CompressionMethod::Bzip2 => 12,
            CompressionMethod::Lzma => 14,
            CompressionMethod::IbmCmpsc => 16,
            CompressionMethod::IbmTerseNew => 18,
            CompressionMethod::IbmLz77 => 19,
            CompressionMethod::Zstd => 93,
            CompressionMethod::Mp3 => 94,
            CompressionMethod::Xz => 95,
            CompressionMethod::Jpeg => 96,
            CompressionMethod::WavPack => 97,
            CompressionMethod::Ppmd1 => 98,
        }
    }

    /// Reads a method from its code.
    pub fn from_u16(x: u16) -> (method: Option<Self>)
        ensures
            method == Self::spec_from_u16(x),
    {
        let ret = match x {
            0 => CompressionMethod::Plain,
            8 => CompressionMethod::Deflate,
            _ => return None,
        };
        Some(ret)
    }
}

/// Marker type for the extra field block of an entry.
#[derive(Debug)]
pub struct ExtraFields;

/// One entry of an archive. The four byte fields are views into the buffer
/// that the archive was opened on.
#[derive(Debug)]
pub struct File<'data> {
    pub decompressed_crc: u32,
    pub decompressed_size: u64,
    pub compression_method: CompressionMethod,
    pub extra_fields: &'data [u8],
    pub filename: &'data [u8],
    pub comment: &'data [u8],
    pub bytes: &'data [u8],
}

/// What a [`File`] holds, with the bytes that each of its views shows.
pub struct FileView {
    pub decompressed_crc: u32,
    pub decompressed_size: u64,
    pub compression_method: CompressionMethod,
    pub extra_fields: Seq<u8>,
    pub filename: Seq<u8>,
    pub comment: Seq<u8>,
    pub bytes: Seq<u8>,
}

impl<'data> View for File<'data> {
    type V = FileView;

    open spec fn view(&self) -> FileView {
        FileView {
            decompressed_crc: self.decompressed_crc,
            decompressed_size: self.decompressed_size,
            compression_method: self.compression_method,
            extra_fields: self.extra_fields@,
            filename: self.filename@,
            comment: self.comment@,
            bytes: self.bytes@,
        }
    }
}

/// What [`slice_split_at`] returns on a slice that holds `s`.
pub open spec fn spec_split_at<T>(s: Seq<T>, index: int) -> Option<(Seq<T>, Seq<T>)> {
    if index > s.len() {
        None
    } else {
        Some((s.subrange(0, index), s.subrange(index, s.len() as int)))
    }
}

/// Cuts `s` at `index` into what lies before and what lies from there on,
/// unless `s` has fewer than `index` items.
pub fn slice_split_at<T>(s: &[T], index: usize) -> (parts: Option<(&[T], &[T])>)
    ensures
        match spec_split_at(s@, index as int) {
            Some((taken, rest)) => {
                &&& parts matches Some((head, tail))
                &&& head@ == taken
                &&& tail@ == rest
            },
            None => parts is None,
        },
{
    if index > s.len() {
        return None;
    }
    Some(s.split_at(index))
}

/// A part of a part of `s` is a part of `s`.
proof fn lemma_subrange_of_subrange<T>(s: Seq<T>, from: int, to: int, inner_from: int, inner_to: int)
    requires
        0 <= from <= to <= s.len(),
        0 <= inner_from <= inner_to <= to - from,
    ensures
        s.subrange(from, to).subrange(inner_from, inner_to) == s.subrange(
            from + inner_from,
            from + inner_to,
        ),
{
    assert(s.subrange(from, to).subrange(inner_from, inner_to) =~= s.subrange(
        from + inner_from,
        from + inner_to,
    ));
}

/// Where the payload of an entry is to be looked for, and the sizes that the
/// entry reports.
pub struct Located {
    pub local_header_offset: u64,
    pub compressed_size: u64,
    pub decompressed_size: u64,
}

/// The central directory header at `offset` of `s`.
pub open spec fn spec_header(s: Seq<u8>, offset: int) -> CentralDirectoryFileHeader {
    CentralDirectoryFileHeader::decode(s.subrange(offset, offset + CENTRAL_DIR_HEADER_SIZE))
}

/// Whether `s` holds, from `offset` on, a whole central directory header and
/// as many bytes after it as the header declares for the file name, the extra
/// field block and the comment.
pub open spec fn spec_record_fits(s: Seq<u8>, offset: int) -> bool {
    &&& 0 <= offset
    &&& offset + CENTRAL_DIR_HEADER_SIZE <= s.len()
    &&& offset + spec_header(s, offset).spec_record_len() <= s.len()
}

/// Where the cursor stands after a step from `offset`: behind the record at
/// `offset` where a whole one lies there, and at `offset` otherwise.
pub open spec fn spec_advance(s: Seq<u8>, offset: int) -> int {
    if spec_record_fits(s, offset) {
        offset + spec_header(s, offset).spec_record_len()
    } else {
        offset
    }
}

/// The sizes and the local header offset of an entry: those of its Zip64
/// extension where its extra field block holds one, and those of the central
/// directory header otherwise. The extension wins whatever the header says.
pub open spec fn spec_located(header: CentralDirectoryFileHeader, extra_fields: Seq<u8>) -> Located {
    match extra::spec_find::<Zip64>(extra_fields) {
        Some(zip64) => Located {
            local_header_offset: zip64.local_header_record_offset,
            compressed_size: zip64.compressed_size,
            decompressed_size: zip64.decompressed_size,
        },
        None => Located {
            local_header_offset: header.local_file_header_offset as u64,
            compressed_size: header.compressed_size as u64,
            decompressed_size: header.decompressed_size as u64,
        },
    }
}

/// The local file header at `offset` of `s`.
pub open spec fn spec_local_header(s: Seq<u8>, offset: int) -> LocalFileHeader {
    LocalFileHeader::decode(s.subrange(offset, offset + LOCAL_FILE_HEADER_SIZE))
}

/// Where the payload begins whose local file header lies at `offset` of `s`:
/// behind that header and the file name and extra field block that the local
/// header itself declares.
pub open spec fn spec_payload_start(s: Seq<u8>, offset: int) -> int {
    let local = spec_local_header(s, offset);
    offset + LOCAL_FILE_HEADER_SIZE + local.filename_len + local.extra_field_len
}

/// The payload of the entry whose local file header lies at `offset` of `s`
/// and that is `compressed_size` bytes long. There is none where the local
/// header or the payload would reach beyond the end of `s`.
pub open spec fn spec_payload(s: Seq<u8>, offset: int, compressed_size: int) -> Option<Seq<u8>> {
    if offset + LOCAL_FILE_HEADER_SIZE > s.len() {
        None
    } else {
        let start = spec_payload_start(s, offset);
        if start + compressed_size > s.len() {
            None
        } else {
            Some(s.subrange(start, start + compressed_size))
        }
    }
}

/// The entry that a step of the cursor from `offset` of `s` yields, if it
/// yields one.
pub open spec fn spec_entry(s: Seq<u8>, offset: int) -> Option<FileView> {
    if !spec_record_fits(s, offset) {
        None
    } else {
        let header = spec_header(s, offset);
        let name_at = offset + CENTRAL_DIR_HEADER_SIZE;
        let extra_at = name_at + header.filename_len;
        let comment_at = extra_at + header.extra_field_len;
        let extra_fields = s.subrange(extra_at, comment_at);
        let located = spec_located(header, extra_fields);
        match (
            spec_payload(s, located.local_header_offset as int, located.compressed_size as int),
            CompressionMethod::spec_from_u16(header.compression_method),
        ) {
            (Some(bytes), Some(compression_method)) => Some(
                FileView {
                    decompressed_crc: header.decompressed_crc,
                    decompressed_size: located.decompressed_size,
                    compression_method,
                    extra_fields,
                    filename: s.subrange(name_at, extra_at),
                    comment: s.subrange(comment_at, comment_at + header.file_comment_len),
                    bytes,
                },
            ),
            _ => None,
        }
    }
}

/// The entries that the cursor yields from `offset` of `s` on, step by step,
/// up to the first step that yields none.
pub open spec fn spec_entries(s: Seq<u8>, offset: int) -> Seq<FileView>
    decreases s.len() - offset,
{
    match spec_entry(s, offset) {
        Some(entry) => seq![entry] + spec_entries(s, spec_advance(s, offset)),
        None => Seq::empty(),
    }
}

/// Where the header of the entry with the index `i` lies in a directory that
/// begins at `start` of `s`: each record begins where the one before it ends.
pub open spec fn spec_nth_offset(s: Seq<u8>, start: int, i: nat) -> int
    decreases i,
{
    if i == 0 {
        start
    } else {
        spec_nth_offset(s, spec_advance(s, start), (i - 1) as nat)
    }
}

/// Whether the directory that begins at `start` of `s` holds exactly `n`
/// entries: `n` records lie back to back that each resolve to an entry, and
/// what follows the last of them does not.
pub open spec fn spec_directory_holds(s: Seq<u8>, start: int, n: nat) -> bool {
    &&& forall|i: nat| i < n ==> (#[trigger] spec_entry(s, spec_nth_offset(s, start, i))) is Some
    &&& spec_entry(s, spec_nth_offset(s, start, n)) is None
}

/// What each of `files` holds, in the same order.
pub open spec fn spec_views<'a>(files: Seq<File<'a>>) -> Seq<FileView> {
    files.map_values(|file: File<'a>| file@)
}

/// Reads the central directory record at `offset`: the header, and the file
/// name, the extra field block and the comment that follow it.
fn read_record<'a>(data: &'a [u8], offset: usize) -> (record: Option<
    (CentralDirectoryFileHeader, &'a [u8], &'a [u8], &'a [u8]),
>)
    ensures
        record is Some <==> spec_record_fits(data@, offset as int),
        record matches Some((header, filename, extra_fields, comment)) ==> {
            let name_at = offset + CENTRAL_DIR_HEADER_SIZE;
            let extra_at = name_at + header.filename_len;
            let comment_at = extra_at + header.extra_field_len;
            &&& header == spec_header(data@, offset as int)
            &&& filename@ == data@.subrange(name_at, extra_at)
            &&& extra_fields@ == data@.subrange(extra_at, comment_at)
            &&& comment@ == data@.subrange(comment_at, comment_at + header.file_comment_len)
        },
{
    let ghost s = data@;
    let ghost at = offset as int;
    let ghost end = s.len() as int;

    let (_, bytes) = slice_split_at(data, offset)?;
    let (header, bytes) = slice_split_at(bytes, CENTRAL_DIR_HEADER_SIZE)?;
    proof {
        lemma_subrange_of_subrange(s, at, end, 0, CENTRAL_DIR_HEADER_SIZE as int);
        lemma_subrange_of_subrange(s, at, end, CENTRAL_DIR_HEADER_SIZE as int, end - at);
    }
    let header = CentralDirectoryFileHeader::parse(header)?;
    let ghost name_at = at + CENTRAL_DIR_HEADER_SIZE;
    let ghost extra_at = name_at + header.filename_len;
    let ghost comment_at = extra_at + header.extra_field_len;

    let (filename, bytes) = slice_split_at(bytes, header.filename_len as usize)?;
    proof {
        lemma_subrange_of_subrange(s, name_at, end, 0, header.filename_len as int);
        lemma_subrange_of_subrange(s, name_at, end, header.filename_len as int, end - name_at);
    }
    let (extra_fields, bytes) = slice_split_at(bytes, header.extra_field_len as usize)?;
    proof {
        lemma_subrange_of_subrange(s, extra_at, end, 0, header.extra_field_len as int);
        lemma_subrange_of_subrange(s, extra_at, end, header.extra_field_len as int, end - extra_at);
    }
    let (comment, _) = slice_split_at(bytes, header.file_comment_len as usize)?;
    proof {
        lemma_subrange_of_subrange(s, comment_at, end, 0, header.file_comment_len as int);
    }
    Some((header, filename, extra_fields, comment))
}

/// Reads the payload of `compressed_size` bytes whose local file header lies
/// at `local_file_offset`.
fn read_payload<'a>(data: &'a [u8], local_file_offset: u64, compressed_size: u64) -> (payload:
    Option<&'a [u8]>)
    ensures
        match spec_payload(data@, local_file_offset as int, compressed_size as int) {
            Some(bytes) => payload matches Some(found) && found@ == bytes,
            None => payload is None,
        },
{
    let ghost s = data@;
    let ghost at = local_file_offset as int;
    let ghost end = s.len() as int;

    if local_file_offset > data.len() as u64 {
        return None;
    }
    let (_, bytes) = slice_split_at(data, local_file_offset as usize)?;
    let (header, bytes) = slice_split_at(bytes, LOCAL_FILE_HEADER_SIZE)?;
    proof {
        lemma_subrange_of_subrange(s, at, end, 0, LOCAL_FILE_HEADER_SIZE as int);
        lemma_subrange_of_subrange(s, at, end, LOCAL_FILE_HEADER_SIZE as int, end - at);
    }
    let header = LocalFileHeader::parse(header)?;
    let ghost name_at = at + LOCAL_FILE_HEADER_SIZE;
    let ghost extra_at = name_at + header.filename_len;
    let ghost packed_at = extra_at + header.extra_field_len;

    let (_, bytes) = slice_split_at(bytes, header.filename_len as usize)?;
    proof {
        lemma_subrange_of_subrange(s, name_at, end, header.filename_len as int, end - name_at);
    }
    let (_, bytes) = slice_split_at(bytes, header.extra_field_len as usize)?;
    proof {
        lemma_subrange_of_subrange(s, extra_at, end, header.extra_field_len as int, end - extra_at);
    }
    if compressed_size > bytes.len() as u64 {
        return None;
    }
    let (payload, _) = slice_split_at(bytes, compressed_size as usize)?;
    proof {
        lemma_subrange_of_subrange(s, packed_at, end, 0, compressed_size as int);
    }
    Some(payload)
}

/// Cursor over the central directory of the archive in `data`. `offset` is
/// where the next header is expected.
///
/// The cursor is not strict: it does not look at the signature of a header,
/// and it does not know how many entries the archive claims to have.
pub struct NonStrictIter<'a> {
    pub data: &'a [u8],
    pub offset: usize,
}

impl<'a> NonStrictIter<'a> {
    /// Resolves the entry at the cursor.
    ///
    /// Where `data` holds no whole record at the cursor, there is no entry
    /// and the cursor stays. Otherwise the cursor moves behind the record,
    /// and there is an entry unless its payload cannot be had: the local
    /// header or the payload would reach beyond the end of `data`, or the
    /// compression method is not one that is read. The caller cannot tell
    /// these apart, nor from the end of the directory.
    pub fn next(&mut self) -> (file: Option<File<'a>>)
        ensures
            final(self).data@ == old(self).data@,
            final(self).offset == spec_advance(old(self).data@, old(self).offset as int),
            match spec_entry(old(self).data@, old(self).offset as int) {
                Some(entry) => file matches Some(found) && found@ == entry,
                None => file is None,
            },
    {
        let (central_dir, filename, extra_fields, comment) = read_record(self.data, self.offset)?;

        let mut local_file_offset: u64 = central_dir.local_file_header_offset as u64;
        let mut compressed_size: u64 = central_dir.compressed_size as u64;
        let mut decompressed_size: u64 = central_dir.decompressed_size as u64;
        if let Some(zip64) = extra::find::<Zip64>(extra_fields) {
            compressed_size = zip64.compressed_size;
            decompressed_size = zip64.decompressed_size;
            local_file_offset = zip64.local_header_record_offset;
        }

        let total_bytes_len: usize = CENTRAL_DIR_HEADER_SIZE + central_dir.filename_len as usize
            + central_dir.extra_field_len as usize + central_dir.file_comment_len as usize;
        // The record lies within `data`, and so does the place behind it.
        assert(self.offset + total_bytes_len <= self.data.len());
        self.offset += total_bytes_len;

        let bytes = read_payload(self.data, local_file_offset, compressed_size)?;

        let file = File {
            compression_method: CompressionMethod::from_u16(central_dir.compression_method)?,
            decompressed_crc: central_dir.decompressed_crc,
            decompressed_size,
            extra_fields,
            filename,
            comment,
            bytes,
        };
        Some(file)
    }

    /// Steps through the directory from the cursor on and gathers the
    /// entries, up to the first step that yields none.
    pub fn collect(self) -> (files: Vec<File<'a>>)
        ensures
            spec_views(files@) == spec_entries(self.data@, self.offset as int),
    {
        let mut iter = self;
        let mut files: Vec<File<'a>> = Vec::new();
        loop
            invariant
                iter.data@ == self.data@,
                spec_views(files@) + spec_entries(iter.data@, iter.offset as int) == spec_entries(
                    self.data@,
                    self.offset as int,
                ),
            decreases self.data@.len() - iter.offset,
        {
            let ghost before = spec_views(files@);
            match iter.next() {
                Some(file) => {
                    files.push(file);
                    assert(spec_views(files@) =~= before + seq![file@]);
                },
                None => {
                    return files;
                },
            }
        }
    }
}

/// A step never takes the cursor beyond the end of the buffer: the cursor
/// either stays, or moves forward by at least a header to a place within the
/// buffer.
pub proof fn lemma_cursor_stays_in_buffer(s: Seq<u8>, offset: int)
    ensures
        spec_advance(s, offset) == offset || (offset + CENTRAL_DIR_HEADER_SIZE <= spec_advance(
            s,
            offset,
        ) <= s.len()),
        spec_entry(s, offset) is Some ==> spec_advance(s, offset) != offset,
{
}

/// A directory of `n` entries is read as exactly `n` entries, in the order
/// in which their records lie: the entry with the index `i` is the one that
/// resolves from the `i`-th record. Its file name and its comment are the
/// bytes that the `i`-th header declares, and its payload the bytes behind
/// the local file header that the record points at.
pub proof fn lemma_entries_follow_directory(s: Seq<u8>, start: int, n: nat)
    requires
        spec_directory_holds(s, start, n),
    ensures
        spec_entries(s, start).len() == n,
        forall|i: nat|
            i < n ==> #[trigger] spec_entry(s, spec_nth_offset(s, start, i)) == Some(
                spec_entries(s, start)[i as int],
            ),
        forall|i: nat|
            i < n ==> {
                let at = #[trigger] spec_nth_offset(s, start, i);
                let entry = spec_entries(s, start)[i as int];
                let header = spec_header(s, at);
                let name_at = at + CENTRAL_DIR_HEADER_SIZE;
                let comment_at = name_at + header.filename_len + header.extra_field_len;
                let located = spec_located(header, entry.extra_fields);
                let packed_at = spec_payload_start(s, located.local_header_offset as int);
                &&& entry.filename == s.subrange(name_at, name_at + header.filename_len)
                &&& entry.comment == s.subrange(comment_at, comment_at + header.file_comment_len)
                &&& entry.bytes == s.subrange(packed_at, packed_at + located.compressed_size)
            },
    decreases n,
{
    assert(spec_nth_offset(s, start, 0) == start);
    if n > 0 {
        let next = spec_advance(s, start);
        assert(spec_entry(s, spec_nth_offset(s, start, 0)) is Some);
        assert forall|i: nat| i < n - 1 implies (#[trigger] spec_entry(
            s,
            spec_nth_offset(s, next, i),
        )) is Some by {
            assert(spec_nth_offset(s, start, i + 1) == spec_nth_offset(s, next, i));
            assert(spec_entry(s, spec_nth_offset(s, start, i + 1)) is Some);
        }
        assert(spec_nth_offset(s, start, n) == spec_nth_offset(s, next, (n - 1) as nat));
        lemma_entries_follow_directory(s, next, (n - 1) as nat);
        assert forall|i: nat| i < n implies #[trigger] spec_entry(
            s,
            spec_nth_offset(s, start, i),
        ) == Some(spec_entries(s, start)[i as int]) by {
            if i > 0 {
                let j = (i - 1) as nat;
                assert(spec_nth_offset(s, start, i) == spec_nth_offset(s, next, j));
                assert(spec_entry(s, spec_nth_offset(s, next, j)) == Some(
                    spec_entries(s, next)[j as int],
                ));
            }
        }
    }
    assert forall|i: nat| i < n implies {
        let at = #[trigger] spec_nth_offset(s, start, i);
        let entry = spec_entries(s, start)[i as int];
        let header = spec_header(s, at);
        let name_at = at + CENTRAL_DIR_HEADER_SIZE;
        let comment_at = name_at + header.filename_len + header.extra_field_len;
        let located = spec_located(header, entry.extra_fields);
        let packed_at = spec_payload_start(s, located.local_header_offset as int);
        &&& entry.filename == s.subrange(name_at, name_at + header.filename_len)
        &&& entry.comment == s.subrange(comment_at, comment_at + header.file_comment_len)
        &&& entry.bytes == s.subrange(packed_at, packed_at + located.compressed_size)
    } by {
        let at = spec_nth_offset(s, start, i);
        assert(spec_entry(s, at) == Some(spec_entries(s, start)[i as int]));
        lemma_entry_shows_buffer(s, at);
        lemma_payload_follows_local_header(s, at);
    }
}

/// What an entry shows of the buffer: its file name, extra field block and
/// comment are the bytes that follow its central directory header, each as
/// long as that header declares, and its payload is as long as the entry's
/// compressed size.
pub proof fn lemma_entry_shows_buffer(s: Seq<u8>, offset: int)
    requires
        spec_entry(s, offset) is Some,
    ensures
        ({
            let entry = spec_entry(s, offset).unwrap();
            let header = spec_header(s, offset);
            let name_at = offset + CENTRAL_DIR_HEADER_SIZE;
            let extra_at = name_at + header.filename_len;
            let comment_at = extra_at + header.extra_field_len;
            &&& entry.filename == s.subrange(name_at, extra_at)
            &&& entry.extra_fields == s.subrange(extra_at, comment_at)
            &&& entry.comment == s.subrange(comment_at, comment_at + header.file_comment_len)
            &&& entry.bytes.len() == spec_located(header, entry.extra_fields).compressed_size
            &&& entry.decompressed_crc == header.decompressed_crc
            &&& entry.compression_method.spec_code() == header.compression_method
        }),
{
}

/// Where the extra field block of an entry holds a Zip64 extension, the
/// entry reports the decompressed size of the extension, and its payload has
/// the compressed size of the extension and follows the local file header at
/// the offset that the extension gives. What the central directory header
/// says of the three is not looked at.
pub proof fn lemma_zip64_supersedes_header(s: Seq<u8>, offset: int, zip64: Zip64)
    requires
        spec_entry(s, offset) is Some,
        extra::spec_find::<Zip64>(spec_entry(s, offset).unwrap().extra_fields) == Some(zip64),
    ensures
        ({
            let entry = spec_entry(s, offset).unwrap();
            let start = spec_payload_start(s, zip64.local_header_record_offset as int);
            &&& entry.decompressed_size == zip64.decompressed_size
            &&& entry.bytes.len() == zip64.compressed_size
            &&& entry.bytes == s.subrange(start, start + zip64.compressed_size)
        }),
{
}

/// The payload of an entry begins behind the local file header and behind
/// the file name and the extra field block whose lengths the local header
/// declares. The lengths that the central directory header declares for the
/// two play no part in it.
pub proof fn lemma_payload_follows_local_header(s: Seq<u8>, offset: int)
    requires
        spec_entry(s, offset) is Some,
    ensures
        ({
            let entry = spec_entry(s, offset).unwrap();
            let located = spec_located(spec_header(s, offset), entry.extra_fields);
            let local_at = located.local_header_offset as int;
            let local = spec_local_header(s, local_at);
            let start = local_at + LOCAL_FILE_HEADER_SIZE + local.filename_len
                + local.extra_field_len;
            &&& start + located.compressed_size <= s.len()
            &&& entry.bytes == s.subrange(start, start + located.compressed_size)
        }),
{
}

/// A header that declares more bytes for file name, extra field block and
/// comment than the buffer has left ends the iteration: the step yields no
/// entry, the cursor stays, and so does every later step.
pub proof fn lemma_overlong_record_ends_iteration(s: Seq<u8>, offset: int)
    requires
        0 <= offset,
        offset + CENTRAL_DIR_HEADER_SIZE <= s.len(),
        spec_header(s, offset).filename_len + spec_header(s, offset).extra_field_len + spec_header(
            s,
            offset,
        ).file_comment_len > s.len() - (offset + CENTRAL_DIR_HEADER_SIZE),
    ensures
        spec_entry(s, offset) is None,
        spec_advance(s, offset) == offset,
        spec_entries(s, offset) == Seq::<FileView>::empty(),
{
}

} // verus!
