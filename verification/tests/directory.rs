use piz::{CompressionMethod, File, NonStrictIter, Zip};

fn local_header(method: u16, crc: u32, packed: u32, unpacked: u32, name: u16, extra: u16) -> Vec<u8> {
    let mut bytes = Vec::new();
    bytes.extend_from_slice(&0x04034b50u32.to_le_bytes());
    bytes.extend_from_slice(&20u16.to_le_bytes());
    bytes.extend_from_slice(&0u16.to_le_bytes());
    bytes.extend_from_slice(&method.to_le_bytes());
    bytes.extend_from_slice(&0x6c32u16.to_le_bytes());
    bytes.extend_from_slice(&0x5a21u16.to_le_bytes());
    bytes.extend_from_slice(&crc.to_le_bytes());
    bytes.extend_from_slice(&packed.to_le_bytes());
    bytes.extend_from_slice(&unpacked.to_le_bytes());
    bytes.extend_from_slice(&name.to_le_bytes());
    bytes.extend_from_slice(&extra.to_le_bytes());
    assert_eq!(bytes.len(), 30);
    bytes
}

struct Central {
    method: u16,
    crc: u32,
    packed: u32,
    unpacked: u32,
    name: u16,
    extra: u16,
    comment: u16,
    local_offset: u32,
}

fn central_header(fields: &Central) -> Vec<u8> {
    let mut bytes = Vec::new();
    bytes.extend_from_slice(&0x02014b50u32.to_le_bytes());
    bytes.extend_from_slice(&0x031eu16.to_le_bytes());
    bytes.extend_from_slice(&20u16.to_le_bytes());
    bytes.extend_from_slice(&0u16.to_le_bytes());
    bytes.extend_from_slice(&fields.method.to_le_bytes());
    bytes.extend_from_slice(&0x6c32u16.to_le_bytes());
    bytes.extend_from_slice(&0x5a21u16.to_le_bytes());
    bytes.extend_from_slice(&fields.crc.to_le_bytes());
    bytes.extend_from_slice(&fields.packed.to_le_bytes());
    bytes.extend_from_slice(&fields.unpacked.to_le_bytes());
    bytes.extend_from_slice(&fields.name.to_le_bytes());
    bytes.extend_from_slice(&fields.extra.to_le_bytes());
    bytes.extend_from_slice(&fields.comment.to_le_bytes());
    bytes.extend_from_slice(&0u16.to_le_bytes());
    bytes.extend_from_slice(&0u16.to_le_bytes());
    bytes.extend_from_slice(&0x81a4_0000u32.to_le_bytes());
    bytes.extend_from_slice(&fields.local_offset.to_le_bytes());
    assert_eq!(bytes.len(), 46);
    bytes
}

fn end_record(records: u16, size: u32, offset: u32, comment: &[u8]) -> Vec<u8> {
    let mut bytes = Vec::new();
    bytes.extend_from_slice(&0x06054b50u32.to_le_bytes());
    bytes.extend_from_slice(&0u16.to_le_bytes());
    bytes.extend_from_slice(&0u16.to_le_bytes());
    bytes.extend_from_slice(&records.to_le_bytes());
    bytes.extend_from_slice(&records.to_le_bytes());
    bytes.extend_from_slice(&size.to_le_bytes());
    bytes.extend_from_slice(&offset.to_le_bytes());
    bytes.extend_from_slice(&(comment.len() as u16).to_le_bytes());
    bytes.extend_from_slice(comment);
    bytes
}

fn zip64_record(unpacked: u64, packed: u64, local_offset: u64) -> Vec<u8> {
    let mut bytes = Vec::new();
    bytes.extend_from_slice(&1u16.to_le_bytes());
    bytes.extend_from_slice(&28u16.to_le_bytes());
    bytes.extend_from_slice(&unpacked.to_le_bytes());
    bytes.extend_from_slice(&packed.to_le_bytes());
    bytes.extend_from_slice(&local_offset.to_le_bytes());
    bytes.extend_from_slice(&0u32.to_le_bytes());
    assert_eq!(bytes.len(), 32);
    bytes
}

/// One member, as the one who packed it knows it.
struct Member {
    method: u16,
    crc: u32,
    unpacked: u32,
    name: &'static [u8],
    extra: Vec<u8>,
    comment: &'static [u8],
    payload: Vec<u8>,
}

/// Lays the members out as an archive: local headers and payloads, then the
/// central directory, then the end record.
fn archive(members: &[Member], archive_comment: &[u8]) -> Vec<u8> {
    let mut bytes = Vec::new();
    let mut offsets = Vec::new();
    for member in members {
        offsets.push(bytes.len() as u32);
        bytes.extend_from_slice(&local_header(
            member.method,
            member.crc,
            member.payload.len() as u32,
            member.unpacked,
            member.name.len() as u16,
            0,
        ));
        bytes.extend_from_slice(member.name);
        bytes.extend_from_slice(&member.payload);
    }
    let directory_at = bytes.len() as u32;
    for (member, offset) in members.iter().zip(offsets) {
        bytes.extend_from_slice(&central_header(&Central {
            method: member.method,
            crc: member.crc,
            packed: member.payload.len() as u32,
            unpacked: member.unpacked,
            name: member.name.len() as u16,
            extra: member.extra.len() as u16,
            comment: member.comment.len() as u16,
            local_offset: offset,
        }));
        bytes.extend_from_slice(member.name);
        bytes.extend_from_slice(&member.extra);
        bytes.extend_from_slice(member.comment);
    }
    let directory_len = bytes.len() as u32 - directory_at;
    bytes.extend_from_slice(&end_record(
        members.len() as u16,
        directory_len,
        directory_at,
        archive_comment,
    ));
    bytes
}

fn three_members() -> Vec<Member> {
    vec![
        Member {
            method: 0,
            crc: 0x3610a686,
            unpacked: 5,
            name: b"a.txt",
            extra: Vec::new(),
            comment: b"first",
            payload: b"hello".to_vec(),
        },
        Member {
            method: 8,
            crc: 0xdeadbeef,
            unpacked: 1000,
            name: b"dir/b.bin",
            extra: vec![0x55, 0x54, 0x05, 0x00, 0x03, 0x10, 0x20, 0x30, 0x40],
            comment: b"",
            payload: vec![0x4b, 0x4c, 0x04, 0x00, 0xaa, 0xbb, 0xcc],
        },
        Member {
            method: 0,
            crc: 0,
            unpacked: 0,
            name: b"c",
            extra: Vec::new(),
            comment: b"last one",
            payload: Vec::new(),
        },
    ]
}

fn assert_matches(file: &File, member: &Member) {
    assert_eq!(file.filename, member.name);
    assert_eq!(file.comment, member.comment);
    assert_eq!(file.extra_fields, &member.extra[..]);
    assert_eq!(file.bytes, &member.payload[..]);
    assert_eq!(file.decompressed_crc, member.crc);
    assert_eq!(file.decompressed_size, member.unpacked as u64);
    assert_eq!(file.compression_method.code(), member.method);
}

#[test]
fn iteration_yields_every_entry_in_directory_order() {
    let members = three_members();
    let bytes = archive(&members, b"");
    let zip = Zip::new(&bytes).unwrap();
    assert_eq!(zip.central_dir_records_total, 3);
    let files = zip.central_dir_iter.collect();
    assert_eq!(files.len(), 3);
    for (file, member) in files.iter().zip(&members) {
        assert_matches(file, member);
    }
    assert!(matches!(files[0].compression_method, CompressionMethod::Plain));
    assert!(matches!(files[1].compression_method, CompressionMethod::Deflate));
    assert!(matches!(files[2].compression_method, CompressionMethod::Plain));
}

#[test]
fn iteration_step_by_step() {
    let members = three_members();
    let bytes = archive(&members, b"short comment");
    let mut iter = Zip::new(&bytes).unwrap().central_dir_iter;
    let directory_at = 30 + 5 + 5 + 30 + 9 + 7 + 30 + 1;
    assert_eq!(iter.offset, directory_at);

    let first = iter.next().unwrap();
    assert_matches(&first, &members[0]);
    assert_eq!(iter.offset, directory_at + 46 + 5 + 0 + 5);

    let second = iter.next().unwrap();
    assert_matches(&second, &members[1]);
    assert_eq!(iter.offset, directory_at + 56 + 46 + 9 + 9 + 0);

    let third = iter.next().unwrap();
    assert_matches(&third, &members[2]);
    assert_eq!(iter.offset, directory_at + 56 + 64 + 46 + 1 + 0 + 8);

    // The end record and its comment are shorter than a header.
    assert!(iter.next().is_none());
    assert_eq!(iter.offset, directory_at + 56 + 64 + 55);
    assert!(iter.next().is_none());
}

#[test]
fn collect_gathers_what_the_steps_yield() {
    let bytes = archive(&three_members(), b"");
    let gathered = Zip::new(&bytes).unwrap().central_dir_iter.collect();
    let mut iter = Zip::new(&bytes).unwrap().central_dir_iter;
    let mut stepped = Vec::new();
    while let Some(file) = iter.next() {
        stepped.push(file);
    }
    assert_eq!(gathered.len(), stepped.len());
    for (a, b) in gathered.iter().zip(&stepped) {
        assert_eq!(a.filename, b.filename);
        assert_eq!(a.bytes, b.bytes);
        assert_eq!(a.comment, b.comment);
        assert_eq!(a.extra_fields, b.extra_fields);
    }
}

#[test]
fn two_cursors_over_one_buffer_do_not_disturb_each_other() {
    let members = three_members();
    let bytes = archive(&members, b"");
    let mut one = Zip::new(&bytes).unwrap().central_dir_iter;
    let mut two = Zip::new(&bytes).unwrap().central_dir_iter;
    assert_matches(&one.next().unwrap(), &members[0]);
    assert_matches(&one.next().unwrap(), &members[1]);
    assert_matches(&two.next().unwrap(), &members[0]);
    assert_matches(&one.next().unwrap(), &members[2]);
    assert_matches(&two.next().unwrap(), &members[1]);
}

#[test]
fn empty_archive_has_no_entries() {
    let bytes = archive(&[], b"");
    assert_eq!(bytes.len(), 22);
    let zip = Zip::new(&bytes).unwrap();
    assert_eq!(zip.central_dir_records_total, 0);
    assert!(zip.central_dir_iter.collect().is_empty());
}

#[test]
fn zip64_extension_supersedes_sentinel_values() {
    let payload = b"packed";
    let mut bytes = vec![0x11u8; 17];
    let local_at = bytes.len();
    bytes.extend_from_slice(&local_header(8, 7, 0xffff_ffff, 0xffff_ffff, 4, 0));
    bytes.extend_from_slice(b"big!");
    bytes.extend_from_slice(payload);
    let directory_at = bytes.len();
    let extra = zip64_record(5_000_000_000, payload.len() as u64, local_at as u64);
    bytes.extend_from_slice(&central_header(&Central {
        method: 8,
        crc: 7,
        packed: 0xffff_ffff,
        unpacked: 0xffff_ffff,
        name: 4,
        extra: extra.len() as u16,
        comment: 0,
        local_offset: 0xffff_ffff,
    }));
    bytes.extend_from_slice(b"big!");
    bytes.extend_from_slice(&extra);
    bytes.extend_from_slice(&end_record(1, 82, directory_at as u32, b""));

    let mut iter = Zip::new(&bytes).unwrap().central_dir_iter;
    let file = iter.next().unwrap();
    assert_eq!(file.decompressed_size, 5_000_000_000);
    assert_eq!(file.bytes, payload);
    assert_eq!(file.bytes.len(), 6);
    assert_eq!(file.filename, b"big!");
    assert_eq!(file.extra_fields, &extra[..]);
    assert!(iter.next().is_none());
}

#[test]
fn zip64_extension_supersedes_plain_values_too() {
    // The central header points at the first member and the extension at
    // the second: the extension wins though no field holds the sentinel.
    let mut bytes = Vec::new();
    bytes.extend_from_slice(&local_header(0, 1, 3, 3, 1, 0));
    bytes.extend_from_slice(b"x");
    bytes.extend_from_slice(b"one");
    let second_at = bytes.len();
    bytes.extend_from_slice(&local_header(0, 2, 6, 6, 1, 0));
    bytes.extend_from_slice(b"y");
    bytes.extend_from_slice(b"second");
    let directory_at = bytes.len();
    let extra = zip64_record(600, 6, second_at as u64);
    bytes.extend_from_slice(&central_header(&Central {
        method: 0,
        crc: 1,
        packed: 3,
        unpacked: 3,
        name: 1,
        extra: 32,
        comment: 0,
        local_offset: 0,
    }));
    bytes.extend_from_slice(b"x");
    bytes.extend_from_slice(&extra);
    bytes.extend_from_slice(&end_record(1, 79, directory_at as u32, b""));

    let file = Zip::new(&bytes).unwrap().central_dir_iter.next().unwrap();
    assert_eq!(file.bytes, b"second");
    assert_eq!(file.decompressed_size, 600);
    assert_eq!(file.decompressed_crc, 1);
}

#[test]
fn zip64_extension_behind_other_extra_records() {
    let mut bytes = Vec::new();
    bytes.extend_from_slice(&local_header(0, 0, 2, 2, 0, 0));
    bytes.extend_from_slice(b"ok");
    let directory_at = bytes.len();
    let mut extra = vec![0x55, 0x54, 0x01, 0x00, 0x00];
    extra.extend_from_slice(&zip64_record(1 << 40, 2, 0));
    bytes.extend_from_slice(&central_header(&Central {
        method: 0,
        crc: 0,
        packed: 0xffff_ffff,
        unpacked: 0xffff_ffff,
        name: 0,
        extra: extra.len() as u16,
        comment: 0,
        local_offset: 0xffff_ffff,
    }));
    bytes.extend_from_slice(&extra);
    let iter = NonStrictIter { data: &bytes, offset: directory_at };
    let files = iter.collect();
    assert_eq!(files.len(), 1);
    assert_eq!(files[0].decompressed_size, 1 << 40);
    assert_eq!(files[0].bytes, b"ok");
}

#[test]
fn zip64_extension_too_short_to_decode_leaves_header_values() {
    let mut bytes = Vec::new();
    bytes.extend_from_slice(&local_header(0, 0, 2, 2, 0, 0));
    bytes.extend_from_slice(b"ok");
    let directory_at = bytes.len();
    let mut extra = vec![0x01, 0x00, 0x08, 0x00];
    extra.extend_from_slice(&77u64.to_le_bytes());
    bytes.extend_from_slice(&central_header(&Central {
        method: 0,
        crc: 0,
        packed: 2,
        unpacked: 9,
        name: 0,
        extra: extra.len() as u16,
        comment: 0,
        local_offset: 0,
    }));
    bytes.extend_from_slice(&extra);
    let mut iter = NonStrictIter { data: &bytes, offset: directory_at };
    let file = iter.next().unwrap();
    assert_eq!(file.decompressed_size, 9);
    assert_eq!(file.bytes, b"ok");
}

#[test]
fn zip64_offset_beyond_the_buffer_ends_iteration() {
    let mut bytes = Vec::new();
    bytes.extend_from_slice(&local_header(0, 0, 2, 2, 0, 0));
    bytes.extend_from_slice(b"ok");
    let directory_at = bytes.len();
    let extra = zip64_record(2, 2, u64::MAX);
    bytes.extend_from_slice(&central_header(&Central {
        method: 0,
        crc: 0,
        packed: 2,
        unpacked: 2,
        name: 0,
        extra: 32,
        comment: 0,
        local_offset: 0,
    }));
    bytes.extend_from_slice(&extra);
    let mut iter = NonStrictIter { data: &bytes, offset: directory_at };
    assert!(iter.next().is_none());
    assert_eq!(iter.offset, bytes.len());

    // The same with a compressed size that no buffer can hold.
    let at = bytes.len() - 32;
    bytes[at..].copy_from_slice(&zip64_record(2, u64::MAX, 0));
    let mut iter = NonStrictIter { data: &bytes, offset: directory_at };
    assert!(iter.next().is_none());
    assert_eq!(iter.offset, bytes.len());
}

#[test]
fn overlong_declared_lengths_end_iteration() {
    let mut bytes = Vec::new();
    bytes.extend_from_slice(&local_header(0, 0, 2, 2, 0, 0));
    bytes.extend_from_slice(b"ok");
    let directory_at = bytes.len();
    // Name, extra fields and comment are declared with 4 + 3 + 4 bytes,
    // and ten bytes follow the header.
    bytes.extend_from_slice(&central_header(&Central {
        method: 0,
        crc: 0,
        packed: 2,
        unpacked: 2,
        name: 4,
        extra: 3,
        comment: 4,
        local_offset: 0,
    }));
    bytes.extend_from_slice(b"0123456789");
    let mut iter = NonStrictIter { data: &bytes, offset: directory_at };
    assert!(iter.next().is_none());
    assert_eq!(iter.offset, directory_at);
    assert!(iter.next().is_none());
    assert!(NonStrictIter { data: &bytes, offset: directory_at }.collect().is_empty());

    // With one byte more the record is whole.
    bytes.push(b'!');
    let mut iter = NonStrictIter { data: &bytes, offset: directory_at };
    let file = iter.next().unwrap();
    assert_eq!(file.filename, b"0123");
    assert_eq!(file.extra_fields, b"456");
    assert_eq!(file.comment, b"789!");
    assert_eq!(iter.offset, bytes.len());
}

#[test]
fn overlong_name_alone_ends_iteration() {
    let mut bytes = central_header(&Central {
        method: 0,
        crc: 0,
        packed: 0,
        unpacked: 0,
        name: 0xffff,
        extra: 0,
        comment: 0,
        local_offset: 0,
    });
    bytes.extend_from_slice(&[b'n'; 100]);
    let mut iter = NonStrictIter { data: &bytes, offset: 0 };
    assert!(iter.next().is_none());
    assert_eq!(iter.offset, 0);
}

#[test]
fn truncated_header_ends_iteration() {
    let bytes = archive(&three_members(), b"");
    let directory_at = Zip::new(&bytes).unwrap().central_dir_iter.offset;
    for len in directory_at..directory_at + 46 {
        let mut iter = NonStrictIter { data: &bytes[..len], offset: directory_at };
        assert!(iter.next().is_none());
        assert_eq!(iter.offset, directory_at);
    }
}

#[test]
fn cursor_beyond_the_buffer_yields_nothing() {
    let bytes = archive(&three_members(), b"");
    for offset in [bytes.len(), bytes.len() + 1, usize::MAX] {
        let mut iter = NonStrictIter { data: &bytes, offset };
        assert!(iter.next().is_none());
        assert_eq!(iter.offset, offset);
    }
}

#[test]
fn payload_follows_the_lengths_of_the_local_header() {
    // The local header has a name of 3 bytes and 20 bytes of extra fields,
    // the central header a name of 6 bytes and no extra fields.
    let mut bytes = vec![0u8; 9];
    let local_at = bytes.len();
    bytes.extend_from_slice(&local_header(0, 0xcafe, 7, 7, 3, 20));
    bytes.extend_from_slice(b"abc");
    bytes.extend_from_slice(&[0xee; 20]);
    let payload_at = bytes.len();
    assert_eq!(payload_at, local_at + 30 + 3 + 20);
    bytes.extend_from_slice(b"payload");
    bytes.extend_from_slice(b"trailing bytes that are no payload");
    let directory_at = bytes.len();
    bytes.extend_from_slice(&central_header(&Central {
        method: 0,
        crc: 0xcafe,
        packed: 7,
        unpacked: 7,
        name: 6,
        extra: 0,
        comment: 2,
        local_offset: local_at as u32,
    }));
    bytes.extend_from_slice(b"abcdef");
    bytes.extend_from_slice(b"hi");
    bytes.extend_from_slice(&end_record(1, 54, directory_at as u32, b""));

    let file = Zip::new(&bytes).unwrap().central_dir_iter.next().unwrap();
    assert_eq!(file.bytes, b"payload");
    assert_eq!(file.bytes, &bytes[payload_at..payload_at + 7]);
    assert_eq!(file.filename, b"abcdef");
    assert_eq!(file.extra_fields, b"");
    assert_eq!(file.comment, b"hi");
}

#[test]
fn payload_follows_a_shorter_local_header_too() {
    // Here the central header declares more than the local one.
    let mut bytes = Vec::new();
    bytes.extend_from_slice(&local_header(8, 0, 4, 40, 1, 0));
    bytes.extend_from_slice(b"n");
    bytes.extend_from_slice(b"DATA");
    let directory_at = bytes.len();
    bytes.extend_from_slice(&central_header(&Central {
        method: 8,
        crc: 0,
        packed: 4,
        unpacked: 40,
        name: 4,
        extra: 8,
        comment: 0,
        local_offset: 0,
    }));
    bytes.extend_from_slice(b"name");
    bytes.extend_from_slice(&[0x99, 0x99, 0x04, 0x00, 1, 2, 3, 4]);
    let mut iter = NonStrictIter { data: &bytes, offset: directory_at };
    let file = iter.next().unwrap();
    assert_eq!(file.bytes, b"DATA");
    assert_eq!(file.bytes, &bytes[31..35]);
    assert_eq!(file.decompressed_size, 40);
}

#[test]
fn payload_size_is_that_of_the_central_header() {
    // The sizes in the local header are not looked at.
    let mut bytes = Vec::new();
    bytes.extend_from_slice(&local_header(0, 0, 0, 0, 0, 0));
    bytes.extend_from_slice(b"0123456789");
    let directory_at = bytes.len();
    bytes.extend_from_slice(&central_header(&Central {
        method: 0,
        crc: 0,
        packed: 4,
        unpacked: 4,
        name: 0,
        extra: 0,
        comment: 0,
        local_offset: 0,
    }));
    let mut iter = NonStrictIter { data: &bytes, offset: directory_at };
    assert_eq!(iter.next().unwrap().bytes, b"0123");
}

#[test]
fn local_header_beyond_the_buffer_ends_iteration() {
    let members = three_members();
    let mut bytes = archive(&members, b"");
    let directory_at = Zip::new(&bytes).unwrap().central_dir_iter.offset;
    // Point the first entry at a place where no 30 bytes are left.
    let at = bytes.len() - 29;
    bytes[directory_at + 42..directory_at + 46].copy_from_slice(&(at as u32).to_le_bytes());
    let mut iter = Zip::new(&bytes).unwrap().central_dir_iter;
    assert!(iter.next().is_none());
    // The cursor has passed the record all the same.
    assert_eq!(iter.offset, directory_at + 56);
    assert!(Zip::new(&bytes).unwrap().central_dir_iter.collect().is_empty());
}

#[test]
fn payload_beyond_the_buffer_ends_iteration() {
    let mut bytes = Vec::new();
    bytes.extend_from_slice(&local_header(0, 0, 5, 5, 0, 0));
    bytes.extend_from_slice(b"hello");
    let directory_at = bytes.len();
    let header = Central {
        method: 0,
        crc: 0,
        packed: 52,
        unpacked: 5,
        name: 0,
        extra: 0,
        comment: 0,
        local_offset: 0,
    };
    bytes.extend_from_slice(&central_header(&header));
    assert_eq!(bytes.len(), 30 + 5 + 46);
    // 51 bytes follow the local header: 52 cannot be had.
    let mut iter = NonStrictIter { data: &bytes, offset: directory_at };
    assert!(iter.next().is_none());
    assert_eq!(iter.offset, bytes.len());

    // 51 can.
    bytes[directory_at + 20] = 51;
    let mut iter = NonStrictIter { data: &bytes, offset: directory_at };
    assert_eq!(iter.next().unwrap().bytes.len(), 51);
}

#[test]
fn unread_compression_method_ends_iteration() {
    let mut members = three_members();
    members[0].method = 9;
    let bytes = archive(&members, b"");
    let zip = Zip::new(&bytes).unwrap();
    let directory_at = zip.central_dir_iter.offset;
    assert!(zip.central_dir_iter.collect().is_empty());

    let mut iter = Zip::new(&bytes).unwrap().central_dir_iter;
    assert!(iter.next().is_none());
    assert_eq!(iter.offset, directory_at + 56);
}

#[test]
fn unread_compression_method_in_the_middle_cuts_the_sequence() {
    for code in [1u16, 9, 12, 14, 93, 98, 99, 0xffff] {
        let mut members = three_members();
        members[1].method = code;
        let bytes = archive(&members, b"");
        let files = Zip::new(&bytes).unwrap().central_dir_iter.collect();
        assert_eq!(files.len(), 1, "code {}", code);
        assert_eq!(files[0].filename, b"a.txt");
    }
}

#[test]
fn signature_of_a_header_is_not_looked_at() {
    let members = three_members();
    let mut bytes = archive(&members, b"");
    let directory_at = Zip::new(&bytes).unwrap().central_dir_iter.offset;
    bytes[directory_at..directory_at + 4].copy_from_slice(&[0, 0, 0, 0]);
    bytes[0..4].copy_from_slice(&[0xff, 0xff, 0xff, 0xff]);
    let files = Zip::new(&bytes).unwrap().central_dir_iter.collect();
    assert_eq!(files.len(), 3);
    assert_matches(&files[0], &members[0]);
}

#[test]
fn cursor_does_not_hold_to_the_claimed_number_of_entries() {
    // An archive that claims no entries. Its comment is laid out so that
    // the end record and the comment read as a central directory record
    // with a Zip64 extension.
    let mut comment = vec![0u8; 24];
    comment[8..10].copy_from_slice(&32u16.to_le_bytes());
    comment.extend_from_slice(&zip64_record(0, 0, 0));
    let bytes = end_record(0, 0, 0, &comment);
    assert_eq!(bytes.len(), 22 + 56);

    let zip = Zip::new(&bytes).unwrap();
    assert_eq!(zip.central_dir_records_total, 0);
    let mut iter = zip.central_dir_iter;
    let file = iter.next().unwrap();
    assert_eq!(file.filename, b"");
    assert_eq!(file.bytes, b"");
    assert_eq!(file.extra_fields.len(), 32);
    assert_eq!(iter.offset, bytes.len());
    assert!(iter.next().is_none());
}

#[test]
fn claimed_total_is_reported_as_claimed() {
    let members = three_members();
    let mut bytes = archive(&members, b"");
    let at = bytes.len() - 22 + 10;
    bytes[at..at + 2].copy_from_slice(&500u16.to_le_bytes());
    let zip = Zip::new(&bytes).unwrap();
    assert_eq!(zip.central_dir_records_total, 500);
    assert_eq!(zip.central_dir_iter.collect().len(), 3);
}
