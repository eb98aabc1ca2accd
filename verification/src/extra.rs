//! The extra field block of an entry: a chain of records, each a 2-byte
//! signal, a 2-byte payload length and the payload.

use crate::raw::{ExtraHeader, Zip64Extra, EXTRA_HEADER_SIZE};
use crate::slice_split_at;
use vstd::prelude::*;

verus! {

/// The first record of the block `s`, as its signal, its payload and what
/// follows it. There is none if `s` is shorter than a record header, or if
/// the header declares more payload bytes than `s` has left.
pub open spec fn spec_next(s: Seq<u8>) -> Option<(u16, Seq<u8>, Seq<u8>)> {
    if s.len() < EXTRA_HEADER_SIZE {
        None
    } else {
        let header = ExtraHeader::decode(s);
        let end = EXTRA_HEADER_SIZE + header.extra_field_size;
        if end > s.len() {
            None
        } else {
            Some(
                (
                    header.header,
                    s.subrange(EXTRA_HEADER_SIZE as int, end),
                    s.subrange(end, s.len() as int),
                ),
            )
        }
    }
}

/// All records of the block `s` in the order in which they lie, up to the
/// first place where no record can be read.
pub open spec fn spec_records(s: Seq<u8>) -> Seq<(u16, Seq<u8>)>
    decreases s.len(),
{
    match spec_next(s) {
        Some((signal, payload, rest)) => seq![(signal, payload)] + spec_records(rest),
        None => Seq::empty(),
    }
}

/// The payload of the first record of the block `s` that carries `signal`.
pub open spec fn spec_first(s: Seq<u8>, signal: u16) -> Option<Seq<u8>>
    decreases s.len(),
{
    match spec_next(s) {
        Some((found, payload, rest)) => if found == signal {
            Some(payload)
        } else {
            spec_first(rest, signal)
        },
        None => None,
    }
}

/// Cursor over the records of an extra field block. `data` is the part of
/// the block that has not been read yet.
pub struct Iter<'extra> {
    pub data: &'extra [u8],
}

impl<'extra> Iter<'extra> {
    /// Reads the next record and moves past it. Where no record can be read
    /// the cursor stays where it is.
    pub fn next(&mut self) -> (item: Option<(u16, &'extra [u8])>)
        ensures
            match spec_next(old(self).data@) {
                Some((signal, payload, rest)) => {
                    &&& item matches Some((found, bytes))
                    &&& found == signal
                    &&& bytes@ == payload
                    &&& final(self).data@ == rest
                },
                None => item is None && final(self).data@ == old(self).data@,
            },
    {
        let header = ExtraHeader::parse(self.data)?;
        let (_, tail) = slice_split_at(self.data, EXTRA_HEADER_SIZE)?;
        let (payload, tail) = slice_split_at(tail, header.extra_field_size as usize)?;
        self.data = tail;
        Some((header.header, payload))
    }

    /// Reads the records from the cursor on and gathers them, up to the
    /// first place where no record can be read.
    pub fn collect(self) -> (records: Vec<(u16, &'extra [u8])>)
        ensures
            spec_views(records@) == spec_records(self.data@),
    {
        let mut iter = self;
        let mut records: Vec<(u16, &'extra [u8])> = Vec::new();
        loop
            invariant
                spec_views(records@) + spec_records(iter.data@) == spec_records(self.data@),
            decreases iter.data@.len(),
        {
            let ghost before = spec_views(records@);
            match iter.next() {
                Some(record) => {
                    records.push(record);
                    assert(spec_views(records@) =~= before + seq![(record.0, record.1@)]);
                },
                None => {
                    return records;
                },
            }
        }
    }
}

/// What each of `records` holds, in the same order.
pub open spec fn spec_views<'extra>(records: Seq<(u16, &'extra [u8])>) -> Seq<(u16, Seq<u8>)> {
    records.map_values(|record: (u16, &'extra [u8])| (record.0, record.1@))
}

/// Every record takes at least the four bytes of its header, so a block of
/// `n` bytes holds no more than `n / 4` records.
pub proof fn lemma_records_are_finite(s: Seq<u8>)
    ensures
        EXTRA_HEADER_SIZE * spec_records(s).len() <= s.len(),
    decreases s.len(),
{
    match spec_next(s) {
        Some((_, _, rest)) => {
            lemma_records_are_finite(rest);
        },
        None => {},
    }
}

/// The payload that is found for a signal is that of the first record of
/// the block with that signal, and none is found only where no record of
/// the block carries the signal. Records with other signals are skipped.
pub proof fn lemma_first_is_first_of_records(s: Seq<u8>, signal: u16)
    ensures
        match spec_first(s, signal) {
            Some(payload) => exists|i: int|
                {
                    &&& 0 <= i < spec_records(s).len()
                    &&& #[trigger] spec_records(s)[i] == (signal, payload)
                    &&& forall|j: int| 0 <= j < i ==> (#[trigger] spec_records(s)[j]).0 != signal
                },
            None => forall|i: int|
                0 <= i < spec_records(s).len() ==> (#[trigger] spec_records(s)[i]).0 != signal,
        },
    decreases s.len(),
{
    match spec_next(s) {
        Some((found, payload, rest)) => {
            let records = spec_records(s);
            let later = spec_records(rest);
            assert(records == seq![(found, payload)] + later);
            if found == signal {
                assert(records[0] == (signal, payload));
            } else {
                lemma_first_is_first_of_records(rest, signal);
                assert(forall|i: int| 0 < i < records.len() ==> records[i] == later[i - 1]);
                match spec_first(rest, signal) {
                    Some(later_payload) => {
                        let k = choose|k: int|
                            {
                                &&& 0 <= k < later.len()
                                &&& #[trigger] later[k] == (signal, later_payload)
                                &&& forall|j: int| 0 <= j < k ==> (#[trigger] later[j]).0 != signal
                            };
                        assert(records[k + 1] == (signal, later_payload));
                        assert forall|j: int| 0 <= j < k + 1 implies (#[trigger] records[j]).0
                            != signal by {
                            if j > 0 {
                                assert(records[j] == later[j - 1]);
                            }
                        }
                    },
                    None => {
                        assert forall|i: int| 0 <= i < records.len() implies (
                        #[trigger] records[i]).0 != signal by {
                            if i > 0 {
                                assert(records[i] == later[i - 1]);
                            }
                        }
                    },
                }
            }
        },
        None => {},
    }
}

/// A typed extra field record: one that is told by its signal and decoded
/// from the leading bytes of its payload.
pub trait Extra: Sized {
    /// The signal of the records that hold a value of this type.
    const SIGNATURE: u16;

    /// What [`parse`](Self::parse) returns on a payload that holds `bytes`.
    spec fn spec_parse(bytes: Seq<u8>) -> Option<Self>;

    /// Decodes a value from the payload of a record.
    fn parse(bytes: &[u8]) -> (value: Option<Self>)
        ensures
            value == Self::spec_parse(bytes@),
    ;
}

/// The Zip64 extension: the 64-bit sizes and offset of an entry.
pub struct Zip64 {
    pub decompressed_size: u64,
    pub compressed_size: u64,
    pub local_header_record_offset: u64,
    pub disk_no: u32,
}

impl Extra for Zip64 {
    const SIGNATURE: u16 = 0x0001;

    open spec fn spec_parse(bytes: Seq<u8>) -> Option<Self> {
        match Zip64Extra::spec_parse(bytes) {
            Some(raw) => Some(
                Zip64 {
                    decompressed_size: raw.decompressed_size,
                    compressed_size: raw.compressed_size,
                    local_header_record_offset: raw.local_header_record_offset,
                    disk_no: raw.disk_no,
                },
            ),
            None => None,
        }
    }

    fn parse(bytes: &[u8]) -> (value: Option<Self>) {
        let raw = Zip64Extra::parse(bytes)?;
        Some(
            Zip64 {
                decompressed_size: raw.decompressed_size,
                compressed_size: raw.compressed_size,
                local_header_record_offset: raw.local_header_record_offset,
                disk_no: raw.disk_no,
            },
        )
    }
}

/// The value that the block `s` holds for the type `E`: the first record
/// with the signal of `E`, decoded. A later record with that signal is not
/// looked at, even where the first cannot be decoded.
pub open spec fn spec_find<E: Extra>(s: Seq<u8>) -> Option<E> {
    match spec_first(s, E::SIGNATURE) {
        Some(payload) => E::spec_parse(payload),
        None => None,
    }
}

/// Looks in an extra field block for the record of the type `E` and decodes
/// it. Records with other signals are skipped.
pub fn find<E: Extra>(extra_fields: &[u8]) -> (value: Option<E>)
    ensures
        value == spec_find::<E>(extra_fields@),
{
    let mut iter = Iter { data: extra_fields };
    loop
        invariant
            spec_first(iter.data@, E::SIGNATURE) == spec_first(extra_fields@, E::SIGNATURE),
        decreases iter.data@.len(),
    {
        match iter.next() {
            Some((signal, payload)) => {
                if signal == E::SIGNATURE {
                    return E::parse(payload);
                }
            },
            None => {
                return None;
            },
        }
    }
}

} // verus!
