//! What holds of an archive while it is being built.
//!
//! The builder keeps three things: the bytes written so far, the list of
//! entries that will become the central directory, and, if payloads are
//! deduplicated, the index of the records written. `consistent` says how
//! the three belong together. Two lemmas show that the two ways in which an
//! entry is added keep them so, and further lemmas draw from `consistent`
//! what a reader of the finished archive can rely on.

use vstd::prelude::*;
use vstd::utf8::valid_utf8;
use crate::deduplication::{
    first_match, lemma_first_match, payload_at, payload_start, record_at, stored_payload,
};
use crate::zip_file_record::{CompressionMethod, LocalFileHeaderView};

verus! {

/// The fields of an entry of the directory under construction, as
/// mathematical values.
pub struct PartialCentralDirectoryHeaderView {
    pub local_header_offset: u64,
    pub file_name: Seq<u8>,
    pub compression_method: CompressionMethod,
    pub squash_time: Seq<u8>,
    pub crc32: u32,
    pub compressed_size: u32,
    pub uncompressed_size: u32,
}

impl PartialCentralDirectoryHeaderView {
    /// What the index of records files this entry under: its CRC-32 and
    /// the size of its payload.
    pub open spec fn key(self) -> (u32, u32) {
        (self.crc32, self.compressed_size)
    }

    /// The entry for a file with the local file header `header` whose
    /// record stands at `offset`.
    pub open spec fn of(header: LocalFileHeaderView, offset: u64) -> Self {
        PartialCentralDirectoryHeaderView {
            local_header_offset: offset,
            file_name: header.file_name,
            compression_method: header.compression_method,
            squash_time: header.squash_time,
            crc32: header.crc32,
            compressed_size: header.compressed_size,
            uncompressed_size: header.uncompressed_size,
        }
    }
}

/// Whether `entry` can go into the directory of the archive with the bytes
/// `output` and a prologue of `prologue` bytes: its fields fit a central
/// directory header, its file name is valid UTF-8, and a record that
/// announces its payload size stands at its offset, behind the prologue.
pub open spec fn entry_placed(
    output: Seq<u8>,
    prologue: u64,
    entry: PartialCentralDirectoryHeaderView,
) -> bool {
    &&& entry.squash_time.len() == 4
    &&& entry.file_name.len() <= 0xFFFF
    &&& valid_utf8(entry.file_name)
    &&& prologue <= entry.local_header_offset
    &&& record_at(output, entry.local_header_offset, entry.compressed_size)
}

/// Whether the index may remember `header` under `key`: a record that
/// announces a payload of the key's size stands at the header's offset,
/// behind the prologue, and the header's size is that of the record's
/// local file header.
pub open spec fn header_remembered(
    output: Seq<u8>,
    prologue: u64,
    key: (u32, u32),
    header: (u64, u32),
) -> bool {
    &&& prologue <= header.0
    &&& record_at(output, header.0, key.1)
    &&& header.0 + header.1 == payload_start(output, header.0)
}

/// Whether `processed` is the index of the records of `directory`.
pub open spec fn index_consistent(
    output: Seq<u8>,
    prologue: u64,
    directory: Seq<PartialCentralDirectoryHeaderView>,
    processed: Map<(u32, u32), Seq<(u64, u32)>>,
) -> bool {
    &&& forall|key: (u32, u32), j: int|
        processed.contains_key(key) && 0 <= j < processed[key].len() ==> header_remembered(
            output,
            prologue,
            key,
            #[trigger] processed[key][j],
        )
    &&& forall|i: int|
        0 <= i < directory.len() ==> processed.contains_key((#[trigger] directory[i]).key())
            && exists|j: int|
            0 <= j < processed[directory[i].key()].len() && (
            #[trigger] processed[directory[i].key()][j]).0 == directory[i].local_header_offset
    &&& forall|key: (u32, u32), other: (u32, u32), j: int, k: int|
        processed.contains_key(key) && processed.contains_key(other) && 0 <= j
            < processed[key].len() && 0 <= k < processed[other].len() && (
        #[trigger] processed[key][j]).0 == (#[trigger] processed[other][k]).0 ==> key == other
            && j == k
    &&& forall|key: (u32, u32), j: int, k: int|
        processed.contains_key(key) && 0 <= j < processed[key].len() && 0 <= k
            < processed[key].len() && j != k ==> stored_payload(
            output,
            (#[trigger] processed[key][j]).0,
            key.1,
        ) != stored_payload(output, (#[trigger] processed[key][k]).0, key.1)
}

/// Whether the bytes, the directory and the index of an archive under
/// construction belong together.
///
/// The prologue is part of the bytes and every entry of the directory is
/// placed. With deduplication, the index holds the record of every entry
/// under the entry's key, no record twice, and no two records of one key
/// with the same payload. Without, the index is empty and every entry has
/// a record of its own, in the order of the directory.
pub open spec fn consistent(
    output: Seq<u8>,
    prologue: u64,
    directory: Seq<PartialCentralDirectoryHeaderView>,
    processed: Map<(u32, u32), Seq<(u64, u32)>>,
    deduplicating: bool,
) -> bool {
    &&& prologue <= output.len()
    &&& forall|i: int|
        0 <= i < directory.len() ==> entry_placed(output, prologue, #[trigger] directory[i])
    &&& if deduplicating {
        index_consistent(output, prologue, directory, processed)
    } else {
        &&& processed == Map::<(u32, u32), Seq<(u64, u32)>>::empty()
        &&& forall|i: int, j: int|
            0 <= i < j < directory.len() ==> (#[trigger] directory[i]).local_header_offset < (
            #[trigger] directory[j]).local_header_offset
    }
}

/// The headers that the index remembers under `key`.
pub open spec fn remembered(processed: Map<(u32, u32), Seq<(u64, u32)>>, key: (u32, u32)) -> Seq<
    (u64, u32),
> {
    if processed.contains_key(key) {
        processed[key]
    } else {
        Seq::<(u64, u32)>::empty()
    }
}

/// The record that the payload of a new entry is found in, if
/// deduplication is on and the archive holds a record with the entry's
/// CRC-32, size and payload.
pub open spec fn duplicate(
    output: Seq<u8>,
    processed: Map<(u32, u32), Seq<(u64, u32)>>,
    deduplicating: bool,
    key: (u32, u32),
    payload: Seq<u8>,
) -> Option<u64> {
    if deduplicating {
        first_match(output, remembered(processed, key), payload)
    } else {
        None
    }
}

/// Bytes that are appended to an archive leave its records where they are.
pub proof fn lemma_record_kept(output: Seq<u8>, appended: Seq<u8>, offset: u64, size: u32)
    requires
        record_at(output, offset, size),
    ensures
        record_at(output + appended, offset, size),
        payload_start(output + appended, offset) == payload_start(output, offset),
        stored_payload(output + appended, offset, size) == stored_payload(output, offset, size),
{
    let longer = output + appended;
    assert(longer.subrange(offset as int, offset + 4) =~= output.subrange(
        offset as int,
        offset + 4,
    ));
    assert(stored_payload(longer, offset, size) =~= stored_payload(output, offset, size));
}

/// A local file header and its payload, appended to an archive, are a
/// record at the archive's former end.
pub proof fn lemma_record_appended(output: Seq<u8>, header: LocalFileHeaderView, payload: Seq<u8>)
    requires
        header.wf(),
        header.compressed_size == payload.len(),
        output.len() + header.size() + payload.len() <= u64::MAX,
    ensures
        ({
            let longer = output + header.encoding() + payload;
            let offset = output.len() as u64;
            &&& record_at(longer, offset, header.compressed_size)
            &&& payload_start(longer, offset) == output.len() + header.size()
            &&& stored_payload(longer, offset, header.compressed_size) == payload
        }),
{
    let encoded = header.encoding();
    let longer = output + encoded + payload;
    let offset = output.len() as int;
    header.lemma_layout();
    assert(longer.subrange(offset, offset + 4) =~= encoded.subrange(0, 4));
    assert(longer[offset + 18] == encoded[18]);
    assert(longer[offset + 19] == encoded[19]);
    assert(longer[offset + 20] == encoded[20]);
    assert(longer[offset + 21] == encoded[21]);
    assert(longer[offset + 26] == encoded[26]);
    assert(longer[offset + 27] == encoded[27]);
    assert(longer[offset + 28] == encoded[28]);
    assert(longer[offset + 29] == encoded[29]);
    assert(stored_payload(longer, offset as u64, header.compressed_size) =~= payload);
}

/// An entry that points at a record which the index remembers under the
/// entry's key can join the directory, the bytes and the index staying as
/// they are.
pub proof fn lemma_entry_shares_record(
    output: Seq<u8>,
    prologue: u64,
    directory: Seq<PartialCentralDirectoryHeaderView>,
    processed: Map<(u32, u32), Seq<(u64, u32)>>,
    entry: PartialCentralDirectoryHeaderView,
    j: int,
)
    requires
        consistent(output, prologue, directory, processed, true),
        entry.squash_time.len() == 4,
        entry.file_name.len() <= 0xFFFF,
        valid_utf8(entry.file_name),
        processed.contains_key(entry.key()),
        0 <= j < processed[entry.key()].len(),
        processed[entry.key()][j].0 == entry.local_header_offset,
    ensures
        consistent(output, prologue, directory.push(entry), processed, true),
{
    let extended = directory.push(entry);
    assert(header_remembered(output, prologue, entry.key(), processed[entry.key()][j]));
    assert forall|i: int| 0 <= i < extended.len() implies entry_placed(
        output,
        prologue,
        #[trigger] extended[i],
    ) by {
        if i < directory.len() {
            assert(extended[i] == directory[i]);
        }
    }
    assert forall|i: int| 0 <= i < extended.len() implies processed.contains_key(
        (#[trigger] extended[i]).key(),
    ) && exists|k: int|
        0 <= k < processed[extended[i].key()].len() && (
        #[trigger] processed[extended[i].key()][k]).0 == extended[i].local_header_offset by {
        if i < directory.len() {
            assert(extended[i] == directory[i]);
        } else {
            assert(processed[extended[i].key()][j].0 == extended[i].local_header_offset);
        }
    }
}

/// An entry whose record is appended to the archive can join the
/// directory. With deduplication, the record has to hold a payload that no
/// record of the entry's key holds, and the index then remembers it.
pub proof fn lemma_entry_appends_record(
    output: Seq<u8>,
    prologue: u64,
    directory: Seq<PartialCentralDirectoryHeaderView>,
    processed: Map<(u32, u32), Seq<(u64, u32)>>,
    deduplicating: bool,
    entry: PartialCentralDirectoryHeaderView,
    header: LocalFileHeaderView,
    payload: Seq<u8>,
)
    requires
        consistent(output, prologue, directory, processed, deduplicating),
        entry.squash_time.len() == 4,
        entry.file_name.len() <= 0xFFFF,
        valid_utf8(entry.file_name),
        entry.local_header_offset == output.len(),
        entry.compressed_size == payload.len(),
        header.wf(),
        header.compressed_size == entry.compressed_size,
        output.len() + header.size() + payload.len() <= u64::MAX,
        duplicate(output, processed, deduplicating, entry.key(), payload).is_none(),
    ensures
        consistent(
            output + header.encoding() + payload,
            prologue,
            directory.push(entry),
            if deduplicating {
                processed.insert(
                    entry.key(),
                    remembered(processed, entry.key()).push(
                        (entry.local_header_offset, header.size() as u32),
                    ),
                )
            } else {
                processed
            },
            deduplicating,
        ),
{
    let appended = header.encoding() + payload;
    let longer = output + header.encoding() + payload;
    assert(longer =~= output + appended);
    let extended = directory.push(entry);
    let offset = entry.local_header_offset;
    lemma_record_appended(output, header, payload);
    // The records of the entries that were there are kept, and the record
    // of the new entry is the one appended.
    assert forall|i: int| 0 <= i < extended.len() implies entry_placed(
        longer,
        prologue,
        #[trigger] extended[i],
    ) by {
        if i < directory.len() {
            assert(extended[i] == directory[i]);
            lemma_record_kept(
                output,
                appended,
                directory[i].local_header_offset,
                directory[i].compressed_size,
            );
        }
    }
    if deduplicating {
        let key = entry.key();
        let before = remembered(processed, key);
        let bucket = before.push((offset, header.size() as u32));
        let updated = processed.insert(key, bucket);
        lemma_first_match(output, before, payload);
        // A header of the new index is the new one, which alone stands at
        // the former end of the archive, or one of the old index, whose
        // record and payload are where they were.
        assert forall|other: (u32, u32), j: int|
            updated.contains_key(other) && 0 <= j < updated[other].len() implies header_remembered(
            longer,
            prologue,
            other,
            #[trigger] updated[other][j],
        ) && (updated[other][j].0 == offset <==> other == key && j == before.len()) && (
        updated[other][j].0 != offset ==> processed.contains_key(other) && j
            < processed[other].len() && processed[other][j] == updated[other][j]
            && stored_payload(longer, updated[other][j].0, other.1) == stored_payload(
            output,
            updated[other][j].0,
            other.1,
        )) by {
            if other == key && j == before.len() {
            } else {
                assert(processed.contains_key(other));
                assert(processed[other][j] == updated[other][j]);
                assert(header_remembered(output, prologue, other, processed[other][j]));
                lemma_record_kept(output, appended, processed[other][j].0, other.1);
            }
        }
        // The record of every entry is still remembered under its key.
        assert forall|i: int| 0 <= i < extended.len() implies updated.contains_key(
            (#[trigger] extended[i]).key(),
        ) && exists|j: int|
            0 <= j < updated[extended[i].key()].len() && (
            #[trigger] updated[extended[i].key()][j]).0 == extended[i].local_header_offset by {
            if i < directory.len() {
                assert(extended[i] == directory[i]);
                let other = directory[i].key();
                assert(processed.contains_key(other));
                let j = choose|j: int|
                    0 <= j < processed[other].len() && (#[trigger] processed[other][j]).0
                        == directory[i].local_header_offset;
                assert(updated.contains_key(other));
                assert(0 <= j < updated[other].len());
                assert(updated[other][j] == processed[other][j]);
                assert(updated[other][j].0 == directory[i].local_header_offset);
            } else {
                assert(extended[i] == entry);
                assert(updated[key] == bucket);
                assert(bucket[before.len() as int].0 == offset);
                assert(updated[key][before.len() as int].0 == offset);
            }
        }
        // The new payload differs from those of its key, as no match was
        // found among them.
        assert forall|other: (u32, u32), j: int, k: int|
            updated.contains_key(other) && 0 <= j < updated[other].len() && 0 <= k
                < updated[other].len() && j != k implies stored_payload(
            longer,
            (#[trigger] updated[other][j]).0,
            other.1,
        ) != stored_payload(longer, (#[trigger] updated[other][k]).0, other.1) by {
            if other == key && (j == before.len() || k == before.len()) {
                let old_one = if j == before.len() {
                    k
                } else {
                    j
                };
                assert(header_remembered(output, prologue, key, before[old_one]));
                assert(!payload_at(output, before[old_one].0 + before[old_one].1, payload));
                assert(stored_payload(output, before[old_one].0, key.1) != payload);
                assert(updated[key][old_one] == before[old_one]);
            } else {
                assert(processed[other][j] == updated[other][j]);
                assert(processed[other][k] == updated[other][k]);
            }
        }
        assert(index_consistent(longer, prologue, extended, updated));
    } else {
        // Every record that was there starts in front of the new one.
        assert forall|i: int, j: int| 0 <= i < j < extended.len() implies (
        #[trigger] extended[i]).local_header_offset < (
        #[trigger] extended[j]).local_header_offset by {
            assert(extended[i] == directory[i]);
            assert(entry_placed(output, prologue, directory[i]));
            if j < directory.len() {
                assert(extended[j] == directory[j]);
            }
        }
    }
}

/// Entries that share a record have the same CRC-32 and the same payload
/// size.
pub proof fn lemma_shared_record_same_key(
    output: Seq<u8>,
    prologue: u64,
    directory: Seq<PartialCentralDirectoryHeaderView>,
    processed: Map<(u32, u32), Seq<(u64, u32)>>,
    deduplicating: bool,
    i: int,
    j: int,
)
    requires
        consistent(output, prologue, directory, processed, deduplicating),
        0 <= i < directory.len(),
        0 <= j < directory.len(),
        directory[i].local_header_offset == directory[j].local_header_offset,
    ensures
        directory[i].crc32 == directory[j].crc32,
        directory[i].compressed_size == directory[j].compressed_size,
{
    if deduplicating {
        let first = directory[i].key();
        let second = directory[j].key();
        let a = choose|a: int|
            0 <= a < processed[first].len() && (#[trigger] processed[first][a]).0
                == directory[i].local_header_offset;
        let b = choose|b: int|
            0 <= b < processed[second].len() && (#[trigger] processed[second][b]).0
                == directory[j].local_header_offset;
        assert(processed[first][a].0 == processed[second][b].0);
    } else {
        if i < j {
            assert(directory[i].local_header_offset < directory[j].local_header_offset);
        } else if j < i {
            assert(directory[j].local_header_offset < directory[i].local_header_offset);
        }
    }
}

/// With deduplication, entries with the same CRC-32 whose payloads are the
/// same bytes share one record.
pub proof fn lemma_same_payload_shares_record(
    output: Seq<u8>,
    prologue: u64,
    directory: Seq<PartialCentralDirectoryHeaderView>,
    processed: Map<(u32, u32), Seq<(u64, u32)>>,
    i: int,
    j: int,
)
    requires
        consistent(output, prologue, directory, processed, true),
        0 <= i < directory.len(),
        0 <= j < directory.len(),
        directory[i].crc32 == directory[j].crc32,
        directory[i].compressed_size == directory[j].compressed_size,
        stored_payload(output, directory[i].local_header_offset, directory[i].compressed_size)
            == stored_payload(
            output,
            directory[j].local_header_offset,
            directory[j].compressed_size,
        ),
    ensures
        directory[i].local_header_offset == directory[j].local_header_offset,
{
    let key = directory[i].key();
    assert(directory[j].key() == key);
    let a = choose|a: int|
        0 <= a < processed[key].len() && (#[trigger] processed[key][a]).0
            == directory[i].local_header_offset;
    let b = choose|b: int|
        0 <= b < processed[key].len() && (#[trigger] processed[key][b]).0
            == directory[j].local_header_offset;
    if a != b {
        assert(stored_payload(output, processed[key][a].0, key.1) != stored_payload(
            output,
            processed[key][b].0,
            key.1,
        ));
    }
}

/// Without deduplication, every entry has a record of its own.
pub proof fn lemma_records_distinct(
    output: Seq<u8>,
    prologue: u64,
    directory: Seq<PartialCentralDirectoryHeaderView>,
    processed: Map<(u32, u32), Seq<(u64, u32)>>,
    i: int,
    j: int,
)
    requires
        consistent(output, prologue, directory, processed, false),
        0 <= i < directory.len(),
        0 <= j < directory.len(),
        i != j,
    ensures
        directory[i].local_header_offset != directory[j].local_header_offset,
{
    if i < j {
        assert(directory[i].local_header_offset < directory[j].local_header_offset);
    } else {
        assert(directory[j].local_header_offset < directory[i].local_header_offset);
    }
}

} // verus!
