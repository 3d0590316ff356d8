//! What a later run reads from a finished archive.
//!
//! An archive that this library finishes is one that it accepts as the
//! archive of an earlier run, and reading it gives back what was put in:
//! every entry under its path, with its CRC-32, its sizes, its method, the
//! time at which it was processed and the place of its payload.
//!
//! One kind of archive is left out. The reader takes the offset of the
//! central directory from bytes 44 to 51 of a ZIP64 end of central
//! directory record, while the format, and with it the writer, has that
//! offset in bytes 48 to 55. The law therefore speaks of archives whose
//! central directory starts below the ZIP64 marker, which the reader finds
//! without a ZIP64 record.

use vstd::prelude::*;
use vstd::utf8::decode_utf8;
use crate::archive_layout::{consistent, entry_placed, PartialCentralDirectoryHeaderView};
use crate::byte_order::{le16, le32, le64};
use crate::deduplication::{payload_start, record_at};
use crate::engine::{
    central_directory, central_directory_header_of, end_of_central_directory_of,
    finished_archive, SquashZip,
};
use crate::error::SquashZipError;
use crate::obfuscation_engine::ObfuscationEngine;
use crate::previous_zip::{
    central_directory_offset, directory_entries, directory_entry, no_previous_files,
    parsed_previous_zip, payload_offset, stored_local_header_offset, DirectoryEntry,
    PreviousFile,
};
use crate::system_time_sanitizer::desanitized;
use crate::zip_file_record::{
    central_directory_header_signature, end_of_central_directory_signature,
    zip64_end_of_central_directory_signature, CompressionMethod, EndOfCentralDirectory,
};

verus! {

/// What a later run learns about `entry` from the archive whose records
/// are `output`: the fields of the entry, its squash time desanitized, and
/// the place of its payload.
pub open spec fn previous_file_of(
    output: Seq<u8>,
    sanitizer_key: Seq<u8>,
    entry: PartialCentralDirectoryHeaderView,
) -> PreviousFile {
    PreviousFile {
        squash_time: desanitized(sanitizer_key, entry.squash_time, entry.crc32) as u64,
        data_offset: payload_start(output, entry.local_header_offset) as u64,
        crc32: entry.crc32,
        compression_method: entry.compression_method,
        uncompressed_size: entry.uncompressed_size,
        compressed_size: entry.compressed_size,
    }
}

/// What a later run learns from the archive with the entries `directory`:
/// each entry under its path, a later entry of a path in place of an
/// earlier one.
pub open spec fn files_of(
    output: Seq<u8>,
    sanitizer_key: Seq<u8>,
    directory: Seq<PartialCentralDirectoryHeaderView>,
) -> Map<Seq<char>, PreviousFile>
    decreases directory.len(),
{
    if directory.len() == 0 {
        no_previous_files()
    } else {
        files_of(output, sanitizer_key, directory.drop_last()).insert(
            decode_utf8(directory.last().file_name),
            previous_file_of(output, sanitizer_key, directory.last()),
        )
    }
}

/// The bytes that are written for `entry` into the central directory.
pub open spec fn written_header<O: ObfuscationEngine>(
    obfuscation_engine: O,
    entry: PartialCentralDirectoryHeaderView,
) -> Seq<u8> {
    obfuscation_engine.obfuscated_central_directory_header(
        central_directory_header_of(entry),
    ).encoding()
}

/// A two-byte field of a part of an archive has the value that it has in
/// the part.
pub proof fn lemma_le16_within(archive: Seq<u8>, at: int, part: Seq<u8>, i: int)
    requires
        0 <= at,
        at + part.len() <= archive.len(),
        archive.subrange(at, at + part.len()) == part,
        0 <= i,
        i + 2 <= part.len(),
    ensures
        le16(archive, at + i) == le16(part, i),
{
    let window = archive.subrange(at, at + part.len());
    assert(window[i] == archive[at + i]);
    assert(window[i + 1] == archive[at + i + 1]);
}

/// As `lemma_le16_within`, for four bytes.
pub proof fn lemma_le32_within(archive: Seq<u8>, at: int, part: Seq<u8>, i: int)
    requires
        0 <= at,
        at + part.len() <= archive.len(),
        archive.subrange(at, at + part.len()) == part,
        0 <= i,
        i + 4 <= part.len(),
    ensures
        le32(archive, at + i) == le32(part, i),
{
    lemma_le16_within(archive, at, part, i);
    lemma_le16_within(archive, at, part, i + 2);
}

/// As `lemma_le16_within`, for eight bytes.
pub proof fn lemma_le64_within(archive: Seq<u8>, at: int, part: Seq<u8>, i: int)
    requires
        0 <= at,
        at + part.len() <= archive.len(),
        archive.subrange(at, at + part.len()) == part,
        0 <= i,
        i + 8 <= part.len(),
    ensures
        le64(archive, at + i) == le64(part, i),
{
    lemma_le32_within(archive, at, part, i);
    lemma_le32_within(archive, at, part, i + 4);
}

/// A range of a part of an archive holds the bytes that it holds in the
/// part.
pub proof fn lemma_subrange_within(archive: Seq<u8>, at: int, part: Seq<u8>, i: int, j: int)
    requires
        0 <= at,
        at + part.len() <= archive.len(),
        archive.subrange(at, at + part.len()) == part,
        0 <= i <= j <= part.len(),
    ensures
        archive.subrange(at + i, at + j) == part.subrange(i, j),
{
    let window = archive.subrange(at, at + part.len());
    assert(archive.subrange(at + i, at + j) =~= window.subrange(i, j));
}

/// The central directory of the first entries and one more is the central
/// directory of the first entries followed by the header of that one.
pub proof fn lemma_central_directory_step<O: ObfuscationEngine>(
    obfuscation_engine: O,
    directory: Seq<PartialCentralDirectoryHeaderView>,
    count: int,
)
    requires
        0 <= count < directory.len(),
    ensures
        central_directory(obfuscation_engine, directory.subrange(0, count + 1))
            == central_directory(obfuscation_engine, directory.subrange(0, count))
            + written_header(obfuscation_engine, directory[count]),
{
    let longer = directory.subrange(0, count + 1);
    assert(longer.drop_last() =~= directory.subrange(0, count));
    assert(longer.last() == directory[count]);
}

/// The header of an entry stands in the central directory of the first
/// `upto` entries behind the headers of the entries before it.
pub proof fn lemma_header_in_directory<O: ObfuscationEngine>(
    obfuscation_engine: O,
    directory: Seq<PartialCentralDirectoryHeaderView>,
    index: int,
    upto: int,
)
    requires
        0 <= index < upto <= directory.len(),
    ensures
        ({
            let whole = central_directory(obfuscation_engine, directory.subrange(0, upto));
            let before = central_directory(obfuscation_engine, directory.subrange(0, index));
            let header = written_header(obfuscation_engine, directory[index]);
            &&& before.len() + header.len() <= whole.len()
            &&& whole.subrange(before.len() as int, (before.len() + header.len()) as int) == header
        }),
    decreases upto - index,
{
    let before = central_directory(obfuscation_engine, directory.subrange(0, index));
    let header = written_header(obfuscation_engine, directory[index]);
    lemma_central_directory_step(obfuscation_engine, directory, upto - 1);
    let whole = central_directory(obfuscation_engine, directory.subrange(0, upto));
    let shorter = central_directory(obfuscation_engine, directory.subrange(0, upto - 1));
    if upto == index + 1 {
        assert(whole.subrange(before.len() as int, (before.len() + header.len()) as int) =~= header);
    } else {
        lemma_header_in_directory(obfuscation_engine, directory, index, upto - 1);
        assert(whole.subrange(before.len() as int, (before.len() + header.len()) as int)
            =~= shorter.subrange(before.len() as int, (before.len() + header.len()) as int));
    }
}

/// The fields of the central directory header of an entry, where the
/// bytes written for the entry stand at `at` of `archive`: they are the
/// fields of the entry, the CRC-32 obfuscated and the offset counted from
/// the end of the prologue.
pub proof fn lemma_header_fields_read_back<O: ObfuscationEngine>(
    obfuscation_engine: O,
    archive: Seq<u8>,
    entry: PartialCentralDirectoryHeaderView,
    at: int,
)
    requires
        entry.squash_time.len() == 4,
        entry.file_name.len() <= 0xFFFF,
        obfuscation_engine.header_size() <= entry.local_header_offset,
        0 <= at,
        at + written_header(obfuscation_engine, entry).len() <= archive.len(),
        archive.subrange(at, at + written_header(obfuscation_engine, entry).len())
            == written_header(obfuscation_engine, entry),
    ensures
        written_header(obfuscation_engine, entry).len() >= 46 + entry.file_name.len(),
        archive.subrange(at, at + 4) == central_directory_header_signature(),
        le16(archive, at + 10) == entry.compression_method.field(),
        archive.subrange(at + 12, at + 16) == entry.squash_time,
        le32(archive, at + 16) == obfuscation_engine.obfuscated_crc32(entry.crc32),
        le32(archive, at + 20) == entry.compressed_size,
        le32(archive, at + 24) == entry.uncompressed_size,
        le16(archive, at + 28) == entry.file_name.len(),
        le16(archive, at + 30) == 0 || le16(archive, at + 30) == 12,
        le16(archive, at + 32) == 0,
        archive.subrange(at + 46, at + 46 + entry.file_name.len()) == entry.file_name,
        stored_local_header_offset(archive, at) == Ok::<(u64, int), SquashZipError>(
            (
                (entry.local_header_offset - obfuscation_engine.header_size()) as u64,
                at + written_header(obfuscation_engine, entry).len(),
            ),
        ),
{
    let prologue = obfuscation_engine.header_size();
    let plain = central_directory_header_of(entry);
    let written = obfuscation_engine.obfuscated_central_directory_header(plain);
    let encoded = written.encoding();
    let name_length = entry.file_name.len() as int;
    obfuscation_engine.lemma_central_directory_header(plain);
    written.lemma_layout();
    lemma_subrange_within(archive, at, encoded, 0, 4);
    lemma_le16_within(archive, at, encoded, 10);
    lemma_subrange_within(archive, at, encoded, 12, 16);
    lemma_le32_within(archive, at, encoded, 16);
    lemma_le32_within(archive, at, encoded, 20);
    lemma_le32_within(archive, at, encoded, 24);
    lemma_le16_within(archive, at, encoded, 28);
    lemma_le16_within(archive, at, encoded, 30);
    lemma_le16_within(archive, at, encoded, 32);
    lemma_le32_within(archive, at, encoded, 42);
    lemma_subrange_within(archive, at, encoded, 46, 46 + name_length);
    if written.needs_zip64() {
        lemma_subrange_within(archive, at, encoded, 46 + name_length, 46 + name_length + 2);
        lemma_le64_within(archive, at, encoded, 46 + name_length + 4);
    }
}

/// The record of an entry is found by the reader where the builder put it:
/// the payload of the record at `offset` of `output` starts, in an archive
/// that begins with `output`, where it starts in `output`.
pub proof fn lemma_record_read_back(
    archive: Seq<u8>,
    output: Seq<u8>,
    offset: u64,
    compressed_size: u32,
)
    requires
        record_at(output, offset, compressed_size),
        output.len() <= archive.len() <= u64::MAX,
        archive.subrange(0, output.len() as int) == output,
    ensures
        payload_offset(archive, offset) == Ok::<u64, SquashZipError>(
            payload_start(output, offset) as u64,
        ),
{
    lemma_subrange_within(archive, 0, output, offset as int, offset + 4);
    lemma_le16_within(archive, 0, output, offset + 26);
    lemma_le16_within(archive, 0, output, offset + 28);
}

/// The central directory header of an entry is read back as the entry.
///
/// If the records of an archive are `output`, the entry is placed among
/// them, and the bytes written for the entry stand at `at`, then the reader
/// gets from the header at `at` the entry's path and what a later run
/// learns about the entry, and finds the header's end behind those bytes.
pub proof fn lemma_header_read_back<O: ObfuscationEngine>(
    obfuscation_engine: O,
    sanitizer_key: Seq<u8>,
    archive: Seq<u8>,
    output: Seq<u8>,
    entry: PartialCentralDirectoryHeaderView,
    at: int,
)
    requires
        entry_placed(output, obfuscation_engine.header_size(), entry),
        output.len() <= archive.len() <= u64::MAX,
        archive.subrange(0, output.len() as int) == output,
        0 <= at,
        at + written_header(obfuscation_engine, entry).len() <= archive.len(),
        archive.subrange(at, at + written_header(obfuscation_engine, entry).len())
            == written_header(obfuscation_engine, entry),
    ensures
        written_header(obfuscation_engine, entry).len() >= 46,
        archive.subrange(at, at + 4) == central_directory_header_signature(),
        directory_entry(archive, at, obfuscation_engine, sanitizer_key) == Ok::<
            DirectoryEntry,
            SquashZipError,
        >(
            DirectoryEntry {
                path: decode_utf8(entry.file_name),
                file: previous_file_of(output, sanitizer_key, entry),
                end: at + written_header(obfuscation_engine, entry).len(),
            },
        ),
{
    lemma_header_fields_read_back(obfuscation_engine, archive, entry, at);
    lemma_record_read_back(archive, output, entry.local_header_offset, entry.compressed_size);
    obfuscation_engine.lemma_crc32_round_trip(entry.crc32);
    assert(CompressionMethod::of_field(entry.compression_method.field()) == Ok::<
        CompressionMethod,
        SquashZipError,
    >(entry.compression_method));
}

/// The three parts of a finished archive stand in it one behind the other.
pub proof fn lemma_archive_parts(output: Seq<u8>, records: Seq<u8>, closing: Seq<u8>)
    ensures
        ({
            let archive = output + records + closing;
            let directory_start = output.len() as int;
            let directory_end = (output.len() + records.len()) as int;
            &&& archive.len() == directory_end + closing.len()
            &&& archive.subrange(0, directory_start) == output
            &&& archive.subrange(directory_start, directory_end) == records
            &&& archive.subrange(directory_end, archive.len() as int) == closing
        }),
{
    let archive = output + records + closing;
    let directory_start = output.len() as int;
    let directory_end = (output.len() + records.len()) as int;
    assert(archive.subrange(0, directory_start) =~= output);
    assert(archive.subrange(directory_start, directory_end) =~= records);
    assert(archive.subrange(directory_end, archive.len() as int) =~= closing);
}

/// The bytes written for an entry stand in the finished archive behind the
/// records and the headers of the entries before it.
pub proof fn lemma_header_in_archive<O: ObfuscationEngine>(
    obfuscation_engine: O,
    output: Seq<u8>,
    directory: Seq<PartialCentralDirectoryHeaderView>,
    closing: Seq<u8>,
    index: int,
)
    requires
        0 <= index < directory.len(),
    ensures
        ({
            let archive = output + central_directory(obfuscation_engine, directory) + closing;
            let before = central_directory(obfuscation_engine, directory.subrange(0, index));
            let header = written_header(obfuscation_engine, directory[index]);
            let at = (output.len() + before.len()) as int;
            &&& at + header.len() + closing.len() <= archive.len()
            &&& archive.subrange(at, at + header.len()) == header
            &&& central_directory(obfuscation_engine, directory.subrange(0, index + 1)).len()
                == before.len() + header.len()
        }),
{
    let records = central_directory(obfuscation_engine, directory);
    let archive = output + records + closing;
    let before = central_directory(obfuscation_engine, directory.subrange(0, index));
    let header = written_header(obfuscation_engine, directory[index]);
    assert(directory.subrange(0, directory.len() as int) =~= directory);
    lemma_header_in_directory(obfuscation_engine, directory, index, directory.len() as int);
    lemma_central_directory_step(obfuscation_engine, directory, index);
    lemma_archive_parts(output, records, closing);
    lemma_subrange_within(
        archive,
        output.len() as int,
        records,
        before.len() as int,
        (before.len() + header.len()) as int,
    );
}

/// Behind the last header of the central directory the reader stops: the
/// end of central directory record does not open like a header.
pub proof fn lemma_directory_read_to_its_end<O: ObfuscationEngine>(
    obfuscation_engine: O,
    sanitizer_key: Seq<u8>,
    body: Seq<u8>,
    closing: EndOfCentralDirectory,
    found: Map<Seq<char>, PreviousFile>,
)
    ensures
        directory_entries(
            body + closing.encoding(),
            body.len() as int,
            obfuscation_engine,
            sanitizer_key,
            found,
        ) == Ok::<Map<Seq<char>, PreviousFile>, SquashZipError>(found),
{
    let archive = body + closing.encoding();
    let at = body.len() as int;
    closing.lemma_opening();
    assert(archive.subrange(at, at + 4) =~= closing.encoding().subrange(0, 4));
    assert(end_of_central_directory_signature()[2] != central_directory_header_signature()[2]);
    assert(zip64_end_of_central_directory_signature()[2]
        != central_directory_header_signature()[2]);
    assert(archive.subrange(at, at + 4) != central_directory_header_signature());
}

/// Having read the header of an entry, the reader goes on behind it with
/// the entry among what it has found.
pub proof fn lemma_directory_read_on<O: ObfuscationEngine>(
    obfuscation_engine: O,
    sanitizer_key: Seq<u8>,
    archive: Seq<u8>,
    output: Seq<u8>,
    entry: PartialCentralDirectoryHeaderView,
    at: int,
    found: Map<Seq<char>, PreviousFile>,
)
    requires
        entry_placed(output, obfuscation_engine.header_size(), entry),
        output.len() <= archive.len() <= u64::MAX,
        archive.subrange(0, output.len() as int) == output,
        0 <= at,
        at + written_header(obfuscation_engine, entry).len() <= archive.len(),
        archive.subrange(at, at + written_header(obfuscation_engine, entry).len())
            == written_header(obfuscation_engine, entry),
    ensures
        directory_entries(archive, at, obfuscation_engine, sanitizer_key, found)
            == directory_entries(
            archive,
            at + written_header(obfuscation_engine, entry).len(),
            obfuscation_engine,
            sanitizer_key,
            found.insert(
                decode_utf8(entry.file_name),
                previous_file_of(output, sanitizer_key, entry),
            ),
        ),
{
    lemma_header_read_back(obfuscation_engine, sanitizer_key, archive, output, entry, at);
}

/// The headers of the central directory are read back one after the other.
///
/// In an archive that is made of the records `output`, the central
/// directory of `directory` and an end of central directory record
/// `closing`, the reader that has read the first `count` headers reads the
/// rest and stops at the record, having found all entries.
pub proof fn lemma_directory_read_back<O: ObfuscationEngine>(
    obfuscation_engine: O,
    sanitizer_key: Seq<u8>,
    output: Seq<u8>,
    directory: Seq<PartialCentralDirectoryHeaderView>,
    closing: EndOfCentralDirectory,
    count: int,
)
    requires
        forall|i: int|
            0 <= i < directory.len() ==> entry_placed(
                output,
                obfuscation_engine.header_size(),
                #[trigger] directory[i],
            ),
        0 <= count <= directory.len(),
        (output + central_directory(obfuscation_engine, directory) + closing.encoding()).len()
            <= u64::MAX,
    ensures
        directory_entries(
            output + central_directory(obfuscation_engine, directory) + closing.encoding(),
            (output.len() + central_directory(
                obfuscation_engine,
                directory.subrange(0, count),
            ).len()) as int,
            obfuscation_engine,
            sanitizer_key,
            files_of(output, sanitizer_key, directory.subrange(0, count)),
        ) == Ok::<Map<Seq<char>, PreviousFile>, SquashZipError>(
            files_of(output, sanitizer_key, directory),
        ),
    decreases directory.len() - count,
{
    let records = central_directory(obfuscation_engine, directory);
    let archive = output + records + closing.encoding();
    let before = central_directory(obfuscation_engine, directory.subrange(0, count));
    let at = (output.len() + before.len()) as int;
    let found = files_of(output, sanitizer_key, directory.subrange(0, count));
    lemma_archive_parts(output, records, closing.encoding());
    if count == directory.len() {
        assert(directory.subrange(0, count) =~= directory);
        lemma_directory_read_to_its_end(
            obfuscation_engine,
            sanitizer_key,
            output + records,
            closing,
            found,
        );
    } else {
        let entry = directory[count];
        lemma_header_in_archive(obfuscation_engine, output, directory, closing.encoding(), count);
        lemma_directory_read_on(
            obfuscation_engine,
            sanitizer_key,
            archive,
            output,
            entry,
            at,
            found,
        );
        let longer = directory.subrange(0, count + 1);
        assert(files_of(output, sanitizer_key, longer) == found.insert(
            decode_utf8(entry.file_name),
            previous_file_of(output, sanitizer_key, entry),
        )) by {
            assert(longer.drop_last() =~= directory.subrange(0, count));
            assert(longer.last() == entry);
        }
        lemma_directory_read_back(
            obfuscation_engine,
            sanitizer_key,
            output,
            directory,
            closing,
            count + 1,
        );
    }
}

/// The reader finds the central directory where the end of central
/// directory record says, if the record says it in 32 bits.
pub proof fn lemma_central_directory_found(
    body: Seq<u8>,
    closing: EndOfCentralDirectory,
    record_offset: u64,
)
    requires
        closing.central_directory_start_offset < 0xFFFF_FFFF,
    ensures
        central_directory_offset(body + closing.encoding(), record_offset) == Ok::<
            u64,
            SquashZipError,
        >(closing.central_directory_start_offset),
{
    let archive = body + closing.encoding();
    let plain = closing.plain_record();
    let end = archive.len() as int;
    closing.lemma_layout();
    closing.lemma_plain_record_layout();
    assert(archive.subrange(end - 22, end - 22 + plain.len()) =~= plain) by {
        assert(archive.subrange(end - 22, end) =~= closing.encoding().subrange(
            closing.size() - 22,
            closing.size(),
        ));
    }
    lemma_subrange_within(archive, end - 22, plain, 0, 4);
    lemma_le32_within(archive, end - 22, plain, 16);
}

/// In a consistent archive under construction the prologue is written and
/// every entry is placed.
pub proof fn lemma_entries_placed(
    output: Seq<u8>,
    prologue: u64,
    directory: Seq<PartialCentralDirectoryHeaderView>,
    processed: Map<(u32, u32), Seq<(u64, u32)>>,
    deduplicating: bool,
)
    requires
        consistent(output, prologue, directory, processed, deduplicating),
    ensures
        prologue <= output.len(),
        forall|i: int|
            0 <= i < directory.len() ==> entry_placed(output, prologue, #[trigger] directory[i]),
{
}

/// A finished archive is read back as it was made.
///
/// For every archive under construction whose central directory will start
/// below the ZIP64 marker, counted from the end of the prologue, the
/// finished archive is accepted by the reader, with the same obfuscation
/// engine and under any key, and the reader finds in it what a later run
/// is to learn about its entries.
pub proof fn lemma_finished_archive_is_read_back<O: ObfuscationEngine>(
    obfuscation_engine: O,
    sanitizer_key: Seq<u8>,
    output: Seq<u8>,
    directory: Seq<PartialCentralDirectoryHeaderView>,
    processed: Map<(u32, u32), Seq<(u64, u32)>>,
    deduplicating: bool,
)
    requires
        consistent(
            output,
            obfuscation_engine.header_size(),
            directory,
            processed,
            deduplicating,
        ),
        output.len() - obfuscation_engine.header_size() < 0xFFFF_FFFF,
        finished_archive(obfuscation_engine, output, directory).len() <= u64::MAX,
    ensures
        parsed_previous_zip(
            finished_archive(obfuscation_engine, output, directory),
            obfuscation_engine,
            sanitizer_key,
        ) == Ok::<Map<Seq<char>, PreviousFile>, SquashZipError>(
            files_of(output, sanitizer_key, directory),
        ),
{
    let prologue = obfuscation_engine.header_size();
    let records = central_directory(obfuscation_engine, directory);
    let plain = end_of_central_directory_of(
        directory.len() as u64,
        output.len() as u64,
        records.len() as u64,
    );
    let closing = obfuscation_engine.obfuscated_end_of_central_directory(plain);
    lemma_entries_placed(output, prologue, directory, processed, deduplicating);
    obfuscation_engine.lemma_end_of_central_directory(plain);
    lemma_central_directory_found(output + records, closing, prologue);
    assert(directory.subrange(0, 0) =~= Seq::<PartialCentralDirectoryHeaderView>::empty());
    lemma_directory_read_back(
        obfuscation_engine,
        sanitizer_key,
        output,
        directory,
        closing,
        0,
    );
}

/// What is read back holds every entry's path, and under each path an
/// entry of that path.
pub proof fn lemma_files_of_paths(
    output: Seq<u8>,
    sanitizer_key: Seq<u8>,
    directory: Seq<PartialCentralDirectoryHeaderView>,
)
    ensures
        forall|i: int|
            0 <= i < directory.len() ==> files_of(output, sanitizer_key, directory).contains_key(
                decode_utf8((#[trigger] directory[i]).file_name),
            ),
        forall|path: Seq<char>| #[trigger]
            files_of(output, sanitizer_key, directory).contains_key(path) ==> exists|i: int|
                0 <= i < directory.len() && decode_utf8((#[trigger] directory[i]).file_name)
                    == path && files_of(output, sanitizer_key, directory)[path]
                    == previous_file_of(output, sanitizer_key, directory[i]),
    decreases directory.len(),
{
    if directory.len() > 0 {
        let shorter = directory.drop_last();
        let last = directory.last();
        lemma_files_of_paths(output, sanitizer_key, shorter);
        let files = files_of(output, sanitizer_key, directory);
        assert forall|i: int| 0 <= i < directory.len() implies files.contains_key(
            decode_utf8((#[trigger] directory[i]).file_name),
        ) by {
            if i < shorter.len() {
                assert(shorter[i] == directory[i]);
            }
        }
        assert forall|path: Seq<char>| #[trigger] files.contains_key(path) implies exists|i: int|
            0 <= i < directory.len() && decode_utf8((#[trigger] directory[i]).file_name) == path
                && files[path] == previous_file_of(output, sanitizer_key, directory[i]) by {
            if path == decode_utf8(last.file_name) {
                assert(directory[directory.len() - 1] == last);
            } else {
                let i = choose|i: int|
                    0 <= i < shorter.len() && decode_utf8((#[trigger] shorter[i]).file_name)
                        == path && files_of(output, sanitizer_key, shorter)[path]
                        == previous_file_of(output, sanitizer_key, shorter[i]);
                assert(directory[i] == shorter[i]);
            }
        }
    }
}

/// The archive that a builder finishes is read back as it was made.
///
/// For every builder whose parts belong together and whose central
/// directory will start below the ZIP64 marker, what `finish` hands out is
/// accepted by a later run with the same obfuscation engine and sanitizer
/// key, which learns from it every entry that was added: the paths are
/// those of the entries, and each path leads to the CRC-32, the sizes, the
/// method and the time of an entry of that path.
pub proof fn lemma_finish_is_read_back<O: ObfuscationEngine>(zip: SquashZip<O>)
    requires
        zip.wf(),
        zip.output().len() - zip.obfuscation_engine().header_size() < 0xFFFF_FFFF,
        finished_archive(zip.obfuscation_engine(), zip.output(), zip.directory()).len()
            <= u64::MAX,
    ensures
        parsed_previous_zip(
            finished_archive(zip.obfuscation_engine(), zip.output(), zip.directory()),
            zip.obfuscation_engine(),
            zip.sanitizer_key(),
        ) == Ok::<Map<Seq<char>, PreviousFile>, SquashZipError>(
            files_of(zip.output(), zip.sanitizer_key(), zip.directory()),
        ),
        forall|i: int|
            0 <= i < zip.directory().len() ==> files_of(
                zip.output(),
                zip.sanitizer_key(),
                zip.directory(),
            ).contains_key(decode_utf8((#[trigger] zip.directory()[i]).file_name)),
        forall|path: Seq<char>| #[trigger]
            files_of(zip.output(), zip.sanitizer_key(), zip.directory()).contains_key(path)
                ==> exists|i: int|
                0 <= i < zip.directory().len() && decode_utf8(
                    (#[trigger] zip.directory()[i]).file_name,
                ) == path && files_of(zip.output(), zip.sanitizer_key(), zip.directory())[path]
                    == previous_file_of(zip.output(), zip.sanitizer_key(), zip.directory()[i]),
{
    lemma_finished_archive_is_read_back(
        zip.obfuscation_engine(),
        zip.sanitizer_key(),
        zip.output(),
        zip.directory(),
        zip.processed(),
        zip.settings().enable_deduplication,
    );
    lemma_files_of_paths(zip.output(), zip.sanitizer_key(), zip.directory());
}

} // verus!
