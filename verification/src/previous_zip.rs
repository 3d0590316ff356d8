//! Reading back an archive that an earlier run made.
//!
//! An earlier archive is read to learn, for each of its entries, when the
//! entry was made and where its payload lies, so that an unchanged file can
//! be copied over instead of being compressed again. The reader accepts
//! only what this library writes: an archive without comments, whose end of
//! central directory record is its last twenty-two bytes, and whose headers
//! carry no extra field but the one ZIP64 field that holds a big offset.
//! Whatever deviates is refused.
//!
//! `parsed_previous_zip` says, as a function of the archive's bytes, what
//! reading gives; `parse_previous_zip` computes it.

use vstd::prelude::*;
use vstd::slice::{slice_subrange, slice_to_vec};
use vstd::utf8::{decode_utf8, valid_utf8};
use ahash::AHashMap;
use ahash::RandomState;
use crate::byte_order::{le16, le32, le64, read_u16, read_u32, read_u64};
use crate::error::{
    eocd64_signature_not_found, eocd_signature_not_found, file_comment_found,
    lfh_signature_not_found, unexpected_cdh_extra_field, unexpected_cdh_extra_fields_size,
    unexpected_lfh_extra_field, IoFailure, SquashZipError,
};
use crate::obfuscation_engine::ObfuscationEngine;
use crate::system_time_sanitizer::{desanitized, SystemTimeSanitizer};
use crate::zip_file_record::{
    central_directory_header_signature, end_of_central_directory_signature,
    local_file_header_signature, zip64_end_of_central_directory_signature,
    zip64_extra_field_tag, zip64_locator_signature, CompressionMethod,
};

verus! {

/// What is known about a file that an earlier run put into its archive.
#[derive(Clone, Copy, Debug, PartialEq, Eq, Structural)]
pub struct PreviousFile {
    /// When the file was processed, in seconds since the Unix epoch.
    pub squash_time: u64,
    /// Where in the earlier archive the payload starts.
    pub data_offset: u64,
    /// The CRC-32 of the file's bytes.
    pub crc32: u32,
    /// How the payload is stored.
    pub compression_method: CompressionMethod,
    /// The number of the file's bytes.
    pub uncompressed_size: u32,
    /// The number of the payload's bytes.
    pub compressed_size: u32,
}

/// The hash map of the `ahash` crate, which holds the index of the files
/// of an earlier archive and the index of the records written. Nothing of
/// its inside is known here: what a map holds is given a name, and the
/// functions that call its methods say what they do to that.
#[verifier::external_type_specification]
#[verifier::external_body]
#[verifier::reject_recursive_types(K)]
#[verifier::reject_recursive_types(V)]
#[verifier::reject_recursive_types(S)]
pub struct ExAHashMap<K, V, S>(AHashMap<K, V, S>);

/// The state of the hasher of the `ahash` crate, which its maps are made
/// with.
#[verifier::external_type_specification]
#[verifier::external_body]
pub struct ExRandomState(RandomState);

/// The files that an index holds, by path.
pub uninterp spec fn previous_files(index: AHashMap<String, PreviousFile>) -> Map<
    Seq<char>,
    PreviousFile,
>;

/// An index without files.
pub open spec fn no_previous_files() -> Map<Seq<char>, PreviousFile> {
    Map::empty()
}

/// Makes an index with `AHashMap::with_capacity`: it holds no file.
#[verifier::external_body]
pub(crate) fn index_with_capacity(capacity: usize) -> (index: AHashMap<String, PreviousFile>)
    ensures
        previous_files(index) == no_previous_files(),
{
    AHashMap::with_capacity(capacity)
}

/// Puts a file into an index with `AHashMap::insert`: afterwards the index
/// holds `file` at `path`, in place of what it held there, and is unchanged
/// at every other path.
#[verifier::external_body]
fn index_insert(index: &mut AHashMap<String, PreviousFile>, path: String, file: PreviousFile)
    ensures
        previous_files(*final(index)) == previous_files(*old(index)).insert(path@, file),
{
    index.insert(path, file);
}

/// Looks a path up with `AHashMap::get`: the file that the index holds at
/// `path`, if it holds one.
#[verifier::external_body]
pub(crate) fn index_get(index: &AHashMap<String, PreviousFile>, path: &str) -> (file: Option<
    PreviousFile,
>)
    ensures
        file == (if previous_files(*index).contains_key(path@) {
            Some(previous_files(*index)[path@])
        } else {
            None
        }),
{
    index.get(path).copied()
}

/// Counts the files of an index with `HashMap::len`, which `AHashMap`
/// hands on: the number of paths at which the index holds a file.
#[verifier::external_body]
pub(crate) fn index_len(index: &AHashMap<String, PreviousFile>) -> (files: usize)
    ensures
        files == previous_files(*index).dom().len(),
{
    index.len()
}

/// Decodes a file name with `String::from_utf8`: the text that the bytes
/// encode, if they are valid UTF-8, and nothing otherwise.
#[verifier::external_body]
fn string_from_utf8(bytes: Vec<u8>) -> (text: Option<String>)
    ensures
        text.is_some() == valid_utf8(bytes@),
        text matches Some(decoded) ==> decoded@ == decode_utf8(bytes@),
{
    String::from_utf8(bytes).ok()
}

/// What a central directory header says about its entry, and where the
/// header ends.
pub struct DirectoryEntry {
    pub path: Seq<char>,
    pub file: PreviousFile,
    pub end: int,
}

/// The sum of two offsets, if it fits 64 bits.
pub open spec fn offset_sum(a: int, b: int) -> Result<u64, SquashZipError> {
    if a + b > u64::MAX {
        Err(SquashZipError::Overflow)
    } else {
        Ok((a + b) as u64)
    }
}

/// The stored offset of the central directory of `archive`, whose records
/// lie `record_offset` bytes behind the offsets that it stores.
///
/// The end of central directory record is the last twenty-two bytes. Its
/// offset field holds the result, unless it is the ZIP64 marker and a ZIP64
/// locator precedes the record: then the locator leads to the ZIP64 record,
/// which holds the result in its bytes 44 to 51.
pub open spec fn central_directory_offset(archive: Seq<u8>, record_offset: u64) -> Result<
    u64,
    SquashZipError,
> {
    let end = archive.len() as int;
    if end < 22 {
        Err(SquashZipError::Io(IoFailure::InvalidSeek))
    } else if archive.subrange(end - 22, end - 18) != end_of_central_directory_signature() {
        Err(SquashZipError::InvalidPreviousZip(eocd_signature_not_found()))
    } else if le32(archive, end - 6) != 0xFFFF_FFFFu32 {
        Ok(le32(archive, end - 6) as u64)
    } else if end < 42 {
        Err(SquashZipError::Io(IoFailure::InvalidSeek))
    } else if archive.subrange(end - 42, end - 38) != zip64_locator_signature() {
        Ok(0xFFFF_FFFFu64)
    } else {
        match offset_sum(le64(archive, end - 34) as int, record_offset as int) {
            Err(error) => Err(error),
            Ok(record) => if record + 52 > end {
                Err(SquashZipError::Io(IoFailure::UnexpectedEof))
            } else if archive.subrange(record as int, record + 4)
                != zip64_end_of_central_directory_signature() {
                Err(SquashZipError::InvalidPreviousZip(eocd64_signature_not_found()))
            } else {
                Ok(le64(archive, record + 44))
            },
        }
    }
}

/// The number of entries that the end of central directory record of
/// `archive` announces, which may be less than there are.
pub open spec fn entry_count_hint(archive: Seq<u8>) -> u16 {
    le16(archive, archive.len() - 12)
}

/// Where the entry of a central directory header at `at` has its local
/// file header, as the header stores it, and where the header ends.
///
/// The offset is the 32-bit field, unless that is the ZIP64 marker and an
/// extra field of twelve bytes follows the file name: then the extra field
/// has to be a ZIP64 field, and holds the offset.
pub open spec fn stored_local_header_offset(archive: Seq<u8>, at: int) -> Result<
    (u64, int),
    SquashZipError,
> {
    let extra = at + 46 + le16(archive, at + 28);
    if le16(archive, at + 30) == 12 && le32(archive, at + 42) == 0xFFFF_FFFFu32 {
        if extra + 12 > archive.len() {
            Err(SquashZipError::Io(IoFailure::UnexpectedEof))
        } else if archive.subrange(extra, extra + 2) != zip64_extra_field_tag() {
            Err(SquashZipError::InvalidPreviousZip(unexpected_cdh_extra_field()))
        } else {
            Ok((le64(archive, extra + 4), extra + 12))
        }
    } else {
        Ok((le32(archive, at + 42) as u64, extra))
    }
}

/// Where the payload starts behind the local file header at `header`.
///
/// The header has to open with its signature and to carry no extra field;
/// the payload follows the file name.
pub open spec fn payload_offset(archive: Seq<u8>, header: u64) -> Result<u64, SquashZipError> {
    if header + 30 > archive.len() {
        Err(SquashZipError::Io(IoFailure::UnexpectedEof))
    } else if archive.subrange(header as int, header + 4) != local_file_header_signature() {
        Err(SquashZipError::InvalidPreviousZip(lfh_signature_not_found()))
    } else if le16(archive, header + 28) > 0 {
        Err(SquashZipError::InvalidPreviousZip(unexpected_lfh_extra_field()))
    } else {
        offset_sum(header + 30, le16(archive, header + 26) as int)
    }
}

/// What the central directory header at `at` says about its entry.
///
/// The header has to be complete, without comment, and with extra fields
/// of no or twelve bytes. Its method has to be Store or Deflate and its
/// file name valid UTF-8. Its CRC-32 field is stored obfuscated, and its
/// squash time sanitized with the CRC-32 as the tweak.
pub open spec fn directory_entry<O: ObfuscationEngine>(
    archive: Seq<u8>,
    at: int,
    obfuscation_engine: O,
    sanitizer_key: Seq<u8>,
) -> Result<DirectoryEntry, SquashZipError> {
    let name_end = at + 46 + le16(archive, at + 28);
    let crc32 = obfuscation_engine.deobfuscated_crc32(le32(archive, at + 16));
    if at + 46 > archive.len() {
        Err(SquashZipError::Io(IoFailure::UnexpectedEof))
    } else if le16(archive, at + 32) > 0 {
        Err(SquashZipError::InvalidPreviousZip(file_comment_found()))
    } else if le16(archive, at + 30) != 0 && le16(archive, at + 30) != 12 {
        Err(SquashZipError::InvalidPreviousZip(unexpected_cdh_extra_fields_size()))
    } else {
        match CompressionMethod::of_field(le16(archive, at + 10)) {
            Err(error) => Err(error),
            Ok(compression_method) => if name_end > archive.len() {
                Err(SquashZipError::Io(IoFailure::UnexpectedEof))
            } else if !valid_utf8(archive.subrange(at + 46, name_end)) {
                Err(SquashZipError::InvalidFileName)
            } else {
                match stored_local_header_offset(archive, at) {
                    Err(error) => Err(error),
                    Ok((stored, end)) => match offset_sum(
                        stored as int,
                        obfuscation_engine.header_size() as int,
                    ) {
                        Err(error) => Err(error),
                        Ok(header) => match payload_offset(archive, header) {
                            Err(error) => Err(error),
                            Ok(data_offset) => Ok(
                                DirectoryEntry {
                                    path: decode_utf8(archive.subrange(at + 46, name_end)),
                                    file: PreviousFile {
                                        squash_time: desanitized(
                                            sanitizer_key,
                                            archive.subrange(at + 12, at + 16),
                                            crc32,
                                        ) as u64,
                                        data_offset,
                                        crc32,
                                        compression_method,
                                        uncompressed_size: le32(archive, at + 24),
                                        compressed_size: le32(archive, at + 20),
                                    },
                                    end,
                                },
                            ),
                        },
                    },
                }
            },
        }
    }
}

/// The files that `found` holds together with those of the central
/// directory headers that follow one another from `at` on.
///
/// The directory ends where four bytes other than the signature of a
/// central directory header stand. A later header of a path replaces an
/// earlier one.
pub open spec fn directory_entries<O: ObfuscationEngine>(
    archive: Seq<u8>,
    at: int,
    obfuscation_engine: O,
    sanitizer_key: Seq<u8>,
    found: Map<Seq<char>, PreviousFile>,
) -> Result<Map<Seq<char>, PreviousFile>, SquashZipError>
    decreases archive.len() - at,
{
    if at < 0 || at + 4 > archive.len() {
        Err(SquashZipError::Io(IoFailure::UnexpectedEof))
    } else if archive.subrange(at, at + 4) != central_directory_header_signature() {
        Ok(found)
    } else {
        match directory_entry(archive, at, obfuscation_engine, sanitizer_key) {
            Err(error) => Err(error),
            Ok(entry) => directory_entries(
                archive,
                entry.end,
                obfuscation_engine,
                sanitizer_key,
                found.insert(entry.path, entry.file),
            ),
        }
    }
}

/// The files of the archive with the bytes `archive`, by path, or why the
/// archive is refused.
pub open spec fn parsed_previous_zip<O: ObfuscationEngine>(
    archive: Seq<u8>,
    obfuscation_engine: O,
    sanitizer_key: Seq<u8>,
) -> Result<Map<Seq<char>, PreviousFile>, SquashZipError> {
    match central_directory_offset(archive, obfuscation_engine.header_size()) {
        Err(error) => Err(error),
        Ok(stored) => match offset_sum(stored as int, obfuscation_engine.header_size() as int) {
            Err(error) => Err(error),
            Ok(start) => directory_entries(
                archive,
                start as int,
                obfuscation_engine,
                sanitizer_key,
                no_previous_files(),
            ),
        },
    }
}

/// Whether the reader, having started at `from`, comes to read a central
/// directory header at `at`: every header from `from` up to `at` is read
/// without error and is followed by the next.
pub open spec fn reaches<O: ObfuscationEngine>(
    archive: Seq<u8>,
    from: int,
    at: int,
    obfuscation_engine: O,
    sanitizer_key: Seq<u8>,
) -> bool
    decreases archive.len() - from,
{
    from == at || (0 <= from && from + 4 <= archive.len() && archive.subrange(from, from + 4)
        == central_directory_header_signature() && match directory_entry(
        archive,
        from,
        obfuscation_engine,
        sanitizer_key,
    ) {
        Ok(entry) => reaches(archive, entry.end, at, obfuscation_engine, sanitizer_key),
        Err(_) => false,
    })
}

/// Whether the reader of `archive` finds the central directory and comes
/// to read a complete central directory header at `at`.
pub open spec fn arrives_at<O: ObfuscationEngine>(
    archive: Seq<u8>,
    at: int,
    obfuscation_engine: O,
    sanitizer_key: Seq<u8>,
) -> bool {
    &&& 0 <= at
    &&& at + 46 <= archive.len()
    &&& archive.subrange(at, at + 4) == central_directory_header_signature()
    &&& central_directory_offset(archive, obfuscation_engine.header_size()) matches Ok(stored)
        && offset_sum(stored as int, obfuscation_engine.header_size() as int) matches Ok(start)
        && reaches(archive, start as int, at, obfuscation_engine, sanitizer_key)
}

/// Whether the central directory header at `at` passes the checks on its
/// own fields: it has no comment, extra fields of no or twelve bytes, a
/// known method, and a complete file name in valid UTF-8.
pub open spec fn names_entry(archive: Seq<u8>, at: int) -> bool {
    &&& le16(archive, at + 32) == 0
    &&& (le16(archive, at + 30) == 0 || le16(archive, at + 30) == 12)
    &&& CompressionMethod::of_field(le16(archive, at + 10)).is_ok()
    &&& at + 46 + le16(archive, at + 28) <= archive.len()
    &&& valid_utf8(archive.subrange(at + 46, at + 46 + le16(archive, at + 28)))
}

/// The error of a header that the reader comes to is the error of reading
/// the directory, whatever was found before.
pub proof fn lemma_reached_error<O: ObfuscationEngine>(
    archive: Seq<u8>,
    from: int,
    at: int,
    obfuscation_engine: O,
    sanitizer_key: Seq<u8>,
    found: Map<Seq<char>, PreviousFile>,
    error: SquashZipError,
)
    requires
        reaches(archive, from, at, obfuscation_engine, sanitizer_key),
        0 <= at,
        at + 4 <= archive.len(),
        archive.subrange(at, at + 4) == central_directory_header_signature(),
        directory_entry(archive, at, obfuscation_engine, sanitizer_key) == Err::<
            DirectoryEntry,
            SquashZipError,
        >(error),
    ensures
        directory_entries(archive, from, obfuscation_engine, sanitizer_key, found) == Err::<
            Map<Seq<char>, PreviousFile>,
            SquashZipError,
        >(error),
    decreases archive.len() - from,
{
    if from != at {
        let entry = directory_entry(archive, from, obfuscation_engine, sanitizer_key).unwrap();
        lemma_reached_error(
            archive,
            entry.end,
            at,
            obfuscation_engine,
            sanitizer_key,
            found.insert(entry.path, entry.file),
            error,
        );
    }
}

/// The error of a header that the reader of an archive arrives at is the
/// error of reading the archive.
pub proof fn lemma_arrival_error<O: ObfuscationEngine>(
    archive: Seq<u8>,
    at: int,
    obfuscation_engine: O,
    sanitizer_key: Seq<u8>,
    error: SquashZipError,
)
    requires
        arrives_at(archive, at, obfuscation_engine, sanitizer_key),
        directory_entry(archive, at, obfuscation_engine, sanitizer_key) == Err::<
            DirectoryEntry,
            SquashZipError,
        >(error),
    ensures
        parsed_previous_zip(archive, obfuscation_engine, sanitizer_key) == Err::<
            Map<Seq<char>, PreviousFile>,
            SquashZipError,
        >(error),
{
    let stored = central_directory_offset(archive, obfuscation_engine.header_size()).unwrap();
    let start = offset_sum(stored as int, obfuscation_engine.header_size() as int).unwrap();
    lemma_reached_error(
        archive,
        start as int,
        at,
        obfuscation_engine,
        sanitizer_key,
        no_previous_files(),
        error,
    );
}

/// An archive of at least twenty-two bytes that does not end with an end
/// of central directory record is refused as invalid.
pub proof fn lemma_missing_eocd_signature_refused<O: ObfuscationEngine>(
    archive: Seq<u8>,
    obfuscation_engine: O,
    sanitizer_key: Seq<u8>,
)
    requires
        archive.len() >= 22,
        archive.subrange(archive.len() - 22, archive.len() - 18)
            != end_of_central_directory_signature(),
    ensures
        parsed_previous_zip(archive, obfuscation_engine, sanitizer_key) == Err::<
            Map<Seq<char>, PreviousFile>,
            SquashZipError,
        >(SquashZipError::InvalidPreviousZip(eocd_signature_not_found())),
{
}

/// An archive is refused as invalid if the reader arrives at a central
/// directory header with a file comment.
pub proof fn lemma_file_comment_refused<O: ObfuscationEngine>(
    archive: Seq<u8>,
    at: int,
    obfuscation_engine: O,
    sanitizer_key: Seq<u8>,
)
    requires
        arrives_at(archive, at, obfuscation_engine, sanitizer_key),
        le16(archive, at + 32) > 0,
    ensures
        parsed_previous_zip(archive, obfuscation_engine, sanitizer_key) == Err::<
            Map<Seq<char>, PreviousFile>,
            SquashZipError,
        >(SquashZipError::InvalidPreviousZip(file_comment_found())),
{
    lemma_arrival_error(
        archive,
        at,
        obfuscation_engine,
        sanitizer_key,
        SquashZipError::InvalidPreviousZip(file_comment_found()),
    );
}

/// An archive is refused as invalid if the reader arrives at a central
/// directory header whose extra fields have neither no nor twelve bytes.
pub proof fn lemma_extra_fields_size_refused<O: ObfuscationEngine>(
    archive: Seq<u8>,
    at: int,
    obfuscation_engine: O,
    sanitizer_key: Seq<u8>,
)
    requires
        arrives_at(archive, at, obfuscation_engine, sanitizer_key),
        le16(archive, at + 32) == 0,
        le16(archive, at + 30) != 0,
        le16(archive, at + 30) != 12,
    ensures
        parsed_previous_zip(archive, obfuscation_engine, sanitizer_key) == Err::<
            Map<Seq<char>, PreviousFile>,
            SquashZipError,
        >(SquashZipError::InvalidPreviousZip(unexpected_cdh_extra_fields_size())),
{
    lemma_arrival_error(
        archive,
        at,
        obfuscation_engine,
        sanitizer_key,
        SquashZipError::InvalidPreviousZip(unexpected_cdh_extra_fields_size()),
    );
}

/// An archive is refused as invalid if the reader arrives at a central
/// directory header whose extra field stands for a 64-bit offset but has
/// another tag than that of a ZIP64 field.
pub proof fn lemma_foreign_extra_field_refused<O: ObfuscationEngine>(
    archive: Seq<u8>,
    at: int,
    obfuscation_engine: O,
    sanitizer_key: Seq<u8>,
)
    requires
        arrives_at(archive, at, obfuscation_engine, sanitizer_key),
        names_entry(archive, at),
        le16(archive, at + 30) == 12,
        le32(archive, at + 42) == 0xFFFF_FFFFu32,
        at + 46 + le16(archive, at + 28) + 12 <= archive.len(),
        archive.subrange(
            at + 46 + le16(archive, at + 28),
            at + 46 + le16(archive, at + 28) + 2,
        ) != zip64_extra_field_tag(),
    ensures
        parsed_previous_zip(archive, obfuscation_engine, sanitizer_key) == Err::<
            Map<Seq<char>, PreviousFile>,
            SquashZipError,
        >(SquashZipError::InvalidPreviousZip(unexpected_cdh_extra_field())),
{
    lemma_arrival_error(
        archive,
        at,
        obfuscation_engine,
        sanitizer_key,
        SquashZipError::InvalidPreviousZip(unexpected_cdh_extra_field()),
    );
}

/// An archive is refused as invalid if the reader arrives at a central
/// directory header that points at thirty bytes which do not open with the
/// signature of a local file header.
pub proof fn lemma_missing_lfh_signature_refused<O: ObfuscationEngine>(
    archive: Seq<u8>,
    at: int,
    header: u64,
    obfuscation_engine: O,
    sanitizer_key: Seq<u8>,
)
    requires
        arrives_at(archive, at, obfuscation_engine, sanitizer_key),
        names_entry(archive, at),
        stored_local_header_offset(archive, at) matches Ok(stored) && offset_sum(
            stored.0 as int,
            obfuscation_engine.header_size() as int,
        ) == Ok::<u64, SquashZipError>(header),
        header + 30 <= archive.len(),
        archive.subrange(header as int, header + 4) != local_file_header_signature(),
    ensures
        parsed_previous_zip(archive, obfuscation_engine, sanitizer_key) == Err::<
            Map<Seq<char>, PreviousFile>,
            SquashZipError,
        >(SquashZipError::InvalidPreviousZip(lfh_signature_not_found())),
{
    lemma_arrival_error(
        archive,
        at,
        obfuscation_engine,
        sanitizer_key,
        SquashZipError::InvalidPreviousZip(lfh_signature_not_found()),
    );
}

/// An archive is refused as invalid if the reader arrives at a central
/// directory header that points at a local file header with extra fields.
pub proof fn lemma_lfh_extra_field_refused<O: ObfuscationEngine>(
    archive: Seq<u8>,
    at: int,
    header: u64,
    obfuscation_engine: O,
    sanitizer_key: Seq<u8>,
)
    requires
        arrives_at(archive, at, obfuscation_engine, sanitizer_key),
        names_entry(archive, at),
        stored_local_header_offset(archive, at) matches Ok(stored) && offset_sum(
            stored.0 as int,
            obfuscation_engine.header_size() as int,
        ) == Ok::<u64, SquashZipError>(header),
        header + 30 <= archive.len(),
        archive.subrange(header as int, header + 4) == local_file_header_signature(),
        le16(archive, header + 28) > 0,
    ensures
        parsed_previous_zip(archive, obfuscation_engine, sanitizer_key) == Err::<
            Map<Seq<char>, PreviousFile>,
            SquashZipError,
        >(SquashZipError::InvalidPreviousZip(unexpected_lfh_extra_field())),
{
    lemma_arrival_error(
        archive,
        at,
        obfuscation_engine,
        sanitizer_key,
        SquashZipError::InvalidPreviousZip(unexpected_lfh_extra_field()),
    );
}

/// Whether the four bytes at `at` are `first`, `second`, `third` and
/// `fourth`.
fn has_signature(archive: &[u8], at: usize, first: u8, second: u8, third: u8, fourth: u8) -> (found:
    bool)
    requires
        at + 4 <= archive.len(),
    ensures
        found == (archive@.subrange(at as int, at + 4) == seq![first, second, third, fourth]),
{
    let found = archive[at] == first && archive[at + 1] == second && archive[at + 2] == third
        && archive[at + 3] == fourth;
    proof {
        let window = archive@.subrange(at as int, at + 4);
        let signature = seq![first, second, third, fourth];
        if found {
            assert(window =~= signature);
        } else {
            assert(window[0] == archive@[at as int]);
            assert(window[1] == archive@[at + 1]);
            assert(window[2] == archive@[at + 2]);
            assert(window[3] == archive@[at + 3]);
        }
    }
    found
}

/// The sum of two offsets, or `Overflow` if it does not fit 64 bits.
fn add_offsets(a: u64, b: u64) -> (sum: Result<u64, SquashZipError>)
    ensures
        sum == offset_sum(a as int, b as int),
{
    match a.checked_add(b) {
        Some(sum) => Ok(sum),
        None => Err(SquashZipError::Overflow),
    }
}

/// Finds the stored offset of the central directory, and the number of
/// entries that the end of central directory record announces.
fn locate_central_directory(archive: &[u8], record_offset: u64) -> (located: Result<
    (u64, u16),
    SquashZipError,
>)
    ensures
        match located {
            Ok((offset, hint)) => central_directory_offset(archive@, record_offset) == Ok::<
                u64,
                SquashZipError,
            >(offset) && hint == entry_count_hint(archive@),
            Err(error) => central_directory_offset(archive@, record_offset) == Err::<
                u64,
                SquashZipError,
            >(error),
        },
{
    let end = archive.len();
    if end < 22 {
        return Err(SquashZipError::Io(IoFailure::InvalidSeek));
    }
    if !has_signature(archive, end - 22, 0x50, 0x4B, 0x05, 0x06) {
        return Err(
            SquashZipError::InvalidPreviousZip("EOCD signature not found at the expected position"),
        );
    }
    let hint = read_u16(archive, end - 12);
    let offset = read_u32(archive, end - 6);
    if offset != 0xFFFF_FFFF {
        return Ok((offset as u64, hint));
    }
    if end < 42 {
        return Err(SquashZipError::Io(IoFailure::InvalidSeek));
    }
    if !has_signature(archive, end - 42, 0x50, 0x4B, 0x06, 0x07) {
        return Ok((0xFFFF_FFFF, hint));
    }
    let record = add_offsets(read_u64(archive, end - 34), record_offset)?;
    if end < 52 || record > (end - 52) as u64 {
        return Err(SquashZipError::Io(IoFailure::UnexpectedEof));
    }
    let record_at = record as usize;
    if !has_signature(archive, record_at, 0x50, 0x4B, 0x06, 0x06) {
        return Err(SquashZipError::InvalidPreviousZip("EOCD64 signature expected, but not found"));
    }
    Ok((read_u64(archive, record_at + 44), hint))
}

/// Reads where the entry of the header at `at` has its local file header,
/// and where the header ends.
fn read_stored_local_header_offset(archive: &[u8], at: usize) -> (read: Result<
    (u64, usize),
    SquashZipError,
>)
    requires
        at + 46 + le16(archive@, at + 28) <= archive.len(),
    ensures
        match read {
            Ok((stored, end)) => stored_local_header_offset(archive@, at as int) == Ok::<
                (u64, int),
                SquashZipError,
            >((stored, end as int)),
            Err(error) => stored_local_header_offset(archive@, at as int) == Err::<
                (u64, int),
                SquashZipError,
            >(error),
        },
{
    let extra = at + 46 + read_u16(archive, at + 28) as usize;
    let stored = read_u32(archive, at + 42);
    if read_u16(archive, at + 30) == 12 && stored == 0xFFFF_FFFF {
        if archive.len() - extra < 12 {
            return Err(SquashZipError::Io(IoFailure::UnexpectedEof));
        }
        if !(archive[extra] == 0x01 && archive[extra + 1] == 0x00) {
            proof {
                let tag = archive@.subrange(extra as int, extra + 2);
                assert(tag[0] == archive@[extra as int]);
                assert(tag[1] == archive@[extra + 1]);
            }
            return Err(
                SquashZipError::InvalidPreviousZip(
                    "Found extra field in CDH that is not a ZIP64 extended information field",
                ),
            );
        }
        assert(archive@.subrange(extra as int, extra + 2) =~= zip64_extra_field_tag());
        Ok((read_u64(archive, extra + 4), extra + 12))
    } else {
        Ok((stored as u64, extra))
    }
}

/// Reads where the payload starts behind the local file header at
/// `header`.
fn read_payload_offset(archive: &[u8], header: u64) -> (read: Result<u64, SquashZipError>)
    ensures
        read == payload_offset(archive@, header),
{
    if archive.len() < 30 || header > (archive.len() - 30) as u64 {
        return Err(SquashZipError::Io(IoFailure::UnexpectedEof));
    }
    let at = header as usize;
    if !has_signature(archive, at, 0x50, 0x4B, 0x03, 0x04) {
        return Err(
            SquashZipError::InvalidPreviousZip("LFH signature not found at expected position"),
        );
    }
    if read_u16(archive, at + 28) > 0 {
        return Err(SquashZipError::InvalidPreviousZip("Unexpected extra field length in LFH"));
    }
    let file_name_length = read_u16(archive, at + 26) as u64;
    add_offsets(header + 30, file_name_length)
}

/// Reads the central directory header at `at`: the path of its entry, what
/// it says about the entry, and where the header ends.
pub fn read_directory_entry<O: ObfuscationEngine>(
    archive: &[u8],
    at: usize,
    obfuscation_engine: &O,
    sanitizer: &SystemTimeSanitizer,
) -> (read: Result<(String, PreviousFile, usize), SquashZipError>)
    requires
        at + 4 <= archive.len(),
    ensures
        match read {
            Ok((path, file, end)) => directory_entry(
                archive@,
                at as int,
                *obfuscation_engine,
                sanitizer.key(),
            ) == Ok::<DirectoryEntry, SquashZipError>(
                DirectoryEntry { path: path@, file, end: end as int },
            ) && at < end <= archive.len(),
            Err(error) => directory_entry(
                archive@,
                at as int,
                *obfuscation_engine,
                sanitizer.key(),
            ) == Err::<DirectoryEntry, SquashZipError>(error),
        },
{
    if archive.len() - at < 46 {
        return Err(SquashZipError::Io(IoFailure::UnexpectedEof));
    }
    if read_u16(archive, at + 32) > 0 {
        return Err(SquashZipError::InvalidPreviousZip("File comment found, but not expected"));
    }
    let extra_field_length = read_u16(archive, at + 30);
    if extra_field_length != 0 && extra_field_length != 12 {
        return Err(SquashZipError::InvalidPreviousZip("Unexpected extra fields size in CDH"));
    }
    let crc32 = obfuscation_engine.deobfuscate_crc32(read_u32(archive, at + 16));
    let stored_time: [u8; 4] = [
        archive[at + 12],
        archive[at + 13],
        archive[at + 14],
        archive[at + 15],
    ];
    assert(stored_time@ =~= archive@.subrange(at + 12, at + 16));
    let squash_time = sanitizer.desanitize(&stored_time, crc32);
    let compression_method = CompressionMethod::from_compression_method_field(
        read_u16(archive, at + 10),
    )?;
    let compressed_size = read_u32(archive, at + 20);
    let uncompressed_size = read_u32(archive, at + 24);
    let file_name_length = read_u16(archive, at + 28) as usize;
    if archive.len() - at - 46 < file_name_length {
        return Err(SquashZipError::Io(IoFailure::UnexpectedEof));
    }
    let file_name = slice_to_vec(slice_subrange(archive, at + 46, at + 46 + file_name_length));
    let path = match string_from_utf8(file_name) {
        Some(path) => path,
        None => {
            return Err(SquashZipError::InvalidFileName);
        },
    };
    let (stored, end) = read_stored_local_header_offset(archive, at)?;
    let header = add_offsets(stored, obfuscation_engine.obfuscating_header_size())?;
    let data_offset = read_payload_offset(archive, header)?;
    Ok(
        (
            path,
            PreviousFile {
                squash_time,
                data_offset,
                crc32,
                compression_method,
                uncompressed_size,
                compressed_size,
            },
            end,
        ),
    )
}

/// Reads the archive that an earlier run made: the files that it holds, by
/// path, or why it is refused.
///
/// `obfuscation_engine` has to be the engine that the archive was written
/// with, and `sanitizer` has to work under the key of that run.
pub fn parse_previous_zip<O: ObfuscationEngine>(
    archive: &[u8],
    obfuscation_engine: &O,
    sanitizer: &SystemTimeSanitizer,
) -> (parsed: Result<AHashMap<String, PreviousFile>, SquashZipError>)
    ensures
        match parsed {
            Ok(index) => parsed_previous_zip(archive@, *obfuscation_engine, sanitizer.key())
                == Ok::<Map<Seq<char>, PreviousFile>, SquashZipError>(previous_files(index)),
            Err(error) => parsed_previous_zip(archive@, *obfuscation_engine, sanitizer.key())
                == Err::<Map<Seq<char>, PreviousFile>, SquashZipError>(error),
        },
{
    let record_offset = obfuscation_engine.obfuscating_header_size();
    let (stored, hint) = locate_central_directory(archive, record_offset)?;
    let start = add_offsets(stored, record_offset)?;
    let mut index = index_with_capacity(hint as usize);
    if start > archive.len() as u64 {
        return Err(SquashZipError::Io(IoFailure::UnexpectedEof));
    }
    let mut at: usize = start as usize;
    loop
        invariant
            at <= archive.len(),
            directory_entries(
                archive@,
                at as int,
                *obfuscation_engine,
                sanitizer.key(),
                previous_files(index),
            ) == parsed_previous_zip(archive@, *obfuscation_engine, sanitizer.key()),
        decreases archive.len() - at,
    {
        let ghost remaining = directory_entries(
            archive@,
            at as int,
            *obfuscation_engine,
            sanitizer.key(),
            previous_files(index),
        );
        if archive.len() - at < 4 {
            return Err(SquashZipError::Io(IoFailure::UnexpectedEof));
        }
        if !has_signature(archive, at, 0x50, 0x4B, 0x01, 0x02) {
            return Ok(index);
        }
        let (path, file, end) = read_directory_entry(archive, at, obfuscation_engine, sanitizer)?;
        assert(remaining == directory_entries(
            archive@,
            end as int,
            *obfuscation_engine,
            sanitizer.key(),
            previous_files(index).insert(path@, file),
        ));
        index_insert(&mut index, path, file);
        at = end;
    }
}

} // verus!
