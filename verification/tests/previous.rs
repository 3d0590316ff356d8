use squash_zip::engine::SquashZip;
use squash_zip::error::{IoFailure, SquashZipError};
use squash_zip::obfuscation_engine::NoObfuscation;
use squash_zip::previous_zip::{parse_previous_zip, read_directory_entry, PreviousFile};
use squash_zip::settings::{PercentageInteger, SquashZipSettings};
use squash_zip::system_time_sanitizer::SystemTimeSanitizer;
use squash_zip::zip_file_record::{CentralDirectoryHeader, CompressionMethod, EndOfCentralDirectory, LocalFileHeader};

const KEY: [u8; 16] = [0x42; 16];

fn settings() -> SquashZipSettings {
    SquashZipSettings {
        zopfli_iterations: 20,
        store_squash_time: true,
        enable_obfuscation: false,
        enable_deduplication: false,
        enable_size_increasing_obfuscation: false,
        percentage_of_records_tuned_for_obfuscation_discretion: PercentageInteger::new(0).unwrap(),
        workaround_old_java_obfuscation_quirks: false,
        spool_buffer_size: 16,
    }
}

/// An archive with the entries "one" (three bytes) and "two" (two bytes).
/// Its records are at 0 and 36, its central directory is at 71, the
/// headers of the directory are at 71 and 120, and it has 191 bytes.
fn sample() -> Vec<u8> {
    let mut zip = SquashZip::new(None, settings(), NoObfuscation, SystemTimeSanitizer::new(KEY)).unwrap();
    zip.add_file("one", &vec![vec![1, 2, 3]], true, 3, 100).unwrap();
    zip.add_file("two", &vec![vec![4, 5]], true, 2, 200).unwrap();
    let archive = zip.finish().unwrap();
    assert_eq!(archive.len(), 191);
    archive
}

fn refusal(archive: &[u8]) -> Option<SquashZipError> {
    parse_previous_zip(archive, &NoObfuscation, &SystemTimeSanitizer::new(KEY)).err()
}

#[test]
fn sample_archive_is_read() {
    let archive = sample();
    let sanitizer = SystemTimeSanitizer::new(KEY);
    let index = parse_previous_zip(&archive, &NoObfuscation, &sanitizer).unwrap();
    assert_eq!(index.len(), 2);
    assert_eq!(
        index.get("one"),
        Some(&PreviousFile {
            squash_time: 100,
            data_offset: 33,
            crc32: 0x55BC801D,
            compression_method: CompressionMethod::Store,
            uncompressed_size: 3,
            compressed_size: 3,
        })
    );
    assert_eq!(index.get("two").map(|file| (file.squash_time, file.data_offset)), Some((200, 69)));
    let (path, file, end) = read_directory_entry(&archive, 71, &NoObfuscation, &sanitizer).unwrap();
    assert_eq!((path.as_str(), file.data_offset, end), ("one", 33, 120));
    let (path, file, end) = read_directory_entry(&archive, 120, &NoObfuscation, &sanitizer).unwrap();
    assert_eq!((path.as_str(), file.compressed_size, end), ("two", 2, 169));
}

#[test]
fn missing_end_of_central_directory_signature_is_refused() {
    let mut archive = sample();
    archive[169] = 0x51;
    assert_eq!(
        refusal(&archive),
        Some(SquashZipError::InvalidPreviousZip("EOCD signature not found at the expected position"))
    );
    // An archive comment moves the record away from the end.
    let mut commented = sample();
    commented.extend_from_slice(b"comment");
    assert_eq!(
        refusal(&commented),
        Some(SquashZipError::InvalidPreviousZip("EOCD signature not found at the expected position"))
    );
}

#[test]
fn file_comment_is_refused() {
    let mut archive = sample();
    archive[120 + 32] = 1;
    assert_eq!(
        refusal(&archive),
        Some(SquashZipError::InvalidPreviousZip("File comment found, but not expected"))
    );
}

#[test]
fn unexpected_extra_fields_size_is_refused() {
    for size in [1u8, 4, 11, 13, 255] {
        let mut archive = sample();
        archive[71 + 30] = size;
        assert_eq!(
            refusal(&archive),
            Some(SquashZipError::InvalidPreviousZip("Unexpected extra fields size in CDH"))
        );
    }
    let mut archive = sample();
    archive[71 + 31] = 1;
    assert_eq!(
        refusal(&archive),
        Some(SquashZipError::InvalidPreviousZip("Unexpected extra fields size in CDH"))
    );
}

#[test]
fn file_comment_is_checked_before_the_extra_fields() {
    let mut archive = sample();
    archive[71 + 30] = 5;
    archive[71 + 32] = 5;
    assert_eq!(
        refusal(&archive),
        Some(SquashZipError::InvalidPreviousZip("File comment found, but not expected"))
    );
}

#[test]
fn missing_local_file_header_signature_is_refused() {
    let mut archive = sample();
    archive[36] = 0x00;
    assert_eq!(
        refusal(&archive),
        Some(SquashZipError::InvalidPreviousZip("LFH signature not found at expected position"))
    );
    // An offset that points into a payload.
    let mut moved = sample();
    moved[71 + 42] = 1;
    assert_eq!(
        refusal(&moved),
        Some(SquashZipError::InvalidPreviousZip("LFH signature not found at expected position"))
    );
}

#[test]
fn extra_field_in_a_local_file_header_is_refused() {
    let mut archive = sample();
    archive[28] = 4;
    assert_eq!(
        refusal(&archive),
        Some(SquashZipError::InvalidPreviousZip("Unexpected extra field length in LFH"))
    );
}

#[test]
fn unknown_compression_method_is_refused() {
    let mut archive = sample();
    archive[120 + 10] = 12;
    assert_eq!(refusal(&archive), Some(SquashZipError::UnknownCompressionMethod(12)));
    archive[120 + 11] = 1;
    assert_eq!(refusal(&archive), Some(SquashZipError::UnknownCompressionMethod(0x010C)));
}

#[test]
fn file_name_that_is_not_utf_8_is_refused() {
    let mut archive = sample();
    archive[71 + 46] = 0xFF;
    assert_eq!(refusal(&archive), Some(SquashZipError::InvalidFileName));
    let mut truncated = sample();
    truncated[71 + 46 + 2] = 0xC3;
    assert_eq!(refusal(&truncated), Some(SquashZipError::InvalidFileName));
}

#[test]
fn archive_that_ends_too_early_is_refused() {
    // The central directory is said to start where the archive ends.
    let mut archive = sample();
    archive[191 - 6] = 190;
    assert_eq!(refusal(&archive), Some(SquashZipError::Io(IoFailure::UnexpectedEof)));
    // A file name that is said to be longer than the archive.
    let mut long_name = sample();
    long_name[120 + 29] = 0xFF;
    assert_eq!(refusal(&long_name), Some(SquashZipError::Io(IoFailure::UnexpectedEof)));
    // A record that is said to be behind the end.
    let mut far_record = sample();
    far_record[120 + 44] = 1;
    assert_eq!(refusal(&far_record), Some(SquashZipError::Io(IoFailure::UnexpectedEof)));
    // A header that is cut off, in front of a well-placed end record.
    let mut cut = sample()[..71 + 20].to_vec();
    cut.extend_from_slice(&sample()[169..]);
    assert_eq!(refusal(&cut), Some(SquashZipError::Io(IoFailure::UnexpectedEof)));
    assert_eq!(refusal(&[0u8; 21]), Some(SquashZipError::Io(IoFailure::InvalidSeek)));
}

#[test]
fn directory_that_starts_elsewhere_is_read_from_there() {
    let mut archive = sample();
    archive[191 - 6] = 120;
    let index = parse_previous_zip(&archive, &NoObfuscation, &SystemTimeSanitizer::new(KEY)).unwrap();
    assert_eq!(index.len(), 1);
    assert!(index.get("two").is_some());
    archive[191 - 6] = 169;
    let index = parse_previous_zip(&archive, &NoObfuscation, &SystemTimeSanitizer::new(KEY)).unwrap();
    assert_eq!(index.len(), 0);
}

/// An archive with one stored, empty entry "z" whose central directory
/// header holds its offset in a ZIP64 field, as a header of a record at or
/// beyond 4 GiB does. The offset in the field is `offset`.
fn with_zip64_offset(offset: u64) -> Vec<u8> {
    let mut archive = Vec::new();
    LocalFileHeader::new("z").unwrap().write(&mut archive);
    let header = CentralDirectoryHeader {
        compression_method: CompressionMethod::Store,
        squash_time: SystemTimeSanitizer::new(KEY).sanitize(5, 0).unwrap(),
        crc32: 0,
        compressed_size: 0,
        uncompressed_size: 0,
        local_header_disk_number: 0,
        local_header_offset: 0xFFFF_FFFF,
        file_name: b"z".to_vec(),
        spoof_version_made_by: false,
    };
    let mut encoded = header.encode();
    let field = encoded.len() - 8;
    encoded[field..].copy_from_slice(&offset.to_le_bytes());
    archive.extend_from_slice(&encoded);
    EndOfCentralDirectory {
        disk_number: 0,
        central_directory_start_disk_number: 0,
        central_directory_entry_count_current_disk: 1,
        total_central_directory_entry_count: 1,
        central_directory_size: 59,
        central_directory_start_offset: 31,
        total_number_of_disks: 1,
        current_file_offset: 90,
        zip64_record_size_offset: 0,
        spoof_version_made_by: false,
        zero_out_unused_zip64_fields: false,
    }
    .write(&mut archive);
    archive
}

#[test]
fn offset_in_a_zip64_field_is_read() {
    let archive = with_zip64_offset(0);
    let index = parse_previous_zip(&archive, &NoObfuscation, &SystemTimeSanitizer::new(KEY)).unwrap();
    assert_eq!(index.get("z").map(|file| (file.squash_time, file.data_offset)), Some((5, 31)));
    assert_eq!(
        refusal(&with_zip64_offset(u64::MAX)),
        Some(SquashZipError::Io(IoFailure::UnexpectedEof))
    );
    assert_eq!(
        refusal(&with_zip64_offset(1)),
        Some(SquashZipError::InvalidPreviousZip("LFH signature not found at expected position"))
    );
}

#[test]
fn extra_field_with_another_tag_is_refused() {
    let mut archive = with_zip64_offset(0);
    archive[31 + 47] = 0x02;
    assert_eq!(
        refusal(&archive),
        Some(SquashZipError::InvalidPreviousZip(
            "Found extra field in CDH that is not a ZIP64 extended information field"
        ))
    );
    let mut other = with_zip64_offset(0);
    other[31 + 48] = 0x01;
    assert_eq!(
        refusal(&other),
        Some(SquashZipError::InvalidPreviousZip(
            "Found extra field in CDH that is not a ZIP64 extended information field"
        ))
    );
}

#[test]
fn extra_field_is_skipped_only_with_a_marked_offset() {
    // Twelve bytes of extra field behind a header with a plain offset are
    // left unread: the directory ends there.
    let mut archive = with_zip64_offset(0);
    archive[31 + 42..31 + 46].copy_from_slice(&[0, 0, 0, 0]);
    let index = parse_previous_zip(&archive, &NoObfuscation, &SystemTimeSanitizer::new(KEY)).unwrap();
    assert_eq!(index.len(), 1);
}

/// The last sixty-two bytes of an archive whose end of central directory
/// record marks the offset of the central directory as being in a ZIP64
/// record, preceded by `body`. The locator points at `record`.
fn with_zip64_locator(body: &[u8], record: u64) -> Vec<u8> {
    let mut archive = body.to_vec();
    archive.extend_from_slice(&[0x50, 0x4B, 0x06, 0x07, 0, 0, 0, 0]);
    archive.extend_from_slice(&record.to_le_bytes());
    archive.extend_from_slice(&[1, 0, 0, 0]);
    archive.extend_from_slice(&[0x50, 0x4B, 0x05, 0x06, 0, 0, 0, 0, 0, 0, 0, 0, 0, 0, 0, 0]);
    archive.extend_from_slice(&[0xFF, 0xFF, 0xFF, 0xFF, 0, 0]);
    archive
}

#[test]
fn central_directory_offset_is_taken_from_the_zip64_record() {
    // A record whose bytes 44 to 51 say that the directory starts at 52,
    // behind the record itself, where the locator stands.
    let mut record = vec![0x50, 0x4B, 0x06, 0x06];
    record.extend_from_slice(&[0u8; 40]);
    record.extend_from_slice(&52u64.to_le_bytes());
    let archive = with_zip64_locator(&record, 0);
    let index = parse_previous_zip(&archive, &NoObfuscation, &SystemTimeSanitizer::new(KEY)).unwrap();
    assert_eq!(index.len(), 0);
    let mut unsigned = record.clone();
    unsigned[3] = 0x07;
    assert_eq!(
        refusal(&with_zip64_locator(&unsigned, 0)),
        Some(SquashZipError::InvalidPreviousZip("EOCD64 signature expected, but not found"))
    );
    assert_eq!(
        refusal(&with_zip64_locator(&record, 43)),
        Some(SquashZipError::Io(IoFailure::UnexpectedEof))
    );
    assert_eq!(refusal(&with_zip64_locator(&record, u64::MAX)), Some(SquashZipError::Io(IoFailure::UnexpectedEof)));
}

#[test]
fn marked_offset_without_a_locator_is_taken_as_it_is() {
    let mut archive = vec![0u8; 20];
    archive.extend_from_slice(&[0x50, 0x4B, 0x05, 0x06, 0, 0, 0, 0, 0, 0, 0, 0, 0, 0, 0, 0]);
    archive.extend_from_slice(&[0xFF, 0xFF, 0xFF, 0xFF, 0, 0]);
    assert_eq!(refusal(&archive), Some(SquashZipError::Io(IoFailure::UnexpectedEof)));
    assert_eq!(refusal(&archive[1..]), Some(SquashZipError::Io(IoFailure::InvalidSeek)));
}

#[test]
fn payload_beyond_the_end_of_the_previous_archive_is_refused() {
    let mut archive = sample();
    // The second entry is said to have a payload of 200 bytes.
    archive[120 + 20] = 200;
    let mut zip =
        SquashZip::new(Some(archive), settings(), NoObfuscation, SystemTimeSanitizer::new(KEY)).unwrap();
    assert_eq!(zip.add_previous_file("two"), Err(SquashZipError::Io(IoFailure::UnexpectedEof)));
    zip.add_previous_file("one").unwrap();
    let archive = zip.finish().unwrap();
    assert_eq!(archive.len(), 36 + 49 + 22);
}
