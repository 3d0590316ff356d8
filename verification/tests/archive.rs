use squash_zip::engine::SquashZip;
use squash_zip::error::{IoFailure, SquashZipError};
use squash_zip::obfuscation_engine::NoObfuscation;
use squash_zip::settings::{PercentageInteger, SquashZipSettings};
use squash_zip::system_time_sanitizer::SystemTimeSanitizer;

const KEY: [u8; 16] = [7; 16];

fn settings(iterations: u8, store_squash_time: bool, deduplicate: bool) -> SquashZipSettings {
    SquashZipSettings {
        zopfli_iterations: iterations,
        store_squash_time,
        enable_obfuscation: false,
        enable_deduplication: deduplicate,
        enable_size_increasing_obfuscation: false,
        percentage_of_records_tuned_for_obfuscation_discretion: PercentageInteger::new(0).unwrap(),
        workaround_old_java_obfuscation_quirks: false,
        spool_buffer_size: 1024,
    }
}

fn fresh(settings: SquashZipSettings) -> SquashZip<NoObfuscation> {
    SquashZip::new(None, settings, NoObfuscation, SystemTimeSanitizer::new(KEY)).unwrap()
}

fn reopen(archive: Vec<u8>, settings: SquashZipSettings) -> Result<SquashZip<NoObfuscation>, SquashZipError> {
    SquashZip::new(Some(archive), settings, NoObfuscation, SystemTimeSanitizer::new(KEY))
}

fn u16_at(bytes: &[u8], at: usize) -> u16 {
    u16::from_le_bytes([bytes[at], bytes[at + 1]])
}

fn u32_at(bytes: &[u8], at: usize) -> u32 {
    u32::from_le_bytes([bytes[at], bytes[at + 1], bytes[at + 2], bytes[at + 3]])
}

/// The offsets of the local file headers that the central directory of `archive` points at.
fn directory_offsets(archive: &[u8]) -> Vec<u32> {
    let end = archive.len();
    let mut at = u32_at(archive, end - 6) as usize;
    let mut offsets = Vec::new();
    while archive[at..at + 4] == [0x50, 0x4B, 0x01, 0x02] {
        offsets.push(u32_at(archive, at + 42));
        at += 46 + u16_at(archive, at + 28) as usize + u16_at(archive, at + 30) as usize;
    }
    offsets
}

fn count_windows(haystack: &[u8], needle: &[u8]) -> usize {
    haystack.windows(needle.len()).filter(|window| *window == needle).count()
}

#[test]
fn empty_archive_is_only_an_end_of_central_directory_record() {
    let archive = fresh(settings(20, false, false)).finish().unwrap();
    assert_eq!(archive.len(), 22);
    assert_eq!(&archive[..4], &[0x50, 0x4B, 0x05, 0x06]);
    assert_eq!(&archive[4..], &[0u8; 18]);
}

#[test]
fn one_stored_entry_has_the_expected_bytes() {
    let mut zip = fresh(settings(20, false, false));
    zip.add_file("a.txt", &vec![vec![0x61, 0x62, 0x63]], true, 3, 0).unwrap();
    let archive = zip.finish().unwrap();
    let mut expected: Vec<u8> = Vec::new();
    // Local file header
    expected.extend_from_slice(&[0x50, 0x4B, 0x03, 0x04]);
    expected.extend_from_slice(&[0x0A, 0x00, 0x00, 0x08, 0x00, 0x00]);
    expected.extend_from_slice(&[0x00, 0x00, 0x00, 0x00]);
    expected.extend_from_slice(&[0xC2, 0x41, 0x24, 0x35]);
    expected.extend_from_slice(&[0x03, 0x00, 0x00, 0x00, 0x03, 0x00, 0x00, 0x00]);
    expected.extend_from_slice(&[0x05, 0x00, 0x00, 0x00]);
    expected.extend_from_slice(b"a.txt");
    expected.extend_from_slice(b"abc");
    // Central directory header
    expected.extend_from_slice(&[0x50, 0x4B, 0x01, 0x02]);
    expected.extend_from_slice(&[0x0A, 0x00, 0x0A, 0x00, 0x00, 0x08, 0x00, 0x00]);
    expected.extend_from_slice(&[0x00, 0x00, 0x00, 0x00]);
    expected.extend_from_slice(&[0xC2, 0x41, 0x24, 0x35]);
    expected.extend_from_slice(&[0x03, 0x00, 0x00, 0x00, 0x03, 0x00, 0x00, 0x00]);
    expected.extend_from_slice(&[0x05, 0x00, 0x00, 0x00, 0x00, 0x00]);
    expected.extend_from_slice(&[0x00, 0x00, 0x00, 0x00, 0x00, 0x00, 0x00, 0x00]);
    expected.extend_from_slice(&[0x00, 0x00, 0x00, 0x00]);
    expected.extend_from_slice(b"a.txt");
    // End of central directory
    expected.extend_from_slice(&[0x50, 0x4B, 0x05, 0x06, 0x00, 0x00, 0x00, 0x00]);
    expected.extend_from_slice(&[0x01, 0x00, 0x01, 0x00]);
    expected.extend_from_slice(&[51, 0x00, 0x00, 0x00]);
    expected.extend_from_slice(&[38, 0x00, 0x00, 0x00]);
    expected.extend_from_slice(&[0x00, 0x00]);
    assert_eq!(archive, expected);
    assert_eq!(u32_at(&archive, 14), 0x352441C2);
}

#[test]
fn one_stored_entry_is_read_back_with_its_checksum() {
    let mut zip = fresh(settings(20, true, false));
    zip.add_file("a.txt", &vec![vec![0x61], vec![0x62, 0x63]], true, 3, 1_600_000_000).unwrap();
    let archive = zip.finish().unwrap();
    let mut next = reopen(archive.clone(), settings(20, true, false)).unwrap();
    assert_eq!(next.previous_file_count(), 1);
    assert_eq!(next.file_process_time("a.txt"), Some(1_600_000_000));
    assert_eq!(next.file_process_time("b.txt"), None);
    next.add_previous_file("a.txt").unwrap();
    assert_eq!(next.finish().unwrap(), archive);
}

#[test]
fn identical_entries_share_one_record_with_deduplication() {
    let mut zip = fresh(settings(5, false, true));
    let data = vec![vec![0u8; 1024]];
    zip.add_file("first.bin", &data, false, 1024, 0).unwrap();
    zip.add_file("second.bin", &data, false, 1024, 0).unwrap();
    let archive = zip.finish().unwrap();
    let offsets = directory_offsets(&archive);
    assert_eq!(offsets, vec![0, 0]);
    assert_eq!(count_windows(&archive, &[0x50, 0x4B, 0x03, 0x04]), 1);
    assert_eq!(count_windows(&archive, &[0x50, 0x4B, 0x01, 0x02]), 2);
    assert_eq!(u16_at(&archive, archive.len() - 12), 2);
}

#[test]
fn identical_entries_have_records_of_their_own_without_deduplication() {
    let mut zip = fresh(settings(5, false, false));
    let data = vec![vec![0u8; 1024]];
    zip.add_file("first.bin", &data, true, 1024, 0).unwrap();
    zip.add_file("second.bin", &data, true, 1024, 0).unwrap();
    let archive = zip.finish().unwrap();
    let offsets = directory_offsets(&archive);
    assert_eq!(offsets, vec![0, 30 + 9 + 1024]);
    assert_eq!(count_windows(&archive, &[0x50, 0x4B, 0x03, 0x04]), 2);
}

#[test]
fn entries_with_equal_checksum_and_size_but_other_bytes_are_not_shared() {
    // Two different inputs of the same length are filed under different
    // keys, and a third equal to the first is found again behind them.
    let mut zip = fresh(settings(0, false, true));
    zip.add_file("a", &vec![vec![1, 2, 3, 4]], true, 4, 0).unwrap();
    zip.add_file("b", &vec![vec![4, 3, 2, 1]], true, 4, 0).unwrap();
    zip.add_file("c", &vec![vec![1, 2], vec![3, 4]], true, 4, 0).unwrap();
    let archive = zip.finish().unwrap();
    assert_eq!(directory_offsets(&archive), vec![0, 35, 0]);
}

#[test]
fn empty_content_is_stored_and_shared() {
    let mut zip = fresh(settings(20, false, true));
    zip.add_file("empty", &Vec::new(), false, 0, 0).unwrap();
    zip.add_file("void", &vec![Vec::new()], false, 0, 0).unwrap();
    let archive = zip.finish().unwrap();
    assert_eq!(directory_offsets(&archive), vec![0, 0]);
    assert_eq!(u16_at(&archive, 8), 0);
    assert_eq!(u32_at(&archive, 14), 0);
    assert_eq!(u32_at(&archive, 18), 0);
    assert_eq!(u32_at(&archive, 22), 0);
}

#[test]
fn compressible_content_is_deflated() {
    let mut zip = fresh(settings(20, false, false));
    let data = vec![vec![0u8; 1024]];
    zip.add_file("zeros", &data, false, 1024, 0).unwrap();
    let archive = zip.finish().unwrap();
    assert_eq!(u16_at(&archive, 4), 20);
    assert_eq!(u16_at(&archive, 8), 8);
    let compressed_size = u32_at(&archive, 18);
    assert!(compressed_size > 0);
    assert!(compressed_size < 1024);
    assert_eq!(u32_at(&archive, 22), 1024);
    assert_eq!(u32_at(&archive, 14), 0xEFB5AF2E);
    // A raw Deflate stream of one final block with fixed or dynamic codes.
    let first = archive[30 + 5];
    assert_eq!(first & 1, 1);
    assert!(first & 6 == 2 || first & 6 == 4);
}

#[test]
fn content_that_does_not_shrink_is_stored() {
    let mut zip = fresh(settings(20, false, false));
    zip.add_file("tiny", &vec![vec![0x61, 0x62, 0x63]], false, 3, 0).unwrap();
    let archive = zip.finish().unwrap();
    assert_eq!(u16_at(&archive, 8), 0);
    assert_eq!(u32_at(&archive, 18), 3);
    assert_eq!(&archive[34..37], b"abc");
}

#[test]
fn zero_configured_iterations_never_compress() {
    let mut zip = fresh(settings(0, false, false));
    zip.add_file("zeros", &vec![vec![0u8; 1024]], false, 1024, 0).unwrap();
    let archive = zip.finish().unwrap();
    assert_eq!(u16_at(&archive, 8), 0);
    assert_eq!(u32_at(&archive, 18), 1024);
}

#[test]
fn previous_payload_is_copied_to_the_new_archive() {
    let payload: Vec<u8> = (0..500u32).map(|i| (i * 7 % 251) as u8).collect();
    let mut first = fresh(settings(20, true, true));
    first.add_file("other", &vec![vec![9u8; 10]], true, 10, 5).unwrap();
    first.add_file("m/x.bin", &vec![payload.clone()], true, 500, 1_234_567).unwrap();
    let previous = first.finish().unwrap();
    let mut second = reopen(previous.clone(), settings(20, true, true)).unwrap();
    assert_eq!(second.previous_file_count(), 2);
    second.add_previous_file("m/x.bin").unwrap();
    let archive = second.finish().unwrap();
    assert_eq!(count_windows(&archive, &[0x50, 0x4B, 0x03, 0x04]), 1);
    assert_eq!(directory_offsets(&archive), vec![0]);
    assert_eq!(u32_at(&archive, 18), 500);
    assert_eq!(&archive[37..537], &payload[..]);
    // The stored squash time is the one of the earlier run.
    let third = reopen(archive, settings(20, true, true)).unwrap();
    assert_eq!(third.file_process_time("m/x.bin"), Some(1_234_567));
    assert_eq!(third.previous_file_count(), 1);
}

#[test]
fn previous_payload_that_is_already_there_is_shared() {
    let mut first = fresh(settings(20, true, true));
    first.add_file("x", &vec![vec![3u8; 64]], true, 64, 77).unwrap();
    let previous = first.finish().unwrap();
    let mut second = reopen(previous, settings(20, true, true)).unwrap();
    second.add_file("y", &vec![vec![3u8; 64]], true, 64, 78).unwrap();
    second.add_previous_file("x").unwrap();
    let archive = second.finish().unwrap();
    assert_eq!(directory_offsets(&archive), vec![0, 0]);
    let third = reopen(archive, settings(20, true, true)).unwrap();
    assert_eq!(third.file_process_time("x"), Some(77));
    assert_eq!(third.file_process_time("y"), Some(78));
}

#[test]
fn missing_previous_file_is_reported_and_leaves_the_archive_usable() {
    let mut first = fresh(settings(20, true, false));
    first.add_file("x", &vec![vec![3u8; 8]], true, 8, 77).unwrap();
    let previous = first.finish().unwrap();
    let mut second = reopen(previous.clone(), settings(20, true, false)).unwrap();
    assert_eq!(
        second.add_previous_file("nope"),
        Err(SquashZipError::NoSuchPreviousFile(String::from("nope")))
    );
    second.add_previous_file("x").unwrap();
    assert_eq!(second.finish().unwrap(), previous);
    let mut alone = fresh(settings(20, true, false));
    assert_eq!(
        alone.add_previous_file("x"),
        Err(SquashZipError::NoSuchPreviousFile(String::from("x")))
    );
    assert_eq!(alone.previous_file_count(), 0);
    assert_eq!(alone.file_process_time("x"), None);
}

#[test]
fn truncated_previous_archive_has_no_end_of_central_directory() {
    let mut first = fresh(settings(20, true, false));
    first.add_file("x", &vec![vec![3u8; 8]], true, 8, 77).unwrap();
    let mut previous = first.finish().unwrap();
    previous.truncate(previous.len() - 4);
    let refused = reopen(previous, settings(20, true, false)).err();
    assert_eq!(
        refused,
        Some(SquashZipError::InvalidPreviousZip(
            "EOCD signature not found at the expected position"
        ))
    );
}

#[test]
fn too_long_path_overflows() {
    let mut zip = fresh(settings(20, false, false));
    let path = "p".repeat(65536);
    assert_eq!(
        zip.add_file(&path, &vec![vec![1]], true, 1, 0),
        Err(SquashZipError::Overflow)
    );
    let longest = "p".repeat(65535);
    zip.add_file(&longest, &vec![vec![1]], true, 1, 0).unwrap();
    let archive = zip.finish().unwrap();
    assert_eq!(u16_at(&archive, 26), 65535);
    assert_eq!(directory_offsets(&archive), vec![0]);
}

#[test]
fn squash_time_beyond_four_bytes_is_refused() {
    let mut zip = fresh(settings(20, true, false));
    assert_eq!(
        zip.add_file("late", &vec![vec![1]], true, 1, 1 << 32),
        Err(SquashZipError::SystemTimeSanitizationError)
    );
    zip.add_file("last", &vec![vec![1]], true, 1, (1 << 32) - 1).unwrap();
    let mut untimed = fresh(settings(20, false, false));
    untimed.add_file("late", &vec![vec![1]], true, 1, 1 << 32).unwrap();
    let archive = untimed.finish().unwrap();
    assert_eq!(&archive[10..14], &[0, 0, 0, 0]);
    let reread = reopen(zip.finish().unwrap(), settings(20, true, false)).unwrap();
    assert_eq!(reread.file_process_time("last"), Some(u32::MAX as u64));
}

#[test]
fn failed_addition_leaves_the_archive_as_it_was() {
    let mut zip = fresh(settings(20, true, true));
    zip.add_file("kept", &vec![vec![1, 2, 3]], true, 3, 1).unwrap();
    assert!(zip.add_file("late", &vec![vec![4]], true, 1, u64::MAX).is_err());
    let mut other = fresh(settings(20, true, true));
    other.add_file("kept", &vec![vec![1, 2, 3]], true, 3, 1).unwrap();
    assert_eq!(zip.finish().unwrap(), other.finish().unwrap());
}

#[test]
fn stored_squash_time_depends_on_key_and_checksum() {
    let mut zip = fresh(settings(20, true, false));
    zip.add_file("a", &vec![vec![1]], true, 1, 1000).unwrap();
    zip.add_file("b", &vec![vec![2]], true, 1, 1000).unwrap();
    let archive = zip.finish().unwrap();
    let first = &archive[10..14];
    let second = &archive[32 + 10..32 + 14];
    assert_ne!(first, second);
    assert_ne!(first, &1000u32.to_le_bytes());
    let other_key = SquashZip::new(
        Some(archive.clone()),
        settings(20, true, false),
        NoObfuscation,
        SystemTimeSanitizer::new([8; 16]),
    )
    .unwrap();
    assert_ne!(other_key.file_process_time("a"), Some(1000));
    let same_key = reopen(archive, settings(20, true, false)).unwrap();
    assert_eq!(same_key.file_process_time("a"), Some(1000));
    assert_eq!(same_key.file_process_time("b"), Some(1000));
}

#[test]
fn later_entry_of_a_path_replaces_the_earlier_one_when_read_back() {
    let mut zip = fresh(settings(20, true, false));
    zip.add_file("twice", &vec![vec![1]], true, 1, 10).unwrap();
    zip.add_file("twice", &vec![vec![2, 2]], true, 2, 20).unwrap();
    let reread = reopen(zip.finish().unwrap(), settings(20, true, false)).unwrap();
    assert_eq!(reread.previous_file_count(), 1);
    assert_eq!(reread.file_process_time("twice"), Some(20));
}

#[test]
fn names_beyond_ascii_are_read_back() {
    let mut zip = fresh(settings(20, true, false));
    zip.add_file("päck/ß→字.txt", &vec![vec![1]], true, 1, 10).unwrap();
    let reread = reopen(zip.finish().unwrap(), settings(20, true, false)).unwrap();
    assert_eq!(reread.file_process_time("päck/ß→字.txt"), Some(10));
}

#[test]
fn finished_archive_is_read_back_with_the_same_paths() {
    let mut zip = fresh(settings(3, true, true));
    let paths = ["a", "dir/b", "dir/sub/c", "d.json", "e"];
    for (i, path) in paths.iter().enumerate() {
        let data = vec![vec![(i % 2) as u8; 100 * (i + 1)]];
        zip.add_file(path, &data, i % 2 == 0, 100, 1000 + i as u64).unwrap();
    }
    let archive = zip.finish().unwrap();
    let mut reread = reopen(archive.clone(), settings(3, true, true)).unwrap();
    assert_eq!(reread.previous_file_count(), paths.len());
    for (i, path) in paths.iter().enumerate() {
        assert_eq!(reread.file_process_time(path), Some(1000 + i as u64));
        reread.add_previous_file(path).unwrap();
    }
    assert_eq!(reread.finish().unwrap(), archive);
}

#[test]
fn short_previous_archive_cannot_be_sought() {
    assert_eq!(
        reopen(vec![0x50, 0x4B, 0x05, 0x06], settings(20, true, false)).err(),
        Some(SquashZipError::Io(IoFailure::InvalidSeek))
    );
    assert_eq!(
        reopen(Vec::new(), settings(20, true, false)).err(),
        Some(SquashZipError::Io(IoFailure::InvalidSeek))
    );
}
