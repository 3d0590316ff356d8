use squash_zip::byte_order::{read_u16, read_u32, read_u64, write_bytes, write_u16, write_u32, write_u64};
use squash_zip::deduplication::{find_duplicate, payload_stored_at};
use squash_zip::error::SquashZipError;
use squash_zip::obfuscation_engine::{NoObfuscation, ObfuscationEngine};
use squash_zip::settings::{PercentageInteger, SquashZipSettings};
use squash_zip::zip_file_record::{
    CentralDirectoryHeader, CompressionMethod, EndOfCentralDirectory, LocalFileHeader,
};

fn end_of_central_directory(count: u64, size: u64, start: u64) -> EndOfCentralDirectory {
    EndOfCentralDirectory {
        disk_number: 0,
        central_directory_start_disk_number: 0,
        central_directory_entry_count_current_disk: count,
        total_central_directory_entry_count: count,
        central_directory_size: size,
        central_directory_start_offset: start,
        total_number_of_disks: 1,
        current_file_offset: start + size,
        zip64_record_size_offset: 0,
        spoof_version_made_by: false,
        zero_out_unused_zip64_fields: false,
    }
}

#[test]
fn fields_are_little_endian() {
    let bytes = [0x01, 0x02, 0x03, 0x04, 0x05, 0x06, 0x07, 0x08, 0x09];
    assert_eq!(read_u16(&bytes, 0), 0x0201);
    assert_eq!(read_u16(&bytes, 7), 0x0908);
    assert_eq!(read_u32(&bytes, 1), 0x05040302);
    assert_eq!(read_u64(&bytes, 1), 0x0908070605040302);
    let mut out = vec![0xEE];
    write_u16(&mut out, 0xABCD);
    write_u32(&mut out, 0x01234567);
    write_u64(&mut out, 0x1122334455667788);
    write_bytes(&mut out, &[1, 2, 3]);
    assert_eq!(
        out,
        vec![
            0xEE, 0xCD, 0xAB, 0x67, 0x45, 0x23, 0x01, 0x88, 0x77, 0x66, 0x55, 0x44, 0x33, 0x22, 0x11, 1, 2,
            3
        ]
    );
    assert_eq!(read_u16(&out, 1), 0xABCD);
    assert_eq!(read_u32(&out, 3), 0x01234567);
    assert_eq!(read_u64(&out, 7), 0x1122334455667788);
    let mut extremes = Vec::new();
    write_u16(&mut extremes, u16::MAX);
    write_u32(&mut extremes, u32::MAX);
    write_u64(&mut extremes, u64::MAX);
    assert_eq!(extremes, vec![0xFF; 14]);
    assert_eq!(read_u64(&extremes, 6), u64::MAX);
}

#[test]
fn compression_methods_have_their_fields() {
    assert_eq!(CompressionMethod::Store.to_compression_method_field(), 0);
    assert_eq!(CompressionMethod::Deflate.to_compression_method_field(), 8);
    assert_eq!(CompressionMethod::from_compression_method_field(0), Ok(CompressionMethod::Store));
    assert_eq!(CompressionMethod::from_compression_method_field(8), Ok(CompressionMethod::Deflate));
    assert_eq!(
        CompressionMethod::from_compression_method_field(1),
        Err(SquashZipError::UnknownCompressionMethod(1))
    );
    assert_eq!(
        CompressionMethod::from_compression_method_field(0xFFFF),
        Err(SquashZipError::UnknownCompressionMethod(0xFFFF))
    );
}

#[test]
fn new_local_file_header_is_an_empty_stored_entry() {
    let header = LocalFileHeader::new("päck.txt").unwrap();
    assert_eq!(header.file_name, "päck.txt".as_bytes().to_vec());
    assert_eq!(header.compression_method, CompressionMethod::Store);
    assert_eq!(header.squash_time, [0; 4]);
    assert_eq!((header.crc32, header.compressed_size, header.uncompressed_size), (0, 0, 0));
    assert_eq!(header.size(), 30 + 9);
    assert_eq!(LocalFileHeader::new(&"x".repeat(65536)).err(), Some(SquashZipError::Overflow));
    assert_eq!(LocalFileHeader::new(&"x".repeat(65535)).unwrap().size(), 30 + 65535);
    // Three bytes each: the limit is on bytes, not on characters.
    assert_eq!(LocalFileHeader::new(&"字".repeat(21846)).err(), Some(SquashZipError::Overflow));
    assert!(LocalFileHeader::new(&"字".repeat(21845)).is_ok());
}

#[test]
fn local_file_header_is_encoded_field_by_field() {
    let header = LocalFileHeader {
        compression_method: CompressionMethod::Deflate,
        squash_time: [0xA1, 0xA2, 0xA3, 0xA4],
        crc32: 0x11223344,
        compressed_size: 0x01020304,
        uncompressed_size: 0x0A0B0C0D,
        file_name: b"n".to_vec(),
    };
    let expected = vec![
        0x50, 0x4B, 0x03, 0x04, 20, 0, 0x00, 0x08, 8, 0, 0xA1, 0xA2, 0xA3, 0xA4, 0x44, 0x33, 0x22,
        0x11, 0x04, 0x03, 0x02, 0x01, 0x0D, 0x0C, 0x0B, 0x0A, 1, 0, 0, 0, b'n',
    ];
    assert_eq!(header.encode(), expected);
    let mut out = vec![9, 9];
    header.write(&mut out);
    assert_eq!(&out[..2], &[9, 9]);
    assert_eq!(&out[2..], &expected[..]);
    assert_eq!(header.size() as usize, expected.len());
}

#[test]
fn central_directory_header_is_encoded_field_by_field() {
    let header = CentralDirectoryHeader {
        compression_method: CompressionMethod::Store,
        squash_time: [1, 2, 3, 4],
        crc32: 0xAABBCCDD,
        compressed_size: 5,
        uncompressed_size: 5,
        local_header_disk_number: 0x0102,
        local_header_offset: 0xFFFF_FFFE,
        file_name: b"ab".to_vec(),
        spoof_version_made_by: false,
    };
    let expected = vec![
        0x50, 0x4B, 0x01, 0x02, 10, 0, 10, 0, 0x00, 0x08, 0, 0, 1, 2, 3, 4, 0xDD, 0xCC, 0xBB, 0xAA, 5,
        0, 0, 0, 5, 0, 0, 0, 2, 0, 0, 0, 0, 0, 0x02, 0x01, 0, 0, 0, 0, 0, 0, 0xFE, 0xFF, 0xFF, 0xFF,
        b'a', b'b',
    ];
    assert_eq!(header.encode(), expected);
    let spoofed = CentralDirectoryHeader { spoof_version_made_by: true, ..header.clone() };
    let encoded = spoofed.encode();
    assert_eq!(&encoded[4..8], &[0x1E, 0x03, 10, 0]);
    assert_eq!(&encoded[8..], &expected[8..]);
}

#[test]
fn central_directory_header_with_a_big_offset_has_a_zip64_field() {
    let header = CentralDirectoryHeader {
        compression_method: CompressionMethod::Deflate,
        squash_time: [0; 4],
        crc32: 1,
        compressed_size: 2,
        uncompressed_size: 3,
        local_header_disk_number: 0,
        local_header_offset: 0xFFFF_FFFF,
        file_name: b"big".to_vec(),
        spoof_version_made_by: false,
    };
    let encoded = header.encode();
    assert_eq!(encoded.len(), 46 + 3 + 12);
    assert_eq!(&encoded[4..8], &[45, 0, 45, 0]);
    assert_eq!(&encoded[30..32], &[12, 0]);
    assert_eq!(&encoded[42..46], &[0xFF; 4]);
    assert_eq!(&encoded[46..49], b"big");
    assert_eq!(&encoded[49..], &[0x01, 0x00, 0x08, 0x00, 0xFF, 0xFF, 0xFF, 0xFF, 0, 0, 0, 0]);
    let bigger = CentralDirectoryHeader { local_header_offset: 0x1_2345_6789, ..header };
    assert_eq!(&bigger.encode()[53..], &[0x89, 0x67, 0x45, 0x23, 0x01, 0, 0, 0]);
}

#[test]
fn end_of_central_directory_is_encoded_field_by_field() {
    let record = end_of_central_directory(3, 0x0150, 0x01020304);
    assert_eq!(
        record.encode(),
        vec![0x50, 0x4B, 0x05, 0x06, 0, 0, 0, 0, 3, 0, 3, 0, 0x50, 0x01, 0, 0, 0x04, 0x03, 0x02, 0x01, 0, 0]
    );
    let mut out = vec![7];
    record.write(&mut out);
    assert_eq!(out.len(), 23);
    assert_eq!(&out[1..5], &[0x50, 0x4B, 0x05, 0x06]);
}

#[test]
fn end_of_central_directory_with_many_entries_has_zip64_companions() {
    let record = end_of_central_directory(0xFFFF, 0x10, 0x20);
    let encoded = record.encode();
    assert_eq!(encoded.len(), 56 + 20 + 22);
    // The ZIP64 record.
    assert_eq!(&encoded[..4], &[0x50, 0x4B, 0x06, 0x06]);
    assert_eq!(&encoded[4..12], &[44, 0, 0, 0, 0, 0, 0, 0]);
    assert_eq!(&encoded[12..16], &[45, 0, 45, 0]);
    assert_eq!(&encoded[16..24], &[0; 8]);
    assert_eq!(&encoded[24..32], &[0xFF, 0xFF, 0, 0, 0, 0, 0, 0]);
    assert_eq!(&encoded[32..40], &[0xFF, 0xFF, 0, 0, 0, 0, 0, 0]);
    assert_eq!(&encoded[40..48], &[0x10, 0, 0, 0, 0, 0, 0, 0]);
    assert_eq!(&encoded[48..56], &[0x20, 0, 0, 0, 0, 0, 0, 0]);
    // The locator.
    assert_eq!(&encoded[56..60], &[0x50, 0x4B, 0x06, 0x07]);
    assert_eq!(&encoded[60..64], &[0; 4]);
    assert_eq!(&encoded[64..72], &[0x30, 0, 0, 0, 0, 0, 0, 0]);
    assert_eq!(&encoded[72..76], &[1, 0, 0, 0]);
    // The plain record, with the counts saturated.
    assert_eq!(
        &encoded[76..],
        &[0x50, 0x4B, 0x05, 0x06, 0, 0, 0, 0, 0xFF, 0xFF, 0xFF, 0xFF, 0x10, 0, 0, 0, 0x20, 0, 0, 0, 0, 0]
    );
    let fewer = end_of_central_directory(0xFFFE, 0x10, 0x20);
    assert_eq!(fewer.encode().len(), 22);
}

#[test]
fn end_of_central_directory_knobs_change_the_zip64_record() {
    let mut record = end_of_central_directory(5, 0xFFFF_FFFF, 0x20);
    record.zero_out_unused_zip64_fields = true;
    record.spoof_version_made_by = true;
    record.zip64_record_size_offset = 3;
    let encoded = record.encode();
    assert_eq!(encoded.len(), 98);
    assert_eq!(&encoded[4..12], &[47, 0, 0, 0, 0, 0, 0, 0]);
    assert_eq!(&encoded[12..16], &[0x1E, 0x03, 45, 0]);
    assert_eq!(&encoded[24..40], &[0; 16]);
    assert_eq!(&encoded[40..48], &[0xFF, 0xFF, 0xFF, 0xFF, 0, 0, 0, 0]);
    assert_eq!(&encoded[48..56], &[0; 8]);
    assert_eq!(&encoded[88..92], &[0xFF; 4]);
    assert_eq!(&encoded[92..96], &[0x20, 0, 0, 0]);
    record.zero_out_unused_zip64_fields = false;
    let kept = record.encode();
    assert_eq!(&kept[24..32], &[5, 0, 0, 0, 0, 0, 0, 0]);
    assert_eq!(&kept[48..56], &[0x20, 0, 0, 0, 0, 0, 0, 0]);
}

#[test]
fn payload_is_found_where_it_stands() {
    let archive = [1u8, 2, 3, 4, 5, 6];
    assert!(payload_stored_at(&archive, 0, &[1, 2, 3]));
    assert!(payload_stored_at(&archive, 3, &[4, 5, 6]));
    assert!(payload_stored_at(&archive, 6, &[]));
    assert!(payload_stored_at(&archive, 2, &[]));
    assert!(!payload_stored_at(&archive, 7, &[]));
    assert!(!payload_stored_at(&archive, 4, &[5, 6, 7]));
    assert!(!payload_stored_at(&archive, 3, &[4, 5, 7]));
    assert!(!payload_stored_at(&archive, 0, &[1, 2, 3, 4, 5, 6, 7]));
    assert!(!payload_stored_at(&archive, u64::MAX, &[1]));
}

#[test]
fn first_matching_header_is_the_duplicate() {
    let archive = [9u8, 9, 7, 7, 9, 9, 7, 7, 7];
    let headers = vec![(0u64, 1u32), (1, 1), (5, 1), (u64::MAX, 5)];
    assert_eq!(find_duplicate(&archive, &headers, &[7, 7]), Some(1));
    assert_eq!(find_duplicate(&archive, &headers, &[7, 7, 7]), Some(5));
    assert_eq!(find_duplicate(&archive, &headers, &[9, 7]), Some(0));
    assert_eq!(find_duplicate(&archive, &headers, &[8]), None);
    assert_eq!(find_duplicate(&archive, &Vec::new(), &[7]), None);
    assert_eq!(find_duplicate(&archive, &headers, &[]), Some(0));
}

#[test]
fn percentage_is_at_most_a_hundred() {
    assert_eq!(PercentageInteger::new(0).map(|p| p.get()), Some(0));
    assert_eq!(PercentageInteger::new(100).map(|p| p.get()), Some(100));
    assert_eq!(PercentageInteger::new(101), None);
    assert_eq!(PercentageInteger::new(255), None);
}

#[test]
fn engine_without_obfuscation_changes_nothing() {
    let engine = NoObfuscation;
    assert_eq!(engine.obfuscating_header_size(), 0);
    assert_eq!(engine.obfuscating_header(0x1234), Vec::<u8>::new());
    assert_eq!(engine.deobfuscate_crc32(0xDEADBEEF), 0xDEADBEEF);
    let header = LocalFileHeader::new("a").unwrap();
    assert_eq!(engine.obfuscate_local_file_header(header.clone()), header);
    let record = end_of_central_directory(1, 2, 3);
    assert_eq!(engine.obfuscate_end_of_central_directory(record), record);
    let mut settings = SquashZipSettings {
        zopfli_iterations: 20,
        store_squash_time: true,
        enable_obfuscation: false,
        enable_deduplication: true,
        enable_size_increasing_obfuscation: true,
        percentage_of_records_tuned_for_obfuscation_discretion: PercentageInteger::new(7).unwrap(),
        workaround_old_java_obfuscation_quirks: true,
        spool_buffer_size: 1,
    };
    assert_eq!(NoObfuscation::from_squash_zip_settings(&settings), Some(NoObfuscation));
    settings.enable_obfuscation = true;
    assert_eq!(NoObfuscation::from_squash_zip_settings(&settings), None);
}
