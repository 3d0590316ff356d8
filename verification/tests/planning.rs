use squash_zip::compression::{
    choose_representation, compress, compress_and_generate_local_header, grow_size, spool,
};
use squash_zip::error::{IoFailure, SquashZipError};
use squash_zip::iterations::zopfli_iterations;
use squash_zip::natural::{less_or_equal, multiply_all, scale};
use squash_zip::settings::{PercentageInteger, SquashZipSettings};
use squash_zip::system_time_sanitizer::SystemTimeSanitizer;
use squash_zip::zip_file_record::CompressionMethod;

fn settings(iterations: u8, store_squash_time: bool) -> SquashZipSettings {
    SquashZipSettings {
        zopfli_iterations: iterations,
        store_squash_time,
        enable_obfuscation: false,
        enable_deduplication: false,
        enable_size_increasing_obfuscation: false,
        percentage_of_records_tuned_for_obfuscation_discretion: PercentageInteger::new(100).unwrap(),
        workaround_old_java_obfuscation_quirks: false,
        spool_buffer_size: 64,
    }
}

/// The estimate as a formula in floating point.
fn formula(size: u32, configured: u8) -> u8 {
    let a = 0.004381402f64;
    let b = 0.035055663f64;
    let target = (a * configured as f64 + b) * 16.0;
    let magnitude = (size as f64 / 65536.0).powf(5.0 / 6.0);
    ((target - b * magnitude) / (a * magnitude)).clamp(1.0, 20.0).round() as u8
}

#[test]
fn file_of_five_billion_bytes_is_too_big() {
    // Five chunks of a billion bytes each: the size overflows at the fifth.
    let mut size = 0u32;
    for _ in 0..4 {
        size = grow_size(size, 1_000_000_000).unwrap();
    }
    assert_eq!(size, 4_000_000_000);
    assert_eq!(grow_size(size, 1_000_000_000), Err(SquashZipError::FileTooBig));
    assert_eq!(grow_size(size, 294_967_295), Ok(u32::MAX));
    assert_eq!(grow_size(size, 294_967_296), Err(SquashZipError::FileTooBig));
}

#[test]
fn chunk_beyond_a_32_bit_count_overflows() {
    assert_eq!(grow_size(0, u32::MAX as usize), Ok(u32::MAX));
    if usize::BITS > 32 {
        assert_eq!(grow_size(0, (1u64 << 32) as usize), Err(SquashZipError::Overflow));
        assert_eq!(grow_size(u32::MAX, usize::MAX), Err(SquashZipError::Overflow));
    }
    assert_eq!(grow_size(7, 0), Ok(7));
}

#[test]
fn spooling_concatenates_the_chunks() {
    let chunks = vec![vec![1, 2], Vec::new(), vec![3], vec![4, 5, 6]];
    assert_eq!(spool(&chunks, 0), Ok(vec![1, 2, 3, 4, 5, 6]));
    assert_eq!(spool(&Vec::new(), 100), Ok(Vec::new()));
}

#[test]
fn representation_is_the_smaller_of_both() {
    assert_eq!(
        choose_representation(vec![1, 2, 3], Some(vec![9, 9])),
        Ok((CompressionMethod::Deflate, vec![9, 9]))
    );
    assert_eq!(
        choose_representation(vec![1, 2, 3], Some(vec![9, 9, 9])),
        Ok((CompressionMethod::Store, vec![1, 2, 3]))
    );
    assert_eq!(
        choose_representation(vec![1, 2, 3], Some(vec![9, 9, 9, 9])),
        Ok((CompressionMethod::Store, vec![1, 2, 3]))
    );
    assert_eq!(
        choose_representation(Vec::new(), Some(Vec::new())),
        Ok((CompressionMethod::Store, Vec::new()))
    );
    assert_eq!(
        choose_representation(vec![1, 2, 3], None),
        Err(SquashZipError::Io(IoFailure::Compressor))
    );
}

#[test]
fn checksum_is_the_crc_32_of_the_bytes() {
    let abc = compress(vec![0x61, 0x62, 0x63], true, 20).unwrap();
    assert_eq!(abc.crc32, 0x352441C2);
    assert_eq!(abc.uncompressed_size, 3);
    assert_eq!(abc.compression_method, CompressionMethod::Store);
    assert_eq!(abc.payload, vec![0x61, 0x62, 0x63]);
    let check = compress(b"123456789".to_vec(), true, 20).unwrap();
    assert_eq!(check.crc32, 0xCBF43926);
    let empty = compress(Vec::new(), false, 20).unwrap();
    assert_eq!(empty.crc32, 0);
    assert_eq!(empty.compression_method, CompressionMethod::Store);
    assert_eq!(empty.payload, Vec::<u8>::new());
}

#[test]
fn deflated_payload_is_a_deflate_stream_of_the_bytes() {
    // Thirty-two equal bytes. Their shortest Deflate stream is one final
    // block with fixed codes: three header bits, the literal 0x61 (code
    // 10010001), a match of length 31 (code 0010000, two extra bits) at
    // distance 1 (code 00000), and the end of block (code 0000000).
    let data = vec![0x61u8; 32];
    let file = compress(data.clone(), false, 20).unwrap();
    assert_eq!(file.compression_method, CompressionMethod::Deflate);
    assert_eq!(file.uncompressed_size, 32);
    assert!(file.payload.len() < 32);
    assert_ne!(file.payload, data);
    assert_eq!(file.payload, vec![0x4B, 0x24, 0x00, 0x00]);
}

#[test]
fn processing_makes_the_header_of_the_file() {
    let sanitizer = SystemTimeSanitizer::new([3; 16]);
    let (header, payload) = compress_and_generate_local_header(
        &settings(20, true),
        &sanitizer,
        "dir/a.txt",
        &vec![vec![0x61, 0x62], vec![0x63]],
        true,
        3,
        1_700_000_000,
    )
    .unwrap();
    assert_eq!(header.file_name, b"dir/a.txt".to_vec());
    assert_eq!(header.crc32, 0x352441C2);
    assert_eq!(header.compressed_size, 3);
    assert_eq!(header.uncompressed_size, 3);
    assert_eq!(header.compression_method, CompressionMethod::Store);
    assert_eq!(header.squash_time, sanitizer.sanitize(1_700_000_000, 0x352441C2).unwrap());
    assert_eq!(sanitizer.desanitize(&header.squash_time, header.crc32), 1_700_000_000);
    assert_eq!(payload, vec![0x61, 0x62, 0x63]);
    let (untimed, _) = compress_and_generate_local_header(
        &settings(20, false),
        &sanitizer,
        "dir/a.txt",
        &vec![vec![0x61, 0x62], vec![0x63]],
        true,
        3,
        u64::MAX,
    )
    .unwrap();
    assert_eq!(untimed.squash_time, [0, 0, 0, 0]);
}

#[test]
fn iterations_follow_the_size_of_the_file() {
    assert_eq!(zopfli_iterations(1, 20), 20);
    assert_eq!(zopfli_iterations(65536, 20), 20);
    assert_eq!(zopfli_iterations(1 << 20, 20), 20);
    assert_eq!(zopfli_iterations(2 << 20, 20), 17);
    assert_eq!(zopfli_iterations(3 << 20, 20), 10);
    assert_eq!(zopfli_iterations(4 << 20, 20), 6);
    assert_eq!(zopfli_iterations(5 << 20, 20), 4);
    assert_eq!(zopfli_iterations(6 << 20, 20), 2);
    assert_eq!(zopfli_iterations(8 << 20, 20), 1);
    assert_eq!(zopfli_iterations(u32::MAX, 20), 1);
    assert_eq!(zopfli_iterations(1 << 20, 1), 6);
    assert_eq!(zopfli_iterations(1 << 20, 5), 13);
    assert_eq!(zopfli_iterations(2 << 20, 5), 4);
    assert_eq!(zopfli_iterations(4 << 20, 15), 3);
    assert_eq!(zopfli_iterations(16 << 20, 64), 3);
    assert_eq!(zopfli_iterations(16 << 20, 255), 20);
    assert_eq!(zopfli_iterations(1 << 30, 255), 1);
}

#[test]
fn iterations_change_where_the_estimate_is_halfway() {
    assert_eq!(zopfli_iterations(1_865_580, 20), 20);
    assert_eq!(zopfli_iterations(1_865_581, 20), 19);
    assert_eq!(zopfli_iterations(3_208_902, 20), 10);
    assert_eq!(zopfli_iterations(3_208_903, 20), 9);
    assert_eq!(zopfli_iterations(6_678_953, 20), 2);
    assert_eq!(zopfli_iterations(6_678_954, 20), 1);
}

#[test]
fn iterations_agree_with_the_formula() {
    let mut state = 0x2545F4914F6CDD1Du64;
    for _ in 0..2000 {
        state ^= state << 13;
        state ^= state >> 7;
        state ^= state << 17;
        let size = (state >> 32) as u32 >> (state % 24) as u32;
        let configured = ((state >> 8) % 255) as u8 + 1;
        if size > 0 {
            assert_eq!(zopfli_iterations(size, configured), formula(size, configured));
        }
    }
}

#[test]
fn big_naturals_multiply_and_compare() {
    assert_eq!(multiply_all(&[]), vec![1]);
    assert_eq!(multiply_all(&[7, 6]), vec![42]);
    assert_eq!(multiply_all(&[0x1_0000, 0x1_0000]), vec![0, 1]);
    assert_eq!(multiply_all(&[u32::MAX, u32::MAX]), vec![1, 0xFFFF_FFFE]);
    assert_eq!(multiply_all(&[u32::MAX, u32::MAX, u32::MAX]), vec![0xFFFF_FFFF, 2, 0xFFFF_FFFD]);
    let mut limbs = vec![0xFFFF_FFFF, 0xFFFF_FFFF];
    scale(&mut limbs, 2);
    assert_eq!(limbs, vec![0xFFFF_FFFE, 0xFFFF_FFFF, 1]);
    scale(&mut limbs, 0);
    assert_eq!(limbs, vec![0, 0, 0]);
    assert!(less_or_equal(vec![5], vec![5]));
    assert!(less_or_equal(vec![4], vec![5]));
    assert!(!less_or_equal(vec![6], vec![5]));
    assert!(less_or_equal(vec![9, 1], vec![0, 2]));
    assert!(!less_or_equal(vec![0, 2], vec![9, 1]));
    assert!(less_or_equal(vec![9], vec![0, 1]));
    assert!(!less_or_equal(vec![0, 1], vec![9]));
    assert!(less_or_equal(vec![3, 0, 0], vec![3]));
    assert!(less_or_equal(vec![], vec![0]));
    assert!(less_or_equal(vec![0, 0], vec![]));
    assert!(!less_or_equal(vec![0, 0, 1], vec![u32::MAX, u32::MAX]));
}
