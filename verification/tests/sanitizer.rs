use aes::cipher::{Array, BlockCipherEncrypt, KeyInit};
use aes::Aes128;
use squash_zip::error::SquashZipError;
use squash_zip::system_time_sanitizer::{SystemTimeSanitizer, MAXIMUM_TIME, ROUNDS};

/// The ten rounds of the network, written down once more with the cipher
/// called directly.
fn expected(key: [u8; 16], seconds: u32, tweak: u32) -> [u8; 4] {
    let cipher = Aes128::new(&Array::from(key));
    let mut left = (seconds >> 16) as u16;
    let mut right = seconds as u16;
    for round in 0..10u8 {
        let mut block = [0u8; 16];
        block[0] = round;
        block[1..3].copy_from_slice(&right.to_le_bytes());
        block[3..7].copy_from_slice(&tweak.to_le_bytes());
        let mut buffer = Array::from(block);
        cipher.encrypt_block(&mut buffer);
        let mask = u16::from_le_bytes([buffer[0], buffer[1]]);
        let mixed = left ^ mask;
        left = right;
        right = mixed;
    }
    (((left as u32) << 16) | right as u32).to_le_bytes()
}

#[test]
fn sanitized_time_is_read_back() {
    let keys = [[0u8; 16], [0xFF; 16], [1, 2, 3, 4, 5, 6, 7, 8, 9, 10, 11, 12, 13, 14, 15, 16]];
    let times = [0u64, 1, 0xFFFF, 0x1_0000, 1_600_000_000, 1_700_000_000, 0xFFFF_FFFE, 0xFFFF_FFFF];
    let tweaks = [0u32, 1, 0x352441C2, 0xFFFF_FFFF];
    for key in keys {
        let sanitizer = SystemTimeSanitizer::new(key);
        for time in times {
            for tweak in tweaks {
                let stored = sanitizer.sanitize(time, tweak).unwrap();
                assert_eq!(sanitizer.desanitize(&stored, tweak), time);
            }
        }
    }
}

#[test]
fn stored_bytes_are_read_as_the_time_they_were_made_from() {
    let sanitizer = SystemTimeSanitizer::new([9; 16]);
    for stored in [[0u8; 4], [1, 0, 0, 0], [0xFF; 4], [0x12, 0x34, 0x56, 0x78]] {
        let time = sanitizer.desanitize(&stored, 77);
        assert!(time <= MAXIMUM_TIME);
        assert_eq!(sanitizer.sanitize(time, 77), Ok(stored));
    }
}

#[test]
fn time_beyond_four_bytes_cannot_be_sanitized() {
    let sanitizer = SystemTimeSanitizer::new([0; 16]);
    assert_eq!(MAXIMUM_TIME, 0xFFFF_FFFF);
    assert!(sanitizer.sanitize(MAXIMUM_TIME, 0).is_ok());
    assert_eq!(
        sanitizer.sanitize(MAXIMUM_TIME + 1, 0),
        Err(SquashZipError::SystemTimeSanitizationError)
    );
    assert_eq!(sanitizer.sanitize(u64::MAX, 5), Err(SquashZipError::SystemTimeSanitizationError));
}

#[test]
fn sanitized_time_is_the_output_of_the_network() {
    assert_eq!(ROUNDS, 10);
    let key = [0x2B, 0x7E, 0x15, 0x16, 0x28, 0xAE, 0xD2, 0xA6, 0xAB, 0xF7, 0x15, 0x88, 0x09, 0xCF, 0x4F, 0x3C];
    let sanitizer = SystemTimeSanitizer::new(key);
    for (time, tweak) in [(0u32, 0u32), (1_600_000_000, 0x352441C2), (u32::MAX, u32::MAX), (0x0001_0000, 7)] {
        assert_eq!(sanitizer.sanitize(time as u64, tweak), Ok(expected(key, time, tweak)));
    }
}

#[test]
fn sanitized_time_hides_the_time() {
    let sanitizer = SystemTimeSanitizer::new([5; 16]);
    let first = sanitizer.sanitize(1_600_000_000, 1).unwrap();
    let second = sanitizer.sanitize(1_600_000_000, 2).unwrap();
    let third = sanitizer.sanitize(1_600_000_001, 1).unwrap();
    assert_ne!(first, 1_600_000_000u32.to_le_bytes());
    assert_ne!(first, second);
    assert_ne!(first, third);
    let other = SystemTimeSanitizer::new([6; 16]);
    assert_ne!(other.sanitize(1_600_000_000, 1).unwrap(), first);
    assert_ne!(other.desanitize(&first, 1), 1_600_000_000);
}

#[test]
fn first_round_uses_the_cipher_of_the_standard() {
    // The example of appendix B of FIPS 197: this key encrypts this block
    // to a block that begins with 0x39 0x25.
    let key = [0x2B, 0x7E, 0x15, 0x16, 0x28, 0xAE, 0xD2, 0xA6, 0xAB, 0xF7, 0x15, 0x88, 0x09, 0xCF, 0x4F, 0x3C];
    let block = [0x32, 0x43, 0xF6, 0xA8, 0x88, 0x5A, 0x30, 0x8D, 0x31, 0x31, 0x98, 0xA2, 0xE0, 0x37, 0x07, 0x34];
    let mut buffer = Array::from(block);
    Aes128::new(&Array::from(key)).encrypt_block(&mut buffer);
    assert_eq!(&buffer[..2], &[0x39, 0x25]);
}
