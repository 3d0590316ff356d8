//! Choosing how the bytes of a file are stored.
//!
//! A file is stored deflated if that makes it smaller, and as it is
//! otherwise. Deflating is done by Zopfli, which trades time for size: the
//! more iterations it is given, the smaller its output tends to be.

use std::num::NonZeroU64;
use vstd::prelude::*;
use vstd::utf8::encode_utf8;
use crate::byte_order::write_bytes;
use crate::error::{IoFailure, SquashZipError};
use crate::iterations::zopfli_iterations;
use crate::settings::SquashZipSettings;
use crate::system_time_sanitizer::{sanitized, SystemTimeSanitizer, MAXIMUM_TIME};
use crate::zip_file_record::{CompressionMethod, LocalFileHeader, LocalFileHeaderView};

verus! {

/// The biggest number of bytes that an entry can hold.
pub const MAXIMUM_FILE_SIZE: u32 = 0xFFFF_FFFF;

/// The polynomial of the CRC-32 of IEEE 802.3, its bits in reverse order.
pub const CRC32_POLYNOMIAL: u32 = 0xEDB8_8320;

/// The register of the CRC-32 after one more bit: shifted by one place,
/// and combined with the polynomial if a one was shifted out.
pub open spec fn crc32_shift(register: u32) -> u32 {
    if register & 1 == 1 {
        (register >> 1) ^ CRC32_POLYNOMIAL
    } else {
        register >> 1
    }
}

/// The register of the CRC-32 after one more byte: the byte is combined
/// with the lowest bits, and the register shifted eight times.
pub open spec fn crc32_byte(register: u32, byte: u8) -> u32 {
    crc32_shift(
        crc32_shift(
            crc32_shift(
                crc32_shift(
                    crc32_shift(crc32_shift(crc32_shift(crc32_shift(register ^ byte as u32)))),
                ),
            ),
        ),
    )
}

/// The register of the CRC-32 after the bytes of `data`, which starts with
/// all bits set.
pub open spec fn crc32_register(data: Seq<u8>) -> u32
    decreases data.len(),
{
    if data.len() == 0 {
        0xFFFF_FFFF
    } else {
        crc32_byte(crc32_register(data.drop_last()), data.last())
    }
}

/// The CRC-32 checksum (IEEE 802.3) of `data`: the register after its
/// bytes, with every bit flipped.
pub open spec fn crc32_checksum(data: Seq<u8>) -> u32 {
    crc32_register(data) ^ 0xFFFF_FFFF
}

/// The checksum of the three letters "abc" is the one that every
/// implementation of the CRC-32 gives for them.
pub proof fn lemma_crc32_of_abc()
    ensures
        crc32_checksum(seq![0x61u8, 0x62u8, 0x63u8]) == 0x3524_41C2,
{
    let abc = seq![0x61u8, 0x62u8, 0x63u8];
    let ab = seq![0x61u8, 0x62u8];
    let a = seq![0x61u8];
    assert(abc.drop_last() =~= ab);
    assert(ab.drop_last() =~= a);
    assert(a.drop_last() =~= Seq::<u8>::empty());
    assert(crc32_register(a.drop_last()) == 0xFFFF_FFFF);
    assert(crc32_byte(0xFFFF_FFFF, 0x61) == 0x1748_41BC) by (bit_vector);
    assert(crc32_byte(0x1748_41BC, 0x62) == 0x617C_B792) by (bit_vector);
    assert(crc32_byte(0x617C_B792, 0x63) == 0xCADB_BE3D) by (bit_vector);
    assert(0xCADB_BE3Du32 ^ 0xFFFF_FFFF == 0x3524_41C2) by (bit_vector);
    assert(crc32_register(a) == 0x1748_41BC);
    assert(crc32_register(ab) == 0x617C_B792);
    assert(crc32_register(abc) == 0xCADB_BE3D);
}

/// Computes a checksum with `crc32fast::hash`, which gives the CRC-32
/// (IEEE 802.3) of the bytes.
#[verifier::external_body]
fn crc32(data: &[u8]) -> (checksum: u32)
    ensures
        checksum == crc32_checksum(data@),
{
    crc32fast::hash(data)
}

/// Deflates `data` with `zopfli::compress`, in the raw Deflate format and
/// with `iterations` iterations, the other options being the defaults of
/// the crate. Gives the compressed bytes, and always gives some: the
/// compressor makes no error of its own but hands on those of its reader
/// and its sink, and neither reading from a slice nor writing to a vector
/// fails. Nothing is claimed about the bytes themselves, which depend on
/// how the platform rounds logarithms.
#[verifier::external_body]
fn zopfli_deflate(data: &[u8], iterations: u8) -> (deflated: Option<Vec<u8>>)
    requires
        data@.len() >= 1,
        iterations >= 1,
    ensures
        deflated.is_some(),
{
    let options = zopfli::Options {
        iteration_count: NonZeroU64::new(u64::from(iterations))?,
        ..zopfli::Options::default()
    };
    let mut deflated = Vec::new();
    zopfli::compress(options, zopfli::Format::Deflate, data, &mut deflated).ok()?;
    Some(deflated)
}

/// The bytes of all `chunks`, one chunk after the other.
pub open spec fn concatenation(chunks: Seq<Vec<u8>>) -> Seq<u8>
    decreases chunks.len(),
{
    if chunks.len() == 0 {
        Seq::<u8>::empty()
    } else {
        concatenation(chunks.drop_last()) + chunks.last()@
    }
}

/// The size of a file of `size` bytes after `chunk_length` more bytes.
///
/// A chunk that alone is too long for a 32-bit count is an `Overflow`; a
/// file that grows beyond 4 GiB is `FileTooBig`.
pub open spec fn grown_size(size: u32, chunk_length: int) -> Result<u32, SquashZipError> {
    if chunk_length > u32::MAX {
        Err(SquashZipError::Overflow)
    } else if size + chunk_length > MAXIMUM_FILE_SIZE {
        Err(SquashZipError::FileTooBig)
    } else {
        Ok((size + chunk_length) as u32)
    }
}

/// The size of a file that is made of `chunks`, or the error of the first
/// chunk with which it cannot grow.
pub open spec fn total_size(chunks: Seq<Vec<u8>>) -> Result<u32, SquashZipError>
    decreases chunks.len(),
{
    if chunks.len() == 0 {
        Ok(0)
    } else {
        match total_size(chunks.drop_last()) {
            Err(error) => Err(error),
            Ok(size) => grown_size(size, chunks.last()@.len() as int),
        }
    }
}

/// Adds the length of one more chunk to the size of a file.
pub fn grow_size(size: u32, chunk_length: usize) -> (grown: Result<u32, SquashZipError>)
    ensures
        grown == grown_size(size, chunk_length as int),
{
    if chunk_length > u32::MAX as usize {
        return Err(SquashZipError::Overflow);
    }
    match size.checked_add(chunk_length as u32) {
        Some(grown) => Ok(grown),
        None => Err(SquashZipError::FileTooBig),
    }
}

/// Gathers the chunks of a file into one buffer, which is made with room
/// for `estimated_file_size` bytes. Fails as `total_size` says.
pub fn spool(processed_data: &Vec<Vec<u8>>, estimated_file_size: usize) -> (spooled: Result<
    Vec<u8>,
    SquashZipError,
>)
    ensures
        match spooled {
            Ok(data) => total_size(processed_data@) == Ok::<u32, SquashZipError>(
                data@.len() as u32,
            ) && data@ == concatenation(processed_data@) && data@.len() <= MAXIMUM_FILE_SIZE,
            Err(error) => total_size(processed_data@) == Err::<u32, SquashZipError>(error),
        },
{
    let mut data: Vec<u8> = Vec::with_capacity(estimated_file_size);
    let mut size: u32 = 0;
    let mut i: usize = 0;
    assert(processed_data@.subrange(0, 0) =~= Seq::<Vec<u8>>::empty());
    while i < processed_data.len()
        invariant
            i <= processed_data@.len(),
            total_size(processed_data@.subrange(0, i as int)) == Ok::<u32, SquashZipError>(size),
            data@ == concatenation(processed_data@.subrange(0, i as int)),
            data@.len() == size,
        decreases processed_data@.len() - i,
    {
        let chunk = &processed_data[i];
        proof {
            let next = processed_data@.subrange(0, i + 1);
            assert(next.drop_last() =~= processed_data@.subrange(0, i as int));
            assert(next.last() == processed_data@[i as int]);
            if i + 1 < processed_data@.len() {
                lemma_total_size_prefix(processed_data@, i + 1);
            } else {
                assert(next =~= processed_data@);
            }
        }
        size = grow_size(size, chunk.len())?;
        write_bytes(&mut data, chunk.as_slice());
        i = i + 1;
    }
    assert(processed_data@.subrange(0, i as int) =~= processed_data@);
    Ok(data)
}

/// A file cannot grow past an error: if its first `count` chunks cannot be
/// sized, neither can all of them, for the same reason.
pub proof fn lemma_total_size_prefix(chunks: Seq<Vec<u8>>, count: int)
    requires
        0 <= count <= chunks.len(),
    ensures
        total_size(chunks.subrange(0, count)) matches Err(error) ==> total_size(chunks) == Err::<
            u32,
            SquashZipError,
        >(error),
    decreases chunks.len() - count,
{
    if count < chunks.len() {
        let longer = chunks.subrange(0, count + 1);
        assert(longer.drop_last() =~= chunks.subrange(0, count));
        lemma_total_size_prefix(chunks, count + 1);
    } else {
        assert(chunks.subrange(0, count) =~= chunks);
    }
}

/// Whether a file is stored without an attempt to deflate it: when the
/// caller asks so, when no iterations are configured, or when the file is
/// empty.
pub open spec fn stored_outright(
    skip_compression: bool,
    configured_iterations: u8,
    size: int,
) -> bool {
    skip_compression || configured_iterations == 0 || size == 0
}

/// How `data` is stored once the compressor has answered with `deflated`:
/// deflated if the compressed bytes are fewer than the file's, and as it is
/// otherwise. No answer is a failure of the compressor.
pub open spec fn chosen_representation(data: Seq<u8>, deflated: Option<Seq<u8>>) -> Result<
    (CompressionMethod, Seq<u8>),
    SquashZipError,
> {
    match deflated {
        None => Err(SquashZipError::Io(IoFailure::Compressor)),
        Some(compressed) => if compressed.len() < data.len() {
            Ok((CompressionMethod::Deflate, compressed))
        } else {
            Ok((CompressionMethod::Store, data))
        },
    }
}

/// Chooses between a file's bytes and what the compressor made of them.
pub fn choose_representation(data: Vec<u8>, deflated: Option<Vec<u8>>) -> (chosen: Result<
    (CompressionMethod, Vec<u8>),
    SquashZipError,
>)
    ensures
        match chosen {
            Ok((method, payload)) => chosen_representation(
                data@,
                match deflated {
                    Some(compressed) => Some(compressed@),
                    None => None,
                },
            ) == Ok::<(CompressionMethod, Seq<u8>), SquashZipError>((method, payload@)),
            Err(error) => deflated.is_none() && error == SquashZipError::Io(
                IoFailure::Compressor,
            ),
        },
{
    match deflated {
        None => Err(SquashZipError::Io(IoFailure::Compressor)),
        Some(compressed) => if compressed.len() < data.len() {
            Ok((CompressionMethod::Deflate, compressed))
        } else {
            Ok((CompressionMethod::Store, data))
        },
    }
}

/// The outcome of processing one file: its checksum, its size, and the
/// payload that stands for it in the archive.
pub struct CompressedFile {
    pub compression_method: CompressionMethod,
    pub crc32: u32,
    pub uncompressed_size: u32,
    pub payload: Vec<u8>,
}

impl CompressedFile {
    /// Whether this is a possible outcome for a file with the bytes `data`:
    /// the checksum and the size are those of `data`, and the payload is
    /// either `data` itself, stored, or fewer bytes than `data`, deflated.
    pub open spec fn represents(&self, data: Seq<u8>) -> bool {
        &&& self.crc32 == crc32_checksum(data)
        &&& self.uncompressed_size == data.len()
        &&& self.payload@.len() <= data.len()
        &&& match self.compression_method {
            CompressionMethod::Store => self.payload@ == data,
            CompressionMethod::Deflate => self.payload@.len() < data.len(),
        }
    }
}

/// Processes the bytes of one file: computes their checksum and chooses
/// their representation.
///
/// The bytes are stored as they are when `stored_outright` says so, and
/// then the outcome is fully determined. Otherwise Zopfli is run with the
/// number of iterations that the file is worth, and its answer decides
/// between deflating and storing. Always succeeds.
pub fn compress(data: Vec<u8>, skip_compression: bool, configured_iterations: u8) -> (compressed:
    Result<CompressedFile, SquashZipError>)
    requires
        data@.len() <= MAXIMUM_FILE_SIZE,
    ensures
        compressed.is_ok(),
        compressed matches Ok(file) ==> {
            &&& file.represents(data@)
            &&& stored_outright(skip_compression, configured_iterations, data@.len() as int)
                ==> file.compression_method == CompressionMethod::Store
        },
{
    let checksum = crc32(data.as_slice());
    let size = data.len() as u32;
    if skip_compression || configured_iterations == 0 || size == 0 {
        return Ok(
            CompressedFile {
                compression_method: CompressionMethod::Store,
                crc32: checksum,
                uncompressed_size: size,
                payload: data,
            },
        );
    }
    let deflated = zopfli_deflate(data.as_slice(), zopfli_iterations(size, configured_iterations));
    let (compression_method, payload) = choose_representation(data, deflated)?;
    Ok(CompressedFile { compression_method, crc32: checksum, uncompressed_size: size, payload })
}

/// Why a file at `path` with the chunks `processed_data` cannot be added
/// at all, if it cannot: its path is too long for a header, or its size
/// cannot be told.
pub open spec fn preparation_failure(path: Seq<char>, processed_data: Seq<Vec<u8>>) -> Option<
    SquashZipError,
> {
    if encode_utf8(path).len() > 0xFFFF {
        Some(SquashZipError::Overflow)
    } else {
        match total_size(processed_data) {
            Err(error) => Some(error),
            Ok(_) => None,
        }
    }
}

/// The squash time of a file that is added without one.
pub open spec fn no_squash_time() -> Seq<u8> {
    seq![0u8, 0u8, 0u8, 0u8]
}

/// The bytes that are stored as the squash time of a file with the CRC-32
/// `crc32` that was processed at `squash_time`: the sanitized time, or
/// zeros if the settings say to store none.
pub open spec fn stored_squash_time(
    settings: SquashZipSettings,
    sanitizer_key: Seq<u8>,
    squash_time: u64,
    crc32: u32,
) -> Seq<u8> {
    if settings.store_squash_time {
        sanitized(sanitizer_key, squash_time as u32, crc32)
    } else {
        no_squash_time()
    }
}

/// Whether `header` and `payload` are a possible outcome of processing the
/// file at `path` with the chunks `processed_data`.
///
/// The header carries the path, the stored squash time, and the CRC-32 and
/// the size of the file's bytes. The payload is the file's bytes, stored,
/// or fewer bytes than the file has, deflated; it is the file's bytes
/// where no compression is attempted.
pub open spec fn processed_as(
    settings: SquashZipSettings,
    sanitizer_key: Seq<u8>,
    path: Seq<char>,
    processed_data: Seq<Vec<u8>>,
    skip_compression: bool,
    squash_time: u64,
    header: LocalFileHeaderView,
    payload: Seq<u8>,
) -> bool {
    let data = concatenation(processed_data);
    &&& header.wf()
    &&& header.file_name == encode_utf8(path)
    &&& header.squash_time == stored_squash_time(
        settings,
        sanitizer_key,
        squash_time,
        header.crc32,
    )
    &&& header.crc32 == crc32_checksum(data)
    &&& header.uncompressed_size == data.len()
    &&& header.compressed_size == payload.len()
    &&& match header.compression_method {
        CompressionMethod::Store => payload == data,
        CompressionMethod::Deflate => payload.len() < data.len(),
    }
    &&& stored_outright(skip_compression, settings.zopfli_iterations, data.len() as int)
        ==> header.compression_method == CompressionMethod::Store
}

/// Why the file at `path` with the chunks `processed_data` cannot be
/// processed, if it cannot: preparation fails, or the squash time is to be
/// stored but does not fit four bytes.
pub open spec fn processing_failure(
    settings: SquashZipSettings,
    path: Seq<char>,
    processed_data: Seq<Vec<u8>>,
    squash_time: u64,
) -> Option<SquashZipError> {
    match preparation_failure(path, processed_data) {
        Some(failure) => Some(failure),
        None => if settings.store_squash_time && squash_time > MAXIMUM_TIME {
            Some(SquashZipError::SystemTimeSanitizationError)
        } else {
            None
        },
    }
}

/// Processes a file for an archive: gathers its chunks, computes their
/// checksum, chooses between storing and deflating them, and makes the
/// local file header.
///
/// No compression is attempted where `skip_compression` is set, where
/// the settings ask for zero iterations, or where the file is empty.
/// `squash_time` is the time of processing, in seconds since the Unix
/// epoch; it is not used where the settings say to store no squash time.
///
/// Fails if and only if `processing_failure` names an error, and then with
/// that error.
pub fn compress_and_generate_local_header(
    settings: &SquashZipSettings,
    sanitizer: &SystemTimeSanitizer,
    path: &str,
    processed_data: &Vec<Vec<u8>>,
    skip_compression: bool,
    estimated_file_size: usize,
    squash_time: u64,
) -> (processed: Result<(LocalFileHeader, Vec<u8>), SquashZipError>)
    ensures
        match processed {
            Ok((header, payload)) => {
                &&& processing_failure(*settings, path@, processed_data@, squash_time).is_none()
                &&& processed_as(
                    *settings,
                    sanitizer.key(),
                    path@,
                    processed_data@,
                    skip_compression,
                    squash_time,
                    header@,
                    payload@,
                )
            },
            Err(error) => processing_failure(*settings, path@, processed_data@, squash_time)
                == Some(error),
        },
{
    let mut local_file_header = LocalFileHeader::new(path)?;
    let data = spool(processed_data, estimated_file_size)?;
    let file = compress(data, skip_compression, settings.zopfli_iterations)?;
    local_file_header.compression_method = file.compression_method;
    local_file_header.crc32 = file.crc32;
    local_file_header.uncompressed_size = file.uncompressed_size;
    local_file_header.compressed_size = file.payload.len() as u32;
    if settings.store_squash_time {
        local_file_header.squash_time = sanitizer.sanitize(squash_time, file.crc32)?;
    }
    Ok((local_file_header, file.payload))
}

} // verus!
