//! The records of a ZIP file and their byte encodings.
//!
//! Three records make up an archive: a local file header in front of each
//! stored payload, a central directory header for each entry, and the end
//! of central directory record that closes the file. Each record type has
//! a view that holds its fields as mathematical values, and the view's
//! `encoding` is the byte sequence that stands for it in a file.

use vstd::prelude::*;
use vstd::slice::slice_to_vec;
use vstd::utf8::encode_utf8;
use crate::byte_order::{
    le16, le16_bytes, le32, le32_bytes, le64, le64_bytes, lemma_le16_round_trip,
    lemma_le16_subrange, lemma_le32_round_trip, lemma_le32_subrange, lemma_le64_round_trip,
    lemma_le64_subrange, write_bytes, write_u16, write_u32, write_u64,
};
use crate::error::SquashZipError;

verus! {

/// The method field of a stored entry.
pub const STORE_METHOD_FIELD: u16 = 0;

/// The method field of a deflated entry.
pub const DEFLATE_METHOD_FIELD: u16 = 8;

/// The format version needed to read a stored entry: 1.0.
pub const STORE_VERSION: u16 = 10;

/// The format version needed to read a deflated entry: 2.0.
pub const DEFLATE_VERSION: u16 = 20;

/// The format version needed to read ZIP64 extensions: 4.5.
pub const ZIP64_VERSION: u16 = 45;

/// The value written as "version made by" when it is spoofed: a Unix host
/// and format version 3.0.
pub const SPOOFED_VERSION_MADE_BY: u16 = 0x031E;

/// General purpose flags of every record: file names are UTF-8.
pub const GENERAL_PURPOSE_FLAGS: u16 = 0x0800;

/// The value of a 32-bit field whose real value is in a ZIP64 extension.
pub const ZIP64_MARKER_32: u32 = 0xFFFF_FFFF;

/// The value of a 16-bit field whose real value is in a ZIP64 extension.
pub const ZIP64_MARKER_16: u16 = 0xFFFF;

/// The size of a local file header without its file name.
pub const LOCAL_FILE_HEADER_FIXED_SIZE: u32 = 30;

/// The size of a central directory header without its file name and extra
/// field.
pub const CENTRAL_DIRECTORY_HEADER_FIXED_SIZE: u32 = 46;

/// The size of the ZIP64 extra field that holds a local header offset.
pub const ZIP64_EXTRA_FIELD_SIZE: u16 = 12;

/// The size of the end of central directory record.
pub const END_OF_CENTRAL_DIRECTORY_SIZE: u32 = 22;

/// The size of the ZIP64 end of central directory record.
pub const ZIP64_END_OF_CENTRAL_DIRECTORY_SIZE: u32 = 56;

/// The size of the ZIP64 end of central directory locator.
pub const ZIP64_LOCATOR_SIZE: u32 = 20;

/// The value of the size field of a ZIP64 end of central directory record:
/// the size of what follows that field.
pub const ZIP64_RECORD_SIZE_FIELD: u64 = 44;

/// The four bytes that open a local file header.
pub open spec fn local_file_header_signature() -> Seq<u8> {
    seq![0x50u8, 0x4Bu8, 0x03u8, 0x04u8]
}

/// The four bytes that open a central directory header.
pub open spec fn central_directory_header_signature() -> Seq<u8> {
    seq![0x50u8, 0x4Bu8, 0x01u8, 0x02u8]
}

/// The four bytes that open the end of central directory record.
pub open spec fn end_of_central_directory_signature() -> Seq<u8> {
    seq![0x50u8, 0x4Bu8, 0x05u8, 0x06u8]
}

/// The four bytes that open the ZIP64 end of central directory record.
pub open spec fn zip64_end_of_central_directory_signature() -> Seq<u8> {
    seq![0x50u8, 0x4Bu8, 0x06u8, 0x06u8]
}

/// The four bytes that open the ZIP64 end of central directory locator.
pub open spec fn zip64_locator_signature() -> Seq<u8> {
    seq![0x50u8, 0x4Bu8, 0x06u8, 0x07u8]
}

/// The two-byte tag of a ZIP64 extended information extra field.
pub open spec fn zip64_extra_field_tag() -> Seq<u8> {
    seq![0x01u8, 0x00u8]
}

/// The ways a payload can be stored in a ZIP file.
#[derive(Clone, Copy, Debug, PartialEq, Eq, Structural)]
pub enum CompressionMethod {
    /// The payload is the file's bytes.
    Store,
    /// The payload is a Deflate stream of the file's bytes.
    Deflate,
}

impl CompressionMethod {
    /// The value of the method field that stands for this method.
    pub open spec fn field(self) -> u16 {
        match self {
            CompressionMethod::Store => STORE_METHOD_FIELD,
            CompressionMethod::Deflate => DEFLATE_METHOD_FIELD,
        }
    }

    /// The format version a reader needs for this method.
    pub open spec fn version_needed(self) -> u16 {
        match self {
            CompressionMethod::Store => STORE_VERSION,
            CompressionMethod::Deflate => DEFLATE_VERSION,
        }
    }

    /// What a method field with value `raw` stands for.
    pub open spec fn of_field(raw: u16) -> Result<CompressionMethod, SquashZipError> {
        if raw == STORE_METHOD_FIELD {
            Ok(CompressionMethod::Store)
        } else if raw == DEFLATE_METHOD_FIELD {
            Ok(CompressionMethod::Deflate)
        } else {
            Err(SquashZipError::UnknownCompressionMethod(raw))
        }
    }

    /// The value of the method field that stands for this method: 0 for
    /// Store and 8 for Deflate.
    pub fn to_compression_method_field(self) -> (raw: u16)
        ensures
            raw == self.field(),
            CompressionMethod::of_field(raw) == Ok::<CompressionMethod, SquashZipError>(self),
    {
        match self {
            CompressionMethod::Store => STORE_METHOD_FIELD,
            CompressionMethod::Deflate => DEFLATE_METHOD_FIELD,
        }
    }

    /// Reads a method field: 0 is Store, 8 is Deflate, and any other value
    /// is refused with `UnknownCompressionMethod`.
    pub fn from_compression_method_field(raw: u16) -> (method: Result<Self, SquashZipError>)
        ensures
            method == CompressionMethod::of_field(raw),
    {
        if raw == STORE_METHOD_FIELD {
            Ok(CompressionMethod::Store)
        } else if raw == DEFLATE_METHOD_FIELD {
            Ok(CompressionMethod::Deflate)
        } else {
            Err(SquashZipError::UnknownCompressionMethod(raw))
        }
    }

    fn version_needed_to_extract(self) -> (version: u16)
        ensures
            version == self.version_needed(),
    {
        match self {
            CompressionMethod::Store => STORE_VERSION,
            CompressionMethod::Deflate => DEFLATE_VERSION,
        }
    }
}

/// Appends the four bytes of a squash time.
fn write_squash_time(out: &mut Vec<u8>, squash_time: &[u8; 4])
    ensures
        final(out)@ == old(out)@ + squash_time@,
{
    out.push(squash_time[0]);
    out.push(squash_time[1]);
    out.push(squash_time[2]);
    out.push(squash_time[3]);
    assert(out@ =~= old(out)@ + squash_time@);
}

/// The fields of a local file header as mathematical values.
pub struct LocalFileHeaderView {
    pub compression_method: CompressionMethod,
    pub squash_time: Seq<u8>,
    pub crc32: u32,
    pub compressed_size: u32,
    pub uncompressed_size: u32,
    pub file_name: Seq<u8>,
}

impl LocalFileHeaderView {
    /// The squash time has four bytes and the length of the file name fits
    /// its 16-bit field.
    pub open spec fn wf(self) -> bool {
        &&& self.squash_time.len() == 4
        &&& self.file_name.len() <= 0xFFFF
    }

    /// The number of bytes of the encoding.
    pub open spec fn size(self) -> int {
        LOCAL_FILE_HEADER_FIXED_SIZE + self.file_name.len()
    }

    /// The thirty bytes in front of the file name.
    #[verifier::opaque]
    pub open spec fn fixed_part(self) -> Seq<u8> {
        local_file_header_signature()
            + le16_bytes(self.compression_method.version_needed())
            + le16_bytes(GENERAL_PURPOSE_FLAGS)
            + le16_bytes(self.compression_method.field())
            + self.squash_time
            + le32_bytes(self.crc32)
            + le32_bytes(self.compressed_size)
            + le32_bytes(self.uncompressed_size)
            + le16_bytes(self.file_name.len() as u16)
            + le16_bytes(0)
    }

    /// The bytes that stand for this header in a file: signature, version
    /// needed, flags, method, squash time, CRC, compressed size,
    /// uncompressed size, file name length, a zero extra field length, and
    /// the file name.
    pub open spec fn encoding(self) -> Seq<u8> {
        self.fixed_part() + self.file_name
    }

    /// Where the fields that a reader relies on stand in the encoding.
    pub proof fn lemma_layout(self)
        requires
            self.wf(),
        ensures
            self.encoding().len() == self.size(),
            self.encoding().subrange(0, 4) == local_file_header_signature(),
            le32(self.encoding(), 18) == self.compressed_size,
            le16(self.encoding(), 26) == self.file_name.len(),
            le16(self.encoding(), 28) == 0,
    {
        reveal(LocalFileHeaderView::fixed_part);
        let e = self.encoding();
        let f = self.fixed_part();
        assert(f.len() == 30);
        assert(e.subrange(0, 4) =~= local_file_header_signature());
        assert(e.subrange(18, 22) =~= le32_bytes(self.compressed_size));
        assert(e.subrange(26, 28) =~= le16_bytes(self.file_name.len() as u16));
        assert(e.subrange(28, 30) =~= le16_bytes(0));
        lemma_le32_subrange(e, 18);
        lemma_le16_subrange(e, 26);
        lemma_le16_subrange(e, 28);
        lemma_le32_round_trip(self.compressed_size);
        lemma_le16_round_trip(self.file_name.len() as u16);
        lemma_le16_round_trip(0);
    }
}

/// A local file header: the record that stands in front of each payload.
#[derive(Clone, Debug, PartialEq, Eq)]
pub struct LocalFileHeader {
    pub compression_method: CompressionMethod,
    pub squash_time: [u8; 4],
    pub crc32: u32,
    pub compressed_size: u32,
    pub uncompressed_size: u32,
    pub file_name: Vec<u8>,
}

impl View for LocalFileHeader {
    type V = LocalFileHeaderView;

    open spec fn view(&self) -> LocalFileHeaderView {
        LocalFileHeaderView {
            compression_method: self.compression_method,
            squash_time: self.squash_time@,
            crc32: self.crc32,
            compressed_size: self.compressed_size,
            uncompressed_size: self.uncompressed_size,
            file_name: self.file_name@,
        }
    }
}

impl LocalFileHeader {
    /// The header that `new` makes for a file name with these bytes: a
    /// stored, empty entry with a zero squash time.
    pub open spec fn fresh(file_name: Seq<u8>) -> LocalFileHeaderView {
        LocalFileHeaderView {
            compression_method: CompressionMethod::Store,
            squash_time: seq![0u8, 0u8, 0u8, 0u8],
            crc32: 0,
            compressed_size: 0,
            uncompressed_size: 0,
            file_name,
        }
    }

    /// Makes the header of a stored, empty entry named `file_name`. Fails
    /// with `Overflow` if and only if the name is longer than 65535 bytes.
    pub fn new(file_name: &str) -> (made: Result<Self, SquashZipError>)
        ensures
            match made {
                Ok(header) => {
                    &&& encode_utf8(file_name@).len() <= 0xFFFF
                    &&& header@ == Self::fresh(encode_utf8(file_name@))
                    &&& header@.wf()
                },
                Err(error) => {
                    &&& encode_utf8(file_name@).len() > 0xFFFF
                    &&& error == SquashZipError::Overflow
                },
            },
    {
        let name_bytes = file_name.as_bytes();
        if name_bytes.len() > 0xFFFF {
            return Err(SquashZipError::Overflow);
        }
        let squash_time: [u8; 4] = [0u8; 4];
        assert(squash_time@ =~= seq![0u8, 0u8, 0u8, 0u8]);
        Ok(
            LocalFileHeader {
                compression_method: CompressionMethod::Store,
                squash_time,
                crc32: 0,
                compressed_size: 0,
                uncompressed_size: 0,
                file_name: slice_to_vec(name_bytes),
            },
        )
    }

    /// The number of bytes that `write` appends.
    pub fn size(&self) -> (size: u32)
        requires
            self@.wf(),
        ensures
            size == self@.size(),
    {
        LOCAL_FILE_HEADER_FIXED_SIZE + self.file_name.len() as u32
    }

    /// The encoding of this header.
    pub fn encode(&self) -> (bytes: Vec<u8>)
        requires
            self@.wf(),
        ensures
            bytes@ == self@.encoding(),
    {
        reveal(LocalFileHeaderView::fixed_part);
        let mut bytes: Vec<u8> = Vec::new();
        bytes.push(0x50);
        bytes.push(0x4B);
        bytes.push(0x03);
        bytes.push(0x04);
        assert(bytes@ =~= local_file_header_signature());
        write_u16(&mut bytes, self.compression_method.version_needed_to_extract());
        write_u16(&mut bytes, GENERAL_PURPOSE_FLAGS);
        write_u16(&mut bytes, self.compression_method.to_compression_method_field());
        write_squash_time(&mut bytes, &self.squash_time);
        write_u32(&mut bytes, self.crc32);
        write_u32(&mut bytes, self.compressed_size);
        write_u32(&mut bytes, self.uncompressed_size);
        write_u16(&mut bytes, self.file_name.len() as u16);
        write_u16(&mut bytes, 0);
        write_bytes(&mut bytes, self.file_name.as_slice());
        bytes
    }

    /// Appends the encoding of this header.
    pub fn write(&self, out: &mut Vec<u8>)
        requires
            self@.wf(),
        ensures
            final(out)@ == old(out)@ + self@.encoding(),
    {
        let bytes = self.encode();
        write_bytes(out, bytes.as_slice());
    }
}

/// The fields of a central directory header as mathematical values.
pub struct CentralDirectoryHeaderView {
    pub compression_method: CompressionMethod,
    pub squash_time: Seq<u8>,
    pub crc32: u32,
    pub compressed_size: u32,
    pub uncompressed_size: u32,
    pub local_header_disk_number: u16,
    pub local_header_offset: u64,
    pub file_name: Seq<u8>,
    pub spoof_version_made_by: bool,
}

impl CentralDirectoryHeaderView {
    /// The squash time has four bytes and the length of the file name fits
    /// its 16-bit field.
    pub open spec fn wf(self) -> bool {
        &&& self.squash_time.len() == 4
        &&& self.file_name.len() <= 0xFFFF
    }

    /// Whether the local header offset is too big for its 32-bit field and
    /// stands in a ZIP64 extra field instead.
    pub open spec fn needs_zip64(self) -> bool {
        self.local_header_offset >= ZIP64_MARKER_32
    }

    /// The format version a reader needs for this entry.
    pub open spec fn version_needed(self) -> u16 {
        if self.needs_zip64() {
            ZIP64_VERSION
        } else {
            self.compression_method.version_needed()
        }
    }

    /// The value of the "version made by" field.
    pub open spec fn version_made_by(self) -> u16 {
        if self.spoof_version_made_by {
            SPOOFED_VERSION_MADE_BY
        } else {
            self.version_needed()
        }
    }

    /// The value of the 32-bit local header offset field.
    pub open spec fn offset_field(self) -> u32 {
        if self.needs_zip64() {
            ZIP64_MARKER_32
        } else {
            self.local_header_offset as u32
        }
    }

    /// The extra field: empty, or the twelve bytes of a ZIP64 extended
    /// information field with the local header offset.
    #[verifier::opaque]
    pub open spec fn extra_field(self) -> Seq<u8> {
        if self.needs_zip64() {
            zip64_extra_field_tag() + le16_bytes(8) + le64_bytes(self.local_header_offset)
        } else {
            Seq::<u8>::empty()
        }
    }

    /// The number of bytes of the encoding.
    pub open spec fn size(self) -> int {
        CENTRAL_DIRECTORY_HEADER_FIXED_SIZE + self.file_name.len() + self.extra_field().len()
    }

    /// The forty-six bytes in front of the file name.
    #[verifier::opaque]
    pub open spec fn fixed_part(self) -> Seq<u8> {
        central_directory_header_signature()
            + le16_bytes(self.version_made_by())
            + le16_bytes(self.version_needed())
            + le16_bytes(GENERAL_PURPOSE_FLAGS)
            + le16_bytes(self.compression_method.field())
            + self.squash_time
            + le32_bytes(self.crc32)
            + le32_bytes(self.compressed_size)
            + le32_bytes(self.uncompressed_size)
            + le16_bytes(self.file_name.len() as u16)
            + le16_bytes(self.extra_field().len() as u16)
            + le16_bytes(0)
            + le16_bytes(self.local_header_disk_number)
            + le16_bytes(0)
            + le32_bytes(0)
            + le32_bytes(self.offset_field())
    }

    /// The bytes that stand for this header in a file: signature, version
    /// made by, version needed, flags, method, squash time, CRC, compressed
    /// size, uncompressed size, file name length, extra field length, a
    /// zero comment length, disk number, zero internal and external
    /// attributes, local header offset, the file name and the extra field.
    pub open spec fn encoding(self) -> Seq<u8> {
        self.fixed_part() + self.file_name + self.extra_field()
    }

    /// Where the fields that a reader relies on stand in the encoding.
    pub proof fn lemma_layout(self)
        requires
            self.wf(),
        ensures
            self.encoding().len() == self.size(),
            self.extra_field().len() == (if self.needs_zip64() { 12int } else { 0int }),
            self.encoding().subrange(0, 4) == central_directory_header_signature(),
            le16(self.encoding(), 10) == self.compression_method.field(),
            self.encoding().subrange(12, 16) == self.squash_time,
            le32(self.encoding(), 16) == self.crc32,
            le32(self.encoding(), 20) == self.compressed_size,
            le32(self.encoding(), 24) == self.uncompressed_size,
            le16(self.encoding(), 28) == self.file_name.len(),
            le16(self.encoding(), 30) == self.extra_field().len(),
            le16(self.encoding(), 32) == 0,
            le32(self.encoding(), 42) == self.offset_field(),
            self.encoding().subrange(46, 46 + self.file_name.len() as int) == self.file_name,
            self.needs_zip64() ==> {
                let extra = 46 + self.file_name.len() as int;
                &&& self.encoding().subrange(extra, extra + 2) == zip64_extra_field_tag()
                &&& le64(self.encoding(), extra + 4) == self.local_header_offset
            },
    {
        reveal(CentralDirectoryHeaderView::fixed_part);
        reveal(CentralDirectoryHeaderView::extra_field);
        let e = self.encoding();
        let f = self.fixed_part();
        let n = self.file_name.len() as int;
        assert(f.len() == 46);
        assert(e.subrange(0, 4) =~= central_directory_header_signature());
        assert(e.subrange(10, 12) =~= le16_bytes(self.compression_method.field()));
        assert(e.subrange(12, 16) =~= self.squash_time);
        assert(e.subrange(16, 20) =~= le32_bytes(self.crc32));
        assert(e.subrange(20, 24) =~= le32_bytes(self.compressed_size));
        assert(e.subrange(24, 28) =~= le32_bytes(self.uncompressed_size));
        assert(e.subrange(28, 30) =~= le16_bytes(n as u16));
        assert(e.subrange(30, 32) =~= le16_bytes(self.extra_field().len() as u16));
        assert(e.subrange(32, 34) =~= le16_bytes(0));
        assert(e.subrange(42, 46) =~= le32_bytes(self.offset_field()));
        assert(e.subrange(46, 46 + n) =~= self.file_name);
        lemma_le16_subrange(e, 10);
        lemma_le32_subrange(e, 16);
        lemma_le32_subrange(e, 20);
        lemma_le32_subrange(e, 24);
        lemma_le16_subrange(e, 28);
        lemma_le16_subrange(e, 30);
        lemma_le16_subrange(e, 32);
        lemma_le32_subrange(e, 42);
        lemma_le16_round_trip(self.compression_method.field());
        lemma_le32_round_trip(self.crc32);
        lemma_le32_round_trip(self.compressed_size);
        lemma_le32_round_trip(self.uncompressed_size);
        lemma_le16_round_trip(n as u16);
        lemma_le16_round_trip(self.extra_field().len() as u16);
        lemma_le16_round_trip(0);
        lemma_le32_round_trip(self.offset_field());
        if self.needs_zip64() {
            let extra = 46 + n;
            assert(self.extra_field().len() == 12);
            assert(e.subrange(extra, extra + 2) =~= zip64_extra_field_tag());
            assert(e.subrange(extra + 4, extra + 12) =~= le64_bytes(self.local_header_offset));
            lemma_le64_subrange(e, extra + 4);
            lemma_le64_round_trip(self.local_header_offset);
        }
    }
}

/// A central directory header: the record that describes one entry in the
/// directory at the end of the archive.
#[derive(Clone, Debug, PartialEq, Eq)]
pub struct CentralDirectoryHeader {
    pub compression_method: CompressionMethod,
    pub squash_time: [u8; 4],
    pub crc32: u32,
    pub compressed_size: u32,
    pub uncompressed_size: u32,
    pub local_header_disk_number: u16,
    pub local_header_offset: u64,
    pub file_name: Vec<u8>,
    pub spoof_version_made_by: bool,
}

impl View for CentralDirectoryHeader {
    type V = CentralDirectoryHeaderView;

    open spec fn view(&self) -> CentralDirectoryHeaderView {
        CentralDirectoryHeaderView {
            compression_method: self.compression_method,
            squash_time: self.squash_time@,
            crc32: self.crc32,
            compressed_size: self.compressed_size,
            uncompressed_size: self.uncompressed_size,
            local_header_disk_number: self.local_header_disk_number,
            local_header_offset: self.local_header_offset,
            file_name: self.file_name@,
            spoof_version_made_by: self.spoof_version_made_by,
        }
    }
}

impl CentralDirectoryHeader {
    /// The encoding of this header.
    pub fn encode(&self) -> (bytes: Vec<u8>)
        requires
            self@.wf(),
        ensures
            bytes@ == self@.encoding(),
    {
        let needs_zip64 = self.local_header_offset >= 0xFFFF_FFFF;
        let version_needed: u16 = if needs_zip64 {
            ZIP64_VERSION
        } else {
            self.compression_method.version_needed_to_extract()
        };
        let version_made_by: u16 = if self.spoof_version_made_by {
            SPOOFED_VERSION_MADE_BY
        } else {
            version_needed
        };
        reveal(CentralDirectoryHeaderView::fixed_part);
        let extra_field = self.encode_extra_field();
        let mut bytes: Vec<u8> = Vec::new();
        bytes.push(0x50);
        bytes.push(0x4B);
        bytes.push(0x01);
        bytes.push(0x02);
        assert(bytes@ =~= central_directory_header_signature());
        write_u16(&mut bytes, version_made_by);
        write_u16(&mut bytes, version_needed);
        write_u16(&mut bytes, GENERAL_PURPOSE_FLAGS);
        write_u16(&mut bytes, self.compression_method.to_compression_method_field());
        write_squash_time(&mut bytes, &self.squash_time);
        write_u32(&mut bytes, self.crc32);
        write_u32(&mut bytes, self.compressed_size);
        write_u32(&mut bytes, self.uncompressed_size);
        write_u16(&mut bytes, self.file_name.len() as u16);
        write_u16(&mut bytes, extra_field.len() as u16);
        write_u16(&mut bytes, 0);
        write_u16(&mut bytes, self.local_header_disk_number);
        write_u16(&mut bytes, 0);
        write_u32(&mut bytes, 0);
        write_u32(
            &mut bytes,
            if needs_zip64 {
                ZIP64_MARKER_32
            } else {
                self.local_header_offset as u32
            },
        );
        write_bytes(&mut bytes, self.file_name.as_slice());
        write_bytes(&mut bytes, extra_field.as_slice());
        bytes
    }

    fn encode_extra_field(&self) -> (bytes: Vec<u8>)
        ensures
            bytes@ == self@.extra_field(),
            bytes@.len() <= 12,
    {
        reveal(CentralDirectoryHeaderView::extra_field);
        let mut bytes: Vec<u8> = Vec::new();
        if self.local_header_offset >= 0xFFFF_FFFF {
            bytes.push(0x01);
            bytes.push(0x00);
            assert(bytes@ =~= zip64_extra_field_tag());
            write_u16(&mut bytes, 8);
            write_u64(&mut bytes, self.local_header_offset);
        }
        bytes
    }

    /// Appends the encoding of this header.
    pub fn write(&self, out: &mut Vec<u8>)
        requires
            self@.wf(),
        ensures
            final(out)@ == old(out)@ + self@.encoding(),
    {
        let bytes = self.encode();
        write_bytes(out, bytes.as_slice());
    }
}

/// The end of central directory record, with the values of its ZIP64
/// companions.
#[derive(Clone, Copy, Debug, PartialEq, Eq, Structural)]
pub struct EndOfCentralDirectory {
    pub disk_number: u16,
    pub central_directory_start_disk_number: u16,
    pub central_directory_entry_count_current_disk: u64,
    pub total_central_directory_entry_count: u64,
    pub central_directory_size: u64,
    pub central_directory_start_offset: u64,
    pub total_number_of_disks: u32,
    /// Where in the file this record is written, which is where a ZIP64
    /// locator points.
    pub current_file_offset: u64,
    /// What is added to the size field of a ZIP64 record.
    pub zip64_record_size_offset: u8,
    pub spoof_version_made_by: bool,
    /// Whether the fields of a ZIP64 record whose values fit the plain
    /// record are written as zero.
    pub zero_out_unused_zip64_fields: bool,
}

/// The value that a 16-bit field holds for `value`: the value itself, or
/// the ZIP64 marker if it does not fit below the marker.
pub open spec fn saturated_16(value: u64) -> u16 {
    if value >= ZIP64_MARKER_16 {
        ZIP64_MARKER_16
    } else {
        value as u16
    }
}

/// The value that a 32-bit field holds for `value`: the value itself, or
/// the ZIP64 marker if it does not fit below the marker.
pub open spec fn saturated_32(value: u64) -> u32 {
    if value >= ZIP64_MARKER_32 {
        ZIP64_MARKER_32
    } else {
        value as u32
    }
}

fn saturate_16(value: u64) -> (field: u16)
    ensures
        field == saturated_16(value),
{
    if value >= 0xFFFF {
        ZIP64_MARKER_16
    } else {
        value as u16
    }
}

fn saturate_32(value: u64) -> (field: u32)
    ensures
        field == saturated_32(value),
{
    if value >= 0xFFFF_FFFF {
        ZIP64_MARKER_32
    } else {
        value as u32
    }
}

impl EndOfCentralDirectory {
    /// Whether some value is too big for its field in the plain record, so
    /// that a ZIP64 record and its locator precede it.
    pub open spec fn needs_zip64(self) -> bool {
        ||| self.disk_number >= ZIP64_MARKER_16
        ||| self.central_directory_start_disk_number >= ZIP64_MARKER_16
        ||| self.central_directory_entry_count_current_disk >= ZIP64_MARKER_16
        ||| self.total_central_directory_entry_count >= ZIP64_MARKER_16
        ||| self.central_directory_size >= ZIP64_MARKER_32
        ||| self.central_directory_start_offset >= ZIP64_MARKER_32
    }

    /// The value that the ZIP64 record holds for a field with `value`,
    /// whose plain field is saturated if and only if `used`.
    pub open spec fn zip64_value(self, value: u64, used: bool) -> u64 {
        if self.zero_out_unused_zip64_fields && !used {
            0
        } else {
            value
        }
    }

    /// The fifty-two bytes behind the signature of the ZIP64 end of central
    /// directory record: the size of what follows, version made by,
    /// version needed, disk number, disk of the directory's start, entry
    /// counts of this disk and in total, directory size and directory
    /// offset.
    #[verifier::opaque]
    pub open spec fn zip64_record_fields(self) -> Seq<u8> {
        le64_bytes((ZIP64_RECORD_SIZE_FIELD + self.zip64_record_size_offset) as u64)
            + le16_bytes(
            if self.spoof_version_made_by {
                SPOOFED_VERSION_MADE_BY
            } else {
                ZIP64_VERSION
            },
        ) + le16_bytes(ZIP64_VERSION)
            + le32_bytes(
            self.zip64_value(self.disk_number as u64, self.disk_number >= ZIP64_MARKER_16) as u32,
        )
            + le32_bytes(
            self.zip64_value(
                self.central_directory_start_disk_number as u64,
                self.central_directory_start_disk_number >= ZIP64_MARKER_16,
            ) as u32,
        )
            + le64_bytes(
            self.zip64_value(
                self.central_directory_entry_count_current_disk,
                self.central_directory_entry_count_current_disk >= ZIP64_MARKER_16,
            ),
        )
            + le64_bytes(
            self.zip64_value(
                self.total_central_directory_entry_count,
                self.total_central_directory_entry_count >= ZIP64_MARKER_16,
            ),
        )
            + le64_bytes(
            self.zip64_value(
                self.central_directory_size,
                self.central_directory_size >= ZIP64_MARKER_32,
            ),
        )
            + le64_bytes(
            self.zip64_value(
                self.central_directory_start_offset,
                self.central_directory_start_offset >= ZIP64_MARKER_32,
            ),
        )
    }

    /// The fifty-six bytes of the ZIP64 end of central directory record.
    pub open spec fn zip64_record(self) -> Seq<u8> {
        zip64_end_of_central_directory_signature() + self.zip64_record_fields()
    }

    /// The twenty bytes of the ZIP64 end of central directory locator.
    #[verifier::opaque]
    pub open spec fn zip64_locator(self) -> Seq<u8> {
        zip64_locator_signature() + le32_bytes(self.disk_number as u32) + le64_bytes(
            self.current_file_offset,
        ) + le32_bytes(self.total_number_of_disks)
    }

    /// The twenty-two bytes of the plain end of central directory record:
    /// signature, disk number, disk of the directory's start, entry counts
    /// of this disk and in total, directory size, directory offset, and a
    /// zero comment length. A value that does not fit is stored as the
    /// ZIP64 marker.
    #[verifier::opaque]
    pub open spec fn plain_record(self) -> Seq<u8> {
        end_of_central_directory_signature()
            + le16_bytes(saturated_16(self.disk_number as u64))
            + le16_bytes(saturated_16(self.central_directory_start_disk_number as u64))
            + le16_bytes(saturated_16(self.central_directory_entry_count_current_disk))
            + le16_bytes(saturated_16(self.total_central_directory_entry_count))
            + le32_bytes(saturated_32(self.central_directory_size))
            + le32_bytes(saturated_32(self.central_directory_start_offset))
            + le16_bytes(0)
    }

    /// The bytes that close an archive: the plain record, preceded by the
    /// ZIP64 record and its locator where a value needs them.
    pub open spec fn encoding(self) -> Seq<u8> {
        if self.needs_zip64() {
            self.zip64_record() + self.zip64_locator() + self.plain_record()
        } else {
            self.plain_record()
        }
    }

    /// The number of bytes of the encoding.
    pub open spec fn size(self) -> int {
        if self.needs_zip64() {
            ZIP64_END_OF_CENTRAL_DIRECTORY_SIZE + ZIP64_LOCATOR_SIZE
                + END_OF_CENTRAL_DIRECTORY_SIZE
        } else {
            END_OF_CENTRAL_DIRECTORY_SIZE as int
        }
    }

    /// Where the fields that a reader relies on stand in the plain record.
    pub proof fn lemma_plain_record_layout(self)
        ensures
            self.plain_record().len() == 22,
            self.plain_record().subrange(0, 4) == end_of_central_directory_signature(),
            le16(self.plain_record(), 10) == saturated_16(
                self.total_central_directory_entry_count,
            ),
            le32(self.plain_record(), 16) == saturated_32(self.central_directory_start_offset),
    {
        reveal(EndOfCentralDirectory::plain_record);
        let p = self.plain_record();
        assert(p.len() == 22);
        assert(p.subrange(0, 4) =~= end_of_central_directory_signature());
        assert(p.subrange(10, 12) =~= le16_bytes(
            saturated_16(self.total_central_directory_entry_count),
        ));
        assert(p.subrange(16, 20) =~= le32_bytes(
            saturated_32(self.central_directory_start_offset),
        ));
        lemma_le16_subrange(p, 10);
        lemma_le32_subrange(p, 16);
        lemma_le16_round_trip(saturated_16(self.total_central_directory_entry_count));
        lemma_le32_round_trip(saturated_32(self.central_directory_start_offset));
    }

    /// The sizes of the two ZIP64 companions of the plain record.
    pub proof fn lemma_zip64_sizes(self)
        ensures
            self.zip64_record().len() == 56,
            self.zip64_locator().len() == 20,
    {
        reveal(EndOfCentralDirectory::zip64_record_fields);
        reveal(EndOfCentralDirectory::zip64_locator);
    }

    /// The encoding opens with the signature of the ZIP64 record, where
    /// there is one, and with that of the plain record otherwise.
    pub proof fn lemma_opening(self)
        ensures
            self.encoding().len() >= 22,
            self.encoding().subrange(0, 4) == (if self.needs_zip64() {
                zip64_end_of_central_directory_signature()
            } else {
                end_of_central_directory_signature()
            }),
    {
        self.lemma_plain_record_layout();
        if self.needs_zip64() {
            self.lemma_zip64_sizes();
            assert(self.encoding().subrange(0, 4)
                =~= zip64_end_of_central_directory_signature());
        }
    }

    /// The encoding ends with the plain record.
    pub proof fn lemma_layout(self)
        ensures
            self.encoding().len() == self.size(),
            self.encoding().subrange(self.size() - 22, self.size()) == self.plain_record(),
    {
        self.lemma_plain_record_layout();
        let e = self.encoding();
        if self.needs_zip64() {
            self.lemma_zip64_sizes();
            assert(e.subrange(76, 98) =~= self.plain_record());
        } else {
            assert(e.subrange(0, 22) =~= self.plain_record());
        }
    }

    fn zip64_field(&self, value: u64, used: bool) -> (field: u64)
        ensures
            field == self.zip64_value(value, used),
    {
        if self.zero_out_unused_zip64_fields && !used {
            0
        } else {
            value
        }
    }

    fn encode_zip64_record_fields(&self) -> (bytes: Vec<u8>)
        ensures
            bytes@ == self.zip64_record_fields(),
    {
        reveal(EndOfCentralDirectory::zip64_record_fields);
        let mut bytes: Vec<u8> = Vec::new();
        write_u64(&mut bytes, ZIP64_RECORD_SIZE_FIELD + self.zip64_record_size_offset as u64);
        assert(bytes@ =~= le64_bytes(
            (ZIP64_RECORD_SIZE_FIELD + self.zip64_record_size_offset) as u64,
        ));
        write_u16(
            &mut bytes,
            if self.spoof_version_made_by {
                SPOOFED_VERSION_MADE_BY
            } else {
                ZIP64_VERSION
            },
        );
        write_u16(&mut bytes, ZIP64_VERSION);
        write_u32(
            &mut bytes,
            self.zip64_field(self.disk_number as u64, self.disk_number >= 0xFFFF) as u32,
        );
        write_u32(
            &mut bytes,
            self.zip64_field(
                self.central_directory_start_disk_number as u64,
                self.central_directory_start_disk_number >= 0xFFFF,
            ) as u32,
        );
        write_u64(
            &mut bytes,
            self.zip64_field(
                self.central_directory_entry_count_current_disk,
                self.central_directory_entry_count_current_disk >= 0xFFFF,
            ),
        );
        write_u64(
            &mut bytes,
            self.zip64_field(
                self.total_central_directory_entry_count,
                self.total_central_directory_entry_count >= 0xFFFF,
            ),
        );
        write_u64(
            &mut bytes,
            self.zip64_field(
                self.central_directory_size,
                self.central_directory_size >= 0xFFFF_FFFF,
            ),
        );
        write_u64(
            &mut bytes,
            self.zip64_field(
                self.central_directory_start_offset,
                self.central_directory_start_offset >= 0xFFFF_FFFF,
            ),
        );
        bytes
    }

    fn encode_zip64_record(&self) -> (bytes: Vec<u8>)
        ensures
            bytes@ == self.zip64_record(),
    {
        let fields = self.encode_zip64_record_fields();
        let mut bytes: Vec<u8> = Vec::new();
        bytes.push(0x50);
        bytes.push(0x4B);
        bytes.push(0x06);
        bytes.push(0x06);
        assert(bytes@ =~= zip64_end_of_central_directory_signature());
        write_bytes(&mut bytes, fields.as_slice());
        bytes
    }

    fn encode_zip64_locator(&self) -> (bytes: Vec<u8>)
        ensures
            bytes@ == self.zip64_locator(),
    {
        reveal(EndOfCentralDirectory::zip64_locator);
        let mut bytes: Vec<u8> = Vec::new();
        bytes.push(0x50);
        bytes.push(0x4B);
        bytes.push(0x06);
        bytes.push(0x07);
        assert(bytes@ =~= zip64_locator_signature());
        write_u32(&mut bytes, self.disk_number as u32);
        write_u64(&mut bytes, self.current_file_offset);
        write_u32(&mut bytes, self.total_number_of_disks);
        bytes
    }

    fn encode_plain_record(&self) -> (bytes: Vec<u8>)
        ensures
            bytes@ == self.plain_record(),
    {
        reveal(EndOfCentralDirectory::plain_record);
        let mut bytes: Vec<u8> = Vec::new();
        bytes.push(0x50);
        bytes.push(0x4B);
        bytes.push(0x05);
        bytes.push(0x06);
        assert(bytes@ =~= end_of_central_directory_signature());
        write_u16(&mut bytes, saturate_16(self.disk_number as u64));
        write_u16(&mut bytes, saturate_16(self.central_directory_start_disk_number as u64));
        write_u16(&mut bytes, saturate_16(self.central_directory_entry_count_current_disk));
        write_u16(&mut bytes, saturate_16(self.total_central_directory_entry_count));
        write_u32(&mut bytes, saturate_32(self.central_directory_size));
        write_u32(&mut bytes, saturate_32(self.central_directory_start_offset));
        write_u16(&mut bytes, 0);
        bytes
    }

    /// The encoding of this record.
    pub fn encode(&self) -> (bytes: Vec<u8>)
        ensures
            bytes@ == self.encoding(),
    {
        let needs_zip64 = self.disk_number >= 0xFFFF
            || self.central_directory_start_disk_number >= 0xFFFF
            || self.central_directory_entry_count_current_disk >= 0xFFFF
            || self.total_central_directory_entry_count >= 0xFFFF
            || self.central_directory_size >= 0xFFFF_FFFF
            || self.central_directory_start_offset >= 0xFFFF_FFFF;
        let plain = self.encode_plain_record();
        if needs_zip64 {
            let mut bytes = self.encode_zip64_record();
            let locator = self.encode_zip64_locator();
            write_bytes(&mut bytes, locator.as_slice());
            write_bytes(&mut bytes, plain.as_slice());
            bytes
        } else {
            plain
        }
    }

    /// Appends the encoding of this record.
    pub fn write(&self, out: &mut Vec<u8>)
        ensures
            final(out)@ == old(out)@ + self.encoding(),
    {
        let bytes = self.encode();
        write_bytes(out, bytes.as_slice());
    }
}

} // verus!
