//! The interface between the archive builder and what obfuscates records.
//!
//! An obfuscation engine rewrites fields of the records on their way into
//! an archive, and may put a prologue of its own in front of the archive.
//! Which bytes it changes is its own business. What the builder relies on
//! is what a later run needs to read the archive back: the laws that the
//! trait states and that every engine has to prove.
//!
//! Two engines are at hand: `NoObfuscation`, which changes nothing, and
//! `FieldObfuscation`, which rewrites the fields that it is told to.

use vstd::prelude::*;
use crate::byte_order::{le64_bytes, lemma_le64_round_trip, write_u64};
use crate::settings::SquashZipSettings;
use crate::zip_file_record::{
    CentralDirectoryHeader, CentralDirectoryHeaderView, EndOfCentralDirectory, LocalFileHeader,
    LocalFileHeaderView,
};

verus! {

/// What rewrites the records of an archive before they are written.
pub trait ObfuscationEngine {
    /// The number of bytes of the prologue in front of the archive.
    spec fn header_size(&self) -> u64;

    /// The prologue that is made from `seed`.
    spec fn header(&self, seed: u64) -> Seq<u8>;

    /// The CRC-32 field that is stored for an entry whose CRC-32 is `crc32`.
    spec fn obfuscated_crc32(&self, crc32: u32) -> u32;

    /// The CRC-32 that a stored CRC-32 field stands for.
    spec fn deobfuscated_crc32(&self, stored: u32) -> u32;

    /// The local file header that is written in place of `header`.
    spec fn obfuscated_local_file_header(&self, header: LocalFileHeaderView) -> LocalFileHeaderView;

    /// The central directory header that is written in place of `header`.
    spec fn obfuscated_central_directory_header(
        &self,
        header: CentralDirectoryHeaderView,
    ) -> CentralDirectoryHeaderView;

    /// The end of central directory record that is written in place of
    /// `record`.
    spec fn obfuscated_end_of_central_directory(
        &self,
        record: EndOfCentralDirectory,
    ) -> EndOfCentralDirectory;

    /// Every prologue has the size that the engine declares.
    proof fn lemma_header_size(&self, seed: u64)
        ensures
            self.header(seed).len() == self.header_size(),
    ;

    /// A stored CRC-32 field is read back as the CRC-32 it was made from.
    proof fn lemma_crc32_round_trip(&self, crc32: u32)
        ensures
            self.deobfuscated_crc32(self.obfuscated_crc32(crc32)) == crc32,
    ;

    /// An obfuscated local file header can be written, and still tells how
    /// many bytes of payload follow it.
    proof fn lemma_local_file_header(&self, header: LocalFileHeaderView)
        requires
            header.wf(),
        ensures
            self.obfuscated_local_file_header(header).wf(),
            self.obfuscated_local_file_header(header).compressed_size == header.compressed_size,
    ;

    /// An obfuscated central directory header can be written, and keeps
    /// what a later run reads from it: the file name, the method, the
    /// squash time and both sizes. Its CRC-32 field is the obfuscated
    /// CRC-32. The offset of the local file header is given as it is in the
    /// archive, prologue included, and is written counted from the end of
    /// the prologue, which is how a later run takes it.
    proof fn lemma_central_directory_header(&self, header: CentralDirectoryHeaderView)
        requires
            header.wf(),
            header.local_header_offset >= self.header_size(),
        ensures
            ({
                let obfuscated = self.obfuscated_central_directory_header(header);
                &&& obfuscated.wf()
                &&& obfuscated.file_name == header.file_name
                &&& obfuscated.compression_method == header.compression_method
                &&& obfuscated.squash_time == header.squash_time
                &&& obfuscated.compressed_size == header.compressed_size
                &&& obfuscated.uncompressed_size == header.uncompressed_size
                &&& obfuscated.local_header_offset + self.header_size()
                    == header.local_header_offset
                &&& obfuscated.crc32 == self.obfuscated_crc32(header.crc32)
            }),
    ;

    /// An obfuscated end of central directory record still tells where the
    /// central directory starts: the start is given as it is in the
    /// archive, prologue included, and is written counted from the end of
    /// the prologue.
    proof fn lemma_end_of_central_directory(&self, record: EndOfCentralDirectory)
        requires
            record.central_directory_start_offset >= self.header_size(),
        ensures
            self.obfuscated_end_of_central_directory(record).central_directory_start_offset
                + self.header_size() == record.central_directory_start_offset,
    ;

    /// The number of bytes of the prologue in front of the archive.
    fn obfuscating_header_size(&self) -> (size: u64)
        ensures
            size == self.header_size(),
    ;

    /// The prologue to put in front of the archive, made from `seed`.
    fn obfuscating_header(&self, seed: u64) -> (prologue: Vec<u8>)
        ensures
            prologue@ == self.header(seed),
    ;

    /// The local file header to write in place of `header`.
    fn obfuscate_local_file_header(&self, header: LocalFileHeader) -> (obfuscated: LocalFileHeader)
        requires
            header@.wf(),
        ensures
            obfuscated@ == self.obfuscated_local_file_header(header@),
    ;

    /// The central directory header to write in place of `header`, whose
    /// offset is the one that the local file header has in the archive.
    fn obfuscate_central_directory_header(&self, header: CentralDirectoryHeader) -> (obfuscated:
        CentralDirectoryHeader)
        requires
            header@.wf(),
            header.local_header_offset >= self.header_size(),
        ensures
            obfuscated@ == self.obfuscated_central_directory_header(header@),
    ;

    /// The end of central directory record to write in place of `record`,
    /// whose offsets are those that the central directory and the record
    /// have in the archive.
    fn obfuscate_end_of_central_directory(&self, record: EndOfCentralDirectory) -> (obfuscated:
        EndOfCentralDirectory)
        requires
            record.central_directory_start_offset >= self.header_size(),
            record.current_file_offset >= self.header_size(),
        ensures
            obfuscated == self.obfuscated_end_of_central_directory(record),
    ;

    /// The CRC-32 that a stored CRC-32 field stands for.
    fn deobfuscate_crc32(&self, stored: u32) -> (crc32: u32)
        ensures
            crc32 == self.deobfuscated_crc32(stored),
    ;
}

/// The engine that leaves every record as it is and adds no prologue.
#[derive(Clone, Copy, Debug, PartialEq, Eq)]
pub struct NoObfuscation;

impl NoObfuscation {
    /// The engine for settings that ask for no obfuscation, and nothing for
    /// settings that ask for some.
    pub fn from_squash_zip_settings(settings: &SquashZipSettings) -> (engine: Option<Self>)
        ensures
            engine.is_some() == !settings.enable_obfuscation,
    {
        if settings.enable_obfuscation {
            None
        } else {
            Some(NoObfuscation)
        }
    }
}

impl ObfuscationEngine for NoObfuscation {
    open spec fn header_size(&self) -> u64 {
        0
    }

    open spec fn header(&self, seed: u64) -> Seq<u8> {
        Seq::<u8>::empty()
    }

    open spec fn obfuscated_crc32(&self, crc32: u32) -> u32 {
        crc32
    }

    open spec fn deobfuscated_crc32(&self, stored: u32) -> u32 {
        stored
    }

    open spec fn obfuscated_local_file_header(
        &self,
        header: LocalFileHeaderView,
    ) -> LocalFileHeaderView {
        header
    }

    open spec fn obfuscated_central_directory_header(
        &self,
        header: CentralDirectoryHeaderView,
    ) -> CentralDirectoryHeaderView {
        header
    }

    open spec fn obfuscated_end_of_central_directory(
        &self,
        record: EndOfCentralDirectory,
    ) -> EndOfCentralDirectory {
        record
    }

    proof fn lemma_header_size(&self, seed: u64) {
    }

    proof fn lemma_crc32_round_trip(&self, crc32: u32) {
    }

    proof fn lemma_local_file_header(&self, header: LocalFileHeaderView) {
    }

    proof fn lemma_central_directory_header(&self, header: CentralDirectoryHeaderView) {
    }

    proof fn lemma_end_of_central_directory(&self, record: EndOfCentralDirectory) {
    }

    fn obfuscating_header_size(&self) -> (size: u64) {
        0
    }

    fn obfuscating_header(&self, seed: u64) -> (prologue: Vec<u8>) {
        Vec::new()
    }

    fn obfuscate_local_file_header(&self, header: LocalFileHeader) -> (obfuscated:
        LocalFileHeader) {
        header
    }

    fn obfuscate_central_directory_header(&self, header: CentralDirectoryHeader) -> (obfuscated:
        CentralDirectoryHeader) {
        header
    }

    fn obfuscate_end_of_central_directory(&self, record: EndOfCentralDirectory) -> (obfuscated:
        EndOfCentralDirectory) {
        record
    }

    fn deobfuscate_crc32(&self, stored: u32) -> (crc32: u32) {
        stored
    }
}

/// An engine whose rewriting is chosen field by field.
///
/// It offers each means of rewriting that leaves an archive readable: a
/// prologue, a mask on the CRC-32 fields, and the fields of central
/// directory headers and of the end of central directory record that a
/// reader of the directory does not rely on. Which of them to use, and
/// when, is up to who makes the engine. The offsets that it is given are
/// written less the size of the prologue.
#[derive(Clone, Copy, Debug, PartialEq, Eq)]
pub struct FieldObfuscation {
    /// The number of bytes of the prologue, which repeats the eight bytes
    /// of its seed.
    pub prologue_size: u16,
    /// What CRC-32 fields are combined with, bit by bit and exclusively,
    /// before they are stored.
    pub crc32_mask: u32,
    /// Whether the version made by is spoofed in central directory headers
    /// and in the ZIP64 end of central directory record.
    pub spoof_version_made_by: bool,
    /// Whether the fields of a ZIP64 end of central directory record whose
    /// values fit the plain record are written as zero.
    pub zero_out_unused_zip64_fields: bool,
    /// What is added to the size field of a ZIP64 end of central directory
    /// record.
    pub zip64_record_size_offset: u8,
    /// The disk number that central directory headers give for their local
    /// file header.
    pub local_header_disk_number: u16,
}

impl ObfuscationEngine for FieldObfuscation {
    open spec fn header_size(&self) -> u64 {
        self.prologue_size as u64
    }

    open spec fn header(&self, seed: u64) -> Seq<u8> {
        Seq::new(self.prologue_size as nat, |i: int| le64_bytes(seed)[i % 8])
    }

    open spec fn obfuscated_crc32(&self, crc32: u32) -> u32 {
        crc32 ^ self.crc32_mask
    }

    open spec fn deobfuscated_crc32(&self, stored: u32) -> u32 {
        stored ^ self.crc32_mask
    }

    open spec fn obfuscated_local_file_header(
        &self,
        header: LocalFileHeaderView,
    ) -> LocalFileHeaderView {
        LocalFileHeaderView { crc32: header.crc32 ^ self.crc32_mask, ..header }
    }

    open spec fn obfuscated_central_directory_header(
        &self,
        header: CentralDirectoryHeaderView,
    ) -> CentralDirectoryHeaderView {
        CentralDirectoryHeaderView {
            crc32: header.crc32 ^ self.crc32_mask,
            local_header_disk_number: self.local_header_disk_number,
            local_header_offset: (header.local_header_offset - self.prologue_size) as u64,
            spoof_version_made_by: self.spoof_version_made_by,
            ..header
        }
    }

    open spec fn obfuscated_end_of_central_directory(
        &self,
        record: EndOfCentralDirectory,
    ) -> EndOfCentralDirectory {
        EndOfCentralDirectory {
            central_directory_start_offset: (record.central_directory_start_offset
                - self.prologue_size) as u64,
            current_file_offset: (record.current_file_offset - self.prologue_size) as u64,
            zip64_record_size_offset: self.zip64_record_size_offset,
            spoof_version_made_by: self.spoof_version_made_by,
            zero_out_unused_zip64_fields: self.zero_out_unused_zip64_fields,
            ..record
        }
    }

    proof fn lemma_header_size(&self, seed: u64) {
    }

    proof fn lemma_crc32_round_trip(&self, crc32: u32) {
        let mask = self.crc32_mask;
        assert((crc32 ^ mask) ^ mask == crc32) by (bit_vector);
    }

    proof fn lemma_local_file_header(&self, header: LocalFileHeaderView) {
    }

    proof fn lemma_central_directory_header(&self, header: CentralDirectoryHeaderView) {
    }

    proof fn lemma_end_of_central_directory(&self, record: EndOfCentralDirectory) {
    }

    fn obfuscating_header_size(&self) -> (size: u64) {
        self.prologue_size as u64
    }

    fn obfuscating_header(&self, seed: u64) -> (prologue: Vec<u8>) {
        let mut filler: Vec<u8> = Vec::new();
        write_u64(&mut filler, seed);
        assert(filler@ =~= le64_bytes(seed));
        proof {
            lemma_le64_round_trip(seed);
        }
        let mut prologue: Vec<u8> = Vec::new();
        let mut i: u16 = 0;
        while i < self.prologue_size
            invariant
                i <= self.prologue_size,
                filler@ == le64_bytes(seed),
                filler@.len() == 8,
                prologue@ == Seq::new(i as nat, |k: int| le64_bytes(seed)[k % 8]),
            decreases self.prologue_size - i,
        {
            prologue.push(filler[(i % 8) as usize]);
            i = i + 1;
            assert(prologue@ =~= Seq::new(i as nat, |k: int| le64_bytes(seed)[k % 8]));
        }
        prologue
    }

    fn obfuscate_local_file_header(&self, header: LocalFileHeader) -> (obfuscated:
        LocalFileHeader) {
        let mut obfuscated = header;
        obfuscated.crc32 = obfuscated.crc32 ^ self.crc32_mask;
        obfuscated
    }

    fn obfuscate_central_directory_header(&self, header: CentralDirectoryHeader) -> (obfuscated:
        CentralDirectoryHeader) {
        let mut obfuscated = header;
        obfuscated.crc32 = obfuscated.crc32 ^ self.crc32_mask;
        obfuscated.local_header_offset = obfuscated.local_header_offset
            - self.prologue_size as u64;
        obfuscated.local_header_disk_number = self.local_header_disk_number;
        obfuscated.spoof_version_made_by = self.spoof_version_made_by;
        obfuscated
    }

    fn obfuscate_end_of_central_directory(&self, record: EndOfCentralDirectory) -> (obfuscated:
        EndOfCentralDirectory) {
        let mut obfuscated = record;
        obfuscated.central_directory_start_offset = obfuscated.central_directory_start_offset
            - self.prologue_size as u64;
        obfuscated.current_file_offset = obfuscated.current_file_offset
            - self.prologue_size as u64;
        obfuscated.zip64_record_size_offset = self.zip64_record_size_offset;
        obfuscated.spoof_version_made_by = self.spoof_version_made_by;
        obfuscated.zero_out_unused_zip64_fields = self.zero_out_unused_zip64_fields;
        obfuscated
    }

    fn deobfuscate_crc32(&self, stored: u32) -> (crc32: u32) {
        stored ^ self.crc32_mask
    }
}

} // verus!
