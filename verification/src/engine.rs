//! The archive builder.
//!
//! A `SquashZip` is made once, from the settings and, if there is one, the
//! archive of an earlier run. Files are then added: either from their
//! bytes, with `add_file`, or by taking their payload over from the
//! earlier archive, with `add_previous_file`. `finish` ends the archive
//! with its central directory and hands out its bytes.

use vstd::prelude::*;
use vstd::slice::{slice_subrange, slice_to_vec};
use vstd::utf8::{encode_utf8, valid_utf8};
use ahash::AHashMap;
use crate::archive_layout::{
    consistent, duplicate, lemma_entry_appends_record, lemma_entry_shares_record, remembered,
    PartialCentralDirectoryHeaderView,
};
use crate::byte_order::write_bytes;
use crate::compression::{compress_and_generate_local_header, processed_as, processing_failure};
use crate::deduplication::{
    find_duplicate, lemma_first_match, no_processed_headers, processed_headers,
    processed_insert, processed_remove, processed_with_capacity, stored_payload,
};
use crate::error::{IoFailure, SquashZipError};
use crate::obfuscation_engine::ObfuscationEngine;
use crate::previous_zip::{
    index_get, index_len, no_previous_files, parse_previous_zip, parsed_previous_zip,
    previous_files, PreviousFile,
};
use crate::read_back::{files_of, lemma_finish_is_read_back};
use crate::settings::SquashZipSettings;
use crate::system_time_sanitizer::{sanitized, SystemTimeSanitizer, MAXIMUM_TIME};
use crate::zip_file_record::{
    CentralDirectoryHeader, CentralDirectoryHeaderView, CompressionMethod, EndOfCentralDirectory,
    LocalFileHeader, LocalFileHeaderView,
};

verus! {

/// An entry of the directory under construction: what is needed to write
/// the entry's central directory header once the archive is finished.
#[derive(Clone, Debug, PartialEq, Eq)]
pub struct PartialCentralDirectoryHeader {
    pub local_header_offset: u64,
    pub file_name: Vec<u8>,
    pub compression_method: CompressionMethod,
    pub squash_time: [u8; 4],
    pub crc32: u32,
    pub compressed_size: u32,
    pub uncompressed_size: u32,
}

impl View for PartialCentralDirectoryHeader {
    type V = PartialCentralDirectoryHeaderView;

    open spec fn view(&self) -> PartialCentralDirectoryHeaderView {
        PartialCentralDirectoryHeaderView {
            local_header_offset: self.local_header_offset,
            file_name: self.file_name@,
            compression_method: self.compression_method,
            squash_time: self.squash_time@,
            crc32: self.crc32,
            compressed_size: self.compressed_size,
            uncompressed_size: self.uncompressed_size,
        }
    }
}

/// The views of the entries of a directory.
pub open spec fn directory_view(directory: Seq<PartialCentralDirectoryHeader>) -> Seq<
    PartialCentralDirectoryHeaderView,
> {
    Seq::new(directory.len(), |i: int| directory[i]@)
}

/// The seed of the prologue of an archive that is begun with `count` files
/// known from an earlier run and a spool buffer of `spool_buffer_size`
/// bytes.
pub open spec fn prologue_seed(count: usize, spool_buffer_size: usize) -> u64 {
    (count ^ spool_buffer_size) as u64
}

/// The central directory header that is made of `entry` before it is
/// obfuscated: the fields of the entry, with the offset that the record has
/// in the archive, a disk number of zero, and no spoofed version made by.
pub open spec fn central_directory_header_of(
    entry: PartialCentralDirectoryHeaderView,
) -> CentralDirectoryHeaderView {
    CentralDirectoryHeaderView {
        compression_method: entry.compression_method,
        squash_time: entry.squash_time,
        crc32: entry.crc32,
        compressed_size: entry.compressed_size,
        uncompressed_size: entry.uncompressed_size,
        local_header_disk_number: 0,
        local_header_offset: entry.local_header_offset,
        file_name: entry.file_name,
        spoof_version_made_by: false,
    }
}

/// The bytes of the central directory of `directory`: the obfuscated
/// central directory header of each entry, in the order of the entries.
pub open spec fn central_directory<O: ObfuscationEngine>(
    obfuscation_engine: O,
    directory: Seq<PartialCentralDirectoryHeaderView>,
) -> Seq<u8>
    decreases directory.len(),
{
    if directory.len() == 0 {
        Seq::<u8>::empty()
    } else {
        central_directory(obfuscation_engine, directory.drop_last())
            + obfuscation_engine.obfuscated_central_directory_header(
            central_directory_header_of(directory.last()),
        ).encoding()
    }
}

/// The end of central directory record that is made, before it is
/// obfuscated, for an archive whose central directory has `count` entries
/// and `size` bytes and starts at `start` of the archive: one disk, the
/// record itself behind the directory, nothing spoofed or zeroed.
pub open spec fn end_of_central_directory_of(count: u64, start: u64, size: u64) -> EndOfCentralDirectory {
    EndOfCentralDirectory {
        disk_number: 0,
        central_directory_start_disk_number: 0,
        central_directory_entry_count_current_disk: count,
        total_central_directory_entry_count: count,
        central_directory_size: size,
        central_directory_start_offset: start,
        total_number_of_disks: 1,
        current_file_offset: (start + size) as u64,
        zip64_record_size_offset: 0,
        spoof_version_made_by: false,
        zero_out_unused_zip64_fields: false,
    }
}

/// The bytes of the finished archive: the records written so far, the
/// central directory, and the obfuscated end of central directory record.
pub open spec fn finished_archive<O: ObfuscationEngine>(
    obfuscation_engine: O,
    output: Seq<u8>,
    directory: Seq<PartialCentralDirectoryHeaderView>,
) -> Seq<u8> {
    let records = central_directory(obfuscation_engine, directory);
    output + records + obfuscation_engine.obfuscated_end_of_central_directory(
        end_of_central_directory_of(
            directory.len() as u64,
            output.len() as u64,
            records.len() as u64,
        ),
    ).encoding()
}

/// The local file header with these fields.
pub open spec fn local_file_header_of(
    file_name: Seq<u8>,
    squash_time: Seq<u8>,
    compression_method: CompressionMethod,
    crc32: u32,
    compressed_size: u32,
    uncompressed_size: u32,
) -> LocalFileHeaderView {
    LocalFileHeaderView {
        compression_method,
        squash_time,
        crc32,
        compressed_size,
        uncompressed_size,
        file_name,
    }
}

/// A custom, minimalistic ZIP compressor, which uses its control over the
/// details of the ZIP format to reuse the work of an earlier run and to
/// store identical payloads once.
pub struct SquashZip<O: ObfuscationEngine> {
    settings: SquashZipSettings,
    obfuscation_engine: O,
    sanitizer: SystemTimeSanitizer,
    output_zip: Vec<u8>,
    previous_zip: Option<Vec<u8>>,
    previous_zip_contents: AHashMap<String, PreviousFile>,
    processed_local_headers: AHashMap<(u32, u32), Vec<(u64, u32)>>,
    central_directory_data: Vec<PartialCentralDirectoryHeader>,
}

impl<O: ObfuscationEngine> SquashZip<O> {
    /// The settings that the archive is built with.
    pub closed spec fn settings(&self) -> SquashZipSettings {
        self.settings
    }

    /// The engine that obfuscates the records.
    pub closed spec fn obfuscation_engine(&self) -> O {
        self.obfuscation_engine
    }

    /// The key under which squash times are stored.
    pub closed spec fn sanitizer_key(&self) -> Seq<u8> {
        self.sanitizer.key()
    }

    /// The bytes written so far: the prologue and the records.
    pub closed spec fn output(&self) -> Seq<u8> {
        self.output_zip@
    }

    /// The entries added so far, in the order in which they were added.
    pub closed spec fn directory(&self) -> Seq<PartialCentralDirectoryHeaderView> {
        directory_view(self.central_directory_data@)
    }

    /// The index of the records written so far.
    pub closed spec fn processed(&self) -> Map<(u32, u32), Seq<(u64, u32)>> {
        processed_headers(self.processed_local_headers)
    }

    /// The bytes of the archive of the earlier run, if there is one.
    pub closed spec fn previous_archive(&self) -> Option<Seq<u8>> {
        match self.previous_zip {
            Some(archive) => Some(archive@),
            None => None,
        }
    }

    /// The files of the archive of the earlier run, by path.
    pub closed spec fn previous_files(&self) -> Map<Seq<char>, PreviousFile> {
        previous_files(self.previous_zip_contents)
    }

    /// Whether the parts of the builder belong together: the bytes, the
    /// directory and the index are consistent, and files of an earlier run
    /// are known only if its archive is at hand.
    pub open spec fn wf(&self) -> bool {
        &&& consistent(
            self.output(),
            self.obfuscation_engine().header_size(),
            self.directory(),
            self.processed(),
            self.settings().enable_deduplication,
        )
        &&& self.previous_archive().is_none() ==> self.previous_files() == no_previous_files()
    }

    /// Whether `other` differs from this builder at most in the bytes, the
    /// directory and the index.
    pub open spec fn same_setup(&self, other: &Self) -> bool {
        &&& other.settings() == self.settings()
        &&& other.obfuscation_engine() == self.obfuscation_engine()
        &&& other.sanitizer_key() == self.sanitizer_key()
        &&& other.previous_archive() == self.previous_archive()
        &&& other.previous_files() == self.previous_files()
    }

    /// Whether `other` is in the state of this builder.
    pub open spec fn same_state(&self, other: &Self) -> bool {
        &&& self.same_setup(other)
        &&& other.output() == self.output()
        &&& other.directory() == self.directory()
        &&& other.processed() == self.processed()
    }

    /// Whether `after` is this builder after an entry with the local file
    /// header `header` and the payload `payload` was stored.
    ///
    /// If the archive holds a record with the entry's CRC-32, size and
    /// payload, and deduplication is on, the entry points at that record
    /// and nothing is written. Otherwise the obfuscated header and the
    /// payload are appended, the entry points at them, and with
    /// deduplication the index remembers the new record.
    pub open spec fn stored(&self, after: &Self, header: LocalFileHeaderView, payload: Seq<u8>) -> bool {
        let key = (header.crc32, header.compressed_size);
        let deduplicating = self.settings().enable_deduplication;
        let written = self.obfuscation_engine().obfuscated_local_file_header(header);
        &&& self.same_setup(after)
        &&& match duplicate(self.output(), self.processed(), deduplicating, key, payload) {
            Some(offset) => {
                &&& after.output() == self.output()
                &&& after.processed() == self.processed()
                &&& after.directory() == self.directory().push(
                    PartialCentralDirectoryHeaderView::of(header, offset),
                )
            },
            None => {
                &&& after.output() == self.output() + written.encoding() + payload
                &&& after.processed() == (if deduplicating {
                    self.processed().insert(
                        key,
                        remembered(self.processed(), key).push(
                            (self.output().len() as u64, written.size() as u32),
                        ),
                    )
                } else {
                    self.processed()
                })
                &&& after.directory() == self.directory().push(
                    PartialCentralDirectoryHeaderView::of(header, self.output().len() as u64),
                )
            },
        }
    }

    /// Storing an entry only appends: the bytes written before are the
    /// first bytes of the archive afterwards, and the entries added before
    /// are the first entries of the directory, followed by one more.
    pub proof fn lemma_stored_appends(
        &self,
        after: &Self,
        header: LocalFileHeaderView,
        payload: Seq<u8>,
    )
        requires
            self.stored(after, header, payload),
        ensures
            self.output().len() <= after.output().len(),
            after.output().subrange(0, self.output().len() as int) == self.output(),
            after.directory().len() == self.directory().len() + 1,
            after.directory().subrange(0, self.directory().len() as int) == self.directory(),
            after.directory().last().crc32 == header.crc32,
            after.directory().last().file_name == header.file_name,
    {
        assert(after.output().subrange(0, self.output().len() as int) =~= self.output());
        assert(after.directory().subrange(0, self.directory().len() as int)
            =~= self.directory());
    }

    /// Begins an archive, which may reuse entries of the archive of an
    /// earlier run.
    ///
    /// `previous_zip` holds the bytes of that archive, if there is one. It
    /// is assumed to come from this library, with squash times stored and
    /// with the same obfuscation engine and sanitizer key, and is read as
    /// `parsed_previous_zip` says: if that refuses it, so does this
    /// function, with the same error. The new archive starts with the
    /// prologue of the obfuscation engine.
    pub fn new(
        previous_zip: Option<Vec<u8>>,
        settings: SquashZipSettings,
        obfuscation_engine: O,
        sanitizer: SystemTimeSanitizer,
    ) -> (made: Result<Self, SquashZipError>)
        ensures
            match made {
                Ok(zip) => {
                    &&& zip.wf()
                    &&& zip.settings() == settings
                    &&& zip.obfuscation_engine() == obfuscation_engine
                    &&& zip.sanitizer_key() == sanitizer.key()
                    &&& zip.directory() == Seq::<PartialCentralDirectoryHeaderView>::empty()
                    &&& zip.processed() == no_processed_headers()
                    &&& match previous_zip {
                        Some(archive) => zip.previous_archive() == Some(archive@)
                            && parsed_previous_zip(archive@, obfuscation_engine, sanitizer.key())
                            == Ok::<Map<Seq<char>, PreviousFile>, SquashZipError>(
                            zip.previous_files(),
                        ),
                        None => zip.previous_archive().is_none() && zip.previous_files()
                            == no_previous_files(),
                    }
                    &&& exists|count: usize|
                        zip.output() == obfuscation_engine.header(
                            #[trigger] prologue_seed(count, settings.spool_buffer_size),
                        ) && count == zip.previous_files().dom().len()
                },
                Err(error) => previous_zip matches Some(archive) && parsed_previous_zip(
                    archive@,
                    obfuscation_engine,
                    sanitizer.key(),
                ) == Err::<Map<Seq<char>, PreviousFile>, SquashZipError>(error),
            },
    {
        let previous_zip_contents = match &previous_zip {
            Some(archive) => parse_previous_zip(archive.as_slice(), &obfuscation_engine, &sanitizer)?,
            None => crate::previous_zip::index_with_capacity(0),
        };
        let count = index_len(&previous_zip_contents);
        let seed = (count ^ settings.spool_buffer_size) as u64;
        let output_zip = obfuscation_engine.obfuscating_header(seed);
        proof {
            obfuscation_engine.lemma_header_size(seed);
            assert(seed == prologue_seed(count, settings.spool_buffer_size));
        }
        let processed_local_headers = processed_with_capacity(count);
        let central_directory_data: Vec<PartialCentralDirectoryHeader> = Vec::with_capacity(count);
        let zip = SquashZip {
            settings,
            obfuscation_engine,
            sanitizer,
            output_zip,
            previous_zip,
            previous_zip_contents,
            processed_local_headers,
            central_directory_data,
        };
        assert(zip.directory() =~= Seq::<PartialCentralDirectoryHeaderView>::empty());
        Ok(zip)
    }

    /// Returns when the file at `file_path` was added to the archive of
    /// the earlier run, in seconds since the Unix epoch, or nothing if that
    /// archive holds no such file or there is none.
    pub fn file_process_time(&self, file_path: &str) -> (time: Option<u64>)
        ensures
            time == (if self.previous_files().contains_key(file_path@) {
                Some(self.previous_files()[file_path@].squash_time)
            } else {
                None
            }),
    {
        match index_get(&self.previous_zip_contents, file_path) {
            Some(previous_file) => Some(previous_file.squash_time),
            None => None,
        }
    }

    /// Returns the number of files in the archive of the earlier run, which
    /// is zero if there is none.
    pub fn previous_file_count(&self) -> (count: usize)
        ensures
            count == self.previous_files().dom().len(),
    {
        index_len(&self.previous_zip_contents)
    }

    /// Adds an entry to the directory under construction: the entry of a
    /// file with the local file header `local_file_header` whose record
    /// stands at `local_file_header_offset`.
    fn add_partial_central_directory_header(
        &mut self,
        local_file_header: &LocalFileHeader,
        local_file_header_offset: u64,
    )
        ensures
            final(self).directory() == old(self).directory().push(
                PartialCentralDirectoryHeaderView::of(local_file_header@, local_file_header_offset),
            ),
            final(self).output() == old(self).output(),
            final(self).processed() == old(self).processed(),
            old(self).same_setup(final(self)),
    {
        self.central_directory_data.push(
            PartialCentralDirectoryHeader {
                local_header_offset: local_file_header_offset,
                file_name: slice_to_vec(local_file_header.file_name.as_slice()),
                compression_method: local_file_header.compression_method,
                squash_time: local_file_header.squash_time,
                crc32: local_file_header.crc32,
                compressed_size: local_file_header.compressed_size,
                uncompressed_size: local_file_header.uncompressed_size,
            },
        );
        assert(self.directory() =~= old(self).directory().push(
            PartialCentralDirectoryHeaderView::of(local_file_header@, local_file_header_offset),
        ));
    }

    /// Stores an entry: the part of adding a file that touches the archive.
    ///
    /// The records that are remembered under the CRC-32 and the size of
    /// the payload are compared with the payload, byte by byte and in the
    /// order in which they were written. At the first match the entry joins
    /// the directory with the offset of that record. Without a match, the
    /// obfuscated header and the payload are appended to the archive and
    /// the entry joins the directory with their offset. Returns the offset
    /// of the entry's record.
    pub fn store(&mut self, local_file_header: LocalFileHeader, payload: &[u8]) -> (offset: u64)
        requires
            old(self).wf(),
            local_file_header@.wf(),
            valid_utf8(local_file_header@.file_name),
            local_file_header@.compressed_size == payload@.len(),
        ensures
            final(self).wf(),
            old(self).stored(final(self), local_file_header@, payload@),
            final(self).directory().len() == old(self).directory().len() + 1,
            final(self).directory().last().local_header_offset == offset,
            stored_payload(final(self).output(), offset, local_file_header@.compressed_size)
                == payload@,
    {
        let key = (local_file_header.crc32, local_file_header.compressed_size);
        let ghost header = local_file_header@;
        let ghost entry_at = |offset: u64| PartialCentralDirectoryHeaderView::of(header, offset);
        if self.settings.enable_deduplication {
            let matching_local_headers = match processed_remove(
                &mut self.processed_local_headers,
                key,
            ) {
                Some(headers) => headers,
                None => Vec::with_capacity(1),
            };
            assert(matching_local_headers@ == remembered(old(self).processed(), key));
            let found = find_duplicate(
                self.output_zip.as_slice(),
                &matching_local_headers,
                payload,
            );
            match found {
                Some(offset) => {
                    processed_insert(&mut self.processed_local_headers, key, matching_local_headers);
                    assert(self.processed() =~= old(self).processed());
                    self.add_partial_central_directory_header(&local_file_header, offset);
                    proof {
                        lemma_first_match(
                            old(self).output(),
                            remembered(old(self).processed(), key),
                            payload@,
                        );
                        let j = choose|j: int|
                            0 <= j < old(self).processed()[key].len() && (
                            #[trigger] old(self).processed()[key][j]).0 == offset;
                        lemma_entry_shares_record(
                            old(self).output(),
                            old(self).obfuscation_engine().header_size(),
                            old(self).directory(),
                            old(self).processed(),
                            entry_at(offset),
                            j,
                        );
                    }
                    offset
                },
                None => {
                    let mut matching_local_headers = matching_local_headers;
                    let offset = self.output_zip.len() as u64;
                    self.add_partial_central_directory_header(&local_file_header, offset);
                    let local_file_header = self.obfuscation_engine.obfuscate_local_file_header(
                        local_file_header,
                    );
                    proof {
                        self.obfuscation_engine.lemma_local_file_header(header);
                    }
                    matching_local_headers.push((offset, local_file_header.size()));
                    processed_insert(&mut self.processed_local_headers, key, matching_local_headers);
                    local_file_header.write(&mut self.output_zip);
                    write_bytes(&mut self.output_zip, payload);
                    let length = self.output_zip.len();
                    proof {
                        local_file_header@.lemma_layout();
                        assert(length == old(self).output().len() + local_file_header@.size()
                            + payload@.len());
                        assert(self.processed() =~= old(self).processed().insert(
                            key,
                            remembered(old(self).processed(), key).push(
                                (offset, local_file_header@.size() as u32),
                            ),
                        ));
                        lemma_entry_appends_record(
                            old(self).output(),
                            old(self).obfuscation_engine().header_size(),
                            old(self).directory(),
                            old(self).processed(),
                            true,
                            entry_at(offset),
                            local_file_header@,
                            payload@,
                        );
                    }
                    offset
                },
            }
        } else {
            let offset = self.output_zip.len() as u64;
            self.add_partial_central_directory_header(&local_file_header, offset);
            let local_file_header = self.obfuscation_engine.obfuscate_local_file_header(
                local_file_header,
            );
            proof {
                self.obfuscation_engine.lemma_local_file_header(header);
            }
            local_file_header.write(&mut self.output_zip);
            write_bytes(&mut self.output_zip, payload);
            let length = self.output_zip.len();
            proof {
                local_file_header@.lemma_layout();
                assert(length == old(self).output().len() + local_file_header@.size()
                    + payload@.len());
                lemma_entry_appends_record(
                    old(self).output(),
                    old(self).obfuscation_engine().header_size(),
                    old(self).directory(),
                    old(self).processed(),
                    false,
                    entry_at(offset),
                    local_file_header@,
                    payload@,
                );
            }
            offset
        }
    }

    /// Processes a file for the archive, as the function of the same name
    /// in the module `compression` does with the settings and the
    /// sanitizer of this builder. Touches nothing of the archive.
    pub fn compress_and_generate_local_header(
        &self,
        path: &str,
        processed_data: &Vec<Vec<u8>>,
        skip_compression: bool,
        estimated_file_size: usize,
        squash_time: u64,
    ) -> (processed: Result<(LocalFileHeader, Vec<u8>), SquashZipError>)
        ensures
            match processed {
                Ok((header, payload)) => {
                    &&& processing_failure(
                        self.settings(),
                        path@,
                        processed_data@,
                        squash_time,
                    ).is_none()
                    &&& processed_as(
                        self.settings(),
                        self.sanitizer_key(),
                        path@,
                        processed_data@,
                        skip_compression,
                        squash_time,
                        header@,
                        payload@,
                    )
                },
                Err(error) => processing_failure(
                    self.settings(),
                    path@,
                    processed_data@,
                    squash_time,
                ) == Some(error),
            },
    {
        compress_and_generate_local_header(
            &self.settings,
            &self.sanitizer,
            path,
            processed_data,
            skip_compression,
            estimated_file_size,
            squash_time,
        )
    }

    /// Adds a file to the archive from its path and its processed bytes,
    /// which come in chunks.
    ///
    /// The file is processed as `compress_and_generate_local_header` says
    /// and then stored as `store` says: on success the directory has one
    /// entry more, whose record holds the payload. Adding fails if and only
    /// if processing does, and then the archive is left as it was.
    ///
    /// `squash_time` is the time of processing, in seconds since the Unix
    /// epoch.
    pub fn add_file(
        &mut self,
        path: &str,
        processed_data: &Vec<Vec<u8>>,
        skip_compression: bool,
        estimated_file_size: usize,
        squash_time: u64,
    ) -> (added: Result<(), SquashZipError>)
        requires
            old(self).wf(),
        ensures
            final(self).wf(),
            match added {
                Ok(()) => {
                    &&& processing_failure(
                        old(self).settings(),
                        path@,
                        processed_data@,
                        squash_time,
                    ).is_none()
                    &&& final(self).directory().len() == old(self).directory().len() + 1
                    &&& exists|header: LocalFileHeaderView, payload: Seq<u8>|
                        {
                            &&& #[trigger] processed_as(
                                old(self).settings(),
                                old(self).sanitizer_key(),
                                path@,
                                processed_data@,
                                skip_compression,
                                squash_time,
                                header,
                                payload,
                            )
                            &&& old(self).stored(final(self), header, payload)
                            &&& stored_payload(
                                final(self).output(),
                                final(self).directory().last().local_header_offset,
                                header.compressed_size,
                            ) == payload
                        }
                },
                Err(error) => {
                    &&& old(self).same_state(final(self))
                    &&& processing_failure(
                        old(self).settings(),
                        path@,
                        processed_data@,
                        squash_time,
                    ) == Some(error)
                },
            },
    {
        let (local_file_header, payload) = self.compress_and_generate_local_header(
            path,
            processed_data,
            skip_compression,
            estimated_file_size,
            squash_time,
        )?;
        proof {
            vstd::utf8::encode_utf8_valid_utf8(path@);
        }
        let ghost header = local_file_header@;
        self.store(local_file_header, payload.as_slice());
        assert(processed_as(
            old(self).settings(),
            old(self).sanitizer_key(),
            path@,
            processed_data@,
            skip_compression,
            squash_time,
            header,
            payload@,
        ));
        Ok(())
    }

    /// The local file header and the payload of the file at `path` of the
    /// earlier archive, or why the file cannot be taken over.
    ///
    /// The header carries what the earlier archive says about the file,
    /// with the squash time sanitized anew. The payload is the bytes of the
    /// earlier archive from the file's data offset on, as many as its
    /// compressed size says; an archive that ends before them is refused as
    /// an unexpected end.
    pub open spec fn previous_entry(&self, path: Seq<char>) -> Result<
        (LocalFileHeaderView, Seq<u8>),
        SquashZipError,
    > {
        let file = self.previous_files()[path];
        let archive = self.previous_archive().unwrap();
        if file.squash_time > MAXIMUM_TIME {
            Err(SquashZipError::SystemTimeSanitizationError)
        } else if encode_utf8(path).len() > 0xFFFF {
            Err(SquashZipError::Overflow)
        } else if file.data_offset + file.compressed_size > archive.len() {
            Err(SquashZipError::Io(IoFailure::UnexpectedEof))
        } else {
            Ok(
                (
                    local_file_header_of(
                        encode_utf8(path),
                        sanitized(self.sanitizer_key(), file.squash_time as u32, file.crc32),
                        file.compression_method,
                        file.crc32,
                        file.compressed_size,
                        file.uncompressed_size,
                    ),
                    archive.subrange(
                        file.data_offset as int,
                        file.data_offset + file.compressed_size,
                    ),
                ),
            )
        }
    }

    /// Cheaply adds a file of the earlier archive to this one, by taking
    /// over its payload.
    ///
    /// Fails with `NoSuchPreviousFile` if the earlier archive holds no file
    /// at `path`, or if there is no earlier archive. Otherwise the entry is
    /// made as `previous_entry` says and stored as `store` says, so that
    /// the record of the new entry holds the payload of the earlier
    /// archive. Whenever this function fails, the archive is left as it
    /// was.
    pub fn add_previous_file(&mut self, path: &str) -> (added: Result<(), SquashZipError>)
        requires
            old(self).wf(),
        ensures
            final(self).wf(),
            added.is_err() ==> old(self).same_state(final(self)),
            added.is_ok() ==> final(self).directory().len() == old(self).directory().len() + 1,
            if !old(self).previous_files().contains_key(path@) {
                added matches Err(SquashZipError::NoSuchPreviousFile(missing)) && missing@ == path@
            } else {
                match old(self).previous_entry(path@) {
                    Ok((header, payload)) => added.is_ok() && old(self).stored(
                        final(self),
                        header,
                        payload,
                    ) && stored_payload(
                        final(self).output(),
                        final(self).directory().last().local_header_offset,
                        header.compressed_size,
                    ) == payload,
                    Err(error) => added == Err::<(), SquashZipError>(error),
                }
            },
    {
        let previous_file = match index_get(&self.previous_zip_contents, path) {
            Some(previous_file) => previous_file,
            None => {
                return Err(SquashZipError::NoSuchPreviousFile(path.to_owned()));
            },
        };
        let sanitized_squash_time = self.sanitizer.sanitize(
            previous_file.squash_time,
            previous_file.crc32,
        )?;
        let mut local_file_header = LocalFileHeader::new(path)?;
        local_file_header.squash_time = sanitized_squash_time;
        local_file_header.crc32 = previous_file.crc32;
        local_file_header.compression_method = previous_file.compression_method;
        local_file_header.uncompressed_size = previous_file.uncompressed_size;
        local_file_header.compressed_size = previous_file.compressed_size;
        let payload = match &self.previous_zip {
            Some(archive) => {
                let length = archive.len() as u64;
                if previous_file.compressed_size as u64 > length || previous_file.data_offset
                    > length - previous_file.compressed_size as u64 {
                    return Err(SquashZipError::Io(IoFailure::UnexpectedEof));
                }
                let start = previous_file.data_offset as usize;
                slice_to_vec(
                    slice_subrange(
                        archive.as_slice(),
                        start,
                        start + previous_file.compressed_size as usize,
                    ),
                )
            },
            None => {
                assert(false);
                return Err(SquashZipError::NoSuchPreviousFile(path.to_owned()));
            },
        };
        proof {
            vstd::utf8::encode_utf8_valid_utf8(path@);
        }
        self.store(local_file_header, payload.as_slice());
        Ok(())
    }

    /// Finishes the archive: writes the central directory and the end of
    /// central directory record behind the records, and hands out the bytes
    /// of the whole archive, which are `finished_archive`. Always succeeds.
    ///
    /// If the central directory starts below the ZIP64 marker, a later run
    /// with the same obfuscation engine and sanitizer key reads from the
    /// archive what `files_of` says: every entry that was added.
    pub fn finish(self) -> (finished: Result<Vec<u8>, SquashZipError>)
        requires
            self.wf(),
        ensures
            finished matches Ok(archive) && archive@ == finished_archive(
                self.obfuscation_engine(),
                self.output(),
                self.directory(),
            ) && (self.output().len() - self.obfuscation_engine().header_size() < 0xFFFF_FFFF
                ==> parsed_previous_zip(
                archive@,
                self.obfuscation_engine(),
                self.sanitizer_key(),
            ) == Ok::<Map<Seq<char>, PreviousFile>, SquashZipError>(
                files_of(self.output(), self.sanitizer_key(), self.directory()),
            )),
    {
        let ghost builder = self;
        let central_directory_data = self.central_directory_data;
        let mut output_zip = self.output_zip;
        let obfuscation_engine = self.obfuscation_engine;
        let prologue = obfuscation_engine.obfuscating_header_size();
        let central_directory_entry_count = central_directory_data.len() as u64;
        let central_directory_start_offset = output_zip.len() as u64;
        let ghost output = output_zip@;
        let ghost directory = directory_view(central_directory_data@);
        let mut i: usize = 0;
        assert(directory.subrange(0, 0) =~= Seq::<PartialCentralDirectoryHeaderView>::empty());
        while i < central_directory_data.len()
            invariant
                i <= central_directory_data@.len(),
                directory == directory_view(central_directory_data@),
                prologue == obfuscation_engine.header_size(),
                prologue <= output.len(),
                forall|k: int|
                    0 <= k < directory.len() ==> crate::archive_layout::entry_placed(
                        output,
                        prologue,
                        #[trigger] directory[k],
                    ),
                output_zip@ == output + central_directory(
                    obfuscation_engine,
                    directory.subrange(0, i as int),
                ),
            decreases central_directory_data@.len() - i,
        {
            let header_data = &central_directory_data[i];
            assert(directory[i as int] == header_data@);
            let central_directory_header = CentralDirectoryHeader {
                compression_method: header_data.compression_method,
                squash_time: header_data.squash_time,
                crc32: header_data.crc32,
                compressed_size: header_data.compressed_size,
                uncompressed_size: header_data.uncompressed_size,
                local_header_disk_number: 0,
                local_header_offset: header_data.local_header_offset,
                file_name: slice_to_vec(header_data.file_name.as_slice()),
                spoof_version_made_by: false,
            };
            assert(central_directory_header@ == central_directory_header_of(header_data@));
            proof {
                obfuscation_engine.lemma_central_directory_header(central_directory_header@);
                let next = directory.subrange(0, i + 1);
                assert(next.drop_last() =~= directory.subrange(0, i as int));
                assert(next.last() == directory[i as int]);
            }
            obfuscation_engine.obfuscate_central_directory_header(
                central_directory_header,
            ).write(&mut output_zip);
            i = i + 1;
            assert(output_zip@ =~= output + central_directory(
                obfuscation_engine,
                directory.subrange(0, i as int),
            ));
        }
        assert(directory.subrange(0, i as int) =~= directory);
        let central_directory_end_offset = output_zip.len() as u64;
        let end_of_central_directory = EndOfCentralDirectory {
            disk_number: 0,
            central_directory_start_disk_number: 0,
            central_directory_entry_count_current_disk: central_directory_entry_count,
            total_central_directory_entry_count: central_directory_entry_count,
            central_directory_size: central_directory_end_offset - central_directory_start_offset,
            central_directory_start_offset,
            total_number_of_disks: 1,
            current_file_offset: central_directory_end_offset,
            zip64_record_size_offset: 0,
            spoof_version_made_by: false,
            zero_out_unused_zip64_fields: false,
        };
        obfuscation_engine.obfuscate_end_of_central_directory(end_of_central_directory).write(
            &mut output_zip,
        );
        let length = output_zip.len();
        proof {
            assert(output_zip@ == finished_archive(
                builder.obfuscation_engine(),
                builder.output(),
                builder.directory(),
            ));
            if builder.output().len() - builder.obfuscation_engine().header_size()
                < 0xFFFF_FFFF {
                lemma_finish_is_read_back(builder);
            }
        }
        Ok(output_zip)
    }
}

} // verus!
