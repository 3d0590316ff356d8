//! A ZIP archive builder that reuses entries of an archive it made before,
//! stores identical payloads once and tunes Deflate to the size of each
//! file.
//!
//! An archive is built by a [`SquashZip`]. Everything is done on bytes in
//! memory: the archive of an earlier run comes in as bytes, the bytes of
//! each file come in as chunks, and the finished archive goes out as
//! bytes. What is computed from them is stated in contracts and proved:
//!
//! - `previous_zip` reads the archive of an earlier run, and says as a
//!   function of its bytes what is read and when it is refused;
//! - `compression` and `iterations` decide whether a file is deflated and
//!   with how many iterations, in exact arithmetic;
//! - `deduplication` and `archive_layout` find the payloads that are
//!   already stored, and keep the bytes, the directory and the index of an
//!   archive under construction consistent;
//! - `engine` puts them together, and `read_back` shows that a finished
//!   archive is read back as it was made;
//! - `system_time_sanitizer` stores times so that they can be read back
//!   only under the key they were stored with;
//! - `obfuscation_engine` states what the builder relies on in whatever
//!   rewrites the records on their way into the archive;
//! - `zip_file_record` and `byte_order` say which bytes stand for which
//!   record, and `natural` counts beyond 64 bits.
//!
//! Four things are taken on trust from other crates: AES-128 from `aes`,
//! the CRC-32 from `crc32fast`, Deflate from `zopfli`, and the hash maps of
//! `ahash`. From the standard library, the decoding of UTF-8 is.

pub mod archive_layout;
pub mod byte_order;
pub mod compression;
pub mod deduplication;
pub mod engine;
pub mod error;
pub mod iterations;
pub mod natural;
pub mod obfuscation_engine;
pub mod previous_zip;
pub mod read_back;
pub mod settings;
pub mod system_time_sanitizer;
pub mod zip_file_record;

pub use engine::SquashZip;
pub use error::SquashZipError;
pub use settings::SquashZipSettings;
