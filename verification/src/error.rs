//! The errors that building an archive can end in.

use vstd::prelude::*;

verus! {

/// Why reading or writing bytes failed.
#[derive(Clone, Copy, Debug, PartialEq, Eq, Structural)]
pub enum IoFailure {
    /// A read asked for bytes beyond the end of its source.
    UnexpectedEof,
    /// A seek aimed before the start of its source.
    InvalidSeek,
    /// The Deflate compressor reported a failure.
    Compressor,
}

/// An error that may happen during a fallible archive operation.
#[derive(Clone, Debug, PartialEq, Eq)]
#[non_exhaustive]
pub enum SquashZipError {
    /// The previous ZIP file does not have the structure that this library
    /// gives its archives. The text names the deviation.
    InvalidPreviousZip(&'static str),
    /// A file name in the previous ZIP file is not valid UTF-8.
    InvalidFileName,
    /// A record of the previous ZIP file names a compression method other
    /// than Store and Deflate. The value is the raw method field.
    UnknownCompressionMethod(u16),
    /// A size, count or offset does not fit the width of its field.
    Overflow,
    /// A file is bigger than the 4 GiB that an entry can hold.
    FileTooBig,
    /// A time is outside the range that a record can store.
    SystemTimeSanitizationError,
    /// The previous ZIP file has no entry with this path.
    NoSuchPreviousFile(String),
    /// Bytes could not be read or written.
    Io(IoFailure),
}

/// Reason given when the end of central directory record is not where an
/// archive without comment has it.
pub open spec fn eocd_signature_not_found() -> &'static str {
    "EOCD signature not found at the expected position"
}

/// Reason given when the ZIP64 locator points at something else than a
/// ZIP64 end of central directory record.
pub open spec fn eocd64_signature_not_found() -> &'static str {
    "EOCD64 signature expected, but not found"
}

/// Reason given when a central directory header carries a file comment.
pub open spec fn file_comment_found() -> &'static str {
    "File comment found, but not expected"
}

/// Reason given when the extra fields of a central directory header have a
/// size other than none or one ZIP64 field.
pub open spec fn unexpected_cdh_extra_fields_size() -> &'static str {
    "Unexpected extra fields size in CDH"
}

/// Reason given when the extra field that should hold a 64-bit offset has
/// another tag.
pub open spec fn unexpected_cdh_extra_field() -> &'static str {
    "Found extra field in CDH that is not a ZIP64 extended information field"
}

/// Reason given when a central directory header points at something else
/// than a local file header.
pub open spec fn lfh_signature_not_found() -> &'static str {
    "LFH signature not found at expected position"
}

/// Reason given when a local file header carries extra fields.
pub open spec fn unexpected_lfh_extra_field() -> &'static str {
    "Unexpected extra field length in LFH"
}

} // verus!
