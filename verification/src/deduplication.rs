//! Finding payloads that the archive already holds.
//!
//! Two entries with the same bytes need one stored copy. Each record that
//! is written is remembered under the CRC-32 and the size of its payload.
//! A new payload with the same CRC-32 and size is then compared, byte by
//! byte, with the payloads remembered under them: only a true match lets
//! the new entry point at a record that is already there.

use vstd::prelude::*;
use ahash::AHashMap;
use crate::byte_order::{le16, le32};
use crate::zip_file_record::local_file_header_signature;

verus! {

/// The local file headers that were written, by CRC-32 and payload size:
/// for each, its offset in the archive and its own size.
pub uninterp spec fn processed_headers(index: AHashMap<(u32, u32), Vec<(u64, u32)>>) -> Map<
    (u32, u32),
    Seq<(u64, u32)>,
>;

/// An index without headers.
pub open spec fn no_processed_headers() -> Map<(u32, u32), Seq<(u64, u32)>> {
    Map::empty()
}

/// Makes an index with `AHashMap::with_capacity`: it holds no header.
#[verifier::external_body]
pub(crate) fn processed_with_capacity(capacity: usize) -> (index: AHashMap<
    (u32, u32),
    Vec<(u64, u32)>,
>)
    ensures
        processed_headers(index) == no_processed_headers(),
{
    AHashMap::with_capacity(capacity)
}

/// Takes a list out of an index with `AHashMap::remove`: the list that the
/// index held under `key`, if it held one. Afterwards the index holds none
/// under `key` and is unchanged under every other key.
#[verifier::external_body]
pub(crate) fn processed_remove(
    index: &mut AHashMap<(u32, u32), Vec<(u64, u32)>>,
    key: (u32, u32),
) -> (taken: Option<Vec<(u64, u32)>>)
    ensures
        processed_headers(*final(index)) == processed_headers(*old(index)).remove(key),
        match taken {
            Some(headers) => processed_headers(*old(index)).contains_key(key)
                && processed_headers(*old(index))[key] == headers@,
            None => !processed_headers(*old(index)).contains_key(key),
        },
{
    index.remove(&key)
}

/// Puts a list into an index with `AHashMap::insert`: afterwards the index
/// holds `headers` under `key`, in place of what it held there, and is
/// unchanged under every other key.
#[verifier::external_body]
pub(crate) fn processed_insert(
    index: &mut AHashMap<(u32, u32), Vec<(u64, u32)>>,
    key: (u32, u32),
    headers: Vec<(u64, u32)>,
)
    ensures
        processed_headers(*final(index)) == processed_headers(*old(index)).insert(key, headers@),
{
    index.insert(key, headers);
}

/// Where the payload starts behind the local file header at `offset`:
/// behind the header's thirty fixed bytes and its file name.
pub open spec fn payload_start(archive: Seq<u8>, offset: u64) -> int {
    offset + 30 + le16(archive, offset + 26)
}

/// Whether a record stands at `offset` of `archive`: a local file header
/// that opens with its signature, carries no extra field and announces
/// `compressed_size` bytes of payload, followed by that many bytes.
pub open spec fn record_at(archive: Seq<u8>, offset: u64, compressed_size: u32) -> bool {
    &&& offset + 30 <= archive.len()
    &&& archive.subrange(offset as int, offset + 4) == local_file_header_signature()
    &&& le32(archive, offset + 18) == compressed_size
    &&& le16(archive, offset + 28) == 0
    &&& payload_start(archive, offset) + compressed_size <= archive.len()
}

/// The payload of the record at `offset` of `archive`.
pub open spec fn stored_payload(archive: Seq<u8>, offset: u64, compressed_size: u32) -> Seq<u8> {
    archive.subrange(
        payload_start(archive, offset),
        payload_start(archive, offset) + compressed_size,
    )
}

/// Whether the bytes of `payload` stand at `start` of `archive`.
pub open spec fn payload_at(archive: Seq<u8>, start: int, payload: Seq<u8>) -> bool {
    &&& start + payload.len() <= archive.len()
    &&& archive.subrange(start, start + payload.len()) == payload
}

/// The offset of the first header of `headers` behind which `payload`
/// stands in `archive`, if there is one.
pub open spec fn first_match(archive: Seq<u8>, headers: Seq<(u64, u32)>, payload: Seq<u8>) -> Option<
    u64,
>
    decreases headers.len(),
{
    if headers.len() == 0 {
        None
    } else if payload_at(archive, headers[0].0 + headers[0].1, payload) {
        Some(headers[0].0)
    } else {
        first_match(archive, headers.drop_first(), payload)
    }
}

/// What `first_match` finds is the offset of one of the headers, and the
/// payload stands behind that header. If it finds nothing, the payload
/// stands behind none of them.
pub proof fn lemma_first_match(archive: Seq<u8>, headers: Seq<(u64, u32)>, payload: Seq<u8>)
    ensures
        match first_match(archive, headers, payload) {
            Some(offset) => exists|i: int|
                0 <= i < headers.len() && #[trigger] headers[i].0 == offset && payload_at(
                    archive,
                    headers[i].0 + headers[i].1,
                    payload,
                ),
            None => forall|i: int|
                0 <= i < headers.len() ==> !payload_at(
                    archive,
                    (#[trigger] headers[i]).0 + headers[i].1,
                    payload,
                ),
        },
    decreases headers.len(),
{
    if headers.len() > 0 {
        let rest = headers.drop_first();
        lemma_first_match(archive, rest, payload);
        if payload_at(archive, headers[0].0 + headers[0].1, payload) {
        } else {
            match first_match(archive, rest, payload) {
                Some(offset) => {
                    let i = choose|i: int|
                        0 <= i < rest.len() && #[trigger] rest[i].0 == offset && payload_at(
                            archive,
                            rest[i].0 + rest[i].1,
                            payload,
                        );
                    assert(headers[i + 1] == rest[i]);
                },
                None => {
                    assert forall|i: int| 0 <= i < headers.len() implies !payload_at(
                        archive,
                        (#[trigger] headers[i]).0 + headers[i].1,
                        payload,
                    ) by {
                        if i > 0 {
                            assert(headers[i] == rest[i - 1]);
                        }
                    }
                },
            }
        }
    }
}

/// Compares `payload` with the bytes at `start` of `archive`, byte by
/// byte. They match if the archive has as many bytes there as the payload
/// and none of them differs.
pub fn payload_stored_at(archive: &[u8], start: u64, payload: &[u8]) -> (stored: bool)
    ensures
        stored == payload_at(archive@, start as int, payload@),
{
    if payload.len() > archive.len() || start > (archive.len() - payload.len()) as u64 {
        return false;
    }
    let base = start as usize;
    let mut i: usize = 0;
    while i < payload.len()
        invariant
            i <= payload@.len(),
            base == start,
            base + payload@.len() <= archive@.len(),
            archive@.len() == archive.len(),
            archive@.subrange(base as int, base + i) == payload@.subrange(0, i as int),
        decreases payload.len() - i,
    {
        if archive[base + i] != payload[i] {
            proof {
                let window = archive@.subrange(start as int, start as int + payload@.len());
                assert(window[i as int] == archive@[base + i]);
                assert(window[i as int] != payload@[i as int]);
                assert(window != payload@);
            }
            return false;
        }
        i = i + 1;
        assert(archive@.subrange(base as int, base + i) =~= payload@.subrange(0, i as int)) by {
            let longer = archive@.subrange(base as int, base + i);
            let shorter = archive@.subrange(base as int, base + i - 1);
            assert forall|k: int| 0 <= k < i implies longer[k] == payload@.subrange(0, i as int)[k] by {
                if k < i - 1 {
                    assert(shorter[k] == payload@.subrange(0, i - 1)[k]);
                }
            }
        }
    }
    assert(payload@.subrange(0, i as int) =~= payload@);
    true
}

/// Looks among `headers` for one behind which `payload` stands in
/// `archive`, in their order, and gives the offset of the first.
pub fn find_duplicate(archive: &[u8], headers: &Vec<(u64, u32)>, payload: &[u8]) -> (found: Option<
    u64,
>)
    ensures
        found == first_match(archive@, headers@, payload@),
{
    let archive_length = archive.len();
    let mut i: usize = 0;
    assert(headers@.subrange(0, headers@.len() as int) =~= headers@);
    while i < headers.len()
        invariant
            i <= headers@.len(),
            archive_length == archive@.len(),
            first_match(archive@, headers@, payload@) == first_match(
                archive@,
                headers@.subrange(i as int, headers@.len() as int),
                payload@,
            ),
        decreases headers@.len() - i,
    {
        let (offset, size) = headers[i];
        let ghost rest = headers@.subrange(i as int, headers@.len() as int);
        assert(rest[0] == headers@[i as int]);
        assert(rest.drop_first() =~= headers@.subrange(i + 1, headers@.len() as int));
        match offset.checked_add(size as u64) {
            Some(start) => {
                if payload_stored_at(archive, start, payload) {
                    return Some(offset);
                }
            },
            None => {
                assert(archive@.len() == archive_length);
            },
        }
        assert(!payload_at(archive@, rest[0].0 + rest[0].1, payload@));
        assert(first_match(archive@, rest, payload@) == first_match(
            archive@,
            rest.drop_first(),
            payload@,
        ));
        i = i + 1;
    }
    assert(headers@.subrange(i as int, headers@.len() as int) =~= Seq::<(u64, u32)>::empty());
    None
}

} // verus!
