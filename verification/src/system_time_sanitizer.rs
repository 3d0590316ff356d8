//! The keyed transform between a point in time and the four bytes that a
//! record stores for it.
//!
//! An archive remembers when each of its entries was made, so that a later
//! run can tell whether an input file changed since. Stored in the clear,
//! these times would tell a reader of the archive when its author worked.
//! They are therefore stored encrypted with a key that stays on the machine
//! and with the entry's CRC-32 as a tweak, so that equal times of different
//! entries look unrelated. The cipher is a balanced Feistel network over
//! the 32 bits of the time whose round function is AES-128: whatever the
//! round function computes, such a network is a bijection, and running the
//! rounds backwards undoes it.

use vstd::prelude::*;
use aes::cipher::Array;
use aes::cipher::BlockCipherEncrypt;
use aes::cipher::KeyInit;
use aes::Aes128;
use crate::byte_order::{
    le16, le16_bytes, le32, le32_bytes, lemma_le32_bytes_of_le32, lemma_le32_round_trip, read_u32,
    write_u16, write_u32,
};
use crate::error::SquashZipError;

verus! {

/// The number of rounds of the Feistel network.
pub const ROUNDS: u8 = 10;

/// The biggest time, in seconds since the Unix epoch, that four bytes can
/// store.
pub const MAXIMUM_TIME: u64 = 0xFFFF_FFFF;

/// The sixteen bytes that AES-128 makes of the sixteen bytes `block` under
/// the sixteen bytes of `key`.
pub uninterp spec fn aes128_encrypt_block(key: Seq<u8>, block: Seq<u8>) -> Seq<u8>;

/// Encrypts one block with `Aes128::encrypt_block` of the `aes` crate,
/// under a cipher made by `Aes128::new` from `key`. The result is the
/// AES-128 encryption of the block, which depends on the key and the block
/// alone.
#[verifier::external_body]
fn encrypt_block(key: &[u8; 16], block: &[u8; 16]) -> (encrypted: [u8; 16])
    ensures
        encrypted@ == aes128_encrypt_block(key@, block@),
{
    let cipher = Aes128::new(&Array::from(*key));
    let mut buffer = Array::from(*block);
    cipher.encrypt_block(&mut buffer);
    buffer.into()
}

/// The block that a round encrypts: the round's number, the half of the
/// state that the round leaves as it is, the tweak, and zeros.
pub open spec fn round_block(round: u8, half: u16, tweak: u32) -> Seq<u8> {
    seq![round] + le16_bytes(half) + le32_bytes(tweak) + seq![
        0u8,
        0u8,
        0u8,
        0u8,
        0u8,
        0u8,
        0u8,
        0u8,
        0u8,
    ]
}

/// What a round mixes into the other half of the state: the first two
/// bytes of the encrypted round block.
pub open spec fn round_mask(key: Seq<u8>, round: u8, half: u16, tweak: u32) -> u16 {
    le16(aes128_encrypt_block(key, round_block(round, half, tweak)), 0)
}

/// The state after one round: the halves change places, and the mask of
/// the right half is mixed into the left one.
pub open spec fn round_forward(key: Seq<u8>, tweak: u32, state: (u16, u16), round: u8) -> (
    u16,
    u16,
) {
    (state.1, state.0 ^ round_mask(key, round, state.1, tweak))
}

/// The state before a round, given the state after it.
pub open spec fn round_backward(key: Seq<u8>, tweak: u32, state: (u16, u16), round: u8) -> (
    u16,
    u16,
) {
    (state.1 ^ round_mask(key, round, state.0, tweak), state.0)
}

/// The state after the rounds from `round` on.
pub open spec fn rounds_forward(key: Seq<u8>, tweak: u32, state: (u16, u16), round: nat) -> (
    u16,
    u16,
)
    decreases ROUNDS - round,
{
    if round >= ROUNDS {
        state
    } else {
        rounds_forward(key, tweak, round_forward(key, tweak, state, round as u8), round + 1)
    }
}

/// The state before the first round, given the state after the first
/// `round` rounds.
pub open spec fn rounds_backward(key: Seq<u8>, tweak: u32, state: (u16, u16), round: nat) -> (
    u16,
    u16,
)
    decreases round,
{
    if round == 0 {
        state
    } else {
        rounds_backward(
            key,
            tweak,
            round_backward(key, tweak, state, (round - 1) as u8),
            (round - 1) as nat,
        )
    }
}

/// The two halves of a 32-bit value, the upper one first.
pub open spec fn halves(value: u32) -> (u16, u16) {
    ((value / 0x1_0000) as u16, (value % 0x1_0000) as u16)
}

/// The 32-bit value with these halves.
pub open spec fn joined(state: (u16, u16)) -> u32 {
    (state.0 as int * 0x1_0000 + state.1 as int) as u32
}

/// The four bytes stored for the time `seconds` in an entry with CRC-32
/// `tweak`, under `key`.
pub open spec fn sanitized(key: Seq<u8>, seconds: u32, tweak: u32) -> Seq<u8> {
    le32_bytes(joined(rounds_forward(key, tweak, halves(seconds), 0)))
}

/// The time that the four bytes `stored` stand for in an entry with CRC-32
/// `tweak`, under `key`.
pub open spec fn desanitized(key: Seq<u8>, stored: Seq<u8>, tweak: u32) -> u32 {
    joined(rounds_backward(key, tweak, halves(le32(stored, 0)), ROUNDS as nat))
}

/// Going one round back after going it forward leaves the state as it was.
pub proof fn lemma_round_inverse(key: Seq<u8>, tweak: u32, state: (u16, u16), round: u8)
    ensures
        round_backward(key, tweak, round_forward(key, tweak, state, round), round) == state,
{
    let left = state.0;
    let mask = round_mask(key, round, state.1, tweak);
    assert((left ^ mask) ^ mask == left) by (bit_vector);
}

/// Going all rounds back after going the rounds from `round` on forward
/// gives what going the first `round` rounds back gives.
pub proof fn lemma_rounds_inverse(key: Seq<u8>, tweak: u32, state: (u16, u16), round: nat)
    requires
        round <= ROUNDS,
    ensures
        rounds_backward(key, tweak, rounds_forward(key, tweak, state, round), ROUNDS as nat)
            == rounds_backward(key, tweak, state, round),
    decreases ROUNDS - round,
{
    if round < ROUNDS {
        let next = round_forward(key, tweak, state, round as u8);
        lemma_rounds_inverse(key, tweak, next, round + 1);
        lemma_round_inverse(key, tweak, state, round as u8);
    }
}

/// Going one round forward after going it back leaves the state as it was.
pub proof fn lemma_round_inverse_backward(
    key: Seq<u8>,
    tweak: u32,
    state: (u16, u16),
    round: u8,
)
    ensures
        round_forward(key, tweak, round_backward(key, tweak, state, round), round) == state,
{
    let right = state.1;
    let mask = round_mask(key, round, state.0, tweak);
    assert((right ^ mask) ^ mask == right) by (bit_vector);
}

/// Going the rounds from `round` on forward after going the first `round`
/// rounds back gives what going all rounds forward gives.
pub proof fn lemma_rounds_inverse_backward(
    key: Seq<u8>,
    tweak: u32,
    state: (u16, u16),
    round: nat,
)
    requires
        round <= ROUNDS,
    ensures
        rounds_forward(key, tweak, rounds_backward(key, tweak, state, round), 0)
            == rounds_forward(key, tweak, state, round),
    decreases round,
{
    if round > 0 {
        let previous = round_backward(key, tweak, state, (round - 1) as u8);
        lemma_rounds_inverse_backward(key, tweak, previous, (round - 1) as nat);
        lemma_round_inverse_backward(key, tweak, state, (round - 1) as u8);
    }
}

/// Splitting a value into halves and joining them gives the value, and the
/// other way round.
pub proof fn lemma_halves_joined(value: u32, state: (u16, u16))
    ensures
        joined(halves(value)) == value,
        halves(joined(state)) == state,
{
}

/// A stored time is read back as it was: for every key, every time that
/// four bytes can hold and every tweak, desanitizing the sanitized time
/// gives the time.
pub proof fn lemma_desanitize_sanitize(key: Seq<u8>, seconds: u32, tweak: u32)
    ensures
        sanitized(key, seconds, tweak).len() == 4,
        desanitized(key, sanitized(key, seconds, tweak), tweak) == seconds,
{
    let encrypted = rounds_forward(key, tweak, halves(seconds), 0);
    lemma_le32_round_trip(joined(encrypted));
    lemma_halves_joined(seconds, encrypted);
    lemma_rounds_inverse(key, tweak, halves(seconds), 0);
}

/// Stored bytes stand for the time that is stored as them: for every key,
/// every four bytes and every tweak, sanitizing the desanitized bytes gives
/// the bytes. Together with `lemma_desanitize_sanitize` this makes
/// sanitizing a bijection between the times and the stored bytes.
pub proof fn lemma_sanitize_desanitize(key: Seq<u8>, stored: Seq<u8>, tweak: u32)
    requires
        stored.len() == 4,
    ensures
        sanitized(key, desanitized(key, stored, tweak), tweak) == stored,
{
    let value = le32(stored, 0);
    let decrypted = rounds_backward(key, tweak, halves(value), ROUNDS as nat);
    lemma_halves_joined(value, decrypted);
    lemma_rounds_inverse_backward(key, tweak, halves(value), ROUNDS as nat);
    lemma_le32_bytes_of_le32(stored);
}

/// Sanitizes and desanitizes the times of the entries of an archive.
#[derive(Clone, Copy, Debug)]
pub struct SystemTimeSanitizer {
    key: [u8; 16],
}

impl SystemTimeSanitizer {
    /// The key that the times are encrypted with.
    pub closed spec fn key(&self) -> Seq<u8> {
        self.key@
    }

    /// Makes a sanitizer that works under `key`.
    pub fn new(key: [u8; 16]) -> (sanitizer: Self)
        ensures
            sanitizer.key() == key@,
    {
        SystemTimeSanitizer { key }
    }

    fn mask(&self, round: u8, half: u16, tweak: u32) -> (mask: u16)
        ensures
            mask == round_mask(self.key(), round, half, tweak),
    {
        let mut fields: Vec<u8> = Vec::new();
        fields.push(round);
        assert(fields@ =~= seq![round]);
        write_u16(&mut fields, half);
        write_u32(&mut fields, tweak);
        assert(fields@.len() == 7);
        let block: [u8; 16] = [
            fields[0],
            fields[1],
            fields[2],
            fields[3],
            fields[4],
            fields[5],
            fields[6],
            0,
            0,
            0,
            0,
            0,
            0,
            0,
            0,
            0,
        ];
        assert(block@ =~= round_block(round, half, tweak));
        let encrypted = encrypt_block(&self.key, &block);
        let low: u16 = encrypted[0] as u16;
        let high: u16 = encrypted[1] as u16;
        low + 0x100 * high
    }

    /// The four bytes to store for the time `seconds`, counted from the
    /// Unix epoch, in an entry whose CRC-32 is `tweak`. Fails with
    /// `SystemTimeSanitizationError` if and only if the time is beyond what
    /// four bytes can hold.
    pub fn sanitize(&self, seconds: u64, tweak: u32) -> (stored: Result<[u8; 4], SquashZipError>)
        ensures
            match stored {
                Ok(bytes) => seconds <= MAXIMUM_TIME && bytes@ == sanitized(
                    self.key(),
                    seconds as u32,
                    tweak,
                ),
                Err(error) => seconds > MAXIMUM_TIME && error
                    == SquashZipError::SystemTimeSanitizationError,
            },
    {
        if seconds > MAXIMUM_TIME {
            return Err(SquashZipError::SystemTimeSanitizationError);
        }
        let value: u32 = seconds as u32;
        let mut left: u16 = (value / 0x1_0000) as u16;
        let mut right: u16 = (value % 0x1_0000) as u16;
        let mut round: u8 = 0;
        while round < ROUNDS
            invariant
                round <= ROUNDS,
                rounds_forward(self.key(), tweak, (left, right), round as nat) == rounds_forward(
                    self.key(),
                    tweak,
                    halves(value),
                    0,
                ),
            decreases ROUNDS - round,
        {
            let mixed: u16 = left ^ self.mask(round, right, tweak);
            left = right;
            right = mixed;
            round = round + 1;
        }
        let joined_value: u32 = left as u32 * 0x1_0000 + right as u32;
        let mut bytes: Vec<u8> = Vec::new();
        write_u32(&mut bytes, joined_value);
        assert(bytes@ =~= le32_bytes(joined_value));
        proof {
            lemma_le32_round_trip(joined_value);
        }
        let stored: [u8; 4] = [bytes[0], bytes[1], bytes[2], bytes[3]];
        assert(stored@ =~= bytes@);
        Ok(stored)
    }

    /// The time, in seconds since the Unix epoch, that the four bytes
    /// `stored` stand for in an entry whose CRC-32 is `tweak`.
    pub fn desanitize(&self, stored: &[u8; 4], tweak: u32) -> (seconds: u64)
        ensures
            seconds == desanitized(self.key(), stored@, tweak),
    {
        let value: u32 = read_u32(stored.as_slice(), 0);
        let mut left: u16 = (value / 0x1_0000) as u16;
        let mut right: u16 = (value % 0x1_0000) as u16;
        let mut round: u8 = ROUNDS;
        while round > 0
            invariant
                round <= ROUNDS,
                rounds_backward(self.key(), tweak, (left, right), round as nat)
                    == rounds_backward(self.key(), tweak, halves(value), ROUNDS as nat),
            decreases round,
        {
            round = round - 1;
            let mixed: u16 = right ^ self.mask(round, left, tweak);
            right = left;
            left = mixed;
        }
        (left as u32 * 0x1_0000 + right as u32) as u64
    }
}

} // verus!
