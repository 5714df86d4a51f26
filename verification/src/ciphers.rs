//! The AEAD primitive: AES-128-GCM with counter nonces, and the frame that an
//! encrypted module is written in.
//!
//! A frame is laid out as follows, with the length written as a little-endian
//! signed 32-bit integer:
//!
//! ```text
//! | length (4) | nonce (12) | ciphertext (N) | tag (16) |     length = 12 + N + 16
//! ```

use crate::aead::{
    aes_128_gcm_open, aes_128_gcm_seal, fill_random, open, seal, KEY_LEN, NONCE_LEN, TAG_LEN,
};
use crate::errors::{bytes_of, ParquetError};
use crate::little_endian::{
    le_array_12, le_bytes, le_value, le_value_u128, lemma_le_bytes_injective, lemma_le_bytes_len,
    lemma_le_value_of_le_bytes, lemma_pow256_12, lemma_pow256_4, push_le_bytes,
};
use ring::rand::SystemRandom;
use vstd::prelude::*;

verus! {

/// The length of the length prefix of a frame in bytes.
pub const SIZE_LEN: usize = 4;

/// The number of different nonces: 2 to the power 96.
pub const NONCE_SPACE: u128 = 0x1_0000_0000_0000_0000_0000_0000;

/// The number of nonces that one sequence gives out before it is exhausted:
/// every nonce but the one it started from.
pub const MAX_NONCES: u128 = 0xffff_ffff_ffff_ffff_ffff_ffff;

/// The longest plaintext that fits in a frame: with nonce and tag its length
/// must still be a signed 32-bit integer.
pub const MAX_PLAINTEXT_LEN: usize = 2147483619;

/// The shortest frame that can be opened: prefix, nonce and tag around an
/// empty ciphertext.
pub const MIN_FRAME_LEN: usize = 32;

/// The nonce that a sequence seeded with `start` gives out after it has given
/// out `emitted` others: the 12 little-endian bytes of `start + 1 + emitted`,
/// taken modulo 2 to the 96.
pub open spec fn nonce_at(start: nat, emitted: nat) -> Seq<u8> {
    le_bytes((start + 1 + emitted) % (NONCE_SPACE as nat), 12)
}

/// A sequence of nonces that never repeats: a counter that starts one above a
/// random seed and stops when it comes back to the seed.
#[derive(Debug)]
pub struct CounterNonce {
    start: u128,
    counter: u128,
}

impl CounterNonce {
    #[verifier::type_invariant]
    spec fn in_range(self) -> bool {
        self.start < NONCE_SPACE && self.counter < NONCE_SPACE
    }

    /// The seed of the sequence: the one nonce that it never gives out.
    pub closed spec fn start(self) -> nat {
        self.start as nat
    }

    /// How many nonces the sequence has given out.
    pub closed spec fn emitted(self) -> nat {
        ((self.counter + NONCE_SPACE - self.start - 1) % (NONCE_SPACE as int)) as nat
    }

    /// Whether the sequence has given out all its nonces.
    pub open spec fn exhausted(self) -> bool {
        self.emitted() == MAX_NONCES
    }

    /// The nonce that the next call of [`CounterNonce::advance`] gives out, if
    /// there is one left.
    pub open spec fn next_nonce(self) -> Option<Seq<u8>> {
        if self.exhausted() {
            None
        } else {
            Some(nonce_at(self.start(), self.emitted()))
        }
    }

    /// Whether `after` is this sequence after one more request for a nonce:
    /// it has the same seed, and has given out one nonce more unless this
    /// sequence was exhausted.
    pub open spec fn stepped(self, after: CounterNonce) -> bool {
        &&& after.start() == self.start()
        &&& after.emitted() == if self.exhausted() {
            self.emitted()
        } else {
            self.emitted() + 1
        }
    }

    /// The sequence that starts one above the low 96 bits of `seed`.
    ///
    /// Two sequences with the same seed give out the same nonces: under one
    /// key, use a seed once.
    pub fn from_seed(seed: u128) -> (nonces: Self)
        ensures
            nonces.start() == seed as nat % (NONCE_SPACE as nat),
            nonces.emitted() == 0,
    {
        let start: u128 = seed % NONCE_SPACE;
        let counter: u128 = if start == MAX_NONCES {
            0
        } else {
            start + 1
        };
        CounterNonce { start, counter }
    }

    /// The sequence that starts one above the low 96 bits of `seed`, as it is
    /// after it has given out as many nonces as the low 96 bits of `emitted`
    /// say.
    pub fn from_seed_after(seed: u128, emitted: u128) -> (nonces: Self)
        ensures
            nonces.start() == seed as nat % (NONCE_SPACE as nat),
            nonces.emitted() == emitted as nat % (NONCE_SPACE as nat),
    {
        let start: u128 = seed % NONCE_SPACE;
        let counter: u128 = (start + 1 + emitted % NONCE_SPACE) % NONCE_SPACE;
        CounterNonce { start, counter }
    }

    /// A sequence seeded with 16 bytes from the system's random number
    /// generator.
    pub fn new(rng: &SystemRandom) -> (nonces: Result<Self, ParquetError>)
        ensures
            match nonces {
                Ok(fresh) => fresh.emitted() == 0,
                Err(e) => e == ParquetError::Randomness,
            },
    {
        match fill_random(rng, 16) {
            Ok(seed) => Ok(CounterNonce::from_seed(le_value_u128(seed.as_slice()))),
            Err(_) => Err(ParquetError::Randomness),
        }
    }

    /// The counter as a nonce: its 12 little-endian bytes.
    pub fn get_bytes(&self) -> (bytes: [u8; 12])
        ensures
            bytes@ == nonce_at(self.start(), self.emitted()),
    {
        proof {
            use_type_invariant(self);
        }
        le_array_12(self.counter)
    }

    /// Gives out the next nonce, or refuses once the counter has come back to
    /// its start.
    pub fn advance(&mut self) -> (nonce: Result<[u8; 12], ParquetError>)
        ensures
            old(self).stepped(*final(self)),
            nonce is Err <==> old(self).exhausted(),
            match nonce {
                Ok(bytes) => {
                    &&& old(self).next_nonce() == Some(bytes@)
                    &&& final(self).emitted() == old(self).emitted() + 1
                },
                Err(e) => {
                    &&& old(self).exhausted()
                    &&& e == ParquetError::NonceExhausted
                    &&& *final(self) == *old(self)
                },
            },
    {
        proof {
            use_type_invariant(&*self);
        }
        if self.counter == self.start {
            Err(ParquetError::NonceExhausted)
        } else {
            let bytes = self.get_bytes();
            self.counter = if self.counter == MAX_NONCES {
                0
            } else {
                self.counter + 1
            };
            Ok(bytes)
        }
    }
}

/// A sequence gives out a different nonce each time: any two of the nonces
/// that it gives out before it is exhausted differ.
pub proof fn lemma_nonces_distinct(start: nat, i: nat, j: nat)
    requires
        i < MAX_NONCES,
        j < MAX_NONCES,
        i != j,
    ensures
        nonce_at(start, i) != nonce_at(start, j),
{
    let a = (start + 1 + i) % (NONCE_SPACE as nat);
    let b = (start + 1 + j) % (NONCE_SPACE as nat);
    lemma_pow256_12();
    if nonce_at(start, i) == nonce_at(start, j) {
        lemma_le_bytes_injective(a, b, 12);
        assert(false);
    }
}

/// The frame that holds a nonce and what was sealed under it: the length of
/// the two as 4 little-endian bytes, then the nonce, then the sealed bytes.
pub open spec fn frame(nonce: Seq<u8>, sealed: Seq<u8>) -> Seq<u8> {
    le_bytes(nonce.len() + sealed.len(), 4) + nonce + sealed
}

/// What encrypting `plaintext` gives: a refusal where no nonce is left or the
/// cipher refuses, else the frame around the nonce and the sealed plaintext.
pub open spec fn encrypted(
    key: Seq<u8>,
    nonce: Option<Seq<u8>>,
    aad: Seq<u8>,
    plaintext: Seq<u8>,
) -> Result<Seq<u8>, ParquetError> {
    match nonce {
        None => Err(ParquetError::NonceExhausted),
        Some(nonce) => match aes_128_gcm_seal(key, nonce, aad, plaintext) {
            Some(sealed) => Ok(frame(nonce, sealed)),
            None => Err(ParquetError::CryptoSetup),
        },
    }
}

/// What decrypting a frame gives: the plaintext that the cipher opens from the
/// bytes after the nonce, under the nonce at bytes 4 to 16. A frame of fewer
/// than 32 bytes, and one that the cipher does not open, fail authentication.
/// The length prefix is not read.
pub open spec fn decrypted(key: Seq<u8>, frame: Seq<u8>, aad: Seq<u8>) -> Result<
    Seq<u8>,
    ParquetError,
> {
    if frame.len() < MIN_FRAME_LEN {
        Err(ParquetError::AuthenticationFailed)
    } else {
        match aes_128_gcm_open(
            key,
            frame.subrange(SIZE_LEN as int, SIZE_LEN + NONCE_LEN),
            aad,
            frame.subrange(SIZE_LEN + NONCE_LEN, frame.len() as int),
        ) {
            Some(plaintext) => Ok(plaintext),
            None => Err(ParquetError::AuthenticationFailed),
        }
    }
}

/// The parts of a frame: it is 4 bytes longer than nonce and sealed bytes
/// together, its first four bytes read as a little-endian integer give the
/// length of the rest, and nonce and sealed bytes follow unchanged.
pub proof fn lemma_frame_layout(nonce: Seq<u8>, sealed: Seq<u8>)
    requires
        nonce.len() == NONCE_LEN,
        nonce.len() + sealed.len() <= i32::MAX,
    ensures
        frame(nonce, sealed).len() == SIZE_LEN + NONCE_LEN + sealed.len(),
        le_value(frame(nonce, sealed).subrange(0, SIZE_LEN as int)) == NONCE_LEN + sealed.len(),
        frame(nonce, sealed).subrange(SIZE_LEN as int, SIZE_LEN + NONCE_LEN) == nonce,
        frame(nonce, sealed).subrange(SIZE_LEN + NONCE_LEN, frame(nonce, sealed).len() as int)
            == sealed,
{
    let length = nonce.len() + sealed.len();
    let whole = frame(nonce, sealed);
    lemma_le_bytes_len(length, 4);
    lemma_pow256_4();
    lemma_le_value_of_le_bytes(length, 4);
    assert(whole.subrange(0, SIZE_LEN as int) =~= le_bytes(length, 4));
    assert(whole.subrange(SIZE_LEN as int, SIZE_LEN + NONCE_LEN) =~= nonce);
    assert(whole.subrange(SIZE_LEN + NONCE_LEN, whole.len() as int) =~= sealed);
}

/// Builds the frame around a nonce and what was sealed under it.
pub fn assemble_frame(nonce: &[u8; 12], sealed: &[u8]) -> (bytes: Vec<u8>)
    requires
        NONCE_LEN + sealed@.len() <= i32::MAX,
    ensures
        bytes@ == frame(nonce@, sealed@),
{
    let length: usize = NONCE_LEN + sealed.len();
    let mut bytes: Vec<u8> = Vec::new();
    push_le_bytes(&mut bytes, length as u128, SIZE_LEN);
    bytes.extend_from_slice(nonce.as_slice());
    bytes.extend_from_slice(sealed);
    assert(bytes@ =~= frame(nonce@, sealed@));
    bytes
}

/// Opens frames under one key. It holds no state besides the key, so it may be
/// shared freely.
pub trait BlockDecryptor: Send + Sync {
    /// The key that frames are opened under.
    spec fn key(&self) -> Seq<u8>;

    /// Returns the plaintext of a frame that was sealed under this key and
    /// `aad`.
    fn decrypt(&self, length_and_ciphertext: &[u8], aad: &[u8]) -> (plaintext: Result<
        Vec<u8>,
        ParquetError,
    >)
        ensures
            bytes_of(plaintext) == decrypted(self.key(), length_and_ciphertext@, aad@),
    ;
}

/// Seals plaintexts into frames under one key, each under a nonce of its own.
pub trait BlockEncryptor: Send + Sync {
    /// The key that plaintexts are sealed under.
    spec fn key(&self) -> Seq<u8>;

    /// The sequence that the nonces are drawn from.
    spec fn nonce_sequence(&self) -> CounterNonce;

    /// Returns the frame that holds `plaintext`, sealed under the key, the
    /// next nonce of the sequence and `aad`.
    ///
    /// A frame that comes back decrypts, under the same key and `aad`, to
    /// `plaintext`. It is 32 bytes longer than `plaintext`, its first four
    /// bytes give, as a little-endian integer, its length less four, and the
    /// next twelve are the nonce.
    fn encrypt(&mut self, plaintext: &[u8], aad: &[u8]) -> (bytes: Result<Vec<u8>, ParquetError>)
        requires
            plaintext@.len() <= MAX_PLAINTEXT_LEN,
        ensures
            final(self).key() == old(self).key(),
            old(self).nonce_sequence().stepped(final(self).nonce_sequence()),
            bytes_of(bytes) == encrypted(
                old(self).key(),
                old(self).nonce_sequence().next_nonce(),
                aad@,
                plaintext@,
            ),
            bytes matches Ok(sealed) ==> {
                &&& decrypted(old(self).key(), sealed@, aad@) == Ok::<Seq<u8>, ParquetError>(
                    plaintext@,
                )
                &&& sealed@.len() == SIZE_LEN + NONCE_LEN + plaintext@.len() + TAG_LEN
                &&& le_value(sealed@.subrange(0, SIZE_LEN as int)) == NONCE_LEN + plaintext@.len()
                    + TAG_LEN
                &&& Some(sealed@.subrange(SIZE_LEN as int, SIZE_LEN + NONCE_LEN)) == old(
                    self,
                ).nonce_sequence().next_nonce()
            },
    ;
}

/// A [`BlockDecryptor`] that opens with AES-128-GCM.
#[derive(Debug)]
pub struct RingGcmBlockDecryptor {
    key: Vec<u8>,
}

impl Clone for RingGcmBlockDecryptor {
    fn clone(&self) -> (copy: Self)
        ensures
            copy.key() == self.key(),
    {
        RingGcmBlockDecryptor { key: self.key.clone() }
    }
}

impl RingGcmBlockDecryptor {
    /// A decryptor for a key of 16 bytes; a key of any other length is
    /// refused.
    pub fn new(key_bytes: &[u8]) -> (decryptor: Result<Self, ParquetError>)
        ensures
            match decryptor {
                Ok(made) => key_bytes@.len() == KEY_LEN && made.key() == key_bytes@,
                Err(e) => key_bytes@.len() != KEY_LEN && e == ParquetError::CryptoSetup,
            },
    {
        if key_bytes.len() != KEY_LEN {
            return Err(ParquetError::CryptoSetup);
        }
        let mut key: Vec<u8> = Vec::new();
        key.extend_from_slice(key_bytes);
        assert(key@ =~= key_bytes@);
        Ok(RingGcmBlockDecryptor { key })
    }
}

impl BlockDecryptor for RingGcmBlockDecryptor {
    closed spec fn key(&self) -> Seq<u8> {
        self.key@
    }

    fn decrypt(&self, length_and_ciphertext: &[u8], aad: &[u8]) -> (plaintext: Result<
        Vec<u8>,
        ParquetError,
    >) {
        let len = length_and_ciphertext.len();
        if len < MIN_FRAME_LEN {
            return Err(ParquetError::AuthenticationFailed);
        }
        let nonce = vstd::slice::slice_subrange(length_and_ciphertext, SIZE_LEN, SIZE_LEN + NONCE_LEN);
        let sealed = vstd::slice::slice_subrange(length_and_ciphertext, SIZE_LEN + NONCE_LEN, len);
        match open(self.key.as_slice(), nonce, aad, sealed) {
            Ok(opened) => Ok(opened),
            Err(_) => Err(ParquetError::AuthenticationFailed),
        }
    }
}

/// A [`BlockEncryptor`] that seals with AES-128-GCM under the nonces of a
/// [`CounterNonce`] of its own.
#[derive(Debug)]
pub struct RingGcmBlockEncryptor {
    key: Vec<u8>,
    nonce_sequence: CounterNonce,
}

impl RingGcmBlockEncryptor {
    /// An encryptor for a key of 16 bytes that draws its nonces from
    /// `nonce_sequence`; a key of any other length is refused.
    ///
    /// The sequence must be one that no other encryptor uses under this key.
    pub fn with_nonce_sequence(key_bytes: &[u8], nonce_sequence: CounterNonce) -> (encryptor:
        Result<Self, ParquetError>)
        ensures
            match encryptor {
                Ok(made) => {
                    &&& key_bytes@.len() == KEY_LEN
                    &&& made.key() == key_bytes@
                    &&& made.nonce_sequence() == nonce_sequence
                },
                Err(e) => key_bytes@.len() != KEY_LEN && e == ParquetError::CryptoSetup,
            },
    {
        if key_bytes.len() != KEY_LEN {
            return Err(ParquetError::CryptoSetup);
        }
        let mut key: Vec<u8> = Vec::new();
        key.extend_from_slice(key_bytes);
        assert(key@ =~= key_bytes@);
        Ok(RingGcmBlockEncryptor { key, nonce_sequence })
    }

    /// An encryptor for a key of 16 bytes with a fresh, randomly seeded nonce
    /// sequence.
    ///
    /// A key of any other length is refused. For a key of 16 bytes the system's
    /// random number generator decides: either it fails, or the encryptor
    /// comes back with a sequence that has given out no nonce yet.
    pub fn new(key_bytes: &[u8]) -> (encryptor: Result<Self, ParquetError>)
        ensures
            match encryptor {
                Ok(made) => {
                    &&& key_bytes@.len() == KEY_LEN
                    &&& made.key() == key_bytes@
                    &&& made.nonce_sequence().emitted() == 0
                },
                Err(e) => if key_bytes@.len() != KEY_LEN {
                    e == ParquetError::CryptoSetup
                } else {
                    e == ParquetError::Randomness
                },
            },
    {
        if key_bytes.len() != KEY_LEN {
            return Err(ParquetError::CryptoSetup);
        }
        let rng = SystemRandom::new();
        match CounterNonce::new(&rng) {
            Ok(nonce_sequence) => RingGcmBlockEncryptor::with_nonce_sequence(
                key_bytes,
                nonce_sequence,
            ),
            Err(e) => Err(e),
        }
    }
}

impl BlockEncryptor for RingGcmBlockEncryptor {
    closed spec fn key(&self) -> Seq<u8> {
        self.key@
    }

    closed spec fn nonce_sequence(&self) -> CounterNonce {
        self.nonce_sequence
    }

    fn encrypt(&mut self, plaintext: &[u8], aad: &[u8]) -> (bytes: Result<Vec<u8>, ParquetError>)
        ensures
            old(self).nonce_sequence().exhausted() ==> *final(self) == *old(self),
    {
        let nonce = match self.nonce_sequence.advance() {
            Ok(nonce) => nonce,
            Err(e) => {
                return Err(e);
            },
        };
        match seal(self.key.as_slice(), &nonce, aad, plaintext) {
            Ok(sealed) => {
                proof {
                    lemma_frame_layout(nonce@, sealed@);
                }
                Ok(assemble_frame(&nonce, sealed.as_slice()))
            },
            Err(_) => Err(ParquetError::CryptoSetup),
        }
    }
}

} // verus!
