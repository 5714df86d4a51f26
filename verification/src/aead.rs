//! The boundary to the `ring` crate: AES-128-GCM and the system's random
//! number generator.
//!
//! Nothing in this file is proved. Each item states what the rest of the crate
//! takes on trust about `ring`.

use ring::aead::{Aad, LessSafeKey, Nonce, UnboundKey, AES_128_GCM};
use ring::error::Unspecified;
use ring::rand::{SecureRandom, SystemRandom};
use vstd::prelude::*;

verus! {

/// The length of an AES-128-GCM key in bytes.
pub const KEY_LEN: usize = 16;

/// The length of a nonce in bytes.
pub const NONCE_LEN: usize = 12;

/// The length of an authentication tag in bytes.
pub const TAG_LEN: usize = 16;

/// `ring::error::Unspecified`, the error of every fallible `ring` call: it
/// carries no detail.
#[verifier::external_type_specification]
#[verifier::external_body]
pub struct ExUnspecified(ring::error::Unspecified);

/// `ring::rand::SystemRandom`, a handle on the operating system's random
/// number generator.
#[verifier::external_type_specification]
#[verifier::external_body]
pub struct ExSystemRandom(ring::rand::SystemRandom);

/// What `ring` returns when it seals `plaintext` with AES-128-GCM under `key`,
/// `nonce` and `aad`: the ciphertext followed by the tag, or `None` where it
/// refuses.
pub uninterp spec fn aes_128_gcm_seal(
    key: Seq<u8>,
    nonce: Seq<u8>,
    aad: Seq<u8>,
    plaintext: Seq<u8>,
) -> Option<Seq<u8>>;

/// What `ring` returns when it opens `sealed` (a ciphertext followed by its
/// tag) with AES-128-GCM under `key`, `nonce` and `aad`: the plaintext, or
/// `None` where the tag does not match or an argument is malformed.
pub uninterp spec fn aes_128_gcm_open(
    key: Seq<u8>,
    nonce: Seq<u8>,
    aad: Seq<u8>,
    sealed: Seq<u8>,
) -> Option<Seq<u8>>;

/// `ring::rand::SystemRandom::new`. Nothing is claimed of the handle.
pub assume_specification[ ring::rand::SystemRandom::new ]() -> (rng: SystemRandom);

/// `ring::aead::LessSafeKey::seal_in_place_append_tag` on a copy of
/// `plaintext`, with a key made by `UnboundKey::new` for `AES_128_GCM` and a
/// nonce made by `Nonce::assume_unique_for_key`.
///
/// Claimed: the outcome is a function of the four arguments; what is returned
/// is the ciphertext with the 16 bytes of the tag appended, so 16 bytes longer
/// than the plaintext; and opening it under the same key, nonce and AAD gives
/// the plaintext back, which is what makes AES-GCM an AEAD: opening computes
/// the tag anew from key, nonce, AAD and ciphertext, and undoes the
/// counter-mode encryption.
///
/// Not claimed: that sealing succeeds. `ring` refuses a key that is not 16
/// bytes long and inputs beyond the lengths that GCM allows.
#[verifier::external_body]
pub(crate) fn seal(key: &[u8], nonce: &[u8; 12], aad: &[u8], plaintext: &[u8]) -> (sealed: Result<
    Vec<u8>,
    Unspecified,
>)
    ensures
        (match sealed {
            Ok(bytes) => Some(bytes@),
            Err(_) => None,
        }) == aes_128_gcm_seal(key@, nonce@, aad@, plaintext@),
        sealed matches Ok(bytes) ==> bytes@.len() == plaintext@.len() + TAG_LEN,
        sealed matches Ok(bytes) ==> aes_128_gcm_open(key@, nonce@, aad@, bytes@) == Some(
            plaintext@,
        ),
{
    let key = LessSafeKey::new(UnboundKey::new(&AES_128_GCM, key)?);
    let mut in_out = plaintext.to_vec();
    key.seal_in_place_append_tag(Nonce::assume_unique_for_key(*nonce), Aad::from(aad), &mut in_out)?;
    Ok(in_out)
}

/// `ring::aead::LessSafeKey::open_in_place` on a copy of `sealed`, with a key
/// made by `UnboundKey::new` for `AES_128_GCM` and a nonce made by
/// `Nonce::try_assume_unique_for_key`.
///
/// Claimed: the outcome is a function of the four arguments, and a plaintext
/// is 16 bytes shorter than what was opened, the tag being taken off.
///
/// Not claimed: that anything sealed under another key, nonce or AAD fails to
/// open. GCM ensures that only up to a negligible chance of forgery.
#[verifier::external_body]
pub(crate) fn open(key: &[u8], nonce: &[u8], aad: &[u8], sealed: &[u8]) -> (opened: Result<
    Vec<u8>,
    Unspecified,
>)
    ensures
        (match opened {
            Ok(bytes) => Some(bytes@),
            Err(_) => None,
        }) == aes_128_gcm_open(key@, nonce@, aad@, sealed@),
        opened matches Ok(bytes) ==> bytes@.len() + TAG_LEN == sealed@.len(),
{
    let key = LessSafeKey::new(UnboundKey::new(&AES_128_GCM, key)?);
    let nonce = Nonce::try_assume_unique_for_key(nonce)?;
    let mut in_out = sealed.to_vec();
    let plaintext = key.open_in_place(nonce, Aad::from(aad), &mut in_out)?;
    Ok(plaintext.to_vec())
}

/// `ring::rand::SecureRandom::fill` on a fresh buffer of `len` bytes.
///
/// Claimed: on success the buffer still has `len` bytes. Nothing is claimed of
/// what they are, nor that the call succeeds.
#[verifier::external_body]
pub(crate) fn fill_random(rng: &SystemRandom, len: usize) -> (bytes: Result<Vec<u8>, Unspecified>)
    ensures
        bytes matches Ok(filled) ==> filled@.len() == len,
{
    let mut dest = vec![0u8; len];
    rng.fill(&mut dest)?;
    Ok(dest)
}

} // verus!
