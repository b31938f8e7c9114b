//! Trusted boundary to the cryptographic primitives: Ed25519 key
//! derivation and signing (ring), the truncated 512-bit hash (sha2),
//! base-32 encoding (data-encoding) and the secure seed source (rand).
//!
//! Each primitive's result is a pure function of its arguments; the spec
//! functions below name those results, and every contract of the library
//! speaks of the names.

use vstd::prelude::*;

use rand::Rng;
use ring::signature::KeyPair;
use sha2::Digest;

verus! {

/// The Ed25519 public key derived from a 32-byte seed.
pub uninterp spec fn ed25519_pk_of(seed: Seq<u8>) -> Seq<u8>;

/// The (deterministic) Ed25519 signature of `msg` under the key pair
/// derived from `seed`.
pub uninterp spec fn ed25519_sig_of(seed: Seq<u8>, msg: Seq<u8>) -> Seq<u8>;

/// The SHA-512/256 digest (512-bit hash truncated to 256 bits) of `bytes`.
pub uninterp spec fn sha512_256_of(bytes: Seq<u8>) -> Seq<u8>;

/// The RFC 4648 base-32 encoding, without padding, of `bytes`.
pub uninterp spec fn base32_nopad_of(bytes: Seq<u8>) -> Seq<char>;

/// Relies on ring's `Ed25519KeyPair::from_seed_unchecked` (which accepts
/// every 32-byte seed) and `KeyPair::public_key`: the public key is 32
/// bytes and depends on the seed alone.
#[verifier::external_body]
pub(crate) fn ed25519_public_key(seed: &[u8; 32]) -> (r: [u8; 32])
    ensures
        r@ == ed25519_pk_of(seed@),
{
    let key_pair = ring::signature::Ed25519KeyPair::from_seed_unchecked(seed).unwrap();
    let mut pk = [0u8; 32];
    pk.copy_from_slice(key_pair.public_key().as_ref());
    pk
}

/// Relies on ring's `Ed25519KeyPair::from_seed_unchecked` and
/// `Ed25519KeyPair::sign`: Ed25519 signing is deterministic, the signature
/// is 64 bytes and depends on the seed and the message alone.
#[verifier::external_body]
pub(crate) fn ed25519_sign(seed: &[u8; 32], msg: &[u8]) -> (r: [u8; 64])
    ensures
        r@ == ed25519_sig_of(seed@, msg@),
{
    let key_pair = ring::signature::Ed25519KeyPair::from_seed_unchecked(seed).unwrap();
    let signature = key_pair.sign(msg);
    let mut raw = [0u8; 64];
    raw.copy_from_slice(&signature.as_ref()[..64]);
    raw
}

/// Relies on sha2's `Sha512_256`: the digest is 32 bytes and depends on
/// the input bytes alone.
#[verifier::external_body]
pub(crate) fn sha512_256(bytes: &[u8]) -> (r: [u8; 32])
    ensures
        r@ == sha512_256_of(bytes@),
{
    let digest = sha2::Sha512_256::digest(bytes);
    let mut out = [0u8; 32];
    out.copy_from_slice(&digest);
    out
}

/// Relies on data-encoding's `BASE32_NOPAD.encode`: the encoding depends
/// on the input bytes alone, and its length is the number of 5-bit groups
/// that cover the input. The library refuses inputs long enough to make
/// `encode_len` overflow.
#[verifier::external_body]
pub(crate) fn base32_nopad_encode(bytes: &[u8]) -> (r: String)
    requires
        bytes@.len() <= usize::MAX as nat / 512,
    ensures
        r@ == base32_nopad_of(bytes@),
        r@.len() == (bytes@.len() * 8 + 4) / 5,
{
    data_encoding::BASE32_NOPAD.encode(bytes)
}

/// Relies on rand's `OsRng`, the operating system's secure randomness
/// source; nothing is promised of the drawn bytes.
#[verifier::external_body]
pub(crate) fn random_seed() -> [u8; 32] {
    rand::rngs::OsRng.gen()
}

} // verus!
