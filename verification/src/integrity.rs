//! Anti-repack and certificate-pinning decisions: the application's signing
//! certificate is hashed with SHA-256 and compared with an expected hash that
//! ships encrypted and hex-encoded.

use vstd::prelude::*;
use sha2::Digest;
use crate::cipher::{decrypt, decrypted};
use crate::hexcodec::{
    hex_decode, hex_decoding, hex_encode, hex_encoding, lemma_hex_encoding_injective,
    lemma_hex_encoding_len, lemma_hex_round_trip,
};

verus! {

/// The SHA-256 digest of `data`.
pub uninterp spec fn sha256(data: Seq<u8>) -> Seq<u8>;

/// `sha2::Sha256::digest` (a fresh hasher fed `data` once, then finalized):
/// named by `sha256`; the digest is 32 bytes long, the hasher's fixed output
/// size.
#[verifier::external_body]
fn sha256_digest(data: &[u8]) -> (d: Vec<u8>)
    ensures
        d@ == sha256(data@),
        d@.len() == 32,
{
    sha2::Sha256::digest(data).to_vec()
}

/// The hash that identifies a signing certificate: the lower-case hex text of
/// the SHA-256 digest of its encoded bytes (64 characters).
pub fn calculate_hash_from_cert(signature: &[u8]) -> (h: String)
    ensures
        h@ == hex_encoding(sha256(signature@)),
        h@.len() == 64,
{
    let digest = sha256_digest(signature);
    proof {
        lemma_hex_encoding_len(digest@);
    }
    hex_encode(digest.as_slice())
}

/// Whether the application counts as repackaged: unless both texts are valid
/// hex and the decryption of the expected hash's bytes equals the current
/// hash's bytes.
pub open spec fn repacked(encrypted_hash: Seq<char>, current_hash: Seq<char>) -> bool {
    match (hex_decoding(encrypted_hash), hex_decoding(current_hash)) {
        (Some(expected), Some(current)) => decrypted(expected) != current,
        _ => true,
    }
}

/// Compares the encrypted, hex-encoded expected certificate hash with the
/// hex-encoded hash of the running application's certificate.  Invalid hex
/// on either side counts as repackaged.
pub fn repack_detected(encrypted_hash: &str, current_hash: &str) -> (r: bool)
    ensures
        r == repacked(encrypted_hash@, current_hash@),
{
    let encrypted_bytes = match hex_decode(encrypted_hash) {
        Ok(bytes) => bytes,
        Err(_) => return true,
    };
    let decrypted_bytes = decrypt(encrypted_bytes.as_slice());
    let current_bytes = match hex_decode(current_hash) {
        Ok(bytes) => bytes,
        Err(_) => return true,
    };
    let decrypted_hex = hex_encode(decrypted_bytes.as_slice());
    let current_hex = hex_encode(current_bytes.as_slice());
    proof {
        lemma_hex_encoding_injective(decrypted_bytes@, current_bytes@);
    }
    !(decrypted_hex == current_hex)
}

/// What the pinning check answers for a valid hex `encrypted_hash`: whether
/// the hex text of its decryption is exactly `real_hash`.
pub open spec fn pin_verdict(encrypted_hash: Seq<char>, real_hash: Seq<char>) -> bool {
    hex_encoding(decrypted(hex_decoding(encrypted_hash)->0)) == real_hash
}

/// Certificate pinning: decrypts the hex-encoded encrypted hash and compares
/// its lower-case hex text with `real_hash`, character for character.  The
/// encrypted hash must be valid hex.
pub fn ssl_hash_matches(encrypted_hash: &str, real_hash: &str) -> (r: bool)
    requires
        hex_decoding(encrypted_hash@) is Some,
    ensures
        r == pin_verdict(encrypted_hash@, real_hash@),
{
    let encrypted_bytes = match hex_decode(encrypted_hash) {
        Ok(bytes) => bytes,
        Err(_) => {
            proof {
                assert(false);
            }
            return false;
        },
    };
    let decrypted_bytes = decrypt(encrypted_bytes.as_slice());
    let decrypted_hex = hex_encode(decrypted_bytes.as_slice());
    let expected_hex = real_hash.to_owned();
    decrypted_hex == expected_hex
}

/// A hash encrypted with the library's cipher and written as hex is accepted
/// by the pinning check against the hex text of that hash.
pub proof fn lemma_encrypted_hash_pins(ciphertext: Seq<u8>, hash: Seq<u8>)
    requires
        decrypted(ciphertext) == hash,
    ensures
        hex_decoding(hex_encoding(ciphertext)) is Some,
        pin_verdict(hex_encoding(ciphertext), hex_encoding(hash)),
{
    lemma_hex_round_trip(ciphertext);
}

/// An application whose certificate hash is the decryption of the shipped
/// hash is not reported as repackaged, whatever case either hex text uses.
pub proof fn lemma_matching_certificate_not_repacked(
    encrypted_hash: Seq<char>,
    current_hash: Seq<char>,
    ciphertext: Seq<u8>,
    hash: Seq<u8>,
)
    requires
        hex_decoding(encrypted_hash) == Some(ciphertext),
        hex_decoding(current_hash) == Some(hash),
        decrypted(ciphertext) == hash,
    ensures
        !repacked(encrypted_hash, current_hash),
{
}

/// Any other certificate hash, or invalid hex, is reported as repackaged.
pub proof fn lemma_other_certificate_repacked(encrypted_hash: Seq<char>, current_hash: Seq<char>)
    requires
        !(exists|c: Seq<u8>, h: Seq<u8>|
            hex_decoding(encrypted_hash) == Some(c) && hex_decoding(current_hash) == Some(h)
                && decrypted(c) == h),
    ensures
        repacked(encrypted_hash, current_hash),
{
    if let (Some(c), Some(h)) = (hex_decoding(encrypted_hash), hex_decoding(current_hash)) {
        assert(hex_decoding(encrypted_hash) == Some(c) && hex_decoding(current_hash) == Some(h));
    }
}

} // verus!
