//! The stream cipher that protects the expected hashes: AES-256 in counter
//! mode with a 64-bit big-endian counter, through the `aes` and `ctr` crates.

use vstd::prelude::*;
use aes::cipher::{KeyIvInit, StreamCipher};

verus! {

/// What AES-256-CTR (64-bit big-endian counter, starting at zero) gives for
/// `data` under `key` and `nonce`.
pub uninterp spec fn aes256_ctr64be(key: Seq<u8>, nonce: Seq<u8>, data: Seq<u8>) -> Seq<u8>;

/// `ctr::Ctr64BE::<aes::Aes256>::new` followed by `apply_keystream` on a copy
/// of `data`.  Named by `aes256_ctr64be`; the contract also states what the
/// crates' code shows: the output is as long as the input; the keystream
/// byte XOR-ed onto each position depends on the key, the nonce and the
/// position alone (so any other data of the name is XOR-ed with the same
/// byte there); and applying it again with the same key and nonce gives the
/// input back.  The
/// key must be 32 bytes and the nonce 16 (the conversions to fixed-size
/// arrays panic otherwise).  With a 64-bit `usize` the counter cannot run out
/// for any slice, so `apply_keystream` does not panic.
#[verifier::external_body]
fn aes256_ctr64be_apply(key: &[u8], nonce: &[u8], data: &[u8]) -> (out: Vec<u8>)
    requires
        key@.len() == 32,
        nonce@.len() == 16,
    ensures
        out@ == aes256_ctr64be(key@, nonce@, data@),
        out@.len() == data@.len(),
        forall|other: Seq<u8>, i: int|
            0 <= i < out@.len() && 0 <= i < other.len() ==> #[trigger] aes256_ctr64be(
                key@,
                nonce@,
                other,
            )[i] ^ other[i] == out@[i] ^ data@[i],
        aes256_ctr64be(key@, nonce@, out@) == data@,
{
    let mut cipher = ctr::Ctr64BE::<aes::Aes256>::new(key.into(), nonce.into());
    let mut buffer = data.to_vec();
    cipher.apply_keystream(&mut buffer);
    buffer
}

/// The cipher key: the 32 ASCII bytes of `725eff178731392b58e7e8b763cf2191`.
pub open spec fn cipher_key() -> Seq<u8> {
    seq![
        0x37u8, 0x32, 0x35, 0x65, 0x66, 0x66, 0x31, 0x37, 0x38, 0x37, 0x33, 0x31, 0x33, 0x39, 0x32,
        0x62, 0x35, 0x38, 0x65, 0x37, 0x65, 0x38, 0x62, 0x37, 0x36, 0x33, 0x63, 0x66, 0x32, 0x31,
        0x39, 0x31,
    ]
}

/// The nonce: the 16 ASCII bytes of `316e6e95cab2701c`.
pub open spec fn cipher_nonce() -> Seq<u8> {
    seq![
        0x33u8, 0x31, 0x36, 0x65, 0x36, 0x65, 0x39, 0x35, 0x63, 0x61, 0x62, 0x32, 0x37, 0x30, 0x31,
        0x63,
    ]
}

/// The plain text of `ciphertext` under the library's key and nonce.
pub open spec fn decrypted(ciphertext: Seq<u8>) -> Seq<u8> {
    aes256_ctr64be(cipher_key(), cipher_nonce(), ciphertext)
}

fn key_bytes() -> (k: Vec<u8>)
    ensures
        k@ == cipher_key(),
{
    let k: Vec<u8> = vec![
        0x37u8, 0x32, 0x35, 0x65, 0x66, 0x66, 0x31, 0x37, 0x38, 0x37, 0x33, 0x31, 0x33, 0x39, 0x32,
        0x62, 0x35, 0x38, 0x65, 0x37, 0x65, 0x38, 0x62, 0x37, 0x36, 0x33, 0x63, 0x66, 0x32, 0x31,
        0x39, 0x31,
    ];
    assert(k@ =~= cipher_key());
    k
}

fn nonce_bytes() -> (n: Vec<u8>)
    ensures
        n@ == cipher_nonce(),
{
    let n: Vec<u8> = vec![
        0x33u8, 0x31, 0x36, 0x65, 0x36, 0x65, 0x39, 0x35, 0x63, 0x61, 0x62, 0x32, 0x37, 0x30, 0x31,
        0x63,
    ];
    assert(n@ =~= cipher_nonce());
    n
}

/// Decrypts `ciphertext` with the library's key and nonce.  The output is as
/// long as the input; each position is changed by a keystream byte that
/// depends on the position alone, so inputs that agree on a prefix give
/// outputs that agree on it; and decrypting the output again gives the
/// input back (the cipher is its own inverse, so the same call also
/// encrypts).
pub fn decrypt(ciphertext: &[u8]) -> (plain: Vec<u8>)
    ensures
        plain@ == decrypted(ciphertext@),
        plain@.len() == ciphertext@.len(),
        forall|other: Seq<u8>, i: int|
            0 <= i < plain@.len() && 0 <= i < other.len() ==> #[trigger] decrypted(other)[i]
                ^ other[i] == plain@[i] ^ ciphertext@[i],
        forall|other: Seq<u8>, i: int|
            0 <= i < plain@.len() && 0 <= i < other.len() && other[i] == ciphertext@[i]
                ==> #[trigger] decrypted(other)[i] == plain@[i],
        decrypted(plain@) == ciphertext@,
{
    let key = key_bytes();
    let nonce = nonce_bytes();
    let plain = aes256_ctr64be_apply(key.as_slice(), nonce.as_slice(), ciphertext);
    assert forall|other: Seq<u8>, i: int|
        0 <= i < plain@.len() && 0 <= i < other.len() && other[i] == ciphertext@[i]
            implies #[trigger] decrypted(other)[i] == plain@[i] by {
        let d = decrypted(other)[i];
        let o = other[i];
        let p = plain@[i];
        assert(d ^ o == p ^ o);
        assert(d ^ o == p ^ o ==> d == p) by (bit_vector);
    }
    plain
}

} // verus!
