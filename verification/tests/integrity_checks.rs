use mugen::cipher::decrypt;
use mugen::hexcodec::is_valid_hex;
use mugen::integrity::{calculate_hash_from_cert, repack_detected, ssl_hash_matches};

fn unhex(s: &str) -> Vec<u8> {
    hex::decode(s).unwrap()
}

fn tohex(data: &[u8]) -> String {
    hex::encode(data)
}

#[test]
fn decrypt_known_vector() {
    assert_eq!(decrypt(b"hello"), unhex("359ff36c5b"));
}

#[test]
fn decrypt_zero_block_keystream() {
    let zeros = vec![0u8; 40];
    assert_eq!(
        decrypt(&zeros),
        unhex("5dfa9f0034fece7028842e561997f87afb59900103a9c4c133b2564976a6e1603a51072e21780e03")
    );
}

#[test]
fn decrypt_changes_data() {
    let data = b"not the same afterwards".to_vec();
    assert_ne!(decrypt(&data), data);
}

#[test]
fn decrypt_is_its_own_inverse() {
    let data = b"some expected certificate hash bytes".to_vec();
    let once = decrypt(&data);
    assert_eq!(once.len(), data.len());
    assert_eq!(decrypt(&once), data);
    assert_eq!(decrypt(&[]), Vec::<u8>::new());
}

#[test]
fn valid_hex_either_case() {
    assert!(is_valid_hex("000FaBff"));
    assert!(is_valid_hex(""));
    assert!(!is_valid_hex("abc"));
    assert!(!is_valid_hex("zz"));
    assert!(!is_valid_hex("é1"));
    assert!(!is_valid_hex("0g"));
}

#[test]
fn certificate_hash_is_hex_sha256() {
    assert_eq!(
        calculate_hash_from_cert(b"certificate"),
        "03d66dd08835c1ca3f128cceacd1f31ac94163096b20f445ae84285bc0832d72"
    );
    assert_eq!(
        calculate_hash_from_cert(b""),
        "e3b0c44298fc1c149afbf4c8996fb92427ae41e4649b934ca495991b7852b855"
    );
}

const HASH: &str = "03d66dd08835c1ca3f128cceacd1f31ac94163096b20f445ae84285bc0832d72";
const ENCRYPTED: &str = "5e2cf2d0bccb0fba1796a298b5460b603218f308688930849d367e12b625cc12";

#[test]
fn repack_not_detected_for_matching_certificate() {
    assert!(!repack_detected(ENCRYPTED, HASH));
    assert!(!repack_detected(&ENCRYPTED.to_uppercase(), &HASH.to_uppercase()));
}

#[test]
fn repack_detected_for_other_certificate() {
    let other = calculate_hash_from_cert(b"another certificate");
    assert!(repack_detected(ENCRYPTED, &other));
}

#[test]
fn repack_detected_for_invalid_hex() {
    assert!(repack_detected("not hex", HASH));
    assert!(repack_detected(ENCRYPTED, "abc"));
}

#[test]
fn encrypted_hash_round_trip_is_accepted() {
    let hash = calculate_hash_from_cert(b"any signing certificate");
    let encrypted = tohex(&decrypt(&unhex(&hash)));
    assert!(ssl_hash_matches(&encrypted, &hash));
    assert!(!repack_detected(&encrypted, &hash));
}

#[test]
fn pinning_compares_hex_text_exactly() {
    assert!(ssl_hash_matches(ENCRYPTED, HASH));
    assert!(!ssl_hash_matches(ENCRYPTED, &HASH.to_uppercase()));
    assert!(!ssl_hash_matches(ENCRYPTED, "00"));
    assert!(!is_valid_hex("xyz"));
}

#[test]
fn keystream_depends_on_position_only() {
    let a = b"first part".to_vec();
    let mut ab = a.clone();
    ab.extend_from_slice(b" and more");
    let da = decrypt(&a);
    let dab = decrypt(&ab);
    assert_eq!(&dab[..a.len()], &da[..]);
    let b = b"other text".to_vec();
    let db = decrypt(&b);
    for i in 0..a.len().min(b.len()) {
        assert_eq!(da[i] ^ a[i], db[i] ^ b[i]);
    }
}
