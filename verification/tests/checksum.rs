use rand::RngCore;
use sha2::Digest;
use wireguard_tunnel::checksum::{AppVerifier, Sha256Verifier, VerifyError};

fn hex(s: &str) -> [u8; 32] {
    let mut out = [0u8; 32];
    for (i, byte) in out.iter_mut().enumerate() {
        *byte = u8::from_str_radix(&s[2 * i..2 * i + 2], 16).unwrap();
    }
    out
}

#[test]
fn test_sha256_checksum() {
    // Generate some random data
    let mut data = vec![0u8; 1024 * 1024];
    rand::thread_rng().fill_bytes(&mut data);

    // Hash it
    let mut hasher = sha2::Sha256::new();
    hasher.update(&data);
    let expected_hash = hasher.finalize();
    let expected_hash: [u8; 32] = expected_hash[..].try_into().unwrap();

    // Same data should be accepted
    Sha256Verifier::verify_inner(&data, expected_hash).expect("expected checksum match");

    // Compare the hash against some random data, which should fail
    rand::thread_rng().fill_bytes(&mut data);
    Sha256Verifier::verify_inner(&data, expected_hash).expect_err("expected checksum mismatch");
}

#[test]
fn sha256_of_known_texts() {
    let hello = hex("b94d27b9934d3e08a52e52d7da7dabfac484efe37a5380ee9088f7ace2efcde9");
    assert_eq!(Sha256Verifier::verify_inner(b"hello world", hello), Ok(()));
    let empty = hex("e3b0c44298fc1c149afbf4c8996fb92427ae41e4649b934ca495991b7852b855");
    assert_eq!(Sha256Verifier::verify_inner(b"", empty), Ok(()));
    assert_eq!(Sha256Verifier::verify_inner(b"hello world", empty), Err(VerifyError::InvalidChecksum));
}

#[test]
fn data_is_not_its_own_checksum() {
    let data = [7u8; 32];
    assert_eq!(Sha256Verifier::verify_inner(&data, data), Err(VerifyError::InvalidChecksum));
}

#[test]
fn verify_goes_by_the_checksum() {
    let hello = hex("b94d27b9934d3e08a52e52d7da7dabfac484efe37a5380ee9088f7ace2efcde9");
    assert_eq!(<Sha256Verifier as AppVerifier>::verify(b"hello world", hello), Ok(()));
    assert_eq!(
        <Sha256Verifier as AppVerifier>::verify(b"hello world!", hello),
        Err(VerifyError::InvalidChecksum)
    );
}

#[test]
fn check_hash_compares_every_byte() {
    let a = [3u8; 32];
    assert_eq!(Sha256Verifier::check_hash(&a, &a), Ok(()));
    for i in 0..32 {
        let mut b = a;
        b[i] ^= 0x80;
        assert_eq!(Sha256Verifier::check_hash(&a, &b), Err(VerifyError::InvalidChecksum));
        assert_eq!(Sha256Verifier::check_hash(&b, &a), Err(VerifyError::InvalidChecksum));
    }
}

#[test]
fn invalid_checksum_message() {
    assert_eq!(VerifyError::InvalidChecksum.message(), "Invalid checksum for bin file");
}
