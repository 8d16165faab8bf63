use p2p_chat::crypto::{check_password, decrypt, derive_key, encrypt, generate_salt, hash_password, hex_decode, hex_encode, CryptoError, NONCE_LEN};

const SALT: &str = "00112233445566778899aabbccddeeff";

#[test]
fn hex_encoding_is_lowercase_two_digits() {
    assert_eq!(hex_encode(&[0x00, 0x0f, 0xab, 0xff]), "000fabff");
    assert_eq!(hex_encode(&[]), "");
}

#[test]
fn hex_decoding_and_bad_pairs() {
    assert_eq!(hex_decode("000fABff"), vec![0x00, 0x0f, 0xab, 0xff]);
    assert_eq!(hex_decode("zz10"), vec![0, 0x10]);
    assert_eq!(hex_decode(&hex_encode(&[1, 2, 250])), vec![1, 2, 250]);
}

#[test]
fn salt_is_32_random_bytes_in_hex() {
    let a = generate_salt().unwrap();
    let b = generate_salt().unwrap();
    assert_eq!(a.len(), 64);
    assert!(a.chars().all(|c| c.is_ascii_hexdigit() && !c.is_ascii_uppercase()));
    assert_ne!(a, b);
}

#[test]
fn password_hash_is_pbkdf2_sha256() {
    let h = hash_password("secret", SALT);
    assert_eq!(h, "f92d0c0b7758f48a976587412c2bf21b7f1dae21875133fda2983fa4cbf1ea9d");
    assert!(check_password("secret", SALT, &h));
    assert!(!check_password("Secret", SALT, &h));
}

#[test]
fn derived_key_differs_from_password_hash() {
    let k = derive_key("secret", SALT);
    assert_eq!(
        k.to_vec(),
        vec![153, 212, 11, 156, 95, 74, 203, 233, 56, 47, 66, 7, 219, 43, 106, 156, 141, 26, 142, 140, 43, 185, 125, 59, 69, 244, 136, 23, 17, 196, 246, 3]
    );
    assert_ne!(hex_encode(&k), hash_password("secret", SALT));
}

#[test]
fn encrypt_then_decrypt_gives_plaintext() {
    let key = [7u8; 32];
    let out = encrypt(&key, b"chat history").unwrap();
    assert_eq!(out.len(), NONCE_LEN + 12 + 16);
    assert_eq!(decrypt(&key, &out), Ok(b"chat history".to_vec()));
    let other = [8u8; 32];
    assert_eq!(decrypt(&other, &out), Err(CryptoError::Decrypt));
}

#[test]
fn decrypt_known_ciphertext() {
    let key: [u8; 32] = core::array::from_fn(|i| i as u8);
    let data = vec![
        100, 101, 102, 103, 104, 105, 106, 107, 108, 109, 110, 111, 32, 126, 178, 10, 22, 201, 62, 247, 77, 22, 48, 154,
        163, 227, 55, 255, 135, 247, 137, 168, 251, 242, 9, 72, 204, 202, 211, 248, 0,
    ];
    assert_eq!(decrypt(&key, &data), Ok(b"hello history".to_vec()));
    let mut tampered = data.clone();
    tampered[20] ^= 1;
    assert_eq!(decrypt(&key, &tampered), Err(CryptoError::Decrypt));
}

#[test]
fn decrypt_refuses_short_data() {
    assert_eq!(decrypt(&[0u8; 32], &[1, 2, 3]), Err(CryptoError::TooShort));
}
