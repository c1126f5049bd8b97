use pinepods_mfa::secret::{decode_secret, encode_secret, generate_totp_secret, SECRET_LEN};

#[test]
fn generated_secret_decodes_to_32_bytes() {
    for _ in 0..20 {
        let secret = generate_totp_secret();
        let key = decode_secret(&secret).expect("a generated secret decodes");
        assert_eq!(key.len(), SECRET_LEN);
        assert_eq!(key.len(), 32);
        assert_eq!(data_encoding::BASE32.decode(secret.as_bytes()).unwrap().len(), 32);
    }
}

#[test]
fn generated_secret_is_padded_base32_of_56_characters() {
    let secret = generate_totp_secret();
    assert_eq!(secret.len(), 56);
    assert!(secret.ends_with("===="));
    assert!(secret[..52].chars().all(|c| c.is_ascii_uppercase() || ('2'..='7').contains(&c)));
}

#[test]
fn generated_secrets_differ() {
    let a = generate_totp_secret();
    let b = generate_totp_secret();
    assert_ne!(a, b);
    assert_ne!(a, encode_secret(&[0u8; 32]));
}

#[test]
fn encode_secret_matches_rfc4648_vectors() {
    assert_eq!(encode_secret(b""), "");
    assert_eq!(encode_secret(b"f"), "MY======");
    assert_eq!(encode_secret(b"fo"), "MZXQ====");
    assert_eq!(encode_secret(b"foo"), "MZXW6===");
    assert_eq!(encode_secret(b"foob"), "MZXW6YQ=");
    assert_eq!(encode_secret(b"fooba"), "MZXW6YTB");
    assert_eq!(encode_secret(b"foobar"), "MZXW6YTBOI======");
}

#[test]
fn decode_secret_inverts_encode_secret() {
    let bytes: Vec<u8> = (0u8..=255).collect();
    let text = encode_secret(&bytes);
    assert_eq!(decode_secret(&text), Some(bytes));
    assert_eq!(decode_secret("MZXW6YTBOI======"), Some(b"foobar".to_vec()));
    assert_eq!(decode_secret("JBSWY3DPEHPK3PXP"), Some(b"Hello!\xde\xad\xbe\xef".to_vec()));
}

#[test]
fn decode_secret_rejects_malformed_text() {
    assert_eq!(decode_secret("A"), None);
    assert_eq!(decode_secret("MZXW6YTB!"), None);
    assert_eq!(decode_secret("mzxw6ytb"), None);
    assert_eq!(decode_secret("MZ======="), None);
}
