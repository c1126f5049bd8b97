use pinepods_mfa::totp::{code_in_window, parse_code, verify_code_for_key, verify_totp_code};

// RFC 6238, appendix B: the SHA-1 key "12345678901234567890".
const RFC_SECRET: &str = "GEZDGNBVGY3TQOJQGEZDGNBVGY3TQOJQ";
const RFC_KEY: &[u8] = b"12345678901234567890";

#[test]
fn parse_code_reads_six_digits() {
    assert_eq!(parse_code("123456"), Some(123456));
    assert_eq!(parse_code("012345"), Some(12345));
    assert_eq!(parse_code("000000"), Some(0));
    assert_eq!(parse_code("999999"), Some(999999));
}

#[test]
fn parse_code_rejects_other_text() {
    assert_eq!(parse_code(""), None);
    assert_eq!(parse_code("12345"), None);
    assert_eq!(parse_code("1234567"), None);
    assert_eq!(parse_code("12a456"), None);
    assert_eq!(parse_code(" 12345"), None);
    assert_eq!(parse_code("١٢٣٤٥٦"), None);
}

#[test]
fn code_in_window_compares_all_three_steps() {
    assert!(code_in_window("000007", Some(7), 1, 2));
    assert!(code_in_window("000001", Some(7), 1, 2));
    assert!(code_in_window("000002", None, 1, 2));
    assert!(!code_in_window("000003", Some(7), 1, 2));
    assert!(!code_in_window("7", Some(7), 7, 7));
}

#[test]
fn rfc6238_reference_codes_are_accepted() {
    assert!(verify_totp_code(RFC_SECRET, "287082", 59));
    assert!(verify_totp_code(RFC_SECRET, "081804", 1111111109));
    assert!(verify_totp_code(RFC_SECRET, "050471", 1111111111));
    assert!(verify_totp_code(RFC_SECRET, "005924", 1234567890));
    assert!(verify_totp_code(RFC_SECRET, "279037", 2000000000));
    assert!(verify_totp_code(RFC_SECRET, "353130", 20000000000));
    assert!(verify_code_for_key(RFC_KEY, "287082", 59));
}

#[test]
fn independent_totp_code_is_accepted_now_and_a_step_either_side() {
    let secret = pinepods_mfa::secret::generate_totp_secret();
    let key = data_encoding::BASE32.decode(secret.as_bytes()).unwrap();
    let reference = otpauth::TOTP::from_bytes(&key);
    for t in [0u64, 29, 30, 59, 1_700_000_000, 1_700_000_017] {
        let code = format!("{:06}", reference.generate(30, t));
        assert!(verify_totp_code(&secret, &code, t));
        assert!(verify_totp_code(&secret, &code, t + 30));
        if t >= 30 {
            assert!(verify_totp_code(&secret, &code, t - 30));
        }
    }
}

#[test]
fn code_is_rejected_past_the_tolerance_window() {
    // 59 is the last second of step 1; 59 + 31 = 90 lies in step 3.
    assert!(verify_totp_code(RFC_SECRET, "287082", 89));
    assert!(!verify_totp_code(RFC_SECRET, "287082", 90));
    assert!(!verify_totp_code(RFC_SECRET, "287082", 150));
    // At time 0 the code of step 1 is the next step, within tolerance.
    assert!(verify_totp_code(RFC_SECRET, "287082", 0));
}

#[test]
fn wrong_or_malformed_codes_are_rejected() {
    assert!(!verify_totp_code(RFC_SECRET, "287083", 59));
    assert!(!verify_totp_code(RFC_SECRET, "28708", 59));
    assert!(!verify_totp_code(RFC_SECRET, "2870820", 59));
    assert!(!verify_totp_code(RFC_SECRET, "", 59));
}

#[test]
fn secret_that_does_not_decode_accepts_nothing() {
    assert!(!verify_totp_code("not base32!", "287082", 59));
}
