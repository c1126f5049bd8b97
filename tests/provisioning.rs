use pinepods_mfa::provisioning::{generate_qr_code, provisioning_uri, svg_data_uri, QrCodeError};

#[test]
fn provisioning_uri_for_known_secret() {
    assert_eq!(
        provisioning_uri("JBSWY3DPEHPK3PXP", "a@b.com", "Pinepods"),
        "otpauth://totp/Pinepods:a@b.com?secret=JBSWY3DPEHPK3PXP&issuer=Pinepods"
    );
}

#[test]
fn provisioning_uri_passes_values_through() {
    assert_eq!(
        provisioning_uri("MY======", "not an email", "A & B"),
        "otpauth://totp/A & B:not an email?secret=MY======&issuer=A & B"
    );
}

#[test]
fn svg_data_uri_percent_encodes_everything_but_letters_and_digits() {
    assert_eq!(
        svg_data_uri("<svg a='1'/>"),
        "data:image/svg+xml;utf8,%3Csvg%20a%3D%271%27%2F%3E"
    );
    assert_eq!(svg_data_uri("é"), "data:image/svg+xml;utf8,%C3%A9");
    assert_eq!(svg_data_uri(""), "data:image/svg+xml;utf8,");
}

#[test]
fn qr_code_is_an_svg_data_uri() {
    let uri = generate_qr_code("a@b.com", "Pinepods", "JBSWY3DPEHPK3PXP".to_string()).unwrap();
    assert!(uri.starts_with("data:image/svg+xml;utf8,%3C"));
    assert!(uri.contains("svg"));
    let again = generate_qr_code("a@b.com", "Pinepods", "JBSWY3DPEHPK3PXP".to_string()).unwrap();
    assert_eq!(uri, again);
    let other = generate_qr_code("c@d.com", "Pinepods", "JBSWY3DPEHPK3PXP".to_string()).unwrap();
    assert_ne!(uri, other);
}

#[test]
fn qr_code_fails_when_uri_is_too_long() {
    let email = "x".repeat(5000);
    assert_eq!(
        generate_qr_code(&email, "Pinepods", "JBSWY3DPEHPK3PXP".to_string()),
        Err(QrCodeError)
    );
}
