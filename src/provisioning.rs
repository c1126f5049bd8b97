use qrcode::types::QrError;
use vstd::prelude::*;
use vstd::string::StringExecFns;
use vstd::utf8::encode_utf8;

verus! {

/// The otpauth URI that authenticator apps read:
/// `otpauth://totp/{issuer}:{email}?secret={secret}&issuer={issuer}`.
pub open spec fn provisioning_uri_text(secret: Seq<char>, email: Seq<char>, issuer: Seq<char>) -> Seq<
    char,
> {
    "otpauth://totp/"@ + issuer + ":"@ + email + "?secret="@ + secret + "&issuer="@ + issuer
}

pub open spec fn is_ascii_alphanumeric(b: u8) -> bool {
    (48 <= b <= 57) || (65 <= b <= 90) || (97 <= b <= 122)
}

pub open spec fn hex_upper(d: u8) -> char {
    if d < 10 {
        (48 + d) as u32 as char
    } else {
        (55 + d) as u32 as char
    }
}

/// A byte as it stands in percent-encoded text: ASCII letters and digits as themselves,
/// every other byte as `%` and two upper-case hex digits.
pub open spec fn percent_escape(b: u8) -> Seq<char> {
    if is_ascii_alphanumeric(b) {
        seq![b as u32 as char]
    } else {
        seq!['%', hex_upper(b >> 4u8), hex_upper(b & 15u8)]
    }
}

pub open spec fn percent_encoded(bytes: Seq<u8>) -> Seq<char>
    decreases bytes.len(),
{
    if bytes.len() == 0 {
        Seq::empty()
    } else {
        percent_encoded(bytes.drop_last()) + percent_escape(bytes.last())
    }
}

/// The data URI that embeds an SVG document in a page.
pub open spec fn svg_data_uri_text(svg: Seq<char>) -> Seq<char> {
    "data:image/svg+xml;utf8,"@ + percent_encoded(encode_utf8(svg))
}

/// The SVG document of the QR code that `qrcode` builds for a text, or `None` when the text
/// does not fit in a QR code.
pub uninterp spec fn qr_svg(text: Seq<char>) -> Option<Seq<char>>;

#[verifier::external_type_specification]
#[verifier::external_body]
pub struct ExQrError(QrError);

/// Relies on `qrcode::QrCode::new` (which fails when the text is too long for a QR code) and
/// on the SVG renderer of the code it returns; both depend on the text alone.
#[verifier::external_body]
fn qr_svg_document(text: &str) -> (r: Result<String, QrError>)
    ensures
        r is Ok ==> qr_svg(text@) == Some(r->Ok_0@),
        r is Err ==> qr_svg(text@) is None,
{
    match qrcode::QrCode::new(text.as_bytes()) {
        Ok(code) => Ok(code.render::<qrcode::render::svg::Color>().build()),
        Err(e) => Err(e),
    }
}

/// Relies on `percent_encoding::utf8_percent_encode` with `NON_ALPHANUMERIC`: each UTF-8 byte
/// that is not an ASCII letter or digit becomes `%XX` in upper-case hex.
#[verifier::external_body]
fn percent_encode_text(s: &str) -> (r: String)
    ensures
        r@ == percent_encoded(encode_utf8(s@)),
{
    percent_encoding::utf8_percent_encode(s, percent_encoding::NON_ALPHANUMERIC).to_string()
}

/// The text could not be encoded as a QR code (it is too long).
#[derive(Debug, Clone, Copy, PartialEq, Eq)]
pub struct QrCodeError;

/// The provisioning URI for a Base32 secret, an account e-mail and an issuer label. The
/// values are passed through as they are.
pub fn provisioning_uri(secret: &str, email: &str, issuer: &str) -> (r: String)
    ensures
        r@ == provisioning_uri_text(secret@, email@, issuer@),
{
    let mut uri = String::from_str("otpauth://totp/");
    uri.append(issuer);
    uri.append(":");
    uri.append(email);
    uri.append("?secret=");
    uri.append(secret);
    uri.append("&issuer=");
    uri.append(issuer);
    uri
}

/// The data URI under which an SVG document is embedded as an image.
pub fn svg_data_uri(svg: &str) -> (r: String)
    ensures
        r@ == svg_data_uri_text(svg@),
{
    let encoded = percent_encode_text(svg);
    let mut uri = String::from_str("data:image/svg+xml;utf8,");
    uri.append(encoded.as_str());
    uri
}

/// The scannable QR code of the provisioning URI, as an embeddable SVG data URI. Fails, and
/// does not truncate, when the URI is too long for a QR code.
pub fn generate_qr_code(email: &str, issuer: &str, secret: String) -> (r: Result<
    String,
    QrCodeError,
>)
    ensures
        (match qr_svg(provisioning_uri_text(secret@, email@, issuer@)) {
            Some(svg) => r matches Ok(uri) && uri@ == svg_data_uri_text(svg),
            None => r == Err::<String, QrCodeError>(QrCodeError),
        }),
{
    let uri = provisioning_uri(secret.as_str(), email, issuer);
    match qr_svg_document(uri.as_str()) {
        Ok(svg) => Ok(svg_data_uri(svg.as_str())),
        Err(_) => Err(QrCodeError),
    }
}

} // verus!
