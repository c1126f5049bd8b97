//! Podcast descriptions arrive as HTML from feeds: they are cleaned before display.
use vstd::prelude::*;
use vstd::string::StringExecFns;

verus! {

/// The HTML that `ammonia::clean` keeps of a fragment.
pub uninterp spec fn ammonia_cleaned(html: Seq<char>) -> Seq<char>;

/// What `htmlentity` decodes a text's character references to, `None` when it reports an
/// error.
pub uninterp spec fn entities_decoded(text: Seq<char>) -> Option<Seq<char>>;

/// Relies on `ammonia::clean`: the fragment with everything outside ammonia's default
/// allow-list removed; the result depends on the fragment alone.
#[verifier::external_body]
fn clean_html(html: &str) -> (r: String)
    ensures
        r@ == ammonia_cleaned(html@),
{
    ammonia::clean(html)
}

/// Relies on `htmlentity::entity::decode` and the `to_string` of its result: the text with
/// its character references replaced, or an error.
#[verifier::external_body]
fn decode_entities(text: &str) -> (r: Option<String>)
    ensures
        r is Some ==> entities_decoded(text@) == Some(r->Some_0@),
        r is None ==> entities_decoded(text@) is None,
{
    match htmlentity::entity::ICodedDataTrait::to_string(
        &htmlentity::entity::decode(text.as_bytes()),
    ) {
        Ok(s) => Some(s),
        Err(_) => None,
    }
}

/// What stands in for a description whose character references could not be decoded.
pub open spec fn invalid_html_text() -> Seq<char> {
    "Invalid HTML content"@
}

/// The decoded description, or the placeholder when decoding failed.
pub fn decoded_or_placeholder(decoded: Option<String>) -> (r: String)
    ensures
        r@ == match decoded {
            Some(s) => s@,
            None => invalid_html_text(),
        },
{
    match decoded {
        Some(s) => s,
        None => String::from_str("Invalid HTML content"),
    }
}

/// A description made safe for display: cleaned by ammonia, then with its character
/// references decoded.
pub fn sanitize_html(html: &str) -> (r: String)
    ensures
        r@ == match entities_decoded(ammonia_cleaned(html@)) {
            Some(s) => s,
            None => invalid_html_text(),
        },
{
    let cleaned = clean_html(html);
    decoded_or_placeholder(decode_entities(cleaned.as_str()))
}

} // verus!
