use data_encoding::DecodeError;
use vstd::prelude::*;

verus! {

/// Number of random bytes in a shared secret (256 bits).
pub const SECRET_LEN: usize = 32;

/// The Base32 symbol (RFC 4648 alphabet) for a 5-bit value.
pub open spec fn base32_symbol(v: u8) -> char {
    if v < 26 {
        (65 + v) as u32 as char
    } else {
        (24 + v) as u32 as char
    }
}

/// Byte `i` of a block, with missing bytes read as zero.
pub open spec fn byte_or_zero(b: Seq<u8>, i: int) -> u8 {
    if 0 <= i < b.len() {
        b[i]
    } else {
        0
    }
}

/// The 5-bit group `j` (0 to 7) of a block of at most five bytes.
pub open spec fn quintet(b: Seq<u8>, j: int) -> u8 {
    let b0 = byte_or_zero(b, 0);
    let b1 = byte_or_zero(b, 1);
    let b2 = byte_or_zero(b, 2);
    let b3 = byte_or_zero(b, 3);
    let b4 = byte_or_zero(b, 4);
    if j == 0 {
        b0 >> 3u8
    } else if j == 1 {
        ((b0 & 7u8) << 2u8) | (b1 >> 6u8)
    } else if j == 2 {
        (b1 >> 1u8) & 31u8
    } else if j == 3 {
        ((b1 & 1u8) << 4u8) | (b2 >> 4u8)
    } else if j == 4 {
        ((b2 & 15u8) << 1u8) | (b3 >> 7u8)
    } else if j == 5 {
        (b3 >> 2u8) & 31u8
    } else if j == 6 {
        ((b3 & 3u8) << 3u8) | (b4 >> 5u8)
    } else {
        b4 & 31u8
    }
}

/// Number of symbols that carry data for a block of `n` bytes.
pub open spec fn symbols_for(n: int) -> int {
    (8 * n + 4) / 5
}

/// Eight output characters for a block of one to five bytes, padded with `=`.
pub open spec fn base32_block(b: Seq<u8>) -> Seq<char> {
    Seq::new(
        8,
        |j: int|
            if j < symbols_for(b.len() as int) {
                base32_symbol(quintet(b, j))
            } else {
                '='
            },
    )
}

/// Padded Base32 encoding of RFC 4648, section 6.
pub open spec fn base32_encode(b: Seq<u8>) -> Seq<char>
    decreases b.len(),
{
    if b.len() == 0 {
        Seq::empty()
    } else if b.len() <= 5 {
        base32_block(b)
    } else {
        base32_block(b.take(5)) + base32_encode(b.skip(5))
    }
}

/// The bytes whose padded Base32 encoding is `s`, if there are any.
pub open spec fn base32_decode(s: Seq<char>) -> Option<Seq<u8>> {
    if exists|b: Seq<u8>| base32_encode(b) == s {
        Some(choose|b: Seq<u8>| base32_encode(b) == s)
    } else {
        None
    }
}

proof fn lemma_symbol_injective(x: u8, y: u8)
    requires
        x < 32,
        y < 32,
        base32_symbol(x) == base32_symbol(y),
    ensures
        x == y,
{
}

proof fn lemma_symbol_not_pad(x: u8)
    requires
        x < 32,
    ensures
        base32_symbol(x) != '=',
{
}

proof fn lemma_quintet_bound(b: Seq<u8>, j: int)
    ensures
        quintet(b, j) < 32,
{
    let b0 = byte_or_zero(b, 0);
    let b1 = byte_or_zero(b, 1);
    let b2 = byte_or_zero(b, 2);
    let b3 = byte_or_zero(b, 3);
    let b4 = byte_or_zero(b, 4);
    assert(b0 >> 3u8 < 32u8) by (bit_vector);
    assert(((b0 & 7u8) << 2u8) | (b1 >> 6u8) < 32u8) by (bit_vector);
    assert((b1 >> 1u8) & 31u8 < 32u8) by (bit_vector);
    assert(((b1 & 1u8) << 4u8) | (b2 >> 4u8) < 32u8) by (bit_vector);
    assert(((b2 & 15u8) << 1u8) | (b3 >> 7u8) < 32u8) by (bit_vector);
    assert((b3 >> 2u8) & 31u8 < 32u8) by (bit_vector);
    assert(((b3 & 3u8) << 3u8) | (b4 >> 5u8) < 32u8) by (bit_vector);
    assert(b4 & 31u8 < 32u8) by (bit_vector);
}

/// Equal groups over the data symbols of a block give equal bytes.
proof fn lemma_quintets_determine_bytes(x: Seq<u8>, y: Seq<u8>)
    requires
        1 <= x.len() <= 5,
        x.len() == y.len(),
        forall|j: int| 0 <= j < symbols_for(x.len() as int) ==> quintet(x, j) == quintet(y, j),
    ensures
        x == y,
{
    let n = x.len() as int;
    let x0 = byte_or_zero(x, 0);
    let x1 = byte_or_zero(x, 1);
    let x2 = byte_or_zero(x, 2);
    let x3 = byte_or_zero(x, 3);
    let x4 = byte_or_zero(x, 4);
    let y0 = byte_or_zero(y, 0);
    let y1 = byte_or_zero(y, 1);
    let y2 = byte_or_zero(y, 2);
    let y3 = byte_or_zero(y, 3);
    let y4 = byte_or_zero(y, 4);
    assert(quintet(x, 0) == quintet(y, 0));
    assert(quintet(x, 1) == quintet(y, 1));
    assert(x0 == y0) by {
        assert((x0 >> 3u8 == y0 >> 3u8 && ((x0 & 7u8) << 2u8) | (x1 >> 6u8) == ((y0 & 7u8) << 2u8)
            | (y1 >> 6u8)) ==> x0 == y0) by (bit_vector);
    }
    if n >= 2 {
        assert(quintet(x, 2) == quintet(y, 2));
        assert(quintet(x, 3) == quintet(y, 3));
        assert(x1 == y1) by {
            assert((((x0 & 7u8) << 2u8) | (x1 >> 6u8) == ((y0 & 7u8) << 2u8) | (y1 >> 6u8) && (x1
                >> 1u8) & 31u8 == (y1 >> 1u8) & 31u8 && ((x1 & 1u8) << 4u8) | (x2 >> 4u8) == ((y1
                & 1u8) << 4u8) | (y2 >> 4u8)) ==> x1 == y1) by (bit_vector);
        }
    }
    if n >= 3 {
        assert(quintet(x, 4) == quintet(y, 4));
        assert(x2 == y2) by {
            assert((((x1 & 1u8) << 4u8) | (x2 >> 4u8) == ((y1 & 1u8) << 4u8) | (y2 >> 4u8) && ((x2
                & 15u8) << 1u8) | (x3 >> 7u8) == ((y2 & 15u8) << 1u8) | (y3 >> 7u8)) ==> x2 == y2)
                by (bit_vector);
        }
    }
    if n >= 4 {
        assert(quintet(x, 5) == quintet(y, 5));
        assert(quintet(x, 6) == quintet(y, 6));
        assert(x3 == y3) by {
            assert((((x2 & 15u8) << 1u8) | (x3 >> 7u8) == ((y2 & 15u8) << 1u8) | (y3 >> 7u8) && (x3
                >> 2u8) & 31u8 == (y3 >> 2u8) & 31u8 && ((x3 & 3u8) << 3u8) | (x4 >> 5u8) == ((y3
                & 3u8) << 3u8) | (y4 >> 5u8)) ==> x3 == y3) by (bit_vector);
        }
    }
    if n >= 5 {
        assert(quintet(x, 7) == quintet(y, 7));
        assert(x4 == y4) by {
            assert((((x3 & 3u8) << 3u8) | (x4 >> 5u8) == ((y3 & 3u8) << 3u8) | (y4 >> 5u8) && x4
                & 31u8 == y4 & 31u8) ==> x4 == y4) by (bit_vector);
        }
    }
    assert(x =~= y);
}

proof fn lemma_block_injective(x: Seq<u8>, y: Seq<u8>)
    requires
        1 <= x.len() <= 5,
        1 <= y.len() <= 5,
        base32_block(x) == base32_block(y),
    ensures
        x == y,
{
    let kx = symbols_for(x.len() as int);
    let ky = symbols_for(y.len() as int);
    assert(symbols_for(1) == 2 && symbols_for(2) == 4 && symbols_for(3) == 5 && symbols_for(4) == 7
        && symbols_for(5) == 8);
    assert(x.len() == 1 || x.len() == 2 || x.len() == 3 || x.len() == 4 || x.len() == 5);
    assert(y.len() == 1 || y.len() == 2 || y.len() == 3 || y.len() == 4 || y.len() == 5);
    if kx < ky {
        lemma_quintet_bound(y, kx);
        lemma_symbol_not_pad(quintet(y, kx));
        assert(base32_block(x)[kx] == '=');
        assert(base32_block(y)[kx] == base32_symbol(quintet(y, kx)));
    } else if ky < kx {
        lemma_quintet_bound(x, ky);
        lemma_symbol_not_pad(quintet(x, ky));
        assert(base32_block(y)[ky] == '=');
        assert(base32_block(x)[ky] == base32_symbol(quintet(x, ky)));
    }
    assert(kx == ky);
    assert(x.len() == y.len());
    assert forall|j: int| 0 <= j < kx implies quintet(x, j) == quintet(y, j) by {
        lemma_quintet_bound(x, j);
        lemma_quintet_bound(y, j);
        assert(base32_block(x)[j] == base32_symbol(quintet(x, j)));
        assert(base32_block(y)[j] == base32_symbol(quintet(y, j)));
        lemma_symbol_injective(quintet(x, j), quintet(y, j));
    }
    lemma_quintets_determine_bytes(x, y);
}

/// Every five input bytes (or fewer, at the end) become eight characters.
pub proof fn lemma_base32_len(b: Seq<u8>)
    ensures
        base32_encode(b).len() == 8 * ((b.len() + 4) / 5),
    decreases b.len(),
{
    if b.len() > 5 {
        lemma_base32_len(b.skip(5));
    }
}

/// Distinct byte strings have distinct encodings.
pub proof fn lemma_base32_injective(x: Seq<u8>, y: Seq<u8>)
    requires
        base32_encode(x) == base32_encode(y),
    ensures
        x == y,
    decreases x.len(),
{
    lemma_base32_len(x);
    lemma_base32_len(y);
    if x.len() == 0 {
        assert(y.len() == 0);
        assert(x =~= y);
    } else if x.len() <= 5 {
        assert(1 <= y.len() <= 5);
        lemma_block_injective(x, y);
    } else {
        assert(y.len() > 5);
        let ex = base32_encode(x);
        let ey = base32_encode(y);
        assert(ex.take(8) =~= base32_block(x.take(5)));
        assert(ey.take(8) =~= base32_block(y.take(5)));
        assert(ex.skip(8) =~= base32_encode(x.skip(5)));
        assert(ey.skip(8) =~= base32_encode(y.skip(5)));
        lemma_block_injective(x.take(5), y.take(5));
        lemma_base32_injective(x.skip(5), y.skip(5));
        assert(x =~= x.take(5) + x.skip(5));
        assert(y =~= y.take(5) + y.skip(5));
    }
}

/// Decoding an encoding gives back the bytes that were encoded.
pub proof fn lemma_base32_round_trip(b: Seq<u8>)
    ensures
        base32_decode(base32_encode(b)) == Some(b),
{
    let s = base32_encode(b);
    assert(exists|v: Seq<u8>| base32_encode(v) == s);
    let v = choose|v: Seq<u8>| base32_encode(v) == s;
    lemma_base32_injective(v, b);
}

#[verifier::external_type_specification]
#[verifier::external_body]
pub struct ExDecodeError(DecodeError);

/// What `data_encoding::BASE32.decode` returns for a string, `None` for an error.
pub uninterp spec fn base32_decoded(s: Seq<char>) -> Option<Seq<u8>>;

/// Relies on `data_encoding::BASE32.encode`: the padded RFC 4648 Base32 text of the bytes.
#[verifier::external_body]
fn base32_text(bytes: &[u8]) -> (r: String)
    ensures
        r@ == base32_encode(bytes@),
{
    data_encoding::BASE32.encode(bytes)
}

/// Relies on `data_encoding::BASE32.decode`, which depends on its input alone and gives back
/// the bytes of any text that `BASE32.encode` produced.
#[verifier::external_body]
fn base32_bytes(s: &str) -> (r: Result<Vec<u8>, DecodeError>)
    ensures
        r is Ok ==> base32_decoded(s@) == Some(r->Ok_0@),
        r is Err ==> base32_decoded(s@) is None,
        base32_decode(s@) is Some ==> r is Ok && base32_decode(s@) == Some(r->Ok_0@),
{
    data_encoding::BASE32.decode(s.as_bytes())
}

/// Relies on `rand::rngs::OsRng::fill_bytes`: overwrites the buffer with bytes from the
/// operating system's secure random source, and panics if that source fails.
#[verifier::external_body]
fn fill_from_os(buf: &mut Vec<u8>)
    ensures
        final(buf)@.len() == old(buf)@.len(),
{
    rand::RngCore::fill_bytes(&mut rand::rngs::OsRng, buf.as_mut_slice())
}

/// The Base32 text under which a secret is shown, stored and put in a provisioning URI.
pub fn encode_secret(bytes: &[u8]) -> (r: String)
    ensures
        r@ == base32_encode(bytes@),
        base32_decode(r@) == Some(bytes@),
{
    proof {
        lemma_base32_round_trip(bytes@);
    }
    base32_text(bytes)
}

/// A fresh 256-bit shared secret from the operating system's secure random source, as Base32
/// text. A failing entropy source is fatal: the call panics.
pub fn generate_totp_secret() -> (r: String)
    ensures
        exists|b: Seq<u8>| b.len() == SECRET_LEN && r@ == base32_encode(b),
        base32_decode(r@) matches Some(k) && k.len() == SECRET_LEN,
{
    let mut buf: Vec<u8> = vec![0u8; SECRET_LEN];
    fill_from_os(&mut buf);
    encode_secret(buf.as_slice())
}

/// The key bytes of a Base32 secret. Every text that `encode_secret` produces decodes to
/// the bytes it was made from.
pub fn decode_secret(secret: &str) -> (r: Option<Vec<u8>>)
    ensures
        r matches Some(v) ==> base32_decoded(secret@) == Some(v@),
        r is None ==> base32_decoded(secret@) is None,
        base32_decode(secret@) matches Some(b) ==> (r matches Some(v) && v@ == b),
{
    match base32_bytes(secret) {
        Ok(v) => Some(v),
        Err(_) => None,
    }
}

} // verus!
