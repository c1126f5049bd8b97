use crate::secret::{
    base32_decode, base32_decoded, base32_encode, decode_secret, lemma_base32_round_trip,
};
use vstd::prelude::*;
use vstd::string::StrSliceExecFns;

verus! {

/// Length of a time step, in seconds.
pub const TIME_STEP: u64 = 30;

/// Number of decimal digits in a one-time code.
pub const CODE_DIGITS: usize = 6;

/// The HMAC-SHA1 one-time code (RFC 4226, six digits) that `otpauth` computes for a key
/// and a counter.
pub uninterp spec fn hotp_code(key: Seq<u8>, counter: u64) -> u32;

/// Relies on `otpauth::HOTP::from_bytes` and `HOTP::generate`: the RFC 4226 code for the key
/// and counter, which its source reduces modulo one million.
#[verifier::external_body]
fn hotp_value(key: &[u8], counter: u64) -> (r: u32)
    ensures
        r == hotp_code(key@, counter),
        r < 1_000_000,
{
    otpauth::HOTP::from_bytes(key).generate(counter)
}

pub open spec fn pow10(n: nat) -> int
    decreases n,
{
    if n == 0 {
        1
    } else {
        10 * pow10((n - 1) as nat)
    }
}

pub open spec fn is_digit(c: char) -> bool {
    '0' <= c <= '9'
}

pub open spec fn digit_value(c: char) -> int {
    c as int - '0' as int
}

pub open spec fn digit_char(d: int) -> char {
    (d + 48) as u32 as char
}

/// The number that a string of decimal digits spells.
pub open spec fn digits_value(s: Seq<char>) -> int
    decreases s.len(),
{
    if s.len() == 0 {
        0
    } else {
        digits_value(s.drop_last()) * 10 + digit_value(s.last())
    }
}

/// The last `n` decimal digits of `v`, zero-padded.
pub open spec fn digits_text(v: int, n: nat) -> Seq<char>
    decreases n,
{
    if n == 0 {
        Seq::empty()
    } else {
        digits_text(v / 10, (n - 1) as nat).push(digit_char(v % 10))
    }
}

/// The six-digit text under which a code is shown to the user.
pub open spec fn code_text(v: u32) -> Seq<char> {
    digits_text(v as int, CODE_DIGITS as nat)
}

/// The value of a candidate code: it must be exactly six ASCII digits.
pub open spec fn code_value(s: Seq<char>) -> Option<u32> {
    if s.len() == CODE_DIGITS && forall|i: int| 0 <= i < s.len() ==> is_digit(#[trigger] s[i]) {
        Some(digits_value(s) as u32)
    } else {
        None
    }
}

/// Whether `code` is accepted at time `now` (seconds since the epoch) for the key: it is the
/// code of the current time step, of the one before, or of the one after.
pub open spec fn code_accepted(key: Seq<u8>, code: Seq<char>, now: u64) -> bool {
    let step = now / TIME_STEP;
    ||| step >= 1 && code == code_text(hotp_code(key, (step - 1) as u64))
    ||| code == code_text(hotp_code(key, step))
    ||| code == code_text(hotp_code(key, (step + 1) as u64))
}

proof fn lemma_pow10_small()
    ensures
        pow10(1) == 10,
        pow10(2) == 100,
        pow10(3) == 1000,
        pow10(4) == 10000,
        pow10(5) == 100000,
        pow10(6) == 1_000_000,
{
    reveal_with_fuel(pow10, 7);
}

proof fn lemma_digits_text_value(v: int, n: nat)
    requires
        0 <= v < pow10(n),
    ensures
        digits_text(v, n).len() == n,
        forall|i: int| 0 <= i < n ==> is_digit(#[trigger] digits_text(v, n)[i]),
        digits_value(digits_text(v, n)) == v,
    decreases n,
{
    if n > 0 {
        let m = (n - 1) as nat;
        assert(0 <= v / 10 < pow10(m)) by (nonlinear_arith)
            requires
                0 <= v < pow10(n),
                pow10(n) == 10 * pow10(m),
        ;
        lemma_digits_text_value(v / 10, m);
        let t = digits_text(v, n);
        assert(t.drop_last() =~= digits_text(v / 10, m));
        assert(v == (v / 10) * 10 + v % 10) by (nonlinear_arith);
    }
}

proof fn lemma_digits_determine_text(s: Seq<char>)
    requires
        forall|i: int| 0 <= i < s.len() ==> is_digit(#[trigger] s[i]),
    ensures
        digits_text(digits_value(s), s.len()) == s,
        0 <= digits_value(s) < pow10(s.len()),
    decreases s.len(),
{
    if s.len() > 0 {
        let p = s.drop_last();
        assert forall|i: int| 0 <= i < p.len() implies is_digit(#[trigger] p[i]) by {
            assert(p[i] == s[i]);
        }
        lemma_digits_determine_text(p);
        let d = digit_value(s.last());
        let w = digits_value(p);
        let v = digits_value(s);
        assert(0 <= d < 10);
        assert(v == w * 10 + d);
        assert(v / 10 == w && v % 10 == d) by (nonlinear_arith)
            requires
                v == w * 10 + d,
                0 <= d < 10,
        ;
        assert(digit_char(d) == s.last());
        assert(digits_text(v, s.len()) =~= p.push(s.last()));
        assert(s =~= p.push(s.last()));
        assert(0 <= v < pow10(s.len())) by (nonlinear_arith)
            requires
                v == w * 10 + d,
                0 <= d < 10,
                0 <= w < pow10(p.len()),
                pow10(s.len()) == 10 * pow10(p.len()),
        ;
    }
}

/// A six-digit text has a given value below one million exactly when it is that value's text.
pub proof fn lemma_code_value_text(s: Seq<char>, v: u32)
    requires
        v < 1_000_000,
    ensures
        code_value(s) == Some(v) <==> s == code_text(v),
{
    lemma_pow10_small();
    lemma_digits_text_value(v as int, 6);
    if code_value(s) == Some(v) {
        lemma_digits_determine_text(s);
    }
}

/// The value of `code` when it is exactly six ASCII digits.
pub fn parse_code(code: &str) -> (r: Option<u32>)
    ensures
        r == code_value(code@),
{
    let n = code.unicode_len();
    if n != CODE_DIGITS {
        return None;
    }
    let mut value: u32 = 0;
    let mut i: usize = 0;
    while i < n
        invariant
            n == code@.len(),
            n == CODE_DIGITS,
            i <= n,
            forall|j: int| 0 <= j < i ==> is_digit(#[trigger] code@[j]),
            value == digits_value(code@.take(i as int)),
            value < pow10(i as nat),
            pow10(i as nat) <= 1_000_000,
        decreases n - i,
    {
        let c = code.get_char(i);
        if !('0' <= c && c <= '9') {
            return None;
        }
        let ghost prefix = code@.take(i + 1);
        proof {
            assert(prefix.drop_last() =~= code@.take(i as int));
            lemma_pow10_small();
            assert(i < 6);
            assert(value * 10 + 9 < pow10((i + 1) as nat) + 0) by (nonlinear_arith)
                requires
                    value < pow10(i as nat),
                    pow10((i + 1) as nat) == 10 * pow10(i as nat),
            ;
        }
        value = value * 10 + (c as u32 - '0' as u32);
        i = i + 1;
    }
    assert(code@.take(n as int) =~= code@);
    Some(value)
}

/// Whether a candidate code matches one of the codes of a time window. All three comparisons
/// are made, whatever their outcome.
pub fn code_in_window(candidate: &str, previous: Option<u32>, current: u32, next: u32) -> (r: bool)
    ensures
        r == (match code_value(candidate@) {
            Some(v) => previous == Some(v) || current == v || next == v,
            None => false,
        }),
{
    match parse_code(candidate) {
        Some(v) => {
            let earlier = match previous {
                Some(p) => p == v,
                None => false,
            };
            let now = current == v;
            let later = next == v;
            let hits: u8 = earlier as u8 + now as u8 + later as u8;
            hits > 0
        },
        None => false,
    }
}

/// Whether `code` is accepted at time `now` for the raw key bytes.
pub fn verify_code_for_key(key: &[u8], code: &str, now: u64) -> (r: bool)
    ensures
        r == code_accepted(key@, code@, now),
{
    let step = now / TIME_STEP;
    let previous = if step >= 1 {
        Some(hotp_value(key, step - 1))
    } else {
        None
    };
    let current = hotp_value(key, step);
    let next = hotp_value(key, step + 1);
    let r = code_in_window(code, previous, current, next);
    proof {
        if step >= 1 {
            lemma_code_value_text(code@, hotp_code(key@, (step - 1) as u64));
        }
        lemma_code_value_text(code@, current);
        lemma_code_value_text(code@, next);
    }
    r
}

/// Whether `code` is accepted at time `now` for a Base32 secret. A secret that does not
/// decode accepts no code.
pub fn verify_totp_code(secret: &str, code: &str, now: u64) -> (r: bool)
    ensures
        r == (match base32_decoded(secret@) {
            Some(key) => code_accepted(key, code@, now),
            None => false,
        }),
        base32_decode(secret@) matches Some(key) ==> r == code_accepted(key, code@, now),
{
    match decode_secret(secret) {
        Some(key) => verify_code_for_key(key.as_slice(), code, now),
        None => false,
    }
}

/// A code computed by the TOTP algorithm for a key at a time is accepted at that time, and
/// the Base32 secret of the key decodes back to that key.
pub proof fn lemma_current_code_accepted(key: Seq<u8>, now: u64)
    ensures
        base32_decode(base32_encode(key)) == Some(key),
        code_accepted(key, code_text(hotp_code(key, now / TIME_STEP)), now),
{
    lemma_base32_round_trip(key);
}

/// A code of the step that holds time `t` is refused at `t + 31`, one step and one second
/// past the tolerance of one step, when `t` falls in the last second of its step and the steps
/// around `t + 31` give other digits.
pub proof fn lemma_expired_code_rejected(key: Seq<u8>, t: u64)
    requires
        t + TIME_STEP + 1 <= u64::MAX,
        t % TIME_STEP == TIME_STEP - 1,
        code_text(hotp_code(key, (t / TIME_STEP + 1) as u64)) != code_text(
            hotp_code(key, t / TIME_STEP),
        ),
        code_text(hotp_code(key, (t / TIME_STEP + 2) as u64)) != code_text(
            hotp_code(key, t / TIME_STEP),
        ),
        code_text(hotp_code(key, (t / TIME_STEP + 3) as u64)) != code_text(
            hotp_code(key, t / TIME_STEP),
        ),
    ensures
        !code_accepted(key, code_text(hotp_code(key, t / TIME_STEP)), (t + TIME_STEP + 1) as u64),
{
    let later = (t + TIME_STEP + 1) as u64;
    assert(later / TIME_STEP == t / TIME_STEP + 2);
}

} // verus!
