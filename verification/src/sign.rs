//! Payload signing for host deliveries: the header
//! `t=<unix>,v1=<hex>` carries `HMAC-SHA256(key, "<t>." || body)` in
//! lower-case hex.

use vstd::prelude::*;

use hmac::{KeyInit, Mac};

use crate::palette::is_white_space;
use crate::text::{chars_of, decimal, digit_char, push_char, push_str, split_once_str, str_eq, u64_to_decimal};

verus! {

/// The signature header name (lower case, as delivered).
pub const SIGNATURE_HEADER: &'static str = "x-cleverhans-signature";

/// Default verification clock-skew tolerance, in seconds.
pub const DEFAULT_SKEW_SECS: u64 = 300;

/// HMAC-SHA256 of a message under a key.
pub uninterp spec fn hmac_sha256(key: Seq<u8>, msg: Seq<u8>) -> Seq<u8>;

/// `Hmac::<Sha256>::new_from_slice`, `update`, `finalize`: the MAC of
/// `msg` under `key` (any key length is accepted), SHA-256's 32 bytes.
#[verifier::external_body]
fn hmac_digest(key: &[u8], msg: &[u8]) -> (d: Vec<u8>)
    ensures
        d@ == hmac_sha256(key@, msg@),
        d@.len() == 32,
{
    let mut mac = hmac::Hmac::<sha2::Sha256>::new_from_slice(key).expect("hmac accepts any key length");
    mac.update(msg);
    mac.finalize().into_bytes().to_vec()
}

/// `Mac::verify_slice`: a constant-time comparison of the MAC of `msg`
/// under `key` with `tag`; true exactly when they are equal.
#[verifier::external_body]
fn hmac_matches(key: &[u8], msg: &[u8], tag: &[u8]) -> (r: bool)
    ensures
        r == (tag@ == hmac_sha256(key@, msg@)),
{
    let mut mac = hmac::Hmac::<sha2::Sha256>::new_from_slice(key).expect("hmac accepts any key length");
    mac.update(msg);
    mac.verify_slice(tag).is_ok()
}

/// The lower-case hex digit of a nibble.
pub open spec fn hex_digit(n: int) -> char {
    if n < 10 {
        ((48 + n) as u8) as char
    } else {
        ((87 + n) as u8) as char
    }
}

/// Lower-case hex of a byte string, two digits per byte.
pub open spec fn hex_lower(b: Seq<u8>) -> Seq<char>
    decreases b.len(),
{
    if b.len() == 0 {
        Seq::empty()
    } else {
        hex_lower(b.drop_last()).push(hex_digit(b.last() as int / 16)).push(hex_digit(b.last() as int % 16))
    }
}

/// `hex::encode`: lower-case hex of the bytes.
#[verifier::external_body]
fn hex_encode(b: &[u8]) -> (s: String)
    ensures
        s@ == hex_lower(b@),
{
    hex::encode(b)
}

/// The value of a hex digit of either case.
pub open spec fn hex_value(c: char) -> Option<int> {
    if '0' <= c && c <= '9' {
        Some(c as int - 48)
    } else if 'a' <= c && c <= 'f' {
        Some(c as int - 87)
    } else if 'A' <= c && c <= 'F' {
        Some(c as int - 55)
    } else {
        None
    }
}

/// The bytes a hex string stands for: even length, every character a hex
/// digit of either case.
pub open spec fn hex_bytes(s: Seq<char>) -> Option<Seq<u8>>
    decreases s.len(),
{
    if s.len() == 0 {
        Some(Seq::empty())
    } else if s.len() == 1 {
        None
    } else {
        match (hex_bytes(s.take(s.len() - 2)), hex_value(s[s.len() - 2]), hex_value(s[s.len() - 1])) {
            (Some(b), Some(hi), Some(lo)) => Some(b.push((hi * 16 + lo) as u8)),
            _ => None,
        }
    }
}

/// `hex::decode`: the bytes of a hex string of either case, or `None`
/// when its length is odd or a character is not a hex digit.
#[verifier::external_body]
fn hex_decode(s: &str) -> (r: Option<Vec<u8>>)
    ensures
        match hex_bytes(s@) {
            Some(b) => r matches Some(v) && v@ == b,
            None => r is None,
        },
{
    hex::decode(s).ok()
}

/// The ASCII bytes of `n` in decimal.
pub open spec fn decimal_bytes(n: nat) -> Seq<u8>
    decreases n,
{
    if n < 10 {
        seq![(48 + n) as u8]
    } else {
        decimal_bytes(n / 10).push((48 + n % 10) as u8)
    }
}

fn push_decimal_bytes(v: &mut Vec<u8>, n: u64)
    ensures
        final(v)@ == old(v)@ + decimal_bytes(n as nat),
    decreases n,
{
    if n >= 10 {
        push_decimal_bytes(v, n / 10);
    }
    let d: u8 = (n % 10) as u8;
    v.push(48u8 + d);
    assert(decimal_bytes(n as nat) =~= if n < 10 {
        seq![(48 + n) as u8]
    } else {
        decimal_bytes((n / 10) as nat).push((48 + n % 10) as u8)
    });
}

/// The signed message: the decimal timestamp, a dot, then the body.
pub open spec fn signed_message(timestamp: u64, body: Seq<u8>) -> Seq<u8> {
    decimal_bytes(timestamp as nat) + seq![46u8] + body
}

fn message_bytes(timestamp: u64, body: &[u8]) -> (m: Vec<u8>)
    ensures
        m@ == signed_message(timestamp, body@),
{
    let mut m: Vec<u8> = Vec::new();
    push_decimal_bytes(&mut m, timestamp);
    m.push(46u8);
    let mut i: usize = 0;
    let ghost start = m@;
    while i < body.len()
        invariant
            i <= body.len(),
            m@ == start + body@.take(i as int),
        decreases body.len() - i,
    {
        m.push(body[i]);
        assert(body@.take(i + 1) =~= body@.take(i as int).push(body@[i as int]));
        i = i + 1;
    }
    assert(body@.take(i as int) =~= body@);
    m
}

/// The header value for a body about to be sent.
pub open spec fn signature_text(key: Seq<u8>, timestamp: u64, body: Seq<u8>) -> Seq<char> {
    "t="@ + decimal(timestamp as nat) + ",v1="@ + hex_lower(hmac_sha256(key, signed_message(timestamp, body)))
}

/// Builds the header value for the exact body bytes about to be sent.
pub fn signature_header(key: &[u8], timestamp: u64, body: &[u8]) -> (s: String)
    ensures
        s@ == signature_text(key@, timestamp, body@),
{
    let msg = message_bytes(timestamp, body);
    let digest = hmac_digest(key, msg.as_slice());
    let mut s = "t=".to_owned();
    push_str(&mut s, u64_to_decimal(timestamp).as_str());
    push_str(&mut s, ",v1=");
    push_str(&mut s, hex_encode(digest.as_slice()).as_str());
    s
}

/// Why a signature failed verification.
#[derive(Debug, PartialEq, Eq, Structural)]
pub enum SignatureError {
    /// The header is not `t=<unix>,v1=<hex>`.
    Malformed,
    /// The timestamp is outside the skew window.
    Expired,
    /// No configured key produced this signature over this body.
    Mismatch,
}

impl SignatureError {
    /// The error's message.
    pub fn message(&self) -> (s: &'static str)
        ensures
            s@ == match *self {
                SignatureError::Malformed => "malformed signature header"@,
                SignatureError::Expired => "signature timestamp outside the skew window"@,
                SignatureError::Mismatch => "signature does not match the body"@,
            },
    {
        match self {
            SignatureError::Malformed => "malformed signature header",
            SignatureError::Expired => "signature timestamp outside the skew window",
            SignatureError::Mismatch => "signature does not match the body",
        }
    }
}

/// The value of a string of decimal digits.
pub open spec fn digits_value(d: Seq<char>) -> nat
    decreases d.len(),
{
    if d.len() == 0 {
        0
    } else {
        digits_value(d.drop_last()) * 10 + (d.last() as int - 48) as nat
    }
}

pub open spec fn all_digits(d: Seq<char>) -> bool {
    forall|i: int| 0 <= i < d.len() ==> '0' <= #[trigger] d[i] && d[i] <= '9'
}

/// `str::parse::<u64>`: an optional `+`, then one or more decimal digits
/// whose value fits in 64 bits.
pub open spec fn parse_u64_spec(s: Seq<char>) -> Option<u64> {
    let d = if s.len() > 0 && s[0] == '+' { s.skip(1) } else { s };
    if d.len() > 0 && all_digits(d) && digits_value(d) <= u64::MAX {
        Some(digits_value(d) as u64)
    } else {
        None
    }
}

proof fn lemma_digits_monotone(d: Seq<char>, k: int)
    requires
        all_digits(d),
        0 <= k <= d.len(),
    ensures
        digits_value(d.take(k)) <= digits_value(d),
    decreases d.len() - k,
{
    if k < d.len() {
        lemma_digits_monotone(d, k + 1);
        assert(d.take(k + 1).drop_last() =~= d.take(k));
        assert(d.take(k + 1).last() == d[k]);
    } else {
        assert(d.take(k) =~= d);
    }
}

/// Parses an unsigned 64-bit decimal.
pub fn parse_u64(s: &str) -> (r: Option<u64>)
    ensures
        r == parse_u64_spec(s@),
{
    let cs = chars_of(s);
    let start: usize = if cs.len() > 0 && cs[0] == '+' { 1 } else { 0 };
    let ghost d = if s@.len() > 0 && s@[0] == '+' { s@.skip(1) } else { s@ };
    assert(d =~= cs@.skip(start as int));
    if start >= cs.len() {
        return None;
    }
    let mut value: u64 = 0;
    let mut i: usize = start;
    while i < cs.len()
        invariant
            start <= i <= cs.len(),
            start < cs.len(),
            cs@ == s@,
            d == cs@.skip(start as int),
            d == (if s@.len() > 0 && s@[0] == '+' { s@.skip(1) } else { s@ }),
            all_digits(d.take(i - start)),
            value as nat == digits_value(d.take(i - start)),
        decreases cs.len() - i,
    {
        let c = cs[i];
        let ghost k = i - start;
        assert(d.take(k + 1).drop_last() =~= d.take(k));
        assert(d.take(k + 1).last() == c);
        if c < '0' || c > '9' {
            assert(!all_digits(d)) by {
                assert(d[k] == c);
            }
            return None;
        }
        let digit: u64 = (c as u32 - 48) as u64;
        if value > (u64::MAX - digit) / 10 {
            proof {
                assert(digits_value(d.take(k + 1)) == value * 10 + digit);
                assert(value * 10 + digit > u64::MAX) by (nonlinear_arith)
                    requires value > (u64::MAX - digit) / 10, digit <= 9;
                if all_digits(d) {
                    lemma_digits_monotone(d, k + 1);
                }
            }
            return None;
        }
        assert(value * 10 + digit <= u64::MAX) by (nonlinear_arith)
            requires value <= (u64::MAX - digit) / 10, digit <= 9;
        value = value * 10 + digit;
        assert forall|j: int| 0 <= j < k + 1 implies '0' <= #[trigger] d.take(k + 1)[j] && d.take(k + 1)[j] <= '9' by {
            if j < k {
                assert(d.take(k + 1)[j] == d.take(k)[j]);
            }
        }
        i = i + 1;
    }
    assert(d.take(i - start) =~= d);
    Some(value)
}

/// `str::trim`: `s` without leading and trailing white space.
pub open spec fn trimmed(s: Seq<char>) -> Seq<char>
    decreases s.len(),
{
    if s.len() > 0 && is_white_space(s[0]) {
        trimmed(s.drop_first())
    } else if s.len() > 0 && is_white_space(s.last()) {
        trimmed(s.drop_last())
    } else {
        s
    }
}

fn trim(s: &str) -> (r: String)
    ensures
        r@ == trimmed(s@),
{
    let cs = chars_of(s);
    let mut a: usize = 0;
    let mut b: usize = cs.len();
    assert(cs@.subrange(0, cs.len() as int) =~= cs@);
    while a < b && crate::palette::white_space(cs[a])
        invariant
            a <= b == cs.len(),
            cs@ == s@,
            trimmed(s@) == trimmed(cs@.subrange(a as int, b as int)),
        decreases b - a,
    {
        assert(cs@.subrange(a as int, b as int).drop_first() =~= cs@.subrange(a + 1, b as int));
        a = a + 1;
    }
    while a < b && crate::palette::white_space(cs[b - 1])
        invariant
            a <= b <= cs.len(),
            cs@ == s@,
            trimmed(s@) == trimmed(cs@.subrange(a as int, b as int)),
            a < b ==> !is_white_space(cs@[a as int]),
        decreases b - a,
    {
        assert(cs@.subrange(a as int, b as int).drop_last() =~= cs@.subrange(a as int, b - 1));
        b = b - 1;
    }
    crate::text::substring(&cs, a, b)
}

/// The pieces of `s` between commas, empty ones included.
pub open spec fn comma_parts(s: Seq<char>) -> Seq<Seq<char>>
    decreases s.len(),
{
    match crate::text::split_once(s, ',') {
        Some((head, tail)) => seq![head] + comma_parts(tail),
        None => seq![s],
    }
}

/// What the header's parts carry: the last timestamp and every signature,
/// in order; `None` when a part is neither `t=<u64>` nor `v1=<hex>`.
pub open spec fn header_fields(parts: Seq<Seq<char>>) -> Option<(Option<u64>, Seq<Seq<u8>>)>
    decreases parts.len(),
{
    if parts.len() == 0 {
        Some((None, Seq::empty()))
    } else {
        match header_fields(parts.drop_last()) {
            None => None,
            Some((ts, sigs)) => match crate::text::split_once(trimmed(parts.last()), '=') {
                Some((k, v)) => if k == "t"@ {
                    match parse_u64_spec(v) {
                        Some(n) => Some((Some(n), sigs)),
                        None => None,
                    }
                } else if k == "v1"@ {
                    match hex_bytes(v) {
                        Some(b) => Some((ts, sigs.push(b))),
                        None => None,
                    }
                } else {
                    None
                },
                None => None,
            },
        }
    }
}

pub open spec fn abs_diff(a: u64, b: u64) -> int {
    if a >= b { a - b } else { b - a }
}

/// Some key produced one of the signatures over the timestamped body.
pub open spec fn some_key_signed(keys: Seq<Seq<u8>>, sigs: Seq<Seq<u8>>, timestamp: u64, body: Seq<u8>) -> bool {
    exists|k: int, j: int| 0 <= k < keys.len() && 0 <= j < sigs.len()
        && sigs[j] == hmac_sha256(keys[k], signed_message(timestamp, body))
}

/// The verdict on a header: malformed, outside the skew window, or
/// matching under one of the keys.
pub open spec fn verify_outcome(keys: Seq<Seq<u8>>, header: Seq<char>, body: Seq<u8>, now: u64, skew: u64) -> Result<(), SignatureError> {
    match header_fields(comma_parts(header)) {
        None => Err(SignatureError::Malformed),
        Some((None, _)) => Err(SignatureError::Malformed),
        Some((Some(t), sigs)) => if sigs.len() == 0 {
            Err(SignatureError::Malformed)
        } else if abs_diff(now, t) > skew {
            Err(SignatureError::Expired)
        } else if some_key_signed(keys, sigs, t, body) {
            Ok(())
        } else {
            Err(SignatureError::Mismatch)
        },
    }
}

pub open spec fn keys_view(keys: Seq<Vec<u8>>) -> Seq<Seq<u8>> {
    keys.map_values(|k: Vec<u8>| k@)
}


pub open spec fn strings_view(v: Seq<String>) -> Seq<Seq<char>> {
    v.map_values(|x: String| x@)
}

fn split_commas(s: &str) -> (v: Vec<String>)
    ensures
        strings_view(v@) == comma_parts(s@),
{
    let mut out: Vec<String> = Vec::new();
    let mut rest: String = s.to_owned();
    loop
        invariant
            strings_view(out@) + comma_parts(rest@) == comma_parts(s@),
        decreases rest@.len(),
    {
        let ghost before = strings_view(out@);
        let ghost r = rest@;
        match split_once_str(rest.as_str(), ',') {
            Some((head, tail)) => {
                proof {
                    let i = crate::text::first_index(r, ',')->0;
                    assert(crate::text::is_first(r, ',', i));
                }
                out.push(head);
                assert(strings_view(out@) =~= before.push((crate::text::split_once(r, ',')->0).0));
                assert(before + comma_parts(r) =~= strings_view(out@) + comma_parts(tail@));
                rest = tail;
            },
            None => {
                out.push(rest);
                assert(strings_view(out@) =~= before + comma_parts(r));
                return out;
            },
        }
    }
}

proof fn lemma_fields_prefix_none(parts: Seq<Seq<char>>, i: int)
    requires
        0 <= i <= parts.len(),
        header_fields(parts.take(i)) is None,
    ensures
        header_fields(parts) is None,
    decreases parts.len() - i,
{
    if i < parts.len() {
        assert(parts.take(i + 1).drop_last() =~= parts.take(i));
        lemma_fields_prefix_none(parts, i + 1);
    } else {
        assert(parts.take(i) =~= parts);
    }
}

pub open spec fn sigs_view(v: Seq<Vec<u8>>) -> Seq<Seq<u8>> {
    v.map_values(|b: Vec<u8>| b@)
}

/// Verifies a header against the exact received body bytes. `keys` may
/// hold several keys (a rotation grace window); any match passes.
pub fn verify_signature(keys: &Vec<Vec<u8>>, header: &str, body: &[u8], now: u64, skew_secs: u64) -> (r: Result<(), SignatureError>)
    ensures
        r == verify_outcome(keys_view(keys@), header@, body@, now, skew_secs),
{
    let parts = split_commas(header);
    let ghost pv = strings_view(parts@);
    let mut timestamp: Option<u64> = None;
    let mut signatures: Vec<Vec<u8>> = Vec::new();
    let mut i: usize = 0;
    while i < parts.len()
        invariant
            i <= parts.len(),
            pv == strings_view(parts@),
            pv == comma_parts(header@),
            header_fields(pv.take(i as int)) == Some((timestamp, sigs_view(signatures@))),
        decreases parts.len() - i,
    {
        let ghost t = pv.take(i + 1);
        proof {
            assert(t.drop_last() =~= pv.take(i as int));
            assert(t.last() == parts[i as int]@);
        }
        let part = trim(parts[i].as_str());
        match split_once_str(part.as_str(), '=') {
            Some((k, v)) => {
                if str_eq(k.as_str(), "t") {
                    match parse_u64(v.as_str()) {
                        Some(n) => {
                            timestamp = Some(n);
                        },
                        None => {
                            proof {
                                lemma_fields_prefix_none(pv, i + 1);
                            }
                            return Err(SignatureError::Malformed);
                        },
                    }
                } else if str_eq(k.as_str(), "v1") {
                    match hex_decode(v.as_str()) {
                        Some(b) => {
                            let ghost before = sigs_view(signatures@);
                            signatures.push(b);
                            assert(sigs_view(signatures@) =~= before.push(b@));
                        },
                        None => {
                            proof {
                                lemma_fields_prefix_none(pv, i + 1);
                            }
                            return Err(SignatureError::Malformed);
                        },
                    }
                } else {
                    proof {
                        lemma_fields_prefix_none(pv, i + 1);
                    }
                    return Err(SignatureError::Malformed);
                }
            },
            None => {
                proof {
                    lemma_fields_prefix_none(pv, i + 1);
                }
                return Err(SignatureError::Malformed);
            },
        }
        i = i + 1;
    }
    assert(pv.take(i as int) =~= pv);
    let ts = match timestamp {
        None => return Err(SignatureError::Malformed),
        Some(t) => t,
    };
    if signatures.len() == 0 {
        return Err(SignatureError::Malformed);
    }
    let diff: u64 = if now >= ts { now - ts } else { ts - now };
    if diff > skew_secs {
        return Err(SignatureError::Expired);
    }
    let msg = message_bytes(ts, body);
    let ghost kv = keys_view(keys@);
    let ghost sv = sigs_view(signatures@);
    let mut k: usize = 0;
    assert(header_fields(comma_parts(header@)) == Some((Some(ts), sv)));
    while k < keys.len()
        invariant
            k <= keys.len(),
            header_fields(comma_parts(header@)) == Some((Some(ts), sv)),
            sv.len() > 0,
            abs_diff(now, ts) <= skew_secs,
            kv == keys_view(keys@),
            sv == sigs_view(signatures@),
            msg@ == signed_message(ts, body@),
            forall|a: int, b: int| 0 <= a < k && 0 <= b < sv.len() ==> sv[b] != hmac_sha256(kv[a], msg@),
        decreases keys.len() - k,
    {
        let mut j: usize = 0;
        while j < signatures.len()
            invariant
                k < keys.len(),
                j <= signatures.len(),
                header_fields(comma_parts(header@)) == Some((Some(ts), sv)),
                sv.len() > 0,
                abs_diff(now, ts) <= skew_secs,
                kv == keys_view(keys@),
                sv == sigs_view(signatures@),
                msg@ == signed_message(ts, body@),
                forall|a: int, b: int| 0 <= a < k && 0 <= b < sv.len() ==> sv[b] != hmac_sha256(kv[a], msg@),
                forall|b: int| 0 <= b < j ==> sv[b] != hmac_sha256(kv[k as int], msg@),
            decreases signatures.len() - j,
        {
            assert(sv[j as int] == signatures[j as int]@);
            assert(kv[k as int] == keys[k as int]@);
            if hmac_matches(keys[k].as_slice(), msg.as_slice(), signatures[j].as_slice()) {
                assert(some_key_signed(kv, sv, ts, body@));
                return Ok(());
            }
            j = j + 1;
        }
        k = k + 1;
    }
    Err(SignatureError::Mismatch)
}

} // verus!

verus! {

/// The decimal text of a number is all digits, starts with a digit, and
/// reads back as the number.
proof fn lemma_decimal_digits(n: nat)
    ensures
        decimal(n).len() >= 1,
        all_digits(decimal(n)),
        digits_value(decimal(n)) == n,
    decreases n,
{
    if n < 10 {
        let d = decimal(n);
        assert(d[0] == digit_char(n));
        assert(d.drop_last() =~= Seq::<char>::empty());
        assert(digits_value(d.drop_last()) == 0);
        assert((digit_char(n) as int) == 48 + n);
    } else {
        lemma_decimal_digits(n / 10);
        let d = decimal(n);
        assert(d.drop_last() =~= decimal(n / 10));
        assert(d.last() == digit_char(n % 10));
        assert((digit_char(n % 10) as int) == 48 + n % 10);
        assert forall|i: int| 0 <= i < d.len() implies '0' <= #[trigger] d[i] && d[i] <= '9' by {
            if i < d.len() - 1 {
                assert(d[i] == decimal(n / 10)[i]);
            }
        }
        assert((n / 10) * 10 + n % 10 == n);
    }
}

/// A hex digit of a nibble reads back as the nibble.
proof fn lemma_hex_digit(n: int)
    requires
        0 <= n < 16,
    ensures
        hex_value(hex_digit(n)) == Some(n),
        ('0' <= hex_digit(n) <= '9') || ('a' <= hex_digit(n) <= 'f'),
{
    if n < 10 {
        assert((hex_digit(n) as int) == 48 + n);
    } else {
        assert((hex_digit(n) as int) == 87 + n);
    }
}

/// Lower-case hex reads back as the bytes it encodes, and holds only
/// digits and `a` to `f`.
proof fn lemma_hex_round_trip(b: Seq<u8>)
    ensures
        hex_bytes(hex_lower(b)) == Some(b),
        hex_lower(b).len() == 2 * b.len(),
        forall|i: int| 0 <= i < hex_lower(b).len() ==> ('0' <= #[trigger] hex_lower(b)[i] <= '9') || ('a' <= hex_lower(b)[i] <= 'f'),
    decreases b.len(),
{
    if b.len() == 0 {
        assert(hex_lower(b) =~= Seq::<char>::empty());
    } else {
        let p = b.drop_last();
        let x = b.last();
        lemma_hex_round_trip(p);
        let hi = x as int / 16;
        let lo = x as int % 16;
        lemma_hex_digit(hi);
        lemma_hex_digit(lo);
        let s = hex_lower(b);
        assert(s == hex_lower(p).push(hex_digit(hi)).push(hex_digit(lo)));
        assert(s.take(s.len() - 2) =~= hex_lower(p));
        assert(s[s.len() - 2] == hex_digit(hi));
        assert(s[s.len() - 1] == hex_digit(lo));
        assert(hi * 16 + lo == x as int);
        assert(((hi * 16 + lo) as u8) == x);
        assert(p.push(x) =~= b);
        assert forall|i: int| 0 <= i < s.len() implies ('0' <= #[trigger] s[i] <= '9') || ('a' <= s[i] <= 'f') by {
            if i < s.len() - 2 {
                assert(s[i] == hex_lower(p)[i]);
            }
        }
    }
}

proof fn lemma_first_index_at(s: Seq<char>, c: char, i: int)
    requires
        crate::text::is_first(s, c, i),
    ensures
        crate::text::first_index(s, c) == Some(i),
{
    let w = choose|w: int| crate::text::is_first(s, c, w);
    assert(crate::text::is_first(s, c, w));
    if w < i {
        assert(s[w] != c);
    }
    if i < w {
        assert(s[i] != c);
    }
}

proof fn lemma_first_index_absent(s: Seq<char>, c: char)
    requires
        forall|i: int| 0 <= i < s.len() ==> s[i] != c,
    ensures
        crate::text::first_index(s, c) is None,
{
}

proof fn lemma_signature_parts(d: Seq<char>, x: Seq<char>)
    requires
        d.len() >= 1,
        all_digits(d),
        forall|i: int| 0 <= i < x.len() ==> ('0' <= #[trigger] x[i] <= '9') || ('a' <= x[i] <= 'f'),
    ensures
        comma_parts("t="@ + d + ",v1="@ + x) == seq!["t="@ + d, "v1="@ + x],
{
    reveal_strlit("t=");
    reveal_strlit(",v1=");
    reveal_strlit("v1=");
    let head = "t="@ + d;
    let tail = "v1="@ + x;
    let h = "t="@ + d + ",v1="@ + x;
    assert(h =~= head + seq![','] + tail);
    assert forall|j: int| 0 <= j < head.len() implies h[j] != ',' by {
        if j >= 2 {
            assert(h[j] == d[j - 2]);
        }
    }
    assert(crate::text::is_first(h, ',', head.len() as int));
    lemma_first_index_at(h, ',', head.len() as int);
    assert(h.take(head.len() as int) =~= head);
    assert(h.skip(head.len() as int + 1) =~= tail);
    assert forall|i: int| 0 <= i < tail.len() implies tail[i] != ',' by {
        if i >= 3 {
            assert(tail[i] == x[i - 3]);
        }
    }
    lemma_first_index_absent(tail, ',');
    assert(comma_parts(tail) == seq![tail]);
    assert(comma_parts(h) =~= seq![head, tail]);
}

proof fn lemma_timestamp_part(t: u64)
    ensures
        header_fields(seq!["t="@ + decimal(t as nat)]) == Some((Some(t), Seq::<Seq<u8>>::empty())),
{
    reveal_strlit("t=");
    reveal_strlit("t");
    let d = decimal(t as nat);
    lemma_decimal_digits(t as nat);
    let head = "t="@ + d;
    assert(head[0] == 't');
    assert(head.last() == d[d.len() - 1]);
    assert(trimmed(head) == head);
    assert(crate::text::is_first(head, '=', 1));
    lemma_first_index_at(head, '=', 1);
    assert(head.take(1) =~= "t"@);
    assert(head.skip(2) =~= d);
    assert('0' <= d[0] <= '9');
    assert(parse_u64_spec(d) == Some(t));
    assert(header_fields(Seq::<Seq<char>>::empty()) == Some((None::<u64>, Seq::<Seq<u8>>::empty())));
    assert(seq![head].drop_last() =~= Seq::<Seq<char>>::empty());
    assert(seq![head].last() == head);
    assert(crate::text::split_once(trimmed(head), '=') == Some(("t"@, d)));
}

proof fn lemma_signature_part(head: Seq<char>, t: u64, mac: Seq<u8>)
    requires
        header_fields(seq![head]) == Some((Some(t), Seq::<Seq<u8>>::empty())),
    ensures
        header_fields(seq![head, "v1="@ + hex_lower(mac)]) == Some((Some(t), seq![mac])),
{
    reveal_strlit("v1=");
    reveal_strlit("v1");
    reveal_strlit("t");
    let x = hex_lower(mac);
    lemma_hex_round_trip(mac);
    let tail = "v1="@ + x;
    assert(tail[0] == 'v');
    if x.len() > 0 {
        assert(tail.last() == x[x.len() - 1]);
    } else {
        assert(tail.last() == '=');
    }
    assert(trimmed(tail) == tail);
    assert(crate::text::is_first(tail, '=', 2));
    lemma_first_index_at(tail, '=', 2);
    assert(tail.take(2) =~= "v1"@);
    assert(tail.skip(3) =~= x);
    assert("v1"@.len() != "t"@.len());
    let parts = seq![head, tail];
    assert(parts.drop_last() =~= seq![head]);
    assert(parts.last() == tail);
    assert(Seq::<Seq<u8>>::empty().push(mac) =~= seq![mac]);
}

/// A signature header made for a body verifies against that body under
/// any key list holding the signing key, within the skew window.
pub proof fn law_signature_round_trip(keys: Seq<Seq<u8>>, key: Seq<u8>, timestamp: u64, body: Seq<u8>, now: u64, skew: u64)
    requires
        keys.contains(key),
        abs_diff(now, timestamp) <= skew,
    ensures
        verify_outcome(keys, signature_text(key, timestamp, body), body, now, skew) == Ok::<(), SignatureError>(()),
{
    let d = decimal(timestamp as nat);
    let mac = hmac_sha256(key, signed_message(timestamp, body));
    lemma_decimal_digits(timestamp as nat);
    lemma_hex_round_trip(mac);
    lemma_signature_parts(d, hex_lower(mac));
    lemma_timestamp_part(timestamp);
    lemma_signature_part("t="@ + d, timestamp, mac);
    let k = choose|k: int| 0 <= k < keys.len() && keys[k] == key;
    assert(seq![mac][0] == hmac_sha256(keys[k], signed_message(timestamp, body)));
}

} // verus!
