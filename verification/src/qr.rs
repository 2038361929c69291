//! Pairing codes: what a QR code carries to pair two devices.
use vstd::prelude::*;
use crate::ids::DeviceId;
use crate::text::{remove_all, remove_all_occurrences, concat_str};

verus! {

/// The character of a 6-bit value in the standard Base64 alphabet:
/// `A`-`Z`, `a`-`z`, `0`-`9`, `+`, `/`.
pub open spec fn base64_digit(n: int) -> char {
    if n < 26 {
        (n + 65) as char
    } else if n < 52 {
        (n + 71) as char
    } else if n < 62 {
        (n - 4) as char
    } else if n == 62 {
        '+'
    } else {
        '/'
    }
}

/// The standard Base64 encoding of the bytes: each group of three bytes
/// becomes four characters of six bits each, high bits first; a last group
/// of one or two bytes is filled with zero bits and padded with `=` to four
/// characters.
pub open spec fn base64_standard(data: Seq<u8>) -> Seq<char>
    decreases data.len(),
{
    if data.len() == 0 {
        Seq::empty()
    } else if data.len() == 1 {
        let b0 = data[0] as int;
        seq![base64_digit(b0 / 4), base64_digit((b0 % 4) * 16), '=', '=']
    } else if data.len() == 2 {
        let b0 = data[0] as int;
        let b1 = data[1] as int;
        seq![base64_digit(b0 / 4), base64_digit((b0 % 4) * 16 + b1 / 16), base64_digit((b1 % 16) * 4), '=']
    } else {
        let b0 = data[0] as int;
        let b1 = data[1] as int;
        let b2 = data[2] as int;
        seq![
            base64_digit(b0 / 4),
            base64_digit((b0 % 4) * 16 + b1 / 16),
            base64_digit((b1 % 16) * 4 + b2 / 64),
            base64_digit(b2 % 64),
        ] + base64_standard(data.skip(3))
    }
}

/// The bytes that a standard Base64 text decodes to, if it is valid.
pub uninterp spec fn base64_standard_decode(text: Seq<char>) -> Option<Seq<u8>>;

/// A character of the standard Base64 alphabet, or the padding `=`.
pub open spec fn is_base64_char(c: char) -> bool {
    ('A' <= c && c <= 'Z') || ('a' <= c && c <= 'z') || ('0' <= c && c <= '9') || c == '+' || c == '/'
        || c == '='
}

/// A 6-bit value's digit is in the alphabet.
pub proof fn lemma_base64_digit(n: int)
    requires
        0 <= n < 64,
    ensures
        is_base64_char(base64_digit(n)),
{
}

/// Standard Base64 text is made of the alphabet and `=`.
pub proof fn lemma_base64_alphabet(data: Seq<u8>)
    ensures
        forall|i: int| 0 <= i < base64_standard(data).len() ==> is_base64_char(#[trigger] base64_standard(data)[i]),
    decreases data.len(),
{
    if data.len() >= 1 {
        let b0 = data[0] as int;
        lemma_base64_digit(b0 / 4);
        lemma_base64_digit((b0 % 4) * 16);
        if data.len() >= 2 {
            let b1 = data[1] as int;
            lemma_base64_digit((b0 % 4) * 16 + b1 / 16);
            lemma_base64_digit((b1 % 16) * 4);
            if data.len() >= 3 {
                let b2 = data[2] as int;
                lemma_base64_digit((b1 % 16) * 4 + b2 / 64);
                lemma_base64_digit(b2 % 64);
                lemma_base64_alphabet(data.skip(3));
                let head = seq![
                    base64_digit(b0 / 4),
                    base64_digit((b0 % 4) * 16 + b1 / 16),
                    base64_digit((b1 % 16) * 4 + b2 / 64),
                    base64_digit(b2 % 64),
                ];
                assert forall|i: int| 0 <= i < base64_standard(data).len() implies is_base64_char(
                    #[trigger] base64_standard(data)[i],
                ) by {
                    if i >= 4 {
                        assert(base64_standard(data)[i] == base64_standard(data.skip(3))[i - 4]);
                    } else {
                        assert(base64_standard(data)[i] == head[i]);
                    }
                }
            }
        }
    }
}

/// `base64::encode` (the standard engine, with padding).
#[verifier::external_body]
#[allow(deprecated)]
fn base64_encode(data: &[u8]) -> (s: String)
    ensures
        s@ == base64_standard(data@),
{
    base64::encode(data)
}

/// `base64::decode` (the standard engine), its error dropped.  The contract
/// also claims that decoding undoes encoding.
#[verifier::external_body]
#[allow(deprecated)]
fn base64_decode(text: &str) -> (r: Option<Vec<u8>>)
    ensures
        r is Some <==> base64_standard_decode(text@) is Some,
        r matches Some(b) ==> base64_standard_decode(text@) == Some(b@),
        forall|b: Seq<u8>| text@ == #[trigger] base64_standard(b) ==> r is Some && r->0@ == b,
{
    base64::decode(text).ok()
}

/// What a pairing code starts with.
pub open spec fn pair_prefix() -> Seq<char> {
    "snaplan://pair?"@
}

/// Taking out every occurrence of a pattern from a text without one of the
/// pattern's characters leaves the text as it is.
pub proof fn lemma_remove_all_absent(e: Seq<char>, pat: Seq<char>, k: int)
    requires
        0 <= k < pat.len(),
        forall|i: int| 0 <= i < e.len() ==> #[trigger] e[i] != pat[k],
    ensures
        remove_all(e, pat) == e,
    decreases e.len(),
{
    if e.len() > 0 {
        if pat.len() <= e.len() && e.take(pat.len() as int) == pat {
            assert(e.take(pat.len() as int)[k] == e[k]);
        }
        lemma_remove_all_absent(e.skip(1), pat, k);
        assert(seq![e[0]] + e.skip(1) =~= e);
    }
}

/// Taking every occurrence of the pairing prefix out of the prefix followed
/// by Base64 text gives back the Base64 text.
pub proof fn lemma_strip_pair_prefix(e: Seq<char>)
    requires
        forall|i: int| 0 <= i < e.len() ==> is_base64_char(#[trigger] e[i]),
    ensures
        remove_all(pair_prefix() + e, pair_prefix()) == e,
{
    reveal_strlit("snaplan://pair?");
    let p = pair_prefix();
    assert(p[7] == ':');
    assert forall|i: int| 0 <= i < e.len() implies #[trigger] e[i] != p[7] by {
        assert(is_base64_char(e[i]));
    }
    lemma_remove_all_absent(e, p, 7);
    assert((p + e).take(p.len() as int) =~= p);
    assert((p + e).skip(p.len() as int) =~= e);
}

/// The data a device shows as a QR code to pair.
#[derive(Debug)]
pub struct PairQR {
    pub device_id: DeviceId,
    pub fingerprint: String,
    pub token: String,
}

impl PairQR {
    /// The pairing data of a device.
    pub fn create(device_id: DeviceId, fingerprint: String, token: String) -> (q: Self)
        ensures
            q.device_id == device_id,
            q.fingerprint == fingerprint,
            q.token == token,
    {
        PairQR { device_id, fingerprint, token }
    }
}

/// The pairing code that carries the (JSON) bytes: the prefix
/// "snaplan://pair?" and then the bytes in Base64.  Taking the prefix's
/// occurrences out gives back exactly the Base64 text.
pub fn pair_uri(json: &[u8]) -> (r: String)
    ensures
        r@ == pair_prefix() + base64_standard(json@),
        remove_all(r@, pair_prefix()) == base64_standard(json@),
        forall|i: int| pair_prefix().len() <= i < r@.len() ==> is_base64_char(#[trigger] r@[i]),
{
    let encoded = base64_encode(json);
    let r = concat_str("snaplan://pair?", encoded.as_str());
    proof {
        lemma_base64_alphabet(json@);
        lemma_strip_pair_prefix(encoded@);
        assert forall|i: int| pair_prefix().len() <= i < r@.len() implies is_base64_char(#[trigger] r@[i]) by {
            assert(r@[i] == encoded@[i - pair_prefix().len()]);
        }
    }
    r
}

/// Whether a pairing code carries Base64 text: every occurrence of
/// "snaplan://pair?" taken out, the rest is valid standard Base64.
pub open spec fn is_pair_code(data: Seq<char>) -> bool {
    base64_standard_decode(remove_all(data, pair_prefix())) is Some
}

/// The (JSON) bytes that a pairing code carries: every occurrence of
/// "snaplan://pair?" taken out and the rest read as Base64.  The code must
/// carry valid Base64 (`try_decode_pair_payload` checks that first).  A code
/// that `pair_uri` made gives back its bytes.
pub fn decode_pair_payload(data: &str) -> (r: Vec<u8>)
    requires
        is_pair_code(data@),
    ensures
        base64_standard_decode(remove_all(data@, pair_prefix())) == Some(r@),
        forall|j: Seq<u8>| remove_all(data@, pair_prefix()) == #[trigger] base64_standard(j) ==> r@ == j,
{
    let encoded = remove_all_occurrences(data, "snaplan://pair?");
    match base64_decode(encoded.as_str()) {
        Some(bytes) => bytes,
        None => Vec::new(),
    }
}

/// The (JSON) bytes that a pairing code carries, or `None` where the code
/// does not carry valid Base64.
pub fn try_decode_pair_payload(data: &str) -> (r: Option<Vec<u8>>)
    ensures
        r is Some <==> is_pair_code(data@),
        r matches Some(b) ==> base64_standard_decode(remove_all(data@, pair_prefix())) == Some(b@),
        forall|j: Seq<u8>| remove_all(data@, pair_prefix()) == #[trigger] base64_standard(j) ==> r is Some && r->0@
            == j,
{
    let encoded = remove_all_occurrences(data, "snaplan://pair?");
    if base64_decode(encoded.as_str()).is_some() {
        Some(decode_pair_payload(data))
    } else {
        None
    }
}

/// The link that invites a device to join a session.
pub fn session_join_uri(session_id: &str) -> (r: String)
    ensures
        r@ == "snaplan://join/"@ + session_id@,
{
    concat_str("snaplan://join/", session_id)
}

} // verus!
