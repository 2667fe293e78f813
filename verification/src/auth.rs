//! Header values of the cloud API's hash-based authentication:
//!
//! 1. `SHA256("{api_token}:{unix_timestamp}")` as lower-case hex
//! 2. Base64 (standard alphabet, padded) of `"{user_id}:{hex_hash}"`
//! 3. `Authorization: Basic {base64}` and `Timestamp: {unix_timestamp}`
use vstd::prelude::*;
use vstd::string::*;
use crate::text::{decimal, dec_digits};
use sha2::Digest;
use base64::Engine;

verus! {

broadcast use vstd::string::group_string_axioms;

/// SHA-256 digest of a byte sequence.
pub uninterp spec fn sha256(data: Seq<u8>) -> Seq<u8>;

/// `sha2::Sha256::digest`: the 32-byte SHA-256 digest of `data`.
#[verifier::external_body]
fn sha256_digest(data: &[u8]) -> (d: Vec<u8>)
    ensures
        d@ == sha256(data@),
        d@.len() == 32,
{
    sha2::Sha256::digest(data).to_vec()
}

/// Lower-case hexadecimal digit for `v < 16`.
pub open spec fn hex_digit(v: int) -> char {
    if v < 10 {
        ('0' as int + v) as char
    } else {
        ('a' as int + (v - 10)) as char
    }
}

/// Lower-case hexadecimal rendering, two digits per byte, high nibble first.
pub open spec fn hex_lower(data: Seq<u8>) -> Seq<char>
    decreases data.len(),
{
    if data.len() == 0 {
        Seq::empty()
    } else {
        seq![hex_digit(data[0] as int / 16), hex_digit(data[0] as int % 16)] + hex_lower(data.drop_first())
    }
}

/// `hex::encode`: lower-case hexadecimal text of `data`.
#[verifier::external_body]
fn hex_encode(data: &[u8]) -> (s: String)
    requires
        data@.len() <= usize::MAX / 4,
    ensures
        s@ == hex_lower(data@),
{
    hex::encode(data)
}

/// Character of the standard base64 alphabet for `v < 64`.
pub open spec fn b64_char(v: int) -> char {
    if v < 26 {
        ('A' as int + v) as char
    } else if v < 52 {
        ('a' as int + (v - 26)) as char
    } else if v < 62 {
        ('0' as int + (v - 52)) as char
    } else if v == 62 {
        '+'
    } else {
        '/'
    }
}

/// Standard base64 with `=` padding: each group of three bytes becomes four
/// characters; a final group of one or two bytes is padded to four.
pub open spec fn base64_standard(data: Seq<u8>) -> Seq<char>
    decreases data.len(),
{
    if data.len() == 0 {
        Seq::empty()
    } else {
        let b0 = data[0] as int;
        if data.len() == 1 {
            seq![b64_char(b0 / 4), b64_char((b0 % 4) * 16), '=', '=']
        } else {
            let b1 = data[1] as int;
            if data.len() == 2 {
                seq![
                    b64_char(b0 / 4),
                    b64_char((b0 % 4) * 16 + b1 / 16),
                    b64_char((b1 % 16) * 4),
                    '=',
                ]
            } else {
                let b2 = data[2] as int;
                seq![
                    b64_char(b0 / 4),
                    b64_char((b0 % 4) * 16 + b1 / 16),
                    b64_char((b1 % 16) * 4 + b2 / 64),
                    b64_char(b2 % 64),
                ] + base64_standard(data.skip(3))
            }
        }
    }
}

/// `base64::engine::general_purpose::STANDARD.encode`: padded base64 text
/// of `data` in the standard alphabet.
#[verifier::external_body]
fn base64_encode(data: &[u8]) -> (s: String)
    requires
        data@.len() <= usize::MAX / 2,
    ensures
        s@ == base64_standard(data@),
{
    base64::engine::general_purpose::STANDARD.encode(data)
}

/// ASCII bytes of a character sequence made of ASCII characters.
pub open spec fn ascii_bytes(s: Seq<char>) -> Seq<u8> {
    s.map_values(|c: char| c as u8)
}

/// UTF-8 bytes of a text.
pub open spec fn utf8(s: Seq<char>) -> Seq<u8> {
    vstd::utf8::encode_utf8(s)
}

/// The text that is hashed: `"{api_token}:{timestamp}"`.
pub open spec fn hash_input(api_token: Seq<char>, ts: u64) -> Seq<u8> {
    utf8(api_token + seq![':'] + dec_digits(ts as nat))
}

/// The value of the `Authorization` header for a user, token and timestamp.
pub open spec fn spec_authorization(user_id: Seq<char>, api_token: Seq<char>, ts: u64) -> Seq<char> {
    "Basic "@ + base64_standard(
        utf8(user_id + seq![':'] + hex_lower(sha256(hash_input(api_token, ts)))),
    )
}

/// The two header values that authenticate one request.
pub struct AuthHeaderValues {
    /// Value of the `Authorization` header.
    pub authorization: String,
    /// Value of the `Timestamp` header: the Unix time in seconds, in decimal.
    pub timestamp: String,
}

/// Build the authentication header values for one request made at Unix time `ts`.
pub fn auth_header_values(user_id: &str, api_token: &str, ts: u64) -> (h: AuthHeaderValues)
    requires
        user_id.spec_bytes().len() + 65 <= usize::MAX / 2,
    ensures
        h.authorization@ == spec_authorization(user_id@, api_token@, ts),
        h.timestamp@ == dec_digits(ts as nat),
{
    proof {
        reveal_strlit(":");
    }
    let ts_text = decimal(ts);
    let mut hashed = String::from_str(api_token);
    hashed.append(":");
    hashed.append(ts_text.as_str());
    assert(hashed@ == api_token@ + seq![':'] + dec_digits(ts as nat));
    let digest = sha256_digest(hashed.as_str().as_bytes());
    let hash_hex = hex_encode(digest.as_slice());
    let mut credentials = String::from_str(user_id);
    credentials.append(":");
    credentials.append(hash_hex.as_str());
    proof {
        lemma_hex_len(digest@);
        assert(credentials@ == user_id@ + seq![':'] + hash_hex@);
        lemma_ascii_hex_utf8_len(user_id@, hash_hex@);
    }
    let basic = base64_encode(credentials.as_str().as_bytes());
    let authorization = String::from_str("Basic ").concat(basic.as_str());
    AuthHeaderValues { authorization, timestamp: ts_text }
}

proof fn lemma_hex_len(d: Seq<u8>)
    ensures
        hex_lower(d).len() == 2 * d.len(),
        forall|i: int| 0 <= i < hex_lower(d).len() ==> (#[trigger] hex_lower(d)[i]) as u32 <= 127,
    decreases d.len(),
{
    if d.len() > 0 {
        lemma_hex_len(d.drop_first());
        let h = hex_lower(d);
        let t = hex_lower(d.drop_first());
        assert forall|i: int| 0 <= i < h.len() implies (#[trigger] h[i]) as u32 <= 127 by {
            if i >= 2 {
                assert(h[i] == t[i - 2]);
            }
        }
    }
}

proof fn lemma_utf8_concat(a: Seq<char>, b: Seq<char>)
    ensures
        utf8(a + b) == utf8(a) + utf8(b),
    decreases a.len(),
{
    if a.len() == 0 {
        assert(a + b =~= b);
        assert(utf8(a) + utf8(b) =~= utf8(b));
    } else {
        assert((a + b).drop_first() =~= a.drop_first() + b);
        assert((a + b)[0] == a[0]);
        lemma_utf8_concat(a.drop_first(), b);
        assert(utf8(a + b) =~= utf8(a) + utf8(b));
    }
}

proof fn lemma_utf8_ascii_len(s: Seq<char>)
    requires
        forall|i: int| 0 <= i < s.len() ==> (#[trigger] s[i]) as u32 <= 127,
    ensures
        utf8(s).len() == s.len(),
    decreases s.len(),
{
    if s.len() > 0 {
        assert(s.drop_first().len() == s.len() - 1);
        assert forall|i: int| 0 <= i < s.drop_first().len() implies (#[trigger] s.drop_first()[i]) as u32 <= 127 by {
            assert(s.drop_first()[i] == s[i + 1]);
        }
        lemma_utf8_ascii_len(s.drop_first());
        assert((s[0] as u32) <= 127);
    }
}

proof fn lemma_ascii_hex_utf8_len(user: Seq<char>, hex: Seq<char>)
    requires
        hex.len() == 64,
        forall|i: int| 0 <= i < hex.len() ==> (#[trigger] hex[i]) as u32 <= 127,
    ensures
        utf8(user + seq![':'] + hex).len() == utf8(user).len() + 65,
{
    lemma_utf8_concat(user + seq![':'], hex);
    lemma_utf8_concat(user, seq![':']);
    lemma_utf8_ascii_len(hex);
    let colon = seq![':'];
    assert forall|i: int| 0 <= i < colon.len() implies (#[trigger] colon[i]) as u32 <= 127 by {}
    lemma_utf8_ascii_len(colon);
}

} // verus!
