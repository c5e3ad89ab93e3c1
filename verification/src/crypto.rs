use vstd::prelude::*;
use vstd::utf8::{decode_utf8, valid_utf8};
use base64::Engine;
use ed25519_dalek::Verifier;
use hmac::Mac;

verus! {

/// HMAC-SHA256 of `msg` under `key`, as the `hmac` crate computes it over
/// `sha2::Sha256`.
pub uninterp spec fn hmac_sha256(key: Seq<u8>, msg: Seq<u8>) -> Seq<u8>;

/// Calls `Hmac::<Sha256>::new_from_slice`, `update` and `finalize`. The
/// contract claims that the tag is the HMAC-SHA256 of `msg` under `key` and
/// has 32 bytes; the crate's source accepts keys of every length.
#[verifier::external_body]
pub(crate) fn hmac_sha256_tag(key: &[u8], msg: &[u8]) -> (r: Vec<u8>)
    ensures
        r@ == hmac_sha256(key@, msg@),
        r@.len() == 32,
{
    let mut mac = hmac::Hmac::<sha2::Sha256>::new_from_slice(key).expect("HMAC takes keys of any length");
    mac.update(msg);
    mac.finalize().into_bytes().to_vec()
}

/// Calls `Hmac::<Sha256>::new_from_slice`, `update` and `verify_slice`. The
/// contract claims that the tag is accepted exactly when it equals the
/// HMAC-SHA256 of `msg` under `key` (the source compares in constant time and
/// refuses a tag of another length).
#[verifier::external_body]
pub(crate) fn hmac_sha256_verify(key: &[u8], msg: &[u8], tag: &[u8]) -> (r: bool)
    ensures
        r == (tag@ == hmac_sha256(key@, msg@)),
{
    let mut mac = hmac::Hmac::<sha2::Sha256>::new_from_slice(key).expect("HMAC takes keys of any length");
    mac.update(msg);
    mac.verify_slice(tag).is_ok()
}

/// The bytes that the standard base64 alphabet with padding decodes `s` to,
/// or `None` when `base64::engine::general_purpose::STANDARD` refuses it.
pub uninterp spec fn base64_standard_decode(s: Seq<char>) -> Option<Seq<u8>>;

/// Calls `STANDARD.decode` of the `base64` crate; the contract names its
/// result.
#[verifier::external_body]
pub(crate) fn base64_decode(s: &str) -> (r: Option<Vec<u8>>)
    ensures
        r matches Some(v) ==> base64_standard_decode(s@) == Some(v@),
        r is None ==> base64_standard_decode(s@) is None,
{
    match base64::engine::general_purpose::STANDARD.decode(s) {
        Ok(v) => Some(v),
        Err(_) => None,
    }
}

/// The text that `base64::engine::general_purpose::STANDARD` encodes `b` to.
pub uninterp spec fn base64_standard_encode(b: Seq<u8>) -> Seq<char>;

/// Calls `STANDARD.encode` of the `base64` crate; the contract names its
/// result, and states what the crate documents of the engine: that
/// `STANDARD.decode` gives the encoded bytes back.
#[verifier::external_body]
pub(crate) fn base64_encode(b: &[u8]) -> (r: String)
    ensures
        r@ == base64_standard_encode(b@),
        base64_standard_decode(r@) == Some(b@),
{
    base64::engine::general_purpose::STANDARD.encode(b)
}

/// The value of a hexadecimal digit of either case.
pub open spec fn hex_value(c: char) -> Option<nat> {
    if '0' <= c && c <= '9' {
        Some((c as int - '0' as int) as nat)
    } else if 'a' <= c && c <= 'f' {
        Some((c as int - 'a' as int + 10) as nat)
    } else if 'A' <= c && c <= 'F' {
        Some((c as int - 'A' as int + 10) as nat)
    } else {
        None
    }
}

/// What `hex::decode` returns for `s`: the bytes of each pair of hexadecimal
/// digits, when `s` has an even length and holds nothing else.
pub open spec fn hex_decoded(s: Seq<char>) -> Option<Seq<u8>> {
    if s.len() % 2 == 0 && forall|i: int| 0 <= i < s.len() ==> #[trigger] hex_value(s[i]) is Some {
        Some(Seq::new((s.len() / 2) as nat, |i: int| (16 * hex_value(s[2 * i])->0 + hex_value(s[2 * i + 1])->0) as u8))
    } else {
        None
    }
}

/// The text that `hex::FromHexError` displays when `hex::decode` refuses `s`.
pub uninterp spec fn hex_error_text(s: Seq<char>) -> Seq<char>;

/// Calls `hex::decode`, and `to_string` on its error. The contract states the
/// bytes as the crate's source computes them: pairs of digits of either case,
/// an error for an odd length or any other character; it names the error's
/// text.
#[verifier::external_body]
pub(crate) fn hex_decode(s: &str) -> (r: Result<Vec<u8>, String>)
    ensures
        r matches Ok(v) ==> hex_decoded(s@) == Some(v@),
        r matches Err(e) ==> hex_decoded(s@) is None && e@ == hex_error_text(s@),
{
    match hex::decode(s) {
        Ok(v) => Ok(v),
        Err(e) => Err(e.to_string()),
    }
}

/// Whether 32 bytes are the compressed form of a point that
/// `ed25519_dalek::VerifyingKey::from_bytes` accepts.
pub uninterp spec fn ed25519_key_valid(key: Seq<u8>) -> bool;

/// Calls `VerifyingKey::from_bytes`; the contract names whether it succeeds.
#[verifier::external_body]
pub(crate) fn ed25519_parse_key(key: &[u8]) -> (r: bool)
    requires
        key@.len() == 32,
    ensures
        r == ed25519_key_valid(key@),
{
    match <[u8; 32]>::try_from(key) {
        Ok(bytes) => ed25519_dalek::VerifyingKey::from_bytes(&bytes).is_ok(),
        Err(_) => false,
    }
}

/// Whether `ed25519_dalek` accepts the 64-byte signature `sig` of `msg`
/// under the public key `key`.
pub uninterp spec fn ed25519_accepts(key: Seq<u8>, msg: Seq<u8>, sig: Seq<u8>) -> bool;

/// Calls `VerifyingKey::from_bytes`, `Signature::from_slice` (which takes any
/// 64 bytes) and `Verifier::verify`; the contract names the verdict.
#[verifier::external_body]
pub(crate) fn ed25519_verify(key: &[u8], msg: &[u8], sig: &[u8]) -> (r: bool)
    requires
        key@.len() == 32,
        ed25519_key_valid(key@),
        sig@.len() == 64,
    ensures
        r == ed25519_accepts(key@, msg@, sig@),
{
    let bytes = match <[u8; 32]>::try_from(key) {
        Ok(bytes) => bytes,
        Err(_) => return false,
    };
    match (ed25519_dalek::VerifyingKey::from_bytes(&bytes), ed25519_dalek::Signature::from_slice(sig)) {
        (Ok(k), Ok(s)) => k.verify(msg, &s).is_ok(),
        _ => false,
    }
}

/// What a JSON document holds under `key` at its top level: `None` when the
/// bytes are not JSON for `serde_json`, `Some(None)` when there is no string
/// there, `Some(Some(s))` when the string `s` is.
pub uninterp spec fn json_top_string(body: Seq<u8>, key: Seq<char>) -> Option<Option<Seq<char>>>;

/// The result of a lookup of a string field, taken by the view of the string.
pub open spec fn field_view(o: Option<Option<String>>) -> Option<Option<Seq<char>>> {
    match o {
        None => None,
        Some(None) => Some(None),
        Some(Some(s)) => Some(Some(s@)),
    }
}

/// Calls `serde_json::from_slice::<serde_json::Value>`, `Value::get` and
/// `Value::as_str`; the contract names what they give back together.
#[verifier::external_body]
pub(crate) fn json_string_field(body: &[u8], key: &str) -> (r: Option<Option<String>>)
    ensures
        field_view(r) == json_top_string(body@, key@),
{
    match serde_json::from_slice::<serde_json::Value>(body) {
        Ok(value) => Some(value.get(key).and_then(serde_json::Value::as_str).map(str::to_string)),
        Err(_) => None,
    }
}

/// The text that `String::from_utf8_lossy` makes of `b`.
pub uninterp spec fn utf8_lossy(b: Seq<u8>) -> Seq<char>;

/// Calls `String::from_utf8_lossy`. Its documentation says that valid UTF-8
/// comes back decoded as it is; the contract states that and names the rest.
#[verifier::external_body]
pub(crate) fn lossy_text(b: &[u8]) -> (r: String)
    ensures
        r@ == utf8_lossy(b@),
        valid_utf8(b@) ==> r@ == decode_utf8(b@),
{
    String::from_utf8_lossy(b).into_owned()
}

/// Appends the bytes of `src` to `dst`.
pub fn append_bytes(dst: &mut Vec<u8>, src: &[u8])
    ensures
        final(dst)@ == old(dst)@ + src@,
{
    let mut i: usize = 0;
    while i < src.len()
        invariant
            0 <= i <= src@.len(),
            dst@ == old(dst)@ + src@.subrange(0, i as int),
        decreases src@.len() - i,
    {
        dst.push(src[i]);
        assert(src@.subrange(0, i + 1) =~= src@.subrange(0, i as int).push(src@[i as int]));
        i = i + 1;
    }
    assert(src@.subrange(0, src@.len() as int) =~= src@);
}

} // verus!
