//! Reading the ChatGPT account id that a ChatGPT OAuth access token (a JWT)
//! carries in its payload claims.
use vstd::prelude::*;

use base64::Engine;
use vstd::utf8::encode_utf8;
use vstd::string::StringSliceAdditionalSpecFns;

use crate::json::{at, field, str_of, JsonValue};
use crate::text::{chars_of, find, find_from, find_from_exec, owned, string_of_range};

verus! {

/// `base64::DecodeError`, the error of a failed base64 decoding, carried
/// opaquely.
#[verifier::external_type_specification]
#[verifier::external_body]
pub struct ExDecodeError(base64::DecodeError);

/// What the base64 URL-safe alphabet without padding decodes `input` to, or
/// `None` where it is not valid encoded text.
pub uninterp spec fn url_safe_no_pad_decoded(input: Seq<u8>) -> Option<Seq<u8>>;

/// What the base64 URL-safe alphabet with padding decodes `input` to, or
/// `None` where it is not valid encoded text.
pub uninterp spec fn url_safe_decoded(input: Seq<u8>) -> Option<Seq<u8>>;

/// `base64::engine::general_purpose::URL_SAFE_NO_PAD.decode(input)`: the
/// decoded bytes, or the decoding error. Claimed: the outcome depends on the
/// input alone (the engine is a constant), and it is named
/// `url_safe_no_pad_decoded`; what the decoding is, is not stated.
#[verifier::external_body]
fn decode_url_safe_no_pad(input: &[u8]) -> (r: Result<Vec<u8>, base64::DecodeError>)
    ensures
        r matches Ok(v) ==> url_safe_no_pad_decoded(input@) == Some(v@),
        r is Err ==> url_safe_no_pad_decoded(input@) is None,
{
    base64::engine::general_purpose::URL_SAFE_NO_PAD.decode(input)
}

/// `base64::engine::general_purpose::URL_SAFE.decode(input)`: the decoded
/// bytes, or the decoding error. Claimed: the outcome depends on the input
/// alone (the engine is a constant), and it is named `url_safe_decoded`; what
/// the decoding is, is not stated.
#[verifier::external_body]
fn decode_url_safe(input: &[u8]) -> (r: Result<Vec<u8>, base64::DecodeError>)
    ensures
        r matches Ok(v) ==> url_safe_decoded(input@) == Some(v@),
        r is Err ==> url_safe_decoded(input@) is None,
{
    base64::engine::general_purpose::URL_SAFE.decode(input)
}

/// The second `'.'`-separated segment of a token (its payload), where it has
/// one.
pub open spec fn payload_segment(token: Seq<char>) -> Option<Seq<char>> {
    match find(token, seq!['.']) {
        None => None,
        Some(i) => {
            let end = match find_from(token, seq!['.'], i + 1) {
                Some(j) => j,
                None => token.len() as int,
            };
            Some(token.subrange(i + 1, end))
        },
    }
}

/// The payload segment of a JWT: the text between its first and second `'.'`
/// (or the end).
pub fn jwt_payload_segment(token: &str) -> (r: Option<String>)
    ensures
        r matches Some(s) ==> payload_segment(token@) == Some(s@),
        r is None ==> payload_segment(token@) is None,
{
    let t = chars_of(token);
    let dot = vec!['.'];
    assert(dot@ == seq!['.']);
    match find_from_exec(&t, &dot, 0) {
        None => None,
        Some(i) => {
            proof {
                crate::text::lemma_find_from_bounds(t@, dot@, 0);
            }
            assert(i + 1 <= t@.len());
            assert(t@.len() == t.len());
            let end = match find_from_exec(&t, &dot, i + 1) {
                Some(j) => {
                    proof {
                        crate::text::lemma_find_from_bounds(t@, dot@, i + 1);
                    }
                    j
                },
                None => t.len(),
            };
            Some(string_of_range(&t, i + 1, end))
        },
    }
}

/// What a payload segment decodes to: base64 URL-safe without padding, else
/// with padding.
pub open spec fn decoded_payload(segment: Seq<u8>) -> Option<Seq<u8>> {
    match url_safe_no_pad_decoded(segment) {
        Some(b) => Some(b),
        None => url_safe_decoded(segment),
    }
}

/// Decode a JWT payload segment to the bytes of its JSON claims.
pub fn decode_jwt_payload(segment: &str) -> (r: Option<Vec<u8>>)
    ensures
        r matches Some(b) ==> decoded_payload(encode_utf8(segment@)) == Some(b@),
        r is None ==> decoded_payload(encode_utf8(segment@)) is None,
{
    let bytes = segment.as_bytes();
    match decode_url_safe_no_pad(bytes) {
        Ok(b) => Some(b),
        Err(_) => match decode_url_safe(bytes) {
            Ok(b) => Some(b),
            Err(_) => None,
        },
    }
}

/// The bytes of the JSON claims a JWT carries, where it has a payload
/// segment that decodes.
pub fn jwt_claims_bytes(token: &str) -> (r: Option<Vec<u8>>)
    ensures
        r matches Some(b) ==> (payload_segment(token@) is Some && decoded_payload(
            encode_utf8(payload_segment(token@)->0),
        ) == Some(b@)),
        r is None ==> (payload_segment(token@) is None || decoded_payload(
            encode_utf8(payload_segment(token@)->0),
        ) is None),
{
    match jwt_payload_segment(token) {
        Some(seg) => decode_jwt_payload(seg.as_str()),
        None => None,
    }
}

/// The ChatGPT account id the claims carry: the non-blank string at
/// `["https://api.openai.com/auth"]["chatgpt_account_id"]`.
pub open spec fn claims_account_id(claims: JsonValue) -> Option<Seq<char>> {
    match str_of(at(field(claims, crate::setup_llm::CHATGPT_ACCOUNT_ID_CLAIM@), "chatgpt_account_id"@)) {
        Some(a) => if crate::setup_llm::is_blank(a) {
            None
        } else {
            Some(a)
        },
        None => None,
    }
}

/// The ChatGPT account id that the claims of an OAuth token carry.
pub fn chatgpt_account_id_from_claims(claims: &JsonValue) -> (r: Option<String>)
    ensures
        r matches Some(a) ==> claims_account_id(*claims) == Some(a@),
        r is None ==> claims_account_id(*claims) is None,
{
    match claims.get(crate::setup_llm::CHATGPT_ACCOUNT_ID_CLAIM) {
        Some(auth) => match auth.get("chatgpt_account_id") {
            Some(v) => match v.as_str() {
                Some(a) => if crate::setup_llm::is_blank_str(a) {
                    None
                } else {
                    Some(owned(a))
                },
                None => None,
            },
            None => None,
        },
        None => None,
    }
}

} // verus!
