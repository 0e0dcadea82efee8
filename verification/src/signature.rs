use vstd::prelude::*;
use hmac::Mac;
use crate::codec::percent_encode;
use crate::codec::pe_str;
use crate::params::{EncodedPair, pair_views, params_text, sort_spec, sort_params, build_params_text};

verus! {

/// The HMAC-SHA1 tag of a message under a key: a function of both alone.
pub uninterp spec fn hmac_sha1_of(key: Seq<u8>, msg: Seq<u8>) -> Seq<u8>;

/// The standard (padded) base64 encoding of a byte string.
pub uninterp spec fn base64_of(b: Seq<u8>) -> Seq<char>;

/// Relies on hmac::Hmac over sha1::Sha1: the 20-byte tag depends on key
/// and message alone, and new_from_slice accepts a key of any length.
#[verifier::external_body]
fn hmac_sha1(key: &[u8], msg: &[u8]) -> (r: Vec<u8>)
    ensures
        r@ == hmac_sha1_of(key@, msg@),
        r@.len() == 20,
{
    let mut mac: hmac::Hmac<sha1::Sha1> = match hmac::Hmac::new_from_slice(key) {
        Ok(m) => m,
        Err(_) => return Vec::new(),
    };
    mac.update(msg);
    mac.finalize().into_bytes().to_vec()
}

/// Relies on base64's STANDARD engine: the padded standard-alphabet
/// encoding is a function of the input bytes alone.
#[verifier::external_body]
fn base64_encode(b: &[u8]) -> (r: String)
    ensures
        r@ == base64_of(b@),
{
    base64::Engine::encode(&base64::engine::general_purpose::STANDARD, b)
}

/// The signature base string (RFC 5849 section 3.4.1): uppercase method,
/// percent-encoded base URL and percent-encoded canonical parameter
/// string, joined with '&'.
pub open spec fn base_string_spec(
    method: Seq<char>,
    url: Seq<char>,
    params: Seq<(Seq<char>, Seq<char>)>,
) -> Seq<char> {
    method + "&"@ + pe_str(url) + "&"@ + pe_str(params_text(sort_spec(params)))
}

/// The HMAC-SHA1 signing key (RFC 5849 section 3.4.2): percent-encoded
/// consumer secret and token secret joined with '&'.
pub open spec fn signing_key_spec(consumer_secret: Seq<char>, token_secret: Seq<char>) -> Seq<
    char,
> {
    pe_str(consumer_secret) + "&"@ + pe_str(token_secret)
}

/// The OAuth signature: base64 of the HMAC-SHA1 tag of the base string
/// under the signing key, both taken as their UTF-8 bytes.
pub open spec fn signature_spec(base: Seq<char>, key: Seq<char>) -> Seq<char> {
    base64_of(hmac_sha1_of(vstd::utf8::encode_utf8(key), vstd::utf8::encode_utf8(base)))
}

/// Sort the combined parameter set and build the signature base string.
pub fn build_base_string(method: &str, url: &str, params: Vec<EncodedPair>) -> (r: String)
    ensures
        r@ == base_string_spec(method@, url@, pair_views(params@)),
{
    let sorted = sort_params(params);
    let ptext = build_params_text(&sorted);
    let mut r = String::new();
    r.append(method);
    r.append("&");
    let u = percent_encode(url.as_bytes());
    r.append(u.as_str());
    r.append("&");
    let p = percent_encode(ptext.as_str().as_bytes());
    r.append(p.as_str());
    r
}

/// Build the signing key from the two secrets (token secret empty during
/// the request-token step).
pub fn build_signing_key(consumer_secret: &str, token_secret: &str) -> (r: String)
    ensures
        r@ == signing_key_spec(consumer_secret@, token_secret@),
{
    let mut r = percent_encode(consumer_secret.as_bytes());
    r.append("&");
    let t = percent_encode(token_secret.as_bytes());
    r.append(t.as_str());
    r
}

/// Sign a base string with a signing key: HMAC-SHA1, then base64.
pub fn sign(base: &str, key: &str) -> (r: String)
    ensures
        r@ == signature_spec(base@, key@),
{
    let tag = hmac_sha1(key.as_bytes(), base.as_bytes());
    base64_encode(tag.as_slice())
}

/// Law: the signature is a pure function of method, URL, parameter set
/// (nonce and timestamp stand among the parameters), consumer secret and
/// token secret: equal inputs yield equal signatures.
pub proof fn lemma_signature_deterministic(
    method1: Seq<char>,
    url1: Seq<char>,
    params1: Seq<(Seq<char>, Seq<char>)>,
    cs1: Seq<char>,
    ts1: Seq<char>,
    method2: Seq<char>,
    url2: Seq<char>,
    params2: Seq<(Seq<char>, Seq<char>)>,
    cs2: Seq<char>,
    ts2: Seq<char>,
)
    requires
        method1 == method2,
        url1 == url2,
        params1 == params2,
        cs1 == cs2,
        ts1 == ts2,
    ensures
        signature_spec(base_string_spec(method1, url1, params1), signing_key_spec(cs1, ts1))
            == signature_spec(base_string_spec(method2, url2, params2), signing_key_spec(cs2, ts2)),
{
}

} // verus!
