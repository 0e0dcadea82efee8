use egg_mode_auth::params::{sort_params, EncodedPair};
use egg_mode_auth::signature::{build_base_string, build_signing_key, sign};

fn pair(name: &str, value: &str) -> EncodedPair {
    EncodedPair { name: name.to_string(), value: value.to_string() }
}

fn views(v: &[EncodedPair]) -> Vec<(String, String)> {
    v.iter().map(|p| (p.name.clone(), p.value.clone())).collect()
}

#[test]
fn sort_orders_by_name_then_value() {
    let input = vec![pair("b", "1"), pair("a", "2"), pair("a", "1")];
    let sorted = sort_params(input);
    assert_eq!(
        views(&sorted),
        vec![
            ("a".to_string(), "1".to_string()),
            ("a".to_string(), "2".to_string()),
            ("b".to_string(), "1".to_string()),
        ]
    );
}

#[test]
fn sorting_sorted_input_is_noop() {
    let input = vec![pair("a", "1"), pair("a", "2"), pair("b", "1"), pair("b", "1")];
    let sorted = sort_params(input);
    assert_eq!(
        views(&sorted),
        vec![
            ("a".to_string(), "1".to_string()),
            ("a".to_string(), "2".to_string()),
            ("b".to_string(), "1".to_string()),
            ("b".to_string(), "1".to_string()),
        ]
    );
}

#[test]
fn base_string_shape() {
    let params = vec![pair("b", "2"), pair("a", "1")];
    let base = build_base_string("POST", "https://example.com/path", params);
    assert_eq!(base, "POST&https%3A%2F%2Fexample.com%2Fpath&a%3D1%26b%3D2");
}

#[test]
fn signing_key_joins_encoded_secrets() {
    assert_eq!(build_signing_key("kd94hf93k423kf44", "pfkkdhi9sl3r4s00"), "kd94hf93k423kf44&pfkkdhi9sl3r4s00");
    assert_eq!(build_signing_key("a b", ""), "a%20b&");
}

#[test]
fn hmac_sha1_base64_known_vector() {
    // HMAC-SHA1("key", "The quick brown fox jumps over the lazy dog")
    // = de7c9b85b8b78aa6bc8a7a36f70a90701c9db4d9, whose base64 form is below.
    let sig = sign("The quick brown fox jumps over the lazy dog", "key");
    assert_eq!(sig, "3nybhbi3iqa8ino29wqQcBydtNk=");
}

#[test]
fn signature_deterministic_for_fixed_inputs() {
    let s1 = sign("base&string&here", "secret&");
    let s2 = sign("base&string&here", "secret&");
    assert_eq!(s1, s2);
}

#[test]
fn different_nonce_changes_signature() {
    // The nonce stands inside the signed base string, so changing it
    // changes the signature for these concrete inputs.
    let s1 = sign("POST&url&oauth_nonce%3Dabc", "secret&");
    let s2 = sign("POST&url&oauth_nonce%3Ddef", "secret&");
    assert_ne!(s1, s2);
}
