use egg_mode_auth::auth::{KeyPair, Token};
use egg_mode_auth::error::Error;
use egg_mode_auth::raw::{Method, RequestBuilder};

#[test]
fn finalize_twice_fails_second_call() {
    let mut b = RequestBuilder::new(Method::Post, "https://example.com/endpoint");
    let first = b.finalize("nonce", 1);
    assert!(first.is_ok());
    let second = b.finalize("nonce", 1);
    assert!(matches!(second.unwrap_err(), Error::FutureAlreadyCompleted));
}

#[test]
fn request_keys_twice_fails() {
    let consumer = KeyPair::new("k".to_string(), "s".to_string());
    let again = KeyPair::new("k2".to_string(), "s2".to_string());
    let b = RequestBuilder::new(Method::Post, "https://example.com/endpoint");
    let b = b.request_keys(consumer, None).unwrap();
    let err = b.request_keys(again, None).unwrap_err();
    assert!(matches!(err, Error::BadUrl));
}

#[test]
fn unsigned_request_with_bearer() {
    let b = RequestBuilder::new(Method::Get, "https://example.com/x");
    let mut b = b.token(Token::Bearer("tok".to_string())).unwrap();
    let req = b.finalize("n", 1).unwrap();
    assert_eq!(req.headers.len(), 1);
    assert_eq!(req.headers[0].0, "Authorization");
    assert_eq!(req.headers[0].1, "Bearer tok");
    assert!(req.body.is_none());
}

#[test]
fn query_params_land_in_url_and_body_in_request() {
    let b = RequestBuilder::new(Method::Get, "https://example.com/x");
    let b = b.query_param("q", "a b").query_param("n", "2");
    let mut b = b.body(vec![1u8, 2, 3], "application/octet-stream".to_string());
    let req = b.finalize("n", 1).unwrap();
    assert_eq!(req.url, "https://example.com/x?q=a%20b&n=2");
    assert_eq!(req.headers.len(), 1);
    assert_eq!(req.headers[0].0, "Content-Type");
    assert_eq!(req.headers[0].1, "application/octet-stream");
    assert_eq!(req.body.unwrap(), vec![1u8, 2, 3]);
}

#[test]
fn signed_request_has_full_oauth_header() {
    let consumer = KeyPair::new("ckey".to_string(), "csecret".to_string());
    let access = KeyPair::new("akey".to_string(), "asecret".to_string());
    let b = RequestBuilder::new(Method::Post, "https://example.com/statuses");
    let mut b = b.request_keys(consumer, Some(access)).unwrap();
    let req = b.finalize("abcdef", 1318622958).unwrap();
    assert_eq!(req.headers.len(), 1);
    let auth = &req.headers[0].1;
    assert!(auth.starts_with("OAuth oauth_consumer_key=\"ckey\", oauth_nonce=\"abcdef\", oauth_signature=\""));
    assert!(auth.contains("oauth_token=\"akey\""));
}

#[test]
fn method_text() {
    assert_eq!(Method::Get.as_str(), "GET");
    assert_eq!(Method::Post.as_str(), "POST");
    assert_eq!(Method::Put.as_str(), "PUT");
    assert_eq!(Method::Delete.as_str(), "DELETE");
}

#[test]
fn documented_example_signature() {
    // The worked example from the provider's "creating a signature"
    // documentation: fixed nonce and timestamp give a known signature.
    let consumer = KeyPair::new(
        "xvz1evFS4wEEPTGEFPHBog".to_string(),
        "kAcSOqF21Fu85e7zjz7ZN2U4ZRhfV3WpwPAoE3Z7kBw".to_string(),
    );
    let access = KeyPair::new(
        "370773112-GmHxMAgYyLbNEtIKZeRNFsMKPR9EyMZeS9weJAEb".to_string(),
        "LswwdoUaIvS8ltyTt5jkRh4J50vUPVVHtR2YPi5kE".to_string(),
    );
    let b = RequestBuilder::new(Method::Post, "https://api.twitter.com/1.1/statuses/update.json");
    let b = b
        .query_param("status", "Hello Ladies + Gentlemen, a signed OAuth request!")
        .query_param("include_entities", "true");
    let mut b = b.request_keys(consumer, Some(access)).unwrap();
    let req = b
        .finalize("kYjzVBB8Y0ZFabxSWbWovY3uYSQ2pTgmZeNu2VS4cg", 1318622958)
        .unwrap();
    let auth = &req.headers[0].1;
    assert!(
        auth.contains("oauth_signature=\"hCtSmYh%2BiHYCEqBWrE7C7hYmtUk%3D\""),
        "header was: {}",
        auth
    );
}
