use egg_mode_auth::auth::{
    authenticate_url, authorize_url, build_access_token, build_request_token,
    parse_token_response, KeyPair,
};
use egg_mode_auth::error::Error;

#[test]
fn empty_pair_is_blank() {
    let p = KeyPair::empty();
    assert_eq!(p.key, "");
    assert_eq!(p.secret, "");
}

#[test]
fn parse_token_response_both_fields() {
    let pair = parse_token_response("oauth_token=abc&oauth_token_secret=xyz").unwrap();
    assert_eq!(pair.key, "abc");
    assert_eq!(pair.secret, "xyz");
}

#[test]
fn parse_token_response_ignores_other_fields() {
    let pair = parse_token_response(
        "oauth_callback_confirmed=true&oauth_token=tok&extra=1&oauth_token_secret=sec",
    )
    .unwrap();
    assert_eq!(pair.key, "tok");
    assert_eq!(pair.secret, "sec");
}

#[test]
fn parse_token_response_last_occurrence_wins() {
    let pair = parse_token_response("oauth_token=a&oauth_token=b&oauth_token_secret=s").unwrap();
    assert_eq!(pair.key, "b");
}

#[test]
fn parse_token_response_missing_secret() {
    let err = parse_token_response("oauth_token=abc").unwrap_err();
    assert!(matches!(err, Error::MissingValue("oauth_token_secret")));
}

#[test]
fn parse_token_response_missing_token() {
    let err = parse_token_response("oauth_token_secret=xyz").unwrap_err();
    assert!(matches!(err, Error::MissingValue("oauth_token")));
}

#[test]
fn parse_token_response_malformed_pair() {
    let err = parse_token_response("oauth_token=abc&nonsense").unwrap_err();
    assert!(matches!(err, Error::InvalidResponse(_, _)));
}

#[test]
fn authorize_url_appends_token_verbatim() {
    let tok = KeyPair::new("tok123".to_string(), "".to_string());
    assert_eq!(
        authorize_url(&tok),
        "https://api.twitter.com/oauth/authorize?oauth_token=tok123"
    );
}

#[test]
fn authenticate_url_appends_token_verbatim() {
    let tok = KeyPair::new("tok123".to_string(), "".to_string());
    assert_eq!(
        authenticate_url(&tok),
        "https://api.twitter.com/oauth/authenticate?oauth_token=tok123"
    );
}

#[test]
fn request_token_request_is_signed_post() {
    let consumer = KeyPair::new("ckey".to_string(), "csecret".to_string());
    let req = build_request_token(&consumer, "oob".to_string(), "nonce123", 1318622958);
    assert_eq!(req.url, "https://api.twitter.com/oauth/request_token");
    assert_eq!(req.headers.len(), 1);
    assert_eq!(req.headers[0].0, "Authorization");
    let auth = &req.headers[0].1;
    assert!(auth.starts_with("OAuth oauth_consumer_key=\"ckey\", oauth_nonce=\"nonce123\", oauth_signature=\""));
    assert!(auth.contains("oauth_signature_method=\"HMAC-SHA1\""));
    assert!(auth.contains("oauth_timestamp=\"1318622958\""));
    assert!(auth.contains("oauth_version=\"1.0\""));
    assert!(auth.ends_with("oauth_callback=\"oob\""));
    assert!(req.body.is_none());
}

#[test]
fn access_token_request_carries_verifier_and_token() {
    let consumer = KeyPair::new("ck".to_string(), "cs".to_string());
    let request_token = KeyPair::new("rk".to_string(), "rs".to_string());
    let req = build_access_token(&consumer, &request_token, "verif", "nonce", 1);
    assert_eq!(
        req.url,
        "https://api.twitter.com/oauth/access_token?oauth_verifier=verif"
    );
    let auth = &req.headers[0].1;
    assert!(auth.contains("oauth_token=\"rk\""));
    assert!(!auth.contains("oauth_callback"));
}
