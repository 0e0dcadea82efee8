use egg_mode_auth::error::{classify_response, parse_twitter_errors, Error, TwitterErrorCode, TwitterErrors};

#[test]
fn provider_error_body_decodes() {
    let body = "{\"errors\":[{\"code\":32,\"message\":\"Could not authenticate you\"}]}";
    let t = parse_twitter_errors(body).unwrap();
    assert_eq!(t.errors.len(), 1);
    assert_eq!(t.errors[0].code, 32);
    assert_eq!(t.errors[0].message, "Could not authenticate you");
}

#[test]
fn provider_error_with_401_status_classifies() {
    let body = "{\"errors\":[{\"code\":32,\"message\":\"Could not authenticate you\"}]}";
    let headers = vec![("content-type".to_string(), "application/json".to_string())];
    let err = classify_response(401, headers, body).unwrap_err();
    match err {
        Error::TwitterError(h, t) => {
            assert_eq!(h.len(), 1);
            assert_eq!(t.errors.len(), 1);
            assert_eq!(t.errors[0].code, 32);
            assert_eq!(t.errors[0].message, "Could not authenticate you");
        }
        other => panic!("expected TwitterError, got {}", kind_of(&other)),
    }
}

fn kind_of(e: &Error) -> &'static str {
    match e {
        Error::BadUrl => "BadUrl",
        Error::TwitterError(_, _) => "TwitterError",
        Error::BadStatus(_) => "BadStatus",
        _ => "other",
    }
}

#[test]
fn multiple_provider_errors_decode() {
    let body = "{\"errors\":[{\"code\":1,\"message\":\"a\"},{\"code\":2,\"message\":\"b\"}]}";
    let t = parse_twitter_errors(body).unwrap();
    assert_eq!(t.errors.len(), 2);
    assert_eq!(t.errors[0].code, 1);
    assert_eq!(t.errors[1].message, "b");
}

#[test]
fn empty_provider_error_list_decodes() {
    let t = parse_twitter_errors("{\"errors\":[]}").unwrap();
    assert_eq!(t.errors.len(), 0);
}

#[test]
fn non_error_body_is_not_recognized() {
    assert!(parse_twitter_errors("{\"ok\":true}").is_none());
    assert!(parse_twitter_errors("").is_none());
    assert!(parse_twitter_errors("{\"errors\":[{\"code\":x}]}").is_none());
}

#[test]
fn unrecognized_body_becomes_bad_status() {
    let err = classify_response(500, Vec::new(), "oops").unwrap_err();
    assert!(matches!(err, Error::BadStatus(500)));
}

#[test]
fn success_status_passes() {
    assert!(classify_response(200, Vec::new(), "").is_ok());
    assert!(classify_response(299, Vec::new(), "").is_ok());
}

#[test]
fn error_code_message_rendering() {
    let c = TwitterErrorCode { code: 32, message: "Could not authenticate you".to_string() };
    assert_eq!(c.to_message(), "#32: Could not authenticate you");
    let neg = TwitterErrorCode { code: -5, message: "x".to_string() };
    assert_eq!(neg.to_message(), "#-5: x");
}

#[test]
fn errors_list_rendering() {
    let t = TwitterErrors {
        errors: vec![
            TwitterErrorCode { code: 1, message: "a".to_string() },
            TwitterErrorCode { code: 2, message: "b".to_string() },
        ],
    };
    assert_eq!(t.to_message(), "#1: a,\n#2: b");
}

#[test]
fn rate_limited_response_carries_reset_time() {
    let headers = vec![
        ("content-type".to_string(), "application/json".to_string()),
        ("x-rate-limit-reset".to_string(), "1318622958".to_string()),
    ];
    let err = classify_response(429, headers, "").unwrap_err();
    assert!(matches!(err, Error::RateLimit(1318622958)));

    // A reset outside the 31-bit range is ignored.
    let headers = vec![("x-rate-limit-reset".to_string(), "4318622958".to_string())];
    let err = classify_response(429, headers, "").unwrap_err();
    assert!(matches!(err, Error::BadStatus(429)));
}
