use egg_mode_auth::codec::{percent_decode, percent_encode, u64_to_dec};

#[test]
fn encode_unreserved_is_identity() {
    let s = "AZaz09-._~";
    assert_eq!(percent_encode(s.as_bytes()), s);
}

#[test]
fn encode_reserved_characters() {
    assert_eq!(percent_encode(b" "), "%20");
    assert_eq!(percent_encode(b"&"), "%26");
    assert_eq!(percent_encode(b"="), "%3D");
    assert_eq!(percent_encode(b"%"), "%25");
    assert_eq!(percent_encode(b"Ladies + Gentlemen"), "Ladies%20%2B%20Gentlemen");
}

#[test]
fn encode_utf8_bytes() {
    // U+00E9 is 0xC3 0xA9 in UTF-8.
    assert_eq!(percent_encode("é".as_bytes()), "%C3%A9");
}

#[test]
fn round_trip_all_reserved() {
    let original = "!*'();:@&=+$,/?#[] ";
    let encoded = percent_encode(original.as_bytes());
    let decoded = percent_decode(&encoded).expect("decoding an encoding must succeed");
    assert_eq!(decoded, original.as_bytes());
}

#[test]
fn round_trip_binary_bytes() {
    let original: Vec<u8> = (0u8..=255).collect();
    let encoded = percent_encode(&original);
    let decoded = percent_decode(&encoded).expect("decoding an encoding must succeed");
    assert_eq!(decoded, original);
}

#[test]
fn decode_rejects_bad_escape() {
    assert!(percent_decode("%GG").is_none());
    assert!(percent_decode("%2").is_none());
    assert!(percent_decode("abc%").is_none());
}

#[test]
fn decode_plain_text() {
    assert_eq!(percent_decode("abc").unwrap(), b"abc");
    assert_eq!(percent_decode("a%20b").unwrap(), b"a b");
}

#[test]
fn decimal_text() {
    assert_eq!(u64_to_dec(0), "0");
    assert_eq!(u64_to_dec(9), "9");
    assert_eq!(u64_to_dec(10), "10");
    assert_eq!(u64_to_dec(1318622958), "1318622958");
    assert_eq!(u64_to_dec(u64::MAX), "18446744073709551615");
}
