use vstd::prelude::*;
use crate::codec::dec_text;
use crate::error::Error;
use crate::links;
use crate::params::pair_views;
use crate::raw::{
    Method, OutgoingRequest, RequestBuilder, header_items_text, header_params_spec,
    protocol_params_spec,
};
use crate::signature::{base_string_spec, signature_spec, signing_key_spec};

verus! {

/// An immutable key/secret credential pair, used both for the consumer
/// (application) identity and for user-level request/access tokens.
#[derive(Debug, Clone)]
pub struct KeyPair {
    pub key: String,
    pub secret: String,
}

impl KeyPair {
    pub fn new(key: String, secret: String) -> (r: KeyPair)
        ensures
            r.key@ == key@,
            r.secret@ == secret@,
    {
        KeyPair { key, secret }
    }

    /// The placeholder pair, used only before real credentials exist.
    pub fn empty() -> (r: KeyPair)
        ensures
            r.key@ == Seq::<char>::empty(),
            r.secret@ == Seq::<char>::empty(),
    {
        KeyPair { key: String::new(), secret: String::new() }
    }

    /// A pair with the same key and secret.
    pub fn duplicate(&self) -> (r: KeyPair)
        ensures
            r.key@ == self.key@,
            r.secret@ == self.secret@,
    {
        KeyPair { key: self.key.clone(), secret: self.secret.clone() }
    }
}

/// The identity used to authenticate outgoing requests: either a full
/// OAuth 1.0a consumer+access pair, or an opaque bearer credential that
/// is sent as a header and never HMAC-signed.
#[derive(Debug, Clone)]
pub enum Token {
    Access { consumer: KeyPair, access: KeyPair },
    Bearer(String),
}

/// Index of the first occurrence of a character, if any.
pub open spec fn find_char(s: Seq<char>, c: char) -> Option<int>
    decreases s.len(),
{
    if s.len() == 0 {
        None
    } else if s[0] == c {
        Some(0)
    } else {
        match find_char(s.skip(1), c) {
            Some(i) => Some(i + 1),
            None => None,
        }
    }
}

pub proof fn lemma_find_char(s: Seq<char>, c: char)
    ensures
        match find_char(s, c) {
            Some(i) => 0 <= i < s.len() && s[i] == c,
            None => true,
        },
    decreases s.len(),
{
    if s.len() > 0 && s[0] != c {
        lemma_find_char(s.skip(1), c);
    }
}

/// Outcome of scanning a form-encoded token response: malformed (a pair
/// with no '='), or done with whatever the two fields were last set to.
pub enum TokenScan {
    Malformed,
    Done(Option<Seq<char>>, Option<Seq<char>>),
}

/// Scan '&'-separated `name=value` pairs in order: `oauth_token` sets
/// the key, `oauth_token_secret` sets the secret, any other name is
/// ignored, and a pair with no '=' is malformed.
pub open spec fn scan_pairs(
    s: Seq<char>,
    key: Option<Seq<char>>,
    secret: Option<Seq<char>>,
) -> TokenScan
    decreases s.len(),
    via scan_pairs_dec
{
    let seg_end = match find_char(s, '&') {
        Some(i) => i,
        None => s.len() as int,
    };
    let seg = s.take(seg_end);
    match find_char(seg, '=') {
        None => TokenScan::Malformed,
        Some(eq) => {
            let name = seg.take(eq);
            let value = seg.skip(eq + 1);
            let key2 = if name == "oauth_token"@ {
                Some(value)
            } else {
                key
            };
            let secret2 = if name == "oauth_token_secret"@ {
                Some(value)
            } else {
                secret
            };
            if seg_end == s.len() {
                TokenScan::Done(key2, secret2)
            } else {
                scan_pairs(s.skip(seg_end + 1), key2, secret2)
            }
        },
    }
}

#[via_fn]
proof fn scan_pairs_dec(s: Seq<char>, key: Option<Seq<char>>, secret: Option<Seq<char>>) {
    lemma_find_char(s, '&');
}

pub open spec fn opt_view(o: Option<String>) -> Option<Seq<char>> {
    match o {
        Some(s) => Some(s@),
        None => None,
    }
}

/// Find `c` in `s` between `from` and `to`; `to` when it is absent.
pub(crate) fn find_char_range(s: &str, from: usize, to: usize, c: char) -> (r: usize)
    requires
        from <= to <= s@.len(),
    ensures
        from <= r <= to,
        match find_char(s@.subrange(from as int, to as int), c) {
            Some(i) => r == from + i,
            None => r == to,
        },
{
    let mut j = from;
    proof {
        assert(s@.subrange(from as int, to as int) =~= s@.subrange(j as int, to as int));
    }
    while j < to
        invariant
            from <= j <= to <= s@.len(),
            match find_char(s@.subrange(j as int, to as int), c) {
                Some(i) => find_char(s@.subrange(from as int, to as int), c) == Some(
                    j - from + i,
                ),
                None => find_char(s@.subrange(from as int, to as int), c) is None,
            },
        decreases to - j,
    {
        let cj = s.get_char(j);
        proof {
            assert(s@.subrange(j as int, to as int)[0] == s@[j as int]);
        }
        if cj == c {
            proof {
                assert(find_char(s@.subrange(j as int, to as int), c) == Some(0int));
            }
            return j;
        }
        proof {
            assert(s@.subrange(j as int, to as int).skip(1) =~= s@.subrange(
                j as int + 1,
                to as int,
            ));
        }
        j += 1;
    }
    proof {
        assert(s@.subrange(j as int, to as int) =~= Seq::<char>::empty());
    }
    to
}

/// Equality of two texts. String comparison carries a contract, so the
/// slices are owned first.
pub(crate) fn str_eq(a: &str, b: &str) -> (r: bool)
    ensures
        r == (a@ == b@),
{
    let sa = a.to_owned();
    let sb = b.to_owned();
    sa == sb
}

/// Parse the form-encoded body of a token-endpoint response into the
/// credential pair it carries (RFC 5849 section 2.1): `oauth_token` and
/// `oauth_token_secret`, scanned in order, other names ignored; a pair
/// with no '=' is an invalid response; a missing field is reported by
/// name.
pub fn parse_token_response(body: &str) -> (r: Result<KeyPair, Error>)
    ensures
        match scan_pairs(body@, None, None) {
            TokenScan::Malformed => (r matches Err(e) && e matches Error::InvalidResponse(_, _)),
            TokenScan::Done(k, s) => match (k, s) {
                (Some(kv), Some(sv)) => (r matches Ok(p) && p.key@ == kv && p.secret@ == sv),
                (None, _) => (r matches Err(e) && e matches Error::MissingValue(f) && f@
                    == "oauth_token"@),
                (Some(_), None) => (r matches Err(e) && e matches Error::MissingValue(f) && f@
                    == "oauth_token_secret"@),
            },
        },
{
    let n = body.unicode_len();
    let mut pos: usize = 0;
    let mut key: Option<String> = None;
    let mut secret: Option<String> = None;
    let mut done = false;
    proof {
        assert(body@.skip(0) =~= body@);
    }
    while !done
        invariant
            n == body@.len(),
            pos <= n,
            !done ==> scan_pairs(body@, None, None) == scan_pairs(
                body@.skip(pos as int),
                opt_view(key),
                opt_view(secret),
            ),
            done ==> scan_pairs(body@, None, None) == TokenScan::Done(
                opt_view(key),
                opt_view(secret),
            ),
        decreases (if done { 0int } else { 1int }), n - pos,
    {
        let ghost rem = body@.skip(pos as int);
        let ghost k0 = opt_view(key);
        let ghost s0 = opt_view(secret);
        proof {
            reveal_strlit("oauth_token");
            reveal_strlit("oauth_token_secret");
            assert("oauth_token"@.len() == 11);
            assert("oauth_token_secret"@.len() == 18);
            assert("oauth_token"@ != "oauth_token_secret"@);
        }
        let j = find_char_range(body, pos, n, '&');
        proof {
            assert(body@.subrange(pos as int, n as int) =~= rem);
            lemma_find_char(rem, '&');
        }
        let ghost seg_end: int = j - pos;
        let ghost seg = rem.take(seg_end);
        let e = find_char_range(body, pos, j, '=');
        proof {
            assert(body@.subrange(pos as int, j as int) =~= seg);
        }
        if e == j {
            proof {
                lemma_find_char(seg, '=');
                assert(find_char(seg, '=') is None);
                assert(scan_pairs(rem, opt_view(key), opt_view(secret)) == TokenScan::Malformed);
            }
            return Err(
                Error::InvalidResponse("malformed key=value pair in token response", None),
            );
        }
        let name = body.substring_char(pos, e);
        let value_str = body.substring_char(e + 1, j);
        let value = value_str.to_owned();
        proof {
            lemma_find_char(seg, '=');
            assert(seg.take(e - pos) =~= body@.subrange(pos as int, e as int));
            assert(seg.skip(e - pos + 1) =~= body@.subrange(e as int + 1, j as int));
        }
        proof {
            assert(find_char(seg, '=') == Some(e - pos));
            assert(seg.take(e - pos) == name@);
            assert(seg.skip(e - pos + 1) == value@);
        }
        if str_eq(name, "oauth_token") {
            key = Some(value);
        } else if str_eq(name, "oauth_token_secret") {
            secret = Some(value);
        }
        if j == n {
            proof {
                assert(seg =~= rem);
                assert(find_char(rem, '&') is None);
                assert(scan_pairs(rem, k0, s0) == TokenScan::Done(
                    opt_view(key),
                    opt_view(secret),
                ));
            }
            done = true;
        } else {
            proof {
                assert(find_char(rem, '&') == Some(seg_end));
                assert(rem.skip(seg_end + 1) =~= body@.skip(j as int + 1));
                assert(scan_pairs(rem, k0, s0) == scan_pairs(
                    rem.skip(seg_end + 1),
                    opt_view(key),
                    opt_view(secret),
                ));
            }
            pos = j + 1;
        }
    }
    let k = match key {
        Some(k) => k,
        None => {
            return Err(Error::MissingValue("oauth_token"));
        },
    };
    let s = match secret {
        Some(s) => s,
        None => {
            return Err(Error::MissingValue("oauth_token_secret"));
        },
    };
    Ok(KeyPair { key: k, secret: s })
}

/// The authorize redirect: the endpoint with the request-token key
/// appended verbatim as `oauth_token`.
pub fn authorize_url(request_token: &KeyPair) -> (r: String)
    ensures
        r@ == "https://api.twitter.com/oauth/authorize"@ + "?oauth_token="@ + request_token.key@,
{
    let mut r = links::authorize_endpoint().to_owned();
    r.append("?oauth_token=");
    r.append(request_token.key.as_str());
    r
}

/// The authenticate (sign-in) redirect: the endpoint with the
/// request-token key appended verbatim as `oauth_token`.
pub fn authenticate_url(request_token: &KeyPair) -> (r: String)
    ensures
        r@ == "https://api.twitter.com/oauth/authenticate"@ + "?oauth_token="@
            + request_token.key@,
{
    let mut r = links::authenticate_endpoint().to_owned();
    r.append("?oauth_token=");
    r.append(request_token.key.as_str());
    r
}

/// What the request-token request looks like: a consumer-only signed
/// POST to the request-token endpoint, the callback among the protocol
/// parameters, no body and no query.
pub open spec fn request_token_request_spec(
    q: OutgoingRequest,
    ck: Seq<char>,
    cs: Seq<char>,
    callback: Seq<char>,
    nonce: Seq<char>,
    ts: u64,
) -> bool {
    let tsx = dec_text(ts as nat);
    let pp = protocol_params_spec(ck, None, Some(callback), nonce, tsx);
    let sig = signature_spec(
        base_string_spec("POST"@, "https://api.twitter.com/oauth/request_token"@, pp),
        signing_key_spec(cs, Seq::<char>::empty()),
    );
    &&& q.method is Post
    &&& q.url@ == "https://api.twitter.com/oauth/request_token"@
    &&& q.headers@.len() == 1
    &&& q.headers@[0].0@ == "Authorization"@
    &&& q.headers@[0].1@ == "OAuth "@ + header_items_text(
        header_params_spec(ck, None, Some(callback), nonce, tsx, sig),
    )
    &&& q.body is None
}

/// Build the signed request of the request-token handshake step. The
/// nonce and timestamp are injected so that signing stays a pure
/// function; the transport collaborator sends the result.
pub fn build_request_token(
    con_token: &KeyPair,
    callback: String,
    nonce: &str,
    timestamp: u64,
) -> (r: OutgoingRequest)
    ensures
        request_token_request_spec(
            r,
            con_token.key@,
            con_token.secret@,
            callback@,
            nonce@,
            timestamp,
        ),
{
    let ghost cb = callback@;
    let b0 = RequestBuilder::new(Method::Post, links::request_token_endpoint());
    let b1 = b0.oauth_callback(callback);
    let b2 = match b1.request_keys(con_token.duplicate(), None) {
        Ok(b) => b,
        Err(_) => {
            // A fresh builder carries no key material, so this arm is dead.
            proof {
                assert(false);
            }
            RequestBuilder::new(Method::Post, "")
        },
    };
    let mut b = b2;
    let q = match b.finalize(nonce, timestamp) {
        Ok(q) => q,
        Err(_) => {
            // The builder was just made, so it cannot be consumed yet.
            proof {
                assert(false);
            }
            OutgoingRequest {
                method: Method::Post,
                url: String::new(),
                headers: Vec::new(),
                body: None,
            }
        },
    };
    proof {
        assert(pair_views(b2.params@) =~= Seq::<(Seq<char>, Seq<char>)>::empty());
        let pp = protocol_params_spec(
            con_token.key@,
            None,
            Some(cb),
            nonce@,
            dec_text(timestamp as nat),
        );
        assert(pp + pair_views(b2.params@) =~= pp);
    }
    q
}

/// What the access-token exchange request looks like: a POST to the
/// access-token endpoint signed with consumer plus request-token pair,
/// the caller-supplied verifier standing as the one request parameter.
pub open spec fn access_token_request_spec(
    q: OutgoingRequest,
    ck: Seq<char>,
    cs: Seq<char>,
    tk: Seq<char>,
    tsec: Seq<char>,
    verifier: Seq<char>,
    nonce: Seq<char>,
    ts: u64,
) -> bool {
    let tsx = dec_text(ts as nat);
    let pp = protocol_params_spec(ck, Some(tk), None, nonce, tsx);
    let vp = (crate::codec::pe_str("oauth_verifier"@), crate::codec::pe_str(verifier));
    let sig = signature_spec(
        base_string_spec(
            "POST"@,
            "https://api.twitter.com/oauth/access_token"@,
            pp + seq![vp],
        ),
        signing_key_spec(cs, tsec),
    );
    &&& q.method is Post
    &&& q.url@ == "https://api.twitter.com/oauth/access_token"@ + "?"@ + (vp.0 + "="@ + vp.1)
    &&& q.headers@.len() == 1
    &&& q.headers@[0].0@ == "Authorization"@
    &&& q.headers@[0].1@ == "OAuth "@ + header_items_text(
        header_params_spec(ck, Some(tk), None, nonce, tsx, sig),
    )
    &&& q.body is None
}

/// Build the signed request of the access-token exchange, given the
/// request token obtained earlier and the verifier the user brought
/// back from the authorize redirect.
pub fn build_access_token(
    con_token: &KeyPair,
    request_token: &KeyPair,
    verifier: &str,
    nonce: &str,
    timestamp: u64,
) -> (r: OutgoingRequest)
    ensures
        access_token_request_spec(
            r,
            con_token.key@,
            con_token.secret@,
            request_token.key@,
            request_token.secret@,
            verifier@,
            nonce@,
            timestamp,
        ),
{
    let b0 = RequestBuilder::new(Method::Post, links::access_token_endpoint());
    let b1 = b0.query_param("oauth_verifier", verifier);
    let b2 = match b1.request_keys(con_token.duplicate(), Some(request_token.duplicate())) {
        Ok(b) => b,
        Err(_) => {
            // A fresh builder carries no key material, so this arm is dead.
            proof {
                assert(false);
            }
            RequestBuilder::new(Method::Post, "")
        },
    };
    let mut b = b2;
    let q = match b.finalize(nonce, timestamp) {
        Ok(q) => q,
        Err(_) => {
            // The builder was just made, so it cannot be consumed yet.
            proof {
                assert(false);
            }
            OutgoingRequest {
                method: Method::Post,
                url: String::new(),
                headers: Vec::new(),
                body: None,
            }
        },
    };
    proof {
        let vp = (crate::codec::pe_str("oauth_verifier"@), crate::codec::pe_str(verifier@));
        assert(pair_views(b2.params@) =~= seq![vp]);
        assert(crate::params::params_text(seq![vp]) =~= vp.0 + "="@ + vp.1);
    }
    q
}

} // verus!
