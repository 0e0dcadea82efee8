use vstd::prelude::*;
use crate::auth::{KeyPair, Token};
use crate::codec::{dec_text, pe_str, u64_to_dec};
use crate::error::Error;
use crate::params::{EncodedPair, encode_pair, pair_views, params_text};
use crate::signature::{
    base_string_spec, build_base_string, build_signing_key, sign, signature_spec, signing_key_spec,
};

verus! {

/// The HTTP methods this core signs requests for.
#[derive(Debug, Clone, Copy, PartialEq, Eq, Structural)]
pub enum Method {
    Get,
    Post,
    Put,
    Delete,
}

pub open spec fn method_text(m: Method) -> Seq<char> {
    match m {
        Method::Get => "GET"@,
        Method::Post => "POST"@,
        Method::Put => "PUT"@,
        Method::Delete => "DELETE"@,
    }
}

impl Method {
    pub fn as_str(&self) -> (r: &'static str)
        ensures
            r@ == method_text(*self),
    {
        match self {
            Method::Get => "GET",
            Method::Post => "POST",
            Method::Put => "PUT",
            Method::Delete => "DELETE",
        }
    }
}

/// Which key material signs the request: none, the consumer pair alone
/// (the request-token step), or consumer plus access pair.
#[derive(Debug)]
pub enum OAuthAddOn {
    NoAuth,
    Consumer(KeyPair),
    Full { consumer: KeyPair, access: KeyPair },
}

/// A fully-formed outgoing request, ready for a transport collaborator.
#[derive(Debug)]
pub struct OutgoingRequest {
    pub method: Method,
    pub url: String,
    pub headers: Vec<(String, String)>,
    pub body: Option<Vec<u8>>,
}

/// One-shot builder of an outgoing request: accumulate method, base URL,
/// parameters, body and signing material, then finalize exactly once.
#[derive(Debug)]
pub struct RequestBuilder {
    pub method: Method,
    pub base_url: String,
    pub params: Vec<EncodedPair>,
    pub body: Option<(Vec<u8>, String)>,
    pub addon: OAuthAddOn,
    pub callback: Option<String>,
    pub bearer: Option<String>,
    pub consumed: bool,
}

pub open spec fn opt_text(o: Option<String>) -> Option<Seq<char>> {
    match o {
        Some(s) => Some(s@),
        None => None,
    }
}

/// The protocol parameter set, already percent-encoded, in the order it
/// appears in the Authorization header (before the signature is known).
pub open spec fn protocol_params_spec(
    ck: Seq<char>,
    tok: Option<Seq<char>>,
    cb: Option<Seq<char>>,
    nonce: Seq<char>,
    ts: Seq<char>,
) -> Seq<(Seq<char>, Seq<char>)> {
    let base = seq![
        (pe_str("oauth_consumer_key"@), pe_str(ck)),
        (pe_str("oauth_nonce"@), pe_str(nonce)),
        (pe_str("oauth_signature_method"@), pe_str("HMAC-SHA1"@)),
        (pe_str("oauth_timestamp"@), pe_str(ts)),
        (pe_str("oauth_version"@), pe_str("1.0"@)),
    ];
    let with_tok = match tok {
        Some(t) => base.push((pe_str("oauth_token"@), pe_str(t))),
        None => base,
    };
    match cb {
        Some(c) => with_tok.push((pe_str("oauth_callback"@), pe_str(c))),
        None => with_tok,
    }
}

/// The header parameter list: the protocol parameters with the encoded
/// signature standing third, after consumer key and nonce.
pub open spec fn header_params_spec(
    ck: Seq<char>,
    tok: Option<Seq<char>>,
    cb: Option<Seq<char>>,
    nonce: Seq<char>,
    ts: Seq<char>,
    sig: Seq<char>,
) -> Seq<(Seq<char>, Seq<char>)> {
    let base = seq![
        (pe_str("oauth_consumer_key"@), pe_str(ck)),
        (pe_str("oauth_nonce"@), pe_str(nonce)),
        (pe_str("oauth_signature"@), pe_str(sig)),
        (pe_str("oauth_signature_method"@), pe_str("HMAC-SHA1"@)),
        (pe_str("oauth_timestamp"@), pe_str(ts)),
        (pe_str("oauth_version"@), pe_str("1.0"@)),
    ];
    let with_tok = match tok {
        Some(t) => base.push((pe_str("oauth_token"@), pe_str(t))),
        None => base,
    };
    match cb {
        Some(c) => with_tok.push((pe_str("oauth_callback"@), pe_str(c))),
        None => with_tok,
    }
}

/// The rendering of header parameters: `name="value"` joined by ", ".
pub open spec fn header_items_text(s: Seq<(Seq<char>, Seq<char>)>) -> Seq<char>
    decreases s.len(),
{
    if s.len() == 0 {
        Seq::empty()
    } else if s.len() == 1 {
        s[0].0 + "=\""@ + s[0].1 + "\""@
    } else {
        header_items_text(s.drop_last()) + ", "@ + (s.last().0 + "=\""@ + s.last().1 + "\""@)
    }
}

/// The final URL: the base URL, plus the serialized parameters as its
/// query string when any were attached.
pub open spec fn final_url_spec(base: Seq<char>, params: Seq<(Seq<char>, Seq<char>)>) -> Seq<
    char,
> {
    if params.len() == 0 {
        base
    } else {
        base + "?"@ + params_text(params)
    }
}

/// What `finalize` promises of a signed request, given the signing
/// identity: URL, Authorization header (with the signature over the
/// protocol and request parameters, fresh nonce and timestamp included),
/// content-type header and body.
pub open spec fn signed_output_spec(
    q: OutgoingRequest,
    b: RequestBuilder,
    ck: Seq<char>,
    cs: Seq<char>,
    tok: Option<(Seq<char>, Seq<char>)>,
    nonce: Seq<char>,
    ts: u64,
) -> bool {
    let tsx = dec_text(ts as nat);
    let tok_key = match tok {
        Some(t) => Some(t.0),
        None => None,
    };
    let tok_sec = match tok {
        Some(t) => t.1,
        None => Seq::<char>::empty(),
    };
    let cb = opt_text(b.callback);
    let pp = protocol_params_spec(ck, tok_key, cb, nonce, tsx);
    let all = pp + pair_views(b.params@);
    let sig = signature_spec(
        base_string_spec(method_text(b.method), b.base_url@, all),
        signing_key_spec(cs, tok_sec),
    );
    &&& q.method == b.method
    &&& q.url@ == final_url_spec(b.base_url@, pair_views(b.params@))
    &&& q.headers@.len() == (if b.body is Some { 2int } else { 1int })
    &&& q.headers@[0].0@ == "Authorization"@
    &&& q.headers@[0].1@ == "OAuth "@ + header_items_text(
        header_params_spec(ck, tok_key, cb, nonce, tsx, sig),
    )
    &&& (match b.body {
        Some(bb) => q.headers@[1].0@ == "Content-Type"@ && q.headers@[1].1@ == bb.1@ && (
        q.body matches Some(ob) && ob@ == bb.0@),
        None => q.body is None,
    })
}

/// What `finalize` promises of an unsigned request: the bearer header
/// when a bearer credential was attached, and the body as given.
pub open spec fn unsigned_output_spec(q: OutgoingRequest, b: RequestBuilder) -> bool {
    let nb = if b.bearer is Some { 1int } else { 0int };
    &&& q.method == b.method
    &&& q.url@ == final_url_spec(b.base_url@, pair_views(b.params@))
    &&& q.headers@.len() == nb + (if b.body is Some { 1int } else { 0int })
    &&& (match b.bearer {
        Some(t) => q.headers@[0].0@ == "Authorization"@ && q.headers@[0].1@ == "Bearer "@ + t@,
        None => true,
    })
    &&& (match b.body {
        Some(bb) => q.headers@[nb].0@ == "Content-Type"@ && q.headers@[nb].1@ == bb.1@ && (
        q.body matches Some(ob) && ob@ == bb.0@),
        None => q.body is None,
    })
}

fn copy_bytes(v: &Vec<u8>) -> (r: Vec<u8>)
    ensures
        r@ == v@,
{
    let mut r: Vec<u8> = Vec::new();
    let mut i: usize = 0;
    while i < v.len()
        invariant
            i <= v@.len(),
            r@ == v@.take(i as int),
        decreases v@.len() - i,
    {
        r.push(v[i]);
        proof {
            assert(v@.take(i as int + 1) =~= v@.take(i as int).push(v@[i as int]));
        }
        i += 1;
    }
    proof {
        assert(v@.take(i as int) =~= v@);
    }
    r
}

fn clone_pairs(v: &Vec<EncodedPair>) -> (r: Vec<EncodedPair>)
    ensures
        pair_views(r@) == pair_views(v@),
{
    let mut r: Vec<EncodedPair> = Vec::new();
    let mut i: usize = 0;
    while i < v.len()
        invariant
            i <= v@.len(),
            pair_views(r@) == pair_views(v@).take(i as int),
        decreases v@.len() - i,
    {
        let p = EncodedPair { name: v[i].name.clone(), value: v[i].value.clone() };
        r.push(p);
        proof {
            assert(pair_views(r@) =~= pair_views(v@).take(i as int).push(v@[i as int]@));
            assert(pair_views(v@).take(i as int + 1) =~= pair_views(v@).take(i as int).push(
                v@[i as int]@,
            ));
        }
        i += 1;
    }
    proof {
        assert(pair_views(v@).take(i as int) =~= pair_views(v@));
    }
    r
}

fn build_header_value(hp: &Vec<EncodedPair>) -> (r: String)
    ensures
        r@ == "OAuth "@ + header_items_text(pair_views(hp@)),
{
    let ghost s = pair_views(hp@);
    let mut r = String::new();
    r.append("OAuth ");
    let mut i: usize = 0;
    proof {
        assert(r@ =~= "OAuth "@ + header_items_text(s.take(0)));
    }
    while i < hp.len()
        invariant
            i <= hp@.len(),
            s == pair_views(hp@),
            r@ == "OAuth "@ + header_items_text(s.take(i as int)),
        decreases hp@.len() - i,
    {
        if i > 0 {
            r.append(", ");
        }
        r.append(hp[i].name.as_str());
        r.append("=\"");
        r.append(hp[i].value.as_str());
        r.append("\"");
        proof {
            assert(s.take(i as int + 1).drop_last() =~= s.take(i as int));
            assert(s.take(i as int + 1).last() == s[i as int]);
            assert(s[i as int] == hp@[i as int]@);
        }
        i += 1;
    }
    proof {
        assert(s.take(i as int) =~= s);
    }
    r
}

fn build_final_url(base: &str, params: &Vec<EncodedPair>) -> (r: String)
    ensures
        r@ == final_url_spec(base@, pair_views(params@)),
{
    let mut r = base.to_owned();
    if params.len() > 0 {
        r.append("?");
        let q = crate::params::build_params_text(params);
        r.append(q.as_str());
    }
    r
}

fn protocol_param_vec(
    ck: &str,
    tok: Option<&String>,
    cb: Option<&String>,
    nonce: &str,
    ts_text: &str,
) -> (r: Vec<EncodedPair>)
    ensures
        pair_views(r@) == protocol_params_spec(
            ck@,
            match tok {
                Some(t) => Some(t@),
                None => None,
            },
            match cb {
                Some(c) => Some(c@),
                None => None,
            },
            nonce@,
            ts_text@,
        ),
{
    let mut v: Vec<EncodedPair> = Vec::new();
    v.push(encode_pair("oauth_consumer_key", ck));
    v.push(encode_pair("oauth_nonce", nonce));
    v.push(encode_pair("oauth_signature_method", "HMAC-SHA1"));
    v.push(encode_pair("oauth_timestamp", ts_text));
    v.push(encode_pair("oauth_version", "1.0"));
    match tok {
        Some(t) => {
            v.push(encode_pair("oauth_token", t.as_str()));
        },
        None => {},
    }
    match cb {
        Some(c) => {
            v.push(encode_pair("oauth_callback", c.as_str()));
        },
        None => {},
    }
    proof {
        assert(pair_views(v@) =~= protocol_params_spec(
            ck@,
            match tok {
                Some(t) => Some(t@),
                None => None,
            },
            match cb {
                Some(c) => Some(c@),
                None => None,
            },
            nonce@,
            ts_text@,
        ));
    }
    v
}

fn header_param_vec(
    ck: &str,
    tok: Option<&String>,
    cb: Option<&String>,
    nonce: &str,
    ts_text: &str,
    sig: &str,
) -> (r: Vec<EncodedPair>)
    ensures
        pair_views(r@) == header_params_spec(
            ck@,
            match tok {
                Some(t) => Some(t@),
                None => None,
            },
            match cb {
                Some(c) => Some(c@),
                None => None,
            },
            nonce@,
            ts_text@,
            sig@,
        ),
{
    let mut v: Vec<EncodedPair> = Vec::new();
    v.push(encode_pair("oauth_consumer_key", ck));
    v.push(encode_pair("oauth_nonce", nonce));
    v.push(encode_pair("oauth_signature", sig));
    v.push(encode_pair("oauth_signature_method", "HMAC-SHA1"));
    v.push(encode_pair("oauth_timestamp", ts_text));
    v.push(encode_pair("oauth_version", "1.0"));
    match tok {
        Some(t) => {
            v.push(encode_pair("oauth_token", t.as_str()));
        },
        None => {},
    }
    match cb {
        Some(c) => {
            v.push(encode_pair("oauth_callback", c.as_str()));
        },
        None => {},
    }
    proof {
        assert(pair_views(v@) =~= header_params_spec(
            ck@,
            match tok {
                Some(t) => Some(t@),
                None => None,
            },
            match cb {
                Some(c) => Some(c@),
                None => None,
            },
            nonce@,
            ts_text@,
            sig@,
        ));
    }
    v
}

fn concat_pairs(a: Vec<EncodedPair>, b: &Vec<EncodedPair>) -> (r: Vec<EncodedPair>)
    ensures
        pair_views(r@) == pair_views(a@) + pair_views(b@),
{
    let ghost av = pair_views(a@);
    let mut r = a;
    let mut i: usize = 0;
    proof {
        assert(pair_views(r@) =~= av + pair_views(b@).take(0));
    }
    while i < b.len()
        invariant
            i <= b@.len(),
            pair_views(r@) == av + pair_views(b@).take(i as int),
        decreases b@.len() - i,
    {
        let p = EncodedPair { name: b[i].name.clone(), value: b[i].value.clone() };
        r.push(p);
        proof {
            assert(pair_views(r@) =~= (av + pair_views(b@).take(i as int)).push(b@[i as int]@));
            assert(av + pair_views(b@).take(i as int + 1) =~= (av + pair_views(b@).take(
                i as int,
            )).push(b@[i as int]@));
        }
        i += 1;
    }
    proof {
        assert(av + pair_views(b@).take(i as int) =~= av + pair_views(b@));
    }
    r
}

impl RequestBuilder {
    /// Start an empty builder for a method and base URL (which must not
    /// itself carry a query string).
    pub fn new(method: Method, base_url: &str) -> (r: RequestBuilder)
        ensures
            r.method == method,
            r.base_url@ == base_url@,
            r.params@.len() == 0,
            r.body is None,
            r.addon is NoAuth,
            r.callback is None,
            r.bearer is None,
            !r.consumed,
    {
        RequestBuilder {
            method,
            base_url: base_url.to_owned(),
            params: Vec::new(),
            body: None,
            addon: OAuthAddOn::NoAuth,
            callback: None,
            bearer: None,
            consumed: false,
        }
    }

    /// Set the `oauth_callback` protocol parameter (request-token step).
    pub fn oauth_callback(self, url: String) -> (r: RequestBuilder)
        ensures
            r == (RequestBuilder { callback: Some(url), ..self }),
    {
        RequestBuilder { callback: Some(url), ..self }
    }

    /// Attach one request parameter (to be signed and sent in the query).
    pub fn query_param(self, name: &str, value: &str) -> (r: RequestBuilder)
        ensures
            r == (RequestBuilder { params: r.params, ..self }),
            pair_views(r.params@) == pair_views(self.params@).push(
                (pe_str(name@), pe_str(value@)),
            ),
    {
        let mut s = self;
        let p = encode_pair(name, value);
        let ghost pv = pair_views(s.params@);
        let ghost pw = p@;
        s.params.push(p);
        proof {
            assert(pair_views(s.params@) =~= pv.push(pw));
        }
        s
    }

    /// Attach an opaque body and its content type. A non-form body never
    /// takes part in the signature base string.
    pub fn body(self, bytes: Vec<u8>, content_type: String) -> (r: RequestBuilder)
        ensures
            r == (RequestBuilder { body: Some((bytes, content_type)), ..self }),
    {
        RequestBuilder { body: Some((bytes, content_type)), ..self }
    }

    /// Attach the signing key material: the consumer pair, and the access
    /// pair when one exists. A second call fails rather than overwriting.
    pub fn request_keys(self, consumer: KeyPair, access: Option<KeyPair>) -> (r: Result<
        RequestBuilder,
        Error,
    >)
        ensures
            match r {
                Ok(b) => self.addon is NoAuth && b == (RequestBuilder { addon: b.addon, ..self })
                    && (match access {
                    Some(a) => b.addon == (OAuthAddOn::Full { consumer, access: a }),
                    None => b.addon == OAuthAddOn::Consumer(consumer),
                }),
                Err(e) => !(self.addon is NoAuth) && e is BadUrl,
            },
    {
        match &self.addon {
            OAuthAddOn::NoAuth => {
                match access {
                    Some(a) => Ok(
                        RequestBuilder {
                            addon: OAuthAddOn::Full { consumer, access: a },
                            ..self
                        },
                    ),
                    None => Ok(RequestBuilder { addon: OAuthAddOn::Consumer(consumer), ..self }),
                }
            },
            _ => Err(Error::BadUrl),
        }
    }

    /// Attach a `Token`: an access token becomes full signing material,
    /// a bearer credential becomes a bearer Authorization header.
    pub fn token(self, t: Token) -> (r: Result<RequestBuilder, Error>)
        ensures
            match r {
                Ok(b) => self.addon is NoAuth && (match t {
                    Token::Access { consumer, access } => b == (RequestBuilder {
                        addon: b.addon,
                        ..self
                    }) && b.addon == (OAuthAddOn::Full { consumer, access }),
                    Token::Bearer(s) => b == (RequestBuilder { bearer: Some(s), ..self }),
                }),
                Err(e) => !(self.addon is NoAuth) && e is BadUrl,
            },
    {
        match t {
            Token::Access { consumer, access } => self.request_keys(consumer, Some(access)),
            Token::Bearer(s) => {
                match &self.addon {
                    OAuthAddOn::NoAuth => Ok(RequestBuilder { bearer: Some(s), ..self }),
                    _ => Err(Error::BadUrl),
                }
            },
        }
    }

    /// Produce the outgoing request, signing it per the attached addon
    /// with the given fresh nonce and timestamp. The builder is consumed:
    /// a second call fails with `FutureAlreadyCompleted`.
    #[verifier::rlimit(100)]
    #[verifier::spinoff_prover]
    pub fn finalize(&mut self, nonce: &str, timestamp: u64) -> (r: Result<OutgoingRequest, Error>)
        ensures
            final(self).consumed,
            old(self).consumed ==> (r matches Err(e) && e is FutureAlreadyCompleted),
            !old(self).consumed ==> match old(self).addon {
                OAuthAddOn::NoAuth => (r matches Ok(q) && unsigned_output_spec(q, *old(self))),
                OAuthAddOn::Consumer(c) => (r matches Ok(q) && signed_output_spec(
                    q,
                    *old(self),
                    c.key@,
                    c.secret@,
                    None,
                    nonce@,
                    timestamp,
                )),
                OAuthAddOn::Full { consumer, access } => (r matches Ok(q) && signed_output_spec(
                    q,
                    *old(self),
                    consumer.key@,
                    consumer.secret@,
                    Some((access.key@, access.secret@)),
                    nonce@,
                    timestamp,
                )),
            },
    {
        if self.consumed {
            return Err(Error::FutureAlreadyCompleted);
        }
        self.consumed = true;
        let url = build_final_url(self.base_url.as_str(), &self.params);
        let mut headers: Vec<(String, String)> = Vec::new();
        let ts_text = u64_to_dec(timestamp);
        match &self.addon {
            OAuthAddOn::NoAuth => {
                match &self.bearer {
                    Some(t) => {
                        let mut hv = String::new();
                        hv.append("Bearer ");
                        hv.append(t.as_str());
                        headers.push(("Authorization".to_owned(), hv));
                    },
                    None => {},
                }
            },
            OAuthAddOn::Consumer(c) => {
                let pp = protocol_param_vec(
                    c.key.as_str(),
                    None,
                    self.callback.as_ref(),
                    nonce,
                    ts_text.as_str(),
                );
                let all = concat_pairs(pp, &self.params);
                let base = build_base_string(self.method.as_str(), self.base_url.as_str(), all);
                let key = build_signing_key(c.secret.as_str(), "");
                proof {
                    reveal_strlit("");
                    assert(""@ =~= Seq::<char>::empty());
                }
                let sig = sign(base.as_str(), key.as_str());
                let hp = header_param_vec(
                    c.key.as_str(),
                    None,
                    self.callback.as_ref(),
                    nonce,
                    ts_text.as_str(),
                    sig.as_str(),
                );
                let hv = build_header_value(&hp);
                headers.push(("Authorization".to_owned(), hv));
            },
            OAuthAddOn::Full { consumer, access } => {
                let pp = protocol_param_vec(
                    consumer.key.as_str(),
                    Some(&access.key),
                    self.callback.as_ref(),
                    nonce,
                    ts_text.as_str(),
                );
                let all = concat_pairs(pp, &self.params);
                let base = build_base_string(self.method.as_str(), self.base_url.as_str(), all);
                let key = build_signing_key(consumer.secret.as_str(), access.secret.as_str());
                let sig = sign(base.as_str(), key.as_str());
                let hp = header_param_vec(
                    consumer.key.as_str(),
                    Some(&access.key),
                    self.callback.as_ref(),
                    nonce,
                    ts_text.as_str(),
                    sig.as_str(),
                );
                let hv = build_header_value(&hp);
                headers.push(("Authorization".to_owned(), hv));
            },
        }
        let body_out: Option<Vec<u8>> = match &self.body {
            Some(b) => {
                headers.push(("Content-Type".to_owned(), b.1.clone()));
                Some(copy_bytes(&b.0))
            },
            None => None,
        };
        Ok(OutgoingRequest { method: self.method, url, headers, body: body_out })
    }
}

} // verus!
