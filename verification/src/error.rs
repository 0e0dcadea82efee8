use vstd::prelude::*;
use crate::auth::{find_char, find_char_range, lemma_find_char, str_eq};
use crate::codec::{dec_text, u64_to_dec};

verus! {

/// Response headers, as plain name/value text pairs.
pub type Headers = Vec<(String, String)>;

/// One provider-side error entry out of an error response body.
#[derive(Debug)]
pub struct TwitterErrorCode {
    pub message: String,
    pub code: i32,
}

/// The authoritative provider-side error payload of a non-2xx response.
#[derive(Debug)]
pub struct TwitterErrors {
    pub errors: Vec<TwitterErrorCode>,
}

/// A failure while processing media.
#[derive(Debug)]
pub struct MediaError {
    pub code: i32,
    pub name: String,
    pub message: String,
}

/// The error taxonomy shared by signing, request building and the
/// token handshake. Failures of outside collaborators (transport, TLS,
/// decoding) arrive as their text descriptions.
#[derive(Debug)]
pub enum Error {
    /// The URL given did not match the API method.
    BadUrl,
    /// A malformed protocol response, with context and optional detail.
    InvalidResponse(&'static str, Option<String>),
    /// A required field was absent from a parsed response.
    MissingValue(&'static str),
    /// A one-shot builder or flow object was used again.
    FutureAlreadyCompleted,
    /// A non-2xx response carrying a structured provider error list.
    TwitterError(Headers, TwitterErrors),
    /// The rate limit was hit; holds the reset time (epoch seconds).
    RateLimit(i32),
    /// A media-processing failure reported by the provider.
    MediaError(MediaError),
    /// A non-2xx status without a structured provider error body.
    BadStatus(u16),
    /// A network-layer failure, by its description.
    NetError(String),
    /// A TLS-layer failure, by its description.
    TlsError(String),
    /// An I/O failure, by its description.
    IOError(String),
    /// A response-body deserialization failure, by its description.
    DeserializeError(String),
    /// A timestamp that could not be parsed, by its description.
    TimestampParseError(String),
    /// A timer-runtime shutdown, by its description.
    TimerShutdownError(String),
    /// A header that could not be decoded as text, by its description.
    HeaderParseError(String),
    /// A header that could not be converted to a number, by its description.
    HeaderConvertError(String),
}

/// The literal `l` stands in `s` at index `i`.
pub open spec fn lit(s: Seq<char>, i: int, l: Seq<char>) -> bool {
    0 <= i && i + l.len() <= s.len() && s.subrange(i, i + l.len()) == l
}

pub open spec fn is_digit(c: char) -> bool {
    48 <= c as int && c as int <= 57
}

/// End of the run of decimal digits starting at `i`.
pub open spec fn digits_end(s: Seq<char>, i: int) -> int
    decreases s.len() - i,
    when 0 <= i <= s.len()
{
    if i < s.len() && is_digit(s[i]) {
        digits_end(s, i + 1)
    } else {
        i
    }
}

pub proof fn lemma_digits_end(s: Seq<char>, i: int)
    requires
        0 <= i <= s.len(),
    ensures
        i <= digits_end(s, i) <= s.len(),
        forall|k: int| i <= k < digits_end(s, i) ==> is_digit(s[k]),
    decreases s.len() - i,
{
    if i < s.len() && is_digit(s[i]) {
        lemma_digits_end(s, i + 1);
    }
}

/// Value of the digit run `s[i..j)`, most significant digit first.
pub open spec fn digits_val(s: Seq<char>, i: int, j: int) -> int
    decreases j - i,
    when i <= j
{
    if i >= j {
        0
    } else {
        digits_val(s, i, j - 1) * 10 + (s[j - 1] as int - 48)
    }
}

pub open spec fn pow10(n: nat) -> int
    decreases n,
{
    if n == 0 {
        1
    } else {
        10 * pow10((n - 1) as nat)
    }
}

proof fn json_lit_lens()
    ensures
        "{\"code\":"@.len() == 8,
        ",\"message\":\""@.len() == 12,
        "}"@.len() == 1,
        ","@.len() == 1,
        "{\"errors\":["@.len() == 11,
        "]}"@.len() == 2,
{
    reveal_strlit("{\"code\":");
    reveal_strlit(",\"message\":\"");
    reveal_strlit("}");
    reveal_strlit(",");
    reveal_strlit("{\"errors\":[");
    reveal_strlit("]}");
}

/// One entry of the provider error array:
/// `{"code":<digits>,"message":"<text>"}` with no spaces and no string
/// escapes; at most nine digits of code. Yields code, message, and the
/// index just past the entry.
pub open spec fn parse_item(s: Seq<char>, i: int) -> Option<(int, Seq<char>, int)> {
    if !lit(s, i, "{\"code\":"@) {
        None
    } else {
        let d0 = i + 8;
        let d1 = digits_end(s, d0);
        if d1 == d0 || d1 - d0 > 9 {
            None
        } else if !lit(s, d1, ",\"message\":\""@) {
            None
        } else {
            let m0 = d1 + 12;
            match find_char(s.skip(m0), '"') {
                None => None,
                Some(q) => {
                    if lit(s, m0 + q + 1, "}"@) {
                        Some((digits_val(s, d0, d1), s.subrange(m0, m0 + q), m0 + q + 2))
                    } else {
                        None
                    }
                },
            }
        }
    }
}

pub proof fn lemma_parse_item_bounds(s: Seq<char>, i: int)
    requires
        0 <= i <= s.len(),
    ensures
        match parse_item(s, i) {
            Some(t) => i < t.2 <= s.len(),
            None => true,
        },
{
    json_lit_lens();
    if lit(s, i, "{\"code\":"@) {
        assert(i + 8 <= s.len());
        lemma_digits_end(s, i + 8);
        let d1 = digits_end(s, i + 8);
        if d1 != i + 8 && d1 - (i + 8) <= 9 && lit(s, d1, ",\"message\":\""@) {
            assert(d1 + 12 <= s.len());
            lemma_find_char(s.skip(d1 + 12), '"');
        }
    }
}

/// One or more comma-separated entries starting at `i`: the parsed
/// entries and the index just past the last one.
pub open spec fn parse_items(s: Seq<char>, i: int) -> Option<(Seq<(int, Seq<char>)>, int)>
    decreases s.len() - i,
    when 0 <= i <= s.len()
    via parse_items_dec
{
    match parse_item(s, i) {
        None => None,
        Some((c, m, j)) => {
            if lit(s, j, ","@) && j + 1 <= s.len() {
                match parse_items(s, j + 1) {
                    None => None,
                    Some((rest, k)) => Some((seq![(c, m)] + rest, k)),
                }
            } else {
                Some((seq![(c, m)], j))
            }
        },
    }
}

#[via_fn]
proof fn parse_items_dec(s: Seq<char>, i: int) {
    if 0 <= i <= s.len() {
        lemma_parse_item_bounds(s, i);
    }
}

/// The provider error payload `{"errors":[...]}`: the whole body must
/// be exactly this shape (no surrounding whitespace) to be recognized.
pub open spec fn parse_errors_spec(s: Seq<char>) -> Option<Seq<(int, Seq<char>)>> {
    if !lit(s, 0, "{\"errors\":["@) {
        None
    } else if lit(s, 11, "]}"@) && s.len() == 13 {
        Some(Seq::empty())
    } else {
        match parse_items(s, 11) {
            None => None,
            Some((items, j)) => {
                if lit(s, j, "]}"@) && j + 2 == s.len() {
                    Some(items)
                } else {
                    None
                }
            },
        }
    }
}

pub open spec fn errs_views(s: Seq<TwitterErrorCode>) -> Seq<(int, Seq<char>)> {
    s.map_values(|e: TwitterErrorCode| (e.code as int, e.message@))
}

fn has_lit(s: &str, n: usize, i: usize, l: &str) -> (r: bool)
    requires
        n == s@.len(),
        i <= n,
    ensures
        r == lit(s@, i as int, l@),
{
    let ll = l.unicode_len();
    if ll > n - i {
        return false;
    }
    let sub = s.substring_char(i, i + ll);
    str_eq(sub, l)
}

fn scan_digits(s: &str, n: usize, i: usize) -> (r: usize)
    requires
        n == s@.len(),
        i <= n,
    ensures
        r == digits_end(s@, i as int),
        i <= r <= n,
{
    let mut j = i;
    let mut done = false;
    while !done
        invariant
            n == s@.len(),
            i <= j <= n,
            !done ==> digits_end(s@, i as int) == digits_end(s@, j as int),
            done ==> digits_end(s@, i as int) == j,
        decreases (if done { 0int } else { 1int }), n - j,
    {
        if j < n {
            let c = s.get_char(j);
            let v = c as u32;
            if 48 <= v && v <= 57 {
                j += 1;
            } else {
                done = true;
            }
        } else {
            done = true;
        }
    }
    j
}

fn digits_value(s: &str, n: usize, i: usize, j: usize) -> (r: u32)
    requires
        n == s@.len(),
        i <= j <= n,
        j - i <= 9,
        forall|k: int| i <= k < j ==> is_digit(s@[k]),
    ensures
        r == digits_val(s@, i as int, j as int),
        r < 1000000000,
{
    proof {
        assert(pow10(0) == 1);
        assert(pow10(1) == 10);
        assert(pow10(2) == 100);
        assert(pow10(3) == 1000);
        assert(pow10(4) == 10000);
        assert(pow10(5) == 100000);
        assert(pow10(6) == 1000000);
        assert(pow10(7) == 10000000);
        assert(pow10(8) == 100000000);
        assert(pow10(9) == 1000000000);
    }
    let mut k = i;
    let mut acc: u32 = 0;
    while k < j
        invariant
            n == s@.len(),
            i <= k <= j <= n,
            j - i <= 9,
            forall|t: int| i <= t < j ==> is_digit(s@[t]),
            acc == digits_val(s@, i as int, k as int),
            acc < pow10((k - i) as nat),
        decreases j - k,
    {
        let c = s.get_char(k);
        proof {
            assert(is_digit(s@[k as int]));
        }
        let d = (c as u32) - 48;
        proof {
            assert(pow10(0) == 1);
            assert(pow10(1) == 10);
            assert(pow10(2) == 100);
            assert(pow10(3) == 1000);
            assert(pow10(4) == 10000);
            assert(pow10(5) == 100000);
            assert(pow10(6) == 1000000);
            assert(pow10(7) == 10000000);
            assert(pow10(8) == 100000000);
            let dd = (k - i) as nat;
            if dd == 0 {
                assert(acc < 1);
            } else if dd == 1 {
                assert(acc < 10);
            } else if dd == 2 {
                assert(acc < 100);
            } else if dd == 3 {
                assert(acc < 1000);
            } else if dd == 4 {
                assert(acc < 10000);
            } else if dd == 5 {
                assert(acc < 100000);
            } else if dd == 6 {
                assert(acc < 1000000);
            } else if dd == 7 {
                assert(acc < 10000000);
            } else {
                assert(dd == 8);
                assert(acc < 100000000);
            }
            assert(acc < 100000000);
            assert(pow10((dd + 1) as nat) == 10 * pow10(dd));
        }
        acc = acc * 10 + d;
        k += 1;
    }
    proof {
        let d = (j - i) as nat;
        if d == 0 {
            assert(pow10(d) == 1);
        } else if d == 1 {
            assert(pow10(d) == 10);
        } else if d == 2 {
            assert(pow10(d) == 100);
        } else if d == 3 {
            assert(pow10(d) == 1000);
        } else if d == 4 {
            assert(pow10(d) == 10000);
        } else if d == 5 {
            assert(pow10(d) == 100000);
        } else if d == 6 {
            assert(pow10(d) == 1000000);
        } else if d == 7 {
            assert(pow10(d) == 10000000);
        } else if d == 8 {
            assert(pow10(d) == 100000000);
        } else {
            assert(d == 9);
            assert(pow10(d) == 1000000000);
        }
    }
    acc
}

fn parse_item_exec(s: &str, n: usize, i: usize) -> (r: Option<(i32, String, usize)>)
    requires
        n == s@.len(),
        i <= n,
    ensures
        match r {
            Some(t) => parse_item(s@, i as int) == Some((t.0 as int, t.1@, t.2 as int)) && i
                < t.2 <= n,
            None => parse_item(s@, i as int) is None,
        },
{
    proof {
        json_lit_lens();
    }
    if !has_lit(s, n, i, "{\"code\":") {
        return None;
    }
    let d0 = i + 8;
    let d1 = scan_digits(s, n, d0);
    proof {
        lemma_digits_end(s@, d0 as int);
    }
    if d1 == d0 || d1 - d0 > 9 {
        return None;
    }
    let code = digits_value(s, n, d0, d1);
    if !has_lit(s, n, d1, ",\"message\":\"") {
        return None;
    }
    let m0 = d1 + 12;
    let q = find_char_range(s, m0, n, '"');
    proof {
        assert(s@.subrange(m0 as int, n as int) =~= s@.skip(m0 as int));
        lemma_find_char(s@.skip(m0 as int), '"');
    }
    if q == n {
        return None;
    }
    let msg = s.substring_char(m0, q).to_owned();
    if !has_lit(s, n, q + 1, "}") {
        return None;
    }
    proof {
        assert(s@.subrange(m0 as int, q as int) == s@.subrange(
            m0 as int,
            m0 as int + (q - m0),
        ));
    }
    Some((code as i32, msg, q + 2))
}

/// Recognize the provider error payload `{"errors":[{"code":N,
/// "message":"..."}, ...]}` (compact form, no string escapes) and
/// return the entries it carries; `None` for any other body.
pub fn parse_twitter_errors(body: &str) -> (r: Option<TwitterErrors>)
    ensures
        match r {
            Some(t) => parse_errors_spec(body@) == Some(errs_views(t.errors@)),
            None => parse_errors_spec(body@) is None,
        },
{
    let n = body.unicode_len();
    proof {
        json_lit_lens();
    }
    if !has_lit(body, n, 0, "{\"errors\":[") {
        return None;
    }
    if has_lit(body, n, 11, "]}") && n == 13 {
        let t = TwitterErrors { errors: Vec::new() };
        proof {
            assert(errs_views(t.errors@) =~= Seq::<(int, Seq<char>)>::empty());
        }
        return Some(t);
    }
    let mut items: Vec<TwitterErrorCode> = Vec::new();
    let mut cur: usize = 11;
    let mut done = false;
    proof {
        assert(errs_views(items@) =~= Seq::<(int, Seq<char>)>::empty());
        if parse_items(body@, 11) is Some {
            let t = parse_items(body@, 11)->Some_0;
            assert(errs_views(items@) + t.0 =~= t.0);
        }
    }
    while !done
        invariant
            n == body@.len(),
            11 <= cur <= n,
            lit(body@, 0, "{\"errors\":["@),
            !(lit(body@, 11, "]}"@) && n == 13),
            !done ==> match parse_items(body@, cur as int) {
                Some(t) => parse_items(body@, 11) == Some(
                    (errs_views(items@) + t.0, t.1),
                ),
                None => parse_items(body@, 11) is None,
            },
            done ==> parse_items(body@, 11) == Some((errs_views(items@), cur as int)),
        decreases (if done { 0int } else { 1int }), n - cur,
    {
        let ghost items0 = errs_views(items@);
        let ghost cur0: int = cur as int;
        proof {
            json_lit_lens();
        }
        match parse_item_exec(body, n, cur) {
            None => {
                return None;
            },
            Some((c, m, j)) => {
                let ghost e = (c as int, m@);
                items.push(TwitterErrorCode { code: c, message: m });
                proof {
                    assert(errs_views(items@) =~= items0 + seq![e]);
                }
                if has_lit(body, n, j, ",") && j + 1 <= n {
                    proof {
                        if parse_items(body@, j as int + 1) is Some {
                            let t = parse_items(body@, j as int + 1)->Some_0;
                            assert(parse_items(body@, cur0) == Some((seq![e] + t.0, t.1)));
                            assert(items0 + (seq![e] + t.0) =~= (items0 + seq![e]) + t.0);
                        }
                    }
                    cur = j + 1;
                } else {
                    proof {
                        assert(parse_items(body@, cur0) == Some((seq![e], j as int)));
                        assert(items0 + seq![e] =~= errs_views(items@));
                    }
                    cur = j;
                    done = true;
                }
            },
        }
    }
    if has_lit(body, n, cur, "]}") && cur + 2 == n {
        Some(TwitterErrors { errors: items })
    } else {
        None
    }
}

/// The reset time of one header, when it is `x-rate-limit-reset` with
/// a plain decimal value of at most nine digits.
pub open spec fn header_reset(h: (String, String)) -> Option<int> {
    if h.0@ == "x-rate-limit-reset"@ && 1 <= h.1@.len() <= 10 && digits_end(h.1@, 0)
        == h.1@.len() && digits_val(h.1@, 0, h.1@.len() as int) <= 0x7fffffff {
        Some(digits_val(h.1@, 0, h.1@.len() as int))
    } else {
        None
    }
}

/// The first rate-limit reset time among the headers, if any.
pub open spec fn reset_of(hs: Seq<(String, String)>) -> Option<int>
    decreases hs.len(),
{
    if hs.len() == 0 {
        None
    } else {
        match header_reset(hs[0]) {
            Some(v) => Some(v),
            None => reset_of(hs.skip(1)),
        }
    }
}

fn find_rate_limit_reset(headers: &Headers) -> (r: Option<i32>)
    ensures
        match r {
            Some(v) => reset_of(headers@) == Some(v as int),
            None => reset_of(headers@) is None,
        },
{
    let mut i: usize = 0;
    proof {
        assert(headers@.skip(0) =~= headers@);
    }
    while i < headers.len()
        invariant
            i <= headers@.len(),
            reset_of(headers@) == reset_of(headers@.skip(i as int)),
        decreases headers@.len() - i,
    {
        proof {
            assert(headers@.skip(i as int)[0] == headers@[i as int]);
            assert(headers@.skip(i as int).skip(1) =~= headers@.skip(i as int + 1));
        }
        if str_eq(headers[i].0.as_str(), "x-rate-limit-reset") {
            let v = headers[i].1.as_str();
            let n = v.unicode_len();
            let de = scan_digits(v, n, 0);
            if 1 <= n && n <= 10 && de == n {
                proof {
                    lemma_digits_end(v@, 0);
                }
                let val: u64 = if n <= 9 {
                    digits_value(v, n, 0, n) as u64
                } else {
                    let hi = digits_value(v, n, 0, 9);
                    let c = v.get_char(9);
                    proof {
                        assert(is_digit(v@[9]));
                        assert(digits_val(v@, 0, 10) == digits_val(v@, 0, 9) * 10 + (
                        v@[9] as int - 48));
                    }
                    let d = (c as u32) - 48;
                    (hi as u64) * 10 + (d as u64)
                };
                if val <= 0x7fffffff {
                    proof {
                        assert(header_reset(headers@[i as int]) == Some(val as int));
                    }
                    return Some(val as i32);
                }
                proof {
                    assert(header_reset(headers@[i as int]) is None);
                }
            } else {
                proof {
                    assert(header_reset(headers@[i as int]) is None);
                }
            }
        }
        i += 1;
    }
    proof {
        assert(headers@.skip(i as int) =~= Seq::<(String, String)>::empty());
    }
    None
}

/// Classify a transport response: 2xx passes; a 429 carrying a readable
/// `x-rate-limit-reset` header becomes a rate-limit error with the
/// reset time; any other non-2xx whose body is the provider error shape
/// becomes a structured provider error carrying the headers; the rest
/// is a bare bad status.
pub fn classify_response(status: u16, headers: Headers, body: &str) -> (r: Result<(), Error>)
    ensures
        200 <= status < 300 ==> r is Ok,
        !(200 <= status < 300) ==> (r matches Err(e) && (if status == 429 && reset_of(headers@)
            is Some {
            e matches Error::RateLimit(t) && Some(t as int) == reset_of(headers@)
        } else {
            match parse_errors_spec(body@) {
                Some(items) => e matches Error::TwitterError(h, t) && h@ == headers@
                    && errs_views(t.errors@) == items,
                None => e matches Error::BadStatus(st) && st == status,
            }
        })),
{
    if 200 <= status && status < 300 {
        return Ok(());
    }
    if status == 429 {
        match find_rate_limit_reset(&headers) {
            Some(reset) => {
                return Err(Error::RateLimit(reset));
            },
            None => {},
        }
    }
    match parse_twitter_errors(body) {
        Some(t) => Err(Error::TwitterError(headers, t)),
        None => Err(Error::BadStatus(status)),
    }
}

/// Decimal text of an integer, with a leading '-' when negative.
pub open spec fn int_text(n: int) -> Seq<char> {
    if n < 0 {
        "-"@ + dec_text((-n) as nat)
    } else {
        dec_text(n as nat)
    }
}

fn i32_to_dec(n: i32) -> (r: String)
    ensures
        r@ == int_text(n as int),
{
    if n < 0 {
        let m = (-(n as i64)) as u64;
        let mut r = "-".to_owned();
        let d = u64_to_dec(m);
        r.append(d.as_str());
        r
    } else {
        u64_to_dec(n as u64)
    }
}

/// The rendering of one provider error entry: `#code: message`.
pub open spec fn code_text(code: int, message: Seq<char>) -> Seq<char> {
    "#"@ + int_text(code) + ": "@ + message
}

impl TwitterErrorCode {
    /// Render this entry as `#code: message`.
    pub fn to_message(&self) -> (r: String)
        ensures
            r@ == code_text(self.code as int, self.message@),
    {
        let mut r = "#".to_owned();
        let d = i32_to_dec(self.code);
        r.append(d.as_str());
        r.append(": ");
        r.append(self.message.as_str());
        r
    }
}

/// The rendering of a provider error list: entries joined by ",\n".
pub open spec fn errors_text(s: Seq<(int, Seq<char>)>) -> Seq<char>
    decreases s.len(),
{
    if s.len() == 0 {
        Seq::empty()
    } else if s.len() == 1 {
        code_text(s[0].0, s[0].1)
    } else {
        errors_text(s.drop_last()) + ",\n"@ + code_text(s.last().0, s.last().1)
    }
}

impl TwitterErrors {
    /// Render every entry, joined by ",\n".
    pub fn to_message(&self) -> (r: String)
        ensures
            r@ == errors_text(errs_views(self.errors@)),
    {
        let ghost s = errs_views(self.errors@);
        let mut r = String::new();
        let mut i: usize = 0;
        proof {
            assert(r@ =~= errors_text(s.take(0)));
        }
        while i < self.errors.len()
            invariant
                i <= self.errors@.len(),
                s == errs_views(self.errors@),
                r@ == errors_text(s.take(i as int)),
            decreases self.errors@.len() - i,
        {
            if i > 0 {
                r.append(",\n");
            }
            let m = self.errors[i].to_message();
            r.append(m.as_str());
            proof {
                assert(s.take(i as int + 1).drop_last() =~= s.take(i as int));
                assert(s.take(i as int + 1).last() == s[i as int]);
                let ghost ii = i as int;
                assert(s[ii] == (self.errors@[ii].code as int, self.errors@[ii].message@));
            }
            i += 1;
        }
        proof {
            assert(s.take(i as int) =~= s);
        }
        r
    }
}

} // verus!
