use vstd::prelude::*;

verus! {

/// A byte that the OAuth percent-encoding profile (RFC 5849 section 3.6)
/// leaves as it is: ASCII letters, digits, '-', '.', '_' and '~'.
pub open spec fn is_unreserved(b: u8) -> bool {
    (0x41 <= b && b <= 0x5a) || (0x61 <= b && b <= 0x7a) || (0x30 <= b && b <= 0x39)
        || b == 0x2d || b == 0x2e || b == 0x5f || b == 0x7e
}

/// Uppercase hexadecimal digit for one nibble.
pub open spec fn hex_char(n: u8) -> char
    recommends
        n < 16,
{
    if n < 10 {
        ((n + 0x30) as u8) as char
    } else {
        ((n + 0x37) as u8) as char
    }
}

/// The percent-encoded form of one byte: itself when unreserved,
/// otherwise '%' followed by two uppercase hex digits.
pub open spec fn encode_byte(b: u8) -> Seq<char> {
    if is_unreserved(b) {
        seq![b as char]
    } else {
        seq!['%', hex_char(b / 16), hex_char(b % 16)]
    }
}

/// Percent-encoding of a byte string, per the OAuth profile.
pub open spec fn pe_chars(s: Seq<u8>) -> Seq<char>
    decreases s.len(),
{
    if s.len() == 0 {
        Seq::empty()
    } else {
        encode_byte(s[0]) + pe_chars(s.skip(1))
    }
}

/// The characters with the same code points as the given ASCII bytes.
pub open spec fn chars_of(s: Seq<u8>) -> Seq<char> {
    s.map_values(|b: u8| b as char)
}

/// Percent-encoding of the UTF-8 bytes of a character string.
pub open spec fn pe_str(s: Seq<char>) -> Seq<char> {
    pe_chars(vstd::utf8::encode_utf8(s))
}

pub open spec fn is_hex_digit(c: char) -> bool {
    (48 <= c as int && c as int <= 57) || (65 <= c as int && c as int <= 70)
        || (97 <= c as int && c as int <= 102)
}

/// Value of one hexadecimal digit, upper or lower case.
pub open spec fn hex_val(c: char) -> u8
    recommends
        is_hex_digit(c),
{
    if c as int <= 57 {
        (c as int - 48) as u8
    } else if c as int <= 70 {
        (c as int - 55) as u8
    } else {
        (c as int - 87) as u8
    }
}

/// Percent-decoding. "%XY" with hex digits X, Y decodes to one byte;
/// any other ASCII character passes through as its own code point; a
/// character outside ASCII, a bare '%', or a non-hex escape is malformed.
pub open spec fn pd_chars(s: Seq<char>) -> Option<Seq<u8>>
    decreases s.len(),
{
    if s.len() == 0 {
        Some(Seq::empty())
    } else if s[0] == '%' {
        if s.len() >= 3 && is_hex_digit(s[1]) && is_hex_digit(s[2]) {
            match pd_chars(s.skip(3)) {
                Some(rest) => Some(seq![(16 * hex_val(s[1]) + hex_val(s[2])) as u8] + rest),
                None => None,
            }
        } else {
            None
        }
    } else if (s[0] as int) < 128 {
        match pd_chars(s.skip(1)) {
            Some(rest) => Some(seq![s[0] as u8] + rest),
            None => None,
        }
    } else {
        None
    }
}

/// Relies on String::from_utf8: bytes below 0x80 are valid UTF-8 and
/// decode to the characters with the same code points.
#[verifier::external_body]
pub(crate) fn string_from_ascii(v: Vec<u8>) -> (r: String)
    requires
        forall|i: int| 0 <= i < v@.len() ==> v@[i] < 128,
    ensures
        r@ == chars_of(v@),
{
    match String::from_utf8(v) {
        Ok(s) => s,
        Err(_) => String::new(),
    }
}

fn is_unreserved_exec(b: u8) -> (r: bool)
    ensures
        r == is_unreserved(b),
{
    (0x41 <= b && b <= 0x5a) || (0x61 <= b && b <= 0x7a) || (0x30 <= b && b <= 0x39)
        || b == 0x2d || b == 0x2e || b == 0x5f || b == 0x7e
}

fn hex_digit(n: u8) -> (c: u8)
    requires
        n < 16,
    ensures
        c as char == hex_char(n),
        c < 128,
{
    if n < 10 {
        n + 0x30
    } else {
        n + 0x37
    }
}

/// Percent-encode a byte string into its OAuth canonical text form.
pub fn percent_encode(input: &[u8]) -> (r: String)
    ensures
        r@ == pe_chars(input@),
{
    let mut out: Vec<u8> = Vec::new();
    let mut i: usize = 0;
    proof {
        assert(input@.skip(0) =~= input@);
        assert(chars_of(out@) =~= Seq::<char>::empty());
        assert(chars_of(out@) + pe_chars(input@) =~= pe_chars(input@));
    }
    while i < input.len()
        invariant
            i <= input@.len(),
            forall|j: int| 0 <= j < out@.len() ==> out@[j] < 128,
            chars_of(out@) + pe_chars(input@.skip(i as int)) == pe_chars(input@),
        decreases input@.len() - i,
    {
        let ghost prev = out@;
        let b = input[i];
        if is_unreserved_exec(b) {
            out.push(b);
            proof {
                assert(encode_byte(b) =~= seq![b as char]);
                assert(chars_of(out@) =~= chars_of(prev) + encode_byte(b));
            }
        } else {
            out.push(0x25);
            let h1 = hex_digit(b / 16);
            let h2 = hex_digit(b % 16);
            out.push(h1);
            out.push(h2);
            proof {
                assert((0x25 as u8) as char == '%');
                assert(out@ =~= prev + seq![0x25 as u8, h1, h2]);
                assert(encode_byte(b) =~= seq![(0x25 as u8) as char, h1 as char, h2 as char]);
                assert(chars_of(out@) =~= chars_of(prev) + encode_byte(b));
            }
        }
        proof {
            assert(input@.skip(i as int).skip(1) =~= input@.skip(i as int + 1));
            assert(input@.skip(i as int)[0] == input@[i as int]);
            assert(chars_of(prev) + encode_byte(b) + pe_chars(input@.skip(i as int + 1))
                =~= chars_of(prev) + (encode_byte(b) + pe_chars(input@.skip(i as int + 1))));
        }
        i += 1;
    }
    proof {
        assert(input@.skip(i as int) =~= Seq::<u8>::empty());
        assert(chars_of(out@) + pe_chars(input@.skip(i as int)) =~= chars_of(out@));
    }
    string_from_ascii(out)
}

fn is_hex_digit_exec(c: char) -> (r: bool)
    ensures
        r == is_hex_digit(c),
{
    let v = c as u32;
    (48 <= v && v <= 57) || (65 <= v && v <= 70) || (97 <= v && v <= 102)
}

fn hex_val_exec(c: char) -> (r: u8)
    requires
        is_hex_digit(c),
    ensures
        r == hex_val(c),
        r < 16,
{
    let v = c as u32;
    if v <= 57 {
        (v - 48) as u8
    } else if v <= 70 {
        (v - 55) as u8
    } else {
        (v - 87) as u8
    }
}

/// Percent-decode a text back into the byte string it encodes; `None`
/// when the text is not well-formed percent-encoded data.
pub fn percent_decode(s: &str) -> (r: Option<Vec<u8>>)
    ensures
        match r {
            Some(v) => pd_chars(s@) == Some(v@),
            None => pd_chars(s@) is None,
        },
{
    let n = s.unicode_len();
    let mut out: Vec<u8> = Vec::new();
    let mut i: usize = 0;
    proof {
        assert(s@.skip(0) =~= s@);
        if pd_chars(s@) is Some {
            assert(out@ + pd_chars(s@)->Some_0 =~= pd_chars(s@)->Some_0);
        }
    }
    while i < n
        invariant
            n == s@.len(),
            i <= n,
            match pd_chars(s@.skip(i as int)) {
                Some(rest) => pd_chars(s@) == Some(out@ + rest),
                None => pd_chars(s@) is None,
            },
        decreases n - i,
    {
        let ghost prev = out@;
        let c = s.get_char(i);
        if c == '%' {
            if n - i < 3 {
                return None;
            }
            let c1 = s.get_char(i + 1);
            let c2 = s.get_char(i + 2);
            if !is_hex_digit_exec(c1) || !is_hex_digit_exec(c2) {
                return None;
            }
            let b = 16 * hex_val_exec(c1) + hex_val_exec(c2);
            out.push(b);
            proof {
                assert(s@.skip(i as int).skip(3) =~= s@.skip(i as int + 3));
                assert(s@.skip(i as int)[0] == s@[i as int]);
                assert(s@.skip(i as int)[1] == s@[i as int + 1]);
                assert(s@.skip(i as int)[2] == s@[i as int + 2]);
                if pd_chars(s@.skip(i as int + 3)) is Some {
                    let rest = pd_chars(s@.skip(i as int + 3))->Some_0;
                    assert(prev + (seq![b] + rest) =~= out@ + rest);
                }
            }
            i += 3;
        } else {
            let v = c as u32;
            if v >= 128 {
                return None;
            }
            out.push(c as u8);
            proof {
                assert(s@.skip(i as int).skip(1) =~= s@.skip(i as int + 1));
                assert(s@.skip(i as int)[0] == s@[i as int]);
                if pd_chars(s@.skip(i as int + 1)) is Some {
                    let rest = pd_chars(s@.skip(i as int + 1))->Some_0;
                    assert(prev + (seq![c as u8] + rest) =~= out@ + rest);
                }
            }
            i += 1;
        }
    }
    proof {
        assert(s@.skip(i as int) =~= Seq::<char>::empty());
        assert(out@ + Seq::<u8>::empty() =~= out@);
    }
    Some(out)
}

proof fn lemma_hex_round(n: u8)
    requires
        n < 16,
    ensures
        is_hex_digit(hex_char(n)),
        hex_val(hex_char(n)) == n,
        hex_char(n) != '%',
        (hex_char(n) as int) < 128,
{
}

/// Law: percent-decoding inverts percent-encoding on every byte string.
pub proof fn lemma_percent_round_trip(s: Seq<u8>)
    ensures
        pd_chars(pe_chars(s)) == Some(s),
    decreases s.len(),
{
    if s.len() == 0 {
        assert(pe_chars(s) =~= Seq::<char>::empty());
        assert(Seq::<u8>::empty() =~= s);
    } else {
        lemma_percent_round_trip(s.skip(1));
        let b = s[0];
        let enc = pe_chars(s);
        let rest_enc = pe_chars(s.skip(1));
        assert(enc == encode_byte(b) + rest_enc);
        if is_unreserved(b) {
            assert(enc[0] == b as char);
            assert(enc[0] != '%' && (enc[0] as int) < 128);
            assert(enc.skip(1) =~= rest_enc);
            assert(enc[0] as u8 == b);
            assert(seq![b] + s.skip(1) =~= s);
        } else {
            lemma_hex_round(b / 16);
            lemma_hex_round(b % 16);
            assert(enc[0] == '%');
            assert(enc[1] == hex_char(b / 16));
            assert(enc[2] == hex_char(b % 16));
            assert(enc.skip(3) =~= rest_enc);
            assert(16 * (b / 16) + b % 16 == b);
            assert(seq![b] + s.skip(1) =~= s);
        }
    }
}

/// Decimal digit character for one digit value.
pub open spec fn digit_char(n: int) -> char
    recommends
        0 <= n < 10,
{
    ((n + 0x30) as u8) as char
}

/// Decimal text of a natural number, most significant digit first.
pub open spec fn dec_text(n: nat) -> Seq<char>
    decreases n,
{
    if n < 10 {
        seq![digit_char(n as int)]
    } else {
        dec_text(n / 10) + seq![digit_char((n % 10) as int)]
    }
}

fn u64_dec_bytes(n: u64) -> (r: Vec<u8>)
    ensures
        chars_of(r@) == dec_text(n as nat),
        forall|i: int| 0 <= i < r@.len() ==> r@[i] < 128,
    decreases n,
{
    if n < 10 {
        let mut v: Vec<u8> = Vec::new();
        v.push((n as u8) + 0x30);
        proof {
            assert(chars_of(v@) =~= dec_text(n as nat));
        }
        v
    } else {
        let mut v = u64_dec_bytes(n / 10);
        let ghost prev = v@;
        v.push(((n % 10) as u8) + 0x30);
        proof {
            assert(chars_of(v@) =~= chars_of(prev) + seq![digit_char((n % 10) as int)]);
        }
        v
    }
}

/// Decimal text of an unsigned number (used for OAuth timestamps).
pub fn u64_to_dec(n: u64) -> (r: String)
    ensures
        r@ == dec_text(n as nat),
{
    string_from_ascii(u64_dec_bytes(n))
}

} // verus!
