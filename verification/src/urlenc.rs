//! Percent-encoding of free-text query values.
//!
//! Encoding is done by the `urlencoding` crate behind a trusted wrapper;
//! its result is pinned down exactly: every byte of the text's UTF-8 form
//! outside the unreserved set becomes `%` followed by two uppercase
//! hexadecimal digits.  Decoding is implemented and verified here, and
//! encoding followed by decoding provably returns the original text.

use vstd::prelude::*;
use vstd::string::*;
use vstd::utf8::{
    decode_utf8, encode_scalar, encode_utf8, encode_utf8_decode_utf8, encode_utf8_valid_utf8,
    is_scalar, valid_utf8,
};

verus! {

/// True of the bytes that percent-encoding passes through unchanged:
/// ASCII alphanumerics and `-`, `.`, `_`, `~`.
pub open spec fn is_unreserved(b: u8) -> bool {
    ||| 48 <= b <= 57  // '0' ..= '9'
    ||| 65 <= b <= 90  // 'A' ..= 'Z'
    ||| 97 <= b <= 122  // 'a' ..= 'z'
    ||| b == 45  // '-'
    ||| b == 46  // '.'
    ||| b == 95  // '_'
    ||| b == 126  // '~'

}

/// The uppercase hexadecimal digit for a value below 16.
pub open spec fn spec_hex_digit(v: int) -> char
    recommends
        0 <= v < 16,
{
    if v < 10 {
        (48 + v) as char  // '0' + v
    } else {
        (55 + v) as char  // 'A' + v - 10
    }
}

/// The percent-encoding of one byte: unreserved bytes stand for themselves,
/// every other byte becomes `%` and two uppercase hexadecimal digits.
pub open spec fn enc_byte(b: u8) -> Seq<char> {
    if is_unreserved(b) {
        seq![b as char]
    } else {
        seq!['%', spec_hex_digit(b as int / 16), spec_hex_digit(b as int % 16)]
    }
}

/// The percent-encoding of a byte sequence.
pub open spec fn enc_bytes(bs: Seq<u8>) -> Seq<char>
    decreases bs.len(),
{
    if bs.len() == 0 {
        Seq::empty()
    } else {
        enc_byte(bs[0]) + enc_bytes(bs.drop_first())
    }
}

/// The percent-encoding of a text: the encoding of its UTF-8 bytes.
pub open spec fn percent_encoded(s: Seq<char>) -> Seq<char> {
    enc_bytes(encode_utf8(s))
}

/// The value of a hexadecimal digit character, upper or lower case.
pub open spec fn hex_val(c: char) -> Option<u8> {
    if 48 <= c as int <= 57 {
        Some((c as int - 48) as u8)
    } else if 65 <= c as int <= 70 {
        Some((c as int - 55) as u8)
    } else if 97 <= c as int <= 102 {
        Some((c as int - 87) as u8)
    } else {
        None
    }
}

/// Percent-decoding of a character sequence into bytes.  A `%` must be
/// followed by two hexadecimal digits and yields the byte they spell;
/// any other character contributes its own UTF-8 bytes.
pub open spec fn dec_chars(s: Seq<char>) -> Option<Seq<u8>>
    decreases s.len(),
{
    if s.len() == 0 {
        Some(Seq::empty())
    } else if s[0] == '%' {
        if s.len() >= 3 {
            match (hex_val(s[1]), hex_val(s[2])) {
                (Some(h), Some(l)) => match dec_chars(s.skip(3)) {
                    Some(rest) => Some(seq![((h as int) * 16 + l as int) as u8] + rest),
                    None => None,
                },
                _ => None,
            }
        } else {
            None
        }
    } else {
        match dec_chars(s.drop_first()) {
            Some(rest) => Some(encode_scalar(s[0] as u32) + rest),
            None => None,
        }
    }
}

/// Percent-decoding of a text: its characters decoded to bytes, and the
/// bytes read back as UTF-8.
pub open spec fn percent_decoded(s: Seq<char>) -> Option<Seq<char>> {
    match dec_chars(s) {
        Some(bs) => if valid_utf8(bs) {
            Some(decode_utf8(bs))
        } else {
            None
        },
        None => None,
    }
}

/// Relies on `urlencoding::encode`: it percent-encodes every byte of the
/// argument's UTF-8 form except ASCII alphanumerics and `-`, `.`, `_`, `~`,
/// writing `%` and two uppercase hexadecimal digits for each encoded byte.
#[verifier::external_body]
fn encode_with_crate(s: &str) -> (r: String)
    ensures
        r@ == percent_encoded(s@),
{
    urlencoding::encode(s).into_owned()
}

/// Relies on `String::from_utf8`: it returns the string whose UTF-8
/// encoding is the given byte sequence, and fails exactly when the bytes
/// are not valid UTF-8.
#[verifier::external_body]
fn string_from_utf8(bytes: Vec<u8>) -> (r: Option<String>)
    ensures
        r matches Some(t) ==> encode_utf8(t@) == bytes@,
        r is Some <==> valid_utf8(bytes@),
{
    match String::from_utf8(bytes) {
        Ok(t) => Some(t),
        Err(_) => None,
    }
}

/// Percent-encode a free-text value for use in a URL query parameter.
pub fn encode_component(s: &str) -> (r: String)
    ensures
        r@ == percent_encoded(s@),
{
    encode_with_crate(s)
}

/// The value of a hexadecimal digit character, upper or lower case.
pub(crate) fn hex_value(c: char) -> (r: Option<u8>)
    ensures
        r == hex_val(c),
{
    let u = c as u32;
    if c >= '0' && c <= '9' {
        Some((u - 48) as u8)
    } else if c >= 'A' && c <= 'F' {
        Some((u - 55) as u8)
    } else if c >= 'a' && c <= 'f' {
        Some((u - 87) as u8)
    } else {
        None
    }
}

/// Append the UTF-8 bytes of one character.
fn push_utf8(out: &mut Vec<u8>, c: char)
    ensures
        final(out)@ == old(out)@ + encode_scalar(c as u32),
{
    proof {
        vstd::utf8::char_is_scalar(c);
    }
    let ghost pre = out@;
    let u = c as u32;
    if u <= 0x7F {
        out.push((u & 0x7F) as u8);
    } else if u <= 0x7FF {
        out.push(0xC0 | ((u >> 6) & 0x1F) as u8);
        out.push(0x80 | (u & 0x3F) as u8);
    } else if u <= 0xFFFF {
        out.push(0xE0 | ((u >> 12) & 0x0F) as u8);
        out.push(0x80 | ((u >> 6) & 0x3F) as u8);
        out.push(0x80 | (u & 0x3F) as u8);
    } else {
        out.push(0xF0 | ((u >> 18) & 0x7) as u8);
        out.push(0x80 | ((u >> 12) & 0x3F) as u8);
        out.push(0x80 | ((u >> 6) & 0x3F) as u8);
        out.push(0x80 | (u & 0x3F) as u8);
    }
    proof {
        assert((u >> 6) & 0x1F < 256 && (u >> 12) & 0x0F < 256 && (u >> 6) & 0x3F < 256 && (u
            >> 18) & 0x7 < 256 && (u >> 12) & 0x3F < 256 && u & 0x3F < 256 && u & 0x7F
            < 256) by (bit_vector);
        assert(out@ =~= pre + encode_scalar(c as u32));
    }
}

/// Percent-decode a text.  Returns `None` when a `%` is not followed by two
/// hexadecimal digits, or when the decoded bytes are not valid UTF-8.
pub fn percent_decode(s: &str) -> (r: Option<String>)
    ensures
        r matches Some(t) ==> percent_decoded(s@) == Some(t@),
        r is None ==> percent_decoded(s@) is None,
{
    let n = s.unicode_len();
    let mut out: Vec<u8> = Vec::new();
    let mut i: usize = 0;
    proof {
        assert(s@.skip(0) =~= s@);
        match dec_chars(s@) {
            Some(rest) => {
                assert(out@ + rest =~= rest);
            },
            None => {},
        }
    }
    while i < n
        invariant
            0 <= i <= n == s@.len(),
            match dec_chars(s@.skip(i as int)) {
                Some(rest) => dec_chars(s@) == Some(out@ + rest),
                None => dec_chars(s@) is None,
            },
        decreases n - i,
    {
        let ghost tail = s@.skip(i as int);
        proof {
            assert(tail.len() > 0);
            assert(tail[0] == s@[i as int]);
        }
        let c = s.get_char(i);
        if c == '%' {
            if n - i < 3 {
                proof {
                    assert(dec_chars(tail) is None);
                }
                return None;
            }
            let h = hex_value(s.get_char(i + 1));
            let l = hex_value(s.get_char(i + 2));
            proof {
                assert(tail[1] == s@[i + 1]);
                assert(tail[2] == s@[i + 2]);
            }
            match (h, l) {
                (Some(hv), Some(lv)) => {
                    proof {
                        assert(hv < 16 && lv < 16);
                    }
                    let ghost pre = out@;
                    out.push(hv * 16 + lv);
                    i = i + 3;
                    proof {
                        assert(tail.skip(3) =~= s@.skip(i as int));
                        match dec_chars(s@.skip(i as int)) {
                            Some(rest) => {
                                assert(dec_chars(tail) == Some(
                                    seq![((hv as int) * 16 + lv as int) as u8] + rest,
                                ));
                                assert(pre + (seq![((hv as int) * 16 + lv as int) as u8] + rest)
                                    =~= out@ + rest);
                            },
                            None => {
                                assert(dec_chars(tail) is None);
                            },
                        }
                    }
                },
                _ => {
                    proof {
                        assert(dec_chars(tail) is None);
                    }
                    return None;
                },
            }
        } else {
            let ghost pre = out@;
            push_utf8(&mut out, c);
            i = i + 1;
            proof {
                assert(tail.drop_first() =~= s@.skip(i as int));
                match dec_chars(s@.skip(i as int)) {
                    Some(rest) => {
                        assert(dec_chars(tail) == Some(encode_scalar(c as u32) + rest));
                        assert(pre + (encode_scalar(c as u32) + rest) =~= out@ + rest);
                    },
                    None => {
                        assert(dec_chars(tail) is None);
                    },
                }
            }
        }
    }
    proof {
        assert(s@.skip(n as int) =~= Seq::<char>::empty());
        assert(dec_chars(s@.skip(n as int)) == Some(Seq::<u8>::empty()));
        assert(out@ + Seq::<u8>::empty() =~= out@);
    }
    match string_from_utf8(out) {
        Some(t) => {
            proof {
                encode_utf8_decode_utf8(t@);
            }
            Some(t)
        },
        None => None,
    }
}

/// One byte decodes back from its own percent-encoding, ahead of any rest.
proof fn lemma_dec_enc_byte(b: u8, rest: Seq<char>, bs: Seq<u8>)
    requires
        dec_chars(rest) == Some(bs),
    ensures
        dec_chars(enc_byte(b) + rest) == Some(seq![b] + bs),
{
    let s = enc_byte(b) + rest;
    if is_unreserved(b) {
        assert(s[0] == b as char);
        assert(s[0] != '%');
        assert(s.drop_first() =~= rest);
        assert(b as u32 <= 0x7F);
        assert((b as char) as u32 == b as u32);
        let u = b as u32;
        assert(u & 0x7F == u) by (bit_vector)
            requires
                u <= 0x7F,
        ;
        assert(encode_scalar((b as char) as u32) =~= seq![b]);
        assert(dec_chars(s) == Some(encode_scalar(s[0] as u32) + bs));
        assert(encode_scalar(s[0] as u32) + bs =~= seq![b] + bs);
    } else {
        assert(s[0] == '%');
        assert(s.len() >= 3);
        let h = b as int / 16;
        let l = b as int % 16;
        assert(0 <= h < 16 && 0 <= l < 16);
        assert(s[1] == spec_hex_digit(h));
        assert(s[2] == spec_hex_digit(l));
        assert(hex_val(spec_hex_digit(h)) == Some(h as u8));
        assert(hex_val(spec_hex_digit(l)) == Some(l as u8));
        assert(s.skip(3) =~= rest);
        assert(h * 16 + l == b as int);
        assert(dec_chars(s) == Some(seq![(h * 16 + l) as u8] + bs));
        assert(seq![(h * 16 + l) as u8] + bs =~= seq![b] + bs);
    }
}

/// A byte sequence decodes back from its own percent-encoding.
proof fn lemma_dec_enc_bytes(bs: Seq<u8>)
    ensures
        dec_chars(enc_bytes(bs)) == Some(bs),
    decreases bs.len(),
{
    if bs.len() == 0 {
        assert(enc_bytes(bs) =~= Seq::<char>::empty());
        assert(dec_chars(enc_bytes(bs)) == Some(Seq::<u8>::empty()));
        assert(bs =~= Seq::<u8>::empty());
    } else {
        let rest = bs.drop_first();
        lemma_dec_enc_bytes(rest);
        lemma_dec_enc_byte(bs[0], enc_bytes(rest), rest);
        assert(seq![bs[0]] + rest =~= bs);
    }
}

/// Percent-encoding round-trips: decoding the encoding of any text yields
/// the text itself.
pub proof fn lemma_percent_round_trip(q: Seq<char>)
    ensures
        percent_decoded(percent_encoded(q)) == Some(q),
{
    lemma_dec_enc_bytes(encode_utf8(q));
    encode_utf8_valid_utf8(q);
    encode_utf8_decode_utf8(q);
}

} // verus!
