//! A verified parser for JSON texts: objects, arrays, strings with escapes,
//! numbers, booleans and null.  Numeric values are validated against the
//! grammar but not retained: no caller reads them.
//!
//! The grammar is written down once as specification functions over the
//! character sequence; the executable parser is proved to return exactly
//! what the specification says, token for token.

use vstd::prelude::*;
use vstd::string::*;

use crate::strutil::push_char;
use crate::urlenc::hex_val;

verus! {

broadcast use vstd::std_specs::vec::group_vec_axioms, vstd::seq::axiom_seq_index_decreases, vstd::seq::axiom_seq_subrange_decreases;

/// A JSON value, as the specification sees it.
pub enum JsonV {
    Null,
    Bool(bool),
    /// A numeric value; the grammar is checked but the value is not kept.
    Num,
    Str(Seq<char>),
    Arr(Seq<JsonV>),
    Obj(Seq<(Seq<char>, JsonV)>),
}

/// A parsed JSON value.
pub enum JsonValue {
    Null,
    Bool(bool),
    /// A numeric value; the grammar is checked but the value is not kept.
    Num,
    Str(String),
    Arr(Vec<JsonValue>),
    Obj(Vec<(String, JsonValue)>),
}

/// What a parsed value stands for: its strings replaced by their character
/// sequences.
pub open spec fn jv(x: JsonValue) -> JsonV
    decreases x,
{
    match x {
        JsonValue::Null => JsonV::Null,
        JsonValue::Bool(b) => JsonV::Bool(b),
        JsonValue::Num => JsonV::Num,
        JsonValue::Str(s) => JsonV::Str(s@),
        JsonValue::Arr(v) => JsonV::Arr(jv_seq(v@)),
        JsonValue::Obj(v) => JsonV::Obj(jv_members(v@)),
    }
}

/// [`jv`], element by element.
pub open spec fn jv_seq(s: Seq<JsonValue>) -> Seq<JsonV>
    decreases s,
{
    if s.len() == 0 {
        Seq::empty()
    } else {
        seq![jv(s[0])] + jv_seq(s.drop_first())
    }
}

/// [`jv`], member by member.
pub open spec fn jv_members(s: Seq<(String, JsonValue)>) -> Seq<(Seq<char>, JsonV)>
    decreases s,
{
    if s.len() == 0 {
        Seq::empty()
    } else {
        seq![(s[0].0@, jv(s[0].1))] + jv_members(s.drop_first())
    }
}

/// [`jv_seq`] maps element by element.
pub proof fn lemma_jv_seq(s: Seq<JsonValue>)
    ensures
        jv_seq(s).len() == s.len(),
        forall|k: int| 0 <= k < s.len() ==> jv_seq(s)[k] == jv(s[k]),
    decreases s.len(),
{
    if s.len() > 0 {
        lemma_jv_seq(s.drop_first());
    }
}

/// [`jv_members`] maps member by member.
pub proof fn lemma_jv_members(s: Seq<(String, JsonValue)>)
    ensures
        jv_members(s).len() == s.len(),
        forall|k: int|
            0 <= k < s.len() ==> jv_members(s)[k] == (s[k].0@, jv(s[k].1)),
    decreases s.len(),
{
    if s.len() > 0 {
        lemma_jv_members(s.drop_first());
    }
}

/// True of the four whitespace characters of JSON.
pub open spec fn is_ws(c: char) -> bool {
    c == ' ' || c == '\t' || c == '\n' || c == '\r'
}

/// True of a decimal digit.
pub open spec fn is_digit(c: char) -> bool {
    48 <= c as int <= 57
}

/// The first index at or after `i` that does not hold whitespace.
pub open spec fn spec_skip_ws(s: Seq<char>, i: int) -> int
    decreases s.len() - i,
{
    if 0 <= i < s.len() && is_ws(s[i]) {
        spec_skip_ws(s, i + 1)
    } else {
        i
    }
}

/// The value of four hexadecimal digits starting at `i`.
pub open spec fn spec_hex4(s: Seq<char>, i: int) -> Option<u32> {
    if 0 <= i && i + 4 <= s.len() {
        match (hex_val(s[i]), hex_val(s[i + 1]), hex_val(s[i + 2]), hex_val(s[i + 3])) {
            (Some(a), Some(b), Some(c), Some(d)) => Some(
                ((a as int) * 0x1000 + (b as int) * 0x100 + (c as int) * 0x10 + (d as int)) as u32,
            ),
            _ => None,
        }
    } else {
        None
    }
}

/// One string escape, `i` pointing just after the backslash: the character
/// it stands for and the index after it.  A `\u` escape must spell a scalar
/// value, with a paired low surrogate where the value is a high surrogate.
pub open spec fn spec_escape(s: Seq<char>, i: int) -> Option<(char, int)> {
    if !(0 <= i < s.len()) {
        None
    } else if s[i] == '"' {
        Some(('"', i + 1))
    } else if s[i] == '\\' {
        Some(('\\', i + 1))
    } else if s[i] == '/' {
        Some(('/', i + 1))
    } else if s[i] == 'b' {
        Some((8 as char, i + 1))
    } else if s[i] == 'f' {
        Some((12 as char, i + 1))
    } else if s[i] == 'n' {
        Some(('\n', i + 1))
    } else if s[i] == 'r' {
        Some(('\r', i + 1))
    } else if s[i] == 't' {
        Some(('\t', i + 1))
    } else if s[i] == 'u' {
        match spec_hex4(s, i + 1) {
            Some(v) => if v < 0xD800 || v > 0xDFFF {
                Some((v as char, i + 5))
            } else if v <= 0xDBFF {
                // A high surrogate: a low surrogate escape must follow.
                if i + 11 <= s.len() && s[i + 5] == '\\' && s[i + 6] == 'u' {
                    match spec_hex4(s, i + 7) {
                        Some(w) => if 0xDC00 <= w <= 0xDFFF {
                            Some(
                                ((0x10000 + (v - 0xD800) * 0x400 + (w - 0xDC00)) as char, i + 11),
                            )
                        } else {
                            None
                        },
                        None => None,
                    }
                } else {
                    None
                }
            } else {
                // A lone low surrogate spells no character.
                None
            },
            None => None,
        }
    } else {
        None
    }
}

/// The body of a string literal, `i` pointing just after the opening quote:
/// the characters up to the closing quote, escapes resolved, and the index
/// after the closing quote.  Unescaped control characters are refused.
pub open spec fn spec_string_body(s: Seq<char>, i: int) -> Option<(Seq<char>, int)>
    decreases s.len() - i,
{
    if !(0 <= i < s.len()) {
        None
    } else if s[i] == '"' {
        Some((Seq::empty(), i + 1))
    } else if s[i] == '\\' {
        match spec_escape(s, i + 1) {
            Some((c, j)) => if i < j <= s.len() {
                match spec_string_body(s, j) {
                    Some((rest, k)) => Some((seq![c] + rest, k)),
                    None => None,
                }
            } else {
                None
            },
            None => None,
        }
    } else if (s[i] as int) < 0x20 {
        None
    } else {
        match spec_string_body(s, i + 1) {
            Some((rest, k)) => Some((seq![s[i]] + rest, k)),
            None => None,
        }
    }
}

/// The first index at or after `i` that does not hold a digit.
pub open spec fn spec_scan_digits(s: Seq<char>, i: int) -> int
    decreases s.len() - i,
{
    if 0 <= i < s.len() && is_digit(s[i]) {
        spec_scan_digits(s, i + 1)
    } else {
        i
    }
}

/// Digit scanning never moves backwards.
proof fn lemma_scan_ge(s: Seq<char>, i: int)
    ensures
        spec_scan_digits(s, i) >= i,
    decreases s.len() - i,
{
    if 0 <= i < s.len() && is_digit(s[i]) {
        lemma_scan_ge(s, i + 1);
    }
}

/// The fraction part of a number, if any: the index after it.
pub open spec fn spec_frac(s: Seq<char>, i: int) -> Option<int> {
    if 0 <= i < s.len() && s[i] == '.' {
        if i + 1 < s.len() && is_digit(s[i + 1]) {
            Some(spec_scan_digits(s, i + 1))
        } else {
            None
        }
    } else {
        Some(i)
    }
}

/// The exponent part of a number, if any: the index after it.
pub open spec fn spec_exp(s: Seq<char>, i: int) -> Option<int> {
    if 0 <= i < s.len() && (s[i] == 'e' || s[i] == 'E') {
        let j = if i + 1 < s.len() && (s[i + 1] == '+' || s[i + 1] == '-') {
            i + 2
        } else {
            i + 1
        };
        if j < s.len() && is_digit(s[j]) {
            Some(spec_scan_digits(s, j))
        } else {
            None
        }
    } else {
        Some(i)
    }
}

/// A number starting at `i`: the index after it.  The integer part is `0`
/// or starts with a nonzero digit; fraction and exponent are optional.
pub open spec fn spec_parse_number(s: Seq<char>, i: int) -> Option<int> {
    if !(0 <= i < s.len()) {
        None
    } else {
        let j = if s[i] == '-' {
            i + 1
        } else {
            i
        };
        if !(j < s.len() && is_digit(s[j])) {
            None
        } else {
            let k = if s[j] == '0' {
                j + 1
            } else {
                spec_scan_digits(s, j)
            };
            match spec_frac(s, k) {
                Some(k2) => spec_exp(s, k2),
                None => None,
            }
        }
    }
}

/// A JSON value starting at `i` (no leading whitespace): the value and the
/// index after it.
pub open spec fn spec_parse_value(s: Seq<char>, i: int) -> Option<(JsonV, int)>
    decreases s.len() - i, 1int,
{
    if !(0 <= i < s.len()) {
        None
    } else if s[i] == 'n' {
        if i + 4 <= s.len() && s[i + 1] == 'u' && s[i + 2] == 'l' && s[i + 3] == 'l' {
            Some((JsonV::Null, i + 4))
        } else {
            None
        }
    } else if s[i] == 't' {
        if i + 4 <= s.len() && s[i + 1] == 'r' && s[i + 2] == 'u' && s[i + 3] == 'e' {
            Some((JsonV::Bool(true), i + 4))
        } else {
            None
        }
    } else if s[i] == 'f' {
        if i + 5 <= s.len() && s[i + 1] == 'a' && s[i + 2] == 'l' && s[i + 3] == 's' && s[i + 4]
            == 'e' {
            Some((JsonV::Bool(false), i + 5))
        } else {
            None
        }
    } else if s[i] == '"' {
        match spec_string_body(s, i + 1) {
            Some((cs, j)) => Some((JsonV::Str(cs), j)),
            None => None,
        }
    } else if s[i] == '-' || is_digit(s[i]) {
        match spec_parse_number(s, i) {
            Some(j) => Some((JsonV::Num, j)),
            None => None,
        }
    } else if s[i] == '[' {
        let j = spec_skip_ws(s, i + 1);
        if i < j <= s.len() {
            if j < s.len() && s[j] == ']' {
                Some((JsonV::Arr(Seq::empty()), j + 1))
            } else {
                match spec_parse_elems(s, j) {
                    Some((vs, k)) => Some((JsonV::Arr(vs), k)),
                    None => None,
                }
            }
        } else {
            None
        }
    } else if s[i] == '{' {
        let j = spec_skip_ws(s, i + 1);
        if i < j <= s.len() {
            if j < s.len() && s[j] == '}' {
                Some((JsonV::Obj(Seq::empty()), j + 1))
            } else {
                match spec_parse_members(s, j) {
                    Some((ms, k)) => Some((JsonV::Obj(ms), k)),
                    None => None,
                }
            }
        } else {
            None
        }
    } else {
        None
    }
}

/// The elements of an array from the start of its first remaining element:
/// the values and the index after the closing bracket.
pub open spec fn spec_parse_elems(s: Seq<char>, i: int) -> Option<(Seq<JsonV>, int)>
    decreases s.len() - i, 2int,
{
    if !(0 <= i <= s.len()) {
        None
    } else {
        match spec_parse_value(s, i) {
            Some((v, j)) => if i < j <= s.len() {
                let k = spec_skip_ws(s, j);
                if k < s.len() && s[k] == ',' {
                    let m = spec_skip_ws(s, k + 1);
                    if i < m <= s.len() {
                        match spec_parse_elems(s, m) {
                            Some((vs, end)) => Some((seq![v] + vs, end)),
                            None => None,
                        }
                    } else {
                        None
                    }
                } else if k < s.len() && s[k] == ']' {
                    Some((seq![v], k + 1))
                } else {
                    None
                }
            } else {
                None
            },
            None => None,
        }
    }
}

/// The members of an object from the start of its first remaining member:
/// the key-value pairs and the index after the closing brace.
pub open spec fn spec_parse_members(s: Seq<char>, i: int) -> Option<
    (Seq<(Seq<char>, JsonV)>, int),
>
    decreases s.len() - i, 2int,
{
    if !(0 <= i < s.len() && s[i] == '"') {
        None
    } else {
        match spec_string_body(s, i + 1) {
            Some((key, j)) => if i < j <= s.len() {
                let k = spec_skip_ws(s, j);
                if k < s.len() && s[k] == ':' {
                    let m = spec_skip_ws(s, k + 1);
                    if i < m <= s.len() {
                        match spec_parse_value(s, m) {
                            Some((v, e)) => if i < e <= s.len() {
                                let k2 = spec_skip_ws(s, e);
                                if k2 < s.len() && s[k2] == ',' {
                                    let m2 = spec_skip_ws(s, k2 + 1);
                                    if i < m2 <= s.len() {
                                        match spec_parse_members(s, m2) {
                                            Some((ms, end)) => Some((seq![(key, v)] + ms, end)),
                                            None => None,
                                        }
                                    } else {
                                        None
                                    }
                                } else if k2 < s.len() && s[k2] == '}' {
                                    Some((seq![(key, v)], k2 + 1))
                                } else {
                                    None
                                }
                            } else {
                                None
                            },
                            None => None,
                        }
                    } else {
                        None
                    }
                } else {
                    None
                }
            } else {
                None
            },
            None => None,
        }
    }
}

/// A complete JSON text: one value, surrounded by nothing but whitespace.
pub open spec fn spec_parse_text(s: Seq<char>) -> Option<JsonV> {
    match spec_parse_value(s, spec_skip_ws(s, 0)) {
        Some((v, j)) => if spec_skip_ws(s, j) == s.len() {
            Some(v)
        } else {
            None
        },
        None => None,
    }
}

/// Relies on `char::from_u32`: it returns the character with the given
/// scalar value, and nothing when the value is no Unicode scalar.
#[verifier::external_body]
fn char_from_u32(v: u32) -> (r: Option<char>)
    ensures
        vstd::utf8::is_scalar(v) ==> r == Some(v as char),
        !vstd::utf8::is_scalar(v) ==> r is None,
{
    char::from_u32(v)
}

/// Skip whitespace.
fn skip_ws_x(s: &str, n: usize, i: usize) -> (r: usize)
    requires
        n == s@.len(),
        i <= n,
    ensures
        r == spec_skip_ws(s@, i as int),
        i <= r <= n,
{
    let mut j = i;
    loop
        invariant
            n == s@.len(),
            i <= j <= n,
            spec_skip_ws(s@, i as int) == spec_skip_ws(s@, j as int),
        ensures
            j == spec_skip_ws(s@, i as int),
            i <= j <= n,
        decreases n - j,
    {
        if j >= n {
            break ;
        }
        let c = s.get_char(j);
        if c == ' ' || c == '\t' || c == '\n' || c == '\r' {
            j = j + 1;
        } else {
            break ;
        }
    }
    j
}

/// Skip decimal digits.
fn scan_digits_x(s: &str, n: usize, i: usize) -> (r: usize)
    requires
        n == s@.len(),
        i <= n,
    ensures
        r == spec_scan_digits(s@, i as int),
        i <= r <= n,
{
    let mut j = i;
    loop
        invariant
            n == s@.len(),
            i <= j <= n,
            spec_scan_digits(s@, i as int) == spec_scan_digits(s@, j as int),
        ensures
            j == spec_scan_digits(s@, i as int),
            i <= j <= n,
        decreases n - j,
    {
        if j >= n {
            break ;
        }
        let c = s.get_char(j);
        if c >= '0' && c <= '9' {
            j = j + 1;
        } else {
            break ;
        }
    }
    j
}

/// Read four hexadecimal digits.
fn hex4_x(s: &str, n: usize, i: usize) -> (r: Option<u32>)
    requires
        n == s@.len(),
        i <= n,
    ensures
        r == spec_hex4(s@, i as int),
{
    if n - i >= 4 {
        let a = crate::urlenc::hex_value(s.get_char(i));
        let b = crate::urlenc::hex_value(s.get_char(i + 1));
        let c = crate::urlenc::hex_value(s.get_char(i + 2));
        let d = crate::urlenc::hex_value(s.get_char(i + 3));
        match (a, b, c, d) {
            (Some(a), Some(b), Some(c), Some(d)) => Some(
                (a as u32) * 0x1000 + (b as u32) * 0x100 + (c as u32) * 0x10 + (d as u32),
            ),
            _ => None,
        }
    } else {
        None
    }
}

/// Read one string escape, `i` pointing just after the backslash.
fn escape_x(s: &str, n: usize, i: usize) -> (r: Option<(char, usize)>)
    requires
        n == s@.len(),
        i <= n,
    ensures
        match r {
            Some(p) => spec_escape(s@, i as int) == Some((p.0, p.1 as int)) && i < p.1 <= n,
            None => spec_escape(s@, i as int) is None,
        },
{
    if i >= n {
        return None;
    }
    let c = s.get_char(i);
    match c {
        '"' => Some(('"', i + 1)),
        '\\' => Some(('\\', i + 1)),
        '/' => Some(('/', i + 1)),
        'b' => Some((8u8 as char, i + 1)),
        'f' => Some((12u8 as char, i + 1)),
        'n' => Some(('\n', i + 1)),
        'r' => Some(('\r', i + 1)),
        't' => Some(('\t', i + 1)),
        'u' => {
            match hex4_x(s, n, i + 1) {
                Some(v) => {
                    if v < 0xD800 || v > 0xDFFF {
                        match char_from_u32(v) {
                            Some(ch) => Some((ch, i + 5)),
                            None => {
                                proof {
                                    assert(false);
                                }
                                None
                            },
                        }
                    } else if v <= 0xDBFF {
                        if n - i >= 11 && s.get_char(i + 5) == '\\' && s.get_char(i + 6) == 'u' {
                            match hex4_x(s, n, i + 7) {
                                Some(w) => {
                                    if w >= 0xDC00 && w <= 0xDFFF {
                                        let combined = 0x10000 + (v - 0xD800) * 0x400 + (w
                                            - 0xDC00);
                                        match char_from_u32(combined) {
                                            Some(ch) => Some((ch, i + 11)),
                                            None => {
                                                proof {
                                                    assert(false);
                                                }
                                                None
                                            },
                                        }
                                    } else {
                                        None
                                    }
                                },
                                None => None,
                            }
                        } else {
                            None
                        }
                    } else {
                        None
                    }
                },
                None => None,
            }
        },
        _ => None,
    }
}

/// Read the body of a string literal, `i` pointing just after the opening
/// quote.
fn string_body_x(s: &str, n: usize, i: usize) -> (r: Option<(String, usize)>)
    requires
        n == s@.len(),
        i <= n,
    ensures
        match r {
            Some(p) => spec_string_body(s@, i as int) == Some((p.0@, p.1 as int)) && i < p.1 <= n,
            None => spec_string_body(s@, i as int) is None,
        },
{
    let mut out = String::new();
    let mut cur = i;
    proof {
        match spec_string_body(s@, cur as int) {
            Some((rest, j)) => {
                assert(out@ + rest =~= rest);
            },
            None => {},
        }
    }
    loop
        invariant
            n == s@.len(),
            i <= cur <= n,
            match spec_string_body(s@, cur as int) {
                Some((rest, j)) => spec_string_body(s@, i as int) == Some((out@ + rest, j)),
                None => spec_string_body(s@, i as int) is None,
            },
        decreases n - cur,
    {
        if cur >= n {
            return None;
        }
        let c = s.get_char(cur);
        if c == '"' {
            proof {
                assert(spec_string_body(s@, cur as int) == Some(
                    (Seq::<char>::empty(), cur + 1int),
                ));
                assert(out@ + Seq::<char>::empty() =~= out@);
            }
            return Some((out, cur + 1));
        } else if c == '\\' {
            match escape_x(s, n, cur + 1) {
                Some((c2, j)) => {
                    let ghost prev = out@;
                    push_char(&mut out, c2);
                    proof {
                        match spec_string_body(s@, j as int) {
                            Some((rest, k)) => {
                                assert(spec_string_body(s@, cur as int) == Some(
                                    (seq![c2] + rest, k),
                                ));
                                assert(prev + (seq![c2] + rest) =~= out@ + rest);
                            },
                            None => {
                                assert(spec_string_body(s@, cur as int) is None);
                            },
                        }
                    }
                    cur = j;
                },
                None => {
                    proof {
                        assert(spec_string_body(s@, cur as int) is None);
                    }
                    return None;
                },
            }
        } else if (c as u32) < 0x20 {
            proof {
                assert(spec_string_body(s@, cur as int) is None);
            }
            return None;
        } else {
            let ghost prev = out@;
            push_char(&mut out, c);
            proof {
                match spec_string_body(s@, cur + 1int) {
                    Some((rest, k)) => {
                        assert(spec_string_body(s@, cur as int) == Some((seq![c] + rest, k)));
                        assert(prev + (seq![c] + rest) =~= out@ + rest);
                    },
                    None => {
                        assert(spec_string_body(s@, cur as int) is None);
                    },
                }
            }
            cur = cur + 1;
        }
    }
}

/// Read the fraction part of a number, if any.
fn frac_x(s: &str, n: usize, i: usize) -> (r: Option<usize>)
    requires
        n == s@.len(),
        i <= n,
    ensures
        match r {
            Some(j) => spec_frac(s@, i as int) == Some(j as int) && i <= j <= n,
            None => spec_frac(s@, i as int) is None,
        },
{
    if i < n && s.get_char(i) == '.' {
        if i + 1 < n && {
            let c = s.get_char(i + 1);
            c >= '0' && c <= '9'
        } {
            Some(scan_digits_x(s, n, i + 1))
        } else {
            None
        }
    } else {
        Some(i)
    }
}

/// Read the exponent part of a number, if any.
fn exp_x(s: &str, n: usize, i: usize) -> (r: Option<usize>)
    requires
        n == s@.len(),
        i <= n,
    ensures
        match r {
            Some(j) => spec_exp(s@, i as int) == Some(j as int) && i <= j <= n,
            None => spec_exp(s@, i as int) is None,
        },
{
    if i < n && {
        let c = s.get_char(i);
        c == 'e' || c == 'E'
    } {
        let j = if i + 1 < n && {
            let c = s.get_char(i + 1);
            c == '+' || c == '-'
        } {
            i + 2
        } else {
            i + 1
        };
        if j < n && {
            let c = s.get_char(j);
            c >= '0' && c <= '9'
        } {
            Some(scan_digits_x(s, n, j))
        } else {
            None
        }
    } else {
        Some(i)
    }
}

/// Read a number.
fn number_x(s: &str, n: usize, i: usize) -> (r: Option<usize>)
    requires
        n == s@.len(),
        i <= n,
    ensures
        match r {
            Some(j) => spec_parse_number(s@, i as int) == Some(j as int) && i < j <= n,
            None => spec_parse_number(s@, i as int) is None,
        },
{
    if i >= n {
        return None;
    }
    let j = if s.get_char(i) == '-' {
        i + 1
    } else {
        i
    };
    if !(j < n && {
        let c = s.get_char(j);
        c >= '0' && c <= '9'
    }) {
        return None;
    }
    let k = if s.get_char(j) == '0' {
        j + 1
    } else {
        proof {
            lemma_scan_ge(s@, j + 1int);
        }
        scan_digits_x(s, n, j)
    };
    match frac_x(s, n, k) {
        Some(k2) => exp_x(s, n, k2),
        None => None,
    }
}

/// Read one JSON value starting at `i`, which must not hold whitespace.
fn value_x(s: &str, n: usize, i: usize) -> (r: Option<(JsonValue, usize)>)
    requires
        n == s@.len(),
        i <= n,
    ensures
        match r {
            Some(p) => spec_parse_value(s@, i as int) == Some((jv(p.0), p.1 as int)) && i < p.1
                <= n,
            None => spec_parse_value(s@, i as int) is None,
        },
    decreases n - i, 1int,
{
    if i >= n {
        return None;
    }
    let c = s.get_char(i);
    if c == 'n' {
        if n - i >= 4 && s.get_char(i + 1) == 'u' && s.get_char(i + 2) == 'l' && s.get_char(i + 3)
            == 'l' {
            Some((JsonValue::Null, i + 4))
        } else {
            None
        }
    } else if c == 't' {
        if n - i >= 4 && s.get_char(i + 1) == 'r' && s.get_char(i + 2) == 'u' && s.get_char(i + 3)
            == 'e' {
            Some((JsonValue::Bool(true), i + 4))
        } else {
            None
        }
    } else if c == 'f' {
        if n - i >= 5 && s.get_char(i + 1) == 'a' && s.get_char(i + 2) == 'l' && s.get_char(i + 3)
            == 's' && s.get_char(i + 4) == 'e' {
            Some((JsonValue::Bool(false), i + 5))
        } else {
            None
        }
    } else if c == '"' {
        match string_body_x(s, n, i + 1) {
            Some((t, j)) => Some((JsonValue::Str(t), j)),
            None => None,
        }
    } else if c == '-' || (c >= '0' && c <= '9') {
        match number_x(s, n, i) {
            Some(j) => Some((JsonValue::Num, j)),
            None => None,
        }
    } else if c == '[' {
        let j = skip_ws_x(s, n, i + 1);
        if j < n && s.get_char(j) == ']' {
            proof {
                assert(jv_seq(Seq::<JsonValue>::empty()) =~= Seq::<JsonV>::empty());
            }
            let vs: Vec<JsonValue> = Vec::new();
            Some((JsonValue::Arr(vs), j + 1))
        } else {
            match elems_x(s, n, j) {
                Some((vs, k)) => Some((JsonValue::Arr(vs), k)),
                None => None,
            }
        }
    } else if c == '{' {
        let j = skip_ws_x(s, n, i + 1);
        if j < n && s.get_char(j) == '}' {
            proof {
                assert(jv_members(Seq::<(String, JsonValue)>::empty()) =~= Seq::<
                    (Seq<char>, JsonV),
                >::empty());
            }
            let ms: Vec<(String, JsonValue)> = Vec::new();
            Some((JsonValue::Obj(ms), j + 1))
        } else {
            match members_x(s, n, j) {
                Some((ms, k)) => Some((JsonValue::Obj(ms), k)),
                None => None,
            }
        }
    } else {
        None
    }
}

/// Read the elements of an array, `i` at the start of the next element.
fn elems_x(s: &str, n: usize, i: usize) -> (r: Option<(Vec<JsonValue>, usize)>)
    requires
        n == s@.len(),
        i <= n,
    ensures
        match r {
            Some(p) => spec_parse_elems(s@, i as int) == Some((jv_seq(p.0@), p.1 as int)) && i
                < p.1 <= n,
            None => spec_parse_elems(s@, i as int) is None,
        },
    decreases n - i, 2int,
{
    match value_x(s, n, i) {
        Some((v, j)) => {
            let k = skip_ws_x(s, n, j);
            if k < n && s.get_char(k) == ',' {
                let m = skip_ws_x(s, n, k + 1);
                match elems_x(s, n, m) {
                    Some((mut vs, end)) => {
                        let ghost tailv = vs@;
                        vs.insert(0, v);
                        proof {
                            assert(vs@ =~= seq![v] + tailv);
                            assert(vs@[0] == v);
                            assert(vs@.drop_first() =~= tailv);
                            assert(jv_seq(vs@) == seq![jv(v)] + jv_seq(tailv));
                        }
                        Some((vs, end))
                    },
                    None => None,
                }
            } else if k < n && s.get_char(k) == ']' {
                let mut vs: Vec<JsonValue> = Vec::new();
                vs.push(v);
                proof {
                    assert(vs@[0] == v);
                    assert(vs@.drop_first() =~= Seq::<JsonValue>::empty());
                    assert(jv_seq(Seq::<JsonValue>::empty()) == Seq::<JsonV>::empty());
                    assert(jv_seq(vs@) =~= seq![jv(v)]);
                }
                Some((vs, k + 1))
            } else {
                None
            }
        },
        None => None,
    }
}

/// Read the members of an object, `i` at the start of the next member.
fn members_x(s: &str, n: usize, i: usize) -> (r: Option<(Vec<(String, JsonValue)>, usize)>)
    requires
        n == s@.len(),
        i <= n,
    ensures
        match r {
            Some(p) => spec_parse_members(s@, i as int) == Some((jv_members(p.0@), p.1 as int))
                && i < p.1 <= n,
            None => spec_parse_members(s@, i as int) is None,
        },
    decreases n - i, 2int,
{
    if !(i < n && s.get_char(i) == '"') {
        return None;
    }
    match string_body_x(s, n, i + 1) {
        Some((key, j)) => {
            let k = skip_ws_x(s, n, j);
            if k < n && s.get_char(k) == ':' {
                let m = skip_ws_x(s, n, k + 1);
                match value_x(s, n, m) {
                    Some((v, e)) => {
                        let k2 = skip_ws_x(s, n, e);
                        if k2 < n && s.get_char(k2) == ',' {
                            let m2 = skip_ws_x(s, n, k2 + 1);
                            match members_x(s, n, m2) {
                                Some((mut ms, end)) => {
                                    let ghost tailm = ms@;
                                    let ghost keyv = key@;
                                    let ghost vv = jv(v);
                                    ms.insert(0, (key, v));
                                    proof {
                                        assert(ms@ =~= seq![(ms@[0].0, ms@[0].1)] + tailm);
                                        assert(ms@[0].0@ == keyv);
                                        assert(ms@.drop_first() =~= tailm);
                                        assert(jv_members(ms@) == seq![(keyv, vv)] + jv_members(
                                            tailm,
                                        ));
                                    }
                                    Some((ms, end))
                                },
                                None => None,
                            }
                        } else if k2 < n && s.get_char(k2) == '}' {
                            let ghost keyv = key@;
                            let ghost vv = jv(v);
                            let mut ms: Vec<(String, JsonValue)> = Vec::new();
                            ms.push((key, v));
                            proof {
                                assert(ms@[0].0@ == keyv);
                                assert(ms@.drop_first() =~= Seq::<(String, JsonValue)>::empty());
                                assert(jv_members(Seq::<(String, JsonValue)>::empty()) == Seq::<
                                    (Seq<char>, JsonV),
                                >::empty());
                                assert(jv_members(ms@) =~= seq![(keyv, vv)]);
                            }
                            Some((ms, k2 + 1))
                        } else {
                            None
                        }
                    },
                    None => None,
                }
            } else {
                None
            }
        },
        None => None,
    }
}

/// Parse a complete JSON text: one value, surrounded by nothing but
/// whitespace.
pub fn parse_text(s: &str) -> (r: Option<JsonValue>)
    ensures
        match r {
            Some(v) => spec_parse_text(s@) == Some(jv(v)),
            None => spec_parse_text(s@) is None,
        },
{
    let n = s.unicode_len();
    let i = skip_ws_x(s, n, 0);
    match value_x(s, n, i) {
        Some((v, j)) => {
            let e = skip_ws_x(s, n, j);
            if e == n {
                Some(v)
            } else {
                None
            }
        },
        None => None,
    }
}

} // verus!
