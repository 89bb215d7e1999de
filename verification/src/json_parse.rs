//! The JSON text parser.  `parse_json_text` is the mathematical definition of
//! the grammar this relay accepts (the grammar of RFC 8259, with objects kept
//! in field order); `parse_json` is the executable parser, proved to return
//! exactly what the definition says.
use crate::json::{chars_to_string, str_to_chars, Json, JsonV};
use vstd::prelude::*;

verus! {

broadcast use vstd::std_specs::vec::group_vec_axioms, vstd::seq::group_seq_axioms;

pub open spec fn is_ws(c: char) -> bool {
    c == ' ' || c == '\t' || c == '\n' || c == '\r'
}

pub open spec fn is_digit(c: char) -> bool {
    48 <= c as u32 && c as u32 <= 57
}

pub open spec fn digit_val(c: char) -> int {
    c as u32 - 48
}

/// The first position at or after `i` that does not hold whitespace.
pub open spec fn skip_ws(s: Seq<char>, i: int) -> int
    decreases s.len() - i,
{
    if 0 <= i && i < s.len() && is_ws(s[i]) {
        skip_ws(s, i + 1)
    } else {
        i
    }
}

pub proof fn lemma_skip_ws(s: Seq<char>, i: int)
    requires
        0 <= i <= s.len(),
    ensures
        i <= skip_ws(s, i) <= s.len(),
        skip_ws(s, i) < s.len() ==> !is_ws(s[skip_ws(s, i)]),
    decreases s.len() - i,
{
    if i < s.len() && is_ws(s[i]) {
        lemma_skip_ws(s, i + 1);
    }
}

/// The first position at or after `i` that does not hold a decimal digit.
pub open spec fn scan_digits(s: Seq<char>, i: int) -> int
    decreases s.len() - i,
{
    if 0 <= i && i < s.len() && is_digit(s[i]) {
        scan_digits(s, i + 1)
    } else {
        i
    }
}

pub proof fn lemma_scan_digits(s: Seq<char>, i: int)
    requires
        0 <= i <= s.len(),
    ensures
        i <= scan_digits(s, i) <= s.len(),
    decreases s.len() - i,
{
    if i < s.len() && is_digit(s[i]) {
        lemma_scan_digits(s, i + 1);
    }
}

/// The value of the digit run `s[i .. j]`.
pub open spec fn digits_val(s: Seq<char>, i: int, j: int) -> int
    decreases j - i,
{
    if j <= i {
        0
    } else {
        digits_val(s, i, j - 1) * 10 + digit_val(s[j - 1])
    }
}

/// The numeric value of a hexadecimal digit, or -1 for any other character.
pub open spec fn hex_val(c: char) -> int {
    if 48 <= c as u32 && c as u32 <= 57 {
        c as u32 - 48
    } else if 97 <= c as u32 && c as u32 <= 102 {
        c as u32 - 87
    } else if 65 <= c as u32 && c as u32 <= 70 {
        c as u32 - 55
    } else {
        -1
    }
}

/// The value of the four hexadecimal digits at `s[i .. i + 4]`, or -1 if any
/// of them is not a hexadecimal digit.
pub open spec fn hex4_val(s: Seq<char>, i: int) -> int {
    if hex_val(s[i]) >= 0 && hex_val(s[i + 1]) >= 0 && hex_val(s[i + 2]) >= 0 && hex_val(
        s[i + 3],
    ) >= 0 {
        hex_val(s[i]) * 4096 + hex_val(s[i + 1]) * 256 + hex_val(s[i + 2]) * 16 + hex_val(s[i + 3])
    } else {
        -1
    }
}

/// Parse the body of a string literal starting just after the opening quote,
/// with `acc` the characters read so far.  Yields the content and the
/// position just after the closing quote.
pub open spec fn parse_str_body(s: Seq<char>, i: int, acc: Seq<char>) -> Option<(Seq<char>, int)>
    decreases s.len() - i,
{
    if i < 0 || i >= s.len() {
        None
    } else if s[i] == '"' {
        Some((acc, i + 1))
    } else if s[i] == '\\' {
        if i + 1 >= s.len() {
            None
        } else {
            let e = s[i + 1];
            if e == '"' {
                parse_str_body(s, i + 2, acc + seq!['"'])
            } else if e == '\\' {
                parse_str_body(s, i + 2, acc + seq!['\\'])
            } else if e == '/' {
                parse_str_body(s, i + 2, acc + seq!['/'])
            } else if e == 'b' {
                parse_str_body(s, i + 2, acc + seq!['\u{8}'])
            } else if e == 'f' {
                parse_str_body(s, i + 2, acc + seq!['\u{c}'])
            } else if e == 'n' {
                parse_str_body(s, i + 2, acc + seq!['\n'])
            } else if e == 'r' {
                parse_str_body(s, i + 2, acc + seq!['\r'])
            } else if e == 't' {
                parse_str_body(s, i + 2, acc + seq!['\t'])
            } else if e == 'u' {
                if i + 5 < s.len() {
                    let h = hex4_val(s, i + 2);
                    if 0 <= h && (h < 0xD800 || 0xE000 <= h) {
                        parse_str_body(s, i + 6, acc + seq![(h as u32) as char])
                    } else {
                        None
                    }
                } else {
                    None
                }
            } else {
                None
            }
        }
    } else if (s[i] as u32) < 0x20 {
        None
    } else {
        parse_str_body(s, i + 1, acc + seq![s[i]])
    }
}

/// Parse a numeric literal starting at `i` (a minus sign or a digit).
/// An optionally signed run of at most 18 digits, with no fraction and no
/// exponent, becomes an integer; any other literal is kept as its text.
pub open spec fn parse_number(s: Seq<char>, i: int) -> Option<(JsonV, int)> {
    let d0 = if s[i] == '-' {
        i + 1
    } else {
        i
    };
    if !(0 <= d0 && d0 < s.len() && is_digit(s[d0])) {
        None
    } else {
        let int_end = if s[d0] == '0' {
            d0 + 1
        } else {
            scan_digits(s, d0)
        };
        if int_end < s.len() && s[int_end] == '.' {
            if int_end + 1 < s.len() && is_digit(s[int_end + 1]) {
                let frac_end = scan_digits(s, int_end + 1);
                parse_number_exp(s, i, frac_end, false)
            } else {
                None
            }
        } else {
            parse_number_exp(s, i, int_end, s[i] == '-' && int_end - i <= 19 || s[i] != '-'
                && int_end - i <= 18)
        }
    }
}

/// Parse the optional exponent part at `tail`; `plain` says whether the
/// literal so far is a sign and at most 18 digits.
pub open spec fn parse_number_exp(s: Seq<char>, start: int, tail: int, plain: bool) -> Option<
    (JsonV, int),
> {
    if tail < s.len() && (s[tail] == 'e' || s[tail] == 'E') {
        let es = if tail + 1 < s.len() && (s[tail + 1] == '+' || s[tail + 1] == '-') {
            tail + 2
        } else {
            tail + 1
        };
        if es < s.len() && is_digit(s[es]) {
            let end = scan_digits(s, es);
            Some((JsonV::Num(s.subrange(start, end)), end))
        } else {
            None
        }
    } else if plain {
        if s[start] == '-' {
            Some((JsonV::Int(-digits_val(s, start + 1, tail)), tail))
        } else {
            Some((JsonV::Int(digits_val(s, start, tail)), tail))
        }
    } else {
        Some((JsonV::Num(s.subrange(start, tail)), tail))
    }
}

/// Parse one JSON value starting exactly at `i`.
pub open spec fn parse_value(s: Seq<char>, i: int) -> Option<(JsonV, int)>
    decreases s.len() - i, 0int,
{
    if i < 0 || i >= s.len() {
        None
    } else if s[i] == 'n' {
        if i + 3 < s.len() && s[i + 1] == 'u' && s[i + 2] == 'l' && s[i + 3] == 'l' {
            Some((JsonV::Null, i + 4))
        } else {
            None
        }
    } else if s[i] == 't' {
        if i + 3 < s.len() && s[i + 1] == 'r' && s[i + 2] == 'u' && s[i + 3] == 'e' {
            Some((JsonV::Bool(true), i + 4))
        } else {
            None
        }
    } else if s[i] == 'f' {
        if s.len() - i > 4 && s[i + 1] == 'a' && s[i + 2] == 'l' && s[i + 3] == 's' && s[i + 4]
            == 'e' {
            Some((JsonV::Bool(false), i + 5))
        } else {
            None
        }
    } else if s[i] == '"' {
        match parse_str_body(s, i + 1, Seq::empty()) {
            Some((cs, j)) => Some((JsonV::Str(cs), j)),
            None => None,
        }
    } else if s[i] == '[' {
        let j = skip_ws(s, i + 1);
        if j < s.len() && s[j] == ']' {
            Some((JsonV::Arr(Seq::empty()), j + 1))
        } else if i < j && j <= s.len() {
            match parse_items(s, j, Seq::empty()) {
                Some((items, k)) => Some((JsonV::Arr(items), k)),
                None => None,
            }
        } else {
            None
        }
    } else if s[i] == '{' {
        let j = skip_ws(s, i + 1);
        if j < s.len() && s[j] == '}' {
            Some((JsonV::Obj(Seq::empty()), j + 1))
        } else if i < j && j <= s.len() {
            match parse_members(s, j, Seq::empty()) {
                Some((fields, k)) => Some((JsonV::Obj(fields), k)),
                None => None,
            }
        } else {
            None
        }
    } else if s[i] == '-' || is_digit(s[i]) {
        parse_number(s, i)
    } else {
        None
    }
}

/// Parse array elements, positioned at the start of an element, with the
/// elements read so far in `acc`.  Yields the elements and the position just
/// after the closing bracket.
pub open spec fn parse_items(s: Seq<char>, i: int, acc: Seq<JsonV>) -> Option<(Seq<JsonV>, int)>
    decreases s.len() - i, 1int,
{
    match parse_value(s, i) {
        None => None,
        Some((v, j)) => {
            if j <= i || j > s.len() {
                None
            } else {
                let k = skip_ws(s, j);
                if k < s.len() && s[k] == ',' {
                    let m = skip_ws(s, k + 1);
                    if i < m && m <= s.len() {
                        parse_items(s, m, acc.push(v))
                    } else {
                        None
                    }
                } else if k < s.len() && s[k] == ']' {
                    Some((acc.push(v), k + 1))
                } else {
                    None
                }
            }
        },
    }
}

/// Parse object members, positioned at the start of a key, with the members
/// read so far in `acc`.  Yields the fields and the position just after the
/// closing brace.
pub open spec fn parse_members(s: Seq<char>, i: int, acc: Seq<(Seq<char>, JsonV)>) -> Option<
    (Seq<(Seq<char>, JsonV)>, int),
>
    decreases s.len() - i, 1int,
{
    if !(0 <= i && i < s.len() && s[i] == '"') {
        None
    } else {
        match parse_str_body(s, i + 1, Seq::empty()) {
            None => None,
            Some((key, j)) => {
                let k = skip_ws(s, j);
                if k < s.len() && s[k] == ':' {
                    let m = skip_ws(s, k + 1);
                    if i < m && m <= s.len() {
                        match parse_value(s, m) {
                            None => None,
                            Some((v, e)) => {
                                if e <= i || e > s.len() {
                                    None
                                } else {
                                    let p = skip_ws(s, e);
                                    if p < s.len() && s[p] == ',' {
                                        let q = skip_ws(s, p + 1);
                                        if i < q && q <= s.len() {
                                            parse_members(s, q, acc.push((key, v)))
                                        } else {
                                            None
                                        }
                                    } else if p < s.len() && s[p] == '}' {
                                        Some((acc.push((key, v)), p + 1))
                                    } else {
                                        None
                                    }
                                }
                            },
                        }
                    } else {
                        None
                    }
                } else {
                    None
                }
            },
        }
    }
}

/// The JSON value denoted by the whole text, if the text is well-formed JSON
/// with nothing but whitespace around it.
pub open spec fn parse_json_text(s: Seq<char>) -> Option<JsonV> {
    let i = skip_ws(s, 0);
    match parse_value(s, i) {
        None => None,
        Some((v, j)) => {
            if 0 <= j <= s.len() && skip_ws(s, j) == s.len() {
                Some(v)
            } else {
                None
            }
        },
    }
}

/// Ten to the power `n`.
pub open spec fn pow10(n: int) -> int
    decreases n,
{
    if n <= 0 {
        1
    } else {
        10 * pow10(n - 1)
    }
}

pub proof fn lemma_pow10_18()
    ensures
        pow10(17) == 100000000000000000,
        pow10(18) == 1000000000000000000,
{
    assert(pow10(0) == 1);
    assert(pow10(1) == 10);
    assert(pow10(2) == 100);
    assert(pow10(3) == 1000);
    assert(pow10(4) == 10000);
    assert(pow10(5) == 100000);
    assert(pow10(6) == 1000000);
    assert(pow10(7) == 10000000);
    assert(pow10(8) == 100000000);
    assert(pow10(9) == 1000000000);
    assert(pow10(10) == 10000000000);
    assert(pow10(11) == 100000000000);
    assert(pow10(12) == 1000000000000);
    assert(pow10(13) == 10000000000000);
    assert(pow10(14) == 100000000000000);
    assert(pow10(15) == 1000000000000000);
    assert(pow10(16) == 10000000000000000);
    assert(pow10(17) == 100000000000000000);
    assert(pow10(18) == 1000000000000000000);
}

proof fn lemma_pow10_mono(a: int, b: int)
    requires
        a <= b,
    ensures
        pow10(a) <= pow10(b),
        pow10(a) >= 1,
    decreases b - a,
{
    if a < b {
        lemma_pow10_mono(a, b - 1);
    } else if a == b {
        lemma_pow10_pos(a);
    }
}

proof fn lemma_pow10_pos(a: int)
    ensures
        pow10(a) >= 1,
    decreases a,
{
    if a > 0 {
        lemma_pow10_pos(a - 1);
    }
}

// ---------------------------------------------------------------------------
// The executable parser
// ---------------------------------------------------------------------------
/// Relies on `char::from_u32`: a valid Unicode scalar value converts to the
/// character with that value.
#[verifier::external_body]
fn char_from_scalar(u: u32) -> (c: char)
    requires
        u < 0xD800 || (0xE000 <= u && u <= 0x10FFFF),
    ensures
        c == (u as char),
{
    char::from_u32(u).unwrap_or(' ')
}

fn ws_char(c: char) -> (r: bool)
    ensures
        r == is_ws(c),
{
    c == ' ' || c == '\t' || c == '\n' || c == '\r'
}

fn digit_char_test(c: char) -> (r: bool)
    ensures
        r == is_digit(c),
{
    let u = c as u32;
    48 <= u && u <= 57
}

fn exec_skip_ws(s: &Vec<char>, i: usize) -> (j: usize)
    requires
        i <= s@.len(),
    ensures
        j as int == skip_ws(s@, i as int),
        i <= j <= s@.len(),
{
    let mut j = i;
    while j < s.len() && ws_char(s[j])
        invariant
            i <= j <= s@.len(),
            skip_ws(s@, i as int) == skip_ws(s@, j as int),
        decreases s@.len() - j,
    {
        j = j + 1;
    }
    j
}

fn exec_scan_digits(s: &Vec<char>, i: usize) -> (j: usize)
    requires
        i <= s@.len(),
    ensures
        j as int == scan_digits(s@, i as int),
        i <= j <= s@.len(),
        forall|k: int| i <= k < j ==> is_digit(s@[k]),
        i < s@.len() && is_digit(s@[i as int]) ==> i < j,
{
    let mut j = i;
    while j < s.len() && digit_char_test(s[j])
        invariant
            i <= j <= s@.len(),
            scan_digits(s@, i as int) == scan_digits(s@, j as int),
            forall|k: int| i <= k < j ==> is_digit(s@[k]),
        decreases s@.len() - j,
    {
        j = j + 1;
    }
    j
}

fn hex_digit_val(c: char) -> (r: i32)
    ensures
        r as int == hex_val(c),
{
    let u = c as u32;
    if 48 <= u && u <= 57 {
        (u - 48) as i32
    } else if 97 <= u && u <= 102 {
        (u - 87) as i32
    } else if 65 <= u && u <= 70 {
        (u - 55) as i32
    } else {
        -1
    }
}

/// Copy `s[i .. j]` into a fresh vector.
fn copy_range(s: &Vec<char>, i: usize, j: usize) -> (r: Vec<char>)
    requires
        i <= j <= s@.len(),
    ensures
        r@ == s@.subrange(i as int, j as int),
{
    let mut r: Vec<char> = Vec::new();
    let mut k = i;
    while k < j
        invariant
            i <= k <= j <= s@.len(),
            r@ == s@.subrange(i as int, k as int),
        decreases j - k,
    {
        r.push(s[k]);
        k = k + 1;
        proof {
            assert(r@ =~= s@.subrange(i as int, k as int));
        }
    }
    r
}

/// Read the body of a string literal, starting just after the opening quote,
/// appending the content to `acc`.  Returns the position just after the
/// closing quote.
fn exec_parse_str_body(s: &Vec<char>, i: usize, acc: &mut Vec<char>) -> (r: Option<usize>)
    requires
        i <= s@.len(),
    ensures
        match r {
            Some(j) => parse_str_body(s@, i as int, old(acc)@) == Some((final(acc)@, j as int)) && i
                < j <= s@.len(),
            None => parse_str_body(s@, i as int, old(acc)@) is None,
        },
{
    let mut ii = i;
    loop
        invariant
            i <= ii <= s@.len(),
            parse_str_body(s@, i as int, old(acc)@) == parse_str_body(s@, ii as int, acc@),
        decreases s@.len() - ii,
    {
        if ii >= s.len() {
            return None;
        }
        let c = s[ii];
        if c == '"' {
            return Some(ii + 1);
        } else if c == '\\' {
            if s.len() - ii < 2 {
                return None;
            }
            let e = s[ii + 1];
            if e == 'u' {
                if s.len() - ii > 5 {
                    let h0 = hex_digit_val(s[ii + 2]);
                    let h1 = hex_digit_val(s[ii + 3]);
                    let h2 = hex_digit_val(s[ii + 4]);
                    let h3 = hex_digit_val(s[ii + 5]);
                    if h0 >= 0 && h1 >= 0 && h2 >= 0 && h3 >= 0 {
                        let h: i32 = h0 * 4096 + h1 * 256 + h2 * 16 + h3;
                        if h < 0xD800 || 0xE000 <= h {
                            proof {
                                assert(hex4_val(s@, ii + 2) == h as int);
                            }
                            let ghost acc_pre = acc@;
                            let ch = char_from_scalar(h as u32);
                            acc.push(ch);
                            ii = ii + 6;
                            proof {
                                assert(acc@ =~= acc_pre + seq![ch]);
                            }
                            continue ;
                        } else {
                            return None;
                        }
                    } else {
                        return None;
                    }
                } else {
                    return None;
                }
            } else {
                let e2: char;
                if e == '"' {
                    e2 = '"';
                } else if e == '\\' {
                    e2 = '\\';
                } else if e == '/' {
                    e2 = '/';
                } else if e == 'b' {
                    e2 = '\u{8}';
                } else if e == 'f' {
                    e2 = '\u{c}';
                } else if e == 'n' {
                    e2 = '\n';
                } else if e == 'r' {
                    e2 = '\r';
                } else if e == 't' {
                    e2 = '\t';
                } else {
                    return None;
                }
                let ghost acc_pre = acc@;
                acc.push(e2);
                ii = ii + 2;
                proof {
                    assert(acc@ =~= acc_pre + seq![e2]);
                }
            }
        } else if (c as u32) < 0x20 {
            return None;
        } else {
            let ghost acc_pre = acc@;
            acc.push(c);
            ii = ii + 1;
            proof {
                assert(acc@ =~= acc_pre + seq![c]);
            }
        }
    }
}

/// Parse a numeric literal starting at `i`.
fn exec_parse_number(s: &Vec<char>, i: usize) -> (r: Option<(Json, usize)>)
    requires
        i < s@.len(),
        s@[i as int] == '-' || is_digit(s@[i as int]),
    ensures
        match r {
            Some((v, j)) => parse_number(s@, i as int) == Some((v@, j as int)) && i < j <= s@.len(),
            None => parse_number(s@, i as int) is None,
        },
{
    let n = s.len();
    let neg = s[i] == '-';
    let d0 = if neg {
        i + 1
    } else {
        i
    };
    if !(d0 < n && digit_char_test(s[d0])) {
        return None;
    }
    let int_end = if s[d0] == '0' {
        d0 + 1
    } else {
        exec_scan_digits(s, d0)
    };
    proof {
        if s@[d0 as int] == '0' {
            assert(forall|m: int| d0 <= m < d0 + 1 ==> is_digit(s@[m]));
        }
    }
    let mut tail = int_end;
    let mut plain = if neg {
        int_end - i <= 19
    } else {
        int_end - i <= 18
    };
    if int_end < s.len() && s[int_end] == '.' {
        if int_end + 1 < s.len() && digit_char_test(s[int_end + 1]) {
            tail = exec_scan_digits(s, int_end + 1);
            plain = false;
        } else {
            return None;
        }
    }
    // The exponent part, if any.
    if tail < s.len() && (s[tail] == 'e' || s[tail] == 'E') {
        let es = if tail + 1 < s.len() && (s[tail + 1] == '+' || s[tail + 1] == '-') {
            tail + 2
        } else {
            tail + 1
        };
        if es < s.len() && digit_char_test(s[es]) {
            let end = exec_scan_digits(s, es);
            let text = copy_range(s, i, end);
            return Some((Json::Num(chars_to_string(&text)), end));
        } else {
            return None;
        }
    }
    if plain {
        // A sign and at most 18 digits: the value fits an i64.
        let mut acc: i64 = 0;
        let mut k = d0;
        proof {
            lemma_pow10_18();
        }
        while k < int_end
            invariant
                d0 <= k <= int_end <= s@.len(),
                int_end - d0 <= 18,
                forall|m: int| d0 <= m < int_end ==> is_digit(s@[m]),
                acc == digits_val(s@, d0 as int, k as int),
                0 <= acc < pow10(k - d0),
                pow10(18) == 1000000000000000000,
            decreases int_end - k,
        {
            proof {
                lemma_pow10_mono(k + 1 - d0, 18);
            }
            let d = (s[k] as u32 - 48) as i64;
            acc = acc * 10 + d;
            k = k + 1;
        }
        if neg {
            return Some((Json::Int(-acc), int_end));
        } else {
            return Some((Json::Int(acc), int_end));
        }
    }
    let text = copy_range(s, i, tail);
    Some((Json::Num(chars_to_string(&text)), tail))
}

/// Parse one JSON value starting exactly at `i`.
fn exec_parse_value(s: &Vec<char>, i: usize) -> (r: Option<(Json, usize)>)
    requires
        i <= s@.len(),
    ensures
        match r {
            Some((v, j)) => parse_value(s@, i as int) == Some((v@, j as int)) && i < j <= s@.len(),
            None => parse_value(s@, i as int) is None,
        },
    decreases s@.len() - i, 0int,
{
    if i >= s.len() {
        return None;
    }
    let c = s[i];
    if c == 'n' {
        if s.len() - i > 3 && s[i + 1] == 'u' && s[i + 2] == 'l' && s[i + 3] == 'l' {
            Some((Json::Null, i + 4))
        } else {
            None
        }
    } else if c == 't' {
        if s.len() - i > 3 && s[i + 1] == 'r' && s[i + 2] == 'u' && s[i + 3] == 'e' {
            Some((Json::Bool(true), i + 4))
        } else {
            None
        }
    } else if c == 'f' {
        if s.len() - i > 4 && s[i + 1] == 'a' && s[i + 2] == 'l' && s[i + 3] == 's' && s[i + 4]
            == 'e' {
            Some((Json::Bool(false), i + 5))
        } else {
            None
        }
    } else if c == '"' {
        let mut content: Vec<char> = Vec::new();
        match exec_parse_str_body(s, i + 1, &mut content) {
            Some(j) => Some((Json::Str(chars_to_string(&content)), j)),
            None => None,
        }
    } else if c == '[' {
        let j = exec_skip_ws(s, i + 1);
        if j < s.len() && s[j] == ']' {
            let items: Vec<Json> = Vec::new();
            proof {
                crate::json::lemma_json_view_seq(items@);
                assert(crate::json::json_view_seq(items@) =~= Seq::<JsonV>::empty());
            }
            Some((Json::Arr(items), j + 1))
        } else {
            let acc: Vec<Json> = Vec::new();
            proof {
                crate::json::lemma_json_view_seq(acc@);
                assert(crate::json::json_view_seq(acc@) =~= Seq::<JsonV>::empty());
            }
            match exec_parse_items(s, j, acc) {
                Some((items, k)) => Some((Json::Arr(items), k)),
                None => None,
            }
        }
    } else if c == '{' {
        let j = exec_skip_ws(s, i + 1);
        if j < s.len() && s[j] == '}' {
            let fields: Vec<(String, Json)> = Vec::new();
            proof {
                crate::json::lemma_json_view_fields(fields@);
                assert(crate::json::json_view_fields(fields@) =~= Seq::<(Seq<char>, JsonV)>::empty());
            }
            Some((Json::Obj(fields), j + 1))
        } else {
            let acc: Vec<(String, Json)> = Vec::new();
            proof {
                crate::json::lemma_json_view_fields(acc@);
                assert(crate::json::json_view_fields(acc@) =~= Seq::<(Seq<char>, JsonV)>::empty());
            }
            match exec_parse_members(s, j, acc) {
                Some((fields, k)) => Some((Json::Obj(fields), k)),
                None => None,
            }
        }
    } else if c == '-' || digit_char_test(c) {
        exec_parse_number(s, i)
    } else {
        None
    }
}

/// Parse array elements from the start of an element.
fn exec_parse_items(s: &Vec<char>, i: usize, acc: Vec<Json>) -> (r: Option<(Vec<Json>, usize)>)
    requires
        i <= s@.len(),
    ensures
        match r {
            Some((items, j)) => parse_items(s@, i as int, crate::json::json_view_seq(acc@)) == Some(
                (crate::json::json_view_seq(items@), j as int),
            ) && i < j <= s@.len(),
            None => parse_items(s@, i as int, crate::json::json_view_seq(acc@)) is None,
        },
    decreases s@.len() - i, 1int,
{
    match exec_parse_value(s, i) {
        None => None,
        Some((v, j)) => {
            let k = exec_skip_ws(s, j);
            if k < s.len() && s[k] == ',' {
                let m = exec_skip_ws(s, k + 1);
                proof {
                    crate::json::lemma_view_seq_push(acc@, v);
                }
                let mut acc2 = acc;
                acc2.push(v);
                exec_parse_items(s, m, acc2)
            } else if k < s.len() && s[k] == ']' {
                proof {
                    crate::json::lemma_view_seq_push(acc@, v);
                }
                let mut acc2 = acc;
                acc2.push(v);
                Some((acc2, k + 1))
            } else {
                None
            }
        },
    }
}

/// Parse object members from the start of a key.
fn exec_parse_members(s: &Vec<char>, i: usize, acc: Vec<(String, Json)>) -> (r: Option<
    (Vec<(String, Json)>, usize),
>)
    requires
        i <= s@.len(),
    ensures
        match r {
            Some((fields, j)) => parse_members(s@, i as int, crate::json::json_view_fields(acc@))
                == Some((crate::json::json_view_fields(fields@), j as int)) && i < j <= s@.len(),
            None => parse_members(s@, i as int, crate::json::json_view_fields(acc@)) is None,
        },
    decreases s@.len() - i, 1int,
{
    if !(i < s.len() && s[i] == '"') {
        return None;
    }
    let mut key_chars: Vec<char> = Vec::new();
    match exec_parse_str_body(s, i + 1, &mut key_chars) {
        None => None,
        Some(j) => {
            let key = chars_to_string(&key_chars);
            let k = exec_skip_ws(s, j);
            if k < s.len() && s[k] == ':' {
                let m = exec_skip_ws(s, k + 1);
                match exec_parse_value(s, m) {
                    None => None,
                    Some((v, e)) => {
                        let p = exec_skip_ws(s, e);
                        if p < s.len() && s[p] == ',' {
                            let q = exec_skip_ws(s, p + 1);
                            proof {
                                crate::json::lemma_view_fields_push(acc@, key, v);
                            }
                            let mut acc2 = acc;
                            acc2.push((key, v));
                            exec_parse_members(s, q, acc2)
                        } else if p < s.len() && s[p] == '}' {
                            proof {
                                crate::json::lemma_view_fields_push(acc@, key, v);
                            }
                            let mut acc2 = acc;
                            acc2.push((key, v));
                            Some((acc2, p + 1))
                        } else {
                            None
                        }
                    },
                }
            } else {
                None
            }
        },
    }
}

/// Parse a whole JSON text: one value with nothing but whitespace around it.
pub fn parse_json(s: &str) -> (r: Option<Json>)
    ensures
        match r {
            Some(v) => parse_json_text(s@) == Some(v@),
            None => parse_json_text(s@) is None,
        },
{
    let cs = str_to_chars(s);
    let i = exec_skip_ws(&cs, 0);
    match exec_parse_value(&cs, i) {
        None => None,
        Some((v, j)) => {
            let k = exec_skip_ws(&cs, j);
            if k == cs.len() {
                Some(v)
            } else {
                None
            }
        },
    }
}

} // verus!
