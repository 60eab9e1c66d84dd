//! A verified JSON parser.
//!
//! `spec_parse_json` defines what JSON text means; `parse_json` computes it.
//! The grammar is the standard one: literals, numbers (with an optional
//! fraction and exponent; a leading zero only alone), strings with the
//! two-character escapes and `\u` escapes including surrogate pairs, arrays
//! and objects, with whitespace between tokens. A number that is written as a
//! plain integer and fits a 64-bit signed integer also carries that value.

#![verifier::loop_isolation(false)]

use vstd::prelude::*;
use crate::strutil::{is_dec_digit, dec_val, digits_val, dec_digit_val, char_from_code, chars_of,
    string_from_chars, lemma_digits_val_prefix_le, lemma_digits_val_nonneg, lemma_dec_all_digits,
    lemma_dec_val, lemma_dec_leading, spec_dec, spec_dec_signed, spec_hex_fixed, hex_char,
    lemma_hex_fixed_len};
use crate::json::{Json, JsonV, json_view, views_of, view_members, lemma_arr_view, lemma_obj_view,
    spec_escape_one, spec_escape_string, spec_encode};

verus! {

broadcast use {vstd::std_specs::vec::group_vec_axioms, lemma_arr_view, lemma_obj_view};

/// JSON whitespace.
pub open spec fn is_ws_char(c: char) -> bool {
    c == ' ' || c == '\t' || c == '\n' || c == '\r'
}

/// The first position at or after `pos` that does not hold whitespace.
pub open spec fn spec_ws(s: Seq<char>, pos: int) -> int
    decreases s.len() - pos,
{
    if 0 <= pos < s.len() && is_ws_char(s[pos]) {
        spec_ws(s, pos + 1)
    } else {
        pos
    }
}

/// Advances past whitespace.
pub fn ws_to(s: &Vec<char>, pos: usize) -> (r: usize)
    requires
        pos <= s@.len(),
    ensures
        r == spec_ws(s@, pos as int),
        pos <= r <= s@.len(),
{
    let mut i: usize = pos;
    while i < s.len() && (s[i] == ' ' || s[i] == '\t' || s[i] == '\n' || s[i] == '\r')
        invariant
            pos <= i <= s@.len(),
            spec_ws(s@, pos as int) == spec_ws(s@, i as int),
        decreases s@.len() - i,
    {
        i = i + 1;
    }
    i
}

/// The value of a hexadecimal digit character, or sixteen when it is none.
pub open spec fn hex_val(c: char) -> int {
    if is_dec_digit(c) {
        dec_val(c)
    } else if c == 'a' || c == 'A' {
        10
    } else if c == 'b' || c == 'B' {
        11
    } else if c == 'c' || c == 'C' {
        12
    } else if c == 'd' || c == 'D' {
        13
    } else if c == 'e' || c == 'E' {
        14
    } else if c == 'f' || c == 'F' {
        15
    } else {
        16
    }
}

/// Executable hexadecimal digit value.
fn hex_val_exec(c: char) -> (r: Option<u8>)
    ensures
        r is Some <==> hex_val(c) < 16,
        r is Some ==> r->0 == hex_val(c),
{
    match dec_digit_val(c) {
        Some(d) => Some(d),
        None => {
            if c == 'a' || c == 'A' { Some(10) }
            else if c == 'b' || c == 'B' { Some(11) }
            else if c == 'c' || c == 'C' { Some(12) }
            else if c == 'd' || c == 'D' { Some(13) }
            else if c == 'e' || c == 'E' { Some(14) }
            else if c == 'f' || c == 'F' { Some(15) }
            else { None }
        },
    }
}

/// The value of the four hexadecimal digits at `pos`.
pub open spec fn spec_hex4(s: Seq<char>, pos: int) -> Option<u32> {
    if 0 <= pos && pos + 4 <= s.len() && hex_val(s[pos]) < 16 && hex_val(s[pos + 1]) < 16
        && hex_val(s[pos + 2]) < 16 && hex_val(s[pos + 3]) < 16 {
        Some(
            (hex_val(s[pos]) * 0x1000 + hex_val(s[pos + 1]) * 0x100 + hex_val(s[pos + 2]) * 0x10
                + hex_val(s[pos + 3])) as u32,
        )
    } else {
        None
    }
}

/// Reads four hexadecimal digits.
fn hex4(s: &Vec<char>, pos: usize) -> (r: Option<u32>)
    requires
        pos <= s@.len(),
    ensures
        r == spec_hex4(s@, pos as int),
        r is Some ==> pos + 4 <= s@.len(),
{
    if s.len() < 4 || pos > s.len() - 4 {
        return None;
    }
    let h0 = hex_val_exec(s[pos]);
    let h1 = hex_val_exec(s[pos + 1]);
    let h2 = hex_val_exec(s[pos + 2]);
    let h3 = hex_val_exec(s[pos + 3]);
    match (h0, h1, h2, h3) {
        (Some(a), Some(b), Some(c), Some(d)) => Some(
            (a as u32) * 0x1000 + (b as u32) * 0x100 + (c as u32) * 0x10 + (d as u32),
        ),
        _ => None,
    }
}

/// The character denoted by a `\u` escape starting at `pos` (just after the
/// `\u`), together with the position after it: either four hexadecimal digits
/// of a scalar value, or a surrogate pair written as two `\u` escapes.
pub open spec fn spec_u_escape(s: Seq<char>, pos: int) -> Option<(char, int)> {
    match spec_hex4(s, pos) {
        None => None,
        Some(v) => if v < 0xD800 || v > 0xDFFF {
            Some((v as char, pos + 4))
        } else if v < 0xDC00 {
            if pos + 6 <= s.len() && s[pos + 4] == '\\' && s[pos + 5] == 'u' {
                match spec_hex4(s, pos + 6) {
                    None => None,
                    Some(lo) => if 0xDC00 <= lo && lo <= 0xDFFF {
                        Some(
                            (
                                ((0x10000 + (v - 0xD800) * 0x400 + (lo - 0xDC00)) as u32) as char,
                                pos + 10,
                            ),
                        )
                    } else {
                        None
                    },
                }
            } else {
                None
            }
        } else {
            None
        },
    }
}

/// Reads a `\u` escape starting just after the `\u`.
fn u_escape(s: &Vec<char>, pos: usize) -> (r: Option<(char, usize)>)
    requires
        pos <= s@.len(),
    ensures
        ({
            let sp = spec_u_escape(s@, pos as int);
            match r {
                None => sp is None,
                Some((c, q)) => sp == Some((c, q as int)) && pos + 4 <= q && q <= s@.len(),
            }
        }),
{
    match hex4(s, pos) {
        None => None,
        Some(v) => {
            let n = s.len();
            proof {
                assert(pos + 4 <= n);
            }
            if v < 0xD800 || v > 0xDFFF {
                let c = char_from_code(v);
                proof {
                    assert(c == v as char);
                }
                Some((c, pos + 4))
            } else if v < 0xDC00 {
                if s.len() >= 6 && pos <= s.len() - 6 && s[pos + 4] == '\\' && s[pos + 5] == 'u' {
                    match hex4(s, pos + 6) {
                        None => None,
                        Some(lo) => {
                            if 0xDC00 <= lo && lo <= 0xDFFF {
                                let w: u32 = 0x10000 + (v - 0xD800) * 0x400 + (lo - 0xDC00);
                                let c = char_from_code(w);
                                proof {
                                    assert(c == w as char);
                                }
                                Some((c, pos + 10))
                            } else {
                                None
                            }
                        },
                    }
                } else {
                    None
                }
            } else {
                None
            }
        },
    }
}

/// The character denoted by a one-letter escape code, if any.
pub open spec fn spec_escape_code(e: char) -> Option<char> {
    if e == '"' { Some('"') }
    else if e == '\\' { Some('\\') }
    else if e == '/' { Some('/') }
    else if e == 'b' { Some('\u{8}') }
    else if e == 'f' { Some('\u{c}') }
    else if e == 'n' { Some('\n') }
    else if e == 'r' { Some('\r') }
    else if e == 't' { Some('\t') }
    else { None }
}

/// Looks up a one-letter escape code.
fn escape_code(e: char) -> (r: Option<char>)
    ensures
        r == spec_escape_code(e),
{
    if e == '"' { Some('"') }
    else if e == '\\' { Some('\\') }
    else if e == '/' { Some('/') }
    else if e == 'b' { Some('\u{8}') }
    else if e == 'f' { Some('\u{c}') }
    else if e == 'n' { Some('\n') }
    else if e == 'r' { Some('\r') }
    else if e == 't' { Some('\t') }
    else { None }
}

/// The characters of a string literal whose opening quote stands just before
/// `pos`, and the position after its closing quote.
pub open spec fn spec_string_body(s: Seq<char>, pos: int) -> Option<(Seq<char>, int)>
    decreases s.len() - pos,
{
    if pos < 0 || pos >= s.len() {
        None
    } else if s[pos] == '"' {
        Some((Seq::empty(), pos + 1))
    } else if s[pos] == '\\' {
        if pos + 1 < s.len() {
            if s[pos + 1] == 'u' {
                match spec_u_escape(s, pos + 2) {
                    None => None,
                    Some((c, next)) => if pos < next <= s.len() {
                        match spec_string_body(s, next) {
                            None => None,
                            Some((rest, end)) => Some((seq![c] + rest, end)),
                        }
                    } else {
                        None
                    },
                }
            } else {
                match spec_escape_code(s[pos + 1]) {
                    None => None,
                    Some(c) => match spec_string_body(s, pos + 2) {
                        None => None,
                        Some((rest, end)) => Some((seq![c] + rest, end)),
                    },
                }
            }
        } else {
            None
        }
    } else if (s[pos] as u32) < 0x20 {
        None
    } else {
        match spec_string_body(s, pos + 1) {
            None => None,
            Some((rest, end)) => Some((seq![s[pos]] + rest, end)),
        }
    }
}

/// Reads a string literal's characters, starting just after the opening
/// quote.
fn parse_string_body(s: &Vec<char>, pos: usize) -> (r: Option<(Vec<char>, usize)>)
    requires
        pos <= s@.len(),
    ensures
        ({
            let sp = spec_string_body(s@, pos as int);
            match r {
                None => sp is None,
                Some((cs, end)) => sp == Some((cs@, end as int)) && pos < end <= s@.len(),
            }
        }),
    decreases s@.len() - pos,
{
    if pos >= s.len() {
        return None;
    }
    let c = s[pos];
    if c == '"' {
        let out: Vec<char> = Vec::new();
        proof {
            assert(out@ =~= Seq::<char>::empty());
        }
        Some((out, pos + 1))
    } else if c == '\\' {
        if pos + 1 >= s.len() {
            return None;
        }
        let e = s[pos + 1];
        if e == 'u' {
            match u_escape(s, pos + 2) {
                None => None,
                Some((ch, next)) => {
                    match parse_string_body(s, next) {
                        None => None,
                        Some((rest, end)) => {
                            let mut out: Vec<char> = Vec::new();
                            out.push(ch);
                            let mut tail = rest;
                            out.append(&mut tail);
                            proof {
                                assert(out@ =~= seq![ch] + rest@);
                            }
                            Some((out, end))
                        },
                    }
                },
            }
        } else {
            match escape_code(e) {
                None => None,
                Some(ch) => {
                    match parse_string_body(s, pos + 2) {
                        None => None,
                        Some((rest, end)) => {
                            let mut out: Vec<char> = Vec::new();
                            out.push(ch);
                            let mut tail = rest;
                            out.append(&mut tail);
                            proof {
                                assert(out@ =~= seq![ch] + rest@);
                            }
                            Some((out, end))
                        },
                    }
                },
            }
        }
    } else if (c as u32) < 0x20 {
        None
    } else {
        match parse_string_body(s, pos + 1) {
            None => None,
            Some((rest, end)) => {
                let mut out: Vec<char> = Vec::new();
                out.push(c);
                let mut tail = rest;
                out.append(&mut tail);
                proof {
                    assert(out@ =~= seq![c] + rest@);
                }
                Some((out, end))
            },
        }
    }
}

/// The first position at or after `pos` that does not hold a decimal digit.
pub open spec fn digits_end(s: Seq<char>, pos: int) -> int
    decreases s.len() - pos,
{
    if 0 <= pos < s.len() && is_dec_digit(s[pos]) {
        digits_end(s, pos + 1)
    } else {
        pos
    }
}

/// Scanning digits stays within the text.
pub proof fn lemma_digits_end_bounds(s: Seq<char>, pos: int)
    requires
        0 <= pos <= s.len(),
    ensures
        pos <= digits_end(s, pos) <= s.len(),
    decreases s.len() - pos,
{
    if pos < s.len() && is_dec_digit(s[pos]) {
        lemma_digits_end_bounds(s, pos + 1);
    }
}

/// Advances past decimal digits.
fn digits_end_exec(s: &Vec<char>, pos: usize) -> (r: usize)
    requires
        pos <= s@.len(),
    ensures
        r == digits_end(s@, pos as int),
        pos <= r <= s@.len(),
{
    let mut i: usize = pos;
    while i < s.len() && dec_digit_val(s[i]).is_some()
        invariant
            pos <= i <= s@.len(),
            digits_end(s@, pos as int) == digits_end(s@, i as int),
        decreases s@.len() - i,
    {
        i = i + 1;
    }
    i
}

/// The end of a number's integer digits at `pos`: a zero stands alone, any
/// other first digit opens a run of digits.
pub open spec fn spec_intpart_end(s: Seq<char>, pos: int) -> Option<int> {
    if 0 <= pos < s.len() && is_dec_digit(s[pos]) {
        if s[pos] == '0' {
            Some(pos + 1)
        } else {
            Some(digits_end(s, pos))
        }
    } else {
        None
    }
}

/// The end of an optional fraction part at `pos`: a dot must be followed by
/// at least one digit; without a dot the fraction is empty.
pub open spec fn spec_frac_end(s: Seq<char>, pos: int) -> Option<int> {
    if 0 <= pos < s.len() && s[pos] == '.' {
        let e = digits_end(s, pos + 1);
        if e > pos + 1 {
            Some(e)
        } else {
            None
        }
    } else {
        Some(pos)
    }
}

/// The end of an optional exponent part at `pos`: an `e` or `E`, an optional
/// sign, then at least one digit; without the letter the exponent is empty.
pub open spec fn spec_exp_end(s: Seq<char>, pos: int) -> Option<int> {
    if 0 <= pos < s.len() && (s[pos] == 'e' || s[pos] == 'E') {
        let sp = if pos + 1 < s.len() && (s[pos + 1] == '+' || s[pos + 1] == '-') {
            pos + 2
        } else {
            pos + 1
        };
        let e = digits_end(s, sp);
        if e > sp {
            Some(e)
        } else {
            None
        }
    } else {
        Some(pos)
    }
}

/// The extent of a number token at `pos`: the end of its integer digits and
/// the end of the whole token.
pub open spec fn spec_number_end(s: Seq<char>, pos: int) -> Option<(int, int)> {
    let ip = if 0 <= pos < s.len() && s[pos] == '-' { pos + 1 } else { pos };
    match spec_intpart_end(s, ip) {
        None => None,
        Some(ie) => match spec_frac_end(s, ie) {
            None => None,
            Some(fe) => match spec_exp_end(s, fe) {
                None => None,
                Some(ee) => Some((ie, ee)),
            },
        },
    }
}

/// The number token at `pos` as a JSON value: the raw text, and its integer
/// value when the token is a plain integer whose value fits a 64-bit signed
/// integer.
pub open spec fn spec_number(s: Seq<char>, pos: int) -> Option<(JsonV, int)> {
    match spec_number_end(s, pos) {
        None => None,
        Some((ie, end)) => {
            let neg = 0 <= pos < s.len() && s[pos] == '-';
            let ip = if neg { pos + 1 } else { pos };
            let iv = if ie == end {
                let v = if neg { -digits_val(s.subrange(ip, ie)) } else {
                    digits_val(s.subrange(ip, ie))
                };
                if -0x8000000000000000 <= v <= 0x7fffffffffffffff {
                    Some(v as i64)
                } else {
                    None
                }
            } else {
                None
            };
            Some((JsonV::Num { raw: s.subrange(pos, end), int_val: iv }, end))
        },
    }
}

/// Copies a range of characters.
fn copy_range(s: &Vec<char>, a: usize, b: usize) -> (r: Vec<char>)
    requires
        a <= b <= s@.len(),
    ensures
        r@ == s@.subrange(a as int, b as int),
{
    let mut out: Vec<char> = Vec::new();
    let mut i: usize = a;
    while i < b
        invariant
            a <= i <= b,
            out@ == s@.subrange(a as int, i as int),
        decreases b - i,
    {
        out.push(s[i]);
        i = i + 1;
        proof {
            assert(out@ =~= s@.subrange(a as int, i as int));
        }
    }
    out
}

/// The value of the digits in `s[a..b]`, when it fits an unsigned 64-bit
/// integer.
fn digits_range_u64(s: &Vec<char>, a: usize, b: usize) -> (r: Option<u64>)
    requires
        a <= b <= s@.len(),
        forall|k: int| a <= k < b ==> is_dec_digit(s@[k]),
    ensures
        ({
            let v = digits_val(s@.subrange(a as int, b as int));
            match r {
                Some(x) => x == v,
                None => v > 0xffffffffffffffff,
            }
        }),
{
    let ghost whole = s@.subrange(a as int, b as int);
    proof {
        assert(forall|k: int| 0 <= k < whole.len() ==> is_dec_digit(whole[k]));
    }
    let mut acc: u64 = 0;
    let mut i: usize = a;
    while i < b
        invariant
            a <= i <= b,
            whole == s@.subrange(a as int, b as int),
            acc == digits_val(whole.subrange(0, i - a)),
        decreases b - i,
    {
        let d = match dec_digit_val(s[i]) {
            Some(d) => d,
            None => {
                proof {
                    assert(is_dec_digit(s@[i as int]));
                }
                0
            },
        };
        proof {
            let pre = whole.subrange(0, i - a);
            let ext = whole.subrange(0, i + 1 - a);
            assert(ext.drop_last() =~= pre);
            assert(ext.last() == s@[i as int]);
        }
        let m = match acc.checked_mul(10) {
            Some(m) => m,
            None => {
                proof {
                    lemma_digits_val_nonneg(whole.subrange(0, i + 1 - a));
                    lemma_digits_val_prefix_le(whole, i + 1 - a);
                }
                return None;
            },
        };
        let next = match m.checked_add(d as u64) {
            Some(next) => next,
            None => {
                proof {
                    lemma_digits_val_prefix_le(whole, i + 1 - a);
                }
                return None;
            },
        };
        acc = next;
        i = i + 1;
    }
    proof {
        assert(whole.subrange(0, b - a) =~= whole);
    }
    Some(acc)
}

/// Reads a number token.
fn parse_number(s: &Vec<char>, pos: usize) -> (r: Option<(Json, usize)>)
    requires
        pos <= s@.len(),
    ensures
        ({
            let sp = spec_number(s@, pos as int);
            match r {
                None => sp is None,
                Some((v, end)) => sp == Some((v@, end as int)) && pos < end <= s@.len(),
            }
        }),
{
    let neg = pos < s.len() && s[pos] == '-';
    let ip: usize = if neg { pos + 1 } else { pos };
    if ip >= s.len() || dec_digit_val(s[ip]).is_none() {
        return None;
    }
    let ie: usize = if s[ip] == '0' { ip + 1 } else { digits_end_exec(s, ip) };
    proof {
        if s@[ip as int] != '0' {
            lemma_digits_end_bounds(s@, ip + 1);
            assert(digits_end(s@, ip as int) == digits_end(s@, ip + 1));
        }
        assert(ip < ie);
    }
    // fraction
    let fe: usize = if ie < s.len() && s[ie] == '.' {
        let e = digits_end_exec(s, ie + 1);
        if e == ie + 1 {
            return None;
        }
        e
    } else {
        ie
    };
    // exponent
    let ee: usize = if fe < s.len() && (s[fe] == 'e' || s[fe] == 'E') {
        let sp: usize = if fe + 1 < s.len() && (s[fe + 1] == '+' || s[fe + 1] == '-') {
            fe + 2
        } else {
            fe + 1
        };
        let e = digits_end_exec(s, sp);
        if e == sp {
            return None;
        }
        e
    } else {
        fe
    };
    proof {
        assert(spec_number_end(s@, pos as int) == Some((ie as int, ee as int)));
    }
    let iv: Option<i64> = if ie == ee {
        proof {
            assert forall|k: int| ip <= k < ie implies is_dec_digit(s@[k]) by {
                if s@[ip as int] == '0' {
                    assert(k == ip);
                } else {
                    lemma_digits_scan(s@, ip as int, ie as int, k);
                }
            }
        }
        match digits_range_u64(s, ip, ie) {
            None => None,
            Some(mag) => {
                if neg {
                    if mag <= 0x7fffffffffffffff {
                        Some(-(mag as i64))
                    } else if mag == 0x8000000000000000 {
                        Some(i64::MIN)
                    } else {
                        None
                    }
                } else {
                    if mag <= 0x7fffffffffffffff {
                        Some(mag as i64)
                    } else {
                        None
                    }
                }
            },
        }
    } else {
        None
    };
    let raw = copy_range(s, pos, ee);
    Some((Json::Num { raw: string_from_chars(&raw), int_val: iv }, ee))
}

/// Every position scanned over by a digit run holds a digit.
proof fn lemma_digits_scan(s: Seq<char>, pos: int, end: int, k: int)
    requires
        0 <= pos <= s.len(),
        end == digits_end(s, pos),
        pos <= k < end,
    ensures
        is_dec_digit(s[k]),
    decreases k - pos,
{
    lemma_digits_end_bounds(s, pos);
    if k > pos {
        lemma_digits_scan(s, pos + 1, end, k);
    }
}

/// Whether the literal `lit` stands at `pos` in `s`.
pub open spec fn spec_lit(s: Seq<char>, pos: int, lit: Seq<char>) -> bool {
    &&& 0 <= pos
    &&& pos + lit.len() <= s.len()
    &&& forall|k: int| 0 <= k < lit.len() ==> s[pos + k] == lit[k]
}

/// The JSON value whose first token starts exactly at `pos`, and the position
/// after it.
pub open spec fn spec_value(s: Seq<char>, pos: int) -> Option<(JsonV, int)>
    decreases s.len() - pos, 2int,
{
    if pos < 0 || pos >= s.len() {
        None
    } else {
        let c = s[pos];
        if c == 'n' {
            if spec_lit(s, pos, seq!['n', 'u', 'l', 'l']) {
                Some((JsonV::Null, pos + 4))
            } else {
                None
            }
        } else if c == 't' {
            if spec_lit(s, pos, seq!['t', 'r', 'u', 'e']) {
                Some((JsonV::Bool(true), pos + 4))
            } else {
                None
            }
        } else if c == 'f' {
            if spec_lit(s, pos, seq!['f', 'a', 'l', 's', 'e']) {
                Some((JsonV::Bool(false), pos + 5))
            } else {
                None
            }
        } else if c == '"' {
            match spec_string_body(s, pos + 1) {
                None => None,
                Some((cs, end)) => Some((JsonV::Str(cs), end)),
            }
        } else if c == '-' || is_dec_digit(c) {
            spec_number(s, pos)
        } else if c == '[' {
            let i = spec_ws(s, pos + 1);
            if pos < i <= s.len() {
                if i < s.len() && s[i] == ']' {
                    Some((JsonV::Arr(Seq::empty()), i + 1))
                } else {
                    match spec_items(s, i) {
                        None => None,
                        Some((items, end)) => Some((JsonV::Arr(items), end)),
                    }
                }
            } else {
                None
            }
        } else if c == '{' {
            let i = spec_ws(s, pos + 1);
            if pos < i <= s.len() {
                if i < s.len() && s[i] == '}' {
                    Some((JsonV::Obj(Seq::empty()), i + 1))
                } else {
                    match spec_members(s, i) {
                        None => None,
                        Some((fields, end)) => Some((JsonV::Obj(fields), end)),
                    }
                }
            } else {
                None
            }
        } else {
            None
        }
    }
}

/// One or more array items starting at `pos`, up to and over the closing
/// bracket.
pub open spec fn spec_items(s: Seq<char>, pos: int) -> Option<(Seq<JsonV>, int)>
    decreases s.len() - pos, 3int,
{
    match spec_value(s, pos) {
        None => None,
        Some((v, e)) => if pos < e <= s.len() {
            let j = spec_ws(s, e);
            if e <= j < s.len() {
                if s[j] == ',' {
                    let k = spec_ws(s, j + 1);
                    if pos < k <= s.len() {
                        match spec_items(s, k) {
                            None => None,
                            Some((rest, end)) => Some((seq![v] + rest, end)),
                        }
                    } else {
                        None
                    }
                } else if s[j] == ']' {
                    Some((seq![v], j + 1))
                } else {
                    None
                }
            } else {
                None
            }
        } else {
            None
        },
    }
}

/// One or more object members starting at `pos` (at a key's opening quote),
/// up to and over the closing brace.
pub open spec fn spec_members(s: Seq<char>, pos: int) -> Option<(Seq<(Seq<char>, JsonV)>, int)>
    decreases s.len() - pos, 3int,
{
    if 0 <= pos < s.len() && s[pos] == '"' {
        match spec_string_body(s, pos + 1) {
            None => None,
            Some((key, ke)) => if pos < ke <= s.len() {
                let c = spec_ws(s, ke);
                if ke <= c < s.len() && s[c] == ':' {
                    let vp = spec_ws(s, c + 1);
                    if pos < vp <= s.len() {
                        match spec_value(s, vp) {
                            None => None,
                            Some((v, e)) => if pos < e <= s.len() {
                                let j = spec_ws(s, e);
                                if e <= j < s.len() {
                                    if s[j] == ',' {
                                        let k = spec_ws(s, j + 1);
                                        if pos < k <= s.len() {
                                            match spec_members(s, k) {
                                                None => None,
                                                Some((rest, end)) => Some(
                                                    (seq![(key, v)] + rest, end),
                                                ),
                                            }
                                        } else {
                                            None
                                        }
                                    } else if s[j] == '}' {
                                        Some((seq![(key, v)], j + 1))
                                    } else {
                                        None
                                    }
                                } else {
                                    None
                                }
                            } else {
                                None
                            },
                        }
                    } else {
                        None
                    }
                } else {
                    None
                }
            } else {
                None
            },
        }
    } else {
        None
    }
}

/// Reads the value whose first token starts exactly at `pos`.
fn parse_value(s: &Vec<char>, pos: usize) -> (r: Option<(Json, usize)>)
    requires
        pos <= s@.len(),
    ensures
        ({
            let sp = spec_value(s@, pos as int);
            match r {
                None => sp is None,
                Some((v, end)) => sp == Some((v@, end as int)) && pos < end <= s@.len(),
            }
        }),
    decreases s@.len() - pos, 2int,
{
    if pos >= s.len() {
        return None;
    }
    let c = s[pos];
    let rem: usize = s.len() - pos;
    if c == 'n' {
        if rem >= 4 && s[pos + 1] == 'u' && s[pos + 2] == 'l' && s[pos + 3] == 'l' {
            proof {
                assert(spec_lit(s@, pos as int, seq!['n', 'u', 'l', 'l']));
            }
            Some((Json::Null, pos + 4))
        } else {
            proof {
                assert(!spec_lit(s@, pos as int, seq!['n', 'u', 'l', 'l']));
            }
            None
        }
    } else if c == 't' {
        if rem >= 4 && s[pos + 1] == 'r' && s[pos + 2] == 'u' && s[pos + 3] == 'e' {
            proof {
                assert(spec_lit(s@, pos as int, seq!['t', 'r', 'u', 'e']));
            }
            Some((Json::Bool(true), pos + 4))
        } else {
            proof {
                assert(!spec_lit(s@, pos as int, seq!['t', 'r', 'u', 'e']));
            }
            None
        }
    } else if c == 'f' {
        if rem >= 5 && s[pos + 1] == 'a' && s[pos + 2] == 'l' && s[pos + 3] == 's' && s[pos + 4]
            == 'e' {
            proof {
                assert(spec_lit(s@, pos as int, seq!['f', 'a', 'l', 's', 'e']));
            }
            Some((Json::Bool(false), pos + 5))
        } else {
            proof {
                assert(!spec_lit(s@, pos as int, seq!['f', 'a', 'l', 's', 'e']));
            }
            None
        }
    } else if c == '"' {
        match parse_string_body(s, pos + 1) {
            None => None,
            Some((cs, end)) => Some((Json::Str(string_from_chars(&cs)), end)),
        }
    } else if c == '-' || dec_digit_val(c).is_some() {
        parse_number(s, pos)
    } else if c == '[' {
        let i = ws_to(s, pos + 1);
        if i < s.len() && s[i] == ']' {
            let items: Vec<Json> = Vec::new();
            proof {
                assert(views_of(items@) =~= Seq::<JsonV>::empty());
            }
            Some((Json::Arr(items), i + 1))
        } else {
            match parse_items(s, i) {
                None => None,
                Some((items, end)) => Some((Json::Arr(items), end)),
            }
        }
    } else if c == '{' {
        let i = ws_to(s, pos + 1);
        if i < s.len() && s[i] == '}' {
            let fields: Vec<(String, Json)> = Vec::new();
            proof {
                assert(view_members(fields@) =~= Seq::<(Seq<char>, JsonV)>::empty());
            }
            Some((Json::Obj(fields), i + 1))
        } else {
            match parse_members(s, i) {
                None => None,
                Some((fields, end)) => Some((Json::Obj(fields), end)),
            }
        }
    } else {
        None
    }
}

/// Reads array items up to and over the closing bracket.
fn parse_items(s: &Vec<char>, pos: usize) -> (r: Option<(Vec<Json>, usize)>)
    requires
        pos <= s@.len(),
    ensures
        ({
            let sp = spec_items(s@, pos as int);
            match r {
                None => sp is None,
                Some((items, end)) => sp == Some((views_of(items@), end as int)) && pos < end
                    <= s@.len(),
            }
        }),
    decreases s@.len() - pos, 3int,
{
    match parse_value(s, pos) {
        None => None,
        Some((v, e)) => {
            let j = ws_to(s, e);
            if j >= s.len() {
                return None;
            }
            if s[j] == ',' {
                let k = ws_to(s, j + 1);
                match parse_items(s, k) {
                    None => None,
                    Some((rest, end)) => {
                        let mut out: Vec<Json> = Vec::new();
                        let ghost v_view = v@;
                        let ghost rest_views = views_of(rest@);
                        out.push(v);
                        let mut tail = rest;
                        out.append(&mut tail);
                        proof {
                            assert(views_of(out@) =~= seq![v_view] + rest_views);
                        }
                        Some((out, end))
                    },
                }
            } else if s[j] == ']' {
                let mut out: Vec<Json> = Vec::new();
                let ghost v_view = v@;
                out.push(v);
                proof {
                    assert(views_of(out@) =~= seq![v_view]);
                }
                Some((out, j + 1))
            } else {
                None
            }
        },
    }
}

/// Reads object members up to and over the closing brace.
fn parse_members(s: &Vec<char>, pos: usize) -> (r: Option<(Vec<(String, Json)>, usize)>)
    requires
        pos <= s@.len(),
    ensures
        ({
            let sp = spec_members(s@, pos as int);
            match r {
                None => sp is None,
                Some((fields, end)) => sp == Some((view_members(fields@), end as int)) && pos < end
                    <= s@.len(),
            }
        }),
    decreases s@.len() - pos, 3int,
{
    if pos >= s.len() || s[pos] != '"' {
        return None;
    }
    match parse_string_body(s, pos + 1) {
        None => None,
        Some((key, ke)) => {
            let c = ws_to(s, ke);
            if c >= s.len() || s[c] != ':' {
                return None;
            }
            let vp = ws_to(s, c + 1);
            match parse_value(s, vp) {
                None => None,
                Some((v, e)) => {
                    let j = ws_to(s, e);
                    if j >= s.len() {
                        return None;
                    }
                    if s[j] == ',' {
                        let k = ws_to(s, j + 1);
                        match parse_members(s, k) {
                            None => None,
                            Some((rest, end)) => {
                                let mut out: Vec<(String, Json)> = Vec::new();
                                let ghost key_view = key@;
                                let ghost v_view = v@;
                                let ghost rest_views = view_members(rest@);
                                out.push((string_from_chars(&key), v));
                                let mut tail = rest;
                                out.append(&mut tail);
                                proof {
                                    assert(view_members(out@) =~= seq![(key_view, v_view)]
                                        + rest_views);
                                }
                                Some((out, end))
                            },
                        }
                    } else if s[j] == '}' {
                        let mut out: Vec<(String, Json)> = Vec::new();
                        let ghost key_view = key@;
                        let ghost v_view = v@;
                        out.push((string_from_chars(&key), v));
                        proof {
                            assert(view_members(out@) =~= seq![(key_view, v_view)]);
                        }
                        Some((out, j + 1))
                    } else {
                        None
                    }
                },
            }
        },
    }
}

/// The JSON value written by a whole text: one value surrounded by
/// whitespace, reaching to the end.
pub open spec fn spec_parse_json(s: Seq<char>) -> Option<JsonV> {
    let i = spec_ws(s, 0);
    match spec_value(s, i) {
        None => None,
        Some((v, e)) => if spec_ws(s, e) == s.len() {
            Some(v)
        } else {
            None
        },
    }
}

/// Parses a whole JSON text.
pub fn parse_json(text: &str) -> (r: Option<Json>)
    ensures
        match r {
            Some(j) => spec_parse_json(text@) == Some(j@),
            None => spec_parse_json(text@) is None,
        },
{
    let s = chars_of(text);
    let i = ws_to(&s, 0);
    match parse_value(&s, i) {
        None => None,
        Some((v, e)) => {
            let f = ws_to(&s, e);
            if f == s.len() {
                Some(v)
            } else {
                None
            }
        },
    }
}

/// A hexadecimal digit character reads back as its value.
proof fn lemma_hex_val_char(d: int)
    requires
        0 <= d < 16,
    ensures
        hex_val(hex_char(d)) == d,
{
}

/// The front decomposition of an escaped string.
proof fn lemma_escape_string_front(t: Seq<char>)
    requires
        t.len() > 0,
    ensures
        spec_escape_string(t) == spec_escape_one(t[0]) + spec_escape_string(t.drop_first()),
    decreases t.len(),
{
    if t.len() == 1 {
        assert(t.drop_last() =~= Seq::<char>::empty());
        assert(t.drop_first() =~= Seq::<char>::empty());
        assert(spec_escape_string(Seq::<char>::empty()) == Seq::<char>::empty());
        assert(spec_escape_string(t) =~= spec_escape_one(t[0]) + spec_escape_string(
            t.drop_first(),
        ));
    } else {
        let u = t.drop_last();
        lemma_escape_string_front(u);
        assert(u[0] == t[0]);
        assert(u.drop_first() =~= t.drop_first().drop_last());
        assert(t.drop_first().last() == t.last());
        assert(spec_escape_string(t.drop_first()) == spec_escape_string(
            t.drop_first().drop_last(),
        ) + spec_escape_one(t.drop_first().last()));
        assert(spec_escape_string(t) =~= spec_escape_one(t[0]) + spec_escape_string(
            t.drop_first(),
        ));
    }
}

/// Parsing an escaped string: the characters the escape wrote come back
/// exactly, and the parse stops just past the closing quote.
pub proof fn lemma_escaped_string_parses(t: Seq<char>, s: Seq<char>, pos: int)
    requires
        0 <= pos,
        pos + spec_escape_string(t).len() + 1 <= s.len(),
        s.subrange(pos, pos + spec_escape_string(t).len() + 1) == spec_escape_string(t)
            + seq!['"'],
    ensures
        spec_string_body(s, pos) == Some((t, pos + spec_escape_string(t).len() + 1)),
    decreases t.len(),
{
    let esc = spec_escape_string(t);
    let window = s.subrange(pos, pos + esc.len() + 1);
    if t.len() == 0 {
        assert(esc == Seq::<char>::empty());
        assert(s[pos] == window[0]);
        assert(s[pos] == '"');
        assert(t =~= Seq::<char>::empty());
    } else {
        lemma_escape_string_front(t);
        let c = t[0];
        let e1 = spec_escape_one(c);
        let rest = spec_escape_string(t.drop_first());
        assert(esc == e1 + rest);
        let pos2 = pos + e1.len();
        assert(s.subrange(pos2, pos2 + rest.len() + 1) =~= rest + seq!['"']) by {
            assert forall|k: int| 0 <= k < rest.len() + 1 implies s.subrange(
                pos2,
                pos2 + rest.len() + 1,
            )[k] == (rest + seq!['"'])[k] by {
                assert(s[pos2 + k] == window[e1.len() + k]);
                assert(window[e1.len() + k] == (esc + seq!['"'])[e1.len() + k]);
            }
        }
        assert(seq![c] + t.drop_first() =~= t);
        if c == '"' {
            assert(s[pos] == window[0] && s[pos + 1] == window[1]);
            assert(s[pos] == '\\' && s[pos + 1] == '"');
            lemma_escaped_string_parses(t.drop_first(), s, pos + 2);
        } else if c == '\\' {
            assert(s[pos] == window[0] && s[pos + 1] == window[1]);
            assert(s[pos] == '\\' && s[pos + 1] == '\\');
            lemma_escaped_string_parses(t.drop_first(), s, pos + 2);
        } else if c == '\u{8}' {
            assert(s[pos] == window[0] && s[pos + 1] == window[1]);
            assert(s[pos] == '\\' && s[pos + 1] == 'b');
            lemma_escaped_string_parses(t.drop_first(), s, pos + 2);
        } else if c == '\u{c}' {
            assert(s[pos] == window[0] && s[pos + 1] == window[1]);
            assert(s[pos] == '\\' && s[pos + 1] == 'f');
            lemma_escaped_string_parses(t.drop_first(), s, pos + 2);
        } else if c == '\n' {
            assert(s[pos] == window[0] && s[pos + 1] == window[1]);
            assert(s[pos] == '\\' && s[pos + 1] == 'n');
            lemma_escaped_string_parses(t.drop_first(), s, pos + 2);
        } else if c == '\r' {
            assert(s[pos] == window[0] && s[pos + 1] == window[1]);
            assert(s[pos] == '\\' && s[pos + 1] == 'r');
            lemma_escaped_string_parses(t.drop_first(), s, pos + 2);
        } else if c == '\t' {
            assert(s[pos] == window[0] && s[pos + 1] == window[1]);
            assert(s[pos] == '\\' && s[pos + 1] == 't');
            lemma_escaped_string_parses(t.drop_first(), s, pos + 2);
        } else if (c as u32) < 0x20 {
            vstd::utf8::char_is_scalar(c);
            vstd::utf8::char_u32_cast(c, c as u32);
            let cv = (c as u32) as int;
            assert(cv < 0x20);
            let h = spec_hex_fixed(cv, 4);
            lemma_hex_fixed_len(cv, 4);
            assert(e1 == seq!['\\', 'u'] + h);
            assert(s[pos] == window[0] && s[pos + 1] == window[1]);
            assert(s[pos] == '\\' && s[pos + 1] == 'u');
            // the four digits of a small scalar
            assert(spec_hex_fixed(0, 0) =~= Seq::<char>::empty());
            assert(spec_hex_fixed(0, 1) =~= seq![hex_char(0)]);
            assert(spec_hex_fixed(0, 2) =~= seq![hex_char(0), hex_char(0)]);
            assert(cv / 16 < 16 && (cv / 16) / 16 == 0 && (cv / 16) % 16 == cv / 16);
            assert(spec_hex_fixed(cv / 16, 3) =~= seq![hex_char(0), hex_char(0), hex_char(cv / 16)]);
            assert(h =~= seq![hex_char(0), hex_char(0), hex_char(cv / 16), hex_char(cv % 16)]);
            assert(s[pos + 2] == window[2] && s[pos + 3] == window[3] && s[pos + 4] == window[4]
                && s[pos + 5] == window[5]);
            assert(s[pos + 2] == hex_char(0) && s[pos + 3] == hex_char(0) && s[pos + 4]
                == hex_char(cv / 16) && s[pos + 5] == hex_char(cv % 16));
            lemma_hex_val_char(0);
            lemma_hex_val_char(cv / 16);
            lemma_hex_val_char(cv % 16);
            assert(pos + 2 + 4 <= s.len());
            assert(spec_hex4(s, pos + 2) == Some(
                (hex_val(s[pos + 2]) * 0x1000 + hex_val(s[pos + 3]) * 0x100 + hex_val(s[pos + 4])
                    * 0x10 + hex_val(s[pos + 5])) as u32,
            ));
            assert(hex_val(s[pos + 2]) * 0x1000 + hex_val(s[pos + 3]) * 0x100 + hex_val(
                s[pos + 4],
            ) * 0x10 + hex_val(s[pos + 5]) == cv);
            assert(spec_hex4(s, pos + 2) == Some(c as u32));
            assert((c as u32) as char == c);
            assert(spec_u_escape(s, pos + 2) == Some((c, pos + 6)));
            lemma_escaped_string_parses(t.drop_first(), s, pos + 6);
        } else {
            assert(e1 == seq![c]);
            assert(s[pos] == window[0]);
            assert(s[pos] == c);
            lemma_escaped_string_parses(t.drop_first(), s, pos + 1);
        }
    }
}

/// Round trip of the string codec: parsing the encoding of a string value
/// gives that value back.
pub proof fn lemma_parse_of_encoded_string(t: Seq<char>)
    ensures
        spec_parse_json(spec_encode(JsonV::Str(t))) == Some(JsonV::Str(t)),
{
    lemma_parse_of_encoded(JsonV::Str(t));
}

/// The characters that can close off a value inside a larger text.
pub open spec fn is_delim(c: char) -> bool {
    c == ',' || c == ']' || c == '}'
}

/// The characters a value's encoding can start with.
pub open spec fn is_value_start(c: char) -> bool {
    ||| c == 'n'
    ||| c == 't'
    ||| c == 'f'
    ||| c == '"'
    ||| c == '-'
    ||| is_dec_digit(c)
    ||| c == '['
    ||| c == '{'
}

/// A value as the library itself writes one: every number is the decimal
/// renderer's output, carrying its value.
pub open spec fn wf_json(v: JsonV) -> bool
    decreases v
    via wf_json_decreases
{
    match v {
        JsonV::Null => true,
        JsonV::Bool(b) => true,
        JsonV::Num { raw, int_val } => exists|n: i64|
            raw == spec_dec_signed(n as int) && int_val == Some(n),
        JsonV::Str(t) => true,
        JsonV::Arr(items) => forall|i: int| 0 <= i < items.len() ==> wf_json(#[trigger] items[i]),
        JsonV::Obj(fields) => forall|i: int|
            0 <= i < fields.len() ==> wf_json(#[trigger] fields[i].1),
    }
}

#[via_fn]
proof fn wf_json_decreases(v: JsonV) {
    match v {
        JsonV::Arr(items) => {
            assert forall|i: int| 0 <= i < items.len() implies decreases_to!(v => items[i]) by {
                assert(decreases_to!(v => items));
                assert(decreases_to!(items => items[i]));
            }
        },
        JsonV::Obj(fields) => {
            assert forall|i: int| 0 <= i < fields.len() implies decreases_to!(
                v => fields[i].1,
            ) by {
                assert(decreases_to!(v => fields));
                assert(decreases_to!(fields => fields[i]));
                assert(decreases_to!(fields[i] => fields[i].1));
            }
        },
        _ => {},
    }
}

/// A run of exactly the digits in front of a non-digit ends there.
proof fn lemma_digits_end_segment(s: Seq<char>, pos: int, k: int)
    requires
        0 <= pos,
        pos + k <= s.len(),
        0 <= k,
        forall|j: int| pos <= j < pos + k ==> is_dec_digit(s[j]),
        pos + k == s.len() || !is_dec_digit(s[pos + k]),
    ensures
        digits_end(s, pos) == pos + k,
    decreases k,
{
    if k > 0 {
        lemma_digits_end_segment(s, pos + 1, k - 1);
    }
}

/// A rendered number inside a larger text parses back to its value, when a
/// delimiter or the end of the text follows it.
#[verifier::rlimit(100)]
#[verifier::spinoff_prover]
proof fn lemma_encoded_number_parses(n: i64, s: Seq<char>, pos: int)
    requires
        0 <= pos,
        pos + spec_dec_signed(n as int).len() <= s.len(),
        s.subrange(pos, pos + spec_dec_signed(n as int).len() as int) == spec_dec_signed(n as int),
        pos + spec_dec_signed(n as int).len() == s.len() || is_delim(
            s[pos + spec_dec_signed(n as int).len()],
        ),
    ensures
        spec_number(s, pos) == Some(
            (
                JsonV::Num { raw: spec_dec_signed(n as int), int_val: Some(n) },
                pos + spec_dec_signed(n as int).len(),
            ),
        ),
{
    let raw = spec_dec_signed(n as int);
    let end = pos + raw.len() as int;
    let window = s.subrange(pos, end);
    if n >= 0 {
        lemma_dec_all_digits(n as int);
        lemma_dec_val(n as int);
        assert(raw == spec_dec(n as int));
        assert(forall|j: int| pos <= j < end ==> s[j] == window[j - pos]);
        assert(forall|j: int| pos <= j < end ==> is_dec_digit(s[j]));
        assert(s[pos] != '-') by {
            assert(is_dec_digit(s[pos]));
        }
        lemma_digits_end_segment(s, pos, raw.len() as int);
        if n == 0 {
            assert(raw =~= seq!['0']);
            assert(spec_intpart_end(s, pos) == Some(pos + 1));
        } else {
            lemma_dec_leading(n as int);
            assert(s[pos] == raw[0]);
            assert(s[pos] != '0');
            assert(spec_intpart_end(s, pos) == Some(end));
        }
        let ie = spec_intpart_end(s, pos)->0;
        assert(ie == end);
        assert(end == s.len() || !is_dec_digit(s[end]));
        assert(spec_frac_end(s, ie) == Some(ie)) by {
            if ie < s.len() {
                assert(is_delim(s[ie]));
                assert(s[ie] != '.');
            }
        }
        assert(spec_exp_end(s, ie) == Some(ie)) by {
            if ie < s.len() {
                assert(s[ie] != 'e' && s[ie] != 'E');
            }
        }
        assert(spec_number_end(s, pos) == Some((ie, ie)));
        assert(s.subrange(pos, ie) =~= raw);
        assert(digits_val(s.subrange(pos, ie)) == n);
    } else {
        let m = -(n as int);
        lemma_dec_all_digits(m);
        lemma_dec_val(m);
        lemma_dec_leading(m);
        assert(raw == seq!['-'] + spec_dec(m));
        assert(forall|j: int| pos <= j < end ==> s[j] == window[j - pos]);
        assert(s[pos] == '-');
        assert(forall|j: int| pos + 1 <= j < end ==> s[j] == spec_dec(m)[j - pos - 1]);
        assert(forall|j: int| pos + 1 <= j < end ==> is_dec_digit(s[j]));
        lemma_digits_end_segment(s, pos + 1, raw.len() as int - 1);
        assert(is_dec_digit(s[pos + 1]));
        assert(s[pos + 1] == spec_dec(m)[0]);
        assert(s[pos + 1] != '0');
        assert(spec_intpart_end(s, pos + 1) == Some(end));
        let ie = end;
        assert(spec_frac_end(s, ie) == Some(ie)) by {
            if ie < s.len() {
                assert(s[ie] != '.');
            }
        }
        assert(spec_exp_end(s, ie) == Some(ie)) by {
            if ie < s.len() {
                assert(s[ie] != 'e' && s[ie] != 'E');
            }
        }
        assert(spec_number_end(s, pos) == Some((ie, ie)));
        assert(s.subrange(pos + 1, ie) =~= spec_dec(m));
        assert(digits_val(s.subrange(pos + 1, ie)) == m);
        assert(s.subrange(pos, ie) =~= raw);
    }
}

/// An encoded value starts with one of the value-start characters, which is
/// never whitespace, a delimiter, a colon or a quote mismatch.
proof fn lemma_encode_starts(v: JsonV)
    requires
        wf_json(v),
    ensures
        spec_encode(v).len() >= 1,
        is_value_start(spec_encode(v)[0]),
{
    match v {
        JsonV::Num { raw, int_val } => {
            let n = choose|n: i64| raw == spec_dec_signed(n as int) && int_val == Some(n);
            if n >= 0 {
                lemma_dec_all_digits(n as int);
                assert(is_dec_digit(raw[0]));
            } else {
                assert(raw == seq!['-'] + spec_dec(-(n as int)));
                assert(raw[0] == '-');
            }
        },
        _ => {},
    }
}

/// A value-start character is not whitespace and not a structural character.
proof fn lemma_value_start_class(c: char)
    requires
        is_value_start(c),
    ensures
        !is_ws_char(c),
        !is_delim(c),
        c != ':',
        c != '}',
        c != ']',
{
}

/// The front decomposition of a joined item list.
proof fn lemma_encode_items_front(items: Seq<JsonV>)
    requires
        items.len() > 0,
    ensures
        items.len() == 1 ==> crate::json::spec_encode_items(items) == spec_encode(items[0]),
        items.len() > 1 ==> crate::json::spec_encode_items(items) == spec_encode(items[0])
            + seq![','] + crate::json::spec_encode_items(items.drop_first()),
    decreases items.len(),
{
    if items.len() > 1 {
        let u = items.drop_last();
        lemma_encode_items_front(u);
        assert(u[0] == items[0]);
        assert(u.drop_first() =~= items.drop_first().drop_last());
        assert(items.drop_first().last() == items.last());
        if items.len() == 2 {
            assert(items.drop_first() =~= seq![items.last()]);
            assert(crate::json::spec_encode_items(items.drop_first()) == spec_encode(
                items.last(),
            ));
            assert(crate::json::spec_encode_items(items) =~= spec_encode(items[0]) + seq![',']
                + crate::json::spec_encode_items(items.drop_first()));
        } else {
            assert(crate::json::spec_encode_items(items.drop_first())
                == crate::json::spec_encode_items(items.drop_first().drop_last()) + seq![',']
                + spec_encode(items.drop_first().last()));
            assert(crate::json::spec_encode_items(items) =~= spec_encode(items[0]) + seq![',']
                + crate::json::spec_encode_items(items.drop_first()));
        }
    }
}

/// The front decomposition of a joined member list.
proof fn lemma_encode_members_front(fields: Seq<(Seq<char>, JsonV)>)
    requires
        fields.len() > 0,
    ensures
        fields.len() == 1 ==> crate::json::spec_encode_members(fields)
            == crate::json::spec_encode_member(fields[0]),
        fields.len() > 1 ==> crate::json::spec_encode_members(fields)
            == crate::json::spec_encode_member(fields[0]) + seq![',']
            + crate::json::spec_encode_members(fields.drop_first()),
    decreases fields.len(),
{
    if fields.len() > 1 {
        let u = fields.drop_last();
        lemma_encode_members_front(u);
        assert(u[0] == fields[0]);
        assert(u.drop_first() =~= fields.drop_first().drop_last());
        assert(fields.drop_first().last() == fields.last());
        if fields.len() == 2 {
            assert(fields.drop_first() =~= seq![fields.last()]);
            assert(crate::json::spec_encode_members(fields.drop_first())
                == crate::json::spec_encode_member(fields.last()));
            assert(crate::json::spec_encode_members(fields)
                =~= crate::json::spec_encode_member(fields[0]) + seq![',']
                + crate::json::spec_encode_members(fields.drop_first()));
        } else {
            assert(crate::json::spec_encode_members(fields.drop_first())
                == crate::json::spec_encode_members(fields.drop_first().drop_last()) + seq![',']
                + crate::json::spec_encode_member(fields.drop_first().last()));
            assert(crate::json::spec_encode_members(fields)
                =~= crate::json::spec_encode_member(fields[0]) + seq![',']
                + crate::json::spec_encode_members(fields.drop_first()));
        }
    }
}

/// Round trip of the integer codec: parsing the encoding of a number value
/// written by the decimal renderer gives that value back.
pub proof fn lemma_parse_of_encoded_int(n: i64)
    ensures
        spec_parse_json(spec_dec_signed(n as int)) == Some(
            JsonV::Num { raw: spec_dec_signed(n as int), int_val: Some(n) },
        ),
{
    let v = JsonV::Num { raw: spec_dec_signed(n as int), int_val: Some(n) };
    assert(wf_json(v)) by {
        assert(spec_dec_signed(n as int) == spec_dec_signed(n as int) && Some(n) == Some(n));
    }
    lemma_parse_of_encoded(v);
}

/// One character of a window seen at its place in the whole text.
proof fn lemma_char_at(s: Seq<char>, pos: int, end: int, w: Seq<char>, k: int)
    requires
        0 <= pos <= end <= s.len(),
        s.subrange(pos, end) == w,
        0 <= k < w.len(),
    ensures
        s[pos + k] == w[k],
{
    assert(s.subrange(pos, end)[k] == w[k]);
}

/// Parsing an encoded value embedded in a larger text: the value comes back
/// exactly and the parse stops right after it, provided a delimiter or the
/// end of the text follows it.
#[verifier::rlimit(100)]
#[verifier::spinoff_prover]
pub proof fn lemma_encoded_value_parses(v: JsonV, s: Seq<char>, pos: int)
    requires
        wf_json(v),
        0 <= pos,
        pos + spec_encode(v).len() <= s.len(),
        s.subrange(pos, pos + spec_encode(v).len() as int) == spec_encode(v),
        pos + spec_encode(v).len() == s.len() || is_delim(s[pos + spec_encode(v).len()]),
    ensures
        spec_value(s, pos) == Some((v, pos + spec_encode(v).len())),
    decreases v,
{
    let enc = spec_encode(v);
    let end = pos + enc.len() as int;
    match v {
        JsonV::Null => {
            assert(enc == seq!['n', 'u', 'l', 'l']);
            lemma_char_at(s, pos, end, enc, 0);
            lemma_char_at(s, pos, end, enc, 1);
            lemma_char_at(s, pos, end, enc, 2);
            lemma_char_at(s, pos, end, enc, 3);
            assert(s[pos] == 'n' && s[pos + 1] == 'u' && s[pos + 2] == 'l' && s[pos + 3] == 'l');
            assert(spec_lit(s, pos, seq!['n', 'u', 'l', 'l']));
        },
        JsonV::Bool(b) => {
            lemma_char_at(s, pos, end, enc, 0);
            lemma_char_at(s, pos, end, enc, 1);
            lemma_char_at(s, pos, end, enc, 2);
            lemma_char_at(s, pos, end, enc, 3);
            if b {
                assert(enc == seq!['t', 'r', 'u', 'e']);
                assert(s[pos] == 't' && s[pos + 1] == 'r' && s[pos + 2] == 'u' && s[pos + 3]
                    == 'e');
                assert(spec_lit(s, pos, seq!['t', 'r', 'u', 'e']));
            } else {
                assert(enc == seq!['f', 'a', 'l', 's', 'e']);
                lemma_char_at(s, pos, end, enc, 4);
                assert(s[pos] == 'f' && s[pos + 1] == 'a' && s[pos + 2] == 'l' && s[pos + 3]
                    == 's' && s[pos + 4] == 'e');
                assert(spec_lit(s, pos, seq!['f', 'a', 'l', 's', 'e']));
            }
        },
        JsonV::Num { raw, int_val } => {
            let n = choose|n: i64| raw == spec_dec_signed(n as int) && int_val == Some(n);
            assert(enc == raw);
            lemma_char_at(s, pos, end, enc, 0);
            if n >= 0 {
                lemma_dec_all_digits(n as int);
                assert(is_dec_digit(raw[0]));
                assert(is_dec_digit(s[pos]));
            } else {
                assert(raw == seq!['-'] + spec_dec(-(n as int)));
                assert(s[pos] == '-');
            }
            lemma_encoded_number_parses(n, s, pos);
        },
        JsonV::Str(t) => {
            let esc = spec_escape_string(t);
            assert(enc == seq!['"'] + esc + seq!['"']);
            lemma_char_at(s, pos, end, enc, 0);
            assert(s[pos] == '"');
            assert(s.subrange(pos + 1, end) =~= esc + seq!['"']) by {
                assert forall|k: int| 0 <= k < esc.len() + 1 implies s.subrange(pos + 1, end)[k]
                    == (esc + seq!['"'])[k] by {
                    lemma_char_at(s, pos, end, enc, 1 + k);
                    assert(s.subrange(pos + 1, end)[k] == s[pos + 1 + k]);
                    assert(enc[1 + k] == (esc + seq!['"'])[k]);
                }
            }
            lemma_escaped_string_parses(t, s, pos + 1);
        },
        JsonV::Arr(items) => {
            let joined = crate::json::spec_encode_items(items);
            assert(enc == seq!['['] + joined + seq![']']);
            lemma_char_at(s, pos, end, enc, 0);
            assert(s[pos] == '[');
            lemma_char_at(s, pos, end, enc, 1);
            if items.len() == 0 {
                assert(joined == Seq::<char>::empty());
                assert(s[pos + 1] == ']');
                assert(spec_ws(s, pos + 1) == pos + 1);
                assert(items =~= Seq::<JsonV>::empty());
            } else {
                lemma_encode_items_front(items);
                assert(wf_json(items[0]));
                lemma_encode_starts(items[0]);
                let e0 = spec_encode(items[0]);
                assert(joined[0] == e0[0]);
                assert(s[pos + 1] == joined[0]);
                lemma_value_start_class(e0[0]);
                assert(spec_ws(s, pos + 1) == pos + 1);
                assert(s[pos + 1] != ']');
                assert(s.subrange(pos + 1, end) =~= joined + seq![']']) by {
                    assert forall|k: int| 0 <= k < joined.len() + 1 implies s.subrange(
                        pos + 1,
                        end,
                    )[k] == (joined + seq![']'])[k] by {
                        lemma_char_at(s, pos, end, enc, 1 + k);
                        assert(s.subrange(pos + 1, end)[k] == s[pos + 1 + k]);
                        assert(enc[1 + k] == (joined + seq![']'])[k]);
                    }
                }
                assert(decreases_to!(v => items));
                lemma_encoded_items_parse(items, s, pos + 1);
            }
        },
        JsonV::Obj(fields) => {
            let joined = crate::json::spec_encode_members(fields);
            assert(enc == seq!['{'] + joined + seq!['}']);
            lemma_char_at(s, pos, end, enc, 0);
            assert(s[pos] == '{');
            lemma_char_at(s, pos, end, enc, 1);
            if fields.len() == 0 {
                assert(joined == Seq::<char>::empty());
                assert(s[pos + 1] == '}');
                assert(spec_ws(s, pos + 1) == pos + 1);
                assert(fields =~= Seq::<(Seq<char>, JsonV)>::empty());
            } else {
                lemma_encode_members_front(fields);
                let m0 = crate::json::spec_encode_member(fields[0]);
                assert(joined[0] == m0[0]);
                assert(m0[0] == '"');
                assert(s[pos + 1] == '"');
                assert(spec_ws(s, pos + 1) == pos + 1);
                assert(s[pos + 1] != '}');
                assert(s.subrange(pos + 1, end) =~= joined + seq!['}']) by {
                    assert forall|k: int| 0 <= k < joined.len() + 1 implies s.subrange(
                        pos + 1,
                        end,
                    )[k] == (joined + seq!['}'])[k] by {
                        lemma_char_at(s, pos, end, enc, 1 + k);
                        assert(s.subrange(pos + 1, end)[k] == s[pos + 1 + k]);
                        assert(enc[1 + k] == (joined + seq!['}'])[k]);
                    }
                }
                assert(decreases_to!(v => fields));
                lemma_encoded_members_parse(fields, s, pos + 1);
            }
        },
    }
}

/// Parsing the joined encoding of one or more array items, up to and over
/// the closing bracket.
#[verifier::rlimit(100)]
#[verifier::spinoff_prover]
proof fn lemma_encoded_items_parse(items: Seq<JsonV>, s: Seq<char>, pos: int)
    requires
        items.len() > 0,
        forall|i: int| 0 <= i < items.len() ==> wf_json(#[trigger] items[i]),
        0 <= pos,
        pos + crate::json::spec_encode_items(items).len() + 1 <= s.len(),
        s.subrange(pos, pos + crate::json::spec_encode_items(items).len() as int + 1)
            == crate::json::spec_encode_items(items) + seq![']'],
    ensures
        spec_items(s, pos) == Some(
            (items, pos + crate::json::spec_encode_items(items).len() + 1),
        ),
    decreases items,
{
    let joined = crate::json::spec_encode_items(items);
    let wj = joined + seq![']'];
    let endb = pos + joined.len() as int + 1;
    lemma_encode_items_front(items);
    assert(wf_json(items[0]));
    lemma_encode_starts(items[0]);
    let e0 = spec_encode(items[0]);
    let e = pos + e0.len() as int;
    assert(s.subrange(pos, e) =~= e0) by {
        assert forall|k: int| 0 <= k < e0.len() implies s.subrange(pos, e)[k] == e0[k] by {
            lemma_char_at(s, pos, endb, wj, k);
            assert(s.subrange(pos, e)[k] == s[pos + k]);
            assert(wj[k] == e0[k]);
        }
    }
    lemma_char_at(s, pos, endb, wj, e0.len() as int);
    assert(s[e] == wj[e0.len() as int]);
    if items.len() == 1 {
        assert(joined == e0);
        assert(s[e] == ']');
        assert(decreases_to!(items => items[0]));
        lemma_encoded_value_parses(items[0], s, pos);
        assert(spec_ws(s, e) == e);
        assert(seq![items[0]] =~= items);
    } else {
        let tail = items.drop_first();
        let rest = crate::json::spec_encode_items(tail);
        assert(joined == e0 + seq![','] + rest);
        assert(s[e] == ',');
        assert(decreases_to!(items => items[0]));
        lemma_encoded_value_parses(items[0], s, pos);
        assert(spec_ws(s, e) == e);
        assert(tail.len() > 0);
        assert(forall|i: int| 0 <= i < tail.len() ==> wf_json(#[trigger] tail[i]));
        lemma_encode_items_front(tail);
        lemma_encode_starts(tail[0]);
        assert(rest[0] == spec_encode(tail[0])[0]);
        lemma_char_at(s, pos, endb, wj, e0.len() as int + 1);
        assert(s[e + 1] == wj[e0.len() as int + 1]);
        assert(wj[e0.len() as int + 1] == rest[0]);
        lemma_value_start_class(rest[0]);
        assert(spec_ws(s, e + 1) == e + 1);
        assert(s.subrange(e + 1, endb) =~= rest + seq![']']) by {
            assert forall|k: int| 0 <= k < rest.len() + 1 implies s.subrange(e + 1, endb)[k]
                == (rest + seq![']'])[k] by {
                lemma_char_at(s, pos, endb, wj, e0.len() as int + 1 + k);
                assert(s.subrange(e + 1, endb)[k] == s[e + 1 + k]);
                assert(wj[e0.len() as int + 1 + k] == (rest + seq![']'])[k]);
            }
        }
        assert(items.subrange(1, items.len() as int) =~= tail);
        assert(decreases_to!(items => items.subrange(1, items.len() as int)));
        lemma_encoded_items_parse(tail, s, e + 1);
        assert(seq![items[0]] + tail =~= items);
    }
}

/// Parsing the joined encoding of one or more object members, up to and over
/// the closing brace.
#[verifier::rlimit(100)]
#[verifier::spinoff_prover]
proof fn lemma_encoded_members_parse(fields: Seq<(Seq<char>, JsonV)>, s: Seq<char>, pos: int)
    requires
        fields.len() > 0,
        forall|i: int| 0 <= i < fields.len() ==> wf_json(#[trigger] fields[i].1),
        0 <= pos,
        pos + crate::json::spec_encode_members(fields).len() + 1 <= s.len(),
        s.subrange(pos, pos + crate::json::spec_encode_members(fields).len() as int + 1)
            == crate::json::spec_encode_members(fields) + seq!['}'],
    ensures
        spec_members(s, pos) == Some(
            (fields, pos + crate::json::spec_encode_members(fields).len() + 1),
        ),
    decreases fields,
{
    let joined = crate::json::spec_encode_members(fields);
    let wj = joined + seq!['}'];
    let endb = pos + joined.len() as int + 1;
    lemma_encode_members_front(fields);
    let key = fields[0].0;
    let val = fields[0].1;
    let esc = spec_escape_string(key);
    let ev = spec_encode(val);
    let m0 = crate::json::spec_encode_member(fields[0]);
    assert(m0 == seq!['"'] + esc + seq!['"', ':'] + ev);
    assert(wf_json(val));
    lemma_encode_starts(val);
    lemma_char_at(s, pos, endb, wj, 0);
    assert(s[pos] == '"');
    assert(s.subrange(pos + 1, pos + 2 + esc.len() as int) =~= esc + seq!['"']) by {
        assert forall|k: int| 0 <= k < esc.len() + 1 implies s.subrange(
            pos + 1,
            pos + 2 + esc.len() as int,
        )[k] == (esc + seq!['"'])[k] by {
            lemma_char_at(s, pos, endb, wj, 1 + k);
            assert(s.subrange(pos + 1, pos + 2 + esc.len() as int)[k] == s[pos + 1 + k]);
            assert(wj[1 + k] == m0[1 + k]);
            assert(m0[1 + k] == (esc + seq!['"'])[k]);
        }
    }
    lemma_escaped_string_parses(key, s, pos + 1);
    let ke = pos + 2 + esc.len() as int;
    assert(spec_string_body(s, pos + 1) == Some((key, ke)));
    lemma_char_at(s, pos, endb, wj, esc.len() as int + 2);
    assert(s[ke] == wj[esc.len() as int + 2]);
    assert(wj[esc.len() as int + 2] == m0[esc.len() as int + 2]);
    assert(m0[esc.len() as int + 2] == ':');
    assert(spec_ws(s, ke) == ke);
    lemma_char_at(s, pos, endb, wj, esc.len() as int + 3);
    assert(s[ke + 1] == wj[esc.len() as int + 3]);
    assert(wj[esc.len() as int + 3] == m0[esc.len() as int + 3]);
    assert(m0[esc.len() as int + 3] == ev[0]);
    lemma_value_start_class(ev[0]);
    assert(spec_ws(s, ke + 1) == ke + 1);
    let vp = ke + 1;
    let e = vp + ev.len() as int;
    assert(s.subrange(vp, e) =~= ev) by {
        assert forall|k: int| 0 <= k < ev.len() implies s.subrange(vp, e)[k] == ev[k] by {
            lemma_char_at(s, pos, endb, wj, esc.len() as int + 3 + k);
            assert(s.subrange(vp, e)[k] == s[vp + k]);
            assert(s[pos + (esc.len() as int + 3 + k)] == wj[esc.len() as int + 3 + k]);
            assert(wj[esc.len() as int + 3 + k] == m0[esc.len() as int + 3 + k]);
            assert(m0[esc.len() as int + 3 + k] == ev[k]);
        }
    }
    lemma_char_at(s, pos, endb, wj, m0.len() as int);
    assert(s[e] == wj[m0.len() as int]);
    if fields.len() == 1 {
        assert(joined == m0);
        assert(s[e] == '}');
        assert(decreases_to!(fields => fields[0]));
        assert(decreases_to!(fields[0] => fields[0].1));
        lemma_encoded_value_parses(val, s, vp);
        assert(spec_ws(s, e) == e);
        assert(seq![(key, val)] =~= fields);
    } else {
        let tail = fields.drop_first();
        let rest = crate::json::spec_encode_members(tail);
        assert(joined == m0 + seq![','] + rest);
        assert(s[e] == ',');
        assert(decreases_to!(fields => fields[0]));
        assert(decreases_to!(fields[0] => fields[0].1));
        lemma_encoded_value_parses(val, s, vp);
        assert(spec_ws(s, e) == e);
        assert(tail.len() > 0);
        assert(forall|i: int| 0 <= i < tail.len() ==> wf_json(#[trigger] tail[i].1));
        lemma_encode_members_front(tail);
        let m1 = crate::json::spec_encode_member(tail[0]);
        assert(rest[0] == m1[0]);
        assert(m1[0] == '"');
        lemma_char_at(s, pos, endb, wj, m0.len() as int + 1);
        assert(s[e + 1] == wj[m0.len() as int + 1]);
        assert(wj[m0.len() as int + 1] == rest[0]);
        assert(spec_ws(s, e + 1) == e + 1);
        assert(s.subrange(e + 1, endb) =~= rest + seq!['}']) by {
            assert forall|k: int| 0 <= k < rest.len() + 1 implies s.subrange(e + 1, endb)[k]
                == (rest + seq!['}'])[k] by {
                lemma_char_at(s, pos, endb, wj, m0.len() as int + 1 + k);
                assert(s.subrange(e + 1, endb)[k] == s[e + 1 + k]);
                assert(wj[m0.len() as int + 1 + k] == (rest + seq!['}'])[k]);
            }
        }
        assert(fields.subrange(1, fields.len() as int) =~= tail);
        assert(decreases_to!(fields => fields.subrange(1, fields.len() as int)));
        lemma_encoded_members_parse(tail, s, e + 1);
        assert(seq![(key, val)] + tail =~= fields);
    }
}

/// Round trip of the whole codec: parsing the encoding of any value the
/// library itself writes gives that value back.
pub proof fn lemma_parse_of_encoded(v: JsonV)
    requires
        wf_json(v),
    ensures
        spec_parse_json(spec_encode(v)) == Some(v),
{
    let s = spec_encode(v);
    lemma_encode_starts(v);
    lemma_value_start_class(s[0]);
    assert(spec_ws(s, 0) == 0);
    assert(s.subrange(0, s.len() as int) =~= s);
    lemma_encoded_value_parses(v, s, 0);
    assert(spec_ws(s, s.len() as int) == s.len());
}

} // verus!
