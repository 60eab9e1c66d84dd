//! Verified string helpers: character access, equality, decimal and
//! hexadecimal formatting, and digit parsing.

use vstd::prelude::*;
use vstd::string::StrSliceExecFns;

verus! {

/// Appends one character to a string.
///
/// Relies on std's `String::push`: appends the character to the end of the
/// string.
#[verifier::external_body]
pub fn push_char(s: &mut String, c: char)
    ensures
        final(s)@ == old(s)@.push(c),
{
    s.push(c);
}

/// Collects the characters of a string slice into a vector.
pub fn chars_of(s: &str) -> (r: Vec<char>)
    ensures
        r@ == s@,
{
    let n: usize = s.unicode_len();
    let mut r: Vec<char> = Vec::new();
    let mut i: usize = 0;
    while i < n
        invariant
            i <= n,
            n == s@.len(),
            r@ == s@.subrange(0, i as int),
        decreases n - i,
    {
        r.push(s.get_char(i));
        i = i + 1;
        proof {
            assert(r@ =~= s@.subrange(0, i as int));
        }
    }
    proof {
        assert(r@ =~= s@);
    }
    r
}

/// Builds a string from a vector of characters.
pub fn string_from_chars(v: &Vec<char>) -> (r: String)
    ensures
        r@ == v@,
{
    let mut r: String = String::new();
    let mut i: usize = 0;
    while i < v.len()
        invariant
            i <= v@.len(),
            r@ == v@.subrange(0, i as int),
        decreases v@.len() - i,
    {
        push_char(&mut r, v[i]);
        i = i + 1;
        proof {
            assert(r@ =~= v@.subrange(0, i as int));
        }
    }
    proof {
        assert(r@ =~= v@);
    }
    r
}

/// Compares two string slices character by character.
pub fn str_eq(a: &str, b: &str) -> (r: bool)
    ensures
        r == (a@ == b@),
{
    let na: usize = a.unicode_len();
    let nb: usize = b.unicode_len();
    if na != nb {
        return false;
    }
    let mut i: usize = 0;
    while i < na
        invariant
            i <= na,
            na == a@.len(),
            na == b@.len(),
            forall|j: int| 0 <= j < i ==> a@[j] == b@[j],
        decreases na - i,
    {
        if a.get_char(i) != b.get_char(i) {
            return false;
        }
        i = i + 1;
    }
    proof {
        assert(a@ =~= b@);
    }
    true
}

/// The decimal digit character for a value below ten.
pub open spec fn dec_char(d: int) -> char {
    if d == 0 { '0' }
    else if d == 1 { '1' }
    else if d == 2 { '2' }
    else if d == 3 { '3' }
    else if d == 4 { '4' }
    else if d == 5 { '5' }
    else if d == 6 { '6' }
    else if d == 7 { '7' }
    else if d == 8 { '8' }
    else { '9' }
}

/// The hexadecimal digit character for a value below sixteen (lower case).
pub open spec fn hex_char(d: int) -> char {
    if d < 10 { dec_char(d) }
    else if d == 10 { 'a' }
    else if d == 11 { 'b' }
    else if d == 12 { 'c' }
    else if d == 13 { 'd' }
    else if d == 14 { 'e' }
    else { 'f' }
}

/// The shortest decimal rendering of a nonnegative integer.
pub open spec fn spec_dec(n: int) -> Seq<char>
    decreases n,
{
    if n < 10 {
        seq![dec_char(n)]
    } else {
        spec_dec(n / 10) + seq![dec_char(n % 10)]
    }
}

/// The decimal rendering of a signed integer: a minus sign for negative
/// values, then the magnitude.
pub open spec fn spec_dec_signed(n: int) -> Seq<char> {
    if n < 0 {
        seq!['-'] + spec_dec(-n)
    } else {
        spec_dec(n)
    }
}

/// Exactly `k` base-`16` digits of `n`, most significant first (`n` taken
/// modulo `16^k`).
pub open spec fn spec_hex_fixed(n: int, k: nat) -> Seq<char>
    decreases k,
{
    if k == 0 {
        Seq::empty()
    } else {
        spec_hex_fixed(n / 16, (k - 1) as nat) + seq![hex_char(n % 16)]
    }
}

/// Exactly `k` decimal digits of `n`, most significant first (`n` taken
/// modulo `10^k`); this is zero-padding for small `n`.
pub open spec fn spec_dec_fixed(n: int, k: nat) -> Seq<char>
    decreases k,
{
    if k == 0 {
        Seq::empty()
    } else {
        spec_dec_fixed(n / 10, (k - 1) as nat) + seq![dec_char(n % 10)]
    }
}

/// Renders a `u64` in decimal.
pub fn fmt_u64(n: u64) -> (r: Vec<char>)
    ensures
        r@ == spec_dec(n as int),
    decreases n,
{
    if n < 10 {
        let mut r: Vec<char> = Vec::new();
        r.push(dec_digit((n % 10) as u8));
        proof {
            assert(r@ =~= spec_dec(n as int));
        }
        r
    } else {
        let mut r = fmt_u64(n / 10);
        r.push(dec_digit((n % 10) as u8));
        proof {
            assert(r@ =~= spec_dec(n as int));
        }
        r
    }
}

/// Renders an `i64` in decimal with a leading minus sign when negative.
pub fn fmt_i64(n: i64) -> (r: Vec<char>)
    ensures
        r@ == spec_dec_signed(n as int),
{
    if n >= 0 {
        fmt_u64(n as u64)
    } else {
        // magnitude computed without overflowing i64::MIN
        let m: u64 = ((-(n + 1)) as u64) + 1;
        let mut r: Vec<char> = Vec::new();
        r.push('-');
        let mut digits = fmt_u64(m);
        r.append(&mut digits);
        proof {
            assert(r@ =~= spec_dec_signed(n as int));
        }
        r
    }
}

/// The decimal digit character of `d`, which must be below ten.
pub fn dec_digit(d: u8) -> (c: char)
    requires
        d < 10,
    ensures
        c == dec_char(d as int),
{
    if d == 0 { '0' }
    else if d == 1 { '1' }
    else if d == 2 { '2' }
    else if d == 3 { '3' }
    else if d == 4 { '4' }
    else if d == 5 { '5' }
    else if d == 6 { '6' }
    else if d == 7 { '7' }
    else if d == 8 { '8' }
    else { '9' }
}

/// The hexadecimal digit character of `d`, which must be below sixteen.
pub fn hex_digit(d: u8) -> (c: char)
    requires
        d < 16,
    ensures
        c == hex_char(d as int),
{
    if d < 10 { dec_digit(d) }
    else if d == 10 { 'a' }
    else if d == 11 { 'b' }
    else if d == 12 { 'c' }
    else if d == 13 { 'd' }
    else if d == 14 { 'e' }
    else { 'f' }
}

/// Renders the low `k` hexadecimal digits of `n`, zero-padded.
pub fn fmt_hex_fixed(n: u64, k: usize) -> (r: Vec<char>)
    ensures
        r@ == spec_hex_fixed(n as int, k as nat),
    decreases k,
{
    if k == 0 {
        let r: Vec<char> = Vec::new();
        proof {
            assert(r@ =~= spec_hex_fixed(n as int, 0));
        }
        r
    } else {
        let mut r = fmt_hex_fixed(n / 16, k - 1);
        r.push(hex_digit((n % 16) as u8));
        proof {
            assert(r@ =~= spec_hex_fixed(n as int, k as nat));
        }
        r
    }
}

/// Renders the low `k` decimal digits of `n`, zero-padded.
pub fn fmt_dec_fixed(n: u64, k: usize) -> (r: Vec<char>)
    ensures
        r@ == spec_dec_fixed(n as int, k as nat),
    decreases k,
{
    if k == 0 {
        let r: Vec<char> = Vec::new();
        proof {
            assert(r@ =~= spec_dec_fixed(n as int, 0));
        }
        r
    } else {
        let mut r = fmt_dec_fixed(n / 10, k - 1);
        r.push(dec_digit((n % 10) as u8));
        proof {
            assert(r@ =~= spec_dec_fixed(n as int, k as nat));
        }
        r
    }
}

/// Fixed-width renderings of distinct values below `16^k` are distinct.
pub proof fn lemma_hex_fixed_injective(a: int, b: int, k: nat)
    requires
        0 <= a < pow16(k),
        0 <= b < pow16(k),
        spec_hex_fixed(a, k) == spec_hex_fixed(b, k),
    ensures
        a == b,
    decreases k,
{
    if k > 0 {
        let ra = spec_hex_fixed(a / 16, (k - 1) as nat);
        let rb = spec_hex_fixed(b / 16, (k - 1) as nat);
        lemma_hex_fixed_len(a, k);
        lemma_hex_fixed_len(b, k);
        lemma_hex_fixed_len(a / 16, (k - 1) as nat);
        lemma_hex_fixed_len(b / 16, (k - 1) as nat);
        assert((ra + seq![hex_char(a % 16)]).last() == hex_char(a % 16));
        assert((rb + seq![hex_char(b % 16)]).last() == hex_char(b % 16));
        assert(hex_char(a % 16) == hex_char(b % 16));
        lemma_hex_char_injective(a % 16, b % 16);
        assert((ra + seq![hex_char(a % 16)]).drop_last() =~= ra);
        assert((rb + seq![hex_char(b % 16)]).drop_last() =~= rb);
        assert(ra == rb);
        assert(a / 16 < pow16((k - 1) as nat)) by {
            assert(pow16(k) == 16 * pow16((k - 1) as nat));
        }
        assert(b / 16 < pow16((k - 1) as nat)) by {
            assert(pow16(k) == 16 * pow16((k - 1) as nat));
        }
        lemma_hex_fixed_injective(a / 16, b / 16, (k - 1) as nat);
        assert(a == 16 * (a / 16) + a % 16);
        assert(b == 16 * (b / 16) + b % 16);
    }
}

/// Sixteen to the power `k`.
pub open spec fn pow16(k: nat) -> int
    decreases k,
{
    if k == 0 {
        1
    } else {
        16 * pow16((k - 1) as nat)
    }
}

/// A fixed-width hexadecimal rendering has exactly `k` characters.
pub proof fn lemma_hex_fixed_len(n: int, k: nat)
    ensures
        spec_hex_fixed(n, k).len() == k,
    decreases k,
{
    if k > 0 {
        lemma_hex_fixed_len(n / 16, (k - 1) as nat);
    }
}

/// Distinct hexadecimal digit values give distinct characters.
pub proof fn lemma_hex_char_injective(a: int, b: int)
    requires
        0 <= a < 16,
        0 <= b < 16,
        hex_char(a) == hex_char(b),
    ensures
        a == b,
{
}

/// The numeric value of a decimal digit character, or sixteen when the
/// character is not a digit.
pub open spec fn dec_val(c: char) -> int {
    if c == '0' { 0 }
    else if c == '1' { 1 }
    else if c == '2' { 2 }
    else if c == '3' { 3 }
    else if c == '4' { 4 }
    else if c == '5' { 5 }
    else if c == '6' { 6 }
    else if c == '7' { 7 }
    else if c == '8' { 8 }
    else if c == '9' { 9 }
    else { 16 }
}

/// Whether a character is a decimal digit.
pub open spec fn is_dec_digit(c: char) -> bool {
    dec_val(c) < 10
}

/// Executable check for a decimal digit, with its numeric value.
pub fn dec_digit_val(c: char) -> (r: Option<u8>)
    ensures
        r is Some <==> is_dec_digit(c),
        r is Some ==> r->0 == dec_val(c),
{
    if c == '0' { Some(0) }
    else if c == '1' { Some(1) }
    else if c == '2' { Some(2) }
    else if c == '3' { Some(3) }
    else if c == '4' { Some(4) }
    else if c == '5' { Some(5) }
    else if c == '6' { Some(6) }
    else if c == '7' { Some(7) }
    else if c == '8' { Some(8) }
    else if c == '9' { Some(9) }
    else { None }
}

/// The numeric value of a sequence of decimal digit characters, read left to
/// right.
pub open spec fn digits_val(s: Seq<char>) -> int
    decreases s.len(),
{
    if s.len() == 0 {
        0
    } else {
        digits_val(s.drop_last()) * 10 + dec_val(s.last())
    }
}

/// Whether every character of a sequence is a decimal digit.
pub open spec fn all_dec_digits(s: Seq<char>) -> bool {
    forall|i: int| 0 <= i < s.len() ==> is_dec_digit(s[i])
}

/// The value of a digit sequence never shrinks when digits are appended.
pub proof fn lemma_digits_val_prefix_le(s: Seq<char>, i: int)
    requires
        0 <= i <= s.len(),
        all_dec_digits(s),
    ensures
        digits_val(s.subrange(0, i)) <= digits_val(s),
        digits_val(s) >= 0,
    decreases s.len() - i,
{
    lemma_digits_val_nonneg(s.subrange(0, i));
    if i == s.len() {
        assert(s.subrange(0, i) =~= s);
        lemma_digits_val_nonneg(s);
    } else {
        let t = s.subrange(0, i + 1);
        assert(t.drop_last() =~= s.subrange(0, i));
        lemma_digits_val_nonneg(s.subrange(0, i));
        assert(digits_val(t) == digits_val(s.subrange(0, i)) * 10 + dec_val(t.last()));
        assert(dec_val(t.last()) >= 0);
        assert(digits_val(s.subrange(0, i)) * 10 >= digits_val(s.subrange(0, i))) by {
            lemma_digits_val_nonneg(s.subrange(0, i));
        }
        lemma_digits_val_prefix_le(s, i + 1);
    }
}

/// The value of a digit sequence is nonnegative.
pub proof fn lemma_digits_val_nonneg(s: Seq<char>)
    requires
        all_dec_digits(s),
    ensures
        digits_val(s) >= 0,
    decreases s.len(),
{
    if s.len() > 0 {
        assert(all_dec_digits(s.drop_last()));
        lemma_digits_val_nonneg(s.drop_last());
    }
}

/// A decimal rendering holds digits only.
pub proof fn lemma_dec_all_digits(n: int)
    requires
        n >= 0,
    ensures
        all_dec_digits(spec_dec(n)),
        spec_dec(n).len() >= 1,
    decreases n,
{
    if n >= 10 {
        lemma_dec_all_digits(n / 10);
        let whole = spec_dec(n);
        let pre = spec_dec(n / 10);
        assert forall|i: int| 0 <= i < whole.len() implies is_dec_digit(whole[i]) by {
            if i < pre.len() {
                assert(whole[i] == pre[i]);
            }
        }
    }
}

/// Reading a decimal rendering back gives the number: the decimal codec
/// round-trips.
pub proof fn lemma_dec_val(n: int)
    requires
        n >= 0,
    ensures
        digits_val(spec_dec(n)) == n,
    decreases n,
{
    if n < 10 {
        assert(spec_dec(n).drop_last() =~= Seq::<char>::empty());
        assert(digits_val(Seq::<char>::empty()) == 0);
        assert(spec_dec(n).last() == dec_char(n));
        assert(dec_val(dec_char(n)) == n);
    } else {
        lemma_dec_val(n / 10);
        assert(spec_dec(n).drop_last() =~= spec_dec(n / 10));
        assert(spec_dec(n).last() == dec_char(n % 10));
        assert(dec_val(dec_char(n % 10)) == n % 10);
        assert(digits_val(spec_dec(n)) == digits_val(spec_dec(n / 10)) * 10 + dec_val(
            dec_char(n % 10),
        ));
    }
}

/// A positive number's decimal rendering never starts with a zero.
pub proof fn lemma_dec_leading(n: int)
    requires
        n >= 1,
    ensures
        spec_dec(n)[0] != '0',
    decreases n,
{
    if n >= 10 {
        lemma_dec_leading(n / 10);
        assert(spec_dec(n)[0] == spec_dec(n / 10)[0]);
    }
}

/// How std parses an unsigned integer from text: an optional leading plus
/// sign, then one or more decimal digits, whose value must fit the type.
pub open spec fn spec_parse_u16(s: Seq<char>) -> Option<u16> {
    let body = if s.len() > 0 && s[0] == '+' { s.subrange(1, s.len() as int) } else { s };
    if body.len() == 0 || !all_dec_digits(body) {
        None
    } else if digits_val(body) > 0xffff {
        None
    } else {
        Some(digits_val(body) as u16)
    }
}

/// Parses a `u16` from characters the way std's `str::parse::<u16>` does.
pub fn parse_u16(s: &Vec<char>) -> (r: Option<u16>)
    ensures
        r == spec_parse_u16(s@),
{
    let start: usize = if s.len() > 0 && s[0] == '+' { 1 } else { 0 };
    let ghost body = if s@.len() > 0 && s@[0] == '+' { s@.subrange(1, s@.len() as int) } else { s@ };
    if s.len() == start {
        return None;
    }
    let mut acc: u32 = 0;
    let mut i: usize = start;
    while i < s.len()
        invariant
            start <= i <= s@.len(),
            start == if s@.len() > 0 && s@[0] == '+' { 1int } else { 0int },
            body == if s@.len() > 0 && s@[0] == '+' { s@.subrange(1, s@.len() as int) } else { s@ },
            body.len() == s@.len() - start,
            forall|j: int| 0 <= j < body.len() ==> body[j] == s@[j + start],
            all_dec_digits(body.subrange(0, i - start)),
            acc == digits_val(body.subrange(0, i - start)),
            acc <= 0xffff,
        decreases s@.len() - i,
    {
        let c = s[i];
        match dec_digit_val(c) {
            None => {
                proof {
                    assert(body[i - start] == c);
                    assert(!all_dec_digits(body));
                }
                return None;
            },
            Some(d) => {
                let next: u32 = acc * 10 + (d as u32);
                proof {
                    let pre = body.subrange(0, i - start);
                    let ext = body.subrange(0, i + 1 - start);
                    assert(ext.drop_last() =~= pre);
                    assert(ext.last() == c);
                }
                if next > 0xffff {
                    proof {
                        let ext = body.subrange(0, i + 1 - start);
                        if all_dec_digits(body) {
                            lemma_digits_val_prefix_le(body, i + 1 - start);
                            assert(digits_val(ext) <= digits_val(body));
                        }
                    }
                    return None;
                }
                acc = next;
            },
        }
        i = i + 1;
    }
    proof {
        assert(body.subrange(0, s@.len() - start) =~= body);
    }
    Some(acc as u16)
}

/// ASCII lower-casing of one character: upper-case letters map to their
/// lower-case forms, everything else is unchanged.
pub open spec fn spec_ascii_lower_char(c: char) -> char {
    if c == 'A' { 'a' }
    else if c == 'B' { 'b' }
    else if c == 'C' { 'c' }
    else if c == 'D' { 'd' }
    else if c == 'E' { 'e' }
    else if c == 'F' { 'f' }
    else if c == 'G' { 'g' }
    else if c == 'H' { 'h' }
    else if c == 'I' { 'i' }
    else if c == 'J' { 'j' }
    else if c == 'K' { 'k' }
    else if c == 'L' { 'l' }
    else if c == 'M' { 'm' }
    else if c == 'N' { 'n' }
    else if c == 'O' { 'o' }
    else if c == 'P' { 'p' }
    else if c == 'Q' { 'q' }
    else if c == 'R' { 'r' }
    else if c == 'S' { 's' }
    else if c == 'T' { 't' }
    else if c == 'U' { 'u' }
    else if c == 'V' { 'v' }
    else if c == 'W' { 'w' }
    else if c == 'X' { 'x' }
    else if c == 'Y' { 'y' }
    else if c == 'Z' { 'z' }
    else { c }
}

/// Lower-cases one ASCII character.
pub fn ascii_lower_char(c: char) -> (r: char)
    ensures
        r == spec_ascii_lower_char(c),
{
    if c == 'A' { 'a' }
    else if c == 'B' { 'b' }
    else if c == 'C' { 'c' }
    else if c == 'D' { 'd' }
    else if c == 'E' { 'e' }
    else if c == 'F' { 'f' }
    else if c == 'G' { 'g' }
    else if c == 'H' { 'h' }
    else if c == 'I' { 'i' }
    else if c == 'J' { 'j' }
    else if c == 'K' { 'k' }
    else if c == 'L' { 'l' }
    else if c == 'M' { 'm' }
    else if c == 'N' { 'n' }
    else if c == 'O' { 'o' }
    else if c == 'P' { 'p' }
    else if c == 'Q' { 'q' }
    else if c == 'R' { 'r' }
    else if c == 'S' { 's' }
    else if c == 'T' { 't' }
    else if c == 'U' { 'u' }
    else if c == 'V' { 'v' }
    else if c == 'W' { 'w' }
    else if c == 'X' { 'x' }
    else if c == 'Y' { 'y' }
    else if c == 'Z' { 'z' }
    else { c }
}

/// ASCII lower-casing of a character sequence.
pub open spec fn spec_ascii_lower(s: Seq<char>) -> Seq<char> {
    s.map_values(|c: char| spec_ascii_lower_char(c))
}

/// Lower-cases the ASCII letters of the characters of a string.
pub fn ascii_lower(s: &Vec<char>) -> (r: Vec<char>)
    ensures
        r@ == spec_ascii_lower(s@),
{
    let mut r: Vec<char> = Vec::new();
    let mut i: usize = 0;
    while i < s.len()
        invariant
            i <= s@.len(),
            r@ == spec_ascii_lower(s@.subrange(0, i as int)),
        decreases s@.len() - i,
    {
        let lc = ascii_lower_char(s[i]);
        r.push(lc);
        i = i + 1;
        proof {
            assert(r@ =~= spec_ascii_lower(s@.subrange(0, i as int)));
        }
    }
    proof {
        assert(s@.subrange(0, s@.len() as int) =~= s@);
    }
    r
}

/// The views of a vector of strings.
pub open spec fn strings_view(v: Seq<String>) -> Seq<Seq<char>> {
    Seq::new(v.len(), |i: int| v[i]@)
}

/// The character with a given Unicode scalar value.
///
/// Relies on std's `char::from_u32`: returns the character whose scalar value
/// is the argument whenever that value is a Unicode scalar value (below the
/// surrogate range, or between the surrogates' end and the highest code
/// point).
#[verifier::external_body]
pub fn char_from_code(v: u32) -> (c: char)
    requires
        v < 0xD800 || (0xE000 <= v && v <= 0x10FFFF),
    ensures
        c as u32 == v,
{
    match char::from_u32(v) {
        Some(c) => c,
        None => ' ',
    }
}

} // verus!
