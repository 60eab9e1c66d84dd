//! Session identifiers and session continuity.
//!
//! A fresh identifier is `cli_<UTC timestamp, second precision>_<8
//! hexadecimal digits of a random suffix>`. Continuing a session prefers the
//! service's most-recent session and falls back to a fresh identifier —
//! never to an error, since having no prior session is an expected outcome.

#![verifier::loop_isolation(false)]

use vstd::prelude::*;
use vstd::string::StringExecFns;
use crate::strutil::{
    spec_dec, spec_dec_fixed, spec_hex_fixed, fmt_u64, fmt_dec_fixed, fmt_hex_fixed,
    string_from_chars, pow16, lemma_hex_fixed_len, lemma_hex_fixed_injective,
};
use crate::responses::ApiError;

verus! {

/// A civil UTC timestamp, to second precision.
pub struct UtcParts {
    pub year: i32,
    pub month: u8,
    pub day: u8,
    pub hour: u8,
    pub minute: u8,
    pub second: u8,
}

/// The ranges the clock promises for everything but the year.
pub open spec fn utc_parts_ok(p: UtcParts) -> bool {
    &&& 1 <= p.month <= 12
    &&& 1 <= p.day <= 31
    &&& p.hour <= 23
    &&& p.minute <= 59
    &&& p.second <= 59
}

/// Reads the current UTC time.
///
/// Relies on chrono's `Utc::now` and its `Datelike` and `Timelike` getters:
/// `month()` is 1 to 12, `day()` is 1 to 31, `hour()` is 0 to 23, `minute()`
/// and `second()` are 0 to 59. The year is whatever the clock says.
#[verifier::external_body]
pub fn now_utc_parts() -> (r: UtcParts)
    ensures
        utc_parts_ok(r),
{
    let now = chrono::Utc::now();
    UtcParts {
        year: chrono::Datelike::year(&now),
        month: chrono::Datelike::month(&now) as u8,
        day: chrono::Datelike::day(&now) as u8,
        hour: chrono::Timelike::hour(&now) as u8,
        minute: chrono::Timelike::minute(&now) as u8,
        second: chrono::Timelike::second(&now) as u8,
    }
}

/// Reads the current Unix timestamp in seconds.
///
/// Relies on chrono's `DateTime::timestamp`. Nothing is promised of the
/// value: it depends on the clock.
#[verifier::external_body]
pub fn unix_now() -> i64 {
    chrono::Utc::now().timestamp()
}

/// Draws a random 32-bit suffix.
///
/// Relies on rand's `random`. Nothing is promised of the value: it is
/// random.
#[verifier::external_body]
pub fn fresh_suffix() -> u32 {
    rand::random()
}

/// The rendering of a year: four zero-padded digits for the common range,
/// plain decimal beyond it, a minus sign before the magnitude for years
/// before the era.
pub open spec fn spec_year(y: int) -> Seq<char> {
    if 0 <= y <= 9999 {
        spec_dec_fixed(y, 4)
    } else if y > 9999 {
        spec_dec(y)
    } else {
        seq!['-'] + spec_dec(-y)
    }
}

/// The timestamp half of a fresh identifier: date, an underscore, then time.
pub open spec fn spec_stamp(p: UtcParts) -> Seq<char> {
    spec_year(p.year as int) + spec_dec_fixed(p.month as int, 2) + spec_dec_fixed(p.day as int, 2)
        + seq!['_'] + spec_dec_fixed(p.hour as int, 2) + spec_dec_fixed(p.minute as int, 2)
        + spec_dec_fixed(p.second as int, 2)
}

/// A fresh identifier: the prefix, the timestamp, an underscore, then eight
/// hexadecimal digits of the suffix.
pub open spec fn spec_session_id(p: UtcParts, suffix: u32) -> Seq<char> {
    "cli_"@ + spec_stamp(p) + seq!['_'] + spec_hex_fixed(suffix as int, 8)
}

/// Whether a text has the documented form of a fresh identifier.
pub open spec fn is_fresh_session_id(s: Seq<char>) -> bool {
    exists|p: UtcParts, suffix: u32| utc_parts_ok(p) && s == spec_session_id(p, suffix)
}

/// Renders the year.
fn fmt_year(y: i32) -> (r: Vec<char>)
    ensures
        r@ == spec_year(y as int),
{
    if 0 <= y && y <= 9999 {
        fmt_dec_fixed(y as u64, 4)
    } else if y > 9999 {
        fmt_u64(y as u64)
    } else {
        let m: u64 = ((-(y + 1)) as u64) + 1;
        let mut r: Vec<char> = Vec::new();
        r.push('-');
        let mut digits = fmt_u64(m);
        r.append(&mut digits);
        proof {
            assert(r@ =~= spec_year(y as int));
        }
        r
    }
}

/// Renders a fresh identifier from its parts.
pub fn format_session_id(p: &UtcParts, suffix: u32) -> (r: String)
    ensures
        r@ == spec_session_id(*p, suffix),
{
    let mut out: Vec<char> = Vec::new();
    out.push('c');
    out.push('l');
    out.push('i');
    out.push('_');
    let mut year = fmt_year(p.year);
    out.append(&mut year);
    let mut month = fmt_dec_fixed(p.month as u64, 2);
    out.append(&mut month);
    let mut day = fmt_dec_fixed(p.day as u64, 2);
    out.append(&mut day);
    out.push('_');
    let mut hour = fmt_dec_fixed(p.hour as u64, 2);
    out.append(&mut hour);
    let mut minute = fmt_dec_fixed(p.minute as u64, 2);
    out.append(&mut minute);
    let mut second = fmt_dec_fixed(p.second as u64, 2);
    out.append(&mut second);
    out.push('_');
    let mut hex = fmt_hex_fixed(suffix as u64, 8);
    out.append(&mut hex);
    proof {
        assert(seq!['c', 'l', 'i', '_'] =~= "cli_"@) by {
            reveal_strlit("cli_");
        }
        assert(out@ =~= spec_session_id(*p, suffix));
    }
    string_from_chars(&out)
}

/// Generates a fresh identifier from the clock and a random suffix. It
/// always succeeds and always matches the documented form.
pub fn new_session() -> (r: String)
    ensures
        is_fresh_session_id(r@),
{
    let parts = now_utc_parts();
    let suffix = fresh_suffix();
    let r = format_session_id(&parts, suffix);
    proof {
        assert(utc_parts_ok(parts) && r@ == spec_session_id(parts, suffix));
    }
    r
}

/// Session continuity: the looked-up identifier when the lookup found one;
/// the fresh identifier when the lookup found nothing or failed — a failed
/// lookup is never an error here.
pub fn continue_or_new(lookup: Result<Option<String>, ApiError>, fresh: String) -> (r: String)
    ensures
        lookup matches Ok(Some(sid)) ==> r == sid,
        (lookup matches Ok(o) && o is None) ==> r == fresh,
        lookup is Err ==> r == fresh,
{
    match lookup {
        Ok(Some(sid)) => sid,
        Ok(None) => fresh,
        Err(_) => fresh,
    }
}

/// A session identifier for one skill invocation: the prefix and the Unix
/// timestamp.
pub open spec fn spec_skill_session_id(ts: i64) -> Seq<char> {
    "cli_"@ + crate::strutil::spec_dec_signed(ts as int)
}

/// Renders a skill invocation's session identifier from a timestamp.
pub fn format_skill_session_id(ts: i64) -> (r: String)
    ensures
        r@ == spec_skill_session_id(ts),
{
    let mut out: Vec<char> = Vec::new();
    out.push('c');
    out.push('l');
    out.push('i');
    out.push('_');
    let mut digits = crate::strutil::fmt_i64(ts);
    out.append(&mut digits);
    proof {
        assert(seq!['c', 'l', 'i', '_'] =~= "cli_"@) by {
            reveal_strlit("cli_");
        }
        assert(out@ =~= spec_skill_session_id(ts));
    }
    string_from_chars(&out)
}

/// A fresh identifier starts with the prefix and ends with an underscore and
/// eight hexadecimal digits of its suffix.
pub proof fn lemma_session_id_shape(p: UtcParts, suffix: u32)
    ensures
        spec_session_id(p, suffix).len() >= 13,
        spec_session_id(p, suffix).subrange(0, 4) == "cli_"@,
        spec_session_id(p, suffix).subrange(
            spec_session_id(p, suffix).len() - 8,
            spec_session_id(p, suffix).len() as int,
        ) == spec_hex_fixed(suffix as int, 8),
        spec_session_id(p, suffix)[spec_session_id(p, suffix).len() - 9] == '_',
{
    let s = spec_session_id(p, suffix);
    lemma_hex_fixed_len(suffix as int, 8);
    lemma_stamp_len(p);
    reveal_strlit("cli_");
    assert(s.subrange(0, 4) =~= "cli_"@);
    assert(s.subrange(s.len() - 8, s.len() as int) =~= spec_hex_fixed(suffix as int, 8));
}

/// A timestamp rendering is never empty.
proof fn lemma_stamp_len(p: UtcParts)
    ensures
        spec_stamp(p).len() >= 1,
{
}

/// Two fresh identifiers generated at the same timestamp with different
/// suffixes differ: the random suffix alone separates calls within one
/// second.
pub proof fn lemma_distinct_suffixes_distinct_ids(p: UtcParts, a: u32, b: u32)
    requires
        a != b,
    ensures
        spec_session_id(p, a) != spec_session_id(p, b),
{
    let sa = spec_session_id(p, a);
    let sb = spec_session_id(p, b);
    lemma_hex_fixed_len(a as int, 8);
    lemma_hex_fixed_len(b as int, 8);
    if sa == sb {
        assert(sa.subrange(sa.len() - 8, sa.len() as int) =~= spec_hex_fixed(a as int, 8));
        assert(sb.subrange(sb.len() - 8, sb.len() as int) =~= spec_hex_fixed(b as int, 8));
        assert(spec_hex_fixed(a as int, 8) == spec_hex_fixed(b as int, 8));
        assert(pow16(8) == 0x100000000) by {
            reveal_with_fuel(pow16, 9);
        }
        lemma_hex_fixed_injective(a as int, b as int, 8);
    }
}

} // verus!
