//! Dates given on the command line, and how long ago a moment was.  Moments
//! are whole seconds since the epoch, in UTC.
use vstd::prelude::*;
use crate::auth::opt_text;
use crate::cli::{all_digits, digits_value, parse_number};
use crate::text::{decimal, lower_of, lowercase, push_decimal, str_eq};
use crate::validation::ends_with;

verus! {

pub const SECS_PER_DAY: i64 = 86400;

pub const SECS_PER_WEEK: i64 = 604800;

/// What chrono reads as a `YYYY-MM-DD` date (`NaiveDate` from a string),
/// as the seconds of its midnight in UTC.
pub uninterp spec fn iso_midnight_of(text: Seq<char>) -> Option<i64>;

/// What chrono writes as the UTC date of a moment, `YYYY-MM-DD`; `None`
/// outside the dates it represents.
pub uninterp spec fn utc_date_of(secs: i64) -> Option<Seq<char>>;

/// Relies on `str::parse::<chrono::NaiveDate>`, `and_hms_opt(0, 0, 0)`
/// (always valid) and `timestamp`.
#[verifier::external_body]
fn iso_midnight(text: &str) -> (r: Option<i64>)
    ensures
        r == iso_midnight_of(text@),
{
    match text.parse::<chrono::NaiveDate>() {
        Ok(date) => match date.and_hms_opt(0, 0, 0) {
            Some(midnight) => Some(midnight.and_utc().timestamp()),
            None => None,
        },
        Err(_) => None,
    }
}

/// Relies on `chrono::DateTime::from_timestamp` and `format("%Y-%m-%d")`.
#[verifier::external_body]
fn utc_date(secs: i64) -> (r: Option<String>)
    ensures
        opt_text(r) == utc_date_of(secs),
{
    match chrono::DateTime::from_timestamp(secs, 0) {
        Some(moment) => Some(moment.format("%Y-%m-%d").to_string()),
        None => None,
    }
}

/// Midnight UTC of the day of `secs`.
pub open spec fn day_start(secs: int) -> int {
    (secs / 86400) * 86400
}

/// Division rounding toward zero.
pub open spec fn trunc_div(a: int, b: int) -> int {
    if a >= 0 {
        a / b
    } else {
        -((-a) / b)
    }
}

/// A signed decimal integer: an optional `+` or `-`, then digits, within
/// the range of `i64`.
pub open spec fn signed_value(s: Seq<char>) -> Option<int> {
    let signed = s.len() > 0 && (s[0] == '-' || s[0] == '+');
    let body = if signed {
        s.drop_first()
    } else {
        s
    };
    let v = if signed && s[0] == '-' {
        -digits_value(body)
    } else {
        digits_value(body)
    };
    if body.len() > 0 && all_digits(body) && i64::MIN <= v <= i64::MAX {
        Some(v)
    } else {
        None
    }
}

/// Parses a signed decimal integer, as `str::parse::<i64>` does.
pub fn parse_signed(s: &str) -> (r: Option<i64>)
    ensures
        match signed_value(s@) {
            Some(v) => r == Some(v as i64),
            None => r is None,
        },
{
    let n = s.unicode_len();
    if n > 0 && (s.get_char(0) == '-' || s.get_char(0) == '+') {
        let negative = s.get_char(0) == '-';
        let body = s.substring_char(1, n);
        assert(body@ =~= s@.drop_first());
        if negative {
            match parse_number(body, 0x8000_0000_0000_0000) {
                Some(v) => {
                    if v == 0x8000_0000_0000_0000 {
                        Some(i64::MIN)
                    } else {
                        Some(-(v as i64))
                    }
                },
                None => None,
            }
        } else {
            match parse_number(body, 0x7fff_ffff_ffff_ffff) {
                Some(v) => Some(v as i64),
                None => None,
            }
        }
    } else {
        match parse_number(s, 0x7fff_ffff_ffff_ffff) {
            Some(v) => Some(v as i64),
            None => None,
        }
    }
}

/// `t`, if it fits in `i64`.
pub open spec fn in_range(t: int) -> Option<int> {
    if i64::MIN <= t <= i64::MAX {
        Some(t)
    } else {
        None
    }
}

/// `n` units of `unit` seconds before `now`, if that fits in `i64`.
pub open spec fn before(now: int, n: int, unit: int) -> Option<int> {
    in_range(now - n * unit)
}

/// The moment a date argument names, relative to `now`: a `YYYY-MM-DD`
/// date at midnight UTC; `today` or `yesterday` at midnight; `last week`,
/// `last month` (thirty days), `N days ago` or `N weeks ago` before `now`.
pub open spec fn date_at(text: Seq<char>, now: i64) -> Option<int> {
    let l = lower_of(text);
    if iso_midnight_of(text) is Some {
        Some(iso_midnight_of(text)->0 as int)
    } else if l == "today"@ {
        in_range(day_start(now as int))
    } else if l == "yesterday"@ {
        in_range(day_start(now - 86400))
    } else if l == "last week"@ || l == "lastweek"@ {
        before(now as int, 1, 604800)
    } else if l == "last month"@ || l == "lastmonth"@ {
        before(now as int, 30, 86400)
    } else if ends_with(l, " days ago"@) && signed_value(l.subrange(0, l.len() - 9)) is Some {
        before(now as int, signed_value(l.subrange(0, l.len() - 9))->0, 86400)
    } else if ends_with(l, " weeks ago"@) && signed_value(l.subrange(0, l.len() - 10)) is Some {
        before(now as int, signed_value(l.subrange(0, l.len() - 10))->0, 604800)
    } else {
        None
    }
}

fn day_start_exec(secs: i128) -> (r: i128)
    requires
        -0x1_0000_0000_0000_0000 < secs < 0x1_0000_0000_0000_0000,
    ensures
        r == day_start(secs as int),
{
    let q: i128 = if secs >= 0 {
        ((secs as u128) / 86400) as i128
    } else {
        let m = (-secs) as u128;
        let d = (m + 86399) / 86400;
        proof {
            let s = secs as int;
            let dd = d as int;
            assert(dd * 86400 <= m + 86399 < (dd + 1) * 86400) by (nonlinear_arith)
                requires
                    dd == (m as int + 86399) / 86400,
            ;
            assert(s / 86400 == -dd) by (nonlinear_arith)
                requires
                    s == -(m as int),
                    dd * 86400 <= m + 86399,
                    m + 86399 < (dd + 1) * 86400,
            ;
        }
        -(d as i128)
    };
    q * 86400
}

fn before_exec(now: i64, n: i64, unit: i64) -> (r: Option<i64>)
    requires
        0 < unit <= 604800,
    ensures
        match before(now as int, n as int, unit as int) {
            Some(t) => r == Some(t as i64),
            None => r is None,
        },
{
    assert(-0x8000_0000_0000_0000 * 604800 <= (n as int) * (unit as int) <= 0x8000_0000_0000_0000 * 604800)
        by (nonlinear_arith)
        requires
            0 < unit <= 604800,
            i64::MIN <= n <= i64::MAX,
    ;
    let t: i128 = now as i128 - (n as i128) * (unit as i128);
    if t >= i64::MIN as i128 && t <= i64::MAX as i128 {
        Some(t as i64)
    } else {
        None
    }
}

/// The moment that a date argument names, with `now` as the current
/// moment; fails on anything else.
pub fn parse_date(text: &str, now: i64) -> (r: Result<i64, String>)
    ensures
        match date_at(text@, now) {
            Some(t) => r == Ok::<i64, String>(t as i64),
            None => r is Err,
        },
{
    proof {
        reveal_strlit(" days ago");
        reveal_strlit(" weeks ago");
    }
    if let Some(m) = iso_midnight(text) {
        return Ok(m);
    }
    let lower = lowercase(text);
    let l = lower.as_str();
    let n = l.unicode_len();
    let invalid = Err(crate::text::concat_texts("Invalid date format: ", text));
    if str_eq(l, "today") || str_eq(l, "yesterday") {
        let back: i128 = if str_eq(l, "today") {
            0
        } else {
            86400
        };
        let t = day_start_exec(now as i128 - back);
        if t < i64::MIN as i128 || t > i64::MAX as i128 {
            return invalid;
        }
        Ok(t as i64)
    } else if str_eq(l, "last week") || str_eq(l, "lastweek") {
        match before_exec(now, 1, SECS_PER_WEEK) {
            Some(t) => Ok(t),
            None => invalid,
        }
    } else if str_eq(l, "last month") || str_eq(l, "lastmonth") {
        match before_exec(now, 30, SECS_PER_DAY) {
            Some(t) => Ok(t),
            None => invalid,
        }
    } else if n >= 9 && str_eq(l.substring_char(n - 9, n), " days ago") {
        match parse_signed(l.substring_char(0, n - 9)) {
            Some(days) => match before_exec(now, days, SECS_PER_DAY) {
                Some(t) => Ok(t),
                None => invalid,
            },
            None => {
                proof {
                    let lv = l@;
                    assert(lv.subrange(n - 9, n as int)[0] == ' ');
                    if ends_with(lv, " weeks ago"@) {
                        assert(lv.subrange(n - 10, n as int)[1] == 'w');
                        assert(lv.subrange(n - 10, n as int)[1] == lv.subrange(n - 9, n as int)[0]);
                    }
                }
                invalid
            },
        }
    } else if n >= 10 && str_eq(l.substring_char(n - 10, n), " weeks ago") {
        match parse_signed(l.substring_char(0, n - 10)) {
            Some(weeks) => match before_exec(now, weeks, SECS_PER_WEEK) {
                Some(t) => Ok(t),
                None => invalid,
            },
            None => invalid,
        }
    } else {
        invalid
    }
}

/// A signed integer in decimal.
pub open spec fn signed_decimal(n: int) -> Seq<char> {
    if n >= 0 {
        decimal(n as nat)
    } else {
        "-"@ + decimal((-n) as nat)
    }
}

fn push_signed(s: &mut String, n: i128)
    requires
        -0x1_0000_0000_0000_0000 < n < 0x1_0000_0000_0000_0000,
    ensures
        final(s)@ == old(s)@ + signed_decimal(n as int),
{
    if n >= 0 {
        push_decimal(s, n as u64);
    } else {
        s.append("-");
        push_decimal(s, (-n) as u64);
    }
}

/// How long before `now` the moment `then` was: minutes or hours within
/// a day, `yesterday`, days within a week, weeks within four, else the date
/// of `then`; `unknown` where `then` has no date.
pub open spec fn age_text(now: i64, then: i64) -> Seq<char> {
    let e = now - then;
    let days = trunc_div(e, 86400);
    match utc_date_of(then) {
        None => "unknown"@,
        Some(date) => if days == 0 {
            if trunc_div(e, 3600) == 0 {
                signed_decimal(trunc_div(e, 60)) + " minutes ago"@
            } else {
                signed_decimal(trunc_div(e, 3600)) + " hours ago"@
            }
        } else if days == 1 {
            "yesterday"@
        } else if days < 7 {
            signed_decimal(days) + " days ago"@
        } else if trunc_div(e, 604800) < 4 {
            signed_decimal(trunc_div(e, 604800)) + " weeks ago"@
        } else {
            date
        },
    }
}

fn trunc_div_exec(a: i128, b: i128) -> (r: i128)
    requires
        0 < b <= 604800,
        -0x1_0000_0000_0000_0000 < a < 0x1_0000_0000_0000_0000,
    ensures
        r == trunc_div(a as int, b as int),
        -0x1_0000_0000_0000_0000 < r < 0x1_0000_0000_0000_0000,
{
    if a >= 0 {
        ((a as u128) / (b as u128)) as i128
    } else {
        -((((-a) as u128) / (b as u128)) as i128)
    }
}

/// How long before `now` the moment `timestamp` was, for display.
pub fn format_relative_time(timestamp: i64, now: i64) -> (r: String)
    ensures
        r@ == age_text(now, timestamp),
{
    let then = timestamp;
    let date = match utc_date(then) {
        Some(d) => d,
        None => {
            return String::from_str("unknown");
        },
    };
    let e: i128 = now as i128 - then as i128;
    let days = trunc_div_exec(e, 86400);
    let mut r = String::new();
    if days == 0 {
        let hours = trunc_div_exec(e, 3600);
        if hours == 0 {
            push_signed(&mut r, trunc_div_exec(e, 60));
            r.append(" minutes ago");
        } else {
            push_signed(&mut r, hours);
            r.append(" hours ago");
        }
        r
    } else if days == 1 {
        String::from_str("yesterday")
    } else if days < 7 {
        push_signed(&mut r, days);
        r.append(" days ago");
        r
    } else if trunc_div_exec(e, 604800) < 4 {
        push_signed(&mut r, trunc_div_exec(e, 604800));
        r.append(" weeks ago");
        r
    } else {
        date
    }
}

} // verus!
