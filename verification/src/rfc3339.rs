//! RFC 3339 timestamps over the proleptic Gregorian calendar, UTC only.
//!
//! A timestamp is a count of seconds since the Unix epoch. Formatting
//! produces the fixed-width form `YYYY-MM-DDTHH:MM:SSZ`; parsing accepts
//! exactly the strings that formatting produces and returns the original
//! count of seconds.
use vstd::prelude::*;

use crate::bytesutil::bytes_eq;

verus! {

/// Largest timestamp the formatter accepts. It lies far in the future
/// (year 9891) while keeping every reachable year below 10000, so the year
/// always fits in four digits.
pub const MAX_TIMESTAMP: u64 = 250000000000;

pub open spec fn is_leap_year(y: int) -> bool {
    (y % 4 == 0 && y % 100 != 0) || y % 400 == 0
}

pub open spec fn days_in_year(y: int) -> int {
    if is_leap_year(y) {
        366
    } else {
        365
    }
}

pub open spec fn days_in_month(y: int, m: int) -> int {
    if m == 2 {
        if is_leap_year(y) {
            29
        } else {
            28
        }
    } else if m == 4 || m == 6 || m == 9 || m == 11 {
        30
    } else {
        31
    }
}

/// Days in the months strictly before month `m` of year `y`.
pub open spec fn days_before_month(y: int, m: int) -> int {
    let leap: int = if is_leap_year(y) {
        1
    } else {
        0
    };
    if m <= 1 {
        0
    } else if m == 2 {
        31
    } else if m == 3 {
        59 + leap
    } else if m == 4 {
        90 + leap
    } else if m == 5 {
        120 + leap
    } else if m == 6 {
        151 + leap
    } else if m == 7 {
        181 + leap
    } else if m == 8 {
        212 + leap
    } else if m == 9 {
        243 + leap
    } else if m == 10 {
        273 + leap
    } else if m == 11 {
        304 + leap
    } else {
        334 + leap
    }
}

/// Days in the years from `y0` (inclusive) up to `y` (exclusive).
pub open spec fn days_from_year_to(y0: int, y: int) -> int
    decreases y - y0,
{
    if y <= y0 {
        0
    } else {
        days_in_year(y0) + days_from_year_to(y0 + 1, y)
    }
}

/// Walks forward from year `y`, consuming whole years from a day count.
pub open spec fn year_of_day(y: int, days: int) -> (int, int)
    decreases days,
    when days >= 0
{
    if days < days_in_year(y) {
        (y, days)
    } else {
        year_of_day(y + 1, days - days_in_year(y))
    }
}

/// Walks forward from month `m`, consuming whole months from a day count.
pub open spec fn month_of_day(y: int, m: int, days: int) -> (int, int)
    decreases 12 - m,
    when 1 <= m <= 12
{
    if m == 12 || days < days_in_month(y, m) {
        (m, days)
    } else {
        month_of_day(y, m + 1, days - days_in_month(y, m))
    }
}

/// The civil date and time of day of a timestamp:
/// (year, month, day, hour, minute, second).
pub open spec fn civil_of(ts: int) -> (int, int, int, int, int, int) {
    let days = ts / 86400;
    let secs = ts % 86400;
    let yd = year_of_day(1970, days);
    let md = month_of_day(yd.0, 1, yd.1);
    (yd.0, md.0, md.1 + 1, secs / 3600, (secs % 3600) / 60, secs % 60)
}

/// The timestamp of a civil date and time of day.
pub open spec fn unix_of_civil(y: int, m: int, d: int, h: int, mi: int, s: int) -> int {
    (days_from_year_to(1970, y) + days_before_month(y, m) + (d - 1)) * 86400 + h * 3600 + mi * 60
        + s
}

pub open spec fn is_digit(c: u8) -> bool {
    0x30 <= c <= 0x39
}

/// The ASCII digit for `n`'s last decimal digit.
pub open spec fn digit(n: int) -> u8 {
    (0x30 + n % 10) as u8
}

pub open spec fn dec2(n: int) -> Seq<u8> {
    seq![digit(n / 10), digit(n)]
}

pub open spec fn dec4(n: int) -> Seq<u8> {
    seq![digit(n / 1000), digit(n / 100), digit(n / 10), digit(n)]
}

/// The compact `YYYYMMDD` rendering of a timestamp's date.
pub open spec fn date8_bytes(ts: int) -> Seq<u8> {
    let c = civil_of(ts);
    dec4(c.0) + dec2(c.1) + dec2(c.2)
}

/// The compact `YYYYMMDD'T'HHMMSS'Z'` rendering of a timestamp.
pub open spec fn datetime_basic_bytes(ts: int) -> Seq<u8> {
    let c = civil_of(ts);
    dec4(c.0) + dec2(c.1) + dec2(c.2) + seq![84u8] + dec2(c.3) + dec2(c.4) + dec2(c.5)
        + seq![90u8]
}

/// The RFC 3339 rendering `YYYY-MM-DDTHH:MM:SSZ` of a timestamp.
pub open spec fn rfc3339_bytes(ts: int) -> Seq<u8> {
    let c = civil_of(ts);
    dec4(c.0) + seq![45u8] + dec2(c.1) + seq![45u8] + dec2(c.2) + seq![84u8] + dec2(c.3)
        + seq![58u8] + dec2(c.4) + seq![58u8] + dec2(c.5) + seq![90u8]
}

proof fn lemma_year_of_day(y0: int, days: int)
    requires
        days >= 0,
    ensures
        ({
            let r = year_of_day(y0, days);
            &&& r.0 >= y0
            &&& 0 <= r.1 < days_in_year(r.0)
            &&& days_from_year_to(y0, r.0) + r.1 == days
        }),
    decreases days,
{
    if days >= days_in_year(y0) {
        lemma_year_of_day(y0 + 1, days - days_in_year(y0));
    }
}

proof fn lemma_days_from_year_to_lower(y0: int, y: int)
    requires
        y0 <= y,
    ensures
        days_from_year_to(y0, y) >= 365 * (y - y0),
    decreases y - y0,
{
    if y > y0 {
        lemma_days_from_year_to_lower(y0 + 1, y);
    }
}

proof fn lemma_days_from_year_to_succ(y0: int, y: int)
    requires
        y0 <= y,
    ensures
        days_from_year_to(y0, y + 1) == days_from_year_to(y0, y) + days_in_year(y),
    decreases y - y0,
{
    if y > y0 {
        lemma_days_from_year_to_succ(y0 + 1, y);
    } else {
        assert(days_from_year_to(y0, y0 + 1) == days_in_year(y0) + days_from_year_to(y0 + 1, y0 + 1));
        assert(days_from_year_to(y0 + 1, y0 + 1) == 0);
    }
}

proof fn lemma_month_of_day(y: int, m: int, days: int)
    requires
        1 <= m <= 12,
        0 <= days,
        days + days_before_month(y, m) < days_in_year(y),
    ensures
        ({
            let r = month_of_day(y, m, days);
            &&& m <= r.0 <= 12
            &&& 0 <= r.1 < days_in_month(y, r.0)
            &&& days_before_month(y, r.0) + r.1 == days + days_before_month(y, m)
        }),
    decreases 12 - m,
{
    if !(m == 12 || days < days_in_month(y, m)) {
        lemma_month_of_day(y, m + 1, days - days_in_month(y, m));
    }
}

/// Turning a timestamp into its civil date and back returns the timestamp.
proof fn lemma_civil_roundtrip(ts: int)
    requires
        ts >= 0,
    ensures
        ({
            let c = civil_of(ts);
            unix_of_civil(c.0, c.1, c.2, c.3, c.4, c.5) == ts
        }),
{
    let days = ts / 86400;
    lemma_year_of_day(1970, days);
    let yd = year_of_day(1970, days);
    lemma_month_of_day(yd.0, 1, yd.1);
}

/// Everything parsing relies on about a canonical rendering: its length, the
/// positions of digits and separators, the component ranges, and that the
/// components reassemble into the rendered timestamp.
#[verifier::rlimit(60)]
proof fn lemma_render_shape(ts: int)
    requires
        0 <= ts <= MAX_TIMESTAMP,
    ensures
        ({
            let c = civil_of(ts);
            let b = rfc3339_bytes(ts);
            &&& b.len() == 20
            &&& b.subrange(0, 4) == dec4(c.0)
            &&& b[4] == 45u8
            &&& b.subrange(5, 7) == dec2(c.1)
            &&& b[7] == 45u8
            &&& b.subrange(8, 10) == dec2(c.2)
            &&& b[10] == 84u8
            &&& b.subrange(11, 13) == dec2(c.3)
            &&& b[13] == 58u8
            &&& b.subrange(14, 16) == dec2(c.4)
            &&& b[16] == 58u8
            &&& b.subrange(17, 19) == dec2(c.5)
            &&& b[19] == 90u8
            &&& forall|i: int|
                (0 <= i < 20 && i != 4 && i != 7 && i != 10 && i != 13 && i != 16 && i != 19)
                    ==> is_digit(b[i])
            &&& 1970 <= c.0 <= 9999
            &&& 1 <= c.1 <= 12
            &&& 1 <= c.2 <= days_in_month(c.0, c.1)
            &&& 0 <= c.3 < 24
            &&& 0 <= c.4 < 60
            &&& 0 <= c.5 < 60
            &&& unix_of_civil(c.0, c.1, c.2, c.3, c.4, c.5) == ts
        }),
{
    let days = ts / 86400;
    let secs = ts % 86400;
    lemma_year_of_day(1970, days);
    let yd = year_of_day(1970, days);
    lemma_days_from_year_to_lower(1970, yd.0);
    lemma_month_of_day(yd.0, 1, yd.1);
    lemma_civil_roundtrip(ts);
    let c = civil_of(ts);
    let b = rfc3339_bytes(ts);
    assert(b =~= seq![
        digit(c.0 / 1000),
        digit(c.0 / 100),
        digit(c.0 / 10),
        digit(c.0),
        45u8,
        digit(c.1 / 10),
        digit(c.1),
        45u8,
        digit(c.2 / 10),
        digit(c.2),
        84u8,
        digit(c.3 / 10),
        digit(c.3),
        58u8,
        digit(c.4 / 10),
        digit(c.4),
        58u8,
        digit(c.5 / 10),
        digit(c.5),
        90u8,
    ]);
    assert(b.subrange(0, 4) =~= dec4(c.0));
    assert(b.subrange(5, 7) =~= dec2(c.1));
    assert(b.subrange(8, 10) =~= dec2(c.2));
    assert(b.subrange(11, 13) =~= dec2(c.3));
    assert(b.subrange(14, 16) =~= dec2(c.4));
    assert(b.subrange(17, 19) =~= dec2(c.5));
}

proof fn lemma_dec2_inj(a: int, b: int)
    requires
        0 <= a < 100,
        0 <= b < 100,
        dec2(a) == dec2(b),
    ensures
        a == b,
{
    assert(dec2(a)[0] == dec2(b)[0]);
    assert(dec2(a)[1] == dec2(b)[1]);
    assert(a == 10 * (a / 10) + a % 10);
    assert(b == 10 * (b / 10) + b % 10);
}

proof fn lemma_dec4_inj(a: int, b: int)
    requires
        0 <= a < 10000,
        0 <= b < 10000,
        dec4(a) == dec4(b),
    ensures
        a == b,
{
    assert(dec4(a)[0] == dec4(b)[0]);
    assert(dec4(a)[1] == dec4(b)[1]);
    assert(dec4(a)[2] == dec4(b)[2]);
    assert(dec4(a)[3] == dec4(b)[3]);
    assert((a / 1000) % 10 == (b / 1000) % 10);
    assert((a / 100) % 10 == (b / 100) % 10);
    assert((a / 10) % 10 == (b / 10) % 10);
    assert(a % 10 == b % 10);
    assert(a == 1000 * (a / 1000) + 100 * ((a / 100) % 10) + 10 * ((a / 10) % 10) + a % 10)
        by (nonlinear_arith)
        requires
            0 <= a < 10000,
    ;
    assert(b == 1000 * (b / 1000) + 100 * ((b / 100) % 10) + 10 * ((b / 10) % 10) + b % 10)
        by (nonlinear_arith)
        requires
            0 <= b < 10000,
    ;
    assert(a / 1000 < 10 && b / 1000 < 10);
    assert((a / 1000) % 10 == a / 1000 && (b / 1000) % 10 == b / 1000);
}

/// Every byte of a rendering lies in `[0x2d, 0x5a]`: digits and the
/// separators `-`, `:`, `T`, `Z`. In particular renderings are ASCII and
/// hold no quote, backslash or control byte.
pub proof fn lemma_rfc3339_byte_range(ts: int)
    requires
        0 <= ts <= MAX_TIMESTAMP,
    ensures
        forall|i: int|
            0 <= i < rfc3339_bytes(ts).len() ==> 0x2d <= #[trigger] rfc3339_bytes(ts)[i] <= 0x5a,
{
    lemma_render_shape(ts);
    let b = rfc3339_bytes(ts);
    assert forall|i: int| 0 <= i < b.len() implies 0x2d <= #[trigger] b[i] <= 0x5a by {
        if i != 4 && i != 7 && i != 10 && i != 13 && i != 16 && i != 19 {
            assert(is_digit(b[i]));
        }
    }
}

/// Renderings are ASCII.
pub proof fn lemma_rfc3339_ascii(ts: int)
    requires
        0 <= ts <= MAX_TIMESTAMP,
    ensures
        crate::bytesutil::all_ascii(rfc3339_bytes(ts)),
{
    lemma_rfc3339_byte_range(ts);
}

/// Two timestamps with the same rendering are the same timestamp.
pub proof fn lemma_rfc3339_injective(a: int, b: int)
    requires
        0 <= a <= MAX_TIMESTAMP,
        0 <= b <= MAX_TIMESTAMP,
        rfc3339_bytes(a) == rfc3339_bytes(b),
    ensures
        a == b,
{
    lemma_render_shape(a);
    lemma_render_shape(b);
    let ca = civil_of(a);
    let cb = civil_of(b);
    lemma_dec4_inj(ca.0, cb.0);
    lemma_dec2_inj(ca.1, cb.1);
    lemma_dec2_inj(ca.2, cb.2);
    lemma_dec2_inj(ca.3, cb.3);
    lemma_dec2_inj(ca.4, cb.4);
    lemma_dec2_inj(ca.5, cb.5);
}

fn is_leap_year_e(y: u64) -> (r: bool)
    ensures
        r == is_leap_year(y as int),
{
    (y % 4 == 0 && y % 100 != 0) || y % 400 == 0
}

fn days_in_year_e(y: u64) -> (r: u64)
    ensures
        r == days_in_year(y as int),
{
    if is_leap_year_e(y) {
        366
    } else {
        365
    }
}

fn days_in_month_e(y: u64, m: u64) -> (r: u64)
    ensures
        r == days_in_month(y as int, m as int),
{
    if m == 2 {
        if is_leap_year_e(y) {
            29
        } else {
            28
        }
    } else if m == 4 || m == 6 || m == 9 || m == 11 {
        30
    } else {
        31
    }
}

/// Appends the two-digit zero-padded rendering of `n`.
fn push2(v: &mut Vec<u8>, n: u64)
    requires
        n < 100,
    ensures
        final(v)@ == old(v)@ + dec2(n as int),
{
    v.push(0x30 + (n / 10) as u8);
    v.push(0x30 + (n % 10) as u8);
    assert(v@ =~= old(v)@ + dec2(n as int));
}

/// Appends the four-digit zero-padded rendering of `n`.
fn push4(v: &mut Vec<u8>, n: u64)
    requires
        n < 10000,
    ensures
        final(v)@ == old(v)@ + dec4(n as int),
{
    v.push(0x30 + (n / 1000) as u8);
    v.push(0x30 + ((n / 100) % 10) as u8);
    v.push(0x30 + ((n / 10) % 10) as u8);
    v.push(0x30 + (n % 10) as u8);
    assert(v@ =~= old(v)@ + dec4(n as int));
}

/// Renders a timestamp as `YYYY-MM-DDTHH:MM:SSZ`.
pub fn format_rfc3339(ts: u64) -> (r: Vec<u8>)
    requires
        ts <= MAX_TIMESTAMP,
    ensures
        r@ == rfc3339_bytes(ts as int),
        r@.len() == 20,
{
    let days_total: u64 = ts / 86400;
    let secs: u64 = ts % 86400;
    proof {
        lemma_year_of_day(1970, days_total as int);
    }
    let mut y: u64 = 1970;
    let mut days: u64 = days_total;
    let mut diy: u64 = days_in_year_e(y);
    while days >= diy
        invariant
            1970 <= y,
            days <= days_total,
            days_total <= MAX_TIMESTAMP / 86400,
            diy == days_in_year(y as int),
            year_of_day(1970, days_total as int) == year_of_day(y as int, days as int),
            days_from_year_to(1970, y as int) + days == days_total,
        decreases days,
    {
        proof {
            lemma_days_from_year_to_lower(1970, y as int);
            lemma_days_from_year_to_succ(1970, y as int);
        }
        days = days - diy;
        y = y + 1;
        diy = days_in_year_e(y);
    }
    proof {
        lemma_days_from_year_to_lower(1970, y as int);
    }
    assert(y <= 9999);
    assert(year_of_day(1970, days_total as int) == (y as int, days as int));
    proof {
        lemma_month_of_day(y as int, 1, days as int);
    }
    let mut m: u64 = 1;
    let mut dim: u64 = days_in_month_e(y, m);
    while m < 12 && days >= dim
        invariant
            1 <= m <= 12,
            days < 366,
            dim == days_in_month(y as int, m as int),
            month_of_day(y as int, 1, (year_of_day(1970, ts as int / 86400)).1) == month_of_day(
                y as int,
                m as int,
                days as int,
            ),
        decreases 12 - m,
    {
        days = days - dim;
        m = m + 1;
        dim = days_in_month_e(y, m);
    }
    assert(month_of_day(y as int, 1, (year_of_day(1970, ts as int / 86400)).1) == (
    m as int,
    days as int,
    ));
    let d: u64 = days + 1;
    let h: u64 = secs / 3600;
    let mi: u64 = (secs % 3600) / 60;
    let s: u64 = secs % 60;
    let mut out: Vec<u8> = Vec::new();
    push4(&mut out, y);
    out.push(45);
    push2(&mut out, m);
    out.push(45);
    push2(&mut out, d);
    out.push(84);
    push2(&mut out, h);
    out.push(58);
    push2(&mut out, mi);
    out.push(58);
    push2(&mut out, s);
    out.push(90);
    assert(out@ =~= rfc3339_bytes(ts as int));
    out
}

/// Reads the ASCII digit at `b[i]`, if it is one.
fn digit_at(b: &[u8], i: usize) -> (r: Option<u64>)
    requires
        i < b@.len(),
    ensures
        match r {
            Some(d) => d < 10 && b@[i as int] == digit(d as int) && is_digit(b@[i as int]),
            None => !is_digit(b@[i as int]),
        },
{
    let c = b[i];
    if 0x30 <= c && c <= 0x39 {
        Some((c - 0x30) as u64)
    } else {
        None
    }
}

/// Reads the two-digit number at `b[i..i+2]`, if both bytes are digits.
fn num2_at(b: &[u8], i: usize) -> (r: Option<u64>)
    requires
        i + 2 <= b@.len(),
    ensures
        match r {
            Some(n) => n < 100 && b@.subrange(i as int, i + 2) == dec2(n as int),
            None => !(is_digit(b@[i as int]) && is_digit(b@[i + 1])),
        },
{
    let len = b.len();
    match (digit_at(b, i), digit_at(b, i + 1)) {
        (Some(d1), Some(d0)) => {
            let n = d1 * 10 + d0;
            assert(b@.subrange(i as int, i + 2) =~= dec2(n as int));
            Some(n)
        },
        _ => None,
    }
}

/// Reads the four-digit number at `b[i..i+4]`, if all bytes are digits.
fn num4_at(b: &[u8], i: usize) -> (r: Option<u64>)
    requires
        i + 4 <= b@.len(),
    ensures
        match r {
            Some(n) => n < 10000 && b@.subrange(i as int, i + 4) == dec4(n as int),
            None => !(is_digit(b@[i as int]) && is_digit(b@[i + 1]) && is_digit(b@[i + 2])
                && is_digit(b@[i + 3])),
        },
{
    let len = b.len();
    match (digit_at(b, i), digit_at(b, i + 1), digit_at(b, i + 2), digit_at(b, i + 3)) {
        (Some(d3), Some(d2), Some(d1), Some(d0)) => {
            let n = d3 * 1000 + d2 * 100 + d1 * 10 + d0;
            assert(n / 1000 == d3 && (n / 100) % 10 == d2 && (n / 10) % 10 == d1 && n % 10 == d0)
                by (nonlinear_arith)
                requires
                    d3 < 10 && d2 < 10 && d1 < 10 && d0 < 10 && n == d3 * 1000 + d2 * 100 + d1 * 10
                        + d0,
            ;
            assert(b@.subrange(i as int, i + 4) =~= dec4(n as int));
            Some(n)
        },
        _ => None,
    }
}

/// Parses exactly the strings produced by [`format_rfc3339`] and returns the
/// timestamp they render. Any other input is rejected.
pub fn parse_rfc3339(b: &[u8]) -> (r: Option<u64>)
    ensures
        match r {
            Some(ts) => ts <= MAX_TIMESTAMP && b@ == rfc3339_bytes(ts as int),
            None => forall|ts: int| 0 <= ts <= MAX_TIMESTAMP ==> b@ != rfc3339_bytes(ts),
        },
        forall|ts: int|
            0 <= ts <= MAX_TIMESTAMP && b@ == rfc3339_bytes(ts) ==> r == Some(ts as u64),
{
    if b.len() != 20 {
        proof {
            assert forall|ts: int| 0 <= ts <= MAX_TIMESTAMP implies b@ != rfc3339_bytes(ts) by {
                lemma_render_shape(ts);
            }
        }
        return None;
    }
    let oy = num4_at(b, 0);
    let om = num2_at(b, 5);
    let od = num2_at(b, 8);
    let oh = num2_at(b, 11);
    let omi = num2_at(b, 14);
    let os = num2_at(b, 17);
    let sep_ok = b[4] == 45 && b[7] == 45 && b[10] == 84 && b[13] == 58 && b[16] == 58 && b[19]
        == 90;
    let (y, m, d, h, mi, s) = match (oy, om, od, oh, omi, os) {
        (Some(y), Some(m), Some(d), Some(h), Some(mi), Some(s)) if sep_ok => (y, m, d, h, mi, s),
        _ => {
            proof {
                assert forall|ts: int| 0 <= ts <= MAX_TIMESTAMP implies b@ != rfc3339_bytes(ts) by {
                    lemma_render_shape(ts);
                }
            }
            return None;
        },
    };
    let range_ok = 1970 <= y && y <= 9999 && 1 <= m && m <= 12 && 1 <= d && h < 24 && mi < 60 && s
        < 60 && d <= days_in_month_e(y, m);
    if !range_ok {
        proof {
            assert forall|ts: int| 0 <= ts <= MAX_TIMESTAMP implies b@ != rfc3339_bytes(ts) by {
                lemma_render_shape(ts);
                let c = civil_of(ts);
                if b@ == rfc3339_bytes(ts) {
                    lemma_dec4_inj(y as int, c.0);
                    lemma_dec2_inj(m as int, c.1);
                    lemma_dec2_inj(d as int, c.2);
                    lemma_dec2_inj(h as int, c.3);
                    lemma_dec2_inj(mi as int, c.4);
                    lemma_dec2_inj(s as int, c.5);
                }
            }
        }
        return None;
    }
    // Reassemble the day count for the civil date.
    let mut yy: u64 = 1970;
    let mut ydays: u64 = 0;
    while yy < y
        invariant
            1970 <= yy <= y <= 9999,
            ydays == days_from_year_to(1970, yy as int),
            ydays <= 366 * (yy - 1970),
        decreases y - yy,
    {
        proof {
            lemma_days_from_year_to_succ(1970, yy as int);
        }
        ydays = ydays + days_in_year_e(yy);
        yy = yy + 1;
    }
    let mut mm: u64 = 1;
    let mut mdays: u64 = 0;
    while mm < m
        invariant
            1 <= mm <= m <= 12,
            mdays == days_before_month(y as int, mm as int),
            mdays <= 366,
        decreases m - mm,
    {
        mdays = mdays + days_in_month_e(y, mm);
        mm = mm + 1;
    }
    let ts: u64 = (ydays + mdays + (d - 1)) * 86400 + h * 3600 + mi * 60 + s;
    assert(ts == unix_of_civil(y as int, m as int, d as int, h as int, mi as int, s as int));
    if ts > MAX_TIMESTAMP {
        proof {
            assert forall|t: int| 0 <= t <= MAX_TIMESTAMP implies b@ != rfc3339_bytes(t) by {
                lemma_render_shape(t);
                let c = civil_of(t);
                if b@ == rfc3339_bytes(t) {
                    lemma_dec4_inj(y as int, c.0);
                    lemma_dec2_inj(m as int, c.1);
                    lemma_dec2_inj(d as int, c.2);
                    lemma_dec2_inj(h as int, c.3);
                    lemma_dec2_inj(mi as int, c.4);
                    lemma_dec2_inj(s as int, c.5);
                }
            }
        }
        return None;
    }
    let canonical = format_rfc3339(ts);
    if bytes_eq(b, canonical.as_slice()) {
        proof {
            assert forall|t: int|
                0 <= t <= MAX_TIMESTAMP && b@ == rfc3339_bytes(t) implies t == ts as int by {
                lemma_render_shape(t);
                lemma_render_shape(ts as int);
                let c = civil_of(t);
                let cc = civil_of(ts as int);
                lemma_dec4_inj(cc.0, c.0);
                lemma_dec2_inj(cc.1, c.1);
                lemma_dec2_inj(cc.2, c.2);
                lemma_dec2_inj(cc.3, c.3);
                lemma_dec2_inj(cc.4, c.4);
                lemma_dec2_inj(cc.5, c.5);
            }
        }
        Some(ts)
    } else {
        proof {
            assert forall|t: int| 0 <= t <= MAX_TIMESTAMP implies b@ != rfc3339_bytes(t) by {
                lemma_render_shape(t);
                let c = civil_of(t);
                if b@ == rfc3339_bytes(t) {
                    lemma_dec4_inj(y as int, c.0);
                    lemma_dec2_inj(m as int, c.1);
                    lemma_dec2_inj(d as int, c.2);
                    lemma_dec2_inj(h as int, c.3);
                    lemma_dec2_inj(mi as int, c.4);
                    lemma_dec2_inj(s as int, c.5);
                }
            }
        }
        None
    }
}

} // verus!
