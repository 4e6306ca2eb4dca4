//! Calendar dates and time stamps.

use vstd::prelude::*;
use crate::text;
use crate::text::Cut;

verus! {

// ---------------------------------------------------------------------
// Dates
// ---------------------------------------------------------------------

pub open spec fn is_leap(y: int) -> bool {
    y % 4 == 0 && (y % 100 != 0 || y % 400 == 0)
}

/// Days of a month.
pub open spec fn month_days(y: int, m: int) -> int {
    if m == 2 {
        if is_leap(y) { 29 } else { 28 }
    } else if m == 4 || m == 6 || m == 9 || m == 11 {
        30
    } else {
        31
    }
}

/// A date of the Gregorian calendar.
pub open spec fn is_date(y: int, m: int, d: int) -> bool {
    1 <= m <= 12 && 1 <= d <= month_days(y, m)
}

/// The year that a date belongs to when years begin in March.
pub open spec fn march_year(y: int, m: int) -> int {
    if m <= 2 { y - 1 } else { y }
}

/// The month counted from March.
pub open spec fn march_month(m: int) -> int {
    if m > 2 { m - 3 } else { m + 9 }
}

/// Days since 1970-01-01, counted in years that begin in March: the leap day
/// is then the last of its year.
pub open spec fn civil_days(y: int, m: int, d: int) -> int {
    let yy = march_year(y, m);
    365 * yy + yy / 4 - yy / 100 + yy / 400 + (153 * march_month(m) + 2) / 5 + d - 1 - 719_468
}

pub open spec fn fits_i64(x: int) -> bool {
    i64::MIN <= x <= i64::MAX
}

pub open spec fn fits_u32(x: int) -> bool {
    0 <= x <= u32::MAX
}

/// Whether the day number of a date is computed without leaving the range of
/// its machine integers. Every date up to the year 10^13 is.
pub open spec fn civil_fits(y: int, m: int, d: int) -> bool {
    let yy = march_year(y, m);
    let doy = (153 * march_month(m) + 2) / 5 + d;
    let yoe = yy % 400;
    &&& fits_i64(yy)
    &&& fits_u32(153 * march_month(m) + 2)
    &&& fits_u32(doy)
    &&& fits_u32(doy - 1)
    &&& fits_u32(yoe * 365 + yoe / 4 - yoe / 100 + doy - 1)
    &&& fits_i64((yy / 400) * 146_097)
    &&& fits_i64(civil_days(y, m, d) + 719_468)
    &&& fits_i64(civil_days(y, m, d))
}

/// Quotient and remainder of the division that rounds down.
fn floor_div(a: i128, b: i128) -> (r: (i128, i128))
    requires
        0 < b <= 1_000_000,
        -0x1_0000_0000_0000_0000_0000 <= a <= 0x1_0000_0000_0000_0000_0000,
    ensures
        r.0 == a as int / b as int,
        r.1 == a as int % b as int,
        0 <= r.1 < b,
{
    if a >= 0 {
        (a / b, a % b)
    } else {
        let n: i128 = -a - 1;
        let q: i128 = -(n / b) - 1;
        let m: i128 = b - 1 - n % b;
        proof {
            let (x, y, k) = (n as int, b as int, (n / b) as int);
            assert(x == y * (x / y) + x % y) by (nonlinear_arith)
                requires
                    y > 0,
            ;
            assert(a as int == b as int * (-k - 1) + (b - 1 - x % y)) by (nonlinear_arith)
                requires
                    a == -x - 1,
                    y == b,
                    k == x / y,
                    x == y * (x / y) + x % y,
            ;
            vstd::arithmetic::div_mod::lemma_fundamental_div_mod_converse(
                a as int,
                b as int,
                -k - 1,
                b - 1 - x % y,
            );
        }
        (q, m)
    }
}

/// Day number of a date, in wide integers.
fn wide_days(y: i64, m: u32, d: u32) -> (r: i128)
    ensures
        r == civil_days(y as int, m as int, d as int),
        -0x1_0000_0000_0000_0000_0000 <= r <= 0x1_0000_0000_0000_0000_0000,
{
    let yy: i128 = if m <= 2 {
        y as i128 - 1
    } else {
        y as i128
    };
    let mm: i128 = if m > 2 {
        m as i128 - 3
    } else {
        m as i128 + 9
    };
    let (q4, _) = floor_div(yy, 4);
    let (q100, _) = floor_div(yy, 100);
    let (q400, _) = floor_div(yy, 400);
    365 * yy + q4 - q100 + q400 + (153 * mm + 2) / 5 + d as i128 - 1 - 719_468
}

fn in_i64(x: i128) -> (r: bool)
    ensures
        r == fits_i64(x as int),
{
    -0x8000_0000_0000_0000i128 <= x && x <= 0x7FFF_FFFF_FFFF_FFFFi128
}

fn in_u32(x: i128) -> (r: bool)
    ensures
        r == fits_u32(x as int),
{
    0 <= x && x <= 0xFFFF_FFFFi128
}

/// Whether `civil_to_days` can number the date.
pub fn can_number(y: i64, m: u32, d: u32) -> (r: bool)
    ensures
        r == civil_fits(y as int, m as int, d as int),
{
    let yy: i128 = if m <= 2 {
        y as i128 - 1
    } else {
        y as i128
    };
    let mm: i128 = if m > 2 {
        m as i128 - 3
    } else {
        m as i128 + 9
    };
    let doy: i128 = (153 * mm + 2) / 5 + d as i128;
    let (era, yoe) = floor_div(yy, 400);
    let days = wide_days(y, m, d);
    in_i64(yy) && in_u32(153 * mm + 2) && in_u32(doy) && in_u32(doy - 1) && in_u32(
        yoe * 365 + yoe / 4 - yoe / 100 + doy - 1,
    ) && in_i64(era * 146_097) && in_i64(days + 719_468) && in_i64(days)
}

/// Days since 1970-01-01 of a date.
pub fn civil_to_days(y: i64, m: u32, d: u32) -> (r: i64)
    requires
        civil_fits(y as int, m as int, d as int),
    ensures
        r == civil_days(y as int, m as int, d as int),
{
    wide_days(y, m, d) as i64
}

/// The parts of a day's number within 400 years that begin in March: the
/// century, the group of four years, the year in it and the day in that.
fn year_parts(doe: i128) -> (r: (i128, i128, i128, i128))
    requires
        0 <= doe <= 146_096,
    ensures
        0 <= r.0 <= 3,
        0 <= r.1 <= 24,
        0 <= r.2 <= 3,
        0 <= r.3 <= 365,
        doe == r.0 * 36_524 + r.1 * 1_461 + r.2 * 365 + r.3,
        r.3 == 365 ==> r.2 == 3 && (r.1 == 24 ==> r.0 == 3),
{
    let century: i128 = if doe / 36_524 > 3 {
        3
    } else {
        doe / 36_524
    };
    let doc: i128 = doe - century * 36_524;
    assert(0 <= doc <= 36_524 && (doc == 36_524 ==> century == 3));
    let quad: i128 = doc / 1_461;
    let doq: i128 = doc - quad * 1_461;
    assert(0 <= quad <= 24 && 0 <= doq <= 1_460 && (quad == 24 && doq == 1_460 ==> doc == 36_524));
    let yoq: i128 = if doq / 365 > 3 {
        3
    } else {
        doq / 365
    };
    let doy: i128 = doq - yoq * 365;
    (century, quad, yoq, doy)
}

proof fn lemma_year_number(era: int, century: int, quad: int, yoq: int)
    requires
        0 <= century <= 3,
        0 <= quad <= 24,
        0 <= yoq <= 3,
    ensures
        ({
            let yy = era * 400 + century * 100 + quad * 4 + yoq;
            &&& year_start(yy) == era * 146_097 + century * 36_524 + quad * 1_461 + yoq * 365
            &&& yoq == 3 && (quad == 24 ==> century == 3) ==> is_leap(yy + 1)
        }),
{
    let yy = era * 400 + century * 100 + quad * 4 + yoq;
    assert(yy / 4 == era * 100 + century * 25 + quad);
    assert(yy / 100 == era * 4 + century);
    assert(yy / 400 == era);
    if yoq == 3 {
        assert((yy + 1) % 4 == 0);
        if quad < 24 {
            assert((yy + 1) % 100 == quad * 4 + 4);
        } else if century == 3 {
            assert((yy + 1) % 400 == 0);
        }
    }
}

/// Month counted from March and day of the month of a day of the year.
fn month_parts(doy: i128) -> (r: (i128, i128))
    requires
        0 <= doy <= 365,
    ensures
        0 <= r.0 <= 11,
        doy == (153 * r.0 + 2) / 5 + r.1 - 1,
        1 <= r.1 <= 31,
        r.0 == 1 || r.0 == 3 || r.0 == 6 || r.0 == 8 ==> r.1 <= 30,
        r.0 == 11 ==> r.1 <= 29,
        r.0 == 11 && r.1 == 29 ==> doy == 365,
{
    let mp: i128 = (5 * doy + 2) / 153;
    let d: i128 = doy - (153 * mp + 2) / 5 + 1;
    (mp, d)
}

/// The date with this day number.
pub fn civil_from_days(days: i64) -> (r: (i64, u32, u32))
    requires
        days <= i64::MAX - 719_468,
    ensures
        is_date(r.0 as int, r.1 as int, r.2 as int),
        civil_days(r.0 as int, r.1 as int, r.2 as int) == days,
{
    let z: i128 = days as i128 + 719_468;
    let (era, doe) = floor_div(z, 146_097);
    let (century, quad, yoq, doy) = year_parts(doe);
    let yy: i128 = era * 400 + century * 100 + quad * 4 + yoq;
    let (mp, d) = month_parts(doy);
    let m: i128 = if mp < 10 {
        mp + 3
    } else {
        mp - 9
    };
    let y: i128 = if m <= 2 {
        yy + 1
    } else {
        yy
    };
    proof {
        assert(z == era * 146_097 + doe);
        lemma_year_number(era as int, century as int, quad as int, yoq as int);
        assert(march_year(y as int, m as int) == yy);
        assert(march_month(m as int) == mp);
        assert(civil_days(y as int, m as int, d as int) == year_start(yy as int) + doy - 719_468);
    }
    (y as i64, m as u32, d as u32)
}

/// Two dates with the same day number are the same date.
pub proof fn law_date_of_day_is_unique(y1: int, m1: int, d1: int, y2: int, m2: int, d2: int)
    requires
        is_date(y1, m1, d1),
        is_date(y2, m2, d2),
        civil_days(y1, m1, d1) == civil_days(y2, m2, d2),
    ensures
        y1 == y2 && m1 == m2 && d1 == d2,
{
    let (a, b) = (march_year(y1, m1), march_year(y2, m2));
    lemma_march_year_span(y1, m1, d1);
    lemma_march_year_span(y2, m2, d2);
    if a < b {
        lemma_year_starts_grow(a + 1, b);
    }
    if b < a {
        lemma_year_starts_grow(b + 1, a);
    }
    assert(a == b);
    let (p, q) = (march_month(m1), march_month(m2));
    if p < q {
        lemma_month_starts_grow(y1, m1, d1, y2, m2);
    }
    if q < p {
        lemma_month_starts_grow(y2, m2, d2, y1, m1);
    }
}

/// Whether a date comes before another in the calendar.
pub open spec fn date_before(y1: int, m1: int, d1: int, y2: int, m2: int, d2: int) -> bool {
    y1 < y2 || y1 == y2 && (m1 < m2 || m1 == m2 && d1 < d2)
}

/// Day numbers are in the order of the dates.
pub proof fn law_days_follow_the_calendar(y1: int, m1: int, d1: int, y2: int, m2: int, d2: int)
    requires
        is_date(y1, m1, d1),
        is_date(y2, m2, d2),
    ensures
        civil_days(y1, m1, d1) < civil_days(y2, m2, d2) <==> date_before(y1, m1, d1, y2, m2, d2),
{
    if date_before(y1, m1, d1, y2, m2, d2) {
        lemma_later_date(y1, m1, d1, y2, m2, d2);
    } else if date_before(y2, m2, d2, y1, m1, d1) {
        lemma_later_date(y2, m2, d2, y1, m1, d1);
    }
}

proof fn lemma_later_date(y1: int, m1: int, d1: int, y2: int, m2: int, d2: int)
    requires
        is_date(y1, m1, d1),
        is_date(y2, m2, d2),
        date_before(y1, m1, d1, y2, m2, d2),
    ensures
        civil_days(y1, m1, d1) < civil_days(y2, m2, d2),
{
    let (a, b) = (march_year(y1, m1), march_year(y2, m2));
    lemma_march_year_span(y1, m1, d1);
    lemma_march_year_span(y2, m2, d2);
    if a < b {
        lemma_year_starts_grow(a + 1, b);
    } else {
        assert(a == b);
        if march_month(m1) < march_month(m2) {
            lemma_month_starts_grow(y1, m1, d1, y2, m2);
        }
    }
}

/// Day number of the first of March of a year, from a fixed origin.
spec fn year_start(yy: int) -> int {
    365 * yy + yy / 4 - yy / 100 + yy / 400
}

proof fn lemma_year_starts_grow(a: int, b: int)
    requires
        a <= b,
    ensures
        year_start(a) <= year_start(b),
    decreases b - a,
{
    if a < b {
        lemma_year_starts_grow(a, b - 1);
        assert(year_start(b - 1) <= year_start(b));
    }
}

proof fn lemma_march_year_span(y: int, m: int, d: int)
    requires
        is_date(y, m, d),
    ensures
        year_start(march_year(y, m)) <= civil_days(y, m, d) + 719_468 < year_start(
            march_year(y, m) + 1,
        ),
{
    let yy = march_year(y, m);
    assert(m == 2 ==> y == yy + 1);
    assert(is_leap(yy + 1) ==> year_start(yy + 1) - year_start(yy) == 366);
    assert(year_start(yy + 1) - year_start(yy) >= 365);
}

proof fn lemma_month_starts_grow(y1: int, m1: int, d1: int, y2: int, m2: int)
    requires
        is_date(y1, m1, d1),
        1 <= m2 <= 12,
        march_month(m1) < march_month(m2),
    ensures
        (153 * march_month(m1) + 2) / 5 + d1 - 1 < (153 * march_month(m2) + 2) / 5,
{
    let p = march_month(m1);
    assert((153 * (p + 1) + 2) / 5 <= (153 * march_month(m2) + 2) / 5);
}

// ---------------------------------------------------------------------
// Time stamps
// ---------------------------------------------------------------------

/// The integer that a text names, or zero.
pub open spec fn number_or_zero(s: Seq<char>) -> int {
    match text::parse_i64(s) {
        Some(n) => n,
        None => 0,
    }
}

/// Hours and minutes of a zone offset.
pub open spec fn zone_hours(tz: Seq<char>) -> int {
    number_or_zero(text::split(tz, Cut::At(':'))[0])
}

pub open spec fn zone_minutes(tz: Seq<char>) -> int {
    let p = text::split(tz, Cut::At(':'));
    if p.len() > 1 { number_or_zero(p[1]) } else { 0 }
}

/// A zone offset in seconds.
pub open spec fn zone_secs(tz: Seq<char>) -> int {
    zone_hours(tz) * 3600 + zone_minutes(tz) * 60
}

pub open spec fn zone_fits(tz: Seq<char>) -> bool {
    &&& fits_i64(zone_hours(tz) * 3600)
    &&& fits_i64(zone_minutes(tz) * 60)
    &&& fits_i64(zone_secs(tz))
}

fn read_or_zero(s: &str) -> (r: i64)
    ensures
        r == number_or_zero(s@),
{
    match text::read_i64(s) {
        Some(n) => n,
        None => 0,
    }
}

/// A zone offset in seconds, and whether it is computed without leaving the
/// range of its machine integers.
fn wide_zone(tz: &str) -> (r: (i128, bool))
    ensures
        r.0 == zone_secs(tz@),
        r.1 == zone_fits(tz@),
        -0x1_0000_0000_0000_0000_0000 <= r.0 <= 0x1_0000_0000_0000_0000_0000,
{
    let p = text::split_text(tz, Cut::At(':'));
    let ghost parts = text::texts(p@);
    assert(parts[0] == p@[0]@);
    let h: i128 = read_or_zero(&p[0]) as i128;
    let m: i128 = if p.len() > 1 {
        assert(parts[1] == p@[1]@);
        read_or_zero(&p[1]) as i128
    } else {
        0
    };
    let hs: i128 = h * 3600;
    let ms: i128 = m * 60;
    let total: i128 = hs + ms;
    (total, in_i64(hs) && in_i64(ms) && in_i64(total))
}

/// Seconds of a zone offset `HH:MM`; what is missing or no number counts as
/// zero.
pub fn parse_tz_offset(tz: &str) -> (r: i64)
    requires
        zone_fits(tz@),
    ensures
        r == zone_secs(tz@),
{
    let (total, _) = wide_zone(tz);
    total as i64
}

/// A time stamp without its zone, the zone's offset, and whether the offset
/// is in range.
pub open spec fn split_zone(ts: Seq<char>) -> (Seq<char>, int, bool) {
    match text::rfind(ts, "Z"@) {
        Some(p) => (ts.take(p), 0, true),
        None => match text::rfind(ts, "+"@) {
            Some(p) => if p > 10 {
                (ts.take(p), zone_secs(ts.skip(p + 1)), zone_fits(ts.skip(p + 1)))
            } else {
                split_zone_minus(ts)
            },
            None => split_zone_minus(ts),
        },
    }
}

pub open spec fn split_zone_minus(ts: Seq<char>) -> (Seq<char>, int, bool) {
    match text::rfind(ts, "-"@) {
        Some(p) => if p > 10 {
            let s = zone_secs(ts.skip(p + 1));
            (ts.take(p), -s, zone_fits(ts.skip(p + 1)) && fits_i64(-s))
        } else {
            (ts, 0, true)
        },
        None => (ts, 0, true),
    }
}

/// The fields of a time stamp without its zone.
pub struct Stamp {
    pub y: int,
    pub mo: int,
    pub d: int,
    pub h: int,
    pub mi: int,
    pub s: int,
    pub ms: int,
}

/// Milliseconds of a fraction: its first three digits.
pub open spec fn fraction_ms(f: Seq<char>) -> int {
    let n = number_or_zero(text::first_chars(f, 3));
    if f.len() == 0 {
        n * 1000
    } else if f.len() == 1 {
        n * 100
    } else if f.len() == 2 {
        n * 10
    } else {
        n
    }
}

/// The fields of `YYYY-MM-DDTHH:MM:SS[.frac]`.
pub open spec fn stamp_of(s: Seq<char>) -> Option<Stamp> {
    match text::split_once(s, "T"@) {
        None => None,
        Some((date, time)) => {
            let dp = text::split(date, Cut::At('-'));
            let (hms, frac) = match text::split_once(time, "."@) {
                Some((a, f)) => (a, Some(f)),
                None => (time, None),
            };
            let hp = text::split(hms, Cut::At(':'));
            if dp.len() != 3 || hp.len() != 3 {
                None
            } else {
                let y = text::parse_i64(dp[0]);
                let mo = text::parse_int(dp[1], 0, u32::MAX as int);
                let d = text::parse_int(dp[2], 0, u32::MAX as int);
                let h = text::parse_i64(hp[0]);
                let mi = text::parse_i64(hp[1]);
                let s = text::parse_i64(hp[2]);
                if y is Some && mo is Some && d is Some && h is Some && mi is Some && s is Some {
                    Some(
                        Stamp {
                            y: y->0,
                            mo: mo->0,
                            d: d->0,
                            h: h->0,
                            mi: mi->0,
                            s: s->0,
                            ms: match frac {
                                Some(f) => fraction_ms(f),
                                None => 0,
                            },
                        },
                    )
                } else {
                    None
                }
            }
        },
    }
}

/// Seconds since the epoch of a stamp in a zone.
pub open spec fn stamp_secs(t: Stamp, zone: int) -> int {
    civil_days(t.y, t.mo, t.d) * 86_400 + t.h * 3600 + t.mi * 60 + t.s - zone
}

/// Whether a stamp is converted without leaving the range of its machine
/// integers.
pub open spec fn stamp_fits(t: Stamp, zone: int) -> bool {
    let days = civil_days(t.y, t.mo, t.d);
    &&& civil_fits(t.y, t.mo, t.d)
    &&& fits_i64(days * 86_400)
    &&& fits_i64(t.h * 3600)
    &&& fits_i64(days * 86_400 + t.h * 3600)
    &&& fits_i64(t.mi * 60)
    &&& fits_i64(days * 86_400 + t.h * 3600 + t.mi * 60)
    &&& fits_i64(days * 86_400 + t.h * 3600 + t.mi * 60 + t.s)
    &&& fits_i64(stamp_secs(t, zone))
    &&& fits_i64(stamp_secs(t, zone) * 1000)
    &&& fits_i64(stamp_secs(t, zone) * 1000 + t.ms)
}

/// Milliseconds since the epoch of an ISO 8601 time stamp; zero where the
/// text is no time stamp or lies outside the range.
pub open spec fn iso_value(ts: Seq<char>) -> int {
    let (part, zone, ok) = split_zone(ts);
    match stamp_of(part) {
        Some(t) => if ok && stamp_fits(t, zone) { stamp_secs(t, zone) * 1000 + t.ms } else { 0 },
        None => 0,
    }
}

fn zone_minus(ts: &str) -> (r: (String, i128, bool))
    ensures
        (r.0@, r.1 as int, r.2) == split_zone_minus(ts@),
        -0x1_0000_0000_0000_0000_0000 <= r.1 <= 0x1_0000_0000_0000_0000_0000,
{
    match text::rcut_once(ts, "-") {
        Some((part, rest)) => {
            proof {
                reveal_strlit("-");
                text::lemma_rfind_to(ts@, "-"@, ts@.len() - 1);
            }
            if part.as_str().unicode_len() > 10 {
                let (s, ok) = wide_zone(&rest);
                (part, -s, ok && in_i64(-s))
            } else {
                (ts.to_owned(), 0, true)
            }
        },
        None => (ts.to_owned(), 0, true),
    }
}

fn zone_of(ts: &str) -> (r: (String, i128, bool))
    ensures
        (r.0@, r.1 as int, r.2) == split_zone(ts@),
        -0x1_0000_0000_0000_0000_0000 <= r.1 <= 0x1_0000_0000_0000_0000_0000,
{
    match text::rcut_once(ts, "Z") {
        Some((part, _)) => (part, 0, true),
        None => match text::rcut_once(ts, "+") {
            Some((part, rest)) => {
                proof {
                    reveal_strlit("+");
                    text::lemma_rfind_to(ts@, "+"@, ts@.len() - 1);
                }
                if part.as_str().unicode_len() > 10 {
                    let (s, ok) = wide_zone(&rest);
                    (part, s, ok)
                } else {
                    zone_minus(ts)
                }
            },
            None => zone_minus(ts),
        },
    }
}

fn millis(f: &str) -> (r: i64)
    ensures
        r == fraction_ms(f@),
        -1_000_000_000 <= r <= 1_000_000_000,
{
    let t = text::take_chars(f, 3);
    let n: i64 = read_or_zero(&t);
    proof {
        lemma_short_number(t@);
    }
    let len: usize = f.unicode_len();
    if len == 0 {
        n * 1000
    } else if len == 1 {
        n * 100
    } else if len == 2 {
        n * 10
    } else {
        n
    }
}

proof fn lemma_short_number(s: Seq<char>)
    requires
        s.len() <= 3,
    ensures
        -1000 < number_or_zero(s) < 1000,
{
    let neg = s.len() > 0 && s[0] == '-';
    let ds = if s.len() > 0 && (neg || s[0] == '+') { s.skip(1) } else { s };
    reveal_with_fuel(text::digits_value, 4);
    if text::all_digits(ds) {
        assert(text::is_digit(ds[0]));
        if ds.len() > 1 {
            assert(text::is_digit(ds[1]));
        }
        if ds.len() > 2 {
            assert(text::is_digit(ds[2]));
        }
    }
}

/// ISO 8601 time stamp in milliseconds since the epoch; zero where it is
/// absent or cannot be read. Without a zone it is taken as UTC.
pub fn iso_ms(ts: &str) -> (r: i64)
    ensures
        r == iso_value(ts@),
{
    let (part, zone, ok) = zone_of(ts);
    let (date, time) = match text::cut_once(&part, "T") {
        Some(x) => x,
        None => {
            return 0;
        },
    };
    let dp = text::split_text(&date, Cut::At('-'));
    let ghost gdp = text::texts(dp@);
    let cut = text::cut_once(&time, ".");
    let (hms, ms): (String, i64) = match cut {
        Some((a, f)) => {
            let m: i64 = millis(&f);
            (a, m)
        },
        None => (time, 0),
    };
    let hp = text::split_text(&hms, Cut::At(':'));
    let ghost ghp = text::texts(hp@);
    if dp.len() != 3 || hp.len() != 3 {
        return 0;
    }
    assert(gdp[0] == dp@[0]@ && gdp[1] == dp@[1]@ && gdp[2] == dp@[2]@);
    assert(ghp[0] == hp@[0]@ && ghp[1] == hp@[1]@ && ghp[2] == hp@[2]@);
    let (y, mo, d): (i64, u32, u32) = match (
        text::read_i64(&dp[0]),
        text::read_u32(&dp[1]),
        text::read_u32(&dp[2]),
    ) {
        (Some(y), Some(mo), Some(d)) => (y, mo, d),
        _ => {
            return 0;
        },
    };
    let (h, mi, s): (i64, i64, i64) = match (
        text::read_i64(&hp[0]),
        text::read_i64(&hp[1]),
        text::read_i64(&hp[2]),
    ) {
        (Some(h), Some(mi), Some(s)) => (h, mi, s),
        _ => {
            return 0;
        },
    };
    let days: i128 = wide_days(y, mo, d);
    let a: i128 = days * 86_400;
    let b: i128 = h as i128 * 3600;
    let c: i128 = mi as i128 * 60;
    let secs: i128 = a + b + c + s as i128 - zone;
    let total: i128 = secs * 1000 + ms as i128;
    if ok && can_number(y, mo, d) && in_i64(a) && in_i64(b) && in_i64(a + b) && in_i64(c) && in_i64(
        a + b + c,
    ) && in_i64(a + b + c + s as i128) && in_i64(secs) && in_i64(secs * 1000) && in_i64(total) {
        total as i64
    } else {
        0
    }
}

/// A time stamp without a zone is read as the same stamp in UTC.
pub proof fn law_no_zone_is_utc(part: Seq<char>)
    requires
        split_zone(part) == (part, 0int, true),
    ensures
        iso_value(part + "Z"@) == iso_value(part),
{
    lemma_utc(part);
}

/// A zone east of Greenwich shifts the instant: the stamp is read as the
/// offset earlier than the same stamp in UTC. Both readings are in range.
pub proof fn law_eastern_zone_is_earlier(part: Seq<char>, tz: Seq<char>)
    requires
        part.len() > 10,
        !text::holds_char(part, 'Z'),
        !text::holds_char(tz, 'Z'),
        !text::holds_char(tz, '+'),
        zone_fits(tz),
        stamp_of(part) matches Some(t) && stamp_fits(t, 0) && stamp_fits(t, zone_secs(tz)),
    ensures
        iso_value(part + "+"@ + tz) == iso_value(part + "Z"@) - zone_secs(tz) * 1000,
{
    reveal_strlit("Z");
    reveal_strlit("+");
    assert("Z"@ =~= seq!['Z']);
    assert("+"@ =~= seq!['+']);
    lemma_utc(part);
    let n = part.len() as int;
    let east = part + "+"@ + tz;
    lemma_without(part, '+', tz, 'Z');
    text::lemma_split_once_none(east, 'Z');
    text::lemma_rsplit_once_at(part, '+', tz);
    assert(east.take(n) =~= part);
    assert(east.skip(n + 1) =~= tz);
    assert(split_zone(east) == (part, zone_secs(tz), true));
}

/// A zone west of Greenwich shifts the instant: the stamp is read as the
/// offset later than the same stamp in UTC. Both readings are in range.
pub proof fn law_western_zone_is_later(part: Seq<char>, tz: Seq<char>)
    requires
        part.len() > 10,
        !text::holds_char(part, 'Z'),
        forall|i: int| 10 < i < part.len() ==> part[i] != '+',
        !text::holds_char(tz, 'Z'),
        !text::holds_char(tz, '+'),
        !text::holds_char(tz, '-'),
        zone_fits(tz) && fits_i64(-zone_secs(tz)),
        stamp_of(part) matches Some(t) && stamp_fits(t, 0) && stamp_fits(t, -zone_secs(tz)),
    ensures
        iso_value(part + "-"@ + tz) == iso_value(part + "Z"@) + zone_secs(tz) * 1000,
{
    reveal_strlit("Z");
    reveal_strlit("+");
    reveal_strlit("-");
    assert("Z"@ =~= seq!['Z']);
    assert("+"@ =~= seq!['+']);
    assert("-"@ =~= seq!['-']);
    lemma_utc(part);
    let n = part.len() as int;
    let west = part + "-"@ + tz;
    lemma_without(part, '-', tz, 'Z');
    text::lemma_split_once_none(west, 'Z');
    text::lemma_rfind_to(west, "+"@, west.len() - 1);
    if let Some(p) = text::rfind(west, "+"@) {
        text::lemma_occurs_one(west, '+', p);
        if p > n {
            assert(tz[p - n - 1] == '+');
        }
        assert(p <= 10);
    }
    text::lemma_rsplit_once_at(part, '-', tz);
    assert(west.take(n) =~= part);
    assert(west.skip(n + 1) =~= tz);
    assert(split_zone(west) == (part, -zone_secs(tz), true));
}

/// The characters of `YYYY-MM-DDTHH:MM:SS`.
pub open spec fn is_stamp_form(p: Seq<char>) -> bool {
    &&& p.len() == 19
    &&& p[4] == '-' && p[7] == '-' && p[10] == 'T' && p[13] == ':' && p[16] == ':'
    &&& forall|i: int|
        0 <= i < 19 && i != 4 && i != 7 && i != 10 && i != 13 && i != 16 ==> text::is_digit(
            #[trigger] p[i],
        )
}

/// The fields that stand in `YYYY-MM-DDTHH:MM:SS`.
pub open spec fn form_fields(p: Seq<char>) -> Stamp {
    Stamp {
        y: text::digits_value(p.subrange(0, 4)),
        mo: text::digits_value(p.subrange(5, 7)),
        d: text::digits_value(p.subrange(8, 10)),
        h: text::digits_value(p.subrange(11, 13)),
        mi: text::digits_value(p.subrange(14, 16)),
        s: text::digits_value(p.subrange(17, 19)),
        ms: 0,
    }
}

/// A date of the calendar and a time of the day.
pub open spec fn is_real(t: Stamp) -> bool {
    is_date(t.y, t.mo, t.d) && 0 <= t.h < 24 && 0 <= t.mi < 60 && 0 <= t.s < 60
}

/// The characters of `HH:MM`.
pub open spec fn is_zone_form(tz: Seq<char>) -> bool {
    &&& tz.len() == 5
    &&& tz[2] == ':'
    &&& forall|i: int| 0 <= i < 5 && i != 2 ==> text::is_digit(#[trigger] tz[i])
}

/// The seconds of an `HH:MM`.
pub open spec fn form_offset(tz: Seq<char>) -> int {
    text::digits_value(tz.subrange(0, 2)) * 3600 + text::digits_value(tz.subrange(3, 5)) * 60
}

/// A stamp `YYYY-MM-DDTHH:MM:SS` of a real date and time is read as the
/// instant that it names: in UTC without a zone, with `Z` and with `+00:00`;
/// an offset `HH:MM` east of Greenwich makes it earlier by the offset, and one
/// west of it later.
pub proof fn law_usual_stamps_are_read(d: Seq<char>, tz: Seq<char>)
    requires
        is_stamp_form(d),
        is_real(form_fields(d)),
        is_zone_form(tz),
    ensures
        iso_value(d) == stamp_secs(form_fields(d), 0) * 1000,
        iso_value(d + "Z"@) == iso_value(d),
        iso_value(d + "+00:00"@) == iso_value(d),
        iso_value(d + "+"@ + tz) == iso_value(d) - form_offset(tz) * 1000,
        iso_value(d + "-"@ + tz) == iso_value(d) + form_offset(tz) * 1000,
{
    reveal_strlit("-");
    reveal_strlit("+");
    reveal_strlit("Z");
    reveal_strlit("00:00");
    reveal_strlit("+00:00");
    assert("-"@ =~= seq!['-']);
    assert("+"@ =~= seq!['+']);
    assert("Z"@ =~= seq!['Z']);
    let none = "00:00"@;
    lemma_form_read(d);
    lemma_zone_form(tz);
    assert(is_zone_form(none));
    lemma_zone_form(none);
    assert(form_offset(none) == 0) by {
        reveal_with_fuel(text::digits_value, 3);
    }
    let t = form_fields(d);
    lemma_form_fits(t, 0);
    lemma_form_fits(t, form_offset(tz));
    lemma_form_fits(t, -form_offset(tz));
    lemma_form_lacks(d, 'Z');
    lemma_form_lacks(d, '+');
    assert forall|i: int| 10 < i < d.len() implies d[i] != '+' && d[i] != '-' by {
        if i != 13 && i != 16 {
            assert(text::is_digit(d[i]));
        }
    }
    law_eastern_zone_is_earlier(d, tz);
    law_eastern_zone_is_earlier(d, none);
    law_western_zone_is_later(d, tz);
    assert(d + "+"@ + none =~= d + "+00:00"@);
    text::lemma_split_once_none(d, 'Z');
    text::lemma_split_once_none(d, '+');
    text::lemma_rfind_to(d, "-"@, d.len() - 1);
    if let Some(p) = text::rfind(d, "-"@) {
        text::lemma_occurs_one(d, '-', p);
    }
    assert(split_zone(d) == (d, 0int, true));
    law_no_zone_is_utc(d);
}

/// A text without a `T` is no time stamp.
pub proof fn law_no_time_is_zero(ts: Seq<char>)
    requires
        !text::holds_char(ts, 'T'),
    ensures
        iso_value(ts) == 0,
{
    reveal_strlit("T");
    assert("T"@ =~= seq!['T']);
    let part = split_zone(ts).0;
    reveal_strlit("Z");
    reveal_strlit("+");
    reveal_strlit("-");
    text::lemma_rfind_to(ts, "Z"@, ts.len() - 1);
    text::lemma_rfind_to(ts, "+"@, ts.len() - 1);
    text::lemma_rfind_to(ts, "-"@, ts.len() - 1);
    assert(part.len() <= ts.len() && forall|i: int| 0 <= i < part.len() ==> part[i] == ts[i]);
    assert(!text::holds_char(part, 'T'));
    text::lemma_split_once_none(part, 'T');
}

proof fn lemma_form_lacks(d: Seq<char>, c: char)
    requires
        is_stamp_form(d),
        c == 'Z' || c == '+',
    ensures
        !text::holds_char(d, c),
{
    assert forall|i: int| 0 <= i < d.len() implies d[i] != c by {
        if i != 4 && i != 7 && i != 10 && i != 13 && i != 16 {
            assert(text::is_digit(d[i]));
        }
    }
}

/// Two or four digits are read as the number that they name.
proof fn lemma_few_digits(s: Seq<char>)
    requires
        s.len() == 2 || s.len() == 4,
        forall|i: int| 0 <= i < s.len() ==> text::is_digit(#[trigger] s[i]),
    ensures
        text::parse_i64(s) == Some(text::digits_value(s)),
        text::parse_int(s, 0, u32::MAX as int) == Some(text::digits_value(s)),
        0 <= text::digits_value(s) <= 9999,
        s.len() == 2 ==> text::digits_value(s) <= 99,
        !text::holds_char(s, '-') && !text::holds_char(s, ':') && !text::holds_char(s, '.'),
{
    reveal_with_fuel(text::digits_value, 5);
    assert(text::is_digit(s[0]) && text::is_digit(s[1]));
    if s.len() == 4 {
        assert(text::is_digit(s[2]) && text::is_digit(s[3]));
    }
    assert(text::all_digits(s));
    assert forall|i: int| 0 <= i < s.len() implies s[i] != '-' && s[i] != ':' && s[i] != '.' by {
        assert(text::is_digit(s[i]));
    }
}

/// Three pieces between two signs.
proof fn lemma_three_pieces(a: Seq<char>, c: char, b: Seq<char>, e: Seq<char>)
    requires
        !text::holds_char(a, c),
        !text::holds_char(b, c),
        !text::holds_char(e, c),
    ensures
        text::split(a + seq![c] + b + seq![c] + e, Cut::At(c)) == seq![a, b, e],
{
    text::lemma_split_whole(a, c);
    text::lemma_split_at(a, c, b);
    text::lemma_split_at(a + seq![c] + b, c, e);
    assert(seq![a].push(b).push(e) =~= seq![a, b, e]);
}

proof fn lemma_form_read(d: Seq<char>)
    requires
        is_stamp_form(d),
    ensures
        stamp_of(d) == Some(form_fields(d)),
        0 <= form_fields(d).y <= 9999,
{
    reveal_strlit("T");
    reveal_strlit(".");
    assert("T"@ =~= seq!['T']);
    assert("."@ =~= seq!['.']);
    let (y, mo, da) = (d.subrange(0, 4), d.subrange(5, 7), d.subrange(8, 10));
    let (h, mi, s) = (d.subrange(11, 13), d.subrange(14, 16), d.subrange(17, 19));
    assert forall|i: int| 0 <= i < 4 implies text::is_digit(#[trigger] y[i]) by {
        assert(text::is_digit(d[i]));
    }
    assert forall|i: int| 0 <= i < 2 implies text::is_digit(#[trigger] mo[i]) by {
        assert(text::is_digit(d[5 + i]));
    }
    assert forall|i: int| 0 <= i < 2 implies text::is_digit(#[trigger] da[i]) by {
        assert(text::is_digit(d[8 + i]));
    }
    assert forall|i: int| 0 <= i < 2 implies text::is_digit(#[trigger] h[i]) by {
        assert(text::is_digit(d[11 + i]));
    }
    assert forall|i: int| 0 <= i < 2 implies text::is_digit(#[trigger] mi[i]) by {
        assert(text::is_digit(d[14 + i]));
    }
    assert forall|i: int| 0 <= i < 2 implies text::is_digit(#[trigger] s[i]) by {
        assert(text::is_digit(d[17 + i]));
    }
    lemma_few_digits(y);
    lemma_few_digits(mo);
    lemma_few_digits(da);
    lemma_few_digits(h);
    lemma_few_digits(mi);
    lemma_few_digits(s);
    let date = d.subrange(0, 10);
    let time = d.subrange(11, 19);
    assert(date =~= y + seq!['-'] + mo + seq!['-'] + da);
    assert(time =~= h + seq![':'] + mi + seq![':'] + s);
    lemma_three_pieces(y, '-', mo, da);
    lemma_three_pieces(h, ':', mi, s);
    assert(d =~= date + seq!['T'] + time);
    assert forall|i: int| 0 <= i < date.len() implies date[i] != 'T' by {
        if i != 4 && i != 7 {
            assert(text::is_digit(d[i]));
        }
    }
    text::lemma_split_once_at(date, 'T', time);
    assert forall|i: int| 0 <= i < time.len() implies time[i] != '.' by {
        if i != 2 && i != 5 {
            assert(text::is_digit(d[11 + i]));
        }
    }
    text::lemma_split_once_none(time, '.');
}

proof fn lemma_zone_form(tz: Seq<char>)
    requires
        is_zone_form(tz),
    ensures
        zone_secs(tz) == form_offset(tz),
        zone_fits(tz),
        0 <= form_offset(tz) <= 362_340,
        !text::holds_char(tz, 'Z') && !text::holds_char(tz, '+') && !text::holds_char(tz, '-'),
{
    let (h, m) = (tz.subrange(0, 2), tz.subrange(3, 5));
    assert forall|i: int| 0 <= i < 2 implies text::is_digit(#[trigger] h[i]) by {
        assert(text::is_digit(tz[i]));
    }
    assert forall|i: int| 0 <= i < 2 implies text::is_digit(#[trigger] m[i]) by {
        assert(text::is_digit(tz[3 + i]));
    }
    lemma_few_digits(h);
    lemma_few_digits(m);
    assert(tz =~= h + seq![':'] + m);
    text::lemma_split_whole(h, ':');
    text::lemma_split_at(h, ':', m);
    assert(seq![h].push(m) =~= seq![h, m]);
    assert forall|i: int| 0 <= i < tz.len() implies tz[i] != 'Z' && tz[i] != '+' && tz[i] != '-' by {
        if i != 2 {
            assert(text::is_digit(tz[i]));
        }
    }
}

proof fn lemma_form_fits(t: Stamp, zone: int)
    requires
        is_real(t),
        0 <= t.y <= 9999,
        t.ms == 0,
        -362_340 <= zone <= 362_340,
    ensures
        stamp_fits(t, zone),
{
    let yy = march_year(t.y, t.mo);
    assert(-1 <= yy <= 9999);
    assert(0 <= march_month(t.mo) <= 11);
    assert(-800_000 <= civil_days(t.y, t.mo, t.d) <= 4_000_000);
}

/// A stamp with a `Z` behind it is in UTC.
proof fn lemma_utc(part: Seq<char>)
    ensures
        split_zone(part + "Z"@) == (part, 0int, true),
{
    reveal_strlit("Z");
    assert("Z"@ =~= seq!['Z']);
    let none = Seq::<char>::empty();
    let utc = part + "Z"@;
    assert(utc =~= part + seq!['Z'] + none);
    text::lemma_rsplit_once_at(part, 'Z', none);
    assert(utc.take(part.len() as int) =~= part);
}

proof fn lemma_without(a: Seq<char>, sign: char, b: Seq<char>, c: char)
    requires
        !text::holds_char(a, c),
        !text::holds_char(b, c),
        sign != c,
    ensures
        !text::holds_char(a + seq![sign] + b, c),
{
    let s = a + seq![sign] + b;
    if text::holds_char(s, c) {
        let i = choose|i: int| 0 <= i < s.len() && s[i] == c;
        if i < a.len() {
            assert(a[i] == c);
        } else if i > a.len() {
            assert(b[i - a.len() - 1] == c);
        }
    }
}

// ---------------------------------------------------------------------
// Date and time in words
// ---------------------------------------------------------------------

/// A number with zeros before it, `width` digits at least.
pub open spec fn padded(n: nat, width: nat) -> Seq<char>
    decreases width,
{
    if text::nat_text(n).len() >= width {
        text::nat_text(n)
    } else {
        Seq::new((width - text::nat_text(n).len()) as nat, |i: int| '0') + text::nat_text(n)
    }
}

/// A number with zeros before it.
pub fn pad(n: u64, width: usize) -> (r: String)
    ensures
        r@ == padded(n as nat, width as nat),
{
    let digits = text::u64_to_text(n);
    let len: usize = digits.as_str().unicode_len();
    if len >= width {
        return digits;
    }
    let mut out = String::new();
    let mut i: usize = len;
    while i < width
        invariant
            len <= i <= width,
            out@ == Seq::new((i - len) as nat, |k: int| '0'),
        decreases width - i,
    {
        out.push('0');
        assert(out@ =~= Seq::new((i + 1 - len) as nat, |k: int| '0'));
        i = i + 1;
    }
    out.append(&digits);
    assert(out@ =~= padded(n as nat, width as nat));
    out
}

/// The date of a second since 1970, as year, month and day.
pub open spec fn is_day_text(secs: u64, t: Seq<char>) -> bool {
    exists|y: nat, m: nat, d: nat|
        #![trigger civil_days(y as int, m as int, d as int)]
        is_date(y as int, m as int, d as int) && civil_days(y as int, m as int, d as int) == secs
            / 86_400 && t == padded(y, 4) + "-"@ + padded(m, 2) + "-"@ + padded(d, 2)
}

/// The time of a second since 1970, as hour and minute.
pub open spec fn clock_text(secs: u64) -> Seq<char> {
    padded((secs % 86_400 / 3_600) as nat, 2) + ":"@ + padded((secs % 86_400 % 3_600 / 60) as nat, 2)
}

/// Date and time in UTC of a second since 1970.
pub fn utc_date_time(secs: u64) -> (r: (String, String))
    ensures
        is_day_text(secs, r.0@),
        r.1@ == clock_text(secs),
{
    let days: u64 = secs / 86_400;
    let (y, m, d) = civil_from_days(days as i64);
    proof {
        lemma_year_of_positive_day(y as int, m as int, d as int);
    }
    let date = pad(y as u64, 4).concat("-").concat(pad(m as u64, 2).as_str()).concat("-").concat(
        pad(d as u64, 2).as_str(),
    );
    proof {
        let (yn, mn, dn) = (y as nat, m as nat, d as nat);
        assert(civil_days(yn as int, mn as int, dn as int) == secs / 86_400);
    }
    let tod: u64 = secs % 86_400;
    let time = pad(tod / 3_600, 2).concat(":").concat(pad(tod % 3_600 / 60, 2).as_str());
    (date, time)
}

proof fn lemma_year_of_positive_day(y: int, m: int, d: int)
    requires
        is_date(y, m, d),
        civil_days(y, m, d) >= 0,
    ensures
        y >= 0,
{
    let yy = march_year(y, m);
    if y < 0 {
        assert(365 * yy + yy / 4 - yy / 100 + yy / 400 <= -365);
    }
}

} // verus!
