//! Points in time, given in seconds since 1970-01-01 00:00 UTC, as text.

use vstd::prelude::*;
use vstd::arithmetic::power::pow;
use crate::text::{
    digits_value, is_digit, lemma_padded, lemma_padded_order, lemma_text_le_concat, padded,
    padded_string, text_le,
};

verus! {

/// Whether a year of the Gregorian calendar has a 29 February.
pub open spec fn is_leap(y: int) -> bool {
    y % 4 == 0 && (y % 100 != 0 || y % 400 == 0)
}

/// The number of days of a month.
pub open spec fn month_len(y: int, m: int) -> int {
    if m == 2 {
        if is_leap(y) {
            29
        } else {
            28
        }
    } else if m == 4 || m == 6 || m == 9 || m == 11 {
        30
    } else {
        31
    }
}

/// The number of days of a year.
pub open spec fn year_len(y: int) -> int {
    if is_leap(y) {
        366
    } else {
        365
    }
}

/// The number of days from 1 January of the year 0 to 1 January of the year `y`.
pub open spec fn days_before_year(y: int) -> int
    decreases y,
{
    if y <= 0 {
        0
    } else {
        days_before_year(y - 1) + year_len(y - 1)
    }
}

/// The number of days from 1 January to the first of the month.
pub open spec fn days_before_month(y: int, m: int) -> int
    decreases m,
{
    if m <= 1 {
        0
    } else {
        days_before_month(y, m - 1) + month_len(y, m - 1)
    }
}

/// Whether there is such a day.
pub open spec fn is_date(y: int, m: int, d: int) -> bool {
    y >= 0 && 1 <= m <= 12 && 1 <= d <= month_len(y, m)
}

/// The number of days from 1 January 1970 to the given day.
pub open spec fn day_number(y: int, m: int, d: int) -> int {
    days_before_year(y) - 719528 + days_before_month(y, m) + (d - 1)
}

/// The days before a year in closed form.
proof fn lemma_days_before_year(y: int)
    requires
        y >= 1,
    ensures
        days_before_year(y) == 365 * y + (y - 1) / 4 - (y - 1) / 100 + (y - 1) / 400 + 1,
    decreases y,
{
    if y > 1 {
        lemma_days_before_year(y - 1);
    } else {
        assert(days_before_year(0) == 0);
        assert(is_leap(0));
    }
}

proof fn lemma_days_before_month(y: int, m: int)
    requires
        1 <= m <= 12,
    ensures
        days_before_month(y, m) == (if m == 1 {
            0int
        } else if m == 2 {
            31int
        } else {
            (153 * (m - 3) + 2) / 5 + 59 + (if is_leap(y) {
                1int
            } else {
                0int
            })
        }),
{
    reveal_with_fuel(days_before_month, 13);
}

/// The year of a day within its period of 400 years that begins on 1 March.
proof fn lemma_year_of_era(doe: int, yoe: int)
    requires
        0 <= doe < 146097,
        yoe == (doe - doe / 1460 + doe / 36524 - doe / 146096) / 365,
    ensures
        0 <= doe - doe / 1460 <= doe,
        0 <= doe - doe / 1460 + doe / 36524 - doe / 146096 <= 146097,
        0 <= yoe < 400,
        365 * yoe + yoe / 4 - yoe / 100 <= doe,
        doe - (365 * yoe + yoe / 4 - yoe / 100) <= 365,
        doe - (365 * yoe + yoe / 4 - yoe / 100) == 365 ==> ((yoe + 1) % 4 == 0 && ((yoe + 1) % 100
            != 0 || (yoe + 1) % 400 == 0)),
{
}

/// The first of March of a year, counted from 1 January 1970.
proof fn lemma_first_of_march(era: int, yoe: int)
    requires
        era >= 1,
        0 <= yoe < 400,
    ensures
        day_number(yoe + era * 400, 3, 1) == era * 146097 + 365 * yoe + yoe / 4 - yoe / 100 - 719468,
{
    let y = yoe + era * 400;
    lemma_days_before_year(y);
    lemma_days_before_month(y, 3);
    assert((y - 1) / 4 + (if y % 4 == 0 {
        1int
    } else {
        0int
    }) == y / 4);
    assert((y - 1) / 100 + (if y % 100 == 0 {
        1int
    } else {
        0int
    }) == y / 100);
    assert((y - 1) / 400 + (if y % 400 == 0 {
        1int
    } else {
        0int
    }) == y / 400);
    assert(y / 4 == era * 100 + yoe / 4);
    assert(y / 100 == era * 4 + yoe / 100);
    assert(y / 400 == era);
}

/// Four hundred years later a year is a leap year again.
proof fn lemma_leap_in_era(era: int, yoe: int)
    requires
        0 <= yoe < 400,
    ensures
        is_leap(yoe + era * 400 + 1) == is_leap(yoe + 1),
{
    let y = yoe + era * 400 + 1;
    vstd::arithmetic::div_mod::lemma_mod_multiples_vanish(era * 100, yoe + 1, 4);
    vstd::arithmetic::div_mod::lemma_mod_multiples_vanish(era * 4, yoe + 1, 100);
    vstd::arithmetic::div_mod::lemma_mod_multiples_vanish(era, yoe + 1, 400);
    assert(y == 4 * (era * 100) + (yoe + 1));
    assert(y == 100 * (era * 4) + (yoe + 1));
    assert(y == 400 * era + (yoe + 1));
}

/// The month and day of a day counted from 1 March.
proof fn lemma_month_of_year(doy: int, mp: int, d: int)
    requires
        0 <= doy <= 365,
        mp == (5 * doy + 2) / 153,
        d == doy - (153 * mp + 2) / 5 + 1,
    ensures
        0 <= mp <= 11,
        1 <= d <= 31,
        (mp == 1 || mp == 3 || mp == 6 || mp == 8) ==> d <= 30,
        mp == 11 ==> d <= 29 && doy == 336 + d,
{
}

/// The day that stands `doy` days after 1 March of the year `y`.
proof fn lemma_day_after_march(y: int, doy: int, mp: int, d: int)
    requires
        y >= 1,
        0 <= doy <= 365,
        doy == 365 ==> is_leap(y + 1),
        mp == (5 * doy + 2) / 153,
        d == doy - (153 * mp + 2) / 5 + 1,
    ensures
        ({
            let m = if mp < 10 {
                mp + 3
            } else {
                mp - 9
            };
            let year = if m <= 2 {
                y + 1
            } else {
                y
            };
            &&& 1 <= d <= 31
            &&& is_date(year, m, d)
            &&& day_number(year, m, d) == day_number(y, 3, 1) + doy
        }),
{
    lemma_month_of_year(doy, mp, d);
    let m = if mp < 10 {
        mp + 3
    } else {
        mp - 9
    };
    lemma_days_before_month(y, 3);
    if m <= 2 {
        lemma_days_before_month(y + 1, m);
        assert(days_before_year(y + 1) == days_before_year(y) + year_len(y));
        assert(mp == 10 || mp == 11);
    } else {
        lemma_days_before_month(y, m);
    }
}

/// The day that stands `days` days after 1 January 1970: year, month and day.
pub fn days_to_ymd(days: u64) -> (r: (u64, u8, u8))
    requires
        days <= u64::MAX - 719468,
    ensures
        is_date(r.0 as int, r.1 as int, r.2 as int),
        day_number(r.0 as int, r.1 as int, r.2 as int) == days,
{
    let z: u64 = days + 719468;
    let era: u64 = z / 146097;
    let doe: u64 = z % 146097;
    let ghost yy: int = (doe - doe / 1460 + doe / 36524 - doe / 146096) / 365;
    proof {
        lemma_year_of_era(doe as int, yy);
    }
    let yoe: u64 = (doe - doe / 1460 + doe / 36524 - doe / 146096) / 365;
    proof {
        assert(yoe == yy);
        lemma_first_of_march(era as int, yy);
        lemma_leap_in_era(era as int, yy);
    }
    let y: u64 = yoe + era * 400;
    let doy: u64 = doe - (365 * yoe + yoe / 4 - yoe / 100);
    let mp: u64 = (5 * doy + 2) / 153;
    proof {
        lemma_month_of_year(doy as int, mp as int, doy - (153 * mp + 2) / 5 + 1);
        lemma_day_after_march(
            y as int,
            doy as int,
            mp as int,
            doy - (153 * mp + 2) / 5 + 1,
        );
    }
    let d: u64 = doy - (153 * mp + 2) / 5 + 1;
    let m: u64 = if mp < 10 {
        mp + 3
    } else {
        mp - 9
    };
    let year: u64 = if m <= 2 {
        y + 1
    } else {
        y
    };
    (year, m as u8, d as u8)
}

proof fn lemma_years_increase(a: int, b: int)
    requires
        0 <= a <= b,
    ensures
        a < b ==> days_before_year(a) + year_len(a) <= days_before_year(b),
        days_before_year(a) <= days_before_year(b),
    decreases b,
{
    if a < b {
        lemma_years_increase(a, b - 1);
    }
}

proof fn lemma_day_in_year(y: int, m: int, d: int)
    requires
        is_date(y, m, d),
    ensures
        0 <= days_before_month(y, m) + (d - 1) < year_len(y),
{
    lemma_days_before_month(y, m);
}

proof fn lemma_months_increase(y: int, a: int, b: int)
    requires
        1 <= a < b <= 12,
    ensures
        days_before_month(y, a) + month_len(y, a) <= days_before_month(y, b),
    decreases b,
{
    if a < b - 1 {
        lemma_months_increase(y, a, b - 1);
    }
}

/// No two dates are the same day.
pub proof fn law_dates_are_distinct(y: int, m: int, d: int, y2: int, m2: int, d2: int)
    requires
        is_date(y, m, d),
        is_date(y2, m2, d2),
        day_number(y, m, d) == day_number(y2, m2, d2),
    ensures
        y == y2 && m == m2 && d == d2,
{
    lemma_day_in_year(y, m, d);
    lemma_day_in_year(y2, m2, d2);
    if y < y2 {
        lemma_years_increase(y, y2);
    } else if y2 < y {
        lemma_years_increase(y2, y);
    } else if m < m2 {
        lemma_months_increase(y, m, m2);
    } else if m2 < m {
        lemma_months_increase(y, m2, m);
    }
}

/// The date of the day that stands `days` days after 1 January 1970.
pub open spec fn date_of(days: int) -> (int, int, int) {
    choose|t: (int, int, int)|
        #[trigger] is_date(t.0, t.1, t.2) && day_number(t.0, t.1, t.2) == days
}

proof fn lemma_date_of(days: int, y: int, m: int, d: int)
    requires
        is_date(y, m, d),
        day_number(y, m, d) == days,
    ensures
        date_of(days) == (y, m, d),
{
    let w = (y, m, d);
    assert(is_date(w.0, w.1, w.2) && day_number(w.0, w.1, w.2) == days);
    let t = date_of(days);
    law_dates_are_distinct(t.0, t.1, t.2, y, m, d);
}

/// A point in time as `YYYY-MM-DDThh:mm:ssZ`.
pub open spec fn iso8601(secs: nat) -> Seq<char> {
    let (y, m, d) = date_of((secs / 86400) as int);
    padded(y as nat, 4) + "-"@ + padded(m as nat, 2) + "-"@ + padded(d as nat, 2) + "T"@ + padded(
        (secs / 3600) % 24,
        2,
    ) + ":"@ + padded((secs / 60) % 60, 2) + ":"@ + padded(secs % 60, 2) + "Z"@
}

/// A point in time as `YYYYMMDDThhmmssZ`.
pub open spec fn compact_iso8601(secs: nat) -> Seq<char> {
    let (y, m, d) = date_of((secs / 86400) as int);
    padded(y as nat, 4) + padded(m as nat, 2) + padded(d as nat, 2) + "T"@ + padded(
        (secs / 3600) % 24,
        2,
    ) + padded((secs / 60) % 60, 2) + padded(secs % 60, 2) + "Z"@
}

fn write_time(secs: u64, date_sep: &str, time_sep: &str) -> (r: String)
    ensures
        r@ == ({
            let (y, m, d) = date_of((secs as nat / 86400) as int);
            padded(y as nat, 4) + date_sep@ + padded(m as nat, 2) + date_sep@ + padded(d as nat, 2)
                + "T"@ + padded((secs as nat / 3600) % 24, 2) + time_sep@ + padded(
                (secs as nat / 60) % 60,
                2,
            ) + time_sep@ + padded(secs as nat % 60, 2) + "Z"@
        }),
{
    let (y, m, d): (u64, u8, u8) = days_to_ymd(secs / 86400);
    proof {
        lemma_date_of((secs as nat / 86400) as int, y as int, m as int, d as int);
    }
    let mut out: String = padded_string(y, 4);
    out.push_str(date_sep);
    out.push_str(padded_string(m as u64, 2).as_str());
    out.push_str(date_sep);
    out.push_str(padded_string(d as u64, 2).as_str());
    out.push_str("T");
    out.push_str(padded_string((secs / 3600) % 24, 2).as_str());
    out.push_str(time_sep);
    out.push_str(padded_string((secs / 60) % 60, 2).as_str());
    out.push_str(time_sep);
    out.push_str(padded_string(secs % 60, 2).as_str());
    out.push_str("Z");
    out
}

/// A point in time as `YYYY-MM-DDThh:mm:ssZ`.
pub fn format_iso8601_utc(secs: u64) -> (r: String)
    ensures
        r@ == iso8601(secs as nat),
{
    write_time(secs, "-", ":")
}

/// A point in time as `YYYYMMDDThhmmssZ`.
pub fn compact_iso8601_utc(secs: u64) -> (r: String)
    ensures
        r@ == compact_iso8601(secs as nat),
{
    let out: String = write_time(secs, "", "");
    proof {
        reveal_strlit("");
        assert(out@ =~= compact_iso8601(secs as nat));
    }
    out
}

/// Every day from 1 January 1970 on has a date.
proof fn lemma_date_exists(days: nat) -> (t: (int, int, int))
    ensures
        is_date(t.0, t.1, t.2),
        day_number(t.0, t.1, t.2) == days,
    decreases days,
{
    if days == 0 {
        lemma_days_before_year(1970);
        (1970, 1, 1)
    } else {
        let (y, m, d) = lemma_date_exists((days - 1) as nat);
        if d < month_len(y, m) {
            (y, m, d + 1)
        } else if m < 12 {
            (y, m + 1, 1)
        } else {
            lemma_days_before_month(y, 12);
            (y + 1, 1, 1)
        }
    }
}

/// The date of a day is a date, and that of the day.
proof fn lemma_is_date(days: nat)
    ensures
        ({
            let (y, m, d) = date_of(days as int);
            is_date(y, m, d) && day_number(y, m, d) == days
        }),
{
    let (y, m, d) = lemma_date_exists(days);
    lemma_date_of(days as int, y, m, d);
}

/// A later day has a later date.
proof fn lemma_dates_increase(y: int, m: int, d: int, y2: int, m2: int, d2: int)
    requires
        is_date(y, m, d),
        is_date(y2, m2, d2),
        day_number(y, m, d) <= day_number(y2, m2, d2),
    ensures
        y <= y2,
        y == y2 ==> m <= m2,
        y == y2 && m == m2 ==> d <= d2,
{
    lemma_day_in_year(y, m, d);
    lemma_day_in_year(y2, m2, d2);
    if y2 < y {
        lemma_years_increase(y2, y);
    } else if y == y2 && m2 < m {
        lemma_months_increase(y, m2, m);
    }
}

/// Two and four digits hold the numbers below 100 and 10000.
proof fn lemma_widths()
    ensures
        pow(10, 2) == 100,
        pow(10, 4) == 10000,
{
    reveal(pow);
    reveal_with_fuel(pow, 5);
}

/// The end of the year 9999: behind it a year has more than four digits.
pub const YEAR_10000_SECS: u64 = 253402300800;

/// The date of a point in time up to the end of the year 9999 has a year of at most four
/// digits.
proof fn lemma_year_has_four_digits(secs: nat)
    requires
        secs < YEAR_10000_SECS,
    ensures
        ({
            let (y, m, d) = date_of((secs / 86400) as int);
            is_date(y, m, d) && day_number(y, m, d) == secs / 86400 && y < 10000
        }),
{
    lemma_is_date(secs / 86400);
    let (y, m, d) = date_of((secs / 86400) as int);
    if y >= 10000 {
        lemma_day_in_year(y, m, d);
        lemma_years_increase(10000, y);
        lemma_days_before_year(10000);
    }
}

/// The time of day as it stands in `YYYYMMDDThhmmssZ`, from the hours on.
spec fn clock(secs: nat) -> Seq<char> {
    padded((secs / 3600) % 24, 2) + (padded((secs / 60) % 60, 2) + (padded(secs % 60, 2) + "Z"@))
}

proof fn lemma_clock_order(earlier: nat, later: nat)
    requires
        earlier <= later,
        earlier / 86400 == later / 86400,
    ensures
        text_le(clock(earlier), clock(later)),
{
    lemma_widths();
    let (h, n, s) = ((earlier / 3600) % 24, (earlier / 60) % 60, earlier % 60);
    let (h2, n2, s2) = ((later / 3600) % 24, (later / 60) % 60, later % 60);
    assert(h <= h2 && (h == h2 ==> n <= n2) && (h == h2 && n == n2 ==> s <= s2));
    let z = "Z"@;
    lemma_text_le_reflexive(z);
    if h == h2 && n == n2 {
        lemma_padded_order(s, s2, 2, z, z);
    }
    if h == h2 {
        lemma_padded_order(n, n2, 2, padded(s, 2) + z, padded(s2, 2) + z);
    }
    lemma_padded_order(
        h,
        h2,
        2,
        padded(n, 2) + (padded(s, 2) + z),
        padded(n2, 2) + (padded(s2, 2) + z),
    );
}

proof fn lemma_date_order(
    y: int,
    m: int,
    d: int,
    y2: int,
    m2: int,
    d2: int,
    x: Seq<char>,
    x2: Seq<char>,
)
    requires
        is_date(y, m, d),
        is_date(y2, m2, d2),
        day_number(y, m, d) <= day_number(y2, m2, d2),
        y2 < 10000,
        y == y2 && m == m2 && d == d2 ==> text_le(x, x2),
    ensures
        text_le(
            padded(y as nat, 4) + (padded(m as nat, 2) + (padded(d as nat, 2) + x)),
            padded(y2 as nat, 4) + (padded(m2 as nat, 2) + (padded(d2 as nat, 2) + x2)),
        ),
{
    lemma_widths();
    lemma_dates_increase(y, m, d, y2, m2, d2);
    let (f, f2) = (padded(d as nat, 2) + x, padded(d2 as nat, 2) + x2);
    if y == y2 && m == m2 {
        lemma_padded_order(d as nat, d2 as nat, 2, x, x2);
    }
    let (g, g2) = (padded(m as nat, 2) + f, padded(m2 as nat, 2) + f2);
    if y == y2 {
        lemma_padded_order(m as nat, m2 as nat, 2, f, f2);
    }
    lemma_padded_order(y as nat, y2 as nat, 4, g, g2);
}

proof fn lemma_compact_parts(secs: nat)
    ensures
        ({
            let (y, m, d) = date_of((secs / 86400) as int);
            compact_iso8601(secs) == padded(y as nat, 4) + (padded(m as nat, 2) + (padded(
                d as nat,
                2,
            ) + ("T"@ + clock(secs))))
        }),
{
    let (y, m, d) = date_of((secs / 86400) as int);
    let (a, b, c, t) = (padded(y as nat, 4), padded(m as nat, 2), padded(d as nat, 2), "T"@);
    let (h, n, s) = (
        padded((secs / 3600) % 24, 2),
        padded((secs / 60) % 60, 2),
        padded(secs % 60, 2),
    );
    lemma_regroup(a, b, c, t, h, n, s + "Z"@);
    assert(a + b + c + t + h + n + s + "Z"@ =~= a + b + c + t + h + n + (s + "Z"@));
}

proof fn lemma_regroup(
    a: Seq<char>,
    b: Seq<char>,
    c: Seq<char>,
    d: Seq<char>,
    e: Seq<char>,
    f: Seq<char>,
    g: Seq<char>,
)
    ensures
        a + b + c + d + e + f + g == a + (b + (c + (d + (e + (f + g))))),
{
    assert(a + b + c + d + e + f + g =~= a + b + c + d + e + (f + g));
    assert(a + b + c + d + e + (f + g) =~= a + b + c + d + (e + (f + g)));
    assert(a + b + c + d + (e + (f + g)) =~= a + b + c + (d + (e + (f + g))));
    assert(a + b + c + (d + (e + (f + g))) =~= a + b + (c + (d + (e + (f + g)))));
    assert(a + b + (c + (d + (e + (f + g)))) =~= a + (b + (c + (d + (e + (f + g))))));
}

/// Up to the end of the year 9999, a later point in time never comes before an earlier
/// one in the order of the texts `YYYYMMDDThhmmssZ`.
pub proof fn law_compact_times_are_in_order(earlier: nat, later: nat)
    requires
        earlier <= later,
        later < YEAR_10000_SECS,
    ensures
        text_le(compact_iso8601(earlier), compact_iso8601(later)),
{
    lemma_year_has_four_digits(earlier);
    lemma_year_has_four_digits(later);
    lemma_compact_parts(earlier);
    lemma_compact_parts(later);
    let (y, m, d) = date_of((earlier / 86400) as int);
    let (y2, m2, d2) = date_of((later / 86400) as int);
    if y == y2 && m == m2 && d == d2 {
        lemma_clock_order(earlier, later);
        lemma_text_le_reflexive("T"@);
        lemma_text_le_concat("T"@, "T"@, clock(earlier), clock(later));
    }
    lemma_date_order(y, m, d, y2, m2, d2, "T"@ + clock(earlier), "T"@ + clock(later));
}

proof fn lemma_text_le_reflexive(s: Seq<char>)
    ensures
        text_le(s, s),
    decreases s.len(),
{
    if s.len() > 0 {
        lemma_text_le_reflexive(s.drop_first());
    }
}

/// Up to the end of the year 9999, a point in time as `YYYYMMDDThhmmssZ` has sixteen
/// characters: digits, but for the `T` and the `Z` in their places.
pub proof fn law_compact_time_has_its_form(secs: nat)
    requires
        secs < YEAR_10000_SECS,
    ensures
        compact_iso8601(secs).len() == 16,
        compact_iso8601(secs)[8] == 'T',
        compact_iso8601(secs)[15] == 'Z',
        forall|i: int|
            0 <= i < 16 && i != 8 && i != 15 ==> is_digit(#[trigger] compact_iso8601(secs)[i]),
{
    reveal_strlit("T");
    reveal_strlit("Z");
    lemma_widths();
    lemma_year_has_four_digits(secs);
    let (y, m, d) = date_of((secs / 86400) as int);
    let (h, n, s) = ((secs / 3600) % 24, (secs / 60) % 60, secs % 60);
    lemma_padded(y as nat, 4);
    lemma_padded(m as nat, 2);
    lemma_padded(d as nat, 2);
    lemma_padded(h, 2);
    lemma_padded(n, 2);
    lemma_padded(s, 2);
    let c = compact_iso8601(secs);
    assert forall|i: int| 0 <= i < 16 && i != 8 && i != 15 implies is_digit(#[trigger] c[i]) by {
        if i < 4 {
            assert(c[i] == padded(y as nat, 4)[i]);
        } else if i < 6 {
            assert(c[i] == padded(m as nat, 2)[i - 4]);
        } else if i < 8 {
            assert(c[i] == padded(d as nat, 2)[i - 6]);
        } else if i < 11 {
            assert(c[i] == padded(h, 2)[i - 9]);
        } else if i < 13 {
            assert(c[i] == padded(n, 2)[i - 11]);
        } else {
            assert(c[i] == padded(s, 2)[i - 13]);
        }
    }
}

/// Up to the end of the year 9999, a point in time as `YYYY-MM-DDThh:mm:ssZ` is read back as
/// what it is: year, month, day, hour, minute and second stand in their places, and together
/// they are that many seconds after the beginning of 1970.
pub proof fn law_time_is_read_back(secs: nat)
    requires
        secs < YEAR_10000_SECS,
    ensures
        ({
            let t = iso8601(secs);
            let (y, m, d) = (
                digits_value(t.subrange(0, 4)) as int,
                digits_value(t.subrange(5, 7)) as int,
                digits_value(t.subrange(8, 10)) as int,
            );
            let (h, n, s) = (
                digits_value(t.subrange(11, 13)) as int,
                digits_value(t.subrange(14, 16)) as int,
                digits_value(t.subrange(17, 19)) as int,
            );
            &&& t.len() == 20
            &&& t[4] == '-' && t[7] == '-' && t[10] == 'T' && t[13] == ':' && t[16] == ':' && t[19]
                == 'Z'
            &&& is_date(y, m, d)
            &&& 0 <= h < 24 && 0 <= n < 60 && 0 <= s < 60
            &&& secs == day_number(y, m, d) * 86400 + h * 3600 + n * 60 + s
        }),
{
    reveal_strlit("T");
    reveal_strlit("Z");
    reveal_strlit("-");
    reveal_strlit(":");
    lemma_widths();
    lemma_year_has_four_digits(secs);
    let (y, m, d) = date_of((secs / 86400) as int);
    let (h, n, s) = ((secs / 3600) % 24, (secs / 60) % 60, secs % 60);
    lemma_padded(y as nat, 4);
    lemma_padded(m as nat, 2);
    lemma_padded(d as nat, 2);
    lemma_padded(h, 2);
    lemma_padded(n, 2);
    lemma_padded(s, 2);
    let t = iso8601(secs);
    assert(t.subrange(0, 4) =~= padded(y as nat, 4));
    assert(t.subrange(5, 7) =~= padded(m as nat, 2));
    assert(t.subrange(8, 10) =~= padded(d as nat, 2));
    assert(t.subrange(11, 13) =~= padded(h, 2));
    assert(t.subrange(14, 16) =~= padded(n, 2));
    assert(t.subrange(17, 19) =~= padded(s, 2));
}

/// A year has as many days as its months, and one more than 365 just every fourth year, but
/// for full centuries that four hundred does not divide.
pub proof fn law_years_and_months(y: int)
    requires
        y >= 0,
    ensures
        days_before_year(y + 1) - days_before_year(y) == days_before_month(y, 13),
        days_before_month(y, 13) == 366 <==> (y % 4 == 0 && y % 100 != 0) || y % 400 == 0,
        days_before_month(y, 13) == 365 || days_before_month(y, 13) == 366,
        day_number(1970, 1, 1) == 0,
{
    reveal_with_fuel(days_before_month, 14);
    lemma_days_before_year(1970);
}

} // verus!
