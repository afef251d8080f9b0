//! Text forms of play times, clock positions and dates.

use vstd::prelude::*;
use vstd::string::*;

verus! {

/// The decimal digit character for `d`.
pub open spec fn digit(d: nat) -> char {
    ((d + 48) as u8) as char
}

/// The decimal form of `n`, without leading zeros.
pub open spec fn decimal(n: nat) -> Seq<char>
    decreases n,
{
    if n < 10 {
        seq![digit(n)]
    } else {
        decimal(n / 10).push(digit(n % 10))
    }
}

/// The decimal form of `n`, padded with a zero to at least two characters.
pub open spec fn pad2(n: nat) -> Seq<char> {
    if n < 10 {
        seq!['0'].add(decimal(n))
    } else {
        decimal(n)
    }
}

/// Calls `String::push`, which appends a character.
#[verifier::external_body]
pub(crate) fn push_char(s: &mut String, c: char)
    ensures
        final(s)@ == old(s)@.push(c),
{
    s.push(c);
}

/// Appends the decimal form of `n`.
pub(crate) fn push_decimal(s: &mut String, n: u64)
    ensures
        final(s)@ == old(s)@ + decimal(n as nat),
    decreases n,
{
    if n >= 10 {
        push_decimal(s, n / 10);
    }
    let d: u8 = (n % 10) as u8;
    let c: char = (d + 48) as char;
    push_char(s, c);
    assert(s@ =~= old(s)@ + decimal(n as nat));
}

/// Appends the decimal form of `n`, padded with a zero to two characters.
pub(crate) fn push_pad2(s: &mut String, n: u64)
    ensures
        final(s)@ == old(s)@ + pad2(n as nat),
{
    if n < 10 {
        push_char(s, '0');
    }
    push_decimal(s, n);
    assert(s@ =~= old(s)@ + pad2(n as nat));
}

/// The text of a play time of `secs` seconds: hours and minutes when it lasts
/// an hour or more ("2h 05m"), minutes and seconds when it lasts a minute or
/// more ("3m 07s"), seconds otherwise ("42s").
pub open spec fn play_time_text(secs: nat) -> Seq<char> {
    let hours = secs / 3600;
    let minutes = (secs % 3600) / 60;
    let seconds = secs % 60;
    if hours > 0 {
        decimal(hours) + seq!['h', ' '] + pad2(minutes) + seq!['m']
    } else if minutes > 0 {
        decimal(minutes) + seq!['m', ' '] + pad2(seconds) + seq!['s']
    } else {
        decimal(seconds) + seq!['s']
    }
}

/// Formats a play time given in whole seconds.
pub fn fmt_play_time(secs: u64) -> (r: String)
    ensures
        r@ == play_time_text(secs as nat),
{
    let hours = secs / 3600;
    let minutes = (secs % 3600) / 60;
    let seconds = secs % 60;
    let mut s = String::new();
    if hours > 0 {
        push_decimal(&mut s, hours);
        push_char(&mut s, 'h');
        push_char(&mut s, ' ');
        push_pad2(&mut s, minutes);
        push_char(&mut s, 'm');
    } else if minutes > 0 {
        push_decimal(&mut s, minutes);
        push_char(&mut s, 'm');
        push_char(&mut s, ' ');
        push_pad2(&mut s, seconds);
        push_char(&mut s, 's');
    } else {
        push_decimal(&mut s, seconds);
        push_char(&mut s, 's');
    }
    assert(s@ =~= play_time_text(secs as nat));
    s
}

/// The clock form of a position of `secs` seconds: minutes and seconds, each
/// at least two digits, separated by a colon ("03:07", "125:00").
pub open spec fn clock_text(secs: nat) -> Seq<char> {
    pad2(secs / 60) + seq![':'] + pad2(secs % 60)
}

/// Formats a position given in whole seconds as minutes and seconds.
pub fn fmt_clock(secs: u64) -> (r: String)
    ensures
        r@ == clock_text(secs as nat),
{
    let mut s = String::new();
    push_pad2(&mut s, secs / 60);
    push_char(&mut s, ':');
    push_pad2(&mut s, secs % 60);
    assert(s@ =~= clock_text(secs as nat));
    s
}


/// Within a 400-year era, day `doe` (from the first of March of the era's
/// first year) falls in year `yoe` of the era, at day `doy` of that year,
/// counted from the first of March; day 365 occurs only in a leap year.
proof fn lemma_year_of_era(doe: u32)
    by (bit_vector)
    requires
        doe < 146097,
    ensures
        ({
            let yoe = ((doe - doe / 1460 + doe / 36524 - doe / 146096) / 365) as u32;
            &&& yoe < 400
            &&& 365 * yoe + yoe / 4 - yoe / 100 <= doe
            &&& doe - (365 * yoe + yoe / 4 - yoe / 100) <= 365
            &&& (doe - (365 * yoe + yoe / 4 - yoe / 100) == 365 ==> ((yoe + 1) % 4 == 0 && ((yoe + 1) % 100 != 0 || (yoe + 1) % 400 == 0)))
        }),
{
}


/// Within a year counted from the first of March, day `doy` falls in month
/// `mp` (0 for March, 11 for February), on the day of that month that `d`
/// gives; February has a 29th only at day 365.
proof fn lemma_month_of_year(doy: u32)
    by (bit_vector)
    requires
        doy <= 365,
    ensures
        ({
            let mp = ((5 * doy + 2) / 153) as u32;
            let d = doy - (153 * mp + 2) / 5 + 1;
            &&& mp < 12
            &&& (153 * mp + 2) / 5 <= doy
            &&& 1 <= d <= 31
            &&& (mp == 1 || mp == 3 || mp == 6 || mp == 8) ==> d <= 30
            &&& mp == 11 ==> (d <= 28 || (d == 29 && doy == 365))
        }),
{
}

/// Whether year `y` of the Gregorian calendar is a leap year.
pub open spec fn is_leap(y: int) -> bool {
    y % 4 == 0 && (y % 100 != 0 || y % 400 == 0)
}

/// The number of days of month `m` of year `y`.
pub open spec fn days_in_month(y: int, m: int) -> int {
    if m == 2 {
        if is_leap(y) {
            29
        } else {
            28
        }
    } else if m == 4 || m == 6 || m == 9 || m == 11 {
        30
    } else {
        31
    }
}

/// The number of days from the first of January 1970 to day `d` of month `m`
/// of year `y` of the Gregorian calendar.
pub open spec fn days_from_civil(y: int, m: int, d: int) -> int {
    let y2 = if m <= 2 {
        y - 1
    } else {
        y
    };
    let era = y2 / 400;
    let yoe = y2 - era * 400;
    let mp = if m > 2 {
        m - 3
    } else {
        m + 9
    };
    let doy = (153 * mp + 2) / 5 + d - 1;
    let doe = yoe * 365 + yoe / 4 - yoe / 100 + doy;
    era * 146097 + doe - 719468
}

/// `(y, m, d)` is a date of the Gregorian calendar, `days` days after the
/// first of January 1970.
pub open spec fn is_civil_date(days: int, y: int, m: int, d: int) -> bool {
    &&& 1 <= m <= 12
    &&& 1 <= d <= days_in_month(y, m)
    &&& days_from_civil(y, m, d) == days
}

/// Adding whole 400-year eras does not change whether a year is a leap year.
proof fn lemma_leap_era(era: int, x: int)
    requires
        era >= 0,
        x >= 0,
    ensures
        is_leap(era * 400 + x) == is_leap(x),
{
    vstd::arithmetic::div_mod::lemma_mod_multiples_vanish(era * 100, x, 4);
    vstd::arithmetic::div_mod::lemma_mod_multiples_vanish(era * 4, x, 100);
    vstd::arithmetic::div_mod::lemma_mod_multiples_vanish(era, x, 400);
    assert(4 * (era * 100) == era * 400) by (nonlinear_arith);
    assert(100 * (era * 4) == era * 400) by (nonlinear_arith);
    assert(400 * era == era * 400) by (nonlinear_arith);
}

/// The date of the Gregorian calendar `days` days after the first of January
/// 1970, as year, month (1 to 12) and day of the month.
pub fn civil_from_days(days: u64) -> (r: (u64, u32, u32))
    requires
        days <= u64::MAX / 86400,
    ensures
        is_civil_date(days as int, r.0 as int, r.1 as int, r.2 as int),
{
    let z: u64 = days + 719468;
    let era: u64 = z / 146097;
    let doe64: u64 = z % 146097;
    let doe: u32 = doe64 as u32;
    proof {
        lemma_year_of_era(doe);
    }
    let yoe: u32 = (doe - doe / 1460 + doe / 36524 - doe / 146096) / 365;
    let doy: u32 = doe - (365 * yoe + yoe / 4 - yoe / 100);
    proof {
        lemma_month_of_year(doy);
    }
    let mp: u32 = (5 * doy + 2) / 153;
    let day: u32 = doy - (153 * mp + 2) / 5 + 1;
    let month: u32 = if mp < 10 {
        mp + 3
    } else {
        mp - 9
    };
    let year_march: u64 = yoe as u64 + era * 400;
    let year: u64 = if month <= 2 {
        year_march + 1
    } else {
        year_march
    };
    proof {
        let e = era as int;
        let ym = year_march as int;
        assert(z as int == e * 146097 + doe as int) by {
            vstd::arithmetic::div_mod::lemma_fundamental_div_mod(z as int, 146097);
        }
        vstd::arithmetic::div_mod::lemma_fundamental_div_mod_converse(ym, 400, e, yoe as int);
        let m = month as int;
        let y2 = if m <= 2 {
            year as int - 1
        } else {
            year as int
        };
        assert(y2 == ym);
        let mp2 = if m > 2 {
            m - 3
        } else {
            m + 9
        };
        assert(mp2 == mp as int);
        assert(days_from_civil(year as int, m, day as int) == days as int);
        if m == 2 {
            lemma_leap_era(e, yoe as int + 1);
            assert(year as int == e * 400 + (yoe as int + 1));
        }
    }
    (year, month, day)
}

/// The abbreviated English name of month `m`.
pub open spec fn month_abbrev(m: int) -> Seq<char> {
    if m == 1 {
        "Jan"@
    } else if m == 2 {
        "Feb"@
    } else if m == 3 {
        "Mar"@
    } else if m == 4 {
        "Apr"@
    } else if m == 5 {
        "May"@
    } else if m == 6 {
        "Jun"@
    } else if m == 7 {
        "Jul"@
    } else if m == 8 {
        "Aug"@
    } else if m == 9 {
        "Sep"@
    } else if m == 10 {
        "Oct"@
    } else if m == 11 {
        "Nov"@
    } else {
        "Dec"@
    }
}

/// The abbreviated English name of month `m`, from 1 to 12.
fn month_name(m: u32) -> (r: &'static str)
    requires
        1 <= m <= 12,
    ensures
        r@ == month_abbrev(m as int),
{
    if m == 1 {
        "Jan"
    } else if m == 2 {
        "Feb"
    } else if m == 3 {
        "Mar"
    } else if m == 4 {
        "Apr"
    } else if m == 5 {
        "May"
    } else if m == 6 {
        "Jun"
    } else if m == 7 {
        "Jul"
    } else if m == 8 {
        "Aug"
    } else if m == 9 {
        "Sep"
    } else if m == 10 {
        "Oct"
    } else if m == 11 {
        "Nov"
    } else {
        "Dec"
    }
}

/// The text of a date: the month's abbreviation, the day and the year,
/// separated by spaces ("Mar 7 2024").
pub open spec fn date_text(y: int, m: int, d: int) -> Seq<char> {
    month_abbrev(m) + seq![' '] + decimal(d as nat) + seq![' '] + decimal(y as nat)
}

/// Formats the date, in the Gregorian calendar and universal time, of the
/// moment `unix_secs` seconds after the first of January 1970.
pub fn fmt_date(unix_secs: u64) -> (r: String)
    ensures
        ({
            let (y, m, d) = date_of_days((unix_secs / 86400) as int);
            &&& y >= 1970
            &&& is_civil_date((unix_secs / 86400) as int, y, m, d)
            &&& r@ == date_text(y, m, d)
        }),
{
    let (year, month, day) = civil_from_days(unix_secs / 86400);
    let mut s = String::from_str(month_name(month));
    push_char(&mut s, ' ');
    push_decimal(&mut s, day as u64);
    push_char(&mut s, ' ');
    push_decimal(&mut s, year);
    proof {
        assert(s@ =~= date_text(year as int, month as int, day as int));
        let days = (unix_secs / 86400) as int;
        lemma_civil_year_at_least_1970(days, year as int, month as int, day as int);
        let w = (year as int, month as int, day as int);
        assert(w.0 >= 1 && is_civil_date(days, w.0, w.1, w.2));
        let t = date_of_days(days);
        assert(t.0 >= 1 && is_civil_date(days, t.0, t.1, t.2));
        law_civil_date_unique(days, t.0, t.1, t.2, w.0, w.1, w.2);
    }
    s
}

/// The date, of year 1 or later, that falls `days` days after the first of
/// January 1970, as year, month and day of the month.
pub open spec fn date_of_days(days: int) -> (int, int, int) {
    choose|t: (int, int, int)| t.0 >= 1 && is_civil_date(days, t.0, t.1, t.2)
}

/// A date on or after the first of January 1970 falls in 1970 or later.
proof fn lemma_civil_year_at_least_1970(days: int, y: int, m: int, d: int)
    requires
        days >= 0,
        y >= 0,
        is_civil_date(days, y, m, d),
    ensures
        y >= 1970,
{
    if y < 1970 {
        let y2 = if m <= 2 { y - 1 } else { y };
        assert(y2 <= 1969);
        let era = y2 / 400;
        let yoe = y2 - era * 400;
        assert(era <= 4);
        let mp = if m > 2 { m - 3 } else { m + 9 };
        let doy = (153 * mp + 2) / 5 + d - 1;
        if m > 2 {
            assert(153 * mp + 2 <= 1379);
            assert((153 * mp + 2) / 5 <= 275);
            assert(doy <= 305);
            if era == 4 {
                assert(yoe <= 369);
            }
            assert(era * 146097 + yoe * 365 + yoe / 4 - yoe / 100 + doy < 719468) by (nonlinear_arith)
                requires
                    -1 <= era <= 4,
                    0 <= yoe < 400,
                    era == 4 ==> yoe <= 369,
                    doy <= 305,
            ;
        } else {
            assert(153 * mp + 2 <= 1685);
            assert((153 * mp + 2) / 5 <= 337);
            assert(doy <= 365);
            if era == 4 {
                assert(yoe <= 368);
            }
            assert(era * 146097 + yoe * 365 + yoe / 4 - yoe / 100 + doy < 719468) by (nonlinear_arith)
                requires
                    -1 <= era <= 4,
                    0 <= yoe < 400,
                    era == 4 ==> yoe <= 368,
                    doy <= 365,
            ;
        }
    }
}


/// Day `doy` of year `yoe` of an era, a day that the year has, lies within the
/// era, and the era's arithmetic gives back the year and the day.
proof fn lemma_era_day_inverse(yoe: u32, doy: u32, doe: u32)
    by (bit_vector)
    requires
        yoe < 400,
        doy <= 365,
        doy == 365 ==> (((yoe + 1) as u32) % 4 == 0 && (((yoe + 1) as u32) % 100 != 0 || ((yoe + 1) as u32)
            % 400 == 0)),
        doe == (365 * yoe + yoe / 4 - yoe / 100 + doy) as u32,
    ensures
        doe < 146097,
        yoe <= (doe - doe / 1460 + doe / 36524 - doe / 146096) / 365,
        (doe - doe / 1460 + doe / 36524 - doe / 146096) / 365 <= yoe,
{
}

/// Day `d` of month `mp` (0 for March, 11 for February) is day `doy` of the
/// year counted from the first of March, and the month arithmetic gives back
/// the month.
proof fn lemma_month_day_inverse(mp: u32, d: u32)
    by (bit_vector)
    requires
        mp < 12,
        1 <= d <= 31,
        (mp == 1 || mp == 3 || mp == 6 || mp == 8) ==> d <= 30,
        mp == 11 ==> d <= 29,
    ensures
        ({
            let doy = ((153 * mp + 2) / 5 + d - 1) as u32;
            let q = ((5 * doy + 2) / 153) as u32;
            &&& doy <= 365
            &&& doy == 365 ==> (mp == 11 && d == 29)
            &&& q == mp
        }),
{
}

/// The era, year of era and day of year of a date of year 1 or later.
proof fn lemma_date_parts(y: int, m: int, d: int)
    requires
        y >= 1,
        1 <= m <= 12,
        1 <= d <= days_in_month(y, m),
    ensures
        ({
            let y2 = if m <= 2 { y - 1 } else { y };
            let era = y2 / 400;
            let yoe = y2 - era * 400;
            let mp = if m > 2 { m - 3 } else { m + 9 };
            let doy = (153 * mp + 2) / 5 + d - 1;
            let doe = yoe * 365 + yoe / 4 - yoe / 100 + doy;
            &&& era >= 0
            &&& 0 <= yoe < 400
            &&& 0 <= doe < 146097
            &&& days_from_civil(y, m, d) + 719468 == era * 146097 + doe
            &&& (doe - doe / 1460 + doe / 36524 - doe / 146096) / 365 == yoe
            &&& doe - (365 * yoe + yoe / 4 - yoe / 100) == doy
            &&& (5 * doy + 2) / 153 == mp
        }),
{
    let y2 = if m <= 2 { y - 1 } else { y };
    let era = y2 / 400;
    let yoe = y2 - era * 400;
    let mp = if m > 2 { m - 3 } else { m + 9 };
    let doy = (153 * mp + 2) / 5 + d - 1;
    assert(0 <= mp < 12);
    assert((153 * mp + 2) / 5 <= 337) by (nonlinear_arith)
        requires
            0 <= mp < 12,
    ;
    lemma_month_day_inverse(mp as u32, d as u32);
    if doy == 365 {
        assert(m == 2 && d == 29);
        assert(is_leap(y));
        assert(y == era * 400 + (yoe + 1));
        lemma_leap_era(era, yoe + 1);
    }
    assert(0 <= yoe * 365 + yoe / 4 - yoe / 100 + doy <= 400 * 366) by (nonlinear_arith)
        requires
            0 <= yoe < 400,
            0 <= doy <= 365,
    ;
    lemma_era_day_inverse(yoe as u32, doy as u32, (yoe * 365 + yoe / 4 - yoe / 100 + doy) as u32);
}

/// A number of days since the first of January 1970 names one date only:
/// two dates of year 1 or later that fall the same number of days after it
/// are the same date.
pub proof fn law_civil_date_unique(days: int, y1: int, m1: int, d1: int, y2: int, m2: int, d2: int)
    requires
        y1 >= 1,
        y2 >= 1,
        is_civil_date(days, y1, m1, d1),
        is_civil_date(days, y2, m2, d2),
    ensures
        y1 == y2 && m1 == m2 && d1 == d2,
{
    lemma_date_parts(y1, m1, d1);
    lemma_date_parts(y2, m2, d2);
    let ya = if m1 <= 2 { y1 - 1 } else { y1 };
    let yb = if m2 <= 2 { y2 - 1 } else { y2 };
    let ea = ya / 400;
    let eb = yb / 400;
    let oa = ya - ea * 400;
    let ob = yb - eb * 400;
    let pa = if m1 > 2 { m1 - 3 } else { m1 + 9 };
    let pb = if m2 > 2 { m2 - 3 } else { m2 + 9 };
    let da = (153 * pa + 2) / 5 + d1 - 1;
    let db = (153 * pb + 2) / 5 + d2 - 1;
    let doe_a = oa * 365 + oa / 4 - oa / 100 + da;
    let doe_b = ob * 365 + ob / 4 - ob / 100 + db;
    let z = days + 719468;
    vstd::arithmetic::div_mod::lemma_fundamental_div_mod_converse(z, 146097, ea, doe_a);
    vstd::arithmetic::div_mod::lemma_fundamental_div_mod_converse(z, 146097, eb, doe_b);
    assert(ea == eb && doe_a == doe_b);
    assert(oa == ob);
    assert(da == db);
    assert(pa == pb);
}


/// Formatting gives back the date of every day: for each date of year 1 or
/// later, the date named by its count of days from the first of January 1970
/// is that date.
pub proof fn law_date_round_trip(y: int, m: int, d: int)
    requires
        y >= 1,
        1 <= m <= 12,
        1 <= d <= days_in_month(y, m),
    ensures
        date_of_days(days_from_civil(y, m, d)) == (y, m, d),
{
    let days = days_from_civil(y, m, d);
    assert(is_civil_date(days, y, m, d));
    let t = date_of_days(days);
    assert((y, m, d).0 >= 1 && is_civil_date(days, (y, m, d).0, (y, m, d).1, (y, m, d).2));
    assert(t.0 >= 1 && is_civil_date(days, t.0, t.1, t.2));
    law_civil_date_unique(days, t.0, t.1, t.2, y, m, d);
}

} // verus!
