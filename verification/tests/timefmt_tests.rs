use wiremann::timefmt::{civil_from_days, fmt_clock, fmt_date, fmt_play_time};

#[test]
fn play_time_seconds_minutes_hours() {
    assert_eq!(fmt_play_time(0), "0s");
    assert_eq!(fmt_play_time(42), "42s");
    assert_eq!(fmt_play_time(60), "1m 00s");
    assert_eq!(fmt_play_time(187), "3m 07s");
    assert_eq!(fmt_play_time(3599), "59m 59s");
    assert_eq!(fmt_play_time(3600), "1h 00m");
    assert_eq!(fmt_play_time(7500), "2h 05m");
    assert_eq!(fmt_play_time(360_000 + 59), "100h 00m");
}

#[test]
fn play_time_matches_format() {
    for total in [0u64, 5, 59, 61, 600, 3599, 3601, 86_399, 1_000_000, u64::MAX] {
        let h = total / 3600;
        let m = (total % 3600) / 60;
        let s = total % 60;
        let expect = if h > 0 {
            format!("{h}h {m:02}m")
        } else if m > 0 {
            format!("{m}m {s:02}s")
        } else {
            format!("{s}s")
        };
        assert_eq!(fmt_play_time(total), expect);
    }
}

#[test]
fn clock_pads_minutes_and_seconds() {
    assert_eq!(fmt_clock(0), "00:00");
    assert_eq!(fmt_clock(7), "00:07");
    assert_eq!(fmt_clock(187), "03:07");
    assert_eq!(fmt_clock(7500), "125:00");
}

#[test]
fn dates_of_known_moments() {
    assert_eq!(fmt_date(0), "Jan 1 1970");
    assert_eq!(fmt_date(86_399), "Jan 1 1970");
    assert_eq!(fmt_date(86_400), "Jan 2 1970");
    assert_eq!(fmt_date(951_782_400), "Feb 29 2000");
    assert_eq!(fmt_date(1_709_164_800), "Feb 29 2024");
    assert_eq!(fmt_date(1_709_251_200), "Mar 1 2024");
    assert_eq!(fmt_date(1_735_689_599), "Dec 31 2024");
    assert_eq!(fmt_date(4_102_444_800), "Jan 1 2100");
}

#[test]
fn civil_dates_count_every_day_once() {
    // over consecutive days the calendar advances one day at a time
    let (mut y, mut m, mut d) = civil_from_days(0);
    assert_eq!((y, m, d), (1970, 1, 1));
    for days in 1u64..200_000 {
        let (y2, m2, d2) = civil_from_days(days);
        let leap = y % 4 == 0 && (y % 100 != 0 || y % 400 == 0);
        let len = match m {
            2 => if leap { 29 } else { 28 },
            4 | 6 | 9 | 11 => 30,
            _ => 31,
        };
        let expect = if d < len {
            (y, m, d + 1)
        } else if m < 12 {
            (y, m + 1, 1)
        } else {
            (y + 1, 1, 1)
        };
        assert_eq!((y2, m2, d2), expect, "day {days}");
        y = y2;
        m = m2;
        d = d2;
    }
}

#[test]
fn largest_moment_has_a_date() {
    assert_eq!(fmt_date(u64::MAX), "Nov 9 584554051223");
}
