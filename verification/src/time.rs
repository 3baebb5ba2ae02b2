//! Dates of the civil calendar and timestamps.

use crate::text::{cat, cat3, cat5, decimal, decimal_of};
use vstd::prelude::*;
use vstd::string::*;

verus! {

/// Whether a year of the Gregorian calendar has a leap day.
pub open spec fn leap(year: int) -> bool {
    year % 4 == 0 && (year % 100 != 0 || year % 400 == 0)
}

/// How many days a month has.
pub open spec fn month_length(year: int, month: int) -> int {
    if month == 2 {
        if leap(year) {
            29
        } else {
            28
        }
    } else if month == 4 || month == 6 || month == 9 || month == 11 {
        30
    } else {
        31
    }
}

/// Whether a year, a month and a day make a date.
pub open spec fn is_date(year: int, month: int, day: int) -> bool {
    1 <= month <= 12 && 1 <= day <= month_length(year, month)
}

/// The days of a year before a month.
pub open spec fn days_before_month(year: int, month: int) -> int
    decreases month,
{
    if month <= 1 {
        0
    } else {
        days_before_month(year, month - 1) + month_length(year, month - 1)
    }
}

/// The days from the start of the year 1 to the start of a year.
pub open spec fn days_before_year(year: int) -> int {
    365 * (year - 1) + (year - 1) / 4 - (year - 1) / 100 + (year - 1) / 400
}

/// The days from 1970-01-01 to a date.
pub open spec fn day_number(year: int, month: int, day: int) -> int {
    days_before_year(year) + days_before_month(year, month) + (day - 1) - 719162
}

proof fn year_of_era(doe: int, yoe: int)
    requires
        0 <= doe < 146097,
        yoe == (doe - doe / 1460 + doe / 36524 - doe / 146096) / 365,
    ensures
        0 <= yoe <= 399,
        0 <= doe - (365 * yoe + yoe / 4 - yoe / 100) <= 365,
        doe - (365 * yoe + yoe / 4 - yoe / 100) == 365 ==> (yoe + 1) % 4 == 0 && ((yoe + 1) % 100
            != 0 || (yoe + 1) % 400 == 0),
{
}

proof fn month_offset(year: int, mp: int)
    requires
        0 <= mp <= 11,
    ensures
        mp < 10 ==> days_before_month(year, mp + 3) == 59 + (if leap(year) {
            1int
        } else {
            0
        }) + (153 * mp + 2) / 5,
        mp >= 10 ==> days_before_month(year, mp - 9) == (153 * mp + 2) / 5 - 306,
{
    reveal_with_fuel(days_before_month, 13);
    if mp == 0 {
    } else if mp == 1 {
    } else if mp == 2 {
    } else if mp == 3 {
    } else if mp == 4 {
    } else if mp == 5 {
    } else if mp == 6 {
    } else if mp == 7 {
    } else if mp == 8 {
    } else if mp == 9 {
    } else if mp == 10 {
    } else {
    }
}

proof fn date_of_day(era: int, doe: int, yoe: int, doy: int, mp: int, year: int, month: int, day: int)
    requires
        0 <= doe < 146097,
        yoe == (doe - doe / 1460 + doe / 36524 - doe / 146096) / 365,
        doy == doe - (365 * yoe + yoe / 4 - yoe / 100),
        mp == (5 * doy + 2) / 153,
        day == doy - (153 * mp + 2) / 5 + 1,
        month == (if mp < 10 {
            mp + 3
        } else {
            mp - 9
        }),
        year == yoe + era * 400 + (if month <= 2 {
            1int
        } else {
            0
        }),
    ensures
        0 <= mp <= 11,
        is_date(year, month, day),
        day_number(year, month, day) == era * 146097 + doe - 719468,
{
    year_of_era(doe, yoe);
    assert(0 <= mp <= 11);
    month_offset(year, mp);
    let march = yoe + era * 400;
    assert(march / 4 == era * 100 + yoe / 4);
    assert(march / 100 == era * 4 + yoe / 100);
    assert(march / 400 == era + yoe / 400);
    assert(yoe / 400 == 0);
    assert(leap(march + 1) <==> (yoe + 1) % 4 == 0 && ((yoe + 1) % 100 != 0 || (yoe + 1) % 400
        == 0));
    assert(leap(march) <==> yoe % 4 == 0 && (yoe % 100 != 0 || yoe % 400 == 0));
    if mp == 0 {
    } else if mp == 1 {
    } else if mp == 2 {
    } else if mp == 3 {
    } else if mp == 4 {
    } else if mp == 5 {
    } else if mp == 6 {
    } else if mp == 7 {
    } else if mp == 8 {
    } else if mp == 9 {
    } else if mp == 10 {
    } else {
    }
    if month > 2 {
        assert(year == march);
        assert((march - 1) / 4 == march / 4 - (if march % 4 == 0 {
            1int
        } else {
            0
        }));
        assert((march - 1) / 100 == march / 100 - (if march % 100 == 0 {
            1int
        } else {
            0
        }));
        assert((march - 1) / 400 == march / 400 - (if march % 400 == 0 {
            1int
        } else {
            0
        }));
    }
}

/// The date that lies a number of days after 1970-01-01.
pub fn civil_from_days(days: i64) -> (r: (i64, u32, u32))
    requires
        days <= i64::MAX - 719468,
    ensures
        is_date(r.0 as int, r.1 as int, r.2 as int),
        day_number(r.0 as int, r.1 as int, r.2 as int) == days,
{
    let z: i64 = days + 719_468;
    let era: i64 = if z >= 0 {
        z / 146_097
    } else {
        -((-z + 146_096) / 146_097)
    };
    assert(0 <= z - era * 146_097 < 146_097);
    let doe: u64 = (z - era * 146_097) as u64;
    let yoe: u64 = (doe - doe / 1_460 + doe / 36_524 - doe / 146_096) / 365;
    proof {
        year_of_era(doe as int, yoe as int);
    }
    let year: i64 = yoe as i64 + era * 400;
    let doy: u64 = doe - (365 * yoe + yoe / 4 - yoe / 100);
    let mp: u64 = (5 * doy + 2) / 153;
    let day: u32 = (doy - (153 * mp + 2) / 5 + 1) as u32;
    let month: u32 = (if mp < 10 {
        mp + 3
    } else {
        mp - 9
    }) as u32;
    let year: i64 = if month <= 2 {
        year + 1
    } else {
        year
    };
    proof {
        date_of_day(
            era as int,
            doe as int,
            yoe as int,
            doy as int,
            mp as int,
            year as int,
            month as int,
            day as int,
        );
    }
    (year, month, day)
}

/// A year's days are those of its months.
proof fn year_length(year: int)
    ensures
        days_before_month(year, 13) == (if leap(year) {
            366int
        } else {
            365
        }),
        days_before_year(year + 1) - days_before_year(year) == days_before_month(year, 13),
{
    month_offset(year, 9);
    assert(days_before_month(year, 13) == days_before_month(year, 12) + month_length(year, 12));
    let last = year - 1;
    assert(year / 4 == last / 4 + (if year % 4 == 0 {
        1int
    } else {
        0
    }));
    assert(year / 100 == last / 100 + (if year % 100 == 0 {
        1int
    } else {
        0
    }));
    assert(year / 400 == last / 400 + (if year % 400 == 0 {
        1int
    } else {
        0
    }));
}

proof fn months_grow(year: int, a: int, b: int)
    requires
        1 <= a <= b,
    ensures
        days_before_month(year, a) <= days_before_month(year, b),
        a < b ==> days_before_month(year, a) + month_length(year, a) <= days_before_month(year, b),
    decreases b - a,
{
    if a < b {
        months_grow(year, a, b - 1);
    }
}

proof fn years_grow(a: int, b: int)
    requires
        a < b,
    ensures
        days_before_year(a) + days_before_month(a, 13) <= days_before_year(b),
    decreases b - a,
{
    year_length(a);
    if a + 1 < b {
        years_grow(a + 1, b);
        year_length(a + 1);
    }
}

/// No two dates lie the same number of days after 1970-01-01: a date is known by its
/// day number.
pub proof fn dates_are_known_by_their_number(
    year: int,
    month: int,
    day: int,
    other_year: int,
    other_month: int,
    other_day: int,
)
    requires
        is_date(year, month, day),
        is_date(other_year, other_month, other_day),
        day_number(year, month, day) == day_number(other_year, other_month, other_day),
    ensures
        year == other_year && month == other_month && day == other_day,
{
    months_grow(year, month, 13);
    months_grow(other_year, other_month, 13);
    months_grow(year, 1, month);
    months_grow(other_year, 1, other_month);
    if year < other_year {
        years_grow(year, other_year);
    } else if other_year < year {
        years_grow(other_year, year);
    } else if month < other_month {
        months_grow(year, month, other_month);
    } else if other_month < month {
        months_grow(year, other_month, month);
    }
}

/// A numeral with zeros before it up to a width.
pub open spec fn padded(n: nat, width: nat) -> Seq<char> {
    Seq::new(
        if decimal(n).len() < width {
            (width - decimal(n).len()) as nat
        } else {
            0
        },
        |i: int| '0',
    ) + decimal(n)
}

/// Whether a text is the UTC timestamp of a number of seconds after 1970-01-01, as in
/// `2026-09-17T12:34:56Z`.
pub open spec fn is_timestamp(text: Seq<char>, secs: u64) -> bool {
    exists|year: int, month: int, day: int|
        {
            &&& #[trigger] is_date(year, month, day)
            &&& year >= 0
            &&& day_number(year, month, day) == secs as int / 86400
            &&& text == timestamp_text(year as nat, month as nat, day as nat, secs)
        }
}

/// The timestamp of a date and the seconds of a day.
pub open spec fn timestamp_text(year: nat, month: nat, day: nat, secs: u64) -> Seq<char> {
    padded(year, 4) + "-"@ + padded(month, 2) + "-"@ + padded(day, 2) + "T"@ + padded(
        (secs as nat % 86400) / 3600,
        2,
    ) + ":"@ + padded((secs as nat % 3600) / 60, 2) + ":"@ + padded(secs as nat % 60, 2) + "Z"@
}

fn pad(n: u64, width: usize) -> (r: String)
    ensures
        r@ == padded(n as nat, width as nat),
{
    let digits = decimal_of(n);
    let length = digits.as_str().unicode_len();
    let mut out = String::new();
    let mut i: usize = length;
    assert(out@ =~= Seq::new(0, |i: int| '0'));
    while i < width
        invariant
            length == decimal(n as nat).len(),
            length <= i,
            i <= width || i == length,
            out@ == Seq::new((i - length) as nat, |i: int| '0'),
        decreases width - i,
    {
        out.push('0');
        assert(out@ =~= Seq::new((i + 1 - length) as nat, |i: int| '0'));
        i = i + 1;
    }
    out.append(&digits);
    out
}

/// The UTC timestamp of a number of seconds after 1970-01-01.
pub fn iso_timestamp(secs: u64) -> (r: String)
    ensures
        is_timestamp(r@, secs),
{
    let days: u64 = secs / 86_400;
    let seconds_of_day: u64 = secs % 86_400;
    let hour: u64 = seconds_of_day / 3_600;
    let minute: u64 = (seconds_of_day % 3_600) / 60;
    let second: u64 = seconds_of_day % 60;
    let (year, month, day) = civil_from_days(days as i64);
    proof {
        if year < 0 {
            years_grow(year as int, 1970);
            months_grow(year as int, month as int, 13);
            months_grow(year as int, 1, month as int);
            assert(days_before_year(1970) == 719162);
        }
        assert(seconds_of_day % 3600 == secs % 3600);
        assert(seconds_of_day % 60 == secs % 60);
    }
    let date = cat5(&pad(year as u64, 4), "-", &pad(month as u64, 2), "-", &pad(day as u64, 2));
    let time = cat5(&cat3(&date, "T", &pad(hour, 2)), ":", &pad(minute, 2), ":", &pad(second, 2));
    let r = cat(&time, "Z");
    assert(r@ =~= timestamp_text(year as nat, month as nat, day as nat, secs));
    r
}

/// A moment has one timestamp.
pub proof fn timestamps_are_unique(a: Seq<char>, b: Seq<char>, secs: u64)
    requires
        is_timestamp(a, secs),
        is_timestamp(b, secs),
    ensures
        a == b,
{
    let (y1, m1, d1) = choose|year: int, month: int, day: int|
        {
            &&& #[trigger] is_date(year, month, day)
            &&& year >= 0
            &&& day_number(year, month, day) == secs as int / 86400
            &&& a == timestamp_text(year as nat, month as nat, day as nat, secs)
        };
    let (y2, m2, d2) = choose|year: int, month: int, day: int|
        {
            &&& #[trigger] is_date(year, month, day)
            &&& year >= 0
            &&& day_number(year, month, day) == secs as int / 86400
            &&& b == timestamp_text(year as nat, month as nat, day as nat, secs)
        };
    dates_are_known_by_their_number(y1, m1, d1, y2, m2, d2);
}

/// The days are numbered one after the other from the first of January 1970: through each
/// month, from each month to the next, and from each year to the next. A year has a day more
/// every four years, but for the hundreds that are no four hundreds.
pub proof fn days_follow_each_other(year: int, month: int, day: int)
    requires
        is_date(year, month, day),
    ensures
        day_number(1970, 1, 1) == 0,
        day < month_length(year, month) ==> is_date(year, month, day + 1) && day_number(
            year,
            month,
            day + 1,
        ) == day_number(year, month, day) + 1,
        day == month_length(year, month) && month < 12 ==> is_date(year, month + 1, 1) && day_number(
            year,
            month + 1,
            1,
        ) == day_number(year, month, day) + 1,
        day == month_length(year, month) && month == 12 ==> is_date(year + 1, 1, 1) && day_number(
            year + 1,
            1,
            1,
        ) == day_number(year, month, day) + 1,
        month_length(year, 2) == (if year % 400 == 0 || (year % 4 == 0 && year % 100 != 0) {
            29int
        } else {
            28
        }),
{
    reveal_with_fuel(days_before_month, 13);
    if month == 12 {
        assert(days_before_month(year, 12) + 31 == (if leap(year) {
            366int
        } else {
            365
        }));
        let p = year - 1;
        assert(year / 4 - p / 4 == (if year % 4 == 0 {
            1int
        } else {
            0
        }));
        assert(year / 100 - p / 100 == (if year % 100 == 0 {
            1int
        } else {
            0
        }));
        assert(year / 400 - p / 400 == (if year % 400 == 0 {
            1int
        } else {
            0
        }));
    }
}

/// A time is written as its date and, after a `T`, its hours, minutes and seconds, with a `Z` at
/// the end, in numbers that make up the seconds of the day.
pub proof fn times_are_written_in_parts(text: Seq<char>, secs: u64)
    requires
        is_timestamp(text, secs),
    ensures
        exists|year: nat, month: nat, day: nat, h: nat, m: nat, s: nat|
            {
                &&& is_date(year as int, month as int, day as int)
                &&& day_number(year as int, month as int, day as int) * 86400 + h * 3600 + m * 60 + s
                    == secs
                &&& h < 24 && m < 60 && s < 60
                &&& text == #[trigger] (padded(year, 4) + seq!['-'] + padded(month, 2) + seq!['-']
                    + padded(day, 2)) + (seq!['T'] + #[trigger] (padded(h, 2) + seq![':'] + padded(m, 2)
                    + seq![':'] + padded(s, 2)) + seq!['Z'])
            },
{
    let (year, month, day) = choose|year: int, month: int, day: int|
        {
            &&& #[trigger] is_date(year, month, day)
            &&& year >= 0
            &&& day_number(year, month, day) == secs as int / 86400
            &&& text == timestamp_text(year as nat, month as nat, day as nat, secs)
        };
    let h = (secs as nat % 86400) / 3600;
    let m = (secs as nat % 3600) / 60;
    let s = secs as nat % 60;
    reveal_strlit("-");
    reveal_strlit("T");
    reveal_strlit(":");
    reveal_strlit("Z");
    assert("-"@ =~= seq!['-']);
    assert("T"@ =~= seq!['T']);
    assert(":"@ =~= seq![':']);
    assert("Z"@ =~= seq!['Z']);
    let a = padded(year as nat, 4) + seq!['-'] + padded(month as nat, 2) + seq!['-'] + padded(
        day as nat,
        2,
    );
    let b = padded(h, 2) + seq![':'] + padded(m, 2) + seq![':'] + padded(s, 2);
    assert(text =~= a + (seq!['T'] + b + seq!['Z']));
    assert(day_number(year, month, day) * 86400 + h * 3600 + m * 60 + s == secs);
}

/// A number is written with at least the given number of digits, and with zeros before it.
pub proof fn numbers_are_padded_with_zeros(n: nat, width: nat, i: int)
    ensures
        padded(n, width).len() >= width,
        padded(n, width).len() >= decimal(n).len(),
        padded(n, width).skip(padded(n, width).len() - decimal(n).len()) == decimal(n),
        0 <= i < padded(n, width).len() - decimal(n).len() ==> padded(n, width)[i] == '0',
        padded(n, width).len() > width ==> padded(n, width) == decimal(n),
{
    let p = padded(n, width);
    assert(p.skip(p.len() - decimal(n).len()) =~= decimal(n));
    if p.len() > width {
        assert(p =~= decimal(n));
    }
}

} // verus!
