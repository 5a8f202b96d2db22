//! Dates and times of day in UTC, from seconds since 1970.

use crate::scan::{lemma_less_behind, lemma_less_continued, text_less};
use crate::text::{dec, decimal, digit, pad_left, padded};
use vstd::prelude::*;
use vstd::string::*;

verus! {

/// The leap years of the Gregorian calendar.
pub open spec fn leap_year(year: int) -> bool {
    (year % 4 == 0 && year % 100 != 0) || year % 400 == 0
}

/// The number of days of a year.
pub open spec fn year_days(year: int) -> int {
    if leap_year(year) {
        366
    } else {
        365
    }
}

/// The number of days from the start of 1970 to the start of a year.
pub open spec fn year_start(year: int) -> int
    decreases year - 1970,
{
    if year <= 1970 {
        0
    } else {
        year_start(year - 1) + year_days(year - 1)
    }
}

/// The number of days of a month.
pub open spec fn month_days(year: int, month: int) -> int {
    if month == 2 {
        if leap_year(year) {
            29
        } else {
            28
        }
    } else if month == 4 || month == 6 || month == 9 || month == 11 {
        30
    } else {
        31
    }
}

/// The number of days from the start of a year to the start of a month.
pub open spec fn month_start(year: int, month: int) -> int
    decreases month,
{
    if month <= 1 {
        0
    } else {
        month_start(year, month - 1) + month_days(year, month - 1)
    }
}

/// Whether there is such a date.
pub open spec fn valid_date(year: int, month: int, day: int) -> bool {
    &&& year >= 1970
    &&& 1 <= month <= 12
    &&& 1 <= day <= month_days(year, month)
}

/// The number of days from the first of January 1970 to a date.
pub open spec fn day_number(year: int, month: int, day: int) -> int {
    year_start(year) + month_start(year, month) + day - 1
}

pub fn is_leap(year: u64) -> (b: bool)
    ensures
        b == leap_year(year as int),
{
    (year % 4 == 0 && year % 100 != 0) || year % 400 == 0
}

proof fn lemma_year_start(year: int)
    requires
        year >= 1970,
    ensures
        year_start(year) >= 365 * (year - 1970),
    decreases year,
{
    if year > 1970 {
        lemma_year_start(year - 1);
    }
}

proof fn lemma_months_fill_year(year: int)
    ensures
        month_start(year, 13) == year_days(year),
{
    reveal_with_fuel(month_start, 14);
}

/// The date of a day, counted from the first of January 1970.
pub fn days_to_ymd(days: u64) -> (r: (u64, u32, u32))
    ensures
        valid_date(r.0 as int, r.1 as int, r.2 as int),
        day_number(r.0 as int, r.1 as int, r.2 as int) == days,
{
    let mut rest: u64 = days;
    let mut year: u64 = 1970;
    loop
        invariant_except_break
            year >= 1970,
            year_start(year as int) + rest == days,
        ensures
            year >= 1970,
            year_start(year as int) + rest == days,
            rest < year_days(year as int),
        decreases rest,
    {
        let in_year: u64 = if is_leap(year) {
            366
        } else {
            365
        };
        if rest < in_year {
            break;
        }
        proof {
            lemma_year_start(year as int);
        }
        rest -= in_year;
        year += 1;
    }
    let leap = is_leap(year);
    let mut month: u32 = 1;
    proof {
        lemma_months_fill_year(year as int);
    }
    loop
        invariant_except_break
            1 <= month <= 12,
            leap == leap_year(year as int),
            month_start(year as int, 13) == year_days(year as int),
            year >= 1970,
            year_start(year as int) + month_start(year as int, month as int) + rest == days,
            rest < year_days(year as int) - month_start(year as int, month as int),
        ensures
            1 <= month <= 12,
            year_start(year as int) + month_start(year as int, month as int) + rest == days,
            rest < month_days(year as int, month as int),
        decreases 12 - month,
    {
        let in_month: u64 = if month == 2 {
            if leap {
                29
            } else {
                28
            }
        } else if month == 4 || month == 6 || month == 9 || month == 11 {
            30
        } else {
            31
        };
        if rest < in_month {
            break;
        }
        assert(month_start(year as int, month + 1) == month_start(year as int, month as int)
            + in_month);
        rest -= in_month;
        month += 1;
    }
    (year, month, rest as u32 + 1)
}

/// A date in the notation `YYYY-MM-DD`.
pub open spec fn date_text(year: int, month: int, day: int) -> Seq<char> {
    padded(dec(year as nat), 4, '0') + "-"@ + padded(dec(month as nat), 2, '0') + "-"@ + padded(
        dec(day as nat),
        2,
        '0',
    )
}

/// The day that lies `back` days before a time, the first one at the earliest.
pub open spec fn day_before(secs: int, back: int) -> int {
    if secs / 86400 >= back {
        secs / 86400 - back
    } else {
        0
    }
}

/// Whether a text is the date of a day.
pub open spec fn is_date_of(text: Seq<char>, days: int) -> bool {
    exists|y: int, m: int, d: int| #[trigger]
        valid_date(y, m, d) && day_number(y, m, d) == days && text == date_text(y, m, d)
}

/// The date `days_back` days before a time in seconds since 1970.
pub fn date_at(secs: u64, days_back: u64) -> (r: String)
    ensures
        is_date_of(r@, day_before(secs as int, days_back as int)),
{
    let total: u64 = secs / 86400;
    let days: u64 = if total >= days_back {
        total - days_back
    } else {
        0
    };
    let (year, month, day) = days_to_ymd(days);
    let mut r = pad_left(decimal(year).as_str(), 4, '0');
    r.append("-");
    r.append(pad_left(decimal(month as u64).as_str(), 2, '0').as_str());
    r.append("-");
    r.append(pad_left(decimal(day as u64).as_str(), 2, '0').as_str());
    assert(valid_date(year as int, month as int, day as int));
    r
}

/// The time of day in the notation `HH:MM UTC`.
pub open spec fn time_text(secs: int) -> Seq<char> {
    padded(dec(((secs % 86400) / 3600) as nat), 2, '0') + ":"@ + padded(
        dec(((secs % 3600) / 60) as nat),
        2,
        '0',
    ) + " UTC"@
}

/// The time of day at a time in seconds since 1970.
pub fn time_at(secs: u64) -> (r: String)
    ensures
        r@ == time_text(secs as int),
{
    let hours: u64 = (secs % 86400) / 3600;
    let minutes: u64 = (secs % 3600) / 60;
    let mut r = pad_left(decimal(hours).as_str(), 2, '0');
    r.append(":");
    r.append(pad_left(decimal(minutes).as_str(), 2, '0').as_str());
    r.append(" UTC");
    r
}

/// `SystemTime::now`, in whole seconds since 1970. Nothing is claimed of what
/// the clock shows.
#[verifier::external_body]
fn unix_seconds() -> u64 {
    std::time::SystemTime::now()
        .duration_since(std::time::UNIX_EPOCH)
        .unwrap_or_default()
        .as_secs()
}

/// The date `days_back` days before the time that the clock shows.
pub fn date_string(days_back: u64) -> (r: String)
    ensures
        exists|secs: u64| #[trigger]
            is_date_of(r@, day_before(secs as int, days_back as int)),
{
    date_at(unix_seconds(), days_back)
}

/// The time of day that the clock shows.
pub fn current_time_string() -> (r: String)
    ensures
        exists|secs: u64| r@ == #[trigger] time_text(secs as int),
{
    time_at(unix_seconds())
}

proof fn lemma_month_start_bounds(year: int, a: int, b: int)
    requires
        1 <= a <= b <= 13,
    ensures
        a < b ==> month_start(year, a) + month_days(year, a) <= month_start(year, b),
        month_start(year, a) <= month_start(year, b),
    decreases b - a,
{
    if a < b {
        lemma_month_start_bounds(year, a, b - 1);
    }
}

proof fn lemma_year_start_bounds(a: int, b: int)
    requires
        1970 <= a < b,
    ensures
        year_start(a) + year_days(a) <= year_start(b),
    decreases b - a,
{
    if a < b - 1 {
        lemma_year_start_bounds(a, b - 1);
    }
}

/// A date lies within its year.
proof fn lemma_date_in_year(y: int, m: int, d: int)
    requires
        valid_date(y, m, d),
    ensures
        year_start(y) <= day_number(y, m, d) < year_start(y) + year_days(y),
{
    lemma_month_start_bounds(y, 1, m);
    lemma_month_start_bounds(y, m, 13);
    lemma_months_fill_year(y);
    assert(month_start(y, m + 1) == month_start(y, m) + month_days(y, m));
    lemma_month_start_bounds(y, m + 1, 13);
}

/// Every day has exactly one date.
pub proof fn law_one_date_per_day(y1: int, m1: int, d1: int, y2: int, m2: int, d2: int)
    requires
        valid_date(y1, m1, d1),
        valid_date(y2, m2, d2),
        day_number(y1, m1, d1) == day_number(y2, m2, d2),
    ensures
        y1 == y2 && m1 == m2 && d1 == d2,
{
    lemma_date_in_year(y1, m1, d1);
    lemma_date_in_year(y2, m2, d2);
    if y1 < y2 {
        lemma_year_start_bounds(y1, y2);
    } else if y2 < y1 {
        lemma_year_start_bounds(y2, y1);
    }
    if m1 < m2 {
        lemma_month_start_bounds(y1, m1, m2);
    } else if m2 < m1 {
        lemma_month_start_bounds(y1, m2, m1);
    }
}

proof fn lemma_digit_order(a: nat, b: nat)
    requires
        a < b < 10,
    ensures
        text_less(seq![digit(a)], seq![digit(b)]),
{
}

/// A number below 100 with two digits.
proof fn lemma_two_digits(n: nat)
    requires
        n < 100,
    ensures
        padded(dec(n), 2, '0') == seq![digit(n / 10)] + seq![digit(n % 10)],
{
    reveal_with_fuel(dec, 3);
    assert(digit(0) == '0');
    assert(padded(dec(n), 2, '0') =~= seq![digit(n / 10)] + seq![digit(n % 10)]);
}

/// A number below 10000 with four digits.
proof fn lemma_four_digits(n: nat)
    requires
        n < 10000,
    ensures
        padded(dec(n), 4, '0') == padded(dec(n / 100), 2, '0') + padded(dec(n % 100), 2, '0'),
{
    reveal_with_fuel(dec, 5);
    lemma_two_digits(n / 100);
    lemma_two_digits(n % 100);
    assert(digit(0) == '0');
    assert(n / 10 / 10 == n / 100);
    assert(n / 10 % 10 == n % 100 / 10);
    assert(n % 100 % 10 == n % 10);
    assert(padded(dec(n), 4, '0') =~= padded(dec(n / 100), 2, '0') + padded(
        dec(n % 100),
        2,
        '0',
    ));
}

proof fn lemma_two_digit_order(a: nat, b: nat)
    requires
        a < b < 100,
    ensures
        text_less(padded(dec(a), 2, '0'), padded(dec(b), 2, '0')),
{
    lemma_two_digits(a);
    lemma_two_digits(b);
    if a / 10 < b / 10 {
        lemma_digit_order(a / 10, b / 10);
        lemma_less_continued(
            seq![digit(a / 10)],
            seq![digit(b / 10)],
            seq![digit(a % 10)],
            seq![digit(b % 10)],
        );
    } else {
        lemma_digit_order(a % 10, b % 10);
        lemma_less_behind(seq![digit(a / 10)], seq![digit(a % 10)], seq![digit(b % 10)]);
    }
}

proof fn lemma_four_digit_order(a: nat, b: nat)
    requires
        a < b < 10000,
    ensures
        text_less(padded(dec(a), 4, '0'), padded(dec(b), 4, '0')),
{
    let (a1, a2) = (padded(dec(a / 100), 2, '0'), padded(dec(a % 100), 2, '0'));
    let (b1, b2) = (padded(dec(b / 100), 2, '0'), padded(dec(b % 100), 2, '0'));
    lemma_four_digits(a);
    lemma_four_digits(b);
    lemma_two_digits(a / 100);
    lemma_two_digits(b / 100);
    if a / 100 < b / 100 {
        lemma_two_digit_order(a / 100, b / 100);
        lemma_less_continued(a1, b1, a2, b2);
    } else {
        lemma_two_digit_order(a % 100, b % 100);
        lemma_less_behind(a1, a2, b2);
    }
}

/// The order of dates is that of their parts.
proof fn lemma_earlier_parts(y1: int, m1: int, d1: int, y2: int, m2: int, d2: int)
    requires
        valid_date(y1, m1, d1),
        valid_date(y2, m2, d2),
        day_number(y1, m1, d1) < day_number(y2, m2, d2),
    ensures
        y1 < y2 || (y1 == y2 && (m1 < m2 || (m1 == m2 && d1 < d2))),
{
    lemma_date_in_year(y1, m1, d1);
    lemma_date_in_year(y2, m2, d2);
    if y2 < y1 {
        lemma_year_start_bounds(y2, y1);
    } else if y1 == y2 && m2 < m1 {
        lemma_month_start_bounds(y1, m2, m1);
    }
}

proof fn lemma_date_order(y1: int, m1: int, d1: int, y2: int, m2: int, d2: int)
    requires
        valid_date(y1, m1, d1),
        valid_date(y2, m2, d2),
        y1 < 10000,
        y2 < 10000,
        y1 < y2 || (y1 == y2 && (m1 < m2 || (m1 == m2 && d1 < d2))),
    ensures
        text_less(date_text(y1, m1, d1), date_text(y2, m2, d2)),
        date_text(y1, m1, d1).len() == 10,
        date_text(y2, m2, d2).len() == 10,
{
    reveal_strlit("-");
    let ya = padded(dec(y1 as nat), 4, '0');
    let yb = padded(dec(y2 as nat), 4, '0');
    let ma = padded(dec(m1 as nat), 2, '0');
    let mb = padded(dec(m2 as nat), 2, '0');
    let da = padded(dec(d1 as nat), 2, '0');
    let db = padded(dec(d2 as nat), 2, '0');
    lemma_date_parts(y1 as nat, m1 as nat, d1 as nat);
    lemma_date_parts(y2 as nat, m2 as nat, d2 as nat);
    if y1 < y2 {
        lemma_four_digit_order(y1 as nat, y2 as nat);
        lemma_less_continued(ya, yb, "-"@ + ma + "-"@ + da, "-"@ + mb + "-"@ + db);
    } else if m1 < m2 {
        lemma_two_digit_order(m1 as nat, m2 as nat);
        lemma_less_continued(ma, mb, "-"@ + da, "-"@ + db);
        lemma_less_behind(ya + "-"@, ma + ("-"@ + da), mb + ("-"@ + db));
    } else {
        lemma_two_digit_order(d1 as nat, d2 as nat);
        lemma_less_behind(ya + "-"@ + ma + "-"@, da, db);
    }
    let (a, b) = (date_text(y1, m1, d1), date_text(y2, m2, d2));
    assert(a =~= ya + ("-"@ + ma + "-"@ + da));
    assert(b =~= yb + ("-"@ + mb + "-"@ + db));
    assert(a =~= ya + "-"@ + (ma + ("-"@ + da)));
    assert(b =~= yb + "-"@ + (mb + ("-"@ + db)));
}

/// The parts of a date have four, two and two digits.
proof fn lemma_date_parts(y: nat, m: nat, d: nat)
    requires
        y < 10000,
        m < 100,
        d < 100,
    ensures
        padded(dec(y), 4, '0').len() == 4,
        padded(dec(m), 2, '0').len() == 2,
        padded(dec(d), 2, '0').len() == 2,
{
    lemma_four_digits(y);
    lemma_two_digits(y / 100);
    lemma_two_digits(y % 100);
    lemma_two_digits(m);
    lemma_two_digits(d);
}

/// Up to the year 9999 the date of an earlier day sorts before that of a later
/// one, and both have ten characters.
pub proof fn law_dates_sort_by_day(earlier: Seq<char>, n: int, later: Seq<char>, k: int)
    requires
        is_date_of(earlier, n),
        is_date_of(later, k),
        n < k < year_start(10000),
    ensures
        text_less(earlier, later),
        earlier.len() == 10,
        later.len() == 10,
{
    let (y1, m1, d1) = choose|y: int, m: int, d: int| #[trigger]
        valid_date(y, m, d) && day_number(y, m, d) == n && earlier == date_text(y, m, d);
    let (y2, m2, d2) = choose|y: int, m: int, d: int| #[trigger]
        valid_date(y, m, d) && day_number(y, m, d) == k && later == date_text(y, m, d);
    lemma_date_in_year(y1, m1, d1);
    lemma_date_in_year(y2, m2, d2);
    if y2 >= 10000 {
        if y2 > 10000 {
            lemma_year_start_bounds(10000, y2);
        }
        assert(false);
    }
    lemma_earlier_parts(y1, m1, d1, y2, m2, d2);
    lemma_date_order(y1, m1, d1, y2, m2, d2);
}

/// Two readings of the clock on the same day give yesterday's date before
/// today's, up to the year 9999. Only on the first day are the two the same.
pub proof fn law_yesterday_comes_before_today(
    yesterday: Seq<char>,
    now: int,
    today: Seq<char>,
    later: int,
)
    requires
        0 <= now,
        0 <= later,
        now / 86400 == later / 86400 < year_start(10000),
        is_date_of(yesterday, day_before(now, 1)),
        is_date_of(today, day_before(later, 0)),
    ensures
        now / 86400 >= 1 ==> text_less(yesterday, today) && yesterday.len() == 10,
        now / 86400 == 0 ==> yesterday == today,
{
    if now / 86400 >= 1 {
        law_dates_sort_by_day(yesterday, now / 86400 - 1, today, now / 86400);
    } else {
        let (y1, m1, d1) = choose|y: int, m: int, d: int| #[trigger]
            valid_date(y, m, d) && day_number(y, m, d) == 0 && yesterday == date_text(y, m, d);
        let (y2, m2, d2) = choose|y: int, m: int, d: int| #[trigger]
            valid_date(y, m, d) && day_number(y, m, d) == 0 && today == date_text(y, m, d);
        law_one_date_per_day(y1, m1, d1, y2, m2, d2);
    }
}

/// Every fourth year is a leap year but the hundredths, and of these every
/// fourth is.
pub proof fn law_leap_years(k: int)
    ensures
        !leap_year(4 * k + 1),
        !leap_year(4 * k + 2),
        !leap_year(4 * k + 3),
        leap_year(400 * k),
        !leap_year(400 * k + 100),
        !leap_year(400 * k + 200),
        !leap_year(400 * k + 300),
        k % 25 != 0 ==> leap_year(4 * k),
{
}

/// Days follow one another within a month, from month to month and from year to
/// year.
pub proof fn law_days_follow_one_another(year: int, month: int, day: int)
    requires
        valid_date(year, month, day),
    ensures
        day < month_days(year, month) ==> day_number(year, month, day + 1) == day_number(
            year,
            month,
            day,
        ) + 1,
        day == month_days(year, month) && month < 12 ==> day_number(year, month + 1, 1)
            == day_number(year, month, day) + 1,
        day == month_days(year, month) && month == 12 ==> day_number(year + 1, 1, 1) == day_number(
            year,
            month,
            day,
        ) + 1,
        day_number(1970, 1, 1) == 0,
{
    lemma_months_fill_year(year);
    reveal_with_fuel(month_start, 14);
}

/// A day begins at its midnight and ends before the next one; days are counted
/// back from there, but not beyond the first.
pub proof fn law_days_are_counted_back(day: int, secs: int, back: int)
    requires
        0 <= day,
        86400 * day <= secs < 86400 * (day + 1),
        0 <= back,
    ensures
        day_before(secs, back) == (if day >= back {
            day - back
        } else {
            0
        }),
{
}

/// The time of day is its hour and its minute, and the same every day.
pub proof fn law_time_of_day(day: int, hour: int, minute: int, second: int)
    requires
        0 <= day,
        0 <= hour < 24,
        0 <= minute < 60,
        0 <= second < 60,
    ensures
        time_text(86400 * day + 3600 * hour + 60 * minute + second) == padded(
            dec(hour as nat),
            2,
            '0',
        ) + ":"@ + padded(dec(minute as nat), 2, '0') + " UTC"@,
{
    let secs = 86400 * day + 3600 * hour + 60 * minute + second;
    assert(secs % 86400 == 3600 * hour + 60 * minute + second);
    assert(secs % 3600 == 60 * minute + second);
}

/// A date is its year, its month and its day, parted by dashes.
pub proof fn law_dates_are_written_year_first(year: int, month: int, day: int)
    ensures
        date_text(year, month, day) == padded(dec(year as nat), 4, '0') + "-"@ + padded(
            dec(month as nat),
            2,
            '0',
        ) + "-"@ + padded(dec(day as nat), 2, '0'),
{
}

/// Dates begin with the first of January 1970; months have their days, February
/// one more in a leap year.
pub proof fn law_valid_dates(year: int, month: int, day: int)
    ensures
        valid_date(1970, 1, 1),
        valid_date(year, month, day) ==> year >= 1970 && 1 <= month <= 12 && 1 <= day <= 31,
        year >= 1970 ==> (valid_date(year, 2, 29) <==> leap_year(year)),
        year >= 1970 ==> valid_date(year, 2, 28) && !valid_date(year, 2, 30),
        year >= 1970 && (month == 4 || month == 6 || month == 9 || month == 11) ==> valid_date(
            year,
            month,
            30,
        ) && !valid_date(year, month, 31),
        year >= 1970 && (month == 1 || month == 3 || month == 5 || month == 7 || month == 8 || month
            == 10 || month == 12) ==> valid_date(year, month, 31),
{
}

} // verus!
