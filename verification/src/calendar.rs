//! Points in time, and how a directory listing writes them.

use crate::text;
use vstd::prelude::*;

verus! {

/// A point in time: whole seconds since the start of 1970 in UTC, and the nanoseconds beyond them.
#[derive(Clone, Copy, Debug, PartialEq, Eq, Structural)]
pub struct Timestamp {
    pub secs: i64,
    pub nanos: u32,
}

/// A day of the Gregorian calendar.
pub struct Date {
    pub year: int,
    pub month: int,
    pub day: int,
}

/// Every fourth year is a leap year, but of the full centuries only every fourth.
pub open spec fn is_leap(year: int) -> bool {
    year % 4 == 0 && (year % 100 != 0 || year % 400 == 0)
}

/// How many days a year has.
pub open spec fn days_in_year(year: int) -> int {
    if is_leap(year) {
        366
    } else {
        365
    }
}

/// How many days a month has.
pub open spec fn days_in_month(year: int, month: int) -> int {
    if month == 2 {
        if is_leap(year) {
            29
        } else {
            28
        }
    } else if month == 4 || month == 6 || month == 9 || month == 11 {
        30
    } else {
        31
    }
}

/// How many days lie between the start of 1970 and the start of `year`.
pub open spec fn days_before_year(year: int) -> int
    decreases year,
{
    if year <= 1970 {
        0
    } else {
        days_before_year(year - 1) + days_in_year(year - 1)
    }
}

/// How many days of `year` lie before `month`.
pub open spec fn days_before_month(year: int, month: int) -> int
    decreases month,
{
    if month <= 1 {
        0
    } else {
        days_before_month(year, month - 1) + days_in_month(year, month - 1)
    }
}

impl Date {
    /// The day exists, and is not before 1970.
    pub open spec fn valid(self) -> bool {
        &&& self.year >= 1970
        &&& 1 <= self.month <= 12
        &&& 1 <= self.day <= days_in_month(self.year, self.month)
    }

    /// How many days lie between the first day of 1970 and this one.
    pub open spec fn day_number(self) -> int {
        days_before_year(self.year) + days_before_month(self.year, self.month) + self.day - 1
    }
}

/// The day that follows the first day of 1970 by `days` days.
pub open spec fn date_of(days: int) -> Date {
    choose|date: Date| date.valid() && #[trigger] date.day_number() == days
}

/// The time of day and the date in UTC, `secs` seconds after the start of 1970, as ISO 8601
/// writes them: `2024-02-18T15:04:05Z`.
pub open spec fn iso8601(secs: nat) -> Seq<char> {
    let date = date_of((secs / 86400) as int);
    let rest = secs % 86400;
    text::padded(date.year as nat, 4) + seq!['-'] + text::padded(date.month as nat, 2) + seq!['-'] + text::padded(
        date.day as nat,
        2,
    ) + seq!['T'] + text::padded(rest / 3600, 2) + seq![':'] + text::padded(rest % 3600 / 60, 2) + seq![':']
        + text::padded(rest % 60, 2) + seq!['Z']
}

proof fn lemma_days_before_year(year: int)
    requires
        year >= 1970,
    ensures
        days_before_year(year) == 365 * (year - 1970) + (year - 1969) / 4 - (year - 1901) / 100 + (
        year - 1601) / 400,
    decreases year,
{
    if year > 1970 {
        lemma_days_before_year(year - 1);
    }
}

proof fn lemma_years_in_order(a: int, b: int)
    requires
        1970 <= a < b,
    ensures
        days_before_year(a) + days_in_year(a) <= days_before_year(b),
    decreases b - a,
{
    if a + 1 < b {
        lemma_years_in_order(a, b - 1);
    }
}

proof fn lemma_months_in_order(year: int, a: int, b: int)
    requires
        1 <= a < b,
    ensures
        days_before_month(year, a) + days_in_month(year, a) <= days_before_month(year, b),
    decreases b - a,
{
    if a + 1 < b {
        lemma_months_in_order(year, a, b - 1);
    }
}

proof fn lemma_months_fill_year(year: int)
    ensures
        days_before_month(year, 12) + 31 == days_in_year(year),
{
    reveal_with_fuel(days_before_month, 13);
}

proof fn lemma_months_start_late(year: int, month: int)
    ensures
        days_before_month(year, month) >= 0,
    decreases month,
{
    if month > 1 {
        lemma_months_start_late(year, month - 1);
    }
}

proof fn lemma_day_within_year(date: Date)
    requires
        date.valid(),
    ensures
        days_before_year(date.year) <= date.day_number() < days_before_year(date.year)
            + days_in_year(date.year),
{
    lemma_months_fill_year(date.year);
    lemma_months_start_late(date.year, date.month);
    if date.month < 12 {
        lemma_months_in_order(date.year, date.month, 12);
    }
}

/// No two days have the same number.
pub proof fn day_numbers_differ(a: Date, b: Date)
    requires
        a.valid(),
        b.valid(),
        a.day_number() == b.day_number(),
    ensures
        a == b,
{
    lemma_day_within_year(a);
    lemma_day_within_year(b);
    if a.year < b.year {
        lemma_years_in_order(a.year, b.year);
    } else if b.year < a.year {
        lemma_years_in_order(b.year, a.year);
    } else if a.month < b.month {
        lemma_months_in_order(a.year, a.month, b.month);
    } else if b.month < a.month {
        lemma_months_in_order(a.year, b.month, a.month);
    }
}

proof fn lemma_date_exists(days: int)
    requires
        days >= 0,
    ensures
        date_of(days).valid(),
        date_of(days).day_number() == days,
    decreases days,
{
    if days == 0 {
        let date = Date { year: 1970, month: 1, day: 1 };
        assert(date.valid() && date.day_number() == 0);
    } else {
        lemma_date_exists(days - 1);
        let before = date_of(days - 1);
        let date = if before.day < days_in_month(before.year, before.month) {
            Date { year: before.year, month: before.month, day: before.day + 1 }
        } else if before.month < 12 {
            Date { year: before.year, month: before.month + 1, day: 1 }
        } else {
            lemma_months_fill_year(before.year);
            Date { year: before.year + 1, month: 1, day: 1 }
        };
        assert(date.valid() && date.day_number() == days);
    }
}

/// The point in time that ISO 8601 writes as `text`, in seconds since the start of 1970, if it is
/// one that can be counted in 64 bits.
pub open spec fn seconds_of(text: Seq<char>) -> Option<u64> {
    if exists|secs: u64| iso8601(secs as nat) == text {
        Some(choose|secs: u64| iso8601(secs as nat) == text)
    } else {
        None
    }
}

/// The numbers in a text like `2024-02-18T15:04:05Z`: year, month, day, hour, minute, second.
spec fn fields_of(text: Seq<char>) -> Seq<Option<u64>> {
    let n = text.len() as int;
    seq![
        text::u64_of(text.subrange(0, n - 16)),
        text::u64_of(text.subrange(n - 15, n - 13)),
        text::u64_of(text.subrange(n - 12, n - 10)),
        text::u64_of(text.subrange(n - 9, n - 7)),
        text::u64_of(text.subrange(n - 6, n - 4)),
        text::u64_of(text.subrange(n - 3, n - 1)),
    ]
}

#[verifier::rlimit(40)]
proof fn lemma_fields(secs: u64)
    ensures
        ({
            let text = iso8601(secs as nat);
            let date = date_of(secs as int / 86400);
            let rest = secs % 86400;
            &&& text.len() >= 20
            &&& date.valid()
            &&& date.day_number() == secs / 86400
            &&& date.year <= u64::MAX
            &&& fields_of(text) == seq![
                Some(date.year as u64),
                Some(date.month as u64),
                Some(date.day as u64),
                Some((rest / 3600) as u64),
                Some((rest % 3600 / 60) as u64),
                Some((rest % 60) as u64),
            ]
        }),
{
    let text = iso8601(secs as nat);
    let n = text.len() as int;
    let days = secs as int / 86400;
    let date = date_of(days);
    let rest = secs % 86400;
    lemma_date_exists(days);
    lemma_day_within_year(date);
    lemma_days_before_year(date.year);
    assert(days_in_month(date.year, date.month) <= 31);
    let year = text::padded(date.year as nat, 4);
    let month = text::padded(date.month as nat, 2);
    let day = text::padded(date.day as nat, 2);
    let hour = text::padded(rest as nat / 3600, 2);
    let minute = text::padded(rest as nat % 3600 / 60, 2);
    let second = text::padded(rest as nat % 60, 2);
    text::padded_reads_back(date.year as u64, 4);
    text::padded_reads_back(date.month as u64, 2);
    text::padded_reads_back(date.day as u64, 2);
    text::padded_reads_back((rest / 3600) as u64, 2);
    text::padded_reads_back((rest % 3600 / 60) as u64, 2);
    text::padded_reads_back((rest % 60) as u64, 2);
    assert(text =~= year + seq!['-'] + month + seq!['-'] + day + seq!['T'] + hour + seq![':']
        + minute + seq![':'] + second + seq!['Z']);
    assert(n == year.len() + 16);
    assert(text.subrange(0, n - 16) =~= year);
    assert(text.subrange(n - 15, n - 13) =~= month);
    assert(text.subrange(n - 12, n - 10) =~= day);
    assert(text.subrange(n - 9, n - 7) =~= hour);
    assert(text.subrange(n - 6, n - 4) =~= minute);
    assert(text.subrange(n - 3, n - 1) =~= second);
}

proof fn lemma_read(text: Seq<char>, secs: u64)
    requires
        iso8601(secs as nat) == text,
    ensures
        text.len() >= 20,
        ({
            let fields = fields_of(text);
            &&& forall|i: int| 0 <= i < 6 ==> (#[trigger] fields[i]) is Some
            &&& fields[0]->0 >= 1970
            &&& 1 <= fields[1]->0 <= 12
            &&& fields[2]->0 >= 1
            &&& secs == (days_before_year(fields[0]->0 as int) + days_before_month(
                fields[0]->0 as int,
                fields[1]->0 as int,
            ) + fields[2]->0 - 1) * 86400 + fields[3]->0 * 3600 + fields[4]->0 * 60 + fields[5]->0
        }),
{
    lemma_fields(secs);
    let fields = fields_of(text);
    let date = date_of(secs as int / 86400);
    let rest = secs % 86400;
    assert(fields[0] == Some(date.year as u64));
    assert(fields[1] == Some(date.month as u64));
    assert(fields[2] == Some(date.day as u64));
    assert(fields[3] == Some((rest / 3600) as u64));
    assert(fields[4] == Some((rest % 3600 / 60) as u64));
    assert(fields[5] == Some((rest % 60) as u64));
    assert(secs == (secs / 86400) * 86400 + rest);
}

/// A point in time reads back as it was written.
pub proof fn iso8601_reads_back(secs: u64)
    ensures
        seconds_of(iso8601(secs as nat)) == Some(secs),
{
    let text = iso8601(secs as nat);
    let other = choose|other: u64| iso8601(other as nat) == text;
    assert(iso8601(other as nat) == text);
    lemma_read(text, secs);
    lemma_read(text, other);
}

fn leap(year: u64) -> (r: bool)
    ensures
        r == is_leap(year as int),
{
    year % 4 == 0 && (year % 100 != 0 || year % 400 == 0)
}

fn month_length(year: u64, month: u64) -> (days: u64)
    ensures
        days == days_in_month(year as int, month as int),
{
    if month == 2 {
        if leap(year) {
            29
        } else {
            28
        }
    } else if month == 4 || month == 6 || month == 9 || month == 11 {
        30
    } else {
        31
    }
}

/// The year, the month and the day, `days` days after the first day of 1970.
pub fn date_of_day(days: u64) -> (date: (u64, u64, u64))
    requires
        days <= u64::MAX / 86400,
    ensures
        date_of(days as int) == (Date {
            year: date.0 as int,
            month: date.1 as int,
            day: date.2 as int,
        }),
        date_of(days as int).valid(),
        date_of(days as int).day_number() == days,
{
    // The calendar repeats after 400 years.
    let cycles: u64 = days / 146097;
    let mut year: u64 = 1970 + 400 * cycles;
    let mut rest: u64 = days % 146097;
    let ghost first = year as int;
    proof {
        lemma_days_before_year(first);
        assert(days_before_year(first) == 146097 * cycles);
    }
    loop
        invariant
            days <= u64::MAX / 86400,
            first <= u64::MAX / 8,
            rest <= 146097,
            1970 <= year,
            year + rest <= first + 146097,
            days_before_year(year as int) + rest == days,
        ensures
            days_before_year(year as int) + rest == days,
            rest < days_in_year(year as int),
            1970 <= year,
        decreases rest,
    {
        let length: u64 = if leap(year) {
            366
        } else {
            365
        };
        if rest < length {
            break;
        }
        rest = rest - length;
        year = year + 1;
    }
    let mut month: u64 = 1;
    let ghost in_year = rest as int;
    while month < 12 && rest >= month_length(year, month)
        invariant
            1 <= month <= 12,
            days_before_month(year as int, month as int) + rest == in_year,
            in_year < days_in_year(year as int),
        decreases 12 - month,
    {
        rest = rest - month_length(year, month);
        month = month + 1;
    }
    proof {
        lemma_months_fill_year(year as int);
        let date = Date { year: year as int, month: month as int, day: rest as int + 1 };
        assert(date.valid());
        assert(date.day_number() == days);
        day_numbers_differ(date, date_of(days as int));
    }
    (year, month, rest + 1)
}

/// Writes a point in time as ISO 8601 does.
pub fn iso8601_text(secs: u64) -> (text: String)
    ensures
        text@ == iso8601(secs as nat),
{
    let (year, month, day) = date_of_day(secs / 86400);
    let rest: u64 = secs % 86400;
    proof {
        reveal_strlit("-");
        reveal_strlit("T");
        reveal_strlit(":");
        reveal_strlit("Z");
        assert("-"@ =~= seq!['-']);
        assert("T"@ =~= seq!['T']);
        assert(":"@ =~= seq![':']);
        assert("Z"@ =~= seq!['Z']);
    }
    let mut text: String = text::padded_text(year, 4);
    text.append("-");
    text.append(text::padded_text(month, 2).as_str());
    text.append("-");
    text.append(text::padded_text(day, 2).as_str());
    text.append("T");
    text.append(text::padded_text(rest / 3600, 2).as_str());
    text.append(":");
    text.append(text::padded_text(rest % 3600 / 60, 2).as_str());
    text.append(":");
    text.append(text::padded_text(rest % 60, 2).as_str());
    text.append("Z");
    text
}

/// How many days lie between the first day of 1970 and a day.
fn day_count(year: u64, month: u64, day: u64) -> (days: u128)
    requires
        year >= 1970,
        1 <= month <= 12,
        day >= 1,
    ensures
        days == days_before_year(year as int) + days_before_month(year as int, month as int) + day
            - 1,
        days <= 400 * year + day + 366,
{
    proof {
        lemma_days_before_year(year as int);
    }
    let y: u128 = year as u128;
    let mut days: u128 = 365 * (y - 1970) + (y - 1969) / 4 + (y - 1601) / 400 - (y - 1901) / 100;
    let ghost start = days as int;
    let mut m: u64 = 1;
    while m < month
        invariant
            1 <= m <= month <= 12,
            days == start + days_before_month(year as int, m as int),
            days <= start + 31 * (m - 1),
            start <= 366 * year,
        decreases month - m,
    {
        days = days + month_length(year, m) as u128;
        m = m + 1;
    }
    days + day as u128 - 1
}

/// Reads a point in time as ISO 8601 writes it.
#[verifier::rlimit(40)]
pub fn parse_iso8601(text: &str) -> (secs: Option<u64>)
    ensures
        secs == seconds_of(text@),
{
    let n: usize = text.unicode_len();
    let ghost meant = seconds_of(text@);
    proof {
        if meant is Some {
            lemma_read(text@, meant->0);
        }
    }
    if n < 20 {
        return None;
    }
    let year: Option<u64> = text::parse_u64(text.substring_char(0, n - 16));
    let month: Option<u64> = text::parse_u64(text.substring_char(n - 15, n - 13));
    let day: Option<u64> = text::parse_u64(text.substring_char(n - 12, n - 10));
    let hour: Option<u64> = text::parse_u64(text.substring_char(n - 9, n - 7));
    let minute: Option<u64> = text::parse_u64(text.substring_char(n - 6, n - 4));
    let second: Option<u64> = text::parse_u64(text.substring_char(n - 3, n - 1));
    proof {
        let fields = fields_of(text@);
        assert(fields[0] == year && fields[1] == month && fields[2] == day);
        assert(fields[3] == hour && fields[4] == minute && fields[5] == second);
    }
    match (year, month, day, hour, minute, second) {
        (Some(year), Some(month), Some(day), Some(hour), Some(minute), Some(second)) => {
            if year < 1970 || month < 1 || month > 12 || day < 1 {
                return None;
            }
            let total: u128 = day_count(year, month, day) * 86400 + hour as u128 * 3600
                + minute as u128 * 60 + second as u128;
            proof {
                assert(meant is Some ==> meant->0 == total);
            }
            if total > u64::MAX as u128 {
                return None;
            }
            let secs: u64 = total as u64;
            if text::same(iso8601_text(secs).as_str(), text) {
                proof {
                    iso8601_reads_back(secs);
                }
                Some(secs)
            } else {
                None
            }
        },
        _ => None,
    }
}

/// The years are those of the Gregorian calendar: every fourth one has a day more, but of the full
/// centuries only every fourth. So the days before a year can be counted.
pub proof fn years_are_gregorian(year: int)
    ensures
        days_in_year(year) == 366 <==> year % 400 == 0 || (year % 4 == 0 && year % 100 != 0),
        days_in_year(year) == 365 || days_in_year(year) == 366,
        year >= 1970 ==> days_before_year(year) == 365 * (year - 1970) + (year - 1969) / 4 - (year
            - 1901) / 100 + (year - 1601) / 400,
{
    if year >= 1970 {
        lemma_days_before_year(year);
    }
}

/// So many days of a year lie before each month; from March on one more in a leap year.
pub proof fn months_are_gregorian(year: int)
    ensures
        ({
            let more = days_in_year(year) - 365;
            &&& days_before_month(year, 1) == 0
            &&& days_before_month(year, 2) == 31
            &&& days_before_month(year, 3) == 59 + more
            &&& days_before_month(year, 4) == 90 + more
            &&& days_before_month(year, 5) == 120 + more
            &&& days_before_month(year, 6) == 151 + more
            &&& days_before_month(year, 7) == 181 + more
            &&& days_before_month(year, 8) == 212 + more
            &&& days_before_month(year, 9) == 243 + more
            &&& days_before_month(year, 10) == 273 + more
            &&& days_before_month(year, 11) == 304 + more
            &&& days_before_month(year, 12) == 334 + more
            &&& days_in_month(year, 12) == 31
        }),
{
    reveal_with_fuel(days_before_month, 13);
}

/// A point in time is written as `2024-02-18T15:04:05Z`: four digits or more for the year, two for
/// each other number, and these signs between them. The numbers tell the point in time: the days
/// before the year and the month, the day, and the hours, minutes and seconds of the day.
pub proof fn iso8601_is_laid_out(secs: u64)
    ensures
        ({
            let text = iso8601(secs as nat);
            let n = text.len() as int;
            let year = text::u64_of(text.subrange(0, n - 16));
            let month = text::u64_of(text.subrange(n - 15, n - 13));
            let day = text::u64_of(text.subrange(n - 12, n - 10));
            let hour = text::u64_of(text.subrange(n - 9, n - 7));
            let minute = text::u64_of(text.subrange(n - 6, n - 4));
            let second = text::u64_of(text.subrange(n - 3, n - 1));
            &&& n >= 20
            &&& text[n - 16] == '-' && text[n - 13] == '-' && text[n - 10] == 'T'
            &&& text[n - 7] == ':' && text[n - 4] == ':' && text[n - 1] == 'Z'
            &&& year is Some && year->0 >= 1970
            &&& month is Some && 1 <= month->0 <= 12
            &&& day is Some && 1 <= day->0 <= days_in_month(year->0 as int, month->0 as int)
            &&& hour is Some && hour->0 < 24
            &&& minute is Some && minute->0 < 60
            &&& second is Some && second->0 < 60
            &&& secs == (days_before_year(year->0 as int) + days_before_month(
                year->0 as int,
                month->0 as int,
            ) + day->0 - 1) * 86400 + hour->0 * 3600 + minute->0 * 60 + second->0
        }),
{
    let text = iso8601(secs as nat);
    let n = text.len() as int;
    lemma_read(text, secs);
    lemma_fields(secs);
    let fields = fields_of(text);
    let date = date_of(secs as int / 86400);
    let rest = secs % 86400;
    assert(fields[0] == Some(date.year as u64) && fields[1] == Some(date.month as u64));
    assert(fields[2] == Some(date.day as u64) && fields[3] == Some((rest / 3600) as u64));
    assert(fields[4] == Some((rest % 3600 / 60) as u64) && fields[5] == Some((rest % 60) as u64));
    lemma_signs(secs);
}

proof fn lemma_signs(secs: u64)
    ensures
        ({
            let text = iso8601(secs as nat);
            let n = text.len() as int;
            &&& text[n - 16] == '-' && text[n - 13] == '-' && text[n - 10] == 'T'
            &&& text[n - 7] == ':' && text[n - 4] == ':' && text[n - 1] == 'Z'
        }),
{
    let days = secs as int / 86400;
    let date = date_of(days);
    let rest = secs % 86400;
    lemma_date_exists(days);
    assert(days_in_month(date.year, date.month) <= 31);
    text::padded_reads_back(date.month as u64, 2);
    text::padded_reads_back(date.day as u64, 2);
    text::padded_reads_back((rest / 3600) as u64, 2);
    text::padded_reads_back((rest % 3600 / 60) as u64, 2);
    text::padded_reads_back((rest % 60) as u64, 2);
}

} // verus!
