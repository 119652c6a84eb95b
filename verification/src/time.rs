//! Dates as the lists print them: day headings ("Today", "Yesterday", "3
//! days ago") and timestamps, absolute or relative to now.

use vstd::prelude::*;

use crate::format::{decimal, div_trunc, int_text, push_int, two_digits};

verus! {

/// The earliest instant chrono represents, in milliseconds since the Unix
/// epoch: January 1 of year -262143, midnight UTC.
pub const MIN_MILLIS: i64 = -8_334_601_228_800_000;

/// The latest instant chrono represents: December 31 of year 262142, the
/// last millisecond of the day, UTC.
pub const MAX_MILLIS: i64 = 8_210_266_876_799_999;

/// One day, in milliseconds.
pub const DAY_MILLIS: i64 = 86_400_000;

/// Whether chrono can represent an instant.
pub open spec fn representable(millis: i64) -> bool {
    MIN_MILLIS <= millis <= MAX_MILLIS
}

/// Whether an instant lies within a day of the ends of chrono's range,
/// where its local date may fall outside it; chrono panics there when it
/// reads the local date.
pub open spec fn near_range_end(millis: i64) -> bool {
    representable(millis) && (millis < MIN_MILLIS + DAY_MILLIS || millis > MAX_MILLIS - DAY_MILLIS)
}

/// The first and last years of chrono's calendar.
pub const MIN_YEAR: i32 = -262_143;

pub const MAX_YEAR: i32 = 262_142;

/// Leap years of the proleptic Gregorian calendar.
pub open spec fn leap_year(y: int) -> bool {
    y % 4 == 0 && (y % 100 != 0 || y % 400 == 0)
}

pub open spec fn days_in_month(y: int, m: int) -> int {
    if m == 2 {
        if leap_year(y) {
            29
        } else {
            28
        }
    } else if m == 4 || m == 6 || m == 9 || m == 11 {
        30
    } else {
        31
    }
}

/// A day of chrono's calendar.
pub open spec fn valid_date(year: int, month: int, day: int) -> bool {
    &&& MIN_YEAR <= year <= MAX_YEAR
    &&& 1 <= month <= 12
    &&& 1 <= day <= days_in_month(year, month)
}

/// A local calendar day, as the lists print it: year, month (from 1) and day
/// of the month, and the day's number counting January 1 of year 1 as day 1,
/// which tells how many days apart two days are.
#[derive(Debug, Clone, Copy, PartialEq, Eq, Structural)]
pub struct LocalDate {
    pub year: i32,
    pub month: u32,
    pub day: u32,
    pub day_number: i32,
}

impl LocalDate {
    pub open spec fn valid(self) -> bool {
        valid_date(self.year as int, self.month as int, self.day as int)
    }

    /// A day of chrono's calendar whose number is the one its year, month and
    /// day give.
    pub open spec fn consistent(self) -> bool {
        &&& self.valid()
        &&& self.day_number as int == days_from_ce(self.year as int, self.month as int, self.day as int)
    }

    /// The local day of the instant `millis`: a consistent day within one day
    /// of the instant's UTC day, since chrono keeps every offset under 24
    /// hours.
    pub open spec fn of_instant(self, millis: i64) -> bool {
        &&& self.consistent()
        &&& utc_day_number(millis) - 1 <= self.day_number as int <= utc_day_number(millis) + 1
    }
}

/// The patterns the lists print dates with: "05 March 2024", "05 Mar" and
/// "05 Mar 2024".
pub open spec fn known_pattern(pattern: Seq<char>) -> bool {
    pattern == "%d %B %Y"@ || pattern == "%d %b"@ || pattern == "%d %b %Y"@
}

/// The days of the months before `m` in year `y`.
pub open spec fn days_before_month(y: int, m: int) -> int
    decreases m,
{
    if m <= 1 {
        0
    } else {
        days_before_month(y, m - 1) + days_in_month(y, m - 1)
    }
}

/// The number of a calendar day, counting January 1 of year 1 as day 1 (the
/// proleptic Gregorian calendar, as chrono's `num_days_from_ce` counts).
pub open spec fn days_from_ce(y: int, m: int, d: int) -> int {
    let p = y - 1;
    365 * p + p / 4 - p / 100 + p / 400 + days_before_month(y, m) + d
}

/// The number of the UTC day an instant falls on, counted the same way:
/// the Unix epoch's day is day 719163.
pub open spec fn utc_day_number(millis: i64) -> int {
    millis as int / 86_400_000 + 719_163
}

/// A number printed with at least `width` digits, zero-padded in front.
pub open spec fn padded(n: nat, width: nat) -> Seq<char> {
    let d = decimal(n);
    if d.len() >= width {
        d
    } else {
        Seq::new((width - d.len()) as nat, |i: int| '0') + d
    }
}

/// A year as chrono's `%Y` prints it: four digits from year 0 to 9999,
/// otherwise signed and at least four digits.
pub open spec fn year_text(y: int) -> Seq<char> {
    if 0 <= y <= 9999 {
        padded(y as nat, 4)
    } else if y < 0 {
        "-"@ + padded((-y) as nat, 4)
    } else {
        "+"@ + padded(y as nat, 4)
    }
}

/// Month names as `%B` prints them.
pub open spec fn month_name(m: int) -> Seq<char> {
    if m == 1 {
        "January"@
    } else if m == 2 {
        "February"@
    } else if m == 3 {
        "March"@
    } else if m == 4 {
        "April"@
    } else if m == 5 {
        "May"@
    } else if m == 6 {
        "June"@
    } else if m == 7 {
        "July"@
    } else if m == 8 {
        "August"@
    } else if m == 9 {
        "September"@
    } else if m == 10 {
        "October"@
    } else if m == 11 {
        "November"@
    } else {
        "December"@
    }
}

/// Month names as `%b` prints them.
pub open spec fn month_abbrev(m: int) -> Seq<char> {
    if m == 1 {
        "Jan"@
    } else if m == 2 {
        "Feb"@
    } else if m == 3 {
        "Mar"@
    } else if m == 4 {
        "Apr"@
    } else if m == 5 {
        "May"@
    } else if m == 6 {
        "Jun"@
    } else if m == 7 {
        "Jul"@
    } else if m == 8 {
        "Aug"@
    } else if m == 9 {
        "Sep"@
    } else if m == 10 {
        "Oct"@
    } else if m == 11 {
        "Nov"@
    } else {
        "Dec"@
    }
}

/// What `chrono::NaiveDate::format` prints for a day and one of the lists'
/// patterns: the zero-padded day of the month (`%d`), then the month's short
/// (`%b`) or full (`%B`) English name, then the year (`%Y`) where asked.
pub open spec fn date_text(year: int, month: int, day: int, pattern: Seq<char>) -> Seq<char> {
    if pattern == "%d %b"@ {
        two_digits(day as nat) + " "@ + month_abbrev(month)
    } else if pattern == "%d %b %Y"@ {
        two_digits(day as nat) + " "@ + month_abbrev(month) + " "@ + year_text(year)
    } else {
        two_digits(day as nat) + " "@ + month_name(month) + " "@ + year_text(year)
    }
}

/// `chrono::DateTime::from_timestamp_millis`, moved to the machine's time
/// zone (`with_timezone(&chrono::Local)`, `naive_local`) and read as a
/// calendar day (`chrono::Datelike`). Claimed: a day comes back exactly when
/// chrono can represent the instant (the range checked in chrono's
/// `from_timestamp`); it is a day of chrono's calendar, numbered as
/// `num_days_from_ce` documents; and it is within one day of the instant's
/// UTC day, since the offset chrono applies is a `FixedOffset`, which
/// `east_opt` keeps under 24 hours. Which of those days it is depends on the
/// time zone and is not claimed. `naive_local` panics when the local time
/// leaves chrono's range, which only an instant within a day of the range's
/// ends can do; `requires` leaves those out. chrono also expects the zone's
/// offset to be one it accepts; zone data it cannot read falls back to UTC,
/// but data holding an offset of a day or more makes it panic, which nothing
/// in the arguments rules out.
#[verifier::external_body]
fn local_date(millis: i64) -> (r: Option<LocalDate>)
    requires
        !near_range_end(millis),
    ensures
        r is Some <==> representable(millis),
        r matches Some(d) ==> d.of_instant(millis),
{
    let t = chrono::DateTime::from_timestamp_millis(millis)?.with_timezone(&chrono::Local);
    let t = t.naive_local();
    Some(LocalDate {
        year: chrono::Datelike::year(&t),
        month: chrono::Datelike::month(&t),
        day: chrono::Datelike::day(&t),
        day_number: chrono::Datelike::num_days_from_ce(&t),
    })
}

/// `chrono::Local::now`, read as a calendar day the same way. Claimed: it
/// is a day of chrono's calendar, numbered as `num_days_from_ce` documents;
/// which one depends on the clock.
#[verifier::external_body]
fn today() -> (d: LocalDate)
    ensures
        d.consistent(),
{
    let t = chrono::Local::now().naive_local();
    LocalDate {
        year: chrono::Datelike::year(&t),
        month: chrono::Datelike::month(&t),
        day: chrono::Datelike::day(&t),
        day_number: chrono::Datelike::num_days_from_ce(&t),
    }
}

/// `chrono::Local::now`, read as milliseconds since the Unix epoch. Nothing
/// is claimed of it.
#[verifier::external_body]
fn now_millis() -> i64 {
    chrono::Local::now().timestamp_millis()
}

/// `chrono::NaiveDate::format` on a day, printed. Claimed: the text is what
/// chrono's formatting code prints for that day and pattern (`date_text`).
/// `requires` keeps to days `from_ymd_opt` accepts and to the patterns the
/// lists use, on which chrono's formatting cannot fail.
#[verifier::external_body]
fn format_date(date: &LocalDate, pattern: &str) -> (s: String)
    requires
        date.valid(),
        known_pattern(pattern@),
    ensures
        s@ == date_text(date.year as int, date.month as int, date.day as int, pattern@),
{
    let d = chrono::NaiveDate::from_ymd_opt(date.year, date.month, date.day).unwrap();
    d.format(pattern).to_string()
}

/// Which heading a day gets, by how many days ago it was.
#[derive(Debug, Clone, Copy, PartialEq, Eq, Structural)]
pub enum DayBucket {
    Today,
    Yesterday,
    /// Within the week (also a date in the future).
    DaysAgo(i64),
    /// Longer ago: the date itself.
    OnDate,
}

pub open spec fn bucket_of_spec(days: i64) -> DayBucket {
    if days == 0 {
        DayBucket::Today
    } else if days == 1 {
        DayBucket::Yesterday
    } else if days < 7 {
        DayBucket::DaysAgo(days)
    } else {
        DayBucket::OnDate
    }
}

pub fn bucket_of(days: i64) -> (b: DayBucket)
    ensures
        b == bucket_of_spec(days),
{
    if days == 0 {
        DayBucket::Today
    } else if days == 1 {
        DayBucket::Yesterday
    } else if days < 7 {
        DayBucket::DaysAgo(days)
    } else {
        DayBucket::OnDate
    }
}

/// The heading of a bucket, except the date of `OnDate`.
pub open spec fn bucket_text(b: DayBucket) -> Option<Seq<char>> {
    match b {
        DayBucket::Today => Some("Today"@),
        DayBucket::Yesterday => Some("Yesterday"@),
        DayBucket::DaysAgo(n) => Some(int_text(n as int) + " days ago"@),
        DayBucket::OnDate => None,
    }
}

pub fn bucket_label(b: DayBucket) -> (r: Option<String>)
    ensures
        match bucket_text(b) {
            Some(t) => r matches Some(s) && s@ == t,
            None => r is None,
        },
{
    match b {
        DayBucket::Today => Some(String::from_str("Today")),
        DayBucket::Yesterday => Some(String::from_str("Yesterday")),
        DayBucket::DaysAgo(n) => {
            let mut s = String::new();
            push_int(&mut s, n);
            s.append(" days ago");
            Some(s)
        },
        DayBucket::OnDate => None,
    }
}

/// The first character of a printed integer is a digit or a minus sign.
proof fn lemma_int_text_start(n: int)
    ensures
        int_text(n).len() > 0,
        int_text(n)[0] == '-' || ('0' <= int_text(n)[0] <= '9'),
{
    if n < 0 {
        lemma_decimal_start((-n) as nat);
    } else {
        lemma_decimal_start(n as nat);
    }
}

proof fn lemma_decimal_start(n: nat)
    ensures
        decimal(n).len() > 0,
        '0' <= decimal(n)[0] <= '9',
    decreases n,
{
    if n >= 10 {
        lemma_decimal_start(n / 10);
    }
}

/// A printed date starts with the two digits of its day.
proof fn lemma_date_text_start(year: int, month: int, day: int, pattern: Seq<char>)
    requires
        1 <= day <= 31,
    ensures
        date_text(year, month, day, pattern).len() >= 2,
        '0' <= date_text(year, month, day, pattern)[0] <= '9',
{
    let n = day as nat;
    if n >= 10 {
        lemma_decimal_start(n / 10);
        assert(decimal(n) == decimal(n / 10).push(crate::format::digit_char((n % 10) as int)));
        assert(decimal(n)[0] == decimal(n / 10)[0]);
    }
    assert(two_digits(n).len() >= 2);
    assert(date_text(year, month, day, pattern)[0] == two_digits(n)[0]);
}

/// The heading of a day `days` days before today (negative for a day to
/// come): the bucket's text, or the date itself ("05 March 2024").
pub open spec fn heading_text(days: i64, date: LocalDate) -> Seq<char> {
    match bucket_text(bucket_of_spec(days)) {
        Some(t) => t,
        None => date_text(date.year as int, date.month as int, date.day as int, "%d %B %Y"@),
    }
}

/// Prints the heading of `date`, `days` days before today.
pub fn day_heading(days: i64, date: &LocalDate) -> (s: String)
    requires
        date.valid(),
    ensures
        s@ == heading_text(days, *date),
        s@.len() > 0,
        s@ != "Unknown date"@,
{
    proof {
        reveal_strlit("Unknown date");
        reveal_strlit("Today");
        reveal_strlit("Yesterday");
        reveal_strlit(" days ago");
    }
    match bucket_label(bucket_of(days)) {
        Some(text) => {
            proof {
                if days != 0 && days != 1 && days < 7 {
                    lemma_int_text_start(days as int);
                    assert(text@[0] == int_text(days as int)[0]);
                }
            }
            text
        },
        None => {
            proof {
                lemma_date_text_start(date.year as int, date.month as int, date.day as int, "%d %B %Y"@);
            }
            format_date(date, "%d %B %Y")
        },
    }
}

/// The heading that groups list rows by day: "Today", "Yesterday", "N days
/// ago" within the week, the date ("05 March 2024") before that, and
/// "Unknown date" for an instant chrono cannot represent. Days are local
/// calendar days: today and the instant's day come from the clock and the time
/// zone, and the heading is `heading_text` of the two.
pub fn day_bucket(millis: i64) -> (s: String)
    requires
        !near_range_end(millis),
    ensures
        !representable(millis) <==> s@ == "Unknown date"@,
        representable(millis) ==> exists|now: LocalDate, date: LocalDate|
            now.consistent() && date.of_instant(millis) && s@ == heading_text(
                (now.day_number - date.day_number) as i64,
                date,
            ),
{
    let date = match local_date(millis) {
        Some(d) => d,
        None => {
            return String::from_str("Unknown date");
        },
    };
    let now = today();
    let days = now.day_number as i64 - date.day_number as i64;
    let s = day_heading(days, &date);
    assert(now.consistent() && date.of_instant(millis) && s@ == heading_text(
        (now.day_number - date.day_number) as i64,
        date,
    ));
    s
}

/// How long ago something happened, as a relative timestamp reads it.
#[derive(Debug, Clone, Copy, PartialEq, Eq, Structural)]
pub enum Age {
    JustNow,
    Minutes(i64),
    Hours(i64),
    Days(i64),
    /// Within the year: the day and month.
    ThisYear,
    /// Longer ago: the full date.
    Older,
}

/// The age of something that happened `elapsed` milliseconds ago, in the
/// whole minutes, hours and days chrono's `TimeDelta` counts (rounded
/// towards zero).
pub open spec fn age_of_spec(elapsed: int) -> Age {
    let minutes = div_trunc(elapsed, 60_000);
    let hours = div_trunc(elapsed, 3_600_000);
    let days = div_trunc(elapsed, 86_400_000);
    if minutes < 1 {
        Age::JustNow
    } else if minutes < 60 {
        Age::Minutes(minutes as i64)
    } else if hours < 24 {
        Age::Hours(hours as i64)
    } else if days < 7 {
        Age::Days(days as i64)
    } else if days < 365 {
        Age::ThisYear
    } else {
        Age::Older
    }
}

pub fn age_of(elapsed: i128) -> (a: Age)
    ensures
        a == age_of_spec(elapsed as int),
{
    if elapsed < 60_000 {
        return Age::JustNow;
    }
    let minutes = elapsed / 60_000;
    if minutes < 60 {
        return Age::Minutes(minutes as i64);
    }
    let hours = elapsed / 3_600_000;
    if hours < 24 {
        return Age::Hours(hours as i64);
    }
    let days = elapsed / 86_400_000;
    if days < 7 {
        Age::Days(days as i64)
    } else if days < 365 {
        Age::ThisYear
    } else {
        Age::Older
    }
}

/// The text of a relative age, except the dates of `ThisYear` and `Older`.
pub open spec fn age_text(a: Age) -> Option<Seq<char>> {
    match a {
        Age::JustNow => Some("Just now"@),
        Age::Minutes(m) => Some(int_text(m as int) + " min ago"@),
        Age::Hours(h) => Some(int_text(h as int) + " h ago"@),
        Age::Days(d) => Some(int_text(d as int) + " d ago"@),
        _ => None,
    }
}

pub fn age_label(a: Age) -> (r: Option<String>)
    ensures
        match age_text(a) {
            Some(t) => r matches Some(s) && s@ == t,
            None => r is None,
        },
{
    match a {
        Age::JustNow => Some(String::from_str("Just now")),
        Age::Minutes(m) => {
            let mut s = String::new();
            push_int(&mut s, m);
            s.append(" min ago");
            Some(s)
        },
        Age::Hours(h) => {
            let mut s = String::new();
            push_int(&mut s, h);
            s.append(" h ago");
            Some(s)
        },
        Age::Days(d) => {
            let mut s = String::new();
            push_int(&mut s, d);
            s.append(" d ago");
            Some(s)
        },
        _ => None,
    }
}

/// The pattern a timestamp's date is printed with: day and month within the
/// year, when relative; the full date otherwise.
pub open spec fn date_pattern(age: Age, relative: bool) -> Seq<char> {
    if relative && age is ThisYear {
        "%d %b"@
    } else {
        "%d %b %Y"@
    }
}

/// A timestamp's text, `elapsed` milliseconds after it happened on `date`:
/// the relative age when asked and recent enough, otherwise the date.
pub open spec fn timestamp_text(elapsed: int, date: LocalDate, relative: bool) -> Seq<char> {
    let age = age_of_spec(elapsed);
    match age_text(age) {
        Some(t) if relative => t,
        _ => date_text(date.year as int, date.month as int, date.day as int, date_pattern(age, relative)),
    }
}

/// The text of the timestamp `millis` when the clock reads `now`.
pub open spec fn stamp_at(millis: i64, now: i64, date: LocalDate, relative: bool) -> Seq<char> {
    timestamp_text(now - millis, date, relative)
}

/// Prints a timestamp that happened `elapsed` milliseconds ago on `date`.
pub fn timestamp_label(elapsed: i128, date: &LocalDate, relative: bool) -> (s: String)
    requires
        date.valid(),
    ensures
        s@ == timestamp_text(elapsed as int, *date, relative),
        s@.len() > 0,
        s@ != "Unknown"@,
{
    proof {
        reveal_strlit("Unknown");
        reveal_strlit("Just now");
        reveal_strlit(" min ago");
        reveal_strlit(" h ago");
        reveal_strlit(" d ago");
    }
    let age = age_of(elapsed);
    if relative {
        match age_label(age) {
            Some(text) => {
                proof {
                    match age {
                        Age::Minutes(n) => {
                            lemma_int_text_start(n as int);
                            assert(text@[0] == int_text(n as int)[0]);
                        },
                        Age::Hours(n) => {
                            lemma_int_text_start(n as int);
                            assert(text@[0] == int_text(n as int)[0]);
                        },
                        Age::Days(n) => {
                            lemma_int_text_start(n as int);
                            assert(text@[0] == int_text(n as int)[0]);
                        },
                        _ => {
                            assert(text@[0] == 'J');
                        },
                    }
                    assert(text@[0] != "Unknown"@[0]);
                }
                return text;
            },
            None => {},
        }
        if age == Age::ThisYear {
            proof {
                lemma_date_text_start(date.year as int, date.month as int, date.day as int, "%d %b"@);
            }
            return format_date(date, "%d %b");
        }
    }
    proof {
        lemma_date_text_start(date.year as int, date.month as int, date.day as int, "%d %b %Y"@);
    }
    format_date(date, "%d %b %Y")
}

/// A timestamp as the history and updates lists print it: "Unknown" for
/// none (zero or below) or one chrono cannot represent; relative to now
/// when asked ("Just now", "12 min ago", "3 h ago", "2 d ago", then the day
/// and month within the year); otherwise, and for anything older, the full
/// local date ("05 Mar 2024"). The clock and the local day come from the
/// machine, and the text is `timestamp_text` of them.
pub fn format_timestamp(millis: i64, relative: bool) -> (s: String)
    requires
        !near_range_end(millis),
    ensures
        (millis <= 0 || !representable(millis)) <==> s@ == "Unknown"@,
        !(millis <= 0 || !representable(millis)) ==> s@.len() > 0 && exists|now: i64, date: LocalDate|
            date.of_instant(millis) && s@ == #[trigger] stamp_at(millis, now, date, relative),
{
    if millis <= 0 {
        return String::from_str("Unknown");
    }
    let date = match local_date(millis) {
        Some(d) => d,
        None => {
            return String::from_str("Unknown");
        },
    };
    let now = now_millis();
    let s = timestamp_label(now as i128 - millis as i128, &date, relative);
    assert(date.of_instant(millis) && s@ == stamp_at(millis, now, date, relative));
    s
}

} // verus!
