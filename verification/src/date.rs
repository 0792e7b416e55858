//! Calendar dates of posts: validity, order and the long display form.

use chrono::Datelike;
use chrono::NaiveDate;
use vstd::prelude::*;

verus! {

/// The earliest year a date can have.
pub const MIN_YEAR: i32 = -262143;

/// The latest year a date can have.
pub const MAX_YEAR: i32 = 262142;

/// The year has a 29th of February.
pub open spec fn is_leap_year(year: int) -> bool {
    year % 4 == 0 && (year % 100 != 0 || year % 400 == 0)
}

/// The number of days of `month` in `year`, in the proleptic Gregorian
/// calendar.
pub open spec fn days_in_month(year: int, month: int) -> int {
    if month == 2 {
        if is_leap_year(year) {
            29
        } else {
            28
        }
    } else if month == 4 || month == 6 || month == 9 || month == 11 {
        30
    } else {
        31
    }
}

/// Year, month and day name a day of the calendar.
pub open spec fn is_calendar_day(year: int, month: int, day: int) -> bool {
    &&& MIN_YEAR <= year <= MAX_YEAR
    &&& 1 <= month <= 12
    &&& 1 <= day <= days_in_month(year, month)
}

/// A calendar date without a time of day. Every value is a real day.
#[derive(Clone, Copy, Debug, PartialEq, Eq, Structural)]
pub struct PostDate {
    year: i32,
    month: u32,
    day: u32,
}

impl PostDate {
    #[verifier::type_invariant]
    spec fn is_real(self) -> bool {
        is_calendar_day(self.year as int, self.month as int, self.day as int)
    }

    /// The year of the date.
    pub closed spec fn spec_year(&self) -> i32 {
        self.year
    }

    /// The month of the date.
    pub closed spec fn spec_month(&self) -> u32 {
        self.month
    }

    /// The day of the month of the date.
    pub closed spec fn spec_day(&self) -> u32 {
        self.day
    }

    /// The date is a day of the calendar. Holds of every value in
    /// executable code.
    pub open spec fn is_valid(self) -> bool {
        is_calendar_day(self.spec_year() as int, self.spec_month() as int, self.spec_day() as int)
    }

    /// `self` is a later day than `other`.
    pub open spec fn is_after(self, other: PostDate) -> bool {
        ||| self.spec_year() > other.spec_year()
        ||| self.spec_year() == other.spec_year() && self.spec_month() > other.spec_month()
        ||| self.spec_year() == other.spec_year() && self.spec_month() == other.spec_month()
            && self.spec_day() > other.spec_day()
    }

    /// The date of the given day, if there is such a day.
    pub fn from_ymd(year: i32, month: u32, day: u32) -> (r: Option<PostDate>)
        ensures
            r is Some <==> is_calendar_day(year as int, month as int, day as int),
            r matches Some(d) ==> d.spec_year() == year && d.spec_month() == month && d.spec_day()
                == day,
    {
        if year < MIN_YEAR || year > MAX_YEAR || month < 1 || month > 12 || day < 1 {
            return None;
        }
        let leap: bool = year % 4 == 0 && (year % 100 != 0 || year % 400 == 0);
        let last: u32 = if month == 2 {
            if leap {
                29
            } else {
                28
            }
        } else if month == 4 || month == 6 || month == 9 || month == 11 {
            30
        } else {
            31
        };
        if day > last {
            return None;
        }
        Some(PostDate { year, month, day })
    }

    /// The year; 0 is the year before the year 1.
    #[verifier::when_used_as_spec(spec_year)]
    pub fn year(&self) -> (r: i32)
        ensures
            r == self.spec_year(),
    {
        self.year
    }

    /// The month, from 1 for January.
    #[verifier::when_used_as_spec(spec_month)]
    pub fn month(&self) -> (r: u32)
        ensures
            r == self.spec_month(),
            1 <= r <= 12,
    {
        proof {
            use_type_invariant(self);
        }
        self.month
    }

    /// The day of the month, from 1.
    #[verifier::when_used_as_spec(spec_day)]
    pub fn day(&self) -> (r: u32)
        ensures
            r == self.spec_day(),
            1 <= r <= 31,
    {
        proof {
            use_type_invariant(self);
        }
        self.day
    }

    /// Whether `self` is a later day than `other`.
    pub fn later_than(&self, other: &PostDate) -> (r: bool)
        ensures
            r == self.is_after(*other),
    {
        self.year > other.year || (self.year == other.year && (self.month > other.month || (
        self.month == other.month && self.day > other.day)))
    }
}

/// "Later than" orders the days: no two days are each later than the
/// other, and a day that is not later than a second, which is not later
/// than a third, is not later than the third.
pub proof fn lemma_date_order(a: PostDate, b: PostDate, c: PostDate)
    ensures
        !(a.is_after(b) && b.is_after(a)),
        a.is_after(b) && b.is_after(c) ==> a.is_after(c),
        !a.is_after(b) && !b.is_after(c) ==> !a.is_after(c),
{
}

/// What `chrono` reads from a text as a date: its `FromStr` for
/// `NaiveDate`, with the year, month and day of the result.
pub uninterp spec fn date_from_text(text: Seq<char>) -> Option<PostDate>;

/// Calls `NaiveDate::from_str`, the parser behind `str::parse`. The
/// result is named by `date_from_text`; a date that comes out is a day of
/// the calendar, as every `NaiveDate` is.
#[verifier::external_body]
pub(crate) fn parse_date(text: &str) -> (r: Option<PostDate>)
    ensures
        r == date_from_text(text@),
        r matches Some(d) ==> d.is_valid(),
{
    match text.parse::<NaiveDate>() {
        Ok(d) => Some(PostDate { year: d.year(), month: d.month(), day: d.day() }),
        Err(_) => None,
    }
}

/// The decimal digit for `n`, where `0 <= n <= 9`.
pub open spec fn digit(n: int) -> char {
    (('0' as int) + n) as char
}

/// `n` in decimal, without leading zeros.
pub open spec fn decimal(n: nat) -> Seq<char>
    decreases n,
{
    if n < 10 {
        seq![digit(n as int)]
    } else {
        decimal(n / 10).push(digit((n % 10) as int))
    }
}

/// `n` in decimal, with zeros in front while it is shorter than four digits.
pub open spec fn four_digits(n: nat) -> Seq<char> {
    if n < 10 {
        seq!['0', '0', '0'] + decimal(n)
    } else if n < 100 {
        seq!['0', '0'] + decimal(n)
    } else if n < 1000 {
        seq!['0'] + decimal(n)
    } else {
        decimal(n)
    }
}

/// The year as the long form shows it: four digits from 0 to 9999, else
/// a sign and at least four digits.
pub open spec fn year_text(year: int) -> Seq<char> {
    if 0 <= year <= 9999 {
        four_digits(year as nat)
    } else if year < 0 {
        seq!['-'] + four_digits((-year) as nat)
    } else {
        seq!['+'] + four_digits(year as nat)
    }
}

/// The day of the month in two columns, a space in front of a single digit.
pub open spec fn day_text(day: int) -> Seq<char> {
    if day < 10 {
        seq![' ', digit(day)]
    } else {
        seq![digit(day / 10), digit(day % 10)]
    }
}

/// The English name of the month.
pub open spec fn month_name(month: int) -> Seq<char> {
    if month == 1 {
        "January"@
    } else if month == 2 {
        "February"@
    } else if month == 3 {
        "March"@
    } else if month == 4 {
        "April"@
    } else if month == 5 {
        "May"@
    } else if month == 6 {
        "June"@
    } else if month == 7 {
        "July"@
    } else if month == 8 {
        "August"@
    } else if month == 9 {
        "September"@
    } else if month == 10 {
        "October"@
    } else if month == 11 {
        "November"@
    } else {
        "December"@
    }
}

/// The long display form of a date, as in `January  5, 2024`.
pub open spec fn long_date_text(date: PostDate) -> Seq<char> {
    month_name(date.spec_month() as int) + seq![' '] + day_text(date.spec_day() as int) + seq![
        ',',
        ' ',
    ] + year_text(date.spec_year() as int)
}

/// Calls `NaiveDate::format` on the same day. For the pattern
/// `%B %e, %Y` that gives the month's English name, the day padded with a
/// space to two columns, and the year in four digits, signed outside 0 to
/// 9999.
#[verifier::external_body]
pub(crate) fn format_with(date: &PostDate, pattern: &str) -> (out: String)
    requires
        date.is_valid(),
        pattern@ == "%B %e, %Y"@,
    ensures
        out@ == long_date_text(*date),
{
    let day = NaiveDate::from_ymd_opt(date.year, date.month, date.day).unwrap();
    day.format(pattern).to_string()
}

/// The text shown for a post's date: the long form, or `Unknown date`
/// where the post has none.
pub open spec fn date_label(input: Option<PostDate>) -> Seq<char> {
    match input {
        Some(d) => long_date_text(d),
        None => "Unknown date"@,
    }
}

/// The text shown for a post's date.
pub fn format_date(input: Option<PostDate>) -> (out: String)
    ensures
        out@ == date_label(input),
{
    match input {
        Some(d) => {
            proof {
                use_type_invariant(&d);
            }
            format_with(&d, "%B %e, %Y")
        },
        None => "Unknown date".to_string(),
    }
}

} // verus!
